//! The matcher for one path.

use crate::book::GutenbergFileEntry;
use crate::chars::{split, split_on, strings_view};
use crate::error::Error;
use crate::fst_parser::{
    cursor_at_end, cursor_end, cursor_start, FSTParser, MatcherState, ParseItemResult,
    ParseResult, PathState,
};
use crate::fst_parser_type::ParseType;
use vstd::prelude::*;
use vstd::string::StringExecFns;

verus! {

/// A matcher for one path: it captures the text of the node at the path's
/// end.
pub struct FSTParserNode {
    pub pos: i32,
    pub states: Vec<String>,
    pub result: ParseItemResult,
    pub has_result: bool,
    pub parse_type: ParseType,
}

impl View for FSTParserNode {
    type V = PathState;

    open spec fn view(&self) -> PathState {
        PathState {
            path: strings_view(self.states@),
            pos: self.pos as int,
            links: self.result.item_links@,
            has_result: self.has_result,
            kind: self.parse_type,
        }
    }
}

impl FSTParser for FSTParserNode {
    open spec fn state(&self) -> MatcherState {
        MatcherState::Path(self@)
    }

    fn text(&mut self, text: &str, parse_result: &mut ParseResult, book_id: usize) -> (r: Result<
        (),
        Error,
    >) {
        if !self.is_found() {
            return Ok(());
        }
        self.has_result = true;
        self.result.add(parse_result, self.parse_type, String::from_str(text), book_id)
    }

    fn reset(&mut self) {
        self.has_result = false;
        self.pos = -1;
        self.result.reset();
        assert(self.result.item_links@ =~= Seq::<usize>::empty());
    }

    fn attribute(
        &mut self,
        _attribute_name: &str,
        _attribute_value: &str,
        _parse_result: &mut ParseResult,
        _book_id: usize,
    ) -> (r: Result<(), Error>) {
        Ok(())
    }

    fn start_node(&mut self, node_name: &str) {
        self.pos = cursor_start(&self.states, self.pos, node_name);
    }

    fn end_node(&mut self, node_name: &str) {
        self.pos = cursor_end(&self.states, self.pos, node_name);
    }

    fn is_found(&self) -> (found: bool) {
        cursor_at_end(&self.states, self.pos)
    }

    fn has_results(&self) -> (has: bool) {
        self.has_result
    }

    fn get_parse_type(&self) -> (kind: ParseType) {
        self.parse_type
    }

    fn get_result(&self) -> (r: Result<&ParseItemResult, Error>) {
        Ok(&self.result)
    }

    fn get_files(&self) -> (r: Result<Vec<GutenbergFileEntry>, Error>) {
        Err(Error::InvalidResult(String::from_str("no results")))
    }
}

/// The names of a path written with `/` between them.
pub open spec fn path_names(path: Seq<char>) -> Seq<Seq<char>> {
    split_on(path, '/')
}

impl FSTParserNode {
    /// A matcher for the path whose names `path` gives, separated by `/`.
    pub fn build(path: &str, parse_type: ParseType) -> (parser: FSTParserNode)
        requires
            path_names(path@).len() <= i32::MAX,
        ensures
            parser@ == PathState::fresh(path_names(path@), parse_type),
            parser@.wf(),
    {
        let states: Vec<String> = split(path, '/');
        let parser = FSTParserNode {
            pos: -1,
            states,
            has_result: false,
            parse_type,
            result: ParseItemResult { item_links: Vec::new() },
        };
        assert(parser@.links =~= Seq::<usize>::empty());
        parser
    }
}

} // verus!
