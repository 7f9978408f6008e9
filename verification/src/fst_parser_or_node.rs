//! The matcher for a field that can stand in several places.

use crate::book::GutenbergFileEntry;
use crate::chars::strings_view;
use crate::error::Error;
use crate::fst_parser::{
    first_with_result, nodes_after_end, nodes_after_reset, nodes_after_start, nodes_after_text,
    FSTParser, MatcherState, ParseItemResult, ParseResult, PathState,
};
use crate::fst_parser_node::FSTParserNode;
use crate::fst_parser_type::ParseType;
use vstd::prelude::*;
use vstd::string::StringExecFns;

verus! {

/// A matcher for one field that can stand in several places: one path
/// matcher for each place, in order of preference.
pub struct FSTParserOrNode {
    pub nodes: Vec<FSTParserNode>,
    pub parse_type: ParseType,
}

/// What each of the path matchers holds.
pub open spec fn nodes_view(nodes: Seq<FSTParserNode>) -> Seq<PathState> {
    Seq::new(nodes.len(), |i: int| nodes[i]@)
}

/// The path matchers as they are built: one for each path, nothing seen.
pub open spec fn fresh_nodes(paths: Seq<Vec<String>>, kind: ParseType) -> Seq<PathState> {
    Seq::new(paths.len(), |i: int| PathState::fresh(strings_view(paths[i]@), kind))
}

impl FSTParser for FSTParserOrNode {
    open spec fn state(&self) -> MatcherState {
        MatcherState::Alternation { nodes: nodes_view(self.nodes@), kind: self.parse_type }
    }

    fn text(&mut self, text: &str, parse_result: &mut ParseResult, book_id: usize) -> (r: Result<
        (),
        Error,
    >) {
        let n = self.nodes.len();
        assert(self.state()->nodes == nodes_view(self.nodes@));
        assert(nodes_view(self.nodes@).len() == n);
        assert forall|j: int| 0 <= j < n implies (#[trigger] self.nodes@[j])@.wf() by {
            assert(nodes_view(self.nodes@)[j].wf());
        }
        let ghost nodes0 = nodes_view(self.nodes@);
        let ghost corpus0 = parse_result@;
        let mut i: usize = 0;
        while i < n
            invariant
                self.nodes@.len() == n,
                i <= n,
                self.parse_type == old(self).parse_type,
                forall|j: int| 0 <= j < n ==> (#[trigger] self.nodes@[j])@.wf(),
                parse_result@.wf(),
                nodes_after_text(nodes0, text@, corpus0, book_id, 0) == nodes_after_text(
                    nodes_view(self.nodes@),
                    text@,
                    parse_result@,
                    book_id,
                    i as int,
                ),
            decreases n - i,
        {
            let ghost before = nodes_view(self.nodes@);
            let ghost corpus_before = parse_result@;
            assert(self.nodes@[i as int]@.wf());
            let r = self.nodes[i].text(text, parse_result, book_id);
            assert(nodes_view(self.nodes@) =~= before.update(
                i as int,
                before[i as int].after_text(text@, corpus_before),
            ));
            match r {
                Ok(_) => {},
                Err(e) => {
                    return Err(e);
                },
            }
            i += 1;
        }
        Ok(())
    }

    fn reset(&mut self) {
        let n = self.nodes.len();
        assert(self.state()->nodes == nodes_view(self.nodes@));
        assert(nodes_view(self.nodes@).len() == n);
        assert forall|j: int| 0 <= j < n implies (#[trigger] self.nodes@[j])@.wf() by {
            assert(nodes_view(self.nodes@)[j].wf());
        }
        let ghost nodes0 = nodes_view(self.nodes@);
        let mut i: usize = 0;
        while i < n
            invariant
                self.nodes@.len() == n,
                nodes0.len() == n,
                i <= n,
                self.parse_type == old(self).parse_type,
                forall|j: int| 0 <= j < n ==> (#[trigger] self.nodes@[j])@.wf(),
                forall|j: int| 0 <= j < i ==> (#[trigger] self.nodes@[j])@ == nodes0[j].after_reset(),
                forall|j: int| i <= j < n ==> (#[trigger] self.nodes@[j])@ == nodes0[j],
            decreases n - i,
        {
            assert(self.nodes@[i as int]@.wf());
            self.nodes[i].reset();
            i += 1;
        }
        assert(nodes_view(self.nodes@) =~= nodes_after_reset(nodes0));
    }

    fn attribute(
        &mut self,
        _attribute_name: &str,
        _attribute_value: &str,
        _parse_result: &mut ParseResult,
        _book_id: usize,
    ) -> (r: Result<(), Error>) {
        Ok(())
    }

    fn start_node(&mut self, node_name: &str) {
        let n = self.nodes.len();
        assert(self.state()->nodes == nodes_view(self.nodes@));
        assert(nodes_view(self.nodes@).len() == n);
        assert forall|j: int| 0 <= j < n implies (#[trigger] self.nodes@[j])@.wf() by {
            assert(nodes_view(self.nodes@)[j].wf());
        }
        let ghost nodes0 = nodes_view(self.nodes@);
        let mut i: usize = 0;
        while i < n
            invariant
                self.nodes@.len() == n,
                nodes0.len() == n,
                i <= n,
                self.parse_type == old(self).parse_type,
                forall|j: int| 0 <= j < n ==> (#[trigger] self.nodes@[j])@.wf(),
                forall|j: int| 0 <= j < i ==> (#[trigger] self.nodes@[j])@ == nodes0[j].after_start(node_name@),
                forall|j: int| i <= j < n ==> (#[trigger] self.nodes@[j])@ == nodes0[j],
            decreases n - i,
        {
            assert(self.nodes@[i as int]@.wf());
            self.nodes[i].start_node(node_name);
            i += 1;
        }
        assert(nodes_view(self.nodes@) =~= nodes_after_start(nodes0, node_name@));
    }

    fn end_node(&mut self, node_name: &str) {
        let n = self.nodes.len();
        assert(self.state()->nodes == nodes_view(self.nodes@));
        assert(nodes_view(self.nodes@).len() == n);
        assert forall|j: int| 0 <= j < n implies (#[trigger] self.nodes@[j])@.wf() by {
            assert(nodes_view(self.nodes@)[j].wf());
        }
        let ghost nodes0 = nodes_view(self.nodes@);
        let mut i: usize = 0;
        while i < n
            invariant
                self.nodes@.len() == n,
                nodes0.len() == n,
                i <= n,
                self.parse_type == old(self).parse_type,
                forall|j: int| 0 <= j < n ==> (#[trigger] self.nodes@[j])@.wf(),
                forall|j: int|
                    0 <= j < i ==> (#[trigger] self.nodes@[j])@ == nodes0[j].after_end(node_name@),
                forall|j: int| i <= j < n ==> (#[trigger] self.nodes@[j])@ == nodes0[j],
            decreases n - i,
        {
            assert(self.nodes@[i as int]@.wf());
            self.nodes[i].end_node(node_name);
            i += 1;
        }
        assert(nodes_view(self.nodes@) =~= nodes_after_end(nodes0, node_name@));
    }

    fn is_found(&self) -> (found: bool) {
        let n = self.nodes.len();
        assert(self.state()->nodes == nodes_view(self.nodes@));
        assert(nodes_view(self.nodes@).len() == n);
        assert forall|j: int| 0 <= j < n implies (#[trigger] self.nodes@[j])@.wf() by {
            assert(nodes_view(self.nodes@)[j].wf());
        }
        let mut i: usize = 0;
        while i < n
            invariant
                self.nodes@.len() == n,
                i <= n,
                forall|j: int| 0 <= j < n ==> (#[trigger] self.nodes@[j])@.wf(),
                forall|j: int| 0 <= j < i ==> !(#[trigger] self.nodes@[j])@.found(),
            decreases n - i,
        {
            assert(self.nodes@[i as int]@.wf());
            if self.nodes[i].is_found() {
                assert(self.state()->nodes[i as int].found());
                return true;
            }
            i += 1;
        }
        assert forall|j: int| 0 <= j < n implies !(#[trigger] nodes_view(self.nodes@)[j]).found() by {
            assert(!self.nodes@[j]@.found());
        }
        false
    }

    fn has_results(&self) -> (has: bool) {
        let n = self.nodes.len();
        assert(self.state()->nodes == nodes_view(self.nodes@));
        assert(nodes_view(self.nodes@).len() == n);
        assert forall|j: int| 0 <= j < n implies (#[trigger] self.nodes@[j])@.wf() by {
            assert(nodes_view(self.nodes@)[j].wf());
        }
        let mut i: usize = 0;
        while i < n
            invariant
                self.nodes@.len() == n,
                i <= n,
                forall|j: int| 0 <= j < n ==> (#[trigger] self.nodes@[j])@.wf(),
                first_with_result(nodes_view(self.nodes@), 0) == first_with_result(
                    nodes_view(self.nodes@),
                    i as int,
                ),
            decreases n - i,
        {
            assert(self.nodes@[i as int]@.wf());
            if self.nodes[i].has_results() {
                return true;
            }
            i += 1;
        }
        false
    }

    fn get_parse_type(&self) -> (kind: ParseType) {
        self.parse_type
    }

    fn get_result(&self) -> (r: Result<&ParseItemResult, Error>) {
        let n = self.nodes.len();
        assert(self.state()->nodes == nodes_view(self.nodes@));
        assert(nodes_view(self.nodes@).len() == n);
        assert forall|j: int| 0 <= j < n implies (#[trigger] self.nodes@[j])@.wf() by {
            assert(nodes_view(self.nodes@)[j].wf());
        }
        let mut i: usize = 0;
        while i < n
            invariant
                self.nodes@.len() == n,
                i <= n,
                forall|j: int| 0 <= j < n ==> (#[trigger] self.nodes@[j])@.wf(),
                first_with_result(nodes_view(self.nodes@), 0) == first_with_result(
                    nodes_view(self.nodes@),
                    i as int,
                ),
            decreases n - i,
        {
            assert(self.nodes@[i as int]@.wf());
            if self.nodes[i].has_results() {
                return self.nodes[i].get_result();
            }
            i += 1;
        }
        Err(Error::InvalidResult(String::from_str("no results")))
    }

    fn get_files(&self) -> (r: Result<Vec<GutenbergFileEntry>, Error>) {
        Err(Error::InvalidResult(String::from_str("no files")))
    }
}

impl FSTParserOrNode {
    /// A matcher for the field `parse_type` that looks along each of the
    /// paths of `states_str`, the first being preferred.
    pub fn build(states_str: Vec<Vec<String>>, parse_type: ParseType) -> (parser: FSTParserOrNode)
        requires
            forall|i: int|
                0 <= i < states_str@.len() ==> 1 <= (#[trigger] states_str@[i])@.len() <= i32::MAX,
        ensures
            parser.state() == (MatcherState::Alternation {
                nodes: fresh_nodes(states_str@, parse_type),
                kind: parse_type,
            }),
            parser.state().wf(),
    {
        let mut nodes: Vec<FSTParserNode> = Vec::new();
        let ghost paths = states_str@;
        for node_states in it: states_str
            invariant
                it.seq() == paths,
                nodes@.len() == it.index(),
                forall|j: int|
                    0 <= j < it.index() ==> (#[trigger] nodes@[j])@ == PathState::fresh(
                        strings_view(paths[j]@),
                        parse_type,
                    ),
        {
            let node = FSTParserNode {
                pos: -1,
                states: node_states,
                has_result: false,
                parse_type,
                result: ParseItemResult { item_links: Vec::new() },
            };
            assert(node@.links =~= Seq::<usize>::empty());
            nodes.push(node);
        }
        let parser = FSTParserOrNode { nodes, parse_type };
        assert(nodes_view(parser.nodes@) =~= fresh_nodes(paths, parse_type));
        parser
    }
}

} // verus!
