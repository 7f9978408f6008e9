//! The matcher for the files of a work.

use crate::book::GutenbergFileEntry;
use crate::chars::{str_eq, strings_view};
use crate::error::Error;
use crate::dictionary::{dict_id, lemma_dict_id, lemma_interned};
use crate::fst_parser::{
    cursor_at_end, cursor_end, cursor_start, CorpusView, FSTParser, FileState, MatcherEvent,
    MatcherState, ParseItemResult, ParseResult,
};
use crate::fst_parser_type::ParseType;
use vstd::prelude::*;
use vstd::string::StringExecFns;

verus! {

/// A matcher for the files of a work. Each file stands in a block of its
/// own: the link is an attribute of a node on the path, the type is the text
/// of the node at the path's end.
pub struct FSTParserFileNode {
    pub pos: i32,
    pub attribute_states_idx: i32,
    pub states: Vec<String>,
    pub attribute: String,
    pub has_node: bool,
    pub parse_type: ParseType,
    pub files: Vec<GutenbergFileEntry>,
}

impl View for FSTParserFileNode {
    type V = FileState;

    open spec fn view(&self) -> FileState {
        FileState {
            path: strings_view(self.states@),
            attribute: self.attribute@,
            depth: self.attribute_states_idx as int,
            pos: self.pos as int,
            has_node: self.has_node,
            files: self.files@,
            kind: self.parse_type,
        }
    }
}

/// The place on the path at which the link attribute is read: the second
/// name.
pub const LINK_DEPTH: i32 = 1;

/// The names that a vector of string slices holds.
pub open spec fn slices_view(names: Seq<&str>) -> Seq<Seq<char>> {
    Seq::new(names.len(), |i: int| names[i]@)
}

impl FSTParser for FSTParserFileNode {
    open spec fn state(&self) -> MatcherState {
        MatcherState::FileLink(self@)
    }

    fn text(&mut self, text: &str, parse_result: &mut ParseResult, book_id: usize) -> (r: Result<
        (),
        Error,
    >) {
        if !self.is_found() {
            return Ok(());
        }
        self.has_node = true;
        let idx = match parse_result.add_file_type(String::from_str(text), book_id) {
            Ok(idx) => idx,
            Err(e) => {
                return Err(e);
            },
        };
        let count = self.files.len();
        if count == 0 {
            return Err(Error::InvalidRdf(String::from_str("No files")));
        }
        if idx >= i32::MAX as usize {
            return Err(Error::InvalidResult(String::from_str("file type identifier out of range")));
        }
        let file_link_id = self.files[count - 1].file_link_id;
        self.files.set(
            count - 1,
            GutenbergFileEntry { file_link_id, file_type_id: (idx + 1) as i32 },
        );
        Ok(())
    }

    fn reset(&mut self) {
        self.has_node = false;
        self.pos = -1;
        self.files.clear();
        assert(self.files@ =~= Seq::<GutenbergFileEntry>::empty());
    }

    fn attribute(
        &mut self,
        attribute_name: &str,
        attribute_value: &str,
        parse_result: &mut ParseResult,
        book_id: usize,
    ) -> (r: Result<(), Error>) {
        if self.attribute_states_idx != self.pos {
            return Ok(());
        }
        if !str_eq(attribute_name, self.attribute.as_str()) {
            return Ok(());
        }
        let file_link_id = match parse_result.add_file(String::from_str(attribute_value), book_id) {
            Ok(idx) => idx,
            Err(e) => {
                return Err(e);
            },
        };
        if file_link_id > i32::MAX as usize {
            return Err(Error::InvalidResult(String::from_str("file link identifier out of range")));
        }
        self.files.push(
            GutenbergFileEntry { file_link_id: file_link_id as i32, file_type_id: -1 },
        );
        Ok(())
    }

    fn start_node(&mut self, node_name: &str) {
        self.pos = cursor_start(&self.states, self.pos, node_name);
    }

    fn end_node(&mut self, node_name: &str) {
        self.pos = cursor_end(&self.states, self.pos, node_name);
    }

    fn is_found(&self) -> (found: bool) {
        cursor_at_end(&self.states, self.pos)
    }

    fn has_results(&self) -> (has: bool) {
        self.has_node && self.files.len() > 0
    }

    fn get_parse_type(&self) -> (kind: ParseType) {
        self.parse_type
    }

    fn get_result(&self) -> (r: Result<&ParseItemResult, Error>) {
        Err(Error::InvalidResult(String::from_str("no result in file parser")))
    }

    fn get_files(&self) -> (r: Result<Vec<GutenbergFileEntry>, Error>) {
        let mut files: Vec<GutenbergFileEntry> = Vec::new();
        let n = self.files.len();
        let mut i: usize = 0;
        while i < n
            invariant
                n == self.files@.len(),
                i <= n,
                files@ == self.files@.subrange(0, i as int),
            decreases n - i,
        {
            files.push(self.files[i]);
            i += 1;
        }
        assert(files@ =~= self.files@);
        Ok(files)
    }
}

impl FSTParserFileNode {
    /// A matcher for the files found along the path `states_str`, whose
    /// links are the values of the attribute called `attribute`.
    pub fn build(states_str: Vec<&str>, attribute: &str, parse_type: ParseType) -> (parser:
        FSTParserFileNode)
        requires
            1 <= states_str@.len() <= i32::MAX,
        ensures
            parser@ == FileState::fresh(
                slices_view(states_str@),
                attribute@,
                LINK_DEPTH as int,
                parse_type,
            ),
            parser@.wf(),
    {
        let mut states: Vec<String> = Vec::new();
        let n = states_str.len();
        let mut i: usize = 0;
        while i < n
            invariant
                n == states_str@.len(),
                i <= n,
                states@.len() == i,
                forall|j: int| 0 <= j < i ==> (#[trigger] states@[j])@ == states_str@[j]@,
            decreases n - i,
        {
            states.push(String::from_str(states_str[i]));
            i += 1;
        }
        let parser = FSTParserFileNode {
            pos: -1,
            states,
            has_node: false,
            parse_type,
            attribute: String::from_str(attribute),
            attribute_states_idx: LINK_DEPTH,
            files: Vec::new(),
        };
        assert(parser@.path =~= slices_view(states_str@));
        assert(parser@.files =~= Seq::<GutenbergFileEntry>::empty());
        parser
    }
}

/// The entry names the link `link` and the file type `file_type` in the
/// dictionaries of `corpus`.
pub open spec fn names_file(entry: GutenbergFileEntry, link: Seq<char>, file_type: Seq<char>, corpus: CorpusView) -> bool {
    &&& 0 <= entry.file_link_id < corpus.files.len()
    &&& corpus.files[entry.file_link_id as int].0 == link
    &&& 1 <= entry.file_type_id <= corpus.file_types.len()
    &&& corpus.file_types[entry.file_type_id - 1].0 == file_type
}

/// There is one entry for each block, in the order of the blocks, and each
/// entry names the link and the file type of its block.
pub open spec fn files_paired(files: Seq<GutenbergFileEntry>, blocks: Seq<(Seq<char>, Seq<char>)>, corpus: CorpusView) -> bool {
    &&& files.len() == blocks.len()
    &&& forall|i: int|
        0 <= i < files.len() ==> names_file(#[trigger] files[i], blocks[i].0, blocks[i].1, corpus)
}

/// Every event of the row is the entering or the leaving of a node.
pub open spec fn only_moves(events: Seq<MatcherEvent>) -> bool {
    forall|i: int|
        0 <= i < events.len() ==> (#[trigger] events[i]) is Start || (#[trigger] events[i]) is End
}

/// Entering and leaving nodes moves a file-link matcher along its path and
/// changes nothing else.
pub proof fn lemma_moves_keep_files(file: FileState, corpus: CorpusView, moves: Seq<MatcherEvent>)
    requires
        only_moves(moves),
        file.wf(),
    ensures
        ({
            let after = MatcherState::FileLink(file).after_events(corpus, moves);
            &&& after.corpus == corpus
            &&& after.failure is None
            &&& after.matcher is FileLink
            &&& after.matcher->FileLink_0 == FileState { pos: after.matcher->FileLink_0.pos, ..file }
            &&& after.matcher->FileLink_0.wf()
        }),
    decreases moves.len(),
{
    if moves.len() > 0 {
        let fewer = moves.drop_last();
        assert forall|i: int| 0 <= i < fewer.len() implies (#[trigger] fewer[i]) is Start || (
        #[trigger] fewer[i]) is End by {
            assert(fewer[i] == moves[i]);
        }
        lemma_moves_keep_files(file, corpus, fewer);
        assert(moves.last() == moves[moves.len() - 1]);
    }
}

/// One block of a document pairs its link with its type. A matcher that
/// stands where links are read takes the link `link`; then it is moved, by
/// nodes entered and left, to the end of its path; there it takes the text
/// `file_type`. Where neither step fails, the matcher holds one more entry,
/// which names this link and this type, and the entries before it still
/// name the links and types of their blocks.
pub proof fn lemma_block_pairs(
    file: FileState,
    corpus: CorpusView,
    blocks: Seq<(Seq<char>, Seq<char>)>,
    link: Seq<char>,
    file_type: Seq<char>,
    work: usize,
    moves: Seq<MatcherEvent>,
)
    requires
        file.wf(),
        file.pos == file.depth,
        files_paired(file.files, blocks, corpus),
        only_moves(moves),
        file.after_attribute(file.attribute, link, corpus, work).failure is None,
        file.after_attribute(file.attribute, link, corpus, work).matcher.after_events(
            file.after_attribute(file.attribute, link, corpus, work).corpus,
            moves,
        ).matcher.found(),
        file.after_attribute(file.attribute, link, corpus, work).matcher.after_events(
            file.after_attribute(file.attribute, link, corpus, work).corpus,
            moves,
        ).matcher.after_text(
            file_type,
            file.after_attribute(file.attribute, link, corpus, work).corpus,
            work,
        ).failure is None,
    ensures
        ({
            let linked = file.after_attribute(file.attribute, link, corpus, work);
            let moved = linked.matcher.after_events(linked.corpus, moves);
            let typed = moved.matcher.after_text(file_type, moved.corpus, work);
            &&& typed.matcher.files() matches Some(files)
            &&& files.len() == file.files.len() + 1
            &&& files.subrange(0, file.files.len() as int) == file.files
            &&& files_paired(files, blocks.push((link, file_type)), typed.corpus)
        }),
{
    let linked = file.after_attribute(file.attribute, link, corpus, work);
    let linked_file = linked.matcher->FileLink_0;
    lemma_moves_keep_files(linked_file, linked.corpus, moves);
    let moved = linked.matcher.after_events(linked.corpus, moves);
    let moved_file = moved.matcher->FileLink_0;
    let typed = moved.matcher.after_text(file_type, moved.corpus, work);
    let files = typed.matcher.files()->0;
    lemma_dict_id(corpus.files, link);
    lemma_interned(corpus.files, link, work);
    lemma_dict_id(linked.corpus.file_types, file_type);
    lemma_interned(linked.corpus.file_types, file_type, work);
    assert(moved_file.files == file.files.push(
        GutenbergFileEntry {
            file_link_id: dict_id(corpus.files, link) as i32,
            file_type_id: -1i32,
        },
    ));
    assert(files.subrange(0, file.files.len() as int) =~= file.files);
    let all = blocks.push((link, file_type));
    assert forall|i: int| 0 <= i < files.len() implies names_file(
        #[trigger] files[i],
        all[i].0,
        all[i].1,
        typed.corpus,
    ) by {
        if i < file.files.len() {
            assert(files[i] == file.files[i]);
            assert(names_file(file.files[i], blocks[i].0, blocks[i].1, corpus));
        }
    }
}

/// One block of a document that describes a file: the nodes entered and
/// left on the way to the node that bears the link, the link, the nodes on
/// the way from there to the end of the path, the type, and the nodes on
/// the way out.
pub struct FileBlock {
    pub approach: Seq<MatcherEvent>,
    pub link: Seq<char>,
    pub descent: Seq<MatcherEvent>,
    pub file_type: Seq<char>,
    pub leave: Seq<MatcherEvent>,
}

/// The link and the type of each block.
pub open spec fn block_values(blocks: Seq<FileBlock>) -> Seq<(Seq<char>, Seq<char>)> {
    Seq::new(blocks.len(), |i: int| (blocks[i].link, blocks[i].file_type))
}

/// The matcher and the corpus after one block, and nothing where the block
/// is not in order: where its link is not met at the place at which links
/// are read, its type not at the end of the path, or one of the two fails.
pub open spec fn after_block(file: FileState, corpus: CorpusView, block: FileBlock, work: usize) -> Option<
    (FileState, CorpusView),
> {
    let arrived = MatcherState::FileLink(file).after_events(corpus, block.approach);
    let at_link = arrived.matcher->FileLink_0;
    let linked = at_link.after_attribute(at_link.attribute, block.link, corpus, work);
    let moved = linked.matcher.after_events(linked.corpus, block.descent);
    let typed = moved.matcher.after_text(block.file_type, linked.corpus, work);
    let left = typed.matcher.after_events(typed.corpus, block.leave);
    if only_moves(block.approach) && only_moves(block.descent) && only_moves(block.leave)
        && at_link.pos == at_link.depth && linked.failure is None && moved.matcher.found()
        && typed.failure is None {
        Some((left.matcher->FileLink_0, typed.corpus))
    } else {
        None
    }
}

/// The matcher and the corpus after the first `n` blocks, and nothing where
/// one of them is not in order.
pub open spec fn after_blocks(file: FileState, corpus: CorpusView, blocks: Seq<FileBlock>, work: usize, n: int) -> Option<
    (FileState, CorpusView),
>
    decreases n,
{
    if n <= 0 {
        Some((file, corpus))
    } else {
        match after_blocks(file, corpus, blocks, work, n - 1) {
            None => None,
            Some((before, corpus_before)) => after_block(
                before,
                corpus_before,
                blocks[n - 1],
                work,
            ),
        }
    }
}

/// Links and types are paired block by block. A matcher that has seen
/// nothing is given `n` blocks that are in order, whatever other nodes are
/// entered and left in between; then it holds `n` entries, and the entry at
/// each place names, in the dictionaries of the corpus, the link and the
/// type of the block at that place.
pub proof fn lemma_blocks_pair(file: FileState, corpus: CorpusView, blocks: Seq<FileBlock>, work: usize, n: int)
    requires
        file.wf(),
        file.files.len() == 0,
        0 <= n <= blocks.len(),
        after_blocks(file, corpus, blocks, work, n) is Some,
    ensures
        ({
            let end = after_blocks(file, corpus, blocks, work, n)->0;
            let matcher = end.0;
            &&& matcher.wf()
            &&& matcher.files.len() == n
            &&& files_paired(matcher.files, block_values(blocks).subrange(0, n), end.1)
        }),
    decreases n,
{
    if n > 0 {
        lemma_blocks_pair(file, corpus, blocks, work, n - 1);
        let (before, corpus_before) = after_blocks(file, corpus, blocks, work, n - 1)->0;
        let block = blocks[n - 1];
        let pairs = block_values(blocks).subrange(0, n - 1);
        lemma_moves_keep_files(before, corpus_before, block.approach);
        let arrived = MatcherState::FileLink(before).after_events(corpus_before, block.approach);
        let at_link = arrived.matcher->FileLink_0;
        lemma_block_pairs(
            at_link,
            corpus_before,
            pairs,
            block.link,
            block.file_type,
            work,
            block.descent,
        );
        let linked = at_link.after_attribute(at_link.attribute, block.link, corpus_before, work);
        lemma_moves_keep_files(linked.matcher->FileLink_0, linked.corpus, block.descent);
        let moved = linked.matcher.after_events(linked.corpus, block.descent);
        let typed = moved.matcher.after_text(block.file_type, linked.corpus, work);
        lemma_moves_keep_files(typed.matcher->FileLink_0, typed.corpus, block.leave);
        assert(pairs.push((block.link, block.file_type)) =~= block_values(blocks).subrange(0, n));
    } else {
        assert(block_values(blocks).subrange(0, 0) =~= Seq::empty());
    }
}

} // verus!
