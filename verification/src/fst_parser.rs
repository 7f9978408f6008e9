//! The result of reading a corpus, and the matchers that fill it: what a
//! matcher holds, how each event changes it, and the interface that the
//! three kinds of matcher share.

use crate::book::{Book, BookView, GutenbergFileEntry};
use crate::chars::{str_eq, strings_view};
use crate::dictionary::{
    dict_id, dictionary_entries, dictionary_index_of, dictionary_insert, dictionary_new,
    dictionary_value_mut, interned, lemma_dict_id, lemma_dict_id_is, Dictionary, Entries,
};
use crate::error::{Error, ErrorKind};
use crate::fst_parser_type::{ParseType, FIELD_KINDS};
use vstd::prelude::*;

verus! {

/// What one matcher has captured in the current document: the identifiers of
/// the values it saw, in the order in which it saw them.
#[derive(Debug, PartialEq, Eq)]
pub struct ParseItemResult {
    pub item_links: Vec<usize>,
}

impl Default for ParseItemResult {
    fn default() -> (r: ParseItemResult)
        ensures
            r.item_links@.len() == 0,
    {
        ParseItemResult { item_links: Vec::new() }
    }
}

/// What a dictionary stores under a value: the ordinals of the works in
/// which the value was seen, one for each sighting.
#[derive(Debug, PartialEq, Eq)]
pub struct DictionaryItemContent {
    pub book_links: Vec<usize>,
}

impl Default for DictionaryItemContent {
    fn default() -> (r: DictionaryItemContent)
        ensures
            r.book_links@.len() == 0,
    {
        DictionaryItemContent { book_links: Vec::new() }
    }
}

/// The result of reading a corpus: the works, one dictionary for each kind
/// of field, and the dictionaries of file links and of file types.
pub struct ParseResult {
    pub books: Vec<Book>,
    pub field_dictionaries: Vec<Dictionary>,
    pub files_dictionary: Dictionary,
    pub file_types_dictionary: Dictionary,
}

impl Default for ParseResult {
    /// A result without works and without dictionaries for the fields.
    fn default() -> (r: ParseResult)
        ensures
            r.books@.len() == 0,
            r.field_dictionaries@.len() == 0,
            dictionary_entries(r.files_dictionary).len() == 0,
            dictionary_entries(r.file_types_dictionary).len() == 0,
    {
        ParseResult {
            books: Vec::new(),
            field_dictionaries: Vec::new(),
            files_dictionary: dictionary_new(),
            file_types_dictionary: dictionary_new(),
        }
    }
}

/// What a `ParseResult` holds, as mathematical values.
pub struct CorpusView {
    pub books: Seq<BookView>,
    pub fields: Seq<Entries>,
    pub files: Entries,
    pub file_types: Entries,
}

impl View for ParseResult {
    type V = CorpusView;

    open spec fn view(&self) -> CorpusView {
        CorpusView {
            books: Seq::new(self.books@.len(), |i: int| self.books@[i]@),
            fields: Seq::new(
                self.field_dictionaries@.len(),
                |i: int| dictionary_entries(self.field_dictionaries@[i]),
            ),
            files: dictionary_entries(self.files_dictionary),
            file_types: dictionary_entries(self.file_types_dictionary),
        }
    }
}

impl CorpusView {
    /// The corpus before any document: no work, and an empty dictionary for
    /// each kind of field, for the file links and for the file types.
    pub open spec fn empty() -> CorpusView {
        CorpusView {
            books: Seq::empty(),
            fields: Seq::new(FIELD_KINDS as nat, |i: int| Seq::empty()),
            files: Seq::empty(),
            file_types: Seq::empty(),
        }
    }

    /// The corpus with one more work.
    pub open spec fn with_book(self, book: BookView) -> CorpusView {
        CorpusView { books: self.books.push(book), ..self }
    }

    /// There is one dictionary for each kind of field.
    pub open spec fn wf(self) -> bool {
        self.fields.len() == FIELD_KINDS
    }

    /// The corpus after `value` was interned for the field `field`.
    pub open spec fn with_field(self, field: ParseType, value: Seq<char>, work: usize) -> CorpusView {
        CorpusView {
            fields: self.fields.update(
                field.spec_index(),
                interned(self.fields[field.spec_index()], value, work),
            ),
            ..self
        }
    }

    /// The corpus after the file link `value` was interned.
    pub open spec fn with_file(self, value: Seq<char>, work: usize) -> CorpusView {
        CorpusView { files: interned(self.files, value, work), ..self }
    }

    /// The corpus after the file type `value` was interned.
    pub open spec fn with_file_type(self, value: Seq<char>, work: usize) -> CorpusView {
        CorpusView { file_types: interned(self.file_types, value, work), ..self }
    }
}

impl ParseItemResult {
    /// Interns `data` for the field `parse_type` and notes its identifier as
    /// captured.
    pub fn add(
        &mut self,
        parse_result: &mut ParseResult,
        parse_type: ParseType,
        data: String,
        book_id: usize,
    ) -> (r: Result<(), Error>)
        requires
            old(parse_result)@.wf(),
        ensures
            r is Ok,
            final(parse_result)@ == old(parse_result)@.with_field(parse_type, data@, book_id),
            final(self).item_links@ == old(self).item_links@.push(
                dict_id(old(parse_result)@.fields[parse_type.spec_index()], data@) as usize,
            ),
    {
        let added = parse_result.add_field(parse_type, data, book_id);
        match added {
            Ok(data_idx) => {
                self.item_links.push(data_idx);
                Ok(())
            },
            Err(e) => Err(e),
        }
    }

    /// Forgets what was captured.
    pub fn reset(&mut self)
        ensures
            final(self).item_links@.len() == 0,
    {
        self.item_links.clear();
    }
}

impl ParseResult {
    /// An empty result with a dictionary for each kind of field.
    pub fn new() -> (r: ParseResult)
        ensures
            r@ == CorpusView::empty(),
            r@.wf(),
    {
        let mut field_dictionaries: Vec<Dictionary> = Vec::new();
        let mut i: usize = 0;
        while i < FIELD_KINDS
            invariant
                i <= FIELD_KINDS,
                field_dictionaries@.len() == i,
                forall|j: int|
                    0 <= j < i ==> dictionary_entries(#[trigger] field_dictionaries@[j])
                        == Seq::<(Seq<char>, Seq<usize>)>::empty(),
            decreases FIELD_KINDS - i,
        {
            field_dictionaries.push(dictionary_new());
            i += 1;
        }
        let r = ParseResult {
            books: Vec::new(),
            field_dictionaries,
            files_dictionary: dictionary_new(),
            file_types_dictionary: dictionary_new(),
        };
        assert(r@.books =~= CorpusView::empty().books);
        assert(r@.fields =~= CorpusView::empty().fields);
        r
    }

    /// Interns `data` in `map` for the work `book_id`: a value seen before
    /// gets one more back-link under its entry, a new value gets a new last
    /// entry. Returns the value's identifier.
    pub fn add(map: &mut Dictionary, data: String, book_id: usize) -> (r: Result<usize, Error>)
        ensures
            r matches Ok(id) && id == dict_id(dictionary_entries(*old(map)), data@),
            dictionary_entries(*final(map)) == interned(
                dictionary_entries(*old(map)),
                data@,
                book_id,
            ),
    {
        let ghost before = dictionary_entries(*map);
        proof {
            lemma_dict_id(before, data@);
        }
        match dictionary_index_of(map, data.as_str()) {
            None => {
                proof {
                    lemma_dict_id_is(before, data@, before.len() as int);
                }
                let mut book_links: Vec<usize> = Vec::new();
                book_links.push(book_id);
                let ghost links = book_links@;
                let inserted = dictionary_insert(map, data, DictionaryItemContent { book_links });
                assert(links =~= seq![book_id]);
                Ok(inserted.0)
            },
            Some(index) => {
                proof {
                    lemma_dict_id_is(before, data@, index as int);
                }
                match dictionary_value_mut(map, index) {
                    Some(content) => {
                        content.book_links.push(book_id);
                        Ok(index)
                    },
                    None => Err(Error::InvalidResult("bad data".to_string())),
                }
            },
        }
    }

    /// Interns a file link.
    pub fn add_file(&mut self, data: String, book_id: usize) -> (r: Result<usize, Error>)
        ensures
            r matches Ok(id) && id == dict_id(old(self)@.files, data@),
            final(self)@ == old(self)@.with_file(data@, book_id),
    {
        ParseResult::add(&mut self.files_dictionary, data, book_id)
    }

    /// Interns a file type.
    pub fn add_file_type(&mut self, data: String, book_id: usize) -> (r: Result<usize, Error>)
        ensures
            r matches Ok(id) && id == dict_id(old(self)@.file_types, data@),
            final(self)@ == old(self)@.with_file_type(data@, book_id),
    {
        ParseResult::add(&mut self.file_types_dictionary, data, book_id)
    }

    /// Interns a value of the field `field`.
    pub fn add_field(&mut self, field: ParseType, data: String, book_id: usize) -> (r: Result<
        usize,
        Error,
    >)
        requires
            old(self)@.wf(),
        ensures
            r matches Ok(id) && id == dict_id(old(self)@.fields[field.spec_index()], data@),
            final(self)@ == old(self)@.with_field(field, data@, book_id),
    {
        let r = ParseResult::add(&mut self.field_dictionaries[field.index()], data, book_id);
        assert(self@.fields =~= old(self)@.with_field(field, data@, book_id).fields);
        assert(self@.books =~= old(self)@.books);
        r
    }
}


/// Whether `pos` is a place on `path`: `-1` before it, else the index of the
/// last name reached. The path has a name, and no more than `pos` can count.
pub open spec fn cursor_wf(path: Seq<Seq<char>>, pos: int) -> bool {
    1 <= path.len() <= i32::MAX && -1 <= pos < path.len()
}

/// The place after a node called `name` was entered: onto the path at its
/// first name, one further at the next name, and unchanged at any other.
pub open spec fn cursor_after_start(path: Seq<Seq<char>>, pos: int, name: Seq<char>) -> int {
    if pos == -1 {
        if name == path[0] {
            0
        } else {
            -1
        }
    } else if pos + 1 < path.len() && name == path[pos + 1] {
        pos + 1
    } else {
        pos
    }
}

/// The place after a node called `name` was left: one back where `name` is
/// the name reached last, unchanged otherwise.
pub open spec fn cursor_after_end(path: Seq<Seq<char>>, pos: int, name: Seq<char>) -> int {
    if pos > -1 && path[pos] == name {
        pos - 1
    } else {
        pos
    }
}

/// The whole path has been walked.
pub open spec fn cursor_found(path: Seq<Seq<char>>, pos: int) -> bool {
    pos == path.len() - 1
}

/// What a path matcher holds.
pub struct PathState {
    pub path: Seq<Seq<char>>,
    pub pos: int,
    pub links: Seq<usize>,
    pub has_result: bool,
    pub kind: ParseType,
}

impl PathState {
    pub open spec fn wf(self) -> bool {
        cursor_wf(self.path, self.pos)
    }

    pub open spec fn found(self) -> bool {
        cursor_found(self.path, self.pos)
    }

    /// A matcher for `path` that has seen nothing.
    pub open spec fn fresh(path: Seq<Seq<char>>, kind: ParseType) -> PathState {
        PathState { path, pos: -1, links: Seq::empty(), has_result: false, kind }
    }

    pub open spec fn after_start(self, name: Seq<char>) -> PathState {
        PathState { pos: cursor_after_start(self.path, self.pos, name), ..self }
    }

    pub open spec fn after_end(self, name: Seq<char>) -> PathState {
        PathState { pos: cursor_after_end(self.path, self.pos, name), ..self }
    }

    pub open spec fn after_reset(self) -> PathState {
        PathState::fresh(self.path, self.kind)
    }

    /// Text seen off the end of the path changes nothing. Text seen at its
    /// end is interned for the matcher's field and captured.
    pub open spec fn after_text(self, text: Seq<char>, corpus: CorpusView) -> PathState {
        if self.found() {
            PathState {
                has_result: true,
                links: self.links.push(
                    dict_id(corpus.fields[self.kind.spec_index()], text) as usize,
                ),
                ..self
            }
        } else {
            self
        }
    }

    /// The corpus after this matcher saw `text` in work `work`.
    pub open spec fn corpus_after_text(self, text: Seq<char>, corpus: CorpusView, work: usize) -> CorpusView {
        if self.found() {
            corpus.with_field(self.kind, text, work)
        } else {
            corpus
        }
    }
}

/// What a file-link matcher holds. `depth` is the place on the path at which
/// the link attribute is read.
pub struct FileState {
    pub path: Seq<Seq<char>>,
    pub attribute: Seq<char>,
    pub depth: int,
    pub pos: int,
    pub has_node: bool,
    pub files: Seq<GutenbergFileEntry>,
    pub kind: ParseType,
}

/// A matcher and the corpus after an event, and the failure that the event
/// ended in, if it did.
pub struct Stepped {
    pub matcher: MatcherState,
    pub corpus: CorpusView,
    pub failure: Option<ErrorKind>,
}

impl FileState {
    pub open spec fn wf(self) -> bool {
        cursor_wf(self.path, self.pos)
    }

    pub open spec fn found(self) -> bool {
        cursor_found(self.path, self.pos)
    }

    /// A matcher for `path` and `attribute` that has seen nothing.
    pub open spec fn fresh(path: Seq<Seq<char>>, attribute: Seq<char>, depth: int, kind: ParseType) -> FileState {
        FileState { path, attribute, depth, pos: -1, has_node: false, files: Seq::empty(), kind }
    }

    pub open spec fn after_start(self, name: Seq<char>) -> FileState {
        FileState { pos: cursor_after_start(self.path, self.pos, name), ..self }
    }

    pub open spec fn after_end(self, name: Seq<char>) -> FileState {
        FileState { pos: cursor_after_end(self.path, self.pos, name), ..self }
    }

    pub open spec fn after_reset(self) -> FileState {
        FileState::fresh(self.path, self.attribute, self.depth, self.kind)
    }

    /// Whether an attribute called `name` is the link of a new file here.
    pub open spec fn captures(self, name: Seq<char>) -> bool {
        self.depth == self.pos && name == self.attribute
    }

    /// An attribute that is captured interns its value as a file link and
    /// opens a new file entry without a type. It fails, after interning,
    /// where the link's identifier does not fit the entry.
    pub open spec fn after_attribute(self, name: Seq<char>, value: Seq<char>, corpus: CorpusView, work: usize) -> Stepped {
        if !self.captures(name) {
            Stepped { matcher: MatcherState::FileLink(self), corpus, failure: None }
        } else {
            let id = dict_id(corpus.files, value);
            if id > i32::MAX {
                Stepped {
                    matcher: MatcherState::FileLink(self),
                    corpus: corpus.with_file(value, work),
                    failure: Some(ErrorKind::InvalidResult),
                }
            } else {
                Stepped {
                    matcher: MatcherState::FileLink(
                        FileState {
                            files: self.files.push(
                                GutenbergFileEntry { file_link_id: id as i32, file_type_id: -1i32 },
                            ),
                            ..self
                        },
                    ),
                    corpus: corpus.with_file(value, work),
                    failure: None,
                }
            }
        }
    }

    /// Text seen off the end of the path changes nothing. Text seen at its
    /// end is interned as a file type and becomes the type of the file entry
    /// opened last. It fails, after interning, where no entry is open, and
    /// where the type's row key does not fit the entry.
    pub open spec fn after_text(self, text: Seq<char>, corpus: CorpusView, work: usize) -> Stepped {
        if !self.found() {
            Stepped { matcher: MatcherState::FileLink(self), corpus, failure: None }
        } else {
            let id = dict_id(corpus.file_types, text);
            let seen = FileState { has_node: true, ..self };
            if self.files.len() == 0 {
                Stepped {
                    matcher: MatcherState::FileLink(seen),
                    corpus: corpus.with_file_type(text, work),
                    failure: Some(ErrorKind::InvalidRdf),
                }
            } else if id + 1 > i32::MAX {
                Stepped {
                    matcher: MatcherState::FileLink(seen),
                    corpus: corpus.with_file_type(text, work),
                    failure: Some(ErrorKind::InvalidResult),
                }
            } else {
                Stepped {
                    matcher: MatcherState::FileLink(
                        FileState {
                            files: self.files.update(
                                self.files.len() - 1,
                                GutenbergFileEntry {
                                    file_link_id: self.files.last().file_link_id,
                                    file_type_id: (id + 1) as i32,
                                },
                            ),
                            ..seen
                        },
                    ),
                    corpus: corpus.with_file_type(text, work),
                    failure: None,
                }
            }
        }
    }
}

/// The children of an alternation after each entered a node called `name`.
pub open spec fn nodes_after_start(nodes: Seq<PathState>, name: Seq<char>) -> Seq<PathState> {
    Seq::new(nodes.len(), |i: int| nodes[i].after_start(name))
}

/// The children of an alternation after each left a node called `name`.
pub open spec fn nodes_after_end(nodes: Seq<PathState>, name: Seq<char>) -> Seq<PathState> {
    Seq::new(nodes.len(), |i: int| nodes[i].after_end(name))
}

/// The children of an alternation after each was reset.
pub open spec fn nodes_after_reset(nodes: Seq<PathState>) -> Seq<PathState> {
    Seq::new(nodes.len(), |i: int| nodes[i].after_reset())
}

/// The children from `from` on see `text` one after the other, each on the
/// corpus that the one before it left.
pub open spec fn nodes_after_text(nodes: Seq<PathState>, text: Seq<char>, corpus: CorpusView, work: usize, from: int) -> (Seq<PathState>, CorpusView)
    decreases nodes.len() - from,
{
    if from < 0 || from >= nodes.len() {
        (nodes, corpus)
    } else {
        nodes_after_text(
            nodes.update(from, nodes[from].after_text(text, corpus)),
            text,
            nodes[from].corpus_after_text(text, corpus, work),
            work,
            from + 1,
        )
    }
}

/// The index of the first child from `from` on that has captured something,
/// or the number of children where none has.
pub open spec fn first_with_result(nodes: Seq<PathState>, from: int) -> int
    decreases nodes.len() - from,
{
    if from < 0 || from >= nodes.len() {
        nodes.len() as int
    } else if nodes[from].has_result {
        from
    } else {
        first_with_result(nodes, from + 1)
    }
}

/// What a matcher holds: one of the three kinds of matcher.
pub enum MatcherState {
    /// One path, capturing the text at its end.
    Path(PathState),
    /// Several paths for one field, in order of preference.
    Alternation { nodes: Seq<PathState>, kind: ParseType },
    /// One path, capturing a link attribute on the way and the type text at
    /// its end, once for each file.
    FileLink(FileState),
}

impl MatcherState {
    pub open spec fn wf(self) -> bool {
        match self {
            MatcherState::Path(p) => p.wf(),
            MatcherState::Alternation { nodes, kind } => forall|i: int|
                0 <= i < nodes.len() ==> (#[trigger] nodes[i]).wf(),
            MatcherState::FileLink(f) => f.wf(),
        }
    }

    /// The matcher stands at the end of a path.
    pub open spec fn found(self) -> bool {
        match self {
            MatcherState::Path(p) => p.found(),
            MatcherState::Alternation { nodes, kind } => exists|i: int|
                0 <= i < nodes.len() && (#[trigger] nodes[i]).found(),
            MatcherState::FileLink(f) => f.found(),
        }
    }

    /// The matcher has captured something in this document.
    pub open spec fn has_results(self) -> bool {
        match self {
            MatcherState::Path(p) => p.has_result,
            MatcherState::Alternation { nodes, kind } => first_with_result(nodes, 0) < nodes.len(),
            MatcherState::FileLink(f) => f.has_node && f.files.len() > 0,
        }
    }

    pub open spec fn parse_type(self) -> ParseType {
        match self {
            MatcherState::Path(p) => p.kind,
            MatcherState::Alternation { nodes, kind } => kind,
            MatcherState::FileLink(f) => f.kind,
        }
    }

    /// The identifiers captured: those of a path matcher; those of the first
    /// child of an alternation that has captured any, and none where no
    /// child has; none of a file-link matcher.
    pub open spec fn result(self) -> Option<Seq<usize>> {
        match self {
            MatcherState::Path(p) => Some(p.links),
            MatcherState::Alternation { nodes, kind } => if first_with_result(nodes, 0)
                < nodes.len() {
                Some(nodes[first_with_result(nodes, 0)].links)
            } else {
                None
            },
            MatcherState::FileLink(f) => None,
        }
    }

    /// The file entries captured: those of a file-link matcher, none of the
    /// others.
    pub open spec fn files(self) -> Option<Seq<GutenbergFileEntry>> {
        match self {
            MatcherState::FileLink(f) => Some(f.files),
            _ => None,
        }
    }

    pub open spec fn after_start(self, name: Seq<char>) -> MatcherState {
        match self {
            MatcherState::Path(p) => MatcherState::Path(p.after_start(name)),
            MatcherState::Alternation { nodes, kind } => MatcherState::Alternation {
                nodes: nodes_after_start(nodes, name),
                kind,
            },
            MatcherState::FileLink(f) => MatcherState::FileLink(f.after_start(name)),
        }
    }

    pub open spec fn after_end(self, name: Seq<char>) -> MatcherState {
        match self {
            MatcherState::Path(p) => MatcherState::Path(p.after_end(name)),
            MatcherState::Alternation { nodes, kind } => MatcherState::Alternation {
                nodes: nodes_after_end(nodes, name),
                kind,
            },
            MatcherState::FileLink(f) => MatcherState::FileLink(f.after_end(name)),
        }
    }

    /// The matcher as it was built: before the path, nothing captured.
    pub open spec fn after_reset(self) -> MatcherState {
        match self {
            MatcherState::Path(p) => MatcherState::Path(p.after_reset()),
            MatcherState::Alternation { nodes, kind } => MatcherState::Alternation {
                nodes: nodes_after_reset(nodes),
                kind,
            },
            MatcherState::FileLink(f) => MatcherState::FileLink(f.after_reset()),
        }
    }

    /// The matcher and the corpus after the text `text` of work `work`.
    pub open spec fn after_text(self, text: Seq<char>, corpus: CorpusView, work: usize) -> Stepped {
        match self {
            MatcherState::Path(p) => Stepped {
                matcher: MatcherState::Path(p.after_text(text, corpus)),
                corpus: p.corpus_after_text(text, corpus, work),
                failure: None,
            },
            MatcherState::Alternation { nodes, kind } => Stepped {
                matcher: MatcherState::Alternation {
                    nodes: nodes_after_text(nodes, text, corpus, work, 0).0,
                    kind,
                },
                corpus: nodes_after_text(nodes, text, corpus, work, 0).1,
                failure: None,
            },
            MatcherState::FileLink(f) => f.after_text(text, corpus, work),
        }
    }

    /// The matcher and the corpus after the attribute `name` with the value
    /// `value`, seen in work `work`. Only a file-link matcher reads
    /// attributes.
    pub open spec fn after_attribute(self, name: Seq<char>, value: Seq<char>, corpus: CorpusView, work: usize) -> Stepped {
        match self {
            MatcherState::FileLink(f) => f.after_attribute(name, value, corpus, work),
            _ => Stepped { matcher: self, corpus, failure: None },
        }
    }
}

/// Whether a returned result is the failure, or the success, that `failure`
/// tells of.
pub open spec fn outcome_is<T>(r: Result<T, Error>, failure: Option<ErrorKind>) -> bool {
    match failure {
        None => r is Ok,
        Some(kind) => r is Err && r->Err_0.kind() == kind,
    }
}

/// A matcher: a state machine fed with the nodes, attributes and texts of a
/// document as they are met, which captures the values of one field.
pub trait FSTParser {
    /// What the matcher holds.
    spec fn state(&self) -> MatcherState;

    /// Takes the text of the node that is open.
    fn text(&mut self, text: &str, parse_result: &mut ParseResult, book_id: usize) -> (r: Result<
        (),
        Error,
    >)
        requires
            old(self).state().wf(),
            old(parse_result)@.wf(),
        ensures
            final(self).state() == old(self).state().after_text(
                text@,
                old(parse_result)@,
                book_id,
            ).matcher,
            final(parse_result)@ == old(self).state().after_text(
                text@,
                old(parse_result)@,
                book_id,
            ).corpus,
            outcome_is(
                r,
                old(self).state().after_text(text@, old(parse_result)@, book_id).failure,
            ),
            final(self).state().wf(),
            final(parse_result)@.wf(),
    ;

    /// Forgets the place and what was captured, at the end of a document.
    fn reset(&mut self)
        requires
            old(self).state().wf(),
        ensures
            final(self).state() == old(self).state().after_reset(),
            final(self).state().wf(),
    ;

    /// Takes the name of a node that is entered.
    fn start_node(&mut self, node_name: &str)
        requires
            old(self).state().wf(),
        ensures
            final(self).state() == old(self).state().after_start(node_name@),
            final(self).state().wf(),
    ;

    /// Takes an attribute of the node that was entered last.
    fn attribute(
        &mut self,
        attribute_name: &str,
        attribute_value: &str,
        parse_result: &mut ParseResult,
        book_id: usize,
    ) -> (r: Result<(), Error>)
        requires
            old(self).state().wf(),
            old(parse_result)@.wf(),
        ensures
            final(self).state() == old(self).state().after_attribute(
                attribute_name@,
                attribute_value@,
                old(parse_result)@,
                book_id,
            ).matcher,
            final(parse_result)@ == old(self).state().after_attribute(
                attribute_name@,
                attribute_value@,
                old(parse_result)@,
                book_id,
            ).corpus,
            outcome_is(
                r,
                old(self).state().after_attribute(
                    attribute_name@,
                    attribute_value@,
                    old(parse_result)@,
                    book_id,
                ).failure,
            ),
            final(self).state().wf(),
            final(parse_result)@.wf(),
    ;

    /// Takes the name of a node that is left.
    fn end_node(&mut self, node_name: &str)
        requires
            old(self).state().wf(),
        ensures
            final(self).state() == old(self).state().after_end(node_name@),
            final(self).state().wf(),
    ;

    /// Whether the matcher stands at the end of a path.
    fn is_found(&self) -> (found: bool)
        requires
            self.state().wf(),
        ensures
            found == self.state().found(),
    ;

    /// Whether the matcher has captured something in this document.
    fn has_results(&self) -> (has: bool)
        requires
            self.state().wf(),
        ensures
            has == self.state().has_results(),
    ;

    /// The kind of field that the matcher captures.
    fn get_parse_type(&self) -> (kind: ParseType)
        ensures
            kind == self.state().parse_type(),
    ;

    /// The identifiers captured; fails with `InvalidResult` where the
    /// matcher holds none to give.
    fn get_result(&self) -> (r: Result<&ParseItemResult, Error>)
        requires
            self.state().wf(),
        ensures
            match self.state().result() {
                Some(links) => r is Ok && r->Ok_0.item_links@ == links,
                None => r is Err && r->Err_0.kind() == ErrorKind::InvalidResult,
            },
    ;

    /// The file entries captured; fails with `InvalidResult` where the
    /// matcher is not one for files.
    fn get_files(&self) -> (r: Result<Vec<GutenbergFileEntry>, Error>)
        requires
            self.state().wf(),
        ensures
            match self.state().files() {
                Some(files) => r is Ok && r->Ok_0@ == files,
                None => r is Err && r->Err_0.kind() == ErrorKind::InvalidResult,
            },
    ;
}


/// The place on the path after a node called `node_name` was entered.
pub fn cursor_start(states: &Vec<String>, pos: i32, node_name: &str) -> (next: i32)
    requires
        cursor_wf(strings_view(states@), pos as int),
    ensures
        next == cursor_after_start(strings_view(states@), pos as int, node_name@),
        cursor_wf(strings_view(states@), next as int),
{
    if pos == -1 {
        if str_eq(node_name, states[0].as_str()) {
            0
        } else {
            -1
        }
    } else {
        let check_index: i32 = pos + 1;
        if check_index >= states.len() as i32 {
            pos
        } else if str_eq(node_name, states[check_index as usize].as_str()) {
            check_index
        } else {
            pos
        }
    }
}

/// The place on the path after a node called `node_name` was left.
pub fn cursor_end(states: &Vec<String>, pos: i32, node_name: &str) -> (next: i32)
    requires
        cursor_wf(strings_view(states@), pos as int),
    ensures
        next == cursor_after_end(strings_view(states@), pos as int, node_name@),
        cursor_wf(strings_view(states@), next as int),
{
    if pos > -1 && str_eq(states[pos as usize].as_str(), node_name) {
        pos - 1
    } else {
        pos
    }
}

/// Whether the place is the end of the path.
pub fn cursor_at_end(states: &Vec<String>, pos: i32) -> (found: bool)
    requires
        cursor_wf(strings_view(states@), pos as int),
    ensures
        found == cursor_found(strings_view(states@), pos as int),
{
    pos == states.len() as i32 - 1
}


/// One thing that a matcher is told while a document is read.
pub enum MatcherEvent {
    Start { name: Seq<char> },
    End { name: Seq<char> },
    Text { text: Seq<char>, work: usize },
    Attribute { name: Seq<char>, value: Seq<char>, work: usize },
}

impl MatcherState {
    /// The matcher and the corpus after one event.
    pub open spec fn after_event(self, corpus: CorpusView, event: MatcherEvent) -> Stepped {
        match event {
            MatcherEvent::Start { name } => Stepped {
                matcher: self.after_start(name),
                corpus,
                failure: None,
            },
            MatcherEvent::End { name } => Stepped {
                matcher: self.after_end(name),
                corpus,
                failure: None,
            },
            MatcherEvent::Text { text, work } => self.after_text(text, corpus, work),
            MatcherEvent::Attribute { name, value, work } => self.after_attribute(
                name,
                value,
                corpus,
                work,
            ),
        }
    }

    /// The matcher and the corpus after a row of events, whether or not one
    /// of them ended in a failure.
    pub open spec fn after_events(self, corpus: CorpusView, events: Seq<MatcherEvent>) -> Stepped
        decreases events.len(),
    {
        if events.len() == 0 {
            Stepped { matcher: self, corpus, failure: None }
        } else {
            let before = self.after_events(corpus, events.drop_last());
            before.matcher.after_event(before.corpus, events.last())
        }
    }

    /// The matcher has seen nothing: it is as `build` makes it.
    pub open spec fn is_fresh(self) -> bool {
        self.after_reset() == self
    }
}

/// Text changes neither the number of children nor the path and the field
/// of any child.
pub proof fn lemma_nodes_after_text_reset(nodes: Seq<PathState>, text: Seq<char>, corpus: CorpusView, work: usize, from: int)
    requires
        0 <= from <= nodes.len(),
    ensures
        nodes_after_reset(nodes_after_text(nodes, text, corpus, work, from).0) == nodes_after_reset(
            nodes,
        ),
    decreases nodes.len() - from,
{
    if from < nodes.len() {
        let next = nodes.update(from, nodes[from].after_text(text, corpus));
        lemma_nodes_after_text_reset(
            next,
            text,
            nodes[from].corpus_after_text(text, corpus, work),
            work,
            from + 1,
        );
        assert(nodes_after_reset(next) =~= nodes_after_reset(nodes));
    }
}

/// No event changes what a reset leaves of a matcher.
pub proof fn lemma_event_keeps_reset(matcher: MatcherState, corpus: CorpusView, event: MatcherEvent)
    ensures
        matcher.after_event(corpus, event).matcher.after_reset() == matcher.after_reset(),
{
    match matcher {
        MatcherState::Alternation { nodes, kind } => {
            match event {
                MatcherEvent::Start { name } => {
                    assert(nodes_after_reset(nodes_after_start(nodes, name)) =~= nodes_after_reset(
                        nodes,
                    ));
                },
                MatcherEvent::End { name } => {
                    assert(nodes_after_reset(nodes_after_end(nodes, name)) =~= nodes_after_reset(
                        nodes,
                    ));
                },
                MatcherEvent::Text { text, work } => {
                    lemma_nodes_after_text_reset(nodes, text, corpus, work, 0);
                },
                MatcherEvent::Attribute { name, value, work } => {},
            }
        },
        _ => {},
    }
}

/// A reset undoes every history: after any row of events, a reset leaves
/// the matcher as a reset would have left it before them. For a matcher
/// that was fresh before the events, that is the fresh matcher itself, which
/// stands before its path and has captured nothing.
pub proof fn lemma_reset_restores(matcher: MatcherState, corpus: CorpusView, events: Seq<MatcherEvent>)
    ensures
        matcher.after_events(corpus, events).matcher.after_reset() == matcher.after_reset(),
        matcher.is_fresh() ==> matcher.after_events(corpus, events).matcher.after_reset()
            == matcher,
        matcher.wf() ==> !matcher.after_reset().found() && !matcher.after_reset().has_results(),
        matcher.after_reset().result() matches Some(links) ==> links.len() == 0,
        matcher.after_reset().files() matches Some(files) ==> files.len() == 0,
    decreases events.len(),
{
    if events.len() > 0 {
        let before = matcher.after_events(corpus, events.drop_last());
        lemma_reset_restores(matcher, corpus, events.drop_last());
        lemma_event_keeps_reset(before.matcher, before.corpus, events.last());
    }
    match matcher {
        MatcherState::Alternation { nodes, kind } => {
            let reset = nodes_after_reset(nodes);
            lemma_first_with_result(reset, 0);
            if matcher.wf() {
                assert forall|i: int| 0 <= i < reset.len() implies !(#[trigger] reset[i]).found() by {
                    assert(nodes[i].wf());
                }
            }
        },
        _ => {},
    }
}

/// The scan for a child with results ends at the first such child, or at
/// the end.
pub proof fn lemma_first_with_result(nodes: Seq<PathState>, from: int)
    requires
        0 <= from <= nodes.len(),
    ensures
        from <= first_with_result(nodes, from) <= nodes.len(),
        first_with_result(nodes, from) < nodes.len() ==> nodes[first_with_result(
            nodes,
            from,
        )].has_result,
        forall|j: int| from <= j < first_with_result(nodes, from) ==> !(#[trigger] nodes[j]).has_result,
    decreases nodes.len() - from,
{
    if from < nodes.len() && !nodes[from].has_result {
        lemma_first_with_result(nodes, from + 1);
    }
}

/// Of the children of an alternation that have captured something, the
/// first one gives the result, whatever the later ones hold: where child
/// `first` has results and no child before it has, the result is what
/// `first` captured.
pub proof fn lemma_alternation_prefers_first(nodes: Seq<PathState>, kind: ParseType, first: int)
    requires
        0 <= first < nodes.len(),
        nodes[first].has_result,
        forall|j: int| 0 <= j < first ==> !(#[trigger] nodes[j]).has_result,
    ensures
        (MatcherState::Alternation { nodes, kind }).has_results(),
        (MatcherState::Alternation { nodes, kind }).result() == Some(nodes[first].links),
{
    lemma_first_with_result(nodes, 0);
}

/// Where no child of an alternation has captured anything, there is no
/// result.
pub proof fn lemma_alternation_without_result(nodes: Seq<PathState>, kind: ParseType)
    requires
        forall|j: int| 0 <= j < nodes.len() ==> !(#[trigger] nodes[j]).has_result,
    ensures
        !(MatcherState::Alternation { nodes, kind }).has_results(),
        (MatcherState::Alternation { nodes, kind }).result() is None,
{
    lemma_first_with_result(nodes, 0);
}

} // verus!
