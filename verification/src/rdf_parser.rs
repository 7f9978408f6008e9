//! The reading of documents and of a corpus: every event of a document is
//! handed to the matchers, and at the end of each document the work that
//! they captured is added to the result.

use crate::book::{Book, BookView};
use crate::chars::{
    lemma_split_len, parse_i32, parse_usize, parsed_i32, parsed_usize, split, str_eq,
    strings_view,
};
use crate::consistency::{corpus_consistent, lemma_corpus_read_consistent, take_lengths};
use crate::dictionary::{dictionary_entries, dictionary_get_index, Dictionary, Entries};
use crate::error::{Error, ErrorKind};
use crate::field_parser::FieldParser;
use crate::fst_parser::{
    outcome_is, CorpusView, FSTParser, FileState, MatcherState, ParseResult, PathState, Stepped,
};
use crate::fst_parser_file_node::{slices_view, FSTParserFileNode, LINK_DEPTH};
use crate::fst_parser_node::{path_names, FSTParserNode};
use crate::fst_parser_or_node::{fresh_nodes, FSTParserOrNode};
use crate::fst_parser_type::{ParseType, FIELD_KINDS};
use crate::xml_events::{
    attributes_view, decode_event, decoded_steps, document_events, open_reader, read_raw_event,
    reader_events, RawEventView, XmlEvent, XmlEventView, XmlStep,
};
use quick_xml::reader::Reader;
use vstd::prelude::*;
use vstd::string::StringExecFns;

verus! {

/// A source of the events of one document.
pub trait XmlReader {
    /// What the reads to come will give, in order, up to the end of the
    /// document or to the first failure.
    spec fn pending(&self) -> Seq<XmlStep>;

    /// Reads the next event. At the end of the document the event is `Eof`.
    fn read(&mut self) -> (r: Result<XmlEvent, Error>)
        ensures
            old(self).pending().len() == 0 ==> {
                &&& r is Ok
                &&& r->Ok_0@ is Eof
                &&& final(self).pending().len() == 0
            },
            old(self).pending().len() > 0 ==> match old(self).pending()[0] {
                XmlStep::Event(event) => r is Ok && r->Ok_0@ == event && final(self).pending()
                    == old(self).pending().drop_first(),
                XmlStep::Failure(kind) => r is Err && r->Err_0.kind() == kind,
            },
    ;
}

/// A reader of the events of a document that is held as text.
pub struct ContentReader<'a> {
    reader: Reader<&'a [u8]>,
}

impl<'a> ContentReader<'a> {
    /// The events that the underlying reader has yet to hand out.
    pub closed spec fn raw_pending(&self) -> Seq<Option<RawEventView>> {
        reader_events(self.reader)
    }

    /// A reader at the start of `content`.
    pub fn new(content: &'a str) -> (reader: ContentReader<'a>)
        ensures
            reader.raw_pending() == document_events(content@),
            reader.pending() == decoded_steps(document_events(content@)),
    {
        ContentReader { reader: open_reader(content) }
    }
}

impl<'a> XmlReader for ContentReader<'a> {
    open spec fn pending(&self) -> Seq<XmlStep> {
        decoded_steps(self.raw_pending())
    }

    fn read(&mut self) -> (r: Result<XmlEvent, Error>) {
        let ghost before = self.raw_pending();
        match read_raw_event(&mut self.reader) {
            Ok(raw) => {
                let r = decode_event(raw);
                proof {
                    if before.len() > 0 && r is Ok {
                        assert(decoded_steps(before).drop_first() =~= decoded_steps(
                            before.drop_first(),
                        ));
                    }
                }
                r
            },
            Err(message) => Err(Error::InvalidRdf(message)),
        }
    }
}

/// What each matcher of a vector holds.
pub open spec fn parsers_view<P: FSTParser>(parsers: Seq<P>) -> Seq<MatcherState> {
    Seq::new(parsers.len(), |i: int| parsers[i].state())
}

/// Every matcher is well formed.
pub open spec fn matchers_wf(matchers: Seq<MatcherState>) -> bool {
    forall|i: int| 0 <= i < matchers.len() ==> (#[trigger] matchers[i]).wf()
}

/// Where the reading of a document stands: the matchers, the corpus, the
/// catalog identifier found so far, and the failure that ended the reading,
/// if one did.
pub struct DocumentState {
    pub matchers: Seq<MatcherState>,
    pub corpus: CorpusView,
    pub catalog_id: usize,
    pub failure: Option<ErrorKind>,
}

/// The catalog identifier that the value of an `rdf:about` attribute gives:
/// the value has two parts with a `/` between them, and the second is the
/// identifier, an unsigned number.
pub open spec fn catalog_id_in(value: Seq<char>) -> Option<usize> {
    if path_names(value).len() == 2 {
        parsed_usize(path_names(value)[1])
    } else {
        None
    }
}

/// The catalog identifier after the attributes from `from` on: each
/// `rdf:about` among them gives a new one, and fails with `InvalidRdf`
/// where it gives none.
pub open spec fn catalog_scan(attributes: Seq<(Seq<char>, Seq<char>)>, current: usize, from: int) -> Result<
    usize,
    ErrorKind,
>
    decreases attributes.len() - from,
{
    if from < 0 || from >= attributes.len() {
        Ok(current)
    } else if attributes[from].0 == "rdf:about"@ {
        match catalog_id_in(attributes[from].1) {
            Some(id) => catalog_scan(attributes, id, from + 1),
            None => Err(ErrorKind::InvalidRdf),
        }
    } else {
        catalog_scan(attributes, current, from + 1)
    }
}

/// A matcher and the corpus after the attributes from `from` on, fed one
/// after the other up to the first that fails.
pub open spec fn after_attributes(
    matcher: MatcherState,
    corpus: CorpusView,
    attributes: Seq<(Seq<char>, Seq<char>)>,
    work: usize,
    from: int,
) -> Stepped
    decreases attributes.len() - from,
{
    if from < 0 || from >= attributes.len() {
        Stepped { matcher, corpus, failure: None }
    } else {
        let next = matcher.after_attribute(attributes[from].0, attributes[from].1, corpus, work);
        if next.failure is Some {
            next
        } else {
            after_attributes(next.matcher, next.corpus, attributes, work, from + 1)
        }
    }
}

/// The matchers and the corpus after an event was handed to the matchers,
/// and the failure that ended the handing out, if one did.
pub struct Fanned {
    pub matchers: Seq<MatcherState>,
    pub corpus: CorpusView,
    pub failure: Option<ErrorKind>,
}

/// An opening tag is handed to the matchers from `from` on, one after the
/// other: each enters the node and then takes its attributes in order. The
/// first failure ends it.
pub open spec fn fan_start(
    matchers: Seq<MatcherState>,
    corpus: CorpusView,
    name: Seq<char>,
    attributes: Seq<(Seq<char>, Seq<char>)>,
    work: usize,
    from: int,
) -> Fanned
    decreases matchers.len() - from,
{
    if from < 0 || from >= matchers.len() {
        Fanned { matchers, corpus, failure: None }
    } else {
        let next = after_attributes(matchers[from].after_start(name), corpus, attributes, work, 0);
        if next.failure is Some {
            Fanned {
                matchers: matchers.update(from, next.matcher),
                corpus: next.corpus,
                failure: next.failure,
            }
        } else {
            fan_start(
                matchers.update(from, next.matcher),
                next.corpus,
                name,
                attributes,
                work,
                from + 1,
            )
        }
    }
}

/// A text is handed to the matchers from `from` on, one after the other.
/// The first failure ends it.
pub open spec fn fan_text(matchers: Seq<MatcherState>, corpus: CorpusView, text: Seq<char>, work: usize, from: int) -> Fanned
    decreases matchers.len() - from,
{
    if from < 0 || from >= matchers.len() {
        Fanned { matchers, corpus, failure: None }
    } else {
        let next = matchers[from].after_text(text, corpus, work);
        if next.failure is Some {
            Fanned {
                matchers: matchers.update(from, next.matcher),
                corpus: next.corpus,
                failure: next.failure,
            }
        } else {
            fan_text(matchers.update(from, next.matcher), next.corpus, text, work, from + 1)
        }
    }
}

/// A closing tag is handed to every matcher.
pub open spec fn fan_end(matchers: Seq<MatcherState>, name: Seq<char>) -> Seq<MatcherState> {
    Seq::new(matchers.len(), |i: int| matchers[i].after_end(name))
}

/// Every matcher is reset.
pub open spec fn fan_reset(matchers: Seq<MatcherState>) -> Seq<MatcherState> {
    Seq::new(matchers.len(), |i: int| matchers[i].after_reset())
}

/// The reading after one event of the work `work`. The element
/// `pgterms:ebook` gives the catalog identifier and is not shown to the
/// matchers; every other opening tag, every closing tag and every text is
/// handed to all of them.
pub open spec fn after_xml_event(state: DocumentState, event: XmlEventView, work: usize) -> DocumentState {
    match event {
        XmlEventView::Start { name, attributes } => if name == "rdf::RDF"@ {
            state
        } else if name == "pgterms:ebook"@ {
            match catalog_scan(attributes, state.catalog_id, 0) {
                Ok(id) => DocumentState { catalog_id: id, ..state },
                Err(kind) => DocumentState { failure: Some(kind), ..state },
            }
        } else {
            let fanned = fan_start(state.matchers, state.corpus, name, attributes, work, 0);
            DocumentState {
                matchers: fanned.matchers,
                corpus: fanned.corpus,
                failure: fanned.failure,
                ..state
            }
        },
        XmlEventView::End { name } => DocumentState {
            matchers: fan_end(state.matchers, name),
            ..state
        },
        XmlEventView::Text { text } => {
            let fanned = fan_text(state.matchers, state.corpus, text, work, 0);
            DocumentState {
                matchers: fanned.matchers,
                corpus: fanned.corpus,
                failure: fanned.failure,
                ..state
            }
        },
        XmlEventView::Eof => state,
        XmlEventView::Other => state,
    }
}

/// The reading after the reads `pending`: the events are taken in order up
/// to the end of the document, and the first failure, of a read or of an
/// event, ends the reading.
pub open spec fn run_document(pending: Seq<XmlStep>, state: DocumentState, work: usize) -> DocumentState
    decreases pending.len(),
{
    if pending.len() == 0 {
        state
    } else {
        match pending[0] {
            XmlStep::Failure(kind) => DocumentState { failure: Some(kind), ..state },
            XmlStep::Event(event) => if event is Eof {
                state
            } else {
                let next = after_xml_event(state, event, work);
                if next.failure is Some {
                    next
                } else {
                    run_document(pending.drop_first(), next, work)
                }
            },
        }
    }
}

/// Reads the catalog identifier from the value of an `rdf:about` attribute.
pub fn parse_catalog_id(value: &str) -> (id: Option<usize>)
    ensures
        id == catalog_id_in(value@),
{
    let parts = split(value, '/');
    assert(strings_view(parts@) == path_names(value@));
    if parts.len() == 2 {
        assert(strings_view(parts@)[1] == parts@[1]@);
        parse_usize(parts[1].as_str())
    } else {
        None
    }
}

/// The catalog identifier after the attributes of the `pgterms:ebook`
/// element.
fn scan_catalog_id(attributes: &Vec<(String, String)>, current: usize) -> (r: Result<usize, Error>)
    ensures
        match catalog_scan(attributes_view(attributes@), current, 0) {
            Ok(id) => r == Ok::<usize, Error>(id),
            Err(kind) => r is Err && r->Err_0.kind() == kind,
        },
{
    let n = attributes.len();
    let ghost model = attributes_view(attributes@);
    let mut id = current;
    let mut i: usize = 0;
    while i < n
        invariant
            n == attributes@.len(),
            model == attributes_view(attributes@),
            i <= n,
            catalog_scan(model, current, 0) == catalog_scan(model, id, i as int),
        decreases n - i,
    {
        assert(model[i as int] == (attributes@[i as int].0@, attributes@[i as int].1@));
        if str_eq(attributes[i].0.as_str(), "rdf:about") {
            match parse_catalog_id(attributes[i].1.as_str()) {
                Some(found) => {
                    id = found;
                },
                None => {
                    let mut message = String::from_str("cannot parse bookid in ");
                    message.append(attributes[i].1.as_str());
                    return Err(Error::InvalidRdf(message));
                },
            }
        }
        i += 1;
    }
    Ok(id)
}

/// Feeds the attributes of a tag to one matcher, up to the first that
/// fails.
fn feed_attributes<P: FSTParser>(
    parser: &mut P,
    attributes: &Vec<(String, String)>,
    out: &mut ParseResult,
    book_id: usize,
) -> (r: Result<(), Error>)
    requires
        old(parser).state().wf(),
        old(out)@.wf(),
    ensures
        final(parser).state() == after_attributes(
            old(parser).state(),
            old(out)@,
            attributes_view(attributes@),
            book_id,
            0,
        ).matcher,
        final(out)@ == after_attributes(
            old(parser).state(),
            old(out)@,
            attributes_view(attributes@),
            book_id,
            0,
        ).corpus,
        outcome_is(
            r,
            after_attributes(
                old(parser).state(),
                old(out)@,
                attributes_view(attributes@),
                book_id,
                0,
            ).failure,
        ),
        final(parser).state().wf(),
        final(out)@.wf(),
{
    let n = attributes.len();
    let ghost model = attributes_view(attributes@);
    let ghost start = old(parser).state();
    let ghost corpus = old(out)@;
    let mut i: usize = 0;
    while i < n
        invariant
            n == attributes@.len(),
            model == attributes_view(attributes@),
            i <= n,
            parser.state().wf(),
            out@.wf(),
            start == old(parser).state(),
            corpus == old(out)@,
            after_attributes(start, corpus, model, book_id, 0) == after_attributes(
                parser.state(),
                out@,
                model,
                book_id,
                i as int,
            ),
        decreases n - i,
    {
        assert(model[i as int] == (attributes@[i as int].0@, attributes@[i as int].1@));
        let ghost state_before = parser.state();
        let ghost corpus_before = out@;
        let r = parser.attribute(
            attributes[i].0.as_str(),
            attributes[i].1.as_str(),
            out,
            book_id,
        );
        proof {
            let next = state_before.after_attribute(
                model[i as int].0,
                model[i as int].1,
                corpus_before,
                book_id,
            );
            assert(after_attributes(state_before, corpus_before, model, book_id, i as int) == (
            if next.failure is Some {
                next
            } else {
                after_attributes(next.matcher, next.corpus, model, book_id, i + 1)
            }));
        }
        match r {
            Ok(_) => {},
            Err(e) => {
                return Err(e);
            },
        }
        i += 1;
    }
    Ok(())
}

/// Hands an opening tag to all matchers.
fn start_all<P: FSTParser>(
    parsers: &mut Vec<P>,
    name: &str,
    attributes: &Vec<(String, String)>,
    out: &mut ParseResult,
    book_id: usize,
) -> (r: Result<(), Error>)
    requires
        matchers_wf(parsers_view(old(parsers)@)),
        old(out)@.wf(),
    ensures
        parsers_view(final(parsers)@) == fan_start(
            parsers_view(old(parsers)@),
            old(out)@,
            name@,
            attributes_view(attributes@),
            book_id,
            0,
        ).matchers,
        final(out)@ == fan_start(
            parsers_view(old(parsers)@),
            old(out)@,
            name@,
            attributes_view(attributes@),
            book_id,
            0,
        ).corpus,
        outcome_is(
            r,
            fan_start(
                parsers_view(old(parsers)@),
                old(out)@,
                name@,
                attributes_view(attributes@),
                book_id,
                0,
            ).failure,
        ),
        matchers_wf(parsers_view(final(parsers)@)),
        final(out)@.wf(),
        final(parsers)@.len() == old(parsers)@.len(),
{
    let n = parsers.len();
    let ghost model = attributes_view(attributes@);
    let ghost start = parsers_view(parsers@);
    let ghost corpus = out@;
    let mut i: usize = 0;
    while i < n
        invariant
            n == parsers@.len(),
            n == old(parsers)@.len(),
            i <= n,
            matchers_wf(parsers_view(parsers@)),
            out@.wf(),
            model == attributes_view(attributes@),
            start == parsers_view(old(parsers)@),
            corpus == old(out)@,
            fan_start(start, corpus, name@, model, book_id, 0) == fan_start(
                parsers_view(parsers@),
                out@,
                name@,
                model,
                book_id,
                i as int,
            ),
        decreases n - i,
    {
        let ghost before = parsers_view(parsers@);
        let ghost corpus_before = out@;
        assert(before[i as int].wf());
        assert(before[i as int] == parsers@[i as int].state());
        let ghost elements = parsers@;
        parsers[i].start_node(name);
        let ghost entered = parsers@;
        assert(entered[i as int].state() == before[i as int].after_start(name@));
        assert(forall|k: int| 0 <= k < n && k != i ==> entered[k] == elements[k]);
        let r = feed_attributes(&mut parsers[i], attributes, out, book_id);
        let ghost stepped = after_attributes(
            before[i as int].after_start(name@),
            corpus_before,
            model,
            book_id,
            0,
        );
        assert(forall|k: int| 0 <= k < n && k != i ==> parsers@[k] == entered[k]);
        assert(parsers_view(parsers@) =~= before.update(i as int, stepped.matcher));
        assert(matchers_wf(parsers_view(parsers@))) by {
            assert forall|k: int| 0 <= k < n implies (#[trigger] parsers_view(parsers@)[k]).wf() by {
                if k != i {
                    assert(before[k].wf());
                }
            }
        }
        assert(fan_start(before, corpus_before, name@, model, book_id, i as int) == (
        if stepped.failure is Some {
            Fanned {
                matchers: before.update(i as int, stepped.matcher),
                corpus: stepped.corpus,
                failure: stepped.failure,
            }
        } else {
            fan_start(
                before.update(i as int, stepped.matcher),
                stepped.corpus,
                name@,
                model,
                book_id,
                i + 1,
            )
        }));
        match r {
            Ok(_) => {},
            Err(e) => {
                return Err(e);
            },
        }
        i += 1;
    }
    Ok(())
}

/// Hands a text to all matchers.
fn text_all<P: FSTParser>(parsers: &mut Vec<P>, text: &str, out: &mut ParseResult, book_id: usize) -> (r: Result<
    (),
    Error,
>)
    requires
        matchers_wf(parsers_view(old(parsers)@)),
        old(out)@.wf(),
    ensures
        parsers_view(final(parsers)@) == fan_text(
            parsers_view(old(parsers)@),
            old(out)@,
            text@,
            book_id,
            0,
        ).matchers,
        final(out)@ == fan_text(parsers_view(old(parsers)@), old(out)@, text@, book_id, 0).corpus,
        outcome_is(
            r,
            fan_text(parsers_view(old(parsers)@), old(out)@, text@, book_id, 0).failure,
        ),
        matchers_wf(parsers_view(final(parsers)@)),
        final(out)@.wf(),
        final(parsers)@.len() == old(parsers)@.len(),
{
    let n = parsers.len();
    let ghost start = parsers_view(parsers@);
    let ghost corpus = out@;
    let mut i: usize = 0;
    while i < n
        invariant
            n == parsers@.len(),
            n == old(parsers)@.len(),
            i <= n,
            matchers_wf(parsers_view(parsers@)),
            out@.wf(),
            start == parsers_view(old(parsers)@),
            corpus == old(out)@,
            fan_text(start, corpus, text@, book_id, 0) == fan_text(
                parsers_view(parsers@),
                out@,
                text@,
                book_id,
                i as int,
            ),
        decreases n - i,
    {
        let ghost before = parsers_view(parsers@);
        let ghost corpus_before = out@;
        assert(before[i as int].wf());
        assert(before[i as int] == parsers@[i as int].state());
        let ghost elements = parsers@;
        let r = parsers[i].text(text, out, book_id);
        let ghost stepped = before[i as int].after_text(text@, corpus_before, book_id);
        assert(forall|k: int| 0 <= k < n && k != i ==> parsers@[k] == elements[k]);
        assert(parsers_view(parsers@) =~= before.update(i as int, stepped.matcher));
        assert(matchers_wf(parsers_view(parsers@))) by {
            assert forall|k: int| 0 <= k < n implies (#[trigger] parsers_view(parsers@)[k]).wf() by {
                if k != i {
                    assert(before[k].wf());
                }
            }
        }
        assert(fan_text(before, corpus_before, text@, book_id, i as int) == (
        if stepped.failure is Some {
            Fanned {
                matchers: before.update(i as int, stepped.matcher),
                corpus: stepped.corpus,
                failure: stepped.failure,
            }
        } else {
            fan_text(before.update(i as int, stepped.matcher), stepped.corpus, text@, book_id, i + 1)
        }));
        match r {
            Ok(_) => {},
            Err(e) => {
                return Err(e);
            },
        }
        i += 1;
    }
    Ok(())
}

/// Hands a closing tag to all matchers.
fn end_all<P: FSTParser>(parsers: &mut Vec<P>, name: &str)
    requires
        matchers_wf(parsers_view(old(parsers)@)),
    ensures
        parsers_view(final(parsers)@) == fan_end(parsers_view(old(parsers)@), name@),
        matchers_wf(parsers_view(final(parsers)@)),
        final(parsers)@.len() == old(parsers)@.len(),
{
    let n = parsers.len();
    let ghost start = parsers_view(parsers@);
    let mut i: usize = 0;
    assert forall|k: int| 0 <= k < n implies (#[trigger] parsers@[k]).state().wf() by {
        assert(start[k].wf());
    }
    while i < n
        invariant
            n == parsers@.len(),
            start.len() == n,
            i <= n,
            forall|k: int| 0 <= k < n ==> (#[trigger] parsers@[k]).state().wf(),
            forall|k: int| 0 <= k < i ==> (#[trigger] parsers@[k]).state() == start[k].after_end(name@),
            forall|k: int| i <= k < n ==> (#[trigger] parsers@[k]).state() == start[k],
        decreases n - i,
    {
        parsers[i].end_node(name);
        i += 1;
    }
    assert(parsers_view(parsers@) =~= fan_end(start, name@));
    assert forall|k: int| 0 <= k < n implies (#[trigger] parsers_view(parsers@)[k]).wf() by {
        assert(parsers@[k].state().wf());
    }
}

/// Resets all matchers.
pub fn reset_all<P: FSTParser>(parsers: &mut Vec<P>)
    requires
        matchers_wf(parsers_view(old(parsers)@)),
    ensures
        parsers_view(final(parsers)@) == fan_reset(parsers_view(old(parsers)@)),
        matchers_wf(parsers_view(final(parsers)@)),
        final(parsers)@.len() == old(parsers)@.len(),
{
    let n = parsers.len();
    let ghost start = parsers_view(parsers@);
    let mut i: usize = 0;
    assert forall|k: int| 0 <= k < n implies (#[trigger] parsers@[k]).state().wf() by {
        assert(start[k].wf());
    }
    while i < n
        invariant
            n == parsers@.len(),
            start.len() == n,
            i <= n,
            forall|k: int| 0 <= k < n ==> (#[trigger] parsers@[k]).state().wf(),
            forall|k: int| 0 <= k < i ==> (#[trigger] parsers@[k]).state() == start[k].after_reset(),
            forall|k: int| i <= k < n ==> (#[trigger] parsers@[k]).state() == start[k],
        decreases n - i,
    {
        parsers[i].reset();
        i += 1;
    }
    assert(parsers_view(parsers@) =~= fan_reset(start));
    assert forall|k: int| 0 <= k < n implies (#[trigger] parsers_view(parsers@)[k]).wf() by {
        assert(parsers@[k].state().wf());
    }
}

/// Takes one event of the work `book_id`: the matchers and the result are
/// changed as the event asks, and the catalog identifier is returned, the
/// one given or, after the element `pgterms:ebook`, the one read from it.
pub fn process_event<P: FSTParser>(
    event: &XmlEvent,
    field_parsers: &mut Vec<P>,
    book_id: usize,
    out: &mut ParseResult,
    gutenberg_book_id: usize,
) -> (r: Result<usize, Error>)
    requires
        matchers_wf(parsers_view(old(field_parsers)@)),
        old(out)@.wf(),
    ensures
        ({
            let next = after_xml_event(
                DocumentState {
                    matchers: parsers_view(old(field_parsers)@),
                    corpus: old(out)@,
                    catalog_id: gutenberg_book_id,
                    failure: None,
                },
                event@,
                book_id,
            );
            &&& parsers_view(final(field_parsers)@) == next.matchers
            &&& final(out)@ == next.corpus
            &&& match next.failure {
                None => r == Ok::<usize, Error>(next.catalog_id),
                Some(kind) => r is Err && r->Err_0.kind() == kind,
            }
        }),
        matchers_wf(parsers_view(final(field_parsers)@)),
        final(out)@.wf(),
        final(field_parsers)@.len() == old(field_parsers)@.len(),
{
    match event {
        XmlEvent::Start { name, attributes } => {
            if str_eq(name.as_str(), "rdf::RDF") {
                Ok(gutenberg_book_id)
            } else if str_eq(name.as_str(), "pgterms:ebook") {
                scan_catalog_id(attributes, gutenberg_book_id)
            } else {
                match start_all(field_parsers, name.as_str(), attributes, out, book_id) {
                    Ok(_) => Ok(gutenberg_book_id),
                    Err(e) => Err(e),
                }
            }
        },
        XmlEvent::End { name } => {
            end_all(field_parsers, name.as_str());
            Ok(gutenberg_book_id)
        },
        XmlEvent::Text { text } => {
            match text_all(field_parsers, text.as_str(), out, book_id) {
                Ok(_) => Ok(gutenberg_book_id),
                Err(e) => Err(e),
            }
        },
        XmlEvent::Eof => Ok(gutenberg_book_id),
        XmlEvent::Other => Ok(gutenberg_book_id),
    }
}

/// Reads one document to its end, as the work with the ordinal `book_id`:
/// every event is taken in turn, and the first failure ends the reading.
/// Returns the catalog identifier of the document, zero where it gives
/// none.
pub fn parse_rdf_from_reader<R: XmlReader, P: FSTParser>(
    reader: &mut R,
    field_parsers: &mut Vec<P>,
    book_id: usize,
    out: &mut ParseResult,
) -> (r: Result<usize, Error>)
    requires
        matchers_wf(parsers_view(old(field_parsers)@)),
        old(out)@.wf(),
    ensures
        ({
            let end = run_document(
                old(reader).pending(),
                DocumentState {
                    matchers: parsers_view(old(field_parsers)@),
                    corpus: old(out)@,
                    catalog_id: 0,
                    failure: None,
                },
                book_id,
            );
            &&& parsers_view(final(field_parsers)@) == end.matchers
            &&& final(out)@ == end.corpus
            &&& match end.failure {
                None => r == Ok::<usize, Error>(end.catalog_id),
                Some(kind) => r is Err && r->Err_0.kind() == kind,
            }
        }),
        matchers_wf(parsers_view(final(field_parsers)@)),
        final(out)@.wf(),
        final(field_parsers)@.len() == old(field_parsers)@.len(),
{
    let mut gutenberg_book_id: usize = 0;
    let ghost start = DocumentState {
        matchers: parsers_view(field_parsers@),
        corpus: out@,
        catalog_id: 0,
        failure: None,
    };
    let ghost pending = reader.pending();
    loop
        invariant
            matchers_wf(parsers_view(field_parsers@)),
            out@.wf(),
            field_parsers@.len() == old(field_parsers)@.len(),
            pending == old(reader).pending(),
            start == (DocumentState {
                matchers: parsers_view(old(field_parsers)@),
                corpus: old(out)@,
                catalog_id: 0,
                failure: None,
            }),
            run_document(pending, start, book_id) == run_document(
                reader.pending(),
                DocumentState {
                    matchers: parsers_view(field_parsers@),
                    corpus: out@,
                    catalog_id: gutenberg_book_id,
                    failure: None,
                },
                book_id,
            ),
        decreases reader.pending().len(),
    {
        let event = match reader.read() {
            Ok(event) => event,
            Err(e) => {
                return Err(e);
            },
        };
        match event {
            XmlEvent::Eof => {
                return Ok(gutenberg_book_id);
            },
            _ => {},
        }
        gutenberg_book_id =
        match process_event(&event, field_parsers, book_id, out, gutenberg_book_id) {
            Ok(id) => id,
            Err(e) => {
                return Err(e);
            },
        };
    }
}

/// The identifier of a field that has one value: the first identifier
/// captured plus `offset`, and `-1` where none was captured. Fails with
/// `InvalidResult` where the identifier is too large.
pub open spec fn scalar_id(result: Option<Seq<usize>>, offset: int) -> Result<i32, ErrorKind> {
    match result {
        Some(links) => if links.len() == 0 {
            Ok(-1i32)
        } else if links[0] + offset > i32::MAX {
            Err(ErrorKind::InvalidResult)
        } else {
            Ok((links[0] + offset) as i32)
        },
        None => Ok(-1i32),
    }
}

/// The identifiers of a field that has many values: all that were captured.
pub open spec fn list_ids(result: Option<Seq<usize>>) -> Seq<usize> {
    match result {
        Some(links) => links,
        None => Seq::empty(),
    }
}

/// The value with the identifier `id`, if there is one.
pub open spec fn entry_value(entries: Entries, id: i32) -> Option<Seq<char>> {
    if 0 <= id < entries.len() {
        Some(entries[id as int].0)
    } else {
        None
    }
}

/// The date of issue: the value that the identifier names, and the empty
/// text where it names none.
pub open spec fn date_of(entries: Entries, id: i32) -> Seq<char> {
    match entry_value(entries, id) {
        Some(text) => text,
        None => Seq::empty(),
    }
}

/// The number of downloads: the value that the identifier names, read as a
/// number, and zero where it names none. Fails with `InvalidRdf` where the
/// value is no number.
pub open spec fn downloads_of(entries: Entries, id: i32) -> Result<i32, ErrorKind> {
    match entry_value(entries, id) {
        Some(text) => match parsed_i32(text) {
            Some(n) => Ok(n),
            None => Err(ErrorKind::InvalidRdf),
        },
        None => Ok(0i32),
    }
}

/// The work that the matchers have captured at the end of a document. The
/// matchers stand in the order of the kinds of field. Publisher and rights
/// are given by row keys, one more than the identifiers.
pub open spec fn assembled_book(matchers: Seq<MatcherState>, corpus: CorpusView, catalog_id: usize) -> Result<
    BookView,
    ErrorKind,
> {
    let publisher = scalar_id(matchers[ParseType::Publisher.spec_index()].result(), 1);
    let title = scalar_id(matchers[ParseType::Title.spec_index()].result(), 0);
    let rights = scalar_id(matchers[ParseType::Rights.spec_index()].result(), 1);
    let date = scalar_id(matchers[ParseType::DateIssued.spec_index()].result(), 0);
    let down = scalar_id(matchers[ParseType::Downloads.spec_index()].result(), 0);
    if publisher is Err {
        Err(ErrorKind::InvalidResult)
    } else if title is Err {
        Err(ErrorKind::InvalidResult)
    } else if rights is Err {
        Err(ErrorKind::InvalidResult)
    } else if date is Err {
        Err(ErrorKind::InvalidResult)
    } else if down is Err {
        Err(ErrorKind::InvalidResult)
    } else {
        let downloads = downloads_of(
            corpus.fields[ParseType::Downloads.spec_index()],
            down->Ok_0,
        );
        if downloads is Err {
            Err(ErrorKind::InvalidRdf)
        } else {
            match matchers[ParseType::Files.spec_index()].files() {
                None => Err(ErrorKind::InvalidResult),
                Some(files) => Ok(
                    BookView {
                        publisher_id: publisher->Ok_0,
                        title_id: title->Ok_0,
                        rights_id: rights->Ok_0,
                        gutenberg_book_id: catalog_id,
                        date_issued: date_of(
                            corpus.fields[ParseType::DateIssued.spec_index()],
                            date->Ok_0,
                        ),
                        num_downloads: downloads->Ok_0,
                        language_ids: list_ids(
                            matchers[ParseType::Language.spec_index()].result(),
                        ),
                        subject_ids: list_ids(matchers[ParseType::Subject.spec_index()].result()),
                        author_ids: list_ids(matchers[ParseType::Author.spec_index()].result()),
                        bookshelf_ids: list_ids(
                            matchers[ParseType::Bookshelf.spec_index()].result(),
                        ),
                        files,
                    },
                ),
            }
        }
    }
}

/// The identifier that a matcher gives to a field with one value.
fn scalar_of<P: FSTParser>(parser: &P, offset: usize) -> (r: Result<i32, Error>)
    requires
        parser.state().wf(),
        offset <= 1,
    ensures
        match scalar_id(parser.state().result(), offset as int) {
            Ok(id) => r == Ok::<i32, Error>(id),
            Err(kind) => r is Err && r->Err_0.kind() == kind,
        },
{
    match parser.get_result() {
        Ok(item) => {
            if item.item_links.len() == 0 {
                Ok(-1)
            } else {
                let first = item.item_links[0];
                if first > i32::MAX as usize - offset {
                    Err(Error::InvalidResult(String::from_str("identifier out of range")))
                } else {
                    Ok((first + offset) as i32)
                }
            }
        },
        Err(_) => Ok(-1),
    }
}

/// The identifiers that a matcher gives to a field with many values.
fn list_of<P: FSTParser>(parser: &P) -> (ids: Vec<usize>)
    requires
        parser.state().wf(),
    ensures
        ids@ == list_ids(parser.state().result()),
{
    let mut ids: Vec<usize> = Vec::new();
    match parser.get_result() {
        Ok(item) => {
            let n = item.item_links.len();
            let mut i: usize = 0;
            while i < n
                invariant
                    n == item.item_links@.len(),
                    i <= n,
                    ids@ == item.item_links@.subrange(0, i as int),
                decreases n - i,
            {
                ids.push(item.item_links[i]);
                i += 1;
            }
            assert(ids@ =~= item.item_links@);
        },
        Err(_) => {},
    }
    ids
}

/// The value with the identifier `id`, if there is one.
fn value_of(dictionary: &Dictionary, id: i32) -> (value: Option<&String>)
    ensures
        match entry_value(dictionary_entries(*dictionary), id) {
            Some(text) => value is Some && value->0@ == text,
            None => value is None,
        },
{
    if id < 0 {
        None
    } else {
        match dictionary_get_index(dictionary, id as usize) {
            Some(entry) => Some(entry.0),
            None => None,
        }
    }
}

/// Puts together the work that the matchers have captured at the end of a
/// document. The matchers stand in the order of the kinds of field.
pub fn assemble_book<P: FSTParser>(field_parsers: &Vec<P>, out: &ParseResult, gutenberg_book_id: usize) -> (r: Result<
    Book,
    Error,
>)
    requires
        field_parsers@.len() == FIELD_KINDS,
        matchers_wf(parsers_view(field_parsers@)),
        out@.wf(),
    ensures
        match assembled_book(parsers_view(field_parsers@), out@, gutenberg_book_id) {
            Ok(book) => r is Ok && r->Ok_0@ == book,
            Err(kind) => r is Err && r->Err_0.kind() == kind,
        },
{
    let ghost matchers = parsers_view(field_parsers@);
    assert forall|k: int| 0 <= k < FIELD_KINDS implies (#[trigger] field_parsers@[k]).state().wf()
        && field_parsers@[k].state() == matchers[k] by {
        assert(matchers[k].wf());
    }
    let publisher_id = scalar_of(&field_parsers[ParseType::Publisher.index()], 1)?;
    let title_id = scalar_of(&field_parsers[ParseType::Title.index()], 0)?;
    let rights_id = scalar_of(&field_parsers[ParseType::Rights.index()], 1)?;
    let date_id = scalar_of(&field_parsers[ParseType::DateIssued.index()], 0)?;
    let down_id = scalar_of(&field_parsers[ParseType::Downloads.index()], 0)?;
    let language_ids = list_of(&field_parsers[ParseType::Language.index()]);
    let subject_ids = list_of(&field_parsers[ParseType::Subject.index()]);
    let author_ids = list_of(&field_parsers[ParseType::Author.index()]);
    let bookshelf_ids = list_of(&field_parsers[ParseType::Bookshelf.index()]);
    let mut date_issued = String::from_str("");
    proof {
        reveal_strlit("");
    }
    match value_of(&out.field_dictionaries[ParseType::DateIssued.index()], date_id) {
        Some(text) => {
            date_issued = text.clone();
        },
        None => {},
    }
    assert(date_issued@ =~= date_of(out@.fields[ParseType::DateIssued.spec_index()], date_id));
    let mut num_downloads: i32 = 0;
    match value_of(&out.field_dictionaries[ParseType::Downloads.index()], down_id) {
        Some(text) => {
            match parse_i32(text.as_str()) {
                Some(n) => {
                    num_downloads = n;
                },
                None => {
                    let mut message = String::from_str("bad num downloads: ");
                    message.append(text.as_str());
                    return Err(Error::InvalidRdf(message));
                },
            }
        },
        None => {},
    }
    let files = field_parsers[ParseType::Files.index()].get_files()?;
    Ok(
        Book {
            publisher_id,
            title_id,
            rights_id,
            gutenberg_book_id,
            date_issued,
            num_downloads,
            language_ids,
            subject_ids,
            author_ids,
            bookshelf_ids,
            files,
        },
    )
}

/// The path matcher for `path` as it is built.
pub open spec fn fresh_path(path: Seq<char>, kind: ParseType) -> MatcherState {
    MatcherState::Path(PathState::fresh(path_names(path), kind))
}

/// The alternation of two paths as it is built.
pub open spec fn fresh_alternation(first: Seq<char>, second: Seq<char>, kind: ParseType) -> MatcherState {
    MatcherState::Alternation {
        nodes: seq![
            PathState::fresh(path_names(first), kind),
            PathState::fresh(path_names(second), kind),
        ],
        kind,
    }
}

/// The matchers with which a corpus is read, in the order of the kinds of
/// field: the paths of title, subject, language, author, bookshelf, files,
/// publisher, rights, date of issue and number of downloads.
pub open spec fn default_matchers() -> Seq<MatcherState> {
    seq![
        fresh_alternation("dcterms:title"@, "dcterms:alternative"@, ParseType::Title),
        fresh_path("dcterms:subject/rdf:Description/rdf:value"@, ParseType::Subject),
        fresh_path("dcterms:language/rdf:Description/rdf:value"@, ParseType::Language),
        fresh_alternation(
            "dcterms:creator/pgterms:agent/pgterms:name"@,
            "dcterms:creator/pgterms:agent/pgterms:agent"@,
            ParseType::Author,
        ),
        fresh_path("pgterms:bookshelf/rdf:Description/rdf:value"@, ParseType::Bookshelf),
        MatcherState::FileLink(
            FileState::fresh(
                seq![
                    "dcterms:hasFormat"@,
                    "pgterms:file"@,
                    "dcterms:format"@,
                    "rdf:Description"@,
                    "rdf:value"@,
                ],
                "rdf:about"@,
                LINK_DEPTH as int,
                ParseType::Files,
            ),
        ),
        fresh_path("dcterms:publisher"@, ParseType::Publisher),
        fresh_path("dcterms:rights"@, ParseType::Rights),
        fresh_path("dcterms:issued"@, ParseType::DateIssued),
        fresh_path("pgterms:downloads"@, ParseType::Downloads),
    ]
}

/// A path matcher for a path of at most a hundred characters.
fn path_parser(path: &str, kind: ParseType) -> (parser: FieldParser)
    requires
        path@.len() <= 100,
    ensures
        parser.state() == fresh_path(path@, kind),
        parser.state().wf(),
{
    proof {
        lemma_split_len(path@, '/', 0);
    }
    FieldParser::Node(FSTParserNode::build(path, kind))
}

/// An alternation of two paths of at most a hundred characters each.
fn alternation_parser(first: &str, second: &str, kind: ParseType) -> (parser: FieldParser)
    requires
        first@.len() <= 100,
        second@.len() <= 100,
    ensures
        parser.state() == fresh_alternation(first@, second@, kind),
        parser.state().wf(),
{
    proof {
        lemma_split_len(first@, '/', 0);
        lemma_split_len(second@, '/', 0);
    }
    let mut paths: Vec<Vec<String>> = Vec::new();
    paths.push(split(first, '/'));
    paths.push(split(second, '/'));
    let ghost given = paths@;
    let node = FSTParserOrNode::build(paths, kind);
    assert(fresh_nodes(given, kind) =~= seq![
        PathState::fresh(path_names(first@), kind),
        PathState::fresh(path_names(second@), kind),
    ]);
    FieldParser::OrNode(node)
}

/// The matcher for the files of a work.
fn file_parser() -> (parser: FieldParser)
    ensures
        parser.state() == default_matchers()[ParseType::Files.spec_index()],
        parser.state().wf(),
{
    let mut names: Vec<&str> = Vec::new();
    names.push("dcterms:hasFormat");
    names.push("pgterms:file");
    names.push("dcterms:format");
    names.push("rdf:Description");
    names.push("rdf:value");
    let ghost given = names@;
    let node = FSTParserFileNode::build(names, "rdf:about", ParseType::Files);
    assert(slices_view(given) =~= seq![
        "dcterms:hasFormat"@,
        "pgterms:file"@,
        "dcterms:format"@,
        "rdf:Description"@,
        "rdf:value"@,
    ]);
    FieldParser::FileNode(node)
}

/// An empty result and the matchers with which a corpus is read.
pub fn setup_fst() -> (r: (ParseResult, Vec<FieldParser>))
    ensures
        r.0@ == CorpusView::empty(),
        parsers_view(r.1@) == default_matchers(),
        matchers_wf(parsers_view(r.1@)),
        r.1@.len() == FIELD_KINDS,
{
    proof {
        reveal_strlit("dcterms:title");
        reveal_strlit("dcterms:alternative");
        reveal_strlit("dcterms:subject/rdf:Description/rdf:value");
        reveal_strlit("dcterms:language/rdf:Description/rdf:value");
        reveal_strlit("dcterms:creator/pgterms:agent/pgterms:name");
        reveal_strlit("dcterms:creator/pgterms:agent/pgterms:agent");
        reveal_strlit("pgterms:bookshelf/rdf:Description/rdf:value");
        reveal_strlit("dcterms:publisher");
        reveal_strlit("dcterms:rights");
        reveal_strlit("dcterms:issued");
        reveal_strlit("pgterms:downloads");
    }
    let mut parsers: Vec<FieldParser> = Vec::new();
    parsers.push(alternation_parser("dcterms:title", "dcterms:alternative", ParseType::Title));
    parsers.push(path_parser("dcterms:subject/rdf:Description/rdf:value", ParseType::Subject));
    parsers.push(path_parser("dcterms:language/rdf:Description/rdf:value", ParseType::Language));
    parsers.push(
        alternation_parser(
            "dcterms:creator/pgterms:agent/pgterms:name",
            "dcterms:creator/pgterms:agent/pgterms:agent",
            ParseType::Author,
        ),
    );
    parsers.push(path_parser("pgterms:bookshelf/rdf:Description/rdf:value", ParseType::Bookshelf));
    parsers.push(file_parser());
    parsers.push(path_parser("dcterms:publisher", ParseType::Publisher));
    parsers.push(path_parser("dcterms:rights", ParseType::Rights));
    parsers.push(path_parser("dcterms:issued", ParseType::DateIssued));
    parsers.push(path_parser("pgterms:downloads", ParseType::Downloads));
    assert(parsers_view(parsers@) =~= default_matchers());
    (ParseResult::new(), parsers)
}

/// Where the reading of a corpus stands: the matchers, the corpus, and the
/// failure that ended the reading, if one did.
pub struct CorpusState {
    pub matchers: Seq<MatcherState>,
    pub corpus: CorpusView,
    pub failure: Option<ErrorKind>,
}

/// The reading after one more document, the work with the ordinal `work`:
/// the document is read to its end, the work that the matchers captured is
/// added to the corpus, and the matchers are reset. The first failure ends
/// the reading.
pub open spec fn after_document(state: CorpusState, document: Seq<XmlStep>, work: usize) -> CorpusState {
    let end = run_document(
        document,
        DocumentState {
            matchers: state.matchers,
            corpus: state.corpus,
            catalog_id: 0,
            failure: None,
        },
        work,
    );
    if end.failure is Some {
        CorpusState { matchers: end.matchers, corpus: end.corpus, failure: end.failure }
    } else {
        match assembled_book(end.matchers, end.corpus, end.catalog_id) {
            Err(kind) => CorpusState {
                matchers: end.matchers,
                corpus: end.corpus,
                failure: Some(kind),
            },
            Ok(book) => CorpusState {
                matchers: fan_reset(end.matchers),
                corpus: end.corpus.with_book(book),
                failure: None,
            },
        }
    }
}

/// The reading after the first `n` documents, taken in order, each as the
/// work whose ordinal is its place counted from one. A failure ends the
/// reading of the whole corpus.
pub open spec fn after_documents(start: CorpusState, documents: Seq<Seq<XmlStep>>, n: int) -> CorpusState
    decreases n,
{
    if n <= 0 {
        start
    } else {
        let before = after_documents(start, documents, n - 1);
        if before.failure is Some {
            before
        } else {
            after_document(before, documents[n - 1], n as usize)
        }
    }
}

/// What the reads of each document of a corpus give.
pub open spec fn documents_steps(contents: Seq<String>) -> Seq<Seq<XmlStep>> {
    Seq::new(contents.len(), |i: int| decoded_steps(document_events(contents[i]@)))
}

/// The reading of a whole corpus, begun with the matchers of `setup_fst`
/// and an empty result.
pub open spec fn corpus_read(contents: Seq<String>) -> CorpusState {
    after_documents(
        CorpusState { matchers: default_matchers(), corpus: CorpusView::empty(), failure: None },
        documents_steps(contents),
        contents.len() as int,
    )
}

/// Reads one document as the work with the ordinal `book_id`, adds the work
/// that it describes to `out`, and resets the matchers.
pub fn parse_document<R: XmlReader, P: FSTParser>(
    reader: &mut R,
    field_parsers: &mut Vec<P>,
    book_id: usize,
    out: &mut ParseResult,
) -> (r: Result<(), Error>)
    requires
        old(field_parsers)@.len() == FIELD_KINDS,
        matchers_wf(parsers_view(old(field_parsers)@)),
        old(out)@.wf(),
    ensures
        ({
            let end = after_document(
                CorpusState {
                    matchers: parsers_view(old(field_parsers)@),
                    corpus: old(out)@,
                    failure: None,
                },
                old(reader).pending(),
                book_id,
            );
            &&& parsers_view(final(field_parsers)@) == end.matchers
            &&& final(out)@ == end.corpus
            &&& outcome_is(r, end.failure)
        }),
        final(field_parsers)@.len() == FIELD_KINDS,
        matchers_wf(parsers_view(final(field_parsers)@)),
        final(out)@.wf(),
{
    let gutenberg_book_id = parse_rdf_from_reader(reader, field_parsers, book_id, out)?;
    let book = assemble_book(field_parsers, out, gutenberg_book_id)?;
    let ghost before = out@;
    out.books.push(book);
    assert(out@.books =~= before.books.push(book@));
    assert(out@.fields =~= before.fields);
    reset_all(field_parsers);
    Ok(())
}

/// Reads a corpus whose documents are given as text, in order. A failure
/// in one document ends the reading of the whole corpus.
fn parse_rdfs(contents: &Vec<String>) -> (r: Result<ParseResult, Error>)
    ensures
        match corpus_read(contents@).failure {
            None => r is Ok && r->Ok_0@ == corpus_read(contents@).corpus,
            Some(kind) => r is Err && r->Err_0.kind() == kind,
        },
        r is Ok ==> corpus_consistent(r->Ok_0@, contents@.len() as int),
{
    let (mut parse_result, mut field_parsers) = setup_fst();
    let ghost start = CorpusState {
        matchers: default_matchers(),
        corpus: CorpusView::empty(),
        failure: None,
    };
    let ghost documents = documents_steps(contents@);
    let n = contents.len();
    let mut idx: usize = 0;
    while idx < n
        invariant
            n == contents@.len(),
            idx <= n,
            documents == documents_steps(contents@),
            start == (CorpusState {
                matchers: default_matchers(),
                corpus: CorpusView::empty(),
                failure: None,
            }),
            field_parsers@.len() == FIELD_KINDS,
            matchers_wf(parsers_view(field_parsers@)),
            parse_result@.wf(),
            after_documents(start, documents, idx as int) == (CorpusState {
                matchers: parsers_view(field_parsers@),
                corpus: parse_result@,
                failure: None,
            }),
        decreases n - idx,
    {
        let mut reader = ContentReader::new(contents[idx].as_str());
        assert(reader.pending() == documents[idx as int]);
        proof {
            lemma_failure_ends_reading(start, documents, idx + 1, n as int);
        }
        idx = idx + 1;
        parse_document(&mut reader, &mut field_parsers, idx, &mut parse_result)?;
    }
    take_lengths(&parse_result);
    proof {
        lemma_corpus_read_consistent(contents@);
    }
    Ok(parse_result)
}

/// Once a document has failed, the documents after it change nothing.
pub proof fn lemma_failure_ends_reading(start: CorpusState, documents: Seq<Seq<XmlStep>>, n: int, m: int)
    requires
        0 <= n <= m,
    ensures
        after_documents(start, documents, n).failure is Some ==> after_documents(
            start,
            documents,
            m,
        ) == after_documents(start, documents, n),
    decreases m - n,
{
    if n < m {
        lemma_failure_ends_reading(start, documents, n, m - 1);
    }
}

/// Reads a corpus whose documents are given as text, in order: the works,
/// one for each document, and the dictionaries of their values. A failure
/// in one document ends the reading of the whole corpus. Progress is not
/// shown, whatever `display_progress_bar` says.
pub fn parse_rdfs_from_content(rdfs_content: &Vec<String>, display_progress_bar: bool) -> (r: Result<
    ParseResult,
    Error,
>)
    ensures
        match corpus_read(rdfs_content@).failure {
            None => r is Ok && r->Ok_0@ == corpus_read(rdfs_content@).corpus,
            Some(kind) => r is Err && r->Err_0.kind() == kind,
        },
        r is Ok ==> corpus_consistent(r->Ok_0@, rdfs_content@.len() as int),
{
    parse_rdfs(rdfs_content)
}

} // verus!
