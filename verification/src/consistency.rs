//! What holds of every corpus that was read without failure: the
//! identifiers that works and matchers hold name entries of the
//! dictionaries, no dictionary holds a value twice, and the back-links are
//! ordinals of works.

use crate::book::{BookView, GutenbergFileEntry};
use crate::dictionary::{
    dict_id, dictionary_len, distinct_values, interned, lemma_dict_id, lemma_intern_twice,
    lemma_interned, Entries,
};
use crate::fst_parser::{
    lemma_first_with_result, nodes_after_end, nodes_after_reset, nodes_after_start,
    nodes_after_text, CorpusView, FileState, MatcherState, ParseResult, PathState,
};
use crate::fst_parser_type::{ParseType, FIELD_KINDS};
use crate::rdf_parser::{
    after_attributes, after_document, after_documents, after_xml_event, assembled_book,
    corpus_read, default_matchers, documents_steps, fan_end, fan_reset, fan_start, fan_text,
    matchers_wf, run_document, scalar_id, CorpusState, DocumentState,
};
use crate::sqlite_cache::{
    back_link_rows, book_rows, books_rows, cache_plan, field_entries, file_rows, join_rows,
    link_rows, lookup_rows, name_rows, title_link_rows, title_rows, CacheRowView, JoinTable,
    LookupTable,
};
use crate::xml_events::{XmlEventView, XmlStep};
use vstd::prelude::*;

verus! {

/// Every identifier is below `len`.
pub open spec fn ids_below(ids: Seq<usize>, len: int) -> bool {
    forall|i: int| 0 <= i < ids.len() ==> (#[trigger] ids[i]) < len
}

/// Every back-link is the ordinal of one of the first `work` works.
pub open spec fn links_within(links: Seq<usize>, work: int) -> bool {
    forall|j: int| 0 <= j < links.len() ==> 1 <= (#[trigger] links[j]) <= work
}

/// A dictionary as it should be while the work `work` is read: no value
/// twice, and every back-link the ordinal of a work read so far.
pub open spec fn dictionary_ok(entries: Entries, work: int) -> bool {
    &&& distinct_values(entries)
    &&& forall|i: int| 0 <= i < entries.len() ==> links_within((#[trigger] entries[i]).1, work)
}

/// The later dictionary holds the values of the earlier one under the same
/// identifiers, and perhaps more.
pub open spec fn dictionary_extends(after: Entries, before: Entries) -> bool {
    &&& before.len() <= after.len()
    &&& forall|i: int| 0 <= i < before.len() ==> (#[trigger] after[i]).0 == before[i].0
}

/// The entry names a link of the corpus, and a file type of the corpus or
/// none yet.
pub open spec fn file_within(entry: GutenbergFileEntry, corpus: CorpusView) -> bool {
    &&& 0 <= entry.file_link_id < corpus.files.len()
    &&& entry.file_type_id == -1 || 1 <= entry.file_type_id <= corpus.file_types.len()
}

/// Every entry names a link and, where it has one, a file type of the
/// corpus.
pub open spec fn files_within(files: Seq<GutenbergFileEntry>, corpus: CorpusView) -> bool {
    forall|i: int| 0 <= i < files.len() ==> file_within(#[trigger] files[i], corpus)
}

/// The identifier of a field with one value names an entry of a dictionary
/// of `len` entries, or is the mark of absence. `offset` is one for row
/// keys and zero for indices.
pub open spec fn scalar_within(id: i32, len: int, offset: int) -> bool {
    id == -1 || offset <= id < len + offset
}

/// The dictionary of the field `kind`.
pub open spec fn field_of(corpus: CorpusView, kind: ParseType) -> Entries {
    corpus.fields[kind.spec_index()]
}

/// Every identifier of the work names an entry of the dictionary of its
/// field.
pub open spec fn book_within(book: BookView, corpus: CorpusView) -> bool {
    &&& scalar_within(book.publisher_id, field_of(corpus, ParseType::Publisher).len() as int, 1)
    &&& scalar_within(book.title_id, field_of(corpus, ParseType::Title).len() as int, 0)
    &&& scalar_within(book.rights_id, field_of(corpus, ParseType::Rights).len() as int, 1)
    &&& ids_below(book.language_ids, field_of(corpus, ParseType::Language).len() as int)
    &&& ids_below(book.subject_ids, field_of(corpus, ParseType::Subject).len() as int)
    &&& ids_below(book.author_ids, field_of(corpus, ParseType::Author).len() as int)
    &&& ids_below(book.bookshelf_ids, field_of(corpus, ParseType::Bookshelf).len() as int)
    &&& files_within(book.files, corpus)
}

/// A corpus as it should be while the work `work` is read: a dictionary for
/// each kind of field, every dictionary in order, and every work holding
/// identifiers of the dictionaries only.
pub open spec fn corpus_ok(corpus: CorpusView, work: int) -> bool {
    &&& corpus.wf()
    &&& forall|k: int| 0 <= k < FIELD_KINDS ==> dictionary_ok(#[trigger] corpus.fields[k], work)
    &&& dictionary_ok(corpus.files, work)
    &&& dictionary_ok(corpus.file_types, work)
    &&& forall|b: int| 0 <= b < corpus.books.len() ==> book_within(#[trigger] corpus.books[b], corpus)
}

/// The dictionaries of the later corpus hold what those of the earlier one
/// held, and perhaps more values.
pub open spec fn dictionaries_extend(after: CorpusView, before: CorpusView) -> bool {
    &&& after.wf()
    &&& before.wf()
    &&& forall|k: int|
        0 <= k < FIELD_KINDS ==> dictionary_extends(#[trigger] after.fields[k], before.fields[k])
    &&& dictionary_extends(after.files, before.files)
    &&& dictionary_extends(after.file_types, before.file_types)
}

/// The later corpus holds the works of the earlier one, and its
/// dictionaries hold what those of the earlier one held, and perhaps more
/// values.
pub open spec fn corpus_extends(after: CorpusView, before: CorpusView) -> bool {
    dictionaries_extend(after, before) && after.books == before.books
}

/// A corpus that is read to its end is consistent: it has a work for each
/// of its `works` documents, and is in order for that number of works.
pub open spec fn corpus_consistent(corpus: CorpusView, works: int) -> bool {
    corpus_ok(corpus, works) && corpus.books.len() == works
}

/// The path matcher of the field at place `k` holds identifiers of that
/// field only.
pub open spec fn path_within(path: PathState, corpus: CorpusView, k: int) -> bool {
    &&& path.kind.spec_index() == k
    &&& ids_below(path.links, corpus.fields[k].len() as int)
}

/// The matcher at place `k` holds identifiers of the corpus only: those of
/// the field at that place, or those of links and file types.
pub open spec fn matcher_within(matcher: MatcherState, corpus: CorpusView, k: int) -> bool {
    match matcher {
        MatcherState::Path(p) => path_within(p, corpus, k),
        MatcherState::Alternation { nodes, kind } => forall|i: int|
            0 <= i < nodes.len() ==> path_within(#[trigger] nodes[i], corpus, k),
        MatcherState::FileLink(f) => files_within(f.files, corpus),
    }
}

/// Matchers and corpus as they should be while the work `work` is read.
pub open spec fn reading_ok(matchers: Seq<MatcherState>, corpus: CorpusView, work: int) -> bool {
    &&& matchers.len() == FIELD_KINDS
    &&& forall|k: int| 0 <= k < matchers.len() ==> (#[trigger] matchers[k]).wf()
    &&& forall|k: int| 0 <= k < matchers.len() ==> matcher_within(#[trigger] matchers[k], corpus, k)
    &&& corpus_ok(corpus, work)
}

/// Interning keeps a dictionary in order and extends it; the identifier
/// given names an entry of the dictionary after.
pub proof fn lemma_interned_ok(entries: Entries, value: Seq<char>, link: usize, work: int)
    requires
        dictionary_ok(entries, work),
        1 <= link <= work,
    ensures
        dictionary_ok(interned(entries, value, link), work),
        dictionary_extends(interned(entries, value, link), entries),
        0 <= dict_id(entries, value) < interned(entries, value, link).len(),
{
    lemma_dict_id(entries, value);
    lemma_interned(entries, value, link);
    lemma_intern_twice(entries, value, link, link);
    let after = interned(entries, value, link);
    let id = dict_id(entries, value);
    assert forall|i: int| 0 <= i < after.len() implies links_within((#[trigger] after[i]).1, work) by {
        if i != id {
            assert(after[i] == entries[i]);
            assert(links_within(entries[i].1, work));
        } else if id < entries.len() {
            assert(links_within(entries[id].1, work));
        }
    }
}

/// A dictionary that is in order for some number of works is in order for
/// any larger number.
pub proof fn lemma_dictionary_ok_later(entries: Entries, work: int, later: int)
    requires
        dictionary_ok(entries, work),
        work <= later,
    ensures
        dictionary_ok(entries, later),
{
    assert forall|i: int| 0 <= i < entries.len() implies links_within(
        (#[trigger] entries[i]).1,
        later,
    ) by {
        assert(links_within(entries[i].1, work));
    }
}

/// A dictionary extends itself, and extending goes on from one dictionary
/// to the next.
pub proof fn lemma_dictionary_extends(first: Entries, second: Entries, third: Entries)
    requires
        dictionary_extends(second, first),
        dictionary_extends(third, second),
    ensures
        dictionary_extends(third, first),
        dictionary_extends(first, first),
{
    assert forall|i: int| 0 <= i < first.len() implies (#[trigger] third[i]).0 == first[i].0 by {
        assert(second[i].0 == first[i].0);
    }
}

/// Extending goes on from one corpus to the next.
pub proof fn lemma_corpus_extends(first: CorpusView, second: CorpusView, third: CorpusView)
    requires
        corpus_extends(second, first),
        corpus_extends(third, second),
    ensures
        corpus_extends(third, first),
{
    assert forall|k: int| 0 <= k < FIELD_KINDS implies dictionary_extends(
        #[trigger] third.fields[k],
        first.fields[k],
    ) by {
        assert(dictionary_extends(second.fields[k], first.fields[k]));
        lemma_dictionary_extends(first.fields[k], second.fields[k], third.fields[k]);
    }
    lemma_dictionary_extends(first.files, second.files, third.files);
    lemma_dictionary_extends(first.file_types, second.file_types, third.file_types);
}

/// What is within a corpus is within every corpus that extends it.
pub proof fn lemma_within_later(after: CorpusView, before: CorpusView)
    requires
        corpus_extends(after, before),
    ensures
        forall|book: BookView| book_within(book, before) ==> #[trigger] book_within(book, after),
        forall|files: Seq<GutenbergFileEntry>|
            files_within(files, before) ==> #[trigger] files_within(files, after),
        forall|matcher: MatcherState, k: int|
            0 <= k < FIELD_KINDS && matcher_within(matcher, before, k) ==> #[trigger] matcher_within(
                matcher,
                after,
                k,
            ),
{
    assert forall|files: Seq<GutenbergFileEntry>| files_within(files, before) implies #[trigger] files_within(
        files,
        after,
    ) by {
        assert forall|i: int| 0 <= i < files.len() implies file_within(#[trigger] files[i], after) by {
            assert(file_within(files[i], before));
        }
    }
    assert forall|book: BookView| book_within(book, before) implies #[trigger] book_within(
        book,
        after,
    ) by {
        lemma_ids_later(book.language_ids, after, before, ParseType::Language.spec_index());
        lemma_ids_later(book.subject_ids, after, before, ParseType::Subject.spec_index());
        lemma_ids_later(book.author_ids, after, before, ParseType::Author.spec_index());
        lemma_ids_later(book.bookshelf_ids, after, before, ParseType::Bookshelf.spec_index());
        assert(dictionary_extends(
            after.fields[ParseType::Publisher.spec_index()],
            before.fields[ParseType::Publisher.spec_index()],
        ));
        assert(dictionary_extends(
            after.fields[ParseType::Title.spec_index()],
            before.fields[ParseType::Title.spec_index()],
        ));
        assert(dictionary_extends(
            after.fields[ParseType::Rights.spec_index()],
            before.fields[ParseType::Rights.spec_index()],
        ));
        assert(files_within(book.files, after));
    }
    assert forall|matcher: MatcherState, k: int|
        0 <= k < FIELD_KINDS && matcher_within(matcher, before, k) implies #[trigger] matcher_within(
        matcher,
        after,
        k,
    ) by {
        match matcher {
            MatcherState::Path(p) => {
                lemma_ids_later(p.links, after, before, k);
            },
            MatcherState::Alternation { nodes, kind } => {
                assert forall|i: int| 0 <= i < nodes.len() implies path_within(
                    #[trigger] nodes[i],
                    after,
                    k,
                ) by {
                    assert(path_within(nodes[i], before, k));
                    lemma_ids_later(nodes[i].links, after, before, k);
                }
            },
            MatcherState::FileLink(f) => {
                assert(files_within(f.files, after));
            },
        }
    }
}

/// Identifiers below the length of a dictionary are below its length in
/// every corpus that extends the corpus.
pub proof fn lemma_ids_later(ids: Seq<usize>, after: CorpusView, before: CorpusView, k: int)
    requires
        corpus_extends(after, before),
        0 <= k < FIELD_KINDS,
        ids_below(ids, before.fields[k].len() as int),
    ensures
        ids_below(ids, after.fields[k].len() as int),
{
    assert(dictionary_extends(after.fields[k], before.fields[k]));
    assert forall|i: int| 0 <= i < ids.len() implies (#[trigger] ids[i]) < after.fields[k].len() by {
        assert(ids[i] < before.fields[k].len());
    }
}

/// No dictionary has more entries than can be counted.
pub open spec fn lens_bounded(corpus: CorpusView) -> bool {
    &&& forall|k: int| 0 <= k < FIELD_KINDS ==> (#[trigger] corpus.fields[k]).len() <= usize::MAX
    &&& corpus.files.len() <= usize::MAX
    &&& corpus.file_types.len() <= usize::MAX
}

/// A corpus that is extended by one whose dictionaries can be counted can
/// be counted itself.
pub proof fn lemma_lens_bounded_before(after: CorpusView, before: CorpusView)
    requires
        dictionaries_extend(after, before),
        lens_bounded(after),
    ensures
        lens_bounded(before),
{
    assert forall|k: int| 0 <= k < FIELD_KINDS implies (#[trigger] before.fields[k]).len()
        <= usize::MAX by {
        assert(dictionary_extends(after.fields[k], before.fields[k]));
    }
}

/// Interning extends a dictionary.
pub proof fn lemma_interned_extends(entries: Entries, value: Seq<char>, link: usize)
    ensures
        dictionary_extends(interned(entries, value, link), entries),
        0 <= dict_id(entries, value) < interned(entries, value, link).len(),
{
    lemma_dict_id(entries, value);
    lemma_interned(entries, value, link);
}

/// Interning a value of a field extends the corpus and keeps it in order.
pub proof fn lemma_with_field(corpus: CorpusView, kind: ParseType, value: Seq<char>, link: usize, work: int)
    requires
        corpus.wf(),
    ensures
        corpus_extends(corpus.with_field(kind, value, link), corpus),
        0 <= dict_id(field_of(corpus, kind), value) < field_of(
            corpus.with_field(kind, value, link),
            kind,
        ).len(),
        corpus_ok(corpus, work) && 1 <= link <= work ==> corpus_ok(
            corpus.with_field(kind, value, link),
            work,
        ),
{
    let after = corpus.with_field(kind, value, link);
    let place = kind.spec_index();
    lemma_interned_extends(corpus.fields[place], value, link);
    assert forall|k: int| 0 <= k < FIELD_KINDS implies dictionary_extends(
        #[trigger] after.fields[k],
        corpus.fields[k],
    ) by {}
    if corpus_ok(corpus, work) && 1 <= link <= work {
        assert(dictionary_ok(corpus.fields[place], work));
        lemma_interned_ok(corpus.fields[place], value, link, work);
        assert forall|k: int| 0 <= k < FIELD_KINDS implies dictionary_ok(
            #[trigger] after.fields[k],
            work,
        ) by {
            if k != place {
                assert(dictionary_ok(corpus.fields[k], work));
            }
        }
        lemma_within_later(after, corpus);
        assert forall|b: int| 0 <= b < after.books.len() implies book_within(
            #[trigger] after.books[b],
            after,
        ) by {
            assert(book_within(corpus.books[b], corpus));
        }
    }
}

/// Interning a file link extends the corpus and keeps it in order.
pub proof fn lemma_with_file(corpus: CorpusView, value: Seq<char>, link: usize, work: int)
    requires
        corpus.wf(),
    ensures
        corpus_extends(corpus.with_file(value, link), corpus),
        0 <= dict_id(corpus.files, value) < corpus.with_file(value, link).files.len(),
        corpus_ok(corpus, work) && 1 <= link <= work ==> corpus_ok(
            corpus.with_file(value, link),
            work,
        ),
{
    let after = corpus.with_file(value, link);
    lemma_interned_extends(corpus.files, value, link);
    assert forall|k: int| 0 <= k < FIELD_KINDS implies dictionary_extends(
        #[trigger] after.fields[k],
        corpus.fields[k],
    ) by {}
    if corpus_ok(corpus, work) && 1 <= link <= work {
        lemma_interned_ok(corpus.files, value, link, work);
        assert forall|k: int| 0 <= k < FIELD_KINDS implies dictionary_ok(
            #[trigger] after.fields[k],
            work,
        ) by {
            assert(dictionary_ok(corpus.fields[k], work));
        }
        lemma_within_later(after, corpus);
        assert forall|b: int| 0 <= b < after.books.len() implies book_within(
            #[trigger] after.books[b],
            after,
        ) by {
            assert(book_within(corpus.books[b], corpus));
        }
    }
}

/// Interning a file type extends the corpus and keeps it in order.
pub proof fn lemma_with_file_type(corpus: CorpusView, value: Seq<char>, link: usize, work: int)
    requires
        corpus.wf(),
    ensures
        corpus_extends(corpus.with_file_type(value, link), corpus),
        0 <= dict_id(corpus.file_types, value) < corpus.with_file_type(
            value,
            link,
        ).file_types.len(),
        corpus_ok(corpus, work) && 1 <= link <= work ==> corpus_ok(
            corpus.with_file_type(value, link),
            work,
        ),
{
    let after = corpus.with_file_type(value, link);
    lemma_interned_extends(corpus.file_types, value, link);
    assert forall|k: int| 0 <= k < FIELD_KINDS implies dictionary_extends(
        #[trigger] after.fields[k],
        corpus.fields[k],
    ) by {}
    if corpus_ok(corpus, work) && 1 <= link <= work {
        lemma_interned_ok(corpus.file_types, value, link, work);
        assert forall|k: int| 0 <= k < FIELD_KINDS implies dictionary_ok(
            #[trigger] after.fields[k],
            work,
        ) by {
            assert(dictionary_ok(corpus.fields[k], work));
        }
        lemma_within_later(after, corpus);
        assert forall|b: int| 0 <= b < after.books.len() implies book_within(
            #[trigger] after.books[b],
            after,
        ) by {
            assert(book_within(corpus.books[b], corpus));
        }
    }
}

/// A corpus extends itself.
pub proof fn lemma_corpus_extends_itself(corpus: CorpusView)
    requires
        corpus.wf(),
    ensures
        corpus_extends(corpus, corpus),
{
    assert forall|k: int| 0 <= k < FIELD_KINDS implies dictionary_extends(
        #[trigger] corpus.fields[k],
        corpus.fields[k],
    ) by {}
}

/// A text keeps a path matcher and the corpus in order, and extends the
/// corpus.
pub proof fn lemma_path_text(path: PathState, text: Seq<char>, corpus: CorpusView, link: usize, work: int, k: int)
    requires
        corpus.wf(),
    ensures
        corpus_extends(path.corpus_after_text(text, corpus, link), corpus),
        path.wf() ==> path.after_text(text, corpus).wf(),
        corpus_ok(corpus, work) && 1 <= link <= work ==> corpus_ok(
            path.corpus_after_text(text, corpus, link),
            work,
        ),
        0 <= k < FIELD_KINDS && path_within(path, corpus, k) && lens_bounded(
            path.corpus_after_text(text, corpus, link),
        ) ==> path_within(
            path.after_text(text, corpus),
            path.corpus_after_text(text, corpus, link),
            k,
        ),
{
    let after = path.corpus_after_text(text, corpus, link);
    let next = path.after_text(text, corpus);
    if path.found() {
        lemma_with_field(corpus, path.kind, text, link, work);
        if 0 <= k < FIELD_KINDS && path_within(path, corpus, k) && lens_bounded(after) {
            lemma_ids_later(path.links, after, corpus, k);
            assert(after.fields[k].len() <= usize::MAX);
            assert forall|i: int| 0 <= i < next.links.len() implies (#[trigger] next.links[i])
                < after.fields[k].len() by {
                if i < path.links.len() {
                    assert(next.links[i] == path.links[i]);
                }
            }
        }
    } else {
        lemma_corpus_extends_itself(corpus);
    }
}

/// A text keeps the children of an alternation and the corpus in order,
/// and extends the corpus.
pub proof fn lemma_nodes_text(
    nodes: Seq<PathState>,
    text: Seq<char>,
    corpus: CorpusView,
    link: usize,
    work: int,
    k: int,
    from: int,
)
    requires
        corpus.wf(),
        0 <= from <= nodes.len(),
    ensures
        ({
            let after = nodes_after_text(nodes, text, corpus, link, from);
            &&& after.0.len() == nodes.len()
            &&& corpus_extends(after.1, corpus)
            &&& (forall|i: int| 0 <= i < nodes.len() ==> (#[trigger] nodes[i]).wf()) ==> (forall|
                i: int,
            | 0 <= i < nodes.len() ==> (#[trigger] after.0[i]).wf())
            &&& corpus_ok(corpus, work) && 1 <= link <= work ==> corpus_ok(after.1, work)
            &&& 0 <= k < FIELD_KINDS && (forall|i: int|
                0 <= i < nodes.len() ==> path_within(#[trigger] nodes[i], corpus, k))
                && lens_bounded(after.1) ==> (forall|i: int|
                0 <= i < nodes.len() ==> path_within(#[trigger] after.0[i], after.1, k))
        }),
    decreases nodes.len() - from,
{
    if from < nodes.len() {
        let node = nodes[from];
        let next_nodes = nodes.update(from, node.after_text(text, corpus));
        let next_corpus = node.corpus_after_text(text, corpus, link);
        lemma_path_text(node, text, corpus, link, work, k);
        lemma_nodes_text(next_nodes, text, next_corpus, link, work, k, from + 1);
        let after = nodes_after_text(nodes, text, corpus, link, from);
        lemma_corpus_extends(corpus, next_corpus, after.1);
        if forall|i: int| 0 <= i < nodes.len() ==> (#[trigger] nodes[i]).wf() {
            assert forall|i: int| 0 <= i < next_nodes.len() implies (#[trigger] next_nodes[i]).wf() by {
                if i != from {
                    assert(next_nodes[i] == nodes[i]);
                    assert(nodes[i].wf());
                } else {
                    assert(nodes[from].wf());
                }
            }
        }
        if 0 <= k < FIELD_KINDS && (forall|i: int|
            0 <= i < nodes.len() ==> path_within(#[trigger] nodes[i], corpus, k)) && lens_bounded(
            after.1,
        ) {
            lemma_lens_bounded_before(after.1, next_corpus);
            assert forall|i: int| 0 <= i < next_nodes.len() implies path_within(
                #[trigger] next_nodes[i],
                next_corpus,
                k,
            ) by {
                if i != from {
                    assert(next_nodes[i] == nodes[i]);
                    assert(path_within(nodes[i], corpus, k));
                    lemma_ids_later(nodes[i].links, next_corpus, corpus, k);
                } else {
                    assert(path_within(nodes[from], corpus, k));
                }
            }
        }
    } else {
        lemma_corpus_extends_itself(corpus);
    }
}

/// An attribute keeps a file-link matcher and the corpus in order, and
/// extends the corpus.
pub proof fn lemma_file_attribute(
    file: FileState,
    name: Seq<char>,
    value: Seq<char>,
    corpus: CorpusView,
    link: usize,
    work: int,
)
    requires
        corpus.wf(),
    ensures
        ({
            let after = file.after_attribute(name, value, corpus, link);
            &&& after.matcher is FileLink
            &&& corpus_extends(after.corpus, corpus)
            &&& file.wf() ==> after.matcher.wf()
            &&& corpus_ok(corpus, work) && 1 <= link <= work ==> corpus_ok(after.corpus, work)
            &&& files_within(file.files, corpus) ==> files_within(
                after.matcher->FileLink_0.files,
                after.corpus,
            )
        }),
{
    let after = file.after_attribute(name, value, corpus, link);
    if file.captures(name) {
        lemma_with_file(corpus, value, link, work);
        lemma_within_later(after.corpus, corpus);
    } else {
        lemma_corpus_extends_itself(corpus);
    }
}

/// A text keeps a file-link matcher and the corpus in order, and extends
/// the corpus.
pub proof fn lemma_file_text(file: FileState, text: Seq<char>, corpus: CorpusView, link: usize, work: int)
    requires
        corpus.wf(),
    ensures
        ({
            let after = file.after_text(text, corpus, link);
            &&& after.matcher is FileLink
            &&& corpus_extends(after.corpus, corpus)
            &&& file.wf() ==> after.matcher.wf()
            &&& corpus_ok(corpus, work) && 1 <= link <= work ==> corpus_ok(after.corpus, work)
            &&& files_within(file.files, corpus) ==> files_within(
                after.matcher->FileLink_0.files,
                after.corpus,
            )
        }),
{
    let after = file.after_text(text, corpus, link);
    if file.found() {
        lemma_with_file_type(corpus, text, link, work);
        lemma_within_later(after.corpus, corpus);
        if files_within(file.files, corpus) {
            let files = after.matcher->FileLink_0.files;
            assert(files_within(file.files, after.corpus));
            assert forall|i: int| 0 <= i < files.len() implies file_within(
                #[trigger] files[i],
                after.corpus,
            ) by {
                assert(file_within(file.files[i], after.corpus));
            }
        }
    } else {
        lemma_corpus_extends_itself(corpus);
    }
}

/// A text keeps a matcher and the corpus in order, and extends the corpus.
pub proof fn lemma_matcher_text(matcher: MatcherState, text: Seq<char>, corpus: CorpusView, link: usize, work: int, k: int)
    requires
        corpus.wf(),
    ensures
        ({
            let after = matcher.after_text(text, corpus, link);
            &&& corpus_extends(after.corpus, corpus)
            &&& matcher.wf() ==> after.matcher.wf()
            &&& corpus_ok(corpus, work) && 1 <= link <= work ==> corpus_ok(after.corpus, work)
            &&& 0 <= k < FIELD_KINDS && matcher_within(matcher, corpus, k) && lens_bounded(
                after.corpus,
            ) ==> matcher_within(after.matcher, after.corpus, k)
        }),
{
    match matcher {
        MatcherState::Path(p) => {
            lemma_path_text(p, text, corpus, link, work, k);
        },
        MatcherState::Alternation { nodes, kind } => {
            lemma_nodes_text(nodes, text, corpus, link, work, k, 0);
        },
        MatcherState::FileLink(f) => {
            lemma_file_text(f, text, corpus, link, work);
        },
    }
}

/// An attribute keeps a matcher and the corpus in order, and extends the
/// corpus.
pub proof fn lemma_matcher_attribute(
    matcher: MatcherState,
    name: Seq<char>,
    value: Seq<char>,
    corpus: CorpusView,
    link: usize,
    work: int,
    k: int,
)
    requires
        corpus.wf(),
    ensures
        ({
            let after = matcher.after_attribute(name, value, corpus, link);
            &&& corpus_extends(after.corpus, corpus)
            &&& matcher.wf() ==> after.matcher.wf()
            &&& corpus_ok(corpus, work) && 1 <= link <= work ==> corpus_ok(after.corpus, work)
            &&& 0 <= k < FIELD_KINDS && matcher_within(matcher, corpus, k) ==> matcher_within(
                after.matcher,
                after.corpus,
                k,
            )
        }),
{
    match matcher {
        MatcherState::FileLink(f) => {
            lemma_file_attribute(f, name, value, corpus, link, work);
        },
        _ => {
            lemma_corpus_extends_itself(corpus);
        },
    }
}

/// Entering a node, leaving a node and a reset keep a matcher in order.
pub proof fn lemma_matcher_moves(matcher: MatcherState, name: Seq<char>, corpus: CorpusView, k: int)
    ensures
        matcher.wf() ==> matcher.after_start(name).wf() && matcher.after_end(name).wf()
            && matcher.after_reset().wf(),
        matcher_within(matcher, corpus, k) ==> matcher_within(matcher.after_start(name), corpus, k)
            && matcher_within(matcher.after_end(name), corpus, k) && matcher_within(
            matcher.after_reset(),
            corpus,
            k,
        ),
{
    match matcher {
        MatcherState::Alternation { nodes, kind } => {
            let started = nodes_after_start(nodes, name);
            let ended = nodes_after_end(nodes, name);
            let reset = nodes_after_reset(nodes);
            if matcher.wf() {
                assert forall|i: int| 0 <= i < nodes.len() implies (#[trigger] started[i]).wf()
                    && (#[trigger] ended[i]).wf() && (#[trigger] reset[i]).wf() by {
                    assert(nodes[i].wf());
                }
            }
            if matcher_within(matcher, corpus, k) {
                assert forall|i: int| 0 <= i < nodes.len() implies path_within(
                    #[trigger] started[i],
                    corpus,
                    k,
                ) && path_within(#[trigger] ended[i], corpus, k) && path_within(
                    #[trigger] reset[i],
                    corpus,
                    k,
                ) by {
                    assert(path_within(nodes[i], corpus, k));
                }
            }
        },
        _ => {},
    }
}

/// Every matcher holds identifiers of the corpus only, each those of the
/// field at its place.
pub open spec fn all_within(matchers: Seq<MatcherState>, corpus: CorpusView) -> bool {
    forall|k: int| 0 <= k < matchers.len() ==> matcher_within(#[trigger] matchers[k], corpus, k)
}

/// The attributes of a tag keep a matcher and the corpus in order, and
/// extend the corpus.
pub proof fn lemma_after_attributes(
    matcher: MatcherState,
    corpus: CorpusView,
    attributes: Seq<(Seq<char>, Seq<char>)>,
    link: usize,
    work: int,
    k: int,
    from: int,
)
    requires
        corpus.wf(),
        0 <= from <= attributes.len(),
    ensures
        ({
            let after = after_attributes(matcher, corpus, attributes, link, from);
            &&& corpus_extends(after.corpus, corpus)
            &&& matcher.wf() ==> after.matcher.wf()
            &&& corpus_ok(corpus, work) && 1 <= link <= work ==> corpus_ok(after.corpus, work)
            &&& 0 <= k < FIELD_KINDS && matcher_within(matcher, corpus, k) ==> matcher_within(
                after.matcher,
                after.corpus,
                k,
            )
        }),
    decreases attributes.len() - from,
{
    if from < attributes.len() {
        let next = matcher.after_attribute(attributes[from].0, attributes[from].1, corpus, link);
        lemma_matcher_attribute(matcher, attributes[from].0, attributes[from].1, corpus, link, work, k);
        if next.failure is None {
            lemma_after_attributes(next.matcher, next.corpus, attributes, link, work, k, from + 1);
            let after = after_attributes(matcher, corpus, attributes, link, from);
            lemma_corpus_extends(corpus, next.corpus, after.corpus);
        }
    } else {
        lemma_corpus_extends_itself(corpus);
    }
}

/// Matchers that are within a corpus stay so when one of them is replaced
/// by a matcher that is within a corpus that extends the first.
pub proof fn lemma_update_within(
    matchers: Seq<MatcherState>,
    corpus: CorpusView,
    place: int,
    matcher: MatcherState,
    after: CorpusView,
)
    requires
        matchers.len() == FIELD_KINDS,
        0 <= place < matchers.len(),
        all_within(matchers, corpus),
        corpus_extends(after, corpus),
        matcher_within(matcher, after, place),
    ensures
        all_within(matchers.update(place, matcher), after),
{
    lemma_within_later(after, corpus);
    let updated = matchers.update(place, matcher);
    assert forall|k: int| 0 <= k < updated.len() implies matcher_within(
        #[trigger] updated[k],
        after,
        k,
    ) by {
        if k != place {
            assert(updated[k] == matchers[k]);
            assert(matcher_within(matchers[k], corpus, k));
        }
    }
}

/// Well-formed matchers stay so when one of them is replaced by a
/// well-formed matcher.
pub proof fn lemma_update_wf(matchers: Seq<MatcherState>, place: int, matcher: MatcherState)
    requires
        0 <= place < matchers.len(),
        matchers_wf(matchers),
        matcher.wf(),
    ensures
        matchers_wf(matchers.update(place, matcher)),
{
    let updated = matchers.update(place, matcher);
    assert forall|k: int| 0 <= k < updated.len() implies (#[trigger] updated[k]).wf() by {
        if k != place {
            assert(updated[k] == matchers[k]);
            assert(matchers[k].wf());
        }
    }
}

/// An opening tag keeps matchers and corpus in order, and extends the
/// corpus.
pub proof fn lemma_fan_start(
    matchers: Seq<MatcherState>,
    corpus: CorpusView,
    name: Seq<char>,
    attributes: Seq<(Seq<char>, Seq<char>)>,
    link: usize,
    work: int,
    from: int,
)
    requires
        corpus.wf(),
        matchers.len() == FIELD_KINDS,
        0 <= from <= matchers.len(),
    ensures
        ({
            let after = fan_start(matchers, corpus, name, attributes, link, from);
            &&& after.matchers.len() == matchers.len()
            &&& corpus_extends(after.corpus, corpus)
            &&& matchers_wf(matchers) ==> matchers_wf(after.matchers)
            &&& corpus_ok(corpus, work) && 1 <= link <= work ==> corpus_ok(after.corpus, work)
            &&& all_within(matchers, corpus) ==> all_within(after.matchers, after.corpus)
        }),
    decreases matchers.len() - from,
{
    if from < matchers.len() {
        let entered = matchers[from].after_start(name);
        lemma_matcher_moves(matchers[from], name, corpus, from);
        let next = after_attributes(entered, corpus, attributes, link, 0);
        lemma_after_attributes(entered, corpus, attributes, link, work, from, 0);
        let updated = matchers.update(from, next.matcher);
        if matchers_wf(matchers) {
            assert(matchers[from].wf());
            lemma_update_wf(matchers, from, next.matcher);
        }
        if all_within(matchers, corpus) {
            assert(matcher_within(matchers[from], corpus, from));
            lemma_update_within(matchers, corpus, from, next.matcher, next.corpus);
        }
        if next.failure is None {
            lemma_fan_start(updated, next.corpus, name, attributes, link, work, from + 1);
            let after = fan_start(matchers, corpus, name, attributes, link, from);
            lemma_corpus_extends(corpus, next.corpus, after.corpus);
        }
    } else {
        lemma_corpus_extends_itself(corpus);
    }
}

/// A text keeps matchers and corpus in order, and extends the corpus.
pub proof fn lemma_fan_text(
    matchers: Seq<MatcherState>,
    corpus: CorpusView,
    text: Seq<char>,
    link: usize,
    work: int,
    from: int,
)
    requires
        corpus.wf(),
        matchers.len() == FIELD_KINDS,
        0 <= from <= matchers.len(),
    ensures
        ({
            let after = fan_text(matchers, corpus, text, link, from);
            &&& after.matchers.len() == matchers.len()
            &&& corpus_extends(after.corpus, corpus)
            &&& matchers_wf(matchers) ==> matchers_wf(after.matchers)
            &&& corpus_ok(corpus, work) && 1 <= link <= work ==> corpus_ok(after.corpus, work)
            &&& all_within(matchers, corpus) && lens_bounded(after.corpus) ==> all_within(
                after.matchers,
                after.corpus,
            )
        }),
    decreases matchers.len() - from,
{
    if from < matchers.len() {
        let next = matchers[from].after_text(text, corpus, link);
        lemma_matcher_text(matchers[from], text, corpus, link, work, from);
        let updated = matchers.update(from, next.matcher);
        let after = fan_text(matchers, corpus, text, link, from);
        if matchers_wf(matchers) {
            assert(matchers[from].wf());
            lemma_update_wf(matchers, from, next.matcher);
        }
        if next.failure is None {
            lemma_fan_text(updated, next.corpus, text, link, work, from + 1);
            lemma_corpus_extends(corpus, next.corpus, after.corpus);
        }
        if all_within(matchers, corpus) && lens_bounded(after.corpus) {
            lemma_lens_bounded_before(after.corpus, next.corpus);
            assert(matcher_within(matchers[from], corpus, from));
            lemma_update_within(matchers, corpus, from, next.matcher, next.corpus);
        }
    } else {
        lemma_corpus_extends_itself(corpus);
    }
}

/// A closing tag and a reset keep matchers in order.
pub proof fn lemma_fan_moves(matchers: Seq<MatcherState>, name: Seq<char>, corpus: CorpusView)
    ensures
        matchers_wf(matchers) ==> matchers_wf(fan_end(matchers, name)) && matchers_wf(
            fan_reset(matchers),
        ),
        all_within(matchers, corpus) ==> all_within(fan_end(matchers, name), corpus) && all_within(
            fan_reset(matchers),
            corpus,
        ),
{
    let ended = fan_end(matchers, name);
    let reset = fan_reset(matchers);
    assert forall|k: int| 0 <= k < matchers.len() implies (matchers[k].wf() ==> (
    #[trigger] ended[k]).wf() && (#[trigger] reset[k]).wf()) && (matcher_within(
        matchers[k],
        corpus,
        k,
    ) ==> matcher_within(ended[k], corpus, k) && matcher_within(reset[k], corpus, k)) by {
        lemma_matcher_moves(matchers[k], name, corpus, k);
    }
    if matchers_wf(matchers) {
        assert forall|k: int| 0 <= k < ended.len() implies (#[trigger] ended[k]).wf() by {
            assert(matchers[k].wf());
        }
        assert forall|k: int| 0 <= k < reset.len() implies (#[trigger] reset[k]).wf() by {
            assert(matchers[k].wf());
        }
    }
    if all_within(matchers, corpus) {
        assert forall|k: int| 0 <= k < ended.len() implies matcher_within(
            #[trigger] ended[k],
            corpus,
            k,
        ) by {
            assert(matcher_within(matchers[k], corpus, k));
        }
        assert forall|k: int| 0 <= k < reset.len() implies matcher_within(
            #[trigger] reset[k],
            corpus,
            k,
        ) by {
            assert(matcher_within(matchers[k], corpus, k));
        }
    }
}

/// One event keeps the reading in order, and extends the corpus.
pub proof fn lemma_after_xml_event(state: DocumentState, event: XmlEventView, link: usize, work: int)
    requires
        state.corpus.wf(),
        state.matchers.len() == FIELD_KINDS,
    ensures
        ({
            let after = after_xml_event(state, event, link);
            &&& after.matchers.len() == FIELD_KINDS
            &&& corpus_extends(after.corpus, state.corpus)
            &&& matchers_wf(state.matchers) ==> matchers_wf(after.matchers)
            &&& corpus_ok(state.corpus, work) && 1 <= link <= work ==> corpus_ok(
                after.corpus,
                work,
            )
            &&& all_within(state.matchers, state.corpus) && lens_bounded(after.corpus)
                ==> all_within(after.matchers, after.corpus)
        }),
{
    lemma_corpus_extends_itself(state.corpus);
    match event {
        XmlEventView::Start { name, attributes } => {
            lemma_fan_start(state.matchers, state.corpus, name, attributes, link, work, 0);
        },
        XmlEventView::End { name } => {
            lemma_fan_moves(state.matchers, name, state.corpus);
        },
        XmlEventView::Text { text } => {
            lemma_fan_text(state.matchers, state.corpus, text, link, work, 0);
        },
        _ => {},
    }
}

/// The reading of a document keeps matchers and corpus in order, and
/// extends the corpus.
pub proof fn lemma_run_document(pending: Seq<XmlStep>, state: DocumentState, link: usize, work: int)
    requires
        state.corpus.wf(),
        state.matchers.len() == FIELD_KINDS,
    ensures
        ({
            let after = run_document(pending, state, link);
            &&& after.matchers.len() == FIELD_KINDS
            &&& corpus_extends(after.corpus, state.corpus)
            &&& matchers_wf(state.matchers) ==> matchers_wf(after.matchers)
            &&& corpus_ok(state.corpus, work) && 1 <= link <= work ==> corpus_ok(
                after.corpus,
                work,
            )
            &&& all_within(state.matchers, state.corpus) && lens_bounded(after.corpus)
                ==> all_within(after.matchers, after.corpus)
        }),
    decreases pending.len(),
{
    lemma_corpus_extends_itself(state.corpus);
    if pending.len() > 0 {
        match pending[0] {
            XmlStep::Failure(kind) => {},
            XmlStep::Event(event) => {
                if !(event is Eof) {
                    let next = after_xml_event(state, event, link);
                    lemma_after_xml_event(state, event, link, work);
                    let after = run_document(pending, state, link);
                    if next.failure is None {
                        lemma_run_document(pending.drop_first(), next, link, work);
                        lemma_corpus_extends(state.corpus, next.corpus, after.corpus);
                    }
                    if all_within(state.matchers, state.corpus) && lens_bounded(after.corpus) {
                        lemma_lens_bounded_before(after.corpus, next.corpus);
                    }
                }
            },
        }
    }
}

/// The identifiers that a matcher gives name entries of the field at its
/// place.
pub proof fn lemma_result_within(matcher: MatcherState, corpus: CorpusView, k: int)
    requires
        0 <= k < FIELD_KINDS,
        matcher_within(matcher, corpus, k),
    ensures
        matcher.result() matches Some(links) ==> ids_below(links, corpus.fields[k].len() as int),
        matcher.files() matches Some(files) ==> files_within(files, corpus),
{
    match matcher {
        MatcherState::Alternation { nodes, kind } => {
            lemma_first_with_result(nodes, 0);
            if matcher.result() is Some {
                assert(path_within(nodes[crate::fst_parser::first_with_result(nodes, 0)], corpus, k));
            }
        },
        _ => {},
    }
}

/// The identifier taken from identifiers of a dictionary names an entry of
/// that dictionary, or is the mark of absence.
pub proof fn lemma_scalar_within(result: Option<Seq<usize>>, len: int, offset: int)
    requires
        0 <= offset <= 1,
        result matches Some(links) ==> ids_below(links, len),
    ensures
        scalar_id(result, offset) matches Ok(id) ==> scalar_within(id, len, offset),
{
    match result {
        Some(links) => {
            if links.len() > 0 {
                assert(links[0] < len);
            }
        },
        None => {},
    }
}

/// The identifiers of a matcher that gives none are none.
pub proof fn lemma_list_within(result: Option<Seq<usize>>, len: int)
    requires
        result matches Some(links) ==> ids_below(links, len),
    ensures
        ids_below(crate::rdf_parser::list_ids(result), len),
{
}

/// The work put together at the end of a document holds identifiers of the
/// corpus only.
pub proof fn lemma_assembled_book(matchers: Seq<MatcherState>, corpus: CorpusView, catalog_id: usize)
    requires
        matchers.len() == FIELD_KINDS,
        corpus.wf(),
        all_within(matchers, corpus),
    ensures
        assembled_book(matchers, corpus, catalog_id) matches Ok(book) ==> book_within(book, corpus),
{
    let publisher = ParseType::Publisher.spec_index();
    let title = ParseType::Title.spec_index();
    let rights = ParseType::Rights.spec_index();
    let language = ParseType::Language.spec_index();
    let subject = ParseType::Subject.spec_index();
    let author = ParseType::Author.spec_index();
    let bookshelf = ParseType::Bookshelf.spec_index();
    let files = ParseType::Files.spec_index();
    assert(matcher_within(matchers[publisher], corpus, publisher));
    assert(matcher_within(matchers[title], corpus, title));
    assert(matcher_within(matchers[rights], corpus, rights));
    assert(matcher_within(matchers[language], corpus, language));
    assert(matcher_within(matchers[subject], corpus, subject));
    assert(matcher_within(matchers[author], corpus, author));
    assert(matcher_within(matchers[bookshelf], corpus, bookshelf));
    assert(matcher_within(matchers[files], corpus, files));
    lemma_result_within(matchers[publisher], corpus, publisher);
    lemma_result_within(matchers[title], corpus, title);
    lemma_result_within(matchers[rights], corpus, rights);
    lemma_result_within(matchers[language], corpus, language);
    lemma_result_within(matchers[subject], corpus, subject);
    lemma_result_within(matchers[author], corpus, author);
    lemma_result_within(matchers[bookshelf], corpus, bookshelf);
    lemma_result_within(matchers[files], corpus, files);
    lemma_scalar_within(matchers[publisher].result(), corpus.fields[publisher].len() as int, 1);
    lemma_scalar_within(matchers[title].result(), corpus.fields[title].len() as int, 0);
    lemma_scalar_within(matchers[rights].result(), corpus.fields[rights].len() as int, 1);
    lemma_list_within(matchers[language].result(), corpus.fields[language].len() as int);
    lemma_list_within(matchers[subject].result(), corpus.fields[subject].len() as int);
    lemma_list_within(matchers[author].result(), corpus.fields[author].len() as int);
    lemma_list_within(matchers[bookshelf].result(), corpus.fields[bookshelf].len() as int);
}

/// A corpus that is in order for some number of works is in order for any
/// larger number.
pub proof fn lemma_corpus_ok_later(corpus: CorpusView, work: int, later: int)
    requires
        corpus_ok(corpus, work),
        work <= later,
    ensures
        corpus_ok(corpus, later),
{
    assert forall|k: int| 0 <= k < FIELD_KINDS implies dictionary_ok(
        #[trigger] corpus.fields[k],
        later,
    ) by {
        assert(dictionary_ok(corpus.fields[k], work));
        lemma_dictionary_ok_later(corpus.fields[k], work, later);
    }
    lemma_dictionary_ok_later(corpus.files, work, later);
    lemma_dictionary_ok_later(corpus.file_types, work, later);
}

/// One more work keeps a corpus in order where the work holds identifiers
/// of the corpus only.
pub proof fn lemma_with_book(corpus: CorpusView, book: BookView, work: int)
    requires
        corpus_ok(corpus, work),
        book_within(book, corpus),
    ensures
        corpus_ok(corpus.with_book(book), work),
        dictionaries_extend(corpus.with_book(book), corpus),
        forall|matchers: Seq<MatcherState>|
            all_within(matchers, corpus) ==> #[trigger] all_within(matchers, corpus.with_book(book)),
{
    let after = corpus.with_book(book);
    lemma_corpus_extends_itself(corpus);
    assert forall|k: int| 0 <= k < FIELD_KINDS implies dictionary_ok(
        #[trigger] after.fields[k],
        work,
    ) by {
        assert(dictionary_ok(corpus.fields[k], work));
    }
    assert forall|b: int| 0 <= b < after.books.len() implies book_within(
        #[trigger] after.books[b],
        after,
    ) by {
        if b < corpus.books.len() {
            assert(book_within(corpus.books[b], corpus));
            lemma_book_within_same(corpus.books[b], corpus, after);
        } else {
            lemma_book_within_same(book, corpus, after);
        }
    }
    assert forall|matchers: Seq<MatcherState>| all_within(matchers, corpus) implies #[trigger] all_within(
        matchers,
        after,
    ) by {
        assert forall|k: int| 0 <= k < matchers.len() implies matcher_within(
            #[trigger] matchers[k],
            after,
            k,
        ) by {
            assert(matcher_within(matchers[k], corpus, k));
            lemma_matcher_within_same(matchers[k], corpus, after, k);
        }
    }
}

/// What is within a corpus is within a corpus with the same dictionaries.
pub proof fn lemma_book_within_same(book: BookView, corpus: CorpusView, other: CorpusView)
    requires
        book_within(book, corpus),
        other.fields == corpus.fields,
        other.files == corpus.files,
        other.file_types == corpus.file_types,
    ensures
        book_within(book, other),
{
    assert forall|i: int| 0 <= i < book.files.len() implies file_within(
        #[trigger] book.files[i],
        other,
    ) by {
        assert(file_within(book.files[i], corpus));
    }
}

/// A matcher that is within a corpus is within a corpus with the same
/// dictionaries.
pub proof fn lemma_matcher_within_same(matcher: MatcherState, corpus: CorpusView, other: CorpusView, k: int)
    requires
        matcher_within(matcher, corpus, k),
        other.fields == corpus.fields,
        other.files == corpus.files,
        other.file_types == corpus.file_types,
    ensures
        matcher_within(matcher, other, k),
{
    match matcher {
        MatcherState::Path(p) => {},
        MatcherState::Alternation { nodes, kind } => {
            assert forall|i: int| 0 <= i < nodes.len() implies path_within(
                #[trigger] nodes[i],
                other,
                k,
            ) by {
                assert(path_within(nodes[i], corpus, k));
            }
        },
        MatcherState::FileLink(f) => {
            assert forall|i: int| 0 <= i < f.files.len() implies file_within(
                #[trigger] f.files[i],
                other,
            ) by {
                assert(file_within(f.files[i], corpus));
            }
        },
    }
}

/// One more document keeps the reading in order: where the reading was in
/// order for the works before, and the document is read as the next work
/// without failure, the reading is in order for one more work, and the
/// corpus holds one more work.
pub proof fn lemma_after_document(state: CorpusState, document: Seq<XmlStep>, work: usize)
    requires
        state.corpus.wf(),
        state.matchers.len() == FIELD_KINDS,
    ensures
        ({
            let after = after_document(state, document, work);
            &&& after.matchers.len() == FIELD_KINDS
            &&& dictionaries_extend(after.corpus, state.corpus)
            &&& after.failure is None ==> after.corpus.books.len() == state.corpus.books.len() + 1
            &&& after.failure is None && 1 <= work && reading_ok(
                state.matchers,
                state.corpus,
                work - 1,
            ) && lens_bounded(after.corpus) ==> reading_ok(
                after.matchers,
                after.corpus,
                work as int,
            )
        }),
{
    let start = DocumentState {
        matchers: state.matchers,
        corpus: state.corpus,
        catalog_id: 0,
        failure: None,
    };
    let end = run_document(document, start, work);
    let after = after_document(state, document, work);
    lemma_run_document(document, start, work, work as int);
    if after.failure is None && 1 <= work && reading_ok(state.matchers, state.corpus, work - 1)
        && lens_bounded(after.corpus) {
        lemma_corpus_ok_later(state.corpus, work - 1, work as int);
        assert(all_within(state.matchers, state.corpus));
        assert(matchers_wf(state.matchers));
        assert(after.corpus == end.corpus.with_book(
            assembled_book(end.matchers, end.corpus, end.catalog_id)->Ok_0,
        ));
        assert(after.corpus.fields == end.corpus.fields);
        assert forall|k: int| 0 <= k < FIELD_KINDS implies (#[trigger] end.corpus.fields[k]).len()
            <= usize::MAX by {
            assert(after.corpus.fields[k].len() <= usize::MAX);
        }
        assert(lens_bounded(end.corpus));
        lemma_assembled_book(end.matchers, end.corpus, end.catalog_id);
        let book = assembled_book(end.matchers, end.corpus, end.catalog_id)->Ok_0;
        lemma_with_book(end.corpus, book, work as int);
        lemma_fan_moves(end.matchers, Seq::empty(), after.corpus);
        assert(all_within(end.matchers, after.corpus));
        assert(matchers_wf(after.matchers));
    }
}

/// A corpus that was read without failure is consistent. The reading
/// begins in order, with a corpus without works; every document read
/// without failure keeps it in order and adds one work. So after `n`
/// documents the corpus has `n` works, every identifier that a work holds
/// names an entry of the dictionary of its field, no dictionary holds a
/// value twice, and every back-link is the ordinal of one of the `n` works.
pub proof fn lemma_after_documents(start: CorpusState, documents: Seq<Seq<XmlStep>>, n: int)
    requires
        0 <= n <= usize::MAX,
        start.failure is None,
        start.corpus.books.len() == 0,
        reading_ok(start.matchers, start.corpus, 0),
    ensures
        ({
            let after = after_documents(start, documents, n);
            &&& after.matchers.len() == FIELD_KINDS
            &&& dictionaries_extend(after.corpus, start.corpus)
            &&& after.failure is None && lens_bounded(after.corpus) ==> reading_ok(
                after.matchers,
                after.corpus,
                n,
            ) && corpus_consistent(after.corpus, n)
        }),
    decreases n,
{
    if n <= 0 {
        lemma_corpus_extends_itself(start.corpus);
    } else {
        let before = after_documents(start, documents, n - 1);
        let after = after_documents(start, documents, n);
        lemma_after_documents(start, documents, n - 1);
        if before.failure is None {
            lemma_after_document(before, documents[n - 1], n as usize);
            lemma_dictionaries_extend(start.corpus, before.corpus, after.corpus);
            if after.failure is None && lens_bounded(after.corpus) {
                lemma_lens_bounded_before(after.corpus, before.corpus);
            }
        }
    }
}

/// Extending goes on from the dictionaries of one corpus to those of the
/// next.
pub proof fn lemma_dictionaries_extend(first: CorpusView, second: CorpusView, third: CorpusView)
    requires
        dictionaries_extend(second, first),
        dictionaries_extend(third, second),
    ensures
        dictionaries_extend(third, first),
{
    assert forall|k: int| 0 <= k < FIELD_KINDS implies dictionary_extends(
        #[trigger] third.fields[k],
        first.fields[k],
    ) by {
        assert(dictionary_extends(second.fields[k], first.fields[k]));
        lemma_dictionary_extends(first.fields[k], second.fields[k], third.fields[k]);
    }
    lemma_dictionary_extends(first.files, second.files, third.files);
    lemma_dictionary_extends(first.file_types, second.file_types, third.file_types);
}

/// The reading of a corpus begins in order.
pub proof fn lemma_default_reading_ok()
    requires
        matchers_wf(default_matchers()),
    ensures
        reading_ok(default_matchers(), CorpusView::empty(), 0),
{
    let matchers = default_matchers();
    let corpus = CorpusView::empty();
    assert forall|k: int| 0 <= k < matchers.len() implies (#[trigger] matchers[k]).wf() by {}
    assert forall|k: int| 0 <= k < matchers.len() implies matcher_within(
        #[trigger] matchers[k],
        corpus,
        k,
    ) by {}
    assert forall|k: int| 0 <= k < FIELD_KINDS implies dictionary_ok(#[trigger] corpus.fields[k], 0) by {}
}

/// A corpus that was read without failure is consistent: it has a work for
/// each document, every identifier that a work holds names an entry of the
/// dictionary of its field, no dictionary holds a value twice, and every
/// back-link is the ordinal of a work of the corpus.
pub proof fn lemma_corpus_read_consistent(contents: Seq<String>)
    requires
        contents.len() <= usize::MAX,
        matchers_wf(default_matchers()),
        corpus_read(contents).failure is None,
        lens_bounded(corpus_read(contents).corpus),
    ensures
        corpus_consistent(corpus_read(contents).corpus, contents.len() as int),
{
    lemma_default_reading_ok();
    lemma_after_documents(
        CorpusState { matchers: default_matchers(), corpus: CorpusView::empty(), failure: None },
        documents_steps(contents),
        contents.len() as int,
    );
}

/// The field whose values a join table ties to the works.
pub open spec fn join_kind(join: JoinTable) -> ParseType {
    match join {
        JoinTable::BookAuthors => ParseType::Author,
        JoinTable::BookSubjects => ParseType::Subject,
        JoinTable::BookLanguages => ParseType::Language,
        JoinTable::BookBookshelves => ParseType::Bookshelf,
    }
}

/// The row refers only to what the cache of the corpus holds: the ordinal
/// of a work is that of one of the `works` works, the row key of a value is
/// that of a value of its field, and the row key of a file type is that of
/// a file type or the mark of absence.
pub open spec fn row_refers(row: CacheRowView, corpus: CorpusView, works: int) -> bool {
    match row {
        CacheRowView::Name { table, name } => true,
        CacheRowView::Title { name, book } => 1 <= book <= works,
        CacheRowView::Link { join, field_id, book } => {
            &&& 1 <= field_id <= field_entries(corpus, join_kind(join)).len()
            &&& 1 <= book <= works
        },
        CacheRowView::File { name, type_id, book } => {
            &&& 1 <= book <= works
            &&& type_id == -1 || 1 <= type_id <= corpus.file_types.len()
        },
        CacheRowView::Book { publisher_id, rights_id, num_downloads, gutenberg_book_id } => {
            &&& scalar_within(
                publisher_id,
                field_entries(corpus, ParseType::Publisher).len() as int,
                1,
            )
            &&& scalar_within(rights_id, field_entries(corpus, ParseType::Rights).len() as int, 1)
        },
    }
}

/// Every row refers only to what the cache of the corpus holds.
pub open spec fn rows_refer(rows: Seq<CacheRowView>, corpus: CorpusView, works: int) -> bool {
    forall|i: int| 0 <= i < rows.len() ==> row_refers(#[trigger] rows[i], corpus, works)
}

/// Rows that refer rightly, followed by rows that do, refer rightly.
pub proof fn lemma_rows_refer_add(first: Seq<CacheRowView>, second: Seq<CacheRowView>, corpus: CorpusView, works: int)
    requires
        rows_refer(first, corpus, works),
        rows_refer(second, corpus, works),
    ensures
        rows_refer(first + second, corpus, works),
{
    assert forall|i: int| 0 <= i < (first + second).len() implies row_refers(
        #[trigger] (first + second)[i],
        corpus,
        works,
    ) by {
        if i < first.len() {
            assert((first + second)[i] == first[i]);
        } else {
            assert((first + second)[i] == second[i - first.len()]);
        }
    }
}

/// The rows of the values of a dictionary refer to nothing.
pub proof fn lemma_name_rows_refer(table: LookupTable, entries: Entries, n: int, corpus: CorpusView, works: int)
    ensures
        rows_refer(name_rows(table, entries, n), corpus, works),
    decreases n,
{
    if n > 0 {
        lemma_name_rows_refer(table, entries, n - 1, corpus, works);
    }
}

/// The rows of one title refer to works of the corpus.
pub proof fn lemma_title_link_rows_refer(name: Seq<char>, links: Seq<usize>, n: int, corpus: CorpusView, works: int)
    requires
        n <= links.len(),
        links_within(links, works),
    ensures
        rows_refer(title_link_rows(name, links, n), corpus, works),
    decreases n,
{
    if n > 0 {
        lemma_title_link_rows_refer(name, links, n - 1, corpus, works);
        assert(1 <= links[n - 1] <= works);
    }
}

/// The rows of the titles refer to works of the corpus.
pub proof fn lemma_title_rows_refer(entries: Entries, n: int, corpus: CorpusView, works: int)
    requires
        n <= entries.len(),
        dictionary_ok(entries, works),
    ensures
        rows_refer(title_rows(entries, n), corpus, works),
    decreases n,
{
    if n > 0 {
        lemma_title_rows_refer(entries, n - 1, corpus, works);
        assert(links_within(entries[n - 1].1, works));
        lemma_title_link_rows_refer(
            entries[n - 1].0,
            entries[n - 1].1,
            entries[n - 1].1.len() as int,
            corpus,
            works,
        );
        lemma_rows_refer_add(
            title_rows(entries, n - 1),
            title_link_rows(entries[n - 1].0, entries[n - 1].1, entries[n - 1].1.len() as int),
            corpus,
            works,
        );
    }
}

/// The join rows of one value refer to that value and to works of the
/// corpus.
pub proof fn lemma_back_link_rows_refer(
    join: JoinTable,
    field_id: usize,
    links: Seq<usize>,
    n: int,
    corpus: CorpusView,
    works: int,
)
    requires
        n <= links.len(),
        links_within(links, works),
        1 <= field_id <= field_entries(corpus, join_kind(join)).len(),
    ensures
        rows_refer(back_link_rows(join, field_id, links, n), corpus, works),
    decreases n,
{
    if n > 0 {
        lemma_back_link_rows_refer(join, field_id, links, n - 1, corpus, works);
        assert(1 <= links[n - 1] <= works);
    }
}

/// The join rows of a field refer to values of the field and to works of
/// the corpus.
pub proof fn lemma_link_rows_refer(join: JoinTable, n: int, corpus: CorpusView, works: int)
    requires
        n <= field_entries(corpus, join_kind(join)).len() <= usize::MAX,
        dictionary_ok(field_entries(corpus, join_kind(join)), works),
    ensures
        rows_refer(link_rows(join, field_entries(corpus, join_kind(join)), n), corpus, works),
    decreases n,
{
    let entries = field_entries(corpus, join_kind(join));
    if n > 0 {
        lemma_link_rows_refer(join, n - 1, corpus, works);
        assert(links_within(entries[n - 1].1, works));
        lemma_back_link_rows_refer(
            join,
            n as usize,
            entries[n - 1].1,
            entries[n - 1].1.len() as int,
            corpus,
            works,
        );
        lemma_rows_refer_add(
            link_rows(join, entries, n - 1),
            back_link_rows(join, n as usize, entries[n - 1].1, entries[n - 1].1.len() as int),
            corpus,
            works,
        );
    }
}

/// The rows of the files of a work refer to the work and to file types of
/// the corpus.
pub proof fn lemma_file_rows_refer(entries: Seq<GutenbergFileEntry>, book: usize, n: int, corpus: CorpusView, works: int)
    requires
        n <= entries.len(),
        files_within(entries, corpus),
        1 <= book <= works,
    ensures
        rows_refer(file_rows(corpus.files, entries, book, n), corpus, works),
    decreases n,
{
    if n > 0 {
        lemma_file_rows_refer(entries, book, n - 1, corpus, works);
        assert(file_within(entries[n - 1], corpus));
    }
}

/// The rows of the works refer to works, publishers, rights and file types
/// of the corpus.
pub proof fn lemma_books_rows_refer(corpus: CorpusView, n: int, works: int)
    requires
        n <= corpus.books.len() == works <= usize::MAX,
        corpus_ok(corpus, works),
    ensures
        rows_refer(books_rows(corpus, n), corpus, works),
    decreases n,
{
    if n > 0 {
        lemma_books_rows_refer(corpus, n - 1, works);
        let book = corpus.books[n - 1];
        assert(book_within(book, corpus));
        lemma_file_rows_refer(book.files, n as usize, book.files.len() as int, corpus, works);
        let rows = book_rows(corpus.files, book, n as usize);
        let of_files = file_rows(corpus.files, book.files, n as usize, book.files.len() as int);
        assert forall|i: int| 0 <= i < rows.len() implies row_refers(
            #[trigger] rows[i],
            corpus,
            works,
        ) by {
            if i < of_files.len() {
                assert(rows[i] == of_files[i]);
            }
        }
        lemma_rows_refer_add(books_rows(corpus, n - 1), rows, corpus, works);
    }
}

/// The rows that fill the cache of a consistent corpus refer to each other
/// rightly: where a row names a work, it is one of the works of the corpus,
/// which get their ordinals as row keys; where it names a value of a field
/// or a file type by its row key, the lookup table of that field has a row
/// with that key.
pub proof fn lemma_plan_refers(corpus: CorpusView, works: int)
    requires
        corpus_consistent(corpus, works),
        lens_bounded(corpus),
        works <= usize::MAX,
    ensures
        rows_refer(cache_plan(corpus), corpus, works),
{
    let title = field_entries(corpus, ParseType::Title);
    let subject = field_entries(corpus, ParseType::Subject);
    let language = field_entries(corpus, ParseType::Language);
    let author = field_entries(corpus, ParseType::Author);
    let bookshelf = field_entries(corpus, ParseType::Bookshelf);
    let publisher = field_entries(corpus, ParseType::Publisher);
    let rights = field_entries(corpus, ParseType::Rights);
    assert(dictionary_ok(corpus.fields[ParseType::Title.spec_index()], works));
    assert(dictionary_ok(corpus.fields[ParseType::Subject.spec_index()], works));
    assert(dictionary_ok(corpus.fields[ParseType::Language.spec_index()], works));
    assert(dictionary_ok(corpus.fields[ParseType::Author.spec_index()], works));
    assert(dictionary_ok(corpus.fields[ParseType::Bookshelf.spec_index()], works));
    assert(corpus.fields[ParseType::Subject.spec_index()].len() <= usize::MAX);
    assert(corpus.fields[ParseType::Language.spec_index()].len() <= usize::MAX);
    assert(corpus.fields[ParseType::Author.spec_index()].len() <= usize::MAX);
    assert(corpus.fields[ParseType::Bookshelf.spec_index()].len() <= usize::MAX);
    lemma_title_rows_refer(title, title.len() as int, corpus, works);
    lemma_name_rows_refer(LookupTable::Subjects, subject, subject.len() as int, corpus, works);
    lemma_name_rows_refer(LookupTable::Languages, language, language.len() as int, corpus, works);
    lemma_name_rows_refer(LookupTable::Authors, author, author.len() as int, corpus, works);
    lemma_name_rows_refer(
        LookupTable::Bookshelves,
        bookshelf,
        bookshelf.len() as int,
        corpus,
        works,
    );
    lemma_name_rows_refer(
        LookupTable::Publishers,
        publisher,
        publisher.len() as int,
        corpus,
        works,
    );
    lemma_name_rows_refer(LookupTable::Rights, rights, rights.len() as int, corpus, works);
    lemma_name_rows_refer(
        LookupTable::DownloadLinksType,
        corpus.file_types,
        corpus.file_types.len() as int,
        corpus,
        works,
    );
    let a = title_rows(title, title.len() as int);
    let b = a + name_rows(LookupTable::Subjects, subject, subject.len() as int);
    lemma_rows_refer_add(
        a,
        name_rows(LookupTable::Subjects, subject, subject.len() as int),
        corpus,
        works,
    );
    let c = b + name_rows(LookupTable::Languages, language, language.len() as int);
    lemma_rows_refer_add(
        b,
        name_rows(LookupTable::Languages, language, language.len() as int),
        corpus,
        works,
    );
    let d = c + name_rows(LookupTable::Authors, author, author.len() as int);
    lemma_rows_refer_add(
        c,
        name_rows(LookupTable::Authors, author, author.len() as int),
        corpus,
        works,
    );
    let e = d + name_rows(LookupTable::Bookshelves, bookshelf, bookshelf.len() as int);
    lemma_rows_refer_add(
        d,
        name_rows(LookupTable::Bookshelves, bookshelf, bookshelf.len() as int),
        corpus,
        works,
    );
    let f = e + name_rows(LookupTable::Publishers, publisher, publisher.len() as int);
    lemma_rows_refer_add(
        e,
        name_rows(LookupTable::Publishers, publisher, publisher.len() as int),
        corpus,
        works,
    );
    let g = f + name_rows(LookupTable::Rights, rights, rights.len() as int);
    lemma_rows_refer_add(
        f,
        name_rows(LookupTable::Rights, rights, rights.len() as int),
        corpus,
        works,
    );
    lemma_rows_refer_add(
        g,
        name_rows(LookupTable::DownloadLinksType, corpus.file_types, corpus.file_types.len() as int),
        corpus,
        works,
    );
    assert(rows_refer(lookup_rows(corpus), corpus, works));
    lemma_link_rows_refer(JoinTable::BookAuthors, author.len() as int, corpus, works);
    lemma_link_rows_refer(JoinTable::BookSubjects, subject.len() as int, corpus, works);
    lemma_link_rows_refer(JoinTable::BookLanguages, language.len() as int, corpus, works);
    lemma_link_rows_refer(JoinTable::BookBookshelves, bookshelf.len() as int, corpus, works);
    let p = link_rows(JoinTable::BookAuthors, author, author.len() as int);
    let q = p + link_rows(JoinTable::BookSubjects, subject, subject.len() as int);
    lemma_rows_refer_add(
        p,
        link_rows(JoinTable::BookSubjects, subject, subject.len() as int),
        corpus,
        works,
    );
    let r = q + link_rows(JoinTable::BookLanguages, language, language.len() as int);
    lemma_rows_refer_add(
        q,
        link_rows(JoinTable::BookLanguages, language, language.len() as int),
        corpus,
        works,
    );
    lemma_rows_refer_add(
        r,
        link_rows(JoinTable::BookBookshelves, bookshelf, bookshelf.len() as int),
        corpus,
        works,
    );
    assert(rows_refer(join_rows(corpus), corpus, works));
    lemma_books_rows_refer(corpus, corpus.books.len() as int, works);
    lemma_rows_refer_add(lookup_rows(corpus), join_rows(corpus), corpus, works);
    lemma_rows_refer_add(
        lookup_rows(corpus) + join_rows(corpus),
        books_rows(corpus, corpus.books.len() as int),
        corpus,
        works,
    );
}

/// Takes the length of every dictionary, which shows that each has no more
/// entries than can be counted.
pub(crate) fn take_lengths(result: &ParseResult)
    requires
        result@.wf(),
    ensures
        lens_bounded(result@),
{
    let n = result.field_dictionaries.len();
    let mut i: usize = 0;
    while i < n
        invariant
            n == result.field_dictionaries@.len(),
            n == FIELD_KINDS,
            i <= n,
            forall|k: int| 0 <= k < i ==> (#[trigger] result@.fields[k]).len() <= usize::MAX,
        decreases n - i,
    {
        let _ = dictionary_len(&result.field_dictionaries[i]);
        i += 1;
    }
    let _ = dictionary_len(&result.files_dictionary);
    let _ = dictionary_len(&result.file_types_dictionary);
}

} // verus!
