//! The relational cache of a corpus: the rows that fill it, in order, the
//! statements that insert them, and the statement that selects the works
//! that meet given predicates.

use crate::book::{Book, BookView, GutenbergFileEntry};
use crate::consistency::{corpus_consistent, lemma_plan_refers, rows_refer, take_lengths};
use crate::dictionary::{
    dictionary_entries, dictionary_get_index, dictionary_len, Dictionary, Entries,
};
use crate::fst_parser::{CorpusView, ParseResult};
use crate::error::{Error, ErrorKind};
use crate::fst_parser_type::{ParseType, FIELD_KINDS};
use crate::json::{json_field, text_field, JsonField, JsonFieldView};
use serde_json::Value;
use vstd::prelude::*;
use vstd::string::StringExecFns;

verus! {

/// A table of the cache that holds the values of one field, one row for
/// each value. The key of a row is the value's identifier plus one.
#[derive(Debug, Clone, Copy, PartialEq, Eq, Structural)]
pub enum LookupTable {
    Subjects,
    Languages,
    Authors,
    Bookshelves,
    Publishers,
    Rights,
    DownloadLinksType,
}

/// A table of the cache that ties the values of a field to the works that
/// hold them.
#[derive(Debug, Clone, Copy, PartialEq, Eq, Structural)]
pub enum JoinTable {
    BookAuthors,
    BookSubjects,
    BookLanguages,
    BookBookshelves,
}

/// One row to insert into the cache.
#[derive(Debug, PartialEq, Eq)]
pub enum CacheRow {
    /// A value of a field.
    Name { table: LookupTable, name: String },
    /// A title and the ordinal of the work that bears it.
    Title { name: String, book: usize },
    /// The row key of a value and the ordinal of a work that holds it.
    Link { join: JoinTable, field_id: usize, book: usize },
    /// A file of the work with the ordinal `book`: its link, and the row key
    /// of its type, `-1` where none was found.
    File { name: String, type_id: i32, book: usize },
    /// A work.
    Book { publisher_id: i32, rights_id: i32, num_downloads: i32, gutenberg_book_id: usize },
}

/// What a `CacheRow` holds, as mathematical values.
pub enum CacheRowView {
    Name { table: LookupTable, name: Seq<char> },
    Title { name: Seq<char>, book: usize },
    Link { join: JoinTable, field_id: usize, book: usize },
    File { name: Seq<char>, type_id: i32, book: usize },
    Book { publisher_id: i32, rights_id: i32, num_downloads: i32, gutenberg_book_id: usize },
}

impl View for CacheRow {
    type V = CacheRowView;

    open spec fn view(&self) -> CacheRowView {
        match self {
            CacheRow::Name { table, name } => CacheRowView::Name { table: *table, name: name@ },
            CacheRow::Title { name, book } => CacheRowView::Title { name: name@, book: *book },
            CacheRow::Link { join, field_id, book } => CacheRowView::Link {
                join: *join,
                field_id: *field_id,
                book: *book,
            },
            CacheRow::File { name, type_id, book } => CacheRowView::File {
                name: name@,
                type_id: *type_id,
                book: *book,
            },
            CacheRow::Book { publisher_id, rights_id, num_downloads, gutenberg_book_id } => {
                CacheRowView::Book {
                    publisher_id: *publisher_id,
                    rights_id: *rights_id,
                    num_downloads: *num_downloads,
                    gutenberg_book_id: *gutenberg_book_id,
                }
            },
        }
    }
}

/// What a vector of rows holds.
pub open spec fn rows_view(rows: Seq<CacheRow>) -> Seq<CacheRowView> {
    Seq::new(rows.len(), |i: int| rows[i]@)
}

/// The dictionary of the field `kind`, and no entries where the corpus has
/// no dictionary for it.
pub open spec fn field_entries(corpus: CorpusView, kind: ParseType) -> Entries {
    if kind.spec_index() < corpus.fields.len() {
        corpus.fields[kind.spec_index()]
    } else {
        Seq::empty()
    }
}

/// One row for each of the first `n` values of a dictionary, in order.
pub open spec fn name_rows(table: LookupTable, entries: Entries, n: int) -> Seq<CacheRowView>
    decreases n,
{
    if n <= 0 {
        Seq::empty()
    } else {
        name_rows(table, entries, n - 1).push(
            CacheRowView::Name { table, name: entries[n - 1].0 },
        )
    }
}

/// One row for each of the first `n` back-links of a title.
pub open spec fn title_link_rows(name: Seq<char>, links: Seq<usize>, n: int) -> Seq<CacheRowView>
    decreases n,
{
    if n <= 0 {
        Seq::empty()
    } else {
        title_link_rows(name, links, n - 1).push(CacheRowView::Title { name, book: links[n - 1] })
    }
}

/// The rows of the first `n` titles: for each title in order, one row for
/// each of its back-links.
pub open spec fn title_rows(entries: Entries, n: int) -> Seq<CacheRowView>
    decreases n,
{
    if n <= 0 {
        Seq::empty()
    } else {
        title_rows(entries, n - 1) + title_link_rows(
            entries[n - 1].0,
            entries[n - 1].1,
            entries[n - 1].1.len() as int,
        )
    }
}

/// One row for each of the first `n` back-links of the value with the row
/// key `field_id`.
pub open spec fn back_link_rows(table: JoinTable, field_id: usize, links: Seq<usize>, n: int) -> Seq<CacheRowView>
    decreases n,
{
    if n <= 0 {
        Seq::empty()
    } else {
        back_link_rows(table, field_id, links, n - 1).push(
            CacheRowView::Link { join: table, field_id, book: links[n - 1] },
        )
    }
}

/// The join rows of the first `n` values of a dictionary: for each value in
/// order, one row for each of its back-links, under the value's row key.
pub open spec fn link_rows(table: JoinTable, entries: Entries, n: int) -> Seq<CacheRowView>
    decreases n,
{
    if n <= 0 {
        Seq::empty()
    } else {
        link_rows(table, entries, n - 1) + back_link_rows(
            table,
            n as usize,
            entries[n - 1].1,
            entries[n - 1].1.len() as int,
        )
    }
}

/// The link that a file entry names, and the empty text where the entry
/// names no link of the dictionary.
pub open spec fn file_link_name(files: Entries, entry: GutenbergFileEntry) -> Seq<char> {
    if 0 <= entry.file_link_id < files.len() {
        files[entry.file_link_id as int].0
    } else {
        Seq::empty()
    }
}

/// One row for each of the first `n` files of a work, in the order in which
/// the files were found.
pub open spec fn file_rows(files: Entries, entries: Seq<GutenbergFileEntry>, book: usize, n: int) -> Seq<CacheRowView>
    decreases n,
{
    if n <= 0 {
        Seq::empty()
    } else {
        file_rows(files, entries, book, n - 1).push(
            CacheRowView::File {
                name: file_link_name(files, entries[n - 1]),
                type_id: entries[n - 1].file_type_id,
                book,
            },
        )
    }
}

/// The rows of one work: its files, then the work itself.
pub open spec fn book_rows(files: Entries, book: BookView, ordinal: usize) -> Seq<CacheRowView> {
    file_rows(files, book.files, ordinal, book.files.len() as int).push(
        CacheRowView::Book {
            publisher_id: book.publisher_id,
            rights_id: book.rights_id,
            num_downloads: book.num_downloads,
            gutenberg_book_id: book.gutenberg_book_id,
        },
    )
}

/// The rows of the first `n` works. The ordinal of a work is its place
/// among the works, counted from one.
pub open spec fn books_rows(corpus: CorpusView, n: int) -> Seq<CacheRowView>
    decreases n,
{
    if n <= 0 {
        Seq::empty()
    } else {
        books_rows(corpus, n - 1) + book_rows(corpus.files, corpus.books[n - 1], n as usize)
    }
}

/// All rows of the lookup tables: titles, subjects, languages, authors,
/// bookshelves, publishers, rights and file types, in this order.
pub open spec fn lookup_rows(corpus: CorpusView) -> Seq<CacheRowView> {
    title_rows(
        field_entries(corpus, ParseType::Title),
        field_entries(corpus, ParseType::Title).len() as int,
    ) + name_rows(
        LookupTable::Subjects,
        field_entries(corpus, ParseType::Subject),
        field_entries(corpus, ParseType::Subject).len() as int,
    ) + name_rows(
        LookupTable::Languages,
        field_entries(corpus, ParseType::Language),
        field_entries(corpus, ParseType::Language).len() as int,
    ) + name_rows(
        LookupTable::Authors,
        field_entries(corpus, ParseType::Author),
        field_entries(corpus, ParseType::Author).len() as int,
    ) + name_rows(
        LookupTable::Bookshelves,
        field_entries(corpus, ParseType::Bookshelf),
        field_entries(corpus, ParseType::Bookshelf).len() as int,
    ) + name_rows(
        LookupTable::Publishers,
        field_entries(corpus, ParseType::Publisher),
        field_entries(corpus, ParseType::Publisher).len() as int,
    ) + name_rows(
        LookupTable::Rights,
        field_entries(corpus, ParseType::Rights),
        field_entries(corpus, ParseType::Rights).len() as int,
    ) + name_rows(LookupTable::DownloadLinksType, corpus.file_types, corpus.file_types.len() as int)
}

/// All rows of the join tables, taken from the back-links of the
/// dictionaries: authors, subjects, languages and bookshelves, in this
/// order.
pub open spec fn join_rows(corpus: CorpusView) -> Seq<CacheRowView> {
    link_rows(
        JoinTable::BookAuthors,
        field_entries(corpus, ParseType::Author),
        field_entries(corpus, ParseType::Author).len() as int,
    ) + link_rows(
        JoinTable::BookSubjects,
        field_entries(corpus, ParseType::Subject),
        field_entries(corpus, ParseType::Subject).len() as int,
    ) + link_rows(
        JoinTable::BookLanguages,
        field_entries(corpus, ParseType::Language),
        field_entries(corpus, ParseType::Language).len() as int,
    ) + link_rows(
        JoinTable::BookBookshelves,
        field_entries(corpus, ParseType::Bookshelf),
        field_entries(corpus, ParseType::Bookshelf).len() as int,
    )
}

/// The rows that make the cache of a corpus, in the order in which they are
/// to be inserted: the lookup tables are filled before the join tables, and
/// these before the files and works.
pub open spec fn cache_plan(corpus: CorpusView) -> Seq<CacheRowView> {
    lookup_rows(corpus) + join_rows(corpus) + books_rows(corpus, corpus.books.len() as int)
}

/// The step of the filling to which a row belongs: the lookup tables come
/// first, the join tables second, the files and works last.
pub open spec fn row_step(row: CacheRowView) -> int {
    match row {
        CacheRowView::Name { .. } => 0,
        CacheRowView::Title { .. } => 0,
        CacheRowView::Link { .. } => 1,
        CacheRowView::File { .. } => 2,
        CacheRowView::Book { .. } => 2,
    }
}

/// Every row belongs to the step `step`.
pub open spec fn all_of_step(rows: Seq<CacheRowView>, step: int) -> bool {
    forall|i: int| 0 <= i < rows.len() ==> row_step(#[trigger] rows[i]) == step
}

/// Rows of one step followed by rows of the same step are rows of that
/// step.
pub proof fn lemma_all_of_step_add(first: Seq<CacheRowView>, second: Seq<CacheRowView>, step: int)
    requires
        all_of_step(first, step),
        all_of_step(second, step),
    ensures
        all_of_step(first + second, step),
{
    assert forall|i: int| 0 <= i < (first + second).len() implies row_step(
        #[trigger] (first + second)[i],
    ) == step by {
        if i < first.len() {
            assert((first + second)[i] == first[i]);
        } else {
            assert((first + second)[i] == second[i - first.len()]);
        }
    }
}

/// The rows of the values of a dictionary belong to the first step.
pub proof fn lemma_name_rows_step(table: LookupTable, entries: Entries, n: int)
    ensures
        all_of_step(name_rows(table, entries, n), 0),
    decreases n,
{
    if n > 0 {
        lemma_name_rows_step(table, entries, n - 1);
    }
}

/// The rows of one title belong to the first step.
pub proof fn lemma_title_link_rows_step(name: Seq<char>, links: Seq<usize>, n: int)
    ensures
        all_of_step(title_link_rows(name, links, n), 0),
    decreases n,
{
    if n > 0 {
        lemma_title_link_rows_step(name, links, n - 1);
    }
}

/// The rows of the titles belong to the first step.
pub proof fn lemma_title_rows_step(entries: Entries, n: int)
    ensures
        all_of_step(title_rows(entries, n), 0),
    decreases n,
{
    if n > 0 {
        lemma_title_rows_step(entries, n - 1);
        lemma_title_link_rows_step(entries[n - 1].0, entries[n - 1].1, entries[n - 1].1.len() as int);
        lemma_all_of_step_add(
            title_rows(entries, n - 1),
            title_link_rows(entries[n - 1].0, entries[n - 1].1, entries[n - 1].1.len() as int),
            0,
        );
    }
}

/// The join rows of one value belong to the second step.
pub proof fn lemma_back_link_rows_step(table: JoinTable, field_id: usize, links: Seq<usize>, n: int)
    ensures
        all_of_step(back_link_rows(table, field_id, links, n), 1),
    decreases n,
{
    if n > 0 {
        lemma_back_link_rows_step(table, field_id, links, n - 1);
    }
}

/// The join rows of a dictionary belong to the second step.
pub proof fn lemma_link_rows_step(table: JoinTable, entries: Entries, n: int)
    ensures
        all_of_step(link_rows(table, entries, n), 1),
    decreases n,
{
    if n > 0 {
        lemma_link_rows_step(table, entries, n - 1);
        lemma_back_link_rows_step(
            table,
            n as usize,
            entries[n - 1].1,
            entries[n - 1].1.len() as int,
        );
        lemma_all_of_step_add(
            link_rows(table, entries, n - 1),
            back_link_rows(table, n as usize, entries[n - 1].1, entries[n - 1].1.len() as int),
            1,
        );
    }
}

/// The rows of the files of a work belong to the last step.
pub proof fn lemma_file_rows_step(files: Entries, entries: Seq<GutenbergFileEntry>, book: usize, n: int)
    ensures
        all_of_step(file_rows(files, entries, book, n), 2),
    decreases n,
{
    if n > 0 {
        lemma_file_rows_step(files, entries, book, n - 1);
    }
}

/// The rows of the works belong to the last step.
pub proof fn lemma_books_rows_step(corpus: CorpusView, n: int)
    ensures
        all_of_step(books_rows(corpus, n), 2),
    decreases n,
{
    if n > 0 {
        lemma_books_rows_step(corpus, n - 1);
        let book = corpus.books[n - 1];
        lemma_file_rows_step(corpus.files, book.files, n as usize, book.files.len() as int);
        lemma_all_of_step_add(
            books_rows(corpus, n - 1),
            book_rows(corpus.files, book, n as usize),
            2,
        );
    }
}

/// The cache is filled step by step: no row of a join table stands before
/// a row of a lookup table, and no file and no work before a row of a join
/// table.
pub proof fn lemma_plan_order(corpus: CorpusView, i: int, j: int)
    requires
        0 <= i <= j < cache_plan(corpus).len(),
    ensures
        row_step(cache_plan(corpus)[i]) <= row_step(cache_plan(corpus)[j]),
{
    let title = field_entries(corpus, ParseType::Title);
    let subject = field_entries(corpus, ParseType::Subject);
    let language = field_entries(corpus, ParseType::Language);
    let author = field_entries(corpus, ParseType::Author);
    let bookshelf = field_entries(corpus, ParseType::Bookshelf);
    let publisher = field_entries(corpus, ParseType::Publisher);
    let rights = field_entries(corpus, ParseType::Rights);
    lemma_title_rows_step(title, title.len() as int);
    lemma_name_rows_step(LookupTable::Subjects, subject, subject.len() as int);
    lemma_name_rows_step(LookupTable::Languages, language, language.len() as int);
    lemma_name_rows_step(LookupTable::Authors, author, author.len() as int);
    lemma_name_rows_step(LookupTable::Bookshelves, bookshelf, bookshelf.len() as int);
    lemma_name_rows_step(LookupTable::Publishers, publisher, publisher.len() as int);
    lemma_name_rows_step(LookupTable::Rights, rights, rights.len() as int);
    lemma_name_rows_step(
        LookupTable::DownloadLinksType,
        corpus.file_types,
        corpus.file_types.len() as int,
    );
    let a = title_rows(title, title.len() as int);
    let b = a + name_rows(LookupTable::Subjects, subject, subject.len() as int);
    lemma_all_of_step_add(a, name_rows(LookupTable::Subjects, subject, subject.len() as int), 0);
    let c = b + name_rows(LookupTable::Languages, language, language.len() as int);
    lemma_all_of_step_add(b, name_rows(LookupTable::Languages, language, language.len() as int), 0);
    let d = c + name_rows(LookupTable::Authors, author, author.len() as int);
    lemma_all_of_step_add(c, name_rows(LookupTable::Authors, author, author.len() as int), 0);
    let e = d + name_rows(LookupTable::Bookshelves, bookshelf, bookshelf.len() as int);
    lemma_all_of_step_add(
        d,
        name_rows(LookupTable::Bookshelves, bookshelf, bookshelf.len() as int),
        0,
    );
    let f = e + name_rows(LookupTable::Publishers, publisher, publisher.len() as int);
    lemma_all_of_step_add(
        e,
        name_rows(LookupTable::Publishers, publisher, publisher.len() as int),
        0,
    );
    let g = f + name_rows(LookupTable::Rights, rights, rights.len() as int);
    lemma_all_of_step_add(f, name_rows(LookupTable::Rights, rights, rights.len() as int), 0);
    lemma_all_of_step_add(
        g,
        name_rows(LookupTable::DownloadLinksType, corpus.file_types, corpus.file_types.len() as int),
        0,
    );
    let lookups = lookup_rows(corpus);
    assert(all_of_step(lookups, 0));
    lemma_link_rows_step(JoinTable::BookAuthors, author, author.len() as int);
    lemma_link_rows_step(JoinTable::BookSubjects, subject, subject.len() as int);
    lemma_link_rows_step(JoinTable::BookLanguages, language, language.len() as int);
    lemma_link_rows_step(JoinTable::BookBookshelves, bookshelf, bookshelf.len() as int);
    let p = link_rows(JoinTable::BookAuthors, author, author.len() as int);
    let q = p + link_rows(JoinTable::BookSubjects, subject, subject.len() as int);
    lemma_all_of_step_add(p, link_rows(JoinTable::BookSubjects, subject, subject.len() as int), 1);
    let r = q + link_rows(JoinTable::BookLanguages, language, language.len() as int);
    lemma_all_of_step_add(
        q,
        link_rows(JoinTable::BookLanguages, language, language.len() as int),
        1,
    );
    lemma_all_of_step_add(
        r,
        link_rows(JoinTable::BookBookshelves, bookshelf, bookshelf.len() as int),
        1,
    );
    let joins = join_rows(corpus);
    assert(all_of_step(joins, 1));
    let works = books_rows(corpus, corpus.books.len() as int);
    lemma_books_rows_step(corpus, corpus.books.len() as int);
    let plan = cache_plan(corpus);
    assert(plan == lookups + joins + works);
    assert forall|k: int| 0 <= k < plan.len() implies row_step(#[trigger] plan[k]) == (if k
        < lookups.len() {
        0int
    } else if k < lookups.len() + joins.len() {
        1int
    } else {
        2int
    }) by {
        if k < lookups.len() {
            assert(plan[k] == lookups[k]);
        } else if k < lookups.len() + joins.len() {
            assert(plan[k] == joins[k - lookups.len()]);
        } else {
            assert(plan[k] == works[k - lookups.len() - joins.len()]);
        }
    }
}

/// Appends one row for each value of `dictionary`.
fn push_name_rows(rows: &mut Vec<CacheRow>, table: LookupTable, dictionary: &Dictionary)
    ensures
        rows_view(final(rows)@) == rows_view(old(rows)@) + name_rows(
            table,
            dictionary_entries(*dictionary),
            dictionary_entries(*dictionary).len() as int,
        ),
{
    let ghost entries = dictionary_entries(*dictionary);
    let ghost base = rows_view(rows@);
    let n = dictionary_len(dictionary);
    let mut i: usize = 0;
    assert(rows_view(rows@) =~= base + name_rows(table, entries, 0));
    while i < n
        invariant
            entries == dictionary_entries(*dictionary),
            n == entries.len(),
            i <= n,
            rows_view(rows@) == base + name_rows(table, entries, i as int),
        decreases n - i,
    {
        match dictionary_get_index(dictionary, i) {
            Some(entry) => {
                let ghost before = rows_view(rows@);
                rows.push(CacheRow::Name { table, name: entry.0.clone() });
                assert(rows_view(rows@) =~= before.push(
                    CacheRowView::Name { table, name: entries[i as int].0 },
                ));
                assert(rows_view(rows@) =~= base + name_rows(table, entries, i + 1));
            },
            None => {},
        }
        i += 1;
    }
}

/// Appends the rows of the titles of `dictionary`.
fn push_title_rows(rows: &mut Vec<CacheRow>, dictionary: &Dictionary)
    ensures
        rows_view(final(rows)@) == rows_view(old(rows)@) + title_rows(
            dictionary_entries(*dictionary),
            dictionary_entries(*dictionary).len() as int,
        ),
{
    let ghost entries = dictionary_entries(*dictionary);
    let ghost base = rows_view(rows@);
    let n = dictionary_len(dictionary);
    let mut i: usize = 0;
    assert(rows_view(rows@) =~= base + title_rows(entries, 0));
    while i < n
        invariant
            entries == dictionary_entries(*dictionary),
            n == entries.len(),
            i <= n,
            rows_view(rows@) == base + title_rows(entries, i as int),
        decreases n - i,
    {
        match dictionary_get_index(dictionary, i) {
            Some(entry) => {
                let ghost start = rows_view(rows@);
                let links = &entry.1.book_links;
                let count = links.len();
                let mut j: usize = 0;
                assert(rows_view(rows@) =~= start + title_link_rows(entry.0@, links@, 0));
                while j < count
                    invariant
                        count == links@.len(),
                        j <= count,
                        rows_view(rows@) == start + title_link_rows(entry.0@, links@, j as int),
                    decreases count - j,
                {
                    let ghost before = rows_view(rows@);
                    rows.push(CacheRow::Title { name: entry.0.clone(), book: links[j] });
                    assert(rows_view(rows@) =~= before.push(
                        CacheRowView::Title { name: entry.0@, book: links@[j as int] },
                    ));
                    assert(rows_view(rows@) =~= start + title_link_rows(entry.0@, links@, j + 1));
                    j += 1;
                }
                assert(rows_view(rows@) =~= base + title_rows(entries, i + 1));
            },
            None => {},
        }
        i += 1;
    }
}

/// Appends the join rows of `dictionary`.
fn push_link_rows(rows: &mut Vec<CacheRow>, table: JoinTable, dictionary: &Dictionary)
    ensures
        rows_view(final(rows)@) == rows_view(old(rows)@) + link_rows(
            table,
            dictionary_entries(*dictionary),
            dictionary_entries(*dictionary).len() as int,
        ),
{
    let ghost entries = dictionary_entries(*dictionary);
    let ghost base = rows_view(rows@);
    let n = dictionary_len(dictionary);
    let mut i: usize = 0;
    assert(rows_view(rows@) =~= base + link_rows(table, entries, 0));
    while i < n
        invariant
            entries == dictionary_entries(*dictionary),
            n == entries.len(),
            i <= n,
            rows_view(rows@) == base + link_rows(table, entries, i as int),
        decreases n - i,
    {
        match dictionary_get_index(dictionary, i) {
            Some(entry) => {
                let ghost start = rows_view(rows@);
                let links = &entry.1.book_links;
                let count = links.len();
                let field_id: usize = i + 1;
                let mut j: usize = 0;
                assert(rows_view(rows@) =~= start + back_link_rows(table, field_id, links@, 0));
                while j < count
                    invariant
                        count == links@.len(),
                        j <= count,
                        rows_view(rows@) == start + back_link_rows(
                            table,
                            field_id,
                            links@,
                            j as int,
                        ),
                    decreases count - j,
                {
                    let ghost before = rows_view(rows@);
                    rows.push(CacheRow::Link { join: table, field_id, book: links[j] });
                    assert(rows_view(rows@) =~= before.push(
                        CacheRowView::Link { join: table, field_id, book: links@[j as int] },
                    ));
                    assert(rows_view(rows@) =~= start + back_link_rows(
                        table,
                        field_id,
                        links@,
                        j + 1,
                    ));
                    j += 1;
                }
                assert(rows_view(rows@) =~= base + link_rows(table, entries, i + 1));
            },
            None => {},
        }
        i += 1;
    }
}

/// Appends the rows of one work.
fn push_book_rows(rows: &mut Vec<CacheRow>, files: &Dictionary, book: &Book, ordinal: usize)
    ensures
        rows_view(final(rows)@) == rows_view(old(rows)@) + book_rows(
            dictionary_entries(*files),
            book@,
            ordinal,
        ),
{
    let ghost entries = dictionary_entries(*files);
    let ghost base = rows_view(rows@);
    let n = book.files.len();
    let mut i: usize = 0;
    assert(rows_view(rows@) =~= base + file_rows(entries, book@.files, ordinal, 0));
    while i < n
        invariant
            entries == dictionary_entries(*files),
            n == book@.files.len(),
            i <= n,
            rows_view(rows@) == base + file_rows(entries, book@.files, ordinal, i as int),
        decreases n - i,
    {
        let item = book.files[i];
        let mut name = String::from_str("");
        proof {
            reveal_strlit("");
        }
        if item.file_link_id >= 0 {
            match dictionary_get_index(files, item.file_link_id as usize) {
                Some(entry) => {
                    name = entry.0.clone();
                },
                None => {},
            }
        }
        assert(name@ =~= file_link_name(entries, item));
        let ghost before = rows_view(rows@);
        rows.push(CacheRow::File { name, type_id: item.file_type_id, book: ordinal });
        assert(rows_view(rows@) =~= before.push(
            CacheRowView::File {
                name: file_link_name(entries, item),
                type_id: item.file_type_id,
                book: ordinal,
            },
        ));
        assert(rows_view(rows@) =~= base + file_rows(entries, book@.files, ordinal, i + 1));
        i += 1;
    }
    let ghost before = rows_view(rows@);
    rows.push(
        CacheRow::Book {
            publisher_id: book.publisher_id,
            rights_id: book.rights_id,
            num_downloads: book.num_downloads,
            gutenberg_book_id: book.gutenberg_book_id,
        },
    );
    assert(rows_view(rows@) =~= before.push(
        CacheRowView::Book {
            publisher_id: book@.publisher_id,
            rights_id: book@.rights_id,
            num_downloads: book@.num_downloads,
            gutenberg_book_id: book@.gutenberg_book_id,
        },
    ));
}

/// Appends one row for each value of the field `kind`, where the result
/// has a dictionary for it.
fn push_field_names(rows: &mut Vec<CacheRow>, table: LookupTable, parse_results: &ParseResult, kind: ParseType)
    ensures
        rows_view(final(rows)@) == rows_view(old(rows)@) + name_rows(
            table,
            field_entries(parse_results@, kind),
            field_entries(parse_results@, kind).len() as int,
        ),
{
    if kind.index() < parse_results.field_dictionaries.len() {
        push_name_rows(rows, table, &parse_results.field_dictionaries[kind.index()]);
    } else {
        assert(rows_view(rows@) =~= rows_view(old(rows)@) + name_rows(table, Seq::empty(), 0));
    }
}

/// Appends the join rows of the field `kind`, where the result has a
/// dictionary for it.
fn push_field_links(rows: &mut Vec<CacheRow>, table: JoinTable, parse_results: &ParseResult, kind: ParseType)
    ensures
        rows_view(final(rows)@) == rows_view(old(rows)@) + link_rows(
            table,
            field_entries(parse_results@, kind),
            field_entries(parse_results@, kind).len() as int,
        ),
{
    if kind.index() < parse_results.field_dictionaries.len() {
        push_link_rows(rows, table, &parse_results.field_dictionaries[kind.index()]);
    } else {
        assert(rows_view(rows@) =~= rows_view(old(rows)@) + link_rows(table, Seq::empty(), 0));
    }
}

/// The rows that make the cache of the corpus `parse_results`, in the order
/// in which they are to be inserted into an empty store. Where the corpus is
/// consistent, as one is that was read without failure, the rows refer to
/// each other rightly.
pub fn cache_rows(parse_results: &ParseResult) -> (rows: Vec<CacheRow>)
    ensures
        rows_view(rows@) == cache_plan(parse_results@),
        forall|works: int|
            corpus_consistent(parse_results@, works) ==> #[trigger] rows_refer(
                rows_view(rows@),
                parse_results@,
                works,
            ),
{
    let mut rows: Vec<CacheRow> = Vec::new();
    let ghost corpus = parse_results@;
    assert(rows_view(rows@) =~= Seq::<CacheRowView>::empty());
    if ParseType::Title.index() < parse_results.field_dictionaries.len() {
        push_title_rows(&mut rows, &parse_results.field_dictionaries[ParseType::Title.index()]);
    } else {
        assert(rows_view(rows@) =~= title_rows(Seq::empty(), 0));
    }
    assert(rows_view(rows@) =~= title_rows(
        field_entries(corpus, ParseType::Title),
        field_entries(corpus, ParseType::Title).len() as int,
    ));
    push_field_names(&mut rows, LookupTable::Subjects, parse_results, ParseType::Subject);
    push_field_names(&mut rows, LookupTable::Languages, parse_results, ParseType::Language);
    push_field_names(&mut rows, LookupTable::Authors, parse_results, ParseType::Author);
    push_field_names(&mut rows, LookupTable::Bookshelves, parse_results, ParseType::Bookshelf);
    push_field_names(&mut rows, LookupTable::Publishers, parse_results, ParseType::Publisher);
    push_field_names(&mut rows, LookupTable::Rights, parse_results, ParseType::Rights);
    push_name_rows(&mut rows, LookupTable::DownloadLinksType, &parse_results.file_types_dictionary);
    assert(rows_view(rows@) == lookup_rows(corpus));
    let ghost lookups = rows_view(rows@);
    push_field_links(&mut rows, JoinTable::BookAuthors, parse_results, ParseType::Author);
    push_field_links(&mut rows, JoinTable::BookSubjects, parse_results, ParseType::Subject);
    push_field_links(&mut rows, JoinTable::BookLanguages, parse_results, ParseType::Language);
    push_field_links(&mut rows, JoinTable::BookBookshelves, parse_results, ParseType::Bookshelf);
    assert(rows_view(rows@) =~= lookups + join_rows(corpus));
    let ghost base = rows_view(rows@);
    let n = parse_results.books.len();
    let mut i: usize = 0;
    assert(rows_view(rows@) =~= base + books_rows(corpus, 0));
    while i < n
        invariant
            corpus == parse_results@,
            n == parse_results.books@.len(),
            i <= n,
            rows_view(rows@) == base + books_rows(corpus, i as int),
        decreases n - i,
    {
        let ghost before = rows_view(rows@);
        push_book_rows(&mut rows, &parse_results.files_dictionary, &parse_results.books[i], i + 1);
        assert(rows_view(rows@) =~= base + books_rows(corpus, i + 1));
        i += 1;
    }
    if parse_results.field_dictionaries.len() == FIELD_KINDS {
        take_lengths(parse_results);
        assert forall|works: int| corpus_consistent(parse_results@, works) implies #[trigger] rows_refer(
            rows_view(rows@),
            parse_results@,
            works,
        ) by {
            lemma_plan_refers(parse_results@, works);
        }
    }
    rows
}

/// A field by which works can be looked for.
#[derive(Debug, Clone, Copy, PartialEq, Eq, Structural)]
pub enum QueryField {
    Language,
    Author,
    Title,
    Subject,
    Publisher,
    Bookshelf,
    Rights,
    DownloadLinksType,
}

impl QueryField {
    /// The name under which a predicate on this field is given.
    pub open spec fn spec_key(self) -> Seq<char> {
        match self {
            QueryField::Language => "language"@,
            QueryField::Author => "author"@,
            QueryField::Title => "title"@,
            QueryField::Subject => "subject"@,
            QueryField::Publisher => "publisher"@,
            QueryField::Bookshelf => "bookshelve"@,
            QueryField::Rights => "rights"@,
            QueryField::DownloadLinksType => "downloadlinkstype"@,
        }
    }

    /// The tables that a predicate on this field brings into the query.
    pub open spec fn spec_tables(self) -> Seq<char> {
        match self {
            QueryField::Language => "languages,book_languages"@,
            QueryField::Author => "authors,book_authors"@,
            QueryField::Title => "titles"@,
            QueryField::Subject => "subjects,book_subjects"@,
            QueryField::Publisher => "publishers"@,
            QueryField::Bookshelf => "bookshelves,book_bookshelves"@,
            QueryField::Rights => "rights"@,
            QueryField::DownloadLinksType => "downloadlinks,downloadlinkstype"@,
        }
    }

    /// The condition of a predicate on this field: the tables of the field
    /// are tied to the work, and the name is held against one bound value.
    pub open spec fn spec_condition(self) -> Seq<char> {
        match self {
            QueryField::Language => "languages.id = book_languages.languageid AND books.id = book_languages.bookid AND languages.name IN (?)"@,
            QueryField::Author => "authors.id = book_authors.authorid AND books.id = book_authors.bookid AND authors.name IN (?)"@,
            QueryField::Title => "titles.bookid = books.id AND titles.name IN (?)"@,
            QueryField::Subject => "subjects.id = book_subjects.subjectid AND books.id = book_subjects.bookid AND subjects.name IN (?)"@,
            QueryField::Publisher => "publishers.id = books.publisherid AND publishers.name IN (?)"@,
            QueryField::Bookshelf => "bookshelves.id = book_bookshelves.bookshelfid AND books.id = book_bookshelves.bookid AND bookshelves.name IN (?)"@,
            QueryField::Rights => "rights.id = books.rightsid AND rights.name IN (?)"@,
            QueryField::DownloadLinksType => "downloadlinks.downloadtypeid = downloadlinkstype.id AND downloadlinks.bookid = books.id AND downloadlinkstype.name IN (?)"@,
        }
    }

    /// The name under which a predicate on this field is given.
    pub fn key(self) -> (key: &'static str)
        ensures
            key@ == self.spec_key(),
    {
        match self {
            QueryField::Language => "language",
            QueryField::Author => "author",
            QueryField::Title => "title",
            QueryField::Subject => "subject",
            QueryField::Publisher => "publisher",
            QueryField::Bookshelf => "bookshelve",
            QueryField::Rights => "rights",
            QueryField::DownloadLinksType => "downloadlinkstype",
        }
    }

    /// The tables that a predicate on this field brings into the query.
    pub fn tables(self) -> (tables: &'static str)
        ensures
            tables@ == self.spec_tables(),
    {
        match self {
            QueryField::Language => "languages,book_languages",
            QueryField::Author => "authors,book_authors",
            QueryField::Title => "titles",
            QueryField::Subject => "subjects,book_subjects",
            QueryField::Publisher => "publishers",
            QueryField::Bookshelf => "bookshelves,book_bookshelves",
            QueryField::Rights => "rights",
            QueryField::DownloadLinksType => "downloadlinks,downloadlinkstype",
        }
    }

    /// The condition of a predicate on this field.
    pub fn condition(self) -> (condition: &'static str)
        ensures
            condition@ == self.spec_condition(),
    {
        match self {
            QueryField::Language => "languages.id = book_languages.languageid AND books.id = book_languages.bookid AND languages.name IN (?)",
            QueryField::Author => "authors.id = book_authors.authorid AND books.id = book_authors.bookid AND authors.name IN (?)",
            QueryField::Title => "titles.bookid = books.id AND titles.name IN (?)",
            QueryField::Subject => "subjects.id = book_subjects.subjectid AND books.id = book_subjects.bookid AND subjects.name IN (?)",
            QueryField::Publisher => "publishers.id = books.publisherid AND publishers.name IN (?)",
            QueryField::Bookshelf => "bookshelves.id = book_bookshelves.bookshelfid AND books.id = book_bookshelves.bookid AND bookshelves.name IN (?)",
            QueryField::Rights => "rights.id = books.rightsid AND rights.name IN (?)",
            QueryField::DownloadLinksType => "downloadlinks.downloadtypeid = downloadlinkstype.id AND downloadlinks.bookid = books.id AND downloadlinkstype.name IN (?)",
        }
    }
}

/// The predicates of a query: for each field, the value that the field of a
/// work must have, or none.
#[derive(Debug, PartialEq, Eq)]
pub struct QueryPredicates {
    pub language: Option<String>,
    pub author: Option<String>,
    pub title: Option<String>,
    pub subject: Option<String>,
    pub publisher: Option<String>,
    pub bookshelve: Option<String>,
    pub rights: Option<String>,
    pub downloadlinkstype: Option<String>,
}

/// What `QueryPredicates` hold, as mathematical values.
pub struct QueryPredicatesView {
    pub language: Option<Seq<char>>,
    pub author: Option<Seq<char>>,
    pub title: Option<Seq<char>>,
    pub subject: Option<Seq<char>>,
    pub publisher: Option<Seq<char>>,
    pub bookshelve: Option<Seq<char>>,
    pub rights: Option<Seq<char>>,
    pub downloadlinkstype: Option<Seq<char>>,
}

/// The characters of a string that may be missing.
pub open spec fn option_view(text: Option<String>) -> Option<Seq<char>> {
    match text {
        Some(t) => Some(t@),
        None => None,
    }
}

impl View for QueryPredicates {
    type V = QueryPredicatesView;

    open spec fn view(&self) -> QueryPredicatesView {
        QueryPredicatesView {
            language: option_view(self.language),
            author: option_view(self.author),
            title: option_view(self.title),
            subject: option_view(self.subject),
            publisher: option_view(self.publisher),
            bookshelve: option_view(self.bookshelve),
            rights: option_view(self.rights),
            downloadlinkstype: option_view(self.downloadlinkstype),
        }
    }
}

/// The predicate on `field`, if there is one, as a row of one.
pub open spec fn given(field: QueryField, value: Option<Seq<char>>) -> Seq<(QueryField, Seq<char>)> {
    match value {
        Some(v) => seq![(field, v)],
        None => Seq::empty(),
    }
}

impl QueryPredicatesView {
    /// The predicates that are given, in the order of the fields.
    pub open spec fn present(self) -> Seq<(QueryField, Seq<char>)> {
        given(QueryField::Language, self.language) + given(QueryField::Author, self.author) + given(
            QueryField::Title,
            self.title,
        ) + given(QueryField::Subject, self.subject) + given(QueryField::Publisher, self.publisher)
            + given(QueryField::Bookshelf, self.bookshelve) + given(QueryField::Rights, self.rights)
            + given(QueryField::DownloadLinksType, self.downloadlinkstype)
    }
}

/// The tables of the first `n` predicates, each after a comma.
pub open spec fn tables_text(present: Seq<(QueryField, Seq<char>)>, n: int) -> Seq<char>
    decreases n,
{
    if n <= 0 {
        Seq::empty()
    } else {
        tables_text(present, n - 1) + ","@ + present[n - 1].0.spec_tables()
    }
}

/// The conditions of the first `n` predicates, with ` AND ` between them.
pub open spec fn conditions_text(present: Seq<(QueryField, Seq<char>)>, n: int) -> Seq<char>
    decreases n,
{
    if n <= 0 {
        Seq::empty()
    } else if n == 1 {
        present[0].0.spec_condition()
    } else {
        conditions_text(present, n - 1) + " AND "@ + present[n - 1].0.spec_condition()
    }
}

/// What restricts the works selected: nothing where there is no predicate,
/// else ` WHERE ` and the conditions of all predicates, each of which a
/// work has to meet.
pub open spec fn where_text(present: Seq<(QueryField, Seq<char>)>, n: int) -> Seq<char> {
    if n <= 0 {
        Seq::empty()
    } else {
        " WHERE "@ + conditions_text(present, n)
    }
}

/// The values of the first `n` predicates, in order.
pub open spec fn bound_values(present: Seq<(QueryField, Seq<char>)>, n: int) -> Seq<Seq<char>>
    decreases n,
{
    if n <= 0 {
        Seq::empty()
    } else {
        bound_values(present, n - 1).push(present[n - 1].1)
    }
}

/// The statement that selects the catalog identifiers of the works that
/// meet all the predicates, each identifier once. Only the tables of the
/// predicates given are joined; without a predicate every work is selected.
pub open spec fn query_text(present: Seq<(QueryField, Seq<char>)>) -> Seq<char> {
    "SELECT DISTINCT books.gutenbergbookid FROM books"@ + tables_text(
        present,
        present.len() as int,
    ) + where_text(present, present.len() as int)
}

/// The statement for two rows of predicates taken together asks of a work
/// what the statement for each row asks: it joins the tables of the first
/// row and then those of the second, binds the values of the first and
/// then those of the second, and its conditions are those of the first and
/// those of the second with ` AND ` between them.
pub proof fn lemma_query_of_both(first: Seq<(QueryField, Seq<char>)>, second: Seq<(QueryField, Seq<char>)>, n: int)
    requires
        0 <= n <= second.len(),
    ensures
        tables_text(first + second, first.len() + n) == tables_text(first, first.len() as int)
            + tables_text(second, n),
        bound_values(first + second, first.len() + n) == bound_values(first, first.len() as int)
            + bound_values(second, n),
        first.len() > 0 && n > 0 ==> conditions_text(first + second, first.len() + n)
            == conditions_text(first, first.len() as int) + " AND "@ + conditions_text(second, n),
        first.len() == 0 ==> conditions_text(first + second, n) == conditions_text(second, n),
        n == 0 ==> conditions_text(first + second, first.len() as int) == conditions_text(
            first,
            first.len() as int,
        ),
    decreases n,
{
    let both = first + second;
    if n == 0 {
        lemma_query_prefix(first, second, first.len() as int);
        assert(tables_text(second, 0) =~= Seq::empty());
        assert(tables_text(first, first.len() as int) + Seq::empty() =~= tables_text(
            first,
            first.len() as int,
        ));
        assert(bound_values(first, first.len() as int) + Seq::empty() =~= bound_values(
            first,
            first.len() as int,
        ));
    } else {
        lemma_query_of_both(first, second, n - 1);
        assert(both[first.len() + n - 1] == second[n - 1]);
        assert(tables_text(both, first.len() + n) =~= tables_text(first, first.len() as int)
            + tables_text(second, n));
        assert(bound_values(both, first.len() + n) =~= bound_values(first, first.len() as int)
            + bound_values(second, n));
        if first.len() > 0 {
            if n == 1 {
                assert(conditions_text(both, first.len() as int + 1) =~= conditions_text(
                    first,
                    first.len() as int,
                ) + " AND "@ + conditions_text(second, 1));
            } else {
                assert(conditions_text(both, first.len() + n) =~= conditions_text(
                    first,
                    first.len() as int,
                ) + " AND "@ + conditions_text(second, n));
            }
        } else {
            assert(both =~= second);
        }
    }
}

/// The statement for the first predicates of a row does not depend on what
/// follows them.
pub proof fn lemma_query_prefix(first: Seq<(QueryField, Seq<char>)>, second: Seq<(QueryField, Seq<char>)>, n: int)
    requires
        0 <= n <= first.len(),
    ensures
        tables_text(first + second, n) == tables_text(first, n),
        bound_values(first + second, n) == bound_values(first, n),
        conditions_text(first + second, n) == conditions_text(first, n),
    decreases n,
{
    if n > 0 {
        lemma_query_prefix(first, second, n - 1);
        assert((first + second)[n - 1] == first[n - 1]);
        assert((first + second)[0] == first[0]);
    }
}

/// A statement and the values to bind to its placeholders, in order.
#[derive(Debug, PartialEq, Eq)]
pub struct Query {
    pub sql: String,
    pub params: Vec<String>,
}

/// What each string of a vector holds.
pub open spec fn texts_view(texts: Seq<String>) -> Seq<Seq<char>> {
    Seq::new(texts.len(), |i: int| texts[i]@)
}

/// What each predicate of a vector holds.
pub open spec fn present_view(present: Seq<(QueryField, String)>) -> Seq<(QueryField, Seq<char>)> {
    Seq::new(present.len(), |i: int| (present[i].0, present[i].1@))
}

/// Appends the predicate on `field`, if there is one.
fn push_given(present: &mut Vec<(QueryField, String)>, field: QueryField, value: &Option<String>)
    ensures
        present_view(final(present)@) == present_view(old(present)@) + given(
            field,
            option_view(*value),
        ),
{
    match value {
        Some(v) => {
            let ghost before = present_view(present@);
            present.push((field, v.clone()));
            assert(present_view(present@) =~= before + seq![(field, v@)]);
        },
        None => {
            assert(present_view(present@) =~= present_view(present@) + Seq::empty());
        },
    }
}

impl QueryPredicates {
    /// No predicate at all.
    pub fn new() -> (predicates: QueryPredicates)
        ensures
            predicates@.present().len() == 0,
            predicates.language is None,
            predicates.author is None,
            predicates.title is None,
            predicates.subject is None,
            predicates.publisher is None,
            predicates.bookshelve is None,
            predicates.rights is None,
            predicates.downloadlinkstype is None,
    {
        QueryPredicates {
            language: None,
            author: None,
            title: None,
            subject: None,
            publisher: None,
            bookshelve: None,
            rights: None,
            downloadlinkstype: None,
        }
    }

    /// The predicates that are given, in the order of the fields.
    pub fn present(&self) -> (present: Vec<(QueryField, String)>)
        ensures
            present_view(present@) == self@.present(),
    {
        let mut present: Vec<(QueryField, String)> = Vec::new();
        assert(present_view(present@) =~= Seq::empty());
        push_given(&mut present, QueryField::Language, &self.language);
        push_given(&mut present, QueryField::Author, &self.author);
        push_given(&mut present, QueryField::Title, &self.title);
        push_given(&mut present, QueryField::Subject, &self.subject);
        push_given(&mut present, QueryField::Publisher, &self.publisher);
        push_given(&mut present, QueryField::Bookshelf, &self.bookshelve);
        push_given(&mut present, QueryField::Rights, &self.rights);
        push_given(&mut present, QueryField::DownloadLinksType, &self.downloadlinkstype);
        assert(present_view(present@) =~= self@.present());
        present
    }
}

/// The query for the works that meet all of `predicates`: the statement,
/// with a placeholder for the value of each predicate given, and those
/// values in the order of their placeholders.
pub fn query_statement(predicates: &QueryPredicates) -> (query: Query)
    ensures
        query.sql@ == query_text(predicates@.present()),
        texts_view(query.params@) == bound_values(
            predicates@.present(),
            predicates@.present().len() as int,
        ),
{
    let present = predicates.present();
    let ghost fields = present_view(present@);
    let n = present.len();
    let mut sql = String::from_str("SELECT DISTINCT books.gutenbergbookid FROM books");
    let mut i: usize = 0;
    assert(sql@ =~= "SELECT DISTINCT books.gutenbergbookid FROM books"@ + tables_text(fields, 0));
    while i < n
        invariant
            fields == present_view(present@),
            n == present@.len(),
            i <= n,
            sql@ == "SELECT DISTINCT books.gutenbergbookid FROM books"@ + tables_text(
                fields,
                i as int,
            ),
        decreases n - i,
    {
        sql.append(",");
        sql.append(present[i].0.tables());
        assert(sql@ =~= "SELECT DISTINCT books.gutenbergbookid FROM books"@ + tables_text(
            fields,
            i + 1,
        ));
        i += 1;
    }
    let ghost head = sql@;
    let mut params: Vec<String> = Vec::new();
    let mut i: usize = 0;
    assert(sql@ =~= head + where_text(fields, 0));
    assert(texts_view(params@) =~= bound_values(fields, 0));
    while i < n
        invariant
            fields == present_view(present@),
            n == present@.len(),
            i <= n,
            sql@ == head + where_text(fields, i as int),
            texts_view(params@) == bound_values(fields, i as int),
        decreases n - i,
    {
        if i == 0 {
            sql.append(" WHERE ");
        } else {
            sql.append(" AND ");
        }
        sql.append(present[i].0.condition());
        assert(conditions_text(fields, i + 1) =~= if i == 0 {
            fields[0].0.spec_condition()
        } else {
            conditions_text(fields, i as int) + " AND "@ + fields[i as int].0.spec_condition()
        });
        assert(sql@ =~= head + where_text(fields, i + 1));
        let ghost before = texts_view(params@);
        params.push(present[i].1.clone());
        assert(texts_view(params@) =~= before.push(fields[i as int].1));
        i += 1;
    }
    Query { sql, params }
}

/// What a predicate given as JSON stands for: the text where it is one, no
/// predicate where it is absent, and a failure where it is something else.
pub open spec fn predicate_of(field: JsonFieldView) -> Option<Option<Seq<char>>> {
    match field {
        JsonFieldView::Absent => Some(None),
        JsonFieldView::Text(text) => Some(Some(text)),
        JsonFieldView::NotText => None,
    }
}

/// The predicates that eight fields read from JSON stand for, and none
/// where one of the fields is present without being text.
pub open spec fn predicates_of(fields: Seq<JsonFieldView>) -> Option<QueryPredicatesView> {
    if fields.len() == 8 && forall|i: int| 0 <= i < 8 ==> !(#[trigger] fields[i] is NotText) {
        Some(
            QueryPredicatesView {
                language: predicate_of(fields[0])->0,
                author: predicate_of(fields[1])->0,
                title: predicate_of(fields[2])->0,
                subject: predicate_of(fields[3])->0,
                publisher: predicate_of(fields[4])->0,
                bookshelve: predicate_of(fields[5])->0,
                rights: predicate_of(fields[6])->0,
                downloadlinkstype: predicate_of(fields[7])->0,
            },
        )
    } else {
        None
    }
}

/// The predicate that a field read from JSON stands for; `InvalidQuery`
/// where the field is present without being text.
pub fn predicate_from_field(field: JsonField) -> (r: Result<Option<String>, Error>)
    ensures
        match predicate_of(field@) {
            Some(predicate) => r is Ok && option_view(r->Ok_0) == predicate,
            None => r is Err && r->Err_0.kind() == ErrorKind::InvalidQuery,
        },
{
    match field {
        JsonField::Absent => Ok(None),
        JsonField::Text(text) => Ok(Some(text)),
        JsonField::NotText => Err(Error::InvalidQuery(String::from_str("a predicate must be a string"))),
    }
}

/// The predicates that the eight fields stand for, given in the order
/// language, author, title, subject, publisher, bookshelve, rights,
/// downloadlinkstype; `InvalidQuery` where one of them is present without
/// being text.
pub fn predicates_from_fields(
    language: JsonField,
    author: JsonField,
    title: JsonField,
    subject: JsonField,
    publisher: JsonField,
    bookshelve: JsonField,
    rights: JsonField,
    downloadlinkstype: JsonField,
) -> (r: Result<QueryPredicates, Error>)
    ensures
        match predicates_of(
            seq![
                language@,
                author@,
                title@,
                subject@,
                publisher@,
                bookshelve@,
                rights@,
                downloadlinkstype@,
            ],
        ) {
            Some(predicates) => r is Ok && r->Ok_0@ == predicates,
            None => r is Err && r->Err_0.kind() == ErrorKind::InvalidQuery,
        },
{
    let ghost fields = seq![
        language@,
        author@,
        title@,
        subject@,
        publisher@,
        bookshelve@,
        rights@,
        downloadlinkstype@,
    ];
    assert(fields[0] == language@ && fields[1] == author@ && fields[2] == title@ && fields[3]
        == subject@ && fields[4] == publisher@ && fields[5] == bookshelve@ && fields[6] == rights@
        && fields[7] == downloadlinkstype@);
    let language = predicate_from_field(language)?;
    let author = predicate_from_field(author)?;
    let title = predicate_from_field(title)?;
    let subject = predicate_from_field(subject)?;
    let publisher = predicate_from_field(publisher)?;
    let bookshelve = predicate_from_field(bookshelve)?;
    let rights = predicate_from_field(rights)?;
    let downloadlinkstype = predicate_from_field(downloadlinkstype)?;
    Ok(
        QueryPredicates {
            language,
            author,
            title,
            subject,
            publisher,
            bookshelve,
            rights,
            downloadlinkstype,
        },
    )
}

/// What `json` says under the keys of the eight fields, in their order.
pub open spec fn query_fields(json: Value) -> Seq<JsonFieldView> {
    seq![
        json_field(json, QueryField::Language.spec_key()),
        json_field(json, QueryField::Author.spec_key()),
        json_field(json, QueryField::Title.spec_key()),
        json_field(json, QueryField::Subject.spec_key()),
        json_field(json, QueryField::Publisher.spec_key()),
        json_field(json, QueryField::Bookshelf.spec_key()),
        json_field(json, QueryField::Rights.spec_key()),
        json_field(json, QueryField::DownloadLinksType.spec_key()),
    ]
}

/// The predicates that a JSON object gives: one for each of the keys
/// `language`, `author`, `title`, `subject`, `publisher`, `bookshelve`,
/// `rights` and `downloadlinkstype` that it has. Fails with `InvalidQuery`
/// where the value under one of these keys is not a string.
pub fn predicates_from_json(json: &Value) -> (r: Result<QueryPredicates, Error>)
    ensures
        match predicates_of(query_fields(*json)) {
            Some(predicates) => r is Ok && r->Ok_0@ == predicates,
            None => r is Err && r->Err_0.kind() == ErrorKind::InvalidQuery,
        },
{
    predicates_from_fields(
        text_field(json, QueryField::Language.key()),
        text_field(json, QueryField::Author.key()),
        text_field(json, QueryField::Title.key()),
        text_field(json, QueryField::Subject.key()),
        text_field(json, QueryField::Publisher.key()),
        text_field(json, QueryField::Bookshelf.key()),
        text_field(json, QueryField::Rights.key()),
        text_field(json, QueryField::DownloadLinksType.key()),
    )
}

/// The statement that inserts a row, with a placeholder for each of the
/// values of the row, in the order in which the row names them.
pub open spec fn insert_text(row: CacheRowView) -> Seq<char> {
    match row {
        CacheRowView::Name { table, name } => {
            match table {
                LookupTable::Subjects => "INSERT OR IGNORE INTO subjects(name) VALUES (?)"@,
                LookupTable::Languages => "INSERT OR IGNORE INTO languages(name) VALUES (?)"@,
                LookupTable::Authors => "INSERT OR IGNORE INTO authors(name) VALUES (?)"@,
                LookupTable::Bookshelves => "INSERT OR IGNORE INTO bookshelves(name) VALUES (?)"@,
                LookupTable::Publishers => "INSERT OR IGNORE INTO publishers(name) VALUES (?)"@,
                LookupTable::Rights => "INSERT OR IGNORE INTO rights(name) VALUES (?)"@,
                LookupTable::DownloadLinksType => "INSERT OR IGNORE INTO downloadlinkstype(name) VALUES (?)"@,
            }
        },
        CacheRowView::Title { name, book } => "INSERT OR IGNORE INTO titles(name,bookid) VALUES (?,?)"@,
        CacheRowView::Link { join, field_id, book } => {
            match join {
                JoinTable::BookAuthors => "INSERT INTO book_authors(authorid,bookid) VALUES (?,?)"@,
                JoinTable::BookSubjects => "INSERT INTO book_subjects(subjectid,bookid) VALUES (?,?)"@,
                JoinTable::BookLanguages => "INSERT INTO book_languages(languageid,bookid) VALUES (?,?)"@,
                JoinTable::BookBookshelves => "INSERT INTO book_bookshelves(bookshelfid,bookid) VALUES (?,?)"@,
            }
        },
        CacheRowView::File { name, type_id, book } => "INSERT OR IGNORE INTO downloadlinks(name,downloadtypeid,bookid) VALUES (?,?,?)"@,
        CacheRowView::Book { publisher_id, rights_id, num_downloads, gutenberg_book_id } => "INSERT OR IGNORE INTO books(publisherid,rightsid,numdownloads,gutenbergbookid) VALUES (?,?,?,?)"@,
    }
}

impl CacheRow {
    /// The statement that inserts this row.
    pub fn statement(&self) -> (sql: &'static str)
        ensures
            sql@ == insert_text(self@),
    {
        match self {
            CacheRow::Name { table, name } => {
                match table {
                    LookupTable::Subjects => "INSERT OR IGNORE INTO subjects(name) VALUES (?)",
                    LookupTable::Languages => "INSERT OR IGNORE INTO languages(name) VALUES (?)",
                    LookupTable::Authors => "INSERT OR IGNORE INTO authors(name) VALUES (?)",
                    LookupTable::Bookshelves => "INSERT OR IGNORE INTO bookshelves(name) VALUES (?)",
                    LookupTable::Publishers => "INSERT OR IGNORE INTO publishers(name) VALUES (?)",
                    LookupTable::Rights => "INSERT OR IGNORE INTO rights(name) VALUES (?)",
                    LookupTable::DownloadLinksType => "INSERT OR IGNORE INTO downloadlinkstype(name) VALUES (?)",
                }
            },
            CacheRow::Title { name, book } => "INSERT OR IGNORE INTO titles(name,bookid) VALUES (?,?)",
            CacheRow::Link { join, field_id, book } => {
                match join {
                    JoinTable::BookAuthors => "INSERT INTO book_authors(authorid,bookid) VALUES (?,?)",
                    JoinTable::BookSubjects => "INSERT INTO book_subjects(subjectid,bookid) VALUES (?,?)",
                    JoinTable::BookLanguages => "INSERT INTO book_languages(languageid,bookid) VALUES (?,?)",
                    JoinTable::BookBookshelves => "INSERT INTO book_bookshelves(bookshelfid,bookid) VALUES (?,?)",
                }
            },
            CacheRow::File { name, type_id, book } => "INSERT OR IGNORE INTO downloadlinks(name,downloadtypeid,bookid) VALUES (?,?,?)",
            CacheRow::Book { publisher_id, rights_id, num_downloads, gutenberg_book_id } => "INSERT OR IGNORE INTO books(publisherid,rightsid,numdownloads,gutenbergbookid) VALUES (?,?,?,?)",
        }
    }
}

/// The statements that create the tables of an empty cache.
pub fn schema_sql() -> (sql: &'static str)
    ensures
        sql@ == "CREATE TABLE IF NOT EXISTS titles (id INTEGER PRIMARY KEY AUTOINCREMENT, name TEXT, bookid INTEGER); CREATE TABLE IF NOT EXISTS subjects (id INTEGER PRIMARY KEY AUTOINCREMENT, name TEXT UNIQUE); CREATE TABLE IF NOT EXISTS languages (id INTEGER PRIMARY KEY AUTOINCREMENT, name TEXT UNIQUE); CREATE TABLE IF NOT EXISTS authors (id INTEGER PRIMARY KEY AUTOINCREMENT, name TEXT UNIQUE); CREATE TABLE IF NOT EXISTS bookshelves (id INTEGER PRIMARY KEY AUTOINCREMENT, name TEXT UNIQUE); CREATE TABLE IF NOT EXISTS publishers (id INTEGER PRIMARY KEY AUTOINCREMENT, name TEXT UNIQUE); CREATE TABLE IF NOT EXISTS rights (id INTEGER PRIMARY KEY AUTOINCREMENT, name TEXT UNIQUE); CREATE TABLE IF NOT EXISTS downloadlinkstype (id INTEGER PRIMARY KEY AUTOINCREMENT, name TEXT UNIQUE); CREATE TABLE IF NOT EXISTS book_authors (authorid INTEGER, bookid INTEGER); CREATE TABLE IF NOT EXISTS book_subjects (subjectid INTEGER, bookid INTEGER); CREATE TABLE IF NOT EXISTS book_languages (languageid INTEGER, bookid INTEGER); CREATE TABLE IF NOT EXISTS book_bookshelves (bookshelfid INTEGER, bookid INTEGER); CREATE TABLE IF NOT EXISTS downloadlinks (id INTEGER PRIMARY KEY AUTOINCREMENT, name TEXT, downloadtypeid INTEGER, bookid INTEGER); CREATE TABLE IF NOT EXISTS books (id INTEGER PRIMARY KEY AUTOINCREMENT, publisherid INTEGER, rightsid INTEGER, numdownloads INTEGER, gutenbergbookid INTEGER);"@,
{
    "CREATE TABLE IF NOT EXISTS titles (id INTEGER PRIMARY KEY AUTOINCREMENT, name TEXT, bookid INTEGER); CREATE TABLE IF NOT EXISTS subjects (id INTEGER PRIMARY KEY AUTOINCREMENT, name TEXT UNIQUE); CREATE TABLE IF NOT EXISTS languages (id INTEGER PRIMARY KEY AUTOINCREMENT, name TEXT UNIQUE); CREATE TABLE IF NOT EXISTS authors (id INTEGER PRIMARY KEY AUTOINCREMENT, name TEXT UNIQUE); CREATE TABLE IF NOT EXISTS bookshelves (id INTEGER PRIMARY KEY AUTOINCREMENT, name TEXT UNIQUE); CREATE TABLE IF NOT EXISTS publishers (id INTEGER PRIMARY KEY AUTOINCREMENT, name TEXT UNIQUE); CREATE TABLE IF NOT EXISTS rights (id INTEGER PRIMARY KEY AUTOINCREMENT, name TEXT UNIQUE); CREATE TABLE IF NOT EXISTS downloadlinkstype (id INTEGER PRIMARY KEY AUTOINCREMENT, name TEXT UNIQUE); CREATE TABLE IF NOT EXISTS book_authors (authorid INTEGER, bookid INTEGER); CREATE TABLE IF NOT EXISTS book_subjects (subjectid INTEGER, bookid INTEGER); CREATE TABLE IF NOT EXISTS book_languages (languageid INTEGER, bookid INTEGER); CREATE TABLE IF NOT EXISTS book_bookshelves (bookshelfid INTEGER, bookid INTEGER); CREATE TABLE IF NOT EXISTS downloadlinks (id INTEGER PRIMARY KEY AUTOINCREMENT, name TEXT, downloadtypeid INTEGER, bookid INTEGER); CREATE TABLE IF NOT EXISTS books (id INTEGER PRIMARY KEY AUTOINCREMENT, publisherid INTEGER, rightsid INTEGER, numdownloads INTEGER, gutenbergbookid INTEGER);"
}

/// The statements that create the indices of a cache, once it is filled.
pub fn indices_sql() -> (sql: &'static str)
    ensures
        sql@ == "CREATE INDEX IF NOT EXISTS idx_titles_bookid ON titles(bookid); CREATE INDEX IF NOT EXISTS idx_downloadlinks_bookid ON downloadlinks(bookid); CREATE INDEX IF NOT EXISTS idx_books_gutenbergbookid ON books(gutenbergbookid); CREATE INDEX IF NOT EXISTS idx_book_authors_bookid ON book_authors(bookid); CREATE INDEX IF NOT EXISTS idx_book_authors_authorid ON book_authors(authorid); CREATE INDEX IF NOT EXISTS idx_book_subjects_bookid ON book_subjects(bookid); CREATE INDEX IF NOT EXISTS idx_book_subjects_subjectid ON book_subjects(subjectid); CREATE INDEX IF NOT EXISTS idx_book_languages_bookid ON book_languages(bookid); CREATE INDEX IF NOT EXISTS idx_book_languages_languageid ON book_languages(languageid); CREATE INDEX IF NOT EXISTS idx_book_bookshelves_bookid ON book_bookshelves(bookid); CREATE INDEX IF NOT EXISTS idx_book_bookshelves_bookshelfid ON book_bookshelves(bookshelfid);"@,
{
    "CREATE INDEX IF NOT EXISTS idx_titles_bookid ON titles(bookid); CREATE INDEX IF NOT EXISTS idx_downloadlinks_bookid ON downloadlinks(bookid); CREATE INDEX IF NOT EXISTS idx_books_gutenbergbookid ON books(gutenbergbookid); CREATE INDEX IF NOT EXISTS idx_book_authors_bookid ON book_authors(bookid); CREATE INDEX IF NOT EXISTS idx_book_authors_authorid ON book_authors(authorid); CREATE INDEX IF NOT EXISTS idx_book_subjects_bookid ON book_subjects(bookid); CREATE INDEX IF NOT EXISTS idx_book_subjects_subjectid ON book_subjects(subjectid); CREATE INDEX IF NOT EXISTS idx_book_languages_bookid ON book_languages(bookid); CREATE INDEX IF NOT EXISTS idx_book_languages_languageid ON book_languages(languageid); CREATE INDEX IF NOT EXISTS idx_book_bookshelves_bookid ON book_bookshelves(bookid); CREATE INDEX IF NOT EXISTS idx_book_bookshelves_bookshelfid ON book_bookshelves(bookshelfid);"
}

/// The statements that set a store up for being filled in one go by one
/// writer.
pub fn bulk_insert_sql() -> (sql: &'static str)
    ensures
        sql@ == "PRAGMA journal_mode = OFF;PRAGMA synchronous = 0;PRAGMA cache_size = 1000000;PRAGMA locking_mode = EXCLUSIVE;PRAGMA temp_store = MEMORY;"@,
{
    "PRAGMA journal_mode = OFF;PRAGMA synchronous = 0;PRAGMA cache_size = 1000000;PRAGMA locking_mode = EXCLUSIVE;PRAGMA temp_store = MEMORY;"
}

/// `n` placeholders with commas between them.
pub open spec fn placeholders(n: int) -> Seq<char>
    decreases n,
{
    if n <= 0 {
        Seq::empty()
    } else if n == 1 {
        "?"@
    } else {
        placeholders(n - 1) + ",?"@
    }
}

/// The statement that selects the links of the files of `n` works, given
/// by their catalog identifiers, among the files whose type is one of those
/// that hold the text of a book.
pub open spec fn download_links_text(n: int) -> Seq<char> {
    "SELECT downloadlinks.name FROM downloadlinks, books WHERE downloadlinks.bookid = books.id AND books.gutenbergbookid IN ("@ + placeholders(n) + ") AND downloadlinks.downloadtypeid IN (5, 6, 10,13,26,27,28,33,34,35,40,46,49,51)"@
}

/// The statement that selects the links of the files that hold the text of
/// one of `count` works, with a placeholder for the catalog identifier of
/// each work.
pub fn download_links_statement(count: usize) -> (sql: String)
    ensures
        sql@ == download_links_text(count as int),
{
    let mut sql = String::from_str("SELECT downloadlinks.name FROM downloadlinks, books WHERE downloadlinks.bookid = books.id AND books.gutenbergbookid IN (");
    let mut i: usize = 0;
    let ghost head = sql@;
    assert(sql@ =~= head + placeholders(0));
    while i < count
        invariant
            i <= count,
            head == "SELECT downloadlinks.name FROM downloadlinks, books WHERE downloadlinks.bookid = books.id AND books.gutenbergbookid IN ("@,
            sql@ == head + placeholders(i as int),
        decreases count - i,
    {
        if i == 0 {
            sql.append("?");
        } else {
            sql.append(",?");
        }
        assert(sql@ =~= head + placeholders(i + 1));
        i += 1;
    }
    sql.append(") AND downloadlinks.downloadtypeid IN (5, 6, 10,13,26,27,28,33,34,35,40,46,49,51)");
    sql
}

/// What to do with the store when a cache is asked for.
#[derive(Debug, Clone, Copy, PartialEq, Eq, Structural)]
pub enum CacheAction {
    /// The store on disk is opened as it is; nothing is inserted.
    OpenExisting,
    /// The store on disk is deleted, and a new one is made and filled.
    Recreate,
    /// A new store is made and filled.
    Create,
}

/// What to do with the store when a cache is asked for. A store in memory
/// is always new. A store on disk that exists is opened as it is, unless it
/// is to be made anew; a store is filled only when it is new.
pub fn cache_action(file_exists: bool, db_in_memory: bool, force_recreate: bool) -> (action:
    CacheAction)
    ensures
        action == if file_exists && !db_in_memory {
            if force_recreate {
                CacheAction::Recreate
            } else {
                CacheAction::OpenExisting
            }
        } else {
            CacheAction::Create
        },
{
    if file_exists && !db_in_memory {
        if force_recreate {
            CacheAction::Recreate
        } else {
            CacheAction::OpenExisting
        }
    } else {
        CacheAction::Create
    }
}

} // verus!
