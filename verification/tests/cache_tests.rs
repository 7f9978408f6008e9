use gutenberg_rs::book::{Book, GutenbergFileEntry};
use gutenberg_rs::fst_parser::ParseResult;
use gutenberg_rs::fst_parser_type::ParseType;
use gutenberg_rs::sqlite_cache::{
    bulk_insert_sql, cache_action, cache_rows, download_links_statement, indices_sql, schema_sql,
    CacheAction, CacheRow, JoinTable, LookupTable,
};
use gutenberg_rs::{setup_plan, SetupPlan};
use rusqlite::Connection;

fn name(table: LookupTable, value: &str) -> CacheRow {
    CacheRow::Name { table, name: value.to_string() }
}

fn link(join: JoinTable, field_id: usize, book: usize) -> CacheRow {
    CacheRow::Link { join, field_id, book }
}

fn small_corpus() -> ParseResult {
    let mut result = ParseResult::new();
    result.add_field(ParseType::Title, "First".to_string(), 1).unwrap();
    result.add_field(ParseType::Title, "Second".to_string(), 2).unwrap();
    result.add_field(ParseType::Title, "First".to_string(), 2).unwrap();
    result.add_field(ParseType::Subject, "History".to_string(), 1).unwrap();
    result.add_field(ParseType::Subject, "Poetry".to_string(), 2).unwrap();
    result.add_field(ParseType::Subject, "History".to_string(), 2).unwrap();
    result.add_field(ParseType::Language, "en".to_string(), 1).unwrap();
    result.add_field(ParseType::Language, "en".to_string(), 2).unwrap();
    result.add_field(ParseType::Author, "A".to_string(), 2).unwrap();
    result.add_field(ParseType::Bookshelf, "Shelf".to_string(), 1).unwrap();
    result.add_field(ParseType::Publisher, "Publisher".to_string(), 1).unwrap();
    result.add_field(ParseType::Rights, "Free".to_string(), 1).unwrap();
    result.add_field(ParseType::DateIssued, "2001-01-01".to_string(), 1).unwrap();
    result.add_field(ParseType::Downloads, "5".to_string(), 1).unwrap();
    result.add_field(ParseType::Files, "never stored".to_string(), 1).unwrap();
    result.add_file("http://x/1.txt".to_string(), 1).unwrap();
    result.add_file("http://x/2.txt".to_string(), 2).unwrap();
    result.add_file("http://x/2.html".to_string(), 2).unwrap();
    result.add_file_type("text/plain".to_string(), 1).unwrap();
    result.add_file_type("text/html".to_string(), 2).unwrap();
    result.books.push(Book {
        publisher_id: 1,
        title_id: 0,
        rights_id: 1,
        gutenberg_book_id: 100,
        date_issued: "2001-01-01".to_string(),
        num_downloads: 5,
        language_ids: vec![0],
        subject_ids: vec![0],
        author_ids: vec![],
        bookshelf_ids: vec![0],
        files: vec![GutenbergFileEntry { file_link_id: 0, file_type_id: 1 }],
    });
    result.books.push(Book {
        publisher_id: -1,
        title_id: 1,
        rights_id: -1,
        gutenberg_book_id: 200,
        date_issued: "".to_string(),
        num_downloads: 0,
        language_ids: vec![0],
        subject_ids: vec![1, 0],
        author_ids: vec![0],
        bookshelf_ids: vec![],
        files: vec![
            GutenbergFileEntry { file_link_id: 2, file_type_id: 2 },
            GutenbergFileEntry { file_link_id: 1, file_type_id: -1 },
            GutenbergFileEntry { file_link_id: 9, file_type_id: 1 },
            GutenbergFileEntry { file_link_id: -1, file_type_id: 1 },
        ],
    });
    result
}

#[test]
fn rows_come_in_the_order_lookups_joins_works() {
    let rows = cache_rows(&small_corpus());
    let expected = vec![
        CacheRow::Title { name: "First".to_string(), book: 1 },
        CacheRow::Title { name: "First".to_string(), book: 2 },
        CacheRow::Title { name: "Second".to_string(), book: 2 },
        name(LookupTable::Subjects, "History"),
        name(LookupTable::Subjects, "Poetry"),
        name(LookupTable::Languages, "en"),
        name(LookupTable::Authors, "A"),
        name(LookupTable::Bookshelves, "Shelf"),
        name(LookupTable::Publishers, "Publisher"),
        name(LookupTable::Rights, "Free"),
        name(LookupTable::DownloadLinksType, "text/plain"),
        name(LookupTable::DownloadLinksType, "text/html"),
        link(JoinTable::BookAuthors, 1, 2),
        link(JoinTable::BookSubjects, 1, 1),
        link(JoinTable::BookSubjects, 1, 2),
        link(JoinTable::BookSubjects, 2, 2),
        link(JoinTable::BookLanguages, 1, 1),
        link(JoinTable::BookLanguages, 1, 2),
        link(JoinTable::BookBookshelves, 1, 1),
        CacheRow::File { name: "http://x/1.txt".to_string(), type_id: 1, book: 1 },
        CacheRow::Book { publisher_id: 1, rights_id: 1, num_downloads: 5, gutenberg_book_id: 100 },
        CacheRow::File { name: "http://x/2.html".to_string(), type_id: 2, book: 2 },
        CacheRow::File { name: "http://x/2.txt".to_string(), type_id: -1, book: 2 },
        CacheRow::File { name: "".to_string(), type_id: 1, book: 2 },
        CacheRow::File { name: "".to_string(), type_id: 1, book: 2 },
        CacheRow::Book { publisher_id: -1, rights_id: -1, num_downloads: 0, gutenberg_book_id: 200 },
    ];
    assert_eq!(rows, expected);
}

#[test]
fn empty_corpus_gives_no_rows() {
    assert!(cache_rows(&ParseResult::new()).is_empty());
    assert!(cache_rows(&ParseResult {
        books: vec![],
        field_dictionaries: vec![],
        files_dictionary: Default::default(),
        file_types_dictionary: Default::default(),
    })
    .is_empty());
}

#[test]
fn every_row_has_its_statement() {
    let cases = vec![
        (CacheRow::Title { name: "T".to_string(), book: 1 }, "INSERT OR IGNORE INTO titles(name,bookid) VALUES (?,?)"),
        (name(LookupTable::Subjects, "x"), "INSERT OR IGNORE INTO subjects(name) VALUES (?)"),
        (name(LookupTable::Languages, "x"), "INSERT OR IGNORE INTO languages(name) VALUES (?)"),
        (name(LookupTable::Authors, "x"), "INSERT OR IGNORE INTO authors(name) VALUES (?)"),
        (name(LookupTable::Bookshelves, "x"), "INSERT OR IGNORE INTO bookshelves(name) VALUES (?)"),
        (name(LookupTable::Publishers, "x"), "INSERT OR IGNORE INTO publishers(name) VALUES (?)"),
        (name(LookupTable::Rights, "x"), "INSERT OR IGNORE INTO rights(name) VALUES (?)"),
        (name(LookupTable::DownloadLinksType, "x"), "INSERT OR IGNORE INTO downloadlinkstype(name) VALUES (?)"),
        (link(JoinTable::BookAuthors, 1, 1), "INSERT INTO book_authors(authorid,bookid) VALUES (?,?)"),
        (link(JoinTable::BookSubjects, 1, 1), "INSERT INTO book_subjects(subjectid,bookid) VALUES (?,?)"),
        (link(JoinTable::BookLanguages, 1, 1), "INSERT INTO book_languages(languageid,bookid) VALUES (?,?)"),
        (link(JoinTable::BookBookshelves, 1, 1), "INSERT INTO book_bookshelves(bookshelfid,bookid) VALUES (?,?)"),
        (
            CacheRow::File { name: "l".to_string(), type_id: 1, book: 1 },
            "INSERT OR IGNORE INTO downloadlinks(name,downloadtypeid,bookid) VALUES (?,?,?)",
        ),
        (
            CacheRow::Book { publisher_id: 1, rights_id: 1, num_downloads: 0, gutenberg_book_id: 1 },
            "INSERT OR IGNORE INTO books(publisherid,rightsid,numdownloads,gutenbergbookid) VALUES (?,?,?,?)",
        ),
    ];
    for (row, sql) in cases {
        assert_eq!(row.statement(), sql);
    }
}

#[test]
fn statements_run_on_a_fresh_store() {
    let connection = Connection::open_in_memory().unwrap();
    connection.execute_batch(schema_sql()).unwrap();
    connection.execute_batch(schema_sql()).unwrap();
    for row in cache_rows(&small_corpus()) {
        let mut statement = connection.prepare(row.statement()).unwrap();
        match &row {
            CacheRow::Name { name, .. } => statement.execute((name,)).unwrap(),
            CacheRow::Title { name, book } => statement.execute((name, *book as i64)).unwrap(),
            CacheRow::Link { field_id, book, .. } => {
                statement.execute((*field_id as i64, *book as i64)).unwrap()
            }
            CacheRow::File { name, type_id, book } => {
                statement.execute((name, *type_id, *book as i64)).unwrap()
            }
            CacheRow::Book { publisher_id, rights_id, num_downloads, gutenberg_book_id } => statement
                .execute((*publisher_id, *rights_id, *num_downloads, *gutenberg_book_id as i64))
                .unwrap(),
        };
    }
    connection.execute_batch(indices_sql()).unwrap();
    let count = |table: &str| -> i64 {
        connection.query_row(&format!("SELECT COUNT(*) FROM {}", table), (), |row| row.get(0)).unwrap()
    };
    assert_eq!(count("titles"), 3);
    assert_eq!(count("subjects"), 2);
    assert_eq!(count("book_subjects"), 3);
    assert_eq!(count("downloadlinks"), 5);
    assert_eq!(count("books"), 2);
    let key: i64 = connection
        .query_row("SELECT id FROM subjects WHERE name = 'Poetry'", (), |row| row.get(0))
        .unwrap();
    assert_eq!(key, 2);
    let of_second: Vec<String> = {
        let mut statement = connection
            .prepare("SELECT name FROM downloadlinks WHERE bookid = 2 ORDER BY id")
            .unwrap();
        let rows = statement.query_map((), |row| row.get(0)).unwrap();
        rows.map(|r| r.unwrap()).collect()
    };
    assert_eq!(of_second, vec!["http://x/2.html", "http://x/2.txt", "", ""]);
    let links_sql = download_links_statement(2);
    let mut statement = connection.prepare(&links_sql).unwrap();
    let found: Vec<String> =
        statement.query_map((100, 200), |row| row.get(0)).unwrap().map(|r| r.unwrap()).collect();
    assert!(found.is_empty());
}

#[test]
fn bulk_insert_settings_are_accepted() {
    let connection = Connection::open_in_memory().unwrap();
    connection.execute_batch(bulk_insert_sql()).unwrap();
    assert!(bulk_insert_sql().starts_with("PRAGMA journal_mode = OFF;"));
}

#[test]
fn download_links_statement_has_a_placeholder_for_each_work() {
    let head = "SELECT downloadlinks.name FROM downloadlinks, books WHERE downloadlinks.bookid = books.id AND books.gutenbergbookid IN (";
    let tail = ") AND downloadlinks.downloadtypeid IN (5, 6, 10,13,26,27,28,33,34,35,40,46,49,51)";
    assert_eq!(download_links_statement(0), format!("{}{}", head, tail));
    assert_eq!(download_links_statement(1), format!("{}?{}", head, tail));
    assert_eq!(download_links_statement(3), format!("{}?,?,?{}", head, tail));
}

#[test]
fn a_store_is_filled_only_when_it_is_new() {
    assert_eq!(cache_action(true, false, false), CacheAction::OpenExisting);
    assert_eq!(cache_action(true, false, true), CacheAction::Recreate);
    assert_eq!(cache_action(false, false, false), CacheAction::Create);
    assert_eq!(cache_action(false, false, true), CacheAction::Create);
    assert_eq!(cache_action(true, true, false), CacheAction::Create);
    assert_eq!(cache_action(true, true, true), CacheAction::Create);
    assert_eq!(cache_action(false, true, false), CacheAction::Create);
    assert_eq!(cache_action(false, true, true), CacheAction::Create);
}

#[test]
fn setup_fetches_and_unpacks_what_is_missing() {
    let all = SetupPlan { remove_archive: false, download: true, remove_unpacked: false, unpack: true };
    assert_eq!(setup_plan(false, false, false), all);
    assert_eq!(setup_plan(false, false, true), all);
    assert_eq!(
        setup_plan(true, true, false),
        SetupPlan { remove_archive: false, download: false, remove_unpacked: false, unpack: false }
    );
    assert_eq!(
        setup_plan(true, true, true),
        SetupPlan { remove_archive: true, download: true, remove_unpacked: true, unpack: true }
    );
    assert_eq!(
        setup_plan(true, false, false),
        SetupPlan { remove_archive: false, download: false, remove_unpacked: false, unpack: true }
    );
    assert_eq!(
        setup_plan(false, true, false),
        SetupPlan { remove_archive: false, download: true, remove_unpacked: false, unpack: false }
    );
}
