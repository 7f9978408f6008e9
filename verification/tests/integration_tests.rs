use gutenberg_rs::fst_parser::ParseResult;
use gutenberg_rs::fst_parser_type::ParseType;
use gutenberg_rs::rdf_parser::parse_rdfs_from_content;
use gutenberg_rs::settings::GutenbergCacheSettings;
use gutenberg_rs::sqlite_cache::{
    cache_rows, indices_sql, predicates_from_json, query_statement, schema_sql, CacheRow,
};
use rusqlite::Connection;
use serde_json::Value;
use std::collections::HashSet;

pub struct BookTitleAuthor {
    pub title: String,
    pub author: String,
}

pub struct CheckTitleAuthor {
    pub title: String,
    pub author: String,
    pub gutenberg_id: i32,
}

fn file_block(id: usize, suffix: &str, file_type: &str) -> String {
    format!(
        r#"
    <dcterms:hasFormat>
      <pgterms:file rdf:about="https://www.gutenberg.org/ebooks/{id}{suffix}">
        <dcterms:isFormatOf rdf:resource="ebooks/{id}"/>
        <dcterms:extent rdf:datatype="http://www.w3.org/2001/XMLSchema#integer">4096</dcterms:extent>
        <dcterms:format>
          <rdf:Description rdf:nodeID="N{id}">
            <dcam:memberOf rdf:resource="http://purl.org/dc/terms/IMT"/>
            <rdf:value rdf:datatype="http://purl.org/dc/terms/IMT">{file_type}</rdf:value>
          </rdf:Description>
        </dcterms:format>
        <dcterms:modified rdf:datatype="http://www.w3.org/2001/XMLSchema#dateTime">2023-01-01T00:00:00</dcterms:modified>
      </pgterms:file>
    </dcterms:hasFormat>"#
    )
}

fn valued(tag: &str, value: &str) -> String {
    format!(
        r#"
    <{tag}>
      <rdf:Description rdf:nodeID="Nv">
        <rdf:value rdf:datatype="http://purl.org/dc/terms/RFC4646">{value}</rdf:value>
      </rdf:Description>
    </{tag}>"#
    )
}

fn sample_document(
    id: usize,
    title: Option<&str>,
    author: Option<&str>,
    language: &str,
    bookshelf: Option<&str>,
    files: &[(&str, &str)],
) -> String {
    let mut body = String::new();
    body.push_str("\n    <dcterms:publisher>Project Gutenberg</dcterms:publisher>");
    body.push_str("\n    <dcterms:license rdf:resource=\"license\"/>");
    body.push_str("\n    <dcterms:issued rdf:datatype=\"http://www.w3.org/2001/XMLSchema#date\">1971-12-01</dcterms:issued>");
    body.push_str("\n    <dcterms:rights>Public domain in the USA.</dcterms:rights>");
    body.push_str(&format!(
        "\n    <pgterms:downloads rdf:datatype=\"http://www.w3.org/2001/XMLSchema#integer\">{}</pgterms:downloads>",
        id + 7
    ));
    if let Some(name) = author {
        body.push_str(&format!(
            r#"
    <dcterms:creator>
      <pgterms:agent rdf:about="2009/agents/{id}">
        <pgterms:name>{name}</pgterms:name>
        <pgterms:birthdate rdf:datatype="http://www.w3.org/2001/XMLSchema#integer">1743</pgterms:birthdate>
        <pgterms:webpage rdf:resource="https://en.wikipedia.org/wiki/Somebody"/>
      </pgterms:agent>
    </dcterms:creator>"#
        ));
    }
    if let Some(text) = title {
        body.push_str(&format!("\n    <dcterms:title>{text}</dcterms:title>"));
    }
    body.push_str(&valued("dcterms:language", language));
    body.push_str(&valued("dcterms:subject", "History"));
    if let Some(shelf) = bookshelf {
        body.push_str(&valued("pgterms:bookshelf", shelf));
    }
    for (suffix, file_type) in files {
        body.push_str(&file_block(id, suffix, file_type));
    }
    format!(
        r#"<?xml version="1.0" encoding="utf-8"?>
<rdf:RDF xml:base="http://www.gutenberg.org/"
  xmlns:dcterms="http://purl.org/dc/terms/"
  xmlns:pgterms="http://www.gutenberg.org/2009/pgterms/"
  xmlns:rdf="http://www.w3.org/1999/02/22-rdf-syntax-ns#"
  xmlns:dcam="http://purl.org/dc/dcam/">
  <pgterms:ebook rdf:about="ebooks/{id}">{body}
  </pgterms:ebook>
  <cc:Work rdf:about="">
    <cc:license rdf:resource="https://creativecommons.org/publicdomain/zero/1.0/"/>
  </cc:Work>
</rdf:RDF>
"#
    )
}

fn sample_documents() -> Vec<String> {
    let text = (".txt.utf-8", "text/plain; charset=utf-8");
    let html = (".html.images", "text/html");
    let epub = (".epub3.images", "application/epub+zip");
    let cover = (".cover.medium.jpg", "image/jpeg");
    let rdf = (".rdf", "application/rdf+xml");
    vec![
        sample_document(
            1,
            Some("The Declaration of Independence of the United States of America"),
            Some("Jefferson, Thomas"),
            "en",
            Some("Politics"),
            &[text, html, epub, cover, rdf],
        ),
        sample_document(
            25,
            Some("The 1991 CIA World Factbook"),
            Some("United States. Central Intelligence Agency"),
            "en",
            Some("CIA World Factbooks"),
            &[text, html, cover],
        ),
        sample_document(
            732,
            Some("History of the Decline and Fall of the Roman Empire — Volume 2"),
            Some("Gibbon, Edward"),
            "en",
            None,
            &[text, cover, rdf],
        ),
        sample_document(
            1000,
            Some("La Divina Commedia di Dante: Complete"),
            Some("Dante Alighieri"),
            "it",
            Some("IT Poesia"),
            &[text, html],
        ),
        sample_document(90907, None, None, "en", None, &[text]),
        sample_document(
            41418,
            Some("Contraband; Or, A Losing Hazard"),
            Some("Whyte-Melville, G. J. (George John)"),
            "en",
            None,
            &[text, epub, cover],
        ),
    ]
}

fn build_cache(parse_results: &ParseResult, settings: &GutenbergCacheSettings) -> Connection {
    assert!(settings.db_in_memory);
    let connection = Connection::open_in_memory().unwrap();
    connection.execute_batch(schema_sql()).unwrap();
    for row in cache_rows(parse_results) {
        let sql = row.statement();
        match &row {
            CacheRow::Name { name, .. } => connection.execute(sql, (name,)).unwrap(),
            CacheRow::Title { name, book } => connection.execute(sql, (name, *book as i64)).unwrap(),
            CacheRow::Link { field_id, book, .. } => {
                connection.execute(sql, (*field_id as i64, *book as i64)).unwrap()
            }
            CacheRow::File { name, type_id, book } => {
                connection.execute(sql, (name, *type_id, *book as i64)).unwrap()
            }
            CacheRow::Book { publisher_id, rights_id, num_downloads, gutenberg_book_id } => connection
                .execute(sql, (*publisher_id, *rights_id, *num_downloads, *gutenberg_book_id as i64))
                .unwrap(),
        };
    }
    connection.execute_batch(indices_sql()).unwrap();
    connection
}

fn run_query(connection: &Connection, json: &Value) -> Vec<i32> {
    let predicates = match predicates_from_json(json) {
        Ok(p) => p,
        Err(e) => panic!("error {}", e.to_string()),
    };
    let query = query_statement(&predicates);
    let mut statement = connection.prepare(&query.sql).unwrap();
    let mut rows = statement.query(rusqlite::params_from_iter(query.params.iter())).unwrap();
    let mut results = Vec::new();
    while let Some(row) = rows.next().unwrap() {
        results.push(row.get(0).unwrap());
    }
    results
}

fn object(pairs: &[(&str, &str)]) -> Value {
    let mut map = serde_json::Map::new();
    for (key, value) in pairs {
        map.insert(key.to_string(), Value::String(value.to_string()));
    }
    Value::Object(map)
}

fn check_title_author_book_id(cache: &Connection, author: &str, title: &str, gutenberg_book_id: i32) {
    let result = cache.query_row(
        "SELECT titles.name, authors.name
    FROM titles, authors, book_authors, books
    WHERE titles.bookid = books.id AND authors.id = book_authors.authorid AND books.id = book_authors.bookid
    AND gutenbergbookid = ?1",
        (gutenberg_book_id,),
        |row| Ok(BookTitleAuthor { title: row.get(0)?, author: row.get(1)? }),
    );
    match result {
        Ok(x) => {
            assert_eq!(x.title, title);
            assert_eq!(x.author, author);
        }
        Err(e) => {
            println!("sqlite error: {}", e.to_string());
            assert!(false);
        }
    }
}

#[test]
fn test_parse_authors_titles() {
    let documents = sample_documents();
    let check_author_titles = vec![
        CheckTitleAuthor {
            author: "Jefferson, Thomas".to_string(),
            title: "The Declaration of Independence of the United States of America".to_string(),
            gutenberg_id: 1,
        },
        CheckTitleAuthor {
            author: "United States. Central Intelligence Agency".to_string(),
            title: "The 1991 CIA World Factbook".to_string(),
            gutenberg_id: 25,
        },
        CheckTitleAuthor {
            author: "Gibbon, Edward".to_string(),
            title: "History of the Decline and Fall of the Roman Empire — Volume 2".to_string(),
            gutenberg_id: 732,
        },
        CheckTitleAuthor {
            author: "Dante Alighieri".to_string(),
            title: "La Divina Commedia di Dante: Complete".to_string(),
            gutenberg_id: 1000,
        },
        CheckTitleAuthor { author: "".to_string(), title: "".to_string(), gutenberg_id: 90907 },
        CheckTitleAuthor {
            author: "Whyte-Melville, G. J. (George John)".to_string(),
            title: "Contraband; Or, A Losing Hazard".to_string(),
            gutenberg_id: 41418,
        },
    ];

    let parsing_results: ParseResult = parse_rdfs_from_content(&documents, false).unwrap();
    assert_eq!(parsing_results.books.len(), documents.len());
    assert_eq!(parsing_results.field_dictionaries.len(), 10);
    assert_eq!(parsing_results.files_dictionary.len(), 17);
    assert_eq!(parsing_results.file_types_dictionary.len(), 5);
    let mut settings = GutenbergCacheSettings::default();
    settings.db_in_memory = true;

    let cache = build_cache(&parsing_results, &settings);

    let authors = &parsing_results.field_dictionaries[ParseType::Author.index()];
    let titles = &parsing_results.field_dictionaries[ParseType::Title.index()];

    assert_ne!(authors.len(), 0);
    assert_eq!(parsing_results.books[0].author_ids.len(), 1);
    assert_eq!(parsing_results.books[1].author_ids.len(), 1);
    assert_eq!(parsing_results.books[2].author_ids.len(), 1);
    assert_eq!(parsing_results.books[3].author_ids.len(), 1);
    assert_eq!(parsing_results.books[4].author_ids.len(), 0);
    assert_eq!(parsing_results.books[5].author_ids.len(), 1);
    for i in 0..6 {
        assert_eq!(parsing_results.books[i].gutenberg_book_id as i32, check_author_titles[i].gutenberg_id);
        if i == 4 {
            continue;
        }
        match authors.get_index(parsing_results.books[i].author_ids[0]) {
            Some(x) => assert_eq!(x.0, &check_author_titles[i].author),
            None => assert!(false),
        }
        match titles.get_index(parsing_results.books[i].title_id as usize) {
            Some(x) => assert_eq!(x.0, &check_author_titles[i].title),
            None => assert!(false),
        }
        check_title_author_book_id(
            &cache,
            check_author_titles[i].author.as_str(),
            check_author_titles[i].title.as_str(),
            check_author_titles[i].gutenberg_id,
        );
    }
}

fn compare_query_results(x: &Connection, json: &Value, expected: Vec<i32>) {
    let found = run_query(x, json);
    assert_eq!(found.len(), found.iter().copied().collect::<HashSet<i32>>().len());
    let set1: HashSet<i32> = found.iter().copied().collect();
    let set2: HashSet<i32> = expected.into_iter().collect();
    assert_eq!(set1, set2);
}

#[test]
fn test_query() {
    let documents = sample_documents();
    let mut settings = GutenbergCacheSettings::default();
    settings.db_in_memory = true;
    let parsing_results: ParseResult = parse_rdfs_from_content(&documents, false).unwrap();
    let x = build_cache(&parsing_results, &settings);
    compare_query_results(&x, &object(&[("language", "en")]), vec![41418, 25, 732, 90907, 1]);
    compare_query_results(
        &x,
        &object(&[("language", "en"), ("author", "Jefferson, Thomas")]),
        vec![1],
    );
    compare_query_results(
        &x,
        &object(&[("language", "en"), ("rights", "Public domain in the USA.")]),
        vec![90907, 732, 41418, 1, 25],
    );
    compare_query_results(
        &x,
        &object(&[("language", "en"), ("downloadlinkstype", "image/jpeg")]),
        vec![732, 1, 41418, 25],
    );
    compare_query_results(&x, &object(&[("language", "en"), ("bookshelve", "IT Poesia")]), vec![]);
    compare_query_results(
        &x,
        &object(&[("language", "it"), ("bookshelve", "IT Poesia")]),
        vec![1000],
    );
}

#[test]
fn empty_query_returns_every_catalog_id_once() {
    let documents = sample_documents();
    let parsing_results: ParseResult = parse_rdfs_from_content(&documents, false).unwrap();
    let mut settings = GutenbergCacheSettings::default();
    settings.db_in_memory = true;
    let cache = build_cache(&parsing_results, &settings);
    let mut found = run_query(&cache, &Value::Object(serde_json::Map::new()));
    found.sort();
    assert_eq!(found, vec![1, 25, 732, 1000, 41418, 90907]);
}

#[test]
fn query_conjunction_is_intersection() {
    let documents = sample_documents();
    let parsing_results: ParseResult = parse_rdfs_from_content(&documents, false).unwrap();
    let mut settings = GutenbergCacheSettings::default();
    settings.db_in_memory = true;
    let cache = build_cache(&parsing_results, &settings);
    let both: HashSet<i32> =
        run_query(&cache, &object(&[("language", "en"), ("author", "Gibbon, Edward")]))
            .into_iter()
            .collect();
    let language: HashSet<i32> =
        run_query(&cache, &object(&[("language", "en")])).into_iter().collect();
    let author: HashSet<i32> =
        run_query(&cache, &object(&[("author", "Gibbon, Edward")])).into_iter().collect();
    let expected: HashSet<i32> = language.intersection(&author).copied().collect();
    assert_eq!(both, expected);
    assert_eq!(both, vec![732].into_iter().collect::<HashSet<i32>>());
}

#[test]
fn corpus_read_is_consistent() {
    let documents = sample_documents();
    let result: ParseResult = parse_rdfs_from_content(&documents, false).unwrap();
    let works = documents.len();
    assert_eq!(result.books.len(), works);
    let mut dictionaries: Vec<&indexmap::IndexMap<String, gutenberg_rs::fst_parser::DictionaryItemContent>> =
        result.field_dictionaries.iter().collect();
    dictionaries.push(&result.files_dictionary);
    dictionaries.push(&result.file_types_dictionary);
    for dictionary in dictionaries {
        let keys: HashSet<&String> = dictionary.keys().collect();
        assert_eq!(keys.len(), dictionary.len());
        for content in dictionary.values() {
            assert!(!content.book_links.is_empty());
            assert!(content.book_links.iter().all(|link| 1 <= *link && *link <= works));
        }
    }
    let len = |kind: ParseType| result.field_dictionaries[kind.index()].len();
    for book in &result.books {
        assert!(book.publisher_id == -1 || (1 <= book.publisher_id && book.publisher_id as usize <= len(ParseType::Publisher)));
        assert!(book.rights_id == -1 || (1 <= book.rights_id && book.rights_id as usize <= len(ParseType::Rights)));
        assert!(book.title_id == -1 || (0 <= book.title_id && (book.title_id as usize) < len(ParseType::Title)));
        assert!(book.language_ids.iter().all(|id| *id < len(ParseType::Language)));
        assert!(book.subject_ids.iter().all(|id| *id < len(ParseType::Subject)));
        assert!(book.author_ids.iter().all(|id| *id < len(ParseType::Author)));
        assert!(book.bookshelf_ids.iter().all(|id| *id < len(ParseType::Bookshelf)));
        for file in &book.files {
            assert!(0 <= file.file_link_id && (file.file_link_id as usize) < result.files_dictionary.len());
            assert!(1 <= file.file_type_id && file.file_type_id as usize <= result.file_types_dictionary.len());
        }
    }
    let downloads: Vec<i32> = result.books.iter().map(|b| b.num_downloads).collect();
    assert_eq!(downloads, vec![8, 32, 739, 1007, 90914, 41425]);
    assert!(result.books.iter().all(|b| b.date_issued == "1971-12-01"));
    let first_files: Vec<String> = result.books[0]
        .files
        .iter()
        .map(|f| result.files_dictionary.get_index(f.file_link_id as usize).unwrap().0.clone())
        .collect();
    assert_eq!(
        first_files,
        vec![
            "https://www.gutenberg.org/ebooks/1.txt.utf-8",
            "https://www.gutenberg.org/ebooks/1.html.images",
            "https://www.gutenberg.org/ebooks/1.epub3.images",
            "https://www.gutenberg.org/ebooks/1.cover.medium.jpg",
            "https://www.gutenberg.org/ebooks/1.rdf",
        ]
    );
}
