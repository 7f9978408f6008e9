use gutenberg_rs::error::{Error, ErrorKind};
use gutenberg_rs::json::{text_field, JsonField};
use gutenberg_rs::sqlite_cache::{
    predicate_from_field, predicates_from_fields, predicates_from_json, query_statement, Query,
    QueryField, QueryPredicates,
};
use serde_json::Value;

fn json_object(pairs: Vec<(&str, Value)>) -> Value {
    let mut map = serde_json::Map::new();
    for (key, value) in pairs {
        map.insert(key.to_string(), value);
    }
    Value::Object(map)
}

fn string(value: &str) -> Value {
    Value::String(value.to_string())
}

const HEAD: &str = "SELECT DISTINCT books.gutenbergbookid FROM books";

#[test]
fn no_predicate_selects_every_work() {
    let query = query_statement(&QueryPredicates::new());
    assert_eq!(query, Query { sql: HEAD.to_string(), params: vec![] });
}

#[test]
fn one_predicate_joins_its_tables_only() {
    let mut predicates = QueryPredicates::new();
    predicates.language = Some("en".to_string());
    let query = query_statement(&predicates);
    assert_eq!(
        query.sql,
        "SELECT DISTINCT books.gutenbergbookid FROM books,languages,book_languages WHERE languages.id = book_languages.languageid AND books.id = book_languages.bookid AND languages.name IN (?)"
    );
    assert_eq!(query.params, vec!["en"]);
}

#[test]
fn predicates_are_joined_with_and_in_the_order_of_the_fields() {
    let mut predicates = QueryPredicates::new();
    predicates.rights = Some("Free; DROP TABLE books".to_string());
    predicates.author = Some("X".to_string());
    predicates.title = Some("\"T\"".to_string());
    let query = query_statement(&predicates);
    assert_eq!(
        query.sql,
        "SELECT DISTINCT books.gutenbergbookid FROM books,authors,book_authors,titles,rights WHERE authors.id = book_authors.authorid AND books.id = book_authors.bookid AND authors.name IN (?) AND titles.bookid = books.id AND titles.name IN (?) AND rights.id = books.rightsid AND rights.name IN (?)"
    );
    assert_eq!(query.params, vec!["X", "\"T\"", "Free; DROP TABLE books"]);
    assert_eq!(
        predicates.present(),
        vec![
            (QueryField::Author, "X".to_string()),
            (QueryField::Title, "\"T\"".to_string()),
            (QueryField::Rights, "Free; DROP TABLE books".to_string()),
        ]
    );
}

#[test]
fn every_field_has_its_tables_and_its_condition() {
    let cases = vec![
        (QueryField::Language, "language", "languages,book_languages", "languages.id = book_languages.languageid AND books.id = book_languages.bookid AND languages.name IN (?)"),
        (QueryField::Author, "author", "authors,book_authors", "authors.id = book_authors.authorid AND books.id = book_authors.bookid AND authors.name IN (?)"),
        (QueryField::Title, "title", "titles", "titles.bookid = books.id AND titles.name IN (?)"),
        (QueryField::Subject, "subject", "subjects,book_subjects", "subjects.id = book_subjects.subjectid AND books.id = book_subjects.bookid AND subjects.name IN (?)"),
        (QueryField::Publisher, "publisher", "publishers", "publishers.id = books.publisherid AND publishers.name IN (?)"),
        (QueryField::Bookshelf, "bookshelve", "bookshelves,book_bookshelves", "bookshelves.id = book_bookshelves.bookshelfid AND books.id = book_bookshelves.bookid AND bookshelves.name IN (?)"),
        (QueryField::Rights, "rights", "rights", "rights.id = books.rightsid AND rights.name IN (?)"),
        (QueryField::DownloadLinksType, "downloadlinkstype", "downloadlinks,downloadlinkstype", "downloadlinks.downloadtypeid = downloadlinkstype.id AND downloadlinks.bookid = books.id AND downloadlinkstype.name IN (?)"),
    ];
    let mut all = QueryPredicates::new();
    all.language = Some("1".to_string());
    all.author = Some("2".to_string());
    all.title = Some("3".to_string());
    all.subject = Some("4".to_string());
    all.publisher = Some("5".to_string());
    all.bookshelve = Some("6".to_string());
    all.rights = Some("7".to_string());
    all.downloadlinkstype = Some("8".to_string());
    let mut tables = String::new();
    let mut conditions = Vec::new();
    for (field, key, field_tables, condition) in cases {
        assert_eq!(field.key(), key);
        assert_eq!(field.tables(), field_tables);
        assert_eq!(field.condition(), condition);
        tables.push(',');
        tables.push_str(field_tables);
        conditions.push(condition);
    }
    let query = query_statement(&all);
    assert_eq!(query.sql, format!("{}{} WHERE {}", HEAD, tables, conditions.join(" AND ")));
    assert_eq!(query.params, vec!["1", "2", "3", "4", "5", "6", "7", "8"]);
}

#[test]
fn json_gives_the_predicates_under_the_known_names() {
    let json = json_object(vec![
        ("language", string("en")),
        ("bookshelve", string("IT Poesia")),
        ("unknown", Value::Bool(true)),
        ("downloadlinkstype", string("image/jpeg")),
    ]);
    let predicates = predicates_from_json(&json).unwrap();
    let mut expected = QueryPredicates::new();
    expected.language = Some("en".to_string());
    expected.bookshelve = Some("IT Poesia".to_string());
    expected.downloadlinkstype = Some("image/jpeg".to_string());
    assert_eq!(predicates, expected);
    assert_eq!(predicates_from_json(&json_object(vec![])).unwrap(), QueryPredicates::new());
    assert_eq!(predicates_from_json(&Value::Null).unwrap(), QueryPredicates::new());
    assert_eq!(predicates_from_json(&string("language")).unwrap(), QueryPredicates::new());
}

#[test]
fn a_predicate_that_is_no_string_is_refused() {
    for key in ["language", "author", "title", "subject", "publisher", "bookshelve", "rights", "downloadlinkstype"] {
        for value in [Value::Bool(true), Value::Null, Value::Array(vec![string("en")]), Value::Number(3.into())] {
            let json = json_object(vec![("language", string("en")), (key, value)]);
            match predicates_from_json(&json) {
                Err(e) => {
                    assert!(matches!(e, Error::InvalidQuery(_)));
                    assert_eq!(e.error_kind(), ErrorKind::InvalidQuery);
                }
                Ok(p) => panic!("{:?} was taken as {:?}", json, p),
            }
        }
    }
}

#[test]
fn fields_give_predicates() {
    assert_eq!(predicate_from_field(JsonField::Absent).unwrap(), None);
    assert_eq!(predicate_from_field(JsonField::Text("x".to_string())).unwrap(), Some("x".to_string()));
    assert!(matches!(predicate_from_field(JsonField::NotText), Err(Error::InvalidQuery(_))));
    let taken = predicates_from_fields(
        JsonField::Absent,
        JsonField::Text("a".to_string()),
        JsonField::Absent,
        JsonField::Text("s".to_string()),
        JsonField::Absent,
        JsonField::Absent,
        JsonField::Absent,
        JsonField::Text("".to_string()),
    )
    .unwrap();
    let mut expected = QueryPredicates::new();
    expected.author = Some("a".to_string());
    expected.subject = Some("s".to_string());
    expected.downloadlinkstype = Some("".to_string());
    assert_eq!(taken, expected);
    let refused = predicates_from_fields(
        JsonField::Absent,
        JsonField::Absent,
        JsonField::Absent,
        JsonField::Absent,
        JsonField::Absent,
        JsonField::Absent,
        JsonField::NotText,
        JsonField::Text("x".to_string()),
    );
    assert!(matches!(refused, Err(Error::InvalidQuery(_))));
}

#[test]
fn text_field_tells_absent_from_not_text() {
    let json = json_object(vec![
        ("a", string("text")),
        ("b", Value::Number(1.into())),
        ("c", Value::Null),
        ("d", json_object(vec![("a", string("inner"))])),
    ]);
    assert_eq!(text_field(&json, "a"), JsonField::Text("text".to_string()));
    assert_eq!(text_field(&json, "b"), JsonField::NotText);
    assert_eq!(text_field(&json, "c"), JsonField::NotText);
    assert_eq!(text_field(&json, "d"), JsonField::NotText);
    assert_eq!(text_field(&json, "e"), JsonField::Absent);
    assert_eq!(text_field(&json, "A"), JsonField::Absent);
    assert_eq!(text_field(&Value::Array(vec![string("a")]), "a"), JsonField::Absent);
}
