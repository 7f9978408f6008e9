use gutenberg_rs::error::Error;
use gutenberg_rs::fst_parser::{DictionaryItemContent, ParseItemResult, ParseResult};
use gutenberg_rs::fst_parser_type::ParseType;
use indexmap::IndexMap;

fn entries(map: &IndexMap<String, DictionaryItemContent>) -> Vec<(String, Vec<usize>)> {
    map.iter().map(|(key, value)| (key.clone(), value.book_links.clone())).collect()
}

#[test]
fn new_result_has_a_dictionary_for_each_field() {
    let result = ParseResult::new();
    assert_eq!(result.field_dictionaries.len(), 10);
    assert!(result.field_dictionaries.iter().all(|d| d.is_empty()));
    assert!(result.files_dictionary.is_empty());
    assert!(result.file_types_dictionary.is_empty());
    assert!(result.books.is_empty());
}

#[test]
fn add_gives_insertion_index() {
    let mut map: IndexMap<String, DictionaryItemContent> = IndexMap::new();
    assert!(matches!(ParseResult::add(&mut map, "en".to_string(), 1), Ok(0)));
    assert!(matches!(ParseResult::add(&mut map, "it".to_string(), 1), Ok(1)));
    assert!(matches!(ParseResult::add(&mut map, "fr".to_string(), 2), Ok(2)));
    assert_eq!(
        entries(&map),
        vec![
            ("en".to_string(), vec![1]),
            ("it".to_string(), vec![1]),
            ("fr".to_string(), vec![2]),
        ]
    );
}

#[test]
fn interning_twice_keeps_identifier_and_adds_one_back_link() {
    let mut map: IndexMap<String, DictionaryItemContent> = IndexMap::new();
    let other = ParseResult::add(&mut map, "History".to_string(), 1).unwrap();
    let first = ParseResult::add(&mut map, "Poetry".to_string(), 1).unwrap();
    let second = ParseResult::add(&mut map, "Poetry".to_string(), 2).unwrap();
    let third = ParseResult::add(&mut map, "Poetry".to_string(), 2).unwrap();
    assert_eq!(other, 0);
    assert_eq!(first, 1);
    assert_eq!(second, 1);
    assert_eq!(third, 1);
    assert_eq!(map.len(), 2);
    assert_eq!(
        entries(&map),
        vec![("History".to_string(), vec![1]), ("Poetry".to_string(), vec![1, 2, 2])]
    );
}

#[test]
fn first_entry_can_be_found_again() {
    let mut map: IndexMap<String, DictionaryItemContent> = IndexMap::new();
    assert_eq!(ParseResult::add(&mut map, "a".to_string(), 4).unwrap(), 0);
    assert_eq!(ParseResult::add(&mut map, "a".to_string(), 5).unwrap(), 0);
    assert_eq!(entries(&map), vec![("a".to_string(), vec![4, 5])]);
}

#[test]
fn empty_value_is_a_value() {
    let mut map: IndexMap<String, DictionaryItemContent> = IndexMap::new();
    assert_eq!(ParseResult::add(&mut map, "".to_string(), 1).unwrap(), 0);
    assert_eq!(ParseResult::add(&mut map, "x".to_string(), 1).unwrap(), 1);
    assert_eq!(ParseResult::add(&mut map, "".to_string(), 3).unwrap(), 0);
    assert_eq!(entries(&map), vec![("".to_string(), vec![1, 3]), ("x".to_string(), vec![1])]);
}

#[test]
fn field_dictionaries_are_independent() {
    let mut result = ParseResult::new();
    let as_language = result.add_field(ParseType::Language, "English".to_string(), 1).unwrap();
    let as_title = result.add_field(ParseType::Title, "English".to_string(), 2).unwrap();
    let other_title = result.add_field(ParseType::Title, "French".to_string(), 2).unwrap();
    assert_eq!(as_language, 0);
    assert_eq!(as_title, 0);
    assert_eq!(other_title, 1);
    assert_eq!(
        entries(&result.field_dictionaries[ParseType::Language.index()]),
        vec![("English".to_string(), vec![1])]
    );
    assert_eq!(
        entries(&result.field_dictionaries[ParseType::Title.index()]),
        vec![("English".to_string(), vec![2]), ("French".to_string(), vec![2])]
    );
    for kind in [
        ParseType::Subject,
        ParseType::Author,
        ParseType::Bookshelf,
        ParseType::Files,
        ParseType::Publisher,
        ParseType::Rights,
        ParseType::DateIssued,
        ParseType::Downloads,
    ] {
        assert!(result.field_dictionaries[kind.index()].is_empty());
    }
    assert!(result.files_dictionary.is_empty());
    assert!(result.file_types_dictionary.is_empty());
}

#[test]
fn files_and_file_types_have_their_own_dictionaries() {
    let mut result = ParseResult::new();
    assert_eq!(result.add_file("http://x/1.txt".to_string(), 1).unwrap(), 0);
    assert_eq!(result.add_file("http://x/2.txt".to_string(), 2).unwrap(), 1);
    assert_eq!(result.add_file_type("text/plain".to_string(), 1).unwrap(), 0);
    assert_eq!(result.add_file_type("text/plain".to_string(), 2).unwrap(), 0);
    assert_eq!(
        entries(&result.files_dictionary),
        vec![("http://x/1.txt".to_string(), vec![1]), ("http://x/2.txt".to_string(), vec![2])]
    );
    assert_eq!(entries(&result.file_types_dictionary), vec![("text/plain".to_string(), vec![1, 2])]);
    assert!(result.field_dictionaries.iter().all(|d| d.is_empty()));
}

#[test]
fn item_result_notes_identifiers_in_order() {
    let mut result = ParseResult::new();
    let mut item = ParseItemResult::default();
    let added: Result<(), Error> = item.add(&mut result, ParseType::Subject, "b".to_string(), 1);
    assert!(added.is_ok());
    item.add(&mut result, ParseType::Subject, "a".to_string(), 1).unwrap();
    item.add(&mut result, ParseType::Subject, "b".to_string(), 1).unwrap();
    assert_eq!(item.item_links, vec![0, 1, 0]);
    assert_eq!(
        entries(&result.field_dictionaries[ParseType::Subject.index()]),
        vec![("b".to_string(), vec![1, 1]), ("a".to_string(), vec![1])]
    );
    item.reset();
    assert!(item.item_links.is_empty());
    assert_eq!(result.field_dictionaries[ParseType::Subject.index()].len(), 2);
}

#[test]
fn defaults_are_empty() {
    assert!(ParseItemResult::default().item_links.is_empty());
    assert!(DictionaryItemContent::default().book_links.is_empty());
}
