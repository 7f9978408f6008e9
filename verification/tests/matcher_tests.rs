use gutenberg_rs::book::GutenbergFileEntry;
use gutenberg_rs::error::{Error, ErrorKind};
use gutenberg_rs::field_parser::FieldParser;
use gutenberg_rs::fst_parser::{cursor_at_end, cursor_end, cursor_start, FSTParser, ParseResult};
use gutenberg_rs::fst_parser_file_node::FSTParserFileNode;
use gutenberg_rs::fst_parser_node::FSTParserNode;
use gutenberg_rs::fst_parser_or_node::FSTParserOrNode;
use gutenberg_rs::fst_parser_type::ParseType;

fn names(path: &[&str]) -> Vec<String> {
    path.iter().map(|s| s.to_string()).collect()
}

fn key_at(result: &ParseResult, kind: ParseType, id: usize) -> String {
    result.field_dictionaries[kind.index()].get_index(id).unwrap().0.clone()
}

#[test]
fn build_cuts_the_path_at_slashes() {
    let node = FSTParserNode::build("dcterms:subject/rdf:Description/rdf:value", ParseType::Subject);
    assert_eq!(node.states, names(&["dcterms:subject", "rdf:Description", "rdf:value"]));
    assert_eq!(node.pos, -1);
    assert!(!node.has_result);
    assert!(node.result.item_links.is_empty());
    assert!(matches!(node.get_parse_type(), ParseType::Subject));
    let single = FSTParserNode::build("dcterms:title", ParseType::Title);
    assert_eq!(single.states, names(&["dcterms:title"]));
}

#[test]
fn cursor_walks_the_path() {
    let path = names(&["a", "b", "c"]);
    assert_eq!(cursor_start(&path, -1, "x"), -1);
    assert_eq!(cursor_start(&path, -1, "b"), -1);
    assert_eq!(cursor_start(&path, -1, "a"), 0);
    assert_eq!(cursor_start(&path, 0, "a"), 0);
    assert_eq!(cursor_start(&path, 0, "c"), 0);
    assert_eq!(cursor_start(&path, 0, "b"), 1);
    assert_eq!(cursor_start(&path, 1, "c"), 2);
    assert_eq!(cursor_start(&path, 2, "a"), 2);
    assert_eq!(cursor_start(&path, 2, "c"), 2);
    assert_eq!(cursor_end(&path, -1, "a"), -1);
    assert_eq!(cursor_end(&path, 2, "b"), 2);
    assert_eq!(cursor_end(&path, 2, "c"), 1);
    assert_eq!(cursor_end(&path, 1, "b"), 0);
    assert_eq!(cursor_end(&path, 0, "a"), -1);
    assert!(!cursor_at_end(&path, -1));
    assert!(!cursor_at_end(&path, 1));
    assert!(cursor_at_end(&path, 2));
}

#[test]
fn path_matcher_captures_text_at_the_end_of_its_path() {
    let mut result = ParseResult::new();
    let mut node = FSTParserNode::build("s/d/v", ParseType::Subject);
    assert!(!node.is_found());
    node.text("before", &mut result, 1).unwrap();
    node.start_node("s");
    node.start_node("other");
    node.text("inside other", &mut result, 1).unwrap();
    node.end_node("other");
    node.start_node("d");
    assert!(!node.is_found());
    node.start_node("v");
    assert!(node.is_found());
    assert!(!node.has_results());
    node.text("History", &mut result, 1).unwrap();
    assert!(node.has_results());
    node.end_node("v");
    assert!(!node.is_found());
    node.start_node("v");
    node.text("Poetry", &mut result, 1).unwrap();
    node.end_node("v");
    node.end_node("d");
    node.end_node("s");
    assert_eq!(node.pos, -1);
    assert_eq!(node.get_result().unwrap().item_links, vec![0, 1]);
    assert_eq!(key_at(&result, ParseType::Subject, 0), "History");
    assert_eq!(key_at(&result, ParseType::Subject, 1), "Poetry");
    assert_eq!(result.field_dictionaries[ParseType::Subject.index()].len(), 2);
    assert!(matches!(node.get_files(), Err(Error::InvalidResult(_))));
}

#[test]
fn path_matcher_ignores_attributes() {
    let mut result = ParseResult::new();
    let mut node = FSTParserNode::build("a", ParseType::Title);
    node.start_node("a");
    node.attribute("rdf:about", "x", &mut result, 1).unwrap();
    assert!(!node.has_results());
    assert!(node.get_result().unwrap().item_links.is_empty());
    assert!(result.files_dictionary.is_empty());
    assert!(result.field_dictionaries.iter().all(|d| d.is_empty()));
}

#[test]
fn reset_makes_a_path_matcher_fresh() {
    let mut result = ParseResult::new();
    let fresh = FSTParserNode::build("a/b", ParseType::Rights);
    let mut node = FSTParserNode::build("a/b", ParseType::Rights);
    node.start_node("a");
    node.start_node("b");
    node.text("Public domain", &mut result, 1).unwrap();
    assert!(node.is_found());
    assert!(node.has_results());
    node.reset();
    assert_eq!(node.pos, fresh.pos);
    assert_eq!(node.states, fresh.states);
    assert_eq!(node.has_result, fresh.has_result);
    assert_eq!(node.result.item_links, fresh.result.item_links);
    assert_eq!(node.is_found(), fresh.is_found());
    assert_eq!(node.has_results(), fresh.has_results());
    node.start_node("a");
    node.start_node("b");
    node.text("Other", &mut result, 2).unwrap();
    assert_eq!(node.get_result().unwrap().item_links, vec![1]);
}

#[test]
fn alternation_returns_the_first_child_with_results() {
    let mut result = ParseResult::new();
    let mut both = FSTParserOrNode::build(vec![names(&["a"]), names(&["b"])], ParseType::Title);
    assert!(!both.is_found());
    assert!(!both.has_results());
    assert!(matches!(both.get_result(), Err(Error::InvalidResult(_))));
    both.start_node("b");
    assert!(both.is_found());
    both.text("from b", &mut result, 1).unwrap();
    both.end_node("b");
    assert!(both.has_results());
    assert_eq!(both.get_result().unwrap().item_links, vec![0]);
    both.start_node("a");
    both.text("from a", &mut result, 1).unwrap();
    both.end_node("a");
    assert_eq!(both.get_result().unwrap().item_links, vec![1]);
    assert_eq!(key_at(&result, ParseType::Title, 1), "from a");
    assert_eq!(both.nodes[1].result.item_links, vec![0]);

    let mut other = FSTParserOrNode::build(vec![names(&["a"]), names(&["b"])], ParseType::Title);
    other.start_node("a");
    other.text("from a", &mut result, 2).unwrap();
    other.end_node("a");
    other.start_node("b");
    other.text("from b", &mut result, 2).unwrap();
    other.end_node("b");
    assert_eq!(other.get_result().unwrap().item_links, vec![1]);
    assert!(matches!(other.get_parse_type(), ParseType::Title));
    assert!(matches!(other.get_files(), Err(Error::InvalidResult(_))));
}

#[test]
fn alternation_hands_every_event_to_every_child() {
    let mut result = ParseResult::new();
    let mut same = FSTParserOrNode::build(vec![names(&["a"]), names(&["a"])], ParseType::Author);
    same.start_node("a");
    same.text("X", &mut result, 3).unwrap();
    same.attribute("k", "v", &mut result, 3).unwrap();
    assert_eq!(same.nodes[0].result.item_links, vec![0]);
    assert_eq!(same.nodes[1].result.item_links, vec![0]);
    let authors = &result.field_dictionaries[ParseType::Author.index()];
    assert_eq!(authors.len(), 1);
    assert_eq!(authors.get_index(0).unwrap().1.book_links, vec![3, 3]);
    same.end_node("a");
    assert_eq!(same.nodes[0].pos, -1);
    assert_eq!(same.nodes[1].pos, -1);
    same.reset();
    assert!(!same.has_results());
    assert!(same.nodes.iter().all(|n| n.result.item_links.is_empty() && !n.has_result && n.pos == -1));
}

fn file_matcher() -> FSTParserFileNode {
    FSTParserFileNode::build(
        vec!["dcterms:hasFormat", "pgterms:file", "dcterms:format", "rdf:Description", "rdf:value"],
        "rdf:about",
        ParseType::Files,
    )
}

fn feed_block(matcher: &mut FSTParserFileNode, result: &mut ParseResult, link: &str, kind: &str, work: usize) {
    matcher.start_node("dcterms:hasFormat");
    matcher.attribute("rdf:about", "not a link: too early", result, work).unwrap();
    matcher.start_node("pgterms:file");
    matcher.attribute("rdf:other", "ignored", result, work).unwrap();
    matcher.attribute("rdf:about", link, result, work).unwrap();
    matcher.start_node("dcterms:extent");
    matcher.text("1234", result, work).unwrap();
    matcher.end_node("dcterms:extent");
    matcher.start_node("dcterms:format");
    matcher.start_node("rdf:Description");
    matcher.start_node("rdf:value");
    matcher.text(kind, result, work).unwrap();
    matcher.end_node("rdf:value");
    matcher.end_node("rdf:Description");
    matcher.end_node("dcterms:format");
    matcher.end_node("pgterms:file");
    matcher.end_node("dcterms:hasFormat");
}

#[test]
fn file_matcher_pairs_each_link_with_the_type_of_its_block() {
    let mut result = ParseResult::new();
    let mut matcher = file_matcher();
    assert_eq!(matcher.attribute_states_idx, 1);
    feed_block(&mut matcher, &mut result, "http://x/1.txt", "text/plain", 1);
    feed_block(&mut matcher, &mut result, "http://x/1.html", "text/html", 1);
    feed_block(&mut matcher, &mut result, "http://x/1.utf8", "text/plain", 1);
    assert!(matcher.has_results());
    let files = matcher.get_files().unwrap();
    assert_eq!(
        files,
        vec![
            GutenbergFileEntry { file_link_id: 0, file_type_id: 1 },
            GutenbergFileEntry { file_link_id: 1, file_type_id: 2 },
            GutenbergFileEntry { file_link_id: 2, file_type_id: 1 },
        ]
    );
    let expected = [
        ("http://x/1.txt", "text/plain"),
        ("http://x/1.html", "text/html"),
        ("http://x/1.utf8", "text/plain"),
    ];
    for (entry, (link, kind)) in files.iter().zip(expected.iter()) {
        assert_eq!(result.files_dictionary.get_index(entry.file_link_id as usize).unwrap().0, link);
        assert_eq!(
            result.file_types_dictionary.get_index((entry.file_type_id - 1) as usize).unwrap().0,
            kind
        );
    }
    assert_eq!(result.files_dictionary.len(), 3);
    assert_eq!(result.file_types_dictionary.len(), 2);
    assert!(matches!(matcher.get_result(), Err(Error::InvalidResult(_))));
    assert!(matches!(matcher.get_parse_type(), ParseType::Files));
}

#[test]
fn file_without_type_keeps_the_unresolved_mark() {
    let mut result = ParseResult::new();
    let mut matcher = file_matcher();
    matcher.start_node("dcterms:hasFormat");
    matcher.start_node("pgterms:file");
    matcher.attribute("rdf:about", "http://x/1.txt", &mut result, 1).unwrap();
    matcher.end_node("pgterms:file");
    matcher.end_node("dcterms:hasFormat");
    assert_eq!(
        matcher.get_files().unwrap(),
        vec![GutenbergFileEntry { file_link_id: 0, file_type_id: -1 }]
    );
    assert!(!matcher.has_results());
}

#[test]
fn type_before_any_link_is_a_failure() {
    let mut result = ParseResult::new();
    let mut matcher = file_matcher();
    matcher.start_node("dcterms:hasFormat");
    matcher.start_node("pgterms:file");
    matcher.start_node("dcterms:format");
    matcher.start_node("rdf:Description");
    matcher.start_node("rdf:value");
    assert!(matcher.is_found());
    let failed = matcher.text("text/plain", &mut result, 1);
    match failed {
        Err(e) => {
            assert!(matches!(e, Error::InvalidRdf(_)));
            assert_eq!(e.error_kind(), ErrorKind::InvalidRdf);
            assert_eq!(e.to_string(), "Rdf parsing error: `No files`");
        }
        Ok(_) => panic!("a type without a link was taken"),
    }
    assert!(matcher.get_files().unwrap().is_empty());
    assert_eq!(result.file_types_dictionary.len(), 1);
}

#[test]
fn file_matcher_ignores_text_off_its_path() {
    let mut result = ParseResult::new();
    let mut matcher = file_matcher();
    assert!(matcher.text("a title", &mut result, 1).is_ok());
    matcher.start_node("dcterms:hasFormat");
    assert!(matcher.text("still not there", &mut result, 1).is_ok());
    assert!(matcher.get_files().unwrap().is_empty());
    assert!(result.file_types_dictionary.is_empty());
    assert!(!matcher.has_results());
}

#[test]
fn reset_makes_a_file_matcher_fresh() {
    let mut result = ParseResult::new();
    let fresh = file_matcher();
    let mut matcher = file_matcher();
    feed_block(&mut matcher, &mut result, "http://x/1.txt", "text/plain", 1);
    matcher.start_node("dcterms:hasFormat");
    matcher.reset();
    assert_eq!(matcher.pos, fresh.pos);
    assert_eq!(matcher.has_node, fresh.has_node);
    assert_eq!(matcher.files, fresh.files);
    assert_eq!(matcher.states, fresh.states);
    assert_eq!(matcher.attribute, fresh.attribute);
    assert_eq!(matcher.is_found(), fresh.is_found());
    assert_eq!(matcher.has_results(), fresh.has_results());
    assert_eq!(result.files_dictionary.len(), 1);
}

#[test]
fn field_parser_behaves_as_the_matcher_it_holds() {
    let mut result = ParseResult::new();
    let mut parsers = vec![
        FieldParser::Node(FSTParserNode::build("t", ParseType::Title)),
        FieldParser::OrNode(FSTParserOrNode::build(vec![names(&["t"])], ParseType::Author)),
        FieldParser::FileNode(file_matcher()),
    ];
    for parser in parsers.iter_mut() {
        parser.start_node("t");
    }
    assert!(parsers[0].is_found());
    assert!(parsers[1].is_found());
    assert!(!parsers[2].is_found());
    for parser in parsers.iter_mut() {
        parser.text("T", &mut result, 1).unwrap();
        parser.attribute("rdf:about", "x", &mut result, 1).unwrap();
        parser.end_node("t");
    }
    assert!(parsers[0].has_results());
    assert!(parsers[1].has_results());
    assert!(!parsers[2].has_results());
    assert_eq!(parsers[0].get_result().unwrap().item_links, vec![0]);
    assert_eq!(parsers[1].get_result().unwrap().item_links, vec![0]);
    assert!(parsers[2].get_result().is_err());
    assert!(parsers[0].get_files().is_err());
    assert!(parsers[1].get_files().is_err());
    assert!(parsers[2].get_files().unwrap().is_empty());
    assert!(matches!(parsers[0].get_parse_type(), ParseType::Title));
    assert!(matches!(parsers[1].get_parse_type(), ParseType::Author));
    assert!(matches!(parsers[2].get_parse_type(), ParseType::Files));
    for parser in parsers.iter_mut() {
        parser.reset();
    }
    assert!(!parsers[0].has_results());
    assert!(!parsers[1].has_results());
}
