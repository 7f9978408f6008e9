use gutenberg_rs::book::{Book, GutenbergFileEntry};
use gutenberg_rs::chars::{chars_of, decode_text, parse_i32, parse_usize, split, split_chars};
use gutenberg_rs::error::{Error, ErrorKind};
use gutenberg_rs::field_parser::FieldParser;
use gutenberg_rs::fst_parser::{FSTParser, ParseResult};
use gutenberg_rs::fst_parser_type::ParseType;
use gutenberg_rs::rdf_parser::{
    assemble_book, parse_catalog_id, parse_document, parse_rdf_from_reader,
    parse_rdfs_from_content, process_event, reset_all, setup_fst, ContentReader, XmlReader,
};
use gutenberg_rs::xml_events::XmlEvent;

fn start(name: &str, attributes: &[(&str, &str)]) -> XmlEvent {
    XmlEvent::Start {
        name: name.to_string(),
        attributes: attributes.iter().map(|(k, v)| (k.to_string(), v.to_string())).collect(),
    }
}

fn end(name: &str) -> XmlEvent {
    XmlEvent::End { name: name.to_string() }
}

fn text(value: &str) -> XmlEvent {
    XmlEvent::Text { text: value.to_string() }
}

fn read_all(content: &str) -> Result<Vec<XmlEvent>, Error> {
    let mut reader = ContentReader::new(content);
    let mut events = Vec::new();
    loop {
        match reader.read()? {
            XmlEvent::Eof => return Ok(events),
            event => events.push(event),
        }
    }
}

fn document(body: &str) -> String {
    format!("<rdf:RDF><pgterms:ebook rdf:about=\"ebooks/42\">{}</pgterms:ebook></rdf:RDF>", body)
}

fn keys(result: &ParseResult, kind: ParseType) -> Vec<String> {
    result.field_dictionaries[kind.index()].keys().cloned().collect()
}

#[test]
fn split_cuts_at_every_separator() {
    assert_eq!(split("ebooks/1", '/'), vec!["ebooks", "1"]);
    assert_eq!(split("", '/'), vec![""]);
    assert_eq!(split("a", '/'), vec!["a"]);
    assert_eq!(split("a/", '/'), vec!["a", ""]);
    assert_eq!(split("/a", '/'), vec!["", "a"]);
    assert_eq!(split("a//b", '/'), vec!["a", "", "b"]);
    assert_eq!(split("é/ü", '/'), vec!["é", "ü"]);
    assert_eq!(split_chars(&vec!['x', '\n', 'y'], '\n'), vec![vec!['x'], vec!['y']]);
    assert_eq!(chars_of("aé"), vec!['a', 'é']);
}

#[test]
fn numbers_are_read_as_the_standard_library_reads_them() {
    for text in ["0", "7", "007", "+3", "42", "18446744073709551615", "18446744073709551616", "",
        "+", "-", "-1", "1a", " 1", "1 ", "++1", "٣"]
    {
        assert_eq!(parse_usize(text), text.parse::<usize>().ok(), "usize from {:?}", text);
    }
    for text in ["0", "-0", "+0", "12", "-12", "+12", "2147483647", "2147483648", "-2147483648",
        "-2147483649", "", "+", "-", "--1", "1-", "1.5", "99999999999999999999999"]
    {
        assert_eq!(parse_i32(text), text.parse::<i32>().ok(), "i32 from {:?}", text);
    }
    assert_eq!(parse_usize("1234"), Some(1234));
    assert_eq!(parse_i32("-2147483648"), Some(i32::MIN));
    assert_eq!(parse_i32("2147483647"), Some(i32::MAX));
}

#[test]
fn catalog_identifier_is_the_second_of_two_parts() {
    assert_eq!(parse_catalog_id("ebooks/1"), Some(1));
    assert_eq!(parse_catalog_id("ebooks/90907"), Some(90907));
    assert_eq!(parse_catalog_id("/7"), Some(7));
    assert_eq!(parse_catalog_id("ebooks"), None);
    assert_eq!(parse_catalog_id("ebooks/"), None);
    assert_eq!(parse_catalog_id("ebooks/x"), None);
    assert_eq!(parse_catalog_id("a/b/3"), None);
    assert_eq!(parse_catalog_id(""), None);
}

#[test]
fn decode_text_takes_utf8_only() {
    assert_eq!(decode_text("Dante — é".as_bytes()).unwrap(), "Dante — é");
    assert_eq!(decode_text(&[]).unwrap(), "");
    let failed = decode_text(&[0x61, 0xff, 0x62]);
    assert!(matches!(failed, Err(Error::InvalidUTF8String(_))));
    assert_eq!(failed.unwrap_err().error_kind(), ErrorKind::InvalidUTF8String);
}

#[test]
fn reader_hands_out_the_events_of_a_document() {
    let events = read_all(
        "<?xml version=\"1.0\"?>\n<a x=\"1\" y = 'two'>\n  <b/>  some text \n <!-- c --> <c>T &amp; U &lt;3 &#65;</c>\n</a>\n",
    )
    .unwrap();
    assert_eq!(
        events,
        vec![
            XmlEvent::Other,
            start("a", &[("x", "1"), ("y", "two")]),
            XmlEvent::Other,
            text("some text"),
            XmlEvent::Other,
            start("c", &[]),
            text("T & U <3 A"),
            end("c"),
            end("a"),
        ]
    );
}

#[test]
fn reader_keeps_attribute_values_as_written() {
    let events = read_all("<a href=\"x?a=1&amp;b=2\" name=\"é\"></a>").unwrap();
    assert_eq!(events, vec![start("a", &[("href", "x?a=1&amp;b=2"), ("name", "é")]), end("a")]);
}

#[test]
fn reader_gives_eof_again_at_the_end() {
    let mut reader = ContentReader::new("<a></a>");
    assert_eq!(reader.read().unwrap(), start("a", &[]));
    assert_eq!(reader.read().unwrap(), end("a"));
    assert_eq!(reader.read().unwrap(), XmlEvent::Eof);
    assert_eq!(reader.read().unwrap(), XmlEvent::Eof);
    let mut empty = ContentReader::new("");
    assert_eq!(empty.read().unwrap(), XmlEvent::Eof);
}

#[test]
fn reader_fails_on_markup_that_is_not_well_formed() {
    for content in ["<a></b>", "<a x=1></a>", "<a x=\"1\" x=\"2\"></a>", "<a>&nosuch;</a>", "<a x></a>"] {
        match read_all(content) {
            Err(e) => assert_eq!(e.error_kind(), ErrorKind::InvalidRdf, "for {:?}", content),
            Ok(events) => panic!("{:?} was read as {:?}", content, events),
        }
    }
}

#[test]
fn setup_gives_ten_matchers_in_the_order_of_the_fields() {
    let (result, parsers) = setup_fst();
    assert_eq!(result.field_dictionaries.len(), 10);
    assert_eq!(parsers.len(), 10);
    let kinds: Vec<usize> = parsers.iter().map(|p| p.get_parse_type().index()).collect();
    assert_eq!(kinds, vec![0, 1, 2, 3, 4, 5, 6, 7, 8, 9]);
    assert!(matches!(parsers[0], FieldParser::OrNode(_)));
    assert!(matches!(parsers[3], FieldParser::OrNode(_)));
    assert!(matches!(parsers[5], FieldParser::FileNode(_)));
    match &parsers[3] {
        FieldParser::OrNode(author) => {
            assert_eq!(author.nodes[0].states, vec!["dcterms:creator", "pgterms:agent", "pgterms:name"]);
            assert_eq!(author.nodes[1].states, vec!["dcterms:creator", "pgterms:agent", "pgterms:agent"]);
        }
        _ => unreachable!(),
    }
    match &parsers[5] {
        FieldParser::FileNode(files) => {
            assert_eq!(
                files.states,
                vec!["dcterms:hasFormat", "pgterms:file", "dcterms:format", "rdf:Description", "rdf:value"]
            );
            assert_eq!(files.attribute, "rdf:about");
        }
        _ => unreachable!(),
    }
    match &parsers[9] {
        FieldParser::Node(downloads) => assert_eq!(downloads.states, vec!["pgterms:downloads"]),
        _ => unreachable!(),
    }
}

#[test]
fn process_event_reads_the_catalog_identifier_without_the_matchers() {
    let (mut result, mut parsers) = setup_fst();
    let id = process_event(
        &start("pgterms:ebook", &[("rdf:other", "x/y/z"), ("rdf:about", "ebooks/1000")]),
        &mut parsers,
        1,
        &mut result,
        0,
    )
    .unwrap();
    assert_eq!(id, 1000);
    assert!(result.files_dictionary.is_empty());
    assert!(parsers.iter().all(|p| !p.is_found() && !p.has_results()));
    let kept = process_event(&start("pgterms:ebook", &[]), &mut parsers, 1, &mut result, 5).unwrap();
    assert_eq!(kept, 5);
    let skipped = process_event(&start("rdf::RDF", &[("rdf:about", "x")]), &mut parsers, 1, &mut result, 9);
    assert_eq!(skipped.unwrap(), 9);
    for value in ["ebooks", "ebooks/abc", "a/b/1"] {
        let failed = process_event(
            &start("pgterms:ebook", &[("rdf:about", value)]),
            &mut parsers,
            1,
            &mut result,
            0,
        );
        assert_eq!(failed.unwrap_err().error_kind(), ErrorKind::InvalidRdf);
    }
}

#[test]
fn process_event_hands_tags_and_texts_to_all_matchers() {
    let (mut result, mut parsers) = setup_fst();
    let events = vec![
        start("dcterms:title", &[]),
        text("A Title"),
        end("dcterms:title"),
        start("dcterms:rights", &[]),
        text("Public domain in the USA."),
        end("dcterms:rights"),
        start("dcterms:hasFormat", &[]),
        start("pgterms:file", &[("rdf:about", "http://x/7.txt")]),
        start("dcterms:format", &[]),
        start("rdf:Description", &[("rdf:nodeID", "N1")]),
        start("rdf:value", &[]),
        text("text/plain"),
        end("rdf:value"),
        end("rdf:Description"),
        end("dcterms:format"),
        end("pgterms:file"),
        end("dcterms:hasFormat"),
        XmlEvent::Other,
        XmlEvent::Eof,
    ];
    let mut id = 77;
    for event in &events {
        id = process_event(event, &mut parsers, 3, &mut result, id).unwrap();
    }
    assert_eq!(id, 77);
    assert_eq!(keys(&result, ParseType::Title), vec!["A Title"]);
    assert_eq!(keys(&result, ParseType::Rights), vec!["Public domain in the USA."]);
    assert_eq!(result.field_dictionaries[ParseType::Title.index()][0].book_links, vec![3]);
    assert_eq!(result.files_dictionary.get_index(0).unwrap().0, "http://x/7.txt");
    assert_eq!(result.files_dictionary[0].book_links, vec![3]);
    assert_eq!(result.file_types_dictionary.get_index(0).unwrap().0, "text/plain");
    let book = assemble_book(&parsers, &result, id).unwrap();
    assert_eq!(
        book,
        Book {
            publisher_id: -1,
            title_id: 0,
            rights_id: 1,
            gutenberg_book_id: 77,
            date_issued: "".to_string(),
            num_downloads: 0,
            language_ids: vec![],
            subject_ids: vec![],
            author_ids: vec![],
            bookshelf_ids: vec![],
            files: vec![GutenbergFileEntry { file_link_id: 0, file_type_id: 1 }],
        }
    );
    reset_all(&mut parsers);
    assert!(parsers.iter().all(|p| !p.has_results() && !p.is_found()));
    let empty = assemble_book(&parsers, &result, 0).unwrap();
    assert_eq!(empty.title_id, -1);
    assert_eq!(empty.rights_id, -1);
    assert!(empty.files.is_empty());
}

#[test]
fn process_event_fails_on_a_type_without_a_link() {
    let (mut result, mut parsers) = setup_fst();
    for event in [
        start("dcterms:hasFormat", &[]),
        start("pgterms:file", &[]),
        start("dcterms:format", &[]),
        start("rdf:Description", &[]),
        start("rdf:value", &[]),
    ] {
        process_event(&event, &mut parsers, 1, &mut result, 0).unwrap();
    }
    let failed = process_event(&text("text/plain"), &mut parsers, 1, &mut result, 0);
    assert!(matches!(failed, Err(Error::InvalidRdf(_))));
}

#[test]
fn one_document_gives_one_work() {
    let content = document(
        "<dcterms:publisher>Project Gutenberg</dcterms:publisher>\
         <dcterms:issued>2004-03-01</dcterms:issued>\
         <dcterms:rights>Public domain in the USA.</dcterms:rights>\
         <pgterms:downloads>-12</pgterms:downloads>\
         <dcterms:title>Second &amp; Last</dcterms:title>\
         <dcterms:subject><rdf:Description><rdf:value>B</rdf:value></rdf:Description></dcterms:subject>\
         <dcterms:subject><rdf:Description><rdf:value>A</rdf:value></rdf:Description></dcterms:subject>\
         <dcterms:language><rdf:Description><rdf:value>en</rdf:value></rdf:Description></dcterms:language>",
    );
    let (mut result, mut parsers) = setup_fst();
    result.add_field(ParseType::Title, "First".to_string(), 0).unwrap();
    result.add_field(ParseType::Publisher, "Somebody".to_string(), 0).unwrap();
    let mut reader = ContentReader::new(&content);
    parse_document(&mut reader, &mut parsers, 9, &mut result).unwrap();
    assert_eq!(
        result.books,
        vec![Book {
            publisher_id: 2,
            title_id: 1,
            rights_id: 1,
            gutenberg_book_id: 42,
            date_issued: "2004-03-01".to_string(),
            num_downloads: -12,
            language_ids: vec![0],
            subject_ids: vec![0, 1],
            author_ids: vec![],
            bookshelf_ids: vec![],
            files: vec![],
        }]
    );
    assert_eq!(keys(&result, ParseType::Title), vec!["First", "Second & Last"]);
    assert_eq!(keys(&result, ParseType::Subject), vec!["B", "A"]);
    assert_eq!(keys(&result, ParseType::DateIssued), vec!["2004-03-01"]);
    assert_eq!(keys(&result, ParseType::Downloads), vec!["-12"]);
    assert_eq!(result.field_dictionaries[ParseType::Title.index()][1].book_links, vec![9]);
    assert!(parsers.iter().all(|p| !p.has_results() && !p.is_found()));
}

#[test]
fn parse_rdf_from_reader_returns_the_catalog_identifier() {
    let (mut result, mut parsers) = setup_fst();
    let content = document("<dcterms:title>T</dcterms:title>");
    let mut reader = ContentReader::new(&content);
    assert_eq!(parse_rdf_from_reader(&mut reader, &mut parsers, 1, &mut result).unwrap(), 42);
    assert!(parsers[ParseType::Title.index()].has_results());
    let mut without = ContentReader::new("<rdf:RDF><dcterms:title>U</dcterms:title></rdf:RDF>");
    reset_all(&mut parsers);
    assert_eq!(parse_rdf_from_reader(&mut without, &mut parsers, 2, &mut result).unwrap(), 0);
    assert_eq!(keys(&result, ParseType::Title), vec!["T", "U"]);
}

#[test]
fn alternative_title_is_used_where_there_is_no_title() {
    let first = document("<dcterms:alternative>Also Known As</dcterms:alternative>");
    let second = document(
        "<dcterms:alternative>Other Name</dcterms:alternative><dcterms:title>Real Name</dcterms:title>",
    );
    let result = parse_rdfs_from_content(&vec![first, second], false).unwrap();
    assert_eq!(keys(&result, ParseType::Title), vec!["Also Known As", "Other Name", "Real Name"]);
    assert_eq!(result.books[0].title_id, 0);
    assert_eq!(result.books[1].title_id, 2);
}

#[test]
fn works_are_numbered_from_one_and_values_are_shared() {
    let documents = vec![
        document("<dcterms:rights>R</dcterms:rights><dcterms:publisher>P</dcterms:publisher>"),
        document("<dcterms:publisher>Q</dcterms:publisher>"),
        document("<dcterms:rights>R</dcterms:rights><dcterms:publisher>P</dcterms:publisher>"),
    ];
    let result = parse_rdfs_from_content(&documents, true).unwrap();
    assert_eq!(result.books.len(), 3);
    assert_eq!(keys(&result, ParseType::Rights), vec!["R"]);
    assert_eq!(keys(&result, ParseType::Publisher), vec!["P", "Q"]);
    assert_eq!(result.field_dictionaries[ParseType::Rights.index()][0].book_links, vec![1, 3]);
    assert_eq!(result.field_dictionaries[ParseType::Publisher.index()][0].book_links, vec![1, 3]);
    assert_eq!(result.field_dictionaries[ParseType::Publisher.index()][1].book_links, vec![2]);
    let ids: Vec<(i32, i32)> = result.books.iter().map(|b| (b.publisher_id, b.rights_id)).collect();
    assert_eq!(ids, vec![(1, 1), (2, -1), (1, 1)]);
    assert!(result.books.iter().all(|b| b.gutenberg_book_id == 42));
}

#[test]
fn empty_corpus_gives_an_empty_result() {
    let result = parse_rdfs_from_content(&vec![], false).unwrap();
    assert!(result.books.is_empty());
    assert_eq!(result.field_dictionaries.len(), 10);
    assert!(result.field_dictionaries.iter().all(|d| d.is_empty()));
}

#[test]
fn one_bad_document_fails_the_whole_corpus() {
    let good = document("<dcterms:title>T</dcterms:title>");
    let cases = vec![
        ("<rdf:RDF><pgterms:ebook rdf:about=\"ebooks/x1\"></pgterms:ebook></rdf:RDF>".to_string(), ErrorKind::InvalidRdf),
        ("<rdf:RDF><pgterms:ebook rdf:about=\"1\"></pgterms:ebook></rdf:RDF>".to_string(), ErrorKind::InvalidRdf),
        (document("<pgterms:downloads>many</pgterms:downloads>"), ErrorKind::InvalidRdf),
        (document("<dcterms:title>T</dcterms:titel>"), ErrorKind::InvalidRdf),
        (document("<dcterms:title lang=en>T</dcterms:title>"), ErrorKind::InvalidRdf),
        (document("<dcterms:title>&unknown;</dcterms:title>"), ErrorKind::InvalidRdf),
        (
            document(
                "<dcterms:hasFormat><pgterms:file><dcterms:format><rdf:Description>\
                 <rdf:value>text/plain</rdf:value></rdf:Description></dcterms:format>\
                 </pgterms:file></dcterms:hasFormat>",
            ),
            ErrorKind::InvalidRdf,
        ),
    ];
    for (bad, kind) in cases {
        let failed = parse_rdfs_from_content(&vec![good.clone(), bad.clone(), good.clone()], false);
        match failed {
            Err(e) => assert_eq!(e.error_kind(), kind, "for {}", bad),
            Ok(_) => panic!("{} was read", bad),
        }
    }
}

#[test]
fn attribute_failure_gives_the_words_of_the_attribute_reader() {
    let cases = [
        ("<a x=1></a>", "position 4: attribute value must be enclosed in `\"` or `'`"),
        ("<a x></a>", "position 3: attribute key must be directly followed by `=` or space"),
        ("<a x=\"1\" x=\"2\"></a>", "position 8: duplicated attribute, previous declaration at position 2"),
        ("<a x=></a>", "position 4: `=` must be followed by an attribute value"),
    ];
    for (content, words) in cases {
        match read_all(content) {
            Err(e) => {
                assert!(matches!(&e, Error::InvalidRdf(m) if *m == format!("fastxml attribute error: {}", words)));
                assert_eq!(
                    e.to_string(),
                    format!("Rdf parsing error: `fastxml attribute error: {}`", words)
                );
            }
            Ok(events) => panic!("{:?} was read as {:?}", content, events),
        }
    }
}
