use gutenberg_rs::error::{Error, ErrorKind};
use gutenberg_rs::fst_parser_type::{ParseType, FIELD_KINDS};

#[test]
fn errors_are_shown_with_the_label_of_their_kind() {
    let cases = vec![
        (Error::InvalidRdf("m".to_string()), ErrorKind::InvalidRdf, "Rdf parsing error: `m`"),
        (Error::InvalidResult("m".to_string()), ErrorKind::InvalidResult, "Invalid result: `m`"),
        (Error::InvalidSettingsField("m".to_string()), ErrorKind::InvalidSettingsField, "Settings error: `m`"),
        (Error::InvalidIO("m".to_string()), ErrorKind::InvalidIO, "Io Error: `m`"),
        (Error::InvalidRequest("m".to_string()), ErrorKind::InvalidRequest, "Request error: `m`"),
        (Error::InvalidProgressBarTemplate("m".to_string()), ErrorKind::InvalidProgressBarTemplate, "Progress bar template error: `m`"),
        (Error::InvalidSQLITE("m".to_string()), ErrorKind::InvalidSQLITE, "SQLITE error: `m`"),
        (Error::InvalidUTF8String("m".to_string()), ErrorKind::InvalidUTF8String, "UTF8 error: `m`"),
        (Error::InvalidCacheLocation("m".to_string()), ErrorKind::InvalidCacheLocation, "Invalid Cache: `m`"),
        (Error::InvalidUrl("m".to_string()), ErrorKind::InvalidUrl, "Invalid URl: `m`"),
        (Error::InvalidQuery("m".to_string()), ErrorKind::InvalidQuery, "Invalid Query: `m`"),
    ];
    for (error, kind, shown) in cases {
        assert_eq!(error.error_kind(), kind);
        assert_eq!(error.to_string(), shown);
    }
    assert_eq!(Error::InvalidRdf("".to_string()).to_string(), "Rdf parsing error: ``");
}

#[test]
fn field_kinds_are_numbered_in_order() {
    let kinds = [
        (ParseType::Title, "Title"),
        (ParseType::Subject, "Subject"),
        (ParseType::Language, "Language"),
        (ParseType::Author, "Author"),
        (ParseType::Bookshelf, "Bookshelf"),
        (ParseType::Files, "FilesLinks"),
        (ParseType::Publisher, "Publisher"),
        (ParseType::Rights, "Rights"),
        (ParseType::DateIssued, "DateIssued"),
        (ParseType::Downloads, "Downloads"),
    ];
    assert_eq!(FIELD_KINDS, 10);
    for (place, (kind, name)) in kinds.iter().enumerate() {
        assert_eq!(kind.index(), place);
        assert_eq!(ParseType::from_usize(place), Some(*kind));
        assert_eq!(kind.to_string(), *name);
    }
    assert_eq!(ParseType::from_usize(10), None);
    assert_eq!(ParseType::from_usize(usize::MAX), None);
}
