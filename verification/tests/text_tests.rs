use gutenberg_rs::error::{Error, ErrorKind};
use gutenberg_rs::text_get::{
    file_name_in, line_starts_with_any, strip_headers, text_end_markers, text_file_name,
    text_start_markers,
};
use gutenberg_rs::utils::{decompressed_name, download_progress};

fn numbered(from: usize, to: usize) -> Vec<String> {
    (from..to).map(|i| format!("line {}", i)).collect()
}

#[test]
fn line_starts_with_any_of_the_tokens() {
    assert!(line_starts_with_any("Produced by somebody", &["E-text prepared by", "Produced by"]));
    assert!(line_starts_with_any("Produced by", &["Produced by"]));
    assert!(line_starts_with_any("anything", &[""]));
    assert!(!line_starts_with_any("Produced b", &["Produced by"]));
    assert!(!line_starts_with_any(" Produced by", &["Produced by"]));
    assert!(!line_starts_with_any("produced by", &["Produced by"]));
    assert!(!line_starts_with_any("anything", &[]));
    assert!(line_starts_with_any("Ce document fut présenté en lecture publique", &["Ce document fut présenté"]));
    assert!(!line_starts_with_any("Ce document fut presente en lecture", &["Ce document fut présenté"]));
}

#[test]
fn markers_are_all_there() {
    let start = text_start_markers();
    let end = text_end_markers();
    assert_eq!(start.len(), 53);
    assert_eq!(end.len(), 26);
    assert_eq!(start[0], "*END*THE SMALL PRINT");
    assert_eq!(start[42], "l'authorization à les utilizer pour preparer ce texte.");
    assert_eq!(start[48], "[\"Small Print\" V.");
    assert_eq!(start[52], "                this Project Gutenberg edition.");
    assert_eq!(end[0], "*** END OF THE PROJECT GUTENBERG");
    assert_eq!(end[20], "Ce document fut présenté en lecture");
    assert_eq!(end[25], " *** END OF THIS PROJECT GUTENBERG");
}

#[test]
fn text_without_markers_is_kept() {
    assert_eq!(strip_headers("".to_string()), "");
    assert_eq!(strip_headers("one line".to_string()), "one line");
    assert_eq!(strip_headers("a\nb\n\nc\n".to_string()), "a\nb\n\nc\n");
    assert_eq!(strip_headers("été\r\nhiver".to_string()), "été\r\nhiver");
}

#[test]
fn header_is_dropped_up_to_its_last_marker() {
    let text = "The Project Gutenberg EBook of Something\n\nTitle: Something\n\n*** START OF THIS PROJECT GUTENBERG EBOOK SOMETHING ***\n\nProduced by Somebody\n\nCHAPTER I\n\nIt begins.";
    assert_eq!(strip_headers(text.to_string()), "\nCHAPTER I\n\nIt begins.");
}

#[test]
fn footer_is_dropped_after_a_hundred_lines() {
    let mut lines = numbered(0, 120);
    lines.push("End of the Project Gutenberg EBook".to_string());
    lines.push("licence text".to_string());
    assert_eq!(strip_headers(lines.join("\n")), numbered(0, 120).join("\n"));

    let mut exact = numbered(0, 100);
    exact.push("*** END OF THIS PROJECT GUTENBERG EBOOK ***".to_string());
    exact.push("after".to_string());
    assert_eq!(strip_headers(exact.join("\n")), numbered(0, 100).join("\n"));

    let mut early = numbered(0, 99);
    early.push("End of Project Gutenberg's Something".to_string());
    early.push("after".to_string());
    assert_eq!(strip_headers(early.join("\n")), early.join("\n"));
}

#[test]
fn header_markers_count_only_among_the_first_lines() {
    let mut lines = numbered(0, 600);
    lines.push("Produced by somebody".to_string());
    lines.push("kept".to_string());
    assert_eq!(strip_headers(lines.join("\n")), "kept");

    let mut late = numbered(0, 601);
    late.push("Produced by somebody".to_string());
    late.push("kept".to_string());
    assert_eq!(strip_headers(late.join("\n")), late.join("\n"));
}

#[test]
fn lines_dropped_with_the_header_still_count() {
    let mut lines = numbered(0, 60);
    lines.push("Produced by somebody".to_string());
    lines.extend(numbered(60, 100));
    lines.push("End of the Project Gutenberg EBook".to_string());
    lines.push("after".to_string());
    assert_eq!(strip_headers(lines.join("\n")), numbered(60, 100).join("\n"));
}

#[test]
fn legal_passages_are_passed_over() {
    let text = "a\n<<THIS ELECTRONIC VERSION OF THE BOOK\nsmall print\nmore small print\nSERVICE THAT CHARGES FOR DOWNLOAD TIME\nb\n<<THIS ELECTRONIC VERSION OF\nnever closed";
    assert_eq!(strip_headers(text.to_string()), "a\nb");
    let mut lines = vec!["<<THIS ELECTRONIC VERSION OF".to_string()];
    lines.extend(numbered(0, 150));
    lines.push("End of the Project Gutenberg EBook".to_string());
    lines.push("SERVICE THAT CHARGES FOR DOWNLOAD".to_string());
    lines.push("kept: the passed lines were never counted".to_string());
    assert_eq!(strip_headers(lines.join("\n")), "kept: the passed lines were never counted");
}

#[test]
fn file_name_is_the_last_segment() {
    assert_eq!(file_name_in("/ebooks/1.txt.utf-8"), Some("1.txt.utf-8".to_string()));
    assert_eq!(file_name_in("/ebooks/1/"), Some("1".to_string()));
    assert_eq!(file_name_in("name"), Some("name".to_string()));
    assert_eq!(file_name_in("/"), Some("".to_string()));
    assert_eq!(file_name_in("a//"), Some("".to_string()));
    assert_eq!(file_name_in(""), None);
    assert_eq!(file_name_in(":8080/files/é.txt"), Some("é.txt".to_string()));
}

#[test]
fn text_file_name_comes_from_the_path_of_the_link() {
    assert_eq!(text_file_name("https://www.gutenberg.org/ebooks/1.txt.utf-8").unwrap(), "1.txt.utf-8");
    assert_eq!(text_file_name("https://www.gutenberg.org/files/25/25-0.txt?x=1#top").unwrap(), "25-0.txt");
    assert_eq!(text_file_name("http://localhost:8080/a/b.txt").unwrap(), "b.txt");
    assert_eq!(text_file_name("https://www.gutenberg.org").unwrap(), "");
    assert_eq!(text_file_name("https://www.gutenberg.org/a%20b/").unwrap(), "a%20b");
    for link in ["", "ebooks/1.txt", "://x", "http://"] {
        match text_file_name(link) {
            Err(e) => {
                assert!(matches!(e, Error::InvalidUrl(_)), "for {:?}", link);
                assert_eq!(e.error_kind(), ErrorKind::InvalidUrl);
            }
            Ok(name) => panic!("{:?} gave {:?}", link, name),
        }
    }
    match text_file_name("mailto:") {
        Err(e) => assert_eq!(e.error_kind(), ErrorKind::InvalidCacheLocation),
        Ok(name) => panic!("gave {:?}", name),
    }
}

#[test]
fn decompressed_name_drops_three_characters() {
    assert_eq!(decompressed_name("rdf-files.tar.bz2"), Some("rdf-files.tar.".to_string()));
    assert_eq!(decompressed_name("bz2"), Some("".to_string()));
    assert_eq!(decompressed_name("ab"), None);
    assert_eq!(decompressed_name(""), None);
    assert_eq!(decompressed_name("äöüß"), Some("ä".to_string()));
}

#[test]
fn download_progress_stops_at_the_whole() {
    assert_eq!(download_progress(0, 10, 100), 10);
    assert_eq!(download_progress(90, 10, 100), 100);
    assert_eq!(download_progress(95, 10, 100), 100);
    assert_eq!(download_progress(200, 1, 100), 100);
    assert_eq!(download_progress(u64::MAX, u64::MAX, u64::MAX), u64::MAX);
    assert_eq!(download_progress(0, 0, 0), 0);
}
