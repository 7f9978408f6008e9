//! The record of one work.

use vstd::prelude::*;

verus! {

/// One downloadable file of a work: a link and the kind of file it leads to.
///
/// `file_link_id` is the index of the link in the file-link dictionary.
/// `file_type_id` is the row key of the file type (its index in the file-type
/// dictionary plus one), or `-1` while no type has been seen for this link.
#[derive(Debug, Copy, Clone, PartialEq, Eq, Structural)]
pub struct GutenbergFileEntry {
    pub file_link_id: i32,
    pub file_type_id: i32,
}

/// One work of the corpus, its fields given by dictionary identifiers.
///
/// `publisher_id` and `rights_id` are row keys (dictionary index plus one),
/// `title_id` is a dictionary index; each is `-1` where the document gave no
/// value. The four lists hold dictionary indices.
#[derive(Debug, PartialEq, Eq)]
pub struct Book {
    pub publisher_id: i32,
    pub title_id: i32,
    pub rights_id: i32,
    pub gutenberg_book_id: usize,
    pub date_issued: String,
    pub num_downloads: i32,
    pub language_ids: Vec<usize>,
    pub subject_ids: Vec<usize>,
    pub author_ids: Vec<usize>,
    pub bookshelf_ids: Vec<usize>,
    pub files: Vec<GutenbergFileEntry>,
}

/// What a `Book` holds, as mathematical values.
pub struct BookView {
    pub publisher_id: i32,
    pub title_id: i32,
    pub rights_id: i32,
    pub gutenberg_book_id: usize,
    pub date_issued: Seq<char>,
    pub num_downloads: i32,
    pub language_ids: Seq<usize>,
    pub subject_ids: Seq<usize>,
    pub author_ids: Seq<usize>,
    pub bookshelf_ids: Seq<usize>,
    pub files: Seq<GutenbergFileEntry>,
}

impl View for Book {
    type V = BookView;

    open spec fn view(&self) -> BookView {
        BookView {
            publisher_id: self.publisher_id,
            title_id: self.title_id,
            rights_id: self.rights_id,
            gutenberg_book_id: self.gutenberg_book_id,
            date_issued: self.date_issued@,
            num_downloads: self.num_downloads,
            language_ids: self.language_ids@,
            subject_ids: self.subject_ids@,
            author_ids: self.author_ids@,
            bookshelf_ids: self.bookshelf_ids@,
            files: self.files@,
        }
    }
}

} // verus!
