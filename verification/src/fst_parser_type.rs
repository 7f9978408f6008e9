//! The kinds of field.

use vstd::prelude::*;
use vstd::string::StringExecFns;

verus! {

/// The kinds of field that are taken from a document, in the order in which
/// their matchers and dictionaries are kept.
#[derive(Debug, Clone, Copy, PartialEq, Eq, Structural)]
pub enum ParseType {
    Title,
    Subject,
    Language,
    Author,
    Bookshelf,
    Files,
    Publisher,
    Rights,
    DateIssued,
    Downloads,
}

/// How many kinds of field there are.
pub const FIELD_KINDS: usize = 10;

impl ParseType {
    /// The place of this kind among the kinds, counted from zero.
    pub open spec fn spec_index(self) -> int {
        match self {
            ParseType::Title => 0,
            ParseType::Subject => 1,
            ParseType::Language => 2,
            ParseType::Author => 3,
            ParseType::Bookshelf => 4,
            ParseType::Files => 5,
            ParseType::Publisher => 6,
            ParseType::Rights => 7,
            ParseType::DateIssued => 8,
            ParseType::Downloads => 9,
        }
    }

    /// The kind at a given place, if there is one.
    pub open spec fn spec_from_usize(n: usize) -> Option<ParseType> {
        if n == 0 {
            Some(ParseType::Title)
        } else if n == 1 {
            Some(ParseType::Subject)
        } else if n == 2 {
            Some(ParseType::Language)
        } else if n == 3 {
            Some(ParseType::Author)
        } else if n == 4 {
            Some(ParseType::Bookshelf)
        } else if n == 5 {
            Some(ParseType::Files)
        } else if n == 6 {
            Some(ParseType::Publisher)
        } else if n == 7 {
            Some(ParseType::Rights)
        } else if n == 8 {
            Some(ParseType::DateIssued)
        } else if n == 9 {
            Some(ParseType::Downloads)
        } else {
            None
        }
    }

    /// The name under which this kind is shown.
    pub open spec fn spec_name(self) -> Seq<char> {
        match self {
            ParseType::Title => "Title"@,
            ParseType::Subject => "Subject"@,
            ParseType::Language => "Language"@,
            ParseType::Author => "Author"@,
            ParseType::Bookshelf => "Bookshelf"@,
            ParseType::Files => "FilesLinks"@,
            ParseType::Publisher => "Publisher"@,
            ParseType::Rights => "Rights"@,
            ParseType::DateIssued => "DateIssued"@,
            ParseType::Downloads => "Downloads"@,
        }
    }

    /// The place of this kind among the kinds, counted from zero.
    pub fn index(self) -> (i: usize)
        ensures
            i == self.spec_index(),
            i < FIELD_KINDS,
    {
        match self {
            ParseType::Title => 0,
            ParseType::Subject => 1,
            ParseType::Language => 2,
            ParseType::Author => 3,
            ParseType::Bookshelf => 4,
            ParseType::Files => 5,
            ParseType::Publisher => 6,
            ParseType::Rights => 7,
            ParseType::DateIssued => 8,
            ParseType::Downloads => 9,
        }
    }

    /// The kind at a given place: `Some` for the places below ten.
    pub fn from_usize(n: usize) -> (kind: Option<ParseType>)
        ensures
            kind == ParseType::spec_from_usize(n),
            kind is Some <==> n < FIELD_KINDS,
            kind matches Some(k) ==> k.spec_index() == n,
    {
        match n {
            0 => Some(ParseType::Title),
            1 => Some(ParseType::Subject),
            2 => Some(ParseType::Language),
            3 => Some(ParseType::Author),
            4 => Some(ParseType::Bookshelf),
            5 => Some(ParseType::Files),
            6 => Some(ParseType::Publisher),
            7 => Some(ParseType::Rights),
            8 => Some(ParseType::DateIssued),
            9 => Some(ParseType::Downloads),
            _ => None,
        }
    }

    /// The name under which this kind is shown.
    pub fn to_string(&self) -> (name: String)
        ensures
            name@ == self.spec_name(),
    {
        match self {
            ParseType::Title => String::from_str("Title"),
            ParseType::Subject => String::from_str("Subject"),
            ParseType::Language => String::from_str("Language"),
            ParseType::Author => String::from_str("Author"),
            ParseType::Bookshelf => String::from_str("Bookshelf"),
            ParseType::Files => String::from_str("FilesLinks"),
            ParseType::Publisher => String::from_str("Publisher"),
            ParseType::Rights => String::from_str("Rights"),
            ParseType::DateIssued => String::from_str("DateIssued"),
            ParseType::Downloads => String::from_str("Downloads"),
        }
    }
}

} // verus!
