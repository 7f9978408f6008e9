//! Extraction of bibliographic records from a corpus of small RDF documents:
//! path matchers, interning dictionaries, the corpus driver, and the layout
//! and querying of the relational cache built from the result.

use vstd::prelude::*;

pub mod book;
pub mod chars;
pub mod consistency;
pub mod db_cache;
pub mod dictionary;
pub mod error;
pub mod field_parser;
pub mod fst_parser;
pub mod fst_parser_file_node;
pub mod fst_parser_node;
pub mod fst_parser_or_node;
pub mod fst_parser_type;
pub mod json;
pub mod rdf_parser;
pub mod settings;
pub mod sqlite_cache;
pub mod text_get;
pub mod utils;
pub mod xml_events;

verus! {

/// What has to be done before a cache can be opened or built.
#[derive(Debug, Clone, Copy, PartialEq, Eq, Structural)]
pub struct SetupPlan {
    /// The archive on disk is deleted first.
    pub remove_archive: bool,
    /// The archive is fetched.
    pub download: bool,
    /// What was unpacked is deleted first.
    pub remove_unpacked: bool,
    /// The archive is unpacked.
    pub unpack: bool,
}

/// What has to be done before a cache can be opened or built: the archive
/// is fetched where there is none, and unpacked where nothing is unpacked;
/// where all is to be made anew, what exists is deleted and both are done.
pub fn setup_plan(archive_exists: bool, unpacked_exists: bool, force_regenerate: bool) -> (plan:
    SetupPlan)
    ensures
        plan.remove_archive == (archive_exists && force_regenerate),
        plan.download == (!archive_exists || force_regenerate),
        plan.remove_unpacked == (unpacked_exists && force_regenerate),
        plan.unpack == (!unpacked_exists || force_regenerate),
{
    SetupPlan {
        remove_archive: archive_exists && force_regenerate,
        download: !archive_exists || force_regenerate,
        remove_unpacked: unpacked_exists && force_regenerate,
        unpack: !unpacked_exists || force_regenerate,
    }
}

} // verus!
