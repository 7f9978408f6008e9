//! The settings of a cache.

use crate::error::{Error, ErrorKind};
use crate::json::{json_field, text_field, JsonField, JsonFieldView};
use serde_json::Value;
use vstd::prelude::*;
use vstd::string::StringExecFns;

verus! {

/// The settings with which a cache is built.
#[derive(Debug, Clone, PartialEq, Eq)]
pub struct GutenbergCacheSettings {
    /// The link from which the archive of documents is fetched.
    pub cache_rdf_download_link: String,
    /// The file name of the cache.
    pub cache_filename: String,
    /// The directory into which the archive of documents is unpacked.
    pub cache_rdf_unpack_directory: String,
    /// The file name under which the archive is stored.
    pub cache_rdf_archive_name: String,
    /// The folder that holds the texts that were fetched.
    pub text_files_cache_folder: String,
    /// Whether the cache is kept in memory only.
    pub db_in_memory: bool,
}

/// `Path::join`, shown as text: `part` adjoined to `base` with the
/// separator of the machine.
#[verifier::external_body]
fn join_path(base: &str, part: &str) -> (joined: String) {
    std::path::Path::new(base).join(part).display().to_string()
}

impl Default for GutenbergCacheSettings {
    /// The settings of a cache on disk, under the usual names. The unpack
    /// directory is `epub` inside `cache`, written as the machine writes
    /// paths.
    fn default() -> (settings: GutenbergCacheSettings)
        ensures
            !settings.db_in_memory,
            settings.text_files_cache_folder@ == "text_cache"@,
            settings.cache_rdf_download_link@
                == "https://www.gutenberg.org/cache/epub/feeds/rdf-files.tar.bz2"@,
            settings.cache_filename@ == "gutenbergindex.db"@,
            settings.cache_rdf_archive_name@ == "rdf-files.tar.bz2"@,
    {
        GutenbergCacheSettings {
            db_in_memory: false,
            text_files_cache_folder: String::from_str("text_cache"),
            cache_rdf_download_link: String::from_str(
                "https://www.gutenberg.org/cache/epub/feeds/rdf-files.tar.bz2",
            ),
            cache_filename: String::from_str("gutenbergindex.db"),
            cache_rdf_unpack_directory: join_path("cache", "epub"),
            cache_rdf_archive_name: String::from_str("rdf-files.tar.bz2"),
        }
    }
}

/// The value of a setting: the text given for it, and the usual value
/// where none is given.
pub open spec fn setting_of(field: JsonFieldView, usual: Seq<char>) -> Seq<char> {
    match field {
        JsonFieldView::Text(text) => text,
        _ => usual,
    }
}

/// The names of the settings that can be given, in the order in which they
/// are read.
pub open spec fn setting_keys() -> Seq<Seq<char>> {
    seq![
        "CacheFilename"@,
        "CacheUnpackDir"@,
        "CacheArchiveName"@,
        "CacheRDFDownloadLink"@,
        "TextFilesCacheFolder"@,
    ]
}

/// The place of the first of the fields from `from` on that is given
/// without being text, or the number of fields where there is none.
pub open spec fn first_not_text(fields: Seq<JsonFieldView>, from: int) -> int
    decreases fields.len() - from,
{
    if from < 0 || from >= fields.len() {
        fields.len() as int
    } else if fields[from] is NotText {
        from
    } else {
        first_not_text(fields, from + 1)
    }
}

/// Takes a setting from a field: the text where one is given, nothing
/// where the field is absent, the failure `InvalidSettingsField` with the
/// name of the setting where the field is something else.
fn take_setting(target: &mut String, field: JsonField, key: &str) -> (r: Result<(), Error>)
    ensures
        match field@ {
            JsonFieldView::Text(text) => r is Ok && final(target)@ == text,
            JsonFieldView::Absent => r is Ok && final(target)@ == old(target)@,
            JsonFieldView::NotText => {
                &&& r is Err
                &&& r->Err_0.kind() == ErrorKind::InvalidSettingsField
                &&& r->Err_0.message() == key@
            },
        },
{
    match field {
        JsonField::Text(text) => {
            *target = text;
            Ok(())
        },
        JsonField::Absent => Ok(()),
        JsonField::NotText => Err(Error::InvalidSettingsField(String::from_str(key))),
    }
}

impl GutenbergCacheSettings {
    /// The settings that five fields give, in the order file name of the
    /// cache, unpack directory, archive name, download link, folder of the
    /// texts: each setting is the text of its field, or the usual value
    /// where the field is absent. The first field that is given without
    /// being text fails with `InvalidSettingsField` and the name of its
    /// setting.
    pub fn from_fields(
        cache_filename: JsonField,
        cache_unpack_dir: JsonField,
        cache_archive_name: JsonField,
        cache_rdf_download_link: JsonField,
        text_files_cache_folder: JsonField,
    ) -> (r: Result<GutenbergCacheSettings, Error>)
        ensures
            ({
                let fields = seq![
                    cache_filename@,
                    cache_unpack_dir@,
                    cache_archive_name@,
                    cache_rdf_download_link@,
                    text_files_cache_folder@,
                ];
                let bad = first_not_text(fields, 0);
                if bad < 5 {
                    &&& r is Err
                    &&& r->Err_0.kind() == ErrorKind::InvalidSettingsField
                    &&& r->Err_0.message() == setting_keys()[bad]
                } else {
                    &&& r is Ok
                    &&& !r->Ok_0.db_in_memory
                    &&& r->Ok_0.cache_filename@ == setting_of(
                        cache_filename@,
                        "gutenbergindex.db"@,
                    )
                    &&& cache_unpack_dir@ matches JsonFieldView::Text(text)
                        ==> r->Ok_0.cache_rdf_unpack_directory@ == text
                    &&& r->Ok_0.cache_rdf_archive_name@ == setting_of(
                        cache_archive_name@,
                        "rdf-files.tar.bz2"@,
                    )
                    &&& r->Ok_0.cache_rdf_download_link@ == setting_of(
                        cache_rdf_download_link@,
                        "https://www.gutenberg.org/cache/epub/feeds/rdf-files.tar.bz2"@,
                    )
                    &&& r->Ok_0.text_files_cache_folder@ == setting_of(
                        text_files_cache_folder@,
                        "text_cache"@,
                    )
                }
            }),
    {
        let ghost fields = seq![
            cache_filename@,
            cache_unpack_dir@,
            cache_archive_name@,
            cache_rdf_download_link@,
            text_files_cache_folder@,
        ];
        proof {
            reveal_with_fuel(first_not_text, 6);
            assert(fields[0] == cache_filename@ && fields[1] == cache_unpack_dir@ && fields[2]
                == cache_archive_name@ && fields[3] == cache_rdf_download_link@ && fields[4]
                == text_files_cache_folder@);
        }
        let mut settings = GutenbergCacheSettings::default();
        take_setting(&mut settings.cache_filename, cache_filename, "CacheFilename")?;
        take_setting(&mut settings.cache_rdf_unpack_directory, cache_unpack_dir, "CacheUnpackDir")?;
        take_setting(
            &mut settings.cache_rdf_archive_name,
            cache_archive_name,
            "CacheArchiveName",
        )?;
        take_setting(
            &mut settings.cache_rdf_download_link,
            cache_rdf_download_link,
            "CacheRDFDownloadLink",
        )?;
        take_setting(
            &mut settings.text_files_cache_folder,
            text_files_cache_folder,
            "TextFilesCacheFolder",
        )?;
        Ok(settings)
    }

    /// The settings that a JSON object gives under the names
    /// `CacheFilename`, `CacheUnpackDir`, `CacheArchiveName`,
    /// `CacheRDFDownloadLink` and `TextFilesCacheFolder`; what it does not
    /// give keeps its usual value. The first of these names, in this order,
    /// under which the object holds something that is not a string fails
    /// with `InvalidSettingsField` and that name.
    pub fn from(json: &Value) -> (r: Result<GutenbergCacheSettings, Error>)
        ensures
            ({
                let fields = seq![
                    json_field(*json, "CacheFilename"@),
                    json_field(*json, "CacheUnpackDir"@),
                    json_field(*json, "CacheArchiveName"@),
                    json_field(*json, "CacheRDFDownloadLink"@),
                    json_field(*json, "TextFilesCacheFolder"@),
                ];
                let bad = first_not_text(fields, 0);
                if bad < 5 {
                    &&& r is Err
                    &&& r->Err_0.kind() == ErrorKind::InvalidSettingsField
                    &&& r->Err_0.message() == setting_keys()[bad]
                } else {
                    &&& r is Ok
                    &&& !r->Ok_0.db_in_memory
                    &&& r->Ok_0.cache_filename@ == setting_of(fields[0], "gutenbergindex.db"@)
                    &&& fields[1] matches JsonFieldView::Text(text)
                        ==> r->Ok_0.cache_rdf_unpack_directory@ == text
                    &&& r->Ok_0.cache_rdf_archive_name@ == setting_of(
                        fields[2],
                        "rdf-files.tar.bz2"@,
                    )
                    &&& r->Ok_0.cache_rdf_download_link@ == setting_of(
                        fields[3],
                        "https://www.gutenberg.org/cache/epub/feeds/rdf-files.tar.bz2"@,
                    )
                    &&& r->Ok_0.text_files_cache_folder@ == setting_of(fields[4], "text_cache"@)
                }
            }),
    {
        GutenbergCacheSettings::from_fields(
            text_field(json, "CacheFilename"),
            text_field(json, "CacheUnpackDir"),
            text_field(json, "CacheArchiveName"),
            text_field(json, "CacheRDFDownloadLink"),
            text_field(json, "TextFilesCacheFolder"),
        )
    }
}

} // verus!
