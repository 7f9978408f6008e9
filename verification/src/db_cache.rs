//! What a cache can be asked.

use crate::error::Error;
use serde_json::Value;
use vstd::prelude::*;

verus! {

/// A cache that can be asked for works and for the links of their files.
pub trait DBCache {
    /// The catalog identifiers of the works that meet the predicates given
    /// as a JSON object.
    fn query(&mut self, json: &Value) -> Result<Vec<i32>, Error>;

    /// The catalog identifiers that a statement of the caller selects.
    fn native_query(&mut self, query: &str) -> Result<Vec<i32>, Error>;

    /// The links of the files that hold the text of the works with these
    /// catalog identifiers.
    fn get_download_links(&mut self, ids: Vec<i32>) -> Result<Vec<String>, Error>;
}

} // verus!
