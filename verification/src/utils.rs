//! Small computations round fetching and unpacking the archive.

use crate::chars::{chars_of, string_from_chars};
use vstd::prelude::*;

verus! {

/// The name of an archive without its last three characters, and nothing
/// where the name is shorter than that.
pub open spec fn without_suffix(name: Seq<char>) -> Option<Seq<char>> {
    if name.len() >= 3 {
        Some(name.subrange(0, name.len() - 3))
    } else {
        None
    }
}

/// The name under which a compressed archive is unpacked: the name of the
/// archive without its last three characters, the letters `bz2` of a name
/// that ends in `.bz2`.
pub fn decompressed_name(path: &str) -> (name: Option<String>)
    ensures
        match without_suffix(path@) {
            Some(text) => name is Some && name->0@ == text,
            None => name is None,
        },
{
    let chars = chars_of(path);
    let n = chars.len();
    if n < 3 {
        return None;
    }
    let mut kept: Vec<char> = Vec::new();
    let mut i: usize = 0;
    while i < n - 3
        invariant
            n == chars@.len(),
            n >= 3,
            i <= n - 3,
            kept@ == chars@.subrange(0, i as int),
        decreases n - i,
    {
        kept.push(chars[i]);
        i += 1;
    }
    Some(string_from_chars(&kept))
}

/// How far a download has come after one more chunk: the bytes so far and
/// the bytes of the chunk, and no more than the whole.
pub fn download_progress(downloaded: u64, chunk: u64, total: u64) -> (position: u64)
    ensures
        position == if downloaded + chunk <= total {
            downloaded + chunk
        } else {
            total as int
        },
{
    if chunk <= total && downloaded <= total - chunk {
        downloaded + chunk
    } else {
        total
    }
}

} // verus!
