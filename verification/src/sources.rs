//! The default list of input documents.

use vstd::prelude::*;

verus! {

/// The identifiers of the default input documents, in processing order.
pub open spec fn default_sources() -> Seq<Seq<char>> {
    seq!["./source_files/404.md"@, "./source_files/features.md"@]
}

/// Returns the default list of front-matter source files.
pub fn get_source_front_matter_files() -> (files: Vec<&'static str>)
    ensures
        files@.len() == 2,
        files@.map_values(|s: &'static str| s@) == default_sources(),
{
    let mut files: Vec<&'static str> = Vec::new();
    files.push("./source_files/404.md");
    files.push("./source_files/features.md");
    files
}

} // verus!
