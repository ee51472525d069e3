use vstd::prelude::*;

pub mod cache;
pub mod editor;
pub mod manifest;
pub mod parse;
pub mod registry;
pub mod resolve;
pub mod settings;
pub mod table;
pub mod text;
pub mod version;

verus! {

/// The file names that are treated as manifests when nothing else is configured.
pub fn default_files() -> (r: Vec<String>)
    ensures
        r@.len() == 1,
        r@[0]@ == "Cargo.toml"@,
{
    let mut r: Vec<String> = Vec::new();
    r.push(String::from_str("Cargo.toml"));
    r
}

} // verus!
