//! Which directory of an unpacked archive is hashed.
use vstd::prelude::*;

verus! {

/// Hashes archives the way `fetchzip` does.
pub struct TarballHasher;

/// The directory hashed, given the top-level entries of the unpacked
/// archive (each path, and whether it is a directory): the single
/// top-level directory when there is exactly that (`stripRoot`), otherwise
/// the directory it was unpacked in; an error when there is nothing.
pub open spec fn spec_content_root(parent: Seq<char>, entries: Seq<(Seq<char>, bool)>) -> Result<Seq<char>, Seq<char>> {
    if entries.len() == 0 {
        Err("Tarball produced no top-level entries"@)
    } else if entries.len() == 1 && entries[0].1 {
        Ok(entries[0].0)
    } else {
        Ok(parent)
    }
}

impl TarballHasher {
    /// The directory hashed (see [`spec_content_root`]).
    pub fn content_root(parent: &str, entries: &Vec<(String, bool)>) -> (r: Result<String, String>)
        ensures
            match r {
                Ok(p) => spec_content_root(parent@, entries@.map_values(|e: (String, bool)| (e.0@, e.1)))
                    == Ok::<Seq<char>, Seq<char>>(p@),
                Err(e) => spec_content_root(parent@, entries@.map_values(|e: (String, bool)| (e.0@, e.1)))
                    == Err::<Seq<char>, Seq<char>>(e@),
            },
    {
        if entries.len() == 0 {
            Err(String::from_str("Tarball produced no top-level entries"))
        } else if entries.len() == 1 && entries[0].1 {
            Ok(String::from_str(entries[0].0.as_str()))
        } else {
            Ok(String::from_str(parent))
        }
    }
}

} // verus!
