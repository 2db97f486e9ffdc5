//! Which directory entries a listing hands out.
use vstd::prelude::*;

verus! {

/// Whether a directory listing hands out the entry `name`: every entry
/// but "." and "..".
pub fn dir_visible(name: &str) -> (r: bool)
    ensures
        r == !(name@ == "."@ || name@ == ".."@),
{
    let n = name.to_owned();
    let dot = ".".to_owned();
    let dotdot = "..".to_owned();
    !(n == dotdot || n == dot)
}

} // verus!
