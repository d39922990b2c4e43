//! Paths, as text.
use vstd::prelude::*;

use crate::text::chars_of;

verus! {

/// `name` in the directory `base`.
pub open spec fn joined(base: Seq<char>, name: Seq<char>) -> Seq<char> {
    if base.len() == 0 {
        name
    } else if base.last() == '/' {
        base + name
    } else {
        base + "/"@ + name
    }
}

/// `name` in the directory `base`, for a relative `name`.
pub fn join(base: &str, name: &str) -> (r: String)
    ensures
        r@ == joined(base@, name@),
{
    let b = chars_of(base);
    if b.len() == 0 {
        return name.to_owned();
    }
    let mut r = base.to_owned();
    if b[b.len() - 1] != '/' {
        r.push_str("/");
    }
    r.push_str(name);
    r
}

/// The configuration directory of a home directory: `~/.clawshake`.
pub open spec fn dir_of(home: Seq<char>) -> Seq<char> {
    joined(home, ".clawshake"@)
}

} // verus!
