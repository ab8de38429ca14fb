//! File-system paths held as text, joined the way `Path::join` does on Unix.

use vstd::prelude::*;
use vstd::string::{StrSliceExecFns, StringExecFns};
use crate::text::push_char;

verus! {

/// `base` joined with `rel`: an absolute `rel` replaces `base`, otherwise a
/// separator is put between them unless `base` is empty or already ends in one.
pub open spec fn spec_join_path(base: Seq<char>, rel: Seq<char>) -> Seq<char> {
    if rel.len() > 0 && rel[0] == '/' {
        rel
    } else if base.len() == 0 {
        rel
    } else if base.last() == '/' {
        base + rel
    } else {
        base + seq!['/'] + rel
    }
}

pub fn join_path(base: &str, rel: &str) -> (r: String)
    ensures
        r@ == spec_join_path(base@, rel@),
{
    let rel_len = rel.unicode_len();
    if rel_len > 0 && rel.get_char(0) == '/' {
        return String::from_str(rel);
    }
    let base_len = base.unicode_len();
    if base_len == 0 {
        return String::from_str(rel);
    }
    let mut r = String::from_str(base);
    if base.get_char(base_len - 1) != '/' {
        push_char(&mut r, '/');
    }
    r.append(rel);
    r
}

} // verus!
