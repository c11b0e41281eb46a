//! Paths, held as strings.

use vstd::prelude::*;
use crate::text::{chars_of, owned, push_char};

verus! {

/// `base.join(part)` for Unix paths: an absolute `part` replaces `base`;
/// otherwise a `'/'` goes between them unless `base` is empty or already
/// ends with one.
pub open spec fn path_join(base: Seq<char>, part: Seq<char>) -> Seq<char> {
    if part.len() > 0 && part[0] == '/' {
        part
    } else if base.len() > 0 && base.last() != '/' {
        base + seq!['/'] + part
    } else {
        base + part
    }
}

pub fn join_path(base: &str, part: &str) -> (r: String)
    ensures
        r@ == path_join(base@, part@),
{
    let pv = chars_of(part);
    if pv.len() > 0 && pv[0] == '/' {
        return owned(part);
    }
    let bv = chars_of(base);
    let mut r = owned(base);
    if bv.len() > 0 && bv[bv.len() - 1] != '/' {
        push_char(&mut r, '/');
    }
    r.append(part);
    r
}

} // verus!
