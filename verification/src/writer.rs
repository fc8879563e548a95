//! Atomic writes: a file is written to a temporary sibling and renamed
//! over its destination, so an aborted write never leaves it half
//! written. The file system work is done by the binaries; the library
//! names the temporary file.

use vstd::prelude::*;
use crate::text::push_str;

verus! {

/// The extension of the temporary sibling of a file with extension `ext`:
/// `ext.reckon.tmp`, or `reckon.tmp` for a file without one.
pub fn tmp_extension(ext: Option<&str>) -> (res: String)
    ensures
        res@ == match ext {
            Some(e) => if e@.len() > 0 {
                e@ + "."@ + "reckon.tmp"@
            } else {
                "reckon.tmp"@
            },
            None => "reckon.tmp"@,
        },
{
    let mut s = String::new();
    match ext {
        Some(e) => push_str(&mut s, e),
        None => {},
    }
    if crate::text::chars_of(s.as_str()).len() > 0 {
        push_str(&mut s, ".");
    }
    push_str(&mut s, "reckon.tmp");
    proof {
        reveal_strlit("");
    }
    assert(s@ =~= match ext {
        Some(e) => if e@.len() > 0 {
            e@ + "."@ + "reckon.tmp"@
        } else {
            "reckon.tmp"@
        },
        None => "reckon.tmp"@,
    });
    s
}

} // verus!
