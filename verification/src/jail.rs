//! The jail bootstrap's computation: where the target executable lives
//! inside the ephemeral root. The command's absolute path is made relative
//! by stripping one leading slash, so that the copy placed at that
//! relative location is found at the same absolute path once the root
//! change has taken effect. The directory creation, the copy and the root
//! change themselves are filesystem effects performed by the driver, in
//! this order, strictly before any layer is extracted.

use vstd::prelude::*;
use vstd::string::*;

use crate::text::{chars_to_string, to_chars};

verus! {

/// The path of the command relative to the filesystem root: the command
/// without its leading slash, or unchanged when it has none.
pub open spec fn spec_jail_relative(s: Seq<char>) -> Seq<char> {
    if s.len() > 0 && s[0] == '/' {
        s.subrange(1, s.len() as int)
    } else {
        s
    }
}

/// Where to copy the command inside the jail: `/bin/sh` goes to `bin/sh`.
pub fn jail_relative(command: &str) -> (r: String)
    ensures
        r@ == spec_jail_relative(command@),
{
    let v = to_chars(command);
    let n = v.len();
    if n > 0 && v[0] == '/' {
        chars_to_string(&v, 1, n)
    } else {
        let r = chars_to_string(&v, 0, n);
        proof {
            assert(r@ =~= command@);
        }
        r
    }
}

} // verus!
