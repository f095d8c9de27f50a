//! The bearer challenge carried by a 401 response: a `WWW-Authenticate`
//! value of the exact shape `Bearer realm="...",service="...",scope="..."`.
//! Anything else fails to parse; a malformed value is never treated as the
//! absence of a challenge. The quoted fields themselves contain no quote.

use vstd::prelude::*;
use vstd::string::*;

use crate::text::{chars_to_string, find_char, first_index_of, matches_at, to_chars};

verus! {

/// A parsed bearer challenge.
pub struct AuthChallenge {
    pub realm: String,
    pub service: String,
    pub scope: String,
}

/// The exact challenge grammar: the literal prefix, then the three quoted
/// fields separated by the literal middles, the closing quote ending the
/// value. Each field runs to the next quote.
pub open spec fn spec_parse_challenge(s: Seq<char>) -> Option<(Seq<char>, Seq<char>, Seq<char>)> {
    let p = "Bearer realm=\""@;
    let m1 = "\",service=\""@;
    let m2 = "\",scope=\""@;
    if s.len() < p.len() || s.subrange(0, p.len() as int) != p {
        None
    } else {
        match first_index_of(s, p.len() as int, '"') {
            None => None,
            Some(i1) => if i1 < p.len() || i1 + m1.len() > s.len() || s.subrange(i1, i1 + m1.len())
                != m1 {
                None
            } else {
                match first_index_of(s, i1 + m1.len(), '"') {
                    None => None,
                    Some(i2) => if i2 < i1 + m1.len() || i2 + m2.len() > s.len() || s.subrange(
                        i2,
                        i2 + m2.len(),
                    ) != m2 {
                        None
                    } else {
                        match first_index_of(s, i2 + m2.len(), '"') {
                            None => None,
                            Some(i3) => if i2 + m2.len() <= i3 && i3 + 1 == s.len() {
                                Some(
                                    (
                                        s.subrange(p.len() as int, i1),
                                        s.subrange(i1 + m1.len(), i2),
                                        s.subrange(i2 + m2.len(), i3),
                                    ),
                                )
                            } else {
                                None
                            },
                        }
                    },
                }
            },
        }
    }
}

/// Parses a `WWW-Authenticate` value. Yields the challenge exactly when
/// the value matches the grammar, and nothing otherwise.
pub fn parse_challenge(h: &str) -> (r: Option<AuthChallenge>)
    ensures
        match r {
            Some(c) => spec_parse_challenge(h@) == Some((c.realm@, c.service@, c.scope@)),
            None => spec_parse_challenge(h@) is None,
        },
{
    let v = to_chars(h);
    if !matches_at(&v, 0, "Bearer realm=\"") {
        return None;
    }
    let plen = "Bearer realm=\"".unicode_len();
    let i1 = match find_char(&v, plen, '"') {
        Some(i) => i,
        None => {
            return None;
        },
    };
    if !matches_at(&v, i1, "\",service=\"") {
        return None;
    }
    let m1len = "\",service=\"".unicode_len();
    let i2 = match find_char(&v, i1 + m1len, '"') {
        Some(i) => i,
        None => {
            return None;
        },
    };
    if !matches_at(&v, i2, "\",scope=\"") {
        return None;
    }
    let m2len = "\",scope=\"".unicode_len();
    let i3 = match find_char(&v, i2 + m2len, '"') {
        Some(i) => i,
        None => {
            return None;
        },
    };
    if i3 + 1 != v.len() {
        return None;
    }
    let realm = chars_to_string(&v, plen, i1);
    let service = chars_to_string(&v, i1 + m1len, i2);
    let scope = chars_to_string(&v, i2 + m2len, i3);
    Some(AuthChallenge { realm, service, scope })
}

} // verus!
