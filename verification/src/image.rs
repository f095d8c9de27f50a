//! Image references: a `name:tag` pair parsed from one command-line token.

use vstd::prelude::*;
use vstd::string::*;

use crate::text::{chars_to_string, find_char, first_index_of, lemma_first_index_of, to_chars};

verus! {

/// An image reference. The name is never empty; the tag defaults to
/// `latest` when the token carries no colon.
pub struct Image {
    pub name: String,
    pub tag: String,
}

/// What parsing a reference token means: the token is split at its first
/// colon; without a colon the tag is `latest`; an empty name is rejected.
pub open spec fn spec_parse_image(s: Seq<char>) -> Option<(Seq<char>, Seq<char>)> {
    match first_index_of(s, 0, ':') {
        Some(i) => if i == 0 {
            None
        } else {
            Some((s.subrange(0, i), s.subrange(i + 1, s.len() as int)))
        },
        None => if s.len() == 0 {
            None
        } else {
            Some((s, "latest"@))
        },
    }
}

/// Splits an image token at its first colon. Returns `None` exactly when
/// the name part is empty.
pub fn parse_image(s: &str) -> (r: Option<Image>)
    ensures
        match r {
            Some(img) => spec_parse_image(s@) == Some((img.name@, img.tag@)),
            None => spec_parse_image(s@) is None,
        },
{
    let v = to_chars(s);
    let n = v.len();
    match find_char(&v, 0, ':') {
        Some(i) => {
            if i == 0 {
                None
            } else {
                let name = chars_to_string(&v, 0, i);
                let tag = chars_to_string(&v, i + 1, n);
                Some(Image { name, tag })
            }
        },
        None => {
            if v.len() == 0 {
                None
            } else {
                let name = chars_to_string(&v, 0, v.len());
                let tag = String::from_str("latest");
                proof {
                    assert(name@ =~= s@);
                }
                Some(Image { name, tag })
            }
        },
    }
}

/// The split happens only at the first colon: everything before it is the
/// name, everything after it — further colons included — is the tag.
pub proof fn lemma_parse_image_first_colon(s: Seq<char>, i: int)
    requires
        0 < i < s.len(),
        s[i] == ':',
        forall|j: int| 0 <= j < i ==> s[j] != ':',
    ensures
        spec_parse_image(s) == Some((s.subrange(0, i), s.subrange(i + 1, s.len() as int))),
{
    lemma_first_index_of(s, 0, ':');
    if first_index_of(s, 0, ':') is None {
        assert(s[i] != ':');
        assert(false);
    }
    let k = first_index_of(s, 0, ':')->Some_0;
    if k < i {
        assert(s[k] != ':');
        assert(false);
    }
    if k > i {
        assert(s[i] != ':');
        assert(false);
    }
}

} // verus!
