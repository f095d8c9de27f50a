//! Schema-directed decoding of the two JSON response bodies the registry
//! protocol uses: the manifest (an object whose `fsLayers` field is an
//! ordered array of objects carrying a `blobSum` string) and the token
//! response (an object with a `token` string field). Unknown fields are
//! skipped; the required string values must not contain escape sequences;
//! any deviation from the expected shape is a decode failure, never a
//! default. The spec functions are the grammar; the exec functions return
//! exactly what the grammar yields.

use vstd::prelude::*;
use vstd::string::*;

use crate::text::{chars_to_string, matches_at, to_chars};

verus! {

pub open spec fn is_ws_char(c: char) -> bool {
    c == ' ' || c == '\t' || c == '\n' || c == '\r'
}

/// A character that may appear in an unquoted scalar (number, `true`,
/// `false`, `null`): letters, digits, sign, dot.
pub open spec fn is_prim_char(c: char) -> bool {
    (48 <= c as u32 && c as u32 <= 57) || (97 <= c as u32 && c as u32 <= 122) || (65 <= c as u32
        && c as u32 <= 90) || c as u32 == 43 || c as u32 == 45 || c as u32 == 46
}

/// Index of the first non-whitespace character at or after `i`.
pub open spec fn spec_skip_ws(s: Seq<char>, i: int) -> int
    decreases s.len() - i,
    when 0 <= i <= s.len()
{
    if i < s.len() && is_ws_char(s[i]) {
        spec_skip_ws(s, i + 1)
    } else {
        i
    }
}

/// Index of the first non-scalar character at or after `i`.
pub open spec fn spec_prim_end(s: Seq<char>, i: int) -> int
    decreases s.len() - i,
    when 0 <= i <= s.len()
{
    if i < s.len() && is_prim_char(s[i]) {
        spec_prim_end(s, i + 1)
    } else {
        i
    }
}

/// Scans a string body starting at `i` (just after the opening quote),
/// tolerating backslash escapes; yields the index just past the closing
/// quote.
pub open spec fn spec_string_end(s: Seq<char>, i: int) -> Option<int>
    decreases s.len() - i,
    when 0 <= i <= s.len()
{
    if i >= s.len() {
        None
    } else if s[i] == '"' {
        Some(i + 1)
    } else if s[i] == '\\' {
        if i + 2 <= s.len() {
            spec_string_end(s, i + 2)
        } else {
            None
        }
    } else {
        spec_string_end(s, i + 1)
    }
}

/// Scans a string body that must not contain escapes (a key or a captured
/// value); yields the index of the closing quote itself.
pub open spec fn spec_key_end(s: Seq<char>, i: int) -> Option<int>
    decreases s.len() - i,
    when 0 <= i <= s.len()
{
    if i >= s.len() {
        None
    } else if s[i] == '"' {
        Some(i)
    } else if s[i] == '\\' {
        None
    } else {
        spec_key_end(s, i + 1)
    }
}

/// Skips one JSON value starting at `i`.
pub open spec fn spec_skip_value(s: Seq<char>, i: int) -> Option<int>
    decreases s.len() - i, 0int,
    when 0 <= i <= s.len()
{
    if i >= s.len() {
        None
    } else if s[i] == '"' {
        spec_string_end(s, i + 1)
    } else if s[i] == '{' {
        spec_skip_object_body(s, i + 1)
    } else if s[i] == '[' {
        spec_skip_array_body(s, i + 1)
    } else {
        let j = spec_prim_end(s, i);
        if j <= i || j > s.len() {
            None
        } else {
            Some(j)
        }
    }
}

/// Skips the remainder of an object, `i` pointing just after `{`.
pub open spec fn spec_skip_object_body(s: Seq<char>, i: int) -> Option<int>
    decreases s.len() - i, 2int,
    when 0 <= i <= s.len()
{
    let j = spec_skip_ws(s, i);
    if j < i || j > s.len() {
        None
    } else if j < s.len() && s[j] == '}' {
        Some(j + 1)
    } else {
        spec_skip_members(s, j)
    }
}

/// Skips members of an object, `i` pointing at the quote of a key.
pub open spec fn spec_skip_members(s: Seq<char>, i: int) -> Option<int>
    decreases s.len() - i, 1int,
    when 0 <= i <= s.len()
{
    if i >= s.len() || s[i] != '"' {
        None
    } else {
        match spec_string_end(s, i + 1) {
            None => None,
            Some(k) => if k <= i || k > s.len() {
                None
            } else {
                let j = spec_skip_ws(s, k);
                if j < k || j >= s.len() || s[j] != ':' {
                    None
                } else {
                    let v = spec_skip_ws(s, j + 1);
                    if v < j + 1 || v > s.len() {
                        None
                    } else {
                        match spec_skip_value(s, v) {
                            None => None,
                            Some(e) => if e <= v || e > s.len() {
                                None
                            } else {
                                let w = spec_skip_ws(s, e);
                                if w < e || w >= s.len() {
                                    None
                                } else if s[w] == ',' {
                                    let n = spec_skip_ws(s, w + 1);
                                    if n < w + 1 || n > s.len() {
                                        None
                                    } else {
                                        spec_skip_members(s, n)
                                    }
                                } else if s[w] == '}' {
                                    Some(w + 1)
                                } else {
                                    None
                                }
                            },
                        }
                    }
                }
            },
        }
    }
}

/// Skips the remainder of an array, `i` pointing just after `[`.
pub open spec fn spec_skip_array_body(s: Seq<char>, i: int) -> Option<int>
    decreases s.len() - i, 2int,
    when 0 <= i <= s.len()
{
    let j = spec_skip_ws(s, i);
    if j < i || j > s.len() {
        None
    } else if j < s.len() && s[j] == ']' {
        Some(j + 1)
    } else {
        spec_skip_elems(s, j)
    }
}

/// Skips elements of an array, `i` pointing at the first character of an
/// element.
pub open spec fn spec_skip_elems(s: Seq<char>, i: int) -> Option<int>
    decreases s.len() - i, 1int,
    when 0 <= i <= s.len()
{
    match spec_skip_value(s, i) {
        None => None,
        Some(e) => if e <= i || e > s.len() {
            None
        } else {
            let w = spec_skip_ws(s, e);
            if w < e || w >= s.len() {
                None
            } else if s[w] == ',' {
                let n = spec_skip_ws(s, w + 1);
                if n < w + 1 || n > s.len() {
                    None
                } else {
                    spec_skip_elems(s, n)
                }
            } else if s[w] == ']' {
                Some(w + 1)
            } else {
                None
            }
        },
    }
}

/// Members of an object that must carry exactly one `field` whose value is
/// an escape-free string; other members are skipped. `i` points at the
/// quote of a key; yields the captured value and the index just past `}`.
pub open spec fn spec_field_members(
    s: Seq<char>,
    i: int,
    field: Seq<char>,
    acc: Option<Seq<char>>,
) -> Option<(Seq<char>, int)>
    decreases s.len() - i, 1int,
    when 0 <= i <= s.len()
{
    if i >= s.len() || s[i] != '"' {
        None
    } else {
        match spec_key_end(s, i + 1) {
            None => None,
            Some(q) => if q < i + 1 || q >= s.len() {
                None
            } else {
                let key = s.subrange(i + 1, q);
                let j = spec_skip_ws(s, q + 1);
                if j < q + 1 || j >= s.len() || s[j] != ':' {
                    None
                } else {
                    let v = spec_skip_ws(s, j + 1);
                    if v < j + 1 || v > s.len() {
                        None
                    } else if key == field {
                        if acc is Some || v >= s.len() || s[v] != '"' {
                            None
                        } else {
                            match spec_key_end(s, v + 1) {
                                None => None,
                                Some(p) => if p < v + 1 || p >= s.len() {
                                    None
                                } else {
                                    spec_field_tail(s, p + 1, field, Some(s.subrange(v + 1, p)))
                                },
                            }
                        }
                    } else {
                        match spec_skip_value(s, v) {
                            None => None,
                            Some(e) => if e <= v || e > s.len() {
                                None
                            } else {
                                spec_field_tail(s, e, field, acc)
                            },
                        }
                    }
                }
            },
        }
    }
}

/// After one member of a field-carrying object: either a comma and more
/// members, or the closing brace, which requires the field to have been
/// seen.
pub open spec fn spec_field_tail(
    s: Seq<char>,
    e: int,
    field: Seq<char>,
    acc: Option<Seq<char>>,
) -> Option<(Seq<char>, int)>
    decreases s.len() - e, 0int,
    when 0 <= e <= s.len()
{
    let w = spec_skip_ws(s, e);
    if w < e || w >= s.len() {
        None
    } else if s[w] == ',' {
        let n = spec_skip_ws(s, w + 1);
        if n < w + 1 || n > s.len() {
            None
        } else {
            spec_field_members(s, n, field, acc)
        }
    } else if s[w] == '}' {
        match acc {
            Some(val) => Some((val, w + 1)),
            None => None,
        }
    } else {
        None
    }
}

/// One layer object: `{ ... "blobSum": "<digest>" ... }`.
pub open spec fn spec_layer_object(s: Seq<char>, i: int) -> Option<(Seq<char>, int)> {
    if i < 0 || i >= s.len() || s[i] != '{' {
        None
    } else {
        let j = spec_skip_ws(s, i + 1);
        if j < i + 1 || j >= s.len() || s[j] == '}' {
            None
        } else {
            spec_field_members(s, j, "blobSum"@, None)
        }
    }
}

/// Elements of the layers array, in order; `i` points at a layer object.
pub open spec fn spec_layer_elems(s: Seq<char>, i: int, acc: Seq<Seq<char>>) -> Option<
    (Seq<Seq<char>>, int),
>
    decreases s.len() - i,
    when 0 <= i <= s.len()
{
    match spec_layer_object(s, i) {
        None => None,
        Some((d, e)) => if e <= i || e > s.len() {
            None
        } else {
            let w = spec_skip_ws(s, e);
            if w < e || w >= s.len() {
                None
            } else if s[w] == ',' {
                let n = spec_skip_ws(s, w + 1);
                if n < w + 1 || n > s.len() {
                    None
                } else {
                    spec_layer_elems(s, n, acc.push(d))
                }
            } else if s[w] == ']' {
                Some((acc.push(d), w + 1))
            } else {
                None
            }
        },
    }
}

/// The layers array itself, `i` pointing at `[`. Order is preserved
/// exactly as the array lists it.
pub open spec fn spec_layers(s: Seq<char>, i: int) -> Option<(Seq<Seq<char>>, int)> {
    if i < 0 || i >= s.len() || s[i] != '[' {
        None
    } else {
        let j = spec_skip_ws(s, i + 1);
        if j < i + 1 || j > s.len() {
            None
        } else if j < s.len() && s[j] == ']' {
            Some((Seq::empty(), j + 1))
        } else {
            spec_layer_elems(s, j, Seq::empty())
        }
    }
}

/// Members of the manifest object: exactly one `fsLayers` array, other
/// members skipped.
pub open spec fn spec_manifest_members(
    s: Seq<char>,
    i: int,
    acc: Option<Seq<Seq<char>>>,
) -> Option<(Seq<Seq<char>>, int)>
    decreases s.len() - i, 1int,
    when 0 <= i <= s.len()
{
    if i >= s.len() || s[i] != '"' {
        None
    } else {
        match spec_key_end(s, i + 1) {
            None => None,
            Some(q) => if q < i + 1 || q >= s.len() {
                None
            } else {
                let key = s.subrange(i + 1, q);
                let j = spec_skip_ws(s, q + 1);
                if j < q + 1 || j >= s.len() || s[j] != ':' {
                    None
                } else {
                    let v = spec_skip_ws(s, j + 1);
                    if v < j + 1 || v > s.len() {
                        None
                    } else if key == "fsLayers"@ {
                        if acc is Some {
                            None
                        } else {
                            match spec_layers(s, v) {
                                None => None,
                                Some((ls, e)) => if e <= v || e > s.len() {
                                    None
                                } else {
                                    spec_manifest_tail(s, e, Some(ls))
                                },
                            }
                        }
                    } else {
                        match spec_skip_value(s, v) {
                            None => None,
                            Some(e) => if e <= v || e > s.len() {
                                None
                            } else {
                                spec_manifest_tail(s, e, acc)
                            },
                        }
                    }
                }
            },
        }
    }
}

/// After one member of the manifest object.
pub open spec fn spec_manifest_tail(
    s: Seq<char>,
    e: int,
    acc: Option<Seq<Seq<char>>>,
) -> Option<(Seq<Seq<char>>, int)>
    decreases s.len() - e, 0int,
    when 0 <= e <= s.len()
{
    let w = spec_skip_ws(s, e);
    if w < e || w >= s.len() {
        None
    } else if s[w] == ',' {
        let n = spec_skip_ws(s, w + 1);
        if n < w + 1 || n > s.len() {
            None
        } else {
            spec_manifest_members(s, n, acc)
        }
    } else if s[w] == '}' {
        match acc {
            Some(ls) => Some((ls, w + 1)),
            None => None,
        }
    } else {
        None
    }
}

/// The manifest body: one object with an `fsLayers` array, then only
/// whitespace to the end of the input.
pub open spec fn spec_decode_manifest(s: Seq<char>) -> Option<Seq<Seq<char>>> {
    let i = spec_skip_ws(s, 0);
    if i < 0 || i >= s.len() || s[i] != '{' {
        None
    } else {
        let j = spec_skip_ws(s, i + 1);
        if j < i + 1 || j >= s.len() || s[j] == '}' {
            None
        } else {
            match spec_manifest_members(s, j, None) {
                None => None,
                Some((ls, e)) => if e < 0 || e > s.len() {
                    None
                } else if spec_skip_ws(s, e) == s.len() {
                    Some(ls)
                } else {
                    None
                },
            }
        }
    }
}

/// The token body: one object with a `token` string field, then only
/// whitespace to the end of the input.
pub open spec fn spec_decode_token(s: Seq<char>) -> Option<Seq<char>> {
    let i = spec_skip_ws(s, 0);
    if i < 0 || i >= s.len() || s[i] != '{' {
        None
    } else {
        let j = spec_skip_ws(s, i + 1);
        if j < i + 1 || j >= s.len() || s[j] == '}' {
            None
        } else {
            match spec_field_members(s, j, "token"@, None) {
                None => None,
                Some((tok, e)) => if e < 0 || e > s.len() {
                    None
                } else if spec_skip_ws(s, e) == s.len() {
                    Some(tok)
                } else {
                    None
                },
            }
        }
    }
}

/// The views of a vector of strings.
pub open spec fn strings_model(ss: Seq<String>) -> Seq<Seq<char>> {
    ss.map_values(|t: String| t@)
}

fn skip_ws(v: &Vec<char>, i: usize) -> (j: usize)
    requires
        i <= v@.len(),
    ensures
        j as int == spec_skip_ws(v@, i as int),
        i <= j <= v@.len(),
{
    let mut j: usize = i;
    while j < v.len() && (v[j] == ' ' || v[j] == '\t' || v[j] == '\n' || v[j] == '\r')
        invariant
            i <= j <= v@.len(),
            spec_skip_ws(v@, i as int) == spec_skip_ws(v@, j as int),
        decreases v@.len() - j,
    {
        j = j + 1;
    }
    j
}

fn prim_char(c: char) -> (b: bool)
    ensures
        b == is_prim_char(c),
{
    let u = c as u32;
    (48 <= u && u <= 57) || (97 <= u && u <= 122) || (65 <= u && u <= 90) || u == 43 || u == 45
        || u == 46
}

fn prim_end(v: &Vec<char>, i: usize) -> (j: usize)
    requires
        i <= v@.len(),
    ensures
        j as int == spec_prim_end(v@, i as int),
        i <= j <= v@.len(),
{
    let mut j: usize = i;
    while j < v.len() && prim_char(v[j])
        invariant
            i <= j <= v@.len(),
            spec_prim_end(v@, i as int) == spec_prim_end(v@, j as int),
        decreases v@.len() - j,
    {
        j = j + 1;
    }
    j
}

fn string_end(v: &Vec<char>, i: usize) -> (r: Option<usize>)
    requires
        i <= v@.len(),
    ensures
        match r {
            Some(j) => spec_string_end(v@, i as int) == Some(j as int) && i < j <= v@.len(),
            None => spec_string_end(v@, i as int) is None,
        },
{
    let mut j: usize = i;
    loop
        invariant
            i <= j <= v@.len(),
            spec_string_end(v@, i as int) == spec_string_end(v@, j as int),
        decreases v@.len() - j,
    {
        if j >= v.len() {
            return None;
        }
        if v[j] == '"' {
            return Some(j + 1);
        }
        if v[j] == '\\' {
            if v.len() - j >= 2 {
                j = j + 2;
            } else {
                return None;
            }
        } else {
            j = j + 1;
        }
    }
}

fn key_end(v: &Vec<char>, i: usize) -> (r: Option<usize>)
    requires
        i <= v@.len(),
    ensures
        match r {
            Some(q) => spec_key_end(v@, i as int) == Some(q as int) && i <= q < v@.len(),
            None => spec_key_end(v@, i as int) is None,
        },
{
    let mut j: usize = i;
    loop
        invariant
            i <= j <= v@.len(),
            spec_key_end(v@, i as int) == spec_key_end(v@, j as int),
        decreases v@.len() - j,
    {
        if j >= v.len() {
            return None;
        }
        if v[j] == '"' {
            return Some(j);
        }
        if v[j] == '\\' {
            return None;
        }
        j = j + 1;
    }
}

fn skip_value(v: &Vec<char>, i: usize) -> (r: Option<usize>)
    requires
        i <= v@.len(),
    ensures
        match r {
            Some(j) => spec_skip_value(v@, i as int) == Some(j as int) && i < j <= v@.len(),
            None => spec_skip_value(v@, i as int) is None,
        },
    decreases v@.len() - i, 0int,
{
    if i >= v.len() {
        return None;
    }
    let c = v[i];
    if c == '"' {
        string_end(v, i + 1)
    } else if c == '{' {
        skip_object_body(v, i + 1)
    } else if c == '[' {
        skip_array_body(v, i + 1)
    } else {
        let j = prim_end(v, i);
        if j <= i {
            None
        } else {
            Some(j)
        }
    }
}

fn skip_object_body(v: &Vec<char>, i: usize) -> (r: Option<usize>)
    requires
        i <= v@.len(),
    ensures
        match r {
            Some(j) => spec_skip_object_body(v@, i as int) == Some(j as int) && i < j <= v@.len(),
            None => spec_skip_object_body(v@, i as int) is None,
        },
    decreases v@.len() - i, 2int,
{
    let j = skip_ws(v, i);
    if j < v.len() && v[j] == '}' {
        Some(j + 1)
    } else {
        skip_members(v, j)
    }
}

fn skip_members(v: &Vec<char>, i: usize) -> (r: Option<usize>)
    requires
        i <= v@.len(),
    ensures
        match r {
            Some(j) => spec_skip_members(v@, i as int) == Some(j as int) && i < j <= v@.len(),
            None => spec_skip_members(v@, i as int) is None,
        },
    decreases v@.len() - i, 1int,
{
    if i >= v.len() {
        return None;
    }
    if v[i] != '"' {
        return None;
    }
    let k = match string_end(v, i + 1) {
        Some(k) => k,
        None => {
            return None;
        },
    };
    let j = skip_ws(v, k);
    if j >= v.len() {
        return None;
    }
    if v[j] != ':' {
        return None;
    }
    let val = skip_ws(v, j + 1);
    let e = match skip_value(v, val) {
        Some(e) => e,
        None => {
            return None;
        },
    };
    let w = skip_ws(v, e);
    if w >= v.len() {
        return None;
    }
    if v[w] == ',' {
        let n = skip_ws(v, w + 1);
        skip_members(v, n)
    } else if v[w] == '}' {
        Some(w + 1)
    } else {
        None
    }
}

fn skip_array_body(v: &Vec<char>, i: usize) -> (r: Option<usize>)
    requires
        i <= v@.len(),
    ensures
        match r {
            Some(j) => spec_skip_array_body(v@, i as int) == Some(j as int) && i < j <= v@.len(),
            None => spec_skip_array_body(v@, i as int) is None,
        },
    decreases v@.len() - i, 2int,
{
    let j = skip_ws(v, i);
    if j < v.len() && v[j] == ']' {
        Some(j + 1)
    } else {
        skip_elems(v, j)
    }
}

fn skip_elems(v: &Vec<char>, i: usize) -> (r: Option<usize>)
    requires
        i <= v@.len(),
    ensures
        match r {
            Some(j) => spec_skip_elems(v@, i as int) == Some(j as int) && i < j <= v@.len(),
            None => spec_skip_elems(v@, i as int) is None,
        },
    decreases v@.len() - i, 1int,
{
    let e = match skip_value(v, i) {
        Some(e) => e,
        None => {
            return None;
        },
    };
    let w = skip_ws(v, e);
    if w >= v.len() {
        return None;
    }
    if v[w] == ',' {
        let n = skip_ws(v, w + 1);
        skip_elems(v, n)
    } else if v[w] == ']' {
        Some(w + 1)
    } else {
        None
    }
}

fn field_members(v: &Vec<char>, i: usize, field: &str, acc: Option<String>) -> (r: Option<
    (String, usize),
>)
    requires
        i <= v@.len(),
    ensures
        match r {
            Some((val, j)) => spec_field_members(
                v@,
                i as int,
                field@,
                match acc {
                    Some(a) => Some(a@),
                    None => None,
                },
            ) == Some((val@, j as int)) && i < j <= v@.len(),
            None => spec_field_members(
                v@,
                i as int,
                field@,
                match acc {
                    Some(a) => Some(a@),
                    None => None,
                },
            ) is None,
        },
    decreases v@.len() - i, 1int,
{
    if i >= v.len() {
        return None;
    }
    if v[i] != '"' {
        return None;
    }
    let q = match key_end(v, i + 1) {
        Some(q) => q,
        None => {
            return None;
        },
    };
    let j = skip_ws(v, q + 1);
    if j >= v.len() {
        return None;
    }
    if v[j] != ':' {
        return None;
    }
    let val_at = skip_ws(v, j + 1);
    let flen = field.unicode_len();
    let is_field = q - (i + 1) == flen && matches_at(v, i + 1, field);
    proof {
        if is_field {
            assert(v@.subrange(i + 1 as int, q as int) =~= field@);
        } else {
            if v@.subrange(i + 1 as int, q as int) == field@ {
                assert(v@.subrange(i + 1 as int, q as int).len() == field@.len());
                assert(v@.subrange(i + 1 as int, i + 1 + field@.len()) =~= v@.subrange(
                    i + 1 as int,
                    q as int,
                ));
                assert(false);
            }
        }
    }
    if is_field {
        if acc.is_some() {
            return None;
        }
        if val_at >= v.len() {
            return None;
        }
        if v[val_at] != '"' {
            return None;
        }
        let p = match key_end(v, val_at + 1) {
            Some(p) => p,
            None => {
                return None;
            },
        };
        let captured = chars_to_string(v, val_at + 1, p);
        field_tail(v, p + 1, field, Some(captured))
    } else {
        let e = match skip_value(v, val_at) {
            Some(e) => e,
            None => {
                return None;
            },
        };
        field_tail(v, e, field, acc)
    }
}

fn field_tail(v: &Vec<char>, e: usize, field: &str, acc: Option<String>) -> (r: Option<
    (String, usize),
>)
    requires
        e <= v@.len(),
    ensures
        match r {
            Some((val, j)) => spec_field_tail(
                v@,
                e as int,
                field@,
                match acc {
                    Some(a) => Some(a@),
                    None => None,
                },
            ) == Some((val@, j as int)) && e < j <= v@.len(),
            None => spec_field_tail(
                v@,
                e as int,
                field@,
                match acc {
                    Some(a) => Some(a@),
                    None => None,
                },
            ) is None,
        },
    decreases v@.len() - e, 0int,
{
    let w = skip_ws(v, e);
    if w >= v.len() {
        return None;
    }
    if v[w] == ',' {
        let n = skip_ws(v, w + 1);
        field_members(v, n, field, acc)
    } else if v[w] == '}' {
        match acc {
            Some(val) => Some((val, w + 1)),
            None => None,
        }
    } else {
        None
    }
}

/// Decodes the token response body; yields the token exactly when the body
/// matches the expected schema. The token value is taken verbatim: one
/// containing a backslash escape is treated as undecodable (skipped
/// fields may use escapes freely), a deliberate narrowing — tokens are
/// opaque URL-safe strings.
pub fn decode_token(body: &str) -> (r: Option<String>)
    ensures
        match r {
            Some(tok) => spec_decode_token(body@) == Some(tok@),
            None => spec_decode_token(body@) is None,
        },
{
    let v = to_chars(body);
    let i = skip_ws(&v, 0);
    if i >= v.len() {
        return None;
    }
    if v[i] != '{' {
        return None;
    }
    let j = skip_ws(&v, i + 1);
    if j >= v.len() {
        return None;
    }
    if v[j] == '}' {
        return None;
    }
    match field_members(&v, j, "token", None) {
        None => None,
        Some((tok, e)) => {
            let t = skip_ws(&v, e);
            if t == v.len() {
                Some(tok)
            } else {
                None
            }
        },
    }
}

fn layer_elems(v: &Vec<char>, i: usize, acc: Vec<String>) -> (r: Option<(Vec<String>, usize)>)
    requires
        i <= v@.len(),
    ensures
        match r {
            Some((ls, j)) => spec_layer_elems(v@, i as int, strings_model(acc@)) == Some(
                (strings_model(ls@), j as int),
            ) && i < j <= v@.len(),
            None => spec_layer_elems(v@, i as int, strings_model(acc@)) is None,
        },
    decreases v@.len() - i,
{
    if i >= v.len() {
        return None;
    }
    if v[i] != '{' {
        return None;
    }
    let j = skip_ws(v, i + 1);
    if j >= v.len() {
        return None;
    }
    if v[j] == '}' {
        return None;
    }
    let (d, e) = match field_members(v, j, "blobSum", None) {
        Some(de) => de,
        None => {
            return None;
        },
    };
    let w = skip_ws(v, e);
    if w >= v.len() {
        return None;
    }
    if v[w] == ',' {
        let n = skip_ws(v, w + 1);
        let mut acc2 = acc;
        let ghost old_acc = acc2@;
        acc2.push(d);
        proof {
            assert(strings_model(acc2@) =~= strings_model(old_acc).push(acc2@.last()@));
        }
        layer_elems(v, n, acc2)
    } else if v[w] == ']' {
        let mut acc2 = acc;
        let ghost old_acc = acc2@;
        acc2.push(d);
        proof {
            assert(strings_model(acc2@) =~= strings_model(old_acc).push(acc2@.last()@));
        }
        Some((acc2, w + 1))
    } else {
        None
    }
}

fn manifest_members(v: &Vec<char>, i: usize, acc: Option<Vec<String>>) -> (r: Option<
    (Vec<String>, usize),
>)
    requires
        i <= v@.len(),
    ensures
        match r {
            Some((ls, j)) => spec_manifest_members(
                v@,
                i as int,
                match acc {
                    Some(a) => Some(strings_model(a@)),
                    None => None,
                },
            ) == Some((strings_model(ls@), j as int)) && i < j <= v@.len(),
            None => spec_manifest_members(
                v@,
                i as int,
                match acc {
                    Some(a) => Some(strings_model(a@)),
                    None => None,
                },
            ) is None,
        },
    decreases v@.len() - i, 1int,
{
    if i >= v.len() {
        return None;
    }
    if v[i] != '"' {
        return None;
    }
    let q = match key_end(v, i + 1) {
        Some(q) => q,
        None => {
            return None;
        },
    };
    let j = skip_ws(v, q + 1);
    if j >= v.len() {
        return None;
    }
    if v[j] != ':' {
        return None;
    }
    let val_at = skip_ws(v, j + 1);
    let flen = "fsLayers".unicode_len();
    let is_field = q - (i + 1) == flen && matches_at(v, i + 1, "fsLayers");
    proof {
        if is_field {
            assert(v@.subrange(i + 1 as int, q as int) =~= "fsLayers"@);
        } else {
            if v@.subrange(i + 1 as int, q as int) == "fsLayers"@ {
                assert(v@.subrange(i + 1 as int, q as int).len() == "fsLayers"@.len());
                assert(v@.subrange(i + 1 as int, i + 1 + "fsLayers"@.len()) =~= v@.subrange(
                    i + 1 as int,
                    q as int,
                ));
                assert(false);
            }
        }
    }
    if is_field {
        if acc.is_some() {
            return None;
        }
        if val_at >= v.len() {
            return None;
        }
        if v[val_at] != '[' {
            return None;
        }
        let k = skip_ws(v, val_at + 1);
        if k < v.len() && v[k] == ']' {
            let empty: Vec<String> = Vec::new();
            proof {
                assert(strings_model(empty@) =~= Seq::<Seq<char>>::empty());
            }
            manifest_tail(v, k + 1, Some(empty))
        } else {
            let start: Vec<String> = Vec::new();
            proof {
                assert(strings_model(start@) =~= Seq::<Seq<char>>::empty());
            }
            let (ls, e) = match layer_elems(v, k, start) {
                Some(le) => le,
                None => {
                    return None;
                },
            };
            manifest_tail(v, e, Some(ls))
        }
    } else {
        let e = match skip_value(v, val_at) {
            Some(e) => e,
            None => {
                return None;
            },
        };
        manifest_tail(v, e, acc)
    }
}

fn manifest_tail(v: &Vec<char>, e: usize, acc: Option<Vec<String>>) -> (r: Option<
    (Vec<String>, usize),
>)
    requires
        e <= v@.len(),
    ensures
        match r {
            Some((ls, j)) => spec_manifest_tail(
                v@,
                e as int,
                match acc {
                    Some(a) => Some(strings_model(a@)),
                    None => None,
                },
            ) == Some((strings_model(ls@), j as int)) && e < j <= v@.len(),
            None => spec_manifest_tail(
                v@,
                e as int,
                match acc {
                    Some(a) => Some(strings_model(a@)),
                    None => None,
                },
            ) is None,
        },
    decreases v@.len() - e, 0int,
{
    let w = skip_ws(v, e);
    if w >= v.len() {
        return None;
    }
    if v[w] == ',' {
        let n = skip_ws(v, w + 1);
        manifest_members(v, n, acc)
    } else if v[w] == '}' {
        match acc {
            Some(ls) => Some((ls, w + 1)),
            None => None,
        }
    } else {
        None
    }
}

/// Decodes the manifest body; yields the ordered digest list exactly when
/// the body matches the expected schema. Digest values are taken
/// verbatim: one containing a backslash escape is treated as undecodable
/// (skipped fields, such as the embedded history documents, may use
/// escapes freely), a deliberate narrowing — digests are plain
/// `algorithm:hex` strings.
pub fn decode_manifest(body: &str) -> (r: Option<Vec<String>>)
    ensures
        match r {
            Some(ls) => spec_decode_manifest(body@) == Some(strings_model(ls@)),
            None => spec_decode_manifest(body@) is None,
        },
{
    let v = to_chars(body);
    let i = skip_ws(&v, 0);
    if i >= v.len() {
        return None;
    }
    if v[i] != '{' {
        return None;
    }
    let j = skip_ws(&v, i + 1);
    if j >= v.len() {
        return None;
    }
    if v[j] == '}' {
        return None;
    }
    match manifest_members(&v, j, None) {
        None => None,
        Some((ls, e)) => {
            let t = skip_ws(&v, e);
            if t == v.len() {
                Some(ls)
            } else {
                None
            }
        },
    }
}

} // verus!
