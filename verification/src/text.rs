//! Character-level text utilities shared by the parsers: conversion of a
//! string slice to a character vector, searching, literal matching, and
//! building strings back from character ranges.

use vstd::prelude::*;
use vstd::string::*;

verus! {

/// First index `>= from` at which `c` occurs in `s`, if any.
pub open spec fn first_index_of(s: Seq<char>, from: int, c: char) -> Option<int>
    decreases s.len() - from,
    when 0 <= from <= s.len()
{
    if from >= s.len() {
        None
    } else if s[from] == c {
        Some(from)
    } else {
        first_index_of(s, from + 1, c)
    }
}

pub proof fn lemma_first_index_of(s: Seq<char>, from: int, c: char)
    requires
        0 <= from <= s.len(),
    ensures
        match first_index_of(s, from, c) {
            Some(i) => from <= i < s.len() && s[i] == c && forall|j: int| from <= j < i ==> s[j] != c,
            None => forall|j: int| from <= j < s.len() ==> s[j] != c,
        },
    decreases s.len() - from,
{
    if from < s.len() && s[from] != c {
        lemma_first_index_of(s, from + 1, c);
    }
}

/// Collects the characters of a string slice into a vector.
pub fn to_chars(s: &str) -> (v: Vec<char>)
    ensures
        v@ == s@,
{
    let n: usize = s.unicode_len();
    let mut v: Vec<char> = Vec::new();
    let mut i: usize = 0;
    while i < n
        invariant
            i <= n,
            n == s@.len(),
            v@ == s@.subrange(0, i as int),
        decreases n - i,
    {
        v.push(s.get_char(i));
        proof {
            assert(v@ =~= s@.subrange(0, i + 1 as int));
        }
        i = i + 1;
    }
    proof {
        assert(v@ =~= s@);
    }
    v
}

/// Relies on `String::push` from std: appends exactly the one character.
#[verifier::external_body]
pub fn push_char(s: &mut String, c: char)
    ensures
        final(s)@ == old(s)@.push(c),
{
    s.push(c);
}

/// Builds a string from the characters `v[from..to]`.
pub fn chars_to_string(v: &Vec<char>, from: usize, to: usize) -> (s: String)
    requires
        from <= to <= v@.len(),
    ensures
        s@ == v@.subrange(from as int, to as int),
{
    let mut s = String::new();
    let mut i: usize = from;
    while i < to
        invariant
            from <= i <= to,
            to <= v@.len(),
            s@ == v@.subrange(from as int, i as int),
        decreases to - i,
    {
        push_char(&mut s, v[i]);
        proof {
            assert(s@ =~= v@.subrange(from as int, i + 1 as int));
        }
        i = i + 1;
    }
    s
}

/// First occurrence of `c` in `v` at or after `from`.
pub fn find_char(v: &Vec<char>, from: usize, c: char) -> (r: Option<usize>)
    requires
        from <= v@.len(),
    ensures
        match r {
            Some(i) => first_index_of(v@, from as int, c) == Some(i as int) && from <= i < v@.len(),
            None => first_index_of(v@, from as int, c) is None,
        },
{
    let mut i: usize = from;
    while i < v.len()
        invariant
            from <= i <= v@.len(),
            first_index_of(v@, from as int, c) == first_index_of(v@, i as int, c),
        decreases v@.len() - i,
    {
        if v[i] == c {
            return Some(i);
        }
        i = i + 1;
    }
    None
}

/// Does `v[from..]` start with the literal `lit`?
pub fn matches_at(v: &Vec<char>, from: usize, lit: &str) -> (r: bool)
    requires
        from <= v@.len(),
    ensures
        r <==> (from + lit@.len() <= v@.len() && v@.subrange(
            from as int,
            from + lit@.len(),
        ) == lit@),
{
    let n: usize = lit.unicode_len();
    if n > v.len() - from {
        return false;
    }
    let mut i: usize = 0;
    while i < n
        invariant
            i <= n,
            n == lit@.len(),
            from + n <= v@.len(),
            v@.len() <= usize::MAX,
            forall|j: int| 0 <= j < i ==> v@[from + j] == lit@[j],
        decreases n - i,
    {
        if v[from + i] != lit.get_char(i) {
            proof {
                assert(v@.subrange(from as int, from + lit@.len())[i as int] != lit@[i as int]);
            }
            return false;
        }
        i = i + 1;
    }
    proof {
        assert(v@.subrange(from as int, from + lit@.len()) =~= lit@);
    }
    true
}

} // verus!
