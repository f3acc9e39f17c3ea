//! Character-sequence utilities shared by the parser, the sanitizer and the
//! cache codec. All executable logic works on `Vec<char>` so that contracts
//! can speak of `Seq<char>` directly.

use vstd::prelude::*;
use vstd::string::*;

verus! {

/// Whitespace characters recognized when splitting command lines.
pub open spec fn is_space_char(c: char) -> bool {
    c == ' ' || c == '\t' || c == '\n' || c == '\r' || c == '\u{b}' || c == '\u{c}'
}

pub fn is_space(c: char) -> (r: bool)
    ensures
        r == is_space_char(c),
{
    c == ' ' || c == '\t' || c == '\n' || c == '\r' || c == '\u{b}' || c == '\u{c}'
}

/// Copy of `s[from..to]` as a fresh vector.
pub fn subvec(s: &Vec<char>, from: usize, to: usize) -> (r: Vec<char>)
    requires
        from <= to <= s.len(),
    ensures
        r@ == s@.subrange(from as int, to as int),
{
    let mut r: Vec<char> = Vec::new();
    let mut i: usize = from;
    while i < to
        invariant
            from <= i <= to <= s.len(),
            r@ == s@.subrange(from as int, i as int),
        decreases to - i,
    {
        r.push(s[i]);
        proof {
            assert(s@.subrange(from as int, i + 1 as int) =~= s@.subrange(from as int, i as int).push(
                s@[i as int],
            ));
        }
        i += 1;
    }
    r
}

/// The characters of a string slice, in order.
pub fn str_to_chars(s: &str) -> (r: Vec<char>)
    ensures
        r@ == s@,
{
    let n = s.unicode_len();
    let mut r: Vec<char> = Vec::new();
    let mut i: usize = 0;
    while i < n
        invariant
            n == s@.len(),
            i <= n,
            r@ == s@.subrange(0, i as int),
        decreases n - i,
    {
        r.push(s.get_char(i));
        proof {
            assert(s@.subrange(0, i + 1 as int) =~= s@.subrange(0, i as int).push(s@[i as int]));
        }
        i += 1;
    }
    proof {
        assert(s@.subrange(0, n as int) =~= s@);
    }
    r
}

/// Relies on `core::iter::Iterator::collect` for `String`: collecting a
/// sequence of characters yields the string holding exactly those characters
/// in order.
#[verifier::external_body]
pub(crate) fn chars_to_string(v: &Vec<char>) -> (r: String)
    ensures
        r@ == v@,
{
    v.iter().collect()
}

/// `p` occurs in `s` at offset `i`.
pub open spec fn match_at(s: Seq<char>, p: Seq<char>, i: int) -> bool {
    0 <= i && i + p.len() <= s.len() && s.subrange(i, i + p.len() as int) == p
}

/// Offset of the first occurrence of `p` in `s`, if any.
pub open spec fn spec_find_sub(s: Seq<char>, p: Seq<char>) -> Option<int>
    decreases s.len(),
{
    if p.len() == 0 {
        Some(0int)
    } else if s.len() < p.len() {
        None
    } else if s.subrange(0, p.len() as int) == p {
        Some(0int)
    } else {
        match spec_find_sub(s.subrange(1, s.len() as int), p) {
            Some(i) => Some(i + 1),
            None => None,
        }
    }
}

/// `spec_find_sub` returns the first match offset and `None` exactly when no
/// offset matches.
pub proof fn lemma_find_sub_first(s: Seq<char>, p: Seq<char>)
    ensures
        match spec_find_sub(s, p) {
            Some(i) => match_at(s, p, i) && (forall|j: int| 0 <= j < i ==> !match_at(s, p, j)),
            None => forall|j: int| !match_at(s, p, j),
        },
    decreases s.len(),
{
    if p.len() == 0 {
        assert(s.subrange(0, 0) =~= p);
        assert(match_at(s, p, 0));
    } else if s.len() < p.len() {
        assert(forall|j: int| !match_at(s, p, j));
    } else if s.subrange(0, p.len() as int) == p {
        assert(match_at(s, p, 0));
    } else {
        let t = s.subrange(1, s.len() as int);
        lemma_find_sub_first(t, p);
        assert forall|j: int| #![auto] match_at(t, p, j) <==> match_at(s, p, j + 1) by {
            if 0 <= j && j + p.len() <= t.len() {
                assert(t.subrange(j, j + p.len() as int) =~= s.subrange(j + 1, j + 1 + p.len() as int));
            }
        }
        match spec_find_sub(t, p) {
            Some(i) => {
                assert(match_at(s, p, i + 1));
                assert forall|j: int| 0 <= j < i + 1 implies !match_at(s, p, j) by {
                    if j == 0 {
                        assert(!match_at(s, p, 0));
                    } else {
                        assert(!match_at(t, p, j - 1));
                    }
                }
            },
            None => {
                assert forall|j: int| !match_at(s, p, j) by {
                    if j == 0 {
                        assert(!match_at(s, p, 0));
                    } else if j >= 1 {
                        assert(!match_at(t, p, j - 1));
                    }
                }
            },
        }
    }
}

/// The first-match characterization determines `spec_find_sub`.
pub proof fn lemma_find_sub_unique(s: Seq<char>, p: Seq<char>, i: int)
    requires
        match_at(s, p, i),
        forall|j: int| 0 <= j < i ==> !match_at(s, p, j),
    ensures
        spec_find_sub(s, p) == Some(i),
{
    lemma_find_sub_first(s, p);
    match spec_find_sub(s, p) {
        Some(m) => {
            if m < i {
                assert(match_at(s, p, m));
                assert(false);
            }
            if m > i {
                assert(!match_at(s, p, i));
                assert(false);
            }
        },
        None => {
            assert(!match_at(s, p, i));
            assert(false);
        },
    }
}

/// `s[i..i+p.len()] == p`, by direct comparison.
pub fn chars_match_at(s: &Vec<char>, p: &Vec<char>, i: usize) -> (r: bool)
    requires
        i + p.len() <= s.len(),
    ensures
        r == match_at(s@, p@, i as int),
{
    let mut k: usize = 0;
    while k < p.len()
        invariant
            i + p.len() <= s.len(),
            k <= p.len(),
            forall|m: int| 0 <= m < k ==> s@[i + m] == p@[m],
        decreases p.len() - k,
    {
        if s[i + k] != p[k] {
            proof {
                assert(s@.subrange(i as int, i + p@.len() as int)[k as int] == s@[i + k]);
            }
            return false;
        }
        k += 1;
    }
    proof {
        assert(s@.subrange(i as int, i + p@.len() as int) =~= p@);
    }
    true
}

/// First occurrence of `p` in `s` at or after `from`, following the
/// recursion of `spec_find_sub` on the suffix.
pub fn find_sub_from(s: &Vec<char>, p: &Vec<char>, from: usize) -> (r: Option<usize>)
    requires
        from <= s.len(),
    ensures
        match r {
            Some(i) => from <= i && spec_find_sub(s@.skip(from as int), p@) == Some(i - from),
            None => spec_find_sub(s@.skip(from as int), p@) is None,
        },
    decreases s.len() - from,
{
    if p.len() == 0 {
        return Some(from);
    }
    let suffix_len = s.len() - from;
    if suffix_len < p.len() {
        return None;
    }
    if chars_match_at(s, p, from) {
        proof {
            assert(s@.skip(from as int).subrange(0, p@.len() as int) =~= s@.subrange(
                from as int,
                from + p@.len() as int,
            ));
        }
        return Some(from);
    }
    proof {
        assert(s@.skip(from as int).subrange(0, p@.len() as int) =~= s@.subrange(
            from as int,
            from + p@.len() as int,
        ));
        assert(s@.skip(from as int).subrange(1, s@.skip(from as int).len() as int) =~= s@.skip(
            from + 1,
        ));
    }
    match find_sub_from(s, p, from + 1) {
        Some(i) => Some(i),
        None => None,
    }
}

/// The two vectors hold the same characters.
pub fn chars_eq(a: &Vec<char>, b: &Vec<char>) -> (r: bool)
    ensures
        r == (a@ == b@),
{
    if a.len() != b.len() {
        return false;
    }
    let r = chars_match_at(a, b, 0);
    proof {
        assert(a@.subrange(0, a@.len() as int) =~= a@);
        if match_at(a@, b@, 0) {
            assert(a@ =~= b@);
        }
    }
    r
}

/// `suffix` ends `s`.
pub open spec fn spec_ends_with(s: Seq<char>, suffix: Seq<char>) -> bool {
    suffix.len() <= s.len() && s.subrange(s.len() - suffix.len(), s.len() as int) == suffix
}

pub fn chars_ends_with(s: &Vec<char>, suffix: &Vec<char>) -> (r: bool)
    ensures
        r == spec_ends_with(s@, suffix@),
{
    if suffix.len() > s.len() {
        return false;
    }
    chars_match_at(s, suffix, s.len() - suffix.len())
}

/// `prefix` begins `s`.
pub open spec fn spec_starts_with(s: Seq<char>, prefix: Seq<char>) -> bool {
    prefix.len() <= s.len() && s.subrange(0, prefix.len() as int) == prefix
}

} // verus!
