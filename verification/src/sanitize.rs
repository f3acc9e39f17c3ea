//! Exec Sanitizer: rewrites the raw `Exec=` value of a desktop entry into a
//! clean launchable command line. Tokens are accumulated until one whose
//! path basename equals the display name (case-insensitively); if no token
//! matches, field-code placeholders are stripped from the raw string and
//! whitespace is collapsed instead. This heuristic is deliberately
//! best-effort over an unstandardized ecosystem of desktop-entry quirks.

use vstd::prelude::*;
use vstd::string::*;
use crate::chars::is_space;
use crate::chars::is_space_char;
use crate::chars::subvec;
use crate::chars::str_to_chars;
use crate::chars::chars_to_string;

verus! {

/// Length of the leading run of non-whitespace characters.
pub open spec fn spec_run_len(s: Seq<char>) -> int
    decreases s.len(),
{
    if s.len() == 0 || is_space_char(s[0]) {
        0
    } else {
        1 + spec_run_len(s.skip(1))
    }
}

pub proof fn lemma_run_len_bounds(s: Seq<char>)
    ensures
        0 <= spec_run_len(s) <= s.len(),
    decreases s.len(),
{
    if s.len() == 0 || is_space_char(s[0]) {
    } else {
        lemma_run_len_bounds(s.skip(1));
    }
}

/// The whitespace-separated tokens of `s`, in order.
pub open spec fn spec_tokens(s: Seq<char>) -> Seq<Seq<char>>
    decreases s.len(),
        via spec_tokens_decreases
{
    if s.len() == 0 {
        Seq::empty()
    } else if is_space_char(s[0]) {
        spec_tokens(s.skip(1))
    } else {
        seq![s.take(spec_run_len(s))] + spec_tokens(s.skip(spec_run_len(s)))
    }
}

#[via_fn]
proof fn spec_tokens_decreases(s: Seq<char>) {
    if s.len() > 0 && !is_space_char(s[0]) {
        lemma_run_len_bounds(s.skip(1));
        assert(spec_run_len(s) == 1 + spec_run_len(s.skip(1)));
        lemma_run_len_bounds(s);
    }
}

/// Join of tokens with single spaces, defined from the right so that a loop
/// can build it left to right.
pub open spec fn spec_join(ts: Seq<Seq<char>>) -> Seq<char>
    decreases ts.len(),
{
    if ts.len() == 0 {
        Seq::empty()
    } else if ts.len() == 1 {
        ts.last()
    } else {
        spec_join(ts.drop_last()) + seq![' '] + ts.last()
    }
}

/// The longest suffix of `t` holding no `/`: the path basename as the
/// sanitizer understands it.
pub open spec fn spec_basename(t: Seq<char>) -> Seq<char>
    decreases t.len(),
{
    if t.len() == 0 {
        t
    } else if t.last() == '/' {
        Seq::empty()
    } else {
        spec_basename(t.drop_last()).push(t.last())
    }
}

/// What `str::to_lowercase` returns; the result depends on the characters
/// alone.
pub uninterp spec fn lower_of(s: Seq<char>) -> Seq<char>;

/// Relies on `str::to_lowercase`: the result is a function of the input
/// characters alone, and the empty string stays empty.
#[verifier::external_body]
pub(crate) fn lowercase(s: &str) -> (r: String)
    ensures
        r@ == lower_of(s@),
        s@.len() == 0 ==> r@.len() == 0,
{
    s.to_lowercase()
}

/// Token `t` names the application called `name`: its basename equals the
/// name, case-insensitively.
pub open spec fn spec_token_matches(t: Seq<char>, name: Seq<char>) -> bool {
    lower_of(spec_basename(t)) == lower_of(name)
}

/// Index of the first token whose basename matches the display name.
pub open spec fn spec_match_index(ts: Seq<Seq<char>>, name: Seq<char>) -> Option<int>
    decreases ts.len(),
{
    if ts.len() == 0 {
        None
    } else if spec_token_matches(ts[0], name) {
        Some(0int)
    } else {
        match spec_match_index(ts.skip(1), name) {
            Some(i) => Some(i + 1),
            None => None,
        }
    }
}

/// `spec_match_index` names the first matching token, and `None` means no
/// token matches.
pub proof fn lemma_match_index_first(ts: Seq<Seq<char>>, name: Seq<char>)
    ensures
        match spec_match_index(ts, name) {
            Some(i) => 0 <= i < ts.len() && spec_token_matches(ts[i], name) && (forall|j: int|
                0 <= j < i ==> !spec_token_matches(ts[j], name)),
            None => forall|j: int| 0 <= j < ts.len() ==> !spec_token_matches(ts[j], name),
        },
    decreases ts.len(),
{
    if ts.len() == 0 {
    } else if spec_token_matches(ts[0], name) {
    } else {
        let t = ts.skip(1);
        lemma_match_index_first(t, name);
        assert(forall|j: int| 0 <= j < t.len() ==> t[j] == ts[j + 1]);
        match spec_match_index(t, name) {
            Some(i) => {
                assert(ts[i + 1] == t[i]);
                assert forall|j: int| 0 <= j < i + 1 implies !spec_token_matches(ts[j], name) by {
                    if j > 0 {
                        assert(!spec_token_matches(t[j - 1], name));
                    }
                }
            },
            None => {
                assert forall|j: int| 0 <= j < ts.len() implies !spec_token_matches(ts[j], name) by {
                    if j > 0 {
                        assert(!spec_token_matches(t[j - 1], name));
                    }
                }
            },
        }
    }
}

/// The seven field-code placeholders stripped in the fallback pass.
pub open spec fn spec_placeholders() -> Seq<Seq<char>> {
    seq!["%U"@, "%u"@, "%F"@, "%f"@, "%i"@, "%c"@, "%k"@]
}

/// One of the two-character patterns equals `two`.
pub open spec fn pat_match2(pats: Seq<Seq<char>>, two: Seq<char>) -> bool {
    exists|i: int| 0 <= i < pats.len() && pats[i] == two
}

/// `s` with every occurrence of a two-character pattern removed, scanning
/// left to right.
pub open spec fn spec_strip2(pats: Seq<Seq<char>>, s: Seq<char>) -> Seq<char>
    decreases s.len(),
{
    if s.len() == 0 {
        s
    } else if s.len() >= 2 && pat_match2(pats, s.subrange(0, 2)) {
        spec_strip2(pats, s.skip(2))
    } else {
        seq![s[0]] + spec_strip2(pats, s.skip(1))
    }
}

/// All patterns are two ASCII characters long.
pub open spec fn pats_wf(pats: Seq<Seq<char>>) -> bool {
    forall|i: int|
        0 <= i < pats.len() ==> (#[trigger] pats[i]).len() == 2 && (pats[i][0] as u32) < 128 && (
        pats[i][1] as u32) < 128
}

/// Relies on `aho_corasick::AhoCorasick::new` and `replace_all`: with
/// patterns of equal length two, the standard (earliest-match) semantics
/// replaces each leftmost occurrence of any pattern, scanning left to right,
/// here by the empty string. Construction cannot fail for a handful of tiny
/// patterns.
#[verifier::external_body]
pub(crate) fn replace_all_empty(pats: &Vec<String>, hay: &str) -> (r: String)
    requires
        pats_wf(pats.deep_view()),
        pats.len() <= 16,
    ensures
        r@ == spec_strip2(pats.deep_view(), hay@),
{
    let pat_refs: Vec<&str> = pats.iter().map(|p| p.as_str()).collect();
    let ac = aho_corasick::AhoCorasick::new(&pat_refs).unwrap();
    let empties: Vec<&str> = pats.iter().map(|_| "").collect();
    ac.replace_all(hay, &empties)
}

/// The placeholder patterns as strings.
pub(crate) fn placeholders() -> (r: Vec<String>)
    ensures
        r.deep_view() == spec_placeholders(),
        pats_wf(r.deep_view()),
        r.len() == 7,
{
    let mut r: Vec<String> = Vec::new();
    r.push(String::from_str("%U"));
    r.push(String::from_str("%u"));
    r.push(String::from_str("%F"));
    r.push(String::from_str("%f"));
    r.push(String::from_str("%i"));
    r.push(String::from_str("%c"));
    r.push(String::from_str("%k"));
    proof {
        reveal_strlit("%U");
        reveal_strlit("%u");
        reveal_strlit("%F");
        reveal_strlit("%f");
        reveal_strlit("%i");
        reveal_strlit("%c");
        reveal_strlit("%k");
        assert(r.deep_view() =~= spec_placeholders());
    }
    r
}

/// The sanitized command line: everything up to and including the first
/// token naming the application; if no token does, the raw string with
/// placeholders stripped and whitespace collapsed.
pub open spec fn spec_sanitize(s: Seq<char>, name: Seq<char>) -> Seq<char> {
    let ts = spec_tokens(s);
    match spec_match_index(ts, name) {
        Some(i) => spec_join(ts.take(i + 1)),
        None => spec_join(spec_tokens(spec_strip2(spec_placeholders(), s))),
    }
}

/// End of the leading non-whitespace run starting at `i`.
fn run_end(s: &Vec<char>, i: usize) -> (j: usize)
    requires
        i <= s.len(),
    ensures
        i <= j <= s.len(),
        j - i == spec_run_len(s@.skip(i as int)),
    decreases s.len() - i,
{
    if i == s.len() {
        proof {
            assert(s@.skip(i as int).len() == 0);
        }
        return i;
    }
    if is_space(s[i]) {
        return i;
    }
    proof {
        assert(s@.skip(i as int).skip(1) =~= s@.skip(i + 1));
    }
    run_end(s, i + 1)
}

/// The tokens of `s` from position `i` on.
fn tokens_from(s: &Vec<char>, i: usize) -> (r: Vec<Vec<char>>)
    requires
        i <= s.len(),
    ensures
        r.deep_view() == spec_tokens(s@.skip(i as int)),
    decreases s.len() - i,
{
    if i == s.len() {
        let r: Vec<Vec<char>> = Vec::new();
        proof {
            assert(s@.skip(i as int).len() == 0);
            assert(r.deep_view() =~= spec_tokens(s@.skip(i as int)));
        }
        return r;
    }
    if is_space(s[i]) {
        proof {
            assert(s@.skip(i as int).skip(1) =~= s@.skip(i + 1));
        }
        return tokens_from(s, i + 1);
    }
    let j = run_end(s, i);
    proof {
        let suf = s@.skip(i as int);
        assert(suf[0] == s@[i as int]);
        lemma_run_len_bounds(suf.skip(1));
        assert(spec_run_len(suf) == 1 + spec_run_len(suf.skip(1)));
    }
    let tok = subvec(s, i, j);
    let rest = tokens_from(s, j);
    let ghost rest_dv = rest.deep_view();
    let mut r: Vec<Vec<char>> = Vec::new();
    r.push(tok);
    let mut rest_mut = rest;
    r.append(&mut rest_mut);
    proof {
        let suf = s@.skip(i as int);
        assert(suf.take(spec_run_len(suf)) =~= s@.subrange(i as int, j as int));
        assert(suf.skip(spec_run_len(suf)) =~= s@.skip(j as int));
        let target = seq![s@.subrange(i as int, j as int)] + rest_dv;
        assert forall|k: int| 0 <= k < r@.len() implies r.deep_view()[k] == target[k] by {
            assert(r.deep_view()[k] == r@[k].deep_view());
            if k > 0 {
                assert(rest_dv[k - 1] == r@[k].deep_view());
            }
        }
        assert(r.deep_view() =~= target);
    }
    r
}

/// The whitespace-separated tokens of `s`.
pub fn tokens(s: &Vec<char>) -> (r: Vec<Vec<char>>)
    ensures
        r.deep_view() == spec_tokens(s@),
{
    let r = tokens_from(s, 0);
    proof {
        assert(s@.skip(0) =~= s@);
    }
    r
}

/// The basename of one token: what follows the last `/`.
pub fn basename(t: &Vec<char>) -> (r: Vec<char>)
    ensures
        r@ == spec_basename(t@),
{
    let mut start: usize = t.len();
    while start > 0 && t[start - 1] != '/'
        invariant
            start <= t.len(),
            forall|k: int| start <= k < t.len() ==> t@[k] != '/',
        decreases start,
    {
        start -= 1;
    }
    let r = subvec(t, start, t.len());
    proof {
        if start > 0 {
            lemma_basename_after_slash(t@, start as int);
        } else {
            lemma_basename_no_slash(t@);
        }
    }
    r
}

/// When position `j-1` holds the last `/`, the basename is the suffix after
/// it.
proof fn lemma_basename_after_slash(t: Seq<char>, j: int)
    requires
        1 <= j <= t.len(),
        t[j - 1] == '/',
        forall|k: int| j <= k < t.len() ==> t[k] != '/',
    ensures
        spec_basename(t) == t.subrange(j, t.len() as int),
    decreases t.len(),
{
    if j == t.len() {
        assert(t.last() == '/');
        assert(spec_basename(t) =~= t.subrange(j, t.len() as int));
    } else {
        lemma_basename_after_slash(t.drop_last(), j);
        assert(t.drop_last().subrange(j, t.len() - 1) =~= t.subrange(j, t.len() - 1));
        assert(spec_basename(t) =~= t.subrange(j, t.len() as int));
    }
}

/// Without any `/`, the basename is the token itself.
proof fn lemma_basename_no_slash(t: Seq<char>)
    requires
        forall|k: int| 0 <= k < t.len() ==> t[k] != '/',
    ensures
        spec_basename(t) == t,
    decreases t.len(),
{
    if t.len() == 0 {
    } else {
        lemma_basename_no_slash(t.drop_last());
        assert(spec_basename(t) =~= t);
    }
}

/// Join of the first `upto` tokens with single spaces.
fn join_tokens(ts: &Vec<Vec<char>>, upto: usize) -> (r: Vec<char>)
    requires
        upto <= ts.len(),
    ensures
        r@ == spec_join(ts.deep_view().take(upto as int)),
{
    let mut r: Vec<char> = Vec::new();
    let mut i: usize = 0;
    while i < upto
        invariant
            i <= upto <= ts.len(),
            r@ == spec_join(ts.deep_view().take(i as int)),
        decreases upto - i,
    {
        if i > 0 {
            r.push(' ');
        }
        let mut tok = subvec(&ts[i], 0, ts[i].len());
        r.append(&mut tok);
        proof {
            let dv = ts.deep_view();
            assert(ts[i as int]@.subrange(0, ts[i as int]@.len() as int) =~= dv[i as int]);
            assert(dv.take(i + 1).drop_last() =~= dv.take(i as int));
            assert(dv.take(i + 1).last() == dv[i as int]);
            if i == 0 {
                assert(spec_join(dv.take(1)) == dv[0]);
                assert(r@ =~= spec_join(dv.take(i + 1)));
            } else {
                assert(r@ =~= spec_join(dv.take(i as int)) + seq![' '] + dv[i as int]);
            }
        }
        i += 1;
    }
    r
}

/// The cleaned command line for the entry's raw exec string and display
/// name.
pub fn clean_exec_command(raw: &String, app_name: &String) -> (r: String)
    ensures
        r@ == spec_sanitize(raw@, app_name@),
{
    let chars = str_to_chars(raw.as_str());
    let ts = tokens(&chars);
    let name_lower = lowercase(app_name.as_str());
    let ghost dv = ts.deep_view();
    let mut i: usize = 0;
    while i < ts.len()
        invariant
            i <= ts.len(),
            dv == ts.deep_view(),
            dv == spec_tokens(raw@),
            forall|j: int| 0 <= j < i ==> !spec_token_matches(dv[j], app_name@),
            name_lower@ == lower_of(app_name@),
        decreases ts.len() - i,
    {
        let base = basename(&ts[i]);
        let base_str = chars_to_string(&base);
        let base_lower = lowercase(base_str.as_str());
        proof {
            assert(dv[i as int] == ts[i as int]@);
        }
        if base_lower.eq(&name_lower) {
            proof {
                assert(spec_token_matches(dv[i as int], app_name@));
                lemma_match_index_first(dv, app_name@);
                match spec_match_index(dv, app_name@) {
                    Some(m) => {
                        if m < i as int {
                            assert(false);
                        } else if m > i as int {
                            assert(!spec_token_matches(dv[i as int], app_name@));
                            assert(false);
                        }
                    },
                    None => {
                        assert(!spec_token_matches(dv[i as int], app_name@));
                        assert(false);
                    },
                }
                assert(spec_match_index(dv, app_name@) == Some(i as int));
                assert(dv == spec_tokens(raw@));
            }
            let joined = join_tokens(&ts, i + 1);
            let out = chars_to_string(&joined);
            proof {
                assert(out@ == spec_join(dv.take(i + 1)));
                assert(spec_sanitize(raw@, app_name@) == spec_join(dv.take(i + 1)));
            }
            return out;
        }
        i += 1;
    }
    proof {
        lemma_match_index_first(dv, app_name@);
        match spec_match_index(dv, app_name@) {
            Some(m) => {
                assert(!spec_token_matches(dv[m], app_name@));
                assert(false);
            },
            None => {},
        }
    }
    let pats = placeholders();
    let stripped = replace_all_empty(&pats, raw.as_str());
    let stripped_chars = str_to_chars(stripped.as_str());
    let ts2 = tokens(&stripped_chars);
    let joined = join_tokens(&ts2, ts2.len());
    proof {
        assert(ts2.deep_view().take(ts2.deep_view().len() as int) =~= ts2.deep_view());
    }
    chars_to_string(&joined)
}

/// The final launch command: the cleaned exec string, prefixed by the
/// configured terminal launcher when the entry asks for a terminal.
pub open spec fn spec_build_exec(
    raw: Seq<char>,
    name: Seq<char>,
    terminal: Option<bool>,
    terminal_app: Seq<char>,
) -> Seq<char> {
    if terminal == Some(true) {
        terminal_app + seq![' '] + spec_sanitize(raw, name)
    } else {
        spec_sanitize(raw, name)
    }
}

pub fn build_exec(
    raw: &String,
    app_name: &String,
    terminal: Option<bool>,
    terminal_app: &String,
) -> (r: String)
    ensures
        r@ == spec_build_exec(raw@, app_name@, terminal, terminal_app@),
{
    let cleaned = clean_exec_command(raw, app_name);
    let use_terminal = match terminal {
        Some(b) => b,
        None => false,
    };
    if use_terminal {
        let mut out = terminal_app.clone();
        out.append(" ");
        out.append(cleaned.as_str());
        proof {
            reveal_strlit(" ");
            assert(" "@ =~= seq![' ']);
        }
        out
    } else {
        cleaned
    }
}

/// Sanitizing is idempotent on an already-clean command: one that equals the
/// join of its own tokens, holds no placeholder occurrence, and has no token
/// after the one naming the application. Such a command is left unchanged,
/// so sanitizing twice yields the same string.
pub proof fn lemma_sanitize_idempotent(s: Seq<char>, name: Seq<char>)
    requires
        s == spec_join(spec_tokens(s)),
        spec_strip2(spec_placeholders(), s) == s,
        spec_match_index(spec_tokens(s), name) is None || spec_match_index(spec_tokens(s), name)
            == Some(spec_tokens(s).len() - 1),
    ensures
        spec_sanitize(s, name) == s,
        spec_sanitize(spec_sanitize(s, name), name) == spec_sanitize(s, name),
{
    let ts = spec_tokens(s);
    match spec_match_index(ts, name) {
        Some(i) => {
            lemma_match_index_first(ts, name);
            assert(i == ts.len() - 1);
            assert(ts.take(i + 1) =~= ts);
        },
        None => {},
    }
}

} // verus!
