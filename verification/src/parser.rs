//! Entry Parser: isolates the first `[Desktop Entry]` section of a file's
//! text (up to, but not including, the next line starting with `[`) and
//! parses it under the desktop-entry key/value grammar: one `Key=Value` per
//! line, `#` comments and blank lines ignored, booleans the literal strings
//! `true`/`false`, lists semicolon-separated. Locale-variant keys such as
//! `Name[xx]` are accepted and ignored; a repeated known key is an error —
//! which is why only the first section is parsed: real-world files redeclare
//! keys in later sections.

use vstd::prelude::*;
use vstd::string::*;
use crate::chars::spec_find_sub;
use crate::chars::find_sub_from;
use crate::chars::chars_eq;
use crate::chars::subvec;
use crate::chars::str_to_chars;
use crate::chars::chars_to_string;
use crate::entry::EntryKind;
use crate::entry::RawDesktopEntry;
use crate::entry::RawEntryView;
use crate::entry::opt_str_view;

verus! {

/// Why a file yields no entry: the reported failure kinds of the parser.
#[derive(Clone, Copy, Debug, PartialEq, Eq, Structural)]
pub enum ParseError {
    /// No `[Desktop Entry]` header occurs in the text.
    NoSection,
    /// A line inside the section is neither blank, nor a comment, nor
    /// `Key=Value`, or the header line carries trailing text.
    BadLine,
    /// A known key is declared twice inside the section.
    DuplicateKey,
    /// A boolean-valued key holds neither `true` nor `false`.
    BadBool,
    /// The section declares no `Type` key.
    MissingType,
    /// The section declares no default `Name` key.
    MissingName,
}

/// Position of the first `c` in `s`.
pub open spec fn spec_find_char(s: Seq<char>, c: char) -> Option<int>
    decreases s.len(),
{
    if s.len() == 0 {
        None
    } else if s[0] == c {
        Some(0int)
    } else {
        match spec_find_char(s.skip(1), c) {
            Some(i) => Some(i + 1),
            None => None,
        }
    }
}

pub proof fn lemma_find_char_bounds(s: Seq<char>, c: char)
    ensures
        match spec_find_char(s, c) {
            Some(i) => 0 <= i < s.len() && s[i] == c && (forall|j: int| 0 <= j < i ==> s[j] != c),
            None => forall|j: int| 0 <= j < s.len() ==> s[j] != c,
        },
    decreases s.len(),
{
    if s.len() == 0 {
    } else if s[0] == c {
    } else {
        let t = s.skip(1);
        lemma_find_char_bounds(t, c);
        assert(forall|j: int| 0 <= j < t.len() ==> t[j] == s[j + 1]);
        match spec_find_char(t, c) {
            Some(i) => {
                assert(s[i + 1] == t[i]);
                assert forall|j: int| 0 <= j < i + 1 implies s[j] != c by {
                    if j > 0 {
                        assert(t[j - 1] != c);
                    }
                }
            },
            None => {
                assert forall|j: int| 0 <= j < s.len() implies s[j] != c by {
                    if j > 0 {
                        assert(t[j - 1] != c);
                    }
                }
            },
        }
    }
}

/// First `c` in `s` at or after `from`.
pub fn find_char_from(s: &Vec<char>, c: char, from: usize) -> (r: Option<usize>)
    requires
        from <= s.len(),
    ensures
        match r {
            Some(i) => from <= i && spec_find_char(s@.skip(from as int), c) == Some(i - from),
            None => spec_find_char(s@.skip(from as int), c) is None,
        },
    decreases s.len() - from,
{
    if from == s.len() {
        return None;
    }
    if s[from] == c {
        return Some(from);
    }
    proof {
        assert(s@.skip(from as int).skip(1) =~= s@.skip(from + 1));
    }
    find_char_from(s, c, from + 1)
}

/// The raw value of each known key, as collected line by line.
pub struct KeyAcc {
    pub type_v: Option<String>,
    pub name_v: Option<String>,
    pub comment_v: Option<String>,
    pub icon_v: Option<String>,
    pub exec_v: Option<String>,
    pub terminal_v: Option<String>,
    pub hidden_v: Option<String>,
    pub no_display_v: Option<String>,
    pub only_show_in_v: Option<String>,
    pub not_show_in_v: Option<String>,
}

pub ghost struct KeyAccView {
    pub type_v: Option<Seq<char>>,
    pub name_v: Option<Seq<char>>,
    pub comment_v: Option<Seq<char>>,
    pub icon_v: Option<Seq<char>>,
    pub exec_v: Option<Seq<char>>,
    pub terminal_v: Option<Seq<char>>,
    pub hidden_v: Option<Seq<char>>,
    pub no_display_v: Option<Seq<char>>,
    pub only_show_in_v: Option<Seq<char>>,
    pub not_show_in_v: Option<Seq<char>>,
}

impl View for KeyAcc {
    type V = KeyAccView;

    open spec fn view(&self) -> KeyAccView {
        KeyAccView {
            type_v: opt_str_view(self.type_v),
            name_v: opt_str_view(self.name_v),
            comment_v: opt_str_view(self.comment_v),
            icon_v: opt_str_view(self.icon_v),
            exec_v: opt_str_view(self.exec_v),
            terminal_v: opt_str_view(self.terminal_v),
            hidden_v: opt_str_view(self.hidden_v),
            no_display_v: opt_str_view(self.no_display_v),
            only_show_in_v: opt_str_view(self.only_show_in_v),
            not_show_in_v: opt_str_view(self.not_show_in_v),
        }
    }
}

pub open spec fn spec_empty_acc() -> KeyAccView {
    KeyAccView {
        type_v: None,
        name_v: None,
        comment_v: None,
        icon_v: None,
        exec_v: None,
        terminal_v: None,
        hidden_v: None,
        no_display_v: None,
        only_show_in_v: None,
        not_show_in_v: None,
    }
}

impl KeyAcc {
    pub fn new() -> (r: KeyAcc)
        ensures
            r@ == spec_empty_acc(),
    {
        KeyAcc {
            type_v: None,
            name_v: None,
            comment_v: None,
            icon_v: None,
            exec_v: None,
            terminal_v: None,
            hidden_v: None,
            no_display_v: None,
            only_show_in_v: None,
            not_show_in_v: None,
        }
    }
}

/// `s` with one trailing carriage return removed.
pub open spec fn spec_clean_cr(s: Seq<char>) -> Seq<char> {
    if s.len() > 0 && s.last() == '\r' {
        s.drop_last()
    } else {
        s
    }
}

/// Nothing but spaces and tabs.
pub open spec fn spec_is_blank(s: Seq<char>) -> bool {
    forall|k: int| 0 <= k < s.len() ==> s[k] == ' ' || s[k] == '\t'
}

/// `s` with trailing spaces and tabs removed.
pub open spec fn spec_trim_end(s: Seq<char>) -> Seq<char>
    decreases s.len(),
{
    if s.len() > 0 && (s.last() == ' ' || s.last() == '\t') {
        spec_trim_end(s.drop_last())
    } else {
        s
    }
}

/// `s` with leading spaces and tabs removed.
pub open spec fn spec_trim_start(s: Seq<char>) -> Seq<char>
    decreases s.len(),
{
    if s.len() > 0 && (s[0] == ' ' || s[0] == '\t') {
        spec_trim_start(s.skip(1))
    } else {
        s
    }
}

/// One line folded into the accumulator: blank lines, comments, locale
/// variants and unknown keys change nothing; a known key is recorded once.
pub open spec fn spec_apply_line(acc: KeyAccView, line: Seq<char>) -> Result<
    KeyAccView,
    ParseError,
> {
    let l = spec_clean_cr(line);
    if spec_is_blank(l) {
        Ok(acc)
    } else if l[0] == '#' {
        Ok(acc)
    } else {
        match spec_find_char(l, '=') {
            None => Err(ParseError::BadLine),
            Some(e) => {
                let key = spec_trim_end(l.take(e));
                let val = spec_trim_start(l.skip(e + 1));
                if spec_find_char(key, '[') is Some {
                    Ok(acc)
                } else if key == "Type"@ {
                    if acc.type_v is Some {
                        Err(ParseError::DuplicateKey)
                    } else {
                        Ok(KeyAccView { type_v: Some(val), ..acc })
                    }
                } else if key == "Name"@ {
                    if acc.name_v is Some {
                        Err(ParseError::DuplicateKey)
                    } else {
                        Ok(KeyAccView { name_v: Some(val), ..acc })
                    }
                } else if key == "Comment"@ {
                    if acc.comment_v is Some {
                        Err(ParseError::DuplicateKey)
                    } else {
                        Ok(KeyAccView { comment_v: Some(val), ..acc })
                    }
                } else if key == "Icon"@ {
                    if acc.icon_v is Some {
                        Err(ParseError::DuplicateKey)
                    } else {
                        Ok(KeyAccView { icon_v: Some(val), ..acc })
                    }
                } else if key == "Exec"@ {
                    if acc.exec_v is Some {
                        Err(ParseError::DuplicateKey)
                    } else {
                        Ok(KeyAccView { exec_v: Some(val), ..acc })
                    }
                } else if key == "Terminal"@ {
                    if acc.terminal_v is Some {
                        Err(ParseError::DuplicateKey)
                    } else {
                        Ok(KeyAccView { terminal_v: Some(val), ..acc })
                    }
                } else if key == "Hidden"@ {
                    if acc.hidden_v is Some {
                        Err(ParseError::DuplicateKey)
                    } else {
                        Ok(KeyAccView { hidden_v: Some(val), ..acc })
                    }
                } else if key == "NoDisplay"@ {
                    if acc.no_display_v is Some {
                        Err(ParseError::DuplicateKey)
                    } else {
                        Ok(KeyAccView { no_display_v: Some(val), ..acc })
                    }
                } else if key == "OnlyShowIn"@ {
                    if acc.only_show_in_v is Some {
                        Err(ParseError::DuplicateKey)
                    } else {
                        Ok(KeyAccView { only_show_in_v: Some(val), ..acc })
                    }
                } else if key == "NotShowIn"@ {
                    if acc.not_show_in_v is Some {
                        Err(ParseError::DuplicateKey)
                    } else {
                        Ok(KeyAccView { not_show_in_v: Some(val), ..acc })
                    }
                } else {
                    Ok(acc)
                }
            },
        }
    }
}

/// The section body folded line by line.
pub open spec fn spec_parse_lines(s: Seq<char>, acc: KeyAccView) -> Result<KeyAccView, ParseError>
    decreases s.len(),
        via spec_parse_lines_decreases
{
    if s.len() == 0 {
        Ok(acc)
    } else {
        match spec_find_char(s, '\n') {
            None => spec_apply_line(acc, s),
            Some(i) => match spec_apply_line(acc, s.take(i)) {
                Err(e) => Err(e),
                Ok(acc2) => spec_parse_lines(s.skip(i + 1), acc2),
            },
        }
    }
}

#[via_fn]
proof fn spec_parse_lines_decreases(s: Seq<char>, acc: KeyAccView) {
    if s.len() > 0 {
        lemma_find_char_bounds(s, '\n');
    }
}

/// The entry kind a `Type` value declares.
pub open spec fn spec_kind_of(tv: Seq<char>) -> EntryKind {
    if tv == "Application"@ {
        EntryKind::Application
    } else if tv == "Link"@ {
        EntryKind::Link
    } else if tv == "Directory"@ {
        EntryKind::Directory
    } else {
        EntryKind::Other
    }
}

/// A boolean value: the literal strings `true` and `false` only.
pub open spec fn spec_parse_bool(v: Option<Seq<char>>) -> Result<Option<bool>, ParseError> {
    match v {
        None => Ok(None),
        Some(s) => if s == "true"@ {
            Ok(Some(true))
        } else if s == "false"@ {
            Ok(Some(false))
        } else {
            Err(ParseError::BadBool)
        },
    }
}

/// Semicolon-separated list entries, empty pieces dropped (a conventional
/// list value ends in `;`).
pub open spec fn spec_split_semi(s: Seq<char>) -> Seq<Seq<char>>
    decreases s.len(),
        via spec_split_semi_decreases
{
    match spec_find_char(s, ';') {
        None => if s.len() == 0 {
            Seq::empty()
        } else {
            seq![s]
        },
        Some(i) => if i == 0 {
            spec_split_semi(s.skip(1))
        } else {
            seq![s.take(i)] + spec_split_semi(s.skip(i + 1))
        },
    }
}

#[via_fn]
proof fn spec_split_semi_decreases(s: Seq<char>) {
    lemma_find_char_bounds(s, ';');
}

pub open spec fn spec_opt_list(v: Option<Seq<char>>) -> Seq<Seq<char>> {
    match v {
        None => Seq::empty(),
        Some(s) => spec_split_semi(s),
    }
}

/// The collected keys validated into an entry record: `Type` and `Name` are
/// required, booleans must parse, lists are split.
pub open spec fn spec_finish(acc: KeyAccView) -> Result<RawEntryView, ParseError> {
    match acc.type_v {
        None => Err(ParseError::MissingType),
        Some(tv) => match acc.name_v {
            None => Err(ParseError::MissingName),
            Some(nv) => match spec_parse_bool(acc.terminal_v) {
                Err(e) => Err(e),
                Ok(term) => match spec_parse_bool(acc.hidden_v) {
                    Err(e) => Err(e),
                    Ok(hid) => match spec_parse_bool(acc.no_display_v) {
                        Err(e) => Err(e),
                        Ok(nod) => Ok(
                            RawEntryView {
                                entry_type: spec_kind_of(tv),
                                name: nv,
                                comment: match acc.comment_v {
                                    None => Seq::empty(),
                                    Some(c) => c,
                                },
                                icon: acc.icon_v,
                                exec_cmd: acc.exec_v,
                                terminal: term,
                                hidden: hid,
                                no_display: nod,
                                only_show_in: spec_opt_list(acc.only_show_in_v),
                                not_show_in: spec_opt_list(acc.not_show_in_v),
                            },
                        ),
                    },
                },
            },
        },
    }
}

/// The slice of `t` belonging to the first `[Desktop Entry]` section: what
/// follows the header, up to but not including the next line starting with
/// `[`, or the end of the text.
pub open spec fn spec_isolate(t: Seq<char>) -> Option<Seq<char>> {
    match spec_find_sub(t, "[Desktop Entry]"@) {
        None => None,
        Some(i) => {
            let after = t.skip(i + "[Desktop Entry]"@.len());
            match spec_find_sub(after, "\n["@) {
                None => Some(after),
                Some(j) => Some(after.take(j)),
            }
        },
    }
}

/// A section slice parsed under the grammar: the rest of the header line
/// must be blank, the following lines are folded and validated.
pub open spec fn spec_parse_section(sec: Seq<char>) -> Result<RawEntryView, ParseError> {
    match spec_find_char(sec, '\n') {
        None => if spec_is_blank(spec_clean_cr(sec)) {
            spec_finish(spec_empty_acc())
        } else {
            Err(ParseError::BadLine)
        },
        Some(i) => if spec_is_blank(spec_clean_cr(sec.take(i))) {
            match spec_parse_lines(sec.skip(i + 1), spec_empty_acc()) {
                Err(e) => Err(e),
                Ok(acc) => spec_finish(acc),
            }
        } else {
            Err(ParseError::BadLine)
        },
    }
}

/// What parsing a file's whole text yields.
pub open spec fn spec_parse_entry(t: Seq<char>) -> Result<RawEntryView, ParseError> {
    match spec_isolate(t) {
        None => Err(ParseError::NoSection),
        Some(sec) => spec_parse_section(sec),
    }
}

/// Text standing after the isolated section — later sections, whatever key
/// names they redeclare — never changes what the parser extracts: parsing
/// `a + b`, where `a` holds a `[Desktop Entry]` header and `b` begins a new
/// section line, yields exactly the parse of `a`.
pub proof fn lemma_later_sections_ignored(a: Seq<char>, b: Seq<char>)
    requires
        spec_find_sub(a, "[Desktop Entry]"@) is Some,
        crate::chars::spec_starts_with(b, "\n["@),
    ensures
        spec_parse_entry(a + b) == spec_parse_entry(a),
{
    let h = "[Desktop Entry]"@;
    let nl = "\n["@;
    let s = a + b;
    crate::chars::lemma_find_sub_first(a, h);
    let i = spec_find_sub(a, h)->0;
    assert(crate::chars::match_at(a, h, i));
    assert(s.subrange(i, i + h.len() as int) =~= a.subrange(i, i + h.len() as int));
    assert(crate::chars::match_at(s, h, i));
    assert forall|j: int| 0 <= j < i implies !crate::chars::match_at(s, h, j) by {
        if crate::chars::match_at(s, h, j) {
            assert(s.subrange(j, j + h.len() as int) =~= a.subrange(j, j + h.len() as int));
            assert(crate::chars::match_at(a, h, j));
        }
    }
    crate::chars::lemma_find_sub_unique(s, h, i);
    let after_a = a.skip(i + h.len() as int);
    let after_s = s.skip(i + h.len() as int);
    assert(after_s =~= after_a + b);
    reveal_strlit("\n[");
    assert(nl.len() == 2);
    assert(nl[0] == '\n');
    assert(nl[1] == '[');
    assert(b.subrange(0, 2) == nl);
    crate::chars::lemma_find_sub_first(after_a, nl);
    match spec_find_sub(after_a, nl) {
        Some(j) => {
            assert(after_s.subrange(j, j + 2) =~= after_a.subrange(j, j + 2));
            assert(crate::chars::match_at(after_s, nl, j));
            assert forall|k: int| 0 <= k < j implies !crate::chars::match_at(after_s, nl, k) by {
                if crate::chars::match_at(after_s, nl, k) {
                    assert(after_s.subrange(k, k + 2) =~= after_a.subrange(k, k + 2));
                    assert(crate::chars::match_at(after_a, nl, k));
                }
            }
            crate::chars::lemma_find_sub_unique(after_s, nl, j);
            assert(after_s.take(j) =~= after_a.take(j));
        },
        None => {
            let la = after_a.len() as int;
            assert(after_s.subrange(la, la + 2) =~= b.subrange(0, 2));
            assert(crate::chars::match_at(after_s, nl, la));
            assert forall|k: int| 0 <= k < la implies !crate::chars::match_at(after_s, nl, k) by {
                if crate::chars::match_at(after_s, nl, k) {
                    if k + 2 <= la {
                        assert(after_s.subrange(k, k + 2) =~= after_a.subrange(k, k + 2));
                        assert(crate::chars::match_at(after_a, nl, k));
                        assert(!crate::chars::match_at(after_a, nl, k));
                        assert(false);
                    } else {
                        assert(after_s.subrange(k, k + 2)[1] == after_s[k + 1]);
                        assert(after_s[la] == b[0]);
                        assert(b[0] == '\n');
                        assert(after_s.subrange(k, k + 2)[1] == nl[1]);
                        assert(false);
                    }
                }
            }
            crate::chars::lemma_find_sub_unique(after_s, nl, la);
            assert(after_s.take(la) =~= after_a);
        },
    }
    assert(spec_isolate(s) == spec_isolate(a));
}

pub open spec fn entry_result_view(r: Result<RawDesktopEntry, ParseError>) -> Result<
    RawEntryView,
    ParseError,
> {
    match r {
        Ok(e) => Ok(e@),
        Err(p) => Err(p),
    }
}

/// Index just past the trailing spaces and tabs of `s[..end]`.
fn trim_end_idx(s: &Vec<char>, end: usize) -> (e: usize)
    requires
        end <= s.len(),
    ensures
        e <= end,
        spec_trim_end(s@.take(end as int)) == s@.take(e as int),
    decreases end,
{
    if end == 0 {
        proof {
            assert(s@.take(0) =~= Seq::<char>::empty());
        }
        return 0;
    }
    let c = s[end - 1];
    if c == ' ' || c == '\t' {
        proof {
            assert(s@.take(end as int).drop_last() =~= s@.take(end - 1));
            assert(s@.take(end as int).last() == s@[end - 1]);
        }
        trim_end_idx(s, end - 1)
    } else {
        proof {
            assert(s@.take(end as int).last() == s@[end - 1]);
        }
        end
    }
}

/// Index of the first character of `s[from..]` that is no space or tab.
fn trim_start_idx(s: &Vec<char>, from: usize) -> (j: usize)
    requires
        from <= s.len(),
    ensures
        from <= j <= s.len(),
        spec_trim_start(s@.skip(from as int)) == s@.skip(j as int),
    decreases s.len() - from,
{
    if from == s.len() {
        return from;
    }
    let c = s[from];
    if c == ' ' || c == '\t' {
        proof {
            assert(s@.skip(from as int)[0] == s@[from as int]);
            assert(s@.skip(from as int).skip(1) =~= s@.skip(from + 1));
        }
        trim_start_idx(s, from + 1)
    } else {
        proof {
            assert(s@.skip(from as int)[0] == s@[from as int]);
        }
        from
    }
}

/// Whether `s[from..to]` holds nothing but spaces and tabs.
fn is_blank_range(s: &Vec<char>, from: usize, to: usize) -> (r: bool)
    requires
        from <= to <= s.len(),
    ensures
        r == spec_is_blank(s@.subrange(from as int, to as int)),
{
    let mut i: usize = from;
    while i < to
        invariant
            from <= i <= to <= s.len(),
            forall|k: int| from <= k < i ==> s@[k] == ' ' || s@[k] == '\t',
        decreases to - i,
    {
        let c = s[i];
        if c != ' ' && c != '\t' {
            proof {
                assert(s@.subrange(from as int, to as int)[i - from] == s@[i as int]);
            }
            return false;
        }
        i += 1;
    }
    proof {
        assert forall|k: int| 0 <= k < to - from implies s@.subrange(from as int, to as int)[k]
            == ' ' || s@.subrange(from as int, to as int)[k] == '\t' by {
            assert(s@.subrange(from as int, to as int)[k] == s@[from + k]);
        }
    }
    true
}

/// Bounds of one line of `s` starting at `from`: the end of the line, and
/// the start of the next one (both the text length when no newline is
/// left).
fn line_bounds(s: &Vec<char>, from: usize) -> (r: (usize, usize))
    requires
        from <= s.len(),
    ensures
        from <= r.0 <= s.len(),
        from <= r.1 <= s.len(),
        ({
            let suf = s@.skip(from as int);
            match spec_find_char(suf, '\n') {
                None => r.0 == s.len() && r.1 == s.len(),
                Some(i) => r.0 == from + i && r.1 == from + i + 1 && s@.subrange(
                    from as int,
                    r.0 as int,
                ) == suf.take(i),
            }
        }),
{
    match find_char_from(s, '\n', from) {
        None => {
            proof {
                assert(s@.subrange(from as int, s@.len() as int) =~= s@.skip(from as int));
            }
            (s.len(), s.len())
        },
        Some(i) => {
            proof {
                lemma_find_char_bounds(s@.skip(from as int), '\n');
                assert(s@.subrange(from as int, i as int) =~= s@.skip(from as int).take(
                    i - from as int,
                ));
            }
            (i, i + 1)
        },
    }
}

pub open spec fn acc_result_view(r: Result<KeyAcc, ParseError>) -> Result<KeyAccView, ParseError> {
    match r {
        Ok(a) => Ok(a@),
        Err(p) => Err(p),
    }
}

/// One line of the section applied to the accumulator.
fn apply_line(line: &Vec<char>, acc: KeyAcc) -> (r: Result<KeyAcc, ParseError>)
    ensures
        acc_result_view(r) == spec_apply_line(acc@, line@),
{
    let l_end: usize = if line.len() > 0 && line[line.len() - 1] == '\r' {
        line.len() - 1
    } else {
        line.len()
    };
    let lvec = subvec(line, 0, l_end);
    proof {
        assert(lvec@ =~= spec_clean_cr(line@));
    }
    if is_blank_range(&lvec, 0, lvec.len()) {
        proof {
            assert(lvec@.subrange(0, lvec@.len() as int) =~= lvec@);
        }
        return Ok(acc);
    }
    proof {
        assert(lvec@.subrange(0, lvec@.len() as int) =~= lvec@);
    }
    if lvec[0] == '#' {
        return Ok(acc);
    }
    let eq_pos = match find_char_from(&lvec, '=', 0) {
        None => {
            proof {
                assert(lvec@.skip(0) =~= lvec@);
            }
            return Err(ParseError::BadLine);
        },
        Some(e) => e,
    };
    proof {
        assert(lvec@.skip(0) =~= lvec@);
        lemma_find_char_bounds(lvec@, '=');
    }
    let key_end = trim_end_idx(&lvec, eq_pos);
    let key = subvec(&lvec, 0, key_end);
    let val_start = trim_start_idx(&lvec, eq_pos + 1);
    let val = subvec(&lvec, val_start, lvec.len());
    let ghost key_s = spec_trim_end(lvec@.take(eq_pos as int));
    let ghost val_s = spec_trim_start(lvec@.skip(eq_pos + 1));
    proof {
        assert(key@ =~= key_s);
        assert(val@ =~= val_s);
    }
    if find_char_from(&key, '[', 0).is_some() {
        proof {
            assert(key@.skip(0) =~= key@);
        }
        return Ok(acc);
    }
    proof {
        assert(key@.skip(0) =~= key@);
    }
    let val_str = chars_to_string(&val);
    let mut a2 = acc;
    if chars_eq(&key, &str_to_chars("Type")) {
        if a2.type_v.is_some() {
            return Err(ParseError::DuplicateKey);
        }
        a2.type_v = Some(val_str);
        return Ok(a2);
    }
    if chars_eq(&key, &str_to_chars("Name")) {
        if a2.name_v.is_some() {
            return Err(ParseError::DuplicateKey);
        }
        a2.name_v = Some(val_str);
        return Ok(a2);
    }
    if chars_eq(&key, &str_to_chars("Comment")) {
        if a2.comment_v.is_some() {
            return Err(ParseError::DuplicateKey);
        }
        a2.comment_v = Some(val_str);
        return Ok(a2);
    }
    if chars_eq(&key, &str_to_chars("Icon")) {
        if a2.icon_v.is_some() {
            return Err(ParseError::DuplicateKey);
        }
        a2.icon_v = Some(val_str);
        return Ok(a2);
    }
    if chars_eq(&key, &str_to_chars("Exec")) {
        if a2.exec_v.is_some() {
            return Err(ParseError::DuplicateKey);
        }
        a2.exec_v = Some(val_str);
        return Ok(a2);
    }
    if chars_eq(&key, &str_to_chars("Terminal")) {
        if a2.terminal_v.is_some() {
            return Err(ParseError::DuplicateKey);
        }
        a2.terminal_v = Some(val_str);
        return Ok(a2);
    }
    if chars_eq(&key, &str_to_chars("Hidden")) {
        if a2.hidden_v.is_some() {
            return Err(ParseError::DuplicateKey);
        }
        a2.hidden_v = Some(val_str);
        return Ok(a2);
    }
    if chars_eq(&key, &str_to_chars("NoDisplay")) {
        if a2.no_display_v.is_some() {
            return Err(ParseError::DuplicateKey);
        }
        a2.no_display_v = Some(val_str);
        return Ok(a2);
    }
    if chars_eq(&key, &str_to_chars("OnlyShowIn")) {
        if a2.only_show_in_v.is_some() {
            return Err(ParseError::DuplicateKey);
        }
        a2.only_show_in_v = Some(val_str);
        return Ok(a2);
    }
    if chars_eq(&key, &str_to_chars("NotShowIn")) {
        if a2.not_show_in_v.is_some() {
            return Err(ParseError::DuplicateKey);
        }
        a2.not_show_in_v = Some(val_str);
        return Ok(a2);
    }
    Ok(a2)
}

/// The lines of `s` from position `from` on, folded into the accumulator.
fn parse_lines_from(s: &Vec<char>, from: usize, acc: KeyAcc) -> (r: Result<KeyAcc, ParseError>)
    requires
        from <= s.len(),
    ensures
        acc_result_view(r) == spec_parse_lines(s@.skip(from as int), acc@),
    decreases s.len() - from,
{
    if from == s.len() {
        proof {
            assert(s@.skip(from as int).len() == 0);
        }
        return Ok(acc);
    }
    let (lend, nstart) = line_bounds(s, from);
    let linevec = subvec(s, from, lend);
    if nstart == lend {
        apply_line(&linevec, acc)
    } else {
        match apply_line(&linevec, acc) {
            Err(e) => Err(e),
            Ok(acc2) => {
                proof {
                    assert(s@.skip(from as int).skip(nstart - from as int) =~= s@.skip(
                        nstart as int,
                    ));
                }
                parse_lines_from(s, nstart, acc2)
            },
        }
    }
}

fn parse_bool_opt(v: &Option<String>) -> (r: Result<Option<bool>, ParseError>)
    ensures
        r == spec_parse_bool(opt_str_view(*v)),
{
    match v {
        None => Ok(None),
        Some(s) => {
            if s.eq(&String::from_str("true")) {
                Ok(Some(true))
            } else if s.eq(&String::from_str("false")) {
                Ok(Some(false))
            } else {
                Err(ParseError::BadBool)
            }
        },
    }
}

/// The semicolon-separated pieces of `s[from..]`, empty pieces dropped.
fn split_semi_from(s: &Vec<char>, from: usize) -> (r: Vec<String>)
    requires
        from <= s.len(),
    ensures
        r.deep_view() == spec_split_semi(s@.skip(from as int)),
    decreases s.len() - from,
{
    match find_char_from(s, ';', from) {
        None => {
            let mut r: Vec<String> = Vec::new();
            if from < s.len() {
                let piece = subvec(s, from, s.len());
                proof {
                    assert(piece@ =~= s@.skip(from as int));
                }
                r.push(chars_to_string(&piece));
                proof {
                    assert(r.deep_view() =~= seq![s@.skip(from as int)]);
                }
            } else {
                proof {
                    assert(s@.skip(from as int).len() == 0);
                    assert(r.deep_view() =~= Seq::<Seq<char>>::empty());
                }
            }
            r
        },
        Some(i) => {
            proof {
                lemma_find_char_bounds(s@.skip(from as int), ';');
                assert(s@.skip(from as int).skip(i + 1 - from as int) =~= s@.skip(i + 1));
            }
            if i == from {
                split_semi_from(s, from + 1)
            } else {
                let piece = subvec(s, from, i);
                let rest = split_semi_from(s, i + 1);
                let ghost rest_dv = rest.deep_view();
                let mut r: Vec<String> = Vec::new();
                r.push(chars_to_string(&piece));
                let mut rest_mut = rest;
                r.append(&mut rest_mut);
                proof {
                    let suf = s@.skip(from as int);
                    assert(piece@ =~= suf.take(i - from as int));
                    let target = seq![suf.take(i - from as int)] + rest_dv;
                    assert forall|k: int| 0 <= k < r@.len() implies r.deep_view()[k] == target[k]
                    by {
                        assert(r.deep_view()[k] == r@[k].deep_view());
                        if k > 0 {
                            assert(rest_dv[k - 1] == r@[k].deep_view());
                        }
                    }
                    assert(r.deep_view() =~= target);
                }
                r
            }
        },
    }
}

/// The accumulator validated into an entry record.
fn finish_acc(acc: KeyAcc) -> (r: Result<RawDesktopEntry, ParseError>)
    ensures
        entry_result_view(r) == spec_finish(acc@),
{
    let tv = match acc.type_v {
        None => {
            return Err(ParseError::MissingType);
        },
        Some(tv) => tv,
    };
    let nv = match acc.name_v {
        None => {
            return Err(ParseError::MissingName);
        },
        Some(nv) => nv,
    };
    let term = match parse_bool_opt(&acc.terminal_v) {
        Err(e) => {
            return Err(e);
        },
        Ok(t) => t,
    };
    let hid = match parse_bool_opt(&acc.hidden_v) {
        Err(e) => {
            return Err(e);
        },
        Ok(t) => t,
    };
    let nod = match parse_bool_opt(&acc.no_display_v) {
        Err(e) => {
            return Err(e);
        },
        Ok(t) => t,
    };
    let kind: EntryKind = if tv.eq(&String::from_str("Application")) {
        EntryKind::Application
    } else if tv.eq(&String::from_str("Link")) {
        EntryKind::Link
    } else if tv.eq(&String::from_str("Directory")) {
        EntryKind::Directory
    } else {
        EntryKind::Other
    };
    let only: Vec<String> = match &acc.only_show_in_v {
        None => Vec::new(),
        Some(sv) => {
            let chars = str_to_chars(sv.as_str());
            let r = split_semi_from(&chars, 0);
            proof {
                assert(chars@.skip(0) =~= chars@);
            }
            r
        },
    };
    let not: Vec<String> = match &acc.not_show_in_v {
        None => Vec::new(),
        Some(sv) => {
            let chars = str_to_chars(sv.as_str());
            let r = split_semi_from(&chars, 0);
            proof {
                assert(chars@.skip(0) =~= chars@);
            }
            r
        },
    };
    let comment = match acc.comment_v {
        None => String::new(),
        Some(c) => c,
    };
    let e = RawDesktopEntry {
        entry_type: kind,
        name: nv,
        comment,
        icon: acc.icon_v,
        exec_cmd: acc.exec_v,
        terminal: term,
        hidden: hid,
        no_display: nod,
        only_show_in: only,
        not_show_in: not,
    };
    proof {
        if acc@.only_show_in_v is None {
            assert(e@.only_show_in =~= spec_opt_list(acc@.only_show_in_v));
        }
        if acc@.not_show_in_v is None {
            assert(e@.not_show_in =~= spec_opt_list(acc@.not_show_in_v));
        }
    }
    Ok(e)
}

/// A section slice parsed under the grammar.
fn parse_section_vec(sec: &Vec<char>) -> (r: Result<RawDesktopEntry, ParseError>)
    ensures
        entry_result_view(r) == spec_parse_section(sec@),
{
    let (lend, nstart) = line_bounds(sec, 0);
    proof {
        assert(sec@.skip(0) =~= sec@);
    }
    let le: usize = if lend > 0 && sec[lend - 1] == '\r' {
        lend - 1
    } else {
        lend
    };
    let ghost first = if nstart == lend {
        sec@
    } else {
        sec@.take(lend as int)
    };
    proof {
        if nstart == lend {
            assert(sec@.take(lend as int) =~= sec@);
        }
        assert(sec@.subrange(0, le as int) =~= spec_clean_cr(first));
    }
    let blank = is_blank_range(sec, 0, le);
    if !blank {
        return Err(ParseError::BadLine);
    }
    if nstart == lend {
        finish_acc(KeyAcc::new())
    } else {
        match parse_lines_from(sec, nstart, KeyAcc::new()) {
            Err(e) => Err(e),
            Ok(acc) => finish_acc(acc),
        }
    }
}

/// The Entry Parser: the first `[Desktop Entry]` section of the file text,
/// parsed into a record, or the reason there is none.
pub fn parse_desktop_entry(content: &str) -> (r: Result<RawDesktopEntry, ParseError>)
    ensures
        entry_result_view(r) == spec_parse_entry(content@),
{
    let chars = str_to_chars(content);
    let header = str_to_chars("[Desktop Entry]");
    proof {
        assert(chars@.skip(0) =~= chars@);
    }
    let hpos = match find_sub_from(&chars, &header, 0) {
        None => {
            return Err(ParseError::NoSection);
        },
        Some(i) => i,
    };
    proof {
        crate::chars::lemma_find_sub_first(chars@, header@);
    }
    let after_start = hpos + header.len();
    let end = match find_sub_from(&chars, &str_to_chars("\n["), after_start) {
        None => chars.len(),
        Some(k) => k,
    };
    proof {
        crate::chars::lemma_find_sub_first(chars@.skip(after_start as int), "\n["@);
    }
    let sec = subvec(&chars, after_start, end);
    proof {
        let after = chars@.skip(after_start as int);
        match spec_find_sub(after, "\n["@) {
            None => {
                assert(sec@ =~= after);
            },
            Some(j) => {
                assert(sec@ =~= after.take(j));
            },
        }
    }
    parse_section_vec(&sec)
}

} // verus!
