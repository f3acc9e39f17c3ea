//! Cache Store codec: the application list serialized as a flat structured
//! text (a JSON array of four-string records) and parsed back. The caller
//! persists the encoded text at the cache location and must treat any decode
//! failure as a cache miss, never as an empty list. Decoding inverts
//! encoding exactly: see `lemma_cache_round_trip`.

use vstd::prelude::*;
use vstd::string::*;
use crate::chars::subvec;
use crate::chars::chars_match_at;
use crate::chars::str_to_chars;
use crate::chars::chars_to_string;
use crate::entry::Application;
use crate::entry::AppView;

verus! {

pub open spec fn lit_name() -> Seq<char> {
    "{\"name\":"@
}

pub open spec fn lit_comment() -> Seq<char> {
    ",\"comment\":"@
}

pub open spec fn lit_icon() -> Seq<char> {
    ",\"icon\":"@
}

pub open spec fn lit_exec() -> Seq<char> {
    ",\"exec\":"@
}

pub open spec fn lit_close() -> Seq<char> {
    "}"@
}

/// A character under string escaping: quote and backslash are prefixed by a
/// backslash, everything else stands for itself.
pub open spec fn spec_esc_char(c: char) -> Seq<char> {
    if c == '"' || c == '\\' {
        seq!['\\', c]
    } else {
        seq![c]
    }
}

pub open spec fn spec_enc_chars(s: Seq<char>) -> Seq<char>
    decreases s.len(),
{
    if s.len() == 0 {
        Seq::empty()
    } else {
        spec_esc_char(s[0]) + spec_enc_chars(s.skip(1))
    }
}

/// A string value: its escaped characters between double quotes.
pub open spec fn spec_enc_str(s: Seq<char>) -> Seq<char> {
    seq!['"'] + spec_enc_chars(s) + seq!['"']
}

/// One record: the four fields, each a quoted string, in fixed order.
pub open spec fn spec_enc_app(a: AppView) -> Seq<char> {
    lit_name() + spec_enc_str(a.name) + lit_comment() + spec_enc_str(a.comment) + lit_icon()
        + spec_enc_str(a.icon) + lit_exec() + spec_enc_str(a.exec_cmd) + lit_close()
}

pub open spec fn spec_enc_items(apps: Seq<AppView>) -> Seq<char>
    decreases apps.len(),
{
    if apps.len() == 0 {
        Seq::empty()
    } else if apps.len() == 1 {
        spec_enc_app(apps[0])
    } else {
        spec_enc_app(apps[0]) + seq![','] + spec_enc_items(apps.skip(1))
    }
}

/// The whole cache text: the records, comma-separated, between brackets.
pub open spec fn spec_encode(apps: Seq<AppView>) -> Seq<char> {
    seq!['['] + spec_enc_items(apps) + seq![']']
}

/// The rest of `s` after the expected literal `l`, when `s` starts with it.
pub open spec fn spec_take_lit(s: Seq<char>, l: Seq<char>) -> Option<Seq<char>> {
    if l.len() <= s.len() && s.take(l.len() as int) == l {
        Some(s.skip(l.len() as int))
    } else {
        None
    }
}

/// The characters of a string value up to its closing quote, unescaped, and
/// what follows.
pub open spec fn spec_parse_string_body(s: Seq<char>) -> Option<(Seq<char>, Seq<char>)>
    decreases s.len(),
{
    if s.len() == 0 {
        None
    } else if s[0] == '"' {
        Some((Seq::empty(), s.skip(1)))
    } else if s[0] == '\\' {
        if s.len() >= 2 && (s[1] == '"' || s[1] == '\\') {
            match spec_parse_string_body(s.skip(2)) {
                None => None,
                Some((v, r)) => Some((seq![s[1]] + v, r)),
            }
        } else {
            None
        }
    } else {
        match spec_parse_string_body(s.skip(1)) {
            None => None,
            Some((v, r)) => Some((seq![s[0]] + v, r)),
        }
    }
}

pub open spec fn spec_parse_string(s: Seq<char>) -> Option<(Seq<char>, Seq<char>)> {
    if s.len() >= 1 && s[0] == '"' {
        spec_parse_string_body(s.skip(1))
    } else {
        None
    }
}

/// One record parsed back into a view, and what follows.
pub open spec fn spec_parse_app(s: Seq<char>) -> Option<(AppView, Seq<char>)> {
    match spec_take_lit(s, lit_name()) {
        None => None,
        Some(r1) => match spec_parse_string(r1) {
            None => None,
            Some((name, r2)) => match spec_take_lit(r2, lit_comment()) {
                None => None,
                Some(r3) => match spec_parse_string(r3) {
                    None => None,
                    Some((comment, r4)) => match spec_take_lit(r4, lit_icon()) {
                        None => None,
                        Some(r5) => match spec_parse_string(r5) {
                            None => None,
                            Some((icon, r6)) => match spec_take_lit(r6, lit_exec()) {
                                None => None,
                                Some(r7) => match spec_parse_string(r7) {
                                    None => None,
                                    Some((ex, r8)) => match spec_take_lit(r8, lit_close()) {
                                        None => None,
                                        Some(r9) => Some(
                                            (
                                                AppView {
                                                    name: name,
                                                    comment: comment,
                                                    icon: icon,
                                                    exec_cmd: ex,
                                                },
                                                r9,
                                            ),
                                        ),
                                    },
                                },
                            },
                        },
                    },
                },
            },
        },
    }
}

pub proof fn lemma_parse_string_body_consumes(s: Seq<char>)
    ensures
        match spec_parse_string_body(s) {
            Some((v, r)) => r.len() < s.len(),
            None => true,
        },
    decreases s.len(),
{
    if s.len() == 0 {
    } else if s[0] == '"' {
    } else if s[0] == '\\' {
        if s.len() >= 2 && (s[1] == '"' || s[1] == '\\') {
            lemma_parse_string_body_consumes(s.skip(2));
        }
    } else {
        lemma_parse_string_body_consumes(s.skip(1));
    }
}

pub proof fn lemma_parse_app_consumes(s: Seq<char>)
    ensures
        match spec_parse_app(s) {
            Some((a, r)) => r.len() < s.len(),
            None => true,
        },
{
    match spec_take_lit(s, lit_name()) {
        None => {},
        Some(r1) => {
            if r1.len() >= 1 && r1[0] == '"' {
                lemma_parse_string_body_consumes(r1.skip(1));
            }
            match spec_parse_string(r1) {
                None => {},
                Some((name, r2)) => {
                    match spec_take_lit(r2, lit_comment()) {
                        None => {},
                        Some(r3) => {
                            if r3.len() >= 1 && r3[0] == '"' {
                                lemma_parse_string_body_consumes(r3.skip(1));
                            }
                            match spec_parse_string(r3) {
                                None => {},
                                Some((comment, r4)) => {
                                    match spec_take_lit(r4, lit_icon()) {
                                        None => {},
                                        Some(r5) => {
                                            if r5.len() >= 1 && r5[0] == '"' {
                                                lemma_parse_string_body_consumes(r5.skip(1));
                                            }
                                            match spec_parse_string(r5) {
                                                None => {},
                                                Some((icon, r6)) => {
                                                    match spec_take_lit(r6, lit_exec()) {
                                                        None => {},
                                                        Some(r7) => {
                                                            if r7.len() >= 1 && r7[0] == '"' {
                                                                lemma_parse_string_body_consumes(
                                                                    r7.skip(1),
                                                                );
                                                            }
                                                        },
                                                    }
                                                },
                                            }
                                        },
                                    }
                                },
                            }
                        },
                    }
                },
            }
        },
    }
}

/// The records of the list body, exactly up to the closing bracket.
pub open spec fn spec_parse_items(s: Seq<char>) -> Option<(Seq<AppView>, Seq<char>)>
    decreases s.len(),
        via spec_parse_items_decreases
{
    match spec_parse_app(s) {
        None => None,
        Some((a, r)) => if r.len() >= 1 && r[0] == ',' {
            match spec_parse_items(r.skip(1)) {
                None => None,
                Some((rest, r2)) => Some((seq![a] + rest, r2)),
            }
        } else if r.len() >= 1 && r[0] == ']' {
            Some((seq![a], r.skip(1)))
        } else {
            None
        },
    }
}

#[via_fn]
proof fn spec_parse_items_decreases(s: Seq<char>) {
    lemma_parse_app_consumes(s);
}

/// The whole cache text parsed back, when nothing precedes or follows the
/// list.
pub open spec fn spec_decode(s: Seq<char>) -> Option<Seq<AppView>> {
    match spec_take_lit(s, seq!['[']) {
        None => None,
        Some(r) => if r.len() >= 1 && r[0] == ']' {
            if r.len() == 1 {
                Some(Seq::empty())
            } else {
                None
            }
        } else {
            match spec_parse_items(r) {
                None => None,
                Some((apps, r2)) => if r2.len() == 0 {
                    Some(apps)
                } else {
                    None
                },
            }
        },
    }
}

pub proof fn lemma_take_lit_prefix(l: Seq<char>, rest: Seq<char>)
    ensures
        spec_take_lit(l + rest, l) == Some(rest),
{
    assert((l + rest).take(l.len() as int) =~= l);
    assert((l + rest).skip(l.len() as int) =~= rest);
}

/// The string-body parser inverts character escaping.
pub proof fn lemma_parse_body_enc(v: Seq<char>, rest: Seq<char>)
    ensures
        spec_parse_string_body(spec_enc_chars(v) + seq!['"'] + rest) == Some((v, rest)),
    decreases v.len(),
{
    let s = spec_enc_chars(v) + seq!['"'] + rest;
    if v.len() == 0 {
        assert(spec_enc_chars(v) =~= Seq::<char>::empty());
        assert(s =~= seq!['"'] + rest);
        assert(s[0] == '"');
        assert(s.skip(1) =~= rest);
    } else {
        let v1 = v.skip(1);
        lemma_parse_body_enc(v1, rest);
        let c = v[0];
        if c == '"' || c == '\\' {
            assert(s =~= seq!['\\', c] + (spec_enc_chars(v1) + seq!['"'] + rest));
            assert(s[0] == '\\');
            assert(s[1] == c);
            assert(s.skip(2) =~= spec_enc_chars(v1) + seq!['"'] + rest);
            assert(seq![s[1]] + v1 =~= v);
        } else {
            assert(s =~= seq![c] + (spec_enc_chars(v1) + seq!['"'] + rest));
            assert(s[0] == c);
            assert(s.skip(1) =~= spec_enc_chars(v1) + seq!['"'] + rest);
            assert(seq![s[0]] + v1 =~= v);
        }
    }
}

pub proof fn lemma_parse_string_enc(v: Seq<char>, rest: Seq<char>)
    ensures
        spec_parse_string(spec_enc_str(v) + rest) == Some((v, rest)),
{
    let s = spec_enc_str(v) + rest;
    assert(s =~= seq!['"'] + (spec_enc_chars(v) + seq!['"'] + rest));
    assert(s[0] == '"');
    assert(s.skip(1) =~= spec_enc_chars(v) + seq!['"'] + rest);
    lemma_parse_body_enc(v, rest);
}

/// The record parser inverts the record encoder.
pub proof fn lemma_parse_app_enc(a: AppView, rest: Seq<char>)
    ensures
        spec_parse_app(spec_enc_app(a) + rest) == Some((a, rest)),
{
    let s = spec_enc_app(a) + rest;
    let t2 = lit_comment() + spec_enc_str(a.comment) + lit_icon() + spec_enc_str(a.icon)
        + lit_exec() + spec_enc_str(a.exec_cmd) + lit_close() + rest;
    let t1 = spec_enc_str(a.name) + t2;
    assert(t1 =~= spec_enc_str(a.name) + t2);
    assert(s =~= lit_name() + t1);
    lemma_take_lit_prefix(lit_name(), t1);
    lemma_parse_string_enc(a.name, t2);
    let t4 = spec_enc_str(a.comment) + (lit_icon() + spec_enc_str(a.icon) + lit_exec()
        + spec_enc_str(a.exec_cmd) + lit_close() + rest);
    assert(t2 =~= lit_comment() + t4);
    lemma_take_lit_prefix(lit_comment(), t4);
    let t5 = lit_icon() + spec_enc_str(a.icon) + lit_exec() + spec_enc_str(a.exec_cmd)
        + lit_close() + rest;
    assert(t4 =~= spec_enc_str(a.comment) + t5);
    lemma_parse_string_enc(a.comment, t5);
    let t6 = spec_enc_str(a.icon) + (lit_exec() + spec_enc_str(a.exec_cmd) + lit_close() + rest);
    assert(t5 =~= lit_icon() + t6);
    lemma_take_lit_prefix(lit_icon(), t6);
    let t7 = lit_exec() + spec_enc_str(a.exec_cmd) + lit_close() + rest;
    assert(t6 =~= spec_enc_str(a.icon) + t7);
    lemma_parse_string_enc(a.icon, t7);
    let t8 = spec_enc_str(a.exec_cmd) + (lit_close() + rest);
    assert(t7 =~= lit_exec() + t8);
    lemma_take_lit_prefix(lit_exec(), t8);
    let t9 = lit_close() + rest;
    assert(t8 =~= spec_enc_str(a.exec_cmd) + t9);
    lemma_parse_string_enc(a.exec_cmd, t9);
    lemma_take_lit_prefix(lit_close(), rest);
    assert(a == AppView { name: a.name, comment: a.comment, icon: a.icon, exec_cmd: a.exec_cmd });
}

/// The list-body parser inverts the comma-separated record encoding.
pub proof fn lemma_parse_items_enc(apps: Seq<AppView>, rest: Seq<char>)
    requires
        apps.len() >= 1,
    ensures
        spec_parse_items(spec_enc_items(apps) + seq![']'] + rest) == Some((apps, rest)),
    decreases apps.len(),
{
    let s = spec_enc_items(apps) + seq![']'] + rest;
    if apps.len() == 1 {
        let t = seq![']'] + rest;
        assert(s =~= spec_enc_app(apps[0]) + t);
        lemma_parse_app_enc(apps[0], t);
        assert(t[0] == ']');
        assert(t.skip(1) =~= rest);
        assert(seq![apps[0]] =~= apps);
    } else {
        let t = seq![','] + (spec_enc_items(apps.skip(1)) + seq![']'] + rest);
        assert(s =~= spec_enc_app(apps[0]) + t);
        lemma_parse_app_enc(apps[0], t);
        assert(t[0] == ',');
        assert(t.skip(1) =~= spec_enc_items(apps.skip(1)) + seq![']'] + rest);
        lemma_parse_items_enc(apps.skip(1), rest);
        assert(seq![apps[0]] + apps.skip(1) =~= apps);
    }
}

/// Decoding a saved list yields the list back, field by field and in order,
/// for every length including zero: the cache codec loses nothing.
pub proof fn lemma_cache_round_trip(apps: Seq<AppView>)
    ensures
        spec_decode(spec_encode(apps)) == Some(apps),
{
    let s = spec_encode(apps);
    if apps.len() == 0 {
        assert(s =~= seq!['['] + seq![']']);
        lemma_take_lit_prefix(seq!['['], seq![']']);
        assert(Seq::<AppView>::empty() =~= apps);
    } else {
        let t = spec_enc_items(apps) + seq![']'];
        assert(s =~= seq!['['] + t);
        lemma_take_lit_prefix(seq!['['], t);
        reveal_strlit("{\"name\":");
        assert(lit_name().len() == 8);
        assert(lit_name()[0] == '{');
        if apps.len() == 1 {
            assert(t[0] == spec_enc_app(apps[0])[0]);
            assert(spec_enc_app(apps[0])[0] == '{');
        } else {
            assert(spec_enc_items(apps)[0] == spec_enc_app(apps[0])[0]);
            assert(t[0] == spec_enc_items(apps)[0]);
            assert(spec_enc_app(apps[0])[0] == '{');
        }
        assert(t[0] != ']');
        lemma_parse_items_enc(apps, Seq::<char>::empty());
        assert(t =~= spec_enc_items(apps) + seq![']'] + Seq::<char>::empty());
    }
}

proof fn lemma_enc_chars_push(a: Seq<char>, c: char)
    ensures
        spec_enc_chars(a.push(c)) == spec_enc_chars(a) + spec_esc_char(c),
    decreases a.len(),
{
    if a.len() == 0 {
        assert(a.push(c)[0] == c);
        assert(a.push(c).skip(1) =~= Seq::<char>::empty());
        assert(spec_enc_chars(Seq::<char>::empty()) == Seq::<char>::empty());
        assert(spec_enc_chars(a.push(c)) == spec_esc_char(c) + Seq::<char>::empty());
        assert(spec_esc_char(c) + Seq::<char>::empty() =~= spec_esc_char(c));
        assert(spec_enc_chars(a) + spec_esc_char(c) =~= spec_esc_char(c));
    } else {
        let ap = a.push(c);
        assert(ap[0] == a[0]);
        assert(ap.skip(1) =~= a.skip(1).push(c));
        lemma_enc_chars_push(a.skip(1), c);
        assert(spec_esc_char(a[0]) + (spec_enc_chars(a.skip(1)) + spec_esc_char(c)) =~= (
        spec_esc_char(a[0]) + spec_enc_chars(a.skip(1))) + spec_esc_char(c));
    }
}

proof fn lemma_enc_items_push(apps: Seq<AppView>, x: AppView)
    ensures
        spec_enc_items(apps.push(x)) == if apps.len() == 0 {
            spec_enc_app(x)
        } else {
            spec_enc_items(apps) + seq![','] + spec_enc_app(x)
        },
    decreases apps.len(),
{
    let ap = apps.push(x);
    if apps.len() == 0 {
        assert(ap[0] == x);
    } else if apps.len() == 1 {
        assert(ap[0] == apps[0]);
        assert(ap.skip(1) =~= seq![x]);
        assert(spec_enc_items(seq![x]) == spec_enc_app(seq![x][0]));
        assert(seq![x][0] == x);
    } else {
        assert(ap[0] == apps[0]);
        assert(ap.skip(1) =~= apps.skip(1).push(x));
        lemma_enc_items_push(apps.skip(1), x);
        assert(spec_enc_app(apps[0]) + seq![','] + (spec_enc_items(apps.skip(1)) + seq![',']
            + spec_enc_app(x)) =~= (spec_enc_app(apps[0]) + seq![','] + spec_enc_items(
            apps.skip(1),
        )) + seq![','] + spec_enc_app(x));
    }
}

/// The characters of `s` appended to `out`.
fn append_str_chars(out: &mut Vec<char>, s: &str)
    ensures
        final(out)@ == old(out)@ + s@,
{
    let mut l = str_to_chars(s);
    out.append(&mut l);
}

/// One string value encoded, quotes and escapes included, onto `out`.
fn encode_string_into(out: &mut Vec<char>, s: &String)
    ensures
        final(out)@ == old(out)@ + spec_enc_str(s@),
{
    let ghost base = out@;
    out.push('"');
    let cs = str_to_chars(s.as_str());
    let mut i: usize = 0;
    while i < cs.len()
        invariant
            i <= cs.len(),
            cs@ == s@,
            out@ == base + seq!['"'] + spec_enc_chars(cs@.take(i as int)),
        decreases cs.len() - i,
    {
        let c = cs[i];
        if c == '"' || c == '\\' {
            out.push('\\');
            out.push(c);
        } else {
            out.push(c);
        }
        proof {
            lemma_enc_chars_push(cs@.take(i as int), c);
            assert(cs@.take(i + 1 as int) =~= cs@.take(i as int).push(c));
            assert(out@ =~= base + seq!['"'] + spec_enc_chars(cs@.take(i + 1 as int)));
        }
        i += 1;
    }
    out.push('"');
    proof {
        assert(cs@.take(cs@.len() as int) =~= s@);
        assert(out@ =~= base + spec_enc_str(s@));
    }
}

/// One record encoded onto `out`.
fn encode_app_into(out: &mut Vec<char>, a: &Application)
    ensures
        final(out)@ == old(out)@ + spec_enc_app(a@),
{
    let ghost base = out@;
    append_str_chars(out, "{\"name\":");
    encode_string_into(out, &a.name);
    append_str_chars(out, ",\"comment\":");
    encode_string_into(out, &a.comment);
    append_str_chars(out, ",\"icon\":");
    encode_string_into(out, &a.icon);
    append_str_chars(out, ",\"exec\":");
    encode_string_into(out, &a.exec_cmd);
    append_str_chars(out, "}");
    proof {
        assert(out@ =~= base + spec_enc_app(a@));
    }
}

/// The application list serialized to its cache text.
pub fn encode_apps(apps: &Vec<Application>) -> (r: String)
    ensures
        r@ == spec_encode(apps.deep_view()),
{
    let ghost dv = apps.deep_view();
    let mut out: Vec<char> = Vec::new();
    out.push('[');
    let mut i: usize = 0;
    while i < apps.len()
        invariant
            i <= apps.len(),
            dv == apps.deep_view(),
            out@ == seq!['['] + spec_enc_items(dv.take(i as int)),
        decreases apps.len() - i,
    {
        if i > 0 {
            out.push(',');
        }
        encode_app_into(&mut out, &apps[i]);
        proof {
            assert(dv[i as int] == apps@[i as int].deep_view());
            lemma_enc_items_push(dv.take(i as int), dv[i as int]);
            assert(dv.take(i + 1 as int) =~= dv.take(i as int).push(dv[i as int]));
            if i == 0 {
                assert(out@ =~= seq!['['] + spec_enc_items(dv.take(i + 1 as int)));
            } else {
                assert(out@ =~= seq!['['] + (spec_enc_items(dv.take(i as int)) + seq![',']
                    + spec_enc_app(dv[i as int])));
            }
        }
        i += 1;
    }
    out.push(']');
    proof {
        assert(dv.take(dv.len() as int) =~= dv);
        assert(out@ =~= spec_encode(dv));
    }
    chars_to_string(&out)
}

/// Rest position after the expected literal, when `s[from..]` starts with
/// it.
fn take_lit_at(s: &Vec<char>, from: usize, l: &Vec<char>) -> (r: Option<usize>)
    requires
        from <= s.len(),
    ensures
        match r {
            Some(j) => from <= j <= s.len() && spec_take_lit(s@.skip(from as int), l@) == Some(
                s@.skip(j as int),
            ),
            None => spec_take_lit(s@.skip(from as int), l@) is None,
        },
{
    if s.len() - from < l.len() {
        return None;
    }
    let ok = chars_match_at(s, l, from);
    proof {
        assert(s@.skip(from as int).take(l@.len() as int) =~= s@.subrange(
            from as int,
            from + l@.len() as int,
        ));
    }
    if ok {
        proof {
            assert(s@.skip(from as int).skip(l@.len() as int) =~= s@.skip(from + l@.len()));
        }
        Some(from + l.len())
    } else {
        None
    }
}

/// A string body parsed from position `from`, unescaped.
fn parse_string_body_at(s: &Vec<char>, from: usize) -> (r: Option<(Vec<char>, usize)>)
    requires
        from <= s.len(),
    ensures
        match r {
            Some(p) => from <= p.1 <= s.len() && spec_parse_string_body(s@.skip(from as int))
                == Some((p.0@, s@.skip(p.1 as int))),
            None => spec_parse_string_body(s@.skip(from as int)) is None,
        },
    decreases s.len() - from,
{
    if from == s.len() {
        return None;
    }
    let c = s[from];
    proof {
        assert(s@.skip(from as int)[0] == s@[from as int]);
    }
    if c == '"' {
        proof {
            assert(s@.skip(from as int).skip(1) =~= s@.skip(from + 1));
        }
        let v: Vec<char> = Vec::new();
        proof {
            assert(v@ =~= Seq::<char>::empty());
        }
        return Some((v, from + 1));
    }
    if c == '\\' {
        if from + 1 < s.len() {
            let c2 = s[from + 1];
            proof {
                assert(s@.skip(from as int)[1] == s@[from + 1]);
            }
            if c2 == '"' || c2 == '\\' {
                proof {
                    assert(s@.skip(from as int).skip(2) =~= s@.skip(from + 2));
                }
                match parse_string_body_at(s, from + 2) {
                    None => {
                        return None;
                    },
                    Some((v, j)) => {
                        let ghost vv = v@;
                        let mut out: Vec<char> = Vec::new();
                        out.push(c2);
                        let mut vm = v;
                        out.append(&mut vm);
                        proof {
                            assert(out@ =~= seq![c2] + vv);
                        }
                        return Some((out, j));
                    },
                }
            }
        }
        return None;
    }
    proof {
        assert(s@.skip(from as int).skip(1) =~= s@.skip(from + 1));
    }
    match parse_string_body_at(s, from + 1) {
        None => None,
        Some((v, j)) => {
            let ghost vv = v@;
            let mut out: Vec<char> = Vec::new();
            out.push(c);
            let mut vm = v;
            out.append(&mut vm);
            proof {
                assert(out@ =~= seq![c] + vv);
            }
            Some((out, j))
        },
    }
}

/// A quoted string value parsed from position `from`.
fn parse_string_at(s: &Vec<char>, from: usize) -> (r: Option<(String, usize)>)
    requires
        from <= s.len(),
    ensures
        match r {
            Some(p) => from <= p.1 <= s.len() && spec_parse_string(s@.skip(from as int)) == Some(
                (p.0@, s@.skip(p.1 as int)),
            ),
            None => spec_parse_string(s@.skip(from as int)) is None,
        },
{
    if from < s.len() && s[from] == '"' {
        proof {
            assert(s@.skip(from as int)[0] == s@[from as int]);
            assert(s@.skip(from as int).skip(1) =~= s@.skip(from + 1));
        }
        match parse_string_body_at(s, from + 1) {
            None => None,
            Some((v, j)) => Some((chars_to_string(&v), j)),
        }
    } else {
        proof {
            if s@.skip(from as int).len() >= 1 {
                assert(s@.skip(from as int)[0] == s@[from as int]);
            }
        }
        None
    }
}

/// One record parsed from position `from`.
fn parse_app_at(s: &Vec<char>, from: usize) -> (r: Option<(Application, usize)>)
    requires
        from <= s.len(),
    ensures
        match r {
            Some(p) => from <= p.1 <= s.len() && spec_parse_app(s@.skip(from as int)) == Some(
                (p.0@, s@.skip(p.1 as int)),
            ),
            None => spec_parse_app(s@.skip(from as int)) is None,
        },
{
    let j1 = match take_lit_at(s, from, &str_to_chars("{\"name\":")) {
        None => {
            return None;
        },
        Some(j) => j,
    };
    let (name, j2) = match parse_string_at(s, j1) {
        None => {
            return None;
        },
        Some(p) => p,
    };
    let j3 = match take_lit_at(s, j2, &str_to_chars(",\"comment\":")) {
        None => {
            return None;
        },
        Some(j) => j,
    };
    let (comment, j4) = match parse_string_at(s, j3) {
        None => {
            return None;
        },
        Some(p) => p,
    };
    let j5 = match take_lit_at(s, j4, &str_to_chars(",\"icon\":")) {
        None => {
            return None;
        },
        Some(j) => j,
    };
    let (icon, j6) = match parse_string_at(s, j5) {
        None => {
            return None;
        },
        Some(p) => p,
    };
    let j7 = match take_lit_at(s, j6, &str_to_chars(",\"exec\":")) {
        None => {
            return None;
        },
        Some(j) => j,
    };
    let (ex, j8) = match parse_string_at(s, j7) {
        None => {
            return None;
        },
        Some(p) => p,
    };
    let j9 = match take_lit_at(s, j8, &str_to_chars("}")) {
        None => {
            return None;
        },
        Some(j) => j,
    };
    Some((Application { name, comment, icon, exec_cmd: ex }, j9))
}

/// The records of the list body parsed from position `from`, up to the
/// closing bracket.
fn parse_items_at(s: &Vec<char>, from: usize) -> (r: Option<(Vec<Application>, usize)>)
    requires
        from <= s.len(),
    ensures
        match r {
            Some(p) => from <= p.1 <= s.len() && spec_parse_items(s@.skip(from as int)) == Some(
                (p.0.deep_view(), s@.skip(p.1 as int)),
            ),
            None => spec_parse_items(s@.skip(from as int)) is None,
        },
    decreases s.len() - from,
{
    let (a, j) = match parse_app_at(s, from) {
        None => {
            return None;
        },
        Some(p) => p,
    };
    proof {
        if j < s.len() {
            assert(s@.skip(j as int)[0] == s@[j as int]);
        }
    }
    if j < s.len() && s[j] == ',' {
        proof {
            assert(s@.skip(j as int).skip(1) =~= s@.skip(j + 1));
        }
        match parse_items_at(s, j + 1) {
            None => None,
            Some((rest, k)) => {
                let ghost rest_dv = rest.deep_view();
                let ghost av = a@;
                let mut out: Vec<Application> = Vec::new();
                out.push(a);
                let mut rm = rest;
                out.append(&mut rm);
                proof {
                    let target = seq![av] + rest_dv;
                    assert forall|m: int| 0 <= m < out@.len() implies out.deep_view()[m]
                        == target[m] by {
                        assert(out.deep_view()[m] == out@[m].deep_view());
                        if m > 0 {
                            assert(rest_dv[m - 1] == out@[m].deep_view());
                        }
                    }
                    assert(out.deep_view() =~= target);
                }
                Some((out, k))
            },
        }
    } else if j < s.len() && s[j] == ']' {
        proof {
            assert(s@.skip(j as int).skip(1) =~= s@.skip(j + 1));
        }
        let ghost av = a@;
        let mut out: Vec<Application> = Vec::new();
        out.push(a);
        proof {
            assert(out.deep_view() =~= seq![av]);
        }
        Some((out, j + 1))
    } else {
        None
    }
}

/// The cache text deserialized back into an application list; `None` is a
/// decode failure and must be treated as a cache miss, never as an empty
/// list.
pub fn decode_apps(s: &str) -> (r: Option<Vec<Application>>)
    ensures
        match r {
            Some(v) => spec_decode(s@) == Some(v.deep_view()),
            None => spec_decode(s@) is None,
        },
{
    let cs = str_to_chars(s);
    proof {
        assert(cs@.skip(0) =~= cs@);
        reveal_strlit("[");
        assert("["@ =~= seq!['[']);
    }
    let j = match take_lit_at(&cs, 0, &str_to_chars("[")) {
        None => {
            return None;
        },
        Some(j) => j,
    };
    proof {
        if j < cs.len() {
            assert(cs@.skip(j as int)[0] == cs@[j as int]);
        }
    }
    if j < cs.len() && cs[j] == ']' {
        if j + 1 == cs.len() {
            let v: Vec<Application> = Vec::new();
            proof {
                assert(v.deep_view() =~= Seq::<AppView>::empty());
            }
            Some(v)
        } else {
            None
        }
    } else {
        match parse_items_at(&cs, j) {
            None => None,
            Some((v, k)) => {
                if k == cs.len() {
                    Some(v)
                } else {
                    None
                }
            },
        }
    }
}

} // verus!
