//! The persisted window-state record format: a JSON object
//! `{"x":..,"y":..,"width":..,"height":..,"maximized":..}` with the five
//! fields in this fixed order and insignificant whitespace tolerated
//! between tokens. Encoding and parsing are both specified exactly, and
//! parsing an encoded record is proved to give the record back, so a
//! geometry saved at close is restored intact on the next install.
//! Anything malformed parses to nothing and the caller falls back to
//! defaults.

use vstd::prelude::*;
use crate::digits::{dec_int_str, dec_str, digit_val, digits_val, is_digit, is_digit_char,
    lemma_digit_count_at, lemma_digits_val_step, lemma_parse_digits_dec_str, lemma_pow10_10,
    lemma_pow10_monotone, pow10, push_dec, push_dec_signed, spec_parse_digits};
use crate::text::{has_prefix, is_space_char, skip_leading_ws, starts_with_str, trim_start_spec};
use crate::window_state::SavedWindowState;

verus! {

/// The remainder of `t` after a required literal, when the literal is there.
pub open spec fn spec_expect(t: Seq<char>, lit: Seq<char>) -> Option<Seq<char>> {
    if has_prefix(t, lit) {
        Some(t.skip(lit.len() as int))
    } else {
        None
    }
}

/// The remainder of `t` after insignificant whitespace and a required
/// token.
pub open spec fn spec_token(t: Seq<char>, lit: Seq<char>) -> Option<Seq<char>> {
    spec_expect(trim_start_spec(t), lit)
}

/// A leading unsigned 32-bit number and the remainder after it.
pub open spec fn spec_parse_u32(t: Seq<char>) -> Option<(u32, Seq<char>)> {
    match spec_parse_digits(t) {
        None => None,
        Some((v, c)) => if v > 0xffff_ffff {
            None
        } else {
            Some((v as u32, t.skip(c as int)))
        },
    }
}

/// A leading signed 32-bit number, an optional minus sign directly before
/// the digits, and the remainder after it.
pub open spec fn spec_parse_i32(t: Seq<char>) -> Option<(i32, Seq<char>)> {
    if t.len() >= 1 && t[0] == '-' {
        match spec_parse_digits(t.skip(1)) {
            None => None,
            Some((v, c)) => if v > 0x8000_0000 {
                None
            } else {
                Some(((-(v as int)) as i32, t.skip(1 + c as int)))
            },
        }
    } else {
        match spec_parse_digits(t) {
            None => None,
            Some((v, c)) => if v > 0x7fff_ffff {
                None
            } else {
                Some((v as i32, t.skip(c as int)))
            },
        }
    }
}

/// A leading boolean literal and the remainder after it.
pub open spec fn spec_parse_bool(t: Seq<char>) -> Option<(bool, Seq<char>)> {
    match spec_expect(t, "true"@) {
        Some(rest) => Some((true, rest)),
        None => match spec_expect(t, "false"@) {
            Some(rest) => Some((false, rest)),
            None => None,
        },
    }
}

/// The boolean literals of the record format.
pub open spec fn bool_seq(b: bool) -> Seq<char> {
    if b {
        "true"@
    } else {
        "false"@
    }
}

/// A key token, its colon and a signed number, each preceded by optional
/// whitespace: the value and the remainder after it.
pub open spec fn spec_field_i32(t: Seq<char>, key: Seq<char>) -> Option<(i32, Seq<char>)> {
    match spec_token(t, key) {
        None => None,
        Some(t1) => match spec_token(t1, ":"@) {
            None => None,
            Some(t2) => spec_parse_i32(trim_start_spec(t2)),
        },
    }
}

/// A key token, its colon and an unsigned number, each preceded by
/// optional whitespace.
pub open spec fn spec_field_u32(t: Seq<char>, key: Seq<char>) -> Option<(u32, Seq<char>)> {
    match spec_token(t, key) {
        None => None,
        Some(t1) => match spec_token(t1, ":"@) {
            None => None,
            Some(t2) => spec_parse_u32(trim_start_spec(t2)),
        },
    }
}

/// A key token, its colon and a boolean literal, each preceded by optional
/// whitespace.
pub open spec fn spec_field_bool(t: Seq<char>, key: Seq<char>) -> Option<(bool, Seq<char>)> {
    match spec_token(t, key) {
        None => None,
        Some(t1) => match spec_token(t1, ":"@) {
            None => None,
            Some(t2) => spec_parse_bool(trim_start_spec(t2)),
        },
    }
}

/// The exact text a window-state record is persisted as: compact, no
/// whitespace.
pub open spec fn encode_spec(s: SavedWindowState) -> Seq<char> {
    "{"@ + "\"x\""@ + ":"@ + dec_int_str(s.x as int) + ","@ + "\"y\""@ + ":"@ + dec_int_str(
        s.y as int,
    ) + ","@ + "\"width\""@ + ":"@ + dec_str(s.width as nat) + ","@ + "\"height\""@ + ":"@
        + dec_str(s.height as nat) + ","@ + "\"maximized\""@ + ":"@ + bool_seq(s.maximized) + "}"@
}

/// The record a stored text denotes: the five fields in order, whitespace
/// tolerated between tokens, nothing but whitespace after the closing
/// brace.
pub open spec fn spec_parse_window_state(t: Seq<char>) -> Option<SavedWindowState> {
    match spec_token(t, "{"@) {
        None => None,
        Some(t1) => match spec_field_i32(t1, "\"x\""@) {
            None => None,
            Some((x, t2)) => match spec_token(t2, ","@) {
                None => None,
                Some(t3) => match spec_field_i32(t3, "\"y\""@) {
                    None => None,
                    Some((y, t4)) => match spec_token(t4, ","@) {
                        None => None,
                        Some(t5) => match spec_field_u32(t5, "\"width\""@) {
                            None => None,
                            Some((w, t6)) => match spec_token(t6, ","@) {
                                None => None,
                                Some(t7) => match spec_field_u32(t7, "\"height\""@) {
                                    None => None,
                                    Some((h, t8)) => match spec_token(t8, ","@) {
                                        None => None,
                                        Some(t9) => match spec_field_bool(t9, "\"maximized\""@) {
                                            None => None,
                                            Some((m, t10)) => match spec_token(t10, "}"@) {
                                                None => None,
                                                Some(t11) => if trim_start_spec(t11).len() == 0 {
                                                    Some(
                                                        SavedWindowState {
                                                            x,
                                                            y,
                                                            width: w,
                                                            height: h,
                                                            maximized: m,
                                                        },
                                                    )
                                                } else {
                                                    None
                                                },
                                            },
                                        },
                                    },
                                },
                            },
                        },
                    },
                },
            },
        },
    }
}

/// Renders a window-state record in the persisted format.
pub fn encode_window_state(s: &SavedWindowState) -> (r: String)
    ensures
        r@ == encode_spec(*s),
{
    let mut out = String::new();
    out.append("{");
    out.append("\"x\"");
    out.append(":");
    push_dec_signed(&mut out, s.x);
    out.append(",");
    out.append("\"y\"");
    out.append(":");
    push_dec_signed(&mut out, s.y);
    out.append(",");
    out.append("\"width\"");
    out.append(":");
    push_dec(&mut out, s.width as u64);
    out.append(",");
    out.append("\"height\"");
    out.append(":");
    push_dec(&mut out, s.height as u64);
    out.append(",");
    out.append("\"maximized\"");
    out.append(":");
    if s.maximized {
        out.append("true");
    } else {
        out.append("false");
    }
    out.append("}");
    proof {
        assert(out@ =~= encode_spec(*s));
    }
    out
}

/// Consumes a required literal at the front of `s`.
fn expect_prefix<'a>(s: &'a str, lit: &str) -> (r: Option<&'a str>)
    ensures
        match r {
            Some(rest) => spec_expect(s@, lit@) == Some(rest@),
            None => spec_expect(s@, lit@) is None,
        },
{
    let n = s.unicode_len();
    let m = lit.unicode_len();
    if starts_with_str(s, lit) {
        let rest = s.substring_char(m, n);
        proof {
            assert(rest@ =~= s@.skip(m as int));
        }
        Some(rest)
    } else {
        None
    }
}

/// Consumes optional whitespace and a required token.
fn expect_token<'a>(s: &'a str, lit: &str) -> (r: Option<&'a str>)
    ensures
        match r {
            Some(rest) => spec_token(s@, lit@) == Some(rest@),
            None => spec_token(s@, lit@) is None,
        },
{
    let t = skip_leading_ws(s);
    expect_prefix(t, lit)
}

/// Reads the leading digits of `s` and their value.
fn parse_digits_prefix(s: &str) -> (r: Option<(u64, usize)>)
    ensures
        match r {
            Some((v, c)) => spec_parse_digits(s@) == Some((v as nat, c as nat)) && c <= s@.len(),
            None => spec_parse_digits(s@) is None,
        },
{
    let n = s.unicode_len();
    let mut c: usize = 0;
    while c < n && is_digit(s.get_char(c))
        invariant
            0 <= c <= n,
            n == s@.len(),
            forall|i: int| 0 <= i < c ==> is_digit_char(#[trigger] s@[i]),
        decreases n - c,
    {
        c = c + 1;
    }
    proof {
        lemma_digit_count_at(s@, c as int);
    }
    if c == 0 {
        return None;
    }
    if c > 10 {
        return None;
    }
    if c > 1 && s.get_char(0) == '0' {
        return None;
    }
    let mut acc: u64 = 0;
    let mut i: usize = 0;
    while i < c
        invariant
            0 <= i <= c <= 10,
            c <= n,
            n == s@.len(),
            forall|k: int| 0 <= k < c ==> is_digit_char(#[trigger] s@[k]),
            acc == digits_val(s@.take(i as int)),
            acc < pow10(i as nat),
        decreases c - i,
    {
        let ch = s.get_char(i);
        let d = (ch as u32) - 48;
        proof {
            lemma_digits_val_step(s@, i as int);
            lemma_pow10_monotone((i + 1) as nat, 10);
            lemma_pow10_10();
            assert(digit_val(s@[i as int]) == d as nat);
            assert(pow10((i + 1) as nat) == 10 * pow10(i as nat));
        }
        acc = acc * 10 + (d as u64);
        i = i + 1;
    }
    proof {
        assert(s@.take(c as int).len() == c);
    }
    Some((acc, c))
}

/// Reads a leading unsigned 32-bit number.
fn parse_u32_prefix<'a>(s: &'a str) -> (r: Option<(u32, &'a str)>)
    ensures
        match r {
            Some((v, rest)) => spec_parse_u32(s@) == Some((v, rest@)),
            None => spec_parse_u32(s@) is None,
        },
{
    let n = s.unicode_len();
    match parse_digits_prefix(s) {
        None => None,
        Some((v, c)) => {
            if v > 0xffff_ffff {
                None
            } else {
                let rest = s.substring_char(c, n);
                proof {
                    assert(rest@ =~= s@.skip(c as int));
                }
                Some((v as u32, rest))
            }
        },
    }
}

/// Reads a leading signed 32-bit number.
fn parse_i32_prefix<'a>(s: &'a str) -> (r: Option<(i32, &'a str)>)
    ensures
        match r {
            Some((v, rest)) => spec_parse_i32(s@) == Some((v, rest@)),
            None => spec_parse_i32(s@) is None,
        },
{
    let n = s.unicode_len();
    if n >= 1 && s.get_char(0) == '-' {
        let tail = s.substring_char(1, n);
        proof {
            assert(tail@ =~= s@.skip(1));
        }
        match parse_digits_prefix(tail) {
            None => None,
            Some((v, c)) => {
                if v > 0x8000_0000 {
                    None
                } else {
                    let x: i32 = if v == 0x8000_0000 {
                        i32::MIN
                    } else {
                        -(v as i32)
                    };
                    let m = tail.unicode_len();
                    let rest = tail.substring_char(c, m);
                    proof {
                        assert(rest@ =~= s@.skip(1 + c as int));
                    }
                    Some((x, rest))
                }
            },
        }
    } else {
        match parse_digits_prefix(s) {
            None => None,
            Some((v, c)) => {
                if v > 0x7fff_ffff {
                    None
                } else {
                    let rest = s.substring_char(c, n);
                    proof {
                        assert(rest@ =~= s@.skip(c as int));
                    }
                    Some((v as i32, rest))
                }
            },
        }
    }
}

/// Reads a leading boolean literal.
fn parse_bool_prefix<'a>(s: &'a str) -> (r: Option<(bool, &'a str)>)
    ensures
        match r {
            Some((b, rest)) => spec_parse_bool(s@) == Some((b, rest@)),
            None => spec_parse_bool(s@) is None,
        },
{
    match expect_prefix(s, "true") {
        Some(rest) => Some((true, rest)),
        None => match expect_prefix(s, "false") {
            Some(rest) => Some((false, rest)),
            None => None,
        },
    }
}

/// Reads one signed-number field: key, colon, value.
fn parse_field_i32<'a>(s: &'a str, key: &str) -> (r: Option<(i32, &'a str)>)
    ensures
        match r {
            Some((v, rest)) => spec_field_i32(s@, key@) == Some((v, rest@)),
            None => spec_field_i32(s@, key@) is None,
        },
{
    let t1 = match expect_token(s, key) {
        Some(t) => t,
        None => {
            return None;
        },
    };
    let t2 = match expect_token(t1, ":") {
        Some(t) => t,
        None => {
            return None;
        },
    };
    parse_i32_prefix(skip_leading_ws(t2))
}

/// Reads one unsigned-number field: key, colon, value.
fn parse_field_u32<'a>(s: &'a str, key: &str) -> (r: Option<(u32, &'a str)>)
    ensures
        match r {
            Some((v, rest)) => spec_field_u32(s@, key@) == Some((v, rest@)),
            None => spec_field_u32(s@, key@) is None,
        },
{
    let t1 = match expect_token(s, key) {
        Some(t) => t,
        None => {
            return None;
        },
    };
    let t2 = match expect_token(t1, ":") {
        Some(t) => t,
        None => {
            return None;
        },
    };
    parse_u32_prefix(skip_leading_ws(t2))
}

/// Reads one boolean field: key, colon, value.
fn parse_field_bool<'a>(s: &'a str, key: &str) -> (r: Option<(bool, &'a str)>)
    ensures
        match r {
            Some((v, rest)) => spec_field_bool(s@, key@) == Some((v, rest@)),
            None => spec_field_bool(s@, key@) is None,
        },
{
    let t1 = match expect_token(s, key) {
        Some(t) => t,
        None => {
            return None;
        },
    };
    let t2 = match expect_token(t1, ":") {
        Some(t) => t,
        None => {
            return None;
        },
    };
    parse_bool_prefix(skip_leading_ws(t2))
}

/// Parses a stored record, yielding nothing for anything malformed so the
/// caller can fall back to defaults.
pub fn parse_window_state(s: &str) -> (r: Option<SavedWindowState>)
    ensures
        r == spec_parse_window_state(s@),
{
    let t1 = match expect_token(s, "{") {
        Some(t) => t,
        None => {
            return None;
        },
    };
    let (x, t2) = match parse_field_i32(t1, "\"x\"") {
        Some(p) => p,
        None => {
            return None;
        },
    };
    let t3 = match expect_token(t2, ",") {
        Some(t) => t,
        None => {
            return None;
        },
    };
    let (y, t4) = match parse_field_i32(t3, "\"y\"") {
        Some(p) => p,
        None => {
            return None;
        },
    };
    let t5 = match expect_token(t4, ",") {
        Some(t) => t,
        None => {
            return None;
        },
    };
    let (w, t6) = match parse_field_u32(t5, "\"width\"") {
        Some(p) => p,
        None => {
            return None;
        },
    };
    let t7 = match expect_token(t6, ",") {
        Some(t) => t,
        None => {
            return None;
        },
    };
    let (h, t8) = match parse_field_u32(t7, "\"height\"") {
        Some(p) => p,
        None => {
            return None;
        },
    };
    let t9 = match expect_token(t8, ",") {
        Some(t) => t,
        None => {
            return None;
        },
    };
    let (m, t10) = match parse_field_bool(t9, "\"maximized\"") {
        Some(p) => p,
        None => {
            return None;
        },
    };
    let t11 = match expect_token(t10, "}") {
        Some(t) => t,
        None => {
            return None;
        },
    };
    if skip_leading_ws(t11).unicode_len() == 0 {
        Some(SavedWindowState { x, y, width: w, height: h, maximized: m })
    } else {
        None
    }
}

/// A required literal at the front of exactly itself plus a tail leaves
/// the tail.
proof fn lemma_expect_concat(lit: Seq<char>, rest: Seq<char>)
    ensures
        spec_expect(lit + rest, lit) == Some(rest),
{
    assert((lit + rest).subrange(0, lit.len() as int) =~= lit);
    assert((lit + rest).skip(lit.len() as int) =~= rest);
}

/// Leading-whitespace removal leaves a text that does not start with
/// whitespace unchanged.
proof fn lemma_skip_ws_id(t: Seq<char>)
    requires
        t.len() == 0 || !is_space_char(t[0]),
    ensures
        trim_start_spec(t) == t,
{
}

/// A token at the front of exactly itself plus a tail leaves the tail.
proof fn lemma_token_concat(lit: Seq<char>, rest: Seq<char>)
    requires
        lit.len() > 0,
        !is_space_char(lit[0]),
    ensures
        spec_token(lit + rest, lit) == Some(rest),
{
    assert((lit + rest)[0] == lit[0]);
    lemma_skip_ws_id(lit + rest);
    lemma_expect_concat(lit, rest);
}

/// A rendered signed value followed by a non-digit, non-sign tail parses
/// back to the value, leaving the tail.
proof fn lemma_parse_i32_concat(x: i32, rest: Seq<char>)
    requires
        rest.len() >= 1,
        !is_digit_char(rest[0]),
    ensures
        spec_parse_i32(dec_int_str(x as int) + rest) == Some((x, rest)),
{
    lemma_pow10_10();
    if x < 0 {
        let mag = (-(x as int)) as nat;
        let d = dec_str(mag);
        let t = dec_int_str(x as int) + rest;
        assert(t =~= seq!['-'] + (d + rest));
        assert(t[0] == '-');
        assert(t.skip(1) =~= d + rest);
        lemma_parse_digits_dec_str(mag, rest);
        assert(spec_parse_digits(t.skip(1)) == Some((mag, d.len())));
        assert(mag <= 0x8000_0000);
        assert(t.skip(1 + d.len() as int) =~= (d + rest).skip(d.len() as int));
        assert((-(mag as int)) as i32 == x);
    } else {
        let mag = x as nat;
        let d = dec_str(mag);
        let t = dec_int_str(x as int) + rest;
        assert(t =~= d + rest);
        lemma_parse_digits_dec_str(mag, rest);
        assert(is_digit_char(t[0]));
        assert(t[0] != '-') by {
            if t[0] == '-' {
                assert(t[0] as u32 == 45);
            }
        };
        assert(spec_parse_digits(t) == Some((mag, d.len())));
        assert(mag <= 0x7fff_ffff);
        assert(t.skip(d.len() as int) == rest);
    }
}

/// A rendered unsigned value followed by a non-digit tail parses back to
/// the value, leaving the tail.
proof fn lemma_parse_u32_concat(v: u32, rest: Seq<char>)
    requires
        rest.len() >= 1,
        !is_digit_char(rest[0]),
    ensures
        spec_parse_u32(dec_str(v as nat) + rest) == Some((v, rest)),
{
    lemma_pow10_10();
    lemma_parse_digits_dec_str(v as nat, rest);
}

/// A rendered boolean literal followed by a tail parses back to the value,
/// leaving the tail.
proof fn lemma_parse_bool_concat(b: bool, rest: Seq<char>)
    ensures
        spec_parse_bool(bool_seq(b) + rest) == Some((b, rest)),
{
    reveal_strlit("true");
    reveal_strlit("false");
    if b {
        lemma_expect_concat("true"@, rest);
    } else {
        let t = "false"@ + rest;
        assert(spec_expect(t, "true"@) is None) by {
            if has_prefix(t, "true"@) {
                assert(t.subrange(0, 4)[0] == 't');
                assert(t[0] == 'f');
            }
        };
        lemma_expect_concat("false"@, rest);
    }
}

/// A compactly rendered signed field parses back to its value, leaving the
/// tail.
proof fn lemma_field_i32_concat(key: Seq<char>, x: i32, rest: Seq<char>)
    requires
        key.len() > 0,
        !is_space_char(key[0]),
        rest.len() >= 1,
        !is_digit_char(rest[0]),
    ensures
        spec_field_i32(key + (":"@ + (dec_int_str(x as int) + rest)), key) == Some((x, rest)),
{
    reveal_strlit(":");
    let num = dec_int_str(x as int) + rest;
    lemma_token_concat(key, ":"@ + num);
    lemma_token_concat(":"@, num);
    assert(num[0] == (dec_int_str(x as int) + rest)[0]);
    crate::digits::lemma_dec_str_digits(if x < 0 {
        (-(x as int)) as nat
    } else {
        x as nat
    });
    assert(!is_space_char(num[0]));
    lemma_skip_ws_id(num);
    lemma_parse_i32_concat(x, rest);
}

/// A compactly rendered unsigned field parses back to its value, leaving
/// the tail.
proof fn lemma_field_u32_concat(key: Seq<char>, v: u32, rest: Seq<char>)
    requires
        key.len() > 0,
        !is_space_char(key[0]),
        rest.len() >= 1,
        !is_digit_char(rest[0]),
    ensures
        spec_field_u32(key + (":"@ + (dec_str(v as nat) + rest)), key) == Some((v, rest)),
{
    reveal_strlit(":");
    let num = dec_str(v as nat) + rest;
    lemma_token_concat(key, ":"@ + num);
    lemma_token_concat(":"@, num);
    crate::digits::lemma_dec_str_digits(v as nat);
    assert(!is_space_char(num[0]));
    lemma_skip_ws_id(num);
    lemma_parse_u32_concat(v, rest);
}

/// A compactly rendered boolean field parses back to its value, leaving
/// the tail.
proof fn lemma_field_bool_concat(key: Seq<char>, b: bool, rest: Seq<char>)
    requires
        key.len() > 0,
        !is_space_char(key[0]),
    ensures
        spec_field_bool(key + (":"@ + (bool_seq(b) + rest)), key) == Some((b, rest)),
{
    reveal_strlit(":");
    reveal_strlit("true");
    reveal_strlit("false");
    let val = bool_seq(b) + rest;
    lemma_token_concat(key, ":"@ + val);
    lemma_token_concat(":"@, val);
    assert(val[0] == bool_seq(b)[0]);
    assert(!is_space_char(val[0]));
    lemma_skip_ws_id(val);
    lemma_parse_bool_concat(b, rest);
}

/// Law: a window-state record always reads back from its own encoding, so
/// the geometry and maximized flag saved at close are exactly what a later
/// install restores.
#[verifier::rlimit(60)]
pub proof fn lemma_window_state_round_trip(s: SavedWindowState)
    ensures
        spec_parse_window_state(encode_spec(s)) == Some(s),
{
    reveal_strlit("{");
    reveal_strlit("}");
    reveal_strlit(",");
    reveal_strlit(":");
    reveal_strlit("\"x\"");
    reveal_strlit("\"y\"");
    reveal_strlit("\"width\"");
    reveal_strlit("\"height\"");
    reveal_strlit("\"maximized\"");
    let kx = "\"x\""@;
    let ky = "\"y\""@;
    let kw = "\"width\""@;
    let kh = "\"height\""@;
    let km = "\"maximized\""@;
    let t10 = "}"@;
    let t9 = km + (":"@ + (bool_seq(s.maximized) + t10));
    let t8 = ","@ + t9;
    let t7 = kh + (":"@ + (dec_str(s.height as nat) + t8));
    let t6 = ","@ + t7;
    let t5 = kw + (":"@ + (dec_str(s.width as nat) + t6));
    let t4 = ","@ + t5;
    let t3 = ky + (":"@ + (dec_int_str(s.y as int) + t4));
    let t2 = ","@ + t3;
    let t1 = kx + (":"@ + (dec_int_str(s.x as int) + t2));
    assert(encode_spec(s) =~= "{"@ + t1);
    lemma_token_concat("{"@, t1);
    assert(spec_token(encode_spec(s), "{"@) == Some(t1));
    assert(t2[0] == ',');
    lemma_field_i32_concat(kx, s.x, t2);
    assert(spec_field_i32(t1, kx) == Some((s.x, t2)));
    lemma_token_concat(","@, t3);
    assert(spec_token(t2, ","@) == Some(t3));
    assert(t4[0] == ',');
    lemma_field_i32_concat(ky, s.y, t4);
    assert(spec_field_i32(t3, ky) == Some((s.y, t4)));
    lemma_token_concat(","@, t5);
    assert(spec_token(t4, ","@) == Some(t5));
    assert(t6[0] == ',');
    lemma_field_u32_concat(kw, s.width, t6);
    assert(spec_field_u32(t5, kw) == Some((s.width, t6)));
    lemma_token_concat(","@, t7);
    assert(spec_token(t6, ","@) == Some(t7));
    assert(t8[0] == ',');
    lemma_field_u32_concat(kh, s.height, t8);
    assert(spec_field_u32(t7, kh) == Some((s.height, t8)));
    lemma_token_concat(","@, t9);
    assert(spec_token(t8, ","@) == Some(t9));
    lemma_field_bool_concat(km, s.maximized, t10);
    assert(spec_field_bool(t9, km) == Some((s.maximized, t10)));
    assert(t10 =~= "}"@ + Seq::<char>::empty());
    lemma_token_concat("}"@, Seq::<char>::empty());
    assert(spec_token(t10, "}"@) == Some(Seq::<char>::empty()));
    assert(trim_start_spec(Seq::<char>::empty()).len() == 0);
}

} // verus!
