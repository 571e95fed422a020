//! Date inference from file names: the first run of eight decimal digits,
//! validated as a calendar date, after the name has been normalized.

use vstd::prelude::*;
use crate::bytes::{replace_seq, replace_bytes, sub_bytes, concat_bytes};
use crate::model::{Date, valid_date, days_in_month};
use crate::numbers::{is_digit, digits_val};
use crate::candidates::paren_lit;
use crate::lits::{
    tok_edited, tok_img, tok_vid, tok_jpeg, tok_effects, dash, underscore, space, tok_edited_v,
    tok_img_v, tok_vid_v, tok_jpeg_v, tok_effects_v, dash_v, underscore_v, space_v, open_paren_v,
    close_paren_v,
};
use crate::numbers::u32_to_dec;

verus! {

// ---------------------------------------------------------------------------
// First run of eight digits
// ---------------------------------------------------------------------------

pub open spec fn digits8_at(s: Seq<u8>, i: int) -> bool {
    0 <= i && i + 8 <= s.len() && (forall|k: int| i <= k < i + 8 ==> is_digit(s[k]))
}

pub open spec fn has_digits8(s: Seq<u8>) -> bool {
    exists|i: int| digits8_at(s, i)
}

pub open spec fn is_first_digits8(s: Seq<u8>, i: int) -> bool {
    digits8_at(s, i) && (forall|j: int| 0 <= j < i ==> !digits8_at(s, j))
}

pub open spec fn first_digits8(s: Seq<u8>) -> int {
    choose|i: int| is_first_digits8(s, i)
}

pub proof fn lemma_first_digits8_unique(s: Seq<u8>, i1: int, i2: int)
    requires
        is_first_digits8(s, i1),
        is_first_digits8(s, i2),
    ensures
        i1 == i2,
{
}

/// The date read from the first eight-digit run of `s`, when that run forms
/// a valid `YYYYMMDD` calendar date.
pub open spec fn parse8_spec(s: Seq<u8>) -> Option<Date> {
    if has_digits8(s) {
        let i = first_digits8(s);
        let y = digits_val(s.subrange(i, i + 4));
        let m = digits_val(s.subrange(i + 4, i + 6));
        let d = digits_val(s.subrange(i + 6, i + 8));
        if valid_date(y, m, d) {
            Some(Date { year: y as u32, month: m as u32, day: d as u32 })
        } else {
            None
        }
    } else {
        None
    }
}

/// Value of the digit window `s[a..b]`, for windows of at most eight digits.
fn window_val(s: &Vec<u8>, a: usize, b: usize) -> (v: u32)
    requires
        a <= b <= s.len(),
        b - a <= 8,
        forall|k: int| a <= k < b ==> is_digit(s@[k]),
    ensures
        v as int == digits_val(s@.subrange(a as int, b as int)),
{
    let mut v: u32 = 0;
    let mut k: usize = a;
    proof {
        assert(s@.subrange(a as int, a as int) =~= Seq::<u8>::empty());
    }
    while k < b
        invariant
            a <= k <= b <= s.len(),
            b - a <= 8,
            forall|j: int| a <= j < b ==> is_digit(s@[j]),
            v as int == digits_val(s@.subrange(a as int, k as int)),
            v < 100000000,
        decreases b - k,
    {
        proof {
            assert(s@.subrange(a as int, k + 1).drop_last() =~= s@.subrange(a as int, k as int));
            assert(s@.subrange(a as int, k + 1).last() == s@[k as int]);
        }
        v = v * 10 + ((s[k] - 48) as u32);
        k = k + 1;
        proof {
            crate::numbers::lemma_digits_val_nonneg(s@.subrange(a as int, k as int));
            lemma_digits8_window_bound(s@, a as int, k as int);
        }
    }
    v
}

/// A window of at most eight digits has value below `10^8`.
proof fn lemma_digits8_window_bound(s: Seq<u8>, a: int, b: int)
    requires
        0 <= a <= b <= s.len(),
        b - a <= 8,
        forall|k: int| a <= k < b ==> is_digit(s[k]),
    ensures
        digits_val(s.subrange(a, b)) < 100000000,
{
    lemma_digits_val_upper(s.subrange(a, b));
    lemma_pow10_le(s.subrange(a, b).len() as int, 8);
    assert(pow10(8) == 100000000) by {
        reveal_with_fuel(pow10, 9);
    }
}

pub open spec fn pow10(n: int) -> int
    decreases n,
{
    if n <= 0 {
        1
    } else {
        10 * pow10(n - 1)
    }
}

proof fn lemma_pow10_le(a: int, b: int)
    requires
        a <= b,
    ensures
        pow10(a) <= pow10(b),
    decreases b - a,
{
    if a < b {
        lemma_pow10_le(a, b - 1);
        lemma_pow10_pos(b - 1);
    }
}

proof fn lemma_pow10_pos(n: int)
    ensures
        pow10(n) >= 1,
    decreases (if n > 0 { n } else { 0 }),
{
    if n > 0 {
        lemma_pow10_pos(n - 1);
    }
}

proof fn lemma_digits_val_upper(s: Seq<u8>)
    requires
        forall|k: int| 0 <= k < s.len() ==> is_digit(s[k]),
    ensures
        0 <= digits_val(s) < pow10(s.len() as int),
    decreases s.len(),
{
    if s.len() > 0 {
        assert(forall|k: int| 0 <= k < s.drop_last().len() ==> is_digit(s.drop_last()[k]));
        lemma_digits_val_upper(s.drop_last());
    }
}

/// Scan for the first run of eight decimal digits and read it as a date.
pub fn try_parse_8_char_date(input: &Vec<u8>) -> (r: Option<Date>)
    ensures
        r == parse8_spec(input@),
{
    if input.len() < 8 {
        assert(forall|i: int| !digits8_at(input@, i));
        return None;
    }
    let mut i: usize = 0;
    while i <= input.len() - 8
        invariant
            8 <= input.len(),
            0 <= i <= input.len() - 8 + 1,
            forall|j: int| 0 <= j < i ==> !digits8_at(input@, j),
        decreases input.len() - i,
    {
        let mut ok = true;
        let mut k: usize = 0;
        while k < 8
            invariant
                0 <= k <= 8,
                i + 8 <= input.len(),
                ok == (forall|t: int| i <= t < i + k ==> is_digit(input@[t])),
            decreases 8 - k,
        {
            let b = input[i + k];
            if b < 48 || b > 57 {
                ok = false;
                k = 8;
            } else {
                k = k + 1;
            }
        }
        if ok {
            proof {
                assert(digits8_at(input@, i as int));
                assert(is_first_digits8(input@, i as int));
                lemma_first_digits8_unique(input@, i as int, first_digits8(input@));
            }
            let y = window_val(input, i, i + 4);
            let m = window_val(input, i + 4, i + 6);
            let d = window_val(input, i + 6, i + 8);
            if check_valid_date(y, m, d) {
                return Some(Date { year: y, month: m, day: d });
            } else {
                return None;
            }
        }
        proof {
            assert(!digits8_at(input@, i as int));
        }
        i = i + 1;
    }
    proof {
        assert(forall|j: int| digits8_at(input@, j) ==> 0 <= j <= input@.len() - 8);
        assert(!has_digits8(input@));
    }
    None
}

/// Calendar validity of a year-month-day triple.
pub fn check_valid_date(y: u32, m: u32, d: u32) -> (r: bool)
    ensures
        r == valid_date(y as int, m as int, d as int),
{
    if y > 9999 || m < 1 || m > 12 || d < 1 {
        return false;
    }
    let dim: u32 = if m == 1 || m == 3 || m == 5 || m == 7 || m == 8 || m == 10 || m == 12 {
        31
    } else if m == 4 || m == 6 || m == 9 || m == 11 {
        30
    } else if (y % 4 == 0 && y % 100 != 0) || y % 400 == 0 {
        29
    } else {
        28
    };
    proof {
        assert(dim == days_in_month(y as int, m as int));
    }
    d <= dim
}

// ---------------------------------------------------------------------------
// Name normalization ahead of the digit scan
// ---------------------------------------------------------------------------

/// Parenthesized counters `(0)` to `(4)` removed.
pub open spec fn strip_counters(s: Seq<u8>) -> Seq<u8> {
    let r0 = replace_seq(s, paren_lit(0), Seq::empty());
    let r1 = replace_seq(r0, paren_lit(1), Seq::empty());
    let r2 = replace_seq(r1, paren_lit(2), Seq::empty());
    let r3 = replace_seq(r2, paren_lit(3), Seq::empty());
    replace_seq(r3, paren_lit(4), Seq::empty())
}

/// One token removed wherever it stands against a `-` or `_` separator.
pub open spec fn strip_token(s: Seq<u8>, tok: Seq<u8>) -> Seq<u8> {
    let a = replace_seq(s, dash() + tok, Seq::empty());
    let b = replace_seq(a, tok + dash(), Seq::empty());
    let c = replace_seq(b, underscore() + tok, Seq::empty());
    replace_seq(c, tok + underscore(), Seq::empty())
}

/// The stem normalized: counters removed, then the noise tokens.
pub open spec fn normalize_stem(s: Seq<u8>) -> Seq<u8> {
    let s0 = strip_counters(s);
    let s1 = strip_token(s0, tok_edited());
    let s2 = strip_token(s1, tok_img());
    let s3 = strip_token(s2, tok_vid());
    let s4 = strip_token(s3, tok_jpeg());
    strip_token(s4, tok_effects())
}

/// The tier-three decision: the date inferred from a normalized stem, trying
/// the name as-is and then with each separator kind removed; among the
/// separator retries the last success wins.
pub open spec fn tier3_date(stem: Seq<u8>) -> Option<Date> {
    let n = normalize_stem(stem);
    if n.len() < 8 {
        None
    } else {
        let direct = parse8_spec(n);
        if direct is Some {
            direct
        } else {
            let a = parse8_spec(replace_seq(n, dash(), Seq::empty()));
            let b = parse8_spec(replace_seq(n, underscore(), Seq::empty()));
            let c = parse8_spec(replace_seq(n, space(), Seq::empty()));
            if c is Some {
                c
            } else if b is Some {
                b
            } else {
                a
            }
        }
    }
}

fn strip_counters_exec(s: &Vec<u8>) -> (r: Vec<u8>)
    ensures
        r@ == strip_counters(s@),
{
    let none_v: Vec<u8> = Vec::new();
    let mut cur = sub_bytes(s, 0, s.len());
    let mut i: u32 = 0;
    while i < 5
        invariant
            0 <= i <= 5,
            cur@ == (if i == 0 { s@ } else if i == 1 {
                replace_seq(s@, paren_lit(0), Seq::empty())
            } else if i == 2 {
                replace_seq(replace_seq(s@, paren_lit(0), Seq::empty()), paren_lit(1),
                    Seq::empty())
            } else if i == 3 {
                replace_seq(replace_seq(replace_seq(s@, paren_lit(0), Seq::empty()),
                    paren_lit(1), Seq::empty()), paren_lit(2), Seq::empty())
            } else if i == 4 {
                replace_seq(replace_seq(replace_seq(replace_seq(s@, paren_lit(0), Seq::empty()),
                    paren_lit(1), Seq::empty()), paren_lit(2), Seq::empty()), paren_lit(3),
                    Seq::empty())
            } else {
                strip_counters(s@)
            }),
        decreases 5 - i,
    {
        let dec = u32_to_dec(i);
        let pl = concat_bytes(&concat_bytes(&open_paren_v(), &dec), &close_paren_v());
        proof {
            assert(pl@ == paren_lit(i as nat));
        }
        cur = replace_bytes(&cur, &pl, &none_v);
        i = i + 1;
    }
    cur
}

fn strip_token_exec(s: &Vec<u8>, tok: &Vec<u8>) -> (r: Vec<u8>)
    requires
        tok.len() > 0,
    ensures
        r@ == strip_token(s@, tok@),
{
    let none_v: Vec<u8> = Vec::new();
    let da = dash_v();
    let un = underscore_v();
    let a = replace_bytes(s, &concat_bytes(&da, tok), &none_v);
    let b = replace_bytes(&a, &concat_bytes(tok, &da), &none_v);
    let c = replace_bytes(&b, &concat_bytes(&un, tok), &none_v);
    replace_bytes(&c, &concat_bytes(tok, &un), &none_v)
}

fn normalize_stem_exec(s: &Vec<u8>) -> (r: Vec<u8>)
    ensures
        r@ == normalize_stem(s@),
{
    let s0 = strip_counters_exec(s);
    let s1 = strip_token_exec(&s0, &tok_edited_v());
    let s2 = strip_token_exec(&s1, &tok_img_v());
    let s3 = strip_token_exec(&s2, &tok_vid_v());
    let s4 = strip_token_exec(&s3, &tok_jpeg_v());
    strip_token_exec(&s4, &tok_effects_v())
}

/// The date inferred from a media file stem, or nothing.
pub fn infer_date_from_stem(stem: &Vec<u8>) -> (r: Option<Date>)
    ensures
        r == tier3_date(stem@),
{
    let n = normalize_stem_exec(stem);
    if n.len() < 8 {
        return None;
    }
    let none_v: Vec<u8> = Vec::new();
    let direct = try_parse_8_char_date(&n);
    if direct.is_some() {
        return direct;
    }
    let a = try_parse_8_char_date(&replace_bytes(&n, &dash_v(), &none_v));
    let b = try_parse_8_char_date(&replace_bytes(&n, &underscore_v(), &none_v));
    let c = try_parse_8_char_date(&replace_bytes(&n, &space_v(), &none_v));
    if c.is_some() {
        c
    } else if b.is_some() {
        b
    } else {
        a
    }
}

} // verus!
