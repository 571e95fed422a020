//! Parsing and printing of unsigned decimal numbers, as the bracketed
//! counters in sidecar names use them: parsing accepts an optional leading
//! plus sign and rejects values over the 32-bit range; printing emits the
//! canonical form without leading zeros.

use vstd::prelude::*;

verus! {

pub const PLUS: u8 = 43;
pub const ZERO: u8 = 48;

pub open spec fn is_digit(b: u8) -> bool {
    48 <= b <= 57
}

pub open spec fn all_digits(s: Seq<u8>) -> bool {
    forall|i: int| 0 <= i < s.len() ==> is_digit(s[i])
}

/// Value of a digit string, most significant first.
pub open spec fn digits_val(s: Seq<u8>) -> int
    decreases s.len(),
{
    if s.len() == 0 {
        0
    } else {
        digits_val(s.drop_last()) * 10 + (s.last() - ZERO)
    }
}

/// The digits of `s` after an optional single leading plus sign.
pub open spec fn digits_part(s: Seq<u8>) -> Seq<u8> {
    if s.len() > 0 && s[0] == PLUS {
        s.skip(1)
    } else {
        s
    }
}

/// `s` parses as a 32-bit unsigned decimal number.
pub open spec fn parses_u32(s: Seq<u8>) -> bool {
    let d = digits_part(s);
    d.len() > 0 && all_digits(d) && digits_val(d) <= u32::MAX
}

pub proof fn lemma_digits_val_nonneg(s: Seq<u8>)
    requires
        all_digits(s),
    ensures
        digits_val(s) >= 0,
    decreases s.len(),
{
    if s.len() > 0 {
        assert(all_digits(s.drop_last()));
        lemma_digits_val_nonneg(s.drop_last());
    }
}

pub proof fn lemma_digits_val_mono(s: Seq<u8>, k: int)
    requires
        all_digits(s),
        0 <= k <= s.len(),
    ensures
        digits_val(s) >= digits_val(s.subrange(0, k)),
    decreases s.len() - k,
{
    if k == s.len() {
        assert(s.subrange(0, k) =~= s);
    } else {
        let t = s.subrange(0, s.len() - 1);
        assert(t =~= s.drop_last());
        assert(all_digits(t));
        lemma_digits_val_nonneg(t);
        lemma_digits_val_mono(t, k);
        assert(t.subrange(0, k) =~= s.subrange(0, k));
        assert(digits_val(s) == digits_val(t) * 10 + (s.last() - ZERO));
    }
}

/// Parse a 32-bit unsigned decimal number, as the standard string parse for
/// that type accepts it.
pub fn parse_u32_bytes(s: &Vec<u8>) -> (r: Option<u32>)
    ensures
        (r is Some) == parses_u32(s@),
        r matches Some(v) ==> v as int == digits_val(digits_part(s@)),
{
    let ghost d = digits_part(s@);
    let start: usize = if s.len() > 0 && s[0] == PLUS {
        1
    } else {
        0
    };
    proof {
        assert(d =~= s@.skip(start as int));
    }
    if s.len() == start {
        return None;
    }
    let mut acc: u64 = 0;
    let mut i: usize = start;
    while i < s.len()
        invariant
            start <= i <= s.len(),
            d == s@.skip(start as int),
            all_digits(d.subrange(0, i - start)),
            acc as int == digits_val(d.subrange(0, i - start)),
            acc <= u32::MAX,
        decreases s.len() - i,
    {
        let b = s[i];
        let ghost k = i - start;
        assert(d[k as int] == s@[i as int]);
        if b < 48 || b > 57 {
            assert(!all_digits(d));
            return None;
        }
        proof {
            assert(d.subrange(0, k + 1).drop_last() =~= d.subrange(0, k as int));
            assert(d.subrange(0, k + 1).last() == d[k as int]);
        }
        acc = acc * 10 + ((b - 48) as u64);
        i = i + 1;
        if acc > 0xffff_ffff {
            proof {
                if all_digits(d) {
                    lemma_digits_val_mono(d, k + 1);
                }
            }
            return None;
        }
    }
    proof {
        assert(d.subrange(0, d.len() as int) =~= d);
        assert(d.len() > 0);
    }
    Some(acc as u32)
}

// ---------------------------------------------------------------------------
// Decimal printing
// ---------------------------------------------------------------------------

/// Canonical decimal digits of `n`, most significant first.
pub open spec fn dec_spec(n: nat) -> Seq<u8>
    decreases n,
{
    if n < 10 {
        seq![(ZERO + n) as u8]
    } else {
        dec_spec(n / 10) + seq![(ZERO + n % 10) as u8]
    }
}

/// `s` reversed.
pub open spec fn rev_of(s: Seq<u8>) -> Seq<u8> {
    Seq::new(s.len(), |i: int| s[s.len() - 1 - i])
}

/// Print `n` in decimal.
pub fn u32_to_dec(n: u32) -> (r: Vec<u8>)
    ensures
        r@ == dec_spec(n as nat),
{
    let mut rev: Vec<u8> = Vec::new();
    let mut m: u32 = n;
    proof {
        assert(rev_of(rev@) =~= Seq::<u8>::empty());
        assert(dec_spec(n as nat) + Seq::<u8>::empty() =~= dec_spec(n as nat));
    }
    while m >= 10
        invariant
            dec_spec(n as nat) == dec_spec(m as nat) + rev_of(rev@),
        decreases m,
    {
        let d: u8 = 48 + ((m % 10) as u8);
        let ghost rev0 = rev@;
        rev.push(d);
        m = m / 10;
        proof {
            assert(rev_of(rev0.push(d)) =~= seq![d] + rev_of(rev0));
            assert(dec_spec((m * 10 + d - 48) as nat) == dec_spec(m as nat) + seq![d]);
            assert(dec_spec(n as nat) == dec_spec(m as nat) + (seq![d] + rev_of(rev0)));
            assert(dec_spec(m as nat) + (seq![d] + rev_of(rev0))
                =~= (dec_spec(m as nat) + seq![d]) + rev_of(rev0));
        }
    }
    let ghost rev1 = rev@;
    rev.push(48 + (m as u8));
    proof {
        assert(rev_of(rev1.push((48 + m) as u8)) =~= seq![(48 + m) as u8] + rev_of(rev1));
        assert(dec_spec(m as nat) == seq![(48 + m) as u8]);
        assert(rev_of(rev@) =~= dec_spec(m as nat) + rev_of(rev1));
        assert(rev_of(rev@) == dec_spec(n as nat));
    }
    let mut out: Vec<u8> = Vec::new();
    let mut i: usize = rev.len();
    while i > 0
        invariant
            0 <= i <= rev.len(),
            out@ =~= rev_of(rev@).subrange(0, rev@.len() - i),
        decreases i,
    {
        i = i - 1;
        out.push(rev[i]);
        assert(out@ =~= rev_of(rev@).subrange(0, rev@.len() - i));
    }
    proof {
        assert(out@ =~= rev_of(rev@));
    }
    out
}

} // verus!
