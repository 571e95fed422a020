//! Structural operations on paths modelled as byte strings: file name, stem,
//! extension, parent directory and joining.  The model mirrors how the
//! platform path type splits a path at the last separator and the file name
//! at the last dot, for the ordinary paths a directory enumeration produces.

use vstd::prelude::*;
use crate::bytes::sub_bytes;

verus! {

pub const SLASH: u8 = 47;
pub const DOT: u8 = 46;

/// `s` holds byte `c` somewhere.
pub open spec fn has_byte(s: Seq<u8>, c: u8) -> bool {
    exists|j: int| 0 <= j < s.len() && s[j] == c
}

/// `j` is the last index of `c` in `s`.
pub open spec fn is_last_idx(s: Seq<u8>, c: u8, j: int) -> bool {
    &&& 0 <= j < s.len()
    &&& s[j] == c
    &&& forall|k: int| j < k < s.len() ==> s[k] != c
}

/// The last index of `c` in `s`; meaningful only when `has_byte(s, c)`.
pub open spec fn last_byte_idx(s: Seq<u8>, c: u8) -> int {
    choose|j: int| is_last_idx(s, c, j)
}

pub proof fn lemma_last_idx_exists(s: Seq<u8>, c: u8)
    requires
        has_byte(s, c),
    ensures
        is_last_idx(s, c, last_byte_idx(s, c)),
    decreases s.len(),
{
    if s.len() > 0 {
        if s[s.len() - 1] == c {
            assert(is_last_idx(s, c, s.len() - 1));
        } else {
            let pre = s.subrange(0, s.len() - 1);
            assert(has_byte(pre, c)) by {
                let j = choose|j: int| 0 <= j < s.len() && s[j] == c;
                assert(pre[j] == c);
            }
            lemma_last_idx_exists(pre, c);
            let j = last_byte_idx(pre, c);
            assert(pre[j] == s[j]);
            assert forall|k: int| j < k < s.len() implies s[k] != c by {
                if k < s.len() - 1 {
                    assert(pre[k] == s[k]);
                }
            }
            assert(is_last_idx(s, c, j));
        }
        let w = choose|j: int| is_last_idx(s, c, j);
        assert(is_last_idx(s, c, w));
    }
}

pub proof fn lemma_last_idx_unique(s: Seq<u8>, c: u8, j1: int, j2: int)
    requires
        is_last_idx(s, c, j1),
        is_last_idx(s, c, j2),
    ensures
        j1 == j2,
{
    if j1 < j2 {
        assert(s[j2] != c);
    }
    if j2 < j1 {
        assert(s[j1] != c);
    }
}

/// Last index of `c` in `s`, or `None`.
pub fn find_last_byte(s: &Vec<u8>, c: u8) -> (r: Option<usize>)
    ensures
        match r {
            Some(j) => is_last_idx(s@, c, j as int) && has_byte(s@, c)
                && j as int == last_byte_idx(s@, c),
            None => !has_byte(s@, c),
        },
{
    let mut i: usize = s.len();
    while i > 0
        invariant
            0 <= i <= s.len(),
            forall|k: int| i <= k < s.len() ==> s@[k] != c,
        decreases i,
    {
        i = i - 1;
        if s[i] == c {
            proof {
                assert(is_last_idx(s@, c, i as int));
                lemma_last_idx_exists(s@, c);
                lemma_last_idx_unique(s@, c, i as int, last_byte_idx(s@, c));
            }
            return Some(i);
        }
    }
    None
}

// ---------------------------------------------------------------------------
// File name / parent / stem / extension
// ---------------------------------------------------------------------------

/// The part of `p` after the last separator; the whole of `p` if it has none.
pub open spec fn file_name_of(p: Seq<u8>) -> Seq<u8> {
    if has_byte(p, SLASH) {
        p.subrange(last_byte_idx(p, SLASH) + 1, p.len() as int)
    } else {
        p
    }
}

/// The part of `p` before the last separator: empty when `p` has no
/// separator, the root when the last separator is the first byte.
pub open spec fn parent_of(p: Seq<u8>) -> Seq<u8> {
    if has_byte(p, SLASH) {
        if last_byte_idx(p, SLASH) == 0 {
            seq![SLASH]
        } else {
            p.subrange(0, last_byte_idx(p, SLASH))
        }
    } else {
        Seq::empty()
    }
}

/// Stem of a file name: the part before the last dot, unless the name has no
/// dot or starts with its only relevant dot.
pub open spec fn stem_of_name(n: Seq<u8>) -> Seq<u8> {
    if has_byte(n, DOT) && last_byte_idx(n, DOT) > 0 {
        n.subrange(0, last_byte_idx(n, DOT))
    } else {
        n
    }
}

/// Extension of a file name: the part after the last dot, when there is one
/// and it does not begin the name.
pub open spec fn ext_of_name(n: Seq<u8>) -> Option<Seq<u8>> {
    if has_byte(n, DOT) && last_byte_idx(n, DOT) > 0 {
        Some(n.subrange(last_byte_idx(n, DOT) + 1, n.len() as int))
    } else {
        None
    }
}

pub open spec fn stem_of(p: Seq<u8>) -> Seq<u8> {
    stem_of_name(file_name_of(p))
}

pub open spec fn ext_of(p: Seq<u8>) -> Option<Seq<u8>> {
    ext_of_name(file_name_of(p))
}

pub open spec fn has_extension(p: Seq<u8>) -> bool {
    ext_of(p) is Some
}

/// The file name part of `p`.
pub fn file_name_bytes(p: &Vec<u8>) -> (r: Vec<u8>)
    ensures
        r@ == file_name_of(p@),
{
    match find_last_byte(p, SLASH) {
        Some(j) => {
            let n = p.len();
            assert(is_last_idx(p@, SLASH, j as int));
            assert(j < n);
            sub_bytes(p, j + 1, n)
        }
        None => sub_bytes(p, 0, p.len()),
    }
}

/// The parent part of `p`.
pub fn parent_bytes(p: &Vec<u8>) -> (r: Vec<u8>)
    ensures
        r@ == parent_of(p@),
{
    match find_last_byte(p, SLASH) {
        Some(j) => {
            if j == 0 {
                let mut r: Vec<u8> = Vec::new();
                r.push(SLASH);
                assert(r@ =~= seq![SLASH]);
                r
            } else {
                sub_bytes(p, 0, j)
            }
        }
        None => Vec::new(),
    }
}

/// The stem of `p`'s file name.
pub fn stem_bytes(p: &Vec<u8>) -> (r: Vec<u8>)
    ensures
        r@ == stem_of(p@),
{
    let name = file_name_bytes(p);
    match find_last_byte(&name, DOT) {
        Some(j) if j > 0 => sub_bytes(&name, 0, j),
        _ => name,
    }
}

/// The extension of `p`'s file name.
pub fn ext_bytes(p: &Vec<u8>) -> (r: Option<Vec<u8>>)
    ensures
        match r {
            Some(e) => ext_of(p@) == Some(e@),
            None => ext_of(p@) is None,
        },
{
    let name = file_name_bytes(p);
    match find_last_byte(&name, DOT) {
        Some(j) if j > 0 => {
            let n = name.len();
            assert(is_last_idx(name@, DOT, j as int));
            assert(j < n);
            Some(sub_bytes(&name, j + 1, n))
        }
        _ => None,
    }
}

// ---------------------------------------------------------------------------
// Join
// ---------------------------------------------------------------------------

/// `dir` joined with a relative `name`, as the platform path join behaves on
/// the parents this module produces.
pub open spec fn join_of(dir: Seq<u8>, name: Seq<u8>) -> Seq<u8> {
    if dir.len() == 0 {
        name
    } else if dir[dir.len() - 1] == SLASH {
        dir + name
    } else {
        dir + seq![SLASH] + name
    }
}

pub fn join_bytes(dir: &Vec<u8>, name: &Vec<u8>) -> (r: Vec<u8>)
    ensures
        r@ == join_of(dir@, name@),
{
    if dir.len() == 0 {
        return sub_bytes(name, 0, name.len());
    }
    let mut r = sub_bytes(dir, 0, dir.len());
    if dir[dir.len() - 1] != SLASH {
        r.push(SLASH);
        assert(r@ =~= dir@ + seq![SLASH]);
    }
    let mut i: usize = 0;
    let ghost base = r@;
    while i < name.len()
        invariant
            0 <= i <= name.len(),
            r@ =~= base + name@.subrange(0, i as int),
        decreases name.len() - i,
    {
        r.push(name[i]);
        i = i + 1;
        assert(r@ =~= base + name@.subrange(0, i as int));
    }
    proof {
        assert(name@.subrange(0, name@.len() as int) =~= name@);
        if dir@.len() > 0 && dir@[dir@.len() - 1] != SLASH {
            assert(r@ =~= dir@ + seq![SLASH] + name@);
        }
    }
    r
}

// ---------------------------------------------------------------------------
// Prefix / suffix / lower-casing
// ---------------------------------------------------------------------------

pub open spec fn starts_with(s: Seq<u8>, pre: Seq<u8>) -> bool {
    s.len() >= pre.len() && s.subrange(0, pre.len() as int) == pre
}

pub open spec fn ends_with(s: Seq<u8>, suf: Seq<u8>) -> bool {
    s.len() >= suf.len() && s.subrange(s.len() - suf.len(), s.len() as int) == suf
}

pub fn starts_with_bytes(s: &Vec<u8>, pre: &Vec<u8>) -> (r: bool)
    ensures
        r == starts_with(s@, pre@),
{
    if pre.len() > s.len() {
        return false;
    }
    crate::bytes::is_match_at(s, pre, 0)
}

pub fn ends_with_bytes(s: &Vec<u8>, suf: &Vec<u8>) -> (r: bool)
    ensures
        r == ends_with(s@, suf@),
{
    if suf.len() > s.len() {
        return false;
    }
    crate::bytes::is_match_at(s, suf, s.len() - suf.len())
}

/// ASCII lower-casing of one byte.
pub open spec fn lower_byte(b: u8) -> u8 {
    if 65 <= b <= 90 {
        (b + 32) as u8
    } else {
        b
    }
}

/// ASCII lower-casing of a byte string.
pub open spec fn lower_of(s: Seq<u8>) -> Seq<u8> {
    Seq::new(s.len(), |i: int| lower_byte(s[i]))
}

pub fn lower_bytes(s: &Vec<u8>) -> (r: Vec<u8>)
    ensures
        r@ == lower_of(s@),
{
    let mut r: Vec<u8> = Vec::new();
    let mut i: usize = 0;
    while i < s.len()
        invariant
            0 <= i <= s.len(),
            r@.len() == i,
            forall|k: int| 0 <= k < i ==> r@[k] == lower_byte(s@[k]),
        decreases s.len() - i,
    {
        let b = s[i];
        if 65 <= b && b <= 90 {
            r.push(b + 32);
        } else {
            r.push(b);
        }
        i = i + 1;
    }
    assert(r@ =~= lower_of(s@));
    r
}

} // verus!
