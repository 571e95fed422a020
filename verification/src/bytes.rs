//! Byte-string primitives used throughout the library.  Paths and sidecar
//! names are byte strings; every operation here has a spec-level counterpart
//! over `Seq<u8>`.

use vstd::prelude::*;

verus! {

// ---------------------------------------------------------------------------
// Substring occurrence
// ---------------------------------------------------------------------------

/// `sub` occurs in `s` starting at index `i`.
pub open spec fn occurs_at(s: Seq<u8>, sub: Seq<u8>, i: int) -> bool {
    0 <= i && i + sub.len() <= s.len() && s.subrange(i, i + sub.len()) == sub
}

/// `sub` occurs somewhere in `s`.
pub open spec fn has_sub(s: Seq<u8>, sub: Seq<u8>) -> bool {
    exists|i: int| occurs_at(s, sub, i)
}

/// Does `sub` occur in `s` at index `i`?
pub fn is_match_at(s: &Vec<u8>, sub: &Vec<u8>, i: usize) -> (r: bool)
    requires
        i <= s.len(),
    ensures
        r == occurs_at(s@, sub@, i as int),
{
    if sub.len() > s.len() - i {
        return false;
    }
    let mut j: usize = 0;
    while j < sub.len()
        invariant
            0 <= j <= sub.len(),
            i + sub.len() <= s.len(),
            forall|k: int| 0 <= k < j ==> s@[i + k] == sub@[k],
        decreases sub.len() - j,
    {
        if s[i + j] != sub[j] {
            assert(s@.subrange(i as int, i + sub@.len())[j as int] != sub@[j as int]);
            return false;
        }
        j = j + 1;
    }
    assert(s@.subrange(i as int, i + sub@.len()) =~= sub@);
    true
}

/// Does `sub` occur anywhere in `s`?
pub fn contains_bytes(s: &Vec<u8>, sub: &Vec<u8>) -> (r: bool)
    ensures
        r == has_sub(s@, sub@),
{
    if sub.len() > s.len() {
        assert(forall|i: int| !occurs_at(s@, sub@, i));
        return false;
    }
    if sub.len() == 0 {
        assert(occurs_at(s@, sub@, 0)) by {
            assert(s@.subrange(0, 0) =~= sub@);
        }
        return true;
    }
    let mut i: usize = 0;
    while i <= s.len() - sub.len()
        invariant
            0 < sub.len() <= s.len(),
            0 <= i <= s.len() - sub.len() + 1,
            forall|k: int| 0 <= k < i ==> !occurs_at(s@, sub@, k),
        decreases s.len() - i,
    {
        if is_match_at(s, sub, i) {
            return true;
        }
        i = i + 1;
    }
    assert(forall|k: int| occurs_at(s@, sub@, k) ==> 0 <= k <= s@.len() - sub@.len());
    false
}

/// Bytewise equality.
pub fn bytes_eq(a: &Vec<u8>, b: &Vec<u8>) -> (r: bool)
    ensures
        r == (a@ == b@),
{
    if a.len() != b.len() {
        return false;
    }
    let mut i: usize = 0;
    while i < a.len()
        invariant
            a.len() == b.len(),
            0 <= i <= a.len(),
            forall|k: int| 0 <= k < i ==> a@[k] == b@[k],
        decreases a.len() - i,
    {
        if a[i] != b[i] {
            return false;
        }
        i = i + 1;
    }
    assert(a@ =~= b@);
    true
}

/// Copy of `s[start..end]`.
pub fn sub_bytes(s: &Vec<u8>, start: usize, end: usize) -> (r: Vec<u8>)
    requires
        start <= end <= s.len(),
    ensures
        r@ == s@.subrange(start as int, end as int),
{
    let mut r: Vec<u8> = Vec::new();
    let mut i: usize = start;
    while i < end
        invariant
            start <= i <= end <= s.len(),
            r@ =~= s@.subrange(start as int, i as int),
        decreases end - i,
    {
        r.push(s[i]);
        i = i + 1;
        assert(r@ =~= s@.subrange(start as int, i as int));
    }
    r
}

/// `a` followed by `b`.
pub fn concat_bytes(a: &Vec<u8>, b: &Vec<u8>) -> (r: Vec<u8>)
    ensures
        r@ == a@ + b@,
{
    let mut r: Vec<u8> = Vec::new();
    let mut i: usize = 0;
    while i < a.len()
        invariant
            0 <= i <= a.len(),
            r@ =~= a@.subrange(0, i as int),
        decreases a.len() - i,
    {
        r.push(a[i]);
        i = i + 1;
        assert(r@ =~= a@.subrange(0, i as int));
    }
    let mut j: usize = 0;
    while j < b.len()
        invariant
            0 <= j <= b.len(),
            r@ =~= a@ + b@.subrange(0, j as int),
        decreases b.len() - j,
    {
        r.push(b[j]);
        j = j + 1;
        assert(r@ =~= a@ + b@.subrange(0, j as int));
    }
    assert(r@ =~= a@ + b@);
    r
}

// ---------------------------------------------------------------------------
// Replacement of every occurrence, scanning left to right
// ---------------------------------------------------------------------------

/// Every non-overlapping occurrence of `from` replaced by `to`, scanning left
/// to right.  For an empty `from` the string is returned unchanged.
pub open spec fn replace_seq(s: Seq<u8>, from: Seq<u8>, to: Seq<u8>) -> Seq<u8>
    decreases s.len(),
{
    if from.len() == 0 || s.len() < from.len() {
        s
    } else if s.subrange(0, from.len() as int) == from {
        to + replace_seq(s.skip(from.len() as int), from, to)
    } else {
        seq![s[0]] + replace_seq(s.skip(1), from, to)
    }
}

/// Every occurrence of `from` in `s` replaced by `to`.
pub fn replace_bytes(s: &Vec<u8>, from: &Vec<u8>, to: &Vec<u8>) -> (r: Vec<u8>)
    requires
        from.len() > 0,
    ensures
        r@ == replace_seq(s@, from@, to@),
{
    let mut out: Vec<u8> = Vec::new();
    let mut i: usize = 0;
    proof {
        assert(s@.skip(0) =~= s@);
        assert(Seq::<u8>::empty() + replace_seq(s@, from@, to@) =~= replace_seq(s@, from@, to@));
    }
    while i < s.len()
        invariant
            0 <= i <= s.len(),
            from.len() > 0,
            replace_seq(s@, from@, to@) == out@ + replace_seq(s@.skip(i as int), from@, to@),
        decreases s.len() - i,
    {
        let ghost rem = s@.skip(i as int);
        if is_match_at(s, from, i) {
            proof {
                assert(rem.subrange(0, from@.len() as int)
                    =~= s@.subrange(i as int, i + from@.len()));
                assert(rem.skip(from@.len() as int) =~= s@.skip(i + from@.len()));
                assert(replace_seq(rem, from@, to@)
                    == to@ + replace_seq(s@.skip(i + from@.len()), from@, to@));
            }
            let ghost out0 = out@;
            let mut k: usize = 0;
            while k < to.len()
                invariant
                    0 <= k <= to.len(),
                    out@ =~= out0 + to@.subrange(0, k as int),
                decreases to.len() - k,
            {
                out.push(to[k]);
                k = k + 1;
                assert(out@ =~= out0 + to@.subrange(0, k as int));
            }
            assert(out@ =~= out0 + to@);
            i = i + from.len();
        } else {
            proof {
                if rem.len() >= from@.len() {
                    assert(rem.subrange(0, from@.len() as int)
                        =~= s@.subrange(i as int, i + from@.len()));
                    assert(rem.subrange(0, from@.len() as int) != from@);
                    assert(replace_seq(rem, from@, to@)
                        == seq![rem[0]] + replace_seq(rem.skip(1), from@, to@));
                } else {
                    assert(replace_seq(rem, from@, to@) == rem);
                    assert(rem.skip(1).len() < from@.len());
                    assert(replace_seq(rem.skip(1), from@, to@) == rem.skip(1));
                    assert(rem =~= seq![rem[0]] + rem.skip(1));
                }
                assert(rem[0] == s@[i as int]);
                assert(rem.skip(1) =~= s@.skip(i + 1));
                assert(replace_seq(rem, from@, to@)
                    == seq![s@[i as int]] + replace_seq(s@.skip(i + 1), from@, to@));
            }
            let ghost out0 = out@;
            out.push(s[i]);
            assert(out@ =~= out0 + seq![s@[i as int]]);
            i = i + 1;
        }
    }
    proof {
        assert(s@.skip(i as int) =~= Seq::<u8>::empty());
        assert(replace_seq(Seq::<u8>::empty(), from@, to@) == Seq::<u8>::empty());
        assert(out@ + Seq::<u8>::empty() =~= out@);
    }
    out
}

// ---------------------------------------------------------------------------
// Lists of byte strings
// ---------------------------------------------------------------------------

/// A fresh copy of `v`.
pub fn copy_bs(v: &Vec<u8>) -> (r: Vec<u8>)
    ensures
        r@ == v@,
{
    sub_bytes(v, 0, v.len())
}

/// Push one byte string onto a list, phrased over the list's deep view.
pub fn push_bs(v: &mut Vec<Vec<u8>>, x: Vec<u8>)
    ensures
        final(v).deep_view() == old(v).deep_view().push(x@),
        final(v)@.len() == old(v)@.len() + 1,
{
    let ghost g = x@;
    v.push(x);
    proof {
        assert(v.deep_view() =~~= old(v).deep_view().push(g));
    }
}

pub proof fn lemma_dv_index(v: Vec<Vec<u8>>, i: int)
    requires
        0 <= i < v@.len(),
    ensures
        v.deep_view()[i] == v@[i]@,
{
    assert(v@[i].deep_view() =~= v@[i]@);
}


/// `l` without every occurrence of `x`, order kept.
pub open spec fn remove_path(l: Seq<Seq<u8>>, x: Seq<u8>) -> Seq<Seq<u8>>
    decreases l.len(),
{
    if l.len() == 0 {
        Seq::empty()
    } else {
        (if l[0] == x {
            Seq::<Seq<u8>>::empty()
        } else {
            seq![l[0]]
        }) + remove_path(l.skip(1), x)
    }
}

/// Does the list hold `x`?
pub fn contains_bs(l: &Vec<Vec<u8>>, x: &Vec<u8>) -> (r: bool)
    ensures
        r == l.deep_view().contains(x@),
{
    let mut i: usize = 0;
    while i < l.len()
        invariant
            0 <= i <= l@.len(),
            forall|k: int| 0 <= k < i ==> l.deep_view()[k] != x@,
        decreases l.len() - i,
    {
        proof {
            lemma_dv_index(*l, i as int);
        }
        if bytes_eq(&l[i], x) {
            assert(l.deep_view()[i as int] == x@);
            return true;
        }
        i = i + 1;
    }
    proof {
        if l.deep_view().contains(x@) {
            let k = choose|k: int| 0 <= k < l.deep_view().len() && l.deep_view()[k] == x@;
            assert(l.deep_view()[k] != x@);
        }
    }
    false
}

/// The list without every occurrence of `x`.
pub fn remove_bs(l: &Vec<Vec<u8>>, x: &Vec<u8>) -> (r: Vec<Vec<u8>>)
    ensures
        r.deep_view() == remove_path(l.deep_view(), x@),
{
    let ghost dv = l.deep_view();
    let mut r: Vec<Vec<u8>> = Vec::new();
    let mut i: usize = 0;
    proof {
        assert(dv.skip(0) =~= dv);
        assert(r.deep_view() =~~= Seq::<Seq<u8>>::empty());
        assert(Seq::<Seq<u8>>::empty() + remove_path(dv, x@) =~~= remove_path(dv, x@));
    }
    while i < l.len()
        invariant
            0 <= i <= l@.len(),
            dv == l.deep_view(),
            remove_path(dv, x@) == r.deep_view() + remove_path(dv.skip(i as int), x@),
        decreases l.len() - i,
    {
        proof {
            lemma_dv_index(*l, i as int);
            assert(dv.skip(i as int)[0] == dv[i as int]);
            assert(dv.skip(i as int).skip(1) =~= dv.skip(i + 1));
        }
        if !bytes_eq(&l[i], x) {
            let c = copy_bs(&l[i]);
            let ghost r0 = r.deep_view();
            push_bs(&mut r, c);
            proof {
                assert(r.deep_view() =~~= r0 + seq![dv[i as int]]);
                assert(r0 + (seq![dv[i as int]] + remove_path(dv.skip(i + 1), x@))
                    =~~= r.deep_view() + remove_path(dv.skip(i + 1), x@));
            }
        } else {
            proof {
                assert(remove_path(dv.skip(i as int), x@)
                    =~~= remove_path(dv.skip(i + 1), x@));
            }
        }
        i = i + 1;
    }
    proof {
        assert(dv.skip(l@.len() as int) =~= Seq::<Seq<u8>>::empty());
        assert(r.deep_view() + Seq::<Seq<u8>>::empty() =~~= r.deep_view());
    }
    r
}

} // verus!
