//! Tier one: direct sidecar matching.  Each still-unmatched media file tries
//! its generated candidates in order and claims the first that is still an
//! outstanding sidecar; photo files that claim a sidecar and have a same-stem
//! video sibling defer that sidecar to the sibling.

use vstd::prelude::*;
use crate::bytes::{
    copy_bs, push_bs, lemma_dv_index, contains_bs, remove_bs, remove_path, bytes_eq,
};
use crate::paths::{ext_of, lower_of};
use crate::model::{
    MediaFile, MediaView, MatchSource, views_of, copy_media, lemma_views_push,
};
use crate::candidates::{candidates_spec, json_path_from_media_path};
use crate::classify::{with_ext, set_ext_bytes};
use crate::processor::Processor;
use crate::lits::{json, mp4_up, mp4_lo, json_v, mp4_up_v, mp4_lo_v, heic, jpg, heic_v, jpg_v};

verus! {

// ---------------------------------------------------------------------------
// The outstanding-sidecar scan and the deferred-exclusion map
// ---------------------------------------------------------------------------

/// The first candidate that is still an outstanding sidecar.
pub open spec fn first_avail(cands: Seq<Seq<u8>>, avail: Seq<Seq<u8>>) -> Option<Seq<u8>>
    decreases cands.len(),
{
    if cands.len() == 0 {
        None
    } else if avail.contains(cands[0]) {
        Some(cands[0])
    } else {
        first_avail(cands.skip(1), avail)
    }
}

/// Value bound to the first occurrence of key `k`.
pub open spec fn assoc_get(keys: Seq<Seq<u8>>, vals: Seq<Seq<u8>>, k: Seq<u8>) -> Seq<u8>
    decreases keys.len(),
{
    if keys.len() == 0 {
        Seq::empty()
    } else if keys[0] == k {
        vals[0]
    } else {
        assoc_get(keys.skip(1), vals.skip(1), k)
    }
}

/// Insert-or-overwrite in the association, keeping key order.
pub open spec fn assoc_put(
    keys: Seq<Seq<u8>>,
    vals: Seq<Seq<u8>>,
    k: Seq<u8>,
    v: Seq<u8>,
) -> (Seq<Seq<u8>>, Seq<Seq<u8>>)
    decreases keys.len(),
{
    if keys.len() == 0 {
        (seq![k], seq![v])
    } else if keys[0] == k {
        (keys, seq![v] + vals.skip(1))
    } else {
        let r = assoc_put(keys.skip(1), vals.skip(1), k, v);
        (seq![keys[0]] + r.0, seq![vals[0]] + r.1)
    }
}

proof fn lemma_assoc_put_missing(keys: Seq<Seq<u8>>, vals: Seq<Seq<u8>>, k: Seq<u8>, v: Seq<u8>)
    requires
        keys.len() == vals.len(),
        !keys.contains(k),
    ensures
        assoc_put(keys, vals, k, v).0 =~= keys.push(k),
        assoc_put(keys, vals, k, v).1 =~= vals.push(v),
    decreases keys.len(),
{
    if keys.len() > 0 {
        assert(keys[0] != k);
        assert forall|j: int| 0 <= j < keys.skip(1).len() implies keys.skip(1)[j] != k by {
            assert(keys.skip(1)[j] == keys[j + 1]);
        }
        assert(!keys.skip(1).contains(k));
        lemma_assoc_put_missing(keys.skip(1), vals.skip(1), k, v);
    }
}

proof fn lemma_assoc_put_found(
    keys: Seq<Seq<u8>>,
    vals: Seq<Seq<u8>>,
    k: Seq<u8>,
    v: Seq<u8>,
    ix: int,
)
    requires
        keys.len() == vals.len(),
        0 <= ix < keys.len(),
        keys[ix] == k,
        forall|j: int| 0 <= j < ix ==> keys[j] != k,
    ensures
        assoc_put(keys, vals, k, v).0 =~= keys,
        assoc_put(keys, vals, k, v).1 =~= vals.update(ix, v),
    decreases keys.len(),
{
    if ix == 0 {
        assert(assoc_put(keys, vals, k, v).1 =~= vals.update(0, v));
    } else {
        assert(keys.skip(1)[ix - 1] == keys[ix]);
        assert forall|j: int| 0 <= j < ix - 1 implies keys.skip(1)[j] != k by {
            assert(keys.skip(1)[j] == keys[j + 1]);
        }
        lemma_assoc_put_found(keys.skip(1), vals.skip(1), k, v, ix - 1);
        assert(seq![vals[0]] + vals.skip(1).update(ix - 1, v) =~= vals.update(ix, v));
    }
}

/// Insert-or-overwrite, executable form over two parallel lists.
fn assoc_put_exec(keys: &mut Vec<Vec<u8>>, vals: &mut Vec<Vec<u8>>, k: Vec<u8>, v: Vec<u8>)
    requires
        old(keys)@.len() == old(vals)@.len(),
    ensures
        final(keys).deep_view() == assoc_put(
            old(keys).deep_view(),
            old(vals).deep_view(),
            k@,
            v@,
        ).0,
        final(vals).deep_view() == assoc_put(
            old(keys).deep_view(),
            old(vals).deep_view(),
            k@,
            v@,
        ).1,
        final(keys)@.len() == final(vals)@.len(),
{
    let ghost kdv = keys.deep_view();
    let ghost vdv = vals.deep_view();
    let mut ix: usize = 0;
    let mut found = false;
    while ix < keys.len() && !found
        invariant
            0 <= ix <= keys@.len(),
            keys@.len() == vals@.len(),
            kdv == keys.deep_view(),
            vdv == vals.deep_view(),
            !found ==> forall|j: int| 0 <= j < ix ==> kdv[j] != k@,
            found ==> ix < keys@.len() && kdv[ix as int] == k@ && (forall|j: int|
                0 <= j < ix ==> kdv[j] != k@),
        decreases keys.len() - ix, (if found { 0int } else { 1int }),
    {
        proof {
            lemma_dv_index(*keys, ix as int);
        }
        if bytes_eq(&keys[ix], &k) {
            found = true;
        } else {
            ix = ix + 1;
        }
    }
    if found {
        proof {
            lemma_assoc_put_found(kdv, vdv, k@, v@, ix as int);
        }
        let mut nv: Vec<Vec<u8>> = Vec::new();
        let mut t: usize = 0;
        let ghost vg = v@;
        while t < vals.len()
            invariant
                0 <= t <= vals@.len(),
                ix < vals@.len(),
                vdv == vals.deep_view(),
                vg == v@,
                nv.deep_view() =~~= vdv.update(ix as int, vg).subrange(0, t as int),
            decreases vals.len() - t,
        {
            proof {
                lemma_dv_index(*vals, t as int);
            }
            let ghost n0 = nv.deep_view();
            if t == ix {
                push_bs(&mut nv, copy_bs(&v));
            } else {
                push_bs(&mut nv, copy_bs(&vals[t]));
            }
            t = t + 1;
            proof {
                assert(nv.deep_view() =~~= vdv.update(ix as int, vg).subrange(0, t as int));
            }
        }
        proof {
            assert(vdv.update(ix as int, vg).subrange(0, vdv.len() as int)
                =~= vdv.update(ix as int, vg));
        }
        *vals = nv;
    } else {
        proof {
            if kdv.contains(k@) {
                let j = choose|j: int| 0 <= j < kdv.len() && kdv[j] == k@;
                assert(kdv[j] != k@);
            }
            lemma_assoc_put_missing(kdv, vdv, k@, v@);
        }
        push_bs(keys, k);
        push_bs(vals, v);
    }
}

// ---------------------------------------------------------------------------
// One tier-one step, and the pass as a fold
// ---------------------------------------------------------------------------

/// Tier-one state: the records, the outstanding sidecars, and the deferred
/// exclusion map as parallel key and value lists.
pub ghost struct Tier1St {
    pub files: Seq<MediaView>,
    pub avail: Seq<Seq<u8>>,
    pub keys: Seq<Seq<u8>>,
    pub vals: Seq<Seq<u8>>,
}

/// A file is passed over when already matched, already recorded as a
/// deferred sibling, without extension, or itself a `.json` file.
pub open spec fn tier1_skips(f: MediaView, keys: Seq<Seq<u8>>) -> bool {
    ||| !(f.match_source is NoMatch)
    ||| keys.contains(f.media_path)
    ||| ext_of(f.media_path) is None
    ||| lower_of(ext_of(f.media_path).unwrap()) == json()
}

/// The deferred-exclusion recording after a claim: for heic and jpg media, a
/// same-stem `MP4` or `mp4` sibling found in the tree maps to the claimed
/// sidecar.
pub open spec fn tier1_record(
    st: (Seq<Seq<u8>>, Seq<Seq<u8>>),
    p: Seq<u8>,
    c: Seq<u8>,
    existing: Seq<Seq<u8>>,
) -> (Seq<Seq<u8>>, Seq<Seq<u8>>) {
    let el = lower_of(ext_of(p).unwrap());
    if el == heic() || el == jpg() {
        let s1 = with_ext(p, mp4_up());
        let r1 = if existing.contains(s1) {
            assoc_put(st.0, st.1, s1, c)
        } else {
            st
        };
        let s2 = with_ext(p, mp4_lo());
        if existing.contains(s2) {
            assoc_put(r1.0, r1.1, s2, c)
        } else {
            r1
        }
    } else {
        st
    }
}

pub open spec fn tier1_step(st: Tier1St, i: int, existing: Seq<Seq<u8>>) -> Tier1St {
    let f = st.files[i];
    if tier1_skips(f, st.keys) {
        st
    } else {
        match first_avail(candidates_spec(f.media_path), st.avail) {
            Option::None => st,
            Option::Some(c) => {
                let f2 = MediaView {
                    json_path: Some(c),
                    match_source: MatchSource::JsonFile,
                    ..f
                };
                let rec = tier1_record((st.keys, st.vals), f.media_path, c, existing);
                Tier1St {
                    files: st.files.update(i, f2),
                    avail: remove_path(st.avail, c),
                    keys: rec.0,
                    vals: rec.1,
                }
            },
        }
    }
}

pub open spec fn tier1_fold(st0: Tier1St, existing: Seq<Seq<u8>>, n: int) -> Tier1St
    decreases n,
{
    if n <= 0 {
        st0
    } else {
        tier1_step(tier1_fold(st0, existing, n - 1), n - 1, existing)
    }
}

/// The deferred pass: a still-unmatched file whose path was recorded as a
/// sibling receives the recorded sidecar.
pub open spec fn tier1_apply_excl(f: MediaView, keys: Seq<Seq<u8>>, vals: Seq<Seq<u8>>)
    -> MediaView {
    if f.match_source is NoMatch && keys.contains(f.media_path) {
        MediaView {
            json_path: Some(assoc_get(keys, vals, f.media_path)),
            match_source: MatchSource::JsonFile,
            ..f
        }
    } else {
        f
    }
}

impl Processor {
    /// Tier one over the whole file set: claim direct sidecar candidates in
    /// candidate order, then apply the deferred sibling exclusions.  Files
    /// already matched are untouched; the sidecar set only shrinks.
    pub fn match_json_files_to_media_files(&mut self)
        ensures
            ({
                let st0 = Tier1St {
                    files: views_of(old(self).media_files@),
                    avail: old(self).json_files.deep_view(),
                    keys: Seq::empty(),
                    vals: Seq::empty(),
                };
                let st = tier1_fold(
                    st0,
                    old(self).existing_files.deep_view(),
                    old(self).media_files@.len() as int,
                );
                views_of(final(self).media_files@) == Seq::new(
                    st.files.len(),
                    |i: int| tier1_apply_excl(st.files[i], st.keys, st.vals),
                ) && final(self).json_files.deep_view() == st.avail
            }),
            final(self).existing_files == old(self).existing_files,
            final(self).takeout_directory == old(self).takeout_directory,
            final(self).output_directory == old(self).output_directory,
    {
        let ghost ex = self.existing_files.deep_view();
        let ghost vs0 = views_of(self.media_files@);
        let ghost st0 = Tier1St {
            files: vs0,
            avail: self.json_files.deep_view(),
            keys: Seq::empty(),
            vals: Seq::empty(),
        };
        let n = self.media_files.len();
        let mut out: Vec<MediaFile> = Vec::new();
        let mut ek: Vec<Vec<u8>> = Vec::new();
        let mut ev: Vec<Vec<u8>> = Vec::new();
        let mut i: usize = 0;
        let ghost mut st = st0;
        proof {
            assert(ek.deep_view() =~~= st.keys);
            assert(ev.deep_view() =~~= st.vals);
            assert(views_of(out@) =~= st.files.subrange(0, 0));
        }
        while i < n
            invariant
                0 <= i <= n,
                n == self.media_files@.len(),
                vs0 == views_of(self.media_files@),
                ex == self.existing_files.deep_view(),
                st == tier1_fold(st0, ex, i as int),
                st.files.len() == n,
                forall|j: int| i <= j < n ==> st.files[j] == vs0[j],
                views_of(out@) == st.files.subrange(0, i as int),
                self.json_files.deep_view() == st.avail,
                ek.deep_view() == st.keys,
                ev.deep_view() == st.vals,
                ek@.len() == ev@.len(),
                self.media_files == old(self).media_files,
                self.existing_files == old(self).existing_files,
                self.takeout_directory == old(self).takeout_directory,
                self.output_directory == old(self).output_directory,
            decreases n - i,
        {
            proof {
                assert(tier1_fold(st0, ex, i + 1) == tier1_step(st, i as int, ex));
                assert(vs0[i as int] == self.media_files@[i as int]@);
            }
            let f = &self.media_files[i];
            let skip1 = !matches!(f.match_source, MatchSource::NoMatch);
            let skip2 = contains_bs(&ek, &f.media_path);
            let ext_o = crate::paths::ext_bytes(&f.media_path);
            let skip3 = match &ext_o {
                Some(x) => {
                    let xl = crate::paths::lower_bytes(x);
                    bytes_eq(&xl, &json_v())
                },
                None => true,
            };
            if skip1 || skip2 || skip3 {
                proof {
                    assert(tier1_skips(f@, st.keys));
                    assert(tier1_step(st, i as int, ex) == st);
                }
                let ghost o0 = out@;
                let c = copy_media(f);
                out.push(c);
                proof {
                    lemma_views_push(o0, c);
                    assert(views_of(out@) =~= st.files.subrange(0, i + 1));
                    st = tier1_fold(st0, ex, i + 1);
                }
            } else {
                proof {
                    assert(!tier1_skips(f@, st.keys));
                }
                let cands = json_path_from_media_path(&f.media_path);
                let ghost cdv = cands.deep_view();
                let mut found: Option<Vec<u8>> = None;
                let mut ci: usize = 0;
                proof {
                    assert(cdv.skip(0) =~= cdv);
                }
                while ci < cands.len() && found.is_none()
                    invariant
                        0 <= ci <= cands@.len(),
                        cdv == cands.deep_view(),
                        self.json_files.deep_view() == st.avail,
                        found is None ==> first_avail(cdv, st.avail) == first_avail(
                            cdv.skip(ci as int),
                            st.avail,
                        ),
                        found matches Some(c) ==> first_avail(cdv, st.avail) == Some(c@),
                    decreases cands.len() - ci, (if found is Some { 0int } else { 1int }),
                {
                    proof {
                        lemma_dv_index(cands, ci as int);
                        assert(cdv.skip(ci as int)[0] == cdv[ci as int]);
                        assert(cdv.skip(ci as int).skip(1) =~= cdv.skip(ci + 1));
                    }
                    if contains_bs(&self.json_files, &cands[ci]) {
                        found = Some(copy_bs(&cands[ci]));
                    } else {
                        ci = ci + 1;
                    }
                }
                proof {
                    if found is None {
                        assert(cdv.skip(cands@.len() as int) =~= Seq::<Seq<u8>>::empty());
                    }
                }
                match found {
                    None => {
                        proof {
                            assert(first_avail(candidates_spec(f@.media_path), st.avail)
                                is None);
                            assert(tier1_step(st, i as int, ex) == st);
                        }
                        let ghost o0 = out@;
                        let c = copy_media(f);
                        out.push(c);
                        proof {
                            lemma_views_push(o0, c);
                            assert(views_of(out@) =~= st.files.subrange(0, i + 1));
                            st = tier1_fold(st0, ex, i + 1);
                        }
                    },
                    Some(c) => {
                        proof {
                            assert(first_avail(candidates_spec(f@.media_path), st.avail)
                                == Some(c@));
                        }
                        let ghost stp = tier1_step(st, i as int, ex);
                        let mut f2 = copy_media(f);
                        f2.json_path = Some(copy_bs(&c));
                        f2.match_source = MatchSource::JsonFile;
                        let ghost o0 = out@;
                        let ghost f2v = f2@;
                        out.push(f2);
                        self.json_files = remove_bs(&self.json_files, &c);
                        let ext = match ext_o {
                            Some(x) => x,
                            None => {
                                proof {
                                    assert(false);
                                }
                                Vec::new()
                            },
                        };
                        let el = crate::paths::lower_bytes(&ext);
                        if bytes_eq(&el, &heic_v()) || bytes_eq(&el, &jpg_v()) {
                            let sib1 = set_ext_bytes(&f.media_path, &mp4_up_v());
                            if contains_bs(&self.existing_files, &sib1) {
                                assoc_put_exec(&mut ek, &mut ev, sib1, copy_bs(&c));
                            }
                            let sib2 = set_ext_bytes(&f.media_path, &mp4_lo_v());
                            if contains_bs(&self.existing_files, &sib2) {
                                assoc_put_exec(&mut ek, &mut ev, sib2, copy_bs(&c));
                            }
                        }
                        proof {
                            lemma_views_push(o0, out@[out@.len() - 1]);
                            assert(stp.files =~= st.files.update(i as int, f2v));
                            assert(views_of(out@) =~= stp.files.subrange(0, i + 1));
                            assert(ek.deep_view() == stp.keys && ev.deep_view() == stp.vals) by {
                                assert(tier1_record((st.keys, st.vals), f@.media_path, c@, ex)
                                    == (stp.keys, stp.vals));
                            }
                            st = tier1_fold(st0, ex, i + 1);
                            assert(st == stp);
                        }
                    },
                }
            }
            i = i + 1;
        }
        let ghost stf = tier1_fold(st0, ex, n as int);
        proof {
            assert(st.files.subrange(0, n as int) =~= st.files);
        }
        let mut fin: Vec<MediaFile> = Vec::new();
        let mut j: usize = 0;
        proof {
            assert(views_of(fin@) =~= Seq::new(0, |t: int| tier1_apply_excl(
                stf.files[t],
                stf.keys,
                stf.vals,
            )));
        }
        while j < n
            invariant
                0 <= j <= n,
                n == out@.len(),
                views_of(out@) == stf.files,
                stf.files.len() == n,
                ek.deep_view() == stf.keys,
                ev.deep_view() == stf.vals,
                ek@.len() == ev@.len(),
                views_of(fin@) == Seq::new(j as nat, |t: int| tier1_apply_excl(
                    stf.files[t],
                    stf.keys,
                    stf.vals,
                )),
                self.json_files.deep_view() == stf.avail,
                self.existing_files == old(self).existing_files,
                self.takeout_directory == old(self).takeout_directory,
                self.output_directory == old(self).output_directory,
            decreases n - j,
        {
            let f = &out[j];
            proof {
                assert(stf.files[j as int] == out@[j as int]@);
            }
            let is_unmatched = matches!(f.match_source, MatchSource::NoMatch);
            let nf: MediaFile = if is_unmatched && contains_bs(&ek, &f.media_path) {
                let jv = assoc_get_exec(&ek, &ev, &f.media_path);
                let mut c = copy_media(f);
                c.json_path = Some(jv);
                c.match_source = MatchSource::JsonFile;
                c
            } else {
                copy_media(f)
            };
            proof {
                assert(nf@ == tier1_apply_excl(stf.files[j as int], stf.keys, stf.vals));
            }
            let ghost o0 = fin@;
            fin.push(nf);
            proof {
                lemma_views_push(o0, nf);
                assert(views_of(fin@) =~= Seq::new((j + 1) as nat, |t: int| tier1_apply_excl(
                    stf.files[t],
                    stf.keys,
                    stf.vals,
                )));
            }
            j = j + 1;
        }
        self.media_files = fin;
    }
}

/// Value bound to the first occurrence of `k`, executable form.
fn assoc_get_exec(keys: &Vec<Vec<u8>>, vals: &Vec<Vec<u8>>, k: &Vec<u8>) -> (r: Vec<u8>)
    requires
        keys@.len() == vals@.len(),
        keys.deep_view().contains(k@),
    ensures
        r@ == assoc_get(keys.deep_view(), vals.deep_view(), k@),
{
    let ghost kdv = keys.deep_view();
    let ghost vdv = vals.deep_view();
    let mut t: usize = 0;
    proof {
        assert(kdv.skip(0) =~= kdv);
        assert(vdv.skip(0) =~= vdv);
    }
    while t < keys.len()
        invariant
            0 <= t <= keys@.len(),
            keys@.len() == vals@.len(),
            kdv == keys.deep_view(),
            vdv == vals.deep_view(),
            kdv.contains(k@),
            forall|j: int| 0 <= j < t ==> kdv[j] != k@,
            assoc_get(kdv, vdv, k@) == assoc_get(kdv.skip(t as int), vdv.skip(t as int), k@),
        decreases keys.len() - t,
    {
        proof {
            lemma_dv_index(*keys, t as int);
            lemma_dv_index(*vals, t as int);
            assert(kdv.skip(t as int)[0] == kdv[t as int]);
            assert(vdv.skip(t as int)[0] == vdv[t as int]);
            assert(kdv.skip(t as int).skip(1) =~= kdv.skip(t + 1));
            assert(vdv.skip(t as int).skip(1) =~= vdv.skip(t + 1));
        }
        if bytes_eq(&keys[t], k) {
            return copy_bs(&vals[t]);
        }
        t = t + 1;
    }
    proof {
        let j = choose|j: int| 0 <= j < kdv.len() && kdv[j] == k@;
        assert(kdv[j] != k@);
        assert(false);
    }
    Vec::new()
}

} // verus!
