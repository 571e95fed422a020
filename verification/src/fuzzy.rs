//! Tier two: fuzzy sidecar matching.  Each still-unmatched media file is
//! scored against the sidecar names in its own directory; the best-scoring
//! name is accepted only at a score of at least ninety.

use vstd::prelude::*;
use crate::bytes::{copy_bs, push_bs, lemma_dv_index, remove_bs, remove_path, bytes_eq};
use crate::paths::{
    file_name_of, parent_of, ext_of, lower_of, ends_with, join_of, file_name_bytes,
    parent_bytes, ext_bytes, lower_bytes, ends_with_bytes, join_bytes,
};
use crate::model::{MediaFile, MediaView, MatchSource, views_of, copy_media, lemma_views_push};
use crate::outside::{wratio_of, is_best_choice, best_fuzzy_match};
use crate::processor::{Processor, name_ignored, name_ignored_exec};
use crate::lits::{html, json_suf, html_v, json_suf_v};

verus! {

/// The acceptance threshold for a fuzzy match score.
pub const FUZZY_THRESHOLD: u8 = 90;

// ---------------------------------------------------------------------------
// The per-directory sidecar name listing
// ---------------------------------------------------------------------------

/// An entry shows up in its directory's sidecar-name listing when it lives
/// there, is not ignored by name, has a non-ignored extension and is a
/// `.json` file.
pub open spec fn tier2_listed(e: Seq<u8>, dir: Seq<u8>) -> bool {
    &&& parent_of(e) == dir
    &&& !name_ignored(e)
    &&& ext_of(e) matches Some(x) && lower_of(x) != html()
    &&& ends_with(file_name_of(e), json_suf())
}

/// The sidecar file names of one directory, in enumeration order.
pub open spec fn listing_of(es: Seq<Seq<u8>>, dir: Seq<u8>) -> Seq<Seq<u8>>
    decreases es.len(),
{
    if es.len() == 0 {
        Seq::empty()
    } else {
        (if tier2_listed(es[0], dir) {
            seq![file_name_of(es[0])]
        } else {
            Seq::<Seq<u8>>::empty()
        }) + listing_of(es.skip(1), dir)
    }
}

fn listing_exec(es: &Vec<Vec<u8>>, dir: &Vec<u8>) -> (r: Vec<Vec<u8>>)
    ensures
        r.deep_view() == listing_of(es.deep_view(), dir@),
{
    let ghost dv = es.deep_view();
    let mut r: Vec<Vec<u8>> = Vec::new();
    let mut i: usize = 0;
    proof {
        assert(dv.skip(0) =~= dv);
        assert(r.deep_view() =~~= Seq::<Seq<u8>>::empty());
        assert(Seq::<Seq<u8>>::empty() + listing_of(dv, dir@) =~~= listing_of(dv, dir@));
    }
    while i < es.len()
        invariant
            0 <= i <= es@.len(),
            dv == es.deep_view(),
            listing_of(dv, dir@) == r.deep_view() + listing_of(dv.skip(i as int), dir@),
        decreases es.len() - i,
    {
        proof {
            lemma_dv_index(*es, i as int);
            assert(dv.skip(i as int)[0] == dv[i as int]);
            assert(dv.skip(i as int).skip(1) =~= dv.skip(i + 1));
        }
        let e = &es[i];
        let parent = parent_bytes(e);
        let keep: bool = if bytes_eq(&parent, dir) && !name_ignored_exec(e) {
            match ext_bytes(e) {
                Some(x) => {
                    let xl = lower_bytes(&x);
                    if !bytes_eq(&xl, &html_v()) {
                        let name = file_name_bytes(e);
                        ends_with_bytes(&name, &json_suf_v())
                    } else {
                        false
                    }
                },
                None => false,
            }
        } else {
            false
        };
        proof {
            assert(keep == tier2_listed(dv[i as int], dir@));
        }
        if keep {
            let name = file_name_bytes(e);
            let ghost r0 = r.deep_view();
            push_bs(&mut r, name);
            proof {
                assert(r.deep_view() =~~= r0 + seq![file_name_of(dv[i as int])]);
                assert(r0 + (seq![file_name_of(dv[i as int])] + listing_of(dv.skip(i + 1), dir@))
                    =~~= r.deep_view() + listing_of(dv.skip(i + 1), dir@));
            }
        } else {
            proof {
                assert(listing_of(dv.skip(i as int), dir@)
                    =~~= listing_of(dv.skip(i + 1), dir@));
            }
        }
        i = i + 1;
    }
    proof {
        assert(dv.skip(es@.len() as int) =~= Seq::<Seq<u8>>::empty());
        assert(r.deep_view() + Seq::<Seq<u8>>::empty() =~~= r.deep_view());
    }
    r
}

// ---------------------------------------------------------------------------
// The tier-two decision
// ---------------------------------------------------------------------------

pub proof fn lemma_best_choice_unique(
    q: Seq<u8>,
    names: Seq<Seq<u8>>,
    k1: int,
    s1: u8,
    k2: int,
    s2: u8,
)
    requires
        is_best_choice(q, names, k1, s1),
        is_best_choice(q, names, k2, s2),
    ensures
        k1 == k2,
        s1 == s2,
{
    assert(s1 == s2);
    if k1 < k2 {
        assert(wratio_of(q, names[k1]) < s2);
    }
    if k2 < k1 {
        assert(wratio_of(q, names[k2]) < s1);
    }
}

/// What tier two does to one still-unmatched file, given the outstanding
/// sidecars: the best-scoring sidecar name of its directory is bound when
/// its score reaches the threshold, and leaves the outstanding set.
pub open spec fn tier2_step(f: MediaView, avail: Seq<Seq<u8>>, existing: Seq<Seq<u8>>) -> (
    MediaView,
    Seq<Seq<u8>>,
) {
    if !(f.match_source is NoMatch) {
        (f, avail)
    } else {
        let names = listing_of(existing, parent_of(f.media_path));
        if names.len() == 0 {
            (f, avail)
        } else {
            let ks = choose|ks: (int, u8)|
                is_best_choice(file_name_of(f.media_path), names, ks.0, ks.1);
            if ks.1 >= FUZZY_THRESHOLD {
                let c = join_of(parent_of(f.media_path), names[ks.0]);
                (
                    MediaView {
                        json_path: Some(c),
                        match_source: MatchSource::FuzzyMatch { score: ks.1 },
                        ..f
                    },
                    remove_path(avail, c),
                )
            } else {
                (f, avail)
            }
        }
    }
}

pub open spec fn tier2_fold(
    files: Seq<MediaView>,
    avail: Seq<Seq<u8>>,
    existing: Seq<Seq<u8>>,
    n: int,
) -> (Seq<MediaView>, Seq<Seq<u8>>)
    decreases n,
{
    if n <= 0 {
        (files, avail)
    } else {
        let r = tier2_fold(files, avail, existing, n - 1);
        let s = tier2_step(r.0[n - 1], r.1, existing);
        (r.0.update(n - 1, s.0), s.1)
    }
}

/// Accept or reject one fuzzy-match outcome for a still-unmatched file: at a
/// score of ninety or more the sidecar `dir/name` is bound with provenance
/// `FuzzyMatch` and leaves the outstanding set; below ninety nothing
/// changes.
pub fn apply_fuzzy_result(
    f: &MediaFile,
    dir: &Vec<u8>,
    name: &Vec<u8>,
    score: u8,
    avail: &mut Vec<Vec<u8>>,
) -> (r: MediaFile)
    requires
        f@.match_source is NoMatch,
    ensures
        score >= FUZZY_THRESHOLD ==> r@ == (MediaView {
            json_path: Some(join_of(dir@, name@)),
            match_source: MatchSource::FuzzyMatch { score },
            ..f@
        }) && final(avail).deep_view() == remove_path(old(avail).deep_view(), join_of(
            dir@,
            name@,
        )),
        score < FUZZY_THRESHOLD ==> r@ == f@ && *final(avail) == *old(avail),
{
    if score >= 90 {
        let c = join_bytes(dir, name);
        let mut nf = copy_media(f);
        nf.json_path = Some(copy_bs(&c));
        nf.match_source = MatchSource::FuzzyMatch { score };
        let removed = remove_bs(avail, &c);
        *avail = removed;
        nf
    } else {
        copy_media(f)
    }
}

impl Processor {
    /// Tier two over the whole file set: fuzzy-match every still-unmatched
    /// file against the sidecar names of its own directory.  Files already
    /// matched are untouched; the sidecar set only shrinks.
    pub fn fuzzy_match_filenames(&mut self)
        ensures
            ({
                let r = tier2_fold(
                    views_of(old(self).media_files@),
                    old(self).json_files.deep_view(),
                    old(self).existing_files.deep_view(),
                    old(self).media_files@.len() as int,
                );
                views_of(final(self).media_files@) == r.0 && final(self).json_files.deep_view()
                    == r.1
            }),
            final(self).existing_files == old(self).existing_files,
            final(self).takeout_directory == old(self).takeout_directory,
            final(self).output_directory == old(self).output_directory,
    {
        let ghost ex = self.existing_files.deep_view();
        let ghost vs0 = views_of(self.media_files@);
        let ghost av0 = self.json_files.deep_view();
        let n = self.media_files.len();
        let mut out: Vec<MediaFile> = Vec::new();
        let mut i: usize = 0;
        proof {
            assert(views_of(out@) =~= tier2_fold(vs0, av0, ex, 0).0.subrange(0, 0));
        }
        while i < n
            invariant
                0 <= i <= n,
                n == self.media_files@.len(),
                vs0 == views_of(self.media_files@),
                ex == self.existing_files.deep_view(),
                ({
                    let r = tier2_fold(vs0, av0, ex, i as int);
                    r.0.len() == n && views_of(out@) == r.0.subrange(0, i as int)
                        && self.json_files.deep_view() == r.1 && (forall|j: int|
                        i <= j < n ==> r.0[j] == vs0[j])
                }),
                self.media_files == old(self).media_files,
                self.existing_files == old(self).existing_files,
                self.takeout_directory == old(self).takeout_directory,
                self.output_directory == old(self).output_directory,
            decreases n - i,
        {
            let ghost r_pre = tier2_fold(vs0, av0, ex, i as int);
            proof {
                assert(tier2_fold(vs0, av0, ex, i + 1) == (
                    r_pre.0.update(i as int, tier2_step(r_pre.0[i as int], r_pre.1, ex).0),
                    tier2_step(r_pre.0[i as int], r_pre.1, ex).1,
                ));
                assert(r_pre.0[i as int] == vs0[i as int]);
                assert(vs0[i as int] == self.media_files@[i as int]@);
            }
            let f = &self.media_files[i];
            let nf: MediaFile = if !matches!(f.match_source, MatchSource::NoMatch) {
                proof {
                    assert(tier2_step(f@, r_pre.1, ex) == (f@, r_pre.1));
                }
                copy_media(f)
            } else {
                let parent = parent_bytes(&f.media_path);
                let names = listing_exec(&self.existing_files, &parent);
                let query = file_name_bytes(&f.media_path);
                match best_fuzzy_match(&query, &names) {
                    None => {
                        proof {
                            assert(listing_of(ex, parent_of(f@.media_path)).len() == 0);
                            assert(tier2_step(f@, r_pre.1, ex) == (f@, r_pre.1));
                        }
                        copy_media(f)
                    },
                    Some((k, s)) => {
                        proof {
                            lemma_dv_index(names, k as int);
                            let ghost names_s = listing_of(ex, parent_of(f@.media_path));
                            assert(is_best_choice(file_name_of(f@.media_path), names_s,
                                k as int, s));
                            let ks = choose|ks: (int, u8)|
                                is_best_choice(file_name_of(f@.media_path), names_s, ks.0, ks.1);
                            lemma_best_choice_unique(file_name_of(f@.media_path), names_s,
                                ks.0, ks.1, k as int, s);
                        }
                        apply_fuzzy_result(f, &parent, &names[k], s, &mut self.json_files)
                    },
                }
            };
            proof {
                assert(nf@ == tier2_step(r_pre.0[i as int], r_pre.1, ex).0);
                assert(self.json_files.deep_view()
                    == tier2_step(r_pre.0[i as int], r_pre.1, ex).1);
            }
            let ghost o0 = out@;
            out.push(nf);
            proof {
                lemma_views_push(o0, nf);
                let r_post = tier2_fold(vs0, av0, ex, i + 1);
                assert(views_of(out@) =~= r_post.0.subrange(0, i + 1));
                assert forall|j: int| i + 1 <= j < n implies r_post.0[j] == vs0[j] by {
                    assert(r_post.0[j] == r_pre.0[j]);
                }
            }
            i = i + 1;
        }
        proof {
            let r = tier2_fold(vs0, av0, ex, n as int);
            assert(r.0.subrange(0, n as int) =~= r.0);
        }
        self.media_files = out;
    }
}

} // verus!
