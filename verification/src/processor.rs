//! The pipeline state and its stages: loading the enumerated tree, the three
//! match tiers, destination classification and deduplication.

use vstd::prelude::*;
use crate::bytes::{copy_bs, push_bs, lemma_dv_index, bytes_eq};
use crate::paths::{
    file_name_of, stem_of, ext_of, lower_of, ends_with, file_name_bytes, stem_bytes, ext_bytes,
    lower_bytes, ends_with_bytes,
};
use crate::model::{
    MediaFile, MediaView, MatchSource, views_of, copy_media, lemma_views_push,
};
use crate::classify::{
    classify_one, mismatch_one, retain_ok, classify_file, UnknownTypeError,
};
use crate::dedup::{vprio, prio_of, count_eq, max_prio, keep_spec, filtered};
use crate::dates::{tier3_date, infer_date_from_stem};
use crate::lits::{
    ig_metadata, ig_shared, ig_memory, ig_print, html, json_suf, ig_metadata_v, ig_shared_v,
    ig_memory_v, ig_print_v, html_v, json_suf_v,
};

verus! {

// ---------------------------------------------------------------------------
// Enumeration filtering
// ---------------------------------------------------------------------------

/// The entry's file name is on the fixed ignore list (case-insensitive).
pub open spec fn name_ignored(e: Seq<u8>) -> bool {
    ||| lower_of(file_name_of(e)) == ig_metadata()
    ||| lower_of(file_name_of(e)) == ig_shared()
    ||| lower_of(file_name_of(e)) == ig_memory()
    ||| lower_of(file_name_of(e)) == ig_print()
}

/// The enumeration's fixed exclusions: ignored file names (case-insensitive)
/// and ignored extensions.
pub open spec fn entry_ignored(e: Seq<u8>) -> bool {
    ||| name_ignored(e)
    ||| (ext_of(e) matches Some(x) && lower_of(x) == html())
}

/// Is the entry's name on the ignore list?
pub fn name_ignored_exec(e: &Vec<u8>) -> (r: bool)
    ensures
        r == name_ignored(e@),
{
    let name = file_name_bytes(e);
    let low = lower_bytes(&name);
    bytes_eq(&low, &ig_metadata_v()) || bytes_eq(&low, &ig_shared_v()) || bytes_eq(
        &low,
        &ig_memory_v(),
    ) || bytes_eq(&low, &ig_print_v())
}

pub open spec fn entry_is_sidecar(e: Seq<u8>) -> bool {
    !entry_ignored(e) && ends_with(file_name_of(e), json_suf())
}

pub open spec fn entry_is_media(e: Seq<u8>) -> bool {
    !entry_ignored(e) && !ends_with(file_name_of(e), json_suf())
}

pub open spec fn media_of_entries(es: Seq<Seq<u8>>) -> Seq<Seq<u8>>
    decreases es.len(),
{
    if es.len() == 0 {
        Seq::empty()
    } else {
        (if entry_is_media(es[0]) {
            seq![es[0]]
        } else {
            Seq::<Seq<u8>>::empty()
        }) + media_of_entries(es.skip(1))
    }
}

pub open spec fn sidecars_of_entries(es: Seq<Seq<u8>>) -> Seq<Seq<u8>>
    decreases es.len(),
{
    if es.len() == 0 {
        Seq::empty()
    } else {
        (if entry_is_sidecar(es[0]) {
            seq![es[0]]
        } else {
            Seq::<Seq<u8>>::empty()
        }) + sidecars_of_entries(es.skip(1))
    }
}

/// The unmatched media view a fresh path loads as.
pub open spec fn fresh_view(p: Seq<u8>) -> MediaView {
    MediaView {
        media_path: p,
        destination_path: None,
        destination_type: None,
        json_path: None,
        media_creation_date: None,
        match_source: MatchSource::NoMatch,
    }
}

pub open spec fn fresh_views(ps: Seq<Seq<u8>>) -> Seq<MediaView> {
    Seq::new(ps.len(), |i: int| fresh_view(ps[i]))
}

/// Is the entry ignored by the fixed exclusion lists?
pub fn entry_ignored_exec(e: &Vec<u8>) -> (r: bool)
    ensures
        r == entry_ignored(e@),
{
    if name_ignored_exec(e) {
        return true;
    }
    match ext_bytes(e) {
        Some(x) => {
            let xl = lower_bytes(&x);
            bytes_eq(&xl, &html_v())
        },
        None => false,
    }
}

// ---------------------------------------------------------------------------
// The processor
// ---------------------------------------------------------------------------

/// The pipeline state: the two root directories, the media file records, the
/// outstanding sidecar set and the full enumerated tree.
pub struct Processor {
    pub takeout_directory: Vec<u8>,
    pub output_directory: Vec<u8>,
    pub media_files: Vec<MediaFile>,
    pub json_files: Vec<Vec<u8>>,
    pub existing_files: Vec<Vec<u8>>,
}

/// What a single file's classification does to its record.
pub open spec fn classified_file(out: Seq<u8>, f: MediaView, desc: Seq<u8>) -> MediaView {
    MediaView {
        destination_path: Some(classify_one(out, f.media_path, desc).unwrap().0),
        destination_type: Some(classify_one(out, f.media_path, desc).unwrap().1),
        ..f
    }
}

/// Extension mismatches over the first `n` files.
pub open spec fn mismatch_total(
    out: Seq<u8>,
    files: Seq<MediaView>,
    descs: Seq<Seq<u8>>,
    n: int,
) -> int
    decreases n,
{
    if n <= 0 {
        0
    } else {
        mismatch_total(out, files, descs, n - 1) + mismatch_one(
            out,
            files[n - 1].media_path,
            descs[n - 1],
        )
    }
}

/// What tier three does to one record: still-unmatched files get the date
/// inferred from their stem, with provenance `FileName`.
pub open spec fn tier3_file(f: MediaView) -> MediaView {
    if !(f.match_source is NoMatch) {
        f
    } else {
        match tier3_date(stem_of(f.media_path)) {
            Option::Some(d) => MediaView {
                media_creation_date: Some(d),
                match_source: MatchSource::FileName,
                ..f
            },
            Option::None => f,
        }
    }
}


/// Numeric tag of a provenance variant, for counting.
pub open spec fn source_tag(m: MatchSource) -> int {
    match m {
        MatchSource::NoMatch => 0,
        MatchSource::JsonFile => 1,
        MatchSource::FileName => 2,
        MatchSource::DirectoryName => 3,
        MatchSource::FuzzyMatch { .. } => 4,
    }
}

/// How many of the first `n` records carry provenance tag `t`.
pub open spec fn count_tag(vs: Seq<MediaView>, t: int, n: int) -> int
    decreases n,
{
    if n <= 0 {
        0
    } else {
        count_tag(vs, t, n - 1) + (if source_tag(vs[n - 1].match_source) == t {
            1int
        } else {
            0int
        })
    }
}

impl Processor {
    /// A processor over the given archive and output roots, with nothing
    /// loaded yet.
    pub fn new(takeout_directory: Vec<u8>, output_directory: Vec<u8>) -> (r: Processor)
        ensures
            r.takeout_directory@ == takeout_directory@,
            r.output_directory@ == output_directory@,
            r.media_files@.len() == 0,
            r.json_files@.len() == 0,
            r.existing_files@.len() == 0,
    {
        Processor {
            takeout_directory,
            output_directory,
            media_files: Vec::new(),
            json_files: Vec::new(),
            existing_files: Vec::new(),
        }
    }

    /// Record the enumerated tree: every path is remembered, non-ignored
    /// `.json` names become outstanding sidecars, the rest become unmatched
    /// media records.
    pub fn record_entries(&mut self, entries: Vec<Vec<u8>>)
        ensures
            final(self).existing_files.deep_view() == old(self).existing_files.deep_view()
                + entries.deep_view(),
            final(self).json_files.deep_view() == old(self).json_files.deep_view()
                + sidecars_of_entries(entries.deep_view()),
            views_of(final(self).media_files@) == views_of(old(self).media_files@)
                + fresh_views(media_of_entries(entries.deep_view())),
            final(self).takeout_directory == old(self).takeout_directory,
            final(self).output_directory == old(self).output_directory,
    {
        let ghost es = entries.deep_view();
        let ghost ex0 = self.existing_files.deep_view();
        let ghost sc0 = self.json_files.deep_view();
        let ghost m0 = views_of(self.media_files@);
        let mut i: usize = 0;
        proof {
            assert(es.skip(0) =~= es);
            assert(ex0 + Seq::<Seq<u8>>::empty() =~~= ex0);
            assert(sc0 + Seq::<Seq<u8>>::empty() =~~= sc0);
            assert(fresh_views(Seq::<Seq<u8>>::empty()) =~= Seq::<MediaView>::empty());
            assert(m0 + Seq::<MediaView>::empty() =~= m0);
        }
        while i < entries.len()
            invariant
                0 <= i <= entries@.len(),
                es == entries.deep_view(),
                self.existing_files.deep_view() == ex0 + es.subrange(0, i as int),
                self.json_files.deep_view() == sc0 + sidecars_of_entries(es.subrange(0, i as int)),
                views_of(self.media_files@) == m0 + fresh_views(media_of_entries(es.subrange(
                    0,
                    i as int,
                ))),
                self.takeout_directory == old(self).takeout_directory,
                self.output_directory == old(self).output_directory,
            decreases entries.len() - i,
        {
            proof {
                lemma_dv_index(entries, i as int);
            }
            let e = copy_bs(&entries[i]);
            let ghost pre = es.subrange(0, i as int);
            let ghost pre1 = es.subrange(0, i + 1);
            proof {
                assert(pre1.drop_last() =~= pre);
                lemma_partition_snoc(es, i as int);
            }
            let ghost exd = self.existing_files.deep_view();
            push_bs(&mut self.existing_files, copy_bs(&e));
            proof {
                assert(self.existing_files.deep_view() =~~= ex0 + pre1);
            }
            if !entry_ignored_exec(&e) {
                let name = file_name_bytes(&e);
                if ends_with_bytes(&name, &json_suf_v()) {
                    let ghost scd = self.json_files.deep_view();
                    push_bs(&mut self.json_files, e);
                    proof {
                        assert(self.json_files.deep_view()
                            =~~= sc0 + sidecars_of_entries(pre1));
                        assert(views_of(self.media_files@)
                            =~= m0 + fresh_views(media_of_entries(pre1)));
                    }
                } else {
                    let ghost md = views_of(self.media_files@);
                    let f = MediaFile::unmatched(e);
                    let ghost fv = f@;
                    self.media_files.push(f);
                    proof {
                        lemma_views_push(self.media_files@.drop_last(), f);
                        assert(views_of(self.media_files@) =~= md.push(fv));
                        assert(fresh_views(media_of_entries(pre1))
                            =~= fresh_views(media_of_entries(pre)).push(fresh_view(es[i as int])));
                        assert(views_of(self.media_files@)
                            =~= m0 + fresh_views(media_of_entries(pre1)));
                        assert(self.json_files.deep_view()
                            =~~= sc0 + sidecars_of_entries(pre1));
                    }
                }
            } else {
                proof {
                    assert(self.json_files.deep_view() =~~= sc0 + sidecars_of_entries(pre1));
                    assert(views_of(self.media_files@)
                        =~= m0 + fresh_views(media_of_entries(pre1)));
                }
            }
            i = i + 1;
        }
        proof {
            assert(es.subrange(0, es.len() as int) =~= es);
        }
    }
    /// Load the enumerated archive tree into a fresh processor and run the
    /// three match tiers in order: direct candidates with deferred sibling
    /// exclusions, then fuzzy matching, then filename date inference.
    pub fn load_files(&mut self, entries: Vec<Vec<u8>>)
        requires
            old(self).media_files@.len() == 0,
            old(self).json_files@.len() == 0,
            old(self).existing_files@.len() == 0,
        ensures
            ({
                let es = entries.deep_view();
                let st = crate::matching::tier1_fold(
                    crate::matching::Tier1St {
                        files: fresh_views(media_of_entries(es)),
                        avail: sidecars_of_entries(es),
                        keys: Seq::empty(),
                        vals: Seq::empty(),
                    },
                    es,
                    media_of_entries(es).len() as int,
                );
                let m1 = Seq::new(
                    st.files.len(),
                    |i: int| crate::matching::tier1_apply_excl(st.files[i], st.keys, st.vals),
                );
                let r2 = crate::fuzzy::tier2_fold(m1, st.avail, es, m1.len() as int);
                views_of(final(self).media_files@) == Seq::new(
                    r2.0.len(),
                    |i: int| tier3_file(r2.0[i]),
                ) && final(self).json_files.deep_view() == r2.1
                    && final(self).existing_files.deep_view() == es
            }),
            final(self).takeout_directory == old(self).takeout_directory,
            final(self).output_directory == old(self).output_directory,
    {
        let ghost es = entries.deep_view();
        self.record_entries(entries);
        proof {
            assert(self.existing_files.deep_view() =~~= es);
            assert(self.json_files.deep_view() =~~= sidecars_of_entries(es));
            assert(views_of(self.media_files@)
                =~= fresh_views(media_of_entries(es)));
        }
        self.match_json_files_to_media_files();
        self.fuzzy_match_filenames();
        self.find_date_time_from_filename();
    }


    /// The outcome summary: how many files each tier resolved.  In order:
    /// unmatched, direct sidecar, filename date, directory name, fuzzy.
    pub fn match_counts(&self) -> (r: (usize, usize, usize, usize, usize))
        ensures
            ({
                let vs = views_of(self.media_files@);
                let n = vs.len() as int;
                r.0 as int == count_tag(vs, 0, n) && r.1 as int == count_tag(vs, 1, n)
                    && r.2 as int == count_tag(vs, 2, n) && r.3 as int == count_tag(vs, 3, n)
                    && r.4 as int == count_tag(vs, 4, n)
            }),
    {
        let ghost vs = views_of(self.media_files@);
        let n = self.media_files.len();
        let mut c0: usize = 0;
        let mut c1: usize = 0;
        let mut c2: usize = 0;
        let mut c3: usize = 0;
        let mut c4: usize = 0;
        let mut i: usize = 0;
        while i < n
            invariant
                0 <= i <= n,
                n == self.media_files@.len(),
                vs == views_of(self.media_files@),
                c0 as int == count_tag(vs, 0, i as int),
                c1 as int == count_tag(vs, 1, i as int),
                c2 as int == count_tag(vs, 2, i as int),
                c3 as int == count_tag(vs, 3, i as int),
                c4 as int == count_tag(vs, 4, i as int),
                c0 <= i && c1 <= i && c2 <= i && c3 <= i && c4 <= i,
            decreases n - i,
        {
            proof {
                assert(vs[i as int] == self.media_files@[i as int]@);
            }
            match self.media_files[i].match_source {
                MatchSource::NoMatch => { c0 = c0 + 1; },
                MatchSource::JsonFile => { c1 = c1 + 1; },
                MatchSource::FileName => { c2 = c2 + 1; },
                MatchSource::DirectoryName => { c3 = c3 + 1; },
                MatchSource::FuzzyMatch { .. } => { c4 = c4 + 1; },
            }
            i = i + 1;
        }
        (c0, c1, c2, c3, c4)
    }

    /// Tier three: for every still-unmatched file, infer a creation date
    /// from the file name; on success the provenance becomes `FileName`.
    /// Files already matched are untouched.
    pub fn find_date_time_from_filename(&mut self)
        ensures
            views_of(final(self).media_files@) == Seq::new(
                old(self).media_files@.len() as nat,
                |i: int| tier3_file(views_of(old(self).media_files@)[i]),
            ),
            final(self).json_files == old(self).json_files,
            final(self).existing_files == old(self).existing_files,
            final(self).takeout_directory == old(self).takeout_directory,
            final(self).output_directory == old(self).output_directory,
    {
        let ghost vs = views_of(self.media_files@);
        let n = self.media_files.len();
        let mut out: Vec<MediaFile> = Vec::new();
        let mut i: usize = 0;
        while i < n
            invariant
                0 <= i <= n,
                n == self.media_files@.len(),
                vs == views_of(self.media_files@),
                views_of(out@) == Seq::new(i as nat, |k: int| tier3_file(vs[k])),
                self == old(self),
            decreases n - i,
        {
            let f = &self.media_files[i];
            let is_unmatched = matches!(f.match_source, MatchSource::NoMatch);
            let nf: MediaFile = if is_unmatched {
                let st = stem_bytes(&f.media_path);
                match infer_date_from_stem(&st) {
                    Some(d) => {
                        let mut c = copy_media(f);
                        c.media_creation_date = Some(d);
                        c.match_source = MatchSource::FileName;
                        c
                    },
                    None => copy_media(f),
                }
            } else {
                copy_media(f)
            };
            proof {
                assert(nf@ == tier3_file(vs[i as int]));
            }
            let ghost o0 = out@;
            out.push(nf);
            proof {
                lemma_views_push(o0, nf);
                assert(views_of(out@) =~= Seq::new((i + 1) as nat, |k: int| tier3_file(vs[k])));
            }
            i = i + 1;
        }
        self.media_files = out;
    }

    /// Classify every file into its destination: category and destination
    /// path from the parent directory name, then extension correction from
    /// the type sniffer's description of the file, given here one per media
    /// file in order.  An unrecognized description stops the run: files
    /// before it are classified, the failing file and those after it are
    /// untouched.  Returns the count of extension mismatches.
    #[verifier::rlimit(100)]
    pub fn generate_destination_paths(&mut self, descriptions: &Vec<Vec<u8>>) -> (r: Result<
        usize,
        UnknownTypeError,
    >)
        requires
            descriptions@.len() == old(self).media_files@.len(),
            forall|i: int| 0 <= i < old(self).media_files@.len() ==> retain_ok(
                old(self).output_directory@,
                views_of(old(self).media_files@)[i].media_path,
                descriptions.deep_view()[i],
            ),
        ensures
            final(self).json_files == old(self).json_files,
            final(self).existing_files == old(self).existing_files,
            final(self).takeout_directory == old(self).takeout_directory,
            final(self).output_directory == old(self).output_directory,
            match r {
                Ok(n) => {
                    let out = old(self).output_directory@;
                    let vs = views_of(old(self).media_files@);
                    let ds = descriptions.deep_view();
                    &&& forall|i: int| 0 <= i < vs.len() ==> classify_one(
                        out,
                        vs[i].media_path,
                        ds[i],
                    ) is Some
                    &&& views_of(final(self).media_files@) == Seq::new(
                        vs.len(),
                        |i: int| classified_file(out, vs[i], ds[i]),
                    )
                    &&& n as int == mismatch_total(out, vs, ds, vs.len() as int)
                },
                Err(e) => {
                    let out = old(self).output_directory@;
                    let vs = views_of(old(self).media_files@);
                    let ds = descriptions.deep_view();
                    exists|k: int|
                        0 <= k < vs.len() && classify_one(out, vs[k].media_path, ds[k]) is None
                            && (forall|j: int| 0 <= j < k ==> classify_one(
                            out,
                            vs[j].media_path,
                            ds[j],
                        ) is Some) && e.media_path@ == vs[k].media_path && e.description@ == ds[k]
                            && views_of(final(self).media_files@) == Seq::new(
                            vs.len(),
                            |i: int| if i < k {
                                classified_file(out, vs[i], ds[i])
                            } else {
                                vs[i]
                            },
                        )
                },
            },
    {
        let ghost out_d = self.output_directory@;
        let ghost vs = views_of(self.media_files@);
        let ghost ds = descriptions.deep_view();
        let n = self.media_files.len();
        let mut out: Vec<MediaFile> = Vec::new();
        let mut mm: usize = 0;
        let mut i: usize = 0;
        while i < n
            invariant
                0 <= i <= n,
                n == self.media_files@.len(),
                n == descriptions@.len(),
                vs == views_of(self.media_files@),
                ds == descriptions.deep_view(),
                out_d == self.output_directory@,
                self == old(self),
                forall|j: int| 0 <= j < n ==> retain_ok(out_d, vs[j].media_path, ds[j]),
                forall|j: int| 0 <= j < i ==> classify_one(out_d, vs[j].media_path, ds[j])
                    is Some,
                views_of(out@) == Seq::new(i as nat, |k: int| classified_file(
                    out_d,
                    vs[k],
                    ds[k],
                )),
                mm as int == mismatch_total(out_d, vs, ds, i as int),
                mm <= i,
            decreases n - i,
        {
            proof {
                lemma_dv_index(*descriptions, i as int);
            }
            let f = &self.media_files[i];
            match classify_file(&self.output_directory, &f.media_path, &descriptions[i]) {
                Ok((d, c, is_mm)) => {
                    let mut nf = copy_media(f);
                    nf.destination_path = Some(d);
                    nf.destination_type = Some(c);
                    proof {
                        assert(nf@ == classified_file(out_d, vs[i as int], ds[i as int]));
                    }
                    let ghost o0 = out@;
                    out.push(nf);
                    if is_mm {
                        mm = mm + 1;
                    }
                    proof {
                        lemma_views_push(o0, nf);
                        assert(views_of(out@) =~= Seq::new((i + 1) as nat, |k: int|
                            classified_file(out_d, vs[k], ds[k])));
                    }
                    i = i + 1;
                },
                Err(()) => {
                    let ghost k = i as int;
                    let err = UnknownTypeError {
                        media_path: copy_bs(&f.media_path),
                        description: copy_bs(&descriptions[i]),
                    };
                    let mut j: usize = i;
                    while j < n
                        invariant
                            i <= j <= n,
                            n == self.media_files@.len(),
                            vs == views_of(self.media_files@),
                            self == old(self),
                            views_of(out@) == Seq::new(j as nat, |t: int| if t < i as int {
                                classified_file(out_d, vs[t], ds[t])
                            } else {
                                vs[t]
                            }),
                        decreases n - j,
                    {
                        let ghost o0 = out@;
                        let c = copy_media(&self.media_files[j]);
                        out.push(c);
                        proof {
                            lemma_views_push(o0, c);
                            assert(views_of(out@) =~= Seq::new((j + 1) as nat, |t: int|
                                if t < i as int {
                                    classified_file(out_d, vs[t], ds[t])
                                } else {
                                    vs[t]
                                }));
                        }
                        j = j + 1;
                    }
                    self.media_files = out;
                    proof {
                        assert(views_of(self.media_files@) =~= Seq::new(vs.len(), |t: int|
                            if t < k {
                                classified_file(out_d, vs[t], ds[t])
                            } else {
                                vs[t]
                            }));
                    }
                    return Err(err);
                },
            }
        }
        proof {
            assert(views_of(out@) =~= Seq::new(vs.len(), |k: int| classified_file(
                out_d,
                vs[k],
                ds[k],
            )));
        }
        self.media_files = out;
        Ok(mm)
    }

    /// Deduplicate by content digest, one digest per media file in order.
    /// Files whose digest is unique survive; of every group of two or more,
    /// exactly one survives, preferring Albums over Shared over General, the
    /// earliest member on ties.  Removal is from this in-memory list only.
    pub fn remove_duplicates(&mut self, digests: &Vec<Vec<u8>>)
        requires
            digests@.len() == old(self).media_files@.len(),
            forall|i: int| 0 <= i < old(self).media_files@.len()
                ==> views_of(old(self).media_files@)[i].destination_type is Some,
        ensures
            views_of(final(self).media_files@) == filtered(
                views_of(old(self).media_files@),
                digests.deep_view(),
                old(self).media_files@.len() as int,
            ),
            final(self).json_files == old(self).json_files,
            final(self).existing_files == old(self).existing_files,
            final(self).takeout_directory == old(self).takeout_directory,
            final(self).output_directory == old(self).output_directory,
    {
        let ghost vs = views_of(self.media_files@);
        let ghost ds = digests.deep_view();
        let n = self.media_files.len();
        let mut out: Vec<MediaFile> = Vec::new();
        let mut i: usize = 0;
        proof {
            assert(views_of(out@) =~= filtered(vs, ds, 0));
        }
        while i < n
            invariant
                0 <= i <= n,
                n == self.media_files@.len(),
                n == digests@.len(),
                vs == views_of(self.media_files@),
                ds == digests.deep_view(),
                self == old(self),
                forall|j: int| 0 <= j < n ==> vs[j].destination_type is Some,
                views_of(out@) == filtered(vs, ds, i as int),
            decreases n - i,
        {
            proof {
                lemma_dv_index(*digests, i as int);
            }
            let d = &digests[i];
            let mut cnt: usize = 0;
            let mut mx: i8 = -1;
            let mut j: usize = 0;
            while j < n
                invariant
                    0 <= j <= n,
                    n == self.media_files@.len(),
                    n == digests@.len(),
                    vs == views_of(self.media_files@),
                    ds == digests.deep_view(),
                    forall|t: int| 0 <= t < n ==> vs[t].destination_type is Some,
                    d@ == ds[i as int],
                    0 <= i < n,
                    cnt as int == count_eq(ds, ds[i as int], j as int),
                    cnt <= j,
                    mx as int == max_prio(vs, ds, ds[i as int], j as int),
                decreases n - j,
            {
                proof {
                    lemma_dv_index(*digests, j as int);
                }
                if bytes_eq(&digests[j], d) {
                    cnt = cnt + 1;
                    proof {
                        assert(vs[j as int] == self.media_files@[j as int]@);
                    }
                    let p = prio_of(self.media_files[j].destination_type.unwrap());
                    if (p as i8) > mx {
                        mx = p as i8;
                    }
                }
                j = j + 1;
            }
            let keep: bool = if cnt <= 1 {
                true
            } else {
                proof {
                    assert(vs[i as int] == self.media_files@[i as int]@);
                }
                let pi = prio_of(self.media_files[i].destination_type.unwrap());
                if (pi as i8) == mx {
                    let mut earlier = false;
                    let mut t: usize = 0;
                    while t < i
                        invariant
                            0 <= t <= i < n,
                            n == self.media_files@.len(),
                            n == digests@.len(),
                            vs == views_of(self.media_files@),
                            ds == digests.deep_view(),
                            forall|u: int| 0 <= u < n ==> vs[u].destination_type is Some,
                            d@ == ds[i as int],
                            mx as int == max_prio(vs, ds, ds[i as int], n as int),
                            earlier == exists|u: int|
                                0 <= u < t && ds[u] == ds[i as int] && vprio(vs[u]) == mx as int,
                        decreases i - t,
                    {
                        proof {
                            lemma_dv_index(*digests, t as int);
                        }
                        if bytes_eq(&digests[t], d) {
                            proof {
                                assert(vs[t as int] == self.media_files@[t as int]@);
                            }
                            let pt = prio_of(self.media_files[t].destination_type.unwrap());
                            if (pt as i8) == mx {
                                proof {
                                    assert(ds[t as int] == ds[i as int] && vprio(vs[t as int])
                                        == mx as int);
                                }
                                earlier = true;
                            }
                        }
                        t = t + 1;
                    }
                    !earlier
                } else {
                    false
                }
            };
            proof {
                assert(keep == keep_spec(vs, ds, i as int));
                assert(filtered(vs, ds, i + 1) == filtered(vs, ds, i as int) + (
                    if keep_spec(vs, ds, i as int) {
                    seq![vs[i as int]]
                } else {
                    Seq::<MediaView>::empty()
                }));
            }
            if keep {
                let ghost o0 = out@;
                let c = copy_media(&self.media_files[i]);
                out.push(c);
                proof {
                    lemma_views_push(o0, c);
                    assert(views_of(out@) =~= filtered(vs, ds, i + 1));
                }
            } else {
                proof {
                    assert(views_of(out@) =~= filtered(vs, ds, i + 1));
                }
            }
            i = i + 1;
        }
        self.media_files = out;
    }
}

/// Splitting the partition of `es[0..i+1]` at its last entry.
pub proof fn lemma_partition_snoc(es: Seq<Seq<u8>>, i: int)
    requires
        0 <= i < es.len(),
    ensures
        sidecars_of_entries(es.subrange(0, i + 1)) == sidecars_of_entries(es.subrange(0, i))
            + (if entry_is_sidecar(es[i]) {
            seq![es[i]]
        } else {
            Seq::<Seq<u8>>::empty()
        }),
        media_of_entries(es.subrange(0, i + 1)) == media_of_entries(es.subrange(0, i)) + (
        if entry_is_media(es[i]) {
            seq![es[i]]
        } else {
            Seq::<Seq<u8>>::empty()
        }),
    decreases i,
{
    let a = es.subrange(0, i + 1);
    let b = es.subrange(0, i);
    if i == 0 {
        assert(a =~= seq![es[0]]);
        assert(b =~= Seq::<Seq<u8>>::empty());
        assert(a.skip(1) =~= Seq::<Seq<u8>>::empty());
        assert(sidecars_of_entries(a) == (if entry_is_sidecar(es[0]) {
            seq![es[0]]
        } else {
            Seq::<Seq<u8>>::empty()
        }) + sidecars_of_entries(a.skip(1)));
        assert(sidecars_of_entries(b) =~= Seq::<Seq<u8>>::empty());
        assert(sidecars_of_entries(b) + (if entry_is_sidecar(es[0]) {
            seq![es[0]]
        } else {
            Seq::<Seq<u8>>::empty()
        }) =~= sidecars_of_entries(a));
        assert(media_of_entries(b) + (if entry_is_media(es[0]) {
            seq![es[0]]
        } else {
            Seq::<Seq<u8>>::empty()
        }) =~= media_of_entries(a));
    } else {
        lemma_partition_snoc(es.skip(1), i - 1);
        assert(a.skip(1) =~= es.skip(1).subrange(0, i));
        assert(b.skip(1) =~= es.skip(1).subrange(0, i - 1));
        assert(a[0] == es[0] && b[0] == es[0]);
        assert(es.skip(1)[i - 1] == es[i]);
        assert(sidecars_of_entries(a) == (if entry_is_sidecar(es[0]) {
            seq![es[0]]
        } else {
            Seq::<Seq<u8>>::empty()
        }) + sidecars_of_entries(a.skip(1)));
        assert(sidecars_of_entries(b) == (if entry_is_sidecar(es[0]) {
            seq![es[0]]
        } else {
            Seq::<Seq<u8>>::empty()
        }) + sidecars_of_entries(b.skip(1)));
        assert(sidecars_of_entries(a) =~= sidecars_of_entries(b) + (if entry_is_sidecar(
            es[i],
        ) {
            seq![es[i]]
        } else {
            Seq::<Seq<u8>>::empty()
        }));
        assert(media_of_entries(a) == (if entry_is_media(es[0]) {
            seq![es[0]]
        } else {
            Seq::<Seq<u8>>::empty()
        }) + media_of_entries(a.skip(1)));
        assert(media_of_entries(b) == (if entry_is_media(es[0]) {
            seq![es[0]]
        } else {
            Seq::<Seq<u8>>::empty()
        }) + media_of_entries(b.skip(1)));
        assert(media_of_entries(a) =~= media_of_entries(b) + (if entry_is_media(es[i]) {
            seq![es[i]]
        } else {
            Seq::<Seq<u8>>::empty()
        }));
    }
}

} // verus!
