//! Laws of the match tiers and the classifier.

use vstd::prelude::*;
use crate::model::{MatchSource, MediaView};
use crate::paths::{has_extension, ends_with};
use crate::candidates::{
    candidates_spec, stage_bracket, stage_ext, stage_edited, stage_dots, stage_trunc,
    base_candidate, bracket_case, media_ext_lower, heic_fronts, heic_fronts_of,
};
use crate::matching::{Tier1St, tier1_step, tier1_fold, tier1_apply_excl, tier1_skips, first_avail};
use crate::fuzzy::tier2_fold;
use crate::processor::{tier3_file, classified_file};
use crate::lits::{json_suf, dot_s, heic, heic_up, heic_json_lo, heic_json_up};

verus! {

// ---------------------------------------------------------------------------
// HEIC media always offer the extension-free sidecar name
// ---------------------------------------------------------------------------

/// For HEIC media (either letter case of the extension), the candidate list
/// contains `<path-without-extension>.json`.
pub proof fn lemma_heic_variant_present(p: Seq<u8>)
    requires
        has_extension(p),
        ends_with(p, dot_s() + heic()) || ends_with(p, dot_s() + heic_up()),
        media_ext_lower(p) == heic(),
    ensures
        exists|i: int|
            0 <= i < candidates_spec(p).len() && candidates_spec(p)[i] == p.subrange(
                0,
                p.len() - 5,
            ) + json_suf(),
{
    let s = stage_bracket(p);
    let base = base_candidate(p);
    let v = p.subrange(0, p.len() - 5) + json_suf();
    assert(p.len() >= 5);
    assert(base.len() == p.len() + 5);
    if ends_with(p, dot_s() + heic()) {
        assert(ends_with(base, heic_json_lo())) by {
            assert((dot_s() + heic()) + json_suf() =~= heic_json_lo());
            assert(base.subrange(base.len() - 10, base.len() as int)
                =~= p.subrange(p.len() - 5, p.len() as int) + json_suf());
            assert(p.subrange(p.len() - 5, p.len() as int) == dot_s() + heic());
        }
    } else {
        assert(ends_with(base, heic_json_up())) by {
            assert((dot_s() + heic_up()) + json_suf() =~= heic_json_up());
            assert(base.subrange(base.len() - 10, base.len() as int)
                =~= p.subrange(p.len() - 5, p.len() as int) + json_suf());
            assert(p.subrange(p.len() - 5, p.len() as int) == dot_s() + heic_up());
        }
    }
    assert(heic_fronts_of(base).len() >= 1 && heic_fronts_of(base)[0] == v) by {
        assert(base.subrange(0, base.len() - 10) =~= p.subrange(0, p.len() - 5));
        if ends_with(base, heic_json_lo()) {
            assert(heic_fronts_of(base)[0] == base.subrange(0, base.len() - 10) + json_suf());
        } else {
            assert(heic_fronts_of(base)[0] == base.subrange(0, base.len() - 10) + json_suf());
        }
    }
    let hf = heic_fronts(s);
    let iv: int = if bracket_case(p) {
        assert(s.skip(1)[0] == base);
        assert(s.skip(1).skip(1) =~= Seq::<Seq<u8>>::empty());
        assert(heic_fronts(s.skip(1)) == heic_fronts_of(base)
            + heic_fronts(Seq::<Seq<u8>>::empty()));
        assert(hf == heic_fronts_of(s[0]) + heic_fronts(s.skip(1)));
        heic_fronts_of(s[0]).len() as int
    } else {
        assert(s.skip(1) =~= Seq::<Seq<u8>>::empty());
        assert(hf == heic_fronts_of(base) + heic_fronts(Seq::<Seq<u8>>::empty()));
        0
    };
    assert(0 <= iv < hf.len() && hf[iv] == v);
    let e = stage_ext(p);
    assert(e == hf + s);
    assert(e[iv] == v);
    let e1 = stage_edited(e);
    assert(e1[iv] == v);
    let e2 = stage_dots(e1);
    assert(e2[iv] == v);
    let e3 = stage_trunc(e2);
    assert(e3[iv] == v);
    assert(0 <= iv < candidates_spec(p).len() && candidates_spec(p)[iv] == v);
}

// ---------------------------------------------------------------------------
// Tier ordering: a file matched by an earlier tier is untouched by the later
// ones
// ---------------------------------------------------------------------------

/// Tier one always wins when a direct candidate is still unclaimed: an
/// eligible file whose candidate list holds an outstanding sidecar leaves
/// tier one bound to the first such candidate, with provenance `JsonFile`.
pub proof fn lemma_tier1_claims_available(st: Tier1St, i: int, existing: Seq<Seq<u8>>)
    requires
        0 <= i < st.files.len(),
        !tier1_skips(st.files[i], st.keys),
        first_avail(candidates_spec(st.files[i].media_path), st.avail) is Some,
    ensures
        tier1_step(st, i, existing).files[i].match_source is JsonFile,
        tier1_step(st, i, existing).files[i].json_path == Some(
            first_avail(candidates_spec(st.files[i].media_path), st.avail).unwrap(),
        ),
{
}

/// Tier one never touches a file that is already matched.
pub proof fn lemma_tier1_preserves_matched(st0: Tier1St, existing: Seq<Seq<u8>>, n: int, i: int)
    requires
        0 <= i < st0.files.len(),
        n <= st0.files.len(),
        !(st0.files[i].match_source is NoMatch),
    ensures
        tier1_fold(st0, existing, n).files.len() == st0.files.len(),
        tier1_fold(st0, existing, n).files[i] == st0.files[i],
        tier1_apply_excl(
            tier1_fold(st0, existing, n).files[i],
            tier1_fold(st0, existing, n).keys,
            tier1_fold(st0, existing, n).vals,
        ) == st0.files[i],
    decreases n,
{
    if n > 0 {
        lemma_tier1_preserves_matched(st0, existing, n - 1, i);
        let st = tier1_fold(st0, existing, n - 1);
        if n - 1 == i {
            assert(tier1_skips(st.files[i], st.keys));
        }
    }
}

/// Tier two never touches a file that is already matched.
pub proof fn lemma_tier2_preserves_matched(
    files: Seq<MediaView>,
    avail: Seq<Seq<u8>>,
    existing: Seq<Seq<u8>>,
    n: int,
    i: int,
)
    requires
        0 <= i < files.len(),
        n <= files.len(),
        !(files[i].match_source is NoMatch),
    ensures
        tier2_fold(files, avail, existing, n).0.len() == files.len(),
        tier2_fold(files, avail, existing, n).0[i] == files[i],
    decreases n,
{
    if n > 0 {
        lemma_tier2_preserves_matched(files, avail, existing, n - 1, i);
    }
}

/// Tier three never touches a file that is already matched.
pub proof fn lemma_tier3_preserves_matched(f: MediaView)
    requires
        !(f.match_source is NoMatch),
    ensures
        tier3_file(f) == f,
{
}

// ---------------------------------------------------------------------------
// Classification is idempotent
// ---------------------------------------------------------------------------

/// Re-classifying an already-classified record with the same description
/// yields the same destination path and category: the decision reads only
/// the immutable media path and the description.
pub proof fn lemma_classification_idempotent(out: Seq<u8>, f: MediaView, desc: Seq<u8>)
    ensures
        classified_file(out, classified_file(out, f, desc), desc) == classified_file(
            out,
            f,
            desc,
        ),
{
}

} // verus!
