//! Laws of the candidate generator: which candidate stands first, and which
//! candidates are always present.

use vstd::prelude::*;
use crate::paths::has_extension;
use crate::candidates::{
    candidates_spec, stage_bracket, stage_ext, stage_edited, stage_dots, stage_trunc,
    base_candidate, bracket_case, bracket_variant, media_ext_lower,
};
use crate::lits::{json_suf, heic};

verus! {

/// For a media path whose stem does not end in a parenthesized number and
/// whose extension is not HEIC, the first candidate is the path itself with
/// `.json` appended.
pub proof fn lemma_base_candidate_first(p: Seq<u8>)
    requires
        has_extension(p),
        !bracket_case(p),
        media_ext_lower(p) != heic(),
    ensures
        candidates_spec(p).len() > 0,
        candidates_spec(p)[0] == p + json_suf(),
{
    let s = stage_bracket(p);
    assert(s[0] == base_candidate(p));
    let e = stage_ext(p);
    assert(e.len() > 0 && e[0] == base_candidate(p));
    let e1 = stage_edited(e);
    assert(e1.len() > 0 && e1[0] == base_candidate(p));
    let e2 = stage_dots(e1);
    assert(e2.len() > 0 && e2[0] == base_candidate(p));
    let e3 = stage_trunc(e2);
    assert(e3.len() > 0 && e3[0] == base_candidate(p));
}

/// For a media path whose stem ends in a parenthesized number and whose
/// extension is not HEIC, the first candidate detaches the counter from the
/// stem and re-appends it after the extension:
/// `<stem-without-counter>.<ext>(<n>).json`.
pub proof fn lemma_bracket_candidate_first(p: Seq<u8>)
    requires
        has_extension(p),
        bracket_case(p),
        media_ext_lower(p) != heic(),
    ensures
        candidates_spec(p).len() > 0,
        candidates_spec(p)[0] == bracket_variant(p),
{
    let s = stage_bracket(p);
    assert(s[0] == bracket_variant(p));
    let e = stage_ext(p);
    assert(e.len() > 0 && e[0] == bracket_variant(p));
    let e1 = stage_edited(e);
    assert(e1.len() > 0 && e1[0] == bracket_variant(p));
    let e2 = stage_dots(e1);
    assert(e2.len() > 0 && e2[0] == bracket_variant(p));
    let e3 = stage_trunc(e2);
    assert(e3.len() > 0 && e3[0] == bracket_variant(p));
}

} // verus!
