//! The two outside capabilities the pipeline computes with: fuzzy
//! string scoring and content digests.  Each call stands behind one trusted
//! wrapper; everything that decides on the scores or digests is verified.

use vstd::prelude::*;
use sha3::Digest;

verus! {

// ---------------------------------------------------------------------------
// Fuzzy scoring
// ---------------------------------------------------------------------------

/// The weighted-ratio similarity score of a query and a choice, on the 0-100
/// scale, as the fuzzy matcher computes it after its own token-normalizing
/// preprocessing of both texts.
pub uninterp spec fn wratio_of(query: Seq<u8>, choice: Seq<u8>) -> u8;

/// Relies on fuzzywuzzy's `process::extract_without_order` with
/// `utils::full_process` as processor, `fuzz::wratio` as scorer and cutoff
/// zero: it scores every choice against the query, in choice order, and the
/// score is a function of the two texts alone.
#[verifier::external_body]
fn wratio_scores(query: &Vec<u8>, choices: &Vec<Vec<u8>>) -> (r: Vec<u8>)
    ensures
        r@.len() == choices@.len(),
        forall|j: int| 0 <= j < choices@.len() ==> r@[j] == wratio_of(
            query@,
            choices.deep_view()[j],
        ),
{
    let q = String::from_utf8_lossy(query.as_slice()).into_owned();
    let ch: Vec<String> = choices.iter().map(|c| String::from_utf8_lossy(c.as_slice())
        .into_owned()).collect();
    fuzzywuzzy::process::extract_without_order(
        &q,
        &ch,
        fuzzywuzzy::utils::full_process,
        fuzzywuzzy::fuzz::wratio,
        0,
    ).into_iter().map(|p| p.1).collect()
}

/// `k` indexes the first choice carrying the maximal score `s`.
pub open spec fn is_best_choice(query: Seq<u8>, choices: Seq<Seq<u8>>, k: int, s: u8) -> bool {
    &&& 0 <= k < choices.len()
    &&& s == wratio_of(query, choices[k])
    &&& forall|j: int| 0 <= j < choices.len() ==> wratio_of(query, choices[j]) <= s
    &&& forall|j: int| 0 <= j < k ==> wratio_of(query, choices[j]) < s
}

/// The first choice with the maximal similarity score, with that score;
/// nothing only when there are no choices.
pub fn best_fuzzy_match(query: &Vec<u8>, choices: &Vec<Vec<u8>>) -> (r: Option<(usize, u8)>)
    ensures
        (r is None) <==> choices@.len() == 0,
        r matches Some((k, s)) ==> is_best_choice(query@, choices.deep_view(), k as int, s),
{
    let scores = wratio_scores(query, choices);
    if choices.len() == 0 {
        return None;
    }
    let mut best: usize = 0;
    let mut best_score: u8 = scores[0];
    let mut j: usize = 1;
    proof {
        crate::bytes::lemma_dv_index(*choices, 0);
    }
    while j < choices.len()
        invariant
            1 <= j <= choices@.len(),
            scores@.len() == choices@.len(),
            0 <= best < j,
            forall|t: int| 0 <= t < choices@.len()
                ==> scores@[t] == wratio_of(query@, choices.deep_view()[t]),
            best_score == wratio_of(query@, choices.deep_view()[best as int]),
            forall|t: int| 0 <= t < j ==> wratio_of(query@, choices.deep_view()[t]) <= best_score,
            forall|t: int| 0 <= t < best ==> wratio_of(query@, choices.deep_view()[t])
                < best_score,
        decreases choices.len() - j,
    {
        proof {
            crate::bytes::lemma_dv_index(*choices, j as int);
        }
        if scores[j] > best_score {
            best = j;
            best_score = scores[j];
        }
        j = j + 1;
    }
    Some((best, best_score))
}

// ---------------------------------------------------------------------------
// Content digests
// ---------------------------------------------------------------------------

/// The 32-byte SHA3-256 digest of a byte string.
pub uninterp spec fn sha3_256_of(data: Seq<u8>) -> Seq<u8>;

/// Relies on `sha3::Sha3_256` through the digest trait's one-shot `digest`:
/// a 256-bit digest that depends on the input bytes alone.
#[verifier::external_body]
fn sha3_digest(data: &Vec<u8>) -> (r: Vec<u8>)
    ensures
        r@ == sha3_256_of(data@),
        r@.len() == 32,
{
    sha3::Sha3_256::digest(data.as_slice()).as_slice().to_vec()
}

/// The content digest the deduplication engine groups by.
pub fn content_digest(data: &Vec<u8>) -> (r: Vec<u8>)
    ensures
        r@ == sha3_256_of(data@),
        r@.len() == 32,
{
    sha3_digest(data)
}

} // verus!
