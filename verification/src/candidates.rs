//! Sidecar candidate generation: from one media path, the ordered list of
//! plausible sidecar paths, highest priority first.  Rules are applied to a
//! growing worklist; duplicates are allowed and the caller tries candidates
//! in list order.

use vstd::prelude::*;
use crate::bytes::{
    copy_bs, push_bs, lemma_dv_index, has_sub, replace_seq, concat_bytes, contains_bytes,
    replace_bytes, sub_bytes, bytes_eq,
};
use crate::paths::{
    has_byte, last_byte_idx, stem_of, ext_of, parent_of, join_of, has_extension, ends_with,
    lower_of, stem_bytes, ext_bytes, parent_bytes, join_bytes, lower_bytes, ends_with_bytes,
    find_last_byte, is_last_idx,
};
use crate::numbers::{parses_u32, digits_val, digits_part, dec_spec, parse_u32_bytes, u32_to_dec};
use crate::lits::{
    json_suf, open_paren, close_paren, dot_s, dot_dot, dot_dot_json, dash_edited, heic,
    heic_json_lo, heic_json_up, jpg, jpg_json_lo, jpg_json_up, j_json, j_paren, png, png_json_lo,
    png_json_up, p_json, p_paren, json_suf_v, open_paren_v, close_paren_v, dot_s_v, dot_dot_v,
    dot_dot_json_v, dash_edited_v, heic_v, heic_json_lo_v, heic_json_up_v, jpg_v, jpg_json_lo_v,
    jpg_json_up_v, j_json_v, j_paren_v, png_v, png_json_lo_v, png_json_up_v, p_json_v, p_paren_v,
};

verus! {

// ---------------------------------------------------------------------------
// The rules, as spec functions
// ---------------------------------------------------------------------------

/// Rule 1: the media path itself with `.json` appended.
pub open spec fn base_candidate(p: Seq<u8>) -> Seq<u8> {
    p + json_suf()
}

/// The stem without its final byte; meaningful when the stem ends in `)`.
pub open spec fn stem_pre(p: Seq<u8>) -> Seq<u8> {
    stem_of(p).subrange(0, stem_of(p).len() - 1)
}

pub open spec fn ends_in_paren(p: Seq<u8>) -> bool {
    stem_of(p).len() > 0 && stem_of(p).last() == 41
}

pub open spec fn bracket_opened(p: Seq<u8>) -> bool {
    has_byte(stem_pre(p), 40)
}

/// The bytes between the final `(` and the closing `)` of the stem; the whole
/// pre-`)` stem when no `(` exists.
pub open spec fn bracket_content(p: Seq<u8>) -> Seq<u8> {
    if bracket_opened(p) {
        stem_pre(p).subrange(last_byte_idx(stem_pre(p), 40) + 1, stem_pre(p).len() as int)
    } else {
        stem_pre(p)
    }
}

/// Rule 2 applies: the stem ends in a parenthesized 32-bit number.
pub open spec fn bracket_case(p: Seq<u8>) -> bool {
    ends_in_paren(p) && bracket_opened(p) && parses_u32(bracket_content(p))
}

pub open spec fn bracket_num(p: Seq<u8>) -> int {
    digits_val(digits_part(bracket_content(p)))
}

/// Rule 2's candidate: the counter detached from the stem and re-appended
/// after the extension, `<stem-without-counter>.<ext>(<n>).json`.
pub open spec fn bracket_variant(p: Seq<u8>) -> Seq<u8> {
    join_of(
        parent_of(p),
        stem_of(p).subrange(0, last_byte_idx(stem_pre(p), 40)) + dot_s() + ext_of(p).unwrap()
            + open_paren() + dec_spec(bracket_num(p) as nat) + close_paren() + json_suf(),
    )
}

/// The worklist after rules 1 and 2: the bracket candidate, when it exists,
/// stands first.
pub open spec fn stage_bracket(p: Seq<u8>) -> Seq<Seq<u8>> {
    if bracket_case(p) {
        seq![bracket_variant(p), base_candidate(p)]
    } else {
        seq![base_candidate(p)]
    }
}

// --- rule 3: HEIC sidecars may drop the media extension ---------------------

/// The high-priority variants one candidate contributes for HEIC media: the
/// candidate with its `.heic.json` or `.HEIC.json` tail shortened to `.json`.
pub open spec fn heic_fronts_of(o: Seq<u8>) -> Seq<Seq<u8>> {
    let a: Seq<Seq<u8>> = if ends_with(o, heic_json_lo()) {
        seq![o.subrange(0, o.len() - heic_json_lo().len()) + json_suf()]
    } else {
        Seq::empty()
    };
    let b: Seq<Seq<u8>> = if ends_with(o, heic_json_up()) {
        seq![o.subrange(0, o.len() - heic_json_up().len()) + json_suf()]
    } else {
        Seq::empty()
    };
    a + b
}

pub open spec fn heic_fronts(s: Seq<Seq<u8>>) -> Seq<Seq<u8>>
    decreases s.len(),
{
    if s.len() == 0 {
        Seq::empty()
    } else {
        heic_fronts_of(s[0]) + heic_fronts(s.skip(1))
    }
}

// --- rules 4 and 5: `.j(i)` / `.p(i)` sidecars for jpg and png media --------

/// `(<i>)` as bytes.
pub open spec fn paren_lit(i: nat) -> Seq<u8> {
    open_paren() + dec_spec(i) + close_paren()
}

/// Both case variants of the media tail removed or rewritten.
pub open spec fn strip2(o: Seq<u8>, lo: Seq<u8>, up: Seq<u8>, to: Seq<u8>) -> Seq<u8> {
    replace_seq(replace_seq(o, lo, to), up, to)
}

/// The numbered variant for counter `i`: the tail and the counter's own
/// bytes dropped, then `<mark><i>).json` appended.
pub open spec fn numbered_variant(o: Seq<u8>, i: nat, lo: Seq<u8>, up: Seq<u8>, mark: Seq<u8>)
    -> Seq<u8> {
    let b = strip2(o, lo, up, Seq::empty());
    b.subrange(0, b.len() - dec_spec(i).len() - 2) + mark + dec_spec(i) + close_paren()
        + json_suf()
}

pub open spec fn numbered_list(
    o: Seq<u8>,
    i: nat,
    limit: nat,
    lo: Seq<u8>,
    up: Seq<u8>,
    mark: Seq<u8>,
) -> Seq<Seq<u8>>
    decreases limit - i,
{
    if i >= limit {
        Seq::empty()
    } else {
        let cur: Seq<Seq<u8>> = if has_sub(o, paren_lit(i)) && strip2(
            o,
            lo,
            up,
            Seq::empty(),
        ).len() >= dec_spec(i).len() + 2 {
            seq![numbered_variant(o, i, lo, up, mark)]
        } else {
            Seq::empty()
        };
        cur + numbered_list(o, i + 1, limit, lo, up, mark)
    }
}

/// What one candidate contributes for jpg or png media: its numbered
/// variants, then the candidate with the media tail rewritten to `tail`.
pub open spec fn per_option_num(
    o: Seq<u8>,
    limit: nat,
    lo: Seq<u8>,
    up: Seq<u8>,
    mark: Seq<u8>,
    tail: Seq<u8>,
) -> Seq<Seq<u8>> {
    numbered_list(o, 1, limit, lo, up, mark) + seq![strip2(o, lo, up, tail)]
}

pub open spec fn num_appended(
    s: Seq<Seq<u8>>,
    limit: nat,
    lo: Seq<u8>,
    up: Seq<u8>,
    mark: Seq<u8>,
    tail: Seq<u8>,
) -> Seq<Seq<u8>>
    decreases s.len(),
{
    if s.len() == 0 {
        Seq::empty()
    } else {
        per_option_num(s[0], limit, lo, up, mark, tail) + num_appended(
            s.skip(1),
            limit,
            lo,
            up,
            mark,
            tail,
        )
    }
}

/// The media extension, ASCII lower-cased.
pub open spec fn media_ext_lower(p: Seq<u8>) -> Seq<u8> {
    lower_of(ext_of(p).unwrap())
}

/// The worklist after the extension-specific rules 3 to 5.
pub open spec fn stage_ext(p: Seq<u8>) -> Seq<Seq<u8>> {
    let s = stage_bracket(p);
    if media_ext_lower(p) == heic() {
        heic_fronts(s) + s
    } else if media_ext_lower(p) == jpg() {
        s + num_appended(s, 1000, jpg_json_lo(), jpg_json_up(), j_paren(), j_json())
    } else if media_ext_lower(p) == png() {
        s + num_appended(s, 2000, png_json_lo(), png_json_up(), p_paren(), p_json())
    } else {
        s
    }
}

// --- rule 6: `-edited` removed ----------------------------------------------

pub open spec fn edited_appended(s: Seq<Seq<u8>>) -> Seq<Seq<u8>>
    decreases s.len(),
{
    if s.len() == 0 {
        Seq::empty()
    } else {
        seq![replace_seq(s[0], dash_edited(), Seq::empty())] + edited_appended(s.skip(1))
    }
}

pub open spec fn stage_edited(s: Seq<Seq<u8>>) -> Seq<Seq<u8>> {
    s + edited_appended(s)
}

// --- rule 7: doubled dots normalized ----------------------------------------

pub open spec fn dots_appended(s: Seq<Seq<u8>>) -> Seq<Seq<u8>>
    decreases s.len(),
{
    if s.len() == 0 {
        Seq::empty()
    } else {
        seq![
            replace_seq(s[0], dot_dot_json(), json_suf()),
            replace_seq(s[0], dot_dot(), dot_s()),
        ] + dots_appended(s.skip(1))
    }
}

pub open spec fn stage_dots(s: Seq<Seq<u8>>) -> Seq<Seq<u8>> {
    s + dots_appended(s)
}

// --- rule 8: progressive truncation of the stem -----------------------------

/// The truncated variants of one candidate for cut lengths `k..7`, stopping
/// at a too-short stem or a `)` at the cut position.
pub open spec fn trunc_list(o: Seq<u8>, k: nat) -> Seq<Seq<u8>>
    decreases 7 - k,
{
    if k >= 7 {
        Seq::empty()
    } else if stem_of(o).len() <= k {
        Seq::empty()
    } else if stem_of(o)[stem_of(o).len() - 1 - k] == 41 {
        Seq::empty()
    } else {
        seq![join_of(parent_of(o), stem_of(o).subrange(0, stem_of(o).len() - k) + json_suf())]
            + trunc_list(o, (k + 1) as nat)
    }
}

pub open spec fn trunc_appended(s: Seq<Seq<u8>>) -> Seq<Seq<u8>>
    decreases s.len(),
{
    if s.len() == 0 {
        Seq::empty()
    } else {
        trunc_list(s[0], 0) + trunc_appended(s.skip(1))
    }
}

pub open spec fn stage_trunc(s: Seq<Seq<u8>>) -> Seq<Seq<u8>> {
    s + trunc_appended(s)
}

/// The full candidate list for one media path, in trial order.
pub open spec fn candidates_spec(p: Seq<u8>) -> Seq<Seq<u8>> {
    stage_trunc(stage_dots(stage_edited(stage_ext(p))))
}

// ---------------------------------------------------------------------------
// Executable stages
// ---------------------------------------------------------------------------

/// Rule 3 applied in place: the HEIC variants of every current candidate are
/// inserted ahead of the list.
fn apply_heic(options: &mut Vec<Vec<u8>>)
    ensures
        final(options).deep_view() == heic_fronts(old(options).deep_view())
            + old(options).deep_view(),
{
    let ghost snap = options.deep_view();
    let jsuf = json_suf_v();
    let hlo = heic_json_lo_v();
    let hup = heic_json_up_v();
    let mut front: Vec<Vec<u8>> = Vec::new();
    let mut oi: usize = 0;
    let snap_len = options.len();
    proof {
        assert(snap.skip(0) =~= snap);
        assert(Seq::<Seq<u8>>::empty() + heic_fronts(snap) =~= heic_fronts(snap));
        assert(front.deep_view() =~~= Seq::<Seq<u8>>::empty());
    }
    while oi < snap_len
        invariant
            0 <= oi <= snap_len,
            snap_len == snap.len(),
            options.deep_view() == snap,
            heic_fronts(snap) == front.deep_view() + heic_fronts(snap.skip(oi as int)),
        decreases snap_len - oi,
    {
        proof {
            lemma_dv_index(*options, oi as int);
        }
        let o = copy_bs(&options[oi]);
        let ghost f0 = front.deep_view();
        let ghost rest = snap.skip(oi as int);
        proof {
            assert(rest[0] == snap[oi as int]);
            assert(rest.skip(1) =~= snap.skip(oi + 1));
            assert(heic_fronts(rest) == heic_fronts_of(o@) + heic_fronts(rest.skip(1)));
        }
        if ends_with_bytes(&o, &hlo) {
            let v = concat_bytes(&sub_bytes(&o, 0, o.len() - hlo.len()), &jsuf);
            push_bs(&mut front, v);
        }
        if ends_with_bytes(&o, &hup) {
            let v = concat_bytes(&sub_bytes(&o, 0, o.len() - hup.len()), &jsuf);
            push_bs(&mut front, v);
        }
        proof {
            assert(front.deep_view() =~~= f0 + heic_fronts_of(o@));
            assert(f0 + heic_fronts_of(o@) + heic_fronts(snap.skip(oi + 1))
                =~~= f0 + (heic_fronts_of(o@) + heic_fronts(snap.skip(oi + 1))));
        }
        oi = oi + 1;
    }
    proof {
        assert(snap.skip(snap.len() as int) =~= Seq::<Seq<u8>>::empty());
        assert(front.deep_view() + Seq::<Seq<u8>>::empty() =~~= front.deep_view());
        assert(front.deep_view() == heic_fronts(snap));
    }
    let mut res = front;
    let mut k: usize = 0;
    proof {
        assert(res.deep_view() + snap.subrange(0, 0) =~~= res.deep_view());
    }
    let ghost fronts = res.deep_view();
    while k < snap_len
        invariant
            0 <= k <= snap_len,
            snap_len == snap.len(),
            options.deep_view() == snap,
            res.deep_view() == fronts + snap.subrange(0, k as int),
        decreases snap_len - k,
    {
        proof {
            lemma_dv_index(*options, k as int);
        }
        let o = copy_bs(&options[k]);
        push_bs(&mut res, o);
        k = k + 1;
        proof {
            assert(res.deep_view() =~~= fronts + snap.subrange(0, k as int));
        }
    }
    proof {
        assert(snap.subrange(0, snap.len() as int) =~= snap);
    }
    *options = res;
}

/// Rules 4 and 5 applied in place: for every candidate in the snapshot, the
/// numbered `<mark>(i)` variants for counters below `limit`, then the
/// candidate with its media tail rewritten to `tail`.
fn apply_num(
    options: &mut Vec<Vec<u8>>,
    limit: u32,
    lo: &Vec<u8>,
    up: &Vec<u8>,
    mark: &Vec<u8>,
    tail: &Vec<u8>,
)
    requires
        lo.len() > 0,
        up.len() > 0,
        limit >= 1,
    ensures
        final(options).deep_view() == old(options).deep_view() + num_appended(
            old(options).deep_view(),
            limit as nat,
            lo@,
            up@,
            mark@,
            tail@,
        ),
{
    let ghost snap = options.deep_view();
    let jsuf = json_suf_v();
    let op = open_paren_v();
    let cp = close_paren_v();
    let none_v: Vec<u8> = Vec::new();
    let snap_len = options.len();
    let mut oi: usize = 0;
    let ghost done0: Seq<Seq<u8>> = Seq::empty();
    let mut done: Ghost<Seq<Seq<u8>>> = Ghost(done0);
    proof {
        assert(snap.skip(0) =~= snap);
        assert(options.deep_view() =~~= snap + done0);
        assert(done0 + num_appended(snap, limit as nat, lo@, up@, mark@, tail@)
            =~~= num_appended(snap, limit as nat, lo@, up@, mark@, tail@));
    }
    while oi < snap_len
        invariant
            0 <= oi <= snap_len,
            snap_len == snap.len(),
            lo.len() > 0,
            up.len() > 0,
            limit >= 1,
            options.deep_view() == snap + done@,
            num_appended(snap, limit as nat, lo@, up@, mark@, tail@) == done@ + num_appended(
                snap.skip(oi as int),
                limit as nat,
                lo@,
                up@,
                mark@,
                tail@,
            ),
        decreases snap_len - oi,
    {
        proof {
            lemma_dv_index(*options, oi as int);
            assert((snap + done@)[oi as int] == snap[oi as int]);
        }
        let o = copy_bs(&options[oi]);
        let ghost rest = snap.skip(oi as int);
        proof {
            assert(rest[0] == snap[oi as int]);
            assert(rest.skip(1) =~= snap.skip(oi + 1));
        }
        let ghost dv0 = options.deep_view();
        let ghost idone0: Seq<Seq<u8>> = Seq::empty();
        let mut idone: Ghost<Seq<Seq<u8>>> = Ghost(idone0);
        let mut i: u32 = 1;
        proof {
            assert(options.deep_view() =~~= dv0 + idone0);
            assert(idone0 + numbered_list(o@, 1, limit as nat, lo@, up@, mark@)
                =~~= numbered_list(o@, 1, limit as nat, lo@, up@, mark@));
        }
        while i < limit
            invariant
                1 <= i <= limit,
                lo.len() > 0,
                up.len() > 0,
                options.deep_view() == dv0 + idone@,
                numbered_list(o@, 1, limit as nat, lo@, up@, mark@) == idone@ + numbered_list(
                    o@,
                    i as nat,
                    limit as nat,
                    lo@,
                    up@,
                    mark@,
                ),
            decreases limit - i,
        {
            let dec = u32_to_dec(i);
            let pl = concat_bytes(&concat_bytes(&op, &dec), &cp);
            proof {
                assert(pl@ == paren_lit(i as nat));
            }
            if contains_bytes(&o, &pl) {
                let b = replace_bytes(&replace_bytes(&o, lo, &none_v), up, &none_v);
                proof {
                    assert(b@ == strip2(o@, lo@, up@, Seq::empty()));
                }
                if b.len() >= 2 && b.len() - 2 >= dec.len() {
                    let cutv = sub_bytes(&b, 0, b.len() - 2 - dec.len());
                    let v = concat_bytes(
                        &concat_bytes(&concat_bytes(&concat_bytes(&cutv, mark), &dec), &cp),
                        &jsuf,
                    );
                    proof {
                        assert(v@ == numbered_variant(o@, i as nat, lo@, up@, mark@));
                    }
                    let ghost id0 = idone@;
                    push_bs(options, v);
                    proof {
                        idone@ = id0.push(v@);
                        assert(options.deep_view() =~~= dv0 + idone@);
                        assert(numbered_list(o@, i as nat, limit as nat, lo@, up@, mark@)
                            == seq![numbered_variant(o@, i as nat, lo@, up@, mark@)]
                            + numbered_list(o@, (i + 1) as nat, limit as nat, lo@, up@, mark@));
                        assert(idone@ + numbered_list(o@, (i + 1) as nat, limit as nat, lo@, up@, mark@)
                            =~~= id0 + numbered_list(o@, i as nat, limit as nat, lo@, up@, mark@));
                    }
                } else {
                    proof {
                        assert(numbered_list(o@, i as nat, limit as nat, lo@, up@, mark@)
                            == numbered_list(o@, (i + 1) as nat, limit as nat, lo@, up@, mark@));
                    }
                }
            } else {
                proof {
                    assert(numbered_list(o@, i as nat, limit as nat, lo@, up@, mark@)
                        == numbered_list(o@, (i + 1) as nat, limit as nat, lo@, up@, mark@));
                }
            }
            i = i + 1;
        }
        proof {
            assert(numbered_list(o@, limit as nat, limit as nat, lo@, up@, mark@)
                =~~= Seq::<Seq<u8>>::empty());
            assert(idone@ + Seq::<Seq<u8>>::empty() =~~= idone@);
            assert(idone@ == numbered_list(o@, 1, limit as nat, lo@, up@, mark@));
        }
        let tv = replace_bytes(&replace_bytes(&o, lo, tail), up, tail);
        proof {
            assert(tv@ == strip2(o@, lo@, up@, tail@));
        }
        let ghost d0 = done@;
        push_bs(options, tv);
        proof {
            done@ = d0 + per_option_num(o@, limit as nat, lo@, up@, mark@, tail@);
            assert(options.deep_view()
                =~~= dv0 + idone@.push(tv@));
            assert(dv0 + idone@.push(tv@)
                =~~= (snap + d0) + (idone@ + seq![tv@]));
            assert((snap + d0) + (idone@ + seq![tv@])
                =~~= snap + (d0 + per_option_num(o@, limit as nat, lo@, up@, mark@, tail@)));
            assert(num_appended(rest, limit as nat, lo@, up@, mark@, tail@)
                == per_option_num(o@, limit as nat, lo@, up@, mark@, tail@) + num_appended(
                snap.skip(oi + 1), limit as nat, lo@, up@, mark@, tail@));
            assert(d0 + num_appended(rest, limit as nat, lo@, up@, mark@, tail@)
                =~~= done@ + num_appended(snap.skip(oi + 1), limit as nat, lo@, up@, mark@, tail@));
        }
        oi = oi + 1;
    }
    proof {
        assert(snap.skip(snap.len() as int) =~= Seq::<Seq<u8>>::empty());
        assert(done@ + Seq::<Seq<u8>>::empty() =~~= done@);
    }
}

/// Rule 6 applied in place: every candidate re-added with `-edited` removed.
fn apply_edited(options: &mut Vec<Vec<u8>>)
    ensures
        final(options).deep_view() == old(options).deep_view() + edited_appended(
            old(options).deep_view(),
        ),
{
    let ghost snap = options.deep_view();
    let ed = dash_edited_v();
    let none_v: Vec<u8> = Vec::new();
    let snap_len = options.len();
    let mut oi: usize = 0;
    let ghost done0: Seq<Seq<u8>> = Seq::empty();
    let mut done: Ghost<Seq<Seq<u8>>> = Ghost(done0);
    proof {
        assert(snap.skip(0) =~= snap);
        assert(options.deep_view() =~~= snap + done0);
        assert(done0 + edited_appended(snap) =~~= edited_appended(snap));
    }
    while oi < snap_len
        invariant
            0 <= oi <= snap_len,
            snap_len == snap.len(),
            options.deep_view() == snap + done@,
            edited_appended(snap) == done@ + edited_appended(snap.skip(oi as int)),
        decreases snap_len - oi,
    {
        proof {
            lemma_dv_index(*options, oi as int);
            assert((snap + done@)[oi as int] == snap[oi as int]);
        }
        let o = copy_bs(&options[oi]);
        let ghost rest = snap.skip(oi as int);
        proof {
            assert(rest[0] == snap[oi as int]);
            assert(rest.skip(1) =~= snap.skip(oi + 1));
        }
        let v = replace_bytes(&o, &ed, &none_v);
        let ghost d0 = done@;
        push_bs(options, v);
        proof {
            done@ = d0.push(v@);
            assert(options.deep_view() =~~= snap + done@);
            assert(edited_appended(rest) == seq![replace_seq(o@, dash_edited(), Seq::empty())]
                + edited_appended(snap.skip(oi + 1)));
            assert(d0 + edited_appended(rest) =~~= done@ + edited_appended(snap.skip(oi + 1)));
        }
        oi = oi + 1;
    }
    proof {
        assert(snap.skip(snap.len() as int) =~= Seq::<Seq<u8>>::empty());
        assert(done@ + Seq::<Seq<u8>>::empty() =~~= done@);
    }
}

/// Rule 7 applied in place: every candidate re-added with `..json`
/// normalized to `.json` and with `..` collapsed to `.`.
fn apply_dots(options: &mut Vec<Vec<u8>>)
    ensures
        final(options).deep_view() == old(options).deep_view() + dots_appended(
            old(options).deep_view(),
        ),
{
    let ghost snap = options.deep_view();
    let ddj = dot_dot_json_v();
    let jsuf = json_suf_v();
    let dd = dot_dot_v();
    let d1 = dot_s_v();
    let snap_len = options.len();
    let mut oi: usize = 0;
    let ghost done0: Seq<Seq<u8>> = Seq::empty();
    let mut done: Ghost<Seq<Seq<u8>>> = Ghost(done0);
    proof {
        assert(snap.skip(0) =~= snap);
        assert(options.deep_view() =~~= snap + done0);
        assert(done0 + dots_appended(snap) =~~= dots_appended(snap));
    }
    while oi < snap_len
        invariant
            0 <= oi <= snap_len,
            snap_len == snap.len(),
            options.deep_view() == snap + done@,
            dots_appended(snap) == done@ + dots_appended(snap.skip(oi as int)),
        decreases snap_len - oi,
    {
        proof {
            lemma_dv_index(*options, oi as int);
            assert((snap + done@)[oi as int] == snap[oi as int]);
        }
        let o = copy_bs(&options[oi]);
        let ghost rest = snap.skip(oi as int);
        proof {
            assert(rest[0] == snap[oi as int]);
            assert(rest.skip(1) =~= snap.skip(oi + 1));
        }
        let v1 = replace_bytes(&o, &ddj, &jsuf);
        let v2 = replace_bytes(&o, &dd, &d1);
        let ghost d0 = done@;
        push_bs(options, v1);
        push_bs(options, v2);
        proof {
            done@ = d0 + seq![v1@, v2@];
            assert(options.deep_view() =~~= snap + done@);
            assert(dots_appended(rest) == seq![
                replace_seq(o@, dot_dot_json(), json_suf()),
                replace_seq(o@, dot_dot(), dot_s()),
            ] + dots_appended(snap.skip(oi + 1)));
            assert(d0 + dots_appended(rest) =~~= done@ + dots_appended(snap.skip(oi + 1)));
        }
        oi = oi + 1;
    }
    proof {
        assert(snap.skip(snap.len() as int) =~= Seq::<Seq<u8>>::empty());
        assert(done@ + Seq::<Seq<u8>>::empty() =~~= done@);
    }
}

/// Rule 8 applied in place: progressive truncation of every candidate's stem.
fn apply_trunc(options: &mut Vec<Vec<u8>>)
    ensures
        final(options).deep_view() == old(options).deep_view() + trunc_appended(
            old(options).deep_view(),
        ),
{
    let ghost snap = options.deep_view();
    let jsuf = json_suf_v();
    let snap_len = options.len();
    let mut oi: usize = 0;
    let ghost done0: Seq<Seq<u8>> = Seq::empty();
    let mut done: Ghost<Seq<Seq<u8>>> = Ghost(done0);
    proof {
        assert(snap.skip(0) =~= snap);
        assert(options.deep_view() =~~= snap + done0);
        assert(done0 + trunc_appended(snap) =~~= trunc_appended(snap));
    }
    while oi < snap_len
        invariant
            0 <= oi <= snap_len,
            snap_len == snap.len(),
            options.deep_view() == snap + done@,
            trunc_appended(snap) == done@ + trunc_appended(snap.skip(oi as int)),
        decreases snap_len - oi,
    {
        proof {
            lemma_dv_index(*options, oi as int);
            assert((snap + done@)[oi as int] == snap[oi as int]);
        }
        let o = copy_bs(&options[oi]);
        let ghost rest = snap.skip(oi as int);
        proof {
            assert(rest[0] == snap[oi as int]);
            assert(rest.skip(1) =~= snap.skip(oi + 1));
        }
        let st = stem_bytes(&o);
        let par = parent_bytes(&o);
        let ghost dv0 = options.deep_view();
        let ghost idone0: Seq<Seq<u8>> = Seq::empty();
        let mut idone: Ghost<Seq<Seq<u8>>> = Ghost(idone0);
        let mut go = true;
        let mut k: usize = 0;
        proof {
            assert(options.deep_view() =~~= dv0 + idone0);
            assert(idone0 + trunc_list(o@, 0) =~~= trunc_list(o@, 0));
        }
        while go && k < 7
            invariant
                0 <= k <= 7,
                st@ == stem_of(o@),
                par@ == parent_of(o@),
                options.deep_view() == dv0 + idone@,
                go ==> trunc_list(o@, 0) == idone@ + trunc_list(o@, k as nat),
                !go ==> idone@ == trunc_list(o@, 0),
            decreases 7 - k, (if go { 1int } else { 0int }),
    	{
            if st.len() <= k {
                proof {
                    assert(trunc_list(o@, k as nat) =~~= Seq::<Seq<u8>>::empty());
                    assert(idone@ + Seq::<Seq<u8>>::empty() =~~= idone@);
                }
                go = false;
            } else if st[st.len() - 1 - k] == 41 {
                proof {
                    assert(trunc_list(o@, k as nat) =~~= Seq::<Seq<u8>>::empty());
                    assert(idone@ + Seq::<Seq<u8>>::empty() =~~= idone@);
                }
                go = false;
            } else {
                let v = join_bytes(&par, &concat_bytes(&sub_bytes(&st, 0, st.len() - k), &jsuf));
                proof {
                    assert(trunc_list(o@, k as nat) == seq![
                        join_of(parent_of(o@), stem_of(o@).subrange(0, stem_of(o@).len() - k)
                            + json_suf()),
                    ] + trunc_list(o@, (k + 1) as nat));
                    assert(v@ == join_of(parent_of(o@), stem_of(o@).subrange(
                        0, stem_of(o@).len() - k) + json_suf()));
                }
                let ghost id0 = idone@;
                push_bs(options, v);
                proof {
                    idone@ = id0.push(v@);
                    assert(options.deep_view() =~~= dv0 + idone@);
                    assert(id0 + trunc_list(o@, k as nat)
                        =~~= idone@ + trunc_list(o@, (k + 1) as nat));
                }
                k = k + 1;
            }
        }
        proof {
            if go {
                assert(trunc_list(o@, 7) =~~= Seq::<Seq<u8>>::empty());
                assert(idone@ + Seq::<Seq<u8>>::empty() =~~= idone@);
            }
            assert(idone@ == trunc_list(o@, 0));
        }
        let ghost d0 = done@;
        proof {
            done@ = d0 + trunc_list(o@, 0);
            assert(options.deep_view() =~~= snap + done@);
            assert(trunc_appended(rest) == trunc_list(o@, 0) + trunc_appended(snap.skip(oi + 1)));
            assert(d0 + trunc_appended(rest) =~~= done@ + trunc_appended(snap.skip(oi + 1)));
        }
        oi = oi + 1;
    }
    proof {
        assert(snap.skip(snap.len() as int) =~= Seq::<Seq<u8>>::empty());
        assert(done@ + Seq::<Seq<u8>>::empty() =~~= done@);
    }
}

/// Candidate sidecar paths for one media path, highest priority first.  Pure
/// string work: no filesystem access, and it never fails.
pub fn json_path_from_media_path(media_path: &Vec<u8>) -> (r: Vec<Vec<u8>>)
    requires
        has_extension(media_path@),
    ensures
        r.deep_view() == candidates_spec(media_path@),
{
    let ghost p = media_path@;
    let mut options: Vec<Vec<u8>> = Vec::new();
    let jsuf = json_suf_v();
    let base = concat_bytes(media_path, &jsuf);
    let stem = stem_bytes(media_path);
    if stem.len() > 0 && stem[stem.len() - 1] == 41 {
        let pre = sub_bytes(&stem, 0, stem.len() - 1);
        proof {
            assert(pre@ =~= stem_pre(p));
        }
        match find_last_byte(&pre, 40) {
            Some(kk) => {
                proof {
                    assert(is_last_idx(pre@, 40, kk as int));
                }
                let content = sub_bytes(&pre, kk + 1, pre.len());
                proof {
                    assert(content@ =~= bracket_content(p));
                }
                match parse_u32_bytes(&content) {
                    Some(num) => {
                        let ext = ext_bytes(media_path).unwrap();
                        let parent = parent_bytes(media_path);
                        let dec = u32_to_dec(num);
                        let cutv = sub_bytes(&stem, 0, kk);
                        let name = concat_bytes(
                            &concat_bytes(
                                &concat_bytes(
                                    &concat_bytes(
                                        &concat_bytes(&concat_bytes(&cutv, &dot_s_v()), &ext),
                                        &open_paren_v(),
                                    ),
                                    &dec,
                                ),
                                &close_paren_v(),
                            ),
                            &jsuf,
                        );
                        let bv = join_bytes(&parent, &name);
                        let ghost g = bv@;
                        push_bs(&mut options, bv);
                        proof {
                            crate::numbers::lemma_digits_val_nonneg(
                                digits_part(bracket_content(p)),
                            );
                            assert(bracket_case(p));
                            assert(cutv@ =~= stem_of(p).subrange(
                                0, last_byte_idx(stem_pre(p), 40)));
                            assert(g == bracket_variant(p));
                            assert(options.deep_view() =~~= seq![bracket_variant(p)]);
                        }
                    }
                    None => {
                        proof {
                            assert(!bracket_case(p));
                        }
                    }
                }
            }
            None => {
                proof {
                    assert(!bracket_opened(p));
                    assert(!bracket_case(p));
                }
            }
        }
    } else {
        proof {
            assert(!ends_in_paren(p));
            assert(!bracket_case(p));
        }
    }
    proof {
        if bracket_case(p) {
            assert(options.deep_view() == seq![bracket_variant(p)]);
        } else {
            assert(options.deep_view() =~~= Seq::<Seq<u8>>::empty());
        }
    }
    push_bs(&mut options, base);
    proof {
        if bracket_case(p) {
            assert(options.deep_view() =~~= stage_bracket(p));
        } else {
            assert(options.deep_view() =~~= stage_bracket(p));
        }
    }
    let ext2 = ext_bytes(media_path).unwrap();
    let ext_low = lower_bytes(&ext2);
    proof {
        assert(ext_low@ == media_ext_lower(p));
    }
    if bytes_eq(&ext_low, &heic_v()) {
        apply_heic(&mut options);
    } else if bytes_eq(&ext_low, &jpg_v()) {
        apply_num(&mut options, 1000, &jpg_json_lo_v(), &jpg_json_up_v(), &j_paren_v(),
            &j_json_v());
    } else if bytes_eq(&ext_low, &png_v()) {
        apply_num(&mut options, 2000, &png_json_lo_v(), &png_json_up_v(), &p_paren_v(),
            &p_json_v());
    }
    proof {
        assert(options.deep_view() == stage_ext(p));
    }
    apply_edited(&mut options);
    apply_dots(&mut options);
    apply_trunc(&mut options);
    options
}

} // verus!
