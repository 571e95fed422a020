//! Destination classification: the category from the parent directory name,
//! the destination path beneath the category root, and extension correction
//! from a type sniffer's free-text description.

use vstd::prelude::*;
use crate::bytes::{has_sub, contains_bytes, bytes_eq, sub_bytes, concat_bytes};
use crate::paths::{
    file_name_of, parent_of, stem_of, ext_of, join_of, lower_of, starts_with, has_extension,
    file_name_bytes, parent_bytes, stem_bytes, ext_bytes, join_bytes, lower_bytes,
    starts_with_bytes,
};
use crate::numbers::is_digit;
use crate::model::DestLocation;
use crate::lits::{
    archive, photos_from, untitled, untitled_paren, general_seg, albums_seg, shared_seg, mts,
    dot_s, png, jpg, heic, mp4_lo, e_gif, e_mp3, e_mov, e_3gp, e_tiff, e_bmp, e_m4v, e_webp,
    e_asf, e_mpeg, e_avi, e_cr2, d_png_image, d_jpg_image, d_jpeg_image, d_gif_image,
    d_heic_image, d_heif_hevc, d_mp3_audio, d_quicktime, d_mp4_video, d_iso_mp4_v,
    d_iso_mp4_base, d_iso_mpeg4, d_iso_mpeg_v, d_mov_video, d_3gp_video, d_tiff_image,
    d_pc_bitmap, d_itunes_m4v, d_webp_image, d_ms_asf, d_mpeg_seq, d_avi, d_canon_cr2, d_data,
    d_ascii_text, d_canon_ciff, archive_v, photos_from_v, untitled_v, untitled_paren_v,
    general_seg_v, albums_seg_v, shared_seg_v, mts_v, dot_s_v, png_v, jpg_v, heic_v, mp4_lo_v,
    e_gif_v, e_mp3_v, e_mov_v, e_3gp_v, e_tiff_v, e_bmp_v, e_m4v_v, e_webp_v, e_asf_v, e_mpeg_v,
    e_avi_v, e_cr2_v, d_png_image_v, d_jpg_image_v, d_jpeg_image_v, d_gif_image_v,
    d_heic_image_v, d_heif_hevc_v, d_mp3_audio_v, d_quicktime_v, d_mp4_video_v, d_iso_mp4_v_v,
    d_iso_mp4_base_v, d_iso_mpeg4_v, d_iso_mpeg_v_v, d_mov_video_v, d_3gp_video_v,
    d_tiff_image_v, d_pc_bitmap_v, d_itunes_m4v_v, d_webp_image_v, d_ms_asf_v, d_mpeg_seq_v,
    d_avi_v, d_canon_cr2_v, d_data_v, d_ascii_text_v, d_canon_ciff_v,
};

verus! {

// ---------------------------------------------------------------------------
// Whitespace trimming
// ---------------------------------------------------------------------------

pub open spec fn is_ws(b: u8) -> bool {
    b == 9 || b == 10 || b == 11 || b == 12 || b == 13 || b == 32
}

pub open spec fn trim_start(s: Seq<u8>) -> Seq<u8>
    decreases s.len(),
{
    if s.len() > 0 && is_ws(s[0]) {
        trim_start(s.skip(1))
    } else {
        s
    }
}

pub open spec fn trim_end(s: Seq<u8>) -> Seq<u8>
    decreases s.len(),
{
    if s.len() > 0 && is_ws(s[s.len() - 1]) {
        trim_end(s.drop_last())
    } else {
        s
    }
}

/// `s` with leading and trailing ASCII whitespace removed.
pub open spec fn trim_of(s: Seq<u8>) -> Seq<u8> {
    trim_end(trim_start(s))
}

pub fn trim_bytes(s: &Vec<u8>) -> (r: Vec<u8>)
    ensures
        r@ == trim_of(s@),
{
    let mut a: usize = 0;
    proof {
        assert(s@.skip(0) =~= s@);
    }
    while a < s.len() && (s[a] == 9 || s[a] == 10 || s[a] == 11 || s[a] == 12 || s[a] == 13
        || s[a] == 32)
        invariant
            0 <= a <= s.len(),
            trim_start(s@) == trim_start(s@.skip(a as int)),
        decreases s.len() - a,
    {
        proof {
            assert(s@.skip(a as int)[0] == s@[a as int]);
            assert(s@.skip(a as int).skip(1) =~= s@.skip(a + 1));
        }
        a = a + 1;
    }
    proof {
        if a < s.len() {
            assert(trim_start(s@.skip(a as int)) == s@.skip(a as int));
        } else {
            assert(s@.skip(a as int) =~= Seq::<u8>::empty());
            assert(trim_start(s@.skip(a as int)) == s@.skip(a as int));
        }
    }
    let ghost t = s@.skip(a as int);
    let mut b: usize = s.len();
    proof {
        assert(t.subrange(0, b - a) =~= t);
    }
    while b > a && (s[b - 1] == 9 || s[b - 1] == 10 || s[b - 1] == 11 || s[b - 1] == 12
        || s[b - 1] == 13 || s[b - 1] == 32)
        invariant
            a <= b <= s.len(),
            t == s@.skip(a as int),
            trim_end(t) == trim_end(t.subrange(0, b - a)),
        decreases b,
    {
        proof {
            let cur = t.subrange(0, b - a);
            assert(cur[cur.len() - 1] == s@[b - 1]);
            assert(cur.drop_last() =~= t.subrange(0, b - 1 - a));
        }
        b = b - 1;
    }
    proof {
        let cur = t.subrange(0, b - a);
        if b > a {
            assert(cur[cur.len() - 1] == s@[b - 1]);
            assert(trim_end(cur) == cur);
        } else {
            assert(cur =~= Seq::<u8>::empty());
            assert(trim_end(cur) == cur);
        }
    }
    let r = sub_bytes(s, a, b);
    proof {
        assert(r@ =~= t.subrange(0, b - a));
    }
    r
}

// ---------------------------------------------------------------------------
// Category from the parent directory name
// ---------------------------------------------------------------------------

/// The parent directory is a year folder: `Photos from YYYY`, exactly four
/// trailing digits.
pub open spec fn photos_from_year(n: Seq<u8>) -> bool {
    n.len() == 16 && starts_with(n, photos_from()) && (forall|i: int|
        12 <= i < 16 ==> is_digit(n[i]))
}

/// Category of a file by its immediate parent directory name.
pub open spec fn dir_category(n: Seq<u8>) -> DestLocation {
    if n == archive() {
        DestLocation::General
    } else if photos_from_year(n) {
        DestLocation::General
    } else if n == untitled() || starts_with(n, untitled_paren()) {
        DestLocation::Shared
    } else {
        DestLocation::Albums
    }
}

pub fn categorize_dir(n: &Vec<u8>) -> (c: DestLocation)
    ensures
        c == dir_category(n@),
{
    if bytes_eq(n, &archive_v()) {
        return DestLocation::General;
    }
    if n.len() == 16 && starts_with_bytes(n, &photos_from_v()) {
        let mut i: usize = 12;
        let mut all = true;
        while i < 16
            invariant
                12 <= i <= 16,
                n@.len() == 16,
                all == (forall|k: int| 12 <= k < i ==> is_digit(n@[k])),
            decreases 16 - i,
        {
            let b = n[i];
            if b < 48 || b > 57 {
                all = false;
                i = 16;
            } else {
                i = i + 1;
            }
        }
        if all {
            return DestLocation::General;
        }
    }
    proof {
        assert(!(n@ == archive()) && !photos_from_year(n@));
    }
    if bytes_eq(n, &untitled_v()) || starts_with_bytes(n, &untitled_paren_v()) {
        return DestLocation::Shared;
    }
    DestLocation::Albums
}

/// The destination path before extension correction: the category root under
/// the output directory, an album segment for album files, and the original
/// file name.
pub open spec fn dest_base(out: Seq<u8>, p: Seq<u8>) -> Seq<u8> {
    let n = file_name_of(parent_of(p));
    let name = file_name_of(p);
    match dir_category(n) {
        DestLocation::General => join_of(out + general_seg(), name),
        DestLocation::Shared => join_of(out + shared_seg(), name),
        DestLocation::Albums => join_of(join_of(out + albums_seg(), n), name),
    }
}

pub fn dest_base_bytes(out: &Vec<u8>, p: &Vec<u8>) -> (r: (Vec<u8>, DestLocation))
    ensures
        r.0@ == dest_base(out@, p@),
        r.1 == dir_category(file_name_of(parent_of(p@))),
{
    let parent = parent_bytes(p);
    let n = file_name_bytes(&parent);
    let name = file_name_bytes(p);
    let c = categorize_dir(&n);
    match c {
        DestLocation::General => (join_bytes(&concat_bytes(out, &general_seg_v()), &name), c),
        DestLocation::Shared => (join_bytes(&concat_bytes(out, &shared_seg_v()), &name), c),
        DestLocation::Albums => (
            join_bytes(&join_bytes(&concat_bytes(out, &albums_seg_v()), &n), &name),
            c,
        ),
    }
}

// ---------------------------------------------------------------------------
// Extension from the sniffer's description
// ---------------------------------------------------------------------------

/// What the description implies: `Some(Some(e))` rewrites the extension to
/// `e`, `Some(None)` keeps the original extension, `None` is unrecognized.
#[verifier::opaque]
pub open spec fn desc_action(d: Seq<u8>) -> Option<Option<Seq<u8>>> {
    let f = lower_of(d);
    if has_sub(f, d_png_image()) {
        Some(Some(png()))
    } else if has_sub(f, d_jpg_image()) || has_sub(f, d_jpeg_image()) {
        Some(Some(jpg()))
    } else if has_sub(f, d_gif_image()) {
        Some(Some(e_gif()))
    } else if has_sub(f, d_heic_image()) || has_sub(f, d_heif_hevc()) {
        Some(Some(heic()))
    } else if has_sub(f, d_mp3_audio()) {
        Some(Some(e_mp3()))
    } else if has_sub(f, d_quicktime()) {
        Some(Some(e_mov()))
    } else if has_sub(f, d_mp4_video()) || has_sub(f, d_iso_mp4_v()) || has_sub(
        f,
        d_iso_mp4_base(),
    ) || has_sub(f, d_iso_mpeg4()) || has_sub(f, d_iso_mpeg_v()) {
        Some(Some(mp4_lo()))
    } else if has_sub(f, d_mov_video()) {
        Some(Some(e_mov()))
    } else if has_sub(f, d_3gp_video()) {
        Some(Some(e_3gp()))
    } else if has_sub(f, d_tiff_image()) {
        Some(Some(e_tiff()))
    } else if has_sub(f, d_pc_bitmap()) {
        Some(Some(e_bmp()))
    } else if has_sub(f, d_itunes_m4v()) {
        Some(Some(e_m4v()))
    } else if has_sub(f, d_webp_image()) {
        Some(Some(e_webp()))
    } else if has_sub(f, d_ms_asf()) {
        Some(Some(e_asf()))
    } else if has_sub(f, d_mpeg_seq()) {
        Some(Some(e_mpeg()))
    } else if has_sub(f, d_avi()) {
        Some(Some(e_avi()))
    } else if has_sub(f, d_canon_cr2()) {
        Some(Some(e_cr2()))
    } else if trim_of(f) == d_data() || has_sub(f, d_ascii_text()) || has_sub(
        f,
        d_canon_ciff(),
    ) {
        Some(None)
    } else {
        None
    }
}

/// What to do with a destination path's extension.
pub enum ExtAction {
    Rewrite(Vec<u8>),
    Retain,
    Unknown,
}

pub fn desc_ext_action(desc: &Vec<u8>) -> (r: ExtAction)
    ensures
        match r {
            ExtAction::Rewrite(e) => desc_action(desc@) == Some(Some(e@)),
            ExtAction::Retain => desc_action(desc@) == Some(None::<Seq<u8>>),
            ExtAction::Unknown => desc_action(desc@) is None,
        },
{
    proof {
        reveal(desc_action);
    }
    let f = lower_bytes(desc);
    if contains_bytes(&f, &d_png_image_v()) {
        return ExtAction::Rewrite(png_v());
    }
    if contains_bytes(&f, &d_jpg_image_v()) || contains_bytes(&f, &d_jpeg_image_v()) {
        return ExtAction::Rewrite(jpg_v());
    }
    if contains_bytes(&f, &d_gif_image_v()) {
        return ExtAction::Rewrite(e_gif_v());
    }
    if contains_bytes(&f, &d_heic_image_v()) || contains_bytes(&f, &d_heif_hevc_v()) {
        return ExtAction::Rewrite(heic_v());
    }
    if contains_bytes(&f, &d_mp3_audio_v()) {
        return ExtAction::Rewrite(e_mp3_v());
    }
    if contains_bytes(&f, &d_quicktime_v()) {
        return ExtAction::Rewrite(e_mov_v());
    }
    if contains_bytes(&f, &d_mp4_video_v()) || contains_bytes(&f, &d_iso_mp4_v_v())
        || contains_bytes(&f, &d_iso_mp4_base_v()) || contains_bytes(&f, &d_iso_mpeg4_v())
        || contains_bytes(&f, &d_iso_mpeg_v_v()) {
        return ExtAction::Rewrite(mp4_lo_v());
    }
    if contains_bytes(&f, &d_mov_video_v()) {
        return ExtAction::Rewrite(e_mov_v());
    }
    if contains_bytes(&f, &d_3gp_video_v()) {
        return ExtAction::Rewrite(e_3gp_v());
    }
    if contains_bytes(&f, &d_tiff_image_v()) {
        return ExtAction::Rewrite(e_tiff_v());
    }
    if contains_bytes(&f, &d_pc_bitmap_v()) {
        return ExtAction::Rewrite(e_bmp_v());
    }
    if contains_bytes(&f, &d_itunes_m4v_v()) {
        return ExtAction::Rewrite(e_m4v_v());
    }
    if contains_bytes(&f, &d_webp_image_v()) {
        return ExtAction::Rewrite(e_webp_v());
    }
    if contains_bytes(&f, &d_ms_asf_v()) {
        return ExtAction::Rewrite(e_asf_v());
    }
    if contains_bytes(&f, &d_mpeg_seq_v()) {
        return ExtAction::Rewrite(e_mpeg_v());
    }
    if contains_bytes(&f, &d_avi_v()) {
        return ExtAction::Rewrite(e_avi_v());
    }
    if contains_bytes(&f, &d_canon_cr2_v()) {
        return ExtAction::Rewrite(e_cr2_v());
    }
    let trimmed = trim_bytes(&f);
    if bytes_eq(&trimmed, &d_data_v()) || contains_bytes(&f, &d_ascii_text_v())
        || contains_bytes(&f, &d_canon_ciff_v()) {
        return ExtAction::Retain;
    }
    ExtAction::Unknown
}

// ---------------------------------------------------------------------------
// Extension rewriting and the per-file classification decision
// ---------------------------------------------------------------------------

/// `p` with its extension replaced by (or, when it has none, extended with)
/// `e`.
pub open spec fn with_ext(p: Seq<u8>, e: Seq<u8>) -> Seq<u8> {
    join_of(parent_of(p), stem_of(p) + dot_s() + e)
}

pub fn set_ext_bytes(p: &Vec<u8>, e: &Vec<u8>) -> (r: Vec<u8>)
    ensures
        r@ == with_ext(p@, e@),
{
    let parent = parent_bytes(p);
    let st = stem_bytes(p);
    join_bytes(&parent, &concat_bytes(&concat_bytes(&st, &dot_s_v()), e))
}

/// The classification outcome for one file: its final destination path and
/// category, or `None` for an unrecognized type description.
pub open spec fn classify_one(out: Seq<u8>, path: Seq<u8>, desc: Seq<u8>) -> Option<
    (Seq<u8>, DestLocation),
> {
    let c = dir_category(file_name_of(parent_of(path)));
    let d0 = dest_base(out, path);
    if ext_of(d0) == Some(mts()) {
        Some((d0, c))
    } else {
        match desc_action(desc) {
            Option::None => None,
            Option::Some(Option::None) => Some((with_ext(d0, ext_of(d0).unwrap()), c)),
            Option::Some(Option::Some(e)) => Some((with_ext(d0, e), c)),
        }
    }
}

/// Whether extension correction of one file counts as a mismatch.
pub open spec fn mismatch_one(out: Seq<u8>, path: Seq<u8>, desc: Seq<u8>) -> int {
    let d0 = dest_base(out, path);
    if ext_of(d0) == Some(mts()) {
        0
    } else {
        match desc_action(desc) {
            Option::None => 0,
            Option::Some(opt) => {
                let e = if opt is Some {
                    opt.unwrap()
                } else {
                    ext_of(d0).unwrap()
                };
                if ext_of(d0) is None || lower_of(ext_of(d0).unwrap()) != e {
                    1
                } else {
                    0
                }
            },
        }
    }
}

/// The retain-the-extension case presumes the destination name has one; the
/// pipeline treats its absence there as a structural fault.
pub open spec fn retain_ok(out: Seq<u8>, path: Seq<u8>, desc: Seq<u8>) -> bool {
    let d0 = dest_base(out, path);
    (ext_of(d0) != Some(mts()) && desc_action(desc) == Some(None::<Seq<u8>>)) ==> has_extension(
        d0,
    )
}

/// An unrecognized type-sniffer description, fatal to the run.
#[derive(Debug)]
pub struct UnknownTypeError {
    pub media_path: Vec<u8>,
    pub description: Vec<u8>,
}

/// Classify one file: destination path with corrected extension, category,
/// and whether the correction was a mismatch.
pub fn classify_file(out: &Vec<u8>, path: &Vec<u8>, desc: &Vec<u8>) -> (r: Result<
    (Vec<u8>, DestLocation, bool),
    (),
>)
    requires
        retain_ok(out@, path@, desc@),
    ensures
        match r {
            Ok((d, c, mm)) => classify_one(out@, path@, desc@) == Some((d@, c))
                && (if mm { 1int } else { 0int }) == mismatch_one(out@, path@, desc@),
            Err(()) => classify_one(out@, path@, desc@) is None,
        },
{
    let (d0, c) = dest_base_bytes(out, path);
    let d0_ext = ext_bytes(&d0);
    let is_mts = match &d0_ext {
        Some(e) => bytes_eq(e, &mts_v()),
        None => false,
    };
    if is_mts {
        return Ok((d0, c, false));
    }
    match desc_ext_action(desc) {
        ExtAction::Unknown => Err(()),
        ExtAction::Retain => {
            let e = match d0_ext {
                Some(e) => e,
                None => {
                    proof {
                        assert(false);
                    }
                    Vec::new()
                },
            };
            let mm = {
                let low = lower_bytes(&e);
                !bytes_eq(&low, &e)
            };
            let d = set_ext_bytes(&d0, &e);
            Ok((d, c, mm))
        },
        ExtAction::Rewrite(e) => {
            let mm = match &d0_ext {
                Some(orig) => {
                    let low = lower_bytes(orig);
                    !bytes_eq(&low, &e)
                },
                None => true,
            };
            let d = set_ext_bytes(&d0, &e);
            Ok((d, c, mm))
        },
    }
}

} // verus!
