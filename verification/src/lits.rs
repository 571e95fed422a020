//! The fixed byte strings of the naming rules, the classifier table and the
//! tier heuristics, each as a spec sequence with its executable builder.

use vstd::prelude::*;

verus! {

/// `".json"`
pub open spec fn json_suf() -> Seq<u8> {
    seq![46u8, 106u8, 115u8, 111u8, 110u8]
}

pub fn json_suf_v() -> (r: Vec<u8>)
    ensures
        r@ == json_suf(),
{
    let r: Vec<u8> = vec![46u8, 106u8, 115u8, 111u8, 110u8];
    proof {
        assert(r@ =~= json_suf());
    }
    r
}

/// `"("`
pub open spec fn open_paren() -> Seq<u8> {
    seq![40u8]
}

pub fn open_paren_v() -> (r: Vec<u8>)
    ensures
        r@ == open_paren(),
{
    let r: Vec<u8> = vec![40u8];
    proof {
        assert(r@ =~= open_paren());
    }
    r
}

/// `")"`
pub open spec fn close_paren() -> Seq<u8> {
    seq![41u8]
}

pub fn close_paren_v() -> (r: Vec<u8>)
    ensures
        r@ == close_paren(),
{
    let r: Vec<u8> = vec![41u8];
    proof {
        assert(r@ =~= close_paren());
    }
    r
}

/// `"."`
pub open spec fn dot_s() -> Seq<u8> {
    seq![46u8]
}

pub fn dot_s_v() -> (r: Vec<u8>)
    ensures
        r@ == dot_s(),
{
    let r: Vec<u8> = vec![46u8];
    proof {
        assert(r@ =~= dot_s());
    }
    r
}

/// `".."`
pub open spec fn dot_dot() -> Seq<u8> {
    seq![46u8, 46u8]
}

pub fn dot_dot_v() -> (r: Vec<u8>)
    ensures
        r@ == dot_dot(),
{
    let r: Vec<u8> = vec![46u8, 46u8];
    proof {
        assert(r@ =~= dot_dot());
    }
    r
}

/// `"..json"`
pub open spec fn dot_dot_json() -> Seq<u8> {
    seq![46u8, 46u8, 106u8, 115u8, 111u8, 110u8]
}

pub fn dot_dot_json_v() -> (r: Vec<u8>)
    ensures
        r@ == dot_dot_json(),
{
    let r: Vec<u8> = vec![46u8, 46u8, 106u8, 115u8, 111u8, 110u8];
    proof {
        assert(r@ =~= dot_dot_json());
    }
    r
}

/// `"-edited"`
pub open spec fn dash_edited() -> Seq<u8> {
    seq![45u8, 101u8, 100u8, 105u8, 116u8, 101u8, 100u8]
}

pub fn dash_edited_v() -> (r: Vec<u8>)
    ensures
        r@ == dash_edited(),
{
    let r: Vec<u8> = vec![45u8, 101u8, 100u8, 105u8, 116u8, 101u8, 100u8];
    proof {
        assert(r@ =~= dash_edited());
    }
    r
}

/// `"heic"`
pub open spec fn heic() -> Seq<u8> {
    seq![104u8, 101u8, 105u8, 99u8]
}

pub fn heic_v() -> (r: Vec<u8>)
    ensures
        r@ == heic(),
{
    let r: Vec<u8> = vec![104u8, 101u8, 105u8, 99u8];
    proof {
        assert(r@ =~= heic());
    }
    r
}

/// `".heic.json"`
pub open spec fn heic_json_lo() -> Seq<u8> {
    seq![46u8, 104u8, 101u8, 105u8, 99u8, 46u8, 106u8, 115u8, 111u8, 110u8]
}

pub fn heic_json_lo_v() -> (r: Vec<u8>)
    ensures
        r@ == heic_json_lo(),
{
    let r: Vec<u8> = vec![46u8, 104u8, 101u8, 105u8, 99u8, 46u8, 106u8, 115u8, 111u8, 110u8];
    proof {
        assert(r@ =~= heic_json_lo());
    }
    r
}

/// `".HEIC.json"`
pub open spec fn heic_json_up() -> Seq<u8> {
    seq![46u8, 72u8, 69u8, 73u8, 67u8, 46u8, 106u8, 115u8, 111u8, 110u8]
}

pub fn heic_json_up_v() -> (r: Vec<u8>)
    ensures
        r@ == heic_json_up(),
{
    let r: Vec<u8> = vec![46u8, 72u8, 69u8, 73u8, 67u8, 46u8, 106u8, 115u8, 111u8, 110u8];
    proof {
        assert(r@ =~= heic_json_up());
    }
    r
}

/// `"jpg"`
pub open spec fn jpg() -> Seq<u8> {
    seq![106u8, 112u8, 103u8]
}

pub fn jpg_v() -> (r: Vec<u8>)
    ensures
        r@ == jpg(),
{
    let r: Vec<u8> = vec![106u8, 112u8, 103u8];
    proof {
        assert(r@ =~= jpg());
    }
    r
}

/// `".jpg.json"`
pub open spec fn jpg_json_lo() -> Seq<u8> {
    seq![46u8, 106u8, 112u8, 103u8, 46u8, 106u8, 115u8, 111u8, 110u8]
}

pub fn jpg_json_lo_v() -> (r: Vec<u8>)
    ensures
        r@ == jpg_json_lo(),
{
    let r: Vec<u8> = vec![46u8, 106u8, 112u8, 103u8, 46u8, 106u8, 115u8, 111u8, 110u8];
    proof {
        assert(r@ =~= jpg_json_lo());
    }
    r
}

/// `".JPG.json"`
pub open spec fn jpg_json_up() -> Seq<u8> {
    seq![46u8, 74u8, 80u8, 71u8, 46u8, 106u8, 115u8, 111u8, 110u8]
}

pub fn jpg_json_up_v() -> (r: Vec<u8>)
    ensures
        r@ == jpg_json_up(),
{
    let r: Vec<u8> = vec![46u8, 74u8, 80u8, 71u8, 46u8, 106u8, 115u8, 111u8, 110u8];
    proof {
        assert(r@ =~= jpg_json_up());
    }
    r
}

/// `".j.json"`
pub open spec fn j_json() -> Seq<u8> {
    seq![46u8, 106u8, 46u8, 106u8, 115u8, 111u8, 110u8]
}

pub fn j_json_v() -> (r: Vec<u8>)
    ensures
        r@ == j_json(),
{
    let r: Vec<u8> = vec![46u8, 106u8, 46u8, 106u8, 115u8, 111u8, 110u8];
    proof {
        assert(r@ =~= j_json());
    }
    r
}

/// `".j("`
pub open spec fn j_paren() -> Seq<u8> {
    seq![46u8, 106u8, 40u8]
}

pub fn j_paren_v() -> (r: Vec<u8>)
    ensures
        r@ == j_paren(),
{
    let r: Vec<u8> = vec![46u8, 106u8, 40u8];
    proof {
        assert(r@ =~= j_paren());
    }
    r
}

/// `"png"`
pub open spec fn png() -> Seq<u8> {
    seq![112u8, 110u8, 103u8]
}

pub fn png_v() -> (r: Vec<u8>)
    ensures
        r@ == png(),
{
    let r: Vec<u8> = vec![112u8, 110u8, 103u8];
    proof {
        assert(r@ =~= png());
    }
    r
}

/// `".png.json"`
pub open spec fn png_json_lo() -> Seq<u8> {
    seq![46u8, 112u8, 110u8, 103u8, 46u8, 106u8, 115u8, 111u8, 110u8]
}

pub fn png_json_lo_v() -> (r: Vec<u8>)
    ensures
        r@ == png_json_lo(),
{
    let r: Vec<u8> = vec![46u8, 112u8, 110u8, 103u8, 46u8, 106u8, 115u8, 111u8, 110u8];
    proof {
        assert(r@ =~= png_json_lo());
    }
    r
}

/// `".PNG.json"`
pub open spec fn png_json_up() -> Seq<u8> {
    seq![46u8, 80u8, 78u8, 71u8, 46u8, 106u8, 115u8, 111u8, 110u8]
}

pub fn png_json_up_v() -> (r: Vec<u8>)
    ensures
        r@ == png_json_up(),
{
    let r: Vec<u8> = vec![46u8, 80u8, 78u8, 71u8, 46u8, 106u8, 115u8, 111u8, 110u8];
    proof {
        assert(r@ =~= png_json_up());
    }
    r
}

/// `".p.json"`
pub open spec fn p_json() -> Seq<u8> {
    seq![46u8, 112u8, 46u8, 106u8, 115u8, 111u8, 110u8]
}

pub fn p_json_v() -> (r: Vec<u8>)
    ensures
        r@ == p_json(),
{
    let r: Vec<u8> = vec![46u8, 112u8, 46u8, 106u8, 115u8, 111u8, 110u8];
    proof {
        assert(r@ =~= p_json());
    }
    r
}

/// `".p("`
pub open spec fn p_paren() -> Seq<u8> {
    seq![46u8, 112u8, 40u8]
}

pub fn p_paren_v() -> (r: Vec<u8>)
    ensures
        r@ == p_paren(),
{
    let r: Vec<u8> = vec![46u8, 112u8, 40u8];
    proof {
        assert(r@ =~= p_paren());
    }
    r
}

/// `"json"`
pub open spec fn json() -> Seq<u8> {
    seq![106u8, 115u8, 111u8, 110u8]
}

pub fn json_v() -> (r: Vec<u8>)
    ensures
        r@ == json(),
{
    let r: Vec<u8> = vec![106u8, 115u8, 111u8, 110u8];
    proof {
        assert(r@ =~= json());
    }
    r
}

/// `"MP4"`
pub open spec fn mp4_up() -> Seq<u8> {
    seq![77u8, 80u8, 52u8]
}

pub fn mp4_up_v() -> (r: Vec<u8>)
    ensures
        r@ == mp4_up(),
{
    let r: Vec<u8> = vec![77u8, 80u8, 52u8];
    proof {
        assert(r@ =~= mp4_up());
    }
    r
}

/// `"mp4"`
pub open spec fn mp4_lo() -> Seq<u8> {
    seq![109u8, 112u8, 52u8]
}

pub fn mp4_lo_v() -> (r: Vec<u8>)
    ensures
        r@ == mp4_lo(),
{
    let r: Vec<u8> = vec![109u8, 112u8, 52u8];
    proof {
        assert(r@ =~= mp4_lo());
    }
    r
}

/// `"edited"`
pub open spec fn tok_edited() -> Seq<u8> {
    seq![101u8, 100u8, 105u8, 116u8, 101u8, 100u8]
}

pub fn tok_edited_v() -> (r: Vec<u8>)
    ensures
        r@ == tok_edited(),
{
    let r: Vec<u8> = vec![101u8, 100u8, 105u8, 116u8, 101u8, 100u8];
    proof {
        assert(r@ =~= tok_edited());
    }
    r
}

/// `"IMG"`
pub open spec fn tok_img() -> Seq<u8> {
    seq![73u8, 77u8, 71u8]
}

pub fn tok_img_v() -> (r: Vec<u8>)
    ensures
        r@ == tok_img(),
{
    let r: Vec<u8> = vec![73u8, 77u8, 71u8];
    proof {
        assert(r@ =~= tok_img());
    }
    r
}

/// `"VID"`
pub open spec fn tok_vid() -> Seq<u8> {
    seq![86u8, 73u8, 68u8]
}

pub fn tok_vid_v() -> (r: Vec<u8>)
    ensures
        r@ == tok_vid(),
{
    let r: Vec<u8> = vec![86u8, 73u8, 68u8];
    proof {
        assert(r@ =~= tok_vid());
    }
    r
}

/// `"JPEG"`
pub open spec fn tok_jpeg() -> Seq<u8> {
    seq![74u8, 80u8, 69u8, 71u8]
}

pub fn tok_jpeg_v() -> (r: Vec<u8>)
    ensures
        r@ == tok_jpeg(),
{
    let r: Vec<u8> = vec![74u8, 80u8, 69u8, 71u8];
    proof {
        assert(r@ =~= tok_jpeg());
    }
    r
}

/// `"EFFECTS"`
pub open spec fn tok_effects() -> Seq<u8> {
    seq![69u8, 70u8, 70u8, 69u8, 67u8, 84u8, 83u8]
}

pub fn tok_effects_v() -> (r: Vec<u8>)
    ensures
        r@ == tok_effects(),
{
    let r: Vec<u8> = vec![69u8, 70u8, 70u8, 69u8, 67u8, 84u8, 83u8];
    proof {
        assert(r@ =~= tok_effects());
    }
    r
}

/// `"-"`
pub open spec fn dash() -> Seq<u8> {
    seq![45u8]
}

pub fn dash_v() -> (r: Vec<u8>)
    ensures
        r@ == dash(),
{
    let r: Vec<u8> = vec![45u8];
    proof {
        assert(r@ =~= dash());
    }
    r
}

/// `"_"`
pub open spec fn underscore() -> Seq<u8> {
    seq![95u8]
}

pub fn underscore_v() -> (r: Vec<u8>)
    ensures
        r@ == underscore(),
{
    let r: Vec<u8> = vec![95u8];
    proof {
        assert(r@ =~= underscore());
    }
    r
}

/// `" "`
pub open spec fn space() -> Seq<u8> {
    seq![32u8]
}

pub fn space_v() -> (r: Vec<u8>)
    ensures
        r@ == space(),
{
    let r: Vec<u8> = vec![32u8];
    proof {
        assert(r@ =~= space());
    }
    r
}

/// `"Archive"`
pub open spec fn archive() -> Seq<u8> {
    seq![65u8, 114u8, 99u8, 104u8, 105u8, 118u8, 101u8]
}

pub fn archive_v() -> (r: Vec<u8>)
    ensures
        r@ == archive(),
{
    let r: Vec<u8> = vec![65u8, 114u8, 99u8, 104u8, 105u8, 118u8, 101u8];
    proof {
        assert(r@ =~= archive());
    }
    r
}

/// `"Photos from "`
pub open spec fn photos_from() -> Seq<u8> {
    seq![80u8, 104u8, 111u8, 116u8, 111u8, 115u8, 32u8, 102u8, 114u8, 111u8, 109u8, 32u8]
}

pub fn photos_from_v() -> (r: Vec<u8>)
    ensures
        r@ == photos_from(),
{
    let r: Vec<u8> = vec![80u8, 104u8, 111u8, 116u8, 111u8, 115u8, 32u8, 102u8, 114u8, 111u8, 109u8, 32u8];
    proof {
        assert(r@ =~= photos_from());
    }
    r
}

/// `"Untitled"`
pub open spec fn untitled() -> Seq<u8> {
    seq![85u8, 110u8, 116u8, 105u8, 116u8, 108u8, 101u8, 100u8]
}

pub fn untitled_v() -> (r: Vec<u8>)
    ensures
        r@ == untitled(),
{
    let r: Vec<u8> = vec![85u8, 110u8, 116u8, 105u8, 116u8, 108u8, 101u8, 100u8];
    proof {
        assert(r@ =~= untitled());
    }
    r
}

/// `"Untitled("`
pub open spec fn untitled_paren() -> Seq<u8> {
    seq![85u8, 110u8, 116u8, 105u8, 116u8, 108u8, 101u8, 100u8, 40u8]
}

pub fn untitled_paren_v() -> (r: Vec<u8>)
    ensures
        r@ == untitled_paren(),
{
    let r: Vec<u8> = vec![85u8, 110u8, 116u8, 105u8, 116u8, 108u8, 101u8, 100u8, 40u8];
    proof {
        assert(r@ =~= untitled_paren());
    }
    r
}

/// `"/general"`
pub open spec fn general_seg() -> Seq<u8> {
    seq![47u8, 103u8, 101u8, 110u8, 101u8, 114u8, 97u8, 108u8]
}

pub fn general_seg_v() -> (r: Vec<u8>)
    ensures
        r@ == general_seg(),
{
    let r: Vec<u8> = vec![47u8, 103u8, 101u8, 110u8, 101u8, 114u8, 97u8, 108u8];
    proof {
        assert(r@ =~= general_seg());
    }
    r
}

/// `"/albums"`
pub open spec fn albums_seg() -> Seq<u8> {
    seq![47u8, 97u8, 108u8, 98u8, 117u8, 109u8, 115u8]
}

pub fn albums_seg_v() -> (r: Vec<u8>)
    ensures
        r@ == albums_seg(),
{
    let r: Vec<u8> = vec![47u8, 97u8, 108u8, 98u8, 117u8, 109u8, 115u8];
    proof {
        assert(r@ =~= albums_seg());
    }
    r
}

/// `"/shared/shared"`
pub open spec fn shared_seg() -> Seq<u8> {
    seq![47u8, 115u8, 104u8, 97u8, 114u8, 101u8, 100u8, 47u8, 115u8, 104u8, 97u8, 114u8, 101u8, 100u8]
}

pub fn shared_seg_v() -> (r: Vec<u8>)
    ensures
        r@ == shared_seg(),
{
    let r: Vec<u8> = vec![47u8, 115u8, 104u8, 97u8, 114u8, 101u8, 100u8, 47u8, 115u8, 104u8, 97u8, 114u8, 101u8, 100u8];
    proof {
        assert(r@ =~= shared_seg());
    }
    r
}

/// `"MTS"`
pub open spec fn mts() -> Seq<u8> {
    seq![77u8, 84u8, 83u8]
}

pub fn mts_v() -> (r: Vec<u8>)
    ensures
        r@ == mts(),
{
    let r: Vec<u8> = vec![77u8, 84u8, 83u8];
    proof {
        assert(r@ =~= mts());
    }
    r
}

/// `"png image data"`
pub open spec fn d_png_image() -> Seq<u8> {
    seq![112u8, 110u8, 103u8, 32u8, 105u8, 109u8, 97u8, 103u8, 101u8, 32u8, 100u8, 97u8, 116u8, 97u8]
}

pub fn d_png_image_v() -> (r: Vec<u8>)
    ensures
        r@ == d_png_image(),
{
    let r: Vec<u8> = vec![112u8, 110u8, 103u8, 32u8, 105u8, 109u8, 97u8, 103u8, 101u8, 32u8, 100u8, 97u8, 116u8, 97u8];
    proof {
        assert(r@ =~= d_png_image());
    }
    r
}

/// `"jpg image data"`
pub open spec fn d_jpg_image() -> Seq<u8> {
    seq![106u8, 112u8, 103u8, 32u8, 105u8, 109u8, 97u8, 103u8, 101u8, 32u8, 100u8, 97u8, 116u8, 97u8]
}

pub fn d_jpg_image_v() -> (r: Vec<u8>)
    ensures
        r@ == d_jpg_image(),
{
    let r: Vec<u8> = vec![106u8, 112u8, 103u8, 32u8, 105u8, 109u8, 97u8, 103u8, 101u8, 32u8, 100u8, 97u8, 116u8, 97u8];
    proof {
        assert(r@ =~= d_jpg_image());
    }
    r
}

/// `"jpeg image data"`
pub open spec fn d_jpeg_image() -> Seq<u8> {
    seq![106u8, 112u8, 101u8, 103u8, 32u8, 105u8, 109u8, 97u8, 103u8, 101u8, 32u8, 100u8, 97u8, 116u8, 97u8]
}

pub fn d_jpeg_image_v() -> (r: Vec<u8>)
    ensures
        r@ == d_jpeg_image(),
{
    let r: Vec<u8> = vec![106u8, 112u8, 101u8, 103u8, 32u8, 105u8, 109u8, 97u8, 103u8, 101u8, 32u8, 100u8, 97u8, 116u8, 97u8];
    proof {
        assert(r@ =~= d_jpeg_image());
    }
    r
}

/// `"gif image data"`
pub open spec fn d_gif_image() -> Seq<u8> {
    seq![103u8, 105u8, 102u8, 32u8, 105u8, 109u8, 97u8, 103u8, 101u8, 32u8, 100u8, 97u8, 116u8, 97u8]
}

pub fn d_gif_image_v() -> (r: Vec<u8>)
    ensures
        r@ == d_gif_image(),
{
    let r: Vec<u8> = vec![103u8, 105u8, 102u8, 32u8, 105u8, 109u8, 97u8, 103u8, 101u8, 32u8, 100u8, 97u8, 116u8, 97u8];
    proof {
        assert(r@ =~= d_gif_image());
    }
    r
}

/// `"heic image data"`
pub open spec fn d_heic_image() -> Seq<u8> {
    seq![104u8, 101u8, 105u8, 99u8, 32u8, 105u8, 109u8, 97u8, 103u8, 101u8, 32u8, 100u8, 97u8, 116u8, 97u8]
}

pub fn d_heic_image_v() -> (r: Vec<u8>)
    ensures
        r@ == d_heic_image(),
{
    let r: Vec<u8> = vec![104u8, 101u8, 105u8, 99u8, 32u8, 105u8, 109u8, 97u8, 103u8, 101u8, 32u8, 100u8, 97u8, 116u8, 97u8];
    proof {
        assert(r@ =~= d_heic_image());
    }
    r
}

/// `"iso media, heif image hevc main"`
pub open spec fn d_heif_hevc() -> Seq<u8> {
    seq![105u8, 115u8, 111u8, 32u8, 109u8, 101u8, 100u8, 105u8, 97u8, 44u8, 32u8, 104u8, 101u8, 105u8, 102u8, 32u8, 105u8, 109u8, 97u8, 103u8, 101u8, 32u8, 104u8, 101u8, 118u8, 99u8, 32u8, 109u8, 97u8, 105u8, 110u8]
}

pub fn d_heif_hevc_v() -> (r: Vec<u8>)
    ensures
        r@ == d_heif_hevc(),
{
    let r: Vec<u8> = vec![105u8, 115u8, 111u8, 32u8, 109u8, 101u8, 100u8, 105u8, 97u8, 44u8, 32u8, 104u8, 101u8, 105u8, 102u8, 32u8, 105u8, 109u8, 97u8, 103u8, 101u8, 32u8, 104u8, 101u8, 118u8, 99u8, 32u8, 109u8, 97u8, 105u8, 110u8];
    proof {
        assert(r@ =~= d_heif_hevc());
    }
    r
}

/// `"mp3 audio"`
pub open spec fn d_mp3_audio() -> Seq<u8> {
    seq![109u8, 112u8, 51u8, 32u8, 97u8, 117u8, 100u8, 105u8, 111u8]
}

pub fn d_mp3_audio_v() -> (r: Vec<u8>)
    ensures
        r@ == d_mp3_audio(),
{
    let r: Vec<u8> = vec![109u8, 112u8, 51u8, 32u8, 97u8, 117u8, 100u8, 105u8, 111u8];
    proof {
        assert(r@ =~= d_mp3_audio());
    }
    r
}

/// `"apple quicktime movie"`
pub open spec fn d_quicktime() -> Seq<u8> {
    seq![97u8, 112u8, 112u8, 108u8, 101u8, 32u8, 113u8, 117u8, 105u8, 99u8, 107u8, 116u8, 105u8, 109u8, 101u8, 32u8, 109u8, 111u8, 118u8, 105u8, 101u8]
}

pub fn d_quicktime_v() -> (r: Vec<u8>)
    ensures
        r@ == d_quicktime(),
{
    let r: Vec<u8> = vec![97u8, 112u8, 112u8, 108u8, 101u8, 32u8, 113u8, 117u8, 105u8, 99u8, 107u8, 116u8, 105u8, 109u8, 101u8, 32u8, 109u8, 111u8, 118u8, 105u8, 101u8];
    proof {
        assert(r@ =~= d_quicktime());
    }
    r
}

/// `"mp4 video"`
pub open spec fn d_mp4_video() -> Seq<u8> {
    seq![109u8, 112u8, 52u8, 32u8, 118u8, 105u8, 100u8, 101u8, 111u8]
}

pub fn d_mp4_video_v() -> (r: Vec<u8>)
    ensures
        r@ == d_mp4_video(),
{
    let r: Vec<u8> = vec![109u8, 112u8, 52u8, 32u8, 118u8, 105u8, 100u8, 101u8, 111u8];
    proof {
        assert(r@ =~= d_mp4_video());
    }
    r
}

/// `"iso media, mp4 v"`
pub open spec fn d_iso_mp4_v() -> Seq<u8> {
    seq![105u8, 115u8, 111u8, 32u8, 109u8, 101u8, 100u8, 105u8, 97u8, 44u8, 32u8, 109u8, 112u8, 52u8, 32u8, 118u8]
}

pub fn d_iso_mp4_v_v() -> (r: Vec<u8>)
    ensures
        r@ == d_iso_mp4_v(),
{
    let r: Vec<u8> = vec![105u8, 115u8, 111u8, 32u8, 109u8, 101u8, 100u8, 105u8, 97u8, 44u8, 32u8, 109u8, 112u8, 52u8, 32u8, 118u8];
    proof {
        assert(r@ =~= d_iso_mp4_v());
    }
    r
}

/// `"iso media, mp4 base media v"`
pub open spec fn d_iso_mp4_base() -> Seq<u8> {
    seq![105u8, 115u8, 111u8, 32u8, 109u8, 101u8, 100u8, 105u8, 97u8, 44u8, 32u8, 109u8, 112u8, 52u8, 32u8, 98u8, 97u8, 115u8, 101u8, 32u8, 109u8, 101u8, 100u8, 105u8, 97u8, 32u8, 118u8]
}

pub fn d_iso_mp4_base_v() -> (r: Vec<u8>)
    ensures
        r@ == d_iso_mp4_base(),
{
    let r: Vec<u8> = vec![105u8, 115u8, 111u8, 32u8, 109u8, 101u8, 100u8, 105u8, 97u8, 44u8, 32u8, 109u8, 112u8, 52u8, 32u8, 98u8, 97u8, 115u8, 101u8, 32u8, 109u8, 101u8, 100u8, 105u8, 97u8, 32u8, 118u8];
    proof {
        assert(r@ =~= d_iso_mp4_base());
    }
    r
}

/// `"iso media, mpeg-4"`
pub open spec fn d_iso_mpeg4() -> Seq<u8> {
    seq![105u8, 115u8, 111u8, 32u8, 109u8, 101u8, 100u8, 105u8, 97u8, 44u8, 32u8, 109u8, 112u8, 101u8, 103u8, 45u8, 52u8]
}

pub fn d_iso_mpeg4_v() -> (r: Vec<u8>)
    ensures
        r@ == d_iso_mpeg4(),
{
    let r: Vec<u8> = vec![105u8, 115u8, 111u8, 32u8, 109u8, 101u8, 100u8, 105u8, 97u8, 44u8, 32u8, 109u8, 112u8, 101u8, 103u8, 45u8, 52u8];
    proof {
        assert(r@ =~= d_iso_mpeg4());
    }
    r
}

/// `"iso media, mpeg v"`
pub open spec fn d_iso_mpeg_v() -> Seq<u8> {
    seq![105u8, 115u8, 111u8, 32u8, 109u8, 101u8, 100u8, 105u8, 97u8, 44u8, 32u8, 109u8, 112u8, 101u8, 103u8, 32u8, 118u8]
}

pub fn d_iso_mpeg_v_v() -> (r: Vec<u8>)
    ensures
        r@ == d_iso_mpeg_v(),
{
    let r: Vec<u8> = vec![105u8, 115u8, 111u8, 32u8, 109u8, 101u8, 100u8, 105u8, 97u8, 44u8, 32u8, 109u8, 112u8, 101u8, 103u8, 32u8, 118u8];
    proof {
        assert(r@ =~= d_iso_mpeg_v());
    }
    r
}

/// `"mov video"`
pub open spec fn d_mov_video() -> Seq<u8> {
    seq![109u8, 111u8, 118u8, 32u8, 118u8, 105u8, 100u8, 101u8, 111u8]
}

pub fn d_mov_video_v() -> (r: Vec<u8>)
    ensures
        r@ == d_mov_video(),
{
    let r: Vec<u8> = vec![109u8, 111u8, 118u8, 32u8, 118u8, 105u8, 100u8, 101u8, 111u8];
    proof {
        assert(r@ =~= d_mov_video());
    }
    r
}

/// `"3gp video"`
pub open spec fn d_3gp_video() -> Seq<u8> {
    seq![51u8, 103u8, 112u8, 32u8, 118u8, 105u8, 100u8, 101u8, 111u8]
}

pub fn d_3gp_video_v() -> (r: Vec<u8>)
    ensures
        r@ == d_3gp_video(),
{
    let r: Vec<u8> = vec![51u8, 103u8, 112u8, 32u8, 118u8, 105u8, 100u8, 101u8, 111u8];
    proof {
        assert(r@ =~= d_3gp_video());
    }
    r
}

/// `"tiff image data"`
pub open spec fn d_tiff_image() -> Seq<u8> {
    seq![116u8, 105u8, 102u8, 102u8, 32u8, 105u8, 109u8, 97u8, 103u8, 101u8, 32u8, 100u8, 97u8, 116u8, 97u8]
}

pub fn d_tiff_image_v() -> (r: Vec<u8>)
    ensures
        r@ == d_tiff_image(),
{
    let r: Vec<u8> = vec![116u8, 105u8, 102u8, 102u8, 32u8, 105u8, 109u8, 97u8, 103u8, 101u8, 32u8, 100u8, 97u8, 116u8, 97u8];
    proof {
        assert(r@ =~= d_tiff_image());
    }
    r
}

/// `"pc bitmap"`
pub open spec fn d_pc_bitmap() -> Seq<u8> {
    seq![112u8, 99u8, 32u8, 98u8, 105u8, 116u8, 109u8, 97u8, 112u8]
}

pub fn d_pc_bitmap_v() -> (r: Vec<u8>)
    ensures
        r@ == d_pc_bitmap(),
{
    let r: Vec<u8> = vec![112u8, 99u8, 32u8, 98u8, 105u8, 116u8, 109u8, 97u8, 112u8];
    proof {
        assert(r@ =~= d_pc_bitmap());
    }
    r
}

/// `"apple itunes video (.m4v)"`
pub open spec fn d_itunes_m4v() -> Seq<u8> {
    seq![97u8, 112u8, 112u8, 108u8, 101u8, 32u8, 105u8, 116u8, 117u8, 110u8, 101u8, 115u8, 32u8, 118u8, 105u8, 100u8, 101u8, 111u8, 32u8, 40u8, 46u8, 109u8, 52u8, 118u8, 41u8]
}

pub fn d_itunes_m4v_v() -> (r: Vec<u8>)
    ensures
        r@ == d_itunes_m4v(),
{
    let r: Vec<u8> = vec![97u8, 112u8, 112u8, 108u8, 101u8, 32u8, 105u8, 116u8, 117u8, 110u8, 101u8, 115u8, 32u8, 118u8, 105u8, 100u8, 101u8, 111u8, 32u8, 40u8, 46u8, 109u8, 52u8, 118u8, 41u8];
    proof {
        assert(r@ =~= d_itunes_m4v());
    }
    r
}

/// `"web/p image"`
pub open spec fn d_webp_image() -> Seq<u8> {
    seq![119u8, 101u8, 98u8, 47u8, 112u8, 32u8, 105u8, 109u8, 97u8, 103u8, 101u8]
}

pub fn d_webp_image_v() -> (r: Vec<u8>)
    ensures
        r@ == d_webp_image(),
{
    let r: Vec<u8> = vec![119u8, 101u8, 98u8, 47u8, 112u8, 32u8, 105u8, 109u8, 97u8, 103u8, 101u8];
    proof {
        assert(r@ =~= d_webp_image());
    }
    r
}

/// `"microsoft asf"`
pub open spec fn d_ms_asf() -> Seq<u8> {
    seq![109u8, 105u8, 99u8, 114u8, 111u8, 115u8, 111u8, 102u8, 116u8, 32u8, 97u8, 115u8, 102u8]
}

pub fn d_ms_asf_v() -> (r: Vec<u8>)
    ensures
        r@ == d_ms_asf(),
{
    let r: Vec<u8> = vec![109u8, 105u8, 99u8, 114u8, 111u8, 115u8, 111u8, 102u8, 116u8, 32u8, 97u8, 115u8, 102u8];
    proof {
        assert(r@ =~= d_ms_asf());
    }
    r
}

/// `"mpeg sequence"`
pub open spec fn d_mpeg_seq() -> Seq<u8> {
    seq![109u8, 112u8, 101u8, 103u8, 32u8, 115u8, 101u8, 113u8, 117u8, 101u8, 110u8, 99u8, 101u8]
}

pub fn d_mpeg_seq_v() -> (r: Vec<u8>)
    ensures
        r@ == d_mpeg_seq(),
{
    let r: Vec<u8> = vec![109u8, 112u8, 101u8, 103u8, 32u8, 115u8, 101u8, 113u8, 117u8, 101u8, 110u8, 99u8, 101u8];
    proof {
        assert(r@ =~= d_mpeg_seq());
    }
    r
}

/// `"avi"`
pub open spec fn d_avi() -> Seq<u8> {
    seq![97u8, 118u8, 105u8]
}

pub fn d_avi_v() -> (r: Vec<u8>)
    ensures
        r@ == d_avi(),
{
    let r: Vec<u8> = vec![97u8, 118u8, 105u8];
    proof {
        assert(r@ =~= d_avi());
    }
    r
}

/// `"canon cr2"`
pub open spec fn d_canon_cr2() -> Seq<u8> {
    seq![99u8, 97u8, 110u8, 111u8, 110u8, 32u8, 99u8, 114u8, 50u8]
}

pub fn d_canon_cr2_v() -> (r: Vec<u8>)
    ensures
        r@ == d_canon_cr2(),
{
    let r: Vec<u8> = vec![99u8, 97u8, 110u8, 111u8, 110u8, 32u8, 99u8, 114u8, 50u8];
    proof {
        assert(r@ =~= d_canon_cr2());
    }
    r
}

/// `"data"`
pub open spec fn d_data() -> Seq<u8> {
    seq![100u8, 97u8, 116u8, 97u8]
}

pub fn d_data_v() -> (r: Vec<u8>)
    ensures
        r@ == d_data(),
{
    let r: Vec<u8> = vec![100u8, 97u8, 116u8, 97u8];
    proof {
        assert(r@ =~= d_data());
    }
    r
}

/// `"ascii text"`
pub open spec fn d_ascii_text() -> Seq<u8> {
    seq![97u8, 115u8, 99u8, 105u8, 105u8, 32u8, 116u8, 101u8, 120u8, 116u8]
}

pub fn d_ascii_text_v() -> (r: Vec<u8>)
    ensures
        r@ == d_ascii_text(),
{
    let r: Vec<u8> = vec![97u8, 115u8, 99u8, 105u8, 105u8, 32u8, 116u8, 101u8, 120u8, 116u8];
    proof {
        assert(r@ =~= d_ascii_text());
    }
    r
}

/// `"canon ciff raw image data"`
pub open spec fn d_canon_ciff() -> Seq<u8> {
    seq![99u8, 97u8, 110u8, 111u8, 110u8, 32u8, 99u8, 105u8, 102u8, 102u8, 32u8, 114u8, 97u8, 119u8, 32u8, 105u8, 109u8, 97u8, 103u8, 101u8, 32u8, 100u8, 97u8, 116u8, 97u8]
}

pub fn d_canon_ciff_v() -> (r: Vec<u8>)
    ensures
        r@ == d_canon_ciff(),
{
    let r: Vec<u8> = vec![99u8, 97u8, 110u8, 111u8, 110u8, 32u8, 99u8, 105u8, 102u8, 102u8, 32u8, 114u8, 97u8, 119u8, 32u8, 105u8, 109u8, 97u8, 103u8, 101u8, 32u8, 100u8, 97u8, 116u8, 97u8];
    proof {
        assert(r@ =~= d_canon_ciff());
    }
    r
}

/// `"gif"`
pub open spec fn e_gif() -> Seq<u8> {
    seq![103u8, 105u8, 102u8]
}

pub fn e_gif_v() -> (r: Vec<u8>)
    ensures
        r@ == e_gif(),
{
    let r: Vec<u8> = vec![103u8, 105u8, 102u8];
    proof {
        assert(r@ =~= e_gif());
    }
    r
}

/// `"mp3"`
pub open spec fn e_mp3() -> Seq<u8> {
    seq![109u8, 112u8, 51u8]
}

pub fn e_mp3_v() -> (r: Vec<u8>)
    ensures
        r@ == e_mp3(),
{
    let r: Vec<u8> = vec![109u8, 112u8, 51u8];
    proof {
        assert(r@ =~= e_mp3());
    }
    r
}

/// `"mov"`
pub open spec fn e_mov() -> Seq<u8> {
    seq![109u8, 111u8, 118u8]
}

pub fn e_mov_v() -> (r: Vec<u8>)
    ensures
        r@ == e_mov(),
{
    let r: Vec<u8> = vec![109u8, 111u8, 118u8];
    proof {
        assert(r@ =~= e_mov());
    }
    r
}

/// `"3gp"`
pub open spec fn e_3gp() -> Seq<u8> {
    seq![51u8, 103u8, 112u8]
}

pub fn e_3gp_v() -> (r: Vec<u8>)
    ensures
        r@ == e_3gp(),
{
    let r: Vec<u8> = vec![51u8, 103u8, 112u8];
    proof {
        assert(r@ =~= e_3gp());
    }
    r
}

/// `"tiff"`
pub open spec fn e_tiff() -> Seq<u8> {
    seq![116u8, 105u8, 102u8, 102u8]
}

pub fn e_tiff_v() -> (r: Vec<u8>)
    ensures
        r@ == e_tiff(),
{
    let r: Vec<u8> = vec![116u8, 105u8, 102u8, 102u8];
    proof {
        assert(r@ =~= e_tiff());
    }
    r
}

/// `"bmp"`
pub open spec fn e_bmp() -> Seq<u8> {
    seq![98u8, 109u8, 112u8]
}

pub fn e_bmp_v() -> (r: Vec<u8>)
    ensures
        r@ == e_bmp(),
{
    let r: Vec<u8> = vec![98u8, 109u8, 112u8];
    proof {
        assert(r@ =~= e_bmp());
    }
    r
}

/// `"m4v"`
pub open spec fn e_m4v() -> Seq<u8> {
    seq![109u8, 52u8, 118u8]
}

pub fn e_m4v_v() -> (r: Vec<u8>)
    ensures
        r@ == e_m4v(),
{
    let r: Vec<u8> = vec![109u8, 52u8, 118u8];
    proof {
        assert(r@ =~= e_m4v());
    }
    r
}

/// `"webp"`
pub open spec fn e_webp() -> Seq<u8> {
    seq![119u8, 101u8, 98u8, 112u8]
}

pub fn e_webp_v() -> (r: Vec<u8>)
    ensures
        r@ == e_webp(),
{
    let r: Vec<u8> = vec![119u8, 101u8, 98u8, 112u8];
    proof {
        assert(r@ =~= e_webp());
    }
    r
}

/// `"asf"`
pub open spec fn e_asf() -> Seq<u8> {
    seq![97u8, 115u8, 102u8]
}

pub fn e_asf_v() -> (r: Vec<u8>)
    ensures
        r@ == e_asf(),
{
    let r: Vec<u8> = vec![97u8, 115u8, 102u8];
    proof {
        assert(r@ =~= e_asf());
    }
    r
}

/// `"mpeg"`
pub open spec fn e_mpeg() -> Seq<u8> {
    seq![109u8, 112u8, 101u8, 103u8]
}

pub fn e_mpeg_v() -> (r: Vec<u8>)
    ensures
        r@ == e_mpeg(),
{
    let r: Vec<u8> = vec![109u8, 112u8, 101u8, 103u8];
    proof {
        assert(r@ =~= e_mpeg());
    }
    r
}

/// `"avi"`
pub open spec fn e_avi() -> Seq<u8> {
    seq![97u8, 118u8, 105u8]
}

pub fn e_avi_v() -> (r: Vec<u8>)
    ensures
        r@ == e_avi(),
{
    let r: Vec<u8> = vec![97u8, 118u8, 105u8];
    proof {
        assert(r@ =~= e_avi());
    }
    r
}

/// `"cr2"`
pub open spec fn e_cr2() -> Seq<u8> {
    seq![99u8, 114u8, 50u8]
}

pub fn e_cr2_v() -> (r: Vec<u8>)
    ensures
        r@ == e_cr2(),
{
    let r: Vec<u8> = vec![99u8, 114u8, 50u8];
    proof {
        assert(r@ =~= e_cr2());
    }
    r
}

/// `"metadata.json"`
pub open spec fn ig_metadata() -> Seq<u8> {
    seq![109u8, 101u8, 116u8, 97u8, 100u8, 97u8, 116u8, 97u8, 46u8, 106u8, 115u8, 111u8, 110u8]
}

pub fn ig_metadata_v() -> (r: Vec<u8>)
    ensures
        r@ == ig_metadata(),
{
    let r: Vec<u8> = vec![109u8, 101u8, 116u8, 97u8, 100u8, 97u8, 116u8, 97u8, 46u8, 106u8, 115u8, 111u8, 110u8];
    proof {
        assert(r@ =~= ig_metadata());
    }
    r
}

/// `"shared_album_comments.json"`
pub open spec fn ig_shared() -> Seq<u8> {
    seq![115u8, 104u8, 97u8, 114u8, 101u8, 100u8, 95u8, 97u8, 108u8, 98u8, 117u8, 109u8, 95u8, 99u8, 111u8, 109u8, 109u8, 101u8, 110u8, 116u8, 115u8, 46u8, 106u8, 115u8, 111u8, 110u8]
}

pub fn ig_shared_v() -> (r: Vec<u8>)
    ensures
        r@ == ig_shared(),
{
    let r: Vec<u8> = vec![115u8, 104u8, 97u8, 114u8, 101u8, 100u8, 95u8, 97u8, 108u8, 98u8, 117u8, 109u8, 95u8, 99u8, 111u8, 109u8, 109u8, 101u8, 110u8, 116u8, 115u8, 46u8, 106u8, 115u8, 111u8, 110u8];
    proof {
        assert(r@ =~= ig_shared());
    }
    r
}

/// `"user-generated-memory-titles.json"`
pub open spec fn ig_memory() -> Seq<u8> {
    seq![117u8, 115u8, 101u8, 114u8, 45u8, 103u8, 101u8, 110u8, 101u8, 114u8, 97u8, 116u8, 101u8, 100u8, 45u8, 109u8, 101u8, 109u8, 111u8, 114u8, 121u8, 45u8, 116u8, 105u8, 116u8, 108u8, 101u8, 115u8, 46u8, 106u8, 115u8, 111u8, 110u8]
}

pub fn ig_memory_v() -> (r: Vec<u8>)
    ensures
        r@ == ig_memory(),
{
    let r: Vec<u8> = vec![117u8, 115u8, 101u8, 114u8, 45u8, 103u8, 101u8, 110u8, 101u8, 114u8, 97u8, 116u8, 101u8, 100u8, 45u8, 109u8, 101u8, 109u8, 111u8, 114u8, 121u8, 45u8, 116u8, 105u8, 116u8, 108u8, 101u8, 115u8, 46u8, 106u8, 115u8, 111u8, 110u8];
    proof {
        assert(r@ =~= ig_memory());
    }
    r
}

/// `"print-subscriptions.json"`
pub open spec fn ig_print() -> Seq<u8> {
    seq![112u8, 114u8, 105u8, 110u8, 116u8, 45u8, 115u8, 117u8, 98u8, 115u8, 99u8, 114u8, 105u8, 112u8, 116u8, 105u8, 111u8, 110u8, 115u8, 46u8, 106u8, 115u8, 111u8, 110u8]
}

pub fn ig_print_v() -> (r: Vec<u8>)
    ensures
        r@ == ig_print(),
{
    let r: Vec<u8> = vec![112u8, 114u8, 105u8, 110u8, 116u8, 45u8, 115u8, 117u8, 98u8, 115u8, 99u8, 114u8, 105u8, 112u8, 116u8, 105u8, 111u8, 110u8, 115u8, 46u8, 106u8, 115u8, 111u8, 110u8];
    proof {
        assert(r@ =~= ig_print());
    }
    r
}

/// `"html"`
pub open spec fn html() -> Seq<u8> {
    seq![104u8, 116u8, 109u8, 108u8]
}

pub fn html_v() -> (r: Vec<u8>)
    ensures
        r@ == html(),
{
    let r: Vec<u8> = vec![104u8, 116u8, 109u8, 108u8];
    proof {
        assert(r@ =~= html());
    }
    r
}

/// `"HEIC"`
pub open spec fn heic_up() -> Seq<u8> {
    seq![72u8, 69u8, 73u8, 67u8]
}

pub fn heic_up_v() -> (r: Vec<u8>)
    ensures
        r@ == heic_up(),
{
    let r: Vec<u8> = vec![72u8, 69u8, 73u8, 67u8];
    proof {
        assert(r@ =~= heic_up());
    }
    r
}

} // verus!
