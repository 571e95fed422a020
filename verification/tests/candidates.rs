//! Candidate path generation.

use g_takeout_processor::json_path_from_media_path;

fn bv(s: &str) -> Vec<u8> {
    s.as_bytes().to_vec()
}

#[test]
fn test_json_path_brackets_at_end() {
    let media_path = bv("/home/tester/images/my_bracket(1).png");
    let json_path = json_path_from_media_path(&media_path).remove(0);
    assert_eq!(json_path, bv("/home/tester/images/my_bracket.png(1).json"));
}

#[test]
fn test_json_path_brackets_invalid_at_end() {
    let media_path = bv("/home/tester/images/my_bracket(ooga).png");
    let json_path = json_path_from_media_path(&media_path).remove(0);
    assert_eq!(json_path, bv("/home/tester/images/my_bracket(ooga).png.json"));
}

#[test]
fn test_heic_file_with_video() {
    let media_path = bv("/home/tester/images/66694115136__8679EE1A-E4B4-4D1B-B76C-510A6E58C.HEIC");
    let json_path = json_path_from_media_path(&media_path).remove(0);
    assert_eq!(
        json_path,
        bv("/home/tester/images/66694115136__8679EE1A-E4B4-4D1B-B76C-510A6E58C.json")
    );
}

#[test]
fn test_heic_file_rough() {
    let media_path = bv("/home/tester/images/Google Photos/Photos from 2020/IMG_2433.HEIC");
    let json_path = json_path_from_media_path(&media_path).remove(1);
    assert_eq!(
        json_path,
        bv("/home/tester/images/Google Photos/Photos from 2020/IMG_2433.HEIC.json")
    );
}

#[test]
fn test_json_path_brackets_at_end_double_digit() {
    let media_path = bv("/home/tester/images/my_bracket(16).png");
    let json_path = json_path_from_media_path(&media_path).remove(0);
    assert_eq!(json_path, bv("/home/tester/images/my_bracket.png(16).json"));
}

#[test]
fn test_bracket_ordering() {
    let media_path = bv("/home/josiah/Documents/g-takeout-processor/gdog/takeout/Google Photos/Photos from 2018/2018-06-17 01_54_22-13th June - OneNote 2016(1).png");
    let json_path = json_path_from_media_path(&media_path).remove(0);
    assert_eq!(
        json_path,
        bv("/home/josiah/Documents/g-takeout-processor/gdog/takeout/Google Photos/Photos from 2018/2018-06-17 01_54_22-13th June - OneNote 2016.png(1).json")
    );
}

#[test]
fn base_candidate_comes_first_for_plain_names() {
    let media_path = bv("/archive/holiday.mp4");
    let cands = json_path_from_media_path(&media_path);
    assert_eq!(cands[0], bv("/archive/holiday.mp4.json"));
}

#[test]
fn heic_media_offer_the_extension_free_sidecar() {
    let media_path = bv("/archive/beach.heic");
    let cands = json_path_from_media_path(&media_path);
    assert!(cands.contains(&bv("/archive/beach.json")));
}

#[test]
fn bracket_counter_with_leading_zeros_is_canonicalized() {
    let media_path = bv("/archive/my_bracket(007).png");
    let json_path = json_path_from_media_path(&media_path).remove(0);
    assert_eq!(json_path, bv("/archive/my_bracket.png(7).json"));
}

#[test]
fn edited_suffix_variant_is_offered() {
    let media_path = bv("/archive/pic-edited.jpg");
    let cands = json_path_from_media_path(&media_path);
    assert!(cands.contains(&bv("/archive/pic.jpg.json")));
}

#[test]
fn progressive_truncation_is_offered() {
    let media_path = bv("/archive/longname.jpg");
    let cands = json_path_from_media_path(&media_path);
    // the stem of `longname.jpg.json` truncated by four characters
    assert!(cands.contains(&bv("/archive/longname.json")));
}
