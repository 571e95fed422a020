//! The match tiers, destination classification and deduplication.

use g_takeout_processor::{
    apply_fuzzy_result, collision_renamed_path, content_digest, earlier_timestamp, DestLocation,
    MatchSource, MediaFile, Processor,
};

fn bv(s: &str) -> Vec<u8> {
    s.as_bytes().to_vec()
}

fn fresh(takeout: &str, output: &str) -> Processor {
    Processor::new(bv(takeout), bv(output))
}

#[test]
fn direct_sidecar_wins_tier_one() {
    let mut p = fresh("/d", "/out");
    p.load_files(vec![bv("/d/x.png"), bv("/d/x.png.json"), bv("/d/other.json")]);
    assert_eq!(p.media_files.len(), 1);
    assert_eq!(p.media_files[0].match_source, MatchSource::JsonFile);
    assert_eq!(p.media_files[0].json_path, Some(bv("/d/x.png.json")));
    assert_eq!(p.json_files, vec![bv("/d/other.json")]);
}

#[test]
fn heic_photo_defers_sidecar_to_video_sibling() {
    let mut p = fresh("/d", "/out");
    p.load_files(vec![bv("/d/a.HEIC"), bv("/d/a.MP4"), bv("/d/a.HEIC.json")]);
    assert_eq!(p.media_files.len(), 2);
    assert_eq!(p.media_files[0].match_source, MatchSource::JsonFile);
    assert_eq!(p.media_files[0].json_path, Some(bv("/d/a.HEIC.json")));
    assert_eq!(p.media_files[1].match_source, MatchSource::JsonFile);
    assert_eq!(p.media_files[1].json_path, Some(bv("/d/a.HEIC.json")));
}

#[test]
fn filename_date_is_inferred_in_tier_three() {
    let mut p = fresh("/d", "/out");
    p.load_files(vec![bv("/d/IMG_20200131_123456.jpg")]);
    assert_eq!(p.media_files[0].match_source, MatchSource::FileName);
    let d = p.media_files[0].media_creation_date.unwrap();
    assert_eq!((d.year, d.month, d.day), (2020, 1, 31));
}

#[test]
fn invalid_calendar_date_leaves_no_match() {
    let mut p = fresh("/d", "/out");
    p.load_files(vec![bv("/d/IMG_20209901_123456.jpg")]);
    assert_eq!(p.media_files[0].match_source, MatchSource::NoMatch);
    assert_eq!(p.media_files[0].media_creation_date, None);
}

#[test]
fn fuzzy_match_binds_similar_sidecar() {
    let mut p = fresh("/d", "/out");
    p.media_files.push(MediaFile::unmatched(bv("/d/photo-json.mov")));
    p.json_files.push(bv("/d/photo.json"));
    p.existing_files.push(bv("/d/photo-json.mov"));
    p.existing_files.push(bv("/d/photo.json"));
    p.fuzzy_match_filenames();
    match p.media_files[0].match_source {
        MatchSource::FuzzyMatch { score } => assert!(score >= 90),
        ref other => panic!("expected a fuzzy match, got {:?}", other),
    }
    assert_eq!(p.media_files[0].json_path, Some(bv("/d/photo.json")));
    assert!(p.json_files.is_empty());
}

#[test]
fn fuzzy_match_rejects_dissimilar_sidecar() {
    let mut p = fresh("/d", "/out");
    p.media_files.push(MediaFile::unmatched(bv("/d/zzqx.mov")));
    p.json_files.push(bv("/d/unrelated-name.json"));
    p.existing_files.push(bv("/d/zzqx.mov"));
    p.existing_files.push(bv("/d/unrelated-name.json"));
    p.fuzzy_match_filenames();
    assert_eq!(p.media_files[0].match_source, MatchSource::NoMatch);
    assert_eq!(p.json_files.len(), 1);
}

#[test]
fn fuzzy_boundary_ninety_accepts_eighty_nine_rejects() {
    let f = MediaFile::unmatched(bv("/d/pic.jpg"));
    let mut avail = vec![bv("/d/n.json")];
    let accepted = apply_fuzzy_result(&f, &bv("/d"), &bv("n.json"), 90, &mut avail);
    assert_eq!(accepted.match_source, MatchSource::FuzzyMatch { score: 90 });
    assert_eq!(accepted.json_path, Some(bv("/d/n.json")));
    assert!(avail.is_empty());

    let g = MediaFile::unmatched(bv("/d/pic.jpg"));
    let mut avail2 = vec![bv("/d/n.json")];
    let rejected = apply_fuzzy_result(&g, &bv("/d"), &bv("n.json"), 89, &mut avail2);
    assert_eq!(rejected.match_source, MatchSource::NoMatch);
    assert_eq!(rejected.json_path, None);
    assert_eq!(avail2, vec![bv("/d/n.json")]);
}

#[test]
fn photos_from_year_directory_goes_to_general() {
    let mut p = fresh("/t", "/out");
    p.media_files.push(MediaFile::unmatched(bv("/t/Photos from 2020/a.png")));
    let descs = vec![bv(" png image data, 800 x 600")];
    let mm = p.generate_destination_paths(&descs).unwrap();
    assert_eq!(mm, 0);
    assert_eq!(p.media_files[0].destination_type, Some(DestLocation::General));
    assert_eq!(p.media_files[0].destination_path, Some(bv("/out/general/a.png")));
}

#[test]
fn untitled_counter_directory_goes_to_shared() {
    let mut p = fresh("/t", "/out");
    p.media_files.push(MediaFile::unmatched(bv("/t/Untitled(3)/b.jpg")));
    let descs = vec![bv(" jpeg image data")];
    p.generate_destination_paths(&descs).unwrap();
    assert_eq!(p.media_files[0].destination_type, Some(DestLocation::Shared));
    assert_eq!(p.media_files[0].destination_path, Some(bv("/out/shared/shared/b.jpg")));
}

#[test]
fn other_directories_go_to_albums_preserving_one_level() {
    let mut p = fresh("/t", "/out");
    p.media_files.push(MediaFile::unmatched(bv("/t/Summer Trip/c.png")));
    let descs = vec![bv(" png image data")];
    p.generate_destination_paths(&descs).unwrap();
    assert_eq!(p.media_files[0].destination_type, Some(DestLocation::Albums));
    assert_eq!(p.media_files[0].destination_path, Some(bv("/out/albums/Summer Trip/c.png")));
}

#[test]
fn extension_is_corrected_and_counted_on_mismatch() {
    let mut p = fresh("/t", "/out");
    p.media_files.push(MediaFile::unmatched(bv("/t/Archive/img.png")));
    let descs = vec![bv(" jpeg image data, progressive")];
    let mm = p.generate_destination_paths(&descs).unwrap();
    assert_eq!(mm, 1);
    assert_eq!(p.media_files[0].destination_type, Some(DestLocation::General));
    assert_eq!(p.media_files[0].destination_path, Some(bv("/out/general/img.jpg")));
}

#[test]
fn plain_data_description_retains_the_extension() {
    let mut p = fresh("/t", "/out");
    p.media_files.push(MediaFile::unmatched(bv("/t/Archive/raw.cr2")));
    let descs = vec![bv(" data")];
    let mm = p.generate_destination_paths(&descs).unwrap();
    assert_eq!(mm, 0);
    assert_eq!(p.media_files[0].destination_path, Some(bv("/out/general/raw.cr2")));
}

#[test]
fn mts_files_skip_extension_correction() {
    let mut p = fresh("/t", "/out");
    p.media_files.push(MediaFile::unmatched(bv("/t/Tapes/clip.MTS")));
    let descs = vec![bv(" something no sniffer would say")];
    let mm = p.generate_destination_paths(&descs).unwrap();
    assert_eq!(mm, 0);
    assert_eq!(p.media_files[0].destination_path, Some(bv("/out/albums/Tapes/clip.MTS")));
}

#[test]
fn unknown_description_is_a_fatal_error() {
    let mut p = fresh("/t", "/out");
    p.media_files.push(MediaFile::unmatched(bv("/t/Archive/a.png")));
    p.media_files.push(MediaFile::unmatched(bv("/t/Archive/b.bin")));
    let descs = vec![bv(" png image data"), bv(" some inscrutable blob")];
    let e = p.generate_destination_paths(&descs).unwrap_err();
    assert_eq!(e.media_path, bv("/t/Archive/b.bin"));
    assert_eq!(e.description, bv(" some inscrutable blob"));
    // the earlier file was classified, the failing one was not
    assert_eq!(p.media_files[0].destination_path, Some(bv("/out/general/a.png")));
    assert_eq!(p.media_files[1].destination_path, None);
}

#[test]
fn classification_is_idempotent() {
    let mut p = fresh("/t", "/out");
    p.media_files.push(MediaFile::unmatched(bv("/t/Photos from 2019/snap.jpg")));
    let descs = vec![bv(" jpeg image data")];
    p.generate_destination_paths(&descs).unwrap();
    let first_path = p.media_files[0].destination_path.clone();
    let first_type = p.media_files[0].destination_type;
    p.generate_destination_paths(&descs).unwrap();
    assert_eq!(p.media_files[0].destination_path, first_path);
    assert_eq!(p.media_files[0].destination_type, first_type);
}

fn classified(path: &str, loc: DestLocation) -> MediaFile {
    let mut f = MediaFile::unmatched(bv(path));
    f.destination_type = Some(loc);
    f.destination_path = Some(bv(path));
    f
}

#[test]
fn duplicates_keep_albums_over_shared_over_general() {
    let mut p = fresh("/t", "/out");
    p.media_files.push(classified("/t/a/1.png", DestLocation::General));
    p.media_files.push(classified("/t/b/2.png", DestLocation::Albums));
    p.media_files.push(classified("/t/c/3.png", DestLocation::Shared));
    p.media_files.push(classified("/t/d/4.png", DestLocation::General));
    let digests = vec![bv("same"), bv("same"), bv("same"), bv("unique")];
    p.remove_duplicates(&digests);
    assert_eq!(p.media_files.len(), 2);
    assert_eq!(p.media_files[0].media_path, bv("/t/b/2.png"));
    assert_eq!(p.media_files[1].media_path, bv("/t/d/4.png"));
}

#[test]
fn duplicates_without_albums_keep_shared() {
    let mut p = fresh("/t", "/out");
    p.media_files.push(classified("/t/a/1.png", DestLocation::General));
    p.media_files.push(classified("/t/b/2.png", DestLocation::Shared));
    let digests = vec![bv("same"), bv("same")];
    p.remove_duplicates(&digests);
    assert_eq!(p.media_files.len(), 1);
    assert_eq!(p.media_files[0].media_path, bv("/t/b/2.png"));
}

#[test]
fn content_digest_matches_the_reference_vector() {
    let d = content_digest(&bv("abc"));
    let expected: Vec<u8> = vec![
        0x3a, 0x98, 0x5d, 0xa7, 0x4f, 0xe2, 0x25, 0xb2, 0x04, 0x5c, 0x17, 0x2d, 0x6b, 0xd3,
        0x90, 0xbd, 0x85, 0x5f, 0x08, 0x6e, 0x3e, 0x9d, 0x52, 0x5b, 0x46, 0xbf, 0xe2, 0x45,
        0x11, 0x43, 0x15, 0x32,
    ];
    assert_eq!(d, expected);
}

#[test]
fn content_digest_distinguishes_contents() {
    let a = content_digest(&bv("abc"));
    let b = content_digest(&bv("abd"));
    assert_eq!(a.len(), 32);
    assert_ne!(a, b);
}

#[test]
fn earlier_of_the_two_sidecar_timestamps_is_applied() {
    assert_eq!(earlier_timestamp(100, 200), 100);
    assert_eq!(earlier_timestamp(300, 200), 200);
    assert_eq!(earlier_timestamp(-5, 3), -5);
}

#[test]
fn collision_rename_inserts_counter_before_extension() {
    let renamed = collision_renamed_path(&bv("/out/albums/Trip/a.jpg"), 0);
    assert_eq!(renamed, bv("/out/albums/Trip/a_0.jpg"));
}

#[test]
fn match_counts_reports_each_tier() {
    let mut p = fresh("/d", "/out");
    p.load_files(vec![
        bv("/d/x.png"),
        bv("/d/x.png.json"),
        bv("/d/IMG_20200131_123456.jpg"),
        bv("/d/zzqx.mov"),
    ]);
    let (no_match, json_file, file_name, directory_name, fuzzy) = p.match_counts();
    assert_eq!(no_match, 1);
    assert_eq!(json_file, 1);
    assert_eq!(file_name, 1);
    assert_eq!(directory_name, 0);
    assert_eq!(fuzzy, 0);
}

#[test]
fn leap_day_dates_follow_the_calendar() {
    let mut p = fresh("/d", "/out");
    p.load_files(vec![bv("/d/VID_20200229.mp4"), bv("/d/VID_19000229.mp4")]);
    assert_eq!(p.media_files[0].match_source, MatchSource::FileName);
    let d = p.media_files[0].media_creation_date.unwrap();
    assert_eq!((d.year, d.month, d.day), (2020, 2, 29));
    // 1900 is not a leap year: divisible by 100 but not by 400
    assert_eq!(p.media_files[1].match_source, MatchSource::NoMatch);
}
