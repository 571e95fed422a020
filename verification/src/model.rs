//! The data model: one record per discovered media file, its match
//! provenance, destination category and inferred creation date.

use vstd::prelude::*;

verus! {

/// How a media file's sidecar or date was resolved.
#[derive(Clone, Copy, Debug, PartialEq, Eq, Structural)]
pub enum MatchSource {
    NoMatch,
    JsonFile,
    FileName,
    DirectoryName,
    FuzzyMatch { score: u8 },
}

/// Destination category; also the duplicate-retention priority.
#[derive(Clone, Copy, Debug, PartialEq, Eq, Structural)]
pub enum DestLocation {
    Shared,
    General,
    Albums,
}

/// A calendar date, held as plain year, month and day numbers.
#[derive(Clone, Copy, Debug, PartialEq, Eq, Structural)]
pub struct Date {
    pub year: u32,
    pub month: u32,
    pub day: u32,
}

pub open spec fn is_leap_year(y: int) -> bool {
    (y % 4 == 0 && y % 100 != 0) || y % 400 == 0
}

pub open spec fn days_in_month(y: int, m: int) -> int {
    if m == 1 || m == 3 || m == 5 || m == 7 || m == 8 || m == 10 || m == 12 {
        31
    } else if m == 4 || m == 6 || m == 9 || m == 11 {
        30
    } else if is_leap_year(y) {
        29
    } else {
        28
    }
}

/// A proleptic-Gregorian calendar date within the four-digit-year range.
pub open spec fn valid_date(y: int, m: int, d: int) -> bool {
    0 <= y <= 9999 && 1 <= m <= 12 && 1 <= d <= days_in_month(y, m)
}

/// One media file moving through the pipeline.
pub struct MediaFile {
    pub media_path: Vec<u8>,
    pub destination_path: Option<Vec<u8>>,
    pub destination_type: Option<DestLocation>,
    pub json_path: Option<Vec<u8>>,
    pub media_creation_date: Option<Date>,
    pub match_source: MatchSource,
}

/// The mathematical image of a `MediaFile`.
pub ghost struct MediaView {
    pub media_path: Seq<u8>,
    pub destination_path: Option<Seq<u8>>,
    pub destination_type: Option<DestLocation>,
    pub json_path: Option<Seq<u8>>,
    pub media_creation_date: Option<Date>,
    pub match_source: MatchSource,
}

impl View for MediaFile {
    type V = MediaView;

    open spec fn view(&self) -> MediaView {
        MediaView {
            media_path: self.media_path@,
            destination_path: match self.destination_path {
                Option::Some(p) => Option::Some(p@),
                Option::None => Option::None,
            },
            destination_type: self.destination_type,
            json_path: match self.json_path {
                Option::Some(p) => Option::Some(p@),
                Option::None => Option::None,
            },
            media_creation_date: self.media_creation_date,
            match_source: self.match_source,
        }
    }
}

impl MediaFile {
    /// A freshly discovered media file: nothing matched or assigned yet.
    pub fn unmatched(media_path: Vec<u8>) -> (r: MediaFile)
        ensures
            r@ == (MediaView {
                media_path: media_path@,
                destination_path: None,
                destination_type: None,
                json_path: None,
                media_creation_date: None,
                match_source: MatchSource::NoMatch,
            }),
    {
        MediaFile {
            media_path,
            destination_path: None,
            destination_type: None,
            json_path: None,
            media_creation_date: None,
            match_source: MatchSource::NoMatch,
        }
    }
}

/// The views of a list of media files.
pub open spec fn views_of(files: Seq<MediaFile>) -> Seq<MediaView> {
    Seq::new(files.len(), |i: int| files[i]@)
}


/// A fresh copy of a media file record.
pub fn copy_media(f: &MediaFile) -> (r: MediaFile)
    ensures
        r@ == f@,
{
    MediaFile {
        media_path: crate::bytes::copy_bs(&f.media_path),
        destination_path: match &f.destination_path {
            Some(p) => Some(crate::bytes::copy_bs(p)),
            None => None,
        },
        destination_type: f.destination_type,
        json_path: match &f.json_path {
            Some(p) => Some(crate::bytes::copy_bs(p)),
            None => None,
        },
        media_creation_date: f.media_creation_date,
        match_source: f.match_source,
    }
}


pub proof fn lemma_views_push(files: Seq<MediaFile>, f: MediaFile)
    ensures
        views_of(files.push(f)) =~= views_of(files).push(f@),
{
}

} // verus!
