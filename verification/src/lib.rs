//! Reconciles an exported photo/video archive: media files plus
//! inconsistently named JSON metadata sidecars.  Paths are modelled as byte
//! strings.  The library generates sidecar candidate paths, matches sidecars
//! to media files in tiers (direct, fuzzy, filename date), classifies each
//! file into a destination category, and removes content-duplicate files by
//! category priority.
#![verifier::loop_isolation(false)]

pub mod bytes;
pub mod candidate_laws;
pub mod candidates;
pub mod classify;
pub mod dates;
pub mod dedup;
pub mod fuzzy;
pub mod lits;
pub mod matching;
pub mod model;
pub mod numbers;
pub mod outside;
pub mod pipeline_laws;
pub mod processor;
pub mod support;
pub mod paths;

pub use candidates::json_path_from_media_path;
pub use classify::UnknownTypeError;
pub use fuzzy::apply_fuzzy_result;
pub use model::{Date, DestLocation, MatchSource, MediaFile};
pub use outside::content_digest;
pub use processor::Processor;
pub use support::{collision_renamed_path, earlier_timestamp};
