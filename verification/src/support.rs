//! Small decisions the surrounding stages lean on: which sidecar timestamp
//! to stamp onto a copied file, and how a destination collision is renamed.

use vstd::prelude::*;
use crate::paths::{parent_of, stem_of, ext_of, has_extension, join_of, parent_bytes, stem_bytes,
    ext_bytes, join_bytes};
use crate::bytes::concat_bytes;
use crate::numbers::{dec_spec, u32_to_dec};
use crate::lits::{underscore, dot_s, underscore_v, dot_s_v};

verus! {

/// Of a sidecar's creation and last-modified epoch seconds, the one stamped
/// onto the destination file: the earlier.
pub fn earlier_timestamp(creation: i64, modified: i64) -> (r: i64)
    ensures
        r == (if creation < modified {
            creation
        } else {
            modified
        }),
{
    if creation < modified {
        creation
    } else {
        modified
    }
}

/// A destination path disambiguated against a collision: the counter goes
/// between the stem and the extension, `<stem>_<n>.<ext>`.
pub fn collision_renamed_path(p: &Vec<u8>, n: u32) -> (r: Vec<u8>)
    requires
        has_extension(p@),
    ensures
        r@ == join_of(
            parent_of(p@),
            stem_of(p@) + underscore() + dec_spec(n as nat) + dot_s() + ext_of(p@).unwrap(),
        ),
{
    let parent = parent_bytes(p);
    let st = stem_bytes(p);
    let ext = ext_bytes(p).unwrap();
    let dec = u32_to_dec(n);
    let name = concat_bytes(
        &concat_bytes(&concat_bytes(&concat_bytes(&st, &underscore_v()), &dec), &dot_s_v()),
        &ext,
    );
    join_bytes(&parent, &name)
}

} // verus!
