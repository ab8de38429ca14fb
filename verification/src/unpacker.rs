//! Rebuilding files from downloaded chunks: file modes and where each chunk
//! goes. Reading, decompressing and writing happen outside.

use vstd::prelude::*;
use crate::text::concat;

verus! {

/// Every chunk but the last of a file holds this many bytes.
pub const UNPACK_CHUNK_SIZE: u64 = 16777216;

/// The Unix mode of a file whose owner bits are read, write, execute as
/// given: group and others may read.
pub open spec fn spec_permissions(read: bool, write: bool, execute: bool) -> u32 {
    let owner = (if read { 4int } else { 0int }) + (if write { 2int } else { 0int }) + (if execute { 1int } else { 0int });
    (owner * 64 + 36) as u32
}

/// The mode of a file from its owner's read, write and execute flags.
pub fn generate_permissions(permissions: Vec<bool>) -> (r: u32)
    requires
        permissions@.len() >= 3,
    ensures
        r == spec_permissions(permissions@[0], permissions@[1], permissions@[2]),
{
    let mut perms: u32 = 0;
    if permissions[0] {
        perms = perms + 4;
    }
    if permissions[1] {
        perms = perms + 2;
    }
    if permissions[2] {
        perms = perms + 1;
    }
    perms = perms * (8 * 8);
    perms = perms + (4 * 8 + 4);
    perms
}

/// Where chunk `index` of a file starts.
pub fn chunk_offset(index: i64) -> (r: u64)
    requires
        index >= 0,
        index * UNPACK_CHUNK_SIZE <= u64::MAX,
    ensures
        r == index * UNPACK_CHUNK_SIZE,
{
    (index as u64) * UNPACK_CHUNK_SIZE
}

/// The file a chunk is stored in.
pub fn chunk_file_name(uuid: &str) -> (r: String)
    ensures
        r@ == uuid@ + ".bin"@,
{
    concat(uuid, ".bin")
}

} // verus!
