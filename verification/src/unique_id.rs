use vstd::prelude::*;

use crate::metadata::EntryMetadata;

verus! {

/// Dedup key for hard-linked regular files: a (device id, inode number)
/// pair. Two directory entries with the same `UniqueID` reference the same
/// underlying file data, which must be counted once.
#[derive(Debug, Clone, Copy, PartialEq, Eq, Hash, Structural)]
pub struct UniqueID {
    pub device: u64,
    pub inode: u64,
}

/// The dedup key an entry carries: present iff the entry is a regular file
/// with more than one hard link, on a platform that exposes both a hard-link
/// count and a device/inode identity. Everything else carries no key and is
/// always counted.
pub open spec fn spec_unique_id(m: EntryMetadata) -> Option<UniqueID> {
    match (m.nlink, m.device_inode) {
        (Some(n), Some((device, inode))) => if m.is_file && n > 1 {
            Some(UniqueID { device, inode })
        } else {
            None
        },
        _ => None,
    }
}

/// If the entry has more than one hard link, generate a unique ID consisting
/// of device and inode in order not to count this entry twice. On platforms
/// that report no hard-link count or no device/inode identity this always
/// returns `None`, matching the platform's native duplicate counting.
pub fn generate_unique_id(metadata: &EntryMetadata) -> (r: Option<UniqueID>)
    ensures
        r == spec_unique_id(*metadata),
{
    match (metadata.nlink, metadata.device_inode) {
        (Some(n), Some((device, inode))) => if metadata.is_file && n > 1 {
            Some(UniqueID { device, inode })
        } else {
            None
        },
        _ => None,
    }
}

} // verus!
