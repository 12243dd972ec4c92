use vstd::prelude::*;

use crate::metadata::EntryMetadata;

verus! {

/// Size policy: how many bytes one entry is charged for.
#[derive(Debug, Clone, Copy)]
pub enum FilesizeType {
    /// Storage actually allocated: the reported block count times the fixed
    /// 512-byte block unit; entries without a block count fall back to the
    /// apparent size.
    DiskUsage,
    /// Logical byte length of the entry.
    ApparentSize,
}

impl FilesizeType {
    /// The byte count this policy charges for an entry with the given
    /// metadata. A block count so large that the product would not fit in a
    /// `u64` saturates at `u64::MAX`.
    pub open spec fn spec_size(self, m: EntryMetadata) -> u64 {
        match self {
            FilesizeType::ApparentSize => m.len,
            FilesizeType::DiskUsage => match m.blocks {
                // block size is always 512 byte, see stat(2) manpage
                Some(b) => if b * 512 <= u64::MAX {
                    (b * 512) as u64
                } else {
                    u64::MAX
                },
                None => m.len,
            },
        }
    }

    pub fn size(self, metadata: &EntryMetadata) -> (r: u64)
        ensures
            r == self.spec_size(*metadata),
    {
        match self {
            FilesizeType::ApparentSize => metadata.len,
            FilesizeType::DiskUsage => match metadata.blocks {
                Some(b) => if b <= u64::MAX / 512 {
                    b * 512
                } else {
                    u64::MAX
                },
                None => metadata.len,
            },
        }
    }
}

} // verus!
