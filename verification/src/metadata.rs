use vstd::prelude::*;

verus! {

/// OS-reported attributes of one filesystem entry, fetched without following
/// a terminal symbolic link.
///
/// Fields that a platform may not expose are optional: a missing block count
/// makes the disk-usage policy fall back to the apparent size, and a missing
/// hard-link count or device/inode identity makes the identity resolver
/// return no dedup key. Absence of a field never fails an entry.
#[derive(Debug, Clone, Copy)]
pub struct EntryMetadata {
    /// Whether the entry is a directory.
    pub is_dir: bool,
    /// Whether the entry is a regular file.
    pub is_file: bool,
    /// Logical byte length of the entry.
    pub len: u64,
    /// Number of allocated 512-byte blocks, where the platform reports one.
    pub blocks: Option<u64>,
    /// Number of hard links, where the platform reports one.
    pub nlink: Option<u64>,
    /// Device id and inode number, where the platform reports them.
    pub device_inode: Option<(u64, u64)>,
}

} // verus!
