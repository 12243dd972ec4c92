use diskus::aggregate::aggregate;
use diskus::aggregate::Aggregator;
use diskus::generate_unique_id;
use diskus::walk::Error;
use diskus::walk::FsTree;
use diskus::walk::Message;
use diskus::EntryMetadata;
use diskus::FilesizeType;
use diskus::UniqueID;
use diskus::Walk;

fn file_meta(len: u64, nlink: u64, device: u64, inode: u64) -> EntryMetadata {
    EntryMetadata {
        is_dir: false,
        is_file: true,
        len,
        blocks: Some(len.div_ceil(512)),
        nlink: Some(nlink),
        device_inode: Some((device, inode)),
    }
}

fn dir_meta(len: u64) -> EntryMetadata {
    EntryMetadata {
        is_dir: true,
        is_file: false,
        len,
        blocks: Some(len.div_ceil(512)),
        nlink: Some(1),
        device_inode: Some((1, 999)),
    }
}

fn file_node(path: &str, len: u64, nlink: u64, inode: u64) -> FsTree {
    FsTree {
        path: path.to_string(),
        meta: Some(file_meta(len, nlink, 1, inode)),
        children: None,
    }
}

fn dir_node(path: &str, len: u64, children: Vec<FsTree>) -> FsTree {
    FsTree { path: path.to_string(), meta: Some(dir_meta(len)), children: Some(children) }
}

fn unreadable_dir(path: &str, len: u64) -> FsTree {
    FsTree { path: path.to_string(), meta: Some(dir_meta(len)), children: None }
}

fn missing(path: &str) -> FsTree {
    FsTree { path: path.to_string(), meta: None, children: None }
}

#[test]
fn size_of_single_file() {
    let root = file_node("diskus-tests/file-100-byte", 100, 1, 1);
    let walk = Walk::new(vec![root], 1, FilesizeType::ApparentSize);
    let (size_in_bytes, errors) = walk.run();
    assert!(errors.is_empty());
    assert_eq!(size_in_bytes, 100);
}

// A fixture like the concrete scenario: root/ holding a (100 bytes, 1
// link), b (50 bytes, 2 links), b2 (second link to b), and sub/ holding c
// (25 bytes); directory sizes 4096 each.
fn scenario_root() -> FsTree {
    dir_node(
        "root",
        4096,
        vec![
            file_node("root/a", 100, 1, 1),
            file_node("root/b", 50, 2, 2),
            file_node("root/b2", 50, 2, 2),
            dir_node("root/sub", 4096, vec![file_node("root/sub/c", 25, 1, 3)]),
        ],
    )
}

#[test]
fn concrete_scenario() {
    let walk = Walk::new(vec![scenario_root()], 4, FilesizeType::ApparentSize);
    let (total, errors) = walk.run();
    // 4096 (root) + 100 (a) + 50 (b, counted once) + 0 (b2) + 4096 (sub) + 25 (c)
    assert_eq!(total, 8367);
    assert!(errors.is_empty());
}

#[test]
fn total_is_independent_of_thread_count() {
    let mut totals = Vec::new();
    for threads in [1, 2, 8] {
        let walk = Walk::new(vec![scenario_root()], threads, FilesizeType::ApparentSize);
        let (total, errors) = walk.run();
        assert!(errors.is_empty());
        totals.push(total);
    }
    assert_eq!(totals[0], totals[1]);
    assert_eq!(totals[1], totals[2]);
}

#[test]
fn total_is_independent_of_arrival_order() {
    let unique_id = UniqueID { device: 1, inode: 2 };
    let in_order = vec![
        Message::SizeEntry(None, 100),
        Message::SizeEntry(Some(unique_id), 50),
        Message::SizeEntry(None, 25),
        Message::SizeEntry(Some(unique_id), 50),
    ];
    let reordered = vec![
        Message::SizeEntry(Some(unique_id), 50),
        Message::SizeEntry(None, 25),
        Message::SizeEntry(Some(unique_id), 50),
        Message::SizeEntry(None, 100),
    ];
    let (total_a, _) = aggregate(&in_order);
    let (total_b, _) = aggregate(&reordered);
    assert_eq!(total_a, 175);
    assert_eq!(total_b, 175);
}

#[test]
fn hardlinked_file_counted_once() {
    let root = dir_node(
        "root",
        4096,
        vec![file_node("root/b", 50, 2, 2), file_node("root/b2", 50, 2, 2)],
    );
    let walk = Walk::new(vec![root], 1, FilesizeType::ApparentSize);
    let (total, errors) = walk.run();
    assert_eq!(total, 4096 + 50);
    assert!(errors.is_empty());
}

#[test]
fn equal_sized_ordinary_files_both_counted() {
    // same length, same link count 1, different inodes: no accidental dedup
    let root = dir_node(
        "root",
        4096,
        vec![file_node("root/x", 70, 1, 10), file_node("root/y", 70, 1, 11)],
    );
    let walk = Walk::new(vec![root], 1, FilesizeType::ApparentSize);
    let (total, errors) = walk.run();
    assert_eq!(total, 4096 + 140);
    assert!(errors.is_empty());
}

#[test]
fn unreadable_subdirectory_is_isolated() {
    let root = dir_node(
        "root",
        4096,
        vec![
            file_node("root/a", 100, 1, 1),
            unreadable_dir("root/bad", 4096),
            file_node("root/z", 11, 1, 12),
        ],
    );
    let walk = Walk::new(vec![root], 2, FilesizeType::ApparentSize);
    let (total, errors) = walk.run();
    // the unreadable directory still contributes its own size, but no children
    assert_eq!(total, 4096 + 100 + 4096 + 11);
    assert_eq!(errors, vec![Error::CouldNotReadDir("root/bad".to_string())]);
}

#[test]
fn missing_root_is_isolated() {
    let roots = vec![missing("gone"), file_node("still-here", 40, 1, 5)];
    let walk = Walk::new(roots, 2, FilesizeType::ApparentSize);
    let (total, errors) = walk.run();
    assert_eq!(total, 40);
    assert_eq!(errors, vec![Error::NoMetadataForPath("gone".to_string())]);
}

#[test]
fn empty_root_yields_its_own_size() {
    for threads in [1, 2, 8] {
        let root = dir_node("empty", 4096, vec![]);
        let walk = Walk::new(vec![root], threads, FilesizeType::ApparentSize);
        let (total, errors) = walk.run();
        assert_eq!(total, 4096);
        assert!(errors.is_empty());
    }
}

#[test]
fn disk_usage_charges_whole_blocks() {
    let meta = file_meta(100, 1, 1, 1);
    // 100 bytes occupy one 512-byte block
    assert_eq!(FilesizeType::DiskUsage.size(&meta), 512);
    assert_eq!(FilesizeType::ApparentSize.size(&meta), 100);
}

#[test]
fn disk_usage_falls_back_without_block_count() {
    let meta = EntryMetadata {
        is_dir: false,
        is_file: true,
        len: 300,
        blocks: None,
        nlink: Some(1),
        device_inode: Some((1, 1)),
    };
    assert_eq!(FilesizeType::DiskUsage.size(&meta), 300);
}

#[test]
fn disk_usage_saturates_on_huge_block_count() {
    let meta = EntryMetadata {
        is_dir: false,
        is_file: true,
        len: 0,
        blocks: Some(u64::MAX),
        nlink: Some(1),
        device_inode: Some((1, 1)),
    };
    assert_eq!(FilesizeType::DiskUsage.size(&meta), u64::MAX);
}

#[test]
fn unique_id_only_for_multiply_linked_regular_files() {
    assert_eq!(
        generate_unique_id(&file_meta(10, 2, 7, 8)),
        Some(UniqueID { device: 7, inode: 8 })
    );
    assert_eq!(generate_unique_id(&file_meta(10, 1, 7, 8)), None);
    // a directory is never deduplicated, whatever its link count
    let mut d = dir_meta(4096);
    d.nlink = Some(5);
    assert_eq!(generate_unique_id(&d), None);
}

#[test]
fn unique_id_absent_without_platform_support() {
    let mut m = file_meta(10, 2, 7, 8);
    m.nlink = None;
    assert_eq!(generate_unique_id(&m), None);
    let mut m = file_meta(10, 2, 7, 8);
    m.device_inode = None;
    assert_eq!(generate_unique_id(&m), None);
}

#[test]
fn total_saturates_instead_of_overflowing() {
    let msgs = vec![
        Message::SizeEntry(None, u64::MAX),
        Message::SizeEntry(None, 1),
    ];
    let (total, errors) = aggregate(&msgs);
    assert_eq!(total, u64::MAX);
    assert!(errors.is_empty());
}

#[test]
fn aggregator_steps_match_batch_aggregation() {
    let unique_id = UniqueID { device: 3, inode: 4 };
    let msgs = vec![
        Message::SizeEntry(Some(unique_id), 8),
        Message::Error { error: Error::NoMetadataForPath("p".to_string()) },
        Message::SizeEntry(Some(unique_id), 8),
        Message::SizeEntry(None, 2),
    ];
    let mut agg = Aggregator::new();
    for msg in &msgs {
        agg.step(msg.clone());
    }
    let (total, errors) = agg.finish();
    assert_eq!(total, 10);
    assert_eq!(errors, vec![Error::NoMetadataForPath("p".to_string())]);
    let (batch_total, batch_errors) = aggregate(&msgs);
    assert_eq!(batch_total, total);
    assert_eq!(batch_errors, errors);
}

#[test]
fn zero_threads_coerced_to_one() {
    let walk = Walk::new(vec![file_node("f", 1, 1, 1)], 0, FilesizeType::ApparentSize);
    assert_eq!(walk.num_threads, 1);
    let (total, errors) = walk.run();
    assert_eq!(total, 1);
    assert!(errors.is_empty());
}
