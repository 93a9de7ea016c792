use kernel_vfs::error::VfsError;
use kernel_vfs::file::File;
use kernel_vfs::vfs::{get_vfs_node, init_vfs, split_path};
use kernel_vfs::{init, Vfs};

fn boot() -> Vfs {
    let mut v = Vfs::new();
    init(&mut v);
    v
}

#[test]
fn end_to_end_open_read_write_read() {
    let mut v = boot();
    let fd = File::open(&mut v, "/test.txt").unwrap();
    let data = File::read(&v, fd, 4).unwrap();
    assert_eq!(data.len(), 0);
    let wrote = File::write(&mut v, fd, &[0u8, 1, 2, 3], 4).unwrap();
    assert_eq!(wrote, 4);
    let data = File::read(&v, fd, 4).unwrap();
    assert_eq!(data, vec![0u8, 1, 2, 3]);
}

#[test]
fn open_twice_distinct_descriptors_same_node() {
    let mut v = boot();
    let fd1 = File::open(&mut v, "/same.txt").unwrap();
    let fd2 = File::open(&mut v, "/same.txt").unwrap();
    assert_ne!(fd1, fd2);
    let wrote = File::write(&mut v, fd1, &[7u8, 8], 2).unwrap();
    assert_eq!(wrote, 2);
    let through_other = File::read(&v, fd2, 2).unwrap();
    assert_eq!(through_other, vec![7u8, 8]);
}

#[test]
fn write_then_read_round_trip() {
    let mut v = boot();
    let fd = File::open(&mut v, "/roundtrip").unwrap();
    let b = [5u8, 6, 7, 8, 9];
    assert_eq!(File::write(&mut v, fd, &b, 5).unwrap(), 5);
    assert_eq!(File::read(&v, fd, 5).unwrap(), b.to_vec());
}

#[test]
fn shorter_write_truncates() {
    let mut v = boot();
    let fd = File::open(&mut v, "/trunc").unwrap();
    assert_eq!(File::write(&mut v, fd, &[1u8, 2, 3, 4], 4).unwrap(), 4);
    assert_eq!(File::write(&mut v, fd, &[9u8, 9], 2).unwrap(), 2);
    let data = File::read(&v, fd, 4).unwrap();
    assert_eq!(data, vec![9u8, 9]);
    assert_eq!(data.len(), 2);
}

#[test]
fn read_more_than_stored_never_pads() {
    let mut v = boot();
    let fd = File::open(&mut v, "/short").unwrap();
    assert_eq!(File::write(&mut v, fd, &[42u8, 43], 2).unwrap(), 2);
    let data = File::read(&v, fd, 10).unwrap();
    assert_eq!(data, vec![42u8, 43]);
}

#[test]
fn read_clamps_to_requested_count() {
    let mut v = boot();
    let fd = File::open(&mut v, "/clamp").unwrap();
    assert_eq!(File::write(&mut v, fd, &[1u8, 2, 3], 3).unwrap(), 3);
    assert_eq!(File::read(&v, fd, 2).unwrap(), vec![1u8, 2]);
}

#[test]
fn invalid_descriptor_fails_and_changes_nothing() {
    let mut v = boot();
    let fd = File::open(&mut v, "/held.txt").unwrap();
    assert_eq!(File::read(&v, 9999, 4), Err(VfsError::InvalidDescriptor));
    assert_eq!(
        File::write(&mut v, 9999, &[1u8, 2], 2),
        Err(VfsError::InvalidDescriptor)
    );
    // The table was left unmodified: the next descriptor continues the
    // sequence, and the held file is untouched.
    let fd2 = File::open(&mut v, "/next.txt").unwrap();
    assert_eq!(fd2, fd + 1);
    assert_eq!(File::read(&v, fd, 4).unwrap(), Vec::<u8>::new());
}

#[test]
fn missing_intermediate_segment_never_creates() {
    let mut v = boot();
    assert_eq!(
        File::open(&mut v, "/a/b/c"),
        Err(VfsError::PathNotCreatable)
    );
    // No partially created "/a": resolving it without creation still
    // finds nothing.
    assert_eq!(get_vfs_node(&mut v, "/a", false).unwrap(), None);
    assert_eq!(get_vfs_node(&mut v, "/a/b/c", true).unwrap(), None);
}

#[test]
fn nested_paths_resolve_through_created_parents() {
    let mut v = boot();
    let parent = get_vfs_node(&mut v, "/dir", true).unwrap().unwrap();
    let child = get_vfs_node(&mut v, "/dir/leaf", true).unwrap().unwrap();
    assert_ne!(parent, child);
    assert_eq!(get_vfs_node(&mut v, "/dir/leaf", false).unwrap(), Some(child));
}

#[test]
fn bare_root_path_never_resolves() {
    let mut v = boot();
    assert_eq!(get_vfs_node(&mut v, "/", true).unwrap(), None);
    assert_eq!(get_vfs_node(&mut v, "", true).unwrap(), None);
    assert_eq!(File::open(&mut v, "/"), Err(VfsError::PathNotCreatable));
    assert_eq!(File::open(&mut v, "noslash"), Err(VfsError::PathNotCreatable));
}

#[test]
fn open_before_table_init_reports_table_uninitialized() {
    let mut v = Vfs::new();
    init_vfs(&mut v);
    assert_eq!(
        File::open(&mut v, "/early.txt"),
        Err(VfsError::TableUninitialized)
    );
    assert_eq!(File::read(&v, 0, 1), Err(VfsError::TableUninitialized));
    assert_eq!(
        File::write(&mut v, 0, &[1u8], 1),
        Err(VfsError::TableUninitialized)
    );
}

#[test]
fn resolve_before_tree_init_finds_nothing() {
    let mut v = Vfs::new();
    assert_eq!(get_vfs_node(&mut v, "/x", true).unwrap(), None);
}

#[test]
fn write_count_zero_is_a_no_op() {
    let mut v = boot();
    let fd = File::open(&mut v, "/noop").unwrap();
    assert_eq!(File::write(&mut v, fd, &[1u8, 2, 3], 3).unwrap(), 3);
    assert_eq!(File::write(&mut v, fd, &[], 0).unwrap(), 0);
    assert_eq!(File::read(&v, fd, 3).unwrap(), vec![1u8, 2, 3]);
}

#[test]
fn write_uses_only_the_first_count_bytes() {
    let mut v = boot();
    let fd = File::open(&mut v, "/partial").unwrap();
    assert_eq!(File::write(&mut v, fd, &[1u8, 2, 3, 4], 2).unwrap(), 2);
    assert_eq!(File::read(&v, fd, 4).unwrap(), vec![1u8, 2]);
}

#[test]
fn split_path_splits_on_delimiters() {
    assert_eq!(split_path("/a/b"), vec!["", "a", "b"]);
    assert_eq!(split_path("/"), vec!["", ""]);
    assert_eq!(split_path(""), vec![""]);
    assert_eq!(split_path("a"), vec!["a"]);
    assert_eq!(split_path("/x/"), vec!["", "x", ""]);
}

#[test]
fn error_messages_are_descriptive() {
    assert!(VfsError::TableUninitialized.message().contains("Table"));
    assert!(VfsError::RegistryUninitialized.message().contains("registry"));
    assert!(VfsError::InvalidDescriptor.message().contains("descriptor"));
    assert!(VfsError::InvalidMount.message().contains("mountpoint"));
    assert!(VfsError::PathNotCreatable.message().contains("path"));
    assert!(VfsError::NotFound.message().contains("iNode"));
    assert!(VfsError::TypeMismatch.message().contains("directory"));
    assert!(VfsError::NullBuffer.message().contains("null"));
}
