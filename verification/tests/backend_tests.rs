use kernel_vfs::error::VfsError;
use kernel_vfs::fs::Filesystem;
use kernel_vfs::mountpoint::{MountPoint, MountRegistry};
use kernel_vfs::tmpfs::{DataType, DirType, Node, TmpFS};

#[test]
fn backend_slot_numbers_are_dense_from_zero() {
    let mut fs = TmpFS::new(100);
    assert_eq!(Filesystem::add_node(&mut fs, vec![1u8]), 0);
    assert_eq!(Filesystem::add_node(&mut fs, vec![2u8, 3]), 1);
    assert_eq!(fs.read(0, 10).unwrap(), vec![1u8]);
    assert_eq!(fs.read(1, 10).unwrap(), vec![2u8, 3]);
}

#[test]
fn backend_read_clamps_and_never_pads() {
    let mut fs = TmpFS::new(100);
    let inode = Filesystem::add_node(&mut fs, vec![1u8, 2, 3]);
    assert_eq!(fs.read(inode, 2).unwrap(), vec![1u8, 2]);
    assert_eq!(fs.read(inode, 3).unwrap(), vec![1u8, 2, 3]);
    assert_eq!(fs.read(inode, 50).unwrap(), vec![1u8, 2, 3]);
}

#[test]
fn backend_write_replaces_whole_content() {
    let mut fs = TmpFS::new(100);
    let inode = Filesystem::add_node(&mut fs, vec![1u8, 2, 3, 4]);
    assert_eq!(fs.write(inode, &[9u8, 9]).unwrap(), 2);
    assert_eq!(fs.read(inode, 4).unwrap(), vec![9u8, 9]);
}

#[test]
fn backend_unknown_slot_is_not_found() {
    let mut fs = TmpFS::new(100);
    assert_eq!(fs.read(3, 1), Err(VfsError::NotFound));
    assert_eq!(fs.write(3, &[1u8]), Err(VfsError::NotFound));
}

#[test]
fn backend_directory_and_link_slots_refuse_reads() {
    let mut fs = TmpFS::new(100);
    let dir = fs.add_node(DataType::Directory(Vec::new()));
    let link = fs.add_node(DataType::Link(vec![b'/']));
    assert_eq!(fs.read(dir, 1), Err(VfsError::TypeMismatch));
    assert_eq!(fs.read(link, 1), Err(VfsError::TypeMismatch));
}

#[test]
fn backend_write_over_directory_makes_regular_content() {
    let mut fs = TmpFS::new(100);
    let dir = fs.add_node(DataType::Directory(Vec::new()));
    assert_eq!(fs.write(dir, &[4u8, 5]).unwrap(), 2);
    assert_eq!(fs.read(dir, 2).unwrap(), vec![4u8, 5]);
}

#[test]
fn mount_identifiers_are_monotonic_from_zero() {
    let mut reg = MountRegistry::new();
    let id0 = MountPoint::new(&mut reg, TmpFS::new(10));
    let id1 = MountPoint::new(&mut reg, TmpFS::new(10));
    assert_eq!(id0, 0);
    assert_eq!(id1, 1);
    assert_eq!(MountPoint::get_mountpoint_by_id(&reg, 1).unwrap(), Some(1));
    assert_eq!(MountPoint::get_mountpoint_by_id(&reg, 7).unwrap(), None);
}

#[test]
fn empty_registry_reports_registry_uninitialized() {
    let reg = MountRegistry::new();
    assert_eq!(
        MountPoint::get_mountpoint_by_id(&reg, 0),
        Err(VfsError::RegistryUninitialized)
    );
    assert_eq!(reg.read_through(0, 0, 1), Err(VfsError::RegistryUninitialized));
}

#[test]
fn unknown_mount_is_invalid() {
    let mut reg = MountRegistry::new();
    MountPoint::new(&mut reg, TmpFS::new(10));
    assert_eq!(reg.read_through(7, 0, 1), Err(VfsError::InvalidMount));
    assert_eq!(reg.write_through(7, 0, &[1u8]), Err(VfsError::InvalidMount));
}

#[test]
fn registry_reads_and_writes_through_mounts() {
    let mut reg = MountRegistry::new();
    let mut fs = TmpFS::new(10);
    let inode = Filesystem::add_node(&mut fs, vec![1u8, 2]);
    let id = MountPoint::new(&mut reg, fs);
    assert_eq!(reg.read_through(id, inode, 10).unwrap(), vec![1u8, 2]);
    assert_eq!(reg.write_through(id, inode, &[5u8, 6, 7]).unwrap(), 3);
    assert_eq!(reg.read_through(id, inode, 10).unwrap(), vec![5u8, 6, 7]);
}

#[test]
fn directory_entries_keep_their_fields() {
    let entry = DirType::new(String::from("boot"), 3, DataType::Regular(vec![1u8]));
    assert_eq!(entry.name, "boot");
    assert_eq!(entry.inode, 3);
    let node = Node::new(DataType::Link(vec![2u8]));
    match node.data_type {
        DataType::Link(target) => assert_eq!(target, vec![2u8]),
        _ => panic!("expected a link slot"),
    }
}
