use ros_kernel::flags::OpenFlags;
use ros_kernel::inode::{open_file, FileExt, Inode, OSInode, UserBuffer};

fn file_inode() -> OSInode<(), u32> {
    OSInode::new(true, true, Inode::File(7))
}

fn names(v: &[&str]) -> Vec<String> {
    v.iter().map(|s| s.to_string()).collect()
}

#[test]
fn new_inode_starts_at_zero() {
    let ino: OSInode<(), u32> = OSInode::new(true, false, Inode::File(3));
    assert_eq!(ino.inner.offset, 0);
    assert_eq!(ino.file_offset(), 0);
    assert!(ino.readable());
    assert!(!ino.writable());
    assert!(matches!(ino.inner.inode, Inode::File(3)));
}

#[test]
fn file_offset_truncates_to_u32() {
    let mut ino = file_inode();
    ino.inner.offset = 0x1_0000_0005;
    assert_eq!(ino.file_offset(), 5);
}

#[test]
fn read_fills_slices_in_order() {
    let mut ino = file_inode();
    let data: Vec<u8> = (1..=10).collect();
    let mut buf = UserBuffer { buffers: vec![vec![0; 3], vec![0; 4], vec![0; 2]] };
    assert_eq!(ino.read(&data, &mut buf), Ok(9));
    assert_eq!(buf.buffers, vec![vec![1, 2, 3], vec![4, 5, 6, 7], vec![8, 9]]);
    assert_eq!(ino.inner.offset, 9);
}

#[test]
fn read_stops_when_data_runs_out() {
    let mut ino = file_inode();
    ino.inner.offset = 100;
    let data: Vec<u8> = vec![9, 8, 7, 6, 5];
    let mut buf = UserBuffer { buffers: vec![vec![0xaa; 3], vec![0xbb; 4], vec![0xcc; 2]] };
    assert_eq!(ino.read(&data, &mut buf), Ok(5));
    assert_eq!(buf.buffers, vec![vec![9, 8, 7], vec![6, 5, 0xbb, 0xbb], vec![0xcc, 0xcc]]);
    assert_eq!(ino.inner.offset, 105);
}

#[test]
fn read_exactly_filling_a_slice_leaves_later_ones() {
    let mut ino = file_inode();
    let data: Vec<u8> = vec![1, 2, 3];
    let mut buf = UserBuffer { buffers: vec![vec![0; 3], vec![0xee; 2]] };
    assert_eq!(ino.read(&data, &mut buf), Ok(3));
    assert_eq!(buf.buffers, vec![vec![1, 2, 3], vec![0xee, 0xee]]);
}

#[test]
fn read_with_no_data_changes_nothing() {
    let mut ino = file_inode();
    let data: Vec<u8> = Vec::new();
    let mut buf = UserBuffer { buffers: vec![vec![4; 2], vec![], vec![5]] };
    assert_eq!(ino.read(&data, &mut buf), Ok(0));
    assert_eq!(buf.buffers, vec![vec![4, 4], vec![], vec![5]]);
    assert_eq!(ino.inner.offset, 0);
}

#[test]
fn read_into_empty_buffer() {
    let mut ino = file_inode();
    let data: Vec<u8> = vec![1, 2];
    let mut buf = UserBuffer { buffers: vec![] };
    assert_eq!(ino.read(&data, &mut buf), Ok(0));
    assert_eq!(ino.inner.offset, 0);
}

#[test]
fn write_counts_every_slice() {
    let mut ino = file_inode();
    ino.inner.offset = 4;
    let buf = UserBuffer { buffers: vec![vec![1; 3], vec![], vec![2; 5]] };
    assert_eq!(ino.write(&buf), Ok(8));
    assert_eq!(ino.inner.offset, 12);
    assert!(ino.readable() && ino.writable());
}

#[test]
fn open_create_existing_clears() {
    let entries = names(&["a", "hello", "b"]);
    let f = OpenFlags::CREATE().union(OpenFlags::RDWR());
    let plan = open_file("hello", f, &entries).unwrap();
    assert!(!plan.create);
    assert!(plan.clear);
    assert!(plan.readable && plan.writable);
}

#[test]
fn open_create_missing_creates() {
    let entries = names(&["a", "b"]);
    let f = OpenFlags::CREATE().union(OpenFlags::WRONLY());
    let plan = open_file("hello", f, &entries).unwrap();
    assert!(plan.create);
    assert!(!plan.clear);
    assert!(!plan.readable && plan.writable);
}

#[test]
fn open_existing_without_create() {
    let entries = names(&["hello"]);
    let plan = open_file("hello", OpenFlags::RDONLY(), &entries).unwrap();
    assert!(!plan.create && !plan.clear);
    assert!(plan.readable && !plan.writable);
    let plan = open_file("hello", OpenFlags::TRUNC(), &entries).unwrap();
    assert!(!plan.create && plan.clear);
}

#[test]
fn open_missing_without_create_is_none() {
    let entries = names(&["hello", "hell", "hello2"]);
    assert!(open_file("hel", OpenFlags::RDONLY(), &entries).is_none());
    assert!(open_file("x", OpenFlags::TRUNC(), &Vec::new()).is_none());
}

#[test]
fn write_offsets_are_the_starting_offset() {
    let mut ino = file_inode();
    ino.inner.offset = 40;
    let buf = UserBuffer { buffers: vec![vec![1; 3], vec![2; 2], vec![]] };
    assert_eq!(ino.write_offsets(&buf), vec![40, 40, 40]);
    assert_eq!(ino.write(&buf), Ok(5));
    assert_eq!(ino.write_offsets(&buf), vec![45, 45, 45]);
}

#[test]
fn access_kept_across_reads_and_writes() {
    let mut ino: OSInode<(), u32> = OSInode::new(false, true, Inode::File(1));
    let data: Vec<u8> = vec![1, 2, 3];
    let mut buf = UserBuffer { buffers: vec![vec![0; 2]] };
    for _ in 0..3 {
        ino.read(&data, &mut buf).unwrap();
        ino.write(&buf).unwrap();
        assert!(!ino.readable());
        assert!(ino.writable());
    }
}

#[test]
fn two_reads_deliver_consecutive_bytes() {
    let content: Vec<u8> = (0..20).collect();
    let mut ino = file_inode();
    ino.inner.offset = 3;
    let mut b1 = UserBuffer { buffers: vec![vec![0; 2], vec![0; 3]] };
    let d1 = content[ino.file_offset() as usize..].to_vec();
    assert_eq!(ino.read(&d1, &mut b1), Ok(5));
    let mut b2 = UserBuffer { buffers: vec![vec![0; 4]] };
    let d2 = content[ino.file_offset() as usize..].to_vec();
    assert_eq!(ino.read(&d2, &mut b2), Ok(4));
    let got: Vec<u8> = b1.buffers.concat().into_iter().chain(b2.buffers.concat()).collect();
    assert_eq!(got, content[3..12].to_vec());
    assert_eq!(ino.inner.offset, 12);
}
