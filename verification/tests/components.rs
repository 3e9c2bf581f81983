use journalfile::byte_file::ByteFile;
use journalfile::counting_io::CountingIO;
use journalfile::owned_or_ref::OwnedOrRef;

#[test]
fn byte_file_read_write_seek() {
    let mut file = ByteFile::empty();
    assert_eq!(file.write(&[1, 2, 3, 4]), 4);
    assert_eq!(file.len(), 4);
    file.seek(1);
    assert_eq!(file.read(2), vec![2, 3]);
    // reading past the end returns what is left
    assert_eq!(file.read(10), vec![4]);
    assert_eq!(file.read(10), Vec::<u8>::new());
}

#[test]
fn byte_file_overwrite_and_zero_fill() {
    let mut file = ByteFile::from_bytes(vec![9, 9, 9, 9]);
    file.seek(1);
    file.write(&[7, 7]);
    // a seek past the end zero-fills the gap on the next write
    file.seek(6);
    file.write(&[5]);
    assert_eq!(file.into_bytes(), vec![9, 7, 7, 9, 0, 0, 5]);
}

#[test]
fn counting_io_tracks_position() {
    let mut io = CountingIO::new(ByteFile::from_bytes(vec![10, 11, 12, 13, 14]));
    // tracking is off until a position is installed
    assert_eq!(io.position(), None);
    assert_eq!(io.read(2), vec![10, 11]);
    assert_eq!(io.position(), None);
    let mut io = io.without_offset();
    assert_eq!(io.position(), Some(0));
    assert_eq!(io.read(2), vec![12, 13]);
    assert_eq!(io.position(), Some(2));
    // a seek installs its absolute result as the tracked position
    io.seek(1);
    assert_eq!(io.position(), Some(1));
    assert_eq!(io.read(3), vec![11, 12, 13]);
    assert_eq!(io.position(), Some(4));
    io.set_position(100);
    assert_eq!(io.position(), Some(100));
    let file = io.into_inner();
    assert_eq!(file.into_bytes(), vec![10, 11, 12, 13, 14]);
}

#[test]
fn counting_io_counts_writes() {
    let mut io = CountingIO::new(ByteFile::empty()).with_offset(5);
    assert_eq!(io.position(), Some(5));
    io.write(&[1, 2, 3]);
    assert_eq!(io.position(), Some(8));
    io.flush();
    assert_eq!(io.position(), Some(8));
}

#[test]
fn owned_or_ref_forms() {
    let owned: OwnedOrRef<u32> = OwnedOrRef::Owned(7);
    assert_eq!(*owned.as_ref(), 7);
    assert_eq!(owned.unwrap_owned(), 7);

    let mut lent: OwnedOrRef<u32> = OwnedOrRef::Ref(1);
    *lent.as_mut() = 2;
    assert_eq!(*lent.as_ref(), 2);
    let (value, was_owned) = lent.into_parts();
    assert_eq!(value, 2);
    assert!(!was_owned);
    let rebuilt = OwnedOrRef::rebuild(value, was_owned);
    assert!(matches!(rebuilt, OwnedOrRef::Ref(2)));
}

#[test]
fn owned_or_ref_passthrough_io() {
    let mut handle = OwnedOrRef::Owned(ByteFile::empty());
    handle.write(&[1, 2, 3]);
    handle.seek(0);
    assert_eq!(handle.read(3), vec![1, 2, 3]);
    assert_eq!(handle.seek_end(), 3);
}
