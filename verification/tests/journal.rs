use journalfile::byte_file::ByteFile;
use journalfile::indexed_journal::IndexedJournal;
use journalfile::journal_reader::JournalReader;
use journalfile::journal_writer::JournalWriter;
use journalfile::owned_or_ref::OwnedOrRef;
use journalfile::{IoError, JournalError};

fn owned_empty() -> OwnedOrRef<ByteFile> {
    OwnedOrRef::Owned(ByteFile::empty())
}

fn write_all(entries: &[&str]) -> OwnedOrRef<ByteFile> {
    let mut writer = JournalWriter::new(owned_empty());
    for e in entries {
        writer.store_entry(e.to_string()).unwrap();
    }
    writer.into_inner()
}

#[test]
fn test_example_01() {}

#[test]
fn round_trip_sequential_read() {
    let entries = ["Hello World!", "", "Another Test Entry."];
    let handle = write_all(&entries);
    let mut reader = JournalReader::new(handle);
    let mut it = reader.iter();
    for e in entries {
        assert_eq!(it.next().unwrap().unwrap(), e.to_string());
    }
    assert!(it.next().is_none());
    assert!(it.next().is_none());
}

#[test]
fn default_codec_exact_bytes() {
    let mut writer = JournalWriter::new(owned_empty());
    writer.store_entry("abc".to_string()).unwrap();
    let (file, owned) = writer.into_inner().into_parts();
    assert!(owned);
    assert_eq!(file.into_bytes(), vec![3, 97, 98, 99]);
}

#[test]
fn batch_append_exact_bytes() {
    let mut writer = JournalWriter::new(owned_empty());
    writer
        .store_entries(vec!["a".to_string(), "bc".to_string()])
        .unwrap();
    let (file, _) = writer.into_inner().into_parts();
    assert_eq!(file.into_bytes(), vec![1, 97, 2, 98, 99]);
}

#[test]
fn long_record_varint_prefix() {
    // a 300-byte record: the varint length prefix becomes a marker byte
    // followed by a little-endian u16
    let long = "x".repeat(300);
    let mut writer = JournalWriter::new(owned_empty());
    writer.store_entry(long.clone()).unwrap();
    let (file, _) = writer.into_inner().into_parts();
    let bytes = file.into_bytes();
    assert_eq!(bytes.len(), 303);
    assert_eq!(&bytes[..3], &[251, 44, 1]);
    let mut reader = JournalReader::new(OwnedOrRef::Owned(ByteFile::from_bytes(bytes)));
    let mut it = reader.iter();
    assert_eq!(it.next().unwrap().unwrap(), long);
    assert!(it.next().is_none());
}

#[test]
fn index_correctness() {
    let entries = ["one", "second", "", "fourth entry"];
    let handle = write_all(&entries);
    // sequential read for comparison
    let mut reader = JournalReader::new(handle);
    let mut it = reader.iter();
    let mut sequential: Vec<String> = Vec::new();
    while let Some(item) = it.next() {
        sequential.push(item.unwrap());
    }
    it.finish(&mut reader);
    let mut journal = IndexedJournal::new(reader.into_inner()).unwrap();
    // offsets: each short string encodes as 1 length byte plus its bytes
    assert_eq!(journal.index.entry_indices, vec![0, 4, 11, 12]);
    for (i, e) in entries.iter().enumerate() {
        assert_eq!(journal.load_entry(i).unwrap(), e.to_string());
        assert_eq!(journal.load_entry(i).unwrap(), sequential[i]);
    }
}

#[test]
fn out_of_bounds_lookup_and_iteration() {
    let entries = ["a", "b", "c"];
    let mut journal = IndexedJournal::new(write_all(&entries)).unwrap();
    assert_eq!(
        journal.load_entry(3),
        Err::<String, _>(JournalError::IndexOutOfBounds)
    );
    assert!(matches!(
        journal.iter_from(3),
        Err(JournalError::IndexOutOfBounds)
    ));
    // the handle stayed with the journal: in-range access still works
    assert_eq!(journal.load_entry(2).unwrap(), "c".to_string());
}

#[test]
fn resumed_iteration_continues_at_sixth() {
    let entries: Vec<String> = (1..=10).map(|i| format!("value {i}")).collect();
    let mut writer = JournalWriter::new(owned_empty());
    writer.store_entries(entries.clone()).unwrap();
    let mut reader = JournalReader::new(writer.into_inner());
    let mut it = reader.iter();
    for i in 0..5 {
        assert_eq!(it.next().unwrap().unwrap(), entries[i]);
    }
    it.finish(&mut reader);
    reader.seek_on_iter_start(false);
    let mut it = reader.iter();
    assert_eq!(it.next().unwrap().unwrap(), entries[5]);
    it.finish(&mut reader);
    // with seek-on-start enabled again, iteration restarts at the beginning
    reader.seek_on_iter_start(true);
    let mut it = reader.iter();
    assert_eq!(it.next().unwrap().unwrap(), entries[0]);
}

#[test]
fn dirty_tail_detection() {
    let entries = ["alpha", "beta", "gamma"];
    let mut writer = JournalWriter::new(write_all(&entries));
    writer.store_entry("interrupted final record".to_string()).unwrap();
    let (file, _) = writer.into_inner().into_parts();
    let mut bytes = file.into_bytes();
    // truncate the file in the middle of the final record's encoding
    bytes.truncate(bytes.len() - 7);
    let handle = OwnedOrRef::Owned(ByteFile::from_bytes(bytes));
    let mut reader = JournalReader::new(handle);
    let mut it = reader.iter();
    for e in entries {
        assert_eq!(it.next().unwrap().unwrap(), e.to_string());
    }
    // all complete records came back, then exactly one I/O error
    assert_eq!(
        it.next(),
        Some(Err(JournalError::IOError(IoError::UnexpectedEof)))
    );
    assert!(it.next().is_none());
}

#[test]
fn dirty_tail_fails_index_build() {
    let mut writer = JournalWriter::new(write_all(&["kept record"]));
    writer.store_entry("lost record".to_string()).unwrap();
    let (file, _) = writer.into_inner().into_parts();
    let mut bytes = file.into_bytes();
    bytes.truncate(bytes.len() - 3);
    let result = IndexedJournal::new(OwnedOrRef::Owned(ByteFile::from_bytes(bytes)));
    assert!(matches!(
        result,
        Err(JournalError::IOError(IoError::UnexpectedEof))
    ));
}

#[test]
fn codec_failure_surfaces_once() {
    // a record framed as three payload bytes that are not valid UTF-8
    let bytes = vec![3, 0xFF, 0xFE, 0xFD];
    let mut reader = JournalReader::new(OwnedOrRef::Owned(ByteFile::from_bytes(bytes)));
    let mut it = reader.iter();
    assert!(matches!(
        it.next(),
        Some(Err(JournalError::SerializationError(_)))
    ));
    assert!(it.next().is_none());
}

#[test]
fn empty_journal() {
    let mut journal = IndexedJournal::new(owned_empty()).unwrap();
    assert_eq!(journal.index.entry_indices.len(), 0);
    assert_eq!(
        journal.load_entry(0),
        Err::<String, _>(JournalError::IndexOutOfBounds)
    );
    let mut it = journal.iter();
    assert!(it.next().is_none());
    it.finish(&mut journal);
}

#[test]
fn appends_invisible_until_reopen() {
    let mut journal = IndexedJournal::new(write_all(&["first"])).unwrap();
    journal.store_entry("second".to_string()).unwrap();
    // the index is a point-in-time snapshot: the new record is invisible
    assert_eq!(journal.index.entry_indices.len(), 1);
    assert_eq!(
        journal.load_entry(1),
        Err::<String, _>(JournalError::IndexOutOfBounds)
    );
    // iteration reads only up to the length scanned at open, so the
    // appended record stays out of sight too
    let mut it = journal.iter();
    assert_eq!(it.next().unwrap().unwrap(), "first".to_string());
    assert!(it.next().is_none());
    it.finish(&mut journal);
    // reopening rebuilds the index over both records
    let mut reopened = IndexedJournal::new(journal.into_inner()).unwrap();
    assert_eq!(reopened.index.entry_indices.len(), 2);
    assert_eq!(reopened.load_entry(1).unwrap(), "second".to_string());
    let mut it = reopened.iter();
    assert_eq!(it.next().unwrap().unwrap(), "first".to_string());
    assert_eq!(it.next().unwrap().unwrap(), "second".to_string());
    assert!(it.next().is_none());
    it.finish(&mut reopened);
}

#[test]
fn worked_scenario() {
    let mut entries: Vec<String> = vec![
        "Hello World!".to_string(),
        "Another Entry".to_string(),
        "Even more data".to_string(),
    ];
    for i in 4..=99 {
        entries.push(format!("This is entry no {i}."));
    }
    let mut writer = JournalWriter::new(owned_empty());
    writer.store_entries(entries).unwrap();
    let mut journal = IndexedJournal::new(writer.into_inner()).unwrap();
    assert_eq!(journal.load_entry(4).unwrap(), "This is entry no 5.".to_string());
    assert_eq!(journal.load_entry(13).unwrap(), "This is entry no 14.".to_string());
    let mut it = journal.iter_from(20).unwrap();
    assert_eq!(it.next().unwrap().unwrap(), "This is entry no 21.".to_string());
    assert_eq!(it.next().unwrap().unwrap(), "This is entry no 22.".to_string());
    assert_eq!(it.next().unwrap().unwrap(), "This is entry no 23.".to_string());
    it.finish(&mut journal);
    assert_eq!(
        journal.load_entry(200),
        Err::<String, _>(JournalError::IndexOutOfBounds)
    );
}
