use discstorage::archive::ArchiveEntry;
use discstorage::archive::ArchiveError;
use discstorage::archive::build_archive;
use discstorage::archive::check_entry_name;
use discstorage::archive::extract_archive;
use discstorage::codec::CodecError;
use discstorage::codec::CompressType;
use discstorage::codec::LzmaCompress;
use discstorage::codec::StageError;
use discstorage::codec::ZstdCompress;
use discstorage::config::Config;
use discstorage::config::Mode;
use discstorage::config::Storage;
use discstorage::config::store_request_ready;
use discstorage::progress::CancelFlag;
use discstorage::progress::ProgressTracker;
use discstorage::progress::progress_channel;

fn patterned(len: usize, seed: u64) -> Vec<u8> {
    let mut state = seed.wrapping_mul(2862933555777941757).wrapping_add(3037000493);
    let mut out = Vec::with_capacity(len);
    for i in 0..len {
        state = state.wrapping_mul(2862933555777941757).wrapping_add(3037000493);
        let b = if i % 2 == 0 { (i % 199) as u8 } else { (state >> 29) as u8 };
        out.push(b);
    }
    out
}

fn compress_with(kind: CompressType, data: &Vec<u8>, level: i32) -> Vec<u8> {
    let mut tracker = ProgressTracker::new(2);
    let (sink, _rx) = progress_channel();
    let cancel = CancelFlag::new();
    match kind {
        CompressType::LZMA => LzmaCompress.compress(data, level, &mut tracker, &sink, &cancel),
        CompressType::Zstd => ZstdCompress.compress(data, level, &mut tracker, &sink, &cancel),
    }
    .unwrap()
}

fn build_only(entries: &Vec<ArchiveEntry>) -> Result<Vec<u8>, ArchiveError> {
    let mut tracker = ProgressTracker::new(2);
    let (sink, _rx) = progress_channel();
    build_archive(entries, &mut tracker, &sink)
}

fn decompress_with(kind: CompressType, data: &Vec<u8>) -> Result<Vec<u8>, StageError> {
    let mut tracker = ProgressTracker::new(2);
    let (sink, _rx) = progress_channel();
    let cancel = CancelFlag::new();
    match kind {
        CompressType::LZMA => LzmaCompress.decompress(data, &mut tracker, &sink, &cancel),
        CompressType::Zstd => ZstdCompress.decompress(data, &mut tracker, &sink, &cancel),
    }
}

#[test]
fn lzma_round_trips_arbitrary_bytes() {
    let data = patterned(300000, 1);
    let compressed = compress_with(CompressType::LZMA, &data, 6);
    assert_ne!(compressed, data);
    let back = decompress_with(CompressType::LZMA, &compressed).unwrap();
    assert_eq!(back, data);
}

#[test]
fn zstd_round_trips_arbitrary_bytes() {
    let data = patterned(300000, 2);
    let compressed = compress_with(CompressType::Zstd, &data, 3);
    assert_ne!(compressed, data);
    let back = decompress_with(CompressType::Zstd, &compressed).unwrap();
    assert_eq!(back, data);
}

#[test]
fn codecs_round_trip_empty_input() {
    let data = Vec::new();
    let c1 = compress_with(CompressType::LZMA, &data, 0);
    assert_eq!(decompress_with(CompressType::LZMA, &c1).unwrap(), data);
    let c2 = compress_with(CompressType::Zstd, &data, 0);
    assert_eq!(decompress_with(CompressType::Zstd, &c2).unwrap(), data);
}

#[test]
fn decompress_reports_garbage_as_corrupt_stream() {
    let garbage = patterned(4096, 3);
    assert_eq!(
        decompress_with(CompressType::LZMA, &garbage),
        Err(StageError::Codec(CodecError::CorruptStream))
    );
    assert_eq!(
        decompress_with(CompressType::Zstd, &garbage),
        Err(StageError::Codec(CodecError::CorruptStream))
    );
}

#[test]
fn decompress_reports_truncation_as_corrupt_stream() {
    let data = patterned(200000, 12);
    for kind in [CompressType::LZMA, CompressType::Zstd] {
        let whole = compress_with(kind, &data, 5);
        let cut = whole[..whole.len() / 2].to_vec();
        assert_eq!(
            decompress_with(kind, &cut),
            Err(StageError::Codec(CodecError::CorruptStream))
        );
    }
}

#[test]
fn archive_extracts_to_identical_entries() {
    let entries = vec![
        ArchiveEntry { name: b"top.txt".to_vec(), data: b"hello".to_vec() },
        ArchiveEntry { name: b"dir/mid.txt".to_vec(), data: patterned(9000, 4) },
        ArchiveEntry { name: b"dir/sub/leaf.bin".to_vec(), data: patterned(512, 5) },
        ArchiveEntry { name: b"dir/sub/empty".to_vec(), data: Vec::new() },
    ];
    let archive = build_only(&entries).unwrap();
    let out = extract_archive(&archive).unwrap();
    assert_eq!(out.len(), 4);
    for (a, b) in entries.iter().zip(out.iter()) {
        assert_eq!(a.name, b.name);
        assert_eq!(a.data, b.data);
    }
}

#[test]
fn archive_of_no_entries_extracts_to_nothing() {
    let archive = build_only(&Vec::new()).unwrap();
    let out = extract_archive(&archive).unwrap();
    assert!(out.is_empty());
}

#[test]
fn archive_keeps_duplicate_names_in_order() {
    let entries = vec![
        ArchiveEntry { name: b"same".to_vec(), data: b"first".to_vec() },
        ArchiveEntry { name: b"same".to_vec(), data: b"second".to_vec() },
    ];
    let archive = build_only(&entries).unwrap();
    let out = extract_archive(&archive).unwrap();
    assert_eq!(out.len(), 2);
    assert_eq!(out[0].data, b"first".to_vec());
    assert_eq!(out[1].data, b"second".to_vec());
}

#[test]
fn entry_name_rules() {
    assert!(check_entry_name(&b"file.txt".to_vec()));
    assert!(check_entry_name(&b"dir/sub/file.txt".to_vec()));
    assert!(check_entry_name(&b"with space.txt".to_vec()));
    assert!(check_entry_name(&b"dot.in.name".to_vec()));
    assert!(check_entry_name(&b"..hidden-but-fine".to_vec()));
    assert!(check_entry_name(&"caf\u{e9}/\u{4e16}\u{754c}.txt".as_bytes().to_vec()));
    assert!(check_entry_name(&vec![b'x'; 100]));
    assert!(check_entry_name(&vec![b'x'; 300]));
    assert!(!check_entry_name(&b"".to_vec()));
    assert!(!check_entry_name(&b"/absolute".to_vec()));
    assert!(!check_entry_name(&b"trailing/".to_vec()));
    assert!(!check_entry_name(&b"a//b".to_vec()));
    assert!(!check_entry_name(&b".".to_vec()));
    assert!(!check_entry_name(&b"..".to_vec()));
    assert!(!check_entry_name(&b"../up".to_vec()));
    assert!(!check_entry_name(&b"a/../b".to_vec()));
    assert!(!check_entry_name(&b"a/./b".to_vec()));
    assert!(!check_entry_name(&b"nul\x00byte".to_vec()));
    assert!(!check_entry_name(&b"dir\\file".to_vec()));
    assert!(!check_entry_name(&b"bad\xc3(pair".to_vec()));
    assert!(!check_entry_name(&b"\x80stray".to_vec()));
    assert!(!check_entry_name(&b"cut\xe2\x82".to_vec()));
    assert!(!check_entry_name(&b"over\xf5range".to_vec()));
}

#[test]
fn archive_keeps_long_and_unicode_names() {
    let mut long_name = b"deep/".repeat(30);
    long_name.extend_from_slice(b"leaf.bin");
    assert!(long_name.len() > 100);
    let entries = vec![
        ArchiveEntry { name: long_name.clone(), data: patterned(2000, 13) },
        ArchiveEntry {
            name: "caf\u{e9}/\u{4e16}\u{754c}.txt".as_bytes().to_vec(),
            data: b"utf-8 name".to_vec(),
        },
    ];
    let archive = build_only(&entries).unwrap();
    let out = extract_archive(&archive).unwrap();
    assert_eq!(out.len(), 2);
    for (a, b) in entries.iter().zip(out.iter()) {
        assert_eq!(a.name, b.name);
        assert_eq!(a.data, b.data);
    }
}

#[test]
fn build_archive_rejects_bad_names() {
    let entries = vec![
        ArchiveEntry { name: b"ok".to_vec(), data: vec![0] },
        ArchiveEntry { name: b"/bad".to_vec(), data: vec![1] },
    ];
    assert_eq!(build_only(&entries), Err(ArchiveError::InvalidName));
}

#[test]
fn tracker_fractions_are_exact_and_monotone() {
    let mut t = ProgressTracker::new(2);
    assert_eq!(t.sample().stage_bp, 0);
    t.set_sub(5000);
    assert_eq!(t.sample().stage_bp, 2500);
    assert_eq!(t.sample().sub_bp, 5000);
    t.complete_stage();
    assert_eq!(t.sample().stage_bp, 5000);
    t.set_sub(2000);
    assert_eq!(t.sample().stage_bp, 6000);
    t.set_sub(10000);
    assert_eq!(t.sample().stage_bp, 10000);
    t.complete_stage();
    assert_eq!(t.sample().stage_bp, 10000);
}

#[test]
fn default_config_matches_documented_values() {
    let c = Config::default();
    assert_eq!(c.token, "");
    assert_eq!(c.compression_level, 9);
    assert_eq!(c.compress_type, CompressType::LZMA);
    assert_eq!(c.mode, Mode::Store);
    assert!(c.storage.is_empty());
}

#[test]
fn store_request_needs_every_field() {
    let name = "backup".to_string();
    let token = "bot-token".to_string();
    let empty = String::new();
    assert!(store_request_ready(&name, 2, &token));
    assert!(!store_request_ready(&empty, 2, &token));
    assert!(!store_request_ready(&name, 0, &token));
    assert!(!store_request_ready(&name, 2, &empty));
}

#[test]
fn config_records_can_be_added_removed_and_cleared() {
    let mut c = Config::default();
    c.add_record(Storage::new("first".to_string(), vec!["/a".to_string()]));
    c.add_record(Storage::new(
        "second".to_string(),
        vec!["/b".to_string(), "/c".to_string()],
    ));
    assert_eq!(c.storage.len(), 2);
    c.clear_record_files(1);
    assert_eq!(c.storage[1].name, "second");
    assert!(c.storage[1].files.is_empty());
    let removed = c.remove_record(0);
    assert_eq!(removed.name, "first");
    assert_eq!(c.storage.len(), 1);
    assert_eq!(c.storage[0].name, "second");
}
