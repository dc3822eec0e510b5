use discstorage::archive::ArchiveEntry;
use discstorage::codec::CodecError;
use discstorage::codec::CompressType;
use discstorage::config::Mode;
use discstorage::pipeline::ConfigValidationError;
use discstorage::pipeline::Operation;
use discstorage::pipeline::PipelineError;
use discstorage::pipeline::Stage;
use discstorage::pipeline::store_to_bytes;
use discstorage::pipeline::retrieve_from_bytes;
use discstorage::pipeline::temp_archive_name;
use discstorage::pipeline::validate_request;
use discstorage::progress::CancelFlag;
use discstorage::progress::progress_channel;

fn mixed_bytes(len: usize, seed: u64) -> Vec<u8> {
    let mut state = seed.wrapping_mul(6364136223846793005).wrapping_add(1442695040888963407);
    let mut out = Vec::with_capacity(len);
    for i in 0..len {
        state = state.wrapping_mul(6364136223846793005).wrapping_add(1442695040888963407);
        let b = if i % 3 == 0 { (i % 251) as u8 } else { (state >> 33) as u8 };
        out.push(b);
    }
    out
}

fn store_entries(
    entries: &Vec<ArchiveEntry>,
    level: i32,
    kind: CompressType,
) -> (Operation, Result<Vec<u8>, PipelineError>, Vec<(u32, u32)>) {
    let mut op = Operation::start(Mode::Store, level, entries.len()).unwrap();
    let (sink, rx) = progress_channel();
    let cancel = CancelFlag::new();
    let r = store_to_bytes(entries, level, kind, &mut op, &sink, &cancel);
    let samples = rx.try_iter().map(|s| (s.stage_bp, s.sub_bp)).collect();
    (op, r, samples)
}

fn retrieve_artifact(
    artifact: &Vec<u8>,
    kind: CompressType,
) -> (Operation, Result<Vec<ArchiveEntry>, PipelineError>) {
    let mut op = Operation::start(Mode::Retrieve, 0, 1).unwrap();
    let (sink, _rx) = progress_channel();
    let cancel = CancelFlag::new();
    let r = retrieve_from_bytes(artifact, kind, &mut op, &sink, &cancel);
    (op, r)
}

#[test]
fn store_then_retrieve_reproduces_entries_lzma() {
    let mut long_name = b"nested/".repeat(20);
    long_name.extend_from_slice(b"tail.bin");
    let entries = vec![
        ArchiveEntry { name: b"notes.txt".to_vec(), data: mixed_bytes(40000, 7) },
        ArchiveEntry { name: b"photos/cat.raw".to_vec(), data: mixed_bytes(100000, 8) },
        ArchiveEntry { name: b"photos/deep/dog.raw".to_vec(), data: Vec::new() },
        ArchiveEntry { name: long_name, data: mixed_bytes(500, 77) },
        ArchiveEntry {
            name: "caf\u{e9}/na\u{ef}ve.txt".as_bytes().to_vec(),
            data: b"accented".to_vec(),
        },
    ];
    let (op, r, _) = store_entries(&entries, 6, CompressType::LZMA);
    assert_eq!(op.stage, Stage::Completed);
    let artifact = r.unwrap();
    let (rop, rr) = retrieve_artifact(&artifact, CompressType::LZMA);
    assert_eq!(rop.stage, Stage::Completed);
    let out = rr.unwrap();
    assert_eq!(out.len(), entries.len());
    for (a, b) in entries.iter().zip(out.iter()) {
        assert_eq!(a.name, b.name);
        assert_eq!(a.data, b.data);
    }
}

#[test]
fn store_then_retrieve_reproduces_entries_zstd() {
    let entries = vec![
        ArchiveEntry { name: b"a".to_vec(), data: mixed_bytes(70000, 9) },
        ArchiveEntry { name: b"b/c".to_vec(), data: mixed_bytes(3, 10) },
    ];
    let (op, r, _) = store_entries(&entries, 3, CompressType::Zstd);
    assert_eq!(op.stage, Stage::Completed);
    let artifact = r.unwrap();
    let (rop, rr) = retrieve_artifact(&artifact, CompressType::Zstd);
    assert_eq!(rop.stage, Stage::Completed);
    let out = rr.unwrap();
    assert_eq!(out.len(), 2);
    assert_eq!(out[0].name, entries[0].name);
    assert_eq!(out[0].data, entries[0].data);
    assert_eq!(out[1].name, entries[1].name);
    assert_eq!(out[1].data, entries[1].data);
}

#[test]
fn level_out_of_range_is_rejected_before_any_work() {
    assert_eq!(
        validate_request(10, 3),
        Err(ConfigValidationError::LevelOutOfRange)
    );
    assert_eq!(
        validate_request(-1, 3),
        Err(ConfigValidationError::LevelOutOfRange)
    );
    assert!(matches!(
        Operation::start(Mode::Store, 10, 3),
        Err(ConfigValidationError::LevelOutOfRange)
    ));
    assert!(matches!(
        Operation::start(Mode::Store, -3, 1),
        Err(ConfigValidationError::LevelOutOfRange)
    ));
    assert!(Operation::start(Mode::Store, 0, 1).is_ok());
    assert!(Operation::start(Mode::Store, 9, 1).is_ok());
}

#[test]
fn empty_input_set_is_rejected_before_any_work() {
    assert_eq!(validate_request(5, 0), Err(ConfigValidationError::EmptyInputs));
    assert!(matches!(
        Operation::start(Mode::Store, 5, 0),
        Err(ConfigValidationError::EmptyInputs)
    ));
}

#[test]
fn progress_is_monotone_and_ends_full_on_success() {
    let entries = vec![
        ArchiveEntry { name: b"big.bin".to_vec(), data: mixed_bytes(400000, 11) },
    ];
    let (op, r, samples) = store_entries(&entries, 1, CompressType::Zstd);
    assert!(r.is_ok());
    assert_eq!(op.stage, Stage::Completed);
    assert!(samples.len() >= 3);
    let mut last = 0u32;
    for (stage_bp, _) in &samples {
        assert!(*stage_bp >= last, "stage fraction regressed");
        last = *stage_bp;
    }
    assert_eq!(last, 10000);
}

#[test]
fn higher_level_is_no_larger_high_ratio() {
    let mut entries = Vec::new();
    entries.push(ArchiveEntry { name: b"one.dat".to_vec(), data: mixed_bytes(1 << 20, 21) });
    entries.push(ArchiveEntry { name: b"four.dat".to_vec(), data: mixed_bytes(4 << 20, 22) });
    let (_, r9, _) = store_entries(&entries, 9, CompressType::LZMA);
    let (_, r0, _) = store_entries(&entries, 0, CompressType::LZMA);
    let a9 = r9.unwrap();
    let a0 = r0.unwrap();
    assert!(a9.len() <= a0.len(), "level 9 produced a larger artifact than level 0");
}

#[test]
fn fast_backend_round_trips_ten_megabytes() {
    let data = mixed_bytes(10 << 20, 33);
    let entries = vec![ArchiveEntry { name: b"buffer.bin".to_vec(), data: data.clone() }];
    let (_, r, _) = store_entries(&entries, 3, CompressType::Zstd);
    let artifact = r.unwrap();
    let (_, rr) = retrieve_artifact(&artifact, CompressType::Zstd);
    let out = rr.unwrap();
    assert_eq!(out.len(), 1);
    assert_eq!(out[0].data, data);
}

#[test]
fn cancellation_mid_compress_fails_with_cancelled_and_cleans_up() {
    let entries = vec![
        ArchiveEntry { name: b"big.bin".to_vec(), data: mixed_bytes(2 << 20, 44) },
    ];
    let mut op = Operation::start(Mode::Store, 5, entries.len()).unwrap();
    op.mark_temp_created();
    let (sink, _rx) = progress_channel();
    let cancel = CancelFlag::new();
    let other_handle = cancel.clone_ref();
    other_handle.trigger();
    let r = store_to_bytes(&entries, 5, CompressType::LZMA, &mut op, &sink, &cancel);
    assert_eq!(r, Err(PipelineError::Cancelled));
    assert_eq!(op.stage, Stage::Failed);
    assert_eq!(op.failure, Some(PipelineError::Cancelled));
    assert!(op.cleanup_required());
    op.cleanup_done();
    assert!(!op.cleanup_required());
}

#[test]
fn cancellation_before_retrieve_fails_with_cancelled() {
    let entries = vec![ArchiveEntry { name: b"f".to_vec(), data: vec![9, 9, 9] }];
    let (_, stored, _) = store_entries(&entries, 2, CompressType::Zstd);
    let artifact = stored.unwrap();
    let mut op = Operation::start(Mode::Retrieve, 0, 1).unwrap();
    let (sink, _rx) = progress_channel();
    let cancel = CancelFlag::new();
    cancel.trigger();
    let r = retrieve_from_bytes(&artifact, CompressType::Zstd, &mut op, &sink, &cancel);
    assert!(matches!(r, Err(PipelineError::Cancelled)));
    assert_eq!(op.stage, Stage::Failed);
    assert_eq!(op.failure, Some(PipelineError::Cancelled));
}

#[test]
fn both_level_bounds_round_trip() {
    let entries = vec![ArchiveEntry { name: b"f".to_vec(), data: mixed_bytes(20000, 66) }];
    for level in [0, 9] {
        let (_, r, _) = store_entries(&entries, level, CompressType::Zstd);
        let artifact = r.unwrap();
        let (_, rr) = retrieve_artifact(&artifact, CompressType::Zstd);
        let out = rr.unwrap();
        assert_eq!(out[0].data, entries[0].data);
    }
}

#[test]
fn corrupt_artifact_yields_corrupt_stream_error() {
    let garbage = mixed_bytes(5000, 55);
    let (op, r) = retrieve_artifact(&garbage, CompressType::LZMA);
    assert!(matches!(r, Err(PipelineError::Codec(CodecError::CorruptStream))));
    assert_eq!(op.stage, Stage::Failed);
    assert_eq!(op.failure, Some(PipelineError::Codec(CodecError::CorruptStream)));
    let (op2, r2) = retrieve_artifact(&garbage, CompressType::Zstd);
    assert!(matches!(r2, Err(PipelineError::Codec(CodecError::CorruptStream))));
    assert_eq!(op2.stage, Stage::Failed);
}

#[test]
fn invalid_entry_name_yields_archive_error() {
    let entries = vec![
        ArchiveEntry { name: b"../escape".to_vec(), data: vec![1, 2, 3] },
    ];
    let mut op = Operation::start(Mode::Store, 5, entries.len()).unwrap();
    let (sink, _rx) = progress_channel();
    let cancel = CancelFlag::new();
    let r = store_to_bytes(&entries, 5, CompressType::Zstd, &mut op, &sink, &cancel);
    assert!(matches!(r, Err(PipelineError::Archive(_))));
    assert_eq!(op.stage, Stage::Failed);
}

#[test]
fn retrieve_direction_walks_its_stages() {
    let mut op = Operation::start(Mode::Retrieve, 0, 1).unwrap();
    assert_eq!(op.stage, Stage::Idle);
    op.advance();
    assert_eq!(op.stage, Stage::Decompressing);
    op.advance();
    assert_eq!(op.stage, Stage::ExtractingArchive);
    op.advance();
    assert_eq!(op.stage, Stage::Completed);
    assert_eq!(op.sample().stage_bp, 10000);
}

#[test]
fn temp_archive_names_are_unique_per_operation() {
    assert_eq!(temp_archive_name(0), b"archive-0000000000000000.tar".to_vec());
    assert_eq!(
        temp_archive_name(0xdeadbeef),
        b"archive-00000000deadbeef.tar".to_vec()
    );
    assert_eq!(
        temp_archive_name(u64::MAX),
        b"archive-ffffffffffffffff.tar".to_vec()
    );
    assert_ne!(temp_archive_name(1), temp_archive_name(2));
}
