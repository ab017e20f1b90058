use minisftp::sftp::{
    decide_transfer, Transfer, TransferDecision, TransferEvent, TransferResult, TransferStep,
    CHUNK_SIZE,
};

const CHUNK: u64 = CHUNK_SIZE as u64;

/// Drives a transfer over the given chunk sizes and returns the progress
/// snapshots seen and the final result.
fn drive(decision: &TransferDecision, total: u64, chunks: &[u64], finish: TransferEvent) -> (Vec<u64>, TransferResult) {
    let mut t = Transfer::begin(decision, total);
    let mut seen = Vec::new();
    let mut elapsed: u64 = 0;
    for &n in chunks {
        elapsed += 10;
        match t.on_event(TransferEvent::Chunk(n), elapsed) {
            TransferStep::Progress(p) => {
                assert_eq!(p.total, total);
                assert_eq!(p.elapsed_ms, elapsed);
                seen.push(p.transferred);
            },
            TransferStep::Done(_) => panic!("chunk must not finish a transfer"),
        }
    }
    match t.on_event(finish, elapsed + 10) {
        TransferStep::Done(r) => (seen, r),
        TransferStep::Progress(_) => panic!("expected a result"),
    }
}

#[test]
fn identical_size_and_mtime_skips() {
    // Local and remote both 4096 bytes with the same mtime: Skipped, so
    // the engine opens no handles and reports no progress.
    assert_eq!(decide_transfer(4096, 1111, 4096, 1111), TransferDecision::Skip);
}

#[test]
fn repeat_get_of_same_pair_skips() {
    // A completed download leaves the destination with the source's size;
    // with the mtime preserved the immediately following decision skips.
    for (size, mtime) in [(0u64, 0u64), (1u64, 5u64), (200000u64, 1700000000u64)] {
        assert_eq!(decide_transfer(size, mtime, size, mtime), TransferDecision::Skip);
    }
}

#[test]
fn equal_size_different_mtime_overwrites() {
    // L == R but Tl != Tr proceeds as Overwrite, not Skip.
    assert_eq!(decide_transfer(4096, 1111, 4096, 2222), TransferDecision::Overwrite);
}

#[test]
fn longer_destination_overwrites() {
    // L > R proceeds as Overwrite, not resume.
    assert_eq!(decide_transfer(300000, 1, 200000, 2), TransferDecision::Overwrite);
}

#[test]
fn shorter_destination_resumes() {
    assert_eq!(decide_transfer(131072, 1, 200000, 2), TransferDecision::Resume(131072));
}

#[test]
fn absent_destination_overwrites() {
    assert_eq!(decide_transfer(0, 0, 200000, 123), TransferDecision::Overwrite);
}

#[test]
fn fresh_download_completes() {
    // Local absent, remote 200000 bytes: Completed(200000) after at least
    // ceil(200000 / 65536) = 4 progress callbacks, strictly increasing.
    let d = decide_transfer(0, 0, 200000, 123);
    assert_eq!(d, TransferDecision::Overwrite);
    let (seen, r) = drive(&d, 200000, &[CHUNK, CHUNK, CHUNK, 200000 - 3 * CHUNK], TransferEvent::Eof);
    assert_eq!(r, TransferResult::Completed(200000));
    assert!(seen.len() >= 4);
    assert_eq!(*seen.last().unwrap(), 200000);
    for w in seen.windows(2) {
        assert!(w[0] < w[1]);
    }
}

#[test]
fn resume_download_appends_the_missing_suffix() {
    // Local 131072 of 200000, mtimes differ: Resumed(200000); the first
    // callback reports 131072 + n for some 0 < n <= 65536.
    let d = decide_transfer(131072, 10, 200000, 20);
    assert_eq!(d, TransferDecision::Resume(131072));
    let (seen, r) = drive(&d, 200000, &[CHUNK, 200000 - 131072 - CHUNK], TransferEvent::Eof);
    assert_eq!(r, TransferResult::Resumed(200000));
    assert_eq!(seen[0], 131072 + CHUNK);
    assert!(seen[0] > 131072 && seen[0] <= 131072 + CHUNK);
}

#[test]
fn zero_byte_transfer_completes_with_no_progress() {
    // A zero-byte source: Completed(0) after zero progress callbacks.
    let d = decide_transfer(0, 0, 0, 5);
    assert_eq!(d, TransferDecision::Overwrite);
    let (seen, r) = drive(&d, 0, &[], TransferEvent::Eof);
    assert_eq!(r, TransferResult::Completed(0));
    assert_eq!(seen.len(), 0);
}

#[test]
fn cancel_before_first_chunk_returns_the_offset() {
    // Cancellation before any chunk lands: Cancelled(offset), where the
    // offset is 0 for a fresh transfer and L when resuming.
    let d = decide_transfer(0, 0, 1000000, 9);
    let (seen, r) = drive(&d, 1000000, &[], TransferEvent::Cancel);
    assert_eq!(r, TransferResult::Cancelled(0));
    assert_eq!(seen.len(), 0);

    let d = decide_transfer(131072, 1, 1000000, 9);
    let (seen, r) = drive(&d, 1000000, &[], TransferEvent::Cancel);
    assert_eq!(r, TransferResult::Cancelled(131072));
    assert_eq!(seen.len(), 0);
}

#[test]
fn cancel_mid_transfer_keeps_flushed_bytes() {
    // Remote 10 MiB; cancel after a callback with transferred >= 65536:
    // Cancelled(n) with 65536 <= n < 10 MiB.
    let total: u64 = 10 * 1024 * 1024;
    let d = decide_transfer(0, 0, total, 77);
    let (seen, r) = drive(&d, total, &[CHUNK, CHUNK], TransferEvent::Cancel);
    assert!(seen[0] >= CHUNK);
    match r {
        TransferResult::Cancelled(n) => {
            assert_eq!(n, 2 * CHUNK);
            assert!(n >= CHUNK && n < total);
        },
        other => panic!("expected Cancelled, got {:?}", other),
    }
}

#[test]
fn upload_decision_is_symmetric() {
    // For put the remote is the destination: a shorter remote resumes
    // from its size, a matching remote skips.
    assert_eq!(decide_transfer(500, 3, 2000, 4), TransferDecision::Resume(500));
    assert_eq!(decide_transfer(2000, 4, 2000, 4), TransferDecision::Skip);
}

#[test]
fn decision_offsets() {
    assert_eq!(TransferDecision::Skip.offset(), 0);
    assert_eq!(TransferDecision::Overwrite.offset(), 0);
    assert_eq!(TransferDecision::Resume(7).offset(), 7);
    assert!(TransferDecision::Resume(7).is_resume());
    assert!(!TransferDecision::Overwrite.is_resume());
}
