//! The resumable download protocol: part arithmetic, the sentinel, and
//! mirror failover.
use patcher::download::{
    first_good_mirror, on_open, part_count, select_attempt, sentinel_bytes, sentinel_value,
    BlobDownload, OpenAction, PART_SIZE,
};
use patcher::UpdateError;

#[test]
fn part_count_rounds_up() {
    assert_eq!(part_count(0), 0);
    assert_eq!(part_count(1), 1);
    assert_eq!(part_count(PART_SIZE - 1), 1);
    assert_eq!(part_count(PART_SIZE), 1);
    assert_eq!(part_count(PART_SIZE + 1), 2);
    assert_eq!(part_count(10 * PART_SIZE), 10);
}

#[test]
fn sentinel_round_trip() {
    for n in [0u32, 1, 2, 255, 256, 65536, 0x01020304, u32::MAX] {
        let b = sentinel_bytes(n);
        assert_eq!(b.len(), 4);
        assert_eq!(b, n.to_be_bytes().to_vec());
        assert_eq!(sentinel_value(&b), n);
    }
}

#[test]
fn open_decisions() {
    assert!(matches!(on_open(100, 100), OpenAction::CheckExisting));
    assert!(matches!(on_open(100, 0), OpenAction::Extend { new_len: 104 }));
    assert!(matches!(on_open(100, 103), OpenAction::Extend { new_len: 104 }));
    assert!(matches!(on_open(100, 104), OpenAction::ReadSentinel));
    assert!(matches!(on_open(100, 200), OpenAction::ReadSentinel));
}

#[test]
fn resume_credits_completed_parts() {
    // Interrupted after two completed parts of a 2.5-part blob: the
    // restart resumes at part two and credits exactly two part-sizes.
    let (d, credit) = BlobDownload::begin(2_500_000, "H".to_string(), 2);
    assert_eq!(credit, 2 * PART_SIZE);
    assert_eq!(d.next_part, 2);
    let (start, end) = d.next_range().unwrap();
    assert_eq!(start, 2_000_000);
    assert_eq!(end, 2_499_999);
}

#[test]
fn fresh_download_walks_every_part() {
    let (mut d, credit) = BlobDownload::begin(2_500_000, "H".to_string(), 0);
    assert_eq!(credit, 0);
    let mut total = 0u64;
    let mut parts = 0u64;
    while let Some((start, end)) = d.next_range() {
        let w = d.on_part();
        assert_eq!(w.payload_offset, start);
        assert_eq!(w.sentinel_offset, 2_500_000);
        assert_eq!(w.sentinel, (parts as u32 + 1).to_be_bytes().to_vec());
        assert_eq!(w.credit, end - start + 1);
        total += w.credit;
        parts += 1;
    }
    assert!(d.is_complete());
    assert_eq!(parts, 3);
    assert_eq!(total, 2_500_000);
}

#[test]
fn finish_checks_digest() {
    let (d, _) = BlobDownload::begin(0, "GOOD".to_string(), 0);
    assert!(d.finish(&"GOOD".to_string()).is_ok());
    assert!(d.finish(&"BAD".to_string()).is_err());
}

#[test]
fn failover_skips_corrupt_mirrors() {
    // The first-choice mirror always serves a corrupt blob; the task
    // succeeds because a later ranked mirror serves a correct one.
    assert_eq!(first_good_mirror(&vec![false, true, false], 5), Some(1));
    assert_eq!(first_good_mirror(&vec![false, false, false, false, true], 5), Some(4));
    // Beyond the attempt cap no mirror is tried.
    assert_eq!(first_good_mirror(&vec![false, false, false, false, false, true], 5), None);
    assert_eq!(first_good_mirror(&vec![false, false], 5), None);
    assert_eq!(first_good_mirror(&vec![true], 5), Some(0));
}

#[test]
fn exhausted_attempts_are_fatal() {
    assert_eq!(select_attempt(&vec![false, true], 5), Ok(1));
    assert_eq!(select_attempt(&vec![false, false], 5), Err(UpdateError::DownloadFailed));
    assert_eq!(select_attempt(&vec![], 5), Err(UpdateError::DownloadFailed));
}
