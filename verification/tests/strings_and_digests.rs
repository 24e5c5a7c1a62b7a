//! String helpers, digests and the progress record.
use patcher::hashing::{sha256_hex, Sha256Stream};
use patcher::progress::Progress;
use patcher::strutil::{last_slash_index, normalize_location, to_forward_slashes, u64_to_dec};
use patcher::UpdateError;

#[test]
fn sha256_hex_known_digests() {
    assert_eq!(
        sha256_hex(b""),
        "E3B0C44298FC1C149AFBF4C8996FB92427AE41E4649B934CA495991B7852B855"
    );
    assert_eq!(
        sha256_hex(b"abc"),
        "BA7816BF8F01CFEA414140DE5DAE2223B00361A396177A9CB410FF61F20015AD"
    );
    assert_eq!(sha256_hex(b"abc").len(), 64);
}

#[test]
fn streaming_hash_matches_one_shot() {
    let mut h = Sha256Stream::new();
    h.update(b"a");
    h.update(b"bc");
    assert_eq!(
        h.finish_hex(),
        "BA7816BF8F01CFEA414140DE5DAE2223B00361A396177A9CB410FF61F20015AD"
    );
    let empty = Sha256Stream::new();
    assert_eq!(empty.finish_hex(), sha256_hex(b""));
}

#[test]
fn location_normalization() {
    assert_eq!(normalize_location("/games/renx"), "/games/renx/");
    assert_eq!(normalize_location("C:\\Games\\RenX"), "C:/Games/RenX/");
    assert_eq!(normalize_location("/games//renx/"), "/games/renx/");
    assert_eq!(normalize_location(""), "/");
}

#[test]
fn path_slashes_are_normalized() {
    assert_eq!(to_forward_slashes("Data\\Maps\\a.bin"), "Data/Maps/a.bin");
    assert_eq!(to_forward_slashes("already/fine"), "already/fine");
}

#[test]
fn decimal_rendering() {
    assert_eq!(u64_to_dec(0), "0");
    assert_eq!(u64_to_dec(7), "7");
    assert_eq!(u64_to_dec(12345), "12345");
    assert_eq!(u64_to_dec(u64::MAX), "18446744073709551615");
}

#[test]
fn last_slash_search() {
    assert_eq!(last_slash_index("/a/b/c"), Some(4));
    assert_eq!(last_slash_index("abc"), None);
    assert_eq!(last_slash_index("/"), Some(0));
}

#[test]
fn progress_is_monotone() {
    let mut p = Progress::new();
    assert_eq!(p.total_bytes, 0);
    p.add_total_bytes(100).unwrap();
    p.add_total_bytes(50).unwrap();
    assert_eq!(p.total_bytes, 150);
    p.add_downloaded_bytes(60);
    p.add_downloaded_bytes(40);
    assert_eq!(p.downloaded_bytes, 100);
    p.add_total_files(3).unwrap();
    p.add_patched_file();
    assert_eq!((p.patched_files, p.total_files), (1, 3));
    assert!(!p.finished_hash);
    p.set_finished_hash();
    p.set_finished_patching();
    assert!(p.finished_hash && p.finished_patching);
    let mut big = Progress::new();
    big.add_total_bytes(u64::MAX).unwrap();
    assert_eq!(big.add_total_bytes(1), Err(UpdateError::TooLarge));
    assert_eq!(big.total_bytes, u64::MAX);
}
