//! The plan table and the classification rules.
use patcher::instructions::Instruction;
use patcher::plan::{classify_hash, classify_presence, HashAction, Plan, PatchEntry, PresenceAction};

fn inst(
    path: &str,
    old_hash: Option<&str>,
    new_hash: Option<&str>,
    has_delta: bool,
) -> Instruction {
    Instruction {
        path: path.to_string(),
        old_hash: old_hash.map(|s| s.to_string()),
        new_hash: new_hash.map(|s| s.to_string()),
        compressed_hash: new_hash.map(|s| format!("C_{}", s)),
        delta_hash: if has_delta { Some("D".to_string()) } else { None },
        full_replace_size: 100,
        delta_size: 40,
        has_delta,
    }
}

fn patch(target: &str, hash: &str) -> PatchEntry {
    PatchEntry {
        target_path: target.to_string(),
        delta_path: format!("/i/patcher/{}", hash),
        has_source: false,
        target_hash: hash.to_string(),
    }
}

#[test]
fn presence_classification() {
    let with_target = inst("a", None, Some("H"), false);
    let no_target = inst("a", None, None, false);
    assert_eq!(classify_presence(&with_target, true), PresenceAction::QueueHashCheck);
    assert_eq!(classify_presence(&with_target, false), PresenceAction::FullReplace);
    assert_eq!(classify_presence(&no_target, true), PresenceAction::Ignore);
    assert_eq!(classify_presence(&no_target, false), PresenceAction::Ignore);
}

#[test]
fn hash_classification() {
    let i = inst("a", Some("OLD"), Some("NEW"), true);
    assert_eq!(classify_hash(&i, &"NEW".to_string()), HashAction::UpToDate);
    assert_eq!(classify_hash(&i, &"OLD".to_string()), HashAction::Delta);
    assert_eq!(classify_hash(&i, &"JUNK".to_string()), HashAction::FullReplace);
    // No published delta: a file at its old content is still replaced whole.
    let no_delta = inst("a", Some("OLD"), Some("NEW"), false);
    assert_eq!(classify_hash(&no_delta, &"OLD".to_string()), HashAction::FullReplace);
}

#[test]
fn add_task_deduplicates() {
    // Two files served by the same blob: one task, two patch entries,
    // and the size counted exactly once.
    let mut p = Plan::new();
    let added = p
        .add_task(
            "K".to_string(),
            "/i/patcher/K".to_string(),
            70,
            "CH".to_string(),
            patch("/i/a.bin", "K"),
        )
        .unwrap();
    assert!(added);
    assert_eq!(p.total_bytes, 70);
    let added = p
        .add_task(
            "K".to_string(),
            "/i/patcher/K".to_string(),
            70,
            "CH".to_string(),
            patch("/i/b.bin", "K"),
        )
        .unwrap();
    assert!(!added);
    assert_eq!(p.total_bytes, 70);
    assert_eq!(p.task_count(), 1);
    assert_eq!(p.entries[0].patch_entries.len(), 2);
    assert_eq!(p.entries[0].patch_entries[0].target_path, "/i/a.bin");
    assert_eq!(p.entries[0].patch_entries[1].target_path, "/i/b.bin");
}

#[test]
fn add_task_distinct_keys_both_counted() {
    let mut p = Plan::new();
    p.add_task("A".to_string(), "/i/patcher/A".to_string(), 10, "CA".to_string(), patch("/i/a", "A"))
        .unwrap();
    p.add_task("B".to_string(), "/i/patcher/B".to_string(), 32, "CB".to_string(), patch("/i/b", "B"))
        .unwrap();
    assert_eq!(p.task_count(), 2);
    assert_eq!(p.total_bytes, 42);
}

#[test]
fn add_task_overflow_is_rejected() {
    let mut p = Plan::new();
    p.add_task("A".to_string(), "/i/patcher/A".to_string(), u64::MAX, "CA".to_string(), patch("/i/a", "A"))
        .unwrap();
    let r = p.add_task(
        "B".to_string(),
        "/i/patcher/B".to_string(),
        1,
        "CB".to_string(),
        patch("/i/b", "B"),
    );
    assert_eq!(r, Err(patcher::UpdateError::TooLarge));
    assert_eq!(p.task_count(), 1);
    assert_eq!(p.total_bytes, u64::MAX);
}
