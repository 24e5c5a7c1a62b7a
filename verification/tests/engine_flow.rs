//! The engine end to end on in-memory texts: descriptor, manifest,
//! planning passes, and the patcher decisions.
use patcher::hashing::sha256_hex;
use patcher::patching::{patch_steps, verify_patched};
use patcher::plan::PatchEntry;
use patcher::instructions::instruction_from_fields;
use patcher::{blob_url, calibration_url, manifest_url, next_manifest_attempt, Downloader, UpdateError};

fn release_text(manifest: &str, version: u64) -> String {
    let digest = sha256_hex(manifest.as_bytes());
    format!(
        "{{\"game\":{{\"mirrors\":[{{\"url\":\"http://m0.example/\"}},{{\"url\":\"http://m1.example/\"}}],\"patch_path\":\"patch/v1\",\"instructions_hash\":\"{}\",\"version_number\":{}}}}}",
        digest, version
    )
}

const MANIFEST_TWO_NEW: &str = "[{\"Path\":\"Data\\\\a.bin\",\"OldHash\":null,\"NewHash\":\"HA\",\"CompressedHash\":\"CA\",\"DeltaHash\":null,\"FullReplaceSize\":100,\"DeltaSize\":0,\"HasDelta\":false},{\"Path\":\"b.bin\",\"OldHash\":null,\"NewHash\":\"HB\",\"CompressedHash\":\"CB\",\"DeltaHash\":null,\"FullReplaceSize\":250,\"DeltaSize\":0,\"HasDelta\":false}]";

fn engine_with(manifest: &str) -> Downloader {
    let mut d = Downloader::new();
    d.set_location("/inst".to_string());
    d.retrieve_mirrors(&release_text(manifest, 5)).unwrap();
    d.retrieve_instructions(manifest).unwrap();
    d
}

#[test]
fn descriptor_is_ingested() {
    let d = engine_with(MANIFEST_TWO_NEW);
    assert_eq!(d.mirrors.mirrors.len(), 2);
    assert_eq!(d.mirrors.mirrors[0].address, "http://m0.example/patch/v1");
    assert_eq!(d.mirrors.version_number.as_deref(), Some("5"));
    assert_eq!(d.instructions.len(), 2);
}

#[test]
fn bad_descriptor_is_rejected() {
    let mut d = Downloader::new();
    assert_eq!(d.retrieve_mirrors("not json"), Err(UpdateError::BadDescriptor));
    assert_eq!(
        d.retrieve_mirrors("{\"game\":{\"mirrors\":[]}}"),
        Err(UpdateError::BadDescriptor)
    );
}

#[test]
fn manifest_digest_is_enforced() {
    let mut d = Downloader::new();
    d.set_location("/inst".to_string());
    d.retrieve_mirrors(&release_text(MANIFEST_TWO_NEW, 5)).unwrap();
    let tampered = MANIFEST_TWO_NEW.replace("HA", "HX");
    assert_eq!(d.retrieve_instructions(&tampered), Err(UpdateError::HashMismatch));
    assert!(d.retrieve_instructions(MANIFEST_TWO_NEW).is_ok());
}

#[test]
fn malformed_instruction_is_rejected() {
    // A target digest without the blob digest that must come with it.
    let manifest = "[{\"Path\":\"a\",\"OldHash\":null,\"NewHash\":\"HA\",\"CompressedHash\":null,\"DeltaHash\":null,\"FullReplaceSize\":1,\"DeltaSize\":0,\"HasDelta\":false}]";
    let mut d = Downloader::new();
    d.set_location("/inst".to_string());
    d.retrieve_mirrors(&release_text(manifest, 5)).unwrap();
    assert_eq!(d.retrieve_instructions(manifest), Err(UpdateError::BadInstruction));
    // A published delta without its digest.
    let manifest = "[{\"Path\":\"a\",\"OldHash\":\"HO\",\"NewHash\":\"HA\",\"CompressedHash\":\"CA\",\"DeltaHash\":null,\"FullReplaceSize\":1,\"DeltaSize\":0,\"HasDelta\":true}]";
    let mut d = Downloader::new();
    d.set_location("/inst".to_string());
    d.retrieve_mirrors(&release_text(manifest, 5)).unwrap();
    assert_eq!(d.retrieve_instructions(manifest), Err(UpdateError::BadInstruction));
}

#[test]
fn manifest_acceptance_drops_failed_mirrors() {
    // Accepted on the second attempt: the mirror that served corrupt
    // text is forgotten.
    let mut d = Downloader::new();
    d.set_location("/inst".to_string());
    d.retrieve_mirrors(&release_text(MANIFEST_TWO_NEW, 5)).unwrap();
    assert_eq!(d.mirrors.mirrors.len(), 2);
    d.accept_manifest(MANIFEST_TWO_NEW, 1).unwrap();
    assert_eq!(d.mirrors.mirrors.len(), 1);
    assert_eq!(d.mirrors.mirrors[0].address, "http://m1.example/patch/v1");
    assert_eq!(d.instructions.len(), 2);
}

#[test]
fn manifest_retry_policy_caps_attempts() {
    assert_eq!(next_manifest_attempt(0), Some(1));
    assert_eq!(next_manifest_attempt(1), Some(2));
    assert_eq!(next_manifest_attempt(2), None);
    assert_eq!(next_manifest_attempt(7), None);
}

#[test]
fn instruction_fields_are_judged() {
    assert!(matches!(
        instruction_from_fields(None, None, None, None, None, Some(1), Some(0), Some(false)),
        Err(UpdateError::BadDescriptor)
    ));
    assert!(matches!(
        instruction_from_fields(
            Some("a".to_string()),
            None,
            Some("H".to_string()),
            None,
            None,
            Some(1),
            Some(0),
            Some(false)
        ),
        Err(UpdateError::BadInstruction)
    ));
    let inst = instruction_from_fields(
        Some("a".to_string()),
        None,
        Some("H".to_string()),
        Some("C".to_string()),
        None,
        Some(10),
        Some(0),
        Some(false),
    )
    .unwrap();
    assert_eq!(inst.path, "a");
    assert_eq!(inst.new_hash.as_deref(), Some("H"));
    assert_eq!(inst.full_replace_size, 10);
    assert!(!inst.has_delta);
}

#[test]
fn update_available_decides() {
    let d = engine_with(MANIFEST_TWO_NEW);
    // Leftover blobs always mean work.
    assert_eq!(d.update_available(true, Some(&"5".to_string())), Ok(true));
    // Version matches the published one: nothing to do.
    assert_eq!(d.update_available(false, Some(&"5".to_string())), Ok(false));
    // Version differs or cannot be read.
    assert_eq!(d.update_available(false, Some(&"4".to_string())), Ok(true));
    assert_eq!(d.update_available(false, None), Ok(true));

    let empty = Downloader::new();
    assert_eq!(empty.update_available(false, None), Err(UpdateError::NoMirrors));
    let mut unset = Downloader::new();
    unset.retrieve_mirrors(&release_text(MANIFEST_TWO_NEW, 5)).unwrap();
    assert_eq!(unset.update_available(false, None), Err(UpdateError::LocationUnset));
}

#[test]
fn fresh_install_plans_two_full_downloads() {
    // Empty installation: both files missing, two full-replacement
    // tasks, their sizes summed.
    let mut d = engine_with(MANIFEST_TWO_NEW);
    d.process_instructions(&vec![false, false]).unwrap();
    assert_eq!(d.plan.task_count(), 2);
    assert_eq!(d.plan.total_bytes, 350);
    assert_eq!(d.progress.total_bytes, 350);
    assert_eq!(d.plan.entries[0].key, "HA");
    assert_eq!(d.plan.entries[0].file_path, "/inst/patcher/HA");
    assert_eq!(d.plan.entries[0].file_hash, "CA");
    assert_eq!(d.plan.entries[0].patch_entries.len(), 1);
    let p = &d.plan.entries[0].patch_entries[0];
    assert_eq!(p.target_path, "/inst/Data/a.bin");
    assert!(!p.has_source);
    assert_eq!(p.target_hash, "HA");
    assert_eq!(d.plan.entries[1].key, "HB");
}

#[test]
fn up_to_date_installation_plans_nothing() {
    // Every file already hashes to its target: zero bytes to download.
    let mut d = engine_with(MANIFEST_TWO_NEW);
    d.process_instructions(&vec![true, true]).unwrap();
    assert_eq!(d.plan.task_count(), 0);
    assert_eq!(d.hash_queue.len(), 2);
    assert_eq!(d.hash_queue[0].path, "/inst/Data/a.bin");
    d.check_hashes(&vec!["HA".to_string(), "HB".to_string()]).unwrap();
    assert_eq!(d.plan.task_count(), 0);
    assert_eq!(d.plan.total_bytes, 0);
    assert_eq!(d.progress.total_bytes, 0);
    assert!(d.progress.finished_hash);
}

#[test]
fn old_content_takes_the_delta() {
    let manifest = "[{\"Path\":\"a.bin\",\"OldHash\":\"H_old\",\"NewHash\":\"H_new\",\"CompressedHash\":\"CA\",\"DeltaHash\":\"DH\",\"FullReplaceSize\":100,\"DeltaSize\":40,\"HasDelta\":true}]";
    let mut d = engine_with(manifest);
    d.process_instructions(&vec![true]).unwrap();
    d.check_hashes(&vec!["H_old".to_string()]).unwrap();
    assert_eq!(d.plan.task_count(), 1);
    assert_eq!(d.plan.entries[0].key, "H_new_from_H_old");
    assert_eq!(d.plan.entries[0].file_size, 40);
    assert_eq!(d.plan.entries[0].file_hash, "DH");
    assert_eq!(d.plan.total_bytes, 40);
    let p = &d.plan.entries[0].patch_entries[0];
    assert!(p.has_source);
    assert_eq!(p.target_hash, "H_new");
    assert_eq!(p.delta_path, "/inst/patcher/H_new_from_H_old");
}

#[test]
fn shared_delta_is_downloaded_once() {
    // Two files with the same old and new content: one blob, two
    // patch entries, the size counted once.
    let manifest = "[{\"Path\":\"a.bin\",\"OldHash\":\"H_o\",\"NewHash\":\"H_n\",\"CompressedHash\":\"CA\",\"DeltaHash\":\"DH\",\"FullReplaceSize\":100,\"DeltaSize\":40,\"HasDelta\":true},{\"Path\":\"b.bin\",\"OldHash\":\"H_o\",\"NewHash\":\"H_n\",\"CompressedHash\":\"CA\",\"DeltaHash\":\"DH\",\"FullReplaceSize\":100,\"DeltaSize\":40,\"HasDelta\":true}]";
    let mut d = engine_with(manifest);
    d.process_instructions(&vec![true, true]).unwrap();
    d.check_hashes(&vec!["H_o".to_string(), "H_o".to_string()]).unwrap();
    assert_eq!(d.plan.task_count(), 1);
    assert_eq!(d.plan.total_bytes, 40);
    assert_eq!(d.plan.entries[0].patch_entries.len(), 2);
    assert_eq!(d.plan.entries[0].patch_entries[0].target_path, "/inst/a.bin");
    assert_eq!(d.plan.entries[0].patch_entries[1].target_path, "/inst/b.bin");
}

#[test]
fn corrupt_file_takes_the_full_blob() {
    let manifest = "[{\"Path\":\"a.bin\",\"OldHash\":\"H_old\",\"NewHash\":\"H_new\",\"CompressedHash\":\"CA\",\"DeltaHash\":\"DH\",\"FullReplaceSize\":100,\"DeltaSize\":40,\"HasDelta\":true}]";
    let mut d = engine_with(manifest);
    d.process_instructions(&vec![true]).unwrap();
    d.check_hashes(&vec!["H_garbage".to_string()]).unwrap();
    assert_eq!(d.plan.task_count(), 1);
    assert_eq!(d.plan.entries[0].key, "H_new");
    assert_eq!(d.plan.entries[0].file_size, 100);
    assert!(!d.plan.entries[0].patch_entries[0].has_source);
}

#[test]
fn manifest_failures_drop_served_mirrors() {
    let mut d = engine_with(MANIFEST_TWO_NEW);
    assert_eq!(d.mirrors.mirrors.len(), 2);
    d.drop_first_mirrors(1);
    assert_eq!(d.mirrors.mirrors.len(), 1);
    assert_eq!(d.mirrors.mirrors[0].address, "http://m1.example/patch/v1");
}

#[test]
fn url_builders() {
    let addr = "http://m0.example/patch/v1".to_string();
    assert_eq!(manifest_url(&addr), "http://m0.example/patch/v1/instructions.json");
    assert_eq!(blob_url(&addr, false, &"HA".to_string()), "http://m0.example/patch/v1/full/HA");
    assert_eq!(
        blob_url(&addr, true, &"HA_from_HO".to_string()),
        "http://m0.example/patch/v1/delta/HA_from_HO"
    );
    assert_eq!(
        calibration_url(&addr).unwrap(),
        "http://m0.example/patch/10kb_file"
    );
    assert!(calibration_url(&"noslash".to_string()).is_err());
}

#[test]
fn patch_step_decisions() {
    let with_source = PatchEntry {
        target_path: "/inst/Data/a.bin".to_string(),
        delta_path: "/inst/patcher/K".to_string(),
        has_source: true,
        target_hash: "H".to_string(),
    };
    let st = patch_steps(&with_source).unwrap();
    assert_eq!(st.dir_path, "/inst/Data");
    assert_eq!(st.source_path.as_deref(), Some("/inst/Data/a.bin.vcdiff_src"));
    let plain = PatchEntry { has_source: false, ..with_source };
    let st = patch_steps(&plain).unwrap();
    assert_eq!(st.source_path, None);
    let rootless = PatchEntry {
        target_path: "nodir".to_string(),
        delta_path: "x".to_string(),
        has_source: false,
        target_hash: "H".to_string(),
    };
    assert!(matches!(patch_steps(&rootless), Err(UpdateError::PatchFailed)));
}

#[test]
fn patched_file_is_judged_by_digest() {
    let entry = PatchEntry {
        target_path: "/inst/a".to_string(),
        delta_path: "/inst/patcher/K".to_string(),
        has_source: false,
        target_hash: "GOOD".to_string(),
    };
    assert!(verify_patched(&"GOOD".to_string(), &entry).is_ok());
    assert_eq!(
        verify_patched(&"EVIL".to_string(), &entry),
        Err(UpdateError::PatchFailed)
    );
}
