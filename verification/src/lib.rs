//! Update engine for a mirrored, content-addressed game installation.
//!
//! The engine brings an installation directory to its published target
//! version: it ranks download mirrors by a calibration probe, fetches and
//! verifies the instructions manifest, classifies every file against its
//! target state, downloads the required blobs resumably with range requests,
//! and applies binary deltas, verifying a SHA-256 digest at every stage.
//!
//! All decision logic lives here and is verified; the surrounding process
//! performs the HTTP and filesystem work and feeds the results back in as
//! plain values.
use vstd::prelude::*;

pub mod download;
pub mod instructions;
pub mod jsonval;
pub mod mirrors;
pub mod patching;
pub mod plan;
pub mod hashing;
pub mod progress;
pub mod strutil;

verus! {

/// The failures the engine can surface, by the stage that raises them.
#[derive(Clone, Copy, PartialEq, Eq, Structural, Debug)]
pub enum UpdateError {
    /// No mirror is known (or none is left enabled).
    NoMirrors,
    /// The installation directory has not been set.
    LocationUnset,
    /// A served blob or manifest did not match its published digest.
    HashMismatch,
    /// The release descriptor or the manifest is not the JSON shape expected.
    BadDescriptor,
    /// A manifest entry lacks a field that its flags promise.
    BadInstruction,
    /// A byte total does not fit in 64 bits.
    TooLarge,
    /// Every allowed attempt at a download failed.
    DownloadFailed,
    /// A patched file did not hash to its target digest.
    PatchFailed,
}

use crate::instructions::{Instruction, instruction_wf, parse_instructions, manifest_text_ok};
use crate::mirrors::Mirrors;
use crate::plan::{
    Plan, PatchEntry, PatchModel, EntryModel, contains_key, presence_action, PresenceAction,
    hash_action, HashAction, classify_presence, classify_hash,
};
use crate::progress::Progress;
use crate::strutil::{normalized_location, backslashes_to_slashes, normalize_location,
    to_forward_slashes};
use vstd::pervasive::unreached;
use vstd::string::*;

/// A file's absolute path: the installation root (which ends in a
/// slash) followed by its manifest path, slashes normalized.
pub open spec fn located(loc: Seq<char>, rel: Seq<char>) -> Seq<char> {
    loc + backslashes_to_slashes(rel)
}

/// Where a blob lands locally: under the `patcher` directory of the
/// installation, named by its content-addressed key.
pub open spec fn blob_local_path(loc: Seq<char>, key: Seq<char>) -> Seq<char> {
    loc + "patcher/"@ + key
}

/// The content-addressed key of a delta blob.
pub open spec fn delta_key(new_hash: Seq<char>, old_hash: Seq<char>) -> Seq<char> {
    new_hash + "_from_"@ + old_hash
}

/// The patch entry a full replacement plans: no source, the target must
/// hash to the instruction's target digest.
pub open spec fn full_patch(target: Seq<char>, loc: Seq<char>, inst: Instruction) -> PatchModel {
    PatchModel {
        target_path: target,
        delta_path: blob_local_path(loc, inst.new_hash->0@),
        has_source: false,
        target_hash: inst.new_hash->0@,
    }
}

/// The download task a full replacement plans when its key is new.
pub open spec fn full_entry(target: Seq<char>, loc: Seq<char>, inst: Instruction) -> EntryModel {
    EntryModel {
        key: inst.new_hash->0@,
        file_path: blob_local_path(loc, inst.new_hash->0@),
        file_size: inst.full_replace_size,
        file_hash: inst.compressed_hash->0@,
        patch_entries: seq![full_patch(target, loc, inst)],
    }
}

/// The patch entry a delta plans: the existing file is the source, and
/// the result must hash to the instruction's target digest.
pub open spec fn delta_patch(target: Seq<char>, loc: Seq<char>, inst: Instruction) -> PatchModel {
    PatchModel {
        target_path: target,
        delta_path: blob_local_path(loc, delta_key(inst.new_hash->0@, inst.old_hash->0@)),
        has_source: true,
        target_hash: inst.new_hash->0@,
    }
}

/// The download task a delta plans when its key is new.
pub open spec fn delta_entry(target: Seq<char>, loc: Seq<char>, inst: Instruction) -> EntryModel {
    EntryModel {
        key: delta_key(inst.new_hash->0@, inst.old_hash->0@),
        file_path: blob_local_path(loc, delta_key(inst.new_hash->0@, inst.old_hash->0@)),
        file_size: inst.delta_size,
        file_hash: inst.delta_hash->0@,
        patch_entries: seq![delta_patch(target, loc, inst)],
    }
}

/// Whether the manifest publishes a digest as some file's target content.
pub open spec fn publishes(insts: Seq<Instruction>, h: Seq<char>) -> bool {
    exists|k: int| 0 <= k < insts.len() && (#[trigger] insts[k]).new_hash is Some
        && insts[k].new_hash->0@ == h
}

/// The ghost image of a manifest instruction, every text field as its
/// character sequence.
#[verifier::ext_equal]
pub ghost struct InstModel {
    pub path: Seq<char>,
    pub old_hash: Option<Seq<char>>,
    pub new_hash: Option<Seq<char>>,
    pub compressed_hash: Option<Seq<char>>,
    pub delta_hash: Option<Seq<char>>,
    pub full_replace_size: u64,
    pub delta_size: u64,
    pub has_delta: bool,
}

/// An optional string as an optional character sequence.
pub open spec fn opt_chars(o: Option<String>) -> Option<Seq<char>> {
    match o {
        Some(s) => Some(s@),
        None => None,
    }
}

/// The image of an instruction.
pub open spec fn inst_view(i: Instruction) -> InstModel {
    InstModel {
        path: i.path@,
        old_hash: opt_chars(i.old_hash),
        new_hash: opt_chars(i.new_hash),
        compressed_hash: opt_chars(i.compressed_hash),
        delta_hash: opt_chars(i.delta_hash),
        full_replace_size: i.full_replace_size,
        delta_size: i.delta_size,
        has_delta: i.has_delta,
    }
}

/// The image of an instruction as the hash queue holds it: the same
/// fields, its path made absolute under the installation root.
pub open spec fn queued_inst(loc: Seq<char>, inst: Instruction) -> InstModel {
    InstModel { path: located(loc, inst.path@), ..inst_view(inst) }
}

/// The hash queue's image.
pub open spec fn queue_models(q: Seq<Instruction>) -> Seq<InstModel> {
    q.map_values(|i: Instruction| inst_view(i))
}

/// The planning state the first pass folds over: the task table and the
/// hash queue.
#[verifier::ext_equal]
pub ghost struct PlanState {
    pub tasks: Seq<crate::plan::EntryModel>,
    pub queue: Seq<InstModel>,
}

/// One step of the first pass: an instruction with no target is left
/// alone, an existing file is queued for hashing under its absolute
/// path, and a missing file's full replacement is check-and-inserted.
pub open spec fn presence_step(
    st: PlanState,
    loc: Seq<char>,
    inst: Instruction,
    file_exists: bool,
) -> PlanState {
    match presence_action(inst.new_hash is Some, file_exists) {
        PresenceAction::Ignore => st,
        PresenceAction::QueueHashCheck => PlanState {
            queue: st.queue.push(queued_inst(loc, inst)),
            ..st
        },
        PresenceAction::FullReplace => PlanState {
            tasks: crate::plan::spec_add_task(
                st.tasks,
                full_entry(located(loc, inst.path@), loc, inst),
            ),
            ..st
        },
    }
}

/// The first pass folded over the first `n` instructions and their
/// existence flags.
pub open spec fn presence_pass(
    st: PlanState,
    loc: Seq<char>,
    insts: Seq<Instruction>,
    flags: Seq<bool>,
    n: int,
) -> PlanState
    decreases n,
{
    if n <= 0 {
        st
    } else {
        presence_step(
            presence_pass(st, loc, insts, flags, n - 1),
            loc,
            insts[n - 1],
            flags[n - 1],
        )
    }
}

/// One step of the hash pass: an up-to-date file plans nothing, an
/// old-content match check-and-inserts the delta task, anything else
/// the full-replacement task.
pub open spec fn hash_step(
    tasks: Seq<crate::plan::EntryModel>,
    loc: Seq<char>,
    inst: Instruction,
    file_hash: Seq<char>,
) -> Seq<crate::plan::EntryModel> {
    match hash_action(inst, file_hash) {
        HashAction::UpToDate => tasks,
        HashAction::Delta => crate::plan::spec_add_task(tasks, delta_entry(inst.path@, loc, inst)),
        HashAction::FullReplace => crate::plan::spec_add_task(
            tasks,
            full_entry(inst.path@, loc, inst),
        ),
    }
}

/// The hash pass folded over the first `n` queued instructions and
/// their measured digests.
pub open spec fn hash_pass(
    tasks: Seq<crate::plan::EntryModel>,
    loc: Seq<char>,
    queue: Seq<Instruction>,
    hashes: Seq<Seq<char>>,
    n: int,
) -> Seq<crate::plan::EntryModel>
    decreases n,
{
    if n <= 0 {
        tasks
    } else {
        hash_step(hash_pass(tasks, loc, queue, hashes, n - 1), loc, queue[n - 1], hashes[n - 1])
    }
}

/// Measured digests as character sequences.
pub open spec fn digest_views(hashes: Seq<String>) -> Seq<Seq<char>> {
    hashes.map_values(|h: String| h@)
}

/// The planning state an engine stands at: its task table and the
/// image of its hash queue.
pub open spec fn pass1_start(d: Downloader) -> PlanState {
    PlanState { tasks: d.plan@, queue: queue_models(d.hash_queue@) }
}

/// The one way planning a task can fail: the key is a first sighting
/// and its blob's size would push the plan's byte total past 64 bits.
pub open spec fn insert_overflows(tasks: Seq<EntryModel>, key: Seq<char>, size: u64) -> bool {
    !contains_key(tasks, key) && crate::plan::total_size(tasks) + size > u64::MAX
}

/// The update engine: the mirror registry, the manifest, the download
/// plan and the progress record, with the surrounding process feeding in
/// what it read from disk and from the network.
pub struct Downloader {
    /// The installation root, normalized, once set.
    pub location: Option<String>,
    /// The mirror registry and what the release descriptor published.
    pub mirrors: Mirrors,
    /// The manifest, one instruction per file.
    pub instructions: Vec<Instruction>,
    /// The shared progress record.
    pub progress: Progress,
    /// The download-task table.
    pub plan: Plan,
    /// Instructions whose on-disk file must be hashed before they can be
    /// classified; their paths are already absolute.
    pub hash_queue: Vec<Instruction>,
}

impl Downloader {
    /// The engine's invariant: the plan is de-duplicated, the progress
    /// byte total mirrors the plan's, every queued instruction still has
    /// a published target, and every planned patch targets a digest the
    /// manifest publishes.
    pub open spec fn wf(self) -> bool {
        &&& self.plan.wf()
        &&& self.mirrors.wf()
        &&& self.progress.total_bytes == self.plan.total_bytes
        &&& forall|i: int| 0 <= i < self.instructions@.len() ==> instruction_wf(
            #[trigger] self.instructions@[i],
        )
        &&& forall|i: int| 0 <= i < self.hash_queue@.len() ==> instruction_wf(
            #[trigger] self.hash_queue@[i],
        ) && self.hash_queue@[i].new_hash is Some && publishes(
            self.instructions@,
            self.hash_queue@[i].new_hash->0@,
        )
        &&& forall|i: int, j: int| 0 <= i < self.plan@.len() && 0 <= j < (
        #[trigger] self.plan@[i]).patch_entries.len() ==> publishes(
            self.instructions@,
            (#[trigger] self.plan@[i].patch_entries[j]).target_hash,
        )
    }

    /// A fresh engine: no location, no mirrors, no manifest, an empty
    /// plan, and progress at zero.
    pub fn new() -> (d: Downloader)
        ensures
            d.wf(),
            d.location is None,
            d.mirrors.mirrors@.len() == 0,
            d.instructions@.len() == 0,
            d.plan@.len() == 0,
            d.plan.total_bytes == 0,
            d.hash_queue@.len() == 0,
            d.progress.total_bytes == 0,
            d.progress.downloaded_bytes == 0,
            d.progress.patched_files == 0,
            d.progress.total_files == 0,
            !d.progress.finished_hash,
            !d.progress.finished_patching,
    {
        Downloader {
            location: None,
            mirrors: Mirrors::new(),
            instructions: Vec::new(),
            progress: Progress::new(),
            plan: Plan::new(),
            hash_queue: Vec::new(),
        }
    }

    /// Set the installation root: a trailing slash is added, backslashes
    /// become slashes, and doubled slashes collapse.
    pub fn set_location(&mut self, loc: String)
        requires
            old(self).wf(),
        ensures
            final(self).wf(),
            final(self).location is Some,
            final(self).location->0@ == normalized_location(loc@),
            final(self).mirrors == old(self).mirrors,
            final(self).instructions == old(self).instructions,
            final(self).progress == old(self).progress,
            final(self).plan == old(self).plan,
            final(self).hash_queue == old(self).hash_queue,
    {
        self.location = Some(normalize_location(loc.as_str()));
    }

    /// Ingest the release descriptor the surrounding process fetched:
    /// mirrors, the manifest digest, and the target version.
    pub fn retrieve_mirrors(&mut self, release_text: &str) -> (r: Result<(), UpdateError>)
        requires
            old(self).wf(),
        ensures
            final(self).wf(),
            final(self).location == old(self).location,
            final(self).instructions == old(self).instructions,
            final(self).progress == old(self).progress,
            final(self).plan == old(self).plan,
            final(self).hash_queue == old(self).hash_queue,
            match r {
                Ok(()) => final(self).mirrors.instructions_hash is Some
                    && final(self).mirrors.version_number is Some && (exists|
                    urls: Seq<Seq<char>>,
                    pp: Seq<char>,
                    ih: Seq<char>,
                    vn: u64,
                |
                    #[trigger] crate::mirrors::release_installed(
                        old(self).mirrors,
                        final(self).mirrors,
                        urls,
                        pp,
                        ih,
                        vn,
                    )),
                Err(e) => e == UpdateError::BadDescriptor
                    && final(self).mirrors == old(self).mirrors,
            },
    {
        self.mirrors.get_mirrors(release_text)
    }

    /// Whether an update run is needed: leftovers sit in the `patcher`
    /// directory, or the installed version cannot be read, or it differs
    /// from the published target version. Fails when no mirrors are
    /// known or the location is unset.
    pub fn update_available(&self, patcher_dir_nonempty: bool, game_version: Option<&String>) -> (r:
        Result<bool, UpdateError>)
        ensures
            match r {
                Ok(b) => self.mirrors.mirrors@.len() > 0 && self.location is Some && b == (
                patcher_dir_nonempty || match game_version {
                    None => true,
                    Some(v) => self.mirrors.version_number is None
                        || v@ != self.mirrors.version_number->0@,
                }),
                Err(e) => (e == UpdateError::NoMirrors && self.mirrors.mirrors@.len() == 0) || (
                e == UpdateError::LocationUnset && self.mirrors.mirrors@.len() > 0
                    && self.location is None),
            },
    {
        if self.mirrors.is_empty() {
            return Err(UpdateError::NoMirrors);
        }
        if self.location.is_none() {
            return Err(UpdateError::LocationUnset);
        }
        if patcher_dir_nonempty {
            return Ok(true);
        }
        match game_version {
            None => Ok(true),
            Some(v) => match &self.mirrors.version_number {
                None => Ok(true),
                Some(published) => Ok(*v != *published),
            },
        }
    }

    /// Ingest manifest text the surrounding process fetched from a
    /// mirror: accepted only if it hashes to the digest the release
    /// descriptor published, then parsed into instructions. Requires a
    /// plan not yet begun, so every planned patch keeps a published
    /// target.
    pub fn retrieve_instructions(&mut self, manifest_text: &str) -> (r: Result<(), UpdateError>)
        requires
            old(self).wf(),
            old(self).plan@.len() == 0,
            old(self).hash_queue@.len() == 0,
        ensures
            final(self).wf(),
            final(self).location == old(self).location,
            final(self).mirrors == old(self).mirrors,
            final(self).progress == old(self).progress,
            final(self).plan == old(self).plan,
            final(self).hash_queue == old(self).hash_queue,
            match r {
                Ok(()) => {
                    &&& old(self).mirrors.instructions_hash is Some
                    &&& crate::hashing::sha256_hex_of(manifest_text.spec_bytes())
                        == old(self).mirrors.instructions_hash->0@
                    &&& forall|i: int| 0 <= i < final(self).instructions@.len()
                        ==> instruction_wf(#[trigger] final(self).instructions@[i])
                },
                Err(e) => final(self).instructions == old(self).instructions && ((e
                    == UpdateError::NoMirrors && old(self).mirrors.instructions_hash is None)
                    || (e == UpdateError::HashMismatch
                    && old(self).mirrors.instructions_hash is Some
                    && crate::hashing::sha256_hex_of(manifest_text.spec_bytes())
                        != old(self).mirrors.instructions_hash->0@) || ((e
                    == UpdateError::BadDescriptor || e == UpdateError::BadInstruction)
                    && old(self).mirrors.instructions_hash is Some
                    && crate::hashing::sha256_hex_of(manifest_text.spec_bytes())
                        == old(self).mirrors.instructions_hash->0@)),
            },
    {
        let expected = match &self.mirrors.instructions_hash {
            Some(h) => h,
            None => {
                return Err(UpdateError::NoMirrors);
            },
        };
        if !manifest_text_ok(manifest_text, expected) {
            return Err(UpdateError::HashMismatch);
        }
        match parse_instructions(manifest_text) {
            Ok(insts) => {
                self.instructions = insts;
                Ok(())
            },
            Err(e) => Err(e),
        }
    }

    /// Accept manifest text after `failures` earlier attempts served
    /// corrupt or unfetchable text: verify the digest, parse, store —
    /// and on success forget exactly those `failures` best-ranked
    /// mirrors, cumulatively, so the downloader can never pick them.
    pub fn accept_manifest(&mut self, manifest_text: &str, failures: usize) -> (r: Result<
        (),
        UpdateError,
    >)
        requires
            old(self).wf(),
            old(self).plan@.len() == 0,
            old(self).hash_queue@.len() == 0,
            failures <= old(self).mirrors.mirrors@.len(),
        ensures
            final(self).wf(),
            final(self).location == old(self).location,
            final(self).progress == old(self).progress,
            final(self).plan == old(self).plan,
            final(self).hash_queue == old(self).hash_queue,
            match r {
                Ok(()) => {
                    &&& old(self).mirrors.instructions_hash is Some
                    &&& crate::hashing::sha256_hex_of(manifest_text.spec_bytes())
                        == old(self).mirrors.instructions_hash->0@
                    &&& forall|i: int| 0 <= i < final(self).instructions@.len()
                        ==> instruction_wf(#[trigger] final(self).instructions@[i])
                    &&& final(self).mirrors.mirrors@ == old(self).mirrors.mirrors@.skip(
                        failures as int,
                    )
                    &&& final(self).mirrors.instructions_hash == old(self).mirrors.instructions_hash
                    &&& final(self).mirrors.version_number == old(self).mirrors.version_number
                },
                Err(e) => final(self).instructions == old(self).instructions && final(self).mirrors == old(self).mirrors && ((e == UpdateError::NoMirrors && old(self).mirrors.instructions_hash is None) || (e == UpdateError::HashMismatch
                    && old(self).mirrors.instructions_hash is Some
                    && crate::hashing::sha256_hex_of(manifest_text.spec_bytes())
                        != old(self).mirrors.instructions_hash->0@) || ((e
                    == UpdateError::BadDescriptor || e == UpdateError::BadInstruction)
                    && old(self).mirrors.instructions_hash is Some
                    && crate::hashing::sha256_hex_of(manifest_text.spec_bytes())
                        == old(self).mirrors.instructions_hash->0@)),
            },
    {
        match self.retrieve_instructions(manifest_text) {
            Ok(()) => {
                self.drop_first_mirrors(failures);
                Ok(())
            },
            Err(e) => Err(e),
        }
    }

    /// Forget the first mirrors after failed manifest attempts, so a
    /// mirror that served corrupt text is never used again; removals are
    /// cumulative across retries.
    pub fn drop_first_mirrors(&mut self, count: usize)
        requires
            old(self).wf(),
            count <= old(self).mirrors.mirrors@.len(),
        ensures
            final(self).wf(),
            final(self).mirrors.mirrors@ == old(self).mirrors.mirrors@.skip(count as int),
            final(self).mirrors.instructions_hash == old(self).mirrors.instructions_hash,
            final(self).mirrors.version_number == old(self).mirrors.version_number,
            final(self).location == old(self).location,
            final(self).instructions == old(self).instructions,
            final(self).progress == old(self).progress,
            final(self).plan == old(self).plan,
            final(self).hash_queue == old(self).hash_queue,
    {
        let mut k: usize = 0;
        while k < count
            invariant
                k <= count,
                count <= old(self).mirrors.mirrors@.len() as int - 0,
                old(self).wf(),
                self.mirrors.mirrors@ == old(self).mirrors.mirrors@.skip(k as int),
                self.mirrors.instructions_hash == old(self).mirrors.instructions_hash,
                self.mirrors.version_number == old(self).mirrors.version_number,
                self.mirrors.wf(),
                self.location == old(self).location,
                self.instructions == old(self).instructions,
                self.progress == old(self).progress,
                self.plan == old(self).plan,
                self.hash_queue == old(self).hash_queue,
            decreases count - k,
        {
            self.mirrors.remove(0);
            proof {
                assert(self.mirrors.mirrors@ =~= old(self).mirrors.mirrors@.skip(k + 1));
            }
            k = k + 1;
        }
    }
}

/// How a full replacement changes the engine: the rest stands still;
/// a new key appends a one-patch task and counts its size, a known key
/// only gains the patch entry.
pub open spec fn full_replace_planned(
    pre: Downloader,
    post: Downloader,
    target: Seq<char>,
    inst: Instruction,
) -> bool {
    let loc = pre.location->0@;
    let key = inst.new_hash->0@;
    &&& post.hash_queue == pre.hash_queue
    &&& post.instructions == pre.instructions
    &&& post.mirrors == pre.mirrors
    &&& post.location == pre.location
    &&& post.progress.downloaded_bytes == pre.progress.downloaded_bytes
    &&& post.progress.patched_files == pre.progress.patched_files
    &&& post.progress.total_files == pre.progress.total_files
    &&& post.progress.finished_hash == pre.progress.finished_hash
    &&& post.progress.finished_patching == pre.progress.finished_patching
    &&& if !contains_key(pre.plan@, key) {
        post.plan@ == pre.plan@.push(full_entry(target, loc, inst)) && post.plan.total_bytes
            == pre.plan.total_bytes + inst.full_replace_size
    } else {
        (exists|i: int|
            0 <= i < pre.plan@.len() && (#[trigger] pre.plan@[i]).key == key && post.plan@
                == pre.plan@.update(
                i,
                EntryModel {
                    patch_entries: pre.plan@[i].patch_entries.push(full_patch(target, loc, inst)),
                    ..pre.plan@[i]
                },
            )) && post.plan.total_bytes == pre.plan.total_bytes
    }
}

/// How a delta changes the engine, in the same shape.
pub open spec fn delta_planned(
    pre: Downloader,
    post: Downloader,
    target: Seq<char>,
    inst: Instruction,
) -> bool {
    let loc = pre.location->0@;
    let key = delta_key(inst.new_hash->0@, inst.old_hash->0@);
    &&& post.hash_queue == pre.hash_queue
    &&& post.instructions == pre.instructions
    &&& post.mirrors == pre.mirrors
    &&& post.location == pre.location
    &&& post.progress.downloaded_bytes == pre.progress.downloaded_bytes
    &&& post.progress.patched_files == pre.progress.patched_files
    &&& post.progress.total_files == pre.progress.total_files
    &&& post.progress.finished_hash == pre.progress.finished_hash
    &&& post.progress.finished_patching == pre.progress.finished_patching
    &&& if !contains_key(pre.plan@, key) {
        post.plan@ == pre.plan@.push(delta_entry(target, loc, inst)) && post.plan.total_bytes
            == pre.plan.total_bytes + inst.delta_size
    } else {
        (exists|i: int|
            0 <= i < pre.plan@.len() && (#[trigger] pre.plan@[i]).key == key && post.plan@
                == pre.plan@.update(
                i,
                EntryModel {
                    patch_entries: pre.plan@[i].patch_entries.push(delta_patch(target, loc, inst)),
                    ..pre.plan@[i]
                },
            )) && post.plan.total_bytes == pre.plan.total_bytes
    }
}

impl Downloader {
    /// Plan a full-replacement download for a target file.
    fn add_full_replace(&mut self, target_path: String, inst: &Instruction) -> (r: Result<
        (),
        UpdateError,
    >)
        requires
            old(self).wf(),
            old(self).location is Some,
            inst.new_hash is Some,
            inst.compressed_hash is Some,
            publishes(old(self).instructions@, inst.new_hash->0@),
        ensures
            final(self).wf(),
            match r {
                Ok(()) => full_replace_planned(*old(self), *final(self), target_path@, *inst),
                Err(e) => e == UpdateError::TooLarge && *final(self) == *old(self)
                    && insert_overflows(
                    old(self).plan@,
                    inst.new_hash->0@,
                    inst.full_replace_size,
                ),
            },
    {
        let loc = match &self.location {
            Some(l) => l.clone(),
            None => unreached(),
        };
        let key = match &inst.new_hash {
            Some(h) => h.clone(),
            None => unreached(),
        };
        let file_hash = match &inst.compressed_hash {
            Some(h) => h.clone(),
            None => unreached(),
        };
        let delta_path = loc.concat("patcher/").concat(key.as_str());
        let patch = PatchEntry {
            target_path,
            delta_path: delta_path.clone(),
            has_source: false,
            target_hash: key.clone(),
        };
        let added = match self.plan.add_task(
            key,
            delta_path,
            inst.full_replace_size,
            file_hash,
            patch,
        ) {
            Ok(b) => b,
            Err(e) => {
                return Err(e);
            },
        };
        if added {
            match self.progress.add_total_bytes(inst.full_replace_size) {
                Ok(()) => (),
                Err(_) => unreached(),
            }
        }
        Ok(())
    }

    /// Plan a delta download for a target file.
    fn add_delta(&mut self, target_path: String, inst: &Instruction) -> (r: Result<
        (),
        UpdateError,
    >)
        requires
            old(self).wf(),
            old(self).location is Some,
            inst.new_hash is Some,
            inst.old_hash is Some,
            inst.delta_hash is Some,
            publishes(old(self).instructions@, inst.new_hash->0@),
        ensures
            final(self).wf(),
            match r {
                Ok(()) => delta_planned(*old(self), *final(self), target_path@, *inst),
                Err(e) => e == UpdateError::TooLarge && *final(self) == *old(self)
                    && insert_overflows(
                    old(self).plan@,
                    delta_key(inst.new_hash->0@, inst.old_hash->0@),
                    inst.delta_size,
                ),
            },
    {
        let loc = match &self.location {
            Some(l) => l.clone(),
            None => unreached(),
        };
        let new_hash = match &inst.new_hash {
            Some(h) => h.clone(),
            None => unreached(),
        };
        let old_hash = match &inst.old_hash {
            Some(h) => h.clone(),
            None => unreached(),
        };
        let file_hash = match &inst.delta_hash {
            Some(h) => h.clone(),
            None => unreached(),
        };
        let key = new_hash.clone().concat("_from_").concat(old_hash.as_str());
        let delta_path = loc.concat("patcher/").concat(key.as_str());
        let patch = PatchEntry {
            target_path,
            delta_path: delta_path.clone(),
            has_source: true,
            target_hash: new_hash,
        };
        let added = match self.plan.add_task(key, delta_path, inst.delta_size, file_hash, patch) {
            Ok(b) => b,
            Err(e) => {
                return Err(e);
            },
        };
        if added {
            match self.progress.add_total_bytes(inst.delta_size) {
                Ok(()) => (),
                Err(_) => unreached(),
            }
        }
        Ok(())
    }

    /// The first planning pass for one instruction, from whether its
    /// file exists: a file with no target content is left alone, an
    /// existing file goes to the hash queue under its absolute path,
    /// and a missing file gets a full-replacement download.
    pub fn process_instruction(&mut self, idx: usize, file_exists: bool) -> (r: Result<
        (),
        UpdateError,
    >)
        requires
            old(self).wf(),
            idx < old(self).instructions@.len(),
            old(self).location is Some,
        ensures
            final(self).wf(),
            match r {
                Ok(()) => {
                    let inst = old(self).instructions@[idx as int];
                    let target = located(old(self).location->0@, inst.path@);
                    match presence_action(inst.new_hash is Some, file_exists) {
                        PresenceAction::Ignore => *final(self) == *old(self),
                        PresenceAction::QueueHashCheck => {
                            &&& final(self).hash_queue@.len() == old(self).hash_queue@.len() + 1
                            &&& final(self).hash_queue@.drop_last() == old(self).hash_queue@
                            &&& final(self).hash_queue@.last().path@ == target
                            &&& final(self).hash_queue@.last().old_hash == inst.old_hash
                            &&& final(self).hash_queue@.last().new_hash == inst.new_hash
                            &&& final(self).hash_queue@.last().compressed_hash
                                == inst.compressed_hash
                            &&& final(self).hash_queue@.last().delta_hash == inst.delta_hash
                            &&& final(self).hash_queue@.last().full_replace_size
                                == inst.full_replace_size
                            &&& final(self).hash_queue@.last().delta_size == inst.delta_size
                            &&& final(self).hash_queue@.last().has_delta == inst.has_delta
                            &&& final(self).plan == old(self).plan
                            &&& final(self).progress == old(self).progress
                            &&& final(self).instructions == old(self).instructions
                            &&& final(self).mirrors == old(self).mirrors
                            &&& final(self).location == old(self).location
                        },
                        PresenceAction::FullReplace => full_replace_planned(
                            *old(self),
                            *final(self),
                            target,
                            inst,
                        ),
                    }
                },
                Err(e) => {
                    let inst = old(self).instructions@[idx as int];
                    e == UpdateError::TooLarge && *final(self) == *old(self)
                        && presence_action(inst.new_hash is Some, file_exists)
                        == PresenceAction::FullReplace && insert_overflows(
                        old(self).plan@,
                        inst.new_hash->0@,
                        inst.full_replace_size,
                    )
                },
            },
    {
        let inst = self.instructions[idx].duplicate();
        let action = classify_presence(&inst, file_exists);
        match action {
            PresenceAction::Ignore => Ok(()),
            PresenceAction::QueueHashCheck => {
                let loc = match &self.location {
                    Some(l) => l.clone(),
                    None => unreached(),
                };
                let target = loc.concat(to_forward_slashes(inst.path.as_str()).as_str());
                let mut queued = inst;
                queued.path = target;
                let ghost pre_q = self.hash_queue@;
                self.hash_queue.push(queued);
                proof {
                    assert(self.hash_queue@.drop_last() =~= pre_q);
                }
                Ok(())
            },
            PresenceAction::FullReplace => {
                let loc = match &self.location {
                    Some(l) => l.clone(),
                    None => unreached(),
                };
                let target = loc.concat(to_forward_slashes(inst.path.as_str()).as_str());
                proof {
                    assert(publishes(self.instructions@, inst.new_hash->0@)) by {
                        assert(self.instructions@[idx as int].new_hash is Some);
                    }
                }
                self.add_full_replace(target, &inst)
            },
        }
    }
}

impl Downloader {
    /// The hash pass for one queued instruction, from its file's
    /// measured digest: a file already at its target is left alone, a
    /// file matching its declared old content takes the published delta,
    /// and anything else is corrupt and takes the full blob.
    pub fn check_hash(&mut self, idx: usize, file_hash: &String) -> (r: Result<(), UpdateError>)
        requires
            old(self).wf(),
            idx < old(self).hash_queue@.len(),
            old(self).location is Some,
        ensures
            final(self).wf(),
            match r {
                Ok(()) => {
                    let inst = old(self).hash_queue@[idx as int];
                    match hash_action(inst, file_hash@) {
                        HashAction::UpToDate => *final(self) == *old(self),
                        HashAction::Delta => delta_planned(
                            *old(self),
                            *final(self),
                            inst.path@,
                            inst,
                        ),
                        HashAction::FullReplace => full_replace_planned(
                            *old(self),
                            *final(self),
                            inst.path@,
                            inst,
                        ),
                    }
                },
                Err(e) => {
                    let inst = old(self).hash_queue@[idx as int];
                    e == UpdateError::TooLarge && *final(self) == *old(self) && match hash_action(
                        inst,
                        file_hash@,
                    ) {
                        HashAction::UpToDate => false,
                        HashAction::Delta => insert_overflows(
                            old(self).plan@,
                            delta_key(inst.new_hash->0@, inst.old_hash->0@),
                            inst.delta_size,
                        ),
                        HashAction::FullReplace => insert_overflows(
                            old(self).plan@,
                            inst.new_hash->0@,
                            inst.full_replace_size,
                        ),
                    }
                },
            },
    {
        let inst = self.hash_queue[idx].duplicate();
        let action = classify_hash(&inst, file_hash);
        proof {
            assert(publishes(self.instructions@, inst.new_hash->0@));
        }
        match action {
            HashAction::UpToDate => Ok(()),
            HashAction::Delta => {
                let target = inst.path.clone();
                self.add_delta(target, &inst)
            },
            HashAction::FullReplace => {
                let target = inst.path.clone();
                self.add_full_replace(target, &inst)
            },
        }
    }

    /// The first planning pass over the whole manifest, from whether
    /// each file exists: the task table and the hash queue end up
    /// exactly as `presence_step` folded over every instruction leaves
    /// them. When every file exists, the pass only fills the hash
    /// queue: the plan and the progress record do not move.
    pub fn process_instructions(&mut self, exists_flags: &Vec<bool>) -> (r: Result<
        (),
        UpdateError,
    >)
        requires
            old(self).wf(),
            old(self).location is Some,
            exists_flags@.len() == old(self).instructions@.len(),
        ensures
            final(self).wf(),
            final(self).location == old(self).location,
            final(self).instructions == old(self).instructions,
            final(self).mirrors == old(self).mirrors,
            final(self).progress.downloaded_bytes == old(self).progress.downloaded_bytes,
            final(self).progress.patched_files == old(self).progress.patched_files,
            final(self).progress.total_files == old(self).progress.total_files,
            final(self).progress.finished_hash == old(self).progress.finished_hash,
            final(self).progress.finished_patching == old(self).progress.finished_patching,
            match r {
                Ok(()) => ({
                    let st = presence_pass(
                        pass1_start(*old(self)),
                        old(self).location->0@,
                        old(self).instructions@,
                        exists_flags@,
                        exists_flags@.len() as int,
                    );
                    final(self).plan@ == st.tasks && queue_models(final(self).hash_queue@)
                        == st.queue
                }) && ((forall|j: int| 0 <= j < exists_flags@.len() ==> exists_flags@[j])
                    ==> final(self).plan == old(self).plan && final(self).progress == old(self).progress),
                Err(e) => e == UpdateError::TooLarge && (exists|m: int|
                    #![trigger presence_pass(
                        pass1_start(*old(self)),
                        old(self).location->0@,
                        old(self).instructions@,
                        exists_flags@,
                        m,
                    )]
                    0 <= m < exists_flags@.len() && ({
                        let st = presence_pass(
                            pass1_start(*old(self)),
                            old(self).location->0@,
                            old(self).instructions@,
                            exists_flags@,
                            m,
                        );
                        let inst = old(self).instructions@[m];
                        &&& final(self).plan@ == st.tasks
                        &&& queue_models(final(self).hash_queue@) == st.queue
                        &&& presence_action(inst.new_hash is Some, exists_flags@[m])
                            == PresenceAction::FullReplace
                        &&& insert_overflows(st.tasks, inst.new_hash->0@, inst.full_replace_size)
                    })),
            },
    {
        let ghost st0 = pass1_start(*self);
        let ghost loc0 = self.location->0@;
        let n = self.instructions.len();
        let mut i: usize = 0;
        while i < n
            invariant
                i <= n,
                n == self.instructions@.len(),
                exists_flags@.len() == n,
                old(self).wf(),
                st0 == pass1_start(*old(self)),
                loc0 == old(self).location->0@,
                self.wf(),
                self.location is Some,
                self.location == old(self).location,
                self.instructions == old(self).instructions,
                self.mirrors == old(self).mirrors,
                self.progress.downloaded_bytes == old(self).progress.downloaded_bytes,
                self.progress.patched_files == old(self).progress.patched_files,
                self.progress.total_files == old(self).progress.total_files,
                self.progress.finished_hash == old(self).progress.finished_hash,
                self.progress.finished_patching == old(self).progress.finished_patching,
                self.plan@ == presence_pass(
                    st0,
                    loc0,
                    old(self).instructions@,
                    exists_flags@,
                    i as int,
                ).tasks,
                queue_models(self.hash_queue@) == presence_pass(
                    st0,
                    loc0,
                    old(self).instructions@,
                    exists_flags@,
                    i as int,
                ).queue,
                (forall|j: int| 0 <= j < i ==> exists_flags@[j]) ==> self.plan == old(self).plan
                    && self.progress == old(self).progress,
            decreases n - i,
        {
            let ghost pre = *self;
            let ghost inst_g = self.instructions@[i as int];
            let ghost before = presence_pass(
                st0,
                loc0,
                old(self).instructions@,
                exists_flags@,
                i as int,
            );
            match self.process_instruction(i, exists_flags[i]) {
                Ok(()) => (),
                Err(e) => {
                    proof {
                        assert(presence_pass(
                            pass1_start(*old(self)),
                            loc0,
                            old(self).instructions@,
                            exists_flags@,
                            i as int,
                        ) == before);
                        assert(self.plan@ == before.tasks);
                        assert(queue_models(self.hash_queue@) == before.queue);
                    }
                    return Err(e);
                },
            }
            proof {
                let after = presence_pass(
                    st0,
                    loc0,
                    old(self).instructions@,
                    exists_flags@,
                    i + 1,
                );
                assert(after == presence_step(before, loc0, inst_g, exists_flags@[i as int]));
                lemma_step_matches(pre, *self, before, loc0, inst_g, exists_flags@[i as int]);
            }
            i = i + 1;
        }
        Ok(())
    }

    /// The hash pass over the whole queue: the task table ends up
    /// exactly as `hash_step` folded over every queued instruction and
    /// its measured digest leaves it, and the hash phase is flagged
    /// finished. Idempotence: when every queued file already hashes to
    /// its target digest — as after a successful run — nothing is
    /// planned, no byte is counted, and the plan stands as it was.
    pub fn check_hashes(&mut self, hashes: &Vec<String>) -> (r: Result<(), UpdateError>)
        requires
            old(self).wf(),
            old(self).location is Some,
            hashes@.len() == old(self).hash_queue@.len(),
        ensures
            final(self).wf(),
            final(self).location == old(self).location,
            final(self).instructions == old(self).instructions,
            final(self).mirrors == old(self).mirrors,
            final(self).hash_queue == old(self).hash_queue,
            final(self).progress.downloaded_bytes == old(self).progress.downloaded_bytes,
            final(self).progress.patched_files == old(self).progress.patched_files,
            final(self).progress.total_files == old(self).progress.total_files,
            final(self).progress.finished_patching == old(self).progress.finished_patching,
            match r {
                Ok(()) => final(self).progress.finished_hash && final(self).plan@ == hash_pass(
                    old(self).plan@,
                    old(self).location->0@,
                    old(self).hash_queue@,
                    digest_views(hashes@),
                    hashes@.len() as int,
                ) && ((forall|j: int|
                    0 <= j < hashes@.len() ==> hashes@[j]@ == (
                    #[trigger] old(self).hash_queue@[j]).new_hash->0@) ==> final(self).plan == old(self).plan && final(self).progress.total_bytes == old(self).progress.total_bytes),
                Err(e) => e == UpdateError::TooLarge && final(self).progress.finished_hash == old(self).progress.finished_hash && (exists|m: int|
                    #![trigger hash_pass(
                        old(self).plan@,
                        old(self).location->0@,
                        old(self).hash_queue@,
                        digest_views(hashes@),
                        m,
                    )]
                    0 <= m < hashes@.len() && ({
                        let tasks = hash_pass(
                            old(self).plan@,
                            old(self).location->0@,
                            old(self).hash_queue@,
                            digest_views(hashes@),
                            m,
                        );
                        let inst = old(self).hash_queue@[m];
                        &&& final(self).plan@ == tasks
                        &&& match hash_action(inst, hashes@[m]@) {
                            HashAction::UpToDate => false,
                            HashAction::Delta => insert_overflows(
                                tasks,
                                delta_key(inst.new_hash->0@, inst.old_hash->0@),
                                inst.delta_size,
                            ),
                            HashAction::FullReplace => insert_overflows(
                                tasks,
                                inst.new_hash->0@,
                                inst.full_replace_size,
                            ),
                        }
                    })),
            },
    {
        let ghost tasks0 = self.plan@;
        let ghost loc0 = self.location->0@;
        let ghost hs = digest_views(hashes@);
        let n = self.hash_queue.len();
        let mut i: usize = 0;
        while i < n
            invariant
                i <= n,
                n == self.hash_queue@.len(),
                hashes@.len() == n,
                old(self).wf(),
                tasks0 == old(self).plan@,
                loc0 == old(self).location->0@,
                hs == digest_views(hashes@),
                self.wf(),
                self.location is Some,
                self.location == old(self).location,
                self.instructions == old(self).instructions,
                self.mirrors == old(self).mirrors,
                self.hash_queue == old(self).hash_queue,
                self.progress.downloaded_bytes == old(self).progress.downloaded_bytes,
                self.progress.patched_files == old(self).progress.patched_files,
                self.progress.total_files == old(self).progress.total_files,
                self.progress.finished_hash == old(self).progress.finished_hash,
                self.progress.finished_patching == old(self).progress.finished_patching,
                self.plan@ == hash_pass(tasks0, loc0, old(self).hash_queue@, hs, i as int),
                (forall|j: int| 0 <= j < i ==> hashes@[j]@ == (
                #[trigger] old(self).hash_queue@[j]).new_hash->0@) ==> *self == *old(self),
            decreases n - i,
        {
            let ghost pre = *self;
            let ghost inst_g = self.hash_queue@[i as int];
            match self.check_hash(i, &hashes[i]) {
                Ok(()) => (),
                Err(e) => {
                    proof {
                        assert(hash_pass(
                            old(self).plan@,
                            old(self).location->0@,
                            old(self).hash_queue@,
                            digest_views(hashes@),
                            i as int,
                        ) == pre.plan@);
                        assert(hs[i as int] == hashes@[i as int]@);
                    }
                    return Err(e);
                },
            }
            proof {
                assert(hash_pass(tasks0, loc0, old(self).hash_queue@, hs, i + 1) == hash_step(
                    hash_pass(tasks0, loc0, old(self).hash_queue@, hs, i as int),
                    loc0,
                    inst_g,
                    hs[i as int],
                ));
                assert(hs[i as int] == hashes@[i as int]@);
                match hash_action(inst_g, hashes@[i as int]@) {
                    HashAction::UpToDate => {},
                    HashAction::Delta => {
                        lemma_insert_matches(
                            pre.plan@,
                            self.plan@,
                            delta_entry(inst_g.path@, loc0, inst_g),
                        );
                    },
                    HashAction::FullReplace => {
                        lemma_insert_matches(
                            pre.plan@,
                            self.plan@,
                            full_entry(inst_g.path@, loc0, inst_g),
                        );
                    },
                }
                if forall|j: int| 0 <= j < i + 1 ==> hashes@[j]@ == (
                #[trigger] old(self).hash_queue@[j]).new_hash->0@ {
                    assert(hashes@[i as int]@ == old(self).hash_queue@[i as int].new_hash->0@);
                    assert(hash_action(pre.hash_queue@[i as int], hashes@[i as int]@)
                        == HashAction::UpToDate);
                }
            }
            i = i + 1;
        }
        self.progress.set_finished_hash();
        Ok(())
    }

    /// How many failover attempts a download task gets: five, capped by
    /// how many mirrors stand in the registry.
    pub fn attempt_cap(&self) -> (r: usize)
        ensures
            r == vstd::math::min(5, self.mirrors.mirrors@.len() as int),
    {
        if self.mirrors.mirrors.len() < 5 {
            self.mirrors.mirrors.len()
        } else {
            5
        }
    }
}

/// The per-instruction transition the first pass takes agrees with the
/// functional step the batch contract folds.
proof fn lemma_step_matches(
    pre: Downloader,
    post: Downloader,
    before: PlanState,
    loc: Seq<char>,
    inst: Instruction,
    file_exists: bool,
)
    requires
        pre.wf(),
        pre.location is Some,
        loc == pre.location->0@,
        before.tasks == pre.plan@,
        before.queue == queue_models(pre.hash_queue@),
        ({
            let target = located(loc, inst.path@);
            match presence_action(inst.new_hash is Some, file_exists) {
                PresenceAction::Ignore => post == pre,
                PresenceAction::QueueHashCheck => {
                    &&& post.hash_queue@.len() == pre.hash_queue@.len() + 1
                    &&& post.hash_queue@.drop_last() == pre.hash_queue@
                    &&& post.hash_queue@.last().path@ == target
                    &&& post.hash_queue@.last().old_hash == inst.old_hash
                    &&& post.hash_queue@.last().new_hash == inst.new_hash
                    &&& post.hash_queue@.last().compressed_hash == inst.compressed_hash
                    &&& post.hash_queue@.last().delta_hash == inst.delta_hash
                    &&& post.hash_queue@.last().full_replace_size == inst.full_replace_size
                    &&& post.hash_queue@.last().delta_size == inst.delta_size
                    &&& post.hash_queue@.last().has_delta == inst.has_delta
                    &&& post.plan == pre.plan
                },
                PresenceAction::FullReplace => full_replace_planned(pre, post, target, inst),
            }
        }),
    ensures
        post.plan@ == presence_step(before, loc, inst, file_exists).tasks,
        queue_models(post.hash_queue@) == presence_step(before, loc, inst, file_exists).queue,
{
    let target = located(loc, inst.path@);
    let after = presence_step(before, loc, inst, file_exists);
    match presence_action(inst.new_hash is Some, file_exists) {
        PresenceAction::Ignore => {},
        PresenceAction::QueueHashCheck => {
            assert(queue_models(post.hash_queue@) =~= queue_models(pre.hash_queue@).push(
                queued_inst(loc, inst),
            )) by {
                assert forall|j: int| 0 <= j < pre.hash_queue@.len() implies queue_models(
                    post.hash_queue@,
                )[j] == queue_models(pre.hash_queue@)[j] by {
                    assert(post.hash_queue@[j] == post.hash_queue@.drop_last()[j]);
                }
                assert(inst_view(post.hash_queue@.last()) =~= queued_inst(loc, inst));
            }
        },
        PresenceAction::FullReplace => {
            lemma_insert_matches(pre.plan@, post.plan@, full_entry(target, loc, inst));
        },
    }
}

/// A push-or-append transition on the task table agrees with the
/// model-level check-and-insert.
proof fn lemma_insert_matches(
    pre: Seq<EntryModel>,
    post: Seq<EntryModel>,
    e: EntryModel,
)
    requires
        crate::plan::keys_unique(pre),
        e.patch_entries.len() == 1,
        if !contains_key(pre, e.key) {
            post == pre.push(e)
        } else {
            exists|i: int|
                0 <= i < pre.len() && (#[trigger] pre[i]).key == e.key && post == pre.update(
                    i,
                    EntryModel {
                        patch_entries: pre[i].patch_entries.push(e.patch_entries[0]),
                        ..pre[i]
                    },
                )
        },
    ensures
        post == crate::plan::spec_add_task(pre, e),
{
    if contains_key(pre, e.key) {
        let i = choose|i: int|
            0 <= i < pre.len() && (#[trigger] pre[i]).key == e.key && post == pre.update(
                i,
                EntryModel {
                    patch_entries: pre[i].patch_entries.push(e.patch_entries[0]),
                    ..pre[i]
                },
            );
        crate::plan::lemma_key_index(pre, i);
        assert(pre[i].patch_entries.push(e.patch_entries[0]) =~= pre[i].patch_entries
            + e.patch_entries);
        assert(post =~= crate::plan::spec_add_task(pre, e));
    }
}

/// The manifest retry policy: attempts walk the mirror ranks from the
/// fastest; a failed fetch or a digest mismatch moves one rank down,
/// and after three failed attempts the manifest load is fatal.
pub fn next_manifest_attempt(failures: usize) -> (r: Option<usize>)
    ensures
        match r {
            Some(f) => f == failures + 1 && f < 3,
            None => failures + 1 >= 3,
        },
{
    if failures < 2 {
        Some(failures + 1)
    } else {
        None
    }
}

/// The URL the manifest is fetched from on a mirror.
pub fn manifest_url(address: &String) -> (r: String)
    ensures
        r@ == address@ + "/instructions.json"@,
{
    address.clone().concat("/instructions.json")
}

/// The URL a task's blob is fetched from on a mirror: under `delta`
/// when some patch entry uses a source, else under `full`.
pub fn blob_url(address: &String, has_source: bool, key: &String) -> (r: String)
    ensures
        has_source ==> r@ == address@ + "/delta/"@ + key@,
        !has_source ==> r@ == address@ + "/full/"@ + key@,
{
    if has_source {
        address.clone().concat("/delta/").concat(key.as_str())
    } else {
        address.clone().concat("/full/").concat(key.as_str())
    }
}

/// The URL of a mirror's fixed calibration object: the object sits
/// beside the last path segment of the mirror address. Fails only when
/// the address holds no slash at all.
pub fn calibration_url(address: &String) -> (r: Result<String, UpdateError>)
    ensures
        match r {
            Ok(u) => (exists|i: int| 0 <= i < address@.len() && address@[i] == '/') && u@
                == address@.take(crate::strutil::last_slash_of(address@) + 1) + "10kb_file"@,
            Err(e) => e == UpdateError::BadDescriptor && (forall|i: int|
                0 <= i < address@.len() ==> address@[i] != '/'),
        },
{
    let n = address.as_str().unicode_len();
    let idx = match crate::strutil::last_slash_index(address.as_str()) {
        Some(i) => i,
        None => {
            return Err(UpdateError::BadDescriptor);
        },
    };
    let prefix = address.as_str().substring_char(0, idx + 1).to_owned();
    proof {
        assert(address@[idx as int] == '/');
        assert(crate::strutil::last_slash_of(address@) == idx as int);
    }
    Ok(prefix.concat("10kb_file"))
}

/// The content-addressed integrity law: in a well-formed engine every
/// planned patch targets a digest the manifest publishes as some file's
/// target content. A patched file accepted by the final digest check
/// therefore holds content hashing to a published target digest; a file
/// the planner left alone already did.
pub proof fn lemma_content_addressed_integrity(
    d: Downloader,
    i: int,
    j: int,
    computed: Seq<char>,
)
    requires
        d.wf(),
        0 <= i < d.plan@.len(),
        0 <= j < d.plan@[i].patch_entries.len(),
        computed == d.plan@[i].patch_entries[j].target_hash,
    ensures
        publishes(d.instructions@, computed),
{
}

} // verus!
