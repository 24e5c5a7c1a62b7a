//! The content-addressed download plan.
//!
//! Every file that needs work resolves to a download task keyed by the
//! content address of the blob that serves it: the target digest for a
//! full replacement, target-from-old for a delta. Instructions that
//! resolve to the same key share one task — and one download — each
//! contributing only a patch entry. The byte total counts every distinct
//! task exactly once.
use vstd::prelude::*;

verus! {

use crate::UpdateError;
use crate::instructions::Instruction;

/// One application of a downloaded blob to a target file.
pub struct PatchEntry {
    /// The file to produce.
    pub target_path: String,
    /// The local path of the blob to apply.
    pub delta_path: String,
    /// Whether the existing file is the delta's source (false means the
    /// blob replaces the file outright).
    pub has_source: bool,
    /// The digest the produced file must hash to.
    pub target_hash: String,
}

/// The mathematical image of a patch entry.
#[verifier::ext_equal]
pub ghost struct PatchModel {
    pub target_path: Seq<char>,
    pub delta_path: Seq<char>,
    pub has_source: bool,
    pub target_hash: Seq<char>,
}

impl View for PatchEntry {
    type V = PatchModel;

    open spec fn view(&self) -> PatchModel {
        PatchModel {
            target_path: self.target_path@,
            delta_path: self.delta_path@,
            has_source: self.has_source,
            target_hash: self.target_hash@,
        }
    }
}

/// One download task: a blob to fetch and the patch entries it serves.
pub struct DownloadEntry {
    /// The content-addressed key.
    pub key: String,
    /// Where the blob lands locally.
    pub file_path: String,
    /// The size of the blob as served, in bytes.
    pub file_size: u64,
    /// The digest the served blob must hash to.
    pub file_hash: String,
    /// Every file this blob patches.
    pub patch_entries: Vec<PatchEntry>,
}

/// The mathematical image of a download task.
#[verifier::ext_equal]
pub ghost struct EntryModel {
    pub key: Seq<char>,
    pub file_path: Seq<char>,
    pub file_size: u64,
    pub file_hash: Seq<char>,
    pub patch_entries: Seq<PatchModel>,
}

impl View for DownloadEntry {
    type V = EntryModel;

    open spec fn view(&self) -> EntryModel {
        EntryModel {
            key: self.key@,
            file_path: self.file_path@,
            file_size: self.file_size,
            file_hash: self.file_hash@,
            patch_entries: self.patch_entries@.map_values(|p: PatchEntry| p@),
        }
    }
}

/// Whether the plan holds a task under the key.
pub open spec fn contains_key(s: Seq<EntryModel>, key: Seq<char>) -> bool {
    exists|i: int| 0 <= i < s.len() && (#[trigger] s[i]).key == key
}

/// No two tasks share a key.
pub open spec fn keys_unique(s: Seq<EntryModel>) -> bool {
    forall|i: int, j: int| 0 <= i < j < s.len() ==> (#[trigger] s[i]).key != (
    #[trigger] s[j]).key
}

/// The bytes the plan calls for: each task's size, counted once.
pub open spec fn total_size(s: Seq<EntryModel>) -> int
    decreases s.len(),
{
    if s.len() == 0 {
        0
    } else {
        total_size(s.drop_last()) + s.last().file_size
    }
}

/// The index of the task holding a key; meaningful when keys are
/// distinct and the key is present.
pub open spec fn key_index(s: Seq<EntryModel>, key: Seq<char>) -> int {
    choose|i: int| 0 <= i < s.len() && (#[trigger] s[i]).key == key
}

/// Under distinct keys, a key's index is the only one holding it.
pub proof fn lemma_key_index(s: Seq<EntryModel>, i: int)
    requires
        keys_unique(s),
        0 <= i < s.len(),
    ensures
        key_index(s, s[i].key) == i,
{
    let k = s[i].key;
    assert(contains_key(s, k));
    let j = key_index(s, k);
    assert(0 <= j < s.len() && s[j].key == k);
}

/// Check-and-insert at the model level: a task under a new key is
/// appended with its patch entries; a known key's task only gains them.
pub open spec fn spec_add_task(s: Seq<EntryModel>, e: EntryModel) -> Seq<EntryModel> {
    if contains_key(s, e.key) {
        let i = key_index(s, e.key);
        s.update(i, EntryModel { patch_entries: s[i].patch_entries + e.patch_entries, ..s[i] })
    } else {
        s.push(e)
    }
}

/// The download-task table and its byte total.
pub struct Plan {
    /// The tasks, in the order their keys were first seen.
    pub entries: Vec<DownloadEntry>,
    /// The sum of the tasks' sizes.
    pub total_bytes: u64,
}

impl View for Plan {
    type V = Seq<EntryModel>;

    open spec fn view(&self) -> Seq<EntryModel> {
        self.entries@.map_values(|e: DownloadEntry| e@)
    }
}

/// Updating one task's size-preserving fields leaves the total alone.
proof fn lemma_total_size_update(s: Seq<EntryModel>, i: int, e: EntryModel)
    requires
        0 <= i < s.len(),
        e.file_size == s[i].file_size,
    ensures
        total_size(s.update(i, e)) == total_size(s),
    decreases s.len(),
{
    if i == s.len() - 1 {
        assert(s.update(i, e).drop_last() =~= s.drop_last());
    } else {
        assert(s.update(i, e).drop_last() =~= s.drop_last().update(i, e));
        lemma_total_size_update(s.drop_last(), i, e);
    }
}

impl Plan {
    /// The de-duplication invariant: keys are distinct, and the byte
    /// total is the sum of the distinct tasks' sizes.
    pub open spec fn wf(self) -> bool {
        &&& keys_unique(self@)
        &&& self.total_bytes == total_size(self@)
    }

    /// An empty plan.
    pub fn new() -> (r: Plan)
        ensures
            r@ =~= Seq::<EntryModel>::empty(),
            r.total_bytes == 0,
            r.wf(),
    {
        Plan { entries: Vec::new(), total_bytes: 0 }
    }

    /// How many distinct tasks the plan holds.
    pub fn task_count(&self) -> (n: usize)
        ensures
            n == self@.len(),
    {
        self.entries.len()
    }

    /// Check-and-insert under a content-addressed key. A first sighting
    /// of the key appends a fresh task carrying the one patch entry and
    /// counts its size into the total; a key already present only gains
    /// the patch entry, and the total does not move. Fails only when the
    /// total would no longer fit in 64 bits.
    pub fn add_task(
        &mut self,
        key: String,
        file_path: String,
        file_size: u64,
        file_hash: String,
        patch: PatchEntry,
    ) -> (r: Result<bool, UpdateError>)
        requires
            old(self).wf(),
        ensures
            final(self).wf(),
            match r {
                Ok(added) => {
                    &&& added == !contains_key(old(self)@, key@)
                    &&& (added ==> final(self)@ == old(self)@.push(
                        EntryModel {
                            key: key@,
                            file_path: file_path@,
                            file_size: file_size,
                            file_hash: file_hash@,
                            patch_entries: seq![patch@],
                        },
                    ) && final(self).total_bytes == old(self).total_bytes + file_size)
                    &&& (!added ==> exists|i: int|
                        0 <= i < old(self)@.len() && (#[trigger] old(self)@[i]).key == key@
                            && final(self)@ == old(self)@.update(
                            i,
                            EntryModel {
                                patch_entries: old(self)@[i].patch_entries.push(patch@),
                                ..old(self)@[i]
                            },
                        ) && final(self).total_bytes == old(self).total_bytes)
                },
                Err(e) => e == UpdateError::TooLarge && *final(self) == *old(self)
                    && !contains_key(old(self)@, key@) && old(self).total_bytes + file_size
                    > u64::MAX,
            },
    {
        let ghost pre = self@;
        let n = self.entries.len();
        let mut i: usize = 0;
        while i < n
            invariant
                i <= n,
                n == self@.len(),
                *self == *old(self),
                old(self).wf(),
                forall|j: int| 0 <= j < i ==> (#[trigger] pre[j]).key != key@,
                pre == self@,
            decreases n - i,
        {
            if self.entries[i].key == key {
                let ghost idx = i as int;
                let ghost target = EntryModel {
                    patch_entries: pre[idx].patch_entries.push(patch@),
                    ..pre[idx]
                };
                let mut e = self.entries.remove(i);
                let ghost e_pre = e@;
                e.patch_entries.push(patch);
                proof {
                    assert(e@.patch_entries =~= e_pre.patch_entries.push(patch@));
                    assert(e@ =~~= target);
                }
                self.entries.insert(i, e);
                proof {
                    assert(self@ =~~= pre.update(idx, target));
                    lemma_total_size_update(pre, idx, target);
                    assert(target.key == pre[idx].key);
                    assert forall|a: int, b: int| 0 <= a < b < self@.len() implies (
                    #[trigger] self@[a]).key != (#[trigger] self@[b]).key by {
                        if a == idx {
                            assert(self@[a] == target);
                        } else {
                            assert(self@[a] == pre[a]);
                        }
                        if b == idx {
                            assert(self@[b] == target);
                        } else {
                            assert(self@[b] == pre[b]);
                        }
                        assert(pre[a].key != pre[b].key);
                    }
                    assert(pre[idx].key == key@);
                }
                return Ok(false);
            }
            i = i + 1;
        }
        match self.total_bytes.checked_add(file_size) {
            Some(t) => {
                let ghost target = EntryModel {
                    key: key@,
                    file_path: file_path@,
                    file_size: file_size,
                    file_hash: file_hash@,
                    patch_entries: seq![patch@],
                };
                let mut patches: Vec<PatchEntry> = Vec::new();
                patches.push(patch);
                let entry = DownloadEntry {
                    key,
                    file_path,
                    file_size,
                    file_hash,
                    patch_entries: patches,
                };
                proof {
                    assert(entry@.patch_entries =~= seq![patch@]);
                    assert(entry@ =~~= target);
                }
                self.entries.push(entry);
                self.total_bytes = t;
                proof {
                    assert(self@ =~~= pre.push(target));
                    assert(self@.drop_last() =~= pre);
                    assert(keys_unique(self@)) by {
                        assert forall|a: int, b: int| 0 <= a < b < self@.len() implies (
                        #[trigger] self@[a]).key != (#[trigger] self@[b]).key by {
                            if b == self@.len() - 1 {
                                assert(self@[a] == pre[a]);
                                assert(!contains_key(pre, key@));
                            }
                        }
                    }
                }
                Ok(true)
            },
            None => Err(UpdateError::TooLarge),
        }
    }
}

/// What the first planning pass decides from whether the file exists.
#[derive(Clone, Copy, PartialEq, Eq, Structural, Debug)]
pub enum PresenceAction {
    /// The file exists and has a target: hash it in the second pass.
    QueueHashCheck,
    /// The file is missing but has a target: download the full blob.
    FullReplace,
    /// The file has no target content: nothing to do.
    Ignore,
}

/// The first-pass classification rule.
pub open spec fn presence_action(has_new_hash: bool, file_exists: bool) -> PresenceAction {
    if !has_new_hash {
        PresenceAction::Ignore
    } else if file_exists {
        PresenceAction::QueueHashCheck
    } else {
        PresenceAction::FullReplace
    }
}

/// Classify one instruction against the file's presence on disk.
pub fn classify_presence(inst: &Instruction, file_exists: bool) -> (a: PresenceAction)
    ensures
        a == presence_action(inst.new_hash is Some, file_exists),
{
    if inst.new_hash.is_none() {
        PresenceAction::Ignore
    } else if file_exists {
        PresenceAction::QueueHashCheck
    } else {
        PresenceAction::FullReplace
    }
}

/// What the hash pass decides from the file's measured digest.
#[derive(Clone, Copy, PartialEq, Eq, Structural, Debug)]
pub enum HashAction {
    /// The file already hashes to its target: no work.
    UpToDate,
    /// The file hashes to the declared old content and a delta is
    /// published: download the delta.
    Delta,
    /// The file matches neither digest (or no delta is published): it is
    /// corrupt or stale, download the full blob.
    FullReplace,
}

/// The hash-pass classification rule.
pub open spec fn hash_action(inst: Instruction, file_hash: Seq<char>) -> HashAction {
    if inst.new_hash is Some && file_hash == inst.new_hash->0@ {
        HashAction::UpToDate
    } else if inst.old_hash is Some && inst.new_hash is Some && inst.has_delta && file_hash
        == inst.old_hash->0@ {
        HashAction::Delta
    } else {
        HashAction::FullReplace
    }
}

/// Classify one queued instruction against the file's measured digest.
pub fn classify_hash(inst: &Instruction, file_hash: &String) -> (a: HashAction)
    ensures
        a == hash_action(*inst, file_hash@),
{
    match &inst.new_hash {
        Some(nh) => {
            if *file_hash == *nh {
                return HashAction::UpToDate;
            }
        },
        None => {},
    }
    if inst.has_delta && inst.new_hash.is_some() {
        match &inst.old_hash {
            Some(oh) => {
                if *file_hash == *oh {
                    return HashAction::Delta;
                }
            },
            None => {},
        }
    }
    HashAction::FullReplace
}

/// The de-duplication law: in a well-formed plan no key repeats, and the
/// byte total is exactly the sum of the distinct tasks' sizes — the bytes
/// a clean run fetches, with no blob fetched twice.
pub proof fn lemma_download_dedup(p: Plan)
    requires
        p.wf(),
    ensures
        keys_unique(p@),
        p.total_bytes == total_size(p@),
{
}

} // verus!
