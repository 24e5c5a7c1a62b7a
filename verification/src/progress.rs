//! Shared progress record: byte and file counters plus two phase flags.
//!
//! Every transition is monotone: totals only grow while the plan is built,
//! the completed counters only grow while it runs, and each flag flips from
//! `false` to `true` at most once.
use vstd::prelude::*;

verus! {

use crate::UpdateError;

/// A snapshot of how far an update run has come.
pub struct Progress {
    /// Bytes downloaded so far, out of the bytes the plan calls for.
    pub downloaded_bytes: u64,
    /// Total bytes the plan calls for; grows as download tasks are planned.
    pub total_bytes: u64,
    /// Files patched so far.
    pub patched_files: u64,
    /// Total files the plan will patch.
    pub total_files: u64,
    /// Set once the hash pass over the installation is done.
    pub finished_hash: bool,
    /// Set once every patch has been applied.
    pub finished_patching: bool,
}

impl Progress {
    /// A fresh record: all counters zero, both flags down.
    pub fn new() -> (p: Progress)
        ensures
            p.downloaded_bytes == 0,
            p.total_bytes == 0,
            p.patched_files == 0,
            p.total_files == 0,
            !p.finished_hash,
            !p.finished_patching,
    {
        Progress {
            downloaded_bytes: 0,
            total_bytes: 0,
            patched_files: 0,
            total_files: 0,
            finished_hash: false,
            finished_patching: false,
        }
    }

    /// Grow the planned byte total; fails (leaving the record unchanged)
    /// only when the total would no longer fit in 64 bits.
    pub fn add_total_bytes(&mut self, n: u64) -> (r: Result<(), UpdateError>)
        ensures
            match r {
                Ok(()) => final(self).total_bytes == old(self).total_bytes + n,
                Err(e) => e == UpdateError::TooLarge && *final(self) == *old(self)
                    && old(self).total_bytes + n > u64::MAX,
            },
            final(self).downloaded_bytes == old(self).downloaded_bytes,
            final(self).patched_files == old(self).patched_files,
            final(self).total_files == old(self).total_files,
            final(self).finished_hash == old(self).finished_hash,
            final(self).finished_patching == old(self).finished_patching,
    {
        match self.total_bytes.checked_add(n) {
            Some(t) => {
                self.total_bytes = t;
                Ok(())
            },
            None => Err(UpdateError::TooLarge),
        }
    }

    /// Credit downloaded bytes, saturating at the 64-bit limit.
    pub fn add_downloaded_bytes(&mut self, n: u64)
        ensures
            final(self).downloaded_bytes
                == vstd::math::min(old(self).downloaded_bytes + n, u64::MAX as int),
            final(self).total_bytes == old(self).total_bytes,
            final(self).patched_files == old(self).patched_files,
            final(self).total_files == old(self).total_files,
            final(self).finished_hash == old(self).finished_hash,
            final(self).finished_patching == old(self).finished_patching,
    {
        self.downloaded_bytes = self.downloaded_bytes.saturating_add(n);
    }

    /// Grow the planned file total; fails only on 64-bit overflow.
    pub fn add_total_files(&mut self, n: u64) -> (r: Result<(), UpdateError>)
        ensures
            match r {
                Ok(()) => final(self).total_files == old(self).total_files + n,
                Err(e) => e == UpdateError::TooLarge && *final(self) == *old(self)
                    && old(self).total_files + n > u64::MAX,
            },
            final(self).downloaded_bytes == old(self).downloaded_bytes,
            final(self).total_bytes == old(self).total_bytes,
            final(self).patched_files == old(self).patched_files,
            final(self).finished_hash == old(self).finished_hash,
            final(self).finished_patching == old(self).finished_patching,
    {
        match self.total_files.checked_add(n) {
            Some(t) => {
                self.total_files = t;
                Ok(())
            },
            None => Err(UpdateError::TooLarge),
        }
    }

    /// Count one more patched file, saturating at the 64-bit limit.
    pub fn add_patched_file(&mut self)
        ensures
            final(self).patched_files
                == vstd::math::min(old(self).patched_files + 1, u64::MAX as int),
            final(self).downloaded_bytes == old(self).downloaded_bytes,
            final(self).total_bytes == old(self).total_bytes,
            final(self).total_files == old(self).total_files,
            final(self).finished_hash == old(self).finished_hash,
            final(self).finished_patching == old(self).finished_patching,
    {
        self.patched_files = self.patched_files.saturating_add(1);
    }

    /// Raise the hash-pass flag; it never goes back down.
    pub fn set_finished_hash(&mut self)
        ensures
            final(self).finished_hash,
            final(self).finished_patching == old(self).finished_patching,
            final(self).downloaded_bytes == old(self).downloaded_bytes,
            final(self).total_bytes == old(self).total_bytes,
            final(self).patched_files == old(self).patched_files,
            final(self).total_files == old(self).total_files,
    {
        self.finished_hash = true;
    }

    /// Raise the patching flag; it never goes back down.
    pub fn set_finished_patching(&mut self)
        ensures
            final(self).finished_patching,
            final(self).finished_hash == old(self).finished_hash,
            final(self).downloaded_bytes == old(self).downloaded_bytes,
            final(self).total_bytes == old(self).total_bytes,
            final(self).patched_files == old(self).patched_files,
            final(self).total_files == old(self).total_files,
    {
        self.finished_patching = true;
    }
}

} // verus!
