//! Applying one patch entry: the filesystem steps to take, and the
//! digest check on the produced file.
//!
//! The decode itself is the external delta decoder's work; renaming the
//! prior content aside before decoding keeps it recoverable if the
//! process dies mid-decode.
use vstd::prelude::*;

verus! {

use crate::UpdateError;
use crate::plan::PatchEntry;
use crate::strutil::last_slash_of;
use vstd::string::*;

/// The filesystem steps that apply one patch entry, in order: create
/// `dir_path` recursively; when a source is named, rename the target to
/// it; decode (source if any, the blob as delta, the target as output);
/// remove the source if one was named.
pub struct PatchSteps {
    /// The directory that must exist for the target file.
    pub dir_path: String,
    /// Where the prior content goes while it serves as the decode
    /// source; absent for an outright replacement, whose target is
    /// simply removed first.
    pub source_path: Option<String>,
}

/// Decide the steps for one patch entry. Fails only when the target
/// path has no directory component.
pub fn patch_steps(entry: &PatchEntry) -> (r: Result<PatchSteps, UpdateError>)
    ensures
        match r {
            Ok(st) => {
                &&& (exists|i: int|
                    0 <= i < entry.target_path@.len() && entry.target_path@[i] == '/')
                &&& st.dir_path@ == entry.target_path@.take(last_slash_of(entry.target_path@))
                &&& (entry.has_source ==> st.source_path is Some
                    && st.source_path->0@ == entry.target_path@ + ".vcdiff_src"@)
                &&& (!entry.has_source ==> st.source_path is None)
            },
            Err(e) => e == UpdateError::PatchFailed && (forall|i: int|
                0 <= i < entry.target_path@.len() ==> entry.target_path@[i] != '/'),
        },
{
    let idx = match crate::strutil::last_slash_index(entry.target_path.as_str()) {
        Some(i) => i,
        None => {
            return Err(UpdateError::PatchFailed);
        },
    };
    let dir_path = entry.target_path.as_str().substring_char(0, idx).to_owned();
    proof {
        assert(entry.target_path@[idx as int] == '/');
        assert(last_slash_of(entry.target_path@) == idx as int);
    }
    let source_path = if entry.has_source {
        Some(entry.target_path.clone().concat(".vcdiff_src"))
    } else {
        None
    };
    Ok(PatchSteps { dir_path, source_path })
}

/// Judge a produced file by its digest: accepted exactly when it hashes
/// to the patch entry's target digest. A mismatch is fatal — the
/// published delta is defective or the disk corrupted the file, and no
/// retry would change that.
pub fn verify_patched(computed_hash: &String, entry: &PatchEntry) -> (r: Result<
    (),
    UpdateError,
>)
    ensures
        match r {
            Ok(()) => computed_hash@ == entry.target_hash@,
            Err(e) => e == UpdateError::PatchFailed && computed_hash@ != entry.target_hash@,
        },
{
    if *computed_hash == entry.target_hash {
        Ok(())
    } else {
        Err(UpdateError::PatchFailed)
    }
}

} // verus!
