//! The instructions manifest: one entry per file of the installation,
//! fetched from a mirror, verified against the published digest, and
//! parsed into plain values.
use vstd::prelude::*;

verus! {

use crate::UpdateError;
use crate::hashing::{sha256_hex, sha256_hex_of};
use crate::jsonval;
use vstd::string::StringSliceAdditionalSpecFns;

/// One manifest entry: the desired state of a single file.
pub struct Instruction {
    /// The file's path relative to the installation root.
    pub path: String,
    /// The digest of the content expected on disk now; absent for a new file.
    pub old_hash: Option<String>,
    /// The digest of the target content; absent when the file is to go away.
    pub new_hash: Option<String>,
    /// The digest of the full-replacement blob as served.
    pub compressed_hash: Option<String>,
    /// The digest of the delta blob, when one is published.
    pub delta_hash: Option<String>,
    /// The size of the full-replacement blob, in bytes.
    pub full_replace_size: u64,
    /// The size of the delta blob, in bytes.
    pub delta_size: u64,
    /// Whether a delta blob is published for this file.
    pub has_delta: bool,
}

/// The manifest's own invariant: a target content digest comes with the
/// full-replacement blob's digest, and a published delta comes with its
/// digest.
pub open spec fn instruction_wf(inst: Instruction) -> bool {
    &&& inst.new_hash is Some ==> inst.compressed_hash is Some
    &&& inst.has_delta ==> inst.delta_hash is Some
}

impl Instruction {
    /// A field-for-field copy.
    pub fn duplicate(&self) -> (r: Instruction)
        ensures
            r == *self,
    {
        Instruction {
            path: self.path.clone(),
            old_hash: clone_opt(&self.old_hash),
            new_hash: clone_opt(&self.new_hash),
            compressed_hash: clone_opt(&self.compressed_hash),
            delta_hash: clone_opt(&self.delta_hash),
            full_replace_size: self.full_replace_size,
            delta_size: self.delta_size,
            has_delta: self.has_delta,
        }
    }
}

/// A copy of an optional string.
fn clone_opt(o: &Option<String>) -> (r: Option<String>)
    ensures
        r == *o,
{
    match o {
        Some(s) => Some(s.clone()),
        None => None,
    }
}

/// Whether fetched manifest text matches the digest the release
/// descriptor published for it.
pub fn manifest_text_ok(text: &str, expected_hash: &String) -> (r: bool)
    ensures
        r == (sha256_hex_of(text.spec_bytes()) == expected_hash@),
{
    let h = sha256_hex(text.as_bytes());
    h == *expected_hash
}

/// Build one instruction from the plain fields read out of a manifest
/// entry: it succeeds exactly when the path, both sizes and the delta
/// flag are present and the manifest invariant holds, and then returns
/// exactly those fields.
pub fn instruction_from_fields(
    path: Option<String>,
    old_hash: Option<String>,
    new_hash: Option<String>,
    compressed_hash: Option<String>,
    delta_hash: Option<String>,
    full_replace_size: Option<u64>,
    delta_size: Option<u64>,
    has_delta: Option<bool>,
) -> (r: Result<Instruction, UpdateError>)
    ensures
        match r {
            Ok(inst) => {
                &&& path is Some && full_replace_size is Some && delta_size is Some
                    && has_delta is Some
                &&& inst.path == path->0
                &&& inst.old_hash == old_hash
                &&& inst.new_hash == new_hash
                &&& inst.compressed_hash == compressed_hash
                &&& inst.delta_hash == delta_hash
                &&& inst.full_replace_size == full_replace_size->0
                &&& inst.delta_size == delta_size->0
                &&& inst.has_delta == has_delta->0
                &&& instruction_wf(inst)
            },
            Err(e) => (e == UpdateError::BadDescriptor && (path is None
                || full_replace_size is None || delta_size is None || has_delta is None)) || (e
                == UpdateError::BadInstruction && path is Some && full_replace_size is Some
                && delta_size is Some && has_delta is Some && ((new_hash is Some
                && compressed_hash is None) || (has_delta->0 && delta_hash is None))),
        },
{
    let path = match path {
        Some(p) => p,
        None => {
            return Err(UpdateError::BadDescriptor);
        },
    };
    let full_replace_size = match full_replace_size {
        Some(v) => v,
        None => {
            return Err(UpdateError::BadDescriptor);
        },
    };
    let delta_size = match delta_size {
        Some(v) => v,
        None => {
            return Err(UpdateError::BadDescriptor);
        },
    };
    let has_delta = match has_delta {
        Some(v) => v,
        None => {
            return Err(UpdateError::BadDescriptor);
        },
    };
    if new_hash.is_some() && compressed_hash.is_none() {
        return Err(UpdateError::BadInstruction);
    }
    if has_delta && delta_hash.is_none() {
        return Err(UpdateError::BadInstruction);
    }
    Ok(
        Instruction {
            path,
            old_hash,
            new_hash,
            compressed_hash,
            delta_hash,
            full_replace_size,
            delta_size,
            has_delta,
        },
    )
}

/// Parse manifest text into instructions. Every instruction returned
/// satisfies the manifest invariant; the content read out of each entry
/// is judged by `instruction_from_fields`: text that is not JSON, an
/// entry without its path, sizes or delta flag, or an entry that breaks
/// the invariant, is rejected.
pub fn parse_instructions(text: &str) -> (r: Result<Vec<Instruction>, UpdateError>)
    ensures
        match r {
            Ok(v) => forall|i: int| 0 <= i < v@.len() ==> instruction_wf(#[trigger] v@[i]),
            Err(e) => e == UpdateError::BadDescriptor || e == UpdateError::BadInstruction,
        },
{
    let data = match jsonval::parse(text) {
        Ok(d) => d,
        Err(_) => {
            return Err(UpdateError::BadDescriptor);
        },
    };
    let n = jsonval::length(&data);
    let mut out: Vec<Instruction> = Vec::new();
    let mut idx: usize = 0;
    while idx < n
        invariant
            forall|i: int| 0 <= i < out@.len() ==> instruction_wf(#[trigger] out@[i]),
        decreases n - idx,
    {
        let item = jsonval::at(&data, idx);
        let inst = match instruction_from_fields(
            jsonval::as_string(jsonval::get(item, "Path")),
            jsonval::as_string(jsonval::get(item, "OldHash")),
            jsonval::as_string(jsonval::get(item, "NewHash")),
            jsonval::as_string(jsonval::get(item, "CompressedHash")),
            jsonval::as_string(jsonval::get(item, "DeltaHash")),
            jsonval::as_u64(jsonval::get(item, "FullReplaceSize")),
            jsonval::as_u64(jsonval::get(item, "DeltaSize")),
            jsonval::as_bool(jsonval::get(item, "HasDelta")),
        ) {
            Ok(inst) => inst,
            Err(e) => {
                return Err(e);
            },
        };
        out.push(inst);
        idx = idx + 1;
    }
    Ok(out)
}

} // verus!
