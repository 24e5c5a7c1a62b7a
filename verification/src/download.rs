//! The resumable download protocol for one blob.
//!
//! While a blob is being fetched, its local file has the layout
//! `[payload bytes][4-byte big-endian sentinel]`: the sentinel holds the
//! number of completed fixed-size parts. Each part is fetched with an HTTP
//! range request, written at its offset, and only then is the sentinel
//! advanced, so a crash mid-part never lets the sentinel run ahead of the
//! payload. The surrounding process performs the reads and writes; this
//! module decides every offset, length and sentinel value, and checks the
//! final digest.
use vstd::prelude::*;

verus! {

use crate::UpdateError;
use vstd::math::min;

/// The unit of resumable fetch, in bytes.
pub const PART_SIZE: u64 = 1000000;

/// How many parts a blob of the given size has (the last may be short).
pub open spec fn part_count_of(file_size: u64) -> int {
    (file_size + PART_SIZE - 1) as int / PART_SIZE as int
}

/// The first byte offset of a part.
pub open spec fn part_start(part: int) -> int {
    part * PART_SIZE as int
}

/// One past the last byte offset of a part, clamped to the blob size.
pub open spec fn part_end_excl(part: int, file_size: u64) -> int {
    min(part_start(part) + PART_SIZE as int, file_size as int)
}

/// Compute the part count executably.
pub fn part_count(file_size: u64) -> (n: u64)
    ensures
        n == part_count_of(file_size),
        file_size > 0 ==> n >= 1,
{
    let n = file_size / PART_SIZE + if file_size % PART_SIZE > 0 {
        1u64
    } else {
        0u64
    };
    proof {
        lemma_ceil_div(file_size as int, PART_SIZE as int);
    }
    n
}

/// Ceiling division agrees with "quotient plus one when there is a rest".
proof fn lemma_ceil_div(a: int, d: int)
    requires
        a >= 0,
        d > 0,
    ensures
        (a + d - 1) / d == a / d + if a % d > 0 {
            1int
        } else {
            0int
        },
{
    vstd::arithmetic::div_mod::lemma_fundamental_div_mod(a, d);
    let q = a / d;
    let r = a % d;
    if r > 0 {
        assert((a + d - 1) == (q + 1) * d + (r - 1)) by (nonlinear_arith)
            requires a == d * q + r;
        vstd::arithmetic::div_mod::lemma_fundamental_div_mod_converse(a + d - 1, d, q + 1, r - 1);
    } else {
        assert((a + d - 1) == q * d + (d - 1)) by (nonlinear_arith)
            requires a == d * q + r && r == 0;
        vstd::arithmetic::div_mod::lemma_fundamental_div_mod_converse(a + d - 1, d, q, d - 1);
    }
}

/// The four bytes of a value below 2^32, big-endian.
pub open spec fn be32_seq(n: int) -> Seq<u8> {
    seq![
        ((n / 0x1000000) % 256) as u8,
        ((n / 0x10000) % 256) as u8,
        ((n / 0x100) % 256) as u8,
        (n % 256) as u8,
    ]
}

/// Encode a part counter as the four sentinel bytes.
pub fn sentinel_bytes(n: u32) -> (r: Vec<u8>)
    ensures
        r@ == be32_seq(n as int),
{
    let mut v: Vec<u8> = Vec::new();
    v.push((n / 0x1000000) as u8);
    v.push(((n / 0x10000) % 256) as u8);
    v.push(((n / 0x100) % 256) as u8);
    v.push((n % 256) as u8);
    proof {
        assert(v@ =~= be32_seq(n as int));
    }
    v
}

/// Decode the four sentinel bytes back into the part counter.
pub fn sentinel_value(b: &[u8]) -> (n: u32)
    requires
        b@.len() == 4,
    ensures
        be32_seq(n as int) == b@,
        n as int == b@[0] * 0x1000000 + b@[1] * 0x10000 + b@[2] * 0x100 + b@[3],
{
    let n: u32 = (b[0] as u32) * 0x1000000 + (b[1] as u32) * 0x10000 + (b[2] as u32) * 0x100
        + (b[3] as u32);
    proof {
        let b0 = b@[0] as int;
        let b1 = b@[1] as int;
        let b2 = b@[2] as int;
        let b3 = b@[3] as int;
        let ni = n as int;
        vstd::arithmetic::div_mod::lemma_fundamental_div_mod_converse(
            ni, 0x1000000, b0, b1 * 0x10000 + b2 * 0x100 + b3);
        vstd::arithmetic::div_mod::lemma_fundamental_div_mod_converse(
            ni, 0x10000, b0 * 0x100 + b1, b2 * 0x100 + b3);
        vstd::arithmetic::div_mod::lemma_fundamental_div_mod_converse(
            ni, 0x100, b0 * 0x10000 + b1 * 0x100 + b2, b3);
        vstd::arithmetic::div_mod::lemma_fundamental_div_mod_converse(
            b0 * 0x100 + b1, 0x100, b0, b1);
        vstd::arithmetic::div_mod::lemma_fundamental_div_mod_converse(
            b0 * 0x10000 + b1 * 0x100 + b2, 0x100, b0 * 0x100 + b1, b2);
        vstd::arithmetic::div_mod::lemma_small_mod(b0 as nat, 256);
        assert(be32_seq(n as int) =~= b@);
    }
    n
}

/// Facts about one part's byte range within its blob.
pub proof fn lemma_part_bounds(file_size: u64, p: int)
    requires
        0 <= p < part_count_of(file_size),
    ensures
        part_start(p) < file_size,
        part_start(p) < part_end_excl(p, file_size) <= file_size,
        p + 1 == part_count_of(file_size) ==> part_end_excl(p, file_size) == file_size,
        p + 1 < part_count_of(file_size) ==> part_end_excl(p, file_size) == part_start(p)
            + PART_SIZE,
{
    let s = file_size as int;
    let ps = PART_SIZE as int;
    vstd::arithmetic::div_mod::lemma_fundamental_div_mod(s + ps - 1, ps);
    let parts = part_count_of(file_size);
    assert(p * ps <= (parts - 1) * ps && (p + 1) * ps <= parts * ps && (p + 2) * ps <= (parts
        + 1) * ps) by (nonlinear_arith)
        requires p <= parts - 1 && ps > 0;
}

/// What to do upon opening the local blob file, given its current length.
pub enum OpenAction {
    /// The file is exactly the payload size. Hash it first: a match means
    /// the blob is already complete; otherwise extend it and resume.
    CheckExisting,
    /// Extend the file to payload size plus sentinel, then read the sentinel.
    Extend { new_len: u64 },
    /// The file already has its in-progress length: read the sentinel.
    ReadSentinel,
}

/// Decide how to open the local blob file.
pub fn on_open(file_size: u64, current_len: u64) -> (a: OpenAction)
    requires
        file_size + 4 <= u64::MAX,
    ensures
        current_len == file_size ==> a == OpenAction::CheckExisting,
        current_len != file_size && current_len < file_size + 4 ==> a == (OpenAction::Extend {
            new_len: (file_size + 4) as u64,
        }),
        current_len >= file_size + 4 ==> a == OpenAction::ReadSentinel,
{
    if current_len == file_size {
        OpenAction::CheckExisting
    } else if current_len < file_size + 4 {
        OpenAction::Extend { new_len: file_size + 4 }
    } else {
        OpenAction::ReadSentinel
    }
}

/// The writes the surrounding process must perform, in order, once a
/// part's payload has arrived: the payload at its offset, then the new
/// sentinel at the end of the file.
pub struct PartWrites {
    /// Where the payload bytes go.
    pub payload_offset: u64,
    /// Where the sentinel goes (the payload size offset).
    pub sentinel_offset: u64,
    /// The four sentinel bytes: the new count of completed parts.
    pub sentinel: Vec<u8>,
    /// The bytes to credit to progress for this part.
    pub credit: u64,
}

/// The verified core of one blob download: which part comes next, what
/// range to request, and what to write where.
pub struct BlobDownload {
    /// The payload size of the blob.
    pub file_size: u64,
    /// The number of parts the blob has.
    pub parts: u64,
    /// The first part not yet completed.
    pub next_part: u64,
    /// The published digest the finished blob must hash to.
    pub expected_hash: String,
}

impl BlobDownload {
    /// The machine's invariant.
    pub open spec fn wf(self) -> bool {
        &&& self.parts == part_count_of(self.file_size)
        &&& self.next_part <= self.parts
        &&& self.file_size + 4 <= u64::MAX
        &&& self.parts <= u32::MAX
    }

    /// Start or resume a blob download from a sentinel value read off the
    /// file. Resumption is monotone: with `k` parts recorded as complete,
    /// downloading resumes at part `k` and exactly `k` part-sizes of bytes
    /// are credited up front (a sentinel beyond the part count, which only
    /// a foreign file could hold, is clamped).
    pub fn begin(file_size: u64, expected_hash: String, sentinel: u32) -> (r: (BlobDownload, u64))
        requires
            file_size + 4 <= u64::MAX,
            part_count_of(file_size) <= u32::MAX,
        ensures
            r.0.wf(),
            r.0.file_size == file_size,
            r.0.expected_hash == expected_hash,
            r.0.next_part == min(sentinel as int, part_count_of(file_size)),
            r.1 == r.0.next_part * PART_SIZE,
    {
        let parts = part_count(file_size);
        let resume: u64 = if (sentinel as u64) < parts {
            sentinel as u64
        } else {
            parts
        };
        proof {
            assert(resume * PART_SIZE <= 0xFFFFFFFF * 1000000) by (nonlinear_arith)
                requires resume <= 0xFFFFFFFF;
        }
        let credit = resume * PART_SIZE;
        (
            BlobDownload { file_size, parts, next_part: resume, expected_hash },
            credit,
        )
    }

    /// The inclusive byte range to request for the next part, or nothing
    /// when every part is done.
    pub fn next_range(&self) -> (r: Option<(u64, u64)>)
        requires
            self.wf(),
        ensures
            match r {
                Some(range) => self.next_part < self.parts && range.0 == part_start(
                    self.next_part as int,
                ) && range.1 + 1 == part_end_excl(self.next_part as int, self.file_size)
                    && range.0 <= range.1 < self.file_size,
                None => self.next_part == self.parts,
            },
    {
        if self.next_part < self.parts {
            proof {
                lemma_part_bounds(self.file_size, self.next_part as int);
                assert(self.next_part * PART_SIZE <= 0xFFFFFFFF * 1000000) by (nonlinear_arith)
                    requires self.next_part <= 0xFFFFFFFF;
            }
            let start = self.next_part * PART_SIZE;
            let end = if start + PART_SIZE - 1 <= self.file_size - 1 {
                start + PART_SIZE - 1
            } else {
                self.file_size - 1
            };
            Some((start, end))
        } else {
            None
        }
    }

    /// Record that the next part's payload has arrived in full, and say
    /// what to write: the payload at its own offset first, then the new
    /// sentinel. The credit equals the length of the range just fetched.
    pub fn on_part(&mut self) -> (w: PartWrites)
        requires
            old(self).wf(),
            old(self).next_part < old(self).parts,
        ensures
            final(self).wf(),
            final(self).next_part == old(self).next_part + 1,
            final(self).file_size == old(self).file_size,
            final(self).parts == old(self).parts,
            final(self).expected_hash == old(self).expected_hash,
            w.payload_offset == part_start(old(self).next_part as int),
            w.sentinel_offset == final(self).file_size,
            w.sentinel@ == be32_seq(final(self).next_part as int),
            w.credit == part_end_excl(old(self).next_part as int, final(self).file_size)
                - part_start(old(self).next_part as int),
    {
        proof {
            lemma_part_bounds(self.file_size, self.next_part as int);
            assert(self.next_part * PART_SIZE <= 0xFFFFFFFF * 1000000) by (nonlinear_arith)
                requires self.next_part <= 0xFFFFFFFF;
        }
        let start = self.next_part * PART_SIZE;
        let end_excl = if start + PART_SIZE <= self.file_size {
            start + PART_SIZE
        } else {
            self.file_size
        };
        self.next_part = self.next_part + 1;
        PartWrites {
            payload_offset: start,
            sentinel_offset: self.file_size,
            sentinel: sentinel_bytes(self.next_part as u32),
            credit: end_excl - start,
        }
    }

    /// Whether every part has been fetched and recorded.
    pub fn is_complete(&self) -> (r: bool)
        ensures
            r == (self.next_part == self.parts),
    {
        self.next_part == self.parts
    }

    /// Judge the finished blob by its digest: accepted exactly when it
    /// hashes to the published digest; otherwise the task must retry on
    /// another mirror.
    pub fn finish(&self, hash: &String) -> (r: Result<(), UpdateError>)
        ensures
            match r {
                Ok(()) => hash@ == self.expected_hash@,
                Err(e) => e == UpdateError::HashMismatch && hash@ != self.expected_hash@,
            },
    {
        if *hash == self.expected_hash {
            Ok(())
        } else {
            Err(UpdateError::HashMismatch)
        }
    }
}

/// Whether a download task can succeed by failover: some mirror within
/// the attempt cap would serve it a correct blob.
pub open spec fn task_succeeds(good: Seq<bool>, cap: int) -> bool {
    exists|i: int| 0 <= i < min(cap, good.len() as int) && good[i]
}

/// Deterministic failover: try ranked mirrors in order and stop at the
/// first that serves a correct blob, giving up after `cap` attempts.
/// Returns the rank that succeeded, or nothing when the task fails.
pub fn first_good_mirror(good: &Vec<bool>, cap: usize) -> (r: Option<usize>)
    ensures
        match r {
            Some(i) => i < good@.len() && i < cap && good@[i as int] && (forall|j: int|
                0 <= j < i ==> !good@[j]),
            None => !task_succeeds(good@, cap as int),
        },
{
    let mut i: usize = 0;
    while i < good.len() && i < cap
        invariant
            i <= good@.len(),
            forall|j: int| 0 <= j < i ==> !good@[j],
        decreases good@.len() - i,
    {
        if good[i] {
            return Some(i);
        }
        i = i + 1;
    }
    None
}

/// The failover verdict for a whole task: the rank that succeeded, or
/// the fatal error once every allowed attempt has failed.
pub fn select_attempt(good: &Vec<bool>, cap: usize) -> (r: Result<usize, crate::UpdateError>)
    ensures
        match r {
            Ok(i) => i < good@.len() && i < cap && good@[i as int] && (forall|j: int|
                0 <= j < i ==> !good@[j]),
            Err(e) => e == crate::UpdateError::DownloadFailed && !task_succeeds(
                good@,
                cap as int,
            ),
        },
{
    match first_good_mirror(good, cap) {
        Some(i) => Ok(i),
        None => Err(crate::UpdateError::DownloadFailed),
    }
}

/// The fallback law: a task whose first-choice mirror always serves a
/// corrupt blob succeeds exactly when one of the next four ranked
/// mirrors serves a correct one.
pub proof fn lemma_fallback(good: Seq<bool>)
    requires
        good.len() >= 1,
        !good[0],
    ensures
        task_succeeds(good, 5) <==> exists|i: int|
            1 <= i < min(5, good.len() as int) && good[i],
{
    if task_succeeds(good, 5) {
        let i = choose|i: int| 0 <= i < min(5, good.len() as int) && good[i];
        assert(i >= 1);
        assert(1 <= i < min(5, good.len() as int) && good[i]);
    }
    if exists|i: int| 1 <= i < min(5, good.len() as int) && good[i] {
        let i = choose|i: int| 1 <= i < min(5, good.len() as int) && good[i];
        assert(0 <= i < min(5, good.len() as int) && good[i]);
    }
}

/// A file of fixed length after `data` is written at offset `off`.
pub open spec fn write_at(file: Seq<u8>, off: int, data: Seq<u8>) -> Seq<u8> {
    Seq::new(
        file.len(),
        |i: int|
            if off <= i < off + data.len() {
                data[i - off]
            } else {
                file[i]
            },
    )
}

/// The payload region of one part within the finished blob.
pub open spec fn part_data(blob: Seq<u8>, p: int) -> Seq<u8> {
    blob.subrange(part_start(p), part_end_excl(p, blob.len() as u64))
}

/// An in-progress blob file after parts `0 .. k` have been fetched: each
/// part's payload is written at its offset and then the sentinel is set to
/// the number of completed parts, exactly as `on_part` commands.
pub open spec fn file_after_parts(file: Seq<u8>, blob: Seq<u8>, k: int) -> Seq<u8>
    decreases k,
{
    if k <= 0 {
        file
    } else {
        let prev = file_after_parts(file, blob, k - 1);
        write_at(
            write_at(prev, part_start(k - 1), part_data(blob, k - 1)),
            blob.len() as int,
            be32_seq(k),
        )
    }
}

/// Sentinel safety: however the blob file started out, once the protocol
/// has completed `k` parts (so the sentinel reads `k`), the first
/// `k * PART_SIZE` payload bytes — clamped to the blob size — are exactly
/// the corresponding prefix of the eventual full blob. The payload always
/// runs ahead of the sentinel, never behind it.
pub proof fn lemma_sentinel_safety(file: Seq<u8>, blob: Seq<u8>, k: int)
    requires
        blob.len() + 4 <= u64::MAX,
        file.len() == blob.len() + 4,
        0 <= k <= part_count_of(blob.len() as u64),
    ensures
        file_after_parts(file, blob, k).len() == file.len(),
        file_after_parts(file, blob, k).subrange(
            0,
            min(k * PART_SIZE as int, blob.len() as int),
        ) == blob.subrange(0, min(k * PART_SIZE as int, blob.len() as int)),
    decreases k,
{
    let s = blob.len() as int;
    let ps = PART_SIZE as int;
    if k == 0 {
        assert(file_after_parts(file, blob, 0).subrange(0, min(0, s)) =~= blob.subrange(
            0,
            min(0, s),
        ));
    } else {
        lemma_sentinel_safety(file, blob, k - 1);
        lemma_part_bounds(blob.len() as u64, k - 1);
        let prev = file_after_parts(file, blob, k - 1);
        let cur = file_after_parts(file, blob, k);
        let start = part_start(k - 1);
        let end_excl = part_end_excl(k - 1, blob.len() as u64);
        let prev_hi = min((k - 1) * ps, s);
        let hi = min(k * ps, s);
        assert(prev_hi == start);
        assert(hi == end_excl);
        assert forall|i: int| 0 <= i < hi implies cur[i] == blob[i] by {
            if i < start {
                assert(prev.subrange(0, prev_hi)[i] == blob.subrange(0, prev_hi)[i]);
            } else {
                assert(part_data(blob, k - 1)[i - start] == blob[i]);
            }
        }
        assert(cur.subrange(0, hi) =~= blob.subrange(0, hi));
    }
}

} // verus!
