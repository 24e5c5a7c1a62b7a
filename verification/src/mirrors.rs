//! The mirror registry: candidate download mirrors, their measured
//! throughput, and the ranked, admission-filtered view the downloaders use.
//!
//! Each mirror is probed with a fixed calibration fetch; a mirror is
//! enabled only when the probe returned the calibration object intact.
//! Ranking sorts by throughput and then disables every mirror slower than
//! one quarter of the fastest.
use vstd::prelude::*;

verus! {

use crate::UpdateError;
use crate::jsonval;
use vstd::seq_lib::group_to_multiset_ensures;

/// The size of the calibration object, in bytes.
pub const CALIBRATION_BYTES: u64 = 10000;

/// The largest throughput a probe can record: the whole calibration
/// object in one millisecond, in bytes per second.
pub const SPEED_CAP: u64 = 10000000;

/// One candidate mirror.
pub struct Mirror {
    /// Base URL, patch path included.
    pub address: String,
    /// Measured throughput in bytes per second; zero until probed.
    pub speed: u64,
    /// Measured latency in microseconds.
    pub ping: u64,
    /// How many downloads are using the mirror right now.
    pub in_use: u64,
    /// Whether the mirror may be picked for downloads.
    pub enabled: bool,
}

/// What one calibration probe observed.
pub enum ProbeOutcome {
    /// The request failed or timed out.
    Failed,
    /// A response arrived after the given time, with the given
    /// `Content-Length` (if the header was present and numeric).
    Responded { duration_ms: u64, duration_micros: u64, content_length: Option<u64> },
}

/// Whether a probe outcome admits the mirror: only an intact calibration
/// object of exactly the right size does.
pub open spec fn probe_ok(outcome: ProbeOutcome) -> bool {
    match outcome {
        ProbeOutcome::Failed => false,
        ProbeOutcome::Responded { content_length, .. } => content_length == Some(
            CALIBRATION_BYTES,
        ),
    }
}

/// The throughput a successful probe measures: the calibration object
/// divided by the measured duration (clamped below one millisecond).
pub open spec fn probe_speed(duration_ms: u64) -> int {
    SPEED_CAP as int / (if duration_ms < 1 {
        1int
    } else {
        duration_ms as int
    })
}

/// The mirror as it stands after a probe: throughput and latency from
/// the measurement when the calibration object came back intact, and a
/// disabled mirror with zero throughput otherwise.
pub open spec fn probed_spec(m: Mirror, outcome: ProbeOutcome) -> Mirror {
    match outcome {
        ProbeOutcome::Failed => Mirror { speed: 0, ping: 1000000, enabled: false, ..m },
        ProbeOutcome::Responded { duration_ms, duration_micros, content_length } => {
            if content_length == Some(CALIBRATION_BYTES) {
                Mirror {
                    speed: probe_speed(duration_ms) as u64,
                    ping: duration_micros,
                    enabled: true,
                    ..m
                }
            } else {
                Mirror { speed: 0, ping: 1000000, enabled: false, ..m }
            }
        },
    }
}

/// Apply a probe to a mirror. A mirror whose probe did not return the
/// calibration object intact is never enabled.
pub fn probed(m: Mirror, outcome: &ProbeOutcome) -> (r: Mirror)
    ensures
        r == probed_spec(m, *outcome),
        r.enabled == probe_ok(*outcome),
        r.speed <= SPEED_CAP,
{
    match outcome {
        ProbeOutcome::Failed => Mirror {
            speed: 0,
            ping: 1000000,
            enabled: false,
            ..m
        },
        ProbeOutcome::Responded { duration_ms, duration_micros, content_length } => {
            let ok = match content_length {
                Some(n) => *n == CALIBRATION_BYTES,
                None => false,
            };
            if ok {
                let d = if *duration_ms < 1 {
                    1u64
                } else {
                    *duration_ms
                };
                Mirror {
                    speed: SPEED_CAP / d,
                    ping: *duration_micros,
                    enabled: true,
                    ..m
                }
            } else {
                Mirror {
                    speed: 0,
                    ping: 1000000,
                    enabled: false,
                    ..m
                }
            }
        },
    }
}

/// Mirrors in order of falling throughput.
pub open spec fn sorted_by_speed(s: Seq<Mirror>) -> bool {
    forall|i: int, j: int| 0 <= i < j < s.len() ==> s[i].speed >= s[j].speed
}

/// Every throughput within what a probe can record.
pub open spec fn speeds_capped(s: Seq<Mirror>) -> bool {
    forall|i: int| 0 <= i < s.len() ==> (#[trigger] s[i].speed) <= SPEED_CAP
}

/// A mirror after the admission rule against the best throughput: one
/// slower than a quarter of it is switched off, any other is untouched.
pub open spec fn admitted(m: Mirror, best: u64) -> Mirror {
    if 4 * m.speed < best {
        Mirror { enabled: false, ..m }
    } else {
        m
    }
}

/// A registry after ranking: some rearrangement of the given mirrors,
/// sorted by throughput, each then put through the admission rule
/// against the fastest.
pub open spec fn ranked_from(pre: Seq<Mirror>, post: Seq<Mirror>) -> bool {
    exists|perm: Seq<Mirror>|
        #![trigger perm.to_multiset()]
        perm.to_multiset() == pre.to_multiset() && sorted_by_speed(perm) && post.len()
            == perm.len() && (forall|i: int|
            0 <= i < perm.len() ==> post[i] == admitted(#[trigger] perm[i], perm[0].speed))
}

/// The registry of candidate mirrors, plus what the release descriptor
/// published about the manifest.
pub struct Mirrors {
    /// The candidates, sorted by throughput once ranked.
    pub mirrors: Vec<Mirror>,
    /// The published SHA-256 of the instructions manifest.
    pub instructions_hash: Option<String>,
    /// The published target version, rendered in decimal.
    pub version_number: Option<String>,
}

impl Mirrors {
    /// The registry's invariant: recorded throughputs are probe-shaped.
    pub open spec fn wf(self) -> bool {
        speeds_capped(self.mirrors@)
    }

    /// An empty registry.
    pub fn new() -> (r: Mirrors)
        ensures
            r.mirrors@.len() == 0,
            r.instructions_hash is None,
            r.version_number is None,
            r.wf(),
    {
        Mirrors { mirrors: Vec::new(), instructions_hash: None, version_number: None }
    }

    /// Whether no mirror is known at all.
    pub fn is_empty(&self) -> (r: bool)
        ensures
            r == (self.mirrors@.len() == 0),
    {
        self.mirrors.len() == 0
    }

    /// Drop a mirror outright (used when it served corrupt data).
    pub fn remove(&mut self, entry: usize)
        requires
            entry < old(self).mirrors@.len(),
            old(self).wf(),
        ensures
            final(self).mirrors@ == old(self).mirrors@.remove(entry as int),
            final(self).instructions_hash == old(self).instructions_hash,
            final(self).version_number == old(self).version_number,
            final(self).wf(),
    {
        self.mirrors.remove(entry);
    }

    /// Switch a mirror off without forgetting it.
    pub fn disable(&mut self, entry: usize)
        requires
            entry < old(self).mirrors@.len(),
            old(self).wf(),
        ensures
            final(self).mirrors@ == old(self).mirrors@.update(
                entry as int,
                Mirror { enabled: false, ..old(self).mirrors@[entry as int] },
            ),
            final(self).instructions_hash == old(self).instructions_hash,
            final(self).version_number == old(self).version_number,
            final(self).wf(),
    {
        let m = self.mirrors.remove(entry);
        let m = Mirror { enabled: false, ..m };
        self.mirrors.insert(entry, m);
        proof {
            assert(final(self).mirrors@ =~= old(self).mirrors@.update(
                entry as int,
                Mirror { enabled: false, ..old(self).mirrors@[entry as int] },
            ));
        }
    }

    /// Record what one mirror's probe observed.
    pub fn record_probe(&mut self, entry: usize, outcome: &ProbeOutcome)
        requires
            entry < old(self).mirrors@.len(),
            old(self).wf(),
        ensures
            final(self).mirrors@ == old(self).mirrors@.update(
                entry as int,
                probed_spec(old(self).mirrors@[entry as int], *outcome),
            ),
            final(self).instructions_hash == old(self).instructions_hash,
            final(self).version_number == old(self).version_number,
            final(self).wf(),
    {
        let m = self.mirrors.remove(entry);
        let m = probed(m, outcome);
        self.mirrors.insert(entry, m);
        proof {
            assert(final(self).mirrors@ =~= old(self).mirrors@.update(
                entry as int,
                probed_spec(old(self).mirrors@[entry as int], *outcome),
            ));
        }
    }

    /// The probe timeout in milliseconds, derived from the current best
    /// throughput estimate: four times the calibration object at that
    /// speed, clamped to at most ten seconds and at least one millisecond.
    pub fn probe_timeout_ms(&self) -> (r: u64)
        ensures
            1 <= r <= 10000,
            ({
                let best: u64 = if self.mirrors@.len() > 0 {
                    self.mirrors@[0].speed
                } else {
                    0
                };
                if best == 0 {
                    r == 10000
                } else {
                    r == vstd::math::min(
                        vstd::math::max(4 * CALIBRATION_BYTES as int * 1000 / best as int, 1),
                        10000,
                    )
                }
            }),
    {
        let best: u64 = if self.mirrors.len() > 0 {
            self.mirrors[0].speed
        } else {
            0
        };
        if best == 0 {
            return 10000;
        }
        let t = (4 * CALIBRATION_BYTES * 1000) / best;
        if t < 1 {
            1
        } else if t > 10000 {
            10000
        } else {
            t
        }
    }

    /// Rank the registry: sort by throughput, fastest first, then apply
    /// the admission rule. Afterwards the registry is exactly the old
    /// mirrors rearranged into falling throughput with the quarter rule
    /// applied to each; no enabled mirror is slower than one quarter of
    /// the fastest, every mirror still enabled is one of the mirrors as
    /// they stood before, and no mirror is newly enabled.
    pub fn rank(&mut self)
        requires
            old(self).wf(),
        ensures
            final(self).wf(),
            final(self).mirrors@.len() == old(self).mirrors@.len(),
            sorted_by_speed(final(self).mirrors@),
            ranked_from(old(self).mirrors@, final(self).mirrors@),
            final(self).instructions_hash == old(self).instructions_hash,
            final(self).version_number == old(self).version_number,
            forall|i: int| 0 <= i < final(self).mirrors@.len()
                && (#[trigger] final(self).mirrors@[i]).enabled
                ==> old(self).mirrors@.to_multiset().contains(final(self).mirrors@[i]),
            forall|i: int| 0 <= i < final(self).mirrors@.len()
                && (#[trigger] final(self).mirrors@[i]).enabled
                ==> 4 * final(self).mirrors@[i].speed >= final(self).mirrors@[0].speed,
    {
        let ghost orig = self.mirrors@;
        let mut v: Vec<Mirror> = Vec::new();
        core::mem::swap(&mut v, &mut self.mirrors);
        let sorted = sort_by_speed(v);
        let ghost sorted_view = sorted@;
        let best: u64 = if sorted.len() > 0 {
            sorted[0].speed
        } else {
            0
        };
        let filtered = apply_admission(sorted, best);
        proof {
            broadcast use group_to_multiset_ensures;
            assert forall|i: int| 0 <= i < filtered@.len()
                && (#[trigger] filtered@[i]).enabled implies orig.to_multiset().contains(
                filtered@[i],
            ) by {
                assert(filtered@[i] == sorted_view[i]);
                assert(sorted_view.contains(sorted_view[i]));
            }
            assert forall|i: int| 0 <= i < filtered@.len()
                && (#[trigger] filtered@[i]).enabled implies 4 * filtered@[i].speed
                >= filtered@[0].speed by {
                assert(filtered@[0].speed <= sorted_view[0].speed);
            }
            assert forall|i: int| 0 <= i < sorted_view.len() implies filtered@[i] == admitted(
                #[trigger] sorted_view[i],
                sorted_view[0].speed,
            ) by {
                assert(best == sorted_view[0].speed);
            }
            assert(sorted_view.to_multiset() == orig.to_multiset());
            assert(ranked_from(orig, filtered@));
        }
        self.mirrors = filtered;
    }
}

/// After every probe is applied, the registry holds each mirror's
/// probed image, in place.
pub open spec fn all_probed(pre: Seq<Mirror>, outcomes: Seq<ProbeOutcome>) -> Seq<Mirror> {
    Seq::new(pre.len(), |i: int| probed_spec(pre[i], outcomes[i]))
}

/// How an ingested release descriptor changes the registry: one new
/// disabled placeholder mirror per listed URL, its address the URL with
/// the patch path appended; the published manifest digest recorded; the
/// published version rendered in decimal.
pub open spec fn release_installed(
    pre: Mirrors,
    post: Mirrors,
    urls: Seq<Seq<char>>,
    patch_path: Seq<char>,
    instructions_hash: Seq<char>,
    version: u64,
) -> bool {
    &&& post.mirrors@.len() == pre.mirrors@.len() + urls.len()
    &&& (forall|i: int| 0 <= i < pre.mirrors@.len() ==> post.mirrors@[i] == pre.mirrors@[i])
    &&& (forall|i: int| 0 <= i < urls.len() ==> {
        let m = post.mirrors@[pre.mirrors@.len() + i];
        m.address@ == (#[trigger] urls[i]) + patch_path && !m.enabled && m.speed == 0
            && m.ping == 500000 && m.in_use == 0
    })
    &&& post.instructions_hash is Some && post.instructions_hash->0@ == instructions_hash
    &&& post.version_number is Some && post.version_number->0@ == crate::strutil::dec_str_of(
        version as nat,
    )
}

impl Mirrors {
    /// Install an already-extracted release descriptor: exactly the
    /// `release_installed` transition over the given fields.
    pub fn install_release(
        &mut self,
        urls: Vec<String>,
        patch_path: &String,
        instructions_hash: String,
        version: u64,
    )
        requires
            old(self).wf(),
        ensures
            final(self).wf(),
            release_installed(
                *old(self),
                *final(self),
                urls@.map_values(|u: String| u@),
                patch_path@,
                instructions_hash@,
                version,
            ),
    {
        let ghost pre = self.mirrors@;
        let ghost url_views = urls@.map_values(|u: String| u@);
        let mut rest = urls;
        let total = rest.len();
        let mut k: usize = 0;
        while rest.len() > 0
            invariant
                old(self).wf(),
                pre == old(self).mirrors@,
                k + rest@.len() == total,
                url_views.len() == total as int,
                forall|j: int| 0 <= j < rest@.len() ==> (#[trigger] rest@[j])@ == url_views[k
                    + j],
                self.wf(),
                self.mirrors@.len() == pre.len() + k,
                forall|j: int| 0 <= j < pre.len() ==> self.mirrors@[j] == pre[j],
                forall|j: int| 0 <= j < k ==> {
                    let m = #[trigger] self.mirrors@[pre.len() + j];
                    m.address@ == url_views[j] + patch_path@ && !m.enabled && m.speed == 0
                        && m.ping == 500000 && m.in_use == 0
                },
                self.instructions_hash == old(self).instructions_hash,
                self.version_number == old(self).version_number,
            decreases rest@.len(),
    {
            let url = rest.remove(0);
            let address = url.concat(patch_path.as_str());
            self.mirrors.push(
                Mirror { address, speed: 0, ping: 500000, in_use: 0, enabled: false },
            );
            k = k + 1;
        }
        self.instructions_hash = Some(instructions_hash);
        self.version_number = Some(crate::strutil::u64_to_dec(version));
    }

    /// Ingest the release descriptor: record the published manifest
    /// digest and target version, and add one disabled placeholder
    /// mirror per listed entry, its address the mirror URL with the
    /// patch path appended. Text that is not the expected JSON shape is
    /// rejected, and the registry is then unchanged. The parsed content
    /// itself is the outside parser's result, so success is promised
    /// for no text; what an acceptance did is pinned exactly by
    /// `release_installed` over the extracted fields.
    pub fn get_mirrors(&mut self, release_text: &str) -> (r: Result<(), UpdateError>)
        requires
            old(self).wf(),
        ensures
            final(self).wf(),
            match r {
                Ok(()) => {
                    &&& final(self).instructions_hash is Some
                    &&& final(self).version_number is Some
                    &&& final(self).mirrors@.len() >= old(self).mirrors@.len()
                    &&& forall|i: int| 0 <= i < old(self).mirrors@.len()
                        ==> final(self).mirrors@[i] == old(self).mirrors@[i]
                    &&& forall|i: int| old(self).mirrors@.len() <= i < final(self).mirrors@.len() ==> !(#[trigger] final(self).mirrors@[i]).enabled
                        && final(self).mirrors@[i].speed == 0 && final(self).mirrors@[i].ping
                        == 500000 && final(self).mirrors@[i].in_use == 0
                    &&& exists|urls: Seq<Seq<char>>, pp: Seq<char>, ih: Seq<char>, vn: u64|
                        #[trigger] release_installed(*old(self), *final(self), urls, pp, ih, vn)
                },
                Err(e) => e == UpdateError::BadDescriptor && *final(self) == *old(self),
            },
    {
        let data = match jsonval::parse(release_text) {
            Ok(d) => d,
            Err(_) => {
                return Err(UpdateError::BadDescriptor);
            },
        };
        let game = jsonval::get(&data, "game");
        let patch_path = match jsonval::as_string(jsonval::get(game, "patch_path")) {
            Some(p) => p,
            None => {
                return Err(UpdateError::BadDescriptor);
            },
        };
        let instructions_hash = match jsonval::as_string(
            jsonval::get(game, "instructions_hash"),
        ) {
            Some(h) => h,
            None => {
                return Err(UpdateError::BadDescriptor);
            },
        };
        let version = match jsonval::as_u64(jsonval::get(game, "version_number")) {
            Some(v) => v,
            None => {
                return Err(UpdateError::BadDescriptor);
            },
        };
        let mirrors_node = jsonval::get(game, "mirrors");
        let count = jsonval::length(mirrors_node);
        let mut urls: Vec<String> = Vec::new();
        let mut i: usize = 0;
        while i < count
            invariant
                *self == *old(self),
                old(self).wf(),
            decreases count - i,
        {
            let url = match jsonval::as_string(
                jsonval::get(jsonval::at(mirrors_node, i), "url"),
            ) {
                Some(u) => u,
                None => {
                    return Err(UpdateError::BadDescriptor);
                },
            };
            urls.push(url);
            i = i + 1;
        }
        let ghost url_views = urls@.map_values(|u: String| u@);
        let ghost ih = instructions_hash@;
        let ghost pp = patch_path@;
        self.install_release(urls, &patch_path, instructions_hash, version);
        proof {
            assert(release_installed(*old(self), *self, url_views, pp, ih, version));
            let base = old(self).mirrors@.len() as int;
            assert forall|i: int| base <= i < self.mirrors@.len() implies !(
            #[trigger] self.mirrors@[i]).enabled && self.mirrors@[i].speed == 0
                && self.mirrors@[i].ping == 500000 && self.mirrors@[i].in_use == 0 by {
                let j = i - base;
                assert(self.mirrors@[base + j].address@ == url_views[j] + pp);
            }
        }
        Ok(())
    }

    /// Apply every probe's outcome, then rank. Afterwards the registry
    /// is exactly the probed images of the old mirrors, rearranged into
    /// falling throughput with the quarter rule applied to each; every
    /// enabled mirror is the probed image of one of the mirrors as they
    /// stood, its probe having returned the calibration object intact;
    /// no enabled mirror is slower than a quarter of the fastest; and a
    /// mirror whose probe came back intact and fast enough to clear the
    /// quarter rule stands in the registry enabled, untouched. Fails —
    /// fatally for the load — exactly when no mirror is left enabled.
    pub fn test_mirrors(&mut self, outcomes: &Vec<ProbeOutcome>) -> (r: Result<
        (),
        UpdateError,
    >)
        requires
            old(self).wf(),
            outcomes@.len() == old(self).mirrors@.len(),
        ensures
            final(self).wf(),
            match r {
                Ok(()) => exists|i: int| 0 <= i < final(self).mirrors@.len() && (
                #[trigger] final(self).mirrors@[i]).enabled,
                Err(e) => e == UpdateError::NoMirrors && forall|i: int|
                    0 <= i < final(self).mirrors@.len() ==> !(
                    #[trigger] final(self).mirrors@[i]).enabled,
            },
            final(self).mirrors@.len() == old(self).mirrors@.len(),
            sorted_by_speed(final(self).mirrors@),
            final(self).instructions_hash == old(self).instructions_hash,
            final(self).version_number == old(self).version_number,
            forall|i: int| 0 <= i < final(self).mirrors@.len()
                && (#[trigger] final(self).mirrors@[i]).enabled ==> exists|j: int|
                0 <= j < outcomes@.len() && final(self).mirrors@[i] == probed_spec(
                    old(self).mirrors@[j],
                    outcomes@[j],
                ) && probe_ok(outcomes@[j]),
            forall|i: int| 0 <= i < final(self).mirrors@.len()
                && (#[trigger] final(self).mirrors@[i]).enabled ==> 4 * final(self).mirrors@[i].speed >= final(self).mirrors@[0].speed,
            ranked_from(all_probed(old(self).mirrors@, outcomes@), final(self).mirrors@),
            forall|j: int|
                0 <= j < outcomes@.len() && probe_ok(#[trigger] outcomes@[j]) && 4 * probed_spec(
                    old(self).mirrors@[j],
                    outcomes@[j],
                ).speed >= final(self).mirrors@[0].speed ==> exists|i: int|
                    0 <= i < final(self).mirrors@.len() && final(self).mirrors@[i]
                        == probed_spec(old(self).mirrors@[j], outcomes@[j]),
    {
        let ghost pre = self.mirrors@;
        let n = self.mirrors.len();
        let mut i: usize = 0;
        while i < n
            invariant
                i <= n,
                n == self.mirrors@.len(),
                n == pre.len(),
                n == outcomes@.len(),
                old(self).wf(),
                pre == old(self).mirrors@,
                self.wf(),
                self.instructions_hash == old(self).instructions_hash,
                self.version_number == old(self).version_number,
                forall|j: int| 0 <= j < i ==> self.mirrors@[j] == probed_spec(
                    pre[j],
                    outcomes@[j],
                ),
                forall|j: int| i <= j < n ==> self.mirrors@[j] == pre[j],
            decreases n - i,
        {
            self.record_probe(i, &outcomes[i]);
            i = i + 1;
        }
        proof {
            assert(self.mirrors@ =~= all_probed(pre, outcomes@));
        }
        let ghost probed_seq = self.mirrors@;
        self.rank();
        proof {
            broadcast use vstd::seq_lib::group_to_multiset_ensures;
            broadcast use vstd::multiset::group_multiset_axioms;

            assert forall|i: int| 0 <= i < final(self).mirrors@.len()
                && (#[trigger] final(self).mirrors@[i]).enabled implies exists|j: int|
                0 <= j < outcomes@.len() && final(self).mirrors@[i] == probed_spec(
                    pre[j],
                    outcomes@[j],
                ) && probe_ok(outcomes@[j]) by {
                let m = final(self).mirrors@[i];
                assert(probed_seq.to_multiset().contains(m));
                assert(probed_seq.contains(m));
                let j = choose|j: int| 0 <= j < probed_seq.len() && probed_seq[j] == m;
                assert(m == probed_spec(pre[j], outcomes@[j]));
            }
            assert(ranked_from(probed_seq, final(self).mirrors@));
            let perm = choose|perm: Seq<Mirror>|
                #![trigger perm.to_multiset()]
                perm.to_multiset() == probed_seq.to_multiset() && sorted_by_speed(perm)
                    && final(self).mirrors@.len() == perm.len() && (forall|i: int|
                    0 <= i < perm.len() ==> final(self).mirrors@[i] == admitted(
                        #[trigger] perm[i],
                        perm[0].speed,
                    ));
            assert forall|j: int|
                0 <= j < outcomes@.len() && probe_ok(#[trigger] outcomes@[j]) && 4 * probed_spec(
                    pre[j],
                    outcomes@[j],
                ).speed >= final(self).mirrors@[0].speed implies exists|i: int|
                0 <= i < final(self).mirrors@.len() && final(self).mirrors@[i] == probed_spec(
                    pre[j],
                    outcomes@[j],
                ) by {
                let image = probed_spec(pre[j], outcomes@[j]);
                assert(probed_seq[j] == image);
                assert(probed_seq.contains(image));
                assert(perm.to_multiset().contains(image));
                assert(perm.contains(image));
                let i = choose|i: int| 0 <= i < perm.len() && perm[i] == image;
                assert(final(self).mirrors@[i] == admitted(perm[i], perm[0].speed));
                assert(final(self).mirrors@[0] == admitted(perm[0], perm[0].speed));
                assert(final(self).mirrors@[0].speed == perm[0].speed);
                assert(final(self).mirrors@[i] == image);
            }
        }
        let mut any_enabled = false;
        let mut j: usize = 0;
        while j < self.mirrors.len()
            invariant
                j <= self.mirrors@.len(),
                any_enabled == exists|t: int| 0 <= t < j && (#[trigger] self.mirrors@[t]).enabled,
            decreases self.mirrors@.len() - j,
        {
            if self.mirrors[j].enabled {
                any_enabled = true;
            }
            j = j + 1;
        }
        if any_enabled {
            Ok(())
        } else {
            Err(UpdateError::NoMirrors)
        }
    }

    /// A copy of an enabled mirror that the fewest downloads are using
    /// (among use counts up to four), or a failure when every mirror is
    /// disabled or that busy.
    pub fn get_mirror(&self) -> (r: Result<Mirror, UpdateError>)
        ensures
            match r {
                Ok(m) => m.enabled && m.in_use < 5 && (exists|i: int|
                    0 <= i < self.mirrors@.len() && self.mirrors@[i] == m) && (forall|j: int|
                    0 <= j < self.mirrors@.len() && (#[trigger] self.mirrors@[j]).enabled
                        ==> self.mirrors@[j].in_use >= m.in_use),
                Err(e) => e == UpdateError::NoMirrors && (forall|j: int|
                    0 <= j < self.mirrors@.len() && (#[trigger] self.mirrors@[j]).enabled
                        ==> self.mirrors@[j].in_use >= 5),
            },
    {
        let mut level: u64 = 0;
        while level < 5
            invariant
                level <= 5,
                forall|j: int| 0 <= j < self.mirrors@.len()
                    && (#[trigger] self.mirrors@[j]).enabled ==> self.mirrors@[j].in_use
                    >= level,
            decreases 5 - level,
        {
            let mut i: usize = 0;
            while i < self.mirrors.len()
                invariant
                    i <= self.mirrors@.len(),
                    level < 5,
                    forall|j: int| 0 <= j < i && (#[trigger] self.mirrors@[j]).enabled
                        ==> self.mirrors@[j].in_use != level,
                    forall|j: int| 0 <= j < self.mirrors@.len()
                        && (#[trigger] self.mirrors@[j]).enabled ==> self.mirrors@[j].in_use
                        >= level,
                decreases self.mirrors@.len() - i,
            {
                if self.mirrors[i].enabled && self.mirrors[i].in_use == level {
                    let d = duplicate_mirror(&self.mirrors[i]);
                    proof {
                        assert(self.mirrors@[i as int] == d);
                    }
                    return Ok(d);
                }
                i = i + 1;
            }
            level = level + 1;
        }
        Err(UpdateError::NoMirrors)
    }

    /// The mirror at a rank, for deterministic failover by attempt
    /// index: the fastest first, each retry one rank down.
    pub fn at_rank(&self, rank: usize) -> (r: Result<&Mirror, UpdateError>)
        ensures
            match r {
                Ok(m) => rank < self.mirrors@.len() && *m == self.mirrors@[rank as int],
                Err(e) => e == UpdateError::NoMirrors && rank >= self.mirrors@.len(),
            },
    {
        if rank < self.mirrors.len() {
            Ok(&self.mirrors[rank])
        } else {
            Err(UpdateError::NoMirrors)
        }
    }
}

/// A field-for-field copy of a mirror.
fn duplicate_mirror(m: &Mirror) -> (r: Mirror)
    ensures
        r == *m,
{
    Mirror {
        address: m.address.clone(),
        speed: m.speed,
        ping: m.ping,
        in_use: m.in_use,
        enabled: m.enabled,
    }
}

/// Sort mirrors by throughput, fastest first. The result holds exactly
/// the mirrors given, rearranged.
fn sort_by_speed(v: Vec<Mirror>) -> (r: Vec<Mirror>)
    requires
        speeds_capped(v@),
    ensures
        r@.len() == v@.len(),
        sorted_by_speed(r@),
        r@.to_multiset() == v@.to_multiset(),
        speeds_capped(r@),
{
    broadcast use group_to_multiset_ensures;
    broadcast use vstd::multiset::group_multiset_axioms;

    let ghost orig = v@;
    let mut inp = v;
    let mut out: Vec<Mirror> = Vec::new();
    proof {
        assert(out@.to_multiset().add(inp@.to_multiset()) =~= orig.to_multiset());
    }
    while inp.len() > 0
        invariant
            out@.to_multiset().add(inp@.to_multiset()) =~= orig.to_multiset(),
            out@.len() + inp@.len() == orig.len(),
            sorted_by_speed(out@),
            speeds_capped(out@),
            speeds_capped(inp@),
            forall|i: int, j: int| 0 <= i < out@.len() && 0 <= j < inp@.len()
                ==> (#[trigger] out@[i]).speed >= (#[trigger] inp@[j]).speed,
        decreases inp@.len(),
    {
        let mut mi: usize = 0;
        let mut k: usize = 1;
        while k < inp.len()
            invariant
                mi < k <= inp@.len(),
                inp@.len() > 0,
                forall|t: int| 0 <= t < k ==> inp@[mi as int].speed >= (#[trigger] inp@[t]).speed,
            decreases inp@.len() - k,
        {
            if inp[k].speed > inp[mi].speed {
                mi = k;
            }
            k = k + 1;
        }
        let ghost pre = inp@;
        let ghost out_pre = out@;
        let m = inp.remove(mi);
        out.push(m);
        proof {
            broadcast use group_to_multiset_ensures;
            broadcast use vstd::multiset::group_multiset_axioms;

            assert(pre[mi as int] == m);
            assert(pre.contains(m));
            assert(pre.to_multiset().count(m) > 0);
            assert(inp@ == pre.remove(mi as int));
            assert(pre.remove(mi as int).to_multiset() == pre.to_multiset().remove(m));
            assert(out@ == out_pre.push(m));
            assert(out_pre.push(m).to_multiset() == out_pre.to_multiset().insert(m));
            assert(out@.to_multiset().add(inp@.to_multiset()) =~= out_pre.to_multiset().add(
                pre.to_multiset(),
            ));
            assert forall|j: int| 0 <= j < inp@.len() implies m.speed
                >= (#[trigger] inp@[j]).speed by {
                if j < mi {
                    assert(inp@[j] == pre[j]);
                } else {
                    assert(inp@[j] == pre[j + 1]);
                }
            }
        }
    }
    out
}

/// Disable every mirror slower than a quarter of the given best
/// throughput; everything else about every mirror stays as it was.
fn apply_admission(v: Vec<Mirror>, best: u64) -> (r: Vec<Mirror>)
    requires
        speeds_capped(v@),
    ensures
        r@.len() == v@.len(),
        forall|i: int| 0 <= i < v@.len() ==> (#[trigger] r@[i]) == (if 4 * v@[i].speed
            < best {
            Mirror { enabled: false, ..v@[i] }
        } else {
            v@[i]
        }),
        forall|i: int| 0 <= i < v@.len() ==> (#[trigger] r@[i]).enabled ==> r@[i] == v@[i]
            && 4 * r@[i].speed >= best,
        forall|i: int| 0 <= i < v@.len() ==> (#[trigger] r@[i]).speed == v@[i].speed,
        speeds_capped(r@),
{
    let ghost orig = v@;
    let mut inp = v;
    let mut out: Vec<Mirror> = Vec::new();
    while inp.len() > 0
        invariant
            speeds_capped(inp@),
            out@.len() + inp@.len() == orig.len(),
            forall|j: int| 0 <= j < inp@.len() ==> (#[trigger] inp@[j]) == orig[out@.len()
                + j],
            forall|i: int| 0 <= i < out@.len() ==> (#[trigger] out@[i]) == (if 4
                * orig[i].speed < best {
                Mirror { enabled: false, ..orig[i] }
            } else {
                orig[i]
            }),
        decreases inp@.len(),
    {
        let m = inp.remove(0);
        if 4 * m.speed < best {
            out.push(Mirror { enabled: false, ..m });
        } else {
            out.push(m);
        }
    }
    out
}

} // verus!
