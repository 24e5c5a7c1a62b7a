//! The mirror registry: probing, admission, ranking and picking.
use patcher::mirrors::{Mirror, Mirrors, ProbeOutcome, CALIBRATION_BYTES, SPEED_CAP};

fn mirror(address: &str) -> Mirror {
    Mirror { address: address.to_string(), speed: 0, ping: 500000, in_use: 0, enabled: false }
}

fn registry(n: usize) -> Mirrors {
    let mut m = Mirrors::new();
    for i in 0..n {
        m.mirrors.push(mirror(&format!("http://m{}.example/patch", i)));
    }
    m
}

fn responded(duration_ms: u64, content_length: Option<u64>) -> ProbeOutcome {
    ProbeOutcome::Responded {
        duration_ms,
        duration_micros: duration_ms * 1000,
        content_length,
    }
}

#[test]
fn probe_enables_only_intact_calibration() {
    let mut m = registry(4);
    m.record_probe(0, &responded(10, Some(CALIBRATION_BYTES)));
    m.record_probe(1, &responded(10, Some(9999)));
    m.record_probe(2, &responded(10, None));
    m.record_probe(3, &ProbeOutcome::Failed);
    assert!(m.mirrors[0].enabled);
    assert_eq!(m.mirrors[0].speed, SPEED_CAP / 10);
    assert_eq!(m.mirrors[0].ping, 10000);
    assert!(!m.mirrors[1].enabled);
    assert!(!m.mirrors[2].enabled);
    assert!(!m.mirrors[3].enabled);
    assert_eq!(m.mirrors[3].speed, 0);
}

#[test]
fn ranking_sorts_and_admits_within_a_quarter() {
    let mut m = registry(4);
    // Durations 2 ms, 100 ms, 1 ms, 4 ms: the 100 ms mirror is under a
    // quarter of the fastest and must be disabled; the 4 ms mirror sits
    // exactly on the quarter boundary and stays.
    let outcomes = vec![
        responded(2, Some(CALIBRATION_BYTES)),
        responded(100, Some(CALIBRATION_BYTES)),
        responded(1, Some(CALIBRATION_BYTES)),
        responded(4, Some(CALIBRATION_BYTES)),
    ];
    m.test_mirrors(&outcomes).unwrap();
    let speeds: Vec<u64> = m.mirrors.iter().map(|x| x.speed).collect();
    let mut sorted = speeds.clone();
    sorted.sort_by(|a, b| b.cmp(a));
    assert_eq!(speeds, sorted);
    assert_eq!(m.mirrors[0].speed, SPEED_CAP);
    let best = m.mirrors[0].speed;
    for x in m.mirrors.iter() {
        if x.enabled {
            assert!(4 * x.speed >= best);
        }
    }
    // The slow mirror survives in the list but stands disabled.
    let slow = m.mirrors.iter().find(|x| x.speed == SPEED_CAP / 100).unwrap();
    assert!(!slow.enabled);
    // The quarter-speed boundary itself is admitted (10^7/4 * 4 == 10^7).
    let quarter = m.mirrors.iter().find(|x| x.speed == SPEED_CAP / 4).unwrap();
    assert!(quarter.enabled);
}

#[test]
fn wrong_size_probe_never_enabled_after_ranking() {
    let mut m = registry(2);
    let outcomes = vec![
        responded(1, Some(CALIBRATION_BYTES)),
        responded(1, Some(424242)),
    ];
    m.test_mirrors(&outcomes).unwrap();
    for x in m.mirrors.iter() {
        if x.enabled {
            assert_eq!(x.speed, SPEED_CAP);
        }
    }
    assert_eq!(m.mirrors.iter().filter(|x| x.enabled).count(), 1);
}

#[test]
fn get_mirror_prefers_least_used() {
    let mut m = registry(3);
    let outcomes = vec![
        responded(1, Some(CALIBRATION_BYTES)),
        responded(2, Some(CALIBRATION_BYTES)),
        responded(2, Some(CALIBRATION_BYTES)),
    ];
    m.test_mirrors(&outcomes).unwrap();
    m.mirrors[0].in_use = 2;
    m.mirrors[1].in_use = 1;
    m.mirrors[2].in_use = 3;
    let picked = m.get_mirror().unwrap();
    assert_eq!(picked.in_use, 1);
    assert!(picked.enabled);
}

#[test]
fn probing_fails_when_no_mirror_survives() {
    let mut m = registry(2);
    let outcomes = vec![ProbeOutcome::Failed, responded(1, Some(9999))];
    assert!(m.test_mirrors(&outcomes).is_err());
    assert!(m.mirrors.iter().all(|x| !x.enabled));
}

#[test]
fn get_mirror_fails_when_none_enabled() {
    let mut m = registry(2);
    m.record_probe(0, &ProbeOutcome::Failed);
    m.record_probe(1, &ProbeOutcome::Failed);
    assert!(m.get_mirror().is_err());
}

#[test]
fn remove_and_disable() {
    let mut m = registry(3);
    m.disable(1);
    assert!(!m.mirrors[1].enabled);
    let addr2 = m.mirrors[2].address.clone();
    m.remove(0);
    assert_eq!(m.mirrors.len(), 2);
    assert_eq!(m.mirrors[1].address, addr2);
    assert!(!m.is_empty());
    m.remove(0);
    m.remove(0);
    assert!(m.is_empty());
}

#[test]
fn probe_timeout_derived_from_best() {
    let m = registry(1);
    // Unprobed: the timeout is the full ten seconds.
    assert_eq!(m.probe_timeout_ms(), 10000);
    let mut m = registry(1);
    m.record_probe(0, &responded(10, Some(CALIBRATION_BYTES)));
    // Best estimate one megabyte per second: four calibration objects
    // at that speed take forty milliseconds.
    assert_eq!(m.probe_timeout_ms(), 40);
}
