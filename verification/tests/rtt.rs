//! The round-trip estimator.

use syncmesh::rtt::RttEstimator;

#[test]
fn default_has_no_estimate() {
    let e = RttEstimator::new();
    assert!(!e.has_sample());
    assert_eq!(e.estimate_ms(), None);
    assert_eq!(e.one_way_ms(), 0);
}

#[test]
fn first_sample_is_taken_verbatim() {
    let mut e = RttEstimator::new();
    e.sample(40);
    assert_eq!(e.estimate_ms(), Some(40));
    assert_eq!(e.one_way_ms(), 20);
}

#[test]
fn subsequent_samples_blend_with_alpha() {
    let mut e = RttEstimator::new();
    e.sample(100);
    e.sample(200);
    // 0.85 * 100 + 0.15 * 200 = 115
    assert_eq!(e.estimate_ms(), Some(115));
}

#[test]
fn steady_state_converges_toward_sample() {
    let mut e = RttEstimator::new();
    e.sample(0);
    for _ in 0..200 {
        e.sample(50);
    }
    // After enough samples at 50ms starting from 0ms, the EWMA should be
    // extremely close to 50.
    let est = e.estimate_ms().unwrap();
    assert!((i64::from(est) - 50).abs() <= 1, "converged to {est}");
}

#[test]
fn is_resilient_to_spike() {
    let mut e = RttEstimator::new();
    for _ in 0..50 {
        e.sample(30);
    }
    let before = e.estimate_ms().unwrap();
    e.sample(10_000); // One huge spike.
    let after = e.estimate_ms().unwrap();
    // With α=0.15 the new estimate should be roughly 0.85 * before + 0.15 * 10_000,
    // which is ~1525ms — big shift but far from being pinned to the spike.
    assert!(after > before);
    assert!(after < 2_000, "single spike moved estimate to {after}");
}

#[test]
fn one_way_is_half_rounded_down() {
    let mut e = RttEstimator::new();
    e.sample(31);
    assert_eq!(e.one_way_ms(), 15);
    let mut e = RttEstimator::new();
    e.sample(1);
    assert_eq!(e.one_way_ms(), 0);
}

/// The average in hardware floating point.
struct Reference(Option<f64>);

impl Reference {
    fn sample(&mut self, rtt_ms: u32) {
        let x = f64::from(rtt_ms);
        self.0 = Some(match self.0 {
            None => x,
            Some(prev) => 0.15f64.mul_add(x, (1.0 - 0.15) * prev),
        });
    }

    fn estimate_ms(&self) -> Option<u32> {
        self.0
            .map(|v| v.round().max(0.0).min(f64::from(u32::MAX)) as u32)
    }
}

fn agree(samples: impl IntoIterator<Item = u32>) {
    let mut ours = RttEstimator::new();
    let mut theirs = Reference(None);
    for (i, s) in samples.into_iter().enumerate() {
        ours.sample(s);
        theirs.sample(s);
        assert_eq!(ours.estimate_ms(), theirs.estimate_ms(), "sample {i}");
    }
}

#[test]
fn agrees_with_hardware_arithmetic_on_varied_samples() {
    let mut x: u64 = 1;
    let mut samples = Vec::new();
    for _ in 0..5_000 {
        x = x
            .wrapping_mul(6_364_136_223_846_793_005)
            .wrapping_add(1_442_695_040_888_963_407);
        samples.push(((x >> 33) as u32) >> ((x >> 28) & 31));
    }
    agree(samples);
}

#[test]
fn agrees_with_hardware_arithmetic_on_extreme_samples() {
    agree([u32::MAX; 50]);
    agree([0, u32::MAX, 0, 1, u32::MAX, 2]);
    agree([10, 0, 10, 0, 10, 30, 50, 1]);
}

#[test]
fn agrees_with_hardware_arithmetic_after_long_silence() {
    // The average decays below the smallest normal number, then comes back.
    let mut samples = vec![1];
    samples.extend([0; 6_000]);
    samples.extend([7, 0, 0, 3]);
    for zeros in [150, 200, 300, 400] {
        samples.push(1);
        samples.extend(vec![0; zeros]);
        samples.extend([5, 11, 13]);
    }
    agree(samples);
}

#[test]
fn ties_round_up() {
    let mut e = RttEstimator::new();
    e.sample(0);
    e.sample(10);
    // 1.5
    assert_eq!(e.estimate_ms(), Some(2));
}
