//! The benchmark corpus and the validity of measurements.

use tongues_tts::benchmark::{
    canonical_benchmark_corpus, BenchmarkExecutionContext, BenchmarkFixtureCategory,
    CapabilityTier, PortableBenchmarkMeasurements,
};
use tongues_tts::double::Double;

fn double(value: f64) -> Double {
    Double { bits: value.to_bits() }
}

#[test]
fn canonical_corpus_covers_all_required_categories() {
    let corpus = canonical_benchmark_corpus();
    let has = |cat: BenchmarkFixtureCategory| corpus.iter().any(|f| f.category == cat);
    assert!(has(BenchmarkFixtureCategory::Acknowledgment));
    assert!(has(BenchmarkFixtureCategory::OrdinarySentence));
    assert!(has(BenchmarkFixtureCategory::PunctuationHeavy));
    assert!(has(BenchmarkFixtureCategory::RevisionFixture));
}

#[test]
fn revision_fixture_carries_both_original_and_extended_text() {
    let corpus = canonical_benchmark_corpus();
    let revision = corpus
        .iter()
        .find(|f| f.category == BenchmarkFixtureCategory::RevisionFixture)
        .expect("revision fixture must be present");
    assert!(!revision.text.is_empty());
    let extended = revision.revision_text.as_deref().expect("revision_text");
    assert!(
        extended.starts_with(&revision.text),
        "revision text must extend the original prefix"
    );
}

#[test]
fn fixture_ids_are_unique() {
    let corpus = canonical_benchmark_corpus();
    let mut ids: Vec<&str> = corpus.iter().map(|f| f.id.as_str()).collect();
    let before = ids.len();
    ids.dedup();
    ids.sort_unstable();
    ids.dedup();
    assert_eq!(ids.len(), before, "fixture ids must be unique");
}

fn tier_a() -> PortableBenchmarkMeasurements {
    PortableBenchmarkMeasurements {
        backend: "fastpitch".into(),
        model: "fastpitch-ljspeech+hifigan-v2".into(),
        capability_tier: CapabilityTier::TierA,
        fixture_id: "revision-append".into(),
        context: BenchmarkExecutionContext {
            device: "cpu".into(),
            cpu_threads: Some(4),
            hardware_note: None,
        },
        cold_load_ms: double(420.0),
        warm_first_audio_ms: double(18.0),
        real_time_factor: double(0.42),
        peak_resident_mib: double(256.0),
        cancellation_latency_ms: double(5.0),
        suffix_regeneration_ms: Some(double(22.0)),
        crossfade_cost_ms: Some(double(3.0)),
        reference_processing_ms: None,
    }
}

#[test]
fn valid_tier_a_measurement_passes_validation() {
    let m = tier_a();
    assert!(m.validate().is_empty(), "should have no validation errors");
}

#[test]
fn tier_a_measurement_without_revision_fields_fails_validation() {
    let mut m = tier_a();
    m.context.cpu_threads = None;
    m.suffix_regeneration_ms = None;
    m.crossfade_cost_ms = None;
    let errors = m.validate();
    assert!(
        errors.contains(&"suffix_regeneration_ms"),
        "must flag missing suffix_regeneration_ms"
    );
    assert!(
        errors.contains(&"crossfade_cost_ms"),
        "must flag missing crossfade_cost_ms"
    );
}

#[test]
fn tier_b_measurement_does_not_require_revision_fields() {
    let m = PortableBenchmarkMeasurements {
        backend: "vits".into(),
        model: "vits-vctk".into(),
        capability_tier: CapabilityTier::TierB,
        fixture_id: "sentence-weather".into(),
        context: BenchmarkExecutionContext {
            device: "cpu".into(),
            cpu_threads: Some(2),
            hardware_note: Some("reference CPU target".into()),
        },
        cold_load_ms: double(200.0),
        warm_first_audio_ms: double(150.0),
        real_time_factor: double(0.9),
        peak_resident_mib: double(180.0),
        cancellation_latency_ms: double(200.0),
        suffix_regeneration_ms: None,
        crossfade_cost_ms: None,
        reference_processing_ms: None,
    };
    assert!(m.validate().is_empty(), "Tier B does not require revision fields");
}

#[test]
fn every_unusable_time_is_named_in_order() {
    let mut m = tier_a();
    m.cold_load_ms = double(f64::NAN);
    m.warm_first_audio_ms = double(-1.0);
    m.real_time_factor = double(f64::INFINITY);
    m.peak_resident_mib = double(f64::NEG_INFINITY);
    m.cancellation_latency_ms = double(-0.5);
    m.suffix_regeneration_ms = None;
    m.crossfade_cost_ms = None;
    assert_eq!(
        m.validate(),
        vec![
            "cold_load_ms",
            "warm_first_audio_ms",
            "real_time_factor",
            "peak_resident_mib",
            "cancellation_latency_ms",
            "suffix_regeneration_ms",
            "crossfade_cost_ms",
        ]
    );
}

#[test]
fn negative_zero_is_a_usable_time() {
    let mut m = tier_a();
    m.cold_load_ms = double(-0.0);
    assert!(m.validate().is_empty());
}

#[test]
fn only_the_first_tier_revises() {
    assert!(CapabilityTier::TierA.is_revision_tier());
    assert!(!CapabilityTier::TierB.is_revision_tier());
    assert!(!CapabilityTier::TierC.is_revision_tier());
}
