//! The portable benchmark corpus, and what a benchmark must have measured.

use vstd::prelude::*;

use crate::double::Double;

verus! {

/// A sentence to be synthesized in a benchmark.
#[derive(Debug, Clone, PartialEq, Eq)]
pub struct BenchmarkFixture {
    /// A name that stays the same across releases.
    pub id: String,
    pub category: BenchmarkFixtureCategory,
    pub text: String,
    /// The approximate duration of the audio. The exact one depends on the pipeline.
    pub expected_duration_ms: Option<u32>,
    /// For revisions: the text that replaces the original once that was synthesized.
    pub revision_text: Option<String>,
}

/// What a fixture is for.
#[derive(Debug, Clone, Copy, PartialEq, Eq, Structural)]
pub enum BenchmarkFixtureCategory {
    /// A token as short as can be.
    Acknowledgment,
    /// A typical declarative sentence.
    OrdinarySentence,
    /// A sentence with commas, parentheses and other prosody marks.
    PunctuationHeavy,
    /// A pair of sentences that differ in their endings.
    RevisionFixture,
}

/// A fixture as text.
pub struct FixtureView {
    pub id: Seq<char>,
    pub category: BenchmarkFixtureCategory,
    pub text: Seq<char>,
    pub expected_duration_ms: Option<u32>,
    pub revision_text: Option<Seq<char>>,
}

impl View for BenchmarkFixture {
    type V = FixtureView;

    open spec fn view(&self) -> FixtureView {
        FixtureView {
            id: self.id@,
            category: self.category,
            text: self.text@,
            expected_duration_ms: self.expected_duration_ms,
            revision_text: match self.revision_text {
                Some(text) => Some(text@),
                None => None,
            },
        }
    }
}

/// The four fixtures.
pub open spec fn canonical_fixture(index: int) -> FixtureView {
    if index == 0 {
        FixtureView {
            id: "ack-ok"@,
            category: BenchmarkFixtureCategory::Acknowledgment,
            text: "Okay."@,
            expected_duration_ms: Some(350),
            revision_text: None,
        }
    } else if index == 1 {
        FixtureView {
            id: "sentence-weather"@,
            category: BenchmarkFixtureCategory::OrdinarySentence,
            text: "The forecast calls for partly cloudy skies and mild temperatures throughout the afternoon."@,
            expected_duration_ms: Some(3_500),
            revision_text: None,
        }
    } else if index == 2 {
        FixtureView {
            id: "punct-parenthetical"@,
            category: BenchmarkFixtureCategory::PunctuationHeavy,
            text: "The result — unexpected, at first glance — follows directly from the earlier proof (see section three, part two)."@,
            expected_duration_ms: Some(4_200),
            revision_text: None,
        }
    } else {
        FixtureView {
            id: "revision-append"@,
            category: BenchmarkFixtureCategory::RevisionFixture,
            text: "She opened the door"@,
            expected_duration_ms: Some(800),
            revision_text: Some("She opened the door and stepped into the hallway."@),
        }
    }
}

/// The corpus that every pipeline is measured on.
pub fn canonical_benchmark_corpus() -> (out: Vec<BenchmarkFixture>)
    ensures
        out.len() == 4,
        forall|i: int| 0 <= i < 4 ==> (#[trigger] out@[i])@ == canonical_fixture(i),
{
    let mut out: Vec<BenchmarkFixture> = Vec::new();
    out.push(
        BenchmarkFixture {
            id: "ack-ok".to_owned(),
            category: BenchmarkFixtureCategory::Acknowledgment,
            text: "Okay.".to_owned(),
            expected_duration_ms: Some(350),
            revision_text: None,
        },
    );
    out.push(
        BenchmarkFixture {
            id: "sentence-weather".to_owned(),
            category: BenchmarkFixtureCategory::OrdinarySentence,
            text: "The forecast calls for partly cloudy skies and mild temperatures throughout the afternoon.".to_owned(),
            expected_duration_ms: Some(3_500),
            revision_text: None,
        },
    );
    out.push(
        BenchmarkFixture {
            id: "punct-parenthetical".to_owned(),
            category: BenchmarkFixtureCategory::PunctuationHeavy,
            text: "The result — unexpected, at first glance — follows directly from the earlier proof (see section three, part two).".to_owned(),
            expected_duration_ms: Some(4_200),
            revision_text: None,
        },
    );
    out.push(
        BenchmarkFixture {
            id: "revision-append".to_owned(),
            category: BenchmarkFixtureCategory::RevisionFixture,
            text: "She opened the door".to_owned(),
            expected_duration_ms: Some(800),
            revision_text: Some("She opened the door and stepped into the hallway.".to_owned()),
        },
    );
    out
}

/// The corpus covers every category.
pub proof fn corpus_covers_every_category(category: BenchmarkFixtureCategory)
    ensures
        exists|i: int| 0 <= i < 4 && (#[trigger] canonical_fixture(i)).category == category,
{
    let i: int = match category {
        BenchmarkFixtureCategory::Acknowledgment => 0,
        BenchmarkFixtureCategory::OrdinarySentence => 1,
        BenchmarkFixtureCategory::PunctuationHeavy => 2,
        BenchmarkFixtureCategory::RevisionFixture => 3,
    };
    assert(canonical_fixture(i).category == category);
}

/// No two fixtures share a name.
pub proof fn fixture_names_differ(i: int, j: int)
    requires
        0 <= i < 4,
        0 <= j < 4,
        i != j,
    ensures
        canonical_fixture(i).id != canonical_fixture(j).id,
{
    reveal_strlit("ack-ok");
    reveal_strlit("sentence-weather");
    reveal_strlit("punct-parenthetical");
    reveal_strlit("revision-append");
    assert("ack-ok"@.len() == 6);
    assert("sentence-weather"@.len() == 16);
    assert("punct-parenthetical"@.len() == 19);
    assert("revision-append"@.len() == 15);
    assert(canonical_fixture(i).id.len() != canonical_fixture(j).id.len());
}

/// A fixture has a second text exactly where it is a revision, and that text continues the
/// first.
pub proof fn revisions_extend_their_original(i: int)
    requires
        0 <= i < 4,
    ensures
        ({
            let fixture = canonical_fixture(i);
            &&& fixture.text.len() > 0
            &&& fixture.revision_text is Some <==> fixture.category
                == BenchmarkFixtureCategory::RevisionFixture
            &&& fixture.revision_text matches Some(extended) ==> fixture.text.is_prefix_of(extended)
                && fixture.text.len() < extended.len()
        }),
{
    reveal_strlit("Okay.");
    reveal_strlit(
        "The forecast calls for partly cloudy skies and mild temperatures throughout the afternoon.",
    );
    reveal_strlit(
        "The result — unexpected, at first glance — follows directly from the earlier proof (see section three, part two).",
    );
    reveal_strlit("She opened the door");
    reveal_strlit("She opened the door and stepped into the hallway.");
    let original = "She opened the door"@;
    let extended = "She opened the door and stepped into the hallway."@;
    assert(extended.take(original.len() as int) =~= original);
}

/// The device and the threads of a run.
#[derive(Debug, Clone, PartialEq, Eq)]
pub struct BenchmarkExecutionContext {
    /// A label such as `cpu` or `cuda:0`.
    pub device: String,
    pub cpu_threads: Option<usize>,
    /// A note on the hardware. Host names do not belong here.
    pub hardware_note: Option<String>,
}

/// What a pipeline can do while it speaks.
#[derive(Debug, Clone, Copy, PartialEq, Eq, Structural)]
pub enum CapabilityTier {
    /// Revises speech that is already under way.
    TierA,
    TierB,
    TierC,
}

impl CapabilityTier {
    pub fn is_revision_tier(self) -> (out: bool)
        ensures
            out == (self == CapabilityTier::TierA),
    {
        self == CapabilityTier::TierA
    }
}

/// The measurements of one run. Times are in milliseconds, memory is in mebibytes.
#[derive(Debug, Clone, PartialEq, Eq)]
pub struct PortableBenchmarkMeasurements {
    pub backend: String,
    pub model: String,
    pub capability_tier: CapabilityTier,
    pub fixture_id: String,
    pub context: BenchmarkExecutionContext,
    /// From the request to load the model until it is ready.
    pub cold_load_ms: Double,
    /// From the start of a synthesis on a loaded model to its first audio.
    pub warm_first_audio_ms: Double,
    /// The time of a synthesis over that of its audio.
    pub real_time_factor: Double,
    pub peak_resident_mib: Double,
    /// From a cancellation to silence.
    pub cancellation_latency_ms: Double,
    /// For pipelines that revise: the time to regenerate a changed ending.
    pub suffix_regeneration_ms: Option<Double>,
    /// For pipelines that revise: the cost of splicing it in.
    pub crossfade_cost_ms: Option<Double>,
    /// The time to process a reference recording.
    pub reference_processing_ms: Option<Double>,
}

/// A name where something is amiss, nothing otherwise.
pub open spec fn flagged(fine: bool, name: &'static str) -> Seq<&'static str> {
    if fine {
        Seq::empty()
    } else {
        seq![name]
    }
}

fn flag(names: &mut Vec<&'static str>, fine: bool, name: &'static str)
    ensures
        final(names)@ == old(names)@ + flagged(fine, name),
{
    if !fine {
        names.push(name);
    }
    assert(names@ =~= old(names)@ + flagged(fine, name));
}

impl PortableBenchmarkMeasurements {
    /// The fields that are missing or out of bounds, in order.
    pub open spec fn faults(self) -> Seq<&'static str> {
        let revises = self.capability_tier == CapabilityTier::TierA;
        flagged(self.cold_load_ms.finite_non_negative(), "cold_load_ms") + flagged(
            self.warm_first_audio_ms.finite_non_negative(),
            "warm_first_audio_ms",
        ) + flagged(self.real_time_factor.finite_non_negative(), "real_time_factor") + flagged(
            self.peak_resident_mib.finite_non_negative(),
            "peak_resident_mib",
        ) + flagged(
            self.cancellation_latency_ms.finite_non_negative(),
            "cancellation_latency_ms",
        ) + flagged(
            revises ==> self.suffix_regeneration_ms is Some,
            "suffix_regeneration_ms",
        ) + flagged(revises ==> self.crossfade_cost_ms is Some, "crossfade_cost_ms")
    }

    /// The fields that are missing or out of bounds, in order.
    pub fn validate(&self) -> (out: Vec<&'static str>)
        ensures
            out@ == self.faults(),
    {
        let mut missing: Vec<&'static str> = Vec::new();
        flag(&mut missing, self.cold_load_ms.is_finite_non_negative(), "cold_load_ms");
        assert(missing@ =~= flagged(self.cold_load_ms.finite_non_negative(), "cold_load_ms"));
        flag(
            &mut missing,
            self.warm_first_audio_ms.is_finite_non_negative(),
            "warm_first_audio_ms",
        );
        flag(&mut missing, self.real_time_factor.is_finite_non_negative(), "real_time_factor");
        flag(&mut missing, self.peak_resident_mib.is_finite_non_negative(), "peak_resident_mib");
        flag(
            &mut missing,
            self.cancellation_latency_ms.is_finite_non_negative(),
            "cancellation_latency_ms",
        );
        let revises = self.capability_tier.is_revision_tier();
        flag(
            &mut missing,
            !revises || self.suffix_regeneration_ms.is_some(),
            "suffix_regeneration_ms",
        );
        flag(&mut missing, !revises || self.crossfade_cost_ms.is_some(), "crossfade_cost_ms");
        missing
    }
}

/// Only pipelines that revise owe the measurements of revisions.
pub proof fn other_tiers_owe_no_revision_times(measured: PortableBenchmarkMeasurements)
    requires
        measured.capability_tier != CapabilityTier::TierA,
    ensures
        measured.faults() == (PortableBenchmarkMeasurements {
            suffix_regeneration_ms: None,
            crossfade_cost_ms: None,
            ..measured
        }).faults(),
{
}

/// The place of a field among those that are checked.
pub open spec fn field_place(name: Seq<char>) -> int {
    if name == "cold_load_ms"@ {
        0
    } else if name == "warm_first_audio_ms"@ {
        1
    } else if name == "real_time_factor"@ {
        2
    } else if name == "peak_resident_mib"@ {
        3
    } else if name == "cancellation_latency_ms"@ {
        4
    } else if name == "suffix_regeneration_ms"@ {
        5
    } else if name == "crossfade_cost_ms"@ {
        6
    } else {
        7
    }
}

proof fn fields_have_places()
    ensures
        field_place("cold_load_ms"@) == 0,
        field_place("warm_first_audio_ms"@) == 1,
        field_place("real_time_factor"@) == 2,
        field_place("peak_resident_mib"@) == 3,
        field_place("cancellation_latency_ms"@) == 4,
        field_place("suffix_regeneration_ms"@) == 5,
        field_place("crossfade_cost_ms"@) == 6,
{
    reveal_strlit("cold_load_ms");
    reveal_strlit("warm_first_audio_ms");
    reveal_strlit("real_time_factor");
    reveal_strlit("peak_resident_mib");
    reveal_strlit("cancellation_latency_ms");
    reveal_strlit("suffix_regeneration_ms");
    reveal_strlit("crossfade_cost_ms");
    assert("cold_load_ms"@.len() == 12 && "warm_first_audio_ms"@.len() == 19);
    assert("real_time_factor"@.len() == 16 && "peak_resident_mib"@.len() == 17);
    assert("cancellation_latency_ms"@.len() == 23 && "suffix_regeneration_ms"@.len() == 22);
    assert("crossfade_cost_ms"@.len() == 17);
    assert("peak_resident_mib"@[0] == 'p' && "crossfade_cost_ms"@[0] == 'c');
}

/// A name of a field at the given place is among the names.
pub open spec fn names_place(names: Seq<&'static str>, place: int) -> bool {
    exists|i: int| 0 <= i < names.len() && field_place((#[trigger] names[i])@) == place
}

/// The names stand in the order of their places, all below the given one.
spec fn in_order(names: Seq<&'static str>, below: int) -> bool {
    &&& forall|i: int| 0 <= i < names.len() ==> field_place((#[trigger] names[i])@) < below
    &&& forall|i: int, j: int|
        0 <= i < j < names.len() ==> field_place((#[trigger] names[i])@) < field_place(
            (#[trigger] names[j])@,
        )
}

proof fn flagging_keeps_order(names: Seq<&'static str>, fine: bool, name: &'static str)
    requires
        in_order(names, field_place(name@)),
    ensures
        in_order(names + flagged(fine, name), field_place(name@) + 1),
        names_place(names + flagged(fine, name), field_place(name@)) <==> !fine,
        forall|place: int|
            place != field_place(name@) ==> (#[trigger] names_place(
                names + flagged(fine, name),
                place,
            ) <==> names_place(names, place)),
{
    let after = names + flagged(fine, name);
    if fine {
        assert(after =~= names);
    } else {
        assert(after =~= names.push(name));
        assert(after[names.len() as int] == name);
    }
    assert forall|place: int| place != field_place(name@) implies (#[trigger] names_place(
        after,
        place,
    ) <==> names_place(names, place)) by {
        if names_place(names, place) {
            let i = choose|i: int|
                0 <= i < names.len() && field_place((#[trigger] names[i])@) == place;
            assert(after[i] == names[i]);
        }
        if names_place(after, place) {
            let i = choose|i: int|
                0 <= i < after.len() && field_place((#[trigger] after[i])@) == place;
            assert(after[i] == names[i]);
        }
    }
}

/// A measurement is named exactly where it is missing or out of bounds: times, the factor and
/// memory where they are not finite or below zero, the times of revisions where a pipeline revises
/// and lacks them. Names stand in the order of the fields, each once.
pub proof fn faulty_measurements_are_named(
    measured: &PortableBenchmarkMeasurements,
    out: Vec<&'static str>,
    revises: bool,
)
    requires
        call_ensures(PortableBenchmarkMeasurements::validate, (measured,), out),
        call_ensures(CapabilityTier::is_revision_tier, (measured.capability_tier,), revises),
    ensures
        revises <==> measured.capability_tier is TierA,
        names_place(out@, field_place("cold_load_ms"@)) <==> !(measured.cold_load_ms.finite()
            && measured.cold_load_ms.rank() >= 0),
        names_place(out@, field_place("warm_first_audio_ms"@)) <==> !(
        measured.warm_first_audio_ms.finite() && measured.warm_first_audio_ms.rank() >= 0),
        names_place(out@, field_place("real_time_factor"@)) <==> !(
        measured.real_time_factor.finite() && measured.real_time_factor.rank() >= 0),
        names_place(out@, field_place("peak_resident_mib"@)) <==> !(
        measured.peak_resident_mib.finite() && measured.peak_resident_mib.rank() >= 0),
        names_place(out@, field_place("cancellation_latency_ms"@)) <==> !(
        measured.cancellation_latency_ms.finite() && measured.cancellation_latency_ms.rank() >= 0),
        names_place(out@, field_place("suffix_regeneration_ms"@)) <==> revises
            && measured.suffix_regeneration_ms is None,
        names_place(out@, field_place("crossfade_cost_ms"@)) <==> revises
            && measured.crossfade_cost_ms is None,
        forall|i: int| 0 <= i < out.len() ==> field_place((#[trigger] out@[i])@) < 7,
        forall|i: int, j: int|
            0 <= i < j < out.len() ==> field_place((#[trigger] out@[i])@) < field_place(
                (#[trigger] out@[j])@,
            ),
{
    fields_have_places();
    let none = Seq::<&'static str>::empty();
    let a = measured.cold_load_ms.finite_non_negative();
    let b = measured.warm_first_audio_ms.finite_non_negative();
    let c = measured.real_time_factor.finite_non_negative();
    let d = measured.peak_resident_mib.finite_non_negative();
    let e = measured.cancellation_latency_ms.finite_non_negative();
    let f = revises ==> measured.suffix_regeneration_ms is Some;
    let g = revises ==> measured.crossfade_cost_ms is Some;
    let one = none + flagged(a, "cold_load_ms");
    let two = one + flagged(b, "warm_first_audio_ms");
    let three = two + flagged(c, "real_time_factor");
    let four = three + flagged(d, "peak_resident_mib");
    let five = four + flagged(e, "cancellation_latency_ms");
    let six = five + flagged(f, "suffix_regeneration_ms");
    let seven = six + flagged(g, "crossfade_cost_ms");
    flagging_keeps_order(none, a, "cold_load_ms");
    flagging_keeps_order(one, b, "warm_first_audio_ms");
    flagging_keeps_order(two, c, "real_time_factor");
    flagging_keeps_order(three, d, "peak_resident_mib");
    flagging_keeps_order(four, e, "cancellation_latency_ms");
    flagging_keeps_order(five, f, "suffix_regeneration_ms");
    flagging_keeps_order(six, g, "crossfade_cost_ms");
    assert(one =~= flagged(a, "cold_load_ms"));
    assert(out@ == seven);
}

/// The corpus has a fixture of each kind, in this order: an acknowledgment, an ordinary sentence,
/// one heavy with marks, and one that is revised by a longer text. No two share a name, and each
/// has a text and an expected duration.
pub proof fn corpora_have_a_fixture_of_each_kind(out: Vec<BenchmarkFixture>)
    requires
        call_ensures(canonical_benchmark_corpus, (), out),
    ensures
        out.len() == 4,
        out@[0].category is Acknowledgment && out@[1].category is OrdinarySentence
            && out@[2].category is PunctuationHeavy && out@[3].category is RevisionFixture,
        out@[0].id@ == "ack-ok"@ && out@[1].id@ == "sentence-weather"@ && out@[2].id@
            == "punct-parenthetical"@ && out@[3].id@ == "revision-append"@,
        out@[0].text@ == "Okay."@,
        out@[1].text@
            == "The forecast calls for partly cloudy skies and mild temperatures throughout the afternoon."@,
        out@[2].text@
            == "The result — unexpected, at first glance — follows directly from the earlier proof (see section three, part two)."@,
        out@[3].text@ == "She opened the door"@,
        out@[0].expected_duration_ms == Some(350u32) && out@[1].expected_duration_ms == Some(
            3_500u32,
        ) && out@[2].expected_duration_ms == Some(4_200u32) && out@[3].expected_duration_ms == Some(
            800u32,
        ),
        forall|i: int| 0 <= i < 3 ==> (#[trigger] out@[i]).revision_text is None,
        out@[3].revision_text matches Some(longer) && out@[3].text@.is_prefix_of(longer@)
            && longer@ == "She opened the door and stepped into the hallway."@,
        forall|i: int, j: int|
            0 <= i < 4 && 0 <= j < 4 && i != j ==> (#[trigger] out@[i]).id@ != (
            #[trigger] out@[j]).id@,
{
    assert forall|i: int| 0 <= i < 4 implies (#[trigger] out@[i])@ == canonical_fixture(i) by {}
    assert(out@[0]@ == canonical_fixture(0) && out@[1]@ == canonical_fixture(1));
    assert(out@[2]@ == canonical_fixture(2) && out@[3]@ == canonical_fixture(3));
    revisions_extend_their_original(3);
    assert forall|i: int, j: int| 0 <= i < 4 && 0 <= j < 4 && i != j implies (
    #[trigger] out@[i]).id@ != (#[trigger] out@[j]).id@ by {
        fixture_names_differ(i, j);
        assert(out@[i]@.id == canonical_fixture(i).id);
        assert(out@[j]@.id == canonical_fixture(j).id);
    }
}

} // verus!
