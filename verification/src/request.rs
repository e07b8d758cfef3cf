//! What a caller asks of a speech model.

use vstd::prelude::*;

use crate::double::Double;

verus! {

/// Whose voice to imitate, where the speaker is not one that a model knows by name.
#[derive(Debug, Clone, PartialEq, Eq)]
pub enum SpeakerReferenceSource {
    /// A speaker vector in the named space.
    Embedding { space: String, values: Vec<Double> },
    /// A recording of the speaker.
    ReferenceAudio { uri: String },
}

/// How to speak.
#[derive(Debug, Clone, PartialEq, Eq)]
pub enum StyleSource {
    /// A style vector in the named space.
    Embedding { kind: String, values: Vec<Double> },
    /// A recording in the style.
    ReferenceAudio { uri: String },
}

/// The parts of a linguistic plan that the decisions of this crate read.
#[derive(Debug, Clone)]
pub struct UtterancePlan {
    pub intended_text: Option<String>,
    pub speaker: Option<String>,
    pub speaker_reference: Option<SpeakerReferenceSource>,
    pub style: Option<StyleSource>,
}

/// Controls of a synthesis. What is absent is left to the model.
#[derive(Debug, Clone)]
pub struct SynthesisOptions {
    pub speaker_id: Option<u32>,
    pub model_language: Option<String>,
    pub language_id: Option<u32>,
    pub length_scale: Option<Double>,
    pub noise_scale: Option<Double>,
    pub noise_w: Option<Double>,
    pub durations: Option<Vec<u32>>,
    pub pitch_scale: Option<Double>,
    pub pitch_shift: Option<Double>,
    pub pitch: Option<Vec<Double>>,
    pub energy_scale: Option<Double>,
    pub energy_shift: Option<Double>,
    pub energy: Option<Vec<Double>>,
    pub seed: Option<u64>,
}

impl Default for SynthesisOptions {
    fn default() -> (out: Self)
        ensures
            out.speaker_id is None,
            out.model_language is None,
            out.language_id is None,
            out.length_scale is None,
            out.noise_scale is None,
            out.noise_w is None,
            out.durations is None,
            out.pitch_scale is None,
            out.pitch_shift is None,
            out.pitch is None,
            out.energy_scale is None,
            out.energy_shift is None,
            out.energy is None,
            out.seed is None,
    {
        SynthesisOptions {
            speaker_id: None,
            model_language: None,
            language_id: None,
            length_scale: None,
            noise_scale: None,
            noise_w: None,
            durations: None,
            pitch_scale: None,
            pitch_shift: None,
            pitch: None,
            energy_scale: None,
            energy_shift: None,
            energy: None,
            seed: None,
        }
    }
}

#[derive(Debug, Clone)]
pub struct SpeechSynthesisRequest {
    pub plan: UtterancePlan,
    pub options: SynthesisOptions,
}

impl SpeechSynthesisRequest {
    /// No speaker is asked for, by name or by number.
    pub open spec fn anonymous(self) -> bool {
        self.plan.speaker is None && self.options.speaker_id is None
    }

    pub fn is_anonymous(&self) -> (out: bool)
        ensures
            out == self.anonymous(),
    {
        self.plan.speaker.is_none() && self.options.speaker_id.is_none()
    }
}

/// A control, or the value that stands in for it.
pub open spec fn chosen(control: Option<Double>, default: Double) -> Double {
    match control {
        Some(value) => value,
        None => default,
    }
}

/// A control, or the value that stands in for it.
pub fn choose_control(control: Option<Double>, default: Double) -> (out: Double)
    ensures
        out == chosen(control, default),
{
    match control {
        Some(value) => value,
        None => default,
    }
}

/// Every value is finite.
pub open spec fn all_finite(values: Seq<Double>) -> bool {
    forall|i: int| 0 <= i < values.len() ==> (#[trigger] values[i]).finite()
}

pub fn are_finite(values: &[Double]) -> (out: bool)
    ensures
        out == all_finite(values@),
{
    let mut i: usize = 0;
    while i < values.len()
        invariant
            i <= values.len(),
            forall|k: int| 0 <= k < i ==> (#[trigger] values@[k]).finite(),
        decreases values.len() - i,
    {
        if !values[i].is_finite() {
            return false;
        }
        i = i + 1;
    }
    true
}

/// The space of vectors that a model is conditioned on.
#[derive(Debug, Clone, Copy, PartialEq, Eq, Structural)]
pub enum ConditioningKind {
    Speaker,
    Style,
}

/// A kind of vector that a model accepts.
#[derive(Debug, Clone, PartialEq, Eq)]
pub struct EmbeddingContract {
    pub kind: ConditioningKind,
    pub space: String,
    pub dimensions: usize,
    pub l2_normalized: bool,
}

/// A kind of vector, with the name of its space as characters.
#[verifier::ext_equal]
pub struct EmbeddingModel {
    pub kind: ConditioningKind,
    pub space: Seq<char>,
    pub dimensions: usize,
    pub l2_normalized: bool,
}

impl View for EmbeddingContract {
    type V = EmbeddingModel;

    open spec fn view(&self) -> EmbeddingModel {
        EmbeddingModel {
            kind: self.kind,
            space: self.space@,
            dimensions: self.dimensions,
            l2_normalized: self.l2_normalized,
        }
    }
}

/// What a model as a whole can do.
#[derive(Debug, Clone, Copy, PartialEq, Eq, Structural)]
pub enum SpeechModelFamily {
    AcousticModel,
    EndToEndSpeech,
}

#[derive(Debug, Clone, Copy, PartialEq, Eq, Structural)]
pub struct SpeechModelCapabilities {
    pub family: SpeechModelFamily,
    pub supports_named_speakers: bool,
    pub supports_languages: bool,
    pub supports_reference_audio: bool,
    pub supports_voice_conversion: bool,
    pub integrated_vocoder: bool,
}

/// A control that is set is taken, and one that is not is left to its stand-in.
pub proof fn set_controls_are_taken(control: Option<Double>, default: Double, out: Double)
    requires
        call_ensures(choose_control, (control, default), out),
    ensures
        control matches Some(value) ==> out == value,
        control is None ==> out == default,
{
}

/// A request is anonymous exactly where it names no speaker and numbers none.
pub proof fn anonymous_requests_ask_for_nobody(request: &SpeechSynthesisRequest, out: bool)
    requires
        call_ensures(SpeechSynthesisRequest::is_anonymous, (request,), out),
    ensures
        out <==> request.plan.speaker is None && request.options.speaker_id is None,
{
}

/// Values are finite exactly where each of them is.
pub proof fn one_value_spoils_all(values: &[Double], out: bool)
    requires
        call_ensures(are_finite, (values,), out),
    ensures
        out <==> forall|i: int| 0 <= i < values@.len() ==> (#[trigger] values@[i]).finite(),
{
}

} // verus!
