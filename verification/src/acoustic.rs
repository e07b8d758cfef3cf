//! Requests to acoustic models: what a package must hold, which requests a model takes, and
//! which controls a request comes down to.

use vstd::prelude::*;

use crate::delightful_tts::{DelightfulSpeakerConfig, DelightfulTtsControls};
use crate::double::Double;
use crate::fast_pitch::{FastPitchConfig, FastPitchControls};
use crate::fastspeech::FastSpeechControls;
use crate::glow_tts::{GlowDurations, GlowTtsNetworkConfig};
use crate::json::{first, unless, Json};
use crate::request::{
    all_finite, are_finite, choose_control, chosen, ConditioningKind, EmbeddingContract,
    EmbeddingModel, SpeakerReferenceSource, SpeechModelCapabilities, SpeechModelFamily,
    SpeechSynthesisRequest, StyleSource,
};
use crate::tacotron::CapacitronConfig;
use crate::text::{
    around_number, around_numbers, around_text, characters_of, decimal, decimal_text, same_text,
    with_numbers, with_text,
};
use crate::tokens::TokenBatch;
use crate::vits::verdict;

verus! {

#[derive(Debug, Clone, Copy, PartialEq, Eq, Structural)]
pub enum AcousticFamily {
    SpeedySpeech,
    FastPitch,
    FastSpeech,
    AlignTts,
    DelightfulTts,
    Tacotron2,
}

/// How the values of a spectrogram are laid out.
#[derive(Debug, Clone, Copy, PartialEq, Eq, Structural)]
pub enum SpectrogramLayout {
    FramesByBins,
    BinsByFrames,
}

impl AcousticFamily {
    /// The name in diagnostics.
    pub open spec fn named(self) -> Seq<char> {
        match self {
            AcousticFamily::SpeedySpeech => "SpeedySpeech"@,
            AcousticFamily::FastPitch => "FastPitch"@,
            AcousticFamily::FastSpeech => "FastSpeech"@,
            AcousticFamily::AlignTts => "Align-TTS"@,
            AcousticFamily::DelightfulTts => "DelightfulTTS"@,
            AcousticFamily::Tacotron2 => "Tacotron"@,
        }
    }

    pub fn name(self) -> (out: &'static str)
        ensures
            out@ == self.named(),
    {
        match self {
            AcousticFamily::SpeedySpeech => "SpeedySpeech",
            AcousticFamily::FastPitch => "FastPitch",
            AcousticFamily::FastSpeech => "FastSpeech",
            AcousticFamily::AlignTts => "Align-TTS",
            AcousticFamily::DelightfulTts => "DelightfulTTS",
            AcousticFamily::Tacotron2 => "Tacotron",
        }
    }

    /// The vocabulary of a package is that of its model.
    pub open spec fn vocabulary_fault(self, entries: usize, expected: usize) -> Option<Seq<char>> {
        unless(
            entries == expected,
            match self {
                AcousticFamily::AlignTts => "symbol count does not match num_chars"@,
                AcousticFamily::Tacotron2 => "Tacotron vocabulary has "@ + decimal(entries as nat)
                    + " entries but checkpoint expects "@ + decimal(expected as nat),
                _ => "phoneme vocabulary has "@ + decimal(entries as nat) + " entries but "@
                    + self.named() + " expects "@ + decimal(expected as nat),
            },
        )
    }

    pub fn check_vocabulary(self, entries: usize, expected: usize) -> (out: Result<(), String>)
        ensures
            verdict(out, self.vocabulary_fault(entries, expected)),
    {
        if entries == expected {
            return Ok(());
        }
        match self {
            AcousticFamily::AlignTts => Err("symbol count does not match num_chars".to_owned()),
            AcousticFamily::Tacotron2 => Err(
                with_numbers(
                    "Tacotron vocabulary has ",
                    entries,
                    " entries but checkpoint expects ",
                    expected,
                ),
            ),
            _ => {
                let mut message = around_number(
                    "phoneme vocabulary has ",
                    entries,
                    " entries but ",
                );
                message.append(self.name());
                message.append(" expects ");
                message.append(decimal_text(expected as u64).as_str());
                Err(message)
            },
        }
    }

    /// The spectrograms of a package are frame-major and as wide as its model's.
    pub open spec fn spectrogram_fault(
        self,
        layout: SpectrogramLayout,
        bins: usize,
        out_channels: usize,
    ) -> Option<Seq<char>> {
        if layout != SpectrogramLayout::FramesByBins {
            Some(
                match self {
                    AcousticFamily::AlignTts => "Align-TTS requires frame-major spectrograms"@,
                    AcousticFamily::Tacotron2 =>
                        "Tacotron acoustic adapter requires frame-major shared spectrograms"@,
                    _ => "Burn "@ + self.named()
                        + " adapter requires frame-major shared spectrograms"@,
                },
            )
        } else {
            unless(
                bins == out_channels,
                match self {
                    AcousticFamily::AlignTts => "mel bin count does not match out_channels"@,
                    AcousticFamily::Tacotron2 => "audio config declares "@ + decimal(bins as nat)
                        + " mel bins but Tacotron emits "@ + decimal(out_channels as nat),
                    _ => "audio feature config declares "@ + decimal(bins as nat)
                        + " mel bins but "@ + self.named() + " emits "@ + decimal(
                        out_channels as nat,
                    ),
                },
            )
        }
    }

    pub fn check_spectrogram(self, layout: SpectrogramLayout, bins: usize, out_channels: usize) -> (out:
        Result<(), String>)
        ensures
            verdict(out, self.spectrogram_fault(layout, bins, out_channels)),
    {
        if layout != SpectrogramLayout::FramesByBins {
            return match self {
                AcousticFamily::AlignTts => Err(
                    "Align-TTS requires frame-major spectrograms".to_owned(),
                ),
                AcousticFamily::Tacotron2 => Err(
                    "Tacotron acoustic adapter requires frame-major shared spectrograms".to_owned(),
                ),
                _ => Err(
                    around_text(
                        "Burn ",
                        self.name(),
                        " adapter requires frame-major shared spectrograms",
                    ),
                ),
            };
        }
        if bins != out_channels {
            return match self {
                AcousticFamily::AlignTts => Err(
                    "mel bin count does not match out_channels".to_owned(),
                ),
                AcousticFamily::Tacotron2 => Err(
                    with_numbers(
                        "audio config declares ",
                        bins,
                        " mel bins but Tacotron emits ",
                        out_channels,
                    ),
                ),
                _ => {
                    let mut message = around_number(
                        "audio feature config declares ",
                        bins,
                        " mel bins but ",
                    );
                    message.append(self.name());
                    message.append(" emits ");
                    message.append(decimal_text(out_channels as u64).as_str());
                    Err(message)
                },
            };
        }
        Ok(())
    }

    /// The first reason why a model does not speak with the voice of a request.
    pub open spec fn speaker_fault(self, request: SpeechSynthesisRequest) -> Option<Seq<char>> {
        match self {
            AcousticFamily::DelightfulTts => unless(
                request.plan.speaker_reference is None,
                "DelightfulTTS d-vector conditioning requires a precomputed embedding adapter, not raw reference audio"@,
            ),
            _ => if !request.anonymous() {
                Some(self.single_speaker())
            } else if request.plan.speaker_reference is Some {
                Some(self.no_reference())
            } else {
                None
            },
        }
    }

    /// What is said of a request that names a speaker.
    pub open spec fn single_speaker(self) -> Seq<char> {
        match self {
            AcousticFamily::FastSpeech => "this FastSpeech adapter is single-speaker"@,
            AcousticFamily::AlignTts => "this Align-TTS backend is single-speaker"@,
            AcousticFamily::Tacotron2 =>
                "native Tacotron 2 backend currently supports single-speaker checkpoints"@,
            _ => "the released LJSpeech "@ + self.named() + " checkpoint is single-speaker"@,
        }
    }

    /// What is said of a request that refers to a speaker.
    pub open spec fn no_reference(self) -> Seq<char> {
        match self {
            AcousticFamily::FastSpeech => "FastSpeech does not accept reference audio"@,
            AcousticFamily::AlignTts => "Align-TTS does not accept reference audio"@,
            AcousticFamily::Tacotron2 =>
                "native Tacotron 2 backend does not accept speaker reference audio"@,
            _ => "the released LJSpeech "@ + self.named()
                + " checkpoint does not accept reference audio"@,
        }
    }

    /// Whether a model speaks with the voice of a request.
    pub fn check_speaker(self, request: &SpeechSynthesisRequest) -> (out: Result<(), String>)
        ensures
            verdict(out, self.speaker_fault(*request)),
    {
        if self == AcousticFamily::DelightfulTts {
            if request.plan.speaker_reference.is_some() {
                return Err(
                    "DelightfulTTS d-vector conditioning requires a precomputed embedding adapter, not raw reference audio".to_owned(),
                );
            }
            return Ok(());
        }
        if !request.is_anonymous() {
            return match self {
                AcousticFamily::FastSpeech => Err(
                    "this FastSpeech adapter is single-speaker".to_owned(),
                ),
                AcousticFamily::AlignTts => Err(
                    "this Align-TTS backend is single-speaker".to_owned(),
                ),
                AcousticFamily::Tacotron2 => Err(
                    "native Tacotron 2 backend currently supports single-speaker checkpoints".to_owned(),
                ),
                _ => Err(
                    around_text(
                        "the released LJSpeech ",
                        self.name(),
                        " checkpoint is single-speaker",
                    ),
                ),
            };
        }
        if request.plan.speaker_reference.is_some() {
            return match self {
                AcousticFamily::FastSpeech => Err(
                    "FastSpeech does not accept reference audio".to_owned(),
                ),
                AcousticFamily::AlignTts => Err(
                    "Align-TTS does not accept reference audio".to_owned(),
                ),
                AcousticFamily::Tacotron2 => Err(
                    "native Tacotron 2 backend does not accept speaker reference audio".to_owned(),
                ),
                _ => Err(
                    around_text(
                        "the released LJSpeech ",
                        self.name(),
                        " checkpoint does not accept reference audio",
                    ),
                ),
            };
        }
        Ok(())
    }

    /// Every projected token is in the vocabulary.
    pub open spec fn projection_fault(self, ids: Seq<i64>, vocabulary: usize) -> Option<Seq<char>> {
        unless(
            all_within(ids, vocabulary),
            "projected "@ + self.named() + " token ID is outside the checkpoint vocabulary"@,
        )
    }

    pub fn check_projection(self, ids: &Vec<i64>, vocabulary: usize) -> (out: Result<(), String>)
        ensures
            verdict(out, self.projection_fault(ids@, vocabulary)),
    {
        if !are_within(ids, vocabulary) {
            return Err(
                around_text(
                    "projected ",
                    self.name(),
                    " token ID is outside the checkpoint vocabulary",
                ),
            );
        }
        Ok(())
    }

    /// What a model of the family can do, given whether it knows speakers.
    pub fn capabilities(self, named_speakers: bool) -> (out: SpeechModelCapabilities)
        ensures
            out == acoustic_abilities(self == AcousticFamily::DelightfulTts && named_speakers),
    {
        acoustic_capabilities(self == AcousticFamily::DelightfulTts && named_speakers)
    }
}

/// What an acoustic model can do: it speaks, perhaps with the voices of named speakers.
pub open spec fn acoustic_abilities(named_speakers: bool) -> SpeechModelCapabilities {
    SpeechModelCapabilities {
        family: SpeechModelFamily::AcousticModel,
        supports_named_speakers: named_speakers,
        supports_languages: false,
        supports_reference_audio: false,
        supports_voice_conversion: false,
        integrated_vocoder: false,
    }
}

/// What an acoustic model can do, given whether it knows speakers.
pub fn acoustic_capabilities(named_speakers: bool) -> (out: SpeechModelCapabilities)
    ensures
        out == acoustic_abilities(named_speakers),
{
    SpeechModelCapabilities {
        family: SpeechModelFamily::AcousticModel,
        supports_named_speakers: named_speakers,
        supports_languages: false,
        supports_reference_audio: false,
        supports_voice_conversion: false,
        integrated_vocoder: false,
    }
}

/// Every number is an index into a vocabulary.
pub open spec fn all_within(ids: Seq<i64>, vocabulary: usize) -> bool {
    forall|i: int| 0 <= i < ids.len() ==> 0 <= #[trigger] ids[i] < vocabulary
}

fn are_within(ids: &Vec<i64>, vocabulary: usize) -> (out: bool)
    ensures
        out == all_within(ids@, vocabulary),
{
    let mut i: usize = 0;
    while i < ids.len()
        invariant
            i <= ids.len(),
            forall|k: int| 0 <= k < i ==> 0 <= #[trigger] ids@[k] < vocabulary,
        decreases ids.len() - i,
    {
        let id: i64 = ids[i];
        if id < 0 || id as u64 >= vocabulary as u64 {
            return false;
        }
        i = i + 1;
    }
    true
}

// The controls of a request.

/// Every duration is positive.
pub open spec fn all_positive(durations: Seq<u32>) -> bool {
    forall|i: int| 0 <= i < durations.len() ==> #[trigger] durations[i] > 0
}

fn are_positive(durations: &Vec<u32>) -> (out: bool)
    ensures
        out == all_positive(durations@),
{
    let mut i: usize = 0;
    while i < durations.len()
        invariant
            i <= durations.len(),
            forall|k: int| 0 <= k < i ==> #[trigger] durations@[k] > 0,
        decreases durations.len() - i,
    {
        if durations[i] == 0 {
            return false;
        }
        i = i + 1;
    }
    true
}

/// Explicit durations are positive, one per token.
pub open spec fn durations_fault(durations: Option<Vec<u32>>, tokens: usize) -> Option<Seq<char>> {
    match durations {
        None => None,
        Some(values) => if values.len() != tokens {
            Some(
                "explicit durations contain "@ + decimal(values.len() as nat)
                    + " values but projection produced "@ + decimal(tokens as nat) + " tokens"@,
            )
        } else {
            unless(all_positive(values@), "explicit durations must all be positive"@)
        },
    }
}

/// The shape of explicit durations for a single sequence.
pub open spec fn durations_shape(durations: Option<Vec<u32>>, tokens: usize) -> Option<Seq<usize>> {
    match durations {
        Some(_) => Some(seq![1, tokens]),
        None => None,
    }
}

/// The dimensions of an optional pair.
pub open spec fn pair(shape: Option<[usize; 2]>) -> Option<Seq<usize>> {
    match shape {
        Some(shape) => Some(shape@),
        None => None,
    }
}

/// The dimensions of an optional triple.
pub open spec fn triple(shape: Option<[usize; 3]>) -> Option<Seq<usize>> {
    match shape {
        Some(shape) => Some(shape@),
        None => None,
    }
}

/// The shape of explicit durations, which are positive, one per token.
pub fn optional_durations(durations: &Option<Vec<u32>>, tokens: usize) -> (out: Result<
    Option<[usize; 2]>,
    String,
>)
    ensures
        verdict(out, durations_fault(*durations, tokens)),
        out matches Ok(shape) ==> pair(shape) == durations_shape(*durations, tokens),
{
    match durations {
        None => Ok(None),
        Some(values) => {
            if values.len() != tokens {
                return Err(
                    around_numbers(
                        "explicit durations contain ",
                        values.len(),
                        " values but projection produced ",
                        tokens,
                        " tokens",
                    ),
                );
            }
            if !are_positive(values) {
                return Err("explicit durations must all be positive".to_owned());
            }
            let shape: [usize; 2] = [1, tokens];
            assert(shape@ =~= seq![1, tokens]);
            Ok(Some(shape))
        },
    }
}

/// Explicit values are finite, one per token.
pub open spec fn values_fault(label: Seq<char>, values: Option<Vec<Double>>, tokens: usize) -> Option<
    Seq<char>,
> {
    match values {
        None => None,
        Some(values) => if values.len() != tokens {
            Some(
                "explicit "@ + label + " contains "@ + decimal(values.len() as nat)
                    + " values but projection produced "@ + decimal(tokens as nat) + " tokens"@,
            )
        } else {
            unless(all_finite(values@), "explicit "@ + label + " values must be finite"@)
        },
    }
}

/// The shape of explicit values for a single sequence.
pub open spec fn values_shape(values: Option<Vec<Double>>, tokens: usize) -> Option<Seq<usize>> {
    match values {
        Some(_) => Some(seq![1, 1, tokens]),
        None => None,
    }
}

/// The shape of explicit values, which are finite, one per token.
pub fn optional_values(label: &str, values: &Option<Vec<Double>>, tokens: usize) -> (out: Result<
    Option<[usize; 3]>,
    String,
>)
    ensures
        verdict(out, values_fault(label@, *values, tokens)),
        out matches Ok(shape) ==> triple(shape) == values_shape(*values, tokens),
{
    match values {
        None => Ok(None),
        Some(values) => {
            if values.len() != tokens {
                let mut message = around_text("explicit ", label, " contains ");
                message.append(decimal_text(values.len() as u64).as_str());
                message.append(" values but projection produced ");
                message.append(decimal_text(tokens as u64).as_str());
                message.append(" tokens");
                return Err(message);
            }
            if !are_finite(values.as_slice()) {
                return Err(around_text("explicit ", label, " values must be finite"));
            }
            let shape: [usize; 3] = [1, 1, tokens];
            assert(shape@ =~= seq![1, 1, tokens]);
            Ok(Some(shape))
        },
    }
}

/// The number one.
pub open spec fn unit() -> Double {
    Double { bits: 0x3FF0_0000_0000_0000 }
}

/// The number zero.
pub open spec fn nought() -> Double {
    Double { bits: 0 }
}

/// The first reason why a request to FastPitch has no controls.
pub open spec fn fast_pitch_fault(
    request: SpeechSynthesisRequest,
    ids: Seq<i64>,
    vocabulary: usize,
) -> Option<Seq<char>> {
    first(
        AcousticFamily::FastPitch.projection_fault(ids, vocabulary),
        if !chosen(request.options.pitch_scale, unit()).finite_positive() {
            Some("pitch_scale must be finite and positive"@)
        } else if !chosen(request.options.pitch_shift, nought()).finite() {
            Some("pitch_shift must be finite"@)
        } else {
            first(
                durations_fault(request.options.durations, ids.len() as usize),
                values_fault("pitch"@, request.options.pitch, ids.len() as usize),
            )
        },
    )
}

/// The controls of a request to FastPitch, once its text is projected to tokens.
pub fn fast_pitch_controls(request: &SpeechSynthesisRequest, ids: &Vec<i64>, vocabulary: usize) -> (out:
    Result<FastPitchControls, String>)
    ensures
        verdict(out, fast_pitch_fault(*request, ids@, vocabulary)),
        out matches Ok(controls) ==> {
            &&& controls.length_scale == chosen(request.options.length_scale, unit())
            &&& controls.pitch_scale == chosen(request.options.pitch_scale, unit())
            &&& controls.pitch_shift == chosen(request.options.pitch_shift, nought())
            &&& pair(controls.durations) == durations_shape(
                request.options.durations,
                ids@.len() as usize,
            )
            &&& triple(controls.pitch) == values_shape(request.options.pitch, ids@.len() as usize)
        },
{
    AcousticFamily::FastPitch.check_projection(ids, vocabulary)?;
    let tokens: usize = ids.len();
    let length_scale = choose_control(request.options.length_scale, Double::one());
    let pitch_scale = choose_control(request.options.pitch_scale, Double::one());
    let pitch_shift = choose_control(request.options.pitch_shift, Double::zero());
    if !pitch_scale.is_finite_positive() {
        return Err("pitch_scale must be finite and positive".to_owned());
    }
    if !pitch_shift.is_finite() {
        return Err("pitch_shift must be finite".to_owned());
    }
    let durations = optional_durations(&request.options.durations, tokens)?;
    let pitch = optional_values("pitch", &request.options.pitch, tokens)?;
    Ok(FastPitchControls { length_scale, pitch_scale, pitch_shift, durations, pitch })
}

/// The first reason why explicit durations, pitch and energy are refused.
pub open spec fn variance_request_fault(request: SpeechSynthesisRequest, tokens: usize) -> Option<
    Seq<char>,
> {
    first(
        durations_fault(request.options.durations, tokens),
        first(
            values_fault("pitch"@, request.options.pitch, tokens),
            values_fault("energy"@, request.options.energy, tokens),
        ),
    )
}

/// The controls of a request to FastSpeech, once its text is projected to tokens.
pub fn fast_speech_controls(request: &SpeechSynthesisRequest, tokens: usize) -> (out: Result<
    FastSpeechControls,
    String,
>)
    ensures
        verdict(out, variance_request_fault(*request, tokens)),
        out matches Ok(controls) ==> {
            &&& controls.length_scale == chosen(request.options.length_scale, unit())
            &&& controls.pitch_scale == chosen(request.options.pitch_scale, unit())
            &&& controls.pitch_shift == chosen(request.options.pitch_shift, nought())
            &&& controls.energy_scale == chosen(request.options.energy_scale, unit())
            &&& controls.energy_shift == chosen(request.options.energy_shift, nought())
            &&& pair(controls.durations) == durations_shape(request.options.durations, tokens)
            &&& triple(controls.pitch) == values_shape(request.options.pitch, tokens)
            &&& triple(controls.energy) == values_shape(request.options.energy, tokens)
        },
{
    let durations = optional_durations(&request.options.durations, tokens)?;
    let pitch = optional_values("pitch", &request.options.pitch, tokens)?;
    let energy = optional_values("energy", &request.options.energy, tokens)?;
    Ok(
        FastSpeechControls {
            length_scale: choose_control(request.options.length_scale, Double::one()),
            durations,
            pitch_scale: choose_control(request.options.pitch_scale, Double::one()),
            pitch_shift: choose_control(request.options.pitch_shift, Double::zero()),
            pitch,
            energy_scale: choose_control(request.options.energy_scale, Double::one()),
            energy_shift: choose_control(request.options.energy_shift, Double::zero()),
            energy,
        },
    )
}

/// The first reason why a request to DelightfulTTS has no controls.
pub open spec fn delightful_fault(request: SpeechSynthesisRequest, tokens: usize) -> Option<
    Seq<char>,
> {
    first(
        unless(
            request.plan.speaker is None || request.options.speaker_id is Some,
            "named DelightfulTTS speakers must be resolved to a checkpoint speaker ID"@,
        ),
        variance_request_fault(request, tokens),
    )
}

/// The controls of a request to DelightfulTTS, once its text is projected to tokens.
pub fn delightful_controls(request: &SpeechSynthesisRequest, tokens: usize) -> (out: Result<
    DelightfulTtsControls,
    String,
>)
    ensures
        verdict(out, delightful_fault(*request, tokens)),
        out matches Ok(controls) ==> {
            &&& controls.length_scale == chosen(request.options.length_scale, unit())
            &&& controls.pitch_scale == chosen(request.options.pitch_scale, unit())
            &&& controls.pitch_shift == chosen(request.options.pitch_shift, nought())
            &&& controls.energy_scale == chosen(request.options.energy_scale, unit())
            &&& controls.energy_shift == chosen(request.options.energy_shift, nought())
            &&& pair(controls.durations) == durations_shape(request.options.durations, tokens)
            &&& triple(controls.pitch) == values_shape(request.options.pitch, tokens)
            &&& triple(controls.energy) == values_shape(request.options.energy, tokens)
            &&& controls.d_vectors is None
            &&& match (request.options.speaker_id, controls.speaker_ids) {
                (None, None) => true,
                (Some(id), Some(ids)) => ids@ == seq![id as i64],
                _ => false,
            }
        },
{
    if request.plan.speaker.is_some() && request.options.speaker_id.is_none() {
        return Err(
            "named DelightfulTTS speakers must be resolved to a checkpoint speaker ID".to_owned(),
        );
    }
    let durations = optional_durations(&request.options.durations, tokens)?;
    let pitch = optional_values("pitch", &request.options.pitch, tokens)?;
    let energy = optional_values("energy", &request.options.energy, tokens)?;
    let speaker_ids = match request.options.speaker_id {
        Some(id) => {
            let ids: Vec<i64> = vec![id as i64];
            assert(ids@ =~= seq![id as i64]);
            Some(ids)
        },
        None => None,
    };
    Ok(
        DelightfulTtsControls {
            length_scale: choose_control(request.options.length_scale, Double::one()),
            durations,
            pitch_scale: choose_control(request.options.pitch_scale, Double::one()),
            pitch_shift: choose_control(request.options.pitch_shift, Double::zero()),
            pitch,
            energy_scale: choose_control(request.options.energy_scale, Double::one()),
            energy_shift: choose_control(request.options.energy_shift, Double::zero()),
            energy,
            speaker_ids,
            d_vectors: None,
        },
    )
}

/// The lengths that a request to Align-TTS asks for.
#[derive(Debug, Clone, Copy, PartialEq, Eq)]
pub struct AlignTtsControls {
    pub length_scale: Double,
    pub durations: Option<[usize; 2]>,
}

/// Explicit durations are as many as the tokens.
pub open spec fn align_fault(request: SpeechSynthesisRequest, tokens: usize) -> Option<Seq<char>> {
    match request.options.durations {
        Some(values) => unless(
            values.len() == tokens,
            "explicit duration count must match token count"@,
        ),
        None => None,
    }
}

/// The controls of a request to Align-TTS, once its text is projected to tokens.
pub fn align_controls(request: &SpeechSynthesisRequest, tokens: usize) -> (out: Result<
    AlignTtsControls,
    String,
>)
    ensures
        verdict(out, align_fault(*request, tokens)),
        out matches Ok(controls) ==> controls.length_scale == chosen(
            request.options.length_scale,
            unit(),
        ) && pair(controls.durations) == durations_shape(request.options.durations, tokens),
{
    let durations = match &request.options.durations {
        Some(values) => {
            if values.len() != tokens {
                return Err("explicit duration count must match token count".to_owned());
            }
            let shape: [usize; 2] = [1, tokens];
            assert(shape@ =~= seq![1, tokens]);
            Some(shape)
        },
        None => None,
    };
    Ok(
        AlignTtsControls {
            length_scale: choose_control(request.options.length_scale, Double::one()),
            durations,
        },
    )
}

/// The length scale of a request to SpeedySpeech, once its text is projected to tokens.
pub fn speedy_speech_length_scale(
    request: &SpeechSynthesisRequest,
    ids: &Vec<i64>,
    vocabulary: usize,
) -> (out: Result<Double, String>)
    ensures
        verdict(out, AcousticFamily::SpeedySpeech.projection_fault(ids@, vocabulary)),
        out matches Ok(scale) ==> scale == chosen(request.options.length_scale, unit()),
{
    AcousticFamily::SpeedySpeech.check_projection(ids, vocabulary)?;
    Ok(choose_control(request.options.length_scale, Double::one()))
}

// DelightfulTTS packages.

/// The first character of the padding symbol of a configuration.
pub open spec fn padding_of(root: Json) -> Option<char> {
    match root.field("characters"@) {
        Some(characters) => match characters.field("pad"@) {
            Some(value) => match value.text_value() {
                Some(text) => if text.len() > 0 {
                    Some(text[0])
                } else {
                    None
                },
                None => None,
            },
            None => None,
        },
        None => None,
    }
}

/// The padding symbol of a DelightfulTTS configuration.
pub fn padding_symbol(root: &Json) -> (out: Result<char, String>)
    ensures
        match out {
            Ok(symbol) => padding_of(*root) == Some(symbol),
            Err(message) => padding_of(*root) is None && message@
                == "DelightfulTTS config requires a one-character padding symbol"@,
        },
{
    if let Some(characters) = root.get("characters") {
        if let Some(value) = characters.get("pad") {
            if let Some(text) = value.as_str() {
                let symbols = characters_of(text);
                if symbols.len() > 0 {
                    return Ok(symbols[0]);
                }
            }
        }
    }
    Err("DelightfulTTS config requires a one-character padding symbol".to_owned())
}

/// The number of the padding symbol, given what the vocabulary says of it.
pub fn padding_index(id: Option<i64>) -> (out: Result<usize, String>)
    ensures
        match out {
            Ok(index) => id is Some && index == id.unwrap(),
            Err(message) => match id {
                None => message@ == "padding symbol is absent from checkpoint vocabulary"@,
                Some(id) => (id < 0 || id > usize::MAX) && message@
                    == "padding symbol ID must be non-negative"@,
            },
        },
{
    match id {
        None => Err("padding symbol is absent from checkpoint vocabulary".to_owned()),
        Some(id) => {
            if id < 0 || id as u64 > usize::MAX as u64 {
                Err("padding symbol ID must be non-negative".to_owned())
            } else {
                Ok(id as usize)
            }
        },
    }
}

/// The vectors that a DelightfulTTS checkpoint is conditioned on, where it takes vectors.
pub fn delightful_contract(speakers: &DelightfulSpeakerConfig) -> (out: Option<EmbeddingContract>)
    ensures
        match out {
            Some(contract) => speakers.use_d_vector_file && contract@ == (EmbeddingModel {
                kind: ConditioningKind::Speaker,
                space: "coqui-delightful-tts-d-vector"@,
                dimensions: speakers.d_vector_dim,
                l2_normalized: true,
            }),
            None => !speakers.use_d_vector_file,
        },
{
    if speakers.use_d_vector_file {
        Some(
            EmbeddingContract {
                kind: ConditioningKind::Speaker,
                space: "coqui-delightful-tts-d-vector".to_owned(),
                dimensions: speakers.d_vector_dim,
                l2_normalized: true,
            },
        )
    } else {
        None
    }
}

// Glow-TTS.

/// The space of the speaker vectors of SC-GlowTTS.
pub const COQUI_D_VECTOR_SPACE: &'static str = "coqui-speaker-encoder-d-vector-v1";

/// The vectors that a Glow-TTS checkpoint is conditioned on, where it takes any.
pub fn glow_contract(channels: usize) -> (out: Option<EmbeddingContract>)
    ensures
        match out {
            Some(contract) => channels > 0 && contract@ == (EmbeddingModel {
                kind: ConditioningKind::Speaker,
                space: COQUI_D_VECTOR_SPACE@,
                dimensions: channels,
                l2_normalized: true,
            }),
            None => channels == 0,
        },
{
    if channels == 0 {
        None
    } else {
        Some(
            EmbeddingContract {
                kind: ConditioningKind::Speaker,
                space: COQUI_D_VECTOR_SPACE.to_owned(),
                dimensions: channels,
                l2_normalized: true,
            },
        )
    }
}

/// The first reason why a request has no proper speaker vector.
pub open spec fn glow_speaker_fault(
    request: SpeechSynthesisRequest,
    contract: Option<EmbeddingModel>,
) -> Option<Seq<char>> {
    match contract {
        None => if !request.anonymous() {
            Some("this Glow-TTS checkpoint is single-speaker"@)
        } else {
            unless(
                request.plan.speaker_reference is None,
                "this Glow-TTS checkpoint does not accept speaker conditioning"@,
            )
        },
        Some(contract) => if !request.anonymous() {
            Some("SC-GlowTTS consumes a speaker embedding, not a named or numeric speaker ID"@)
        } else {
            match request.plan.speaker_reference {
                None => Some("SC-GlowTTS requires a speaker-reference embedding"@),
                Some(SpeakerReferenceSource::ReferenceAudio { .. }) => Some(
                    "SC-GlowTTS requires a precomputed speaker embedding; reference audio needs a separate speaker encoder"@,
                ),
                Some(SpeakerReferenceSource::Embedding { space, values }) => if space@
                    != contract.space {
                    Some(
                        "SC-GlowTTS speaker embedding space `"@ + space@ + "` does not match `"@
                            + contract.space + "`"@,
                    )
                } else {
                    unless(
                        values.len() == contract.dimensions && all_finite(values@),
                        "SC-GlowTTS speaker embedding must contain "@ + decimal(
                            contract.dimensions as nat,
                        ) + " finite values"@,
                    )
                },
            }
        },
    }
}

/// The view of an optional contract.
pub open spec fn contract_of(contract: Option<&EmbeddingContract>) -> Option<EmbeddingModel> {
    match contract {
        Some(contract) => Some(contract@),
        None => None,
    }
}

/// Whether a request has the speaker vector that a checkpoint takes, and the shape of that
/// vector.
pub fn glow_speaker(request: &SpeechSynthesisRequest, contract: Option<&EmbeddingContract>) -> (out: Result<
    Option<[usize; 3]>,
    String,
>)
    ensures
        verdict(out, glow_speaker_fault(*request, contract_of(contract))),
        out matches Ok(shape) ==> triple(shape) == (match contract {
            Some(contract) => Some(seq![1, contract.dimensions, 1]),
            None => None,
        }),
{
    let contract = match contract {
        None => {
            if !request.is_anonymous() {
                return Err("this Glow-TTS checkpoint is single-speaker".to_owned());
            }
            if request.plan.speaker_reference.is_some() {
                return Err(
                    "this Glow-TTS checkpoint does not accept speaker conditioning".to_owned(),
                );
            }
            return Ok(None);
        },
        Some(contract) => contract,
    };
    if !request.is_anonymous() {
        return Err(
            "SC-GlowTTS consumes a speaker embedding, not a named or numeric speaker ID".to_owned(),
        );
    }
    match &request.plan.speaker_reference {
        None => Err("SC-GlowTTS requires a speaker-reference embedding".to_owned()),
        Some(SpeakerReferenceSource::ReferenceAudio { .. }) => Err(
            "SC-GlowTTS requires a precomputed speaker embedding; reference audio needs a separate speaker encoder".to_owned(),
        ),
        Some(SpeakerReferenceSource::Embedding { space, values }) => {
            if !same_text(space.as_str(), contract.space.as_str()) {
                let mut message = around_text(
                    "SC-GlowTTS speaker embedding space `",
                    space.as_str(),
                    "` does not match `",
                );
                message.append(contract.space.as_str());
                message.append("`");
                return Err(message);
            }
            if values.len() != contract.dimensions || !are_finite(values.as_slice()) {
                return Err(
                    around_number(
                        "SC-GlowTTS speaker embedding must contain ",
                        contract.dimensions,
                        " finite values",
                    ),
                );
            }
            let shape: [usize; 3] = [1, contract.dimensions, 1];
            assert(shape@ =~= seq![1, contract.dimensions, 1]);
            Ok(Some(shape))
        },
    }
}

/// What a request asks of a Glow-TTS model.
#[derive(Debug, Clone, Copy, PartialEq, Eq)]
pub struct GlowRequest {
    pub conditioning: Option<[usize; 3]>,
    pub durations: Option<[usize; 2]>,
    pub length_scale: Double,
    pub noise_scale: Double,
    pub duration_noise_scale: Double,
}

/// The first reason why a request is not for Glow-TTS.
pub open spec fn glow_fault(
    request: SpeechSynthesisRequest,
    contract: Option<EmbeddingModel>,
    network: GlowTtsNetworkConfig,
    tokens: usize,
) -> Option<Seq<char>> {
    if tokens == 0 {
        Some("Glow-TTS projection produced no tokens"@)
    } else {
        first(
            glow_speaker_fault(request, contract),
            first(
                match request.options.durations {
                    Some(values) => unless(
                        values.len() == tokens,
                        "Glow-TTS received "@ + decimal(values.len() as nat)
                            + " explicit durations for "@ + decimal(tokens as nat)
                            + " projected tokens"@,
                    ),
                    None => None,
                },
                first(
                    unless(
                        request.options.pitch is None && request.options.pitch_scale is None
                            && request.options.pitch_shift is None,
                        "Glow-TTS does not expose pitch conditioning"@,
                    ),
                    unless(
                        network.use_sdp || glow_duration_noise(request, network).equals(nought()),
                        "this deterministic-duration Glow-TTS checkpoint does not accept duration noise"@,
                    ),
                ),
            ),
        )
    }
}

/// The noise of the durations: none where they are predicted and no one asks for any.
pub open spec fn glow_duration_noise(
    request: SpeechSynthesisRequest,
    network: GlowTtsNetworkConfig,
) -> Double {
    chosen(
        request.options.noise_w,
        if network.use_sdp {
            network.inference_noise_scale_dp
        } else {
            nought()
        },
    )
}

/// What a request asks of a Glow-TTS model, once its text is projected to tokens.
pub fn plan_glow(
    request: &SpeechSynthesisRequest,
    contract: Option<&EmbeddingContract>,
    network: &GlowTtsNetworkConfig,
    tokens: usize,
) -> (out: Result<GlowRequest, String>)
    ensures
        verdict(out, glow_fault(*request, contract_of(contract), *network, tokens)),
        out matches Ok(plan) ==> {
            &&& triple(plan.conditioning) == (match contract {
                Some(contract) => Some(seq![1, contract.dimensions, 1]),
                None => None,
            })
            &&& pair(plan.durations) == durations_shape(request.options.durations, tokens)
            &&& plan.length_scale == chosen(request.options.length_scale, network.length_scale)
            &&& plan.noise_scale == chosen(
                request.options.noise_scale,
                network.inference_noise_scale,
            )
            &&& plan.duration_noise_scale == glow_duration_noise(*request, *network)
        },
{
    if tokens == 0 {
        return Err("Glow-TTS projection produced no tokens".to_owned());
    }
    let conditioning = glow_speaker(request, contract)?;
    let durations = match &request.options.durations {
        Some(values) => {
            if values.len() != tokens {
                return Err(
                    around_numbers(
                        "Glow-TTS received ",
                        values.len(),
                        " explicit durations for ",
                        tokens,
                        " projected tokens",
                    ),
                );
            }
            let shape: [usize; 2] = [1, tokens];
            assert(shape@ =~= seq![1, tokens]);
            Some(shape)
        },
        None => None,
    };
    if request.options.pitch.is_some() || request.options.pitch_scale.is_some()
        || request.options.pitch_shift.is_some() {
        return Err("Glow-TTS does not expose pitch conditioning".to_owned());
    }
    let default_noise = if network.use_sdp {
        network.inference_noise_scale_dp
    } else {
        Double::zero()
    };
    let duration_noise_scale = choose_control(request.options.noise_w, default_noise);
    if !network.use_sdp && !duration_noise_scale.is_equal(Double::zero()) {
        return Err(
            "this deterministic-duration Glow-TTS checkpoint does not accept duration noise".to_owned(),
        );
    }
    Ok(
        GlowRequest {
            conditioning,
            durations,
            length_scale: choose_control(request.options.length_scale, network.length_scale),
            noise_scale: choose_control(
                request.options.noise_scale,
                network.inference_noise_scale,
            ),
            duration_noise_scale,
        },
    )
}

// Tacotron 2.

/// The space of the style vectors of Capacitron.
pub const CAPACITRON_LATENT_SPACE: &'static str = "capacitron-standard-normal-latent-v1";

/// The vectors that a Tacotron checkpoint is conditioned on, where it takes any.
pub fn capacitron_contract(capacitron: &Option<CapacitronConfig>) -> (out: Option<EmbeddingContract>)
    ensures
        match (*capacitron, out) {
            (Some(config), Some(contract)) => contract@ == (EmbeddingModel {
                kind: ConditioningKind::Style,
                space: CAPACITRON_LATENT_SPACE@,
                dimensions: config.embedding_dim,
                l2_normalized: false,
            }),
            (None, None) => true,
            _ => false,
        },
{
    match capacitron {
        Some(config) => Some(
            EmbeddingContract {
                kind: ConditioningKind::Style,
                space: CAPACITRON_LATENT_SPACE.to_owned(),
                dimensions: config.embedding_dim,
                l2_normalized: false,
            },
        ),
        None => None,
    }
}

/// The first reason why a request has no proper style vector.
pub open spec fn style_fault(
    request: SpeechSynthesisRequest,
    contract: Option<EmbeddingModel>,
) -> Option<Seq<char>> {
    match (request.plan.style, contract) {
        (None, _) => None,
        (Some(_), None) => Some(
            "style conditioning was requested for a non-Capacitron Tacotron checkpoint"@,
        ),
        (Some(StyleSource::ReferenceAudio { .. }), Some(contract)) => Some(
            "native Capacitron currently accepts an explicit `"@ + contract.space
                + "` latent embedding; reference-audio posterior encoding is not available"@,
        ),
        (Some(StyleSource::Embedding { kind, values }), Some(contract)) => if kind@
            != contract.space {
            Some(
                "Capacitron style embedding space `"@ + kind@ + "` does not match `"@
                    + contract.space + "`"@,
            )
        } else if values.len() != contract.dimensions {
            Some(
                "Capacitron style embedding has "@ + decimal(values.len() as nat)
                    + " values; expected "@ + decimal(contract.dimensions as nat),
            )
        } else {
            unless(
                all_finite(values@),
                "Capacitron style embedding contains non-finite values"@,
            )
        },
    }
}

/// The shape of the style vector of a request, where it has one that the checkpoint takes.
pub fn style_vector(request: &SpeechSynthesisRequest, contract: Option<&EmbeddingContract>) -> (out: Result<
    Option<[usize; 2]>,
    String,
>)
    ensures
        verdict(out, style_fault(*request, contract_of(contract))),
        out matches Ok(shape) ==> pair(shape) == (match (request.plan.style, contract) {
            (Some(_), Some(contract)) => Some(seq![1, contract.dimensions]),
            _ => None,
        }),
{
    let style = match &request.plan.style {
        Some(style) => style,
        None => {
            return Ok(None);
        },
    };
    let contract = match contract {
        Some(contract) => contract,
        None => {
            return Err(
                "style conditioning was requested for a non-Capacitron Tacotron checkpoint".to_owned(),
            );
        },
    };
    match style {
        StyleSource::ReferenceAudio { .. } => Err(
            around_text(
                "native Capacitron currently accepts an explicit `",
                contract.space.as_str(),
                "` latent embedding; reference-audio posterior encoding is not available",
            ),
        ),
        StyleSource::Embedding { kind, values } => {
            if !same_text(kind.as_str(), contract.space.as_str()) {
                let mut message = around_text(
                    "Capacitron style embedding space `",
                    kind.as_str(),
                    "` does not match `",
                );
                message.append(contract.space.as_str());
                message.append("`");
                return Err(message);
            }
            if values.len() != contract.dimensions {
                return Err(
                    with_numbers(
                        "Capacitron style embedding has ",
                        values.len(),
                        " values; expected ",
                        contract.dimensions,
                    ),
                );
            }
            if !are_finite(values.as_slice()) {
                return Err("Capacitron style embedding contains non-finite values".to_owned());
            }
            let shape: [usize; 2] = [1, values.len()];
            assert(shape@ =~= seq![1, contract.dimensions]);
            Ok(Some(shape))
        },
    }
}

// What an adapter lets through, its model takes.

/// A request that the FastPitch adapter accepts is refused by the model only for its length
/// scale or for want of tokens.
pub proof fn accepted_requests_fit_fast_pitch(
    request: SpeechSynthesisRequest,
    tokens: TokenBatch,
    vocabulary: usize,
    controls: FastPitchControls,
    config: FastPitchConfig,
)
    requires
        fast_pitch_fault(request, tokens.ids@, vocabulary) is None,
        tokens.wf(),
        tokens.batch == 1,
        tokens.tokens > 0,
        controls.length_scale.finite_positive(),
        controls.pitch_scale == chosen(request.options.pitch_scale, unit()),
        controls.pitch_shift == chosen(request.options.pitch_shift, nought()),
        pair(controls.durations) == durations_shape(
            request.options.durations,
            tokens.ids@.len() as usize,
        ),
        triple(controls.pitch) == values_shape(request.options.pitch, tokens.ids@.len() as usize),
    ensures
        config.inference_fault(tokens, controls, true) is None,
{
}

/// A request that the Glow-TTS adapter accepts is refused by the model only for its scales.
pub proof fn accepted_requests_fit_glow(
    request: SpeechSynthesisRequest,
    contract: Option<EmbeddingModel>,
    network: GlowTtsNetworkConfig,
    tokens: usize,
    plan: GlowRequest,
    kind: GlowDurations,
)
    requires
        glow_fault(request, contract, network, tokens) is None,
        contract is Some <==> network.speaker_conditioning_channels > 0,
        contract matches Some(contract) ==> contract.dimensions
            == network.speaker_conditioning_channels,
        triple(plan.conditioning) == (match contract {
            Some(contract) => Some(seq![1, contract.dimensions, 1]),
            None => None,
        }),
        kind.controls_fault(plan.length_scale, plan.noise_scale, plan.duration_noise_scale) is None,
    ensures
        kind.inference_fault(
            network,
            1,
            tokens,
            1,
            triple(plan.conditioning),
            plan.length_scale,
            plan.noise_scale,
            plan.duration_noise_scale,
        ) is None,
{
}

// What a request comes down to.

/// Explicit durations go with tokens: one for each, and none of them empty.
spec fn durations_go_with(durations: Option<Vec<u32>>, tokens: int) -> bool {
    durations matches Some(values) ==> values.len() == tokens && forall|i: int|
        0 <= i < values.len() ==> #[trigger] values@[i] >= 1
}

/// Explicit values go with tokens: one for each, and all of them finite.
spec fn values_go_with(values: Option<Vec<Double>>, tokens: int) -> bool {
    values matches Some(values) ==> values.len() == tokens && forall|i: int|
        0 <= i < values.len() ==> (#[trigger] values@[i]).finite()
}

/// Explicit durations stand in a row of as many as there are tokens; where a request has none, none
/// are made up.
pub proof fn durations_are_taken_as_given(
    durations: &Option<Vec<u32>>,
    tokens: usize,
    out: Result<Option<[usize; 2]>, String>,
)
    requires
        call_ensures(optional_durations, (durations, tokens), out),
    ensures
        out is Ok <==> (durations matches Some(values) ==> values.len() == tokens && forall|i: int|
            0 <= i < values.len() ==> #[trigger] values@[i] >= 1),
        out matches Ok(shape) ==> (shape is Some <==> durations is Some),
        out matches Ok(Some(shape)) ==> shape@[0] == 1 && shape@[1] == tokens,
{
    assert(durations_go_with(*durations, tokens as int) <==> durations_fault(*durations, tokens)
        is None);
}

/// Explicit values stand in a row of as many as there are tokens; where a request has none, none
/// are made up.
pub proof fn values_are_taken_as_given(
    label: &str,
    values: &Option<Vec<Double>>,
    tokens: usize,
    out: Result<Option<[usize; 3]>, String>,
)
    requires
        call_ensures(optional_values, (label, values, tokens), out),
    ensures
        out is Ok <==> (values matches Some(given) ==> given.len() == tokens && forall|i: int|
            0 <= i < given.len() ==> (#[trigger] given@[i]).finite()),
        out matches Ok(shape) ==> (shape is Some <==> values is Some),
        out matches Ok(Some(shape)) ==> shape@[0] == 1 && shape@[1] == 1 && shape@[2] == tokens,
{
    assert(values_go_with(*values, tokens as int) <==> values_fault(label@, *values, tokens)
        is None);
}

/// FastPitch does what a request says of length, pitch and durations. What the request leaves open
/// changes nothing: scales are one, the shift is zero, durations and pitch are predicted.
pub proof fn fast_pitch_follows_requests(
    request: &SpeechSynthesisRequest,
    ids: &Vec<i64>,
    vocabulary: usize,
    controls: FastPitchControls,
)
    requires
        call_ensures(
            fast_pitch_controls,
            (request, ids, vocabulary),
            Ok::<FastPitchControls, String>(controls),
        ),
    ensures
        ({
            let options = request.options;
            &&& options.length_scale matches Some(given) ==> controls.length_scale == given
            &&& options.length_scale is None ==> controls.length_scale.bits == 0x3FF0_0000_0000_0000
            &&& options.pitch_scale matches Some(given) ==> controls.pitch_scale == given
            &&& options.pitch_scale is None ==> controls.pitch_scale.bits == 0x3FF0_0000_0000_0000
            &&& options.pitch_shift matches Some(given) ==> controls.pitch_shift == given
            &&& options.pitch_shift is None ==> controls.pitch_shift.bits == 0
            &&& controls.durations is Some <==> options.durations is Some
            &&& controls.durations matches Some(shape) ==> shape@ == seq![1, ids.len()]
            &&& controls.pitch is Some <==> options.pitch is Some
            &&& controls.pitch matches Some(shape) ==> shape@ == seq![1, 1, ids.len()]
        }),
{
}

/// FastPitch takes a request exactly where every token is in the vocabulary, the pitch is scaled by
/// a positive number and shifted by a finite one, and explicit values go with the tokens.
pub proof fn fast_pitch_takes_sound_requests(
    request: &SpeechSynthesisRequest,
    ids: &Vec<i64>,
    vocabulary: usize,
    out: Result<FastPitchControls, String>,
)
    requires
        call_ensures(fast_pitch_controls, (request, ids, vocabulary), out),
    ensures
        out is Ok <==> {
            let options = request.options;
            &&& forall|i: int| 0 <= i < ids.len() ==> 0 <= #[trigger] ids@[i] < vocabulary
            &&& options.pitch_scale matches Some(scale) ==> scale.finite() && scale.rank() > 0
            &&& options.pitch_shift matches Some(shift) ==> shift.finite()
            &&& options.durations matches Some(values) ==> values.len() == ids.len()
                && forall|i: int| 0 <= i < values.len() ==> #[trigger] values@[i] >= 1
            &&& options.pitch matches Some(values) ==> values.len() == ids.len() && forall|i: int|
                0 <= i < values.len() ==> (#[trigger] values@[i]).finite()
        },
{
    let options = request.options;
    assert(durations_go_with(options.durations, ids.len() as int) <==> durations_fault(
        options.durations,
        ids.len(),
    ) is None);
    assert(values_go_with(options.pitch, ids.len() as int) <==> values_fault(
        "pitch"@,
        options.pitch,
        ids.len(),
    ) is None);
    assert(all_within(ids@, vocabulary) <==> (forall|i: int|
        0 <= i < ids.len() ==> 0 <= #[trigger] ids@[i] < vocabulary));
}

/// FastSpeech does what a request says of length, pitch, energy and durations. What the request
/// leaves open changes nothing.
pub proof fn fast_speech_follows_requests(
    request: &SpeechSynthesisRequest,
    tokens: usize,
    controls: FastSpeechControls,
)
    requires
        call_ensures(
            fast_speech_controls,
            (request, tokens),
            Ok::<FastSpeechControls, String>(controls),
        ),
    ensures
        ({
            let options = request.options;
            &&& options.length_scale matches Some(given) ==> controls.length_scale == given
            &&& options.length_scale is None ==> controls.length_scale.bits == 0x3FF0_0000_0000_0000
            &&& options.pitch_scale matches Some(given) ==> controls.pitch_scale == given
            &&& options.pitch_scale is None ==> controls.pitch_scale.bits == 0x3FF0_0000_0000_0000
            &&& options.pitch_shift matches Some(given) ==> controls.pitch_shift == given
            &&& options.pitch_shift is None ==> controls.pitch_shift.bits == 0
            &&& options.energy_scale matches Some(given) ==> controls.energy_scale == given
            &&& options.energy_scale is None ==> controls.energy_scale.bits == 0x3FF0_0000_0000_0000
            &&& options.energy_shift matches Some(given) ==> controls.energy_shift == given
            &&& options.energy_shift is None ==> controls.energy_shift.bits == 0
            &&& controls.durations is Some <==> options.durations is Some
            &&& controls.durations matches Some(shape) ==> shape@ == seq![1, tokens]
            &&& controls.pitch is Some <==> options.pitch is Some
            &&& controls.pitch matches Some(shape) ==> shape@ == seq![1, 1, tokens]
            &&& controls.energy is Some <==> options.energy is Some
            &&& controls.energy matches Some(shape) ==> shape@ == seq![1, 1, tokens]
        }),
{
}

/// FastSpeech takes a request exactly where its explicit values go with the tokens.
pub proof fn fast_speech_takes_sound_requests(
    request: &SpeechSynthesisRequest,
    tokens: usize,
    out: Result<FastSpeechControls, String>,
)
    requires
        call_ensures(fast_speech_controls, (request, tokens), out),
    ensures
        out is Ok <==> {
            let options = request.options;
            &&& options.durations matches Some(values) ==> values.len() == tokens && forall|i: int|
                0 <= i < values.len() ==> #[trigger] values@[i] >= 1
            &&& options.pitch matches Some(values) ==> values.len() == tokens && forall|i: int|
                0 <= i < values.len() ==> (#[trigger] values@[i]).finite()
            &&& options.energy matches Some(values) ==> values.len() == tokens && forall|i: int|
                0 <= i < values.len() ==> (#[trigger] values@[i]).finite()
        },
{
    explicit_values_go_with_tokens(request, tokens);
}

proof fn explicit_values_go_with_tokens(request: &SpeechSynthesisRequest, tokens: usize)
    ensures
        variance_request_fault(*request, tokens) is None <==> durations_go_with(
            request.options.durations,
            tokens as int,
        ) && values_go_with(request.options.pitch, tokens as int) && values_go_with(
            request.options.energy,
            tokens as int,
        ),
{
    let options = request.options;
    assert(durations_go_with(options.durations, tokens as int) <==> durations_fault(
        options.durations,
        tokens,
    ) is None);
    assert(values_go_with(options.pitch, tokens as int) <==> values_fault(
        "pitch"@,
        options.pitch,
        tokens,
    ) is None);
    assert(values_go_with(options.energy, tokens as int) <==> values_fault(
        "energy"@,
        options.energy,
        tokens,
    ) is None);
}

/// DelightfulTTS does what a request says of length, pitch, energy, durations and the speaker's
/// number. What the request leaves open changes nothing.
pub proof fn delightful_follows_requests(
    request: &SpeechSynthesisRequest,
    tokens: usize,
    controls: DelightfulTtsControls,
)
    requires
        call_ensures(
            delightful_controls,
            (request, tokens),
            Ok::<DelightfulTtsControls, String>(controls),
        ),
    ensures
        ({
            let options = request.options;
            &&& options.length_scale matches Some(given) ==> controls.length_scale == given
            &&& options.length_scale is None ==> controls.length_scale.bits == 0x3FF0_0000_0000_0000
            &&& options.pitch_scale matches Some(given) ==> controls.pitch_scale == given
            &&& options.pitch_scale is None ==> controls.pitch_scale.bits == 0x3FF0_0000_0000_0000
            &&& options.pitch_shift matches Some(given) ==> controls.pitch_shift == given
            &&& options.pitch_shift is None ==> controls.pitch_shift.bits == 0
            &&& options.energy_scale matches Some(given) ==> controls.energy_scale == given
            &&& options.energy_scale is None ==> controls.energy_scale.bits == 0x3FF0_0000_0000_0000
            &&& options.energy_shift matches Some(given) ==> controls.energy_shift == given
            &&& options.energy_shift is None ==> controls.energy_shift.bits == 0
            &&& controls.durations is Some <==> options.durations is Some
            &&& controls.durations matches Some(shape) ==> shape@ == seq![1, tokens]
            &&& controls.pitch is Some <==> options.pitch is Some
            &&& controls.pitch matches Some(shape) ==> shape@ == seq![1, 1, tokens]
            &&& controls.energy is Some <==> options.energy is Some
            &&& controls.energy matches Some(shape) ==> shape@ == seq![1, 1, tokens]
            &&& controls.speaker_ids is Some <==> options.speaker_id is Some
            &&& controls.speaker_ids matches Some(ids) ==> ids.len() == 1 && ids@[0]
                == options.speaker_id.unwrap()
            &&& controls.d_vectors is None
        }),
{
}

/// DelightfulTTS takes a request exactly where a speaker that it names also has a number, and its
/// explicit values go with the tokens.
pub proof fn delightful_takes_sound_requests(
    request: &SpeechSynthesisRequest,
    tokens: usize,
    out: Result<DelightfulTtsControls, String>,
)
    requires
        call_ensures(delightful_controls, (request, tokens), out),
    ensures
        out is Ok <==> {
            let options = request.options;
            &&& request.plan.speaker is Some ==> options.speaker_id is Some
            &&& options.durations matches Some(values) ==> values.len() == tokens && forall|i: int|
                0 <= i < values.len() ==> #[trigger] values@[i] >= 1
            &&& options.pitch matches Some(values) ==> values.len() == tokens && forall|i: int|
                0 <= i < values.len() ==> (#[trigger] values@[i]).finite()
            &&& options.energy matches Some(values) ==> values.len() == tokens && forall|i: int|
                0 <= i < values.len() ==> (#[trigger] values@[i]).finite()
        },
{
    explicit_values_go_with_tokens(request, tokens);
}

/// Align-TTS does what a request says of length and durations, where there is a duration for each
/// token.
pub proof fn align_follows_requests(
    request: &SpeechSynthesisRequest,
    tokens: usize,
    out: Result<AlignTtsControls, String>,
)
    requires
        call_ensures(align_controls, (request, tokens), out),
    ensures
        out is Ok <==> (request.options.durations matches Some(values) ==> values.len() == tokens),
        out matches Ok(controls) ==> {
            &&& request.options.length_scale matches Some(given) ==> controls.length_scale == given
            &&& request.options.length_scale is None ==> controls.length_scale.bits
                == 0x3FF0_0000_0000_0000
            &&& controls.durations is Some <==> request.options.durations is Some
            &&& controls.durations matches Some(shape) ==> shape@ == seq![1, tokens]
        },
{
}

/// SpeedySpeech does what a request says of length, where every token is in the vocabulary.
pub proof fn speedy_speech_follows_requests(
    request: &SpeechSynthesisRequest,
    ids: &Vec<i64>,
    vocabulary: usize,
    out: Result<Double, String>,
)
    requires
        call_ensures(speedy_speech_length_scale, (request, ids, vocabulary), out),
    ensures
        out is Ok <==> (forall|i: int|
            0 <= i < ids.len() ==> 0 <= #[trigger] ids@[i] < vocabulary),
        out matches Ok(scale) ==> (request.options.length_scale matches Some(given) ==> scale
            == given),
        out matches Ok(scale) ==> (request.options.length_scale is None ==> scale.bits
            == 0x3FF0_0000_0000_0000),
{
    assert(all_within(ids@, vocabulary) <==> (forall|i: int|
        0 <= i < ids.len() ==> 0 <= #[trigger] ids@[i] < vocabulary));
}

/// Glow-TTS does what a request says of length, noise and durations, whatever the network. What the
/// request leaves open, the network decides: predicted durations have no noise.
pub proof fn glow_follows_requests(
    request: &SpeechSynthesisRequest,
    contract: Option<&EmbeddingContract>,
    network: &GlowTtsNetworkConfig,
    tokens: usize,
    plan: GlowRequest,
)
    requires
        call_ensures(
            plan_glow,
            (request, contract, network, tokens),
            Ok::<GlowRequest, String>(plan),
        ),
    ensures
        ({
            let options = request.options;
            &&& options.noise_w matches Some(given) ==> plan.duration_noise_scale == given
            &&& options.noise_w is None && network.use_sdp ==> plan.duration_noise_scale
                == network.inference_noise_scale_dp
            &&& options.noise_w is None && !network.use_sdp ==> plan.duration_noise_scale.bits == 0
            &&& options.noise_scale matches Some(given) ==> plan.noise_scale == given
            &&& options.noise_scale is None ==> plan.noise_scale == network.inference_noise_scale
            &&& options.length_scale matches Some(given) ==> plan.length_scale == given
            &&& options.length_scale is None ==> plan.length_scale == network.length_scale
            &&& plan.durations is Some <==> options.durations is Some
            &&& plan.durations matches Some(shape) ==> shape@ == seq![1, tokens]
            &&& plan.conditioning is Some <==> contract is Some
            &&& plan.conditioning matches Some(shape) ==> shape@ == seq![
                1,
                contract.unwrap().dimensions,
                1,
            ]
        }),
{
}

/// Glow-TTS takes a request exactly where there are tokens, the speaker is one that the checkpoint
/// takes, there is a duration for each token if for any, nothing is asked of the pitch, and noise
/// in the durations is asked of a network that draws them.
pub proof fn glow_takes_sound_requests(
    request: &SpeechSynthesisRequest,
    contract: Option<&EmbeddingContract>,
    network: &GlowTtsNetworkConfig,
    tokens: usize,
    speaker: Result<Option<[usize; 3]>, String>,
    out: Result<GlowRequest, String>,
)
    requires
        call_ensures(glow_speaker, (request, contract), speaker),
        call_ensures(plan_glow, (request, contract, network, tokens), out),
    ensures
        out is Ok <==> {
            let options = request.options;
            &&& tokens > 0
            &&& speaker is Ok
            &&& options.durations matches Some(values) ==> values.len() == tokens
            &&& options.pitch is None && options.pitch_scale is None && options.pitch_shift is None
            &&& options.noise_w matches Some(noise) ==> network.use_sdp || (!noise.nan()
                && noise.rank() == 0)
        },
{
}

/// A single-speaker Glow-TTS checkpoint takes requests without a speaker. One that is conditioned on
/// speakers takes a vector, and nothing else, of its own space and width, with finite values.
pub proof fn glow_speakers_are_vectors(
    request: &SpeechSynthesisRequest,
    contract: Option<&EmbeddingContract>,
    out: Result<Option<[usize; 3]>, String>,
)
    requires
        call_ensures(glow_speaker, (request, contract), out),
    ensures
        out is Ok ==> request.plan.speaker is None && request.options.speaker_id is None,
        contract is None ==> (out is Ok <==> request.plan.speaker is None
            && request.options.speaker_id is None && request.plan.speaker_reference is None),
        contract matches Some(expected) ==> (out is Ok <==> request.plan.speaker is None
            && request.options.speaker_id is None && (request.plan.speaker_reference matches Some(
            SpeakerReferenceSource::Embedding { space, values },
        ) && space@ == expected.space@ && values.len() == expected.dimensions && forall|i: int|
            0 <= i < values.len() ==> (#[trigger] values@[i]).finite())),
        out matches Ok(shape) ==> (shape is Some <==> contract is Some),
        out matches Ok(Some(shape)) ==> shape@ == seq![1, contract.unwrap().dimensions, 1],
{
    if let Some(SpeakerReferenceSource::Embedding { space, values }) = request.plan.speaker_reference {
        assert(all_finite(values@) <==> (forall|i: int|
            0 <= i < values.len() ==> (#[trigger] values@[i]).finite()));
    }
}

/// A style is a vector of the checkpoint's own space and width, with finite values; a request
/// without a style is one that any checkpoint takes.
pub proof fn styles_are_vectors(
    request: &SpeechSynthesisRequest,
    contract: Option<&EmbeddingContract>,
    out: Result<Option<[usize; 2]>, String>,
)
    requires
        call_ensures(style_vector, (request, contract), out),
    ensures
        out is Ok <==> (request.plan.style is Some ==> contract is Some && (
        request.plan.style matches Some(StyleSource::Embedding { kind, values }) && kind@
            == contract.unwrap().space@ && values.len() == contract.unwrap().dimensions
            && forall|i: int| 0 <= i < values.len() ==> (#[trigger] values@[i]).finite())),
        out matches Ok(shape) ==> (shape is Some <==> request.plan.style is Some),
        out matches Ok(Some(shape)) ==> shape@ == seq![1, contract.unwrap().dimensions],
{
    if let Some(StyleSource::Embedding { kind, values }) = request.plan.style {
        assert(all_finite(values@) <==> (forall|i: int|
            0 <= i < values.len() ==> (#[trigger] values@[i]).finite()));
    }
}

/// A package goes with its model where the vocabularies are of one size, and where spectrograms are
/// given frame by frame, each as wide as the model emits it.
pub proof fn packages_go_with_models(
    family: AcousticFamily,
    entries: usize,
    expected: usize,
    layout: SpectrogramLayout,
    bins: usize,
    out_channels: usize,
    vocabulary: Result<(), String>,
    spectrogram: Result<(), String>,
)
    requires
        call_ensures(AcousticFamily::check_vocabulary, (family, entries, expected), vocabulary),
        call_ensures(
            AcousticFamily::check_spectrogram,
            (family, layout, bins, out_channels),
            spectrogram,
        ),
    ensures
        vocabulary is Ok <==> entries == expected,
        spectrogram is Ok <==> layout == SpectrogramLayout::FramesByBins && bins == out_channels,
{
}

/// Only DelightfulTTS takes a request for a speaker, and no model takes one that refers to a
/// recording or a vector.
pub proof fn single_speakers_speak_for_themselves(
    family: AcousticFamily,
    request: &SpeechSynthesisRequest,
    out: Result<(), String>,
)
    requires
        call_ensures(AcousticFamily::check_speaker, (family, request), out),
    ensures
        out is Ok <==> request.plan.speaker_reference is None && (family
            == AcousticFamily::DelightfulTts || (request.plan.speaker is None
            && request.options.speaker_id is None)),
{
}

/// Tokens are accepted exactly where each is a number of the vocabulary.
pub proof fn projected_tokens_are_symbols(
    family: AcousticFamily,
    ids: &Vec<i64>,
    vocabulary: usize,
    out: Result<(), String>,
)
    requires
        call_ensures(AcousticFamily::check_projection, (family, ids, vocabulary), out),
    ensures
        out is Ok <==> (forall|i: int|
            0 <= i < ids.len() ==> 0 <= #[trigger] ids@[i] < vocabulary),
{
    assert(all_within(ids@, vocabulary) <==> (forall|i: int|
        0 <= i < ids.len() ==> 0 <= #[trigger] ids@[i] < vocabulary));
}

/// An acoustic model makes spectrograms and leaves the rest to others. Of named speakers only
/// DelightfulTTS knows any, where its checkpoint does.
pub proof fn acoustic_models_leave_the_rest_to_others(
    family: AcousticFamily,
    named_speakers: bool,
    out: SpeechModelCapabilities,
)
    requires
        call_ensures(AcousticFamily::capabilities, (family, named_speakers), out),
    ensures
        out.family == SpeechModelFamily::AcousticModel,
        out.supports_named_speakers <==> family == AcousticFamily::DelightfulTts && named_speakers,
        !out.supports_languages && !out.supports_reference_audio && !out.supports_voice_conversion
            && !out.integrated_vocoder,
{
}

/// The vectors that a checkpoint is conditioned on are those of its own width, where it takes any.
pub proof fn contracts_follow_checkpoints(
    speakers: &DelightfulSpeakerConfig,
    channels: usize,
    capacitron: &Option<CapacitronConfig>,
    delightful: Option<EmbeddingContract>,
    glow: Option<EmbeddingContract>,
    style: Option<EmbeddingContract>,
)
    requires
        call_ensures(delightful_contract, (speakers,), delightful),
        call_ensures(glow_contract, (channels,), glow),
        call_ensures(capacitron_contract, (capacitron,), style),
    ensures
        delightful is Some <==> speakers.use_d_vector_file,
        delightful matches Some(contract) ==> contract.kind == ConditioningKind::Speaker
            && contract.dimensions == speakers.d_vector_dim && contract.l2_normalized
            && contract.space@ == "coqui-delightful-tts-d-vector"@,
        glow is Some <==> channels > 0,
        glow matches Some(contract) ==> contract.kind == ConditioningKind::Speaker
            && contract.dimensions == channels && contract.l2_normalized && contract.space@
            == "coqui-speaker-encoder-d-vector-v1"@,
        style is Some <==> capacitron is Some,
        style matches Some(contract) ==> contract.kind == ConditioningKind::Style
            && contract.dimensions == capacitron.unwrap().embedding_dim && !contract.l2_normalized
            && contract.space@ == "capacitron-standard-normal-latent-v1"@,
{
    if let Some(contract) = delightful {
        assert(contract@.kind == contract.kind && contract@.space == contract.space@);
    }
}

/// The padding symbol is the first character that the configuration gives for it, and its number is
/// the one in the vocabulary.
pub proof fn padding_is_looked_up(
    root: &Json,
    symbol: Result<char, String>,
    id: Option<i64>,
    index: Result<usize, String>,
)
    requires
        call_ensures(padding_symbol, (root,), symbol),
        call_ensures(padding_index, (id,), index),
    ensures
        symbol is Ok <==> root.field("characters"@) is Some && (root.field("characters"@).unwrap().field(
            "pad"@,
        ) matches Some(Json::Text(text)) && text@.len() > 0),
        symbol matches Ok(c) ==> (root.field("characters"@).unwrap().field("pad"@) matches Some(
            Json::Text(text),
        ) && text@[0] == c),
        index is Ok <==> id is Some && 0 <= id.unwrap() <= usize::MAX,
        index matches Ok(number) ==> number == id.unwrap(),
{
}

/// Every family has its own name, and every acoustic model leaves all but perhaps the voices of
/// named speakers to others.
pub proof fn families_have_names(
    family: AcousticFamily,
    named: bool,
    name: &'static str,
    out: SpeechModelCapabilities,
)
    requires
        call_ensures(AcousticFamily::name, (family,), name),
        call_ensures(acoustic_capabilities, (named,), out),
    ensures
        name@ == match family {
            AcousticFamily::SpeedySpeech => "SpeedySpeech"@,
            AcousticFamily::FastPitch => "FastPitch"@,
            AcousticFamily::FastSpeech => "FastSpeech"@,
            AcousticFamily::AlignTts => "Align-TTS"@,
            AcousticFamily::DelightfulTts => "DelightfulTTS"@,
            AcousticFamily::Tacotron2 => "Tacotron"@,
        },
        out.family is AcousticModel,
        out.supports_named_speakers == named,
        !out.supports_languages && !out.supports_reference_audio && !out.supports_voice_conversion
            && !out.integrated_vocoder,
{
}

} // verus!
