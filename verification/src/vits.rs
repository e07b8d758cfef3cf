//! Decisions of an end-to-end VITS engine.
//!
//! The network itself is run elsewhere. What it is built from, which conditioning a request
//! selects, which controls apply and how the waveform is streamed is decided here.

use vstd::prelude::*;

use crate::checkpoint::{LoadReport, Subtree};
use crate::double::Double;
use crate::layers::EmbeddingTable;
use crate::request::{
    choose_control, chosen, EmbeddingContract, EmbeddingModel, SpeakerReferenceSource,
    SpeechModelCapabilities, SpeechModelFamily, SpeechSynthesisRequest, SynthesisOptions,
};
use crate::text::{around_text, decimal, same_text, shape_string, shape_text, with_numbers, with_text};
use crate::vits_decoder::{VitsInferenceConfig, VitsNetworkConfig};

verus! {

/// The most latent frames that a request may expand to.
pub const DEFAULT_MAX_OUTPUT_FRAMES: usize = 65_536;

/// The width of the stochastic duration predictor.
pub const DURATION_CHANNELS: usize = 192;

/// The kernel of the stochastic duration predictor.
pub const DURATION_KERNEL: usize = 3;

/// The coupling steps of the flow.
pub const FLOW_STEPS: usize = 4;

/// A message, or none.
pub open spec fn verdict<T>(out: Result<T, String>, fault: Option<Seq<char>>) -> bool {
    match out {
        Ok(_) => fault is None,
        Err(message) => fault == Some(message@),
    }
}

/// How a model knows its speakers.
#[derive(Debug, Clone, Copy, PartialEq, Eq, Structural)]
pub enum SpeakerMode {
    /// By rows of a learned table.
    Learned,
    /// By vectors from a speaker encoder.
    Vectors,
}

/// The first reason why a network cannot be used by the engine.
pub open spec fn speaker_mode_fault(network: VitsNetworkConfig) -> Option<Seq<char>> {
    if !network.use_sdp {
        Some("this VITS engine requires stochastic durations"@)
    } else if network.use_speaker_embedding == network.use_d_vector_file {
        Some("this VITS engine requires exactly one speaker-conditioning mode"@)
    } else {
        None
    }
}

/// How the network knows its speakers.
pub fn speaker_mode(network: &VitsNetworkConfig) -> (out: Result<SpeakerMode, String>)
    ensures
        verdict(out, speaker_mode_fault(*network)),
        out matches Ok(mode) ==> (mode == SpeakerMode::Learned) == network.use_speaker_embedding,
        out matches Ok(mode) ==> (mode == SpeakerMode::Vectors) == network.use_d_vector_file,
{
    if !network.use_sdp {
        return Err("this VITS engine requires stochastic durations".to_owned());
    }
    if network.use_speaker_embedding == network.use_d_vector_file {
        return Err("this VITS engine requires exactly one speaker-conditioning mode".to_owned());
    }
    if network.use_speaker_embedding {
        Ok(SpeakerMode::Learned)
    } else {
        Ok(SpeakerMode::Vectors)
    }
}

/// A language map is supplied exactly where the network has learned languages.
pub open spec fn language_map_fault(network: VitsNetworkConfig, supplied: bool) -> Option<
    Seq<char>,
> {
    if network.use_language_embedding && !supplied {
        Some("language_ids.json is required for language-conditioned VITS"@)
    } else if !network.use_language_embedding && supplied {
        Some(
            "a language map was supplied to a VITS checkpoint without learned language embeddings"@,
        )
    } else {
        None
    }
}

/// Whether a supplied or absent language map agrees with the network.
pub fn check_language_map(network: &VitsNetworkConfig, supplied: bool) -> (out: Result<(), String>)
    ensures
        verdict(out, language_map_fault(*network, supplied)),
{
    if network.use_language_embedding && !supplied {
        return Err("language_ids.json is required for language-conditioned VITS".to_owned());
    }
    if !network.use_language_embedding && supplied {
        return Err(
            "a language map was supplied to a VITS checkpoint without learned language embeddings".to_owned(),
        );
    }
    Ok(())
}

/// The duration predictor of the engine.
#[derive(Debug, Clone, Copy, PartialEq, Eq, Structural)]
pub struct DurationPlan {
    pub input_channels: usize,
    pub hidden_channels: usize,
    pub kernel_size: usize,
    pub conditioning_channels: usize,
    pub language_conditioning_channels: usize,
}

/// The flow of the engine.
#[derive(Debug, Clone, Copy, PartialEq, Eq, Structural)]
pub struct FlowPlan {
    pub channels: usize,
    pub hidden_channels: usize,
    pub kernel_size: usize,
    pub dilation_rate: usize,
    pub num_layers: usize,
    pub num_flows: usize,
    pub conditioning_channels: usize,
}

/// The parts that an engine is built from.
#[derive(Debug, Clone, Copy, PartialEq, Eq, Structural)]
pub struct VitsParts {
    pub speaker_channels: usize,
    pub speaker_table: Option<EmbeddingTable>,
    pub language_table: Option<EmbeddingTable>,
    pub durations: DurationPlan,
    pub flow: FlowPlan,
    pub sample_rate_hz: u32,
}

/// The channels of a speaker vector.
pub open spec fn speaker_width(network: VitsNetworkConfig) -> usize {
    if network.use_speaker_embedding {
        network.speaker_embedding_channels
    } else {
        network.d_vector_dim
    }
}

/// The parts of a model, given the channels of its text encoder.
pub open spec fn parts_of(
    config: VitsInferenceConfig,
    encoder_channels: usize,
    language_channels: usize,
) -> VitsParts {
    let network = config.network;
    VitsParts {
        speaker_channels: speaker_width(network),
        speaker_table: if network.use_speaker_embedding {
            Some(
                EmbeddingTable {
                    rows: network.num_speakers as usize,
                    channels: speaker_width(network),
                },
            )
        } else {
            None
        },
        language_table: if network.use_language_embedding {
            Some(
                EmbeddingTable {
                    rows: network.num_languages as usize,
                    channels: network.embedded_language_dim,
                },
            )
        } else {
            None
        },
        durations: DurationPlan {
            input_channels: encoder_channels,
            hidden_channels: DURATION_CHANNELS,
            kernel_size: DURATION_KERNEL,
            conditioning_channels: if network.condition_dp_on_speaker {
                speaker_width(network)
            } else {
                0
            },
            language_conditioning_channels: language_channels,
        },
        flow: FlowPlan {
            channels: network.hidden_channels,
            hidden_channels: network.hidden_channels,
            kernel_size: network.kernel_size_flow,
            dilation_rate: network.dilation_rate_flow,
            num_layers: network.num_layers_flow,
            num_flows: FLOW_STEPS,
            conditioning_channels: speaker_width(network),
        },
        sample_rate_hz: config.audio.sample_rate,
    }
}

/// The parts of a model, given the channels of its text encoder.
pub fn plan_parts(config: &VitsInferenceConfig, encoder_channels: usize, language_channels: usize) -> (out:
    VitsParts)
    ensures
        out == parts_of(*config, encoder_channels, language_channels),
{
    let network = &config.network;
    let speaker_channels: usize = if network.use_speaker_embedding {
        network.speaker_embedding_channels
    } else {
        network.d_vector_dim
    };
    let speaker_table = if network.use_speaker_embedding {
        Some(EmbeddingTable { rows: network.num_speakers as usize, channels: speaker_channels })
    } else {
        None
    };
    let language_table = if network.use_language_embedding {
        Some(
            EmbeddingTable {
                rows: network.num_languages as usize,
                channels: network.embedded_language_dim,
            },
        )
    } else {
        None
    };
    VitsParts {
        speaker_channels,
        speaker_table,
        language_table,
        durations: DurationPlan {
            input_channels: encoder_channels,
            hidden_channels: DURATION_CHANNELS,
            kernel_size: DURATION_KERNEL,
            conditioning_channels: if network.condition_dp_on_speaker {
                speaker_channels
            } else {
                0
            },
            language_conditioning_channels: language_channels,
        },
        flow: FlowPlan {
            channels: network.hidden_channels,
            hidden_channels: network.hidden_channels,
            kernel_size: network.kernel_size_flow,
            dilation_rate: network.dilation_rate_flow,
            num_layers: network.num_layers_flow,
            num_flows: FLOW_STEPS,
            conditioning_channels: speaker_channels,
        },
        sample_rate_hz: config.audio.sample_rate,
    }
}

/// A reference encoder emits the vectors that the network expects.
pub open spec fn reference_encoder_fault(network: VitsNetworkConfig, projection_dim: usize) -> Option<
    Seq<char>,
> {
    if !network.use_d_vector_file {
        Some("a reference encoder can only be attached to d-vector VITS"@)
    } else if projection_dim != network.d_vector_dim {
        Some(
            "speaker encoder emits "@ + decimal(projection_dim as nat)
                + " dimensions but VITS expects "@ + decimal(network.d_vector_dim as nat),
        )
    } else {
        None
    }
}

/// Whether a reference encoder can be attached to the network.
pub fn check_reference_encoder(network: &VitsNetworkConfig, projection_dim: usize) -> (out: Result<
    (),
    String,
>)
    ensures
        verdict(out, reference_encoder_fault(*network, projection_dim)),
{
    if !network.use_d_vector_file {
        return Err("a reference encoder can only be attached to d-vector VITS".to_owned());
    }
    if projection_dim != network.d_vector_dim {
        return Err(
            with_numbers(
                "speaker encoder emits ",
                projection_dim,
                " dimensions but VITS expects ",
                network.d_vector_dim,
            ),
        );
    }
    Ok(())
}

/// Whether a checkpoint fits the table of speakers exactly.
pub fn check_speaker_table(report: &LoadReport) -> (out: Result<(), String>)
    ensures
        match out {
            Ok(_) => report.fits(Subtree::SpeakerEmbedding),
            Err(message) => !report.fits(Subtree::SpeakerEmbedding) && message@ == report.counted(
                "speaker embedding subtree does not exactly match the Burn module: "@,
                Subtree::SpeakerEmbedding,
                " load errors, unused ["@,
                "]"@,
            ),
        },
{
    match report.fault_counted(
        "speaker embedding subtree does not exactly match the Burn module: ",
        Subtree::SpeakerEmbedding,
        " load errors, unused [",
        "]",
    ) {
        None => Ok(()),
        Some(message) => Err(message),
    }
}

/// Whether a checkpoint fits the table of languages exactly.
pub fn check_language_table(report: &LoadReport) -> (out: Result<(), String>)
    ensures
        match out {
            Ok(_) => report.fits(Subtree::LanguageEmbedding),
            Err(message) => !report.fits(Subtree::LanguageEmbedding) && message@ == report.counted(
                "language embedding subtree does not exactly match the Burn module: "@,
                Subtree::LanguageEmbedding,
                " load errors, unused ["@,
                "]"@,
            ),
        },
{
    match report.fault_counted(
        "language embedding subtree does not exactly match the Burn module: ",
        Subtree::LanguageEmbedding,
        " load errors, unused [",
        "]",
    ) {
        None => Ok(()),
        Some(message) => Err(message),
    }
}

/// Where the speaker conditioning of a request comes from.
#[derive(Debug, Clone, Copy, PartialEq, Eq, Structural)]
pub enum SpeakerChoice {
    /// The learned table, by the name or number in the request.
    LearnedRow,
    /// The catalog of vectors, by the name in the request.
    Enrollment,
    /// The vector in the request, once normalized.
    Vector,
    /// The recording in the request, by way of the speaker encoder.
    Recording,
}

/// Where the speaker conditioning comes from, or why there is none. An engine has a table of
/// speakers, or a catalog of vectors in the given space, if any, and perhaps an encoder.
pub open spec fn speaker_choice(
    request: SpeechSynthesisRequest,
    learned: bool,
    space: Option<Seq<char>>,
    encoder: bool,
) -> Result<SpeakerChoice, Seq<char>> {
    if learned {
        if request.plan.speaker_reference is Some {
            Err("learned-speaker VITS does not accept a speaker reference"@)
        } else {
            Ok(SpeakerChoice::LearnedRow)
        }
    } else if request.options.speaker_id is Some {
        Err(
            "d-vector VITS consumes a named enrollment or speaker reference, not a numeric speaker ID"@,
        )
    } else if request.plan.speaker is Some && request.plan.speaker_reference is Some {
        Err("choose either a named d-vector enrollment or a speaker reference, not both"@)
    } else if space is None {
        Err("d-vector VITS is missing its declared embedding catalog"@)
    } else if request.plan.speaker is Some {
        Ok(SpeakerChoice::Enrollment)
    } else {
        match request.plan.speaker_reference {
            None => Err("d-vector VITS requires a named enrollment or speaker reference"@),
            Some(SpeakerReferenceSource::Embedding { space: given, .. }) => if given@
                == space.unwrap() {
                Ok(SpeakerChoice::Vector)
            } else {
                Err(
                    "speaker embedding space `"@ + given@ + "` does not match `"@ + space.unwrap()
                        + "`"@,
                )
            },
            Some(SpeakerReferenceSource::ReferenceAudio { .. }) => if encoder {
                Ok(SpeakerChoice::Recording)
            } else {
                Err("reference audio requires the model's native speaker encoder checkpoint"@)
            },
        }
    }
}

/// Where the speaker conditioning of a request comes from.
pub fn choose_speaker(
    request: &SpeechSynthesisRequest,
    learned: bool,
    catalog: Option<&EmbeddingContract>,
    encoder: bool,
) -> (out: Result<SpeakerChoice, String>)
    ensures
        ({
            let space = match catalog {
                Some(contract) => Some(contract.space@),
                None => None,
            };
            match out {
                Ok(choice) => speaker_choice(*request, learned, space, encoder) == Ok::<
                    SpeakerChoice,
                    Seq<char>,
                >(choice),
                Err(message) => speaker_choice(*request, learned, space, encoder) == Err::<
                    SpeakerChoice,
                    Seq<char>,
                >(message@),
            }
        }),
{
    if learned {
        if request.plan.speaker_reference.is_some() {
            return Err("learned-speaker VITS does not accept a speaker reference".to_owned());
        }
        return Ok(SpeakerChoice::LearnedRow);
    }
    if request.options.speaker_id.is_some() {
        return Err(
            "d-vector VITS consumes a named enrollment or speaker reference, not a numeric speaker ID".to_owned(),
        );
    }
    if request.plan.speaker.is_some() && request.plan.speaker_reference.is_some() {
        return Err(
            "choose either a named d-vector enrollment or a speaker reference, not both".to_owned(),
        );
    }
    let expected = match catalog {
        Some(expected) => expected,
        None => {
            return Err("d-vector VITS is missing its declared embedding catalog".to_owned());
        },
    };
    if request.plan.speaker.is_some() {
        return Ok(SpeakerChoice::Enrollment);
    }
    match &request.plan.speaker_reference {
        None => Err("d-vector VITS requires a named enrollment or speaker reference".to_owned()),
        Some(SpeakerReferenceSource::Embedding { space, .. }) => {
            if same_text(space.as_str(), expected.space.as_str()) {
                Ok(SpeakerChoice::Vector)
            } else {
                let mut message = around_text(
                    "speaker embedding space `",
                    space.as_str(),
                    "` does not match `",
                );
                message.append(expected.space.as_str());
                message.append("`");
                Err(message)
            }
        },
        Some(SpeakerReferenceSource::ReferenceAudio { .. }) => {
            if encoder {
                Ok(SpeakerChoice::Recording)
            } else {
                Err(
                    "reference audio requires the model's native speaker encoder checkpoint".to_owned(),
                )
            }
        },
    }
}

/// The first thing against a vector that was found: what its own check says, then that it
/// belongs to another space than the checkpoint expects.
pub open spec fn speaker_vector_fault(
    validated: Result<(), String>,
    found: EmbeddingModel,
    expected: EmbeddingModel,
) -> Option<Seq<char>> {
    match validated {
        Err(message) => Some(message@),
        Ok(_) => if found == expected {
            None
        } else {
            Some("speaker embedding contract does not match this VITS checkpoint"@)
        },
    }
}

/// Whether a vector that was found can stand for a speaker of the checkpoint, where `validated`
/// says what the check of the vector itself found.
pub fn check_speaker_vector(
    validated: Result<(), String>,
    found: &EmbeddingContract,
    expected: &EmbeddingContract,
) -> (out: Result<(), String>)
    ensures
        verdict(out, speaker_vector_fault(validated, found@, expected@)),
{
    if let Err(message) = validated {
        return Err(message);
    }
    if found.kind == expected.kind && same_text(found.space.as_str(), expected.space.as_str())
        && found.dimensions == expected.dimensions && found.l2_normalized
        == expected.l2_normalized {
        Ok(())
    } else {
        Err("speaker embedding contract does not match this VITS checkpoint".to_owned())
    }
}

/// A language is asked for only where the checkpoint has learned languages.
pub open spec fn language_fault(options: SynthesisOptions, learned: bool) -> Option<Seq<char>> {
    if !learned && (options.model_language is Some || options.language_id is Some) {
        Some("this VITS checkpoint does not use learned language embeddings"@)
    } else {
        None
    }
}

/// Whether the language of a request is to be looked up.
pub fn needs_language(options: &SynthesisOptions, learned: bool) -> (out: Result<bool, String>)
    ensures
        verdict(out, language_fault(*options, learned)),
        out matches Ok(needed) ==> needed == learned,
{
    if learned {
        return Ok(true);
    }
    if options.model_language.is_some() || options.language_id.is_some() {
        return Err("this VITS checkpoint does not use learned language embeddings".to_owned());
    }
    Ok(false)
}

/// The noise of the durations.
pub fn duration_noise(network: &VitsNetworkConfig, options: &SynthesisOptions) -> (out: Result<
    Double,
    String,
>)
    ensures
        ({
            let noise = chosen(options.noise_w, network.inference_noise_scale_dp);
            match out {
                Ok(scale) => scale == noise && noise.finite_non_negative(),
                Err(message) => !noise.finite_non_negative() && message@
                    == "duration noise scale must be finite and non-negative"@,
            }
        }),
{
    let noise = choose_control(options.noise_w, network.inference_noise_scale_dp);
    if !noise.is_finite_non_negative() {
        return Err("duration noise scale must be finite and non-negative".to_owned());
    }
    Ok(noise)
}

/// The noise of the latent features.
pub fn latent_noise(network: &VitsNetworkConfig, options: &SynthesisOptions) -> (out: Result<
    Double,
    String,
>)
    ensures
        ({
            let noise = chosen(options.noise_scale, network.inference_noise_scale);
            match out {
                Ok(scale) => scale == noise && noise.finite_non_negative(),
                Err(message) => !noise.finite_non_negative() && message@
                    == "latent noise scale must be finite and non-negative"@,
            }
        }),
{
    let noise = choose_control(options.noise_scale, network.inference_noise_scale);
    if !noise.is_finite_non_negative() {
        return Err("latent noise scale must be finite and non-negative".to_owned());
    }
    Ok(noise)
}

/// The stretch of the durations.
pub fn length_scale(network: &VitsNetworkConfig, options: &SynthesisOptions) -> (out: Double)
    ensures
        out == chosen(options.length_scale, network.length_scale),
{
    choose_control(options.length_scale, network.length_scale)
}

/// The seed after the given one. The highest is followed by zero.
pub open spec fn next_seed(seed: u64) -> u64 {
    if seed == u64::MAX {
        0
    } else {
        (seed + 1) as u64
    }
}

/// The seed of the latent noise, apart from that of the durations.
pub fn latent_seed(seed: Option<u64>) -> (out: Option<u64>)
    ensures
        out == (match seed {
            Some(value) => Some(next_seed(value)),
            None => None,
        }),
{
    match seed {
        Some(value) => Some(value.wrapping_add(1)),
        None => None,
    }
}

/// The noise of durations and of latent features never shares a seed.
pub proof fn seeds_differ(seed: u64)
    ensures
        next_seed(seed) != seed,
{
}

/// The latent frames that are decoded: no more than the network allows.
pub fn decoded_frames(network: &VitsNetworkConfig, frames: usize) -> (out: usize)
    ensures
        out == (match network.max_inference_len {
            Some(most) => if most < frames {
                most
            } else {
                frames
            },
            None => frames,
        }),
{
    match network.max_inference_len {
        Some(most) => {
            if most < frames {
                most
            } else {
                frames
            }
        },
        None => frames,
    }
}

/// A single waveform can be streamed.
pub fn check_stream_batch(batch: usize) -> (out: Result<(), String>)
    ensures
        verdict(
            out,
            if batch == 1 {
                None
            } else {
                Some("streaming VITS currently requires batch size one"@)
            },
        ),
{
    if batch != 1 {
        return Err("streaming VITS currently requires batch size one".to_owned());
    }
    Ok(())
}

/// Whether a decoded waveform has one channel and one hop of samples per latent frame.
pub fn check_decoded(decoded: &[usize; 3], batch: usize, frames: usize, upsample: usize) -> (out: Result<
    (),
    String,
>)
    requires
        frames * upsample <= usize::MAX,
    ensures
        ({
            let expected = seq![batch, 1, (frames * upsample) as usize];
            match out {
                Ok(_) => decoded@ == expected,
                Err(message) => decoded@ != expected && message@ == "VITS decoder emitted "@
                    + shape_text(decoded@) + "; expected "@ + shape_text(expected),
            }
        }),
{
    let expected: [usize; 3] = [batch, 1, frames * upsample];
    assert(expected@ =~= seq![batch, 1, (frames * upsample) as usize]);
    let same = decoded[0] == expected[0] && decoded[1] == expected[1] && decoded[2] == expected[2];
    assert(same == (decoded@ =~= expected@));
    if !same {
        let mut message = with_text(
            "VITS decoder emitted ",
            shape_string(decoded.as_slice()).as_str(),
        );
        message.append("; expected ");
        message.append(shape_string(expected.as_slice()).as_str());
        return Err(message);
    }
    Ok(())
}

/// What the engine can do.
pub fn capabilities(languages: bool, reference_encoder: bool) -> (out: SpeechModelCapabilities)
    ensures
        out == (SpeechModelCapabilities {
            family: SpeechModelFamily::EndToEndSpeech,
            supports_named_speakers: true,
            supports_languages: languages,
            supports_reference_audio: reference_encoder,
            supports_voice_conversion: false,
            integrated_vocoder: true,
        }),
{
    SpeechModelCapabilities {
        family: SpeechModelFamily::EndToEndSpeech,
        supports_named_speakers: true,
        supports_languages: languages,
        supports_reference_audio: reference_encoder,
        supports_voice_conversion: false,
        integrated_vocoder: true,
    }
}

/// A network that the engine accepts has one width for its speakers, which the decoder, the flow
/// and, where they listen, the durations share.
pub proof fn speaker_widths_agree(config: VitsInferenceConfig, encoder: usize, language: usize)
    requires
        speaker_mode_fault(config.network) is None,
    ensures
        ({
            let parts = parts_of(config, encoder, language);
            &&& config.network.generator().cond_channels == parts.speaker_channels
            &&& parts.flow.conditioning_channels == parts.speaker_channels
            &&& parts.durations.conditioning_channels == 0
                || parts.durations.conditioning_channels == parts.speaker_channels
            &&& parts.speaker_table is Some ==> parts.speaker_table.unwrap().channels
                == parts.speaker_channels
        }),
{
}

/// A checkpoint with learned speakers takes every request that has no speaker reference, whatever
/// name or number it carries, and answers it from its table; nothing else is answered from one.
pub proof fn learned_speakers_come_from_the_table(
    request: &SpeechSynthesisRequest,
    learned: bool,
    catalog: Option<&EmbeddingContract>,
    encoder: bool,
    out: Result<SpeakerChoice, String>,
)
    requires
        call_ensures(choose_speaker, (request, learned, catalog, encoder), out),
    ensures
        out == Ok::<SpeakerChoice, String>(SpeakerChoice::LearnedRow) <==> learned
            && request.plan.speaker_reference is None,
        learned ==> (out is Ok <==> request.plan.speaker_reference is None),
{
}

/// A checkpoint that knows speakers by vectors takes a name, a vector or a recording, one of them
/// and no number: a name is looked up in the catalog, a vector has to lie in the catalog's space,
/// and a recording needs an encoder.
pub proof fn vectors_come_from_one_source(
    request: &SpeechSynthesisRequest,
    catalog: Option<&EmbeddingContract>,
    encoder: bool,
    out: Result<SpeakerChoice, String>,
)
    requires
        call_ensures(choose_speaker, (request, false, catalog, encoder), out),
    ensures
        out is Ok ==> request.options.speaker_id is None && catalog is Some,
        out == Ok::<SpeakerChoice, String>(SpeakerChoice::Enrollment)
            <==> request.options.speaker_id is None && catalog is Some && request.plan.speaker is Some
            && request.plan.speaker_reference is None,
        out == Ok::<SpeakerChoice, String>(SpeakerChoice::Vector)
            <==> request.options.speaker_id is None && request.plan.speaker is None
            && catalog is Some && (request.plan.speaker_reference matches Some(
            SpeakerReferenceSource::Embedding { space, values },
        ) && space@ == catalog.unwrap().space@),
        out == Ok::<SpeakerChoice, String>(SpeakerChoice::Recording)
            <==> request.options.speaker_id is None && request.plan.speaker is None
            && catalog is Some && encoder && (request.plan.speaker_reference matches Some(
            SpeakerReferenceSource::ReferenceAudio { uri },
        )),
{
}

/// The engine takes networks with drawn durations that know their speakers in exactly one way, and
/// knows them in that way.
pub proof fn speakers_are_known_in_one_way(
    network: &VitsNetworkConfig,
    out: Result<SpeakerMode, String>,
)
    requires
        call_ensures(speaker_mode, (network,), out),
    ensures
        out == Ok::<SpeakerMode, String>(SpeakerMode::Learned) <==> network.use_sdp
            && network.use_speaker_embedding && !network.use_d_vector_file,
        out == Ok::<SpeakerMode, String>(SpeakerMode::Vectors) <==> network.use_sdp
            && network.use_d_vector_file && !network.use_speaker_embedding,
{
}

/// A map of languages goes with learned languages, and only with them.
pub proof fn language_maps_go_with_languages(
    network: &VitsNetworkConfig,
    supplied: bool,
    out: Result<(), String>,
)
    requires
        call_ensures(check_language_map, (network, supplied), out),
    ensures
        out is Ok <==> supplied == network.use_language_embedding,
{
}

/// The parts of a network: the tables that it has learned, with a row for each speaker and each
/// language, and the widths that its own configuration gives.
pub proof fn parts_follow_the_network(
    config: &VitsInferenceConfig,
    encoder_channels: usize,
    language_channels: usize,
    parts: VitsParts,
)
    requires
        call_ensures(plan_parts, (config, encoder_channels, language_channels), parts),
    ensures
        ({
            let network = config.network;
            &&& network.use_speaker_embedding ==> parts.speaker_channels
                == network.speaker_embedding_channels
            &&& !network.use_speaker_embedding ==> parts.speaker_channels == network.d_vector_dim
            &&& parts.speaker_table is Some <==> network.use_speaker_embedding
            &&& parts.speaker_table matches Some(table) ==> table.rows == network.num_speakers
                && table.channels == network.speaker_embedding_channels
            &&& parts.language_table is Some <==> network.use_language_embedding
            &&& parts.language_table matches Some(table) ==> table.rows == network.num_languages
                && table.channels == network.embedded_language_dim
            &&& parts.durations.input_channels == encoder_channels
            &&& parts.durations.language_conditioning_channels == language_channels
            &&& parts.durations.hidden_channels == 192 && parts.durations.kernel_size == 3
            &&& network.condition_dp_on_speaker ==> parts.durations.conditioning_channels
                == parts.speaker_channels
            &&& !network.condition_dp_on_speaker ==> parts.durations.conditioning_channels == 0
            &&& parts.flow.channels == network.hidden_channels
            &&& parts.flow.hidden_channels == network.hidden_channels
            &&& parts.flow.kernel_size == network.kernel_size_flow
            &&& parts.flow.dilation_rate == network.dilation_rate_flow
            &&& parts.flow.num_layers == network.num_layers_flow
            &&& parts.flow.num_flows == 4
            &&& parts.flow.conditioning_channels == parts.speaker_channels
            &&& parts.sample_rate_hz == config.audio.sample_rate
        }),
{
}

/// An encoder of recordings goes with a network that takes vectors, of the width it emits.
pub proof fn encoders_emit_what_networks_take(
    network: &VitsNetworkConfig,
    projection_dim: usize,
    out: Result<(), String>,
)
    requires
        call_ensures(check_reference_encoder, (network, projection_dim), out),
    ensures
        out is Ok <==> network.use_d_vector_file && network.d_vector_dim == projection_dim,
{
}

/// A vector stands for a speaker exactly where its own check passed and it is of the kind, in the
/// space, of the width and of the length that the checkpoint expects.
pub proof fn vectors_agree_in_every_respect(
    validated: Result<(), String>,
    found: &EmbeddingContract,
    expected: &EmbeddingContract,
    out: Result<(), String>,
)
    requires
        call_ensures(check_speaker_vector, (validated, found, expected), out),
    ensures
        out is Ok <==> validated is Ok && found.kind == expected.kind && found.space@
            == expected.space@ && found.dimensions == expected.dimensions && found.l2_normalized
            == expected.l2_normalized,
        validated is Err ==> out is Err && out->Err_0@ == validated->Err_0@,
{
    if validated is Ok && found.kind == expected.kind && found.space@ == expected.space@
        && found.dimensions == expected.dimensions && found.l2_normalized
        == expected.l2_normalized {
        assert(found@ =~= expected@);
    }
}

/// A language is looked up where a checkpoint has learned languages; where it has none, a request
/// that asks for one is refused.
pub proof fn languages_are_asked_for_where_known(
    options: &SynthesisOptions,
    learned: bool,
    out: Result<bool, String>,
)
    requires
        call_ensures(needs_language, (options, learned), out),
    ensures
        out is Err <==> !learned && (options.model_language is Some || options.language_id is Some),
        out matches Ok(needed) ==> needed == learned,
{
}

/// What a request says about noise and length holds; what it leaves open, the network decides. Noise
/// that is not a number, infinite or negative is refused, whoever asks for it.
pub proof fn requests_override_the_network(
    network: &VitsNetworkConfig,
    options: &SynthesisOptions,
    durations: Result<Double, String>,
    latent: Result<Double, String>,
    length: Double,
)
    requires
        call_ensures(duration_noise, (network, options), durations),
        call_ensures(latent_noise, (network, options), latent),
        call_ensures(length_scale, (network, options), length),
    ensures
        ({
            let w = if options.noise_w is Some {
                options.noise_w.unwrap()
            } else {
                network.inference_noise_scale_dp
            };
            let z = if options.noise_scale is Some {
                options.noise_scale.unwrap()
            } else {
                network.inference_noise_scale
            };
            &&& durations is Ok <==> w.finite() && w.rank() >= 0
            &&& durations matches Ok(noise) ==> noise == w
            &&& latent is Ok <==> z.finite() && z.rank() >= 0
            &&& latent matches Ok(noise) ==> noise == z
            &&& options.length_scale matches Some(given) ==> length == given
            &&& options.length_scale is None ==> length == network.length_scale
        }),
{
}

/// A request without a seed leaves the latent noise without one. Of a seed comes the next, counted
/// in a circle, so that different requests never share latent noise.
pub proof fn latent_seeds_are_apart(
    seed: Option<u64>,
    other: Option<u64>,
    out: Option<u64>,
    other_out: Option<u64>,
)
    requires
        call_ensures(latent_seed, (seed,), out),
        call_ensures(latent_seed, (other,), other_out),
    ensures
        out is Some <==> seed is Some,
        seed matches Some(value) ==> (out.unwrap() == value + 1 || (value == u64::MAX
            && out.unwrap() == 0)),
        out == other_out ==> seed == other,
{
}

/// As many frames are decoded as there are, up to the most that the network allows.
pub proof fn frames_are_decoded_up_to_a_bound(
    network: &VitsNetworkConfig,
    frames: usize,
    out: usize,
)
    requires
        call_ensures(decoded_frames, (network, frames), out),
    ensures
        out <= frames,
        network.max_inference_len matches Some(most) ==> out <= most,
        out < frames ==> network.max_inference_len == Some(out),
{
}

/// Only a single waveform is streamed, and only one with the samples that its frames ask for.
pub proof fn one_whole_waveform_is_streamed(
    decoded: &[usize; 3],
    batch: usize,
    frames: usize,
    upsample: usize,
    single: Result<(), String>,
    out: Result<(), String>,
)
    requires
        frames * upsample <= usize::MAX,
        call_ensures(check_stream_batch, (batch,), single),
        call_ensures(check_decoded, (decoded, batch, frames, upsample), out),
    ensures
        single is Ok <==> batch == 1,
        out is Ok <==> decoded@[0] == batch && decoded@[1] == 1 && decoded@[2] == frames * upsample,
{
    assert(0 <= frames * upsample) by (nonlinear_arith);
    if decoded@[0] == batch && decoded@[1] == 1 && decoded@[2] == frames * upsample {
        assert(decoded@ =~= seq![batch, 1, (frames * upsample) as usize]);
    }
}

/// An engine speaks by itself with the voices it knows, in languages where it has learned any, and
/// in the voice of a recording where it has an encoder.
pub proof fn engines_say_what_they_can_do(
    languages: bool,
    reference_encoder: bool,
    out: SpeechModelCapabilities,
)
    requires
        call_ensures(capabilities, (languages, reference_encoder), out),
    ensures
        out.family == SpeechModelFamily::EndToEndSpeech && out.integrated_vocoder,
        out.supports_named_speakers && !out.supports_voice_conversion,
        out.supports_languages == languages,
        out.supports_reference_audio == reference_encoder,
{
}

/// A table of speakers or of languages is loaded exactly where every path of its subtree came
/// through and nothing was left over.
pub proof fn tables_are_loaded_whole(
    report: &LoadReport,
    speakers: Result<(), String>,
    languages: Result<(), String>,
)
    requires
        call_ensures(check_speaker_table, (report,), speakers),
        call_ensures(check_language_table, (report,), languages),
    ensures
        speakers is Ok <==> report.fits(Subtree::SpeakerEmbedding),
        languages is Ok <==> report.fits(Subtree::LanguageEmbedding),
{
}

} // verus!
