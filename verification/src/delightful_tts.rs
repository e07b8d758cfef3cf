//! DelightfulTTS: Conformer stacks with predicted durations, pitch, energy and prosody.

use vstd::prelude::*;

use crate::checkpoint::LoadReport;
use crate::double::Double;
use crate::expansion::{paired, Attention};
use crate::fast_pitch::{
    check_durations, check_variance, durations_fault, expansion_fault, variance_fault,
};
use crate::fastspeech::{
    check_scale_and_shift, scale_and_shift_fault, EnergyCapabilities, PitchCapabilities,
};
use crate::json::first;
use crate::layers::{
    centered, centered_conv, odd, pointwise, pointwise_conv, Conv,
    EmbeddingTable, LinearLayer,
};
use crate::speedy_speech::{
    aligned_with, attend_by_durations, expand_by_durations, requested_frames, Expanded,
    SpeedySpeechError,
};
use crate::text::{
    around_text, decimal, decimal_text, shape_string, shape_text, signed_decimal,
    signed_decimal_text, with_numbers, with_text,
};
use crate::tokens::{
    highest, highest_within, outside_vocabulary, vocabulary_fault, TokenBatch,
};

verus! {

/// Errors of DelightfulTTS configurations, inputs and checkpoints.
#[derive(Debug, Clone, PartialEq, Eq)]
pub enum DelightfulTtsError {
    InvalidConfig(String),
    InvalidInput(String),
    Checkpoint(String),
}

impl DelightfulTtsError {
    pub open spec fn described(self) -> Seq<char> {
        match self {
            DelightfulTtsError::InvalidConfig(message) => "invalid DelightfulTTS config: "@ + message@,
            DelightfulTtsError::InvalidInput(message) => "invalid DelightfulTTS input: "@ + message@,
            DelightfulTtsError::Checkpoint(message) => "unable to load DelightfulTTS checkpoint: "@ + message@,
        }
    }

    /// The error in words.
    pub fn describe(&self) -> (out: String)
        ensures
            out@ == self.described(),
    {
        match self {
            DelightfulTtsError::InvalidConfig(message) => with_text(
                "invalid DelightfulTTS config: ",
                message.as_str(),
            ),
            DelightfulTtsError::InvalidInput(message) => with_text(
                "invalid DelightfulTTS input: ",
                message.as_str(),
            ),
            DelightfulTtsError::Checkpoint(message) => with_text(
                "unable to load DelightfulTTS checkpoint: ",
                message.as_str(),
            ),
        }
    }
}

/// The outcome is an accepted configuration, or the given fault.
pub open spec fn config_verdict<T>(out: Result<T, DelightfulTtsError>, fault: Option<Seq<char>>) -> bool {
    match out {
        Ok(_) => fault is None,
        Err(DelightfulTtsError::InvalidConfig(message)) => fault == Some(message@),
        Err(_) => false,
    }
}

/// The outcome is an accepted input, or the given fault.
pub open spec fn input_verdict<T>(out: Result<T, DelightfulTtsError>, fault: Option<Seq<char>>) -> bool {
    match out {
        Ok(_) => fault is None,
        Err(DelightfulTtsError::InvalidInput(message)) => fault == Some(message@),
        Err(_) => false,
    }
}

fn config_error<T>(message: String) -> (out: Result<T, DelightfulTtsError>)
    ensures
        out == Err::<T, DelightfulTtsError>(DelightfulTtsError::InvalidConfig(message)),
{
    Err(DelightfulTtsError::InvalidConfig(message))
}

fn input_error<T>(message: String) -> (out: Result<T, DelightfulTtsError>)
    ensures
        out == Err::<T, DelightfulTtsError>(DelightfulTtsError::InvalidInput(message)),
{
    Err(DelightfulTtsError::InvalidInput(message))
}

/// Parameters of one Conformer stack.
#[derive(Debug, Clone, Copy, PartialEq, Eq, Structural)]
pub struct DelightfulConformerConfig {
    pub hidden_channels: usize,
    pub layers: usize,
    pub heads: usize,
    pub convolution_kernel_size: usize,
}

/// Parameters of the predictors of durations, pitch and energy.
#[derive(Debug, Clone, Copy, PartialEq, Eq, Structural)]
pub struct DelightfulVarianceConfig {
    pub hidden_channels: usize,
    pub kernel_size: usize,
    pub embedding_kernel_size: usize,
}

/// Parameters of the predictors of prosody.
#[derive(Debug, Clone, Copy, PartialEq, Eq, Structural)]
pub struct DelightfulProsodyConfig {
    pub utterance_bottleneck: usize,
    pub phoneme_bottleneck: usize,
    pub predictor_kernel_size: usize,
}

/// How a checkpoint knows its speakers.
#[derive(Debug, Clone, Copy, PartialEq, Eq, Structural)]
pub struct DelightfulSpeakerConfig {
    pub num_speakers: usize,
    pub use_speaker_embedding: bool,
    pub speaker_embedding_channels: usize,
    pub use_d_vector_file: bool,
    pub d_vector_dim: usize,
}

impl DelightfulSpeakerConfig {
    /// The channels of the speaker conditioning, if there is any.
    pub open spec fn conditioning_width(self) -> Option<usize> {
        if self.use_speaker_embedding {
            Some(self.speaker_embedding_channels)
        } else if self.use_d_vector_file {
            Some(self.d_vector_dim)
        } else {
            None
        }
    }

    pub fn conditioning_dimensions(&self) -> (out: Option<usize>)
        ensures
            out == self.conditioning_width(),
    {
        if self.use_speaker_embedding {
            Some(self.speaker_embedding_channels)
        } else if self.use_d_vector_file {
            Some(self.d_vector_dim)
        } else {
            None
        }
    }
}

/// Parameters of a DelightfulTTS model.
#[derive(Debug, Clone, Copy, PartialEq, Eq, Structural)]
pub struct DelightfulTtsConfig {
    pub num_chars: usize,
    pub out_channels: usize,
    pub encoder: DelightfulConformerConfig,
    pub decoder: DelightfulConformerConfig,
    pub variance: DelightfulVarianceConfig,
    pub prosody: DelightfulProsodyConfig,
    pub speakers: DelightfulSpeakerConfig,
    pub leaky_relu_slope: Double,
    pub length_scale: Double,
    pub max_duration: usize,
    pub max_output_frames: usize,
}

impl DelightfulTtsConfig {
    /// All that can be asked about pitch.
    pub fn pitch_capabilities(&self) -> (out: PitchCapabilities)
        ensures
            out == (PitchCapabilities { scale: true, shift: true, explicit_values: true }),
    {
        PitchCapabilities { scale: true, shift: true, explicit_values: true }
    }

    /// All that can be asked about energy.
    pub fn energy_capabilities(&self) -> (out: EnergyCapabilities)
        ensures
            out == (EnergyCapabilities { scale: true, shift: true, explicit_values: true }),
    {
        EnergyCapabilities { scale: true, shift: true, explicit_values: true }
    }

    /// Durations can be fixed.
    pub fn supports_explicit_durations(&self) -> (out: bool)
        ensures
            out,
    {
        true
    }
}

/// A pointwise convolution followed by a depthwise one.
#[derive(Debug, Clone, Copy, PartialEq, Eq, Structural)]
pub struct SeparableConv {
    pub pointwise: Conv,
    pub depthwise: Conv,
}

pub open spec fn separable(channels_in: usize, channels_out: usize, kernel_size: usize) -> SeparableConv {
    SeparableConv {
        pointwise: pointwise(channels_in, channels_out),
        depthwise: centered(channels_out, channels_out, kernel_size),
    }
}

fn separable_conv(channels_in: usize, channels_out: usize, kernel_size: usize) -> (out: SeparableConv)
    ensures
        out == separable(channels_in, channels_out, kernel_size),
{
    SeparableConv {
        pointwise: pointwise_conv(channels_in, channels_out),
        depthwise: centered_conv(channels_out, channels_out, kernel_size),
    }
}

/// The layers that mix a speaker vector into a Conformer block.
#[derive(Debug, Clone, Copy, PartialEq, Eq, Structural)]
pub struct ConditioningLayers {
    pub conv: SeparableConv,
    pub embedding_proj: LinearLayer,
}

/// The convolution module of a Conformer block.
#[derive(Debug, Clone, Copy, PartialEq, Eq, Structural)]
pub struct ConvolutionModule {
    pub conv_1: Conv,
    pub depthwise: Conv,
    pub conv_2: Conv,
    pub inner_channels: usize,
}

/// The layers of a Conformer block.
#[derive(Debug, Clone, Copy, PartialEq, Eq, Structural)]
pub struct ConformerBlock {
    pub conditioning: Option<ConditioningLayers>,
    pub feed_forward_in: Conv,
    pub feed_forward_out: Conv,
    pub convolution: ConvolutionModule,
    pub heads: usize,
    pub channels_per_head: usize,
}

/// A stack of equal blocks.
#[derive(Debug, Clone, Copy, PartialEq, Eq, Structural)]
pub struct ConformerLayers {
    pub layers: usize,
    pub block: ConformerBlock,
}

impl DelightfulConformerConfig {
    /// The layer sizes are representable and the heads can be told apart.
    pub open spec fn buildable(self) -> bool {
        4 * self.hidden_channels <= usize::MAX && self.heads > 0
    }

    /// The layers of the stack.
    pub open spec fn stack(self, conditioning: Option<usize>) -> ConformerLayers {
        let channels = self.hidden_channels;
        let inner = (2 * channels) as usize;
        let outer = (4 * channels) as usize;
        ConformerLayers {
            layers: self.layers,
            block: ConformerBlock {
                conditioning: match conditioning {
                    Some(width) => Some(
                        ConditioningLayers {
                            conv: separable(channels, inner, self.convolution_kernel_size),
                            embedding_proj: LinearLayer {
                                channels_in: width,
                                channels_out: channels,
                                bias: true,
                            },
                        },
                    ),
                    None => None,
                },
                feed_forward_in: centered(channels, outer, 3),
                feed_forward_out: pointwise(outer, channels),
                convolution: ConvolutionModule {
                    conv_1: pointwise(channels, outer),
                    depthwise: centered(inner, inner, self.convolution_kernel_size),
                    conv_2: pointwise(inner, channels),
                    inner_channels: inner,
                },
                heads: self.heads,
                channels_per_head: channels / self.heads,
            },
        }
    }

    fn stack_layers(&self, conditioning: Option<usize>) -> (out: ConformerLayers)
        requires
            self.buildable(),
        ensures
            out == self.stack(conditioning),
    {
        let channels: usize = self.hidden_channels;
        let inner: usize = 2 * channels;
        let outer: usize = 4 * channels;
        let gate = match conditioning {
            Some(width) => Some(
                ConditioningLayers {
                    conv: separable_conv(channels, inner, self.convolution_kernel_size),
                    embedding_proj: LinearLayer {
                        channels_in: width,
                        channels_out: channels,
                        bias: true,
                    },
                },
            ),
            None => None,
        };
        ConformerLayers {
            layers: self.layers,
            block: ConformerBlock {
                conditioning: gate,
                feed_forward_in: centered_conv(channels, outer, 3),
                feed_forward_out: pointwise_conv(outer, channels),
                convolution: ConvolutionModule {
                    conv_1: pointwise_conv(channels, outer),
                    depthwise: centered_conv(inner, inner, self.convolution_kernel_size),
                    conv_2: pointwise_conv(inner, channels),
                    inner_channels: inner,
                },
                heads: self.heads,
                channels_per_head: channels / self.heads,
            },
        }
    }
}

/// Two separable convolutions and a projection.
#[derive(Debug, Clone, Copy, PartialEq, Eq, Structural)]
pub struct PredictorLayers {
    pub conv_1: SeparableConv,
    pub conv_2: SeparableConv,
    pub projection: LinearLayer,
}

pub open spec fn predictor(
    channels_in: usize,
    hidden_channels: usize,
    channels_out: usize,
    kernel_size: usize,
) -> PredictorLayers {
    PredictorLayers {
        conv_1: separable(channels_in, hidden_channels, kernel_size),
        conv_2: separable(hidden_channels, hidden_channels, kernel_size),
        projection: LinearLayer { channels_in: hidden_channels, channels_out, bias: true },
    }
}

fn predictor_layers(
    channels_in: usize,
    hidden_channels: usize,
    channels_out: usize,
    kernel_size: usize,
) -> (out: PredictorLayers)
    ensures
        out == predictor(channels_in, hidden_channels, channels_out, kernel_size),
{
    PredictorLayers {
        conv_1: separable_conv(channels_in, hidden_channels, kernel_size),
        conv_2: separable_conv(hidden_channels, hidden_channels, kernel_size),
        projection: LinearLayer { channels_in: hidden_channels, channels_out, bias: true },
    }
}

/// The layers of a DelightfulTTS model.
#[derive(Debug, Clone, Copy, PartialEq, Eq, Structural)]
pub struct DelightfulTopology {
    pub embedding: EmbeddingTable,
    pub padding_id: usize,
    pub encoder: ConformerLayers,
    pub decoder: ConformerLayers,
    pub variance_predictor: PredictorLayers,
    pub variance_embedding: Conv,
    pub duration_predictor: PredictorLayers,
    pub utterance_prosody_predictor: PredictorLayers,
    pub phoneme_prosody_predictor: PredictorLayers,
    pub utterance_out: LinearLayer,
    pub phoneme_out: LinearLayer,
    pub to_mel: LinearLayer,
    pub speaker_table: Option<EmbeddingTable>,
}

impl DelightfulTtsConfig {
    /// The layer sizes are representable.
    pub open spec fn buildable(self) -> bool {
        self.encoder.buildable() && self.decoder.buildable()
    }

    /// The layers of the model.
    pub open spec fn built(self, padding_id: usize) -> DelightfulTopology {
        let channels = self.encoder.hidden_channels;
        let width = self.speakers.conditioning_width();
        DelightfulTopology {
            embedding: EmbeddingTable { rows: self.num_chars, channels },
            padding_id,
            encoder: self.encoder.stack(width),
            decoder: self.decoder.stack(width),
            variance_predictor: predictor(
                channels,
                self.variance.hidden_channels,
                1,
                self.variance.kernel_size,
            ),
            variance_embedding: centered(1, channels, self.variance.embedding_kernel_size),
            duration_predictor: predictor(
                channels,
                self.variance.hidden_channels,
                1,
                self.variance.kernel_size,
            ),
            utterance_prosody_predictor: predictor(
                channels,
                channels,
                self.prosody.utterance_bottleneck,
                self.prosody.predictor_kernel_size,
            ),
            phoneme_prosody_predictor: predictor(
                channels,
                channels,
                self.prosody.phoneme_bottleneck,
                self.prosody.predictor_kernel_size,
            ),
            utterance_out: LinearLayer {
                channels_in: self.prosody.utterance_bottleneck,
                channels_out: channels,
                bias: true,
            },
            phoneme_out: LinearLayer {
                channels_in: self.prosody.phoneme_bottleneck,
                channels_out: channels,
                bias: true,
            },
            to_mel: LinearLayer {
                channels_in: self.decoder.hidden_channels,
                channels_out: self.out_channels,
                bias: true,
            },
            speaker_table: if self.speakers.use_speaker_embedding {
                Some(
                    EmbeddingTable {
                        rows: self.speakers.num_speakers,
                        channels: self.speakers.speaker_embedding_channels,
                    },
                )
            } else {
                None
            },
        }
    }

    /// The padding symbol is in the vocabulary.
    pub open spec fn padding_fault(self, padding_id: usize) -> Option<Seq<char>> {
        if padding_id >= self.num_chars {
            Some(
                "padding ID "@ + decimal(padding_id as nat) + " is outside vocabulary 0.."@
                    + decimal(self.num_chars as nat),
            )
        } else {
            None
        }
    }

    /// The layers of the model, given the verdict on the rest of its configuration.
    pub fn topology(&self, padding_id: usize, checked: Result<(), String>) -> (out: Result<
        DelightfulTopology,
        DelightfulTtsError,
    >)
        requires
            checked is Ok ==> self.buildable(),
        ensures
            match checked {
                Err(reason) => out == Err::<DelightfulTopology, DelightfulTtsError>(
                    DelightfulTtsError::InvalidConfig(reason),
                ),
                Ok(_) => config_verdict(out, self.padding_fault(padding_id)) && (out matches Ok(
                    topology,
                ) ==> topology == self.built(padding_id)),
            },
    {
        if let Err(reason) = checked {
            return Err(DelightfulTtsError::InvalidConfig(reason));
        }
        if padding_id >= self.num_chars {
            return config_error(
                with_numbers(
                    "padding ID ",
                    padding_id,
                    " is outside vocabulary 0..",
                    self.num_chars,
                ),
            );
        }
        let channels: usize = self.encoder.hidden_channels;
        let width = self.speakers.conditioning_dimensions();
        let speaker_table = if self.speakers.use_speaker_embedding {
            Some(
                EmbeddingTable {
                    rows: self.speakers.num_speakers,
                    channels: self.speakers.speaker_embedding_channels,
                },
            )
        } else {
            None
        };
        let variance = predictor_layers(
            channels,
            self.variance.hidden_channels,
            1,
            self.variance.kernel_size,
        );
        Ok(
            DelightfulTopology {
                embedding: EmbeddingTable { rows: self.num_chars, channels },
                padding_id,
                encoder: self.encoder.stack_layers(width),
                decoder: self.decoder.stack_layers(width),
                variance_predictor: variance,
                variance_embedding: centered_conv(
                    1,
                    channels,
                    self.variance.embedding_kernel_size,
                ),
                duration_predictor: variance,
                utterance_prosody_predictor: predictor_layers(
                    channels,
                    channels,
                    self.prosody.utterance_bottleneck,
                    self.prosody.predictor_kernel_size,
                ),
                phoneme_prosody_predictor: predictor_layers(
                    channels,
                    channels,
                    self.prosody.phoneme_bottleneck,
                    self.prosody.predictor_kernel_size,
                ),
                utterance_out: LinearLayer {
                    channels_in: self.prosody.utterance_bottleneck,
                    channels_out: channels,
                    bias: true,
                },
                phoneme_out: LinearLayer {
                    channels_in: self.prosody.phoneme_bottleneck,
                    channels_out: channels,
                    bias: true,
                },
                to_mel: LinearLayer {
                    channels_in: self.decoder.hidden_channels,
                    channels_out: self.out_channels,
                    bias: true,
                },
                speaker_table,
            },
        )
    }
}

/// With odd kernels, every convolution of a model keeps the length of a sequence.
pub proof fn convolutions_keep_length(
    config: DelightfulTtsConfig,
    padding_id: usize,
    length: int,
)
    requires
        odd(config.encoder.convolution_kernel_size),
        odd(config.decoder.convolution_kernel_size),
        odd(config.variance.kernel_size),
        odd(config.variance.embedding_kernel_size),
        odd(config.prosody.predictor_kernel_size),
    ensures
        ({
            let topology = config.built(padding_id);
            &&& topology.encoder.block.keeps(length)
            &&& topology.decoder.block.keeps(length)
            &&& topology.variance_predictor.keeps(length)
            &&& topology.variance_embedding.output_length(length) == length
            &&& topology.duration_predictor.keeps(length)
            &&& topology.utterance_prosody_predictor.keeps(length)
            &&& topology.phoneme_prosody_predictor.keeps(length)
        }),
{
}

impl SeparableConv {
    pub open spec fn keeps(self, length: int) -> bool {
        self.pointwise.output_length(length) == length && self.depthwise.output_length(length)
            == length
    }
}

impl PredictorLayers {
    pub open spec fn keeps(self, length: int) -> bool {
        self.conv_1.keeps(length) && self.conv_2.keeps(length)
    }
}

impl ConformerBlock {
    /// No convolution of the block changes the length of a sequence.
    pub open spec fn keeps(self, length: int) -> bool {
        &&& self.conditioning matches Some(gate) ==> gate.conv.keeps(length)
        &&& self.feed_forward_in.output_length(length) == length
        &&& self.feed_forward_out.output_length(length) == length
        &&& self.convolution.conv_1.output_length(length) == length
        &&& self.convolution.depthwise.output_length(length) == length
        &&& self.convolution.conv_2.output_length(length) == length
    }
}

/// Scales, shifts and the shapes of what a caller fixes beforehand.
#[derive(Debug, Clone, PartialEq, Eq)]
pub struct DelightfulTtsControls {
    pub length_scale: Double,
    pub durations: Option<[usize; 2]>,
    pub pitch_scale: Double,
    pub pitch_shift: Double,
    pub pitch: Option<[usize; 3]>,
    pub energy_scale: Double,
    pub energy_shift: Double,
    pub energy: Option<[usize; 3]>,
    pub speaker_ids: Option<Vec<i64>>,
    pub d_vectors: Option<[usize; 2]>,
}

impl Default for DelightfulTtsControls {
    fn default() -> (out: Self)
        ensures
            out == Self::neutral(Double { bits: 0x3FF0_0000_0000_0000 }),
    {
        DelightfulTtsControls {
            length_scale: Double { bits: 0x3FF0_0000_0000_0000 },
            durations: None,
            pitch_scale: Double { bits: 0x3FF0_0000_0000_0000 },
            pitch_shift: Double { bits: 0 },
            pitch: None,
            energy_scale: Double { bits: 0x3FF0_0000_0000_0000 },
            energy_shift: Double { bits: 0 },
            energy: None,
            speaker_ids: None,
            d_vectors: None,
        }
    }
}

impl DelightfulTtsControls {
    /// Controls that change nothing but the lengths.
    pub open spec fn neutral(length_scale: Double) -> DelightfulTtsControls {
        DelightfulTtsControls {
            length_scale,
            durations: None,
            pitch_scale: Double { bits: 0x3FF0_0000_0000_0000 },
            pitch_shift: Double { bits: 0 },
            pitch: None,
            energy_scale: Double { bits: 0x3FF0_0000_0000_0000 },
            energy_shift: Double { bits: 0 },
            energy: None,
            speaker_ids: None,
            d_vectors: None,
        }
    }

    /// The first rule that the numbers break.
    pub open spec fn fault(self) -> Option<Seq<char>> {
        if !self.length_scale.finite_positive() {
            Some("length_scale must be finite and positive"@)
        } else {
            first(
                scale_and_shift_fault("pitch"@, self.pitch_scale, self.pitch_shift),
                scale_and_shift_fault("energy"@, self.energy_scale, self.energy_shift),
            )
        }
    }
}

fn validate_controls(controls: &DelightfulTtsControls) -> (out: Result<(), DelightfulTtsError>)
    ensures
        input_verdict(out, controls.fault()),
{
    if !controls.length_scale.is_finite_positive() {
        return input_error("length_scale must be finite and positive".to_owned());
    }
    if let Some(message) = check_scale_and_shift(
        "pitch",
        controls.pitch_scale,
        controls.pitch_shift,
    ) {
        return input_error(message);
    }
    if let Some(message) = check_scale_and_shift(
        "energy",
        controls.energy_scale,
        controls.energy_shift,
    ) {
        return input_error(message);
    }
    Ok(())
}

/// Where the speaker conditioning of a batch comes from.
#[derive(Debug, Clone, Copy, PartialEq, Eq, Structural)]
pub enum DelightfulConditioning {
    Unconditioned,
    /// The learned table, normalized.
    SpeakerIds,
    /// The given vectors, normalized.
    Vectors,
}

impl DelightfulSpeakerConfig {
    /// The first reason why speaker numbers cannot be looked up.
    pub open spec fn ids_fault(self, ids: Seq<i64>, batch: usize) -> Option<Seq<char>> {
        if !self.use_speaker_embedding {
            Some("speaker IDs were supplied to a checkpoint without learned speaker embeddings"@)
        } else if ids.len() != batch {
            Some(
                "speaker IDs have shape "@ + shape_text(seq![ids.len() as usize]) + "; expected "@
                    + shape_text(seq![batch]),
            )
        } else if !highest_within(ids, self.num_speakers as int) {
            Some(
                "speaker ID "@ + signed_decimal(highest(ids)) + " is outside 0.."@ + decimal(
                    self.num_speakers as nat,
                ),
            )
        } else {
            None
        }
    }

    /// The first reason why vectors do not fit.
    pub open spec fn vectors_fault(self, shape: Seq<usize>, batch: usize) -> Option<Seq<char>> {
        if !self.use_d_vector_file {
            Some("d-vectors were supplied to a checkpoint without d-vector conditioning"@)
        } else if shape != seq![batch, self.d_vector_dim] {
            Some(
                "d-vectors have shape "@ + shape_text(shape) + "; expected "@ + shape_text(
                    seq![batch, self.d_vector_dim],
                ),
            )
        } else {
            None
        }
    }

    /// The first reason why a batch has no proper speaker conditioning.
    pub open spec fn conditioning_fault(
        self,
        speaker_ids: Option<Vec<i64>>,
        d_vectors: Option<[usize; 2]>,
        batch: usize,
    ) -> Option<Seq<char>> {
        match (speaker_ids, d_vectors) {
            (Some(_), Some(_)) => Some("use either speaker IDs or d-vectors, not both"@),
            (Some(ids), None) => self.ids_fault(ids@, batch),
            (None, Some(shape)) => self.vectors_fault(shape@, batch),
            (None, None) => if self.conditioning_width() is Some {
                Some("this DelightfulTTS checkpoint requires speaker conditioning"@)
            } else {
                None
            },
        }
    }

    /// Where the speaker conditioning of a batch comes from.
    pub fn resolve_conditioning(
        &self,
        speaker_ids: &Option<Vec<i64>>,
        d_vectors: &Option<[usize; 2]>,
        batch: usize,
    ) -> (out: Result<DelightfulConditioning, DelightfulTtsError>)
        requires
            batch > 0,
        ensures
            input_verdict(out, self.conditioning_fault(*speaker_ids, *d_vectors, batch)),
            out matches Ok(source) ==> source == (if speaker_ids is Some {
                DelightfulConditioning::SpeakerIds
            } else if d_vectors is Some {
                DelightfulConditioning::Vectors
            } else {
                DelightfulConditioning::Unconditioned
            }),
    {
        if speaker_ids.is_some() && d_vectors.is_some() {
            return input_error("use either speaker IDs or d-vectors, not both".to_owned());
        }
        if let Some(ids) = speaker_ids {
            if !self.use_speaker_embedding {
                return input_error(
                    "speaker IDs were supplied to a checkpoint without learned speaker embeddings".to_owned(),
                );
            }
            if ids.len() != batch {
                let found: [usize; 1] = [ids.len()];
                let expected: [usize; 1] = [batch];
                assert(found@ =~= seq![ids@.len() as usize]);
                assert(expected@ =~= seq![batch]);
                let mut message = with_text(
                    "speaker IDs have shape ",
                    shape_string(found.as_slice()).as_str(),
                );
                message.append("; expected ");
                message.append(shape_string(expected.as_slice()).as_str());
                return input_error(message);
            }
            let row = TokenBatch::single(ids.clone());
            let highest_id: i64 = row.highest_id();
            if highest_id < 0 || highest_id as u64 >= self.num_speakers as u64 {
                let mut message = around_text(
                    "speaker ID ",
                    signed_decimal_text(highest_id).as_str(),
                    " is outside 0..",
                );
                message.append(decimal_text(self.num_speakers as u64).as_str());
                return input_error(message);
            }
            return Ok(DelightfulConditioning::SpeakerIds);
        }
        if let Some(shape) = d_vectors {
            if !self.use_d_vector_file {
                return input_error(
                    "d-vectors were supplied to a checkpoint without d-vector conditioning".to_owned(),
                );
            }
            let expected: [usize; 2] = [batch, self.d_vector_dim];
            assert(expected@ =~= seq![batch, self.d_vector_dim]);
            let same = shape[0] == expected[0] && shape[1] == expected[1];
            assert(same == (shape@ =~= expected@));
            if !same {
                let mut message = with_text(
                    "d-vectors have shape ",
                    shape_string(shape.as_slice()).as_str(),
                );
                message.append("; expected ");
                message.append(shape_string(expected.as_slice()).as_str());
                return input_error(message);
            }
            return Ok(DelightfulConditioning::Vectors);
        }
        if self.conditioning_dimensions().is_some() {
            return input_error(
                "this DelightfulTTS checkpoint requires speaker conditioning".to_owned(),
            );
        }
        Ok(DelightfulConditioning::Unconditioned)
    }
}

/// A block is conditioned exactly where its checkpoint is.
pub open spec fn block_fault(conditioned: bool, given: bool) -> Option<Seq<char>> {
    if conditioned && !given {
        Some("DelightfulTTS checkpoint requires speaker conditioning"@)
    } else if !conditioned && given {
        Some("speaker conditioning was supplied to a single-speaker DelightfulTTS checkpoint"@)
    } else {
        None
    }
}

/// Whether a block takes the conditioning that it is given.
pub fn check_block(conditioned: bool, given: bool) -> (out: Result<(), DelightfulTtsError>)
    ensures
        input_verdict(out, block_fault(conditioned, given)),
{
    if conditioned && !given {
        return input_error("DelightfulTTS checkpoint requires speaker conditioning".to_owned());
    }
    if !conditioned && given {
        return input_error(
            "speaker conditioning was supplied to a single-speaker DelightfulTTS checkpoint".to_owned(),
        );
    }
    Ok(())
}

/// Conditioning that was accepted for a batch is never refused by a block: every block has a
/// gate exactly where the checkpoint has speakers.
pub proof fn accepted_conditioning_fits_blocks(
    config: DelightfulTtsConfig,
    padding_id: usize,
    speaker_ids: Option<Vec<i64>>,
    d_vectors: Option<[usize; 2]>,
    batch: usize,
)
    requires
        config.speakers.conditioning_fault(speaker_ids, d_vectors, batch) is None,
    ensures
        ({
            let given = speaker_ids is Some || d_vectors is Some;
            let topology = config.built(padding_id);
            &&& block_fault(topology.encoder.block.conditioning is Some, given) is None
            &&& block_fault(topology.decoder.block.conditioning is Some, given) is None
        }),
{
}

/// What a batch asks of the network.
#[derive(Debug, Clone, Copy, PartialEq, Eq, Structural)]
pub struct DelightfulPlan {
    pub batch: usize,
    pub tokens: usize,
    pub conditioning: DelightfulConditioning,
    pub predict_durations: bool,
    pub predict_pitch: bool,
    pub predict_energy: bool,
}

/// The shapes of what the network emits.
#[derive(Debug, Clone, Copy, PartialEq, Eq)]
pub struct DelightfulShapes {
    pub mel: [usize; 3],
    pub durations: [usize; 2],
    pub pitch: [usize; 3],
    pub energy: [usize; 3],
    pub utterance_prosody: [usize; 3],
    pub phoneme_prosody: [usize; 3],
}

impl DelightfulTtsConfig {
    /// The first reason why a batch cannot be synthesized.
    pub open spec fn inference_fault(self, tokens: TokenBatch, controls: DelightfulTtsControls) -> Option<
        Seq<char>,
    > {
        first(
            controls.fault(),
            if !tokens.non_empty() {
                Some("token IDs must have non-empty [batch, tokens] dimensions"@)
            } else if !highest_within(tokens.ids@, self.num_chars as int) {
                Some(outside_vocabulary(highest(tokens.ids@), self.num_chars as int))
            } else {
                first(
                    self.speakers.conditioning_fault(
                        controls.speaker_ids,
                        controls.d_vectors,
                        tokens.batch,
                    ),
                    first(
                        variance_fault("pitch"@, controls.pitch, tokens.batch, tokens.tokens),
                        first(
                            variance_fault("energy"@, controls.energy, tokens.batch, tokens.tokens),
                            durations_fault(controls.durations, tokens.batch, tokens.tokens),
                        ),
                    ),
                )
            },
        )
    }

    /// Controls that change nothing but the lengths, as the checkpoint has them.
    pub fn default_controls(&self) -> (out: DelightfulTtsControls)
        ensures
            out == DelightfulTtsControls::neutral(self.length_scale),
    {
        let mut controls = DelightfulTtsControls::default();
        controls.length_scale = self.length_scale;
        controls
    }

    /// Decides where the conditioning, the durations, the pitch and the energy come from.
    pub fn plan_inference(&self, tokens: &TokenBatch, controls: &DelightfulTtsControls) -> (out: Result<
        DelightfulPlan,
        DelightfulTtsError,
    >)
        requires
            tokens.wf(),
        ensures
            input_verdict(out, self.inference_fault(*tokens, *controls)),
            out matches Ok(plan) ==> plan == (DelightfulPlan {
                batch: tokens.batch,
                tokens: tokens.tokens,
                conditioning: if controls.speaker_ids is Some {
                    DelightfulConditioning::SpeakerIds
                } else if controls.d_vectors is Some {
                    DelightfulConditioning::Vectors
                } else {
                    DelightfulConditioning::Unconditioned
                },
                predict_durations: controls.durations is None,
                predict_pitch: controls.pitch is None,
                predict_energy: controls.energy is None,
            }),
    {
        validate_controls(controls)?;
        if tokens.batch == 0 || tokens.tokens == 0 {
            return input_error(
                "token IDs must have non-empty [batch, tokens] dimensions".to_owned(),
            );
        }
        if let Some(message) = vocabulary_fault(tokens, self.num_chars) {
            return input_error(message);
        }
        let conditioning = self.speakers.resolve_conditioning(
            &controls.speaker_ids,
            &controls.d_vectors,
            tokens.batch,
        )?;
        if let Some(message) = check_variance("pitch", &controls.pitch, tokens.batch, tokens.tokens) {
            return input_error(message);
        }
        if let Some(message) = check_variance(
            "energy",
            &controls.energy,
            tokens.batch,
            tokens.tokens,
        ) {
            return input_error(message);
        }
        if let Some(message) = check_durations(&controls.durations, tokens.batch, tokens.tokens) {
            return input_error(message);
        }
        Ok(
            DelightfulPlan {
                batch: tokens.batch,
                tokens: tokens.tokens,
                conditioning,
                predict_durations: controls.durations.is_none(),
                predict_pitch: controls.pitch.is_none(),
                predict_energy: controls.energy.is_none(),
            },
        )
    }

    /// Expands encoded tokens to the frames that the decoder reads.
    pub fn expand<T: Copy>(
        &self,
        encoded: &Vec<Vec<Vec<T>>>,
        durations: &Vec<Vec<usize>>,
        fill: T,
    ) -> (out: Result<Expanded<T>, DelightfulTtsError>)
        requires
            aligned_with(encoded@, durations@),
        ensures
            input_verdict(
                out,
                expansion_fault(requested_frames(durations@), self.max_output_frames as int),
            ),
            out matches Ok(expanded) ==> expanded.expands(encoded@, durations@, fill),
    {
        match expand_by_durations(encoded, durations, fill, self.max_output_frames) {
            Ok(expanded) => Ok(expanded),
            Err(error) => input_error(error.describe()),
        }
    }

    /// Which frames attend to which tokens, where durations need not be whole.
    pub fn attend(
        &self,
        starts: &Vec<Vec<Double>>,
        ends: &Vec<Vec<Double>>,
        lengths: &Vec<Double>,
        latest: Double,
    ) -> (out: Result<Attention, DelightfulTtsError>)
        requires
            paired(starts@, ends@),
        ensures
            input_verdict(
                out,
                expansion_fault(latest.saturated(), self.max_output_frames as int),
            ),
            out matches Ok(attention) ==> attention.follows(starts@, ends@, lengths@, latest),
    {
        match attend_by_durations(starts, ends, lengths, latest, self.max_output_frames) {
            Ok(attention) => Ok(attention),
            Err(error) => input_error(error.describe()),
        }
    }

    /// The shapes of what the network emits for a batch that expands to the given frames.
    pub fn output_shapes(&self, plan: &DelightfulPlan, frames: usize) -> (out: DelightfulShapes)
        ensures
            out.mel@ == seq![plan.batch, frames, self.out_channels],
            out.durations@ == seq![plan.batch, plan.tokens],
            out.pitch@ == seq![plan.batch, 1, plan.tokens],
            out.energy@ == seq![plan.batch, 1, plan.tokens],
            out.utterance_prosody@ == seq![plan.batch, 1, self.prosody.utterance_bottleneck],
            out.phoneme_prosody@ == seq![
                plan.batch,
                plan.tokens,
                self.prosody.phoneme_bottleneck,
            ],
    {
        let out = DelightfulShapes {
            mel: [plan.batch, frames, self.out_channels],
            durations: [plan.batch, plan.tokens],
            pitch: [plan.batch, 1, plan.tokens],
            energy: [plan.batch, 1, plan.tokens],
            utterance_prosody: [plan.batch, 1, self.prosody.utterance_bottleneck],
            phoneme_prosody: [plan.batch, plan.tokens, self.prosody.phoneme_bottleneck],
        };
        assert(out.mel@ =~= seq![plan.batch, frames, self.out_channels]);
        assert(out.durations@ =~= seq![plan.batch, plan.tokens]);
        assert(out.pitch@ =~= seq![plan.batch, 1, plan.tokens]);
        assert(out.energy@ =~= seq![plan.batch, 1, plan.tokens]);
        assert(out.utterance_prosody@ =~= seq![plan.batch, 1, self.prosody.utterance_bottleneck]);
        assert(out.phoneme_prosody@ =~= seq![
            plan.batch,
            plan.tokens,
            self.prosody.phoneme_bottleneck,
        ]);
        out
    }

    /// Whether a checkpoint holds the inference graph: unused tensors are no fault, since a
    /// training checkpoint holds more.
    pub fn check_checkpoint(report: &LoadReport) -> (out: Result<(), DelightfulTtsError>)
        ensures
            match out {
                Ok(_) => report.missing.len() == 0 && report.errors.len() == 0,
                Err(DelightfulTtsError::Checkpoint(message)) => !(report.missing.len() == 0
                    && report.errors.len() == 0) && message@
                    == "checkpoint inference subset does not match: "@ + decimal(
                    report.missing.len() as nat,
                ) + " missing tensors and "@ + decimal(report.errors.len() as nat)
                    + " load errors"@,
                Err(_) => false,
            },
    {
        if report.missing.len() != 0 || report.errors.len() != 0 {
            let mut message = with_numbers(
                "checkpoint inference subset does not match: ",
                report.missing.len(),
                " missing tensors and ",
                report.errors.len(),
            );
            message.append(" load errors");
            return Err(DelightfulTtsError::Checkpoint(message));
        }
        Ok(())
    }

    /// How checkpoint names become parameter names, as patterns and replacements.
    pub fn key_remappings() -> (out: Vec<(&'static str, &'static str)>)
        ensures
            out@ == seq![
                (r"^acoustic_model\.", ""),
                (r"^src_word_emb\.weight$", "src_word_emb.embeddings"),
                (r"^(pitch_adaptor)\.pitch_predictor\.", "$1.predictor."),
                (r"^(pitch_adaptor)\.pitch_emb\.", "$1.embedding."),
                (r"^(energy_adaptor)\.energy_predictor\.", "$1.predictor."),
                (r"^(energy_adaptor)\.energy_emb\.", "$1.embedding."),
                (r"^((?:duration_predictor|pitch_adaptor\.predictor|energy_adaptor\.predictor|utterance_prosody_predictor|phoneme_prosody_predictor))\.layers\.0\.", "$1.conv_1."),
                (r"^((?:duration_predictor|pitch_adaptor\.predictor|energy_adaptor\.predictor|utterance_prosody_predictor|phoneme_prosody_predictor))\.layers\.2\.", "$1.norm_1."),
                (r"^((?:duration_predictor|pitch_adaptor\.predictor|energy_adaptor\.predictor|utterance_prosody_predictor|phoneme_prosody_predictor))\.layers\.4\.", "$1.conv_2."),
                (r"^((?:duration_predictor|pitch_adaptor\.predictor|energy_adaptor\.predictor|utterance_prosody_predictor|phoneme_prosody_predictor))\.layers\.6\.", "$1.norm_2."),
                (r"(\.conformer_conv_[12]\.(?:conv_1|conv_2))\.conv\.", "$1."),
                (r"(\.conformer_conv_[12]\.depthwise)\.conv\.", "$1."),
                (r"(\.(?:ln|ln_[12]|norm_[12]))\.weight$", "$1.gamma"),
                (r"(\.(?:ln|ln_[12]|norm_[12]))\.bias$", "$1.beta"),
            ],
    {
        vec![
            (r"^acoustic_model\.", ""),
            (r"^src_word_emb\.weight$", "src_word_emb.embeddings"),
            (r"^(pitch_adaptor)\.pitch_predictor\.", "$1.predictor."),
            (r"^(pitch_adaptor)\.pitch_emb\.", "$1.embedding."),
            (r"^(energy_adaptor)\.energy_predictor\.", "$1.predictor."),
            (r"^(energy_adaptor)\.energy_emb\.", "$1.embedding."),
            (r"^((?:duration_predictor|pitch_adaptor\.predictor|energy_adaptor\.predictor|utterance_prosody_predictor|phoneme_prosody_predictor))\.layers\.0\.", "$1.conv_1."),
            (r"^((?:duration_predictor|pitch_adaptor\.predictor|energy_adaptor\.predictor|utterance_prosody_predictor|phoneme_prosody_predictor))\.layers\.2\.", "$1.norm_1."),
            (r"^((?:duration_predictor|pitch_adaptor\.predictor|energy_adaptor\.predictor|utterance_prosody_predictor|phoneme_prosody_predictor))\.layers\.4\.", "$1.conv_2."),
            (r"^((?:duration_predictor|pitch_adaptor\.predictor|energy_adaptor\.predictor|utterance_prosody_predictor|phoneme_prosody_predictor))\.layers\.6\.", "$1.norm_2."),
            (r"(\.conformer_conv_[12]\.(?:conv_1|conv_2))\.conv\.", "$1."),
            (r"(\.conformer_conv_[12]\.depthwise)\.conv\.", "$1."),
            (r"(\.(?:ln|ln_[12]|norm_[12]))\.weight$", "$1.gamma"),
            (r"(\.(?:ln|ln_[12]|norm_[12]))\.bias$", "$1.beta"),
        ]
    }
}

/// Everything about pitch and energy can be asked for, and durations can be fixed.
pub proof fn delightful_takes_all_controls(
    config: &DelightfulTtsConfig,
    pitch: PitchCapabilities,
    energy: EnergyCapabilities,
    durations: bool,
)
    requires
        call_ensures(DelightfulTtsConfig::pitch_capabilities, (config,), pitch),
        call_ensures(DelightfulTtsConfig::energy_capabilities, (config,), energy),
        call_ensures(DelightfulTtsConfig::supports_explicit_durations, (config,), durations),
    ensures
        pitch.scale && pitch.shift && pitch.explicit_values,
        energy.scale && energy.shift && energy.explicit_values,
        durations,
{
}

/// Learned speakers are as wide as their table, others as wide as their vectors, and without
/// either there is no conditioning. Learned speakers go first.
pub proof fn speakers_have_one_width(config: &DelightfulSpeakerConfig, out: Option<usize>)
    requires
        call_ensures(DelightfulSpeakerConfig::conditioning_dimensions, (config,), out),
    ensures
        out is Some <==> config.use_speaker_embedding || config.use_d_vector_file,
        out matches Some(width) ==> (if config.use_speaker_embedding {
            width == config.speaker_embedding_channels
        } else {
            width == config.d_vector_dim
        }),
{
}

/// Conditioning is resolved exactly where it is given in the way that the checkpoint knows: numbers
/// of learned speakers, one for each item and each in the table; vectors of the right width, one
/// for each item; or nothing where the checkpoint knows no speakers.
pub proof fn conditioning_is_given_in_one_way(
    config: &DelightfulSpeakerConfig,
    ids: &Option<Vec<i64>>,
    vectors: &Option<[usize; 2]>,
    batch: usize,
    out: Result<DelightfulConditioning, DelightfulTtsError>,
)
    requires
        batch > 0,
        call_ensures(
            DelightfulSpeakerConfig::resolve_conditioning,
            (config, ids, vectors, batch),
            out,
        ),
    ensures
        ids is Some && vectors is Some ==> out is Err,
        ids matches Some(found) ==> (vectors is None ==> (out is Ok <==> {
            &&& config.use_speaker_embedding
            &&& found.len() == batch
            &&& exists|i: int| 0 <= i < found.len() && #[trigger] found@[i] >= 0
            &&& forall|i: int| 0 <= i < found.len() ==> #[trigger] found@[i] < config.num_speakers
        })),
        vectors matches Some(shape) ==> (ids is None ==> (out is Ok <==> config.use_d_vector_file
            && shape@[0] == batch && shape@[1] == config.d_vector_dim)),
        ids is None && vectors is None ==> (out is Ok <==> !config.use_speaker_embedding
            && !config.use_d_vector_file),
        out matches Ok(source) ==> (source is SpeakerIds <==> ids is Some) && (source is Vectors
            <==> vectors is Some),
        out matches Err(error) ==> error is InvalidInput,
{
    if let Some(found) = ids {
        if found.len() == batch {
            crate::tokens::vocabularies_hold_the_largest(found@, config.num_speakers as int);
        }
    }
    if let Some(shape) = vectors {
        assert((shape@ =~= seq![batch, config.d_vector_dim]) <==> shape@[0] == batch && shape@[1]
            == config.d_vector_dim);
    }
}

/// A block takes conditioning exactly where it is made for it.
pub proof fn blocks_take_what_they_are_made_for(
    conditioned: bool,
    given: bool,
    out: Result<(), DelightfulTtsError>,
)
    requires
        call_ensures(check_block, (conditioned, given), out),
    ensures
        out is Ok <==> conditioned == given,
        out matches Err(error) ==> error is InvalidInput,
{
}

/// The layers of a stack have its channels at both ends, four times as many in the feed-forward
/// part, twice as many in the convolution, and the channels of the conditioning where there is
/// any. None changes the length.
pub open spec fn conformer_fits(
    stack: ConformerLayers,
    config: DelightfulConformerConfig,
    width: Option<usize>,
    length: int,
) -> bool {
    let block = stack.block;
    let channels = config.hidden_channels;
    &&& stack.layers == config.layers
    &&& block.feed_forward_in.channels_in == channels
    &&& block.feed_forward_in.channels_out == 4 * channels
    &&& block.feed_forward_in.kernel_size == 3
    &&& block.feed_forward_in.output_length(length) == length
    &&& block.feed_forward_out.channels_in == 4 * channels
    &&& block.feed_forward_out.channels_out == channels
    &&& block.feed_forward_out.kernel_size == 1
    &&& block.feed_forward_out.output_length(length) == length
    &&& block.convolution.inner_channels == 2 * channels
    &&& block.convolution.conv_1.channels_in == channels
    &&& block.convolution.conv_1.channels_out == 4 * channels
    &&& block.convolution.conv_1.kernel_size == 1
    &&& block.convolution.depthwise.channels_in == 2 * channels
    &&& block.convolution.depthwise.channels_out == 2 * channels
    &&& block.convolution.depthwise.kernel_size == config.convolution_kernel_size
    &&& block.convolution.conv_2.channels_in == 2 * channels
    &&& block.convolution.conv_2.channels_out == channels
    &&& block.convolution.conv_2.kernel_size == 1
    &&& block.heads == config.heads
    &&& 0 <= channels - block.channels_per_head * block.heads < block.heads
    &&& block.conditioning is Some <==> width is Some
    &&& block.conditioning matches Some(layers) ==> {
        &&& layers.embedding_proj.channels_in == width->0
        &&& layers.embedding_proj.channels_out == channels
        &&& layers.embedding_proj.bias
        &&& layers.conv.pointwise.channels_in == channels
        &&& layers.conv.pointwise.channels_out == 2 * channels
        &&& layers.conv.pointwise.kernel_size == 1
        &&& layers.conv.depthwise.channels_in == 2 * channels
        &&& layers.conv.depthwise.channels_out == 2 * channels
        &&& layers.conv.depthwise.kernel_size == config.convolution_kernel_size
    }
    &&& config.convolution_kernel_size % 2 == 1 ==> block.convolution.depthwise.output_length(
        length,
    ) == length
}

/// A predictor reads its input, runs twice through its hidden channels with its kernel, and emits
/// what is asked for.
pub open spec fn predictor_fits(
    layers: PredictorLayers,
    channels_in: usize,
    hidden: usize,
    channels_out: usize,
    kernel_size: usize,
    length: int,
) -> bool {
    &&& layers.conv_1.pointwise.channels_in == channels_in
    &&& layers.conv_1.pointwise.channels_out == hidden
    &&& layers.conv_1.pointwise.kernel_size == 1 && layers.conv_2.pointwise.kernel_size == 1
    &&& layers.conv_1.depthwise.channels_in == hidden && layers.conv_1.depthwise.channels_out
        == hidden
    &&& layers.conv_2.pointwise.channels_in == hidden && layers.conv_2.pointwise.channels_out
        == hidden
    &&& layers.conv_2.depthwise.channels_in == hidden && layers.conv_2.depthwise.channels_out
        == hidden
    &&& layers.conv_1.depthwise.kernel_size == kernel_size
    &&& layers.conv_2.depthwise.kernel_size == kernel_size
    &&& layers.projection.channels_in == hidden
    &&& layers.projection.channels_out == channels_out
    &&& layers.projection.bias
    &&& kernel_size % 2 == 1 ==> layers.conv_1.depthwise.output_length(length) == length
        && layers.conv_2.depthwise.output_length(length) == length
}

proof fn heads_leave_less_than_one_each(channels: usize, heads: usize)
    requires
        heads > 0,
    ensures
        0 <= channels - (channels / heads) * heads < heads,
{
    vstd::arithmetic::div_mod::lemma_fundamental_div_mod(channels as int, heads as int);
    assert((channels as int / heads as int) * heads == heads * (channels as int / heads as int))
        by (nonlinear_arith);
}

/// The network embeds every symbol into the channels of the encoder, has predictors of single
/// values and of prosody that read them, embeds a single value and each prosody back into them, and
/// projects the channels of the decoder to bins. A table of speakers is there exactly where
/// speakers are learned.
pub proof fn delightful_layers_fit(
    config: &DelightfulTtsConfig,
    padding_id: usize,
    topology: DelightfulTopology,
    width: Option<usize>,
    length: int,
)
    requires
        config.buildable(),
        call_ensures(DelightfulSpeakerConfig::conditioning_dimensions, (&config.speakers,), width),
        call_ensures(
            DelightfulTtsConfig::topology,
            (config, padding_id, Ok::<(), String>(())),
            Ok::<DelightfulTopology, DelightfulTtsError>(topology),
        ),
    ensures
        ({
            let channels = config.encoder.hidden_channels;
            &&& topology.embedding.rows == config.num_chars && topology.embedding.channels
                == channels
            &&& topology.padding_id == padding_id
            &&& conformer_fits(topology.encoder, config.encoder, width, length)
            &&& conformer_fits(topology.decoder, config.decoder, width, length)
            &&& predictor_fits(
                topology.variance_predictor,
                channels,
                config.variance.hidden_channels,
                1,
                config.variance.kernel_size,
                length,
            )
            &&& topology.duration_predictor == topology.variance_predictor
            &&& topology.variance_embedding.channels_in == 1
            &&& topology.variance_embedding.channels_out == channels
            &&& topology.variance_embedding.kernel_size == config.variance.embedding_kernel_size
            &&& config.variance.embedding_kernel_size % 2 == 1
                ==> topology.variance_embedding.output_length(length) == length
            &&& predictor_fits(
                topology.utterance_prosody_predictor,
                channels,
                channels,
                config.prosody.utterance_bottleneck,
                config.prosody.predictor_kernel_size,
                length,
            )
            &&& predictor_fits(
                topology.phoneme_prosody_predictor,
                channels,
                channels,
                config.prosody.phoneme_bottleneck,
                config.prosody.predictor_kernel_size,
                length,
            )
            &&& topology.utterance_out.channels_in == config.prosody.utterance_bottleneck
                && topology.utterance_out.channels_out == channels && topology.utterance_out.bias
            &&& topology.phoneme_out.channels_in == config.prosody.phoneme_bottleneck
                && topology.phoneme_out.channels_out == channels && topology.phoneme_out.bias
            &&& topology.to_mel.channels_in == config.decoder.hidden_channels
                && topology.to_mel.channels_out == config.out_channels && topology.to_mel.bias
            &&& topology.speaker_table is Some <==> config.speakers.use_speaker_embedding
            &&& topology.speaker_table matches Some(table) ==> table.rows
                == config.speakers.num_speakers && table.channels
                == config.speakers.speaker_embedding_channels
        }),
{
    heads_leave_less_than_one_each(config.encoder.hidden_channels, config.encoder.heads);
    heads_leave_less_than_one_each(config.decoder.hidden_channels, config.decoder.heads);
}

/// The network is built exactly where the rest of its configuration was accepted and the padding
/// is a symbol. A refusal is passed on in its own words.
pub proof fn delightful_is_built_on_its_merits(
    config: &DelightfulTtsConfig,
    padding_id: usize,
    checked: Result<(), String>,
    out: Result<DelightfulTopology, DelightfulTtsError>,
)
    requires
        checked is Ok ==> config.buildable(),
        call_ensures(DelightfulTtsConfig::topology, (config, padding_id, checked), out),
    ensures
        out is Ok <==> checked is Ok && padding_id < config.num_chars,
        checked matches Err(reason) ==> out == Err::<DelightfulTopology, DelightfulTtsError>(
            DelightfulTtsError::InvalidConfig(reason),
        ),
        out matches Err(error) ==> error is InvalidConfig,
{
}

/// A batch is synthesized exactly where the scales are positive, the shifts are finite, there are
/// tokens that name symbols, its speakers can be resolved, and explicit durations, pitch and energy
/// have one value per token. What is not given is predicted, and nothing else.
pub proof fn delightful_batches_are_accepted_on_their_merits(
    config: &DelightfulTtsConfig,
    tokens: &TokenBatch,
    controls: &DelightfulTtsControls,
    resolved: Result<DelightfulConditioning, DelightfulTtsError>,
    out: Result<DelightfulPlan, DelightfulTtsError>,
)
    requires
        tokens.wf(),
        tokens.batch > 0,
        call_ensures(
            DelightfulSpeakerConfig::resolve_conditioning,
            (&config.speakers, &controls.speaker_ids, &controls.d_vectors, tokens.batch),
            resolved,
        ),
        call_ensures(DelightfulTtsConfig::plan_inference, (config, tokens, controls), out),
    ensures
        out is Ok <==> {
            &&& controls.length_scale.finite() && controls.length_scale.rank() > 0
            &&& controls.pitch_scale.finite() && controls.pitch_scale.rank() > 0
            &&& controls.energy_scale.finite() && controls.energy_scale.rank() > 0
            &&& controls.pitch_shift.finite() && controls.energy_shift.finite()
            &&& tokens.tokens > 0
            &&& exists|i: int| 0 <= i < tokens.ids.len() && #[trigger] tokens.ids@[i] >= 0
            &&& forall|i: int|
                0 <= i < tokens.ids.len() ==> #[trigger] tokens.ids@[i] < config.num_chars
            &&& resolved is Ok
            &&& controls.durations matches Some(shape) ==> shape@[0] == tokens.batch && shape@[1]
                == tokens.tokens
            &&& controls.pitch matches Some(shape) ==> shape@[0] == tokens.batch && shape@[1] == 1
                && shape@[2] == tokens.tokens
            &&& controls.energy matches Some(shape) ==> shape@[0] == tokens.batch && shape@[1] == 1
                && shape@[2] == tokens.tokens
        },
        out matches Ok(plan) ==> {
            &&& plan.batch == tokens.batch && plan.tokens == tokens.tokens
            &&& resolved == Ok::<DelightfulConditioning, DelightfulTtsError>(plan.conditioning)
            &&& plan.predict_durations <==> controls.durations is None
            &&& plan.predict_pitch <==> controls.pitch is None
            &&& plan.predict_energy <==> controls.energy is None
        },
        out matches Err(error) ==> error is InvalidInput,
{
    if tokens.tokens > 0 {
        assert(tokens.ids.len() > 0) by (nonlinear_arith)
            requires
                tokens.ids.len() == tokens.batch * tokens.tokens,
                tokens.batch > 0,
                tokens.tokens > 0,
        ;
        crate::tokens::vocabularies_hold_the_largest(tokens.ids@, config.num_chars as int);
    }
    if let Some(shape) = controls.durations {
        assert((shape@ =~= seq![tokens.batch, tokens.tokens]) <==> shape@[0] == tokens.batch
            && shape@[1] == tokens.tokens);
    }
    if let Some(shape) = controls.pitch {
        assert((shape@ =~= seq![tokens.batch, 1, tokens.tokens]) <==> shape@[0] == tokens.batch
            && shape@[1] == 1 && shape@[2] == tokens.tokens);
    }
    if let Some(shape) = controls.energy {
        assert((shape@ =~= seq![tokens.batch, 1, tokens.tokens]) <==> shape@[0] == tokens.batch
            && shape@[1] == 1 && shape@[2] == tokens.tokens);
    }
}

/// An empty batch is refused.
pub proof fn empty_delightful_batches_are_refused(
    config: &DelightfulTtsConfig,
    tokens: &TokenBatch,
    controls: &DelightfulTtsControls,
    out: Result<DelightfulPlan, DelightfulTtsError>,
)
    requires
        tokens.wf(),
        tokens.batch == 0,
        call_ensures(DelightfulTtsConfig::plan_inference, (config, tokens, controls), out),
    ensures
        out matches Err(error) && error is InvalidInput,
{
}

/// Controls that nobody set scale by one, shift by nothing, fix nothing and name no speaker; those
/// of a model have its length scale.
pub proof fn unset_delightful_controls_change_nothing(
    config: &DelightfulTtsConfig,
    plain: DelightfulTtsControls,
    own: DelightfulTtsControls,
)
    requires
        call_ensures(DelightfulTtsControls::default, (), plain),
        call_ensures(DelightfulTtsConfig::default_controls, (config,), own),
    ensures
        plain.length_scale.bits == 0x3FF0_0000_0000_0000,
        plain.pitch_scale == plain.length_scale && plain.energy_scale == plain.length_scale,
        plain.pitch_shift.bits == 0 && plain.energy_shift.bits == 0,
        plain.durations is None && plain.pitch is None && plain.energy is None,
        plain.speaker_ids is None && plain.d_vectors is None,
        own.length_scale == config.length_scale,
        own.pitch_scale == plain.pitch_scale && own.pitch_shift == plain.pitch_shift,
        own.energy_scale == plain.energy_scale && own.energy_shift == plain.energy_shift,
        own.durations is None && own.pitch is None && own.energy is None,
        own.speaker_ids is None && own.d_vectors is None,
{
}

/// The model expands as durations say, within its own limit.
pub proof fn delightful_expands_within_bounds<T: Copy>(
    config: &DelightfulTtsConfig,
    encoded: &Vec<Vec<Vec<T>>>,
    durations: &Vec<Vec<usize>>,
    fill: T,
    plain: Result<Expanded<T>, SpeedySpeechError>,
    out: Result<Expanded<T>, DelightfulTtsError>,
)
    requires
        aligned_with(encoded@, durations@),
        call_ensures(
            expand_by_durations::<T>,
            (encoded, durations, fill, config.max_output_frames),
            plain,
        ),
        call_ensures(DelightfulTtsConfig::expand::<T>, (config, encoded, durations, fill), out),
    ensures
        out is Ok <==> plain is Ok,
        out matches Ok(expanded) ==> expanded.expands(encoded@, durations@, fill),
        out matches Err(error) ==> error is InvalidInput,
{
}

/// Frames attend within the same bounds: the whole part of the latest instant counts them.
pub proof fn delightful_attends_within_bounds(
    config: &DelightfulTtsConfig,
    starts: &Vec<Vec<Double>>,
    ends: &Vec<Vec<Double>>,
    lengths: &Vec<Double>,
    latest: Double,
    frames: usize,
    out: Result<Attention, DelightfulTtsError>,
)
    requires
        paired(starts@, ends@),
        call_ensures(Double::to_usize, (latest,), frames),
        call_ensures(DelightfulTtsConfig::attend, (config, starts, ends, lengths, latest), out),
    ensures
        out is Ok <==> 0 < frames <= config.max_output_frames && frames <= 5_000,
        out matches Ok(attention) ==> attention.frames == frames && attention.follows(
            starts@,
            ends@,
            lengths@,
            latest,
        ),
        out matches Err(error) ==> error is InvalidInput,
{
}

/// The spectrogram has the batch, the frames and the bins. Durations, pitch and energy have one
/// value per token; the prosody of an utterance is one vector, that of its sounds one per token.
pub proof fn delightful_shapes_follow_plans(
    config: &DelightfulTtsConfig,
    plan: &DelightfulPlan,
    frames: usize,
    out: DelightfulShapes,
)
    requires
        call_ensures(DelightfulTtsConfig::output_shapes, (config, plan, frames), out),
    ensures
        out.mel@[0] == plan.batch && out.mel@[1] == frames && out.mel@[2] == config.out_channels,
        out.durations@[0] == plan.batch && out.durations@[1] == plan.tokens,
        out.pitch@[0] == plan.batch && out.pitch@[1] == 1 && out.pitch@[2] == plan.tokens,
        out.energy@ == out.pitch@,
        out.utterance_prosody@[0] == plan.batch && out.utterance_prosody@[1] == 1
            && out.utterance_prosody@[2] == config.prosody.utterance_bottleneck,
        out.phoneme_prosody@[0] == plan.batch && out.phoneme_prosody@[1] == plan.tokens
            && out.phoneme_prosody@[2] == config.prosody.phoneme_bottleneck,
{
}

/// A checkpoint serves exactly where nothing is missing and nothing failed, whatever went unused.
pub proof fn delightful_checkpoints_may_hold_more(
    report: &LoadReport,
    out: Result<(), DelightfulTtsError>,
)
    requires
        call_ensures(DelightfulTtsConfig::check_checkpoint, (report,), out),
    ensures
        out is Ok <==> report.missing.len() == 0 && report.errors.len() == 0,
        out matches Err(error) ==> error is Checkpoint,
{
}

/// An error says of what kind it is, and then its reason.
pub proof fn delightful_errors_say_their_kind(error: &DelightfulTtsError, out: String)
    requires
        call_ensures(DelightfulTtsError::describe, (error,), out),
    ensures
        error matches DelightfulTtsError::InvalidConfig(message) ==> out@ == "invalid DelightfulTTS config: "@ + message@,
        error matches DelightfulTtsError::InvalidInput(message) ==> out@ == "invalid DelightfulTTS input: "@ + message@,
        error matches DelightfulTtsError::Checkpoint(message) ==> out@ == "unable to load DelightfulTTS checkpoint: "@ + message@,
{
}

/// Names lose the prefix of the acoustic model, the layers of predictors get names for their
/// numbers, and the weight of a normalization becomes its scale, the bias its shift.
pub proof fn delightful_names_are_changed(out: Vec<(&'static str, &'static str)>)
    requires
        call_ensures(DelightfulTtsConfig::key_remappings, (), out),
    ensures
        out.len() == 14,
        out@[0].0@ == r"^acoustic_model\."@ && out@[0].1@ == ""@,
        out@[1].0@ == r"^src_word_emb\.weight$"@ && out@[1].1@ == "src_word_emb.embeddings"@,
        out@[2].0@ == r"^(pitch_adaptor)\.pitch_predictor\."@ && out@[2].1@ == "$1.predictor."@,
        out@[3].0@ == r"^(pitch_adaptor)\.pitch_emb\."@ && out@[3].1@ == "$1.embedding."@,
        out@[4].0@ == r"^(energy_adaptor)\.energy_predictor\."@ && out@[4].1@ == "$1.predictor."@,
        out@[5].0@ == r"^(energy_adaptor)\.energy_emb\."@ && out@[5].1@ == "$1.embedding."@,
        out@[6].0@ == r"^((?:duration_predictor|pitch_adaptor\.predictor|energy_adaptor\.predictor|utterance_prosody_predictor|phoneme_prosody_predictor))\.layers\.0\."@ && out@[6].1@ == "$1.conv_1."@,
        out@[7].0@ == r"^((?:duration_predictor|pitch_adaptor\.predictor|energy_adaptor\.predictor|utterance_prosody_predictor|phoneme_prosody_predictor))\.layers\.2\."@ && out@[7].1@ == "$1.norm_1."@,
        out@[8].0@ == r"^((?:duration_predictor|pitch_adaptor\.predictor|energy_adaptor\.predictor|utterance_prosody_predictor|phoneme_prosody_predictor))\.layers\.4\."@ && out@[8].1@ == "$1.conv_2."@,
        out@[9].0@ == r"^((?:duration_predictor|pitch_adaptor\.predictor|energy_adaptor\.predictor|utterance_prosody_predictor|phoneme_prosody_predictor))\.layers\.6\."@ && out@[9].1@ == "$1.norm_2."@,
        out@[10].0@ == r"(\.conformer_conv_[12]\.(?:conv_1|conv_2))\.conv\."@ && out@[10].1@ == "$1."@,
        out@[11].0@ == r"(\.conformer_conv_[12]\.depthwise)\.conv\."@ && out@[11].1@ == "$1."@,
        out@[12].0@ == r"(\.(?:ln|ln_[12]|norm_[12]))\.weight$"@ && out@[12].1@ == "$1.gamma"@,
        out@[13].0@ == r"(\.(?:ln|ln_[12]|norm_[12]))\.bias$"@ && out@[13].1@ == "$1.beta"@,
{
}

} // verus!
