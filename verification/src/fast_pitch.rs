//! FastPitch: a feed-forward transformer with predicted durations and pitch.

use vstd::prelude::*;

use crate::checkpoint::{whole_model_heading, LoadReport, Subtree};
use crate::double::Double;
use crate::expansion::{longest, paired, Attention};
use crate::json::{
    arguments_are_said, bool_at, bool_of, counting_is_saying, fault_of, first, num_chars_at, num_chars_of, number_at, number_of, object_at,
    object_of, published_vocabulary_size_of, reading_is_saying, says_characters, says_flag,
    says_number, says_size, says_text, string_at, string_of, unless, usize_at, usize_of, Json,
};
use crate::layers::{
    centered, centered_conv, is_multiple_of, is_odd, multiple_of, odd, pointwise, pointwise_conv,
    Conv,
};
use crate::speedy_speech::{
    aligned_with, aligner, aligner_layers, attend_by_durations, check_single_speaker, check_type,
    duration_predictor, duration_predictor_layers, expand_by_durations, frames_fault,
    one_speaker_is_said, requested_frames, row_expanded, says_one_speaker, single_speaker_fault,
    type_fault, types_are_said, AlignerLayers, DurationPredictorLayers, Expanded, SpeedySpeechError,
};
use crate::text::{quoted, quoted_text, same_text, shape_string, shape_text, with_text};
use crate::tokens::{highest, highest_within, outside_vocabulary, vocabulary_fault, TokenBatch};

verus! {

/// Errors of FastPitch configurations, inputs and checkpoints.
#[derive(Debug, Clone, PartialEq, Eq)]
pub enum FastPitchError {
    InvalidConfig(String),
    InvalidInput(String),
    Checkpoint(String),
}

impl FastPitchError {
    pub open spec fn described(self) -> Seq<char> {
        match self {
            FastPitchError::InvalidConfig(message) => "invalid FastPitch config: "@ + message@,
            FastPitchError::InvalidInput(message) => "invalid FastPitch input: "@ + message@,
            FastPitchError::Checkpoint(message) => "unable to load FastPitch checkpoint: "@ + message@,
        }
    }

    /// The error in words.
    pub fn describe(&self) -> (out: String)
        ensures
            out@ == self.described(),
    {
        match self {
            FastPitchError::InvalidConfig(message) => with_text(
                "invalid FastPitch config: ",
                message.as_str(),
            ),
            FastPitchError::InvalidInput(message) => with_text(
                "invalid FastPitch input: ",
                message.as_str(),
            ),
            FastPitchError::Checkpoint(message) => with_text(
                "unable to load FastPitch checkpoint: ",
                message.as_str(),
            ),
        }
    }
}

/// The outcome is an accepted configuration, or the given fault.
pub open spec fn config_verdict<T>(out: Result<T, FastPitchError>, fault: Option<Seq<char>>) -> bool {
    match out {
        Ok(_) => fault is None,
        Err(FastPitchError::InvalidConfig(message)) => fault == Some(message@),
        Err(_) => false,
    }
}

/// The outcome is an accepted input, or the given fault.
pub open spec fn input_verdict<T>(out: Result<T, FastPitchError>, fault: Option<Seq<char>>) -> bool {
    match out {
        Ok(_) => fault is None,
        Err(FastPitchError::InvalidInput(message)) => fault == Some(message@),
        Err(_) => false,
    }
}

fn config_error<T>(message: String) -> (out: Result<T, FastPitchError>)
    ensures
        out == Err::<T, FastPitchError>(FastPitchError::InvalidConfig(message)),
{
    Err(FastPitchError::InvalidConfig(message))
}

fn input_error<T>(message: String) -> (out: Result<T, FastPitchError>)
    ensures
        out == Err::<T, FastPitchError>(FastPitchError::InvalidInput(message)),
{
    Err(FastPitchError::InvalidInput(message))
}

fn config<T>(read: Result<T, String>) -> (out: Result<T, FastPitchError>)
    ensures
        match read {
            Ok(value) => out == Ok::<T, FastPitchError>(value),
            Err(message) => out == Err::<T, FastPitchError>(FastPitchError::InvalidConfig(message)),
        },
{
    match read {
        Ok(value) => Ok(value),
        Err(message) => Err(FastPitchError::InvalidConfig(message)),
    }
}

/// Parameters of one feed-forward transformer stack.
#[derive(Debug, Clone, Copy, PartialEq, Eq, Structural)]
pub struct FeedForwardTransformerConfig {
    pub hidden_channels_ffn: usize,
    pub num_heads: usize,
    pub num_layers: usize,
    pub dropout: Double,
}

impl FeedForwardTransformerConfig {
    /// The first rule that the parameters break.
    pub open spec fn fault(self, label: Seq<char>) -> Option<Seq<char>> {
        if self.hidden_channels_ffn == 0 || self.num_heads == 0 || self.num_layers == 0 {
            Some(label + " FFN channels, heads, and layers must be positive"@)
        } else if !self.dropout.unit_interval() {
            Some(label + " dropout must be in [0, 1)"@)
        } else {
            None
        }
    }

    /// The parameters that a document holds, where each can be read.
    pub open spec fn of(value: Json) -> Self {
        FeedForwardTransformerConfig {
            hidden_channels_ffn: usize_of(value, "hidden_channels_ffn"@)->Ok_0,
            num_heads: usize_of(value, "num_heads"@)->Ok_0,
            num_layers: usize_of(value, "num_layers"@)->Ok_0,
            dropout: number_of(value, "dropout_p"@)->Ok_0,
        }
    }

    /// The first reason why a document does not hold valid parameters.
    pub open spec fn reading_fault(value: Json, label: Seq<char>) -> Option<Seq<char>> {
        first(
            fault_of(usize_of(value, "hidden_channels_ffn"@)),
            first(
                fault_of(usize_of(value, "num_heads"@)),
                first(
                    fault_of(usize_of(value, "num_layers"@)),
                    first(
                        fault_of(number_of(value, "dropout_p"@)),
                        Self::of(value).fault(label),
                    ),
                ),
            ),
        )
    }

    pub fn from_value(value: &Json, label: &str) -> (out: Result<Self, FastPitchError>)
        ensures
            config_verdict(out, Self::reading_fault(*value, label@)),
            out matches Ok(config) ==> config == Self::of(*value),
    {
        let out = FeedForwardTransformerConfig {
            hidden_channels_ffn: config(usize_at(value, "hidden_channels_ffn"))?,
            num_heads: config(usize_at(value, "num_heads"))?,
            num_layers: config(usize_at(value, "num_layers"))?,
            dropout: config(number_at(value, "dropout_p"))?,
        };
        out.validate(label)?;
        Ok(out)
    }

    pub fn validate(&self, label: &str) -> (out: Result<(), FastPitchError>)
        ensures
            config_verdict(out, self.fault(label@)),
    {
        if self.hidden_channels_ffn == 0 || self.num_heads == 0 || self.num_layers == 0 {
            return config_error(
                with_text(label, " FFN channels, heads, and layers must be positive"),
            );
        }
        if !self.dropout.is_in_unit_interval() {
            return config_error(with_text(label, " dropout must be in [0, 1)"));
        }
        Ok(())
    }
}

/// Parameters of a FastPitch model.
#[derive(Debug, Clone, Copy, PartialEq, Eq, Structural)]
pub struct FastPitchConfig {
    pub num_chars: usize,
    pub out_channels: usize,
    pub hidden_channels: usize,
    pub positional_encoding: bool,
    pub length_scale: Double,
    pub encoder: FeedForwardTransformerConfig,
    pub decoder: FeedForwardTransformerConfig,
    pub duration_predictor_hidden_channels: usize,
    pub duration_predictor_kernel_size: usize,
    pub duration_predictor_dropout: Double,
    pub pitch_predictor_hidden_channels: usize,
    pub pitch_predictor_kernel_size: usize,
    pub pitch_predictor_dropout: Double,
    pub pitch_embedding_kernel_size: usize,
    pub use_aligner: bool,
    pub max_duration: usize,
    pub max_output_frames: usize,
}

/// The first rule that the parameters of a predictor break.
pub open spec fn predictor_fault(
    label: Seq<char>,
    hidden: usize,
    kernel: usize,
    dropout: Double,
) -> Option<Seq<char>> {
    if hidden == 0 || !odd(kernel) {
        Some(
            label
                + " hidden channels must be positive and kernel size must be positive and odd"@,
        )
    } else if !dropout.unit_interval() {
        Some(label + " dropout must be in [0, 1)"@)
    } else {
        None
    }
}

fn check_predictor(label: &str, hidden: usize, kernel: usize, dropout: Double) -> (out: Result<
    (),
    FastPitchError,
>)
    ensures
        config_verdict(out, predictor_fault(label@, hidden, kernel, dropout)),
{
    if hidden == 0 || !is_odd(kernel) {
        return config_error(
            with_text(
                label,
                " hidden channels must be positive and kernel size must be positive and odd",
            ),
        );
    }
    if !dropout.is_in_unit_interval() {
        return config_error(with_text(label, " dropout must be in [0, 1)"));
    }
    Ok(())
}

/// The transformer parameters of the released checkpoints.
pub open spec fn released_transformer() -> FeedForwardTransformerConfig {
    FeedForwardTransformerConfig {
        hidden_channels_ffn: 1_024,
        num_heads: 1,
        num_layers: 6,
        dropout: Double { bits: 0x3FB9_9999_9999_999A },
    }
}

/// The published LJSpeech architecture.
pub open spec fn ljspeech_fast_pitch() -> FastPitchConfig {
    FastPitchConfig {
        num_chars: 130,
        out_channels: 80,
        hidden_channels: 384,
        positional_encoding: true,
        length_scale: Double { bits: 0x3FF0_0000_0000_0000 },
        encoder: released_transformer(),
        decoder: released_transformer(),
        duration_predictor_hidden_channels: 256,
        duration_predictor_kernel_size: 3,
        duration_predictor_dropout: Double { bits: 0x3FB9_9999_9999_999A },
        pitch_predictor_hidden_channels: 256,
        pitch_predictor_kernel_size: 3,
        pitch_predictor_dropout: Double { bits: 0x3FB9_9999_9999_999A },
        pitch_embedding_kernel_size: 3,
        use_aligner: true,
        max_duration: 75,
        max_output_frames: 20_000,
    }
}

impl FastPitchConfig {
    /// The first rule that the parameters break.
    pub open spec fn fault(self) -> Option<Seq<char>> {
        if self.num_chars == 0 || self.out_channels == 0 || self.hidden_channels == 0 {
            Some("character, output, and hidden dimensions must be positive"@)
        } else if !multiple_of(self.hidden_channels as int, self.encoder.num_heads as int)
            || !multiple_of(self.hidden_channels as int, self.decoder.num_heads as int) {
            Some("hidden_channels must divide evenly across encoder and decoder heads"@)
        } else if self.positional_encoding && !multiple_of(self.hidden_channels as int, 2) {
            Some("hidden_channels must be even when positional encoding is enabled"@)
        } else if !self.length_scale.finite_positive() {
            Some("length_scale must be finite and positive"@)
        } else {
            first(
                predictor_fault(
                    "duration predictor"@,
                    self.duration_predictor_hidden_channels,
                    self.duration_predictor_kernel_size,
                    self.duration_predictor_dropout,
                ),
                first(
                    predictor_fault(
                        "pitch predictor"@,
                        self.pitch_predictor_hidden_channels,
                        self.pitch_predictor_kernel_size,
                        self.pitch_predictor_dropout,
                    ),
                    if !odd(self.pitch_embedding_kernel_size) {
                        Some("pitch embedding kernel size must be positive and odd"@)
                    } else if self.max_duration == 0 || self.max_output_frames == 0 {
                        Some("maximum duration and output frame limit must be positive"@)
                    } else {
                        first(self.encoder.fault("encoder"@), self.decoder.fault("decoder"@))
                    },
                ),
            )
        }
    }

    /// The parameters that a document holds, where each can be read.
    pub open spec fn of(root: Json) -> Self {
        let args = object_of(root, "model_args"@)->Ok_0;
        FastPitchConfig {
            num_chars: num_chars_of(args, published_vocabulary_size_of(root))->Ok_0,
            out_channels: usize_of(args, "out_channels"@)->Ok_0,
            hidden_channels: usize_of(args, "hidden_channels"@)->Ok_0,
            positional_encoding: bool_of(args, "positional_encoding"@)->Ok_0,
            length_scale: number_of(args, "length_scale"@)->Ok_0,
            encoder: FeedForwardTransformerConfig::of(object_of(args, "encoder_params"@)->Ok_0),
            decoder: FeedForwardTransformerConfig::of(object_of(args, "decoder_params"@)->Ok_0),
            duration_predictor_hidden_channels: usize_of(
                args,
                "duration_predictor_hidden_channels"@,
            )->Ok_0,
            duration_predictor_kernel_size: usize_of(args, "duration_predictor_kernel_size"@)->Ok_0,
            duration_predictor_dropout: number_of(args, "duration_predictor_dropout_p"@)->Ok_0,
            pitch_predictor_hidden_channels: usize_of(
                args,
                "pitch_predictor_hidden_channels"@,
            )->Ok_0,
            pitch_predictor_kernel_size: usize_of(args, "pitch_predictor_kernel_size"@)->Ok_0,
            pitch_predictor_dropout: number_of(args, "pitch_predictor_dropout_p"@)->Ok_0,
            pitch_embedding_kernel_size: usize_of(args, "pitch_embedding_kernel_size"@)->Ok_0,
            use_aligner: bool_of(args, "use_aligner"@)->Ok_0,
            max_duration: usize_of(args, "max_duration"@)->Ok_0,
            max_output_frames: 20_000,
        }
    }

    /// The first reason why a document is not the configuration of this model.
    pub open spec fn reading_fault(root: Json) -> Option<Seq<char>> {
        match string_of(root, "model"@) {
            Err(fault) => Some(fault),
            Ok(model) => if model != "fast_pitch"@ {
                Some("expected model \"fast_pitch\", got "@ + quoted(model))
            } else {
                match object_of(root, "model_args"@) {
                    Err(fault) => Some(fault),
                    Ok(args) => Self::args_fault(root, args),
                }
            },
        }
    }

    /// The first reason why the arguments of a document cannot be used.
    pub open spec fn args_fault(root: Json, args: Json) -> Option<Seq<char>> {
        let remark = "; the released checkpoint uses fftransformer"@;
        first(
            type_fault(args, "encoder_type"@, "fftransformer"@, remark),
            first(
                type_fault(args, "decoder_type"@, "fftransformer"@, remark),
                first(
                    single_speaker_fault(
                    args,
                    "the released LJSpeech FastPitch checkpoint is single-speaker"@,
                ),
                    first(
                        fault_of(num_chars_of(args, published_vocabulary_size_of(root))),
                        first(
                            fault_of(usize_of(args, "out_channels"@)),
                            first(
                                fault_of(usize_of(args, "hidden_channels"@)),
                                first(
                                    fault_of(bool_of(args, "positional_encoding"@)),
                                    first(
                                        fault_of(number_of(args, "length_scale"@)),
                                        Self::stacks_fault(root, args),
                                    ),
                                ),
                            ),
                        ),
                    ),
                ),
            ),
        )
    }

    /// The first reason why the transformer stacks of a document cannot be used, or what
    /// follows them.
    pub open spec fn stacks_fault(root: Json, args: Json) -> Option<Seq<char>> {
        first(
            nested_fault(args, "encoder_params"@, "encoder"@),
            first(
                nested_fault(args, "decoder_params"@, "decoder"@),
                first(
                    fault_of(usize_of(args, "duration_predictor_hidden_channels"@)),
                    first(
                        fault_of(usize_of(args, "duration_predictor_kernel_size"@)),
                        first(
                            fault_of(number_of(args, "duration_predictor_dropout_p"@)),
                            first(
                                fault_of(usize_of(args, "pitch_predictor_hidden_channels"@)),
                                first(
                                    fault_of(usize_of(args, "pitch_predictor_kernel_size"@)),
                                    first(
                                        fault_of(number_of(args, "pitch_predictor_dropout_p"@)),
                                        first(
                                            fault_of(usize_of(args, "pitch_embedding_kernel_size"@)),
                                            first(
                                                fault_of(bool_of(args, "use_aligner"@)),
                                                first(
                                                    fault_of(usize_of(args, "max_duration"@)),
                                                    Self::of(root).fault(),
                                                ),
                                            ),
                                        ),
                                    ),
                                ),
                            ),
                        ),
                    ),
                ),
            ),
        )
    }

    pub fn ljspeech() -> (out: Self)
        ensures
            out == ljspeech_fast_pitch(),
    {
        let transformer = FeedForwardTransformerConfig {
            hidden_channels_ffn: 1_024,
            num_heads: 1,
            num_layers: 6,
            dropout: Double { bits: 0x3FB9_9999_9999_999A },
        };
        FastPitchConfig {
            num_chars: 130,
            out_channels: 80,
            hidden_channels: 384,
            positional_encoding: true,
            length_scale: Double { bits: 0x3FF0_0000_0000_0000 },
            encoder: transformer,
            decoder: transformer,
            duration_predictor_hidden_channels: 256,
            duration_predictor_kernel_size: 3,
            duration_predictor_dropout: Double { bits: 0x3FB9_9999_9999_999A },
            pitch_predictor_hidden_channels: 256,
            pitch_predictor_kernel_size: 3,
            pitch_predictor_dropout: Double { bits: 0x3FB9_9999_9999_999A },
            pitch_embedding_kernel_size: 3,
            use_aligner: true,
            max_duration: 75,
            max_output_frames: 20_000,
        }
    }

    /// Reads the model-specific values of a compatible configuration document.
    pub fn from_json_value(root: &Json) -> (out: Result<Self, FastPitchError>)
        ensures
            config_verdict(out, Self::reading_fault(*root)),
            out matches Ok(config) ==> config == Self::of(*root) && config.fault() is None,
    {
        let model = config(string_at(root, "model"))?;
        if !same_text(model, "fast_pitch") {
            return config_error(
                with_text("expected model \"fast_pitch\", got ", quoted_text(model).as_str()),
            );
        }
        let args = config(object_at(root, "model_args"))?;
        let remark = "; the released checkpoint uses fftransformer";
        config(check_type(args, "encoder_type", "fftransformer", remark))?;
        config(check_type(args, "decoder_type", "fftransformer", remark))?;
        config(
            check_single_speaker(
                args,
                "the released LJSpeech FastPitch checkpoint is single-speaker",
            ),
        )?;
        let num_chars: usize = config(num_chars_at(root, args))?;
        let out = FastPitchConfig {
            num_chars,
            out_channels: config(usize_at(args, "out_channels"))?,
            hidden_channels: config(usize_at(args, "hidden_channels"))?,
            positional_encoding: config(bool_at(args, "positional_encoding"))?,
            length_scale: config(number_at(args, "length_scale"))?,
            encoder: FeedForwardTransformerConfig::from_value(
                config(object_at(args, "encoder_params"))?,
                "encoder",
            )?,
            decoder: FeedForwardTransformerConfig::from_value(
                config(object_at(args, "decoder_params"))?,
                "decoder",
            )?,
            duration_predictor_hidden_channels: config(
                usize_at(args, "duration_predictor_hidden_channels"),
            )?,
            duration_predictor_kernel_size: config(
                usize_at(args, "duration_predictor_kernel_size"),
            )?,
            duration_predictor_dropout: config(number_at(args, "duration_predictor_dropout_p"))?,
            pitch_predictor_hidden_channels: config(
                usize_at(args, "pitch_predictor_hidden_channels"),
            )?,
            pitch_predictor_kernel_size: config(usize_at(args, "pitch_predictor_kernel_size"))?,
            pitch_predictor_dropout: config(number_at(args, "pitch_predictor_dropout_p"))?,
            pitch_embedding_kernel_size: config(usize_at(args, "pitch_embedding_kernel_size"))?,
            use_aligner: config(bool_at(args, "use_aligner"))?,
            max_duration: config(usize_at(args, "max_duration"))?,
            max_output_frames: 20_000,
        };
        assert(out == Self::of(*root));
        out.validate()?;
        Ok(out)
    }

    pub fn validate(&self) -> (out: Result<(), FastPitchError>)
        ensures
            config_verdict(out, self.fault()),
    {
        if self.num_chars == 0 || self.out_channels == 0 || self.hidden_channels == 0 {
            return config_error(
                "character, output, and hidden dimensions must be positive".to_owned(),
            );
        }
        if !is_multiple_of(self.hidden_channels, self.encoder.num_heads) || !is_multiple_of(
            self.hidden_channels,
            self.decoder.num_heads,
        ) {
            return config_error(
                "hidden_channels must divide evenly across encoder and decoder heads".to_owned(),
            );
        }
        if self.positional_encoding && !is_multiple_of(self.hidden_channels, 2) {
            return config_error(
                "hidden_channels must be even when positional encoding is enabled".to_owned(),
            );
        }
        if !self.length_scale.is_finite_positive() {
            return config_error("length_scale must be finite and positive".to_owned());
        }
        check_predictor(
            "duration predictor",
            self.duration_predictor_hidden_channels,
            self.duration_predictor_kernel_size,
            self.duration_predictor_dropout,
        )?;
        check_predictor(
            "pitch predictor",
            self.pitch_predictor_hidden_channels,
            self.pitch_predictor_kernel_size,
            self.pitch_predictor_dropout,
        )?;
        if !is_odd(self.pitch_embedding_kernel_size) {
            return config_error("pitch embedding kernel size must be positive and odd".to_owned());
        }
        if self.max_duration == 0 || self.max_output_frames == 0 {
            return config_error(
                "maximum duration and output frame limit must be positive".to_owned(),
            );
        }
        self.encoder.validate("encoder")?;
        self.decoder.validate("decoder")?;
        Ok(())
    }
}

/// The first reason why the transformer parameters in a field cannot be used.
pub open spec fn nested_fault(args: Json, key: Seq<char>, label: Seq<char>) -> Option<Seq<char>> {
    match object_of(args, key) {
        Err(fault) => Some(fault),
        Ok(value) => FeedForwardTransformerConfig::reading_fault(value, label),
    }
}

/// The layers of a transformer stack, all of the same sizes.
#[derive(Debug, Clone, Copy, PartialEq, Eq, Structural)]
pub struct TransformerLayers {
    pub channels: usize,
    pub num_heads: usize,
    pub channels_per_head: usize,
    pub projection_channels: usize,
    pub conv1: Conv,
    pub conv2: Conv,
    pub num_layers: usize,
}

impl TransformerLayers {
    /// The layers keep the length of a sequence, and their projection turns each of its frames
    /// into the given number of bins.
    pub open spec fn decodes(self, projection: Conv, length: int, bins: usize) -> bool {
        &&& self.conv1.channels_in == self.channels
        &&& self.conv1.output_length(length) == length
        &&& self.conv2.channels_in == self.conv1.channels_out
        &&& self.conv2.output_length(length) == length
        &&& self.conv2.channels_out == self.channels
        &&& projection.channels_in == self.channels
        &&& projection.output_length(length) == length
        &&& projection.channels_out == bins
    }
}

pub open spec fn transformer(channels: usize, config: FeedForwardTransformerConfig) -> TransformerLayers {
    TransformerLayers {
        channels,
        num_heads: config.num_heads,
        channels_per_head: (channels / config.num_heads) as usize,
        projection_channels: (channels * 3) as usize,
        conv1: centered(channels, config.hidden_channels_ffn, 3),
        conv2: centered(config.hidden_channels_ffn, channels, 3),
        num_layers: config.num_layers,
    }
}

pub fn transformer_layers(channels: usize, config: &FeedForwardTransformerConfig) -> (out:
    TransformerLayers)
    requires
        config.num_heads > 0,
        channels * 3 <= usize::MAX,
    ensures
        out == transformer(channels, *config),
{
    TransformerLayers {
        channels,
        num_heads: config.num_heads,
        channels_per_head: channels / config.num_heads,
        projection_channels: channels * 3,
        conv1: centered_conv(channels, config.hidden_channels_ffn, 3),
        conv2: centered_conv(config.hidden_channels_ffn, channels, 3),
        num_layers: config.num_layers,
    }
}

/// The heads of an attention layer share its channels without remainder.
pub proof fn heads_share_channels(channels: usize, config: FeedForwardTransformerConfig)
    requires
        config.num_heads > 0,
        multiple_of(channels as int, config.num_heads as int),
    ensures
        transformer(channels, config).channels_per_head * config.num_heads == channels,
{
    vstd::arithmetic::div_mod::lemma_fundamental_div_mod(
        channels as int,
        config.num_heads as int,
    );
    vstd::arithmetic::mul::lemma_mul_is_commutative(
        channels as int / config.num_heads as int,
        config.num_heads as int,
    );
}

/// Everything that is needed to build the network.
#[derive(Debug, Clone, Copy, PartialEq, Eq, Structural)]
pub struct FastPitchTopology {
    pub num_chars: usize,
    pub hidden_channels: usize,
    pub encoder: TransformerLayers,
    pub decoder: TransformerLayers,
    pub postnet: Conv,
    pub duration_predictor: DurationPredictorLayers,
    pub pitch_predictor: DurationPredictorLayers,
    pub pitch_embedding: Conv,
    pub positional: bool,
    pub aligner: Option<AlignerLayers>,
}

/// Scales, shifts and the shapes of what a caller fixes beforehand.
#[derive(Debug, Clone, Copy, PartialEq, Eq)]
pub struct FastPitchControls {
    pub length_scale: Double,
    pub pitch_scale: Double,
    pub pitch_shift: Double,
    pub durations: Option<[usize; 2]>,
    pub pitch: Option<[usize; 3]>,
}

impl Default for FastPitchControls {
    fn default() -> (out: Self)
        ensures
            out == neutral_controls(),
    {
        FastPitchControls {
            length_scale: Double { bits: 0x3FF0_0000_0000_0000 },
            pitch_scale: Double { bits: 0x3FF0_0000_0000_0000 },
            pitch_shift: Double { bits: 0 },
            durations: None,
            pitch: None,
        }
    }
}

/// Controls that change nothing.
pub open spec fn neutral_controls() -> FastPitchControls {
    FastPitchControls {
        length_scale: Double { bits: 0x3FF0_0000_0000_0000 },
        pitch_scale: Double { bits: 0x3FF0_0000_0000_0000 },
        pitch_shift: Double { bits: 0 },
        durations: None,
        pitch: None,
    }
}

/// Explicit durations have one row per batch item and one column per token.
pub open spec fn durations_fault(durations: Option<[usize; 2]>, batch: usize, tokens: usize) -> Option<
    Seq<char>,
> {
    match durations {
        Some(shape) => unless(
            shape@ == seq![batch, tokens],
            "explicit durations have shape "@ + shape_text(shape@) + "; expected "@ + shape_text(
                seq![batch, tokens],
            ),
        ),
        None => None,
    }
}

/// Explicit values have one channel and one column per token.
pub open spec fn variance_fault(
    label: Seq<char>,
    values: Option<[usize; 3]>,
    batch: usize,
    tokens: usize,
) -> Option<Seq<char>> {
    match values {
        Some(shape) => unless(
            shape@ == seq![batch, 1, tokens],
            "explicit "@ + label + " has shape "@ + shape_text(shape@) + "; expected "@ + shape_text(
                seq![batch, 1, tokens],
            ),
        ),
        None => None,
    }
}

/// The message where explicit durations do not fit a batch.
pub fn check_durations(durations: &Option<[usize; 2]>, batch: usize, tokens: usize) -> (out: Option<
    String,
>)
    ensures
        match out {
            None => durations_fault(*durations, batch, tokens) is None,
            Some(message) => durations_fault(*durations, batch, tokens) == Some(message@),
        },
{
    if let Some(shape) = durations {
        let same = shape[0] == batch && shape[1] == tokens;
        assert(same == (shape@ =~= seq![batch, tokens]));
        if !same {
            let expected: [usize; 2] = [batch, tokens];
            assert(expected@ =~= seq![batch, tokens]);
            let mut message = with_text(
                "explicit durations have shape ",
                shape_string(shape.as_slice()).as_str(),
            );
            message.append("; expected ");
            message.append(shape_string(expected.as_slice()).as_str());
            return Some(message);
        }
    }
    None
}

/// The message where explicit values do not fit a batch.
pub fn check_variance(label: &str, values: &Option<[usize; 3]>, batch: usize, tokens: usize) -> (out:
    Option<String>)
    ensures
        match out {
            None => variance_fault(label@, *values, batch, tokens) is None,
            Some(message) => variance_fault(label@, *values, batch, tokens) == Some(message@),
        },
{
    if let Some(shape) = values {
        let same = shape[0] == batch && shape[1] == 1 && shape[2] == tokens;
        assert(same == (shape@ =~= seq![batch, 1, tokens]));
        if !same {
            let expected: [usize; 3] = [batch, 1, tokens];
            assert(expected@ =~= seq![batch, 1, tokens]);
            let mut message = with_text("explicit ", label);
            message.append(" has shape ");
            message.append(shape_string(shape.as_slice()).as_str());
            message.append("; expected ");
            message.append(shape_string(expected.as_slice()).as_str());
            return Some(message);
        }
    }
    None
}

/// Where the durations and the pitch of a batch come from.
#[derive(Debug, Clone, Copy, PartialEq, Eq, Structural)]
pub struct FastPitchPlan {
    pub batch: usize,
    pub tokens: usize,
    pub predict_durations: bool,
    pub predict_pitch: bool,
}

/// The shapes of what the network emits.
#[derive(Debug, Clone, Copy, PartialEq, Eq)]
pub struct FastPitchShapes {
    pub mel: [usize; 3],
    pub durations: [usize; 2],
    pub pitch: [usize; 3],
}

impl FastPitchConfig {
    /// The layer sizes are representable.
    pub open spec fn buildable(self) -> bool {
        &&& self.hidden_channels * 3 <= usize::MAX
        &&& self.use_aligner ==> self.out_channels * 2 <= usize::MAX
    }

    /// The network of the model.
    pub open spec fn built(self) -> FastPitchTopology {
        let hidden = self.hidden_channels;
        FastPitchTopology {
            num_chars: self.num_chars,
            hidden_channels: hidden,
            encoder: transformer(hidden, self.encoder),
            decoder: transformer(hidden, self.decoder),
            postnet: pointwise(hidden, self.out_channels),
            duration_predictor: duration_predictor(
                hidden,
                self.duration_predictor_hidden_channels,
                self.duration_predictor_kernel_size,
            ),
            pitch_predictor: duration_predictor(
                hidden,
                self.pitch_predictor_hidden_channels,
                self.pitch_predictor_kernel_size,
            ),
            pitch_embedding: centered(1, hidden, self.pitch_embedding_kernel_size),
            positional: self.positional_encoding,
            aligner: if self.use_aligner {
                Some(aligner(self.out_channels, hidden, self.out_channels))
            } else {
                None
            },
        }
    }

    /// The network of a valid configuration.
    pub fn topology(&self) -> (out: Result<FastPitchTopology, FastPitchError>)
        requires
            self.fault() is None ==> self.buildable(),
        ensures
            config_verdict(out, self.fault()),
            out matches Ok(topology) ==> topology == self.built(),
    {
        self.validate()?;
        let hidden: usize = self.hidden_channels;
        let aligner = if self.use_aligner {
            Some(aligner_layers(self.out_channels, hidden, self.out_channels))
        } else {
            None
        };
        Ok(
            FastPitchTopology {
                num_chars: self.num_chars,
                hidden_channels: hidden,
                encoder: transformer_layers(hidden, &self.encoder),
                decoder: transformer_layers(hidden, &self.decoder),
                postnet: pointwise_conv(hidden, self.out_channels),
                duration_predictor: duration_predictor_layers(
                    hidden,
                    self.duration_predictor_hidden_channels,
                    self.duration_predictor_kernel_size,
                ),
                pitch_predictor: duration_predictor_layers(
                    hidden,
                    self.pitch_predictor_hidden_channels,
                    self.pitch_predictor_kernel_size,
                ),
                pitch_embedding: centered_conv(1, hidden, self.pitch_embedding_kernel_size),
                positional: self.positional_encoding,
                aligner,
            },
        )
    }

    /// The first reason why a batch cannot be synthesized under the given controls.
    pub open spec fn inference_fault(
        self,
        tokens: TokenBatch,
        controls: FastPitchControls,
        ids_validated_on_host: bool,
    ) -> Option<Seq<char>> {
        if !controls.length_scale.finite_positive() {
            Some("length_scale must be finite and positive"@)
        } else if !controls.pitch_scale.finite_positive() {
            Some("pitch_scale must be finite and positive"@)
        } else if !controls.pitch_shift.finite() {
            Some("pitch_shift must be finite"@)
        } else if !tokens.non_empty() {
            Some("token_ids must have non-empty [batch, tokens] dimensions"@)
        } else if !ids_validated_on_host && !highest_within(tokens.ids@, self.num_chars as int) {
            Some(outside_vocabulary(highest(tokens.ids@), self.num_chars as int))
        } else {
            first(
                durations_fault(controls.durations, tokens.batch, tokens.tokens),
                variance_fault("pitch"@, controls.pitch, tokens.batch, tokens.tokens),
            )
        }
    }

    /// The controls of an inference without explicit ones.
    pub fn default_controls(&self) -> (out: FastPitchControls)
        ensures
            out == (FastPitchControls { length_scale: self.length_scale, ..neutral_controls() }),
    {
        let neutral = FastPitchControls::default();
        FastPitchControls { length_scale: self.length_scale, ..neutral }
    }

    /// Decides where the durations and the pitch of a batch come from.
    pub fn plan_inference(
        &self,
        tokens: &TokenBatch,
        controls: &FastPitchControls,
        ids_validated_on_host: bool,
    ) -> (out: Result<FastPitchPlan, FastPitchError>)
        requires
            tokens.wf(),
        ensures
            input_verdict(out, self.inference_fault(*tokens, *controls, ids_validated_on_host)),
            out matches Ok(plan) ==> plan == (FastPitchPlan {
                batch: tokens.batch,
                tokens: tokens.tokens,
                predict_durations: controls.durations is None,
                predict_pitch: controls.pitch is None,
            }),
    {
        if !controls.length_scale.is_finite_positive() {
            return input_error("length_scale must be finite and positive".to_owned());
        }
        if !controls.pitch_scale.is_finite_positive() {
            return input_error("pitch_scale must be finite and positive".to_owned());
        }
        if !controls.pitch_shift.is_finite() {
            return input_error("pitch_shift must be finite".to_owned());
        }
        if tokens.batch == 0 || tokens.tokens == 0 {
            return input_error(
                "token_ids must have non-empty [batch, tokens] dimensions".to_owned(),
            );
        }
        if !ids_validated_on_host {
            if let Some(message) = vocabulary_fault(tokens, self.num_chars) {
                return input_error(message);
            }
        }
        if let Some(message) = check_durations(&controls.durations, tokens.batch, tokens.tokens) {
            return input_error(message);
        }
        if let Some(message) = check_variance(
            "pitch",
            &controls.pitch,
            tokens.batch,
            tokens.tokens,
        ) {
            return input_error(message);
        }
        Ok(
            FastPitchPlan {
                batch: tokens.batch,
                tokens: tokens.tokens,
                predict_durations: controls.durations.is_none(),
                predict_pitch: controls.pitch.is_none(),
            },
        )
    }

    /// Expands conditioned tokens to the frames that the decoder reads.
    pub fn expand<T: Copy>(
        &self,
        encoded: &Vec<Vec<Vec<T>>>,
        durations: &Vec<Vec<usize>>,
        fill: T,
    ) -> (out: Result<Expanded<T>, FastPitchError>)
        requires
            aligned_with(encoded@, durations@),
        ensures
            input_verdict(
                out,
                expansion_fault(requested_frames(durations@), self.max_output_frames as int),
            ),
            out matches Ok(expanded) ==> expanded.expands(encoded@, durations@, fill),
    {
        match expand_by_durations(encoded, durations, fill, self.max_output_frames) {
            Ok(expanded) => Ok(expanded),
            Err(error) => input_error(error.describe()),
        }
    }

    /// Which frames attend to which tokens, where durations need not be whole.
    pub fn attend(
        &self,
        starts: &Vec<Vec<Double>>,
        ends: &Vec<Vec<Double>>,
        lengths: &Vec<Double>,
        latest: Double,
    ) -> (out: Result<Attention, FastPitchError>)
        requires
            paired(starts@, ends@),
        ensures
            input_verdict(
                out,
                expansion_fault(latest.saturated(), self.max_output_frames as int),
            ),
            out matches Ok(attention) ==> attention.follows(starts@, ends@, lengths@, latest),
    {
        match attend_by_durations(starts, ends, lengths, latest, self.max_output_frames) {
            Ok(attention) => Ok(attention),
            Err(error) => input_error(error.describe()),
        }
    }

    /// The shapes of what the network emits for a batch that expands to the given frames.
    pub fn output_shapes(&self, plan: &FastPitchPlan, frames: usize) -> (out: FastPitchShapes)
        ensures
            out.mel@ == seq![plan.batch, frames, self.out_channels],
            out.durations@ == seq![plan.batch, plan.tokens],
            out.pitch@ == seq![plan.batch, 1, plan.tokens],
    {
        let out = FastPitchShapes {
            mel: [plan.batch, frames, self.out_channels],
            durations: [plan.batch, plan.tokens],
            pitch: [plan.batch, 1, plan.tokens],
        };
        assert(out.mel@ =~= seq![plan.batch, frames, self.out_channels]);
        assert(out.durations@ =~= seq![plan.batch, plan.tokens]);
        assert(out.pitch@ =~= seq![plan.batch, 1, plan.tokens]);
        out
    }

    /// Whether a checkpoint fits the network exactly.
    pub fn check_checkpoint(report: &LoadReport) -> (out: Result<(), FastPitchError>)
        ensures
            match out {
                Ok(_) => report.fits(Subtree::Learned),
                Err(FastPitchError::Checkpoint(message)) => !report.fits(Subtree::Learned)
                    && message@ == report.counted(
                    whole_model_heading(),
                    Subtree::Learned,
                    " load errors, unexpected tensors: "@,
                    ""@,
                ),
                Err(_) => false,
            },
    {
        match report.fault_counted(
            "checkpoint does not exactly match the Burn model: ",
            Subtree::Learned,
            " load errors, unexpected tensors: ",
            "",
        ) {
            None => Ok(()),
            Some(message) => Err(FastPitchError::Checkpoint(message)),
        }
    }

    /// How checkpoint names become parameter names, as patterns and replacements.
    pub fn key_remappings() -> (out: Vec<(&'static str, &'static str)>)
        ensures
            out@ == seq![
                (r"(\.norm_[12])\.weight$", "$1.gamma"),
                (r"(\.norm_[12])\.bias$", "$1.beta"),
                (r"(\.norm[12])\.weight$", "$1.gamma"),
                (r"(\.norm[12])\.bias$", "$1.beta"),
            ],
    {
        vec![
            (r"(\.norm_[12])\.weight$", "$1.gamma"),
            (r"(\.norm_[12])\.bias$", "$1.beta"),
            (r"(\.norm[12])\.weight$", "$1.gamma"),
            (r"(\.norm[12])\.bias$", "$1.beta"),
        ]
    }
}

/// The first reason why an expansion is refused, in the words of the layer that refuses it.
pub open spec fn expansion_fault(requested: int, limit: int) -> Option<Seq<char>> {
    match frames_fault(requested, limit) {
        None => None,
        Some(message) => Some("invalid SpeedySpeech input: "@ + message),
    }
}

/// The published architecture is valid and can be built.
pub proof fn ljspeech_fast_pitch_is_valid()
    ensures
        ljspeech_fast_pitch().fault() is None,
        ljspeech_fast_pitch().buildable(),
{
}

/// The spectrogram has a row for each row of the batch, a frame for each frame that the longest
/// row of durations asks for, and the bins of the configuration: the decoder reads that many
/// frames, keeps them, and projects each.
pub proof fn spectrogram_follows_expansion<T>(
    config: FastPitchConfig,
    encoded: Seq<Vec<Vec<T>>>,
    durations: Seq<Vec<usize>>,
    fill: T,
    expanded: Expanded<T>,
)
    requires
        aligned_with(encoded, durations),
        expanded.expands(encoded, durations, fill),
    ensures
        expanded.values.len() == durations.len(),
        expanded.frames == longest(durations),
        forall|b: int, c: int|
            0 <= b < encoded.len() && 0 <= c < encoded[b].len() ==> (
            #[trigger] expanded.values[b][c]).len() == longest(durations),
        config.built().decoder.decodes(
            config.built().postnet,
            expanded.frames as int,
            config.out_channels,
        ),
{
    assert forall|b: int, c: int| 0 <= b < encoded.len() && 0 <= c < encoded[b].len() implies (
    #[trigger] expanded.values[b][c]).len() == longest(durations) by {
        assert(row_expanded(
            expanded.values[b]@,
            encoded[b]@,
            durations[b]@,
            fill,
            expanded.frames as int,
        ));
    }
}

/// A document holds the parameters of a transformer stack, each under its name.
pub open spec fn says_transformer(value: Json, stack: FeedForwardTransformerConfig) -> bool {
    &&& says_size(value, "hidden_channels_ffn"@, stack.hidden_channels_ffn)
    &&& says_size(value, "num_heads"@, stack.num_heads)
    &&& says_size(value, "num_layers"@, stack.num_layers)
    &&& says_number(value, "dropout_p"@, stack.dropout)
}

/// A transformer stack is valid exactly where it has hidden channels, heads and layers, and a rate
/// from zero up to but not at one.
pub proof fn transformers_are_valid_on_their_merits(
    stack: &FeedForwardTransformerConfig,
    label: &str,
    out: Result<(), FastPitchError>,
)
    requires
        call_ensures(FeedForwardTransformerConfig::validate, (stack, label), out),
    ensures
        out is Ok <==> {
            &&& stack.hidden_channels_ffn > 0 && stack.num_heads > 0 && stack.num_layers > 0
            &&& !stack.dropout.nan() && 0 <= stack.dropout.rank() < 0x3FF0_0000_0000_0000
        },
        out matches Err(error) ==> error is InvalidConfig,
{
}

/// What is read of a transformer stack is what the document says, and a valid stack that the
/// document says is read.
pub proof fn transformers_are_read(
    value: &Json,
    label: &str,
    expected: &FeedForwardTransformerConfig,
    valid: Result<(), FastPitchError>,
    out: Result<FeedForwardTransformerConfig, FastPitchError>,
)
    requires
        call_ensures(FeedForwardTransformerConfig::from_value, (value, label), out),
        call_ensures(FeedForwardTransformerConfig::validate, (expected, label), valid),
    ensures
        out matches Ok(stack) ==> says_transformer(*value, stack),
        out matches Ok(stack) ==> (stack == *expected ==> valid is Ok),
        valid is Ok && says_transformer(*value, *expected) ==> out == Ok::<
            FeedForwardTransformerConfig,
            FastPitchError,
        >(*expected),
        out matches Err(error) ==> error is InvalidConfig,
{
    transformers_are_said(*value, label@, *expected);
    if let Ok(stack) = out {
        transformers_are_said(*value, label@, stack);
    }
}

/// A stack is read exactly where the document says it and it is valid.
pub proof fn transformers_are_said(
    value: Json,
    label: Seq<char>,
    stack: FeedForwardTransformerConfig,
)
    ensures
        FeedForwardTransformerConfig::reading_fault(value, label) is None
            && FeedForwardTransformerConfig::of(value) == stack <==> says_transformer(value, stack)
            && stack.fault(label) is None,
{
    reading_is_saying(value, "hidden_channels_ffn"@);
    reading_is_saying(value, "num_heads"@);
    reading_is_saying(value, "num_layers"@);
    reading_is_saying(value, "dropout_p"@);
    if says_transformer(value, stack) {
        assert(FeedForwardTransformerConfig::of(value) == stack);
    }
}

/// A model is valid exactly where all its sizes are positive, its scales and rates in bounds, its
/// kernels odd, its channels shared evenly among the heads and even where positions are added, and
/// both stacks are valid.
pub proof fn fast_pitch_is_valid_on_its_merits(
    config: &FastPitchConfig,
    label: &str,
    encoder: Result<(), FastPitchError>,
    decoder: Result<(), FastPitchError>,
    out: Result<(), FastPitchError>,
)
    requires
        call_ensures(FastPitchConfig::validate, (config,), out),
        call_ensures(FeedForwardTransformerConfig::validate, (&config.encoder, label), encoder),
        call_ensures(FeedForwardTransformerConfig::validate, (&config.decoder, label), decoder),
    ensures
        out is Ok <==> {
            &&& config.num_chars > 0 && config.out_channels > 0 && config.hidden_channels > 0
            &&& encoder is Ok && decoder is Ok
            &&& config.hidden_channels as int % config.encoder.num_heads as int == 0
            &&& config.hidden_channels as int % config.decoder.num_heads as int == 0
            &&& config.positional_encoding ==> config.hidden_channels % 2 == 0
            &&& config.length_scale.finite() && config.length_scale.rank() > 0
            &&& config.duration_predictor_hidden_channels > 0
                && config.pitch_predictor_hidden_channels > 0
            &&& config.duration_predictor_kernel_size % 2 == 1 && config.pitch_predictor_kernel_size
                % 2 == 1 && config.pitch_embedding_kernel_size % 2 == 1
            &&& !config.duration_predictor_dropout.nan() && !config.pitch_predictor_dropout.nan()
            &&& 0 <= config.duration_predictor_dropout.rank() < 0x3FF0_0000_0000_0000
            &&& 0 <= config.pitch_predictor_dropout.rank() < 0x3FF0_0000_0000_0000
            &&& config.max_duration > 0 && config.max_output_frames > 0
        },
        out matches Err(error) ==> error is InvalidConfig,
{
}

/// A document holds the parameters of a model, each under its name; it is for one speaker, and the
/// limit of frames is the usual one.
pub open spec fn says_fast_pitch(root: Json, config: FastPitchConfig) -> bool {
    &&& says_text(root, "model"@, "fast_pitch"@)
    &&& root.field("model_args"@) matches Some(args) && {
        &&& args is Object
        &&& says_text(args, "encoder_type"@, "fftransformer"@)
        &&& says_text(args, "decoder_type"@, "fftransformer"@)
        &&& says_one_speaker(args)
        &&& says_characters(root, args, config.num_chars)
        &&& says_size(args, "out_channels"@, config.out_channels)
        &&& says_size(args, "hidden_channels"@, config.hidden_channels)
        &&& says_flag(args, "positional_encoding"@, config.positional_encoding)
        &&& says_number(args, "length_scale"@, config.length_scale)
        &&& args.field("encoder_params"@) matches Some(value) && value is Object
            && says_transformer(value, config.encoder)
        &&& args.field("decoder_params"@) matches Some(value) && value is Object
            && says_transformer(value, config.decoder)
        &&& says_size(
            args,
            "duration_predictor_hidden_channels"@,
            config.duration_predictor_hidden_channels,
        )
        &&& says_size(
            args,
            "duration_predictor_kernel_size"@,
            config.duration_predictor_kernel_size,
        )
        &&& says_number(args, "duration_predictor_dropout_p"@, config.duration_predictor_dropout)
        &&& says_size(
            args,
            "pitch_predictor_hidden_channels"@,
            config.pitch_predictor_hidden_channels,
        )
        &&& says_size(args, "pitch_predictor_kernel_size"@, config.pitch_predictor_kernel_size)
        &&& says_number(args, "pitch_predictor_dropout_p"@, config.pitch_predictor_dropout)
        &&& says_size(args, "pitch_embedding_kernel_size"@, config.pitch_embedding_kernel_size)
        &&& says_flag(args, "use_aligner"@, config.use_aligner)
        &&& says_size(args, "max_duration"@, config.max_duration)
    }
    &&& config.max_output_frames == 20_000
}

/// What is read of a document is what it says; and where it says all that belongs to a valid
/// model, it is read.
pub proof fn fast_pitch_documents_are_read(
    root: &Json,
    expected: &FastPitchConfig,
    valid: Result<(), FastPitchError>,
    out: Result<FastPitchConfig, FastPitchError>,
)
    requires
        call_ensures(FastPitchConfig::from_json_value, (root,), out),
        call_ensures(FastPitchConfig::validate, (expected,), valid),
    ensures
        out matches Ok(config) ==> says_fast_pitch(*root, config),
        out matches Ok(config) ==> (config == *expected ==> valid is Ok),
        valid is Ok && says_fast_pitch(*root, *expected) ==> out == Ok::<
            FastPitchConfig,
            FastPitchError,
        >(*expected),
        out matches Err(error) ==> error is InvalidConfig,
{
    arguments_are_said(*root);
    if out is Ok || says_fast_pitch(*root, *expected) {
        let args = root.field("model_args"@)->0;
        assert(object_of(*root, "model_args"@) == Ok::<Json, Seq<char>>(args));
        let encoder = args.field("encoder_params"@)->0;
        let decoder = args.field("decoder_params"@)->0;
        assert(object_of(args, "encoder_params"@) == Ok::<Json, Seq<char>>(encoder));
        assert(object_of(args, "decoder_params"@) == Ok::<Json, Seq<char>>(decoder));
        arguments_are_said(args);
        one_speaker_is_said(
            args,
            "the released LJSpeech FastPitch checkpoint is single-speaker"@,
        );
        let remark = "; the released checkpoint uses fftransformer"@;
        types_are_said(args, "encoder_type"@, "fftransformer"@, remark);
        types_are_said(args, "decoder_type"@, "fftransformer"@, remark);
        counting_is_saying(*root, args);
        if let Ok(config) = out {
            transformers_are_said(encoder, "encoder"@, config.encoder);
            transformers_are_said(decoder, "decoder"@, config.decoder);
            assert(says_characters(*root, args, config.num_chars));
            assert(says_fast_pitch(*root, config));
        }
        if valid is Ok && says_fast_pitch(*root, *expected) {
            transformers_are_said(encoder, "encoder"@, expected.encoder);
            transformers_are_said(decoder, "decoder"@, expected.decoder);
            assert(FastPitchConfig::of(*root) == *expected);
            assert(FastPitchConfig::reading_fault(*root) is None);
        }
    }
}

/// The released model is the published one: its sizes, its rates of a tenth, a length scale of
/// one.
pub proof fn released_fast_pitch_is_as_published(
    out: FastPitchConfig,
    valid: Result<(), FastPitchError>,
)
    requires
        call_ensures(FastPitchConfig::ljspeech, (), out),
        call_ensures(FastPitchConfig::validate, (&out,), valid),
    ensures
        valid is Ok,
        out.num_chars == 130 && out.out_channels == 80 && out.hidden_channels == 384,
        out.positional_encoding && out.use_aligner,
        out.length_scale.bits == 0x3FF0_0000_0000_0000,
        out.encoder == out.decoder,
        out.encoder.hidden_channels_ffn == 1_024 && out.encoder.num_heads == 1
            && out.encoder.num_layers == 6,
        out.encoder.dropout.bits == 0x3FB9_9999_9999_999A,
        out.duration_predictor_hidden_channels == 256 && out.pitch_predictor_hidden_channels == 256,
        out.duration_predictor_kernel_size == 3 && out.pitch_predictor_kernel_size == 3
            && out.pitch_embedding_kernel_size == 3,
        out.duration_predictor_dropout == out.encoder.dropout && out.pitch_predictor_dropout
            == out.encoder.dropout,
        out.max_duration == 75 && out.max_output_frames == 20_000,
{
}

/// A transformer stack keeps its channels, shares them among its heads, projects to queries, keys
/// and values at once, and runs through its hidden channels by kernels of three frames.
pub proof fn transformer_layers_fit(
    channels: usize,
    config: &FeedForwardTransformerConfig,
    out: TransformerLayers,
    length: int,
)
    requires
        config.num_heads > 0,
        channels * 3 <= usize::MAX,
        call_ensures(transformer_layers, (channels, config), out),
    ensures
        out.channels == channels && out.num_heads == config.num_heads && out.num_layers
            == config.num_layers,
        0 <= channels - out.channels_per_head * out.num_heads < out.num_heads,
        out.projection_channels == 3 * channels,
        out.conv1.channels_in == channels && out.conv1.channels_out == config.hidden_channels_ffn,
        out.conv2.channels_in == config.hidden_channels_ffn && out.conv2.channels_out == channels,
        out.conv1.kernel_size == 3 && out.conv2.kernel_size == 3,
        out.conv1.output_length(length) == length && out.conv2.output_length(length) == length,
{
    let heads = config.num_heads as int;
    vstd::arithmetic::div_mod::lemma_fundamental_div_mod(channels as int, heads);
    assert(channels as int / heads * heads == heads * (channels as int / heads))
        by (nonlinear_arith);
}

/// The network has a stack on either side of its hidden channels, predictors of durations and
/// pitch that read them, an embedding of one value of pitch into them, and a projection of them to
/// bins. An aligner is there exactly where it is used.
pub proof fn fast_pitch_layers_fit(
    config: &FastPitchConfig,
    topology: FastPitchTopology,
    encoder: TransformerLayers,
    decoder: TransformerLayers,
    durations: DurationPredictorLayers,
    pitch: DurationPredictorLayers,
    aligned: AlignerLayers,
    length: int,
)
    requires
        config.buildable(),
        config.out_channels * 2 <= usize::MAX,
        call_ensures(
            FastPitchConfig::topology,
            (config,),
            Ok::<FastPitchTopology, FastPitchError>(topology),
        ),
        call_ensures(transformer_layers, (config.hidden_channels, &config.encoder), encoder),
        call_ensures(transformer_layers, (config.hidden_channels, &config.decoder), decoder),
        call_ensures(
            duration_predictor_layers,
            (
                config.hidden_channels,
                config.duration_predictor_hidden_channels,
                config.duration_predictor_kernel_size,
            ),
            durations,
        ),
        call_ensures(
            duration_predictor_layers,
            (
                config.hidden_channels,
                config.pitch_predictor_hidden_channels,
                config.pitch_predictor_kernel_size,
            ),
            pitch,
        ),
        call_ensures(
            aligner_layers,
            (config.out_channels, config.hidden_channels, config.out_channels),
            aligned,
        ),
    ensures
        topology.num_chars == config.num_chars,
        topology.hidden_channels == config.hidden_channels,
        topology.encoder == encoder && topology.decoder == decoder,
        topology.encoder.channels_per_head * topology.encoder.num_heads == config.hidden_channels,
        topology.decoder.channels_per_head * topology.decoder.num_heads == config.hidden_channels,
        topology.postnet.channels_in == config.hidden_channels && topology.postnet.channels_out
            == config.out_channels && topology.postnet.kernel_size == 1,
        topology.postnet.output_length(length) == length,
        topology.duration_predictor == durations && topology.pitch_predictor == pitch,
        topology.pitch_embedding.channels_in == 1 && topology.pitch_embedding.channels_out
            == config.hidden_channels && topology.pitch_embedding.kernel_size
            == config.pitch_embedding_kernel_size,
        topology.pitch_embedding.output_length(length) == length,
        topology.positional == config.positional_encoding,
        topology.aligner is Some <==> config.use_aligner,
        topology.aligner matches Some(layers) ==> layers == aligned,
{
    heads_share_channels(config.hidden_channels, config.encoder);
    heads_share_channels(config.hidden_channels, config.decoder);
}

/// A topology exists exactly where the configuration is valid.
pub proof fn valid_fast_pitch_is_built(
    config: &FastPitchConfig,
    valid: Result<(), FastPitchError>,
    out: Result<FastPitchTopology, FastPitchError>,
)
    requires
        config.fault() is None ==> config.buildable(),
        call_ensures(FastPitchConfig::validate, (config,), valid),
        call_ensures(FastPitchConfig::topology, (config,), out),
    ensures
        out is Ok <==> valid is Ok,
        out matches Err(error) ==> error is InvalidConfig,
{
}

/// Explicit durations fit exactly where there is one per token, explicit values where there is one
/// per token in one channel; what is left out fits.
pub proof fn explicit_values_fit_batches(
    durations: &Option<[usize; 2]>,
    values: &Option<[usize; 3]>,
    label: &str,
    batch: usize,
    tokens: usize,
    by_durations: Option<String>,
    by_values: Option<String>,
)
    requires
        call_ensures(check_durations, (durations, batch, tokens), by_durations),
        call_ensures(check_variance, (label, values, batch, tokens), by_values),
    ensures
        by_durations is None <==> (durations matches Some(shape) ==> shape@[0] == batch && shape@[1]
            == tokens),
        by_values is None <==> (values matches Some(shape) ==> shape@[0] == batch && shape@[1] == 1
            && shape@[2] == tokens),
{
    if let Some(shape) = durations {
        assert((shape@ =~= seq![batch, tokens]) <==> shape@[0] == batch && shape@[1] == tokens);
    }
    if let Some(shape) = values {
        assert((shape@ =~= seq![batch, 1, tokens]) <==> shape@[0] == batch && shape@[1] == 1
            && shape@[2] == tokens);
    }
}

/// A batch is synthesized exactly where the scales are positive, the shift is finite, there are
/// tokens that name symbols, and explicit durations and pitch have one value per token. What is
/// not given is predicted, and nothing else.
pub proof fn fast_pitch_batches_are_accepted_on_their_merits(
    config: &FastPitchConfig,
    tokens: &TokenBatch,
    controls: &FastPitchControls,
    ids_validated: bool,
    out: Result<FastPitchPlan, FastPitchError>,
)
    requires
        tokens.wf(),
        call_ensures(
            FastPitchConfig::plan_inference,
            (config, tokens, controls, ids_validated),
            out,
        ),
    ensures
        out is Ok <==> {
            &&& controls.length_scale.finite() && controls.length_scale.rank() > 0
            &&& controls.pitch_scale.finite() && controls.pitch_scale.rank() > 0
            &&& controls.pitch_shift.finite()
            &&& tokens.batch > 0 && tokens.tokens > 0
            &&& ids_validated || ((exists|i: int|
                0 <= i < tokens.ids.len() && #[trigger] tokens.ids@[i] >= 0) && forall|i: int|
                0 <= i < tokens.ids.len() ==> #[trigger] tokens.ids@[i] < config.num_chars)
            &&& controls.durations matches Some(shape) ==> shape@[0] == tokens.batch && shape@[1]
                == tokens.tokens
            &&& controls.pitch matches Some(shape) ==> shape@[0] == tokens.batch && shape@[1] == 1
                && shape@[2] == tokens.tokens
        },
        out matches Ok(plan) ==> plan.batch == tokens.batch && plan.tokens == tokens.tokens && (
        plan.predict_durations <==> controls.durations is None) && (plan.predict_pitch
            <==> controls.pitch is None),
        out matches Err(error) ==> error is InvalidInput,
{
    if tokens.batch > 0 && tokens.tokens > 0 {
        assert(tokens.ids.len() > 0) by (nonlinear_arith)
            requires
                tokens.ids.len() == tokens.batch * tokens.tokens,
                tokens.batch > 0,
                tokens.tokens > 0,
        ;
        crate::tokens::vocabularies_hold_the_largest(tokens.ids@, config.num_chars as int);
    }
    if let Some(shape) = controls.durations {
        assert((shape@ =~= seq![tokens.batch, tokens.tokens]) <==> shape@[0] == tokens.batch
            && shape@[1] == tokens.tokens);
    }
    if let Some(shape) = controls.pitch {
        assert((shape@ =~= seq![tokens.batch, 1, tokens.tokens]) <==> shape@[0] == tokens.batch
            && shape@[1] == 1 && shape@[2] == tokens.tokens);
    }
}

/// Controls that nobody set scale by one, shift by nothing and fix nothing; those of a model have
/// its length scale.
pub proof fn unset_fast_pitch_controls_change_nothing(
    config: &FastPitchConfig,
    plain: FastPitchControls,
    own: FastPitchControls,
)
    requires
        call_ensures(FastPitchControls::default, (), plain),
        call_ensures(FastPitchConfig::default_controls, (config,), own),
    ensures
        plain.length_scale.bits == 0x3FF0_0000_0000_0000,
        plain.pitch_scale.bits == 0x3FF0_0000_0000_0000,
        plain.pitch_shift.bits == 0,
        plain.durations is None && plain.pitch is None,
        own.length_scale == config.length_scale,
        own.pitch_scale == plain.pitch_scale && own.pitch_shift == plain.pitch_shift,
        own.durations is None && own.pitch is None,
{
}

/// The model expands and attends as durations say, within its own limit.
pub proof fn fast_pitch_expands_within_bounds<T: Copy>(
    config: &FastPitchConfig,
    encoded: &Vec<Vec<Vec<T>>>,
    durations: &Vec<Vec<usize>>,
    fill: T,
    plain: Result<Expanded<T>, SpeedySpeechError>,
    out: Result<Expanded<T>, FastPitchError>,
)
    requires
        aligned_with(encoded@, durations@),
        call_ensures(
            expand_by_durations::<T>,
            (encoded, durations, fill, config.max_output_frames),
            plain,
        ),
        call_ensures(FastPitchConfig::expand::<T>, (config, encoded, durations, fill), out),
    ensures
        out is Ok <==> plain is Ok,
        out matches Ok(expanded) ==> expanded.expands(encoded@, durations@, fill),
        out matches Err(error) ==> error is InvalidInput,
{
}

/// Frames attend within the same bounds: the whole part of the latest instant counts them.
pub proof fn fast_pitch_attends_within_bounds(
    config: &FastPitchConfig,
    starts: &Vec<Vec<Double>>,
    ends: &Vec<Vec<Double>>,
    lengths: &Vec<Double>,
    latest: Double,
    frames: usize,
    out: Result<Attention, FastPitchError>,
)
    requires
        paired(starts@, ends@),
        call_ensures(Double::to_usize, (latest,), frames),
        call_ensures(FastPitchConfig::attend, (config, starts, ends, lengths, latest), out),
    ensures
        out is Ok <==> 0 < frames <= config.max_output_frames && frames <= 5_000,
        out matches Ok(attention) ==> attention.frames == frames && attention.follows(
            starts@,
            ends@,
            lengths@,
            latest,
        ),
        out matches Err(error) ==> error is InvalidInput,
{
}

/// The spectrogram has the batch, the frames and the bins; durations and pitch have the batch and
/// the tokens.
pub proof fn fast_pitch_shapes_follow_plans(
    config: &FastPitchConfig,
    plan: &FastPitchPlan,
    frames: usize,
    out: FastPitchShapes,
)
    requires
        call_ensures(FastPitchConfig::output_shapes, (config, plan, frames), out),
    ensures
        out.mel@[0] == plan.batch && out.mel@[1] == frames && out.mel@[2] == config.out_channels,
        out.durations@[0] == plan.batch && out.durations@[1] == plan.tokens,
        out.pitch@[0] == plan.batch && out.pitch@[1] == 1 && out.pitch@[2] == plan.tokens,
{
}

/// A checkpoint fits exactly where nothing is missing, nothing failed, and nothing learned went
/// unused.
pub proof fn fast_pitch_checkpoints_fit_exactly(report: &LoadReport, out: Result<(), FastPitchError>)
    requires
        call_ensures(FastPitchConfig::check_checkpoint, (report,), out),
    ensures
        out is Ok <==> report.missing.len() == 0 && report.errors.len() == 0 && (forall|i: int|
            0 <= i < report.unused.len() ==> !Subtree::Learned.contains(
                #[trigger] report.unused@[i]@,
            )),
        out matches Err(error) ==> error is Checkpoint,
{
    crate::checkpoint::fitting_leaves_nothing(*report, Subtree::Learned);
}

/// The weight of a normalization becomes its scale, and the bias its shift.
pub proof fn fast_pitch_norms_are_renamed(out: Vec<(&'static str, &'static str)>)
    requires
        call_ensures(FastPitchConfig::key_remappings, (), out),
    ensures
        out.len() == 4,
        out@[0].0@ == r"(\.norm_[12])\.weight$"@ && out@[1].0@ == r"(\.norm_[12])\.bias$"@,
        out@[2].0@ == r"(\.norm[12])\.weight$"@ && out@[3].0@ == r"(\.norm[12])\.bias$"@,
        out@[0].1@ == "$1.gamma"@ && out@[2].1@ == "$1.gamma"@,
        out@[1].1@ == "$1.beta"@ && out@[3].1@ == "$1.beta"@,
{
}

/// An error says of what kind it is, and then its reason.
pub proof fn fast_pitch_errors_say_their_kind(error: &FastPitchError, out: String)
    requires
        call_ensures(FastPitchError::describe, (error,), out),
    ensures
        error matches FastPitchError::InvalidConfig(message) ==> out@ == "invalid FastPitch config: "@ + message@,
        error matches FastPitchError::InvalidInput(message) ==> out@ == "invalid FastPitch input: "@ + message@,
        error matches FastPitchError::Checkpoint(message) ==> out@ == "unable to load FastPitch checkpoint: "@ + message@,
{
}

} // verus!
