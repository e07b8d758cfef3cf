//! FastSpeech and FastSpeech 2: feed-forward transformers with predicted durations, and in the
//! second variant with pitch and energy.

use vstd::prelude::*;

use crate::checkpoint::{whole_model_heading, LoadReport, Subtree};
use crate::double::Double;
use crate::expansion::{longest, paired, Attention};
use crate::fast_pitch::{
    check_durations, check_variance, durations_fault, expansion_fault, released_transformer,
    says_transformer, transformer, transformer_layers, transformers_are_said, variance_fault,
    FastPitchError, FeedForwardTransformerConfig, TransformerLayers,
};
use crate::json::{
    arguments_are_said, bool_at, bool_of, counting_is_saying, fault_of, first, num_chars_at, num_chars_of, number_at, number_of, object_at,
    object_of, optional_bool_at, optional_bool_of, published_vocabulary_size_of,
    says_characters, says_flag, says_number, says_size, says_text, string_at, string_of, unless, usize_at, usize_of, Json,
};
use crate::layers::{
    centered, centered_conv, is_multiple_of, is_odd, multiple_of, odd, pointwise, pointwise_conv,
    Conv,
};
use crate::speedy_speech::{
    aligned_with, aligner, aligner_layers, attend_by_durations, check_type, duration_predictor,
    duration_predictor_layers, expand_by_durations, requested_frames, row_expanded, type_fault,
    types_are_said, AlignerLayers, DurationPredictorLayers, Expanded, SpeedySpeechError,
};
use crate::text::{around_text, quoted, quoted_text, same_text, with_text};
use crate::tokens::{highest, highest_within, outside_vocabulary, vocabulary_fault, TokenBatch};

verus! {

/// What a caller may set about the pitch of an utterance.
#[derive(Debug, Clone, Copy, PartialEq, Eq, Structural)]
pub struct PitchCapabilities {
    pub scale: bool,
    pub shift: bool,
    pub explicit_values: bool,
}

/// What a caller may set about the energy of an utterance.
#[derive(Debug, Clone, Copy, PartialEq, Eq, Structural)]
pub struct EnergyCapabilities {
    pub scale: bool,
    pub shift: bool,
    pub explicit_values: bool,
}

impl Default for PitchCapabilities {
    fn default() -> (out: Self)
        ensures
            !out.scale,
            !out.shift,
            !out.explicit_values,
    {
        PitchCapabilities { scale: false, shift: false, explicit_values: false }
    }
}

impl Default for EnergyCapabilities {
    fn default() -> (out: Self)
        ensures
            !out.scale,
            !out.shift,
            !out.explicit_values,
    {
        EnergyCapabilities { scale: false, shift: false, explicit_values: false }
    }
}

#[derive(Debug, Clone, Copy, PartialEq, Eq, Structural)]
pub enum FastSpeechVariant {
    FastSpeech,
    FastSpeech2,
}

impl FastSpeechVariant {
    /// Only the second variant has variance predictors.
    pub open spec fn has_variance(self) -> bool {
        self == FastSpeechVariant::FastSpeech2
    }

    pub fn supports_pitch(self) -> (out: bool)
        ensures
            out == self.has_variance(),
    {
        matches!(self, FastSpeechVariant::FastSpeech2)
    }

    pub fn supports_energy(self) -> (out: bool)
        ensures
            out == self.has_variance(),
    {
        matches!(self, FastSpeechVariant::FastSpeech2)
    }

    pub fn pitch_capabilities(self) -> (out: PitchCapabilities)
        ensures
            out == (PitchCapabilities {
                scale: self.has_variance(),
                shift: self.has_variance(),
                explicit_values: self.has_variance(),
            }),
    {
        let supported = self.supports_pitch();
        PitchCapabilities { scale: supported, shift: supported, explicit_values: supported }
    }

    pub fn energy_capabilities(self) -> (out: EnergyCapabilities)
        ensures
            out == (EnergyCapabilities {
                scale: self.has_variance(),
                shift: self.has_variance(),
                explicit_values: self.has_variance(),
            }),
    {
        let supported = self.supports_energy();
        EnergyCapabilities { scale: supported, shift: supported, explicit_values: supported }
    }

    /// Durations can be fixed for every variant.
    pub fn supports_explicit_durations(self) -> (out: bool)
        ensures
            out,
    {
        true
    }
}

/// Errors of FastSpeech configurations, inputs and checkpoints.
#[derive(Debug, Clone, PartialEq, Eq)]
pub enum FastSpeechError {
    InvalidConfig(String),
    InvalidInput(String),
    Checkpoint(String),
}

impl FastSpeechError {
    pub open spec fn described(self) -> Seq<char> {
        match self {
            FastSpeechError::InvalidConfig(message) => "invalid FastSpeech config: "@ + message@,
            FastSpeechError::InvalidInput(message) => "invalid FastSpeech input: "@ + message@,
            FastSpeechError::Checkpoint(message) => "unable to load FastSpeech checkpoint: "@ + message@,
        }
    }

    /// The error in words.
    pub fn describe(&self) -> (out: String)
        ensures
            out@ == self.described(),
    {
        match self {
            FastSpeechError::InvalidConfig(message) => with_text(
                "invalid FastSpeech config: ",
                message.as_str(),
            ),
            FastSpeechError::InvalidInput(message) => with_text(
                "invalid FastSpeech input: ",
                message.as_str(),
            ),
            FastSpeechError::Checkpoint(message) => with_text(
                "unable to load FastSpeech checkpoint: ",
                message.as_str(),
            ),
        }
    }
}

/// The outcome is an accepted configuration, or the given fault.
pub open spec fn config_verdict<T>(out: Result<T, FastSpeechError>, fault: Option<Seq<char>>) -> bool {
    match out {
        Ok(_) => fault is None,
        Err(FastSpeechError::InvalidConfig(message)) => fault == Some(message@),
        Err(_) => false,
    }
}

/// The outcome is an accepted input, or the given fault.
pub open spec fn input_verdict<T>(out: Result<T, FastSpeechError>, fault: Option<Seq<char>>) -> bool {
    match out {
        Ok(_) => fault is None,
        Err(FastSpeechError::InvalidInput(message)) => fault == Some(message@),
        Err(_) => false,
    }
}

fn config_error<T>(message: String) -> (out: Result<T, FastSpeechError>)
    ensures
        out == Err::<T, FastSpeechError>(FastSpeechError::InvalidConfig(message)),
{
    Err(FastSpeechError::InvalidConfig(message))
}

fn input_error<T>(message: String) -> (out: Result<T, FastSpeechError>)
    ensures
        out == Err::<T, FastSpeechError>(FastSpeechError::InvalidInput(message)),
{
    Err(FastSpeechError::InvalidInput(message))
}

fn config<T>(read: Result<T, String>) -> (out: Result<T, FastSpeechError>)
    ensures
        match read {
            Ok(value) => out == Ok::<T, FastSpeechError>(value),
            Err(message) => out == Err::<T, FastSpeechError>(FastSpeechError::InvalidConfig(message)),
        },
{
    match read {
        Ok(value) => Ok(value),
        Err(message) => Err(FastSpeechError::InvalidConfig(message)),
    }
}

/// Parameters of a pitch or energy predictor and of the embedding of its values.
#[derive(Debug, Clone, Copy, PartialEq, Eq, Structural)]
pub struct VariancePredictorConfig {
    pub hidden_channels: usize,
    pub kernel_size: usize,
    pub dropout: Double,
    pub embedding_kernel_size: usize,
}

impl VariancePredictorConfig {
    /// The first rule that the parameters break.
    pub open spec fn fault(self, label: Seq<char>) -> Option<Seq<char>> {
        if self.hidden_channels == 0 {
            Some(label + " predictor hidden channels must be positive"@)
        } else if !odd(self.kernel_size) {
            Some(label + " predictor kernel size must be positive and odd"@)
        } else if !self.dropout.unit_interval() {
            Some(label + " predictor dropout must be in [0, 1)"@)
        } else if !odd(self.embedding_kernel_size) {
            Some(label + " embedding kernel size must be positive and odd"@)
        } else {
            None
        }
    }

    /// The parameters that arguments hold, where each can be read.
    pub open spec fn of(args: Json, prefix: Seq<char>) -> Self {
        VariancePredictorConfig {
            hidden_channels: usize_of(args, prefix + "_predictor_hidden_channels"@)->Ok_0,
            kernel_size: usize_of(args, prefix + "_predictor_kernel_size"@)->Ok_0,
            dropout: number_of(args, prefix + "_predictor_dropout_p"@)->Ok_0,
            embedding_kernel_size: usize_of(args, prefix + "_embedding_kernel_size"@)->Ok_0,
        }
    }

    /// The first reason why arguments do not hold valid parameters.
    pub open spec fn reading_fault(args: Json, prefix: Seq<char>) -> Option<Seq<char>> {
        first(
            fault_of(usize_of(args, prefix + "_predictor_hidden_channels"@)),
            first(
                fault_of(usize_of(args, prefix + "_predictor_kernel_size"@)),
                first(
                    fault_of(number_of(args, prefix + "_predictor_dropout_p"@)),
                    first(
                        fault_of(usize_of(args, prefix + "_embedding_kernel_size"@)),
                        Self::of(args, prefix).fault(prefix),
                    ),
                ),
            ),
        )
    }

    fn from_args(args: &Json, prefix: &str) -> (out: Result<Self, FastSpeechError>)
        ensures
            config_verdict(out, Self::reading_fault(*args, prefix@)),
            out matches Ok(config) ==> config == Self::of(*args, prefix@),
    {
        let out = VariancePredictorConfig {
            hidden_channels: config(
                usize_at(args, with_text(prefix, "_predictor_hidden_channels").as_str()),
            )?,
            kernel_size: config(
                usize_at(args, with_text(prefix, "_predictor_kernel_size").as_str()),
            )?,
            dropout: config(
                number_at(args, with_text(prefix, "_predictor_dropout_p").as_str()),
            )?,
            embedding_kernel_size: config(
                usize_at(args, with_text(prefix, "_embedding_kernel_size").as_str()),
            )?,
        };
        out.validate(prefix)?;
        Ok(out)
    }

    pub fn validate(&self, label: &str) -> (out: Result<(), FastSpeechError>)
        ensures
            config_verdict(out, self.fault(label@)),
    {
        if self.hidden_channels == 0 {
            return config_error(with_text(label, " predictor hidden channels must be positive"));
        }
        if !is_odd(self.kernel_size) {
            return config_error(with_text(label, " predictor kernel size must be positive and odd"));
        }
        if !self.dropout.is_in_unit_interval() {
            return config_error(with_text(label, " predictor dropout must be in [0, 1)"));
        }
        if !is_odd(self.embedding_kernel_size) {
            return config_error(with_text(label, " embedding kernel size must be positive and odd"));
        }
        Ok(())
    }
}

/// Parameters of a FastSpeech model of either variant.
#[derive(Debug, Clone, Copy, PartialEq, Eq, Structural)]
pub struct FastSpeechConfig {
    pub variant: FastSpeechVariant,
    pub num_chars: usize,
    pub out_channels: usize,
    pub hidden_channels: usize,
    pub positional_encoding: bool,
    pub length_scale: Double,
    pub encoder: FeedForwardTransformerConfig,
    pub decoder: FeedForwardTransformerConfig,
    pub duration_predictor_hidden_channels: usize,
    pub duration_predictor_kernel_size: usize,
    pub duration_predictor_dropout: Double,
    pub pitch: Option<VariancePredictorConfig>,
    pub energy: Option<VariancePredictorConfig>,
    pub use_aligner: bool,
    pub max_duration: usize,
    pub max_output_frames: usize,
}

/// The variance predictor of the preset architectures.
pub open spec fn preset_variance() -> VariancePredictorConfig {
    VariancePredictorConfig {
        hidden_channels: 256,
        kernel_size: 3,
        dropout: Double { bits: 0x3FB9_9999_9999_999A },
        embedding_kernel_size: 3,
    }
}

/// The preset architecture of a variant for a vocabulary of the given size.
pub open spec fn preset(variant: FastSpeechVariant, num_chars: usize) -> FastSpeechConfig {
    FastSpeechConfig {
        variant,
        num_chars,
        out_channels: 80,
        hidden_channels: 384,
        positional_encoding: true,
        length_scale: Double { bits: 0x3FF0_0000_0000_0000 },
        encoder: released_transformer(),
        decoder: released_transformer(),
        duration_predictor_hidden_channels: 256,
        duration_predictor_kernel_size: 3,
        duration_predictor_dropout: Double { bits: 0x3FB9_9999_9999_999A },
        pitch: if variant.has_variance() {
            Some(preset_variance())
        } else {
            None
        },
        energy: if variant.has_variance() {
            Some(preset_variance())
        } else {
            None
        },
        use_aligner: true,
        max_duration: 75,
        max_output_frames: 20_000,
    }
}

/// The first rule that an optional variance predictor breaks.
pub open spec fn optional_variance_fault(
    variance: Option<VariancePredictorConfig>,
    label: Seq<char>,
) -> Option<Seq<char>> {
    match variance {
        Some(variance) => variance.fault(label),
        None => None,
    }
}

/// The first reason why transformer parameters in a field cannot be used, in the words of the
/// layer that refuses them.
pub open spec fn nested_transformer_fault(args: Json, key: Seq<char>, label: Seq<char>) -> Option<
    Seq<char>,
> {
    match object_of(args, key) {
        Err(fault) => Some(fault),
        Ok(value) => prefixed(FeedForwardTransformerConfig::reading_fault(value, label)),
    }
}

/// A fault of a transformer stack, in the words of the layer that found it.
pub open spec fn prefixed(fault: Option<Seq<char>>) -> Option<Seq<char>> {
    match fault {
        Some(message) => Some("invalid FastPitch config: "@ + message),
        None => None,
    }
}

/// The variant that a model name stands for.
pub open spec fn variant_named(model: Seq<char>) -> Option<FastSpeechVariant> {
    if model == "fastspeech"@ || model == "fast_speech"@ {
        Some(FastSpeechVariant::FastSpeech)
    } else if model == "fastspeech2"@ || model == "fast_speech2"@ {
        Some(FastSpeechVariant::FastSpeech2)
    } else {
        None
    }
}

/// A document asks for speaker conditioning: more than one speaker, learned speakers, or
/// speaker vectors, at the top or among the arguments.
pub open spec fn speaker_conditioned(root: Json, args: Json) -> bool {
    ||| (root.unsigned_in("num_speakers"@) matches Some(speakers) && speakers > 1)
    ||| (args.unsigned_in("num_speakers"@) matches Some(speakers) && speakers > 1)
    ||| root.flag_in("use_speaker_embedding"@)
    ||| args.flag_in("use_speaker_embedding"@)
    ||| root.flag_in("use_d_vector_file"@)
    ||| args.flag_in("use_d_vector_file"@)
    ||| args.flag_in("use_d_vector"@)
}

/// The first reason why the base model of a document does not fit.
pub open spec fn base_model_fault(root: Json) -> Option<Seq<char>> {
    match root.text_in("base_model"@) {
        Some(base) => unless(
            base == "forward_tts"@,
            "unsupported base_model "@ + quoted(base)
                + "; FastSpeech checkpoints require \"forward_tts\""@,
        ),
        None => None,
    }
}

/// A flag that is off where it is left out.
pub open spec fn flag_or_off(flag: Result<Option<bool>, Seq<char>>) -> bool {
    flag->Ok_0 == Some(true)
}

/// The first reason why the variance flags do not fit the variant.
pub open spec fn variance_flags_fault(args: Json, variant: FastSpeechVariant) -> Option<Seq<char>> {
    let pitch = optional_bool_of(args, "use_pitch"@);
    let energy = optional_bool_of(args, "use_energy"@);
    first(
        fault_of(pitch),
        first(
            fault_of(energy),
            match variant {
                FastSpeechVariant::FastSpeech => unless(
                    !flag_or_off(pitch) && !flag_or_off(energy),
                    "FastSpeech must disable pitch and energy variance predictors"@,
                ),
                FastSpeechVariant::FastSpeech2 => unless(
                    flag_or_off(pitch) && flag_or_off(energy),
                    "FastSpeech 2 requires both pitch and energy variance predictors"@,
                ),
            },
        ),
    )
}

fn reject_speaker_conditioning(root: &Json, args: &Json) -> (out: Result<(), FastSpeechError>)
    ensures
        config_verdict(
            out,
            unless(
                !speaker_conditioned(*root, *args),
                "speaker-conditioned FastSpeech checkpoints require a conditioning adapter"@,
            ),
        ),
{
    let top_level_speakers: u64 = match root.get_u64("num_speakers") {
        Some(speakers) => speakers,
        None => 0,
    };
    let argument_speakers: u64 = match args.get_u64("num_speakers") {
        Some(speakers) => speakers,
        None => 0,
    };
    let speaker_embedding = root.get_flag("use_speaker_embedding") || args.get_flag(
        "use_speaker_embedding",
    );
    let d_vectors = root.get_flag("use_d_vector_file") || args.get_flag("use_d_vector_file")
        || args.get_flag("use_d_vector");
    if top_level_speakers > 1 || argument_speakers > 1 || speaker_embedding || d_vectors {
        return config_error(
            "speaker-conditioned FastSpeech checkpoints require a conditioning adapter".to_owned(),
        );
    }
    Ok(())
}

fn read_stack(args: &Json, key: &str, label: &str) -> (out: Result<
    FeedForwardTransformerConfig,
    FastSpeechError,
>)
    ensures
        config_verdict(out, nested_transformer_fault(*args, key@, label@)),
        out matches Ok(stack) ==> stack == FeedForwardTransformerConfig::of(
            object_of(*args, key@)->Ok_0,
        ),
{
    let value = config(object_at(args, key))?;
    match FeedForwardTransformerConfig::from_value(value, label) {
        Ok(stack) => Ok(stack),
        Err(error) => config_error(error.describe()),
    }
}

fn check_stack(stack: &FeedForwardTransformerConfig, label: &str) -> (out: Result<(), FastSpeechError>)
    ensures
        config_verdict(out, prefixed(stack.fault(label@))),
{
    match stack.validate(label) {
        Ok(_) => Ok(()),
        Err(error) => config_error(error.describe()),
    }
}

impl FastSpeechConfig {
    /// The first rule that the parameters break.
    pub open spec fn fault(self) -> Option<Seq<char>> {
        if self.num_chars == 0 || self.out_channels == 0 || self.hidden_channels == 0 {
            Some("character, output, and hidden dimensions must be positive"@)
        } else if !multiple_of(self.hidden_channels as int, self.encoder.num_heads as int)
            || !multiple_of(self.hidden_channels as int, self.decoder.num_heads as int) {
            Some("hidden_channels must divide evenly across encoder and decoder heads"@)
        } else if self.positional_encoding && !multiple_of(self.hidden_channels as int, 2) {
            Some("hidden_channels must be even when positional encoding is enabled"@)
        } else if !self.length_scale.finite_positive() {
            Some("length_scale must be finite and positive"@)
        } else if self.duration_predictor_hidden_channels == 0 || !odd(
            self.duration_predictor_kernel_size,
        ) {
            Some(
                "duration predictor hidden channels must be positive and kernel size must be positive and odd"@,
            )
        } else if !self.duration_predictor_dropout.unit_interval() {
            Some("duration predictor dropout must be in [0, 1)"@)
        } else {
            first(self.variance_presence_fault(), self.remaining_fault())
        }
    }

    /// The variance predictors are those of the variant.
    pub open spec fn variance_presence_fault(self) -> Option<Seq<char>> {
        match self.variant {
            FastSpeechVariant::FastSpeech => unless(
                self.pitch is None && self.energy is None,
                "FastSpeech cannot contain pitch or energy variance predictors"@,
            ),
            FastSpeechVariant::FastSpeech2 => unless(
                self.pitch is Some && self.energy is Some,
                "FastSpeech 2 requires pitch and energy variance predictors"@,
            ),
        }
    }

    /// The rules on the parts of the model.
    pub open spec fn remaining_fault(self) -> Option<Seq<char>> {
        first(
            optional_variance_fault(self.pitch, "pitch"@),
            first(
                optional_variance_fault(self.energy, "energy"@),
                if self.max_duration == 0 || self.max_output_frames == 0 {
                    Some("maximum duration and output frame limit must be positive"@)
                } else {
                    first(
                        prefixed(self.encoder.fault("encoder"@)),
                        prefixed(self.decoder.fault("decoder"@)),
                    )
                },
            ),
        )
    }

    /// The parameters that a document holds, where each can be read.
    pub open spec fn of(root: Json) -> Self {
        let args = object_of(root, "model_args"@)->Ok_0;
        FastSpeechConfig {
            variant: variant_named(string_of(root, "model"@)->Ok_0)->0,
            num_chars: num_chars_of(args, published_vocabulary_size_of(root))->Ok_0,
            out_channels: usize_of(args, "out_channels"@)->Ok_0,
            hidden_channels: usize_of(args, "hidden_channels"@)->Ok_0,
            positional_encoding: bool_of(args, "positional_encoding"@)->Ok_0,
            length_scale: number_of(args, "length_scale"@)->Ok_0,
            encoder: FeedForwardTransformerConfig::of(object_of(args, "encoder_params"@)->Ok_0),
            decoder: FeedForwardTransformerConfig::of(object_of(args, "decoder_params"@)->Ok_0),
            duration_predictor_hidden_channels: usize_of(
                args,
                "duration_predictor_hidden_channels"@,
            )->Ok_0,
            duration_predictor_kernel_size: usize_of(args, "duration_predictor_kernel_size"@)->Ok_0,
            duration_predictor_dropout: number_of(args, "duration_predictor_dropout_p"@)->Ok_0,
            pitch: if flag_or_off(optional_bool_of(args, "use_pitch"@)) {
                Some(VariancePredictorConfig::of(args, "pitch"@))
            } else {
                None
            },
            energy: if flag_or_off(optional_bool_of(args, "use_energy"@)) {
                Some(VariancePredictorConfig::of(args, "energy"@))
            } else {
                None
            },
            use_aligner: bool_of(args, "use_aligner"@)->Ok_0,
            max_duration: usize_of(args, "max_duration"@)->Ok_0,
            max_output_frames: 20_000,
        }
    }

    /// The first reason why a document is not the configuration of this model.
    pub open spec fn reading_fault(root: Json) -> Option<Seq<char>> {
        match string_of(root, "model"@) {
            Err(fault) => Some(fault),
            Ok(model) => match variant_named(model) {
                None => Some("expected FastSpeech model, got "@ + quoted(model)),
                Some(variant) => first(
                    base_model_fault(root),
                    match object_of(root, "model_args"@) {
                        Err(fault) => Some(fault),
                        Ok(args) => Self::args_fault(root, args, variant),
                    },
                ),
            },
        }
    }

    /// The first reason why the arguments of a document cannot be used.
    pub open spec fn args_fault(root: Json, args: Json, variant: FastSpeechVariant) -> Option<
        Seq<char>,
    > {
        let remark = "; FastSpeech requires fftransformer"@;
        first(
            type_fault(args, "encoder_type"@, "fftransformer"@, remark),
            first(
                type_fault(args, "decoder_type"@, "fftransformer"@, remark),
                first(
                    unless(
                    !speaker_conditioned(root, args),
                    "speaker-conditioned FastSpeech checkpoints require a conditioning adapter"@,
                ),
                    first(
                        variance_flags_fault(args, variant),
                        first(
                            fault_of(num_chars_of(args, published_vocabulary_size_of(root))),
                            first(
                                fault_of(usize_of(args, "out_channels"@)),
                                first(
                                    fault_of(usize_of(args, "hidden_channels"@)),
                                    first(
                                        fault_of(bool_of(args, "positional_encoding"@)),
                                        first(
                                            fault_of(number_of(args, "length_scale"@)),
                                            Self::stacks_fault(root, args),
                                        ),
                                    ),
                                ),
                            ),
                        ),
                    ),
                ),
            ),
        )
    }

    /// The first reason why the transformer stacks of a document cannot be used, or what
    /// follows them.
    pub open spec fn stacks_fault(root: Json, args: Json) -> Option<Seq<char>> {
        first(
            nested_transformer_fault(args, "encoder_params"@, "encoder"@),
            first(
                nested_transformer_fault(args, "decoder_params"@, "decoder"@),
                first(
                    fault_of(usize_of(args, "duration_predictor_hidden_channels"@)),
                    first(
                        fault_of(usize_of(args, "duration_predictor_kernel_size"@)),
                        first(
                            fault_of(number_of(args, "duration_predictor_dropout_p"@)),
                            first(
                                if flag_or_off(optional_bool_of(args, "use_pitch"@)) {
                            VariancePredictorConfig::reading_fault(args, "pitch"@)
                        } else {
                            None
                        },
                                first(
                                    if flag_or_off(optional_bool_of(args, "use_energy"@)) {
                                VariancePredictorConfig::reading_fault(args, "energy"@)
                            } else {
                                None
                            },
                                    first(
                                        fault_of(bool_of(args, "use_aligner"@)),
                                        first(
                                            fault_of(usize_of(args, "max_duration"@)),
                                            Self::of(root).fault(),
                                        ),
                                    ),
                                ),
                            ),
                        ),
                    ),
                ),
            ),
        )
    }

    pub fn fastspeech(num_chars: usize) -> (out: Self)
        ensures
            out == preset(FastSpeechVariant::FastSpeech, num_chars),
    {
        Self::with_variant(FastSpeechVariant::FastSpeech, num_chars)
    }

    pub fn fastspeech2(num_chars: usize) -> (out: Self)
        ensures
            out == preset(FastSpeechVariant::FastSpeech2, num_chars),
    {
        Self::with_variant(FastSpeechVariant::FastSpeech2, num_chars)
    }

    fn with_variant(variant: FastSpeechVariant, num_chars: usize) -> (out: Self)
        ensures
            out == preset(variant, num_chars),
    {
        let transformer = FeedForwardTransformerConfig {
            hidden_channels_ffn: 1_024,
            num_heads: 1,
            num_layers: 6,
            dropout: Double { bits: 0x3FB9_9999_9999_999A },
        };
        let variance = VariancePredictorConfig {
            hidden_channels: 256,
            kernel_size: 3,
            dropout: Double { bits: 0x3FB9_9999_9999_999A },
            embedding_kernel_size: 3,
        };
        FastSpeechConfig {
            variant,
            num_chars,
            out_channels: 80,
            hidden_channels: 384,
            positional_encoding: true,
            length_scale: Double { bits: 0x3FF0_0000_0000_0000 },
            encoder: transformer,
            decoder: transformer,
            duration_predictor_hidden_channels: 256,
            duration_predictor_kernel_size: 3,
            duration_predictor_dropout: Double { bits: 0x3FB9_9999_9999_999A },
            pitch: if variant.supports_pitch() {
                Some(variance)
            } else {
                None
            },
            energy: if variant.supports_energy() {
                Some(variance)
            } else {
                None
            },
            use_aligner: true,
            max_duration: 75,
            max_output_frames: 20_000,
        }
    }

    /// Parses a `ForwardTTS` FastSpeech or FastSpeech 2 configuration.
    pub fn from_json_value(root: &Json) -> (out: Result<Self, FastSpeechError>)
        ensures
            config_verdict(out, Self::reading_fault(*root)),
            out matches Ok(config) ==> config == Self::of(*root) && config.fault() is None,
    {
        let model = config(string_at(root, "model"))?;
        let variant = if same_text(model, "fastspeech") || same_text(model, "fast_speech") {
            FastSpeechVariant::FastSpeech
        } else if same_text(model, "fastspeech2") || same_text(model, "fast_speech2") {
            FastSpeechVariant::FastSpeech2
        } else {
            return config_error(
                with_text("expected FastSpeech model, got ", quoted_text(model).as_str()),
            );
        };
        if let Some(base_model) = root.get_str("base_model") {
            if !same_text(base_model, "forward_tts") {
                return config_error(
                    around_text(
                        "unsupported base_model ",
                        quoted_text(base_model).as_str(),
                        "; FastSpeech checkpoints require \"forward_tts\"",
                    ),
                );
            }
        }
        let args = config(object_at(root, "model_args"))?;
        let remark = "; FastSpeech requires fftransformer";
        config(check_type(args, "encoder_type", "fftransformer", remark))?;
        config(check_type(args, "decoder_type", "fftransformer", remark))?;
        reject_speaker_conditioning(root, args)?;
        let use_pitch = match config(optional_bool_at(args, "use_pitch"))? {
            Some(flag) => flag,
            None => false,
        };
        let use_energy = match config(optional_bool_at(args, "use_energy"))? {
            Some(flag) => flag,
            None => false,
        };
        match variant {
            FastSpeechVariant::FastSpeech => {
                if use_pitch || use_energy {
                    return config_error(
                        "FastSpeech must disable pitch and energy variance predictors".to_owned(),
                    );
                }
            },
            FastSpeechVariant::FastSpeech2 => {
                if !use_pitch || !use_energy {
                    return config_error(
                        "FastSpeech 2 requires both pitch and energy variance predictors".to_owned(),
                    );
                }
            },
        }
        let num_chars: usize = config(num_chars_at(root, args))?;
        let out = FastSpeechConfig {
            variant,
            num_chars,
            out_channels: config(usize_at(args, "out_channels"))?,
            hidden_channels: config(usize_at(args, "hidden_channels"))?,
            positional_encoding: config(bool_at(args, "positional_encoding"))?,
            length_scale: config(number_at(args, "length_scale"))?,
            encoder: read_stack(args, "encoder_params", "encoder")?,
            decoder: read_stack(args, "decoder_params", "decoder")?,
            duration_predictor_hidden_channels: config(
                usize_at(args, "duration_predictor_hidden_channels"),
            )?,
            duration_predictor_kernel_size: config(
                usize_at(args, "duration_predictor_kernel_size"),
            )?,
            duration_predictor_dropout: config(number_at(args, "duration_predictor_dropout_p"))?,
            pitch: if use_pitch {
                Some(VariancePredictorConfig::from_args(args, "pitch")?)
            } else {
                None
            },
            energy: if use_energy {
                Some(VariancePredictorConfig::from_args(args, "energy")?)
            } else {
                None
            },
            use_aligner: config(bool_at(args, "use_aligner"))?,
            max_duration: config(usize_at(args, "max_duration"))?,
            max_output_frames: 20_000,
        };
        assert(out == Self::of(*root));
        out.validate()?;
        Ok(out)
    }

    pub fn validate(&self) -> (out: Result<(), FastSpeechError>)
        ensures
            config_verdict(out, self.fault()),
    {
        if self.num_chars == 0 || self.out_channels == 0 || self.hidden_channels == 0 {
            return config_error(
                "character, output, and hidden dimensions must be positive".to_owned(),
            );
        }
        if !is_multiple_of(self.hidden_channels, self.encoder.num_heads) || !is_multiple_of(
            self.hidden_channels,
            self.decoder.num_heads,
        ) {
            return config_error(
                "hidden_channels must divide evenly across encoder and decoder heads".to_owned(),
            );
        }
        if self.positional_encoding && !is_multiple_of(self.hidden_channels, 2) {
            return config_error(
                "hidden_channels must be even when positional encoding is enabled".to_owned(),
            );
        }
        if !self.length_scale.is_finite_positive() {
            return config_error("length_scale must be finite and positive".to_owned());
        }
        if self.duration_predictor_hidden_channels == 0 || !is_odd(
            self.duration_predictor_kernel_size,
        ) {
            return config_error(
                "duration predictor hidden channels must be positive and kernel size must be positive and odd".to_owned(),
            );
        }
        if !self.duration_predictor_dropout.is_in_unit_interval() {
            return config_error("duration predictor dropout must be in [0, 1)".to_owned());
        }
        match self.variant {
            FastSpeechVariant::FastSpeech => {
                if self.pitch.is_some() || self.energy.is_some() {
                    return config_error(
                        "FastSpeech cannot contain pitch or energy variance predictors".to_owned(),
                    );
                }
            },
            FastSpeechVariant::FastSpeech2 => {
                if self.pitch.is_none() || self.energy.is_none() {
                    return config_error(
                        "FastSpeech 2 requires pitch and energy variance predictors".to_owned(),
                    );
                }
            },
        }
        if let Some(variance) = &self.pitch {
            variance.validate("pitch")?;
        }
        if let Some(variance) = &self.energy {
            variance.validate("energy")?;
        }
        if self.max_duration == 0 || self.max_output_frames == 0 {
            return config_error(
                "maximum duration and output frame limit must be positive".to_owned(),
            );
        }
        check_stack(&self.encoder, "encoder")?;
        check_stack(&self.decoder, "decoder")?;
        Ok(())
    }
}

/// A predictor and the embedding of its values.
#[derive(Debug, Clone, Copy, PartialEq, Eq, Structural)]
pub struct VarianceLayers {
    pub predictor: DurationPredictorLayers,
    pub embedding: Conv,
}

pub open spec fn variance_path(
    hidden_channels: usize,
    config: Option<VariancePredictorConfig>,
) -> Option<VarianceLayers> {
    match config {
        Some(config) => Some(
            VarianceLayers {
                predictor: duration_predictor(
                    hidden_channels,
                    config.hidden_channels,
                    config.kernel_size,
                ),
                embedding: centered(1, hidden_channels, config.embedding_kernel_size),
            },
        ),
        None => None,
    }
}

fn variance_path_layers(hidden_channels: usize, config: &Option<VariancePredictorConfig>) -> (out:
    Option<VarianceLayers>)
    ensures
        out == variance_path(hidden_channels, *config),
{
    match config {
        Some(config) => Some(
            VarianceLayers {
                predictor: duration_predictor_layers(
                    hidden_channels,
                    config.hidden_channels,
                    config.kernel_size,
                ),
                embedding: centered_conv(1, hidden_channels, config.embedding_kernel_size),
            },
        ),
        None => None,
    }
}

/// Everything that is needed to build the network.
#[derive(Debug, Clone, Copy, PartialEq, Eq, Structural)]
pub struct FastSpeechTopology {
    pub num_chars: usize,
    pub hidden_channels: usize,
    pub encoder: TransformerLayers,
    pub decoder: TransformerLayers,
    pub postnet: Conv,
    pub duration_predictor: DurationPredictorLayers,
    pub pitch: Option<VarianceLayers>,
    pub energy: Option<VarianceLayers>,
    pub positional: bool,
    pub aligner: Option<AlignerLayers>,
}

/// Scales, shifts and the shapes of what a caller fixes beforehand.
#[derive(Debug, Clone, Copy, PartialEq, Eq)]
pub struct FastSpeechControls {
    pub length_scale: Double,
    pub durations: Option<[usize; 2]>,
    pub pitch_scale: Double,
    pub pitch_shift: Double,
    pub pitch: Option<[usize; 3]>,
    pub energy_scale: Double,
    pub energy_shift: Double,
    pub energy: Option<[usize; 3]>,
}

/// Controls that change nothing.
pub open spec fn neutral_controls() -> FastSpeechControls {
    FastSpeechControls {
        length_scale: Double { bits: 0x3FF0_0000_0000_0000 },
        durations: None,
        pitch_scale: Double { bits: 0x3FF0_0000_0000_0000 },
        pitch_shift: Double { bits: 0 },
        pitch: None,
        energy_scale: Double { bits: 0x3FF0_0000_0000_0000 },
        energy_shift: Double { bits: 0 },
        energy: None,
    }
}

impl Default for FastSpeechControls {
    fn default() -> (out: Self)
        ensures
            out == neutral_controls(),
    {
        FastSpeechControls {
            length_scale: Double { bits: 0x3FF0_0000_0000_0000 },
            durations: None,
            pitch_scale: Double { bits: 0x3FF0_0000_0000_0000 },
            pitch_shift: Double { bits: 0 },
            pitch: None,
            energy_scale: Double { bits: 0x3FF0_0000_0000_0000 },
            energy_shift: Double { bits: 0 },
            energy: None,
        }
    }
}

/// A scale is finite and positive, and a shift is finite.
pub open spec fn scale_and_shift_fault(label: Seq<char>, scale: Double, shift: Double) -> Option<
    Seq<char>,
> {
    if !scale.finite_positive() {
        Some(label + "_scale must be finite and positive"@)
    } else if !shift.finite() {
        Some(label + "_shift must be finite"@)
    } else {
        None
    }
}

/// The message where a scale or a shift is out of bounds.
pub fn check_scale_and_shift(label: &str, scale: Double, shift: Double) -> (out: Option<String>)
    ensures
        match out {
            None => scale_and_shift_fault(label@, scale, shift) is None,
            Some(message) => scale_and_shift_fault(label@, scale, shift) == Some(message@),
        },
{
    if !scale.is_finite_positive() {
        return Some(with_text(label, "_scale must be finite and positive"));
    }
    if !shift.is_finite() {
        return Some(with_text(label, "_shift must be finite"));
    }
    None
}

impl FastSpeechControls {
    /// The first rule that the numbers break.
    pub open spec fn fault(self) -> Option<Seq<char>> {
        if !self.length_scale.finite_positive() {
            Some("length_scale must be finite and positive"@)
        } else {
            first(
                scale_and_shift_fault("pitch"@, self.pitch_scale, self.pitch_shift),
                scale_and_shift_fault("energy"@, self.energy_scale, self.energy_shift),
            )
        }
    }
}

fn validate_controls(controls: &FastSpeechControls) -> (out: Result<(), FastSpeechError>)
    ensures
        input_verdict(out, controls.fault()),
{
    if !controls.length_scale.is_finite_positive() {
        return input_error("length_scale must be finite and positive".to_owned());
    }
    if let Some(message) = check_scale_and_shift(
        "pitch",
        controls.pitch_scale,
        controls.pitch_shift,
    ) {
        return input_error(message);
    }
    if let Some(message) = check_scale_and_shift(
        "energy",
        controls.energy_scale,
        controls.energy_shift,
    ) {
        return input_error(message);
    }
    Ok(())
}

/// Controls of an absent predictor leave everything as it is.
pub open spec fn unsupported_fault(
    label: Seq<char>,
    supported: bool,
    scale: Double,
    shift: Double,
    explicit: bool,
) -> Option<Seq<char>> {
    unless(
        supported || (scale.equals(Double { bits: 0x3FF0_0000_0000_0000 }) && shift.equals(
            Double { bits: 0 },
        ) && !explicit),
        label + " controls are not supported by this FastSpeech variant"@,
    )
}

fn reject_unsupported_variance_controls(
    label: &str,
    supported: bool,
    scale: Double,
    shift: Double,
    explicit: bool,
) -> (out: Result<(), FastSpeechError>)
    ensures
        input_verdict(out, unsupported_fault(label@, supported, scale, shift, explicit)),
{
    if !supported && (!scale.is_equal(Double::one()) || !shift.is_equal(Double::zero()) || explicit) {
        return input_error(
            with_text(label, " controls are not supported by this FastSpeech variant"),
        );
    }
    Ok(())
}

/// Where the values of a variance come from.
#[derive(Debug, Clone, Copy, PartialEq, Eq, Structural)]
pub enum VarianceSource {
    /// The model has no such variance.
    Absent,
    /// The predictor gives the values.
    Predicted,
    /// The caller gave the values.
    Explicit,
}

/// Where the values of a variance come from.
pub open spec fn variance_source(supported: bool, explicit: bool) -> VarianceSource {
    if !supported {
        VarianceSource::Absent
    } else if explicit {
        VarianceSource::Explicit
    } else {
        VarianceSource::Predicted
    }
}

/// Where the durations, the pitch and the energy of a batch come from. The pitch is applied
/// before the energy is predicted.
#[derive(Debug, Clone, Copy, PartialEq, Eq, Structural)]
pub struct FastSpeechPlan {
    pub batch: usize,
    pub tokens: usize,
    pub predict_durations: bool,
    pub pitch: VarianceSource,
    pub energy: VarianceSource,
}

/// The shapes of what the network emits.
#[derive(Debug, Clone, Copy, PartialEq, Eq)]
pub struct FastSpeechShapes {
    pub mel: [usize; 3],
    pub durations: [usize; 2],
    pub pitch: Option<[usize; 3]>,
    pub energy: Option<[usize; 3]>,
}

/// The shape of a token-level variance, where the network has one.
pub open spec fn variance_shaped(
    shape: Option<[usize; 3]>,
    source: VarianceSource,
    plan: FastSpeechPlan,
) -> bool {
    match shape {
        Some(dims) => source != VarianceSource::Absent && dims@ == seq![plan.batch, 1, plan.tokens],
        None => source == VarianceSource::Absent,
    }
}

fn plan_variance(
    label: &str,
    supported: bool,
    explicit: &Option<[usize; 3]>,
    batch: usize,
    tokens: usize,
) -> (out: Result<VarianceSource, FastSpeechError>)
    ensures
        input_verdict(
            out,
            if supported {
                variance_fault(label@, *explicit, batch, tokens)
            } else {
                None
            },
        ),
        out matches Ok(source) ==> source == variance_source(supported, *explicit is Some),
{
    if !supported {
        return Ok(VarianceSource::Absent);
    }
    if let Some(message) = check_variance(label, explicit, batch, tokens) {
        return input_error(message);
    }
    if explicit.is_some() {
        Ok(VarianceSource::Explicit)
    } else {
        Ok(VarianceSource::Predicted)
    }
}

impl FastSpeechConfig {
    /// The layer sizes are representable.
    pub open spec fn buildable(self) -> bool {
        &&& self.hidden_channels * 3 <= usize::MAX
        &&& self.use_aligner ==> self.out_channels * 2 <= usize::MAX
    }

    /// The network of the model.
    pub open spec fn built(self) -> FastSpeechTopology {
        let hidden = self.hidden_channels;
        FastSpeechTopology {
            num_chars: self.num_chars,
            hidden_channels: hidden,
            encoder: transformer(hidden, self.encoder),
            decoder: transformer(hidden, self.decoder),
            postnet: pointwise(hidden, self.out_channels),
            duration_predictor: duration_predictor(
                hidden,
                self.duration_predictor_hidden_channels,
                self.duration_predictor_kernel_size,
            ),
            pitch: variance_path(hidden, self.pitch),
            energy: variance_path(hidden, self.energy),
            positional: self.positional_encoding,
            aligner: if self.use_aligner {
                Some(aligner(self.out_channels, hidden, self.out_channels))
            } else {
                None
            },
        }
    }

    /// The network of a valid configuration.
    pub fn topology(&self) -> (out: Result<FastSpeechTopology, FastSpeechError>)
        requires
            self.fault() is None ==> self.buildable(),
        ensures
            config_verdict(out, self.fault()),
            out matches Ok(topology) ==> topology == self.built(),
    {
        self.validate()?;
        let hidden: usize = self.hidden_channels;
        let aligner = if self.use_aligner {
            Some(aligner_layers(self.out_channels, hidden, self.out_channels))
        } else {
            None
        };
        Ok(
            FastSpeechTopology {
                num_chars: self.num_chars,
                hidden_channels: hidden,
                encoder: transformer_layers(hidden, &self.encoder),
                decoder: transformer_layers(hidden, &self.decoder),
                postnet: pointwise_conv(hidden, self.out_channels),
                duration_predictor: duration_predictor_layers(
                    hidden,
                    self.duration_predictor_hidden_channels,
                    self.duration_predictor_kernel_size,
                ),
                pitch: variance_path_layers(hidden, &self.pitch),
                energy: variance_path_layers(hidden, &self.energy),
                positional: self.positional_encoding,
                aligner,
            },
        )
    }

    /// The first reason why a batch cannot be synthesized under the given controls.
    pub open spec fn inference_fault(
        self,
        tokens: TokenBatch,
        controls: FastSpeechControls,
        ids_validated_on_host: bool,
    ) -> Option<Seq<char>> {
        let batch = tokens.batch;
        let count = tokens.tokens;
        first(
            controls.fault(),
            if !tokens.non_empty() {
                Some("token_ids must have non-empty [batch, tokens] dimensions"@)
            } else if !ids_validated_on_host && !highest_within(
                tokens.ids@,
                self.num_chars as int,
            ) {
                Some(outside_vocabulary(highest(tokens.ids@), self.num_chars as int))
            } else {
                first(
                    unsupported_fault(
                        "pitch"@,
                        self.pitch is Some,
                        controls.pitch_scale,
                        controls.pitch_shift,
                        controls.pitch is Some,
                    ),
                    first(
                        unsupported_fault(
                            "energy"@,
                            self.energy is Some,
                            controls.energy_scale,
                            controls.energy_shift,
                            controls.energy is Some,
                        ),
                        first(
                            durations_fault(controls.durations, batch, count),
                            first(
                                if self.pitch is Some {
                                    variance_fault("pitch"@, controls.pitch, batch, count)
                                } else {
                                    None
                                },
                                if self.energy is Some {
                                    variance_fault("energy"@, controls.energy, batch, count)
                                } else {
                                    None
                                },
                            ),
                        ),
                    ),
                )
            },
        )
    }

    /// The controls of an inference without explicit ones.
    pub fn default_controls(&self) -> (out: FastSpeechControls)
        ensures
            out == (FastSpeechControls { length_scale: self.length_scale, ..neutral_controls() }),
    {
        let neutral = FastSpeechControls::default();
        FastSpeechControls { length_scale: self.length_scale, ..neutral }
    }

    /// Decides where the durations, the pitch and the energy of a batch come from.
    pub fn plan_inference(
        &self,
        tokens: &TokenBatch,
        controls: &FastSpeechControls,
        ids_validated_on_host: bool,
    ) -> (out: Result<FastSpeechPlan, FastSpeechError>)
        requires
            tokens.wf(),
        ensures
            input_verdict(out, self.inference_fault(*tokens, *controls, ids_validated_on_host)),
            out matches Ok(plan) ==> plan == (FastSpeechPlan {
                batch: tokens.batch,
                tokens: tokens.tokens,
                predict_durations: controls.durations is None,
                pitch: variance_source(self.pitch is Some, controls.pitch is Some),
                energy: variance_source(self.energy is Some, controls.energy is Some),
            }),
    {
        validate_controls(controls)?;
        if tokens.batch == 0 || tokens.tokens == 0 {
            return input_error(
                "token_ids must have non-empty [batch, tokens] dimensions".to_owned(),
            );
        }
        if !ids_validated_on_host {
            if let Some(message) = vocabulary_fault(tokens, self.num_chars) {
                return input_error(message);
            }
        }
        reject_unsupported_variance_controls(
            "pitch",
            self.pitch.is_some(),
            controls.pitch_scale,
            controls.pitch_shift,
            controls.pitch.is_some(),
        )?;
        reject_unsupported_variance_controls(
            "energy",
            self.energy.is_some(),
            controls.energy_scale,
            controls.energy_shift,
            controls.energy.is_some(),
        )?;
        if let Some(message) = check_durations(&controls.durations, tokens.batch, tokens.tokens) {
            return input_error(message);
        }
        let pitch = plan_variance(
            "pitch",
            self.pitch.is_some(),
            &controls.pitch,
            tokens.batch,
            tokens.tokens,
        )?;
        let energy = plan_variance(
            "energy",
            self.energy.is_some(),
            &controls.energy,
            tokens.batch,
            tokens.tokens,
        )?;
        Ok(
            FastSpeechPlan {
                batch: tokens.batch,
                tokens: tokens.tokens,
                predict_durations: controls.durations.is_none(),
                pitch,
                energy,
            },
        )
    }

    /// Expands conditioned tokens to the frames that the decoder reads.
    pub fn expand<T: Copy>(
        &self,
        encoded: &Vec<Vec<Vec<T>>>,
        durations: &Vec<Vec<usize>>,
        fill: T,
    ) -> (out: Result<Expanded<T>, FastSpeechError>)
        requires
            aligned_with(encoded@, durations@),
        ensures
            input_verdict(
                out,
                expansion_fault(requested_frames(durations@), self.max_output_frames as int),
            ),
            out matches Ok(expanded) ==> expanded.expands(encoded@, durations@, fill),
    {
        match expand_by_durations(encoded, durations, fill, self.max_output_frames) {
            Ok(expanded) => Ok(expanded),
            Err(error) => input_error(error.describe()),
        }
    }

    /// Which frames attend to which tokens, where durations need not be whole.
    pub fn attend(
        &self,
        starts: &Vec<Vec<Double>>,
        ends: &Vec<Vec<Double>>,
        lengths: &Vec<Double>,
        latest: Double,
    ) -> (out: Result<Attention, FastSpeechError>)
        requires
            paired(starts@, ends@),
        ensures
            input_verdict(
                out,
                expansion_fault(latest.saturated(), self.max_output_frames as int),
            ),
            out matches Ok(attention) ==> attention.follows(starts@, ends@, lengths@, latest),
    {
        match attend_by_durations(starts, ends, lengths, latest, self.max_output_frames) {
            Ok(attention) => Ok(attention),
            Err(error) => input_error(error.describe()),
        }
    }

    /// The shapes of what the network emits for a batch that expands to the given frames.
    pub fn output_shapes(&self, plan: &FastSpeechPlan, frames: usize) -> (out: FastSpeechShapes)
        ensures
            out.mel@ == seq![plan.batch, frames, self.out_channels],
            out.durations@ == seq![plan.batch, plan.tokens],
            variance_shaped(out.pitch, plan.pitch, *plan),
            variance_shaped(out.energy, plan.energy, *plan),
    {
        let variance: [usize; 3] = [plan.batch, 1, plan.tokens];
        let out = FastSpeechShapes {
            mel: [plan.batch, frames, self.out_channels],
            durations: [plan.batch, plan.tokens],
            pitch: if plan.pitch == VarianceSource::Absent {
                None
            } else {
                Some(variance)
            },
            energy: if plan.energy == VarianceSource::Absent {
                None
            } else {
                Some(variance)
            },
        };
        assert(out.mel@ =~= seq![plan.batch, frames, self.out_channels]);
        assert(out.durations@ =~= seq![plan.batch, plan.tokens]);
        assert(variance@ =~= seq![plan.batch, 1, plan.tokens]);
        out
    }

    /// Whether a checkpoint fits the network exactly.
    pub fn check_checkpoint(report: &LoadReport) -> (out: Result<(), FastSpeechError>)
        ensures
            match out {
                Ok(_) => report.fits(Subtree::Learned),
                Err(FastSpeechError::Checkpoint(message)) => !report.fits(Subtree::Learned)
                    && message@ == report.counted(
                    whole_model_heading(),
                    Subtree::Learned,
                    " load errors, unexpected tensors: "@,
                    ""@,
                ),
                Err(_) => false,
            },
    {
        match report.fault_counted(
            "checkpoint does not exactly match the Burn model: ",
            Subtree::Learned,
            " load errors, unexpected tensors: ",
            "",
        ) {
            None => Ok(()),
            Some(message) => Err(FastSpeechError::Checkpoint(message)),
        }
    }

    /// How checkpoint names become parameter names, as patterns and replacements.
    pub fn key_remappings() -> (out: Vec<(&'static str, &'static str)>)
        ensures
            out@ == seq![
                (r"(\.norm_[12])\.weight$", "$1.gamma"),
                (r"(\.norm_[12])\.bias$", "$1.beta"),
                (r"(\.norm[12])\.weight$", "$1.gamma"),
                (r"(\.norm[12])\.bias$", "$1.beta"),
            ],
    {
        vec![
            (r"(\.norm_[12])\.weight$", "$1.gamma"),
            (r"(\.norm_[12])\.bias$", "$1.beta"),
            (r"(\.norm[12])\.weight$", "$1.gamma"),
            (r"(\.norm[12])\.bias$", "$1.beta"),
        ]
    }
}

/// The presets of both variants are valid for every vocabulary that is not empty, and can be
/// built.
pub proof fn presets_are_valid(variant: FastSpeechVariant, num_chars: usize)
    requires
        num_chars > 0,
    ensures
        preset(variant, num_chars).fault() is None,
        preset(variant, num_chars).buildable(),
{
}

/// A valid model has pitch and energy predictors exactly where its variant supports them, and
/// its network has the layers for them.
pub proof fn variance_follows_variant(config: FastSpeechConfig)
    requires
        config.fault() is None,
    ensures
        config.pitch is Some <==> config.variant.has_variance(),
        config.energy is Some <==> config.variant.has_variance(),
        config.built().pitch is Some <==> config.variant.has_variance(),
        config.built().energy is Some <==> config.variant.has_variance(),
{
}

/// The original variant refuses every pitch or energy control that would change anything.
pub proof fn original_variant_refuses_variance_controls(
    config: FastSpeechConfig,
    tokens: TokenBatch,
    controls: FastSpeechControls,
    ids_validated_on_host: bool,
)
    requires
        config.fault() is None,
        !config.variant.has_variance(),
        config.inference_fault(tokens, controls, ids_validated_on_host) is None,
    ensures
        controls.pitch is None,
        controls.energy is None,
        controls.pitch_scale.rank() == Double::one_bits(),
        controls.energy_scale.rank() == Double::one_bits(),
        controls.pitch_shift.rank() == 0,
        controls.energy_shift.rank() == 0,
{
}

/// The spectrogram has a row for each row of the batch, a frame for each frame that the longest
/// row of durations asks for, and the bins of the configuration: the decoder reads that many
/// frames, keeps them, and projects each.
pub proof fn spectrogram_follows_expansion<T>(
    config: FastSpeechConfig,
    encoded: Seq<Vec<Vec<T>>>,
    durations: Seq<Vec<usize>>,
    fill: T,
    expanded: Expanded<T>,
)
    requires
        aligned_with(encoded, durations),
        expanded.expands(encoded, durations, fill),
    ensures
        expanded.values.len() == durations.len(),
        expanded.frames == longest(durations),
        forall|b: int, c: int|
            0 <= b < encoded.len() && 0 <= c < encoded[b].len() ==> (
            #[trigger] expanded.values[b][c]).len() == longest(durations),
        config.built().decoder.decodes(
            config.built().postnet,
            expanded.frames as int,
            config.out_channels,
        ),
{
    assert forall|b: int, c: int| 0 <= b < encoded.len() && 0 <= c < encoded[b].len() implies (
    #[trigger] expanded.values[b][c]).len() == longest(durations) by {
        assert(row_expanded(
            expanded.values[b]@,
            encoded[b]@,
            durations[b]@,
            fill,
            expanded.frames as int,
        ));
    }
}

/// Only the second variant has pitch and energy, and then with all controls; every variant takes
/// durations.
pub proof fn second_variant_has_variance(
    variant: FastSpeechVariant,
    pitch: bool,
    energy: bool,
    pitch_controls: PitchCapabilities,
    energy_controls: EnergyCapabilities,
    durations: bool,
)
    requires
        call_ensures(FastSpeechVariant::supports_pitch, (variant,), pitch),
        call_ensures(FastSpeechVariant::supports_energy, (variant,), energy),
        call_ensures(FastSpeechVariant::pitch_capabilities, (variant,), pitch_controls),
        call_ensures(FastSpeechVariant::energy_capabilities, (variant,), energy_controls),
        call_ensures(FastSpeechVariant::supports_explicit_durations, (variant,), durations),
    ensures
        pitch <==> variant is FastSpeech2,
        energy <==> variant is FastSpeech2,
        pitch_controls.scale == pitch && pitch_controls.shift == pitch
            && pitch_controls.explicit_values == pitch,
        energy_controls.scale == energy && energy_controls.shift == energy
            && energy_controls.explicit_values == energy,
        durations,
{
}

/// A predictor is valid exactly where it has hidden channels, odd kernels, and a rate from zero up
/// to but not at one.
pub proof fn variance_predictors_are_valid_on_their_merits(
    config: &VariancePredictorConfig,
    label: &str,
    out: Result<(), FastSpeechError>,
)
    requires
        call_ensures(VariancePredictorConfig::validate, (config, label), out),
    ensures
        out is Ok <==> {
            &&& config.hidden_channels > 0
            &&& config.kernel_size % 2 == 1 && config.embedding_kernel_size % 2 == 1
            &&& !config.dropout.nan() && 0 <= config.dropout.rank() < 0x3FF0_0000_0000_0000
        },
        out matches Err(error) ==> error is InvalidConfig,
{
}

/// A predictor is sound: hidden channels, odd kernels, a rate below one.
pub open spec fn sound_variance(config: VariancePredictorConfig) -> bool {
    &&& config.hidden_channels > 0
    &&& config.kernel_size % 2 == 1 && config.embedding_kernel_size % 2 == 1
    &&& !config.dropout.nan() && 0 <= config.dropout.rank() < 0x3FF0_0000_0000_0000
}

/// A model is valid exactly where all its sizes are positive, its scales and rates in bounds, its
/// kernels odd, its channels shared evenly among the heads and even where positions are added, both
/// stacks are valid, and sound predictors of pitch and energy are there in the second variant and
/// not in the first.
pub proof fn fast_speech_is_valid_on_its_merits(
    config: &FastSpeechConfig,
    label: &str,
    encoder: Result<(), FastPitchError>,
    decoder: Result<(), FastPitchError>,
    out: Result<(), FastSpeechError>,
)
    requires
        call_ensures(FastSpeechConfig::validate, (config,), out),
        call_ensures(FeedForwardTransformerConfig::validate, (&config.encoder, label), encoder),
        call_ensures(FeedForwardTransformerConfig::validate, (&config.decoder, label), decoder),
    ensures
        out is Ok <==> {
            &&& config.num_chars > 0 && config.out_channels > 0 && config.hidden_channels > 0
            &&& encoder is Ok && decoder is Ok
            &&& config.hidden_channels as int % config.encoder.num_heads as int == 0
            &&& config.hidden_channels as int % config.decoder.num_heads as int == 0
            &&& config.positional_encoding ==> config.hidden_channels % 2 == 0
            &&& config.length_scale.finite() && config.length_scale.rank() > 0
            &&& config.duration_predictor_hidden_channels > 0
            &&& config.duration_predictor_kernel_size % 2 == 1
            &&& !config.duration_predictor_dropout.nan()
            &&& 0 <= config.duration_predictor_dropout.rank() < 0x3FF0_0000_0000_0000
            &&& config.variant is FastSpeech ==> config.pitch is None && config.energy is None
            &&& config.variant is FastSpeech2 ==> (config.pitch matches Some(pitch)
                && sound_variance(pitch)) && (config.energy matches Some(energy) && sound_variance(
                energy,
            ))
            &&& config.max_duration > 0 && config.max_output_frames > 0
        },
        out matches Err(error) ==> error is InvalidConfig,
{
}

/// A document holds the parameters of a predictor, each under the name with its prefix.
pub open spec fn says_variance(
    args: Json,
    prefix: Seq<char>,
    config: VariancePredictorConfig,
) -> bool {
    &&& says_size(args, prefix + "_predictor_hidden_channels"@, config.hidden_channels)
    &&& says_size(args, prefix + "_predictor_kernel_size"@, config.kernel_size)
    &&& says_number(args, prefix + "_predictor_dropout_p"@, config.dropout)
    &&& says_size(args, prefix + "_embedding_kernel_size"@, config.embedding_kernel_size)
}

/// The flag is there and set, or left out or not set.
pub open spec fn says_switch(args: Json, key: Seq<char>, on: bool) -> bool {
    if on {
        says_flag(args, key, true)
    } else {
        args.field(key) is None || says_flag(args, key, false)
    }
}

/// Nothing in the document asks for more than one speaker, for learned speakers or for vectors.
pub open spec fn says_no_speakers(root: Json, args: Json) -> bool {
    &&& !(root.field("num_speakers"@) matches Some(Json::Number(number))
        && number.unsigned matches Some(count) && count > 1)
    &&& !(args.field("num_speakers"@) matches Some(Json::Number(number))
        && number.unsigned matches Some(count) && count > 1)
    &&& !says_flag(root, "use_speaker_embedding"@, true)
    &&& !says_flag(args, "use_speaker_embedding"@, true)
    &&& !says_flag(root, "use_d_vector_file"@, true)
    &&& !says_flag(args, "use_d_vector_file"@, true)
    &&& !says_flag(args, "use_d_vector"@, true)
}

/// A document holds the parameters of a model, each under its name. It names the variant, has no
/// speakers, and has the predictors of the variant.
pub open spec fn says_fast_speech(root: Json, config: FastSpeechConfig) -> bool {
    &&& config.variant is FastSpeech ==> says_text(root, "model"@, "fastspeech"@) || says_text(
        root,
        "model"@,
        "fast_speech"@,
    )
    &&& config.variant is FastSpeech2 ==> says_text(root, "model"@, "fastspeech2"@) || says_text(
        root,
        "model"@,
        "fast_speech2"@,
    )
    &&& root.field("base_model"@) matches Some(Json::Text(base)) ==> base@ == "forward_tts"@
    &&& root.field("model_args"@) matches Some(args) && {
        &&& args is Object
        &&& says_text(args, "encoder_type"@, "fftransformer"@)
        &&& says_text(args, "decoder_type"@, "fftransformer"@)
        &&& says_no_speakers(root, args)
        &&& says_switch(args, "use_pitch"@, config.variant is FastSpeech2)
        &&& says_switch(args, "use_energy"@, config.variant is FastSpeech2)
        &&& says_characters(root, args, config.num_chars)
        &&& says_size(args, "out_channels"@, config.out_channels)
        &&& says_size(args, "hidden_channels"@, config.hidden_channels)
        &&& says_flag(args, "positional_encoding"@, config.positional_encoding)
        &&& says_number(args, "length_scale"@, config.length_scale)
        &&& args.field("encoder_params"@) matches Some(value) && value is Object
            && says_transformer(value, config.encoder)
        &&& args.field("decoder_params"@) matches Some(value) && value is Object
            && says_transformer(value, config.decoder)
        &&& says_size(
            args,
            "duration_predictor_hidden_channels"@,
            config.duration_predictor_hidden_channels,
        )
        &&& says_size(
            args,
            "duration_predictor_kernel_size"@,
            config.duration_predictor_kernel_size,
        )
        &&& says_number(args, "duration_predictor_dropout_p"@, config.duration_predictor_dropout)
        &&& config.pitch is Some <==> config.variant is FastSpeech2
        &&& config.energy is Some <==> config.variant is FastSpeech2
        &&& config.pitch matches Some(pitch) ==> says_variance(args, "pitch"@, pitch)
        &&& config.energy matches Some(energy) ==> says_variance(args, "energy"@, energy)
        &&& says_flag(args, "use_aligner"@, config.use_aligner)
        &&& says_size(args, "max_duration"@, config.max_duration)
    }
    &&& config.max_output_frames == 20_000
}

proof fn variance_is_said(args: Json, prefix: Seq<char>, config: VariancePredictorConfig)
    ensures
        VariancePredictorConfig::reading_fault(args, prefix) is None
            && VariancePredictorConfig::of(args, prefix) == config <==> says_variance(
            args,
            prefix,
            config,
        ) && config.fault(prefix) is None,
{
    arguments_are_said(args);
    if says_variance(args, prefix, config) {
        assert(VariancePredictorConfig::of(args, prefix) == config);
    }
}

/// What is read of a document is what it says; and where it says all that belongs to a valid
/// model, it is read.
pub proof fn fast_speech_documents_are_read(
    root: &Json,
    expected: &FastSpeechConfig,
    valid: Result<(), FastSpeechError>,
    out: Result<FastSpeechConfig, FastSpeechError>,
)
    requires
        call_ensures(FastSpeechConfig::from_json_value, (root,), out),
        call_ensures(FastSpeechConfig::validate, (expected,), valid),
    ensures
        out matches Ok(config) ==> says_fast_speech(*root, config),
        out matches Ok(config) ==> (config == *expected ==> valid is Ok),
        valid is Ok && says_fast_speech(*root, *expected) ==> out == Ok::<
            FastSpeechConfig,
            FastSpeechError,
        >(*expected),
        out matches Err(error) ==> error is InvalidConfig,
{
    reveal_strlit("fastspeech");
    reveal_strlit("fast_speech");
    reveal_strlit("fastspeech2");
    reveal_strlit("fast_speech2");
    assert("fastspeech"@.len() == 10 && "fast_speech"@.len() == 11);
    assert("fastspeech2"@.len() == 11 && "fast_speech2"@.len() == 12);
    assert("fast_speech"@[4] == '_' && "fastspeech2"@[4] == 's');
    arguments_are_said(*root);
    if out is Ok || says_fast_speech(*root, *expected) {
        let args = root.field("model_args"@)->0;
        assert(object_of(*root, "model_args"@) == Ok::<Json, Seq<char>>(args));
        let encoder = args.field("encoder_params"@)->0;
        let decoder = args.field("decoder_params"@)->0;
        assert(object_of(args, "encoder_params"@) == Ok::<Json, Seq<char>>(encoder));
        assert(object_of(args, "decoder_params"@) == Ok::<Json, Seq<char>>(decoder));
        arguments_are_said(args);
        let remark = "; FastSpeech requires fftransformer"@;
        types_are_said(args, "encoder_type"@, "fftransformer"@, remark);
        types_are_said(args, "decoder_type"@, "fftransformer"@, remark);
        counting_is_saying(*root, args);
        assert(speaker_conditioned(*root, args) <==> !says_no_speakers(*root, args));
        if let Ok(config) = out {
            transformers_are_said(encoder, "encoder"@, config.encoder);
            transformers_are_said(decoder, "decoder"@, config.decoder);
            if let Some(pitch) = config.pitch {
                variance_is_said(args, "pitch"@, pitch);
            }
            if let Some(energy) = config.energy {
                variance_is_said(args, "energy"@, energy);
            }
            assert(says_characters(*root, args, config.num_chars));
            assert(says_fast_speech(*root, config));
        }
        if valid is Ok && says_fast_speech(*root, *expected) {
            transformers_are_said(encoder, "encoder"@, expected.encoder);
            transformers_are_said(decoder, "decoder"@, expected.decoder);
            if let Some(pitch) = expected.pitch {
                variance_is_said(args, "pitch"@, pitch);
            }
            if let Some(energy) = expected.energy {
                variance_is_said(args, "energy"@, energy);
            }
            assert(FastSpeechConfig::of(*root) == *expected);
            assert(FastSpeechConfig::reading_fault(*root) is None);
        }
    }
}

/// The presets differ in their variant and its predictors alone; otherwise they have the sizes of
/// the published stacks, rates of a tenth, and a length scale of one.
pub proof fn presets_are_as_published(
    num_chars: usize,
    first_kind: FastSpeechConfig,
    second_kind: FastSpeechConfig,
)
    requires
        call_ensures(FastSpeechConfig::fastspeech, (num_chars,), first_kind),
        call_ensures(FastSpeechConfig::fastspeech2, (num_chars,), second_kind),
    ensures
        first_kind.variant is FastSpeech && second_kind.variant is FastSpeech2,
        first_kind.pitch is None && first_kind.energy is None,
        second_kind.pitch == second_kind.energy,
        second_kind.pitch matches Some(pitch) && pitch.hidden_channels == 256 && pitch.kernel_size
            == 3 && pitch.embedding_kernel_size == 3 && pitch.dropout.bits
            == 0x3FB9_9999_9999_999A,
        first_kind == (FastSpeechConfig {
            variant: first_kind.variant,
            pitch: None,
            energy: None,
            ..second_kind
        }),
        first_kind.num_chars == num_chars && first_kind.out_channels == 80
            && first_kind.hidden_channels == 384,
        first_kind.positional_encoding && first_kind.use_aligner,
        first_kind.length_scale.bits == 0x3FF0_0000_0000_0000,
        first_kind.encoder == first_kind.decoder,
        first_kind.encoder.hidden_channels_ffn == 1_024 && first_kind.encoder.num_heads == 1
            && first_kind.encoder.num_layers == 6 && first_kind.encoder.dropout.bits
            == 0x3FB9_9999_9999_999A,
        first_kind.duration_predictor_hidden_channels == 256
            && first_kind.duration_predictor_kernel_size == 3
            && first_kind.duration_predictor_dropout.bits == 0x3FB9_9999_9999_999A,
        first_kind.max_duration == 75 && first_kind.max_output_frames == 20_000,
{
}

/// The network has a stack on either side of its hidden channels, a predictor of durations that
/// reads them, and a projection of them to bins. Pitch and energy each have a predictor and an
/// embedding of one value exactly where they are configured, and an aligner is there exactly where
/// it is used.
pub proof fn fast_speech_layers_fit(
    config: &FastSpeechConfig,
    topology: FastSpeechTopology,
    encoder: TransformerLayers,
    decoder: TransformerLayers,
    durations: DurationPredictorLayers,
    aligned: AlignerLayers,
    length: int,
)
    requires
        config.buildable(),
        config.out_channels * 2 <= usize::MAX,
        call_ensures(
            FastSpeechConfig::topology,
            (config,),
            Ok::<FastSpeechTopology, FastSpeechError>(topology),
        ),
        call_ensures(transformer_layers, (config.hidden_channels, &config.encoder), encoder),
        call_ensures(transformer_layers, (config.hidden_channels, &config.decoder), decoder),
        call_ensures(
            duration_predictor_layers,
            (
                config.hidden_channels,
                config.duration_predictor_hidden_channels,
                config.duration_predictor_kernel_size,
            ),
            durations,
        ),
        call_ensures(
            aligner_layers,
            (config.out_channels, config.hidden_channels, config.out_channels),
            aligned,
        ),
    ensures
        topology.num_chars == config.num_chars,
        topology.hidden_channels == config.hidden_channels,
        topology.encoder == encoder && topology.decoder == decoder,
        topology.postnet.channels_in == config.hidden_channels && topology.postnet.channels_out
            == config.out_channels && topology.postnet.kernel_size == 1,
        topology.postnet.output_length(length) == length,
        topology.duration_predictor == durations,
        topology.pitch is Some <==> config.pitch is Some,
        topology.energy is Some <==> config.energy is Some,
        topology.pitch matches Some(layers) ==> variance_layers_fit(
            layers,
            config.pitch->0,
            config.hidden_channels,
            length,
        ),
        topology.energy matches Some(layers) ==> variance_layers_fit(
            layers,
            config.energy->0,
            config.hidden_channels,
            length,
        ),
        topology.positional == config.positional_encoding,
        topology.aligner is Some <==> config.use_aligner,
        topology.aligner matches Some(layers) ==> layers == aligned,
{
}

/// The layers of a variance read the channels of the network, run twice through the hidden ones,
/// emit one value, and embed one value into the channels again, all without changing the length.
pub open spec fn variance_layers_fit(
    layers: VarianceLayers,
    config: VariancePredictorConfig,
    channels: usize,
    length: int,
) -> bool {
    let predictor = layers.predictor;
    &&& predictor.conv_1.channels_in == channels
    &&& predictor.conv_1.channels_out == config.hidden_channels
    &&& predictor.conv_2.channels_in == config.hidden_channels
    &&& predictor.conv_2.channels_out == config.hidden_channels
    &&& predictor.proj.channels_in == config.hidden_channels && predictor.proj.channels_out == 1
    &&& predictor.conv_1.kernel_size == config.kernel_size
    &&& predictor.conv_2.kernel_size == config.kernel_size
    &&& predictor.proj.kernel_size == 1
    &&& predictor.conv_1.output_length(length) == length
    &&& predictor.conv_2.output_length(length) == length
    &&& predictor.proj.output_length(length) == length
    &&& layers.embedding.channels_in == 1 && layers.embedding.channels_out == channels
    &&& layers.embedding.kernel_size == config.embedding_kernel_size
    &&& layers.embedding.output_length(length) == length
}

/// Topologies exist exactly where the configuration is valid.
pub proof fn valid_fast_speech_is_built(
    config: &FastSpeechConfig,
    valid: Result<(), FastSpeechError>,
    out: Result<FastSpeechTopology, FastSpeechError>,
)
    requires
        config.fault() is None ==> config.buildable(),
        call_ensures(FastSpeechConfig::validate, (config,), valid),
        call_ensures(FastSpeechConfig::topology, (config,), out),
    ensures
        out is Ok <==> valid is Ok,
        out matches Err(error) ==> error is InvalidConfig,
{
}

/// A scale and a shift are in bounds exactly where the scale is finite and positive and the shift
/// finite.
pub proof fn scales_and_shifts_are_bounded(
    label: &str,
    scale: Double,
    shift: Double,
    out: Option<String>,
)
    requires
        call_ensures(check_scale_and_shift, (label, scale, shift), out),
    ensures
        out is None <==> scale.finite() && scale.rank() > 0 && shift.finite(),
{
}

/// The controls of a variance can be met: it is configured and explicit values have one per token,
/// or it is not and the controls leave everything as it is.
pub open spec fn variance_met(
    configured: bool,
    scale: Double,
    shift: Double,
    explicit: Option<[usize; 3]>,
    tokens: TokenBatch,
) -> bool {
    if configured {
        explicit matches Some(shape) ==> shape@[0] == tokens.batch && shape@[1] == 1 && shape@[2]
            == tokens.tokens
    } else {
        explicit is None && scale.bits == 0x3FF0_0000_0000_0000 && shift.rank() == 0
    }
}

/// A batch is synthesized exactly where the scales are positive, the shifts are finite, there are
/// tokens that name symbols, explicit durations have one per token, and the controls of pitch and
/// energy can be met. What is not given is predicted, what is given is taken, and what the model
/// lacks is absent.
pub proof fn fast_speech_batches_are_accepted_on_their_merits(
    config: &FastSpeechConfig,
    tokens: &TokenBatch,
    controls: &FastSpeechControls,
    ids_validated: bool,
    out: Result<FastSpeechPlan, FastSpeechError>,
)
    requires
        tokens.wf(),
        call_ensures(
            FastSpeechConfig::plan_inference,
            (config, tokens, controls, ids_validated),
            out,
        ),
    ensures
        out is Ok <==> {
            &&& controls.length_scale.finite() && controls.length_scale.rank() > 0
            &&& controls.pitch_scale.finite() && controls.pitch_scale.rank() > 0
            &&& controls.energy_scale.finite() && controls.energy_scale.rank() > 0
            &&& controls.pitch_shift.finite() && controls.energy_shift.finite()
            &&& tokens.batch > 0 && tokens.tokens > 0
            &&& ids_validated || ((exists|i: int|
                0 <= i < tokens.ids.len() && #[trigger] tokens.ids@[i] >= 0) && forall|i: int|
                0 <= i < tokens.ids.len() ==> #[trigger] tokens.ids@[i] < config.num_chars)
            &&& controls.durations matches Some(shape) ==> shape@[0] == tokens.batch && shape@[1]
                == tokens.tokens
            &&& variance_met(
                config.pitch is Some,
                controls.pitch_scale,
                controls.pitch_shift,
                controls.pitch,
                *tokens,
            )
            &&& variance_met(
                config.energy is Some,
                controls.energy_scale,
                controls.energy_shift,
                controls.energy,
                *tokens,
            )
        },
        out matches Ok(plan) ==> {
            &&& plan.batch == tokens.batch && plan.tokens == tokens.tokens
            &&& plan.predict_durations <==> controls.durations is None
            &&& plan.pitch is Absent <==> config.pitch is None
            &&& plan.energy is Absent <==> config.energy is None
            &&& plan.pitch is Explicit <==> controls.pitch is Some
            &&& plan.energy is Explicit <==> controls.energy is Some
        },
        out matches Err(error) ==> error is InvalidInput,
{
    if tokens.batch > 0 && tokens.tokens > 0 {
        assert(tokens.ids.len() > 0) by (nonlinear_arith)
            requires
                tokens.ids.len() == tokens.batch * tokens.tokens,
                tokens.batch > 0,
                tokens.tokens > 0,
        ;
        crate::tokens::vocabularies_hold_the_largest(tokens.ids@, config.num_chars as int);
    }
    if let Some(shape) = controls.durations {
        assert((shape@ =~= seq![tokens.batch, tokens.tokens]) <==> shape@[0] == tokens.batch
            && shape@[1] == tokens.tokens);
    }
    if let Some(shape) = controls.pitch {
        assert((shape@ =~= seq![tokens.batch, 1, tokens.tokens]) <==> shape@[0] == tokens.batch
            && shape@[1] == 1 && shape@[2] == tokens.tokens);
    }
    if let Some(shape) = controls.energy {
        assert((shape@ =~= seq![tokens.batch, 1, tokens.tokens]) <==> shape@[0] == tokens.batch
            && shape@[1] == 1 && shape@[2] == tokens.tokens);
    }
}

/// Controls that nobody set scale by one, shift by nothing and fix nothing; those of a model have
/// its length scale.
pub proof fn unset_fast_speech_controls_change_nothing(
    config: &FastSpeechConfig,
    plain: FastSpeechControls,
    own: FastSpeechControls,
)
    requires
        call_ensures(FastSpeechControls::default, (), plain),
        call_ensures(FastSpeechConfig::default_controls, (config,), own),
    ensures
        plain.length_scale.bits == 0x3FF0_0000_0000_0000,
        plain.pitch_scale == plain.length_scale && plain.energy_scale == plain.length_scale,
        plain.pitch_shift.bits == 0 && plain.energy_shift.bits == 0,
        plain.durations is None && plain.pitch is None && plain.energy is None,
        own.length_scale == config.length_scale,
        own.pitch_scale == plain.pitch_scale && own.pitch_shift == plain.pitch_shift,
        own.energy_scale == plain.energy_scale && own.energy_shift == plain.energy_shift,
        own.durations is None && own.pitch is None && own.energy is None,
{
}

/// The model expands as durations say, within its own limit.
pub proof fn fast_speech_expands_within_bounds<T: Copy>(
    config: &FastSpeechConfig,
    encoded: &Vec<Vec<Vec<T>>>,
    durations: &Vec<Vec<usize>>,
    fill: T,
    plain: Result<Expanded<T>, SpeedySpeechError>,
    out: Result<Expanded<T>, FastSpeechError>,
)
    requires
        aligned_with(encoded@, durations@),
        call_ensures(
            expand_by_durations::<T>,
            (encoded, durations, fill, config.max_output_frames),
            plain,
        ),
        call_ensures(FastSpeechConfig::expand::<T>, (config, encoded, durations, fill), out),
    ensures
        out is Ok <==> plain is Ok,
        out matches Ok(expanded) ==> expanded.expands(encoded@, durations@, fill),
        out matches Err(error) ==> error is InvalidInput,
{
}

/// Frames attend within the same bounds: the whole part of the latest instant counts them.
pub proof fn fast_speech_attends_within_bounds(
    config: &FastSpeechConfig,
    starts: &Vec<Vec<Double>>,
    ends: &Vec<Vec<Double>>,
    lengths: &Vec<Double>,
    latest: Double,
    frames: usize,
    out: Result<Attention, FastSpeechError>,
)
    requires
        paired(starts@, ends@),
        call_ensures(Double::to_usize, (latest,), frames),
        call_ensures(FastSpeechConfig::attend, (config, starts, ends, lengths, latest), out),
    ensures
        out is Ok <==> 0 < frames <= config.max_output_frames && frames <= 5_000,
        out matches Ok(attention) ==> attention.frames == frames && attention.follows(
            starts@,
            ends@,
            lengths@,
            latest,
        ),
        out matches Err(error) ==> error is InvalidInput,
{
}

/// The spectrogram has the batch, the frames and the bins; durations have the batch and the tokens,
/// and so have pitch and energy, in one channel, where they are not absent.
pub proof fn fast_speech_shapes_follow_plans(
    config: &FastSpeechConfig,
    plan: &FastSpeechPlan,
    frames: usize,
    out: FastSpeechShapes,
)
    requires
        call_ensures(FastSpeechConfig::output_shapes, (config, plan, frames), out),
    ensures
        out.mel@[0] == plan.batch && out.mel@[1] == frames && out.mel@[2] == config.out_channels,
        out.durations@[0] == plan.batch && out.durations@[1] == plan.tokens,
        out.pitch is None <==> plan.pitch is Absent,
        out.energy is None <==> plan.energy is Absent,
        out.pitch matches Some(shape) ==> shape@[0] == plan.batch && shape@[1] == 1 && shape@[2]
            == plan.tokens,
        out.energy matches Some(shape) ==> shape@[0] == plan.batch && shape@[1] == 1 && shape@[2]
            == plan.tokens,
{
}

/// A checkpoint fits exactly where nothing is missing, nothing failed, and nothing learned went
/// unused.
pub proof fn fast_speech_checkpoints_fit_exactly(
    report: &LoadReport,
    out: Result<(), FastSpeechError>,
)
    requires
        call_ensures(FastSpeechConfig::check_checkpoint, (report,), out),
    ensures
        out is Ok <==> report.missing.len() == 0 && report.errors.len() == 0 && (forall|i: int|
            0 <= i < report.unused.len() ==> !Subtree::Learned.contains(
                #[trigger] report.unused@[i]@,
            )),
        out matches Err(error) ==> error is Checkpoint,
{
    crate::checkpoint::fitting_leaves_nothing(*report, Subtree::Learned);
}

/// The weight of a normalization becomes its scale, and the bias its shift.
pub proof fn fast_speech_norms_are_renamed(out: Vec<(&'static str, &'static str)>)
    requires
        call_ensures(FastSpeechConfig::key_remappings, (), out),
    ensures
        out.len() == 4,
        out@[0].0@ == r"(\.norm_[12])\.weight$"@ && out@[1].0@ == r"(\.norm_[12])\.bias$"@,
        out@[2].0@ == r"(\.norm[12])\.weight$"@ && out@[3].0@ == r"(\.norm[12])\.bias$"@,
        out@[0].1@ == "$1.gamma"@ && out@[2].1@ == "$1.gamma"@,
        out@[1].1@ == "$1.beta"@ && out@[3].1@ == "$1.beta"@,
{
}

/// An error says of what kind it is, and then its reason.
pub proof fn fast_speech_errors_say_their_kind(error: &FastSpeechError, out: String)
    requires
        call_ensures(FastSpeechError::describe, (error,), out),
    ensures
        error matches FastSpeechError::InvalidConfig(message) ==> out@ == "invalid FastSpeech config: "@ + message@,
        error matches FastSpeechError::InvalidInput(message) ==> out@ == "invalid FastSpeech input: "@ + message@,
        error matches FastSpeechError::Checkpoint(message) ==> out@ == "unable to load FastSpeech checkpoint: "@ + message@,
{
}

} // verus!
