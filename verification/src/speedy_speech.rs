//! SpeedySpeech: a residual-convolution acoustic model with predicted durations.

use vstd::prelude::*;

use crate::checkpoint::{whole_model_heading, LoadReport, Subtree};
use crate::double::Double;
use crate::expansion::{
    attend_times, covers, expand_sequence, frame_tokens, longest, longest_total, paired, total,
    Attention,
};
use crate::hifigan::listed;
use crate::json::{
    arguments_are_said, bool_at, bool_of, counting_is_saying, fault_of, first, num_chars_at, num_chars_of, number_at, number_of, object_at,
    object_of, published_vocabulary_size_of, reading_is_saying, says_characters, says_flag,
    says_number, says_size, says_text, string_at, string_of, unless, usize_at, usize_of, Json,
};
use crate::layers::{
    balanced, balanced_conv, centered, centered_conv, is_multiple_of, is_odd, multiple_of, odd,
    pointwise, pointwise_conv, span, Conv,
};
use crate::text::{
    around_number, around_numbers, around_text, decimal, decimal_text, quoted, quoted_text,
    same_text, with_numbers, with_text,
};
use crate::tokens::{highest, highest_within, outside_vocabulary, vocabulary_fault, TokenBatch};

verus! {

/// The number of positions of the positional table.
pub const POSITIONAL_ENCODING_LIMIT: usize = 5_000;

/// Errors detected while parsing, constructing, loading, or running SpeedySpeech.
#[derive(Debug, Clone, PartialEq, Eq)]
pub enum SpeedySpeechError {
    InvalidConfig(String),
    InvalidInput(String),
    Checkpoint(String),
}

impl SpeedySpeechError {
    pub open spec fn described(self) -> Seq<char> {
        match self {
            SpeedySpeechError::InvalidConfig(message) => "invalid SpeedySpeech config: "@ + message@,
            SpeedySpeechError::InvalidInput(message) => "invalid SpeedySpeech input: "@ + message@,
            SpeedySpeechError::Checkpoint(message) => "unable to load SpeedySpeech checkpoint: "@
                + message@,
        }
    }

    /// The error in words.
    pub fn describe(&self) -> (out: String)
        ensures
            out@ == self.described(),
    {
        match self {
            SpeedySpeechError::InvalidConfig(message) => with_text(
                "invalid SpeedySpeech config: ",
                message.as_str(),
            ),
            SpeedySpeechError::InvalidInput(message) => with_text(
                "invalid SpeedySpeech input: ",
                message.as_str(),
            ),
            SpeedySpeechError::Checkpoint(message) => with_text(
                "unable to load SpeedySpeech checkpoint: ",
                message.as_str(),
            ),
        }
    }
}

/// The outcome is an accepted configuration, or the given fault.
pub open spec fn config_verdict<T>(
    out: Result<T, SpeedySpeechError>,
    fault: Option<Seq<char>>,
) -> bool {
    match out {
        Ok(_) => fault is None,
        Err(SpeedySpeechError::InvalidConfig(message)) => fault == Some(message@),
        Err(_) => false,
    }
}

/// The outcome is an accepted input, or the given fault.
pub open spec fn input_verdict<T>(out: Result<T, SpeedySpeechError>, fault: Option<Seq<char>>) -> bool {
    match out {
        Ok(_) => fault is None,
        Err(SpeedySpeechError::InvalidInput(message)) => fault == Some(message@),
        Err(_) => false,
    }
}

fn config_error<T>(message: String) -> (out: Result<T, SpeedySpeechError>)
    ensures
        out == Err::<T, SpeedySpeechError>(SpeedySpeechError::InvalidConfig(message)),
{
    Err(SpeedySpeechError::InvalidConfig(message))
}

fn input_error<T>(message: String) -> (out: Result<T, SpeedySpeechError>)
    ensures
        out == Err::<T, SpeedySpeechError>(SpeedySpeechError::InvalidInput(message)),
{
    Err(SpeedySpeechError::InvalidInput(message))
}

fn config<T>(read: Result<T, String>) -> (out: Result<T, SpeedySpeechError>)
    ensures
        match read {
            Ok(value) => out == Ok::<T, SpeedySpeechError>(value),
            Err(message) => out == Err::<T, SpeedySpeechError>(
                SpeedySpeechError::InvalidConfig(message),
            ),
        },
{
    match read {
        Ok(value) => Ok(value),
        Err(message) => Err(SpeedySpeechError::InvalidConfig(message)),
    }
}

/// Parameters for one residual-convolution stack.
#[derive(Debug, Clone, PartialEq, Eq)]
pub struct ResidualConvConfig {
    pub kernel_size: usize,
    pub dilations: Vec<usize>,
    pub num_conv_blocks: usize,
    pub num_res_blocks: usize,
}

/// The parameters of a stack as mathematical values.
#[verifier::ext_equal]
pub struct ResidualConvModel {
    pub kernel_size: usize,
    pub dilations: Seq<usize>,
    pub num_conv_blocks: usize,
    pub num_res_blocks: usize,
}

impl View for ResidualConvConfig {
    type V = ResidualConvModel;

    open spec fn view(&self) -> ResidualConvModel {
        ResidualConvModel {
            kernel_size: self.kernel_size,
            dilations: self.dilations@,
            num_conv_blocks: self.num_conv_blocks,
            num_res_blocks: self.num_res_blocks,
        }
    }
}

/// The largest of the dilations, zero where there is none.
pub open spec fn widest(dilations: Seq<usize>) -> int
    decreases dilations.len(),
{
    if dilations.len() == 0 {
        0
    } else {
        let before = widest(dilations.drop_last());
        if before < dilations.last() {
            dilations.last() as int
        } else {
            before
        }
    }
}

/// The widest dilation bounds them all.
pub proof fn widest_bounds_all(dilations: Seq<usize>)
    ensures
        forall|i: int| 0 <= i < dilations.len() ==> #[trigger] dilations[i] <= widest(dilations),
    decreases dilations.len(),
{
    if dilations.len() > 0 {
        let front = dilations.drop_last();
        widest_bounds_all(front);
        assert forall|i: int| 0 <= i < dilations.len() implies #[trigger] dilations[i] <= widest(
            dilations,
        ) by {
            if i < front.len() {
                assert(front[i] == dilations[i]);
            }
        }
    }
}

impl ResidualConvModel {
    /// The first rule that the parameters break.
    pub open spec fn fault(self, label: Seq<char>) -> Option<Seq<char>> {
        if self.kernel_size == 0 {
            Some(label + " kernel_size must be positive"@)
        } else if self.num_conv_blocks == 0 {
            Some(label + " num_conv_blocks must be positive"@)
        } else if self.num_res_blocks == 0 {
            Some(label + " num_res_blocks must be positive"@)
        } else if self.dilations.len() != self.num_res_blocks {
            Some(
                label + " has "@ + decimal(self.dilations.len()) + " dilations but num_res_blocks is "@
                    + decimal(self.num_res_blocks as nat),
            )
        } else if self.dilations.contains(0) {
            Some(label + " dilations must all be positive"@)
        } else {
            None
        }
    }

    /// The fewest frames that the stack can read: the reach of its widest kernel.
    pub open spec fn minimum_input(self) -> int {
        if self.dilations.len() == 0 {
            1
        } else {
            span(self.kernel_size as int, widest(self.dilations)) + 1
        }
    }
}

/// Whether a list holds a zero.
pub fn holds_zero(values: &[usize]) -> (out: bool)
    ensures
        out == values@.contains(0),
{
    let mut i: usize = 0;
    while i < values.len()
        invariant
            i <= values.len(),
            forall|k: int| 0 <= k < i ==> values@[k] != 0,
        decreases values.len() - i,
    {
        if values[i] == 0 {
            assert(values@[i as int] == 0);
            return true;
        }
        i = i + 1;
    }
    false
}

impl ResidualConvConfig {
    pub fn validate(&self, label: &str) -> (out: Result<(), SpeedySpeechError>)
        ensures
            config_verdict(out, self@.fault(label@)),
    {
        if self.kernel_size == 0 {
            return config_error(with_text(label, " kernel_size must be positive"));
        }
        if self.num_conv_blocks == 0 {
            return config_error(with_text(label, " num_conv_blocks must be positive"));
        }
        if self.num_res_blocks == 0 {
            return config_error(with_text(label, " num_res_blocks must be positive"));
        }
        if self.dilations.len() != self.num_res_blocks {
            let mut message = with_text(label, " has ");
            message.append(decimal_text(self.dilations.len() as u64).as_str());
            message.append(" dilations but num_res_blocks is ");
            message.append(decimal_text(self.num_res_blocks as u64).as_str());
            return config_error(message);
        }
        if holds_zero(self.dilations.as_slice()) {
            return config_error(with_text(label, " dilations must all be positive"));
        }
        Ok(())
    }
}

/// The dilations of a stack, each an unsigned integer.
pub open spec fn dilations_of(items: Seq<Json>, label: Seq<char>) -> Result<Seq<usize>, Seq<char>>
    decreases items.len(),
{
    if items.len() == 0 {
        Ok(Seq::empty())
    } else {
        match dilations_of(items.drop_last(), label) {
            Err(message) => Err(message),
            Ok(front) => match items.last().size_value() {
                Some(size) => Ok(front.push(size)),
                None => Err(
                    label + ".dilations["@ + decimal((items.len() - 1) as nat)
                        + "] must be an unsigned integer"@,
                ),
            },
        }
    }
}

/// The parameters of a stack in a document.
pub open spec fn residual_of(value: Json, label: Seq<char>) -> Result<ResidualConvModel, Seq<char>> {
    let dilations = match value.field("dilations"@) {
        Some(Json::List(items)) => dilations_of(items@, label),
        _ => Err(label + ".dilations must be an array"@),
    };
    let kernel_size = usize_of(value, "kernel_size"@);
    let num_conv_blocks = usize_of(value, "num_conv_blocks"@);
    let num_res_blocks = usize_of(value, "num_res_blocks"@);
    let fault = first(
        fault_of(dilations),
        first(fault_of(kernel_size), first(fault_of(num_conv_blocks), fault_of(num_res_blocks))),
    );
    match fault {
        Some(message) => Err(message),
        None => Ok(
            ResidualConvModel {
                kernel_size: kernel_size->Ok_0,
                dilations: dilations->Ok_0,
                num_conv_blocks: num_conv_blocks->Ok_0,
                num_res_blocks: num_res_blocks->Ok_0,
            },
        ),
    }
}

proof fn dilation_faults_persist(items: Seq<Json>, label: Seq<char>, read: int)
    requires
        0 <= read <= items.len(),
        dilations_of(items.take(read), label) is Err,
    ensures
        dilations_of(items, label) == dilations_of(items.take(read), label),
    decreases items.len() - read,
{
    if read < items.len() {
        assert(items.take(read + 1).drop_last() =~= items.take(read));
        dilation_faults_persist(items, label, read + 1);
    } else {
        assert(items.take(read) =~= items);
    }
}

fn read_dilations(items: &Vec<Json>, label: &str) -> (out: Result<Vec<usize>, String>)
    ensures
        match out {
            Ok(dilations) => dilations_of(items@, label@) == Ok::<Seq<usize>, Seq<char>>(dilations@),
            Err(message) => dilations_of(items@, label@) == Err::<Seq<usize>, Seq<char>>(message@),
        },
{
    let mut dilations: Vec<usize> = Vec::new();
    let mut i: usize = 0;
    assert(dilations_of(items@.take(0), label@) == Ok::<Seq<usize>, Seq<char>>(dilations@));
    while i < items.len()
        invariant
            i <= items.len(),
            dilations_of(items@.take(i as int), label@) == Ok::<Seq<usize>, Seq<char>>(dilations@),
        decreases items.len() - i,
    {
        proof {
            assert(items@.take(i + 1).drop_last() =~= items@.take(i as int));
        }
        match items[i].as_usize() {
            Some(size) => dilations.push(size),
            None => {
                let mut message = with_text(label, ".dilations[");
                message.append(decimal_text(i as u64).as_str());
                message.append("] must be an unsigned integer");
                proof {
                    dilation_faults_persist(items@, label@, i + 1);
                }
                return Err(message);
            },
        }
        i = i + 1;
    }
    assert(items@.take(items.len() as int) =~= items@);
    Ok(dilations)
}

fn residual_config(value: &Json, label: &str) -> (out: Result<ResidualConvConfig, String>)
    ensures
        match out {
            Ok(stack) => residual_of(*value, label@) == Ok::<ResidualConvModel, Seq<char>>(stack@),
            Err(message) => residual_of(*value, label@) == Err::<ResidualConvModel, Seq<char>>(
                message@,
            ),
        },
{
    let items = match value.get("dilations") {
        Some(field) => match field.as_array() {
            Some(items) => items,
            None => return Err(with_text(label, ".dilations must be an array")),
        },
        None => return Err(with_text(label, ".dilations must be an array")),
    };
    let dilations = read_dilations(items, label)?;
    let kernel_size: usize = usize_at(value, "kernel_size")?;
    let num_conv_blocks: usize = usize_at(value, "num_conv_blocks")?;
    let num_res_blocks: usize = usize_at(value, "num_res_blocks")?;
    Ok(ResidualConvConfig { kernel_size, dilations, num_conv_blocks, num_res_blocks })
}

/// Model parameters required by the released residual-convolution graph.
#[derive(Debug, Clone, PartialEq, Eq)]
pub struct SpeedySpeechConfig {
    pub num_chars: usize,
    pub out_channels: usize,
    pub hidden_channels: usize,
    pub positional_encoding: bool,
    pub length_scale: Double,
    pub encoder: ResidualConvConfig,
    pub decoder: ResidualConvConfig,
    pub duration_predictor_hidden_channels: usize,
    pub duration_predictor_kernel_size: usize,
    pub duration_predictor_dropout: Double,
    pub use_aligner: bool,
    pub max_duration: usize,
    /// Allocation guard applied after duration prediction.
    pub max_output_frames: usize,
}

/// The parameters of a model as mathematical values.
#[verifier::ext_equal]
pub struct SpeedySpeechModel {
    pub num_chars: usize,
    pub out_channels: usize,
    pub hidden_channels: usize,
    pub positional_encoding: bool,
    pub length_scale: Double,
    pub encoder: ResidualConvModel,
    pub decoder: ResidualConvModel,
    pub duration_predictor_hidden_channels: usize,
    pub duration_predictor_kernel_size: usize,
    pub duration_predictor_dropout: Double,
    pub use_aligner: bool,
    pub max_duration: usize,
    pub max_output_frames: usize,
}

impl View for SpeedySpeechConfig {
    type V = SpeedySpeechModel;

    open spec fn view(&self) -> SpeedySpeechModel {
        SpeedySpeechModel {
            num_chars: self.num_chars,
            out_channels: self.out_channels,
            hidden_channels: self.hidden_channels,
            positional_encoding: self.positional_encoding,
            length_scale: self.length_scale,
            encoder: self.encoder@,
            decoder: self.decoder@,
            duration_predictor_hidden_channels: self.duration_predictor_hidden_channels,
            duration_predictor_kernel_size: self.duration_predictor_kernel_size,
            duration_predictor_dropout: self.duration_predictor_dropout,
            use_aligner: self.use_aligner,
            max_duration: self.max_duration,
            max_output_frames: self.max_output_frames,
        }
    }
}

impl SpeedySpeechModel {
    /// The first rule that the parameters break.
    pub open spec fn fault(self) -> Option<Seq<char>> {
        if self.num_chars == 0 {
            Some("num_chars must be positive"@)
        } else if self.out_channels == 0 {
            Some("out_channels must be positive"@)
        } else if self.hidden_channels == 0 {
            Some("hidden_channels must be positive"@)
        } else if self.positional_encoding && !multiple_of(self.hidden_channels as int, 2) {
            Some("hidden_channels must be even when positional encoding is enabled"@)
        } else if !self.length_scale.finite_positive() {
            Some("length_scale must be finite and positive"@)
        } else if self.duration_predictor_hidden_channels == 0 {
            Some("duration_predictor_hidden_channels must be positive"@)
        } else if !odd(self.duration_predictor_kernel_size) {
            Some("duration_predictor_kernel_size must be positive and odd"@)
        } else if !self.duration_predictor_dropout.unit_interval() {
            Some("duration_predictor_dropout must be in [0, 1)"@)
        } else if self.max_duration == 0 {
            Some("max_duration must be positive"@)
        } else if self.max_output_frames == 0 {
            Some("max_output_frames must be positive"@)
        } else {
            first(self.encoder.fault("encoder"@), self.decoder.fault("decoder"@))
        }
    }
}

/// The published LJSpeech architecture.
pub open spec fn ljspeech_model() -> SpeedySpeechModel {
    SpeedySpeechModel {
        num_chars: 130,
        out_channels: 80,
        hidden_channels: 128,
        positional_encoding: true,
        length_scale: Double { bits: 0x3FF0_0000_0000_0000 },
        encoder: ResidualConvModel {
            kernel_size: 4,
            dilations: seq![1, 2, 4, 1, 2, 4, 1, 2, 4, 1, 2, 4, 1],
            num_conv_blocks: 2,
            num_res_blocks: 13,
        },
        decoder: ResidualConvModel {
            kernel_size: 4,
            dilations: seq![1, 2, 4, 8, 1, 2, 4, 8, 1, 2, 4, 8, 1, 2, 4, 8, 1],
            num_conv_blocks: 2,
            num_res_blocks: 17,
        },
        duration_predictor_hidden_channels: 256,
        duration_predictor_kernel_size: 3,
        duration_predictor_dropout: Double { bits: 0x3FB9_9999_9999_999A },
        use_aligner: true,
        max_duration: 75,
        max_output_frames: 20_000,
    }
}

/// The checkpoint is for one speaker: at most one declared, and no speaker vectors.
pub open spec fn single_speaker_fault(args: Json, message: Seq<char>) -> Option<Seq<char>> {
    match usize_of(args, "num_speakers"@) {
        Err(fault) => Some(fault),
        Ok(speakers) => if speakers > 1 {
            Some(message)
        } else {
            match bool_of(args, "use_d_vector"@) {
                Err(fault) => Some(fault),
                Ok(true) => Some(message),
                Ok(false) => match usize_of(args, "d_vector_dim"@) {
                    Err(fault) => Some(fault),
                    Ok(dimensions) => unless(dimensions == 0, message),
                },
            }
        },
    }
}

/// A type field names the supported type.
pub open spec fn type_fault(
    args: Json,
    field: Seq<char>,
    expected: Seq<char>,
    remark: Seq<char>,
) -> Option<Seq<char>> {
    match string_of(args, field) {
        Err(fault) => Some(fault),
        Ok(actual) => unless(actual == expected, "unsupported "@ + field + " "@ + quoted(actual) + remark),
    }
}

/// Whether the checkpoint is for one speaker.
pub fn check_single_speaker(args: &Json, message: &str) -> (out: Result<(), String>)
    ensures
        match out {
            Ok(_) => single_speaker_fault(*args, message@) is None,
            Err(fault) => single_speaker_fault(*args, message@) == Some(fault@),
        },
{
    if usize_at(args, "num_speakers")? > 1 || bool_at(args, "use_d_vector")? || usize_at(
        args,
        "d_vector_dim",
    )? != 0 {
        return Err(message.to_owned());
    }
    Ok(())
}

/// Whether a type field names the supported type.
pub fn check_type(args: &Json, field: &str, expected: &str, remark: &str) -> (out: Result<(), String>)
    ensures
        match out {
            Ok(_) => type_fault(*args, field@, expected@, remark@) is None,
            Err(fault) => type_fault(*args, field@, expected@, remark@) == Some(fault@),
        },
{
    let actual = string_at(args, field)?;
    if !same_text(actual, expected) {
        let mut message = around_text("unsupported ", field, " ");
        message.append(quoted_text(actual).as_str());
        message.append(remark);
        return Err(message);
    }
    Ok(())
}

/// The parameters that a document holds, where each can be read.
pub open spec fn speedy_model_of(root: Json) -> SpeedySpeechModel {
    let args = object_of(root, "model_args"@)->Ok_0;
    let encoder_params = object_of(args, "encoder_params"@)->Ok_0;
    let decoder_params = object_of(args, "decoder_params"@)->Ok_0;
    SpeedySpeechModel {
        num_chars: num_chars_of(args, published_vocabulary_size_of(root))->Ok_0,
        out_channels: usize_of(args, "out_channels"@)->Ok_0,
        hidden_channels: usize_of(args, "hidden_channels"@)->Ok_0,
        positional_encoding: bool_of(args, "positional_encoding"@)->Ok_0,
        length_scale: number_of(args, "length_scale"@)->Ok_0,
        encoder: residual_of(encoder_params, "encoder_params"@)->Ok_0,
        decoder: residual_of(decoder_params, "decoder_params"@)->Ok_0,
        duration_predictor_hidden_channels: usize_of(
            args,
            "duration_predictor_hidden_channels"@,
        )->Ok_0,
        duration_predictor_kernel_size: usize_of(args, "duration_predictor_kernel_size"@)->Ok_0,
        duration_predictor_dropout: number_of(args, "duration_predictor_dropout_p"@)->Ok_0,
        use_aligner: bool_of(args, "use_aligner"@)->Ok_0,
        max_duration: usize_of(args, "max_duration"@)->Ok_0,
        max_output_frames: 20_000,
    }
}

/// The first reason why a document is not the configuration of this model.
pub open spec fn speedy_fault(root: Json) -> Option<Seq<char>> {
    match string_of(root, "model"@) {
        Err(fault) => Some(fault),
        Ok(model) => if model != "speedy_speech"@ {
            Some("expected model \"speedy_speech\", got "@ + quoted(model))
        } else {
            match object_of(root, "model_args"@) {
                Err(fault) => Some(fault),
                Ok(args) => speedy_args_fault(root, args),
            }
        },
    }
}

pub open spec fn speedy_args_fault(root: Json, args: Json) -> Option<Seq<char>> {
    let remark = "; only residual_conv_bn matches the released model"@;
    match object_of(args, "encoder_params"@) {
        Err(fault) => Some(fault),
        Ok(encoder_params) => match object_of(args, "decoder_params"@) {
            Err(fault) => Some(fault),
            Ok(decoder_params) => first(
                type_fault(args, "encoder_type"@, "residual_conv_bn"@, remark),
                first(
                    type_fault(args, "decoder_type"@, "residual_conv_bn"@, remark),
                    first(
                        match bool_of(args, "use_pitch"@) {
                            Err(fault) => Some(fault),
                            Ok(pitch) => unless(
                                !pitch,
                                "this SpeedySpeech implementation does not accept FastPitch checkpoints"@,
                            ),
                        },
                        first(
                            single_speaker_fault(
                                args,
                                "the released LJSpeech model is single-speaker; speaker-conditioned ForwardTTS is not this checkpoint"@,
                            ),
                            speedy_values_fault(root, args, encoder_params, decoder_params),
                        ),
                    ),
                ),
            ),
        },
    }
}

pub open spec fn speedy_values_fault(
    root: Json,
    args: Json,
    encoder_params: Json,
    decoder_params: Json,
) -> Option<Seq<char>> {
    first(
        fault_of(num_chars_of(args, published_vocabulary_size_of(root))),
        first(
            fault_of(usize_of(args, "out_channels"@)),
            first(
                fault_of(usize_of(args, "hidden_channels"@)),
                first(
                    fault_of(bool_of(args, "positional_encoding"@)),
                    first(
                        fault_of(number_of(args, "length_scale"@)),
                        first(
                            fault_of(residual_of(encoder_params, "encoder_params"@)),
                            first(
                                fault_of(residual_of(decoder_params, "decoder_params"@)),
                                speedy_predictor_fault(root, args),
                            ),
                        ),
                    ),
                ),
            ),
        ),
    )
}

pub open spec fn speedy_predictor_fault(root: Json, args: Json) -> Option<Seq<char>> {
    first(
        fault_of(usize_of(args, "duration_predictor_hidden_channels"@)),
        first(
            fault_of(usize_of(args, "duration_predictor_kernel_size"@)),
            first(
                fault_of(number_of(args, "duration_predictor_dropout_p"@)),
                first(
                    fault_of(bool_of(args, "use_aligner"@)),
                    first(fault_of(usize_of(args, "max_duration"@)), speedy_model_of(root).fault()),
                ),
            ),
        ),
    )
}

impl SpeedySpeechConfig {
    /// Published `tts_models/en/ljspeech/speedy-speech` architecture.
    pub fn ljspeech() -> (out: Self)
        ensures
            out@ == ljspeech_model(),
    {
        let out = SpeedySpeechConfig {
            num_chars: 130,
            out_channels: 80,
            hidden_channels: 128,
            positional_encoding: true,
            length_scale: Double { bits: 0x3FF0_0000_0000_0000 },
            encoder: ResidualConvConfig {
                kernel_size: 4,
                dilations: vec![1, 2, 4, 1, 2, 4, 1, 2, 4, 1, 2, 4, 1],
                num_conv_blocks: 2,
                num_res_blocks: 13,
            },
            decoder: ResidualConvConfig {
                kernel_size: 4,
                dilations: vec![1, 2, 4, 8, 1, 2, 4, 8, 1, 2, 4, 8, 1, 2, 4, 8, 1],
                num_conv_blocks: 2,
                num_res_blocks: 17,
            },
            duration_predictor_hidden_channels: 256,
            duration_predictor_kernel_size: 3,
            duration_predictor_dropout: Double { bits: 0x3FB9_9999_9999_999A },
            use_aligner: true,
            max_duration: 75,
            max_output_frames: 20_000,
        };
        assert(out@ =~= ljspeech_model());
        out
    }

    /// Reads the model-specific values of a compatible configuration document.
    pub fn from_json_value(root: &Json) -> (out: Result<Self, SpeedySpeechError>)
        ensures
            config_verdict(out, speedy_fault(*root)),
            out matches Ok(config) ==> config@ == speedy_model_of(*root) && config@.fault() is None,
    {
        let model = config(string_at(root, "model"))?;
        if !same_text(model, "speedy_speech") {
            return config_error(
                with_text("expected model \"speedy_speech\", got ", quoted_text(model).as_str()),
            );
        }
        let args = config(object_at(root, "model_args"))?;
        let encoder_params = config(object_at(args, "encoder_params"))?;
        let decoder_params = config(object_at(args, "decoder_params"))?;
        let remark = "; only residual_conv_bn matches the released model";
        config(check_type(args, "encoder_type", "residual_conv_bn", remark))?;
        config(check_type(args, "decoder_type", "residual_conv_bn", remark))?;
        if config(bool_at(args, "use_pitch"))? {
            return config_error(
                "this SpeedySpeech implementation does not accept FastPitch checkpoints".to_owned(),
            );
        }
        config(
            check_single_speaker(
                args,
                "the released LJSpeech model is single-speaker; speaker-conditioned ForwardTTS is not this checkpoint",
            ),
        )?;
        let num_chars: usize = config(num_chars_at(root, args))?;
        let out = SpeedySpeechConfig {
            num_chars,
            out_channels: config(usize_at(args, "out_channels"))?,
            hidden_channels: config(usize_at(args, "hidden_channels"))?,
            positional_encoding: config(bool_at(args, "positional_encoding"))?,
            length_scale: config(number_at(args, "length_scale"))?,
            encoder: config(residual_config(encoder_params, "encoder_params"))?,
            decoder: config(residual_config(decoder_params, "decoder_params"))?,
            duration_predictor_hidden_channels: config(
                usize_at(args, "duration_predictor_hidden_channels"),
            )?,
            duration_predictor_kernel_size: config(
                usize_at(args, "duration_predictor_kernel_size"),
            )?,
            duration_predictor_dropout: config(number_at(args, "duration_predictor_dropout_p"))?,
            use_aligner: config(bool_at(args, "use_aligner"))?,
            max_duration: config(usize_at(args, "max_duration"))?,
            max_output_frames: 20_000,
        };
        assert(out@ == speedy_model_of(*root));
        out.validate()?;
        Ok(out)
    }

    pub fn validate(&self) -> (out: Result<(), SpeedySpeechError>)
        ensures
            config_verdict(out, self@.fault()),
    {
        if self.num_chars == 0 {
            return config_error("num_chars must be positive".to_owned());
        }
        if self.out_channels == 0 {
            return config_error("out_channels must be positive".to_owned());
        }
        if self.hidden_channels == 0 {
            return config_error("hidden_channels must be positive".to_owned());
        }
        if self.positional_encoding && !is_multiple_of(self.hidden_channels, 2) {
            return config_error(
                "hidden_channels must be even when positional encoding is enabled".to_owned(),
            );
        }
        if !self.length_scale.is_finite_positive() {
            return config_error("length_scale must be finite and positive".to_owned());
        }
        if self.duration_predictor_hidden_channels == 0 {
            return config_error("duration_predictor_hidden_channels must be positive".to_owned());
        }
        if !is_odd(self.duration_predictor_kernel_size) {
            return config_error(
                "duration_predictor_kernel_size must be positive and odd".to_owned(),
            );
        }
        if !self.duration_predictor_dropout.is_in_unit_interval() {
            return config_error("duration_predictor_dropout must be in [0, 1)".to_owned());
        }
        if self.max_duration == 0 {
            return config_error("max_duration must be positive".to_owned());
        }
        if self.max_output_frames == 0 {
            return config_error("max_output_frames must be positive".to_owned());
        }
        self.encoder.validate("encoder")?;
        self.decoder.validate("decoder")?;
        Ok(())
    }
}

/// The largest of the dilations, zero where there is none.
pub fn widest_dilation(dilations: &[usize]) -> (out: usize)
    ensures
        out == widest(dilations@),
{
    let mut most: usize = 0;
    let mut i: usize = 0;
    while i < dilations.len()
        invariant
            i <= dilations.len(),
            most == widest(dilations@.take(i as int)),
        decreases dilations.len() - i,
    {
        proof {
            assert(dilations@.take(i + 1).drop_last() =~= dilations@.take(i as int));
        }
        if most < dilations[i] {
            most = dilations[i];
        }
        i = i + 1;
    }
    assert(dilations@.take(dilations.len() as int) =~= dilations@);
    most
}

/// The fewest frames that a stack can read.
pub fn minimum_stack_input_size(config: &ResidualConvConfig) -> (out: usize)
    requires
        config.kernel_size >= 1,
        config@.minimum_input() <= usize::MAX,
    ensures
        out == config@.minimum_input(),
{
    if config.dilations.len() == 0 {
        return 1;
    }
    let dilation: usize = widest_dilation(config.dilations.as_slice());
    assert(0 <= dilation * (config.kernel_size - 1)) by (nonlinear_arith)
        requires
            config.kernel_size >= 1,
    ;
    dilation * (config.kernel_size - 1) + 1
}

/// The convolutions of one block: from `channels_in` to `channels_out`, with `hidden_channels`
/// between neighbours.
pub open spec fn block_layers(
    channels_in: usize,
    channels_out: usize,
    hidden_channels: usize,
    kernel_size: usize,
    dilation: usize,
    count: nat,
) -> Seq<Conv> {
    Seq::new(
        count,
        |i: int|
            balanced(
                if i == 0 {
                    channels_in
                } else {
                    hidden_channels
                },
                if i + 1 == count {
                    channels_out
                } else {
                    hidden_channels
                },
                kernel_size,
                dilation,
            ),
    )
}

pub fn conv_bn_block(
    channels_in: usize,
    channels_out: usize,
    hidden_channels: usize,
    kernel_size: usize,
    dilation: usize,
    count: usize,
) -> (out: Vec<Conv>)
    requires
        kernel_size >= 1,
        span(kernel_size as int, dilation as int) <= usize::MAX,
    ensures
        out@ == block_layers(
            channels_in,
            channels_out,
            hidden_channels,
            kernel_size,
            dilation,
            count as nat,
        ),
{
    let mut out: Vec<Conv> = Vec::new();
    let mut index: usize = 0;
    while index < count
        invariant
            index <= count,
            kernel_size >= 1,
            span(kernel_size as int, dilation as int) <= usize::MAX,
            out@ == block_layers(
                channels_in,
                channels_out,
                hidden_channels,
                kernel_size,
                dilation,
                count as nat,
            ).take(index as int),
        decreases count - index,
    {
        let layer_in: usize = if index == 0 {
            channels_in
        } else {
            hidden_channels
        };
        let layer_out: usize = if index + 1 == count {
            channels_out
        } else {
            hidden_channels
        };
        out.push(balanced_conv(layer_in, layer_out, kernel_size, dilation));
        index = index + 1;
    }
    out
}

impl ResidualConvModel {
    /// One block per dilation, all of the same width.
    pub open spec fn blocks(self, channels: usize) -> Seq<Seq<Conv>> {
        Seq::new(
            self.dilations.len(),
            |i: int|
                block_layers(
                    channels,
                    channels,
                    channels,
                    self.kernel_size,
                    self.dilations[i],
                    self.num_conv_blocks as nat,
                ),
        )
    }
}

/// The contents of the blocks.
pub open spec fn block_views(blocks: Seq<Vec<Conv>>) -> Seq<Seq<Conv>> {
    Seq::new(blocks.len(), |i: int| blocks[i]@)
}

pub fn residual_blocks(channels: usize, config: &ResidualConvConfig) -> (out: Vec<Vec<Conv>>)
    requires
        config.kernel_size >= 1,
        config@.minimum_input() <= usize::MAX,
    ensures
        block_views(out@) == config@.blocks(channels),
{
    let mut out: Vec<Vec<Conv>> = Vec::new();
    let mut i: usize = 0;
    while i < config.dilations.len()
        invariant
            i <= config.dilations.len(),
            config.kernel_size >= 1,
            config@.minimum_input() <= usize::MAX,
            out.len() == i,
            forall|k: int|
                0 <= k < i ==> (#[trigger] out[k])@ == config@.blocks(channels)[k],
        decreases config.dilations.len() - i,
    {
        let dilation: usize = config.dilations[i];
        proof {
            widest_bounds_all(config.dilations@);
            let most = widest(config.dilations@);
            assert(dilation * (config.kernel_size - 1) <= most * (config.kernel_size - 1))
                by (nonlinear_arith)
                requires
                    config.kernel_size >= 1,
                    dilation <= most,
            ;
        }
        out.push(
            conv_bn_block(
                channels,
                channels,
                channels,
                config.kernel_size,
                dilation,
                config.num_conv_blocks,
            ),
        );
        i = i + 1;
    }
    assert(block_views(out@) =~= config@.blocks(channels));
    out
}

/// Two padded convolutions and a projection to one channel.
#[derive(Debug, Clone, Copy, PartialEq, Eq, Structural)]
pub struct DurationPredictorLayers {
    pub conv_1: Conv,
    pub conv_2: Conv,
    pub proj: Conv,
}

pub open spec fn duration_predictor(
    channels_in: usize,
    hidden_channels: usize,
    kernel_size: usize,
) -> DurationPredictorLayers {
    DurationPredictorLayers {
        conv_1: centered(channels_in, hidden_channels, kernel_size),
        conv_2: centered(hidden_channels, hidden_channels, kernel_size),
        proj: pointwise(hidden_channels, 1),
    }
}

pub fn duration_predictor_layers(
    channels_in: usize,
    hidden_channels: usize,
    kernel_size: usize,
) -> (out: DurationPredictorLayers)
    ensures
        out == duration_predictor(channels_in, hidden_channels, kernel_size),
{
    DurationPredictorLayers {
        conv_1: centered_conv(channels_in, hidden_channels, kernel_size),
        conv_2: centered_conv(hidden_channels, hidden_channels, kernel_size),
        proj: pointwise_conv(hidden_channels, 1),
    }
}

/// The layers of the aligner that only training uses.
#[derive(Debug, Clone, Copy, PartialEq, Eq, Structural)]
pub struct AlignerLayers {
    pub key_1: Conv,
    pub key_2: Conv,
    pub query_1: Conv,
    pub query_2: Conv,
    pub query_3: Conv,
}

pub open spec fn aligner(
    query_channels: usize,
    key_channels: usize,
    attention_channels: usize,
) -> AlignerLayers {
    AlignerLayers {
        key_1: centered(key_channels, (key_channels * 2) as usize, 3),
        key_2: pointwise((key_channels * 2) as usize, attention_channels),
        query_1: centered(query_channels, (query_channels * 2) as usize, 3),
        query_2: pointwise((query_channels * 2) as usize, query_channels),
        query_3: pointwise(query_channels, attention_channels),
    }
}

pub fn aligner_layers(query_channels: usize, key_channels: usize, attention_channels: usize) -> (out:
    AlignerLayers)
    requires
        query_channels * 2 <= usize::MAX,
        key_channels * 2 <= usize::MAX,
    ensures
        out == aligner(query_channels, key_channels, attention_channels),
{
    AlignerLayers {
        key_1: centered_conv(key_channels, key_channels * 2, 3),
        key_2: pointwise_conv(key_channels * 2, attention_channels),
        query_1: centered_conv(query_channels, query_channels * 2, 3),
        query_2: pointwise_conv(query_channels * 2, query_channels),
        query_3: pointwise_conv(query_channels, attention_channels),
    }
}

/// Everything that is needed to build the network.
#[derive(Debug, Clone)]
pub struct SpeedySpeechTopology {
    pub num_chars: usize,
    pub hidden_channels: usize,
    pub encoder_prenet: Conv,
    pub encoder_blocks: Vec<Vec<Conv>>,
    pub encoder_postnet_1: Conv,
    pub encoder_postnet_2: Conv,
    pub positional: bool,
    pub decoder_blocks: Vec<Vec<Conv>>,
    pub decoder_post_conv: Conv,
    pub decoder_postnet_block: Vec<Conv>,
    pub decoder_postnet: Conv,
    pub duration_predictor: DurationPredictorLayers,
    pub aligner: Option<AlignerLayers>,
    pub minimum_input_tokens: usize,
    pub minimum_output_frames: usize,
}

/// The shapes of what the network emits.
#[derive(Debug, Clone, Copy, PartialEq, Eq)]
pub struct SpeedySpeechShapes {
    pub mel: [usize; 3],
    pub durations: [usize; 2],
}

impl SpeedySpeechModel {
    /// The layer sizes are representable.
    pub open spec fn buildable(self) -> bool {
        &&& self.encoder.minimum_input() <= usize::MAX
        &&& self.decoder.minimum_input() <= usize::MAX
        &&& self.use_aligner ==> self.hidden_channels * 2 <= usize::MAX && self.out_channels * 2
            <= usize::MAX
    }

    /// The network of the model.
    pub open spec fn built_as(self, topology: SpeedySpeechTopology) -> bool {
        let hidden = self.hidden_channels;
        &&& topology.num_chars == self.num_chars
        &&& topology.hidden_channels == hidden
        &&& topology.encoder_prenet == pointwise(hidden, hidden)
        &&& block_views(topology.encoder_blocks@) == self.encoder.blocks(hidden)
        &&& topology.encoder_postnet_1 == pointwise(hidden, hidden)
        &&& topology.encoder_postnet_2 == pointwise(hidden, hidden)
        &&& topology.positional == self.positional_encoding
        &&& block_views(topology.decoder_blocks@) == self.decoder.blocks(hidden)
        &&& topology.decoder_post_conv == pointwise(hidden, hidden)
        &&& topology.decoder_postnet_block@ == block_layers(
            hidden,
            hidden,
            hidden,
            self.decoder.kernel_size,
            1,
            2,
        )
        &&& topology.decoder_postnet == pointwise(hidden, self.out_channels)
        &&& topology.duration_predictor == duration_predictor(
            hidden,
            self.duration_predictor_hidden_channels,
            self.duration_predictor_kernel_size,
        )
        &&& topology.aligner == (if self.use_aligner {
            Some(aligner(self.out_channels, hidden, self.out_channels))
        } else {
            None
        })
        &&& topology.minimum_input_tokens == self.encoder.minimum_input()
        &&& topology.minimum_output_frames == self.decoder.minimum_input()
    }

    /// The first reason why a batch cannot be synthesized.
    pub open spec fn inference_fault(
        self,
        tokens: TokenBatch,
        length_scale: Double,
        ids_validated_on_host: bool,
    ) -> Option<Seq<char>> {
        if !length_scale.finite_positive() {
            Some("length_scale must be finite and positive"@)
        } else if !tokens.non_empty() {
            Some("token_ids must have non-empty [batch, tokens] dimensions"@)
        } else if tokens.tokens < self.encoder.minimum_input() {
            Some(
                "token sequence contains "@ + decimal(tokens.tokens as nat)
                    + " tokens but this checkpoint requires at least "@ + decimal(
                    self.encoder.minimum_input() as nat,
                ) + " for its dilated encoder"@,
            )
        } else if !ids_validated_on_host && !highest_within(tokens.ids@, self.num_chars as int) {
            Some(outside_vocabulary(highest(tokens.ids@), self.num_chars as int))
        } else {
            None
        }
    }

    /// The first reason why an expansion to the given number of frames cannot be decoded.
    pub open spec fn decoding_fault(self, requested: int) -> Option<Seq<char>> {
        first(
            frames_fault(requested, self.max_output_frames as int),
            if requested < self.decoder.minimum_input() {
                Some(
                    "duration predictor produced "@ + decimal(requested as nat)
                        + " frames but this checkpoint requires at least "@ + decimal(
                        self.decoder.minimum_input() as nat,
                    ) + " for its dilated decoder"@,
                )
            } else {
                None
            },
        )
    }
}

/// The first reason why an expansion to the given number of frames is refused.
pub open spec fn frames_fault(requested: int, limit: int) -> Option<Seq<char>> {
    if requested == 0 {
        Some("duration predictor produced zero output frames"@)
    } else if requested > limit {
        Some(
            "duration predictor requested "@ + decimal(requested as nat)
                + " frames, exceeding configured limit "@ + decimal(limit as nat),
        )
    } else if requested > POSITIONAL_ENCODING_LIMIT {
        Some(
            "duration predictor requested "@ + decimal(requested as nat)
                + " frames, exceeding positional limit "@ + decimal(
                POSITIONAL_ENCODING_LIMIT as nat,
            ),
        )
    } else {
        None
    }
}

/// The frames that a batch of durations asks for, as far as they can be counted.
pub open spec fn requested_frames(durations: Seq<Vec<usize>>) -> int {
    if longest(durations) <= usize::MAX {
        longest(durations) as int
    } else {
        usize::MAX as int
    }
}

/// Token values repeated over the frames of their durations.
#[derive(Debug, Clone)]
pub struct Expanded<T> {
    /// `[batch, channels, frames]`.
    pub values: Vec<Vec<Vec<T>>>,
    /// Which frames of a row belong to a token, `[batch, frames]`.
    pub mask: Vec<Vec<bool>>,
    pub frames: usize,
}

/// Token values and durations agree in batch and token counts.
pub open spec fn aligned_with<T>(encoded: Seq<Vec<Vec<T>>>, durations: Seq<Vec<usize>>) -> bool {
    &&& encoded.len() == durations.len()
    &&& forall|b: int, c: int|
        0 <= b < encoded.len() && 0 <= c < encoded[b].len() ==> (#[trigger] encoded[b][c]).len()
            == durations[b].len()
}

/// One row of an expansion: the value of a token at each of its frames, a fill value after
/// the last.
pub open spec fn row_expanded<T>(
    values: Seq<Vec<T>>,
    encoded: Seq<Vec<T>>,
    durations: Seq<usize>,
    fill: T,
    frames: int,
) -> bool {
    &&& values.len() == encoded.len()
    &&& forall|c: int| 0 <= c < values.len() ==> (#[trigger] values[c]).len() == frames
    &&& forall|c: int, t: int, f: int|
        0 <= c < values.len() && #[trigger] covers(durations, t, f) ==> #[trigger] values[c][f]
            == encoded[c][t]
    &&& forall|c: int, f: int|
        0 <= c < values.len() && total(durations) <= f < frames ==> #[trigger] values[c][f] == fill
}

/// Which frames of a row belong to a token.
pub open spec fn row_masked(mask: Seq<bool>, durations: Seq<usize>, frames: int) -> bool {
    &&& mask.len() == frames
    &&& forall|f: int| 0 <= f < frames ==> #[trigger] mask[f] == (f < total(durations))
}

impl<T> Expanded<T> {
    /// Every frame of a row carries the value of the token it belongs to, and the frames
    /// after the last token carry the fill value.
    pub open spec fn expands(
        self,
        encoded: Seq<Vec<Vec<T>>>,
        durations: Seq<Vec<usize>>,
        fill: T,
    ) -> bool {
        &&& self.frames == longest(durations)
        &&& self.values.len() == encoded.len()
        &&& self.mask.len() == encoded.len()
        &&& forall|b: int|
            0 <= b < encoded.len() ==> row_expanded(
                (#[trigger] self.values[b])@,
                encoded[b]@,
                durations[b]@,
                fill,
                self.frames as int,
            )
        &&& forall|b: int|
            0 <= b < encoded.len() ==> row_masked(
                (#[trigger] self.mask[b])@,
                durations[b]@,
                self.frames as int,
            )
    }
}

/// No row is longer than the longest.
pub proof fn longest_bounds_all(rows: Seq<Vec<usize>>)
    ensures
        forall|b: int| 0 <= b < rows.len() ==> total((#[trigger] rows[b])@) <= longest(rows),
    decreases rows.len(),
{
    if rows.len() > 0 {
        let front = rows.drop_last();
        longest_bounds_all(front);
        assert forall|b: int| 0 <= b < rows.len() implies total((#[trigger] rows[b])@) <= longest(
            rows,
        ) by {
            if b < front.len() {
                assert(front[b] == rows[b]);
            }
        }
    }
}

fn expand_row<T: Copy>(encoded: &Vec<Vec<T>>, durations: &Vec<usize>, fill: T, frames: usize) -> (out:
    (Vec<Vec<T>>, Vec<bool>))
    requires
        total(durations@) <= frames,
        forall|c: int| 0 <= c < encoded.len() ==> (#[trigger] encoded[c]).len() == durations.len(),
    ensures
        row_expanded(out.0@, encoded@, durations@, fill, frames as int),
        row_masked(out.1@, durations@, frames as int),
{
    let tokens = frame_tokens(durations.as_slice());
    let mut values: Vec<Vec<T>> = Vec::new();
    let mut c: usize = 0;
    while c < encoded.len()
        invariant
            c <= encoded.len(),
            values.len() == c,
            total(durations@) <= frames,
            tokens.len() == total(durations@),
            forall|k: int|
                0 <= k < encoded.len() ==> (#[trigger] encoded[k]).len() == durations.len(),
            forall|token: int, frame: int|
                #[trigger] covers(durations@, token, frame) ==> tokens[frame] == token,
            forall|frame: int|
                0 <= frame < tokens.len() ==> #[trigger] covers(
                    durations@,
                    tokens[frame] as int,
                    frame,
                ),
            forall|k: int| 0 <= k < c ==> (#[trigger] values[k]).len() == frames,
            forall|k: int, f: int|
                0 <= k < c && 0 <= f < frames ==> #[trigger] values[k][f] == (if f < tokens.len() {
                    encoded[k][tokens[f] as int]
                } else {
                    fill
                }),
        decreases encoded.len() - c,
    {
        assert forall|frame: int| 0 <= frame < tokens.len() implies #[trigger] tokens[frame]
            < encoded[c as int].len() by {
            assert(covers(durations@, tokens[frame] as int, frame));
        }
        values.push(expand_sequence(encoded[c].as_slice(), &tokens, fill, frames));
        c = c + 1;
    }
    let mut mask: Vec<bool> = Vec::new();
    let mut f: usize = 0;
    while f < frames
        invariant
            f <= frames,
            mask.len() == f,
            tokens.len() == total(durations@),
            forall|k: int| 0 <= k < f ==> #[trigger] mask[k] == (k < total(durations@)),
        decreases frames - f,
    {
        mask.push(f < tokens.len());
        f = f + 1;
    }
    assert forall|k: int, t: int, f: int|
        0 <= k < values.len() && #[trigger] covers(durations@, t, f) implies #[trigger] values[k][f]
        == encoded[k][t] by {
        crate::expansion::starts_ascend(durations@, t + 1, durations@.len() as int);
        crate::expansion::last_start_is_total(durations@);
    }
    (values, mask)
}

/// Whether a network can read as many frames.
fn check_frames(output_frames: usize, max_output_frames: usize) -> (out: Result<(), SpeedySpeechError>)
    ensures
        input_verdict(out, frames_fault(output_frames as int, max_output_frames as int)),
{
    if output_frames == 0 {
        return input_error("duration predictor produced zero output frames".to_owned());
    }
    if output_frames > max_output_frames {
        return input_error(
            with_numbers(
                "duration predictor requested ",
                output_frames,
                " frames, exceeding configured limit ",
                max_output_frames,
            ),
        );
    }
    if output_frames > POSITIONAL_ENCODING_LIMIT {
        return input_error(
            with_numbers(
                "duration predictor requested ",
                output_frames,
                " frames, exceeding positional limit ",
                POSITIONAL_ENCODING_LIMIT,
            ),
        );
    }
    Ok(())
}

/// Which frames lie in the times of which tokens. The instants are the partial sums of durations
/// that need not be whole; the latest of them says how many frames there are.
pub fn attend_by_durations(
    starts: &Vec<Vec<Double>>,
    ends: &Vec<Vec<Double>>,
    lengths: &Vec<Double>,
    latest: Double,
    max_output_frames: usize,
) -> (out: Result<Attention, SpeedySpeechError>)
    requires
        paired(starts@, ends@),
    ensures
        input_verdict(out, frames_fault(latest.saturated(), max_output_frames as int)),
        out matches Ok(attention) ==> attention.follows(starts@, ends@, lengths@, latest),
{
    check_frames(latest.to_usize(), max_output_frames)?;
    Ok(attend_times(starts, ends, lengths, latest))
}

/// Repeats the encoding of every token over as many frames as its duration says.
pub fn expand_by_durations<T: Copy>(
    encoded: &Vec<Vec<Vec<T>>>,
    durations: &Vec<Vec<usize>>,
    fill: T,
    max_output_frames: usize,
) -> (out: Result<Expanded<T>, SpeedySpeechError>)
    requires
        aligned_with(encoded@, durations@),
    ensures
        input_verdict(out, frames_fault(requested_frames(durations@), max_output_frames as int)),
        out matches Ok(expanded) ==> expanded.expands(encoded@, durations@, fill),
{
    let output_frames: usize = longest_total(durations);
    check_frames(output_frames, max_output_frames)?;
    proof {
        longest_bounds_all(durations@);
    }
    let mut values: Vec<Vec<Vec<T>>> = Vec::new();
    let mut mask: Vec<Vec<bool>> = Vec::new();
    let mut b: usize = 0;
    while b < encoded.len()
        invariant
            b <= encoded.len(),
            values.len() == b,
            mask.len() == b,
            aligned_with(encoded@, durations@),
            forall|k: int|
                0 <= k < durations@.len() ==> total((#[trigger] durations@[k])@) <= output_frames,
            forall|k: int|
                0 <= k < b ==> row_expanded(
                    (#[trigger] values[k])@,
                    encoded[k]@,
                    durations[k]@,
                    fill,
                    output_frames as int,
                ),
            forall|k: int|
                0 <= k < b ==> row_masked(
                    (#[trigger] mask[k])@,
                    durations[k]@,
                    output_frames as int,
                ),
        decreases encoded.len() - b,
    {
        assert(total(durations@[b as int]@) <= output_frames);
        assert forall|c: int| 0 <= c < encoded[b as int].len() implies (#[trigger] encoded[b as int][c]).len()
            == durations[b as int].len() by {}
        let row = expand_row(&encoded[b], &durations[b], fill, output_frames);
        values.push(row.0);
        mask.push(row.1);
        b = b + 1;
    }
    Ok(Expanded { values, mask, frames: output_frames })
}

impl SpeedySpeechConfig {
    /// The network of a valid configuration.
    pub fn topology(&self) -> (out: Result<SpeedySpeechTopology, SpeedySpeechError>)
        requires
            self@.fault() is None ==> self@.buildable(),
        ensures
            config_verdict(out, self@.fault()),
            out matches Ok(topology) ==> self@.built_as(topology),
    {
        self.validate()?;
        let hidden: usize = self.hidden_channels;
        let aligner = if self.use_aligner {
            Some(aligner_layers(self.out_channels, hidden, self.out_channels))
        } else {
            None
        };
        Ok(
            SpeedySpeechTopology {
                num_chars: self.num_chars,
                hidden_channels: hidden,
                encoder_prenet: pointwise_conv(hidden, hidden),
                encoder_blocks: residual_blocks(hidden, &self.encoder),
                encoder_postnet_1: pointwise_conv(hidden, hidden),
                encoder_postnet_2: pointwise_conv(hidden, hidden),
                positional: self.positional_encoding,
                decoder_blocks: residual_blocks(hidden, &self.decoder),
                decoder_post_conv: pointwise_conv(hidden, hidden),
                decoder_postnet_block: conv_bn_block(
                    hidden,
                    hidden,
                    hidden,
                    self.decoder.kernel_size,
                    1,
                    2,
                ),
                decoder_postnet: pointwise_conv(hidden, self.out_channels),
                duration_predictor: duration_predictor_layers(
                    hidden,
                    self.duration_predictor_hidden_channels,
                    self.duration_predictor_kernel_size,
                ),
                aligner,
                minimum_input_tokens: minimum_stack_input_size(&self.encoder),
                minimum_output_frames: minimum_stack_input_size(&self.decoder),
            },
        )
    }

    /// Whether a batch can be synthesized.
    pub fn check_inference(
        &self,
        tokens: &TokenBatch,
        length_scale: Double,
        ids_validated_on_host: bool,
    ) -> (out: Result<(), SpeedySpeechError>)
        requires
            tokens.wf(),
            self@.fault() is None,
            self@.buildable(),
        ensures
            input_verdict(out, self@.inference_fault(*tokens, length_scale, ids_validated_on_host)),
    {
        if !length_scale.is_finite_positive() {
            return input_error("length_scale must be finite and positive".to_owned());
        }
        if tokens.batch == 0 || tokens.tokens == 0 {
            return input_error(
                "token_ids must have non-empty [batch, tokens] dimensions".to_owned(),
            );
        }
        let minimum: usize = minimum_stack_input_size(&self.encoder);
        if tokens.tokens < minimum {
            return input_error(
                around_numbers(
                    "token sequence contains ",
                    tokens.tokens,
                    " tokens but this checkpoint requires at least ",
                    minimum,
                    " for its dilated encoder",
                ),
            );
        }
        if !ids_validated_on_host {
            if let Some(message) = vocabulary_fault(tokens, self.num_chars) {
                return input_error(message);
            }
        }
        Ok(())
    }

    /// Expands encoded tokens to the frames that the decoder reads.
    pub fn expand<T: Copy>(
        &self,
        encoded: &Vec<Vec<Vec<T>>>,
        durations: &Vec<Vec<usize>>,
        fill: T,
    ) -> (out: Result<Expanded<T>, SpeedySpeechError>)
        requires
            aligned_with(encoded@, durations@),
            self@.fault() is None,
            self@.buildable(),
        ensures
            input_verdict(out, self@.decoding_fault(requested_frames(durations@))),
            out matches Ok(expanded) ==> expanded.expands(encoded@, durations@, fill),
    {
        let expanded = expand_by_durations(encoded, durations, fill, self.max_output_frames)?;
        self.check_decoded(expanded.frames)?;
        Ok(expanded)
    }

    /// Which frames attend to which tokens, where durations need not be whole.
    pub fn attend(
        &self,
        starts: &Vec<Vec<Double>>,
        ends: &Vec<Vec<Double>>,
        lengths: &Vec<Double>,
        latest: Double,
    ) -> (out: Result<Attention, SpeedySpeechError>)
        requires
            paired(starts@, ends@),
            self@.fault() is None,
            self@.buildable(),
        ensures
            input_verdict(out, self@.decoding_fault(latest.saturated())),
            out matches Ok(attention) ==> attention.follows(starts@, ends@, lengths@, latest),
    {
        let attention = attend_by_durations(starts, ends, lengths, latest, self.max_output_frames)?;
        self.check_decoded(attention.frames)?;
        Ok(attention)
    }

    /// Whether the decoder can read as many frames.
    fn check_decoded(&self, frames: usize) -> (out: Result<(), SpeedySpeechError>)
        requires
            self@.fault() is None,
            self@.buildable(),
        ensures
            match out {
                Ok(_) => frames >= self.decoder@.minimum_input(),
                Err(SpeedySpeechError::InvalidInput(message)) => frames
                    < self.decoder@.minimum_input() && message@ == "duration predictor produced "@
                    + decimal(frames as nat) + " frames but this checkpoint requires at least "@
                    + decimal(self.decoder@.minimum_input() as nat) + " for its dilated decoder"@,
                Err(_) => false,
            },
    {
        let minimum: usize = minimum_stack_input_size(&self.decoder);
        if frames < minimum {
            return input_error(
                around_numbers(
                    "duration predictor produced ",
                    frames,
                    " frames but this checkpoint requires at least ",
                    minimum,
                    " for its dilated decoder",
                ),
            );
        }
        Ok(())
    }

    /// The shapes of what the network emits for a batch that expands to the given frames.
    pub fn output_shapes(&self, tokens: &TokenBatch, frames: usize) -> (out: SpeedySpeechShapes)
        ensures
            out.mel@ == seq![tokens.batch, frames, self.out_channels],
            out.durations@ == seq![tokens.batch, tokens.tokens],
    {
        let out = SpeedySpeechShapes {
            mel: [tokens.batch, frames, self.out_channels],
            durations: [tokens.batch, tokens.tokens],
        };
        assert(out.mel@ =~= seq![tokens.batch, frames, self.out_channels]);
        assert(out.durations@ =~= seq![tokens.batch, tokens.tokens]);
        out
    }

    /// Whether a checkpoint fits the network exactly.
    pub fn check_checkpoint(report: &LoadReport) -> (out: Result<(), SpeedySpeechError>)
        ensures
            match out {
                Ok(_) => report.fits(Subtree::Learned),
                Err(SpeedySpeechError::Checkpoint(message)) => !report.fits(Subtree::Learned)
                    && message@ == report.counted(
                    whole_model_heading(),
                    Subtree::Learned,
                    " load errors, unexpected tensors: "@,
                    ""@,
                ),
                Err(_) => false,
            },
    {
        match report.fault_counted(
            "checkpoint does not exactly match the Burn model: ",
            Subtree::Learned,
            " load errors, unexpected tensors: ",
            "",
        ) {
            None => Ok(()),
            Some(message) => Err(SpeedySpeechError::Checkpoint(message)),
        }
    }

    /// How checkpoint names become parameter names, as patterns and replacements.
    pub fn key_remappings() -> (out: Vec<(&'static str, &'static str)>)
        ensures
            out@ == seq![
                (r"(\.norm)\.weight$", "$1.gamma"),
                (r"(\.norm)\.bias$", "$1.beta"),
                (r"^(encoder\.encoder\.postnet\.2)\.weight$", "$1.gamma"),
                (r"^(encoder\.encoder\.postnet\.2)\.bias$", "$1.beta"),
            ],
    {
        vec![
            (r"(\.norm)\.weight$", "$1.gamma"),
            (r"(\.norm)\.bias$", "$1.beta"),
            (r"^(encoder\.encoder\.postnet\.2)\.weight$", "$1.gamma"),
            (r"^(encoder\.encoder\.postnet\.2)\.bias$", "$1.beta"),
        ]
    }
}

/// The frames for the positional table.
pub open spec fn positional_fault(frames: int) -> Option<Seq<char>> {
    unless(
        frames <= POSITIONAL_ENCODING_LIMIT,
        "predicted "@ + decimal(frames as nat) + " frames but positional encoding is limited to "@
            + decimal(POSITIONAL_ENCODING_LIMIT as nat),
    )
}

/// Whether the positional table reaches over all frames.
pub fn check_positional(frames: usize) -> (out: Result<(), SpeedySpeechError>)
    ensures
        input_verdict(out, positional_fault(frames as int)),
{
    if frames > POSITIONAL_ENCODING_LIMIT {
        return input_error(
            with_numbers(
                "predicted ",
                frames,
                " frames but positional encoding is limited to ",
                POSITIONAL_ENCODING_LIMIT,
            ),
        );
    }
    Ok(())
}

/// A frame count that expansion accepts is within reach of the positional table.
pub proof fn expansion_stays_within_positions(requested: int, limit: int)
    ensures
        frames_fault(requested, limit) is None ==> positional_fault(requested) is None,
{
}

/// The published architecture is valid and can be built.
pub proof fn ljspeech_is_valid()
    ensures
        ljspeech_model().fault() is None,
        ljspeech_model().buildable(),
{
    reveal_with_fuel(widest, 18);
    let encoder = ljspeech_model().encoder.dilations;
    let decoder = ljspeech_model().decoder.dilations;
    assert(widest(encoder) <= 8) by {
        widest_within(encoder, 8);
    }
    assert(widest(decoder) <= 8) by {
        widest_within(decoder, 8);
    }
}

proof fn widest_within(dilations: Seq<usize>, bound: int)
    requires
        0 <= bound,
        forall|i: int| 0 <= i < dilations.len() ==> #[trigger] dilations[i] <= bound,
    ensures
        widest(dilations) <= bound,
    decreases dilations.len(),
{
    if dilations.len() > 0 {
        let front = dilations.drop_last();
        assert forall|i: int| 0 <= i < front.len() implies #[trigger] front[i] <= bound by {
            assert(dilations[i] <= bound);
        }
        widest_within(front, bound);
    }
}

/// The residual stack keeps the length of any sequence.
pub proof fn stacks_keep_length(stack: ResidualConvModel, channels: usize, block: int, layer: int, length: int)
    requires
        stack.fault(Seq::empty()) is None,
        stack.minimum_input() <= usize::MAX,
        0 <= block < stack.dilations.len(),
        0 <= layer < stack.num_conv_blocks,
    ensures
        stack.blocks(channels)[block][layer].output_length(length) == length,
{
    widest_bounds_all(stack.dilations);
    let most = widest(stack.dilations);
    let dilation = stack.dilations[block];
    assert(dilation * (stack.kernel_size - 1) <= most * (stack.kernel_size - 1)) by (nonlinear_arith)
        requires
            stack.kernel_size >= 1,
            dilation <= most,
    ;
    crate::layers::padding_keeps_length(channels, channels, stack.kernel_size, dilation, length);
}

/// The spectrogram has a row for each row of the batch, a frame for each frame that the longest
/// row of durations asks for, and the bins of the configuration: the decoder reads that many
/// frames, keeps them, and projects each.
pub proof fn spectrogram_follows_expansion<T>(
    config: SpeedySpeechModel,
    encoded: Seq<Vec<Vec<T>>>,
    durations: Seq<Vec<usize>>,
    fill: T,
    expanded: Expanded<T>,
    topology: SpeedySpeechTopology,
)
    requires
        config.fault() is None,
        config.buildable(),
        config.built_as(topology),
        aligned_with(encoded, durations),
        expanded.expands(encoded, durations, fill),
    ensures
        expanded.values.len() == durations.len(),
        expanded.frames == longest(durations),
        forall|b: int, c: int|
            0 <= b < encoded.len() && 0 <= c < encoded[b].len() ==> (
            #[trigger] expanded.values[b][c]).len() == longest(durations),
        forall|block: int, layer: int|
            0 <= block < config.decoder.dilations.len() && 0 <= layer
                < config.decoder.num_conv_blocks ==> (#[trigger] config.decoder.blocks(
                config.hidden_channels,
            )[block][layer]).output_length(expanded.frames as int) == expanded.frames,
        topology.decoder_post_conv.output_length(expanded.frames as int) == expanded.frames,
        forall|layer: int|
            0 <= layer < topology.decoder_postnet_block.len() ==> (
            #[trigger] topology.decoder_postnet_block[layer]).output_length(
                expanded.frames as int,
            ) == expanded.frames,
        topology.decoder_postnet.output_length(expanded.frames as int) == expanded.frames,
        topology.decoder_postnet.channels_out == config.out_channels,
{
    assert forall|b: int, c: int| 0 <= b < encoded.len() && 0 <= c < encoded[b].len() implies (
    #[trigger] expanded.values[b][c]).len() == longest(durations) by {
        assert(row_expanded(
            expanded.values[b]@,
            encoded[b]@,
            durations[b]@,
            fill,
            expanded.frames as int,
        ));
    }
    let kernel = config.decoder.kernel_size;
    let hidden = config.hidden_channels;
    let frames = expanded.frames as int;
    assert(config.decoder.fault(Seq::empty()) is None);
    assert forall|block: int, layer: int|
        0 <= block < config.decoder.dilations.len() && 0 <= layer
            < config.decoder.num_conv_blocks implies (#[trigger] config.decoder.blocks(
        hidden,
    )[block][layer]).output_length(frames) == frames by {
        stacks_keep_length(config.decoder, hidden, block, layer, frames);
    }
    crate::layers::padding_keeps_length(hidden, hidden, kernel, 1, frames);
}

/// The document is for one speaker: at most one is declared, and none by vectors.
pub open spec fn says_one_speaker(args: Json) -> bool {
    &&& says_size(args, "num_speakers"@, 0) || says_size(args, "num_speakers"@, 1)
    &&& says_flag(args, "use_d_vector"@, false)
    &&& says_size(args, "d_vector_dim"@, 0)
}

/// A document is for one speaker exactly where it says so, whatever the words of the refusal.
pub proof fn one_speaker_is_said(args: Json, message: Seq<char>)
    ensures
        single_speaker_fault(args, message) is None <==> says_one_speaker(args),
{
    reading_is_saying(args, "num_speakers"@);
    reading_is_saying(args, "use_d_vector"@);
    reading_is_saying(args, "d_vector_dim"@);
}

/// A type is supported exactly where the field names it.
pub proof fn types_are_said(args: Json, field: Seq<char>, expected: Seq<char>, remark: Seq<char>)
    ensures
        type_fault(args, field, expected, remark) is None <==> says_text(args, field, expected),
{
    reading_is_saying(args, field);
}

/// Readers of types and speakers succeed exactly where the document says what is supported.
pub proof fn supported_documents_are_told(
    args: &Json,
    message: &str,
    field: &str,
    expected: &str,
    remark: &str,
    speaker: Result<(), String>,
    kind: Result<(), String>,
)
    requires
        call_ensures(check_single_speaker, (args, message), speaker),
        call_ensures(check_type, (args, field, expected, remark), kind),
    ensures
        speaker is Ok <==> says_one_speaker(*args),
        kind is Ok <==> says_text(*args, field@, expected@),
{
    one_speaker_is_said(*args, message@);
    types_are_said(*args, field@, expected@, remark@);
}

proof fn dilations_read_are_listed(items: Seq<Json>, label: Seq<char>)
    requires
        dilations_of(items, label) is Ok,
    ensures
        dilations_of(items, label)->Ok_0.len() == items.len(),
        forall|i: int|
            0 <= i < items.len() ==> (#[trigger] items[i]).size_value() == Some(
                dilations_of(items, label)->Ok_0[i],
            ),
    decreases items.len(),
{
    if items.len() > 0 {
        let front = items.drop_last();
        dilations_read_are_listed(front, label);
        assert forall|i: int| 0 <= i < items.len() implies (#[trigger] items[i]).size_value()
            == Some(dilations_of(items, label)->Ok_0[i]) by {
            if i < front.len() {
                assert(front[i] == items[i]);
            }
        }
    }
}

proof fn dilations_listed_are_read(items: Seq<Json>, label: Seq<char>, sizes: Seq<usize>)
    requires
        items.len() == sizes.len(),
        forall|i: int|
            0 <= i < items.len() ==> (#[trigger] items[i]).size_value() == Some(sizes[i]),
    ensures
        dilations_of(items, label) == Ok::<Seq<usize>, Seq<char>>(sizes),
    decreases items.len(),
{
    if items.len() > 0 {
        let front = items.drop_last();
        let fewer = sizes.drop_last();
        assert forall|i: int| 0 <= i < front.len() implies (#[trigger] front[i]).size_value()
            == Some(fewer[i]) by {
            assert(items[i].size_value() == Some(sizes[i]));
        }
        dilations_listed_are_read(front, label, fewer);
        assert(items[items.len() - 1].size_value() == Some(sizes[items.len() - 1]));
        assert(fewer.push(sizes.last()) =~= sizes);
    } else {
        assert(sizes =~= Seq::<usize>::empty());
    }
}

/// A document holds the parameters of a stack.
pub open spec fn says_stack(value: Json, stack: ResidualConvModel) -> bool {
    &&& says_size(value, "kernel_size"@, stack.kernel_size)
    &&& says_size(value, "num_conv_blocks"@, stack.num_conv_blocks)
    &&& says_size(value, "num_res_blocks"@, stack.num_res_blocks)
    &&& listed(value.field("dilations"@), stack.dilations)
}

proof fn stacks_are_said(value: Json, label: Seq<char>, stack: ResidualConvModel)
    ensures
        residual_of(value, label) == Ok::<ResidualConvModel, Seq<char>>(stack) <==> says_stack(
            value,
            stack,
        ),
{
    reading_is_saying(value, "kernel_size"@);
    reading_is_saying(value, "num_conv_blocks"@);
    reading_is_saying(value, "num_res_blocks"@);
    if residual_of(value, label) == Ok::<ResidualConvModel, Seq<char>>(stack) {
        if let Some(Json::List(items)) = value.field("dilations"@) {
            dilations_read_are_listed(items@, label);
            assert forall|i: int| 0 <= i < items.len() implies ((
            #[trigger] items@[i]) matches Json::Number(number) && number.unsigned == Some(
                stack.dilations[i] as u64,
            )) by {
                assert(items@[i].size_value() == Some(stack.dilations[i]));
            }
        }
    }
    if says_stack(value, stack) {
        if let Some(Json::List(items)) = value.field("dilations"@) {
            assert forall|i: int| 0 <= i < items.len() implies (#[trigger] items@[i]).size_value()
                == Some(stack.dilations[i]) by {}
            dilations_listed_are_read(items@, label, stack.dilations);
        }
        let found = residual_of(value, label)->Ok_0;
        assert(found =~= stack);
    }
}

/// A document holds the parameters of a model, each under its name; it is for one speaker, has no
/// pitch, and the limit of frames is the usual one.
pub open spec fn says_speedy_speech(root: Json, config: SpeedySpeechModel) -> bool {
    &&& says_text(root, "model"@, "speedy_speech"@)
    &&& root.field("model_args"@) matches Some(args) && {
        &&& args is Object
        &&& says_text(args, "encoder_type"@, "residual_conv_bn"@)
        &&& says_text(args, "decoder_type"@, "residual_conv_bn"@)
        &&& says_flag(args, "use_pitch"@, false)
        &&& says_one_speaker(args)
        &&& says_characters(root, args, config.num_chars)
        &&& says_size(args, "out_channels"@, config.out_channels)
        &&& says_size(args, "hidden_channels"@, config.hidden_channels)
        &&& says_flag(args, "positional_encoding"@, config.positional_encoding)
        &&& says_number(args, "length_scale"@, config.length_scale)
        &&& args.field("encoder_params"@) matches Some(value) && value is Object && says_stack(
            value,
            config.encoder,
        )
        &&& args.field("decoder_params"@) matches Some(value) && value is Object && says_stack(
            value,
            config.decoder,
        )
        &&& says_size(
            args,
            "duration_predictor_hidden_channels"@,
            config.duration_predictor_hidden_channels,
        )
        &&& says_size(
            args,
            "duration_predictor_kernel_size"@,
            config.duration_predictor_kernel_size,
        )
        &&& says_number(args, "duration_predictor_dropout_p"@, config.duration_predictor_dropout)
        &&& says_flag(args, "use_aligner"@, config.use_aligner)
        &&& says_size(args, "max_duration"@, config.max_duration)
    }
    &&& config.max_output_frames == 20_000
}

/// What is read of a document is what it says; and where it says all that belongs to a valid
/// model, it is read.
pub proof fn speedy_documents_are_read(
    root: &Json,
    expected: &SpeedySpeechConfig,
    valid: Result<(), SpeedySpeechError>,
    out: Result<SpeedySpeechConfig, SpeedySpeechError>,
)
    requires
        call_ensures(SpeedySpeechConfig::from_json_value, (root,), out),
        call_ensures(SpeedySpeechConfig::validate, (expected,), valid),
    ensures
        out matches Ok(config) ==> says_speedy_speech(*root, config@),
        out matches Ok(config) ==> (config@ == expected@ ==> valid is Ok),
        valid is Ok && says_speedy_speech(*root, expected@) ==> (out matches Ok(config) && config@
            == expected@),
        out matches Err(error) ==> error is InvalidConfig,
{
    arguments_are_said(*root);
    if out is Ok || says_speedy_speech(*root, expected@) {
        let args = root.field("model_args"@)->0;
        assert(object_of(*root, "model_args"@) == Ok::<Json, Seq<char>>(args));
        let encoder = args.field("encoder_params"@)->0;
        let decoder = args.field("decoder_params"@)->0;
        assert(object_of(args, "encoder_params"@) == Ok::<Json, Seq<char>>(encoder));
        assert(object_of(args, "decoder_params"@) == Ok::<Json, Seq<char>>(decoder));
        arguments_are_said(args);
        one_speaker_is_said(
            args,
            "the released LJSpeech model is single-speaker; speaker-conditioned ForwardTTS is not this checkpoint"@,
        );
        let remark = "; only residual_conv_bn matches the released model"@;
        types_are_said(args, "encoder_type"@, "residual_conv_bn"@, remark);
        types_are_said(args, "decoder_type"@, "residual_conv_bn"@, remark);
        counting_is_saying(*root, args);
        if let Ok(config) = out {
            stacks_are_said(encoder, "encoder_params"@, config@.encoder);
            stacks_are_said(decoder, "decoder_params"@, config@.decoder);
            assert(says_characters(*root, args, config@.num_chars));
            assert(says_speedy_speech(*root, config@));
        }
        if valid is Ok && says_speedy_speech(*root, expected@) {
            stacks_are_said(encoder, "encoder_params"@, expected@.encoder);
            stacks_are_said(decoder, "decoder_params"@, expected@.decoder);
            assert(speedy_model_of(*root) =~= expected@);
            assert(speedy_fault(*root) is None);
        }
    }
}

/// A stack is valid exactly where it has a kernel, layers and blocks, and a positive dilation for
/// each block.
pub proof fn stacks_are_valid_on_their_merits(
    config: &ResidualConvConfig,
    label: &str,
    out: Result<(), SpeedySpeechError>,
)
    requires
        call_ensures(ResidualConvConfig::validate, (config, label), out),
    ensures
        out is Ok <==> {
            &&& config.kernel_size > 0 && config.num_conv_blocks > 0 && config.num_res_blocks > 0
            &&& config.dilations.len() == config.num_res_blocks
            &&& forall|i: int|
                0 <= i < config.dilations.len() ==> #[trigger] config.dilations@[i] > 0
        },
        out matches Err(error) ==> error is InvalidConfig,
{
    let dilations = config.dilations@;
    if dilations.contains(0) {
        let i = choose|i: int| 0 <= i < dilations.len() && dilations[i] == 0;
        assert(dilations[i] == 0);
    } else {
        assert forall|i: int| 0 <= i < dilations.len() implies #[trigger] dilations[i] > 0 by {
            assert(dilations.contains(dilations[i]));
        }
    }
}

/// A model is valid exactly where all its sizes are positive, its scales and rates in bounds, an
/// even number of channels goes with positions, and both stacks are valid.
pub proof fn speedy_models_are_valid_on_their_merits(
    config: &SpeedySpeechConfig,
    label: &str,
    encoder: Result<(), SpeedySpeechError>,
    decoder: Result<(), SpeedySpeechError>,
    out: Result<(), SpeedySpeechError>,
)
    requires
        call_ensures(SpeedySpeechConfig::validate, (config,), out),
        call_ensures(ResidualConvConfig::validate, (&config.encoder, label), encoder),
        call_ensures(ResidualConvConfig::validate, (&config.decoder, label), decoder),
    ensures
        out is Ok <==> {
            &&& config.num_chars > 0 && config.out_channels > 0 && config.hidden_channels > 0
            &&& config.positional_encoding ==> config.hidden_channels % 2 == 0
            &&& config.length_scale.finite() && config.length_scale.rank() > 0
            &&& config.duration_predictor_hidden_channels > 0
            &&& config.duration_predictor_kernel_size % 2 == 1
            &&& !config.duration_predictor_dropout.nan()
            &&& 0 <= config.duration_predictor_dropout.rank() < 0x3FF0_0000_0000_0000
            &&& config.max_duration > 0 && config.max_output_frames > 0
            &&& encoder is Ok && decoder is Ok
        },
        out matches Err(error) ==> error is InvalidConfig,
{
}

proof fn widest_is_one_of_all(dilations: Seq<usize>) -> (i: int)
    requires
        dilations.len() > 0,
    ensures
        0 <= i < dilations.len(),
        widest(dilations) == dilations[i],
    decreases dilations.len(),
{
    let last = dilations.len() - 1;
    if dilations.len() == 1 || widest(dilations.drop_last()) < dilations.last() {
        assert(dilations.len() == 1 ==> widest(dilations.drop_last()) == 0);
        last
    } else {
        widest_is_one_of_all(dilations.drop_last())
    }
}

/// A stack reads no fewer frames than the kernel of each of its blocks reaches over, and no more
/// than the farthest does.
pub proof fn farthest_kernels_decide(config: &ResidualConvConfig, out: usize)
    requires
        config.kernel_size >= 1,
        config@.minimum_input() <= usize::MAX,
        call_ensures(minimum_stack_input_size, (config,), out),
    ensures
        config.dilations.len() == 0 ==> out == 1,
        forall|i: int|
            0 <= i < config.dilations.len() ==> #[trigger] config.dilations@[i] * (
            config.kernel_size - 1) + 1 <= out,
        config.dilations.len() > 0 ==> exists|i: int|
            0 <= i < config.dilations.len() && out == #[trigger] config.dilations@[i] * (
            config.kernel_size - 1) + 1,
{
    let dilations = config.dilations@;
    let reach = config.kernel_size - 1;
    widest_bounds_all(dilations);
    assert forall|i: int| 0 <= i < dilations.len() implies #[trigger] dilations[i] * reach + 1
        <= out by {
        assert(dilations[i] * reach <= widest(dilations) * reach) by (nonlinear_arith)
            requires
                dilations[i] <= widest(dilations),
                reach >= 0,
        ;
    }
    if dilations.len() > 0 {
        let i = widest_is_one_of_all(dilations);
        assert(out == dilations[i] * reach + 1);
    }
}

/// A block has as many convolutions as asked for. The first reads the channels that come in, each
/// other what the one before emits, and the last emits the channels that go out. All have the
/// kernel and the dilation of the block and keep the length.
pub proof fn blocks_chain_their_convolutions(
    channels_in: usize,
    channels_out: usize,
    hidden_channels: usize,
    kernel_size: usize,
    dilation: usize,
    count: usize,
    out: Vec<Conv>,
    layer: int,
)
    requires
        kernel_size >= 1,
        dilation * (kernel_size - 1) <= usize::MAX,
        call_ensures(
            conv_bn_block,
            (channels_in, channels_out, hidden_channels, kernel_size, dilation, count),
            out,
        ),
        0 <= layer < count,
    ensures
        out.len() == count,
        out@[0].channels_in == channels_in,
        out@[count - 1].channels_out == channels_out,
        layer > 0 ==> out@[layer].channels_in == hidden_channels && out@[layer - 1].channels_out
            == hidden_channels,
        out@[layer].kernel_size == kernel_size,
        out@[layer].dilation == dilation,
        out@[layer].pad_left + out@[layer].pad_right == dilation * (kernel_size - 1),
        out@[layer].pad_left <= out@[layer].pad_right <= out@[layer].pad_left + 1,
{
    assert(0 <= dilation * (kernel_size - 1)) by (nonlinear_arith)
        requires
            kernel_size >= 1,
    ;
}

/// A stack has a block for each dilation, each with its convolutions, all of the width of the
/// network.
pub proof fn stacks_follow_their_dilations(
    channels: usize,
    config: &ResidualConvConfig,
    out: Vec<Vec<Conv>>,
    block: int,
    layer: int,
)
    requires
        config.kernel_size >= 1,
        config@.minimum_input() <= usize::MAX,
        call_ensures(residual_blocks, (channels, config), out),
        0 <= block < config.dilations.len(),
        0 <= layer < config.num_conv_blocks,
    ensures
        out.len() == config.dilations.len(),
        out@[block].len() == config.num_conv_blocks,
        ({
            let conv = out@[block]@[layer];
            &&& conv.channels_in == channels && conv.channels_out == channels
            &&& conv.kernel_size == config.kernel_size
            &&& conv.dilation == config.dilations@[block]
            &&& conv.pad_left + conv.pad_right == config.dilations@[block] * (config.kernel_size
                - 1)
            &&& conv.pad_left <= conv.pad_right <= conv.pad_left + 1
        }),
{
    widest_bounds_all(config.dilations@);
    let most = widest(config.dilations@);
    let dilation = config.dilations@[block];
    assert(0 <= dilation * (config.kernel_size - 1) <= most * (config.kernel_size - 1))
        by (nonlinear_arith)
        requires
            config.kernel_size >= 1,
            dilation <= most,
    ;
    assert(block_views(out@).len() == out.len());
    assert(block_views(out@)[block] == config@.blocks(channels)[block]);
    assert(out@[block]@[layer] == config@.blocks(channels)[block][layer]);
}

/// A predictor reads the channels that come in, runs twice through its hidden channels, and emits
/// one value. An aligner doubles the channels of keys and queries, and brings both to the channels
/// in which they are compared.
pub proof fn predictors_and_aligners_fit(
    channels_in: usize,
    hidden: usize,
    kernel_size: usize,
    queries: usize,
    keys: usize,
    compared: usize,
    predictor: DurationPredictorLayers,
    aligned: AlignerLayers,
    length: int,
)
    requires
        queries * 2 <= usize::MAX,
        keys * 2 <= usize::MAX,
        call_ensures(duration_predictor_layers, (channels_in, hidden, kernel_size), predictor),
        call_ensures(aligner_layers, (queries, keys, compared), aligned),
    ensures
        predictor.conv_1.channels_in == channels_in && predictor.conv_1.channels_out == hidden,
        predictor.conv_2.channels_in == hidden && predictor.conv_2.channels_out == hidden,
        predictor.proj.channels_in == hidden && predictor.proj.channels_out == 1,
        predictor.conv_1.kernel_size == kernel_size && predictor.conv_2.kernel_size == kernel_size,
        predictor.proj.kernel_size == 1,
        predictor.conv_1.dilation == 1 && predictor.conv_2.dilation == 1,
        kernel_size % 2 == 1 ==> predictor.conv_1.output_length(length) == length
            && predictor.conv_2.output_length(length) == length,
        predictor.proj.output_length(length) == length,
        aligned.key_1.channels_in == keys && aligned.key_1.channels_out == 2 * keys,
        aligned.key_2.channels_in == 2 * keys && aligned.key_2.channels_out == compared,
        aligned.query_1.channels_in == queries && aligned.query_1.channels_out == 2 * queries,
        aligned.query_2.channels_in == 2 * queries && aligned.query_2.channels_out == queries,
        aligned.query_3.channels_in == queries && aligned.query_3.channels_out == compared,
        aligned.key_1.kernel_size == 3 && aligned.query_1.kernel_size == 3,
        aligned.key_2.kernel_size == 1 && aligned.query_2.kernel_size == 1
            && aligned.query_3.kernel_size == 1,
        aligned.key_1.output_length(length) == length && aligned.key_2.output_length(length)
            == length,
        aligned.query_1.output_length(length) == length && aligned.query_2.output_length(length)
            == length && aligned.query_3.output_length(length) == length,
{
}

/// The network runs its channels through both stacks and all layers between, ends in the bins of
/// the configuration, and reads no fewer tokens and frames than its stacks do.
pub proof fn speedy_layers_fit(
    config: &SpeedySpeechConfig,
    topology: SpeedySpeechTopology,
    encoder: Vec<Vec<Conv>>,
    decoder: Vec<Vec<Conv>>,
    postnet: Vec<Conv>,
    tokens: usize,
    frames: usize,
    predictor: DurationPredictorLayers,
    aligned: AlignerLayers,
    single: Conv,
    last: Conv,
)
    requires
        config@.buildable(),
        config.out_channels * 2 <= usize::MAX,
        config.hidden_channels * 2 <= usize::MAX,
        call_ensures(
            SpeedySpeechConfig::topology,
            (config,),
            Ok::<SpeedySpeechTopology, SpeedySpeechError>(topology),
        ),
        call_ensures(residual_blocks, (config.hidden_channels, &config.encoder), encoder),
        call_ensures(residual_blocks, (config.hidden_channels, &config.decoder), decoder),
        call_ensures(
            conv_bn_block,
            (
                config.hidden_channels,
                config.hidden_channels,
                config.hidden_channels,
                config.decoder.kernel_size,
                1,
                2,
            ),
            postnet,
        ),
        call_ensures(minimum_stack_input_size, (&config.encoder,), tokens),
        call_ensures(minimum_stack_input_size, (&config.decoder,), frames),
        call_ensures(
            duration_predictor_layers,
            (
                config.hidden_channels,
                config.duration_predictor_hidden_channels,
                config.duration_predictor_kernel_size,
            ),
            predictor,
        ),
        call_ensures(
            aligner_layers,
            (config.out_channels, config.hidden_channels, config.out_channels),
            aligned,
        ),
        call_ensures(pointwise_conv, (config.hidden_channels, config.hidden_channels), single),
        call_ensures(pointwise_conv, (config.hidden_channels, config.out_channels), last),
    ensures
        topology.num_chars == config.num_chars,
        topology.hidden_channels == config.hidden_channels,
        topology.positional == config.positional_encoding,
        topology.encoder_prenet == single,
        block_views(topology.encoder_blocks@) == block_views(encoder@),
        topology.encoder_postnet_1 == single && topology.encoder_postnet_2 == single,
        block_views(topology.decoder_blocks@) == block_views(decoder@),
        topology.decoder_post_conv == single,
        topology.decoder_postnet_block@ == postnet@,
        topology.decoder_postnet == last,
        topology.duration_predictor == predictor,
        topology.aligner is Some <==> config.use_aligner,
        topology.aligner matches Some(layers) ==> layers == aligned,
        topology.minimum_input_tokens == tokens,
        topology.minimum_output_frames == frames,
{
}

/// A batch is synthesized exactly where it has tokens that name symbols, as many as the encoder
/// reads at least, and a positive length scale.
pub proof fn speedy_batches_are_accepted_on_their_merits(
    config: &SpeedySpeechConfig,
    tokens: &TokenBatch,
    length_scale: Double,
    ids_validated: bool,
    minimum: usize,
    out: Result<(), SpeedySpeechError>,
)
    requires
        tokens.wf(),
        config@.fault() is None,
        config@.buildable(),
        call_ensures(minimum_stack_input_size, (&config.encoder,), minimum),
        call_ensures(
            SpeedySpeechConfig::check_inference,
            (config, tokens, length_scale, ids_validated),
            out,
        ),
    ensures
        out is Ok <==> {
            &&& length_scale.finite() && length_scale.rank() > 0
            &&& tokens.batch > 0 && tokens.tokens > 0 && tokens.tokens >= minimum
            &&& ids_validated || ((exists|i: int|
                0 <= i < tokens.ids.len() && #[trigger] tokens.ids@[i] >= 0) && forall|i: int|
                0 <= i < tokens.ids.len() ==> #[trigger] tokens.ids@[i] < config.num_chars)
        },
        out matches Err(error) ==> error is InvalidInput,
{
    if tokens.batch > 0 && tokens.tokens > 0 {
        assert(tokens.ids.len() > 0) by (nonlinear_arith)
            requires
                tokens.ids.len() == tokens.batch * tokens.tokens,
                tokens.batch > 0,
                tokens.tokens > 0,
        ;
        crate::tokens::vocabularies_hold_the_largest(tokens.ids@, config.num_chars as int);
    }
}

/// Durations are expanded exactly where they ask for frames, and for no more than the limit and
/// the positions allow. There are as many frames as the longest row asks for. Every frame has the
/// value of the token whose turn it is; what lies behind the last token is filled and not marked.
pub proof fn expansions_follow_durations<T: Copy>(
    encoded: &Vec<Vec<Vec<T>>>,
    durations: &Vec<Vec<usize>>,
    fill: T,
    limit: usize,
    frames: usize,
    out: Result<Expanded<T>, SpeedySpeechError>,
    b: int,
    c: int,
    row: &[usize],
    tokens: Vec<usize>,
    f: int,
)
    requires
        aligned_with(encoded@, durations@),
        call_ensures(longest_total, (durations,), frames),
        call_ensures(expand_by_durations::<T>, (encoded, durations, fill, limit), out),
        0 <= b < encoded.len(),
        0 <= c < encoded@[b].len(),
        row@ == durations@[b]@,
        total(row@) <= usize::MAX,
        call_ensures(frame_tokens, (row,), tokens),
        0 <= f < frames,
    ensures
        out is Ok <==> 0 < frames <= limit && frames <= 5_000,
        out matches Err(error) ==> error is InvalidInput,
        out matches Ok(expanded) ==> {
            &&& expanded.frames == frames
            &&& expanded.values.len() == encoded.len() && expanded.mask.len() == encoded.len()
            &&& expanded.values@[b].len() == encoded@[b].len()
            &&& expanded.values@[b]@[c].len() == frames && expanded.mask@[b].len() == frames
            &&& expanded.mask@[b]@[f] <==> f < tokens.len()
            &&& f < tokens.len() ==> expanded.values@[b]@[c]@[f]
                == encoded@[b]@[c]@[tokens@[f] as int]
            &&& f >= tokens.len() ==> expanded.values@[b]@[c]@[f] == fill
        },
{
    if let Ok(expanded) = out {
        assert(row_expanded(
            expanded.values[b]@,
            encoded[b]@,
            durations[b]@,
            fill,
            expanded.frames as int,
        ));
        assert(row_masked(expanded.mask[b]@, durations[b]@, expanded.frames as int));
        if f < tokens.len() {
            assert(covers(row@, tokens@[f] as int, f));
            assert(expanded.values[b]@[c][f] == encoded[b]@[c][tokens@[f] as int]);
        } else {
            assert(expanded.values[b]@[c][f] == fill);
        }
    }
}

/// Durations are refused that ask for no frames, or for more than the limit and the positions
/// allow, whatever is to be expanded.
pub proof fn empty_expansions_are_refused<T: Copy>(
    encoded: &Vec<Vec<Vec<T>>>,
    durations: &Vec<Vec<usize>>,
    fill: T,
    limit: usize,
    frames: usize,
    out: Result<Expanded<T>, SpeedySpeechError>,
)
    requires
        aligned_with(encoded@, durations@),
        call_ensures(longest_total, (durations,), frames),
        call_ensures(expand_by_durations::<T>, (encoded, durations, fill, limit), out),
    ensures
        out is Ok <==> 0 < frames <= limit && frames <= 5_000,
        out matches Err(error) ==> error is InvalidInput,
{
}

/// The model expands as durations say, within its own limit, and refuses fewer frames than its
/// decoder reads.
pub proof fn speedy_speech_expands_within_bounds<T: Copy>(
    config: &SpeedySpeechConfig,
    encoded: &Vec<Vec<Vec<T>>>,
    durations: &Vec<Vec<usize>>,
    fill: T,
    frames: usize,
    minimum: usize,
    plain: Result<Expanded<T>, SpeedySpeechError>,
    out: Result<Expanded<T>, SpeedySpeechError>,
)
    requires
        aligned_with(encoded@, durations@),
        config@.fault() is None,
        config@.buildable(),
        call_ensures(longest_total, (durations,), frames),
        call_ensures(minimum_stack_input_size, (&config.decoder,), minimum),
        call_ensures(
            expand_by_durations::<T>,
            (encoded, durations, fill, config.max_output_frames),
            plain,
        ),
        call_ensures(SpeedySpeechConfig::expand::<T>, (config, encoded, durations, fill), out),
    ensures
        out is Ok <==> plain is Ok && frames >= minimum,
        out matches Ok(expanded) ==> expanded.expands(encoded@, durations@, fill),
        out matches Err(error) ==> error is InvalidInput,
{
}

/// Frames attend within the same bounds: the whole part of the latest instant counts them.
pub proof fn speedy_speech_attends_within_bounds(
    config: &SpeedySpeechConfig,
    starts: &Vec<Vec<Double>>,
    ends: &Vec<Vec<Double>>,
    lengths: &Vec<Double>,
    latest: Double,
    frames: usize,
    minimum: usize,
    plain: Result<Attention, SpeedySpeechError>,
    out: Result<Attention, SpeedySpeechError>,
)
    requires
        paired(starts@, ends@),
        config@.fault() is None,
        config@.buildable(),
        call_ensures(Double::to_usize, (latest,), frames),
        call_ensures(minimum_stack_input_size, (&config.decoder,), minimum),
        call_ensures(
            attend_by_durations,
            (starts, ends, lengths, latest, config.max_output_frames),
            plain,
        ),
        call_ensures(SpeedySpeechConfig::attend, (config, starts, ends, lengths, latest), out),
    ensures
        plain is Ok <==> 0 < frames <= config.max_output_frames && frames <= 5_000,
        out is Ok <==> plain is Ok && frames >= minimum,
        plain matches Ok(attention) ==> attention.frames == frames && attention.follows(
            starts@,
            ends@,
            lengths@,
            latest,
        ),
        out matches Ok(attention) ==> attention.frames == frames && attention.follows(
            starts@,
            ends@,
            lengths@,
            latest,
        ),
        out matches Err(error) ==> error is InvalidInput,
{
}

/// The spectrogram has the batch, the frames and the bins; durations have the batch and the
/// tokens.
pub proof fn speedy_shapes_follow_batches(
    config: &SpeedySpeechConfig,
    tokens: &TokenBatch,
    frames: usize,
    out: SpeedySpeechShapes,
)
    requires
        call_ensures(SpeedySpeechConfig::output_shapes, (config, tokens, frames), out),
    ensures
        out.mel@[0] == tokens.batch && out.mel@[1] == frames && out.mel@[2] == config.out_channels,
        out.durations@[0] == tokens.batch && out.durations@[1] == tokens.tokens,
{
}

/// A checkpoint fits exactly where nothing is missing, nothing failed, and nothing learned went
/// unused.
pub proof fn speedy_checkpoints_fit_exactly(
    report: &LoadReport,
    out: Result<(), SpeedySpeechError>,
)
    requires
        call_ensures(SpeedySpeechConfig::check_checkpoint, (report,), out),
    ensures
        out is Ok <==> report.missing.len() == 0 && report.errors.len() == 0 && (forall|i: int|
            0 <= i < report.unused.len() ==> !Subtree::Learned.contains(
                #[trigger] report.unused@[i]@,
            )),
        out matches Err(error) ==> error is Checkpoint,
{
    crate::checkpoint::fitting_leaves_nothing(*report, Subtree::Learned);
}

/// Positions reach over five thousand frames.
pub proof fn positions_reach_so_far(frames: usize, out: Result<(), SpeedySpeechError>)
    requires
        call_ensures(check_positional, (frames,), out),
    ensures
        out is Ok <==> frames <= 5_000,
        out matches Err(error) ==> error is InvalidInput,
{
}

/// The weight of a normalization becomes its scale, and the bias its shift.
pub proof fn speedy_norms_are_renamed(out: Vec<(&'static str, &'static str)>)
    requires
        call_ensures(SpeedySpeechConfig::key_remappings, (), out),
    ensures
        out.len() == 4,
        out@[0].0@ == r"(\.norm)\.weight$"@ && out@[1].0@ == r"(\.norm)\.bias$"@,
        out@[2].0@ == r"^(encoder\.encoder\.postnet\.2)\.weight$"@,
        out@[3].0@ == r"^(encoder\.encoder\.postnet\.2)\.bias$"@,
        out@[0].1@ == "$1.gamma"@ && out@[2].1@ == "$1.gamma"@,
        out@[1].1@ == "$1.beta"@ && out@[3].1@ == "$1.beta"@,
{
}

/// An error says of what kind it is, and then its reason.
pub proof fn speedy_errors_say_their_kind(error: &SpeedySpeechError, out: String)
    requires
        call_ensures(SpeedySpeechError::describe, (error,), out),
    ensures
        error matches SpeedySpeechError::InvalidConfig(message) ==> out@ == "invalid SpeedySpeech config: "@ + message@,
        error matches SpeedySpeechError::InvalidInput(message) ==> out@ == "invalid SpeedySpeech input: "@ + message@,
        error matches SpeedySpeechError::Checkpoint(message) ==> out@ == "unable to load SpeedySpeech checkpoint: "@ + message@,
{
}

/// The released model is the published one, and is valid: its sizes, its dilations, which double
/// up to four in the encoder and up to eight in the decoder and start over, and a length scale of
/// one.
pub proof fn released_speedy_speech_is_as_published(
    out: SpeedySpeechConfig,
    valid: Result<(), SpeedySpeechError>,
)
    requires
        call_ensures(SpeedySpeechConfig::ljspeech, (), out),
        call_ensures(SpeedySpeechConfig::validate, (&out,), valid),
    ensures
        valid is Ok,
        out.num_chars == 130 && out.out_channels == 80 && out.hidden_channels == 128,
        out.positional_encoding && out.use_aligner,
        out.length_scale.bits == 0x3FF0_0000_0000_0000,
        out.encoder.kernel_size == 4 && out.decoder.kernel_size == 4,
        out.encoder.num_conv_blocks == 2 && out.decoder.num_conv_blocks == 2,
        out.encoder.num_res_blocks == 13 && out.decoder.num_res_blocks == 17,
        out.encoder.dilations.len() == 13 && out.decoder.dilations.len() == 17,
        forall|i: int|
            0 <= i < 13 ==> #[trigger] out.encoder.dilations@[i] == if i % 3 == 0 {
                1int
            } else if i % 3 == 1 {
                2
            } else {
                4
            },
        forall|i: int|
            0 <= i < 17 ==> #[trigger] out.decoder.dilations@[i] == if i % 4 == 0 {
                1int
            } else if i % 4 == 1 {
                2
            } else if i % 4 == 2 {
                4
            } else {
                8
            },
        out.duration_predictor_hidden_channels == 256 && out.duration_predictor_kernel_size == 3,
        out.duration_predictor_dropout.bits == 0x3FB9_9999_9999_999A,
        out.max_duration == 75 && out.max_output_frames == 20_000,
{
    ljspeech_is_valid();
    assert(out@.encoder.dilations == out.encoder.dilations@);
    assert(out@.decoder.dilations == out.decoder.dilations@);
}

/// The widest dilation is one of them and bounds them all; a list holds a zero where one of its
/// values is.
pub proof fn widest_is_the_maximum(dilations: &[usize], out: usize, zero: bool)
    requires
        call_ensures(widest_dilation, (dilations,), out),
        call_ensures(holds_zero, (dilations,), zero),
    ensures
        dilations@.len() == 0 ==> out == 0,
        forall|i: int| 0 <= i < dilations@.len() ==> #[trigger] dilations@[i] <= out,
        dilations@.len() > 0 ==> exists|i: int|
            0 <= i < dilations@.len() && #[trigger] dilations@[i] == out,
        zero <==> exists|i: int| 0 <= i < dilations@.len() && #[trigger] dilations@[i] == 0,
{
    widest_bounds_all(dilations@);
    if dilations@.len() > 0 {
        let i = widest_is_one_of_all(dilations@);
        assert(dilations@[i] == out);
    }
}

} // verus!
