//! Align-TTS: a feed-forward acoustic model trained on its own monotonic alignment.

use vstd::prelude::*;

use crate::checkpoint::{LoadReport, Subtree};
use crate::double::Double;
use crate::expansion::{
    covers, last_start_is_total, longest, paired, start, start_of_next, starts_ascend, total,
    Attention,
};
use crate::fast_pitch::{
    expansion_fault, says_transformer, transformer, transformer_layers, transformers_are_said,
    FastPitchError, FeedForwardTransformerConfig, TransformerLayers,
};
use crate::fastspeech::prefixed;
use crate::json::{
    counting_is_saying, fault_of, first, num_chars_of, published_vocabulary_size_of, says_characters,
    says_flag, says_number, says_size, says_text, size_of_vocabulary, unless, vocabulary_of,
    vocabulary_size, Json,
};
use crate::layers::{balanced, balanced_conv, is_multiple_of, multiple_of, pointwise, pointwise_conv, Conv};
use crate::speedy_speech::{
    aligned_with, attend_by_durations, check_positional, expand_by_durations, positional_fault,
    requested_frames, row_expanded, Expanded, SpeedySpeechError,
};
use crate::text::{
    around_number, around_text, decimal, quoted, quoted_text, same_text, signed_decimal,
    signed_decimal_text, with_text,
};
use crate::tokens::{highest, highest_within, TokenBatch};
use crate::training::AcousticTrainingPhase;

verus! {

/// Frames per token that duration prediction is held to.
pub const MAX_DURATION: usize = 75;

/// Frames that an utterance may have.
pub const MAX_OUTPUT_FRAMES: usize = 20_000;

/// Errors of Align-TTS configurations, inputs and checkpoints.
#[derive(Debug, Clone, PartialEq, Eq)]
pub enum AlignTtsError {
    InvalidConfig(String),
    InvalidInput(String),
    Checkpoint(String),
}

impl AlignTtsError {
    pub open spec fn described(self) -> Seq<char> {
        match self {
            AlignTtsError::InvalidConfig(message) => "invalid Align-TTS config: "@ + message@,
            AlignTtsError::InvalidInput(message) => "invalid Align-TTS input: "@ + message@,
            AlignTtsError::Checkpoint(message) => "unable to load Align-TTS checkpoint: "@ + message@,
        }
    }

    /// The error in words.
    pub fn describe(&self) -> (out: String)
        ensures
            out@ == self.described(),
    {
        match self {
            AlignTtsError::InvalidConfig(message) => with_text(
                "invalid Align-TTS config: ",
                message.as_str(),
            ),
            AlignTtsError::InvalidInput(message) => with_text(
                "invalid Align-TTS input: ",
                message.as_str(),
            ),
            AlignTtsError::Checkpoint(message) => with_text(
                "unable to load Align-TTS checkpoint: ",
                message.as_str(),
            ),
        }
    }
}

/// The outcome is an accepted configuration, or the given fault.
pub open spec fn config_verdict<T>(out: Result<T, AlignTtsError>, fault: Option<Seq<char>>) -> bool {
    match out {
        Ok(_) => fault is None,
        Err(AlignTtsError::InvalidConfig(message)) => fault == Some(message@),
        Err(_) => false,
    }
}

/// The outcome is an accepted input, or the given fault.
pub open spec fn input_verdict<T>(out: Result<T, AlignTtsError>, fault: Option<Seq<char>>) -> bool {
    match out {
        Ok(_) => fault is None,
        Err(AlignTtsError::InvalidInput(message)) => fault == Some(message@),
        Err(_) => false,
    }
}

fn config_error<T>(message: String) -> (out: Result<T, AlignTtsError>)
    ensures
        out == Err::<T, AlignTtsError>(AlignTtsError::InvalidConfig(message)),
{
    Err(AlignTtsError::InvalidConfig(message))
}

fn input_error<T>(message: String) -> (out: Result<T, AlignTtsError>)
    ensures
        out == Err::<T, AlignTtsError>(AlignTtsError::InvalidInput(message)),
{
    Err(AlignTtsError::InvalidInput(message))
}

fn config<T>(read: Result<T, String>) -> (out: Result<T, AlignTtsError>)
    ensures
        match read {
            Ok(value) => out == Ok::<T, AlignTtsError>(value),
            Err(message) => out == Err::<T, AlignTtsError>(AlignTtsError::InvalidConfig(message)),
        },
{
    match read {
        Ok(value) => Ok(value),
        Err(message) => Err(AlignTtsError::InvalidConfig(message)),
    }
}

/// When the training phases start, and how the losses are weighed.
#[derive(Debug, Clone, PartialEq, Eq)]
pub struct AlignTtsTrainingConfig {
    pub phase_start_steps: Option<Vec<u64>>,
    pub ssim_alpha: Double,
    pub spec_loss_alpha: Double,
    pub duration_loss_alpha: Double,
    pub mdn_alpha: Double,
}

/// The training parameters as mathematical values.
#[verifier::ext_equal]
pub struct AlignTtsTrainingModel {
    pub phase_start_steps: Option<Seq<u64>>,
    pub ssim_alpha: Double,
    pub spec_loss_alpha: Double,
    pub duration_loss_alpha: Double,
    pub mdn_alpha: Double,
}

impl View for AlignTtsTrainingConfig {
    type V = AlignTtsTrainingModel;

    open spec fn view(&self) -> AlignTtsTrainingModel {
        AlignTtsTrainingModel {
            phase_start_steps: match self.phase_start_steps {
                Some(steps) => Some(steps@),
                None => None,
            },
            ssim_alpha: self.ssim_alpha,
            spec_loss_alpha: self.spec_loss_alpha,
            duration_loss_alpha: self.duration_loss_alpha,
            mdn_alpha: self.mdn_alpha,
        }
    }
}

/// How many steps lie before the given one.
pub open spec fn count_before(steps: Seq<u64>, step: u64) -> nat
    decreases steps.len(),
{
    if steps.len() == 0 {
        0
    } else {
        count_before(steps.drop_last(), step) + if steps.last() < step {
            1nat
        } else {
            0nat
        }
    }
}

/// The steps never decrease.
pub open spec fn ascending(steps: Seq<u64>) -> bool {
    forall|i: int, j: int| 0 <= i <= j < steps.len() ==> steps[i] <= steps[j]
}

/// The first weight that is not finite and non-negative.
pub open spec fn weight_fault(name: Seq<char>, weight: Double) -> Option<Seq<char>> {
    unless(weight.finite_non_negative(), name + " must be finite and non-negative"@)
}

impl AlignTtsTrainingModel {
    /// The first rule that the parameters break.
    pub open spec fn fault(self) -> Option<Seq<char>> {
        first(
            match self.phase_start_steps {
                Some(steps) => unless(
                    steps.len() == 4 && ascending(steps),
                    "phase_start_steps must contain four non-decreasing steps"@,
                ),
                None => None,
            },
            first(
                weight_fault("ssim_alpha"@, self.ssim_alpha),
                first(
                    weight_fault("spec_loss_alpha"@, self.spec_loss_alpha),
                    first(
                        weight_fault("dur_loss_alpha"@, self.duration_loss_alpha),
                        weight_fault("mdn_alpha"@, self.mdn_alpha),
                    ),
                ),
            ),
        )
    }

    /// The phase of a training step: how many phase starts it has passed.
    pub open spec fn phase_at(self, step: u64) -> AcousticTrainingPhase {
        match self.phase_start_steps {
            None => AcousticTrainingPhase::Joint,
            Some(steps) => {
                let passed = count_before(steps, step);
                if passed == 0 {
                    AcousticTrainingPhase::Alignment
                } else if passed == 1 {
                    AcousticTrainingPhase::Decoder
                } else if passed == 2 {
                    AcousticTrainingPhase::Acoustic
                } else if passed == 3 {
                    AcousticTrainingPhase::DurationPredictor
                } else {
                    AcousticTrainingPhase::Joint
                }
            },
        }
    }
}

/// A weight that is one where it is left out.
pub open spec fn weight_of(root: Json, name: Seq<char>) -> Result<Double, Seq<char>> {
    match root.field(name) {
        None => Ok(Double { bits: 0x3FF0_0000_0000_0000 }),
        Some(value) => match value.double_value() {
            Some(weight) => Ok(weight),
            None => Err(name + " must be numeric"@),
        },
    }
}

/// Training steps, each a non-negative integer.
pub open spec fn steps_of(items: Seq<Json>) -> Result<Seq<u64>, Seq<char>>
    decreases items.len(),
{
    if items.len() == 0 {
        Ok(Seq::empty())
    } else {
        match steps_of(items.drop_last()) {
            Err(message) => Err(message),
            Ok(front) => match items.last().unsigned_value() {
                Some(step) => Ok(front.push(step)),
                None => Err(
                    "phase_start_steps["@ + decimal((items.len() - 1) as nat)
                        + "] must be a non-negative integer"@,
                ),
            },
        }
    }
}

/// The phase starts of a document, which may leave them out.
pub open spec fn phase_starts_of(root: Json) -> Result<Option<Seq<u64>>, Seq<char>> {
    match root.field("phase_start_steps"@) {
        None => Ok(None),
        Some(Json::Null) => Ok(None),
        Some(Json::List(items)) => match steps_of(items@) {
            Ok(steps) => Ok(Some(steps)),
            Err(message) => Err(message),
        },
        Some(_) => Err("phase_start_steps must be null or an array of four steps"@),
    }
}

/// The training parameters that a document holds, where each can be read.
pub open spec fn training_of(root: Json) -> AlignTtsTrainingModel {
    AlignTtsTrainingModel {
        phase_start_steps: phase_starts_of(root)->Ok_0,
        ssim_alpha: weight_of(root, "ssim_alpha"@)->Ok_0,
        spec_loss_alpha: weight_of(root, "spec_loss_alpha"@)->Ok_0,
        duration_loss_alpha: weight_of(root, "dur_loss_alpha"@)->Ok_0,
        mdn_alpha: weight_of(root, "mdn_alpha"@)->Ok_0,
    }
}

/// The first reason why a document does not hold valid training parameters.
pub open spec fn training_fault(root: Json) -> Option<Seq<char>> {
    first(
        fault_of(phase_starts_of(root)),
        first(
            fault_of(weight_of(root, "ssim_alpha"@)),
            first(
                fault_of(weight_of(root, "spec_loss_alpha"@)),
                first(
                    fault_of(weight_of(root, "dur_loss_alpha"@)),
                    first(
                        fault_of(weight_of(root, "mdn_alpha"@)),
                        training_of(root).fault(),
                    ),
                ),
            ),
        ),
    )
}

proof fn step_faults_persist(items: Seq<Json>, read: int)
    requires
        0 <= read <= items.len(),
        steps_of(items.take(read)) is Err,
    ensures
        steps_of(items) == steps_of(items.take(read)),
    decreases items.len() - read,
{
    if read < items.len() {
        assert(items.take(read + 1).drop_last() =~= items.take(read));
        step_faults_persist(items, read + 1);
    } else {
        assert(items.take(read) =~= items);
    }
}

fn read_steps(items: &Vec<Json>) -> (out: Result<Vec<u64>, AlignTtsError>)
    ensures
        config_verdict(out, fault_of(steps_of(items@))),
        out matches Ok(steps) ==> steps_of(items@) == Ok::<Seq<u64>, Seq<char>>(steps@),
{
    let mut steps: Vec<u64> = Vec::new();
    let mut i: usize = 0;
    assert(steps_of(items@.take(0)) == Ok::<Seq<u64>, Seq<char>>(steps@));
    while i < items.len()
        invariant
            i <= items.len(),
            steps_of(items@.take(i as int)) == Ok::<Seq<u64>, Seq<char>>(steps@),
        decreases items.len() - i,
    {
        proof {
            assert(items@.take(i + 1).drop_last() =~= items@.take(i as int));
        }
        match items[i].as_u64() {
            Some(step) => steps.push(step),
            None => {
                proof {
                    step_faults_persist(items@, i + 1);
                }
                return config_error(
                    around_number("phase_start_steps[", i, "] must be a non-negative integer"),
                );
            },
        }
        i = i + 1;
    }
    assert(items@.take(items.len() as int) =~= items@);
    Ok(steps)
}

fn read_weight(root: &Json, name: &str) -> (out: Result<Double, AlignTtsError>)
    ensures
        config_verdict(out, fault_of(weight_of(*root, name@))),
        out matches Ok(weight) ==> weight_of(*root, name@) == Ok::<Double, Seq<char>>(weight),
{
    match root.get(name) {
        None => Ok(Double::one()),
        Some(value) => match value.as_double() {
            Some(weight) => Ok(weight),
            None => config_error(with_text(name, " must be numeric")),
        },
    }
}

fn check_weight(name: &str, weight: Double) -> (out: Result<(), AlignTtsError>)
    ensures
        config_verdict(out, weight_fault(name@, weight)),
{
    if !weight.is_finite_non_negative() {
        return config_error(with_text(name, " must be finite and non-negative"));
    }
    Ok(())
}

fn is_ascending(steps: &Vec<u64>) -> (out: bool)
    ensures
        out == ascending(steps@),
{
    let mut i: usize = 1;
    while i < steps.len()
        invariant
            1 <= i,
            i <= steps.len() || steps.len() == 0,
            forall|k: int, l: int| 0 <= k <= l < i && l < steps.len() ==> steps@[k] <= steps@[l],
        decreases steps.len() - i,
    {
        if steps[i - 1] > steps[i] {
            assert(steps@[i - 1] > steps@[i as int]);
            return false;
        }
        i = i + 1;
    }
    true
}

impl AlignTtsTrainingConfig {
    pub fn from_json_value(root: &Json) -> (out: Result<Self, AlignTtsError>)
        ensures
            config_verdict(out, training_fault(*root)),
            out matches Ok(config) ==> config@ == training_of(*root) && config@.fault() is None,
    {
        let phase_start_steps = match root.get("phase_start_steps") {
            None => None,
            Some(Json::Null) => None,
            Some(Json::List(items)) => Some(read_steps(items)?),
            Some(_) => return config_error(
                "phase_start_steps must be null or an array of four steps".to_owned(),
            ),
        };
        let out = AlignTtsTrainingConfig {
            phase_start_steps,
            ssim_alpha: read_weight(root, "ssim_alpha")?,
            spec_loss_alpha: read_weight(root, "spec_loss_alpha")?,
            duration_loss_alpha: read_weight(root, "dur_loss_alpha")?,
            mdn_alpha: read_weight(root, "mdn_alpha")?,
        };
        assert(out@ == training_of(*root));
        out.validate()?;
        Ok(out)
    }

    pub fn validate(&self) -> (out: Result<(), AlignTtsError>)
        ensures
            config_verdict(out, self@.fault()),
    {
        if let Some(steps) = &self.phase_start_steps {
            if steps.len() != 4 || !is_ascending(steps) {
                return config_error(
                    "phase_start_steps must contain four non-decreasing steps".to_owned(),
                );
            }
        }
        check_weight("ssim_alpha", self.ssim_alpha)?;
        check_weight("spec_loss_alpha", self.spec_loss_alpha)?;
        check_weight("dur_loss_alpha", self.duration_loss_alpha)?;
        check_weight("mdn_alpha", self.mdn_alpha)?;
        Ok(())
    }

    /// The phase of a training step.
    pub fn phase(&self, global_step: u64) -> (out: AcousticTrainingPhase)
        ensures
            out == self@.phase_at(global_step),
    {
        let steps = match &self.phase_start_steps {
            None => return AcousticTrainingPhase::Joint,
            Some(steps) => steps,
        };
        let mut passed: usize = 0;
        let mut i: usize = 0;
        while i < steps.len()
            invariant
                i <= steps.len(),
                passed <= i,
                passed == count_before(steps@.take(i as int), global_step),
            decreases steps.len() - i,
        {
            proof {
                assert(steps@.take(i + 1).drop_last() =~= steps@.take(i as int));
            }
            if steps[i] < global_step {
                passed = passed + 1;
            }
            i = i + 1;
        }
        assert(steps@.take(steps.len() as int) =~= steps@);
        if passed == 0 {
            AcousticTrainingPhase::Alignment
        } else if passed == 1 {
            AcousticTrainingPhase::Decoder
        } else if passed == 2 {
            AcousticTrainingPhase::Acoustic
        } else if passed == 3 {
            AcousticTrainingPhase::DurationPredictor
        } else {
            AcousticTrainingPhase::Joint
        }
    }
}

impl Default for AlignTtsTrainingConfig {
    fn default() -> (out: Self)
        ensures
            out@ == (AlignTtsTrainingModel {
                phase_start_steps: None,
                ssim_alpha: Double { bits: 0x3FF0_0000_0000_0000 },
                spec_loss_alpha: Double { bits: 0x3FF0_0000_0000_0000 },
                duration_loss_alpha: Double { bits: 0x3FF0_0000_0000_0000 },
                mdn_alpha: Double { bits: 0x3FF0_0000_0000_0000 },
            }),
            out@.fault() is None,
    {
        AlignTtsTrainingConfig {
            phase_start_steps: None,
            ssim_alpha: Double::one(),
            spec_loss_alpha: Double::one(),
            duration_loss_alpha: Double::one(),
            mdn_alpha: Double::one(),
        }
    }
}

proof fn counts_ascend(steps: Seq<u64>, early: u64, late: u64)
    requires
        early <= late,
    ensures
        count_before(steps, early) <= count_before(steps, late) <= steps.len(),
    decreases steps.len(),
{
    if steps.len() > 0 {
        counts_ascend(steps.drop_last(), early, late);
    }
}

/// Training never goes back to an earlier phase.
pub proof fn phases_ascend(training: AlignTtsTrainingModel, early: u64, late: u64)
    requires
        early <= late,
    ensures
        training.phase_at(early).place() <= training.phase_at(late).place(),
{
    if let Some(steps) = training.phase_start_steps {
        counts_ascend(steps, early, late);
    }
}

/// With valid phase starts, training is in its first phase up to the first start, and joint
/// from the step after the last start on.
pub proof fn phases_begin_and_end(training: AlignTtsTrainingModel, step: u64)
    requires
        training.fault() is None,
        training.phase_start_steps is Some,
    ensures
        step <= training.phase_start_steps->0[0] ==> training.phase_at(step)
            == AcousticTrainingPhase::Alignment,
        step > training.phase_start_steps->0[3] ==> training.phase_at(step)
            == AcousticTrainingPhase::Joint,
{
    let steps = training.phase_start_steps->0;
    reveal_with_fuel(count_before, 5);
    assert(steps.drop_last().drop_last().drop_last().drop_last().len() == 0);
    assert(steps[0] <= steps[1] <= steps[2] <= steps[3]);
}

/// Parameters of an Align-TTS model.
#[derive(Debug, Clone, PartialEq, Eq)]
pub struct AlignTtsConfig {
    pub num_chars: usize,
    pub out_channels: usize,
    pub hidden_channels: usize,
    pub hidden_channels_dp: usize,
    pub encoder: FeedForwardTransformerConfig,
    pub decoder: FeedForwardTransformerConfig,
    pub length_scale: Double,
    pub max_duration: usize,
    pub max_output_frames: usize,
    pub training: AlignTtsTrainingConfig,
}

/// The parameters as mathematical values.
#[verifier::ext_equal]
pub struct AlignTtsModel {
    pub num_chars: usize,
    pub out_channels: usize,
    pub hidden_channels: usize,
    pub hidden_channels_dp: usize,
    pub encoder: FeedForwardTransformerConfig,
    pub decoder: FeedForwardTransformerConfig,
    pub length_scale: Double,
    pub max_duration: usize,
    pub max_output_frames: usize,
    pub training: AlignTtsTrainingModel,
}

impl View for AlignTtsConfig {
    type V = AlignTtsModel;

    open spec fn view(&self) -> AlignTtsModel {
        AlignTtsModel {
            num_chars: self.num_chars,
            out_channels: self.out_channels,
            hidden_channels: self.hidden_channels,
            hidden_channels_dp: self.hidden_channels_dp,
            encoder: self.encoder,
            decoder: self.decoder,
            length_scale: self.length_scale,
            max_duration: self.max_duration,
            max_output_frames: self.max_output_frames,
            training: self.training@,
        }
    }
}

impl AlignTtsModel {
    /// The first rule that the parameters break.
    pub open spec fn fault(self) -> Option<Seq<char>> {
        if self.num_chars == 0 || self.out_channels == 0 || self.hidden_channels == 0
            || self.hidden_channels_dp == 0 {
            Some("model dimensions must be positive"@)
        } else if self.hidden_channels_dp != self.hidden_channels {
            Some("Coqui Align-TTS requires hidden_channels_dp to equal hidden_channels"@)
        } else if !multiple_of(self.hidden_channels as int, self.encoder.num_heads as int)
            || !multiple_of(self.hidden_channels as int, self.decoder.num_heads as int)
            || !multiple_of(self.hidden_channels as int, 2) {
            Some("hidden_channels must be even and divisible by all attention head counts"@)
        } else if !self.length_scale.finite_positive() {
            Some("length_scale must be finite and positive"@)
        } else {
            None
        }
    }
}

/// The model name of a document, empty where there is none.
pub open spec fn model_name(root: Json) -> Seq<char> {
    match root.text_in("model"@) {
        Some(name) => name,
        None => Seq::empty(),
    }
}

/// A size among the arguments.
pub open spec fn argument_of(args: Json, name: Seq<char>) -> Result<usize, Seq<char>> {
    let size = match args.field(name) {
        Some(value) => value.size_value(),
        None => None,
    };
    match size {
        Some(size) => Ok(size),
        None => Err("model_args."@ + name + " must be a positive integer"@),
    }
}

/// A type field among the arguments names the feed-forward transformer.
pub open spec fn transformer_fault(args: Json, field: Seq<char>) -> Option<Seq<char>> {
    unless(
        args.text_in(field) == Some("fftransformer"@),
        field + " must be \"fftransformer\""@,
    )
}

/// A flag is off, at the top and among the arguments.
pub open spec fn conditioning_fault(root: Json, args: Json, field: Seq<char>) -> Option<Seq<char>> {
    unless(
        !args.flag_in(field) && !root.flag_in(field),
        "speaker-conditioned Align-TTS checkpoints are not yet supported"@,
    )
}

/// The transformer parameters in a field of the arguments.
pub open spec fn stack_fault(args: Json, key: Seq<char>, label: Seq<char>) -> Option<Seq<char>> {
    match args.field(key) {
        None => Some("model_args."@ + key + " is required"@),
        Some(value) => prefixed(FeedForwardTransformerConfig::reading_fault(value, label)),
    }
}

/// The vocabulary size of a document without a declared number of characters.
pub open spec fn align_vocabulary_of(root: Json) -> Result<usize, Seq<char>> {
    match root.field("characters"@) {
        Some(characters) => if characters is Object {
            size_of_vocabulary(vocabulary_of(characters))
        } else {
            Err("characters must be an object when num_chars is omitted"@)
        },
        None => Err("characters must be an object when num_chars is omitted"@),
    }
}

/// The length scale among the arguments.
pub open spec fn length_scale_of(args: Json) -> Result<Double, Seq<char>> {
    let scale = match args.field("length_scale"@) {
        Some(value) => value.double_value(),
        None => None,
    };
    match scale {
        Some(scale) => Ok(scale),
        None => Err("model_args.length_scale must be numeric"@),
    }
}

/// The parameters that a document holds, where each can be read.
pub open spec fn align_model_of(root: Json) -> AlignTtsModel {
    let args = root.field("model_args"@)->0;
    AlignTtsModel {
        num_chars: num_chars_of(args, align_vocabulary_of(root))->Ok_0,
        out_channels: argument_of(args, "out_channels"@)->Ok_0,
        hidden_channels: argument_of(args, "hidden_channels"@)->Ok_0,
        hidden_channels_dp: argument_of(args, "hidden_channels_dp"@)->Ok_0,
        encoder: FeedForwardTransformerConfig::of(args.field("encoder_params"@)->0),
        decoder: FeedForwardTransformerConfig::of(args.field("decoder_params"@)->0),
        length_scale: length_scale_of(args)->Ok_0,
        max_duration: MAX_DURATION,
        max_output_frames: MAX_OUTPUT_FRAMES,
        training: training_of(root),
    }
}

/// The first reason why a document is not the configuration of this model.
pub open spec fn align_fault(root: Json) -> Option<Seq<char>> {
    if model_name(root) != "align_tts"@ && model_name(root) != "align-tts"@ {
        Some("expected align_tts model, got "@ + quoted(model_name(root)))
    } else {
        match root.field("model_args"@) {
            Some(args) => if args is Object {
                align_args_fault(root, args)
            } else {
                Some("model_args must be an object"@)
            },
            None => Some("model_args must be an object"@),
        }
    }
}

/// The first reason why the arguments of a document cannot be used.
pub open spec fn align_args_fault(root: Json, args: Json) -> Option<Seq<char>> {
    first(
        transformer_fault(args, "encoder_type"@),
        first(
            transformer_fault(args, "decoder_type"@),
            first(
                conditioning_fault(root, args, "use_speaker_embedding"@),
                first(
                    conditioning_fault(root, args, "use_d_vector_file"@),
                    first(
                        fault_of(num_chars_of(args, align_vocabulary_of(root))),
                        first(
                            fault_of(argument_of(args, "out_channels"@)),
                            first(
                                fault_of(argument_of(args, "hidden_channels"@)),
                                first(
                                    fault_of(argument_of(args, "hidden_channels_dp"@)),
                                    first(
                                        stack_fault(args, "encoder_params"@, "encoder"@),
                                        first(
                                            stack_fault(args, "decoder_params"@, "decoder"@),
                                            first(
                                                fault_of(length_scale_of(args)),
                                                first(
                                                    training_fault(root),
                                                    align_model_of(root).fault(),
                                                ),
                                            ),
                                        ),
                                    ),
                                ),
                            ),
                        ),
                    ),
                ),
            ),
        ),
    )
}

fn read_argument(args: &Json, name: &str) -> (out: Result<usize, AlignTtsError>)
    ensures
        config_verdict(out, fault_of(argument_of(*args, name@))),
        out matches Ok(size) ==> argument_of(*args, name@) == Ok::<usize, Seq<char>>(size),
{
    let size = match args.get(name) {
        Some(value) => value.as_usize(),
        None => None,
    };
    match size {
        Some(size) => Ok(size),
        None => config_error(around_text("model_args.", name, " must be a positive integer")),
    }
}

fn check_transformer(args: &Json, field: &str) -> (out: Result<(), AlignTtsError>)
    ensures
        config_verdict(out, transformer_fault(*args, field@)),
{
    let named = match args.get_str(field) {
        Some(name) => same_text(name, "fftransformer"),
        None => false,
    };
    if !named {
        return config_error(with_text(field, " must be \"fftransformer\""));
    }
    Ok(())
}

fn check_conditioning(root: &Json, args: &Json, field: &str) -> (out: Result<(), AlignTtsError>)
    ensures
        config_verdict(out, conditioning_fault(*root, *args, field@)),
{
    if args.get_flag(field) || root.get_flag(field) {
        return config_error(
            "speaker-conditioned Align-TTS checkpoints are not yet supported".to_owned(),
        );
    }
    Ok(())
}

fn read_stack(args: &Json, key: &str, label: &str) -> (out: Result<
    FeedForwardTransformerConfig,
    AlignTtsError,
>)
    ensures
        config_verdict(out, stack_fault(*args, key@, label@)),
        out matches Ok(stack) ==> stack == FeedForwardTransformerConfig::of(args.field(key@)->0),
{
    let value = match args.get(key) {
        Some(value) => value,
        None => return config_error(around_text("model_args.", key, " is required")),
    };
    match FeedForwardTransformerConfig::from_value(value, label) {
        Ok(stack) => Ok(stack),
        Err(error) => config_error(error.describe()),
    }
}

fn read_num_chars(root: &Json, args: &Json) -> (out: Result<usize, AlignTtsError>)
    ensures
        config_verdict(out, fault_of(num_chars_of(*args, align_vocabulary_of(*root)))),
        out matches Ok(size) ==> num_chars_of(*args, align_vocabulary_of(*root)) == Ok::<
            usize,
            Seq<char>,
        >(size),
{
    match args.get_u64("num_chars") {
        Some(value) => if value <= usize::MAX as u64 {
            Ok(value as usize)
        } else {
            config_error("model_args.num_chars does not fit usize".to_owned())
        },
        None => {
            if let Some(characters) = root.get("characters") {
                if characters.is_object() {
                    return config(vocabulary_size(characters));
                }
            }
            config_error("characters must be an object when num_chars is omitted".to_owned())
        },
    }
}

fn read_length_scale(args: &Json) -> (out: Result<Double, AlignTtsError>)
    ensures
        config_verdict(out, fault_of(length_scale_of(*args))),
        out matches Ok(scale) ==> length_scale_of(*args) == Ok::<Double, Seq<char>>(scale),
{
    let scale = match args.get("length_scale") {
        Some(value) => value.as_double(),
        None => None,
    };
    match scale {
        Some(scale) => Ok(scale),
        None => config_error("model_args.length_scale must be numeric".to_owned()),
    }
}

impl AlignTtsConfig {
    /// Reads the model-specific values of a compatible configuration document.
    pub fn from_json_value(root: &Json) -> (out: Result<Self, AlignTtsError>)
        ensures
            config_verdict(out, align_fault(*root)),
            out matches Ok(config) ==> config@ == align_model_of(*root) && config@.fault() is None,
    {
        let model = match root.get_str("model") {
            Some(name) => name.to_owned(),
            None => String::new(),
        };
        if !same_text(model.as_str(), "align_tts") && !same_text(model.as_str(), "align-tts") {
            return config_error(
                with_text(
                    "expected align_tts model, got ",
                    quoted_text(model.as_str()).as_str(),
                ),
            );
        }
        let args = match root.get("model_args") {
            Some(args) => args,
            None => return config_error("model_args must be an object".to_owned()),
        };
        if !args.is_object() {
            return config_error("model_args must be an object".to_owned());
        }
        check_transformer(args, "encoder_type")?;
        check_transformer(args, "decoder_type")?;
        check_conditioning(root, args, "use_speaker_embedding")?;
        check_conditioning(root, args, "use_d_vector_file")?;
        let num_chars: usize = read_num_chars(root, args)?;
        let out = AlignTtsConfig {
            num_chars,
            out_channels: read_argument(args, "out_channels")?,
            hidden_channels: read_argument(args, "hidden_channels")?,
            hidden_channels_dp: read_argument(args, "hidden_channels_dp")?,
            encoder: read_stack(args, "encoder_params", "encoder")?,
            decoder: read_stack(args, "decoder_params", "decoder")?,
            length_scale: read_length_scale(args)?,
            max_duration: MAX_DURATION,
            max_output_frames: MAX_OUTPUT_FRAMES,
            training: AlignTtsTrainingConfig::from_json_value(root)?,
        };
        assert(out@ == align_model_of(*root));
        out.validate()?;
        Ok(out)
    }

    pub fn validate(&self) -> (out: Result<(), AlignTtsError>)
        ensures
            config_verdict(out, self@.fault()),
    {
        if self.num_chars == 0 || self.out_channels == 0 || self.hidden_channels == 0
            || self.hidden_channels_dp == 0 {
            return config_error("model dimensions must be positive".to_owned());
        }
        if self.hidden_channels_dp != self.hidden_channels {
            return config_error(
                "Coqui Align-TTS requires hidden_channels_dp to equal hidden_channels".to_owned(),
            );
        }
        if !is_multiple_of(self.hidden_channels, self.encoder.num_heads) || !is_multiple_of(
            self.hidden_channels,
            self.decoder.num_heads,
        ) || !is_multiple_of(self.hidden_channels, 2) {
            return config_error(
                "hidden_channels must be even and divisible by all attention head counts".to_owned(),
            );
        }
        if !self.length_scale.is_finite_positive() {
            return config_error("length_scale must be finite and positive".to_owned());
        }
        Ok(())
    }
}

/// Everything that is needed to build the network.
#[derive(Debug, Clone, Copy, PartialEq, Eq, Structural)]
pub struct AlignTtsTopology {
    pub num_chars: usize,
    pub hidden_channels: usize,
    pub encoder: TransformerLayers,
    pub decoder: TransformerLayers,
    pub postnet: Conv,
    pub duration_1: Conv,
    pub duration_2: Conv,
    pub duration_3: Conv,
    pub duration_projection: Conv,
    pub mod_layer: Conv,
    pub mdn_1: Conv,
    pub mdn_2: Conv,
}

/// The shapes of what the network emits.
#[derive(Debug, Clone, Copy, PartialEq, Eq)]
pub struct AlignTtsShapes {
    pub mel: [usize; 3],
    pub durations: [usize; 2],
    pub alignment: [usize; 3],
}

/// The shapes of a training batch, its lengths and its ids.
#[derive(Debug, Clone)]
pub struct TrainingBatch {
    pub tokens: TokenBatch,
    pub token_lengths: Vec<usize>,
    /// `[batch, frames, mel_bins]` of the target.
    pub target_shape: [usize; 3],
    pub mel_lengths: Vec<usize>,
}

/// What a training step computes in its phase.
#[derive(Debug, Clone, Copy, PartialEq, Eq, Structural)]
pub struct TrainingPlan {
    pub phase: AcousticTrainingPhase,
    pub predict_durations: bool,
    pub predict_mel: bool,
    pub detach_decoder_input: bool,
}

/// What a training step computes in a phase: durations are predicted in the last two phases,
/// and the spectrogram in all but the first, from detached encodings in the second.
pub open spec fn plan_of(phase: AcousticTrainingPhase) -> TrainingPlan {
    TrainingPlan {
        phase,
        predict_durations: phase == AcousticTrainingPhase::DurationPredictor || phase
            == AcousticTrainingPhase::Joint,
        predict_mel: phase != AcousticTrainingPhase::Alignment,
        detach_decoder_input: phase == AcousticTrainingPhase::Decoder,
    }
}

/// Every length is positive and within the padded size.
pub open spec fn lengths_within(lengths: Seq<usize>, padded: int) -> bool {
    forall|i: int| 0 <= i < lengths.len() ==> 0 < #[trigger] lengths[i] <= padded
}

/// No row has more tokens than frames.
pub open spec fn alignable(token_lengths: Seq<usize>, mel_lengths: Seq<usize>) -> bool {
    forall|i: int|
        0 <= i < token_lengths.len() && i < mel_lengths.len() ==> #[trigger] token_lengths[i]
            <= mel_lengths[i]
}

impl TrainingBatch {
    /// The first reason why a model cannot be trained on the batch in a phase. Where the phase
    /// predicts a spectrogram, the positional table has to reach over the target.
    pub open spec fn fault(self, model: AlignTtsModel, phase: AcousticTrainingPhase) -> Option<
        Seq<char>,
    > {
        let frames = self.target_shape@[1];
        if !(self.tokens.batch > 0 && self.tokens.tokens > 0 && frames > 0) {
            Some("Align-TTS training batch dimensions must be non-empty"@)
        } else if self.target_shape@[0] != self.tokens.batch || self.target_shape@[2]
            != model.out_channels {
            Some("Align-TTS target mel shape does not match batch/model dimensions"@)
        } else if self.token_lengths.len() != self.tokens.batch || self.mel_lengths.len()
            != self.tokens.batch {
            Some("Align-TTS training length vectors must match batch size"@)
        } else if !lengths_within(self.token_lengths@, self.tokens.tokens as int)
            || !lengths_within(self.mel_lengths@, frames as int) {
            Some("Align-TTS training lengths are outside their padded dimensions"@)
        } else if !alignable(self.token_lengths@, self.mel_lengths@) {
            Some("Align-TTS monotonic alignment requires at least one frame per token"@)
        } else if !highest_within(self.tokens.ids@, model.num_chars as int) {
            Some(
                "Align-TTS training token ID "@ + signed_decimal(highest(self.tokens.ids@))
                    + " is outside the vocabulary"@,
            )
        } else if plan_of(phase).predict_mel {
            match positional_fault(frames as int) {
                Some(message) => Some("invalid SpeedySpeech input: "@ + message),
                None => None,
            }
        } else {
            None
        }
    }
}

fn are_lengths_within(lengths: &Vec<usize>, padded: usize) -> (out: bool)
    ensures
        out == lengths_within(lengths@, padded as int),
{
    let mut i: usize = 0;
    while i < lengths.len()
        invariant
            i <= lengths.len(),
            forall|k: int| 0 <= k < i ==> 0 < #[trigger] lengths@[k] <= padded,
        decreases lengths.len() - i,
    {
        if lengths[i] == 0 || lengths[i] > padded {
            assert(!(0 < lengths@[i as int] <= padded));
            return false;
        }
        i = i + 1;
    }
    true
}

fn are_alignable(token_lengths: &Vec<usize>, mel_lengths: &Vec<usize>) -> (out: bool)
    ensures
        out == alignable(token_lengths@, mel_lengths@),
{
    let mut i: usize = 0;
    while i < token_lengths.len() && i < mel_lengths.len()
        invariant
            i <= token_lengths.len(),
            i <= mel_lengths.len(),
            forall|k: int| 0 <= k < i ==> #[trigger] token_lengths@[k] <= mel_lengths@[k],
        decreases token_lengths.len() - i,
    {
        if token_lengths[i] > mel_lengths[i] {
            assert(token_lengths@[i as int] > mel_lengths@[i as int]);
            return false;
        }
        i = i + 1;
    }
    true
}

impl AlignTtsModel {
    /// The layer sizes are representable.
    pub open spec fn buildable(self) -> bool {
        &&& self.hidden_channels * 3 <= usize::MAX
        &&& self.out_channels * 2 <= usize::MAX
    }

    /// The network of the model.
    pub open spec fn built(self) -> AlignTtsTopology {
        let hidden = self.hidden_channels;
        let inner = self.hidden_channels_dp;
        AlignTtsTopology {
            num_chars: self.num_chars,
            hidden_channels: hidden,
            encoder: transformer(hidden, self.encoder),
            decoder: transformer(hidden, self.decoder),
            postnet: pointwise(hidden, self.out_channels),
            duration_1: balanced(hidden, inner, 4, 1),
            duration_2: balanced(inner, inner, 3, 1),
            duration_3: balanced(inner, inner, 1, 1),
            duration_projection: pointwise(inner, 1),
            mod_layer: pointwise(hidden, hidden),
            mdn_1: pointwise(hidden, hidden),
            mdn_2: pointwise(hidden, (self.out_channels * 2) as usize),
        }
    }

    /// The first reason why a batch cannot be synthesized.
    pub open spec fn inference_fault(
        self,
        tokens: TokenBatch,
        length_scale: Double,
        durations: Option<[usize; 2]>,
        ids_validated: bool,
    ) -> Option<Seq<char>> {
        if !length_scale.finite_positive() {
            Some("length_scale must be finite and positive"@)
        } else if !tokens.non_empty() {
            Some("token_ids must be non-empty"@)
        } else if !ids_validated && !highest_within(tokens.ids@, self.num_chars as int) {
            Some(
                "token ID "@ + signed_decimal(highest(tokens.ids@)) + " is outside the vocabulary"@,
            )
        } else {
            match durations {
                Some(shape) => unless(
                    shape@ == seq![tokens.batch, tokens.tokens],
                    "explicit durations must have shape [batch, tokens]"@,
                ),
                None => None,
            }
        }
    }
}

impl AlignTtsConfig {
    /// The network of a valid configuration.
    pub fn topology(&self) -> (out: Result<AlignTtsTopology, AlignTtsError>)
        requires
            self@.fault() is None ==> self@.buildable(),
        ensures
            config_verdict(out, self@.fault()),
            out matches Ok(topology) ==> topology == self@.built(),
    {
        self.validate()?;
        let hidden: usize = self.hidden_channels;
        let inner: usize = self.hidden_channels_dp;
        Ok(
            AlignTtsTopology {
                num_chars: self.num_chars,
                hidden_channels: hidden,
                encoder: transformer_layers(hidden, &self.encoder),
                decoder: transformer_layers(hidden, &self.decoder),
                postnet: pointwise_conv(hidden, self.out_channels),
                duration_1: balanced_conv(hidden, inner, 4, 1),
                duration_2: balanced_conv(inner, inner, 3, 1),
                duration_3: balanced_conv(inner, inner, 1, 1),
                duration_projection: pointwise_conv(inner, 1),
                mod_layer: pointwise_conv(hidden, hidden),
                mdn_1: pointwise_conv(hidden, hidden),
                mdn_2: pointwise_conv(hidden, self.out_channels * 2),
            },
        )
    }

    /// Whether a batch can be synthesized.
    pub fn check_inference(
        &self,
        tokens: &TokenBatch,
        length_scale: Double,
        durations: &Option<[usize; 2]>,
        ids_validated: bool,
    ) -> (out: Result<(), AlignTtsError>)
        requires
            tokens.wf(),
        ensures
            input_verdict(
                out,
                self@.inference_fault(*tokens, length_scale, *durations, ids_validated),
            ),
    {
        if !length_scale.is_finite_positive() {
            return input_error("length_scale must be finite and positive".to_owned());
        }
        if tokens.batch == 0 || tokens.tokens == 0 {
            return input_error("token_ids must be non-empty".to_owned());
        }
        if !ids_validated {
            let highest_id: i64 = tokens.highest_id();
            if highest_id < 0 || highest_id as u64 >= self.num_chars as u64 {
                return input_error(
                    around_text(
                        "token ID ",
                        signed_decimal_text(highest_id).as_str(),
                        " is outside the vocabulary",
                    ),
                );
            }
        }
        if let Some(shape) = durations {
            let same = shape[0] == tokens.batch && shape[1] == tokens.tokens;
            assert(same == (shape@ =~= seq![tokens.batch, tokens.tokens]));
            if !same {
                return input_error(
                    "explicit durations must have shape [batch, tokens]".to_owned(),
                );
            }
        }
        Ok(())
    }

    /// Expands encoded tokens to the frames that the decoder reads.
    pub fn expand<T: Copy>(
        &self,
        encoded: &Vec<Vec<Vec<T>>>,
        durations: &Vec<Vec<usize>>,
        fill: T,
    ) -> (out: Result<Expanded<T>, AlignTtsError>)
        requires
            aligned_with(encoded@, durations@),
        ensures
            input_verdict(
                out,
                expansion_fault(requested_frames(durations@), self.max_output_frames as int),
            ),
            out matches Ok(expanded) ==> expanded.expands(encoded@, durations@, fill),
    {
        match expand_by_durations(encoded, durations, fill, self.max_output_frames) {
            Ok(expanded) => Ok(expanded),
            Err(error) => input_error(error.describe()),
        }
    }

    /// Which frames attend to which tokens, where durations need not be whole.
    pub fn attend(
        &self,
        starts: &Vec<Vec<Double>>,
        ends: &Vec<Vec<Double>>,
        lengths: &Vec<Double>,
        latest: Double,
    ) -> (out: Result<Attention, AlignTtsError>)
        requires
            paired(starts@, ends@),
        ensures
            input_verdict(
                out,
                expansion_fault(latest.saturated(), self.max_output_frames as int),
            ),
            out matches Ok(attention) ==> attention.follows(starts@, ends@, lengths@, latest),
    {
        match attend_by_durations(starts, ends, lengths, latest, self.max_output_frames) {
            Ok(attention) => Ok(attention),
            Err(error) => input_error(error.describe()),
        }
    }

    /// Decides what a training step computes, where the model can be trained on the batch.
    pub fn plan_training(&self, batch: &TrainingBatch, global_step: u64) -> (out: Result<
        TrainingPlan,
        String,
    >)
        requires
            batch.tokens.wf(),
        ensures
            match out {
                Ok(plan) => batch.fault(self@, self@.training.phase_at(global_step)) is None && plan
                    == plan_of(self@.training.phase_at(global_step)),
                Err(message) => batch.fault(self@, self@.training.phase_at(global_step)) == Some(
                    message@,
                ),
            },
    {
        let frames: usize = batch.target_shape[1];
        if !(batch.tokens.batch > 0 && batch.tokens.tokens > 0 && frames > 0) {
            return Err("Align-TTS training batch dimensions must be non-empty".to_owned());
        }
        if batch.target_shape[0] != batch.tokens.batch || batch.target_shape[2]
            != self.out_channels {
            return Err(
                "Align-TTS target mel shape does not match batch/model dimensions".to_owned(),
            );
        }
        if batch.token_lengths.len() != batch.tokens.batch || batch.mel_lengths.len()
            != batch.tokens.batch {
            return Err("Align-TTS training length vectors must match batch size".to_owned());
        }
        if !are_lengths_within(&batch.token_lengths, batch.tokens.tokens) || !are_lengths_within(
            &batch.mel_lengths,
            frames,
        ) {
            return Err("Align-TTS training lengths are outside their padded dimensions".to_owned());
        }
        if !are_alignable(&batch.token_lengths, &batch.mel_lengths) {
            return Err(
                "Align-TTS monotonic alignment requires at least one frame per token".to_owned(),
            );
        }
        let highest_id: i64 = batch.tokens.highest_id();
        if highest_id < 0 || highest_id as u64 >= self.num_chars as u64 {
            return Err(
                around_text(
                    "Align-TTS training token ID ",
                    signed_decimal_text(highest_id).as_str(),
                    " is outside the vocabulary",
                ),
            );
        }
        let phase = self.training.phase(global_step);
        if phase != AcousticTrainingPhase::Alignment {
            if let Err(error) = check_positional(frames) {
                return Err(error.describe());
            }
        }
        Ok(
            TrainingPlan {
                phase,
                predict_durations: phase == AcousticTrainingPhase::DurationPredictor || phase
                    == AcousticTrainingPhase::Joint,
                predict_mel: phase != AcousticTrainingPhase::Alignment,
                detach_decoder_input: phase == AcousticTrainingPhase::Decoder,
            },
        )
    }

    /// The shapes of what the network emits for a batch that expands to the given frames.
    pub fn output_shapes(&self, tokens: &TokenBatch, frames: usize) -> (out: AlignTtsShapes)
        ensures
            out.mel@ == seq![tokens.batch, frames, self.out_channels],
            out.durations@ == seq![tokens.batch, tokens.tokens],
            out.alignment@ == seq![tokens.batch, frames, tokens.tokens],
    {
        let out = AlignTtsShapes {
            mel: [tokens.batch, frames, self.out_channels],
            durations: [tokens.batch, tokens.tokens],
            alignment: [tokens.batch, frames, tokens.tokens],
        };
        assert(out.mel@ =~= seq![tokens.batch, frames, self.out_channels]);
        assert(out.durations@ =~= seq![tokens.batch, tokens.tokens]);
        assert(out.alignment@ =~= seq![tokens.batch, frames, tokens.tokens]);
        out
    }

    /// Whether a checkpoint fits the network exactly.
    pub fn check_checkpoint(report: &LoadReport) -> (out: Result<(), AlignTtsError>)
        ensures
            match out {
                Ok(_) => report.fits(Subtree::Learned),
                Err(AlignTtsError::Checkpoint(message)) => !report.fits(Subtree::Learned)
                    && message@ == report.counted(
                    "checkpoint does not exactly match the native model: "@,
                    Subtree::Learned,
                    " load errors, unexpected tensors: "@,
                    ""@,
                ),
                Err(_) => false,
            },
    {
        match report.fault_counted(
            "checkpoint does not exactly match the native model: ",
            Subtree::Learned,
            " load errors, unexpected tensors: ",
            "",
        ) {
            None => Ok(()),
            Some(message) => Err(AlignTtsError::Checkpoint(message)),
        }
    }

    /// How checkpoint names become parameter names, as patterns and replacements.
    pub fn key_remappings() -> (out: Vec<(&'static str, &'static str)>)
        ensures
            out@ == seq![
                (r"^duration_predictor\.layers\.3\.", "duration_predictor.proj."),
                (r"(\.norm_[12])\.weight$", "$1.gamma"),
                (r"(\.norm_[12])\.bias$", "$1.beta"),
                (r"(\.norm[12])\.weight$", "$1.gamma"),
                (r"(\.norm[12])\.bias$", "$1.beta"),
                (r"(\.norm)\.weight$", "$1.gamma"),
                (r"(\.norm)\.bias$", "$1.beta"),
            ],
    {
        vec![
            (r"^duration_predictor\.layers\.3\.", "duration_predictor.proj."),
            (r"(\.norm_[12])\.weight$", "$1.gamma"),
            (r"(\.norm_[12])\.bias$", "$1.beta"),
            (r"(\.norm[12])\.weight$", "$1.gamma"),
            (r"(\.norm[12])\.bias$", "$1.beta"),
            (r"(\.norm)\.weight$", "$1.gamma"),
            (r"(\.norm)\.bias$", "$1.beta"),
        ]
    }
}

/// For every row, which of its padded places lie within its length.
pub fn length_mask(lengths: &[usize], padded: usize) -> (out: Vec<Vec<bool>>)
    ensures
        out.len() == lengths.len(),
        forall|b: int| 0 <= b < out.len() ==> (#[trigger] out[b]).len() == padded,
        forall|b: int, i: int|
            0 <= b < out.len() && 0 <= i < padded ==> #[trigger] out[b][i] == (i < lengths[b]),
{
    let mut out: Vec<Vec<bool>> = Vec::new();
    let mut b: usize = 0;
    while b < lengths.len()
        invariant
            b <= lengths.len(),
            out.len() == b,
            forall|k: int| 0 <= k < b ==> (#[trigger] out[k]).len() == padded,
            forall|k: int, i: int|
                0 <= k < b && 0 <= i < padded ==> #[trigger] out[k][i] == (i < lengths[k]),
        decreases lengths.len() - b,
    {
        let mut row: Vec<bool> = Vec::new();
        let length: usize = lengths[b];
        let mut i: usize = 0;
        while i < padded
            invariant
                i <= padded,
                row.len() == i,
                forall|k: int| 0 <= k < i ==> #[trigger] row[k] == (k < length),
            decreases padded - i,
        {
            row.push(i < length);
            i = i + 1;
        }
        out.push(row);
        b = b + 1;
    }
    out
}

/// One row of an alignment: a frame is aligned with the token that it belongs to.
pub open spec fn row_aligned(row: Seq<Vec<bool>>, durations: Seq<usize>, frames: int) -> bool {
    &&& row.len() == frames
    &&& forall|f: int| 0 <= f < frames ==> (#[trigger] row[f]).len() == durations.len()
    &&& forall|f: int, t: int|
        0 <= f < frames && 0 <= t < durations.len() ==> #[trigger] row[f][t] == covers(
            durations,
            t,
            f,
        )
}

fn align_row(durations: &Vec<usize>, frames: usize) -> (out: Vec<Vec<bool>>)
    ensures
        row_aligned(out@, durations@, frames as int),
{
    let mut out: Vec<Vec<bool>> = Vec::new();
    let tokens: usize = durations.len();
    let mut current: usize = 0;
    let mut ended: usize = 0;
    let mut frame: usize = 0;
    assert(durations@.take(0) =~= Seq::<usize>::empty());
    while frame < frames
        invariant
            frame <= frames,
            tokens == durations.len(),
            current <= tokens,
            out.len() == frame,
            ended == start(durations@, current as int),
            ended <= frame,
            forall|f: int| 0 <= f < frame ==> (#[trigger] out[f]).len() == tokens,
            forall|f: int, t: int|
                0 <= f < frame && 0 <= t < tokens ==> #[trigger] out[f][t] == covers(
                    durations@,
                    t,
                    f,
                ),
        decreases frames - frame,
    {
        while current < tokens && durations[current] <= frame - ended
            invariant
                tokens == durations.len(),
                current <= tokens,
                ended == start(durations@, current as int),
                ended <= frame,
            decreases tokens - current,
        {
            proof {
                start_of_next(durations@, current as int);
            }
            ended = ended + durations[current];
            current = current + 1;
        }
        let mut row: Vec<bool> = Vec::new();
        let mut t: usize = 0;
        while t < tokens
            invariant
                t <= tokens,
                row.len() == t,
                forall|k: int| 0 <= k < t ==> #[trigger] row[k] == (k == current),
            decreases tokens - t,
        {
            row.push(t == current);
            t = t + 1;
        }
        proof {
            assert forall|t: int| 0 <= t < tokens implies #[trigger] row[t] == covers(
                durations@,
                t,
                frame as int,
            ) by {
                if current < tokens {
                    start_of_next(durations@, current as int);
                    if t < current {
                        starts_ascend(durations@, t + 1, current as int);
                    } else if t > current {
                        starts_ascend(durations@, current + 1, t);
                    }
                } else {
                    last_start_is_total(durations@);
                    starts_ascend(durations@, t + 1, tokens as int);
                }
            }
        }
        out.push(row);
        frame = frame + 1;
    }
    out
}

/// The hard alignment of integral durations, `[batch, frames, tokens]`.
pub fn durations_to_alignment(durations: &Vec<Vec<usize>>, frames: usize) -> (out: Vec<
    Vec<Vec<bool>>,
>)
    ensures
        out.len() == durations.len(),
        forall|b: int|
            0 <= b < out.len() ==> row_aligned(
                (#[trigger] out[b])@,
                durations[b]@,
                frames as int,
            ),
{
    let mut out: Vec<Vec<Vec<bool>>> = Vec::new();
    let mut b: usize = 0;
    while b < durations.len()
        invariant
            b <= durations.len(),
            out.len() == b,
            forall|k: int|
                0 <= k < b ==> row_aligned(
                    (#[trigger] out[k])@,
                    durations[k]@,
                    frames as int,
                ),
        decreases durations.len() - b,
    {
        out.push(align_row(&durations[b], frames));
        b = b + 1;
    }
    out
}

/// No frame of an alignment is aligned with two tokens, and every frame below the total of the
/// durations is aligned with one.
pub proof fn alignment_is_one_hot(row: Seq<Vec<bool>>, durations: Seq<usize>, frames: int, frame: int)
    requires
        row_aligned(row, durations, frames),
        0 <= frame < frames,
    ensures
        forall|s: int, t: int|
            0 <= s < durations.len() && 0 <= t < durations.len() && #[trigger] row[frame][s]
                && #[trigger] row[frame][t] ==> s == t,
        frame < total(durations) ==> exists|t: int|
            0 <= t < durations.len() && #[trigger] row[frame][t],
{
    assert forall|s: int, t: int|
        0 <= s < durations.len() && 0 <= t < durations.len() && #[trigger] row[frame][s]
            && #[trigger] row[frame][t] implies s == t by {
        assert(covers(durations, s, frame) && covers(durations, t, frame));
        if s < t {
            starts_ascend(durations, s + 1, t);
        } else if t < s {
            starts_ascend(durations, t + 1, s);
        }
    }
    if frame < total(durations) {
        crate::expansion::frames_follow_tokens(durations, frame);
        let t = choose|t: int| covers(durations, t, frame);
        assert(row[frame][t]);
    }
}

/// The spectrogram has a row for each row of the batch, a frame for each frame that the longest
/// row of durations asks for, and the bins of the configuration: the decoder reads that many
/// frames, keeps them, and projects each.
pub proof fn spectrogram_follows_expansion<T>(
    config: AlignTtsModel,
    encoded: Seq<Vec<Vec<T>>>,
    durations: Seq<Vec<usize>>,
    fill: T,
    expanded: Expanded<T>,
)
    requires
        aligned_with(encoded, durations),
        expanded.expands(encoded, durations, fill),
    ensures
        expanded.values.len() == durations.len(),
        expanded.frames == longest(durations),
        forall|b: int, c: int|
            0 <= b < encoded.len() && 0 <= c < encoded[b].len() ==> (
            #[trigger] expanded.values[b][c]).len() == longest(durations),
        config.built().decoder.decodes(
            config.built().postnet,
            expanded.frames as int,
            config.out_channels,
        ),
{
    assert forall|b: int, c: int| 0 <= b < encoded.len() && 0 <= c < encoded[b].len() implies (
    #[trigger] expanded.values[b][c]).len() == longest(durations) by {
        assert(row_expanded(
            expanded.values[b]@,
            encoded[b]@,
            durations[b]@,
            fill,
            expanded.frames as int,
        ));
    }
}

/// The steps before a given one are counted: the count is that of the leading steps of an ascending
/// row.
proof fn counts_mark_the_place(steps: Seq<u64>, step: u64, passed: int)
    requires
        0 <= passed <= steps.len(),
        forall|i: int| 0 <= i < passed ==> #[trigger] steps[i] < step,
        forall|i: int| passed <= i < steps.len() ==> step <= #[trigger] steps[i],
    ensures
        count_before(steps, step) == passed,
    decreases steps.len(),
{
    if steps.len() > 0 {
        let front = steps.drop_last();
        if passed == steps.len() {
            assert forall|i: int| 0 <= i < passed - 1 implies #[trigger] front[i] < step by {
                assert(steps[i] < step);
            }
            counts_mark_the_place(front, step, passed - 1);
        } else {
            assert forall|i: int| 0 <= i < passed implies #[trigger] front[i] < step by {
                assert(steps[i] < step);
            }
            assert forall|i: int| passed <= i < front.len() implies step <= #[trigger] front[i] by {
                assert(step <= steps[i]);
            }
            counts_mark_the_place(front, step, passed);
        }
    }
}

/// A phase lasts from the step after its start to the start of the next: the first has no start of
/// its own, and the last no end. Without starts, all training is joint.
pub proof fn phases_last_from_start_to_start(
    training: &AlignTtsTrainingConfig,
    step: u64,
    phase: AcousticTrainingPhase,
)
    requires
        training@.fault() is None,
        call_ensures(AlignTtsTrainingConfig::phase, (training, step), phase),
    ensures
        training.phase_start_steps is None ==> phase == AcousticTrainingPhase::Joint,
        training.phase_start_steps matches Some(starts) ==> {
            &&& phase == AcousticTrainingPhase::Alignment <==> step <= starts@[0]
            &&& phase == AcousticTrainingPhase::Decoder <==> starts@[0] < step <= starts@[1]
            &&& phase == AcousticTrainingPhase::Acoustic <==> starts@[1] < step <= starts@[2]
            &&& phase == AcousticTrainingPhase::DurationPredictor <==> starts@[2] < step
                <= starts@[3]
            &&& phase == AcousticTrainingPhase::Joint <==> starts@[3] < step
        },
{
    if let Some(starts) = training.phase_start_steps {
        let steps = starts@;
        assert(steps.len() == 4 && ascending(steps));
        assert(steps[0] <= steps[1] && steps[1] <= steps[2] && steps[2] <= steps[3]);
        let passed: int = if step <= steps[0] {
            0
        } else if step <= steps[1] {
            1
        } else if step <= steps[2] {
            2
        } else if step <= steps[3] {
            3
        } else {
            4
        };
        counts_mark_the_place(steps, step, passed);
    }
}

/// A training step predicts durations from the phase of the duration predictor on, and spectrograms
/// from the phase of the decoder on. Only in the phase of the decoder are encodings cut off from
/// what is learned of them.
pub proof fn phases_decide_what_is_predicted(
    config: &AlignTtsConfig,
    batch: &TrainingBatch,
    global_step: u64,
    phase: AcousticTrainingPhase,
    plan: TrainingPlan,
)
    requires
        call_ensures(AlignTtsTrainingConfig::phase, (&config.training, global_step), phase),
        call_ensures(
            AlignTtsConfig::plan_training,
            (config, batch, global_step),
            Ok::<TrainingPlan, String>(plan),
        ),
    ensures
        plan.phase == phase,
        plan.predict_durations <==> phase.place() >= AcousticTrainingPhase::DurationPredictor.place(),
        plan.predict_durations <==> phase == AcousticTrainingPhase::DurationPredictor || phase
            == AcousticTrainingPhase::Joint,
        plan.predict_mel <==> phase != AcousticTrainingPhase::Alignment,
        plan.predict_mel <==> phase.place() >= AcousticTrainingPhase::Decoder.place(),
        plan.detach_decoder_input <==> phase == AcousticTrainingPhase::Decoder,
{
}

/// What is predicted is never given up again: a later step predicts all that an earlier one did.
pub proof fn predictions_accumulate(
    config: &AlignTtsConfig,
    batch: &TrainingBatch,
    early: u64,
    late: u64,
    first: TrainingPlan,
    then: TrainingPlan,
)
    requires
        early <= late,
        call_ensures(
            AlignTtsConfig::plan_training,
            (config, batch, early),
            Ok::<TrainingPlan, String>(first),
        ),
        call_ensures(
            AlignTtsConfig::plan_training,
            (config, batch, late),
            Ok::<TrainingPlan, String>(then),
        ),
    ensures
        first.predict_durations ==> then.predict_durations,
        first.predict_mel ==> then.predict_mel,
        first.predict_durations ==> first.predict_mel,
        first.phase.place() <= then.phase.place(),
{
    phases_ascend(config@.training, early, late);
}

/// A batch is accepted exactly where it is not empty, its target goes with it and with the model,
/// every row has its lengths within the padding and a frame for each token at least, its ids name
/// symbols, and the positional table reaches over the target where a spectrogram is predicted.
pub proof fn batches_are_accepted_on_their_merits(
    config: &AlignTtsConfig,
    batch: &TrainingBatch,
    global_step: u64,
    phase: AcousticTrainingPhase,
    out: Result<TrainingPlan, String>,
)
    requires
        batch.tokens.wf(),
        call_ensures(AlignTtsTrainingConfig::phase, (&config.training, global_step), phase),
        call_ensures(AlignTtsConfig::plan_training, (config, batch, global_step), out),
    ensures
        out is Ok <==> {
            let frames = batch.target_shape@[1];
            &&& batch.tokens.batch > 0 && batch.tokens.tokens > 0 && frames > 0
            &&& batch.target_shape@[0] == batch.tokens.batch
            &&& batch.target_shape@[2] == config.out_channels
            &&& batch.token_lengths.len() == batch.tokens.batch
            &&& batch.mel_lengths.len() == batch.tokens.batch
            &&& forall|b: int|
                0 <= b < batch.tokens.batch ==> 0 < #[trigger] batch.token_lengths@[b]
                    <= batch.mel_lengths@[b] && batch.token_lengths@[b] <= batch.tokens.tokens
                    && batch.mel_lengths@[b] <= frames
            &&& exists|i: int| 0 <= i < batch.tokens.ids.len() && #[trigger] batch.tokens.ids@[i] >= 0
            &&& forall|i: int|
                0 <= i < batch.tokens.ids.len() ==> #[trigger] batch.tokens.ids@[i]
                    < config.num_chars
            &&& phase == AcousticTrainingPhase::Alignment || frames <= 5_000
        },
{
    if batch.tokens.batch > 0 && batch.tokens.tokens > 0 {
        assert(batch.tokens.ids.len() > 0) by (nonlinear_arith)
            requires
                batch.tokens.ids.len() == batch.tokens.batch * batch.tokens.tokens,
                batch.tokens.batch > 0,
                batch.tokens.tokens > 0,
        ;
        crate::tokens::vocabularies_hold_the_largest(batch.tokens.ids@, config.num_chars as int);
        if batch.token_lengths.len() == batch.tokens.batch && batch.mel_lengths.len()
            == batch.tokens.batch {
            let frames = batch.target_shape@[1] as int;
            let rows = lengths_within(batch.token_lengths@, batch.tokens.tokens as int)
                && lengths_within(batch.mel_lengths@, frames) && alignable(
                batch.token_lengths@,
                batch.mel_lengths@,
            );
            if rows {
                assert forall|b: int| 0 <= b < batch.tokens.batch implies 0
                    < #[trigger] batch.token_lengths@[b] <= batch.mel_lengths@[b]
                    && batch.token_lengths@[b] <= batch.tokens.tokens && batch.mel_lengths@[b]
                    <= frames by {
                    assert(0 < batch.mel_lengths@[b] <= frames);
                }
            } else if forall|b: int|
                0 <= b < batch.tokens.batch ==> 0 < #[trigger] batch.token_lengths@[b]
                    <= batch.mel_lengths@[b] && batch.token_lengths@[b] <= batch.tokens.tokens
                    && batch.mel_lengths@[b] <= frames {
                assert forall|b: int| 0 <= b < batch.mel_lengths.len() implies 0
                    < #[trigger] batch.mel_lengths@[b] <= frames by {
                    assert(0 < batch.token_lengths@[b]);
                }
                assert(lengths_within(batch.token_lengths@, batch.tokens.tokens as int));
                assert(lengths_within(batch.mel_lengths@, frames));
                assert(alignable(batch.token_lengths@, batch.mel_lengths@));
            }
        }
    }
}

/// Training parameters are valid exactly where there are four starts, none before the one before
/// it, or no starts at all, and every weight is finite and not negative.
pub proof fn training_is_valid_on_its_merits(
    training: &AlignTtsTrainingConfig,
    out: Result<(), AlignTtsError>,
)
    requires
        call_ensures(AlignTtsTrainingConfig::validate, (training,), out),
    ensures
        out is Ok <==> {
            &&& training.phase_start_steps matches Some(starts) ==> starts.len() == 4
                && starts@[0] <= starts@[1] <= starts@[2] <= starts@[3]
            &&& training.ssim_alpha.finite() && training.ssim_alpha.rank() >= 0
            &&& training.spec_loss_alpha.finite() && training.spec_loss_alpha.rank() >= 0
            &&& training.duration_loss_alpha.finite() && training.duration_loss_alpha.rank() >= 0
            &&& training.mdn_alpha.finite() && training.mdn_alpha.rank() >= 0
        },
{
    if let Some(starts) = training.phase_start_steps {
        let steps = starts@;
        if steps.len() == 4 {
            if ascending(steps) {
                assert(steps[0] <= steps[1] && steps[1] <= steps[2] && steps[2] <= steps[3]);
            }
            if steps[0] <= steps[1] <= steps[2] <= steps[3] {
                assert forall|i: int, j: int| 0 <= i <= j < steps.len() implies steps[i]
                    <= steps[j] by {
                    assert(i == 0 || i == 1 || i == 2 || i == 3);
                    assert(j == 0 || j == 1 || j == 2 || j == 3);
                }
            }
        }
    }
}

/// Parameters are valid exactly where no dimension is empty, durations are as wide as encodings, the
/// channels are even and shared evenly by the heads, and the length scale is a positive number.
pub proof fn align_configs_are_valid_on_their_merits(
    config: &AlignTtsConfig,
    out: Result<(), AlignTtsError>,
)
    requires
        call_ensures(AlignTtsConfig::validate, (config,), out),
    ensures
        out is Ok <==> {
            &&& config.num_chars > 0 && config.out_channels > 0 && config.hidden_channels > 0
            &&& config.hidden_channels_dp == config.hidden_channels
            &&& config.hidden_channels % 2 == 0
            &&& config.encoder.num_heads > 0 && config.hidden_channels % config.encoder.num_heads
                == 0
            &&& config.decoder.num_heads > 0 && config.hidden_channels % config.decoder.num_heads
                == 0
            &&& config.length_scale.finite() && config.length_scale.rank() > 0
        },
{
}

/// What is read of a document is what it says: each size from the argument of its name, the length
/// scale, and the weights of the losses, which are one where they are left out.
pub proof fn align_configs_are_read_from_documents(root: &Json, config: AlignTtsConfig)
    requires
        call_ensures(
            AlignTtsConfig::from_json_value,
            (root,),
            Ok::<AlignTtsConfig, AlignTtsError>(config),
        ),
    ensures
        root.field("model"@) matches Some(Json::Text(name)) && (name@ == "align_tts"@ || name@
            == "align-tts"@),
        root.field("model_args"@) matches Some(args) && {
            &&& args is Object
            &&& args.field("encoder_type"@) matches Some(Json::Text(kind)) && kind@
                == "fftransformer"@
            &&& args.field("decoder_type"@) matches Some(Json::Text(kind)) && kind@
                == "fftransformer"@
            &&& args.field("out_channels"@) matches Some(Json::Number(number)) && number.unsigned
                == Some(config.out_channels as u64)
            &&& args.field("hidden_channels"@) matches Some(Json::Number(number))
                && number.unsigned == Some(config.hidden_channels as u64)
            &&& args.field("hidden_channels_dp"@) matches Some(Json::Number(number))
                && number.unsigned == Some(config.hidden_channels_dp as u64)
            &&& args.field("length_scale"@) matches Some(Json::Number(number)) && number.value
                == config.length_scale
            &&& args.field("num_chars"@) matches Some(Json::Number(number)) ==> (
            number.unsigned matches Some(count) ==> count == config.num_chars)
            &&& args.field("encoder_params"@) matches Some(stack) && config.encoder
                == FeedForwardTransformerConfig::of(stack)
            &&& args.field("decoder_params"@) matches Some(stack) && config.decoder
                == FeedForwardTransformerConfig::of(stack)
        },
        config.max_duration == 75,
        config.max_output_frames == 20_000,
        config.hidden_channels > 0 && config.out_channels > 0 && config.num_chars > 0,
        root.field("ssim_alpha"@) is None ==> config.training.ssim_alpha.bits
            == 0x3FF0_0000_0000_0000,
        root.field("ssim_alpha"@) matches Some(value) ==> (value matches Json::Number(number)
            && number.value == config.training.ssim_alpha),
        root.field("spec_loss_alpha"@) is None ==> config.training.spec_loss_alpha.bits
            == 0x3FF0_0000_0000_0000,
        root.field("spec_loss_alpha"@) matches Some(value) ==> (value matches Json::Number(number)
            && number.value == config.training.spec_loss_alpha),
        root.field("dur_loss_alpha"@) is None ==> config.training.duration_loss_alpha.bits
            == 0x3FF0_0000_0000_0000,
        root.field("dur_loss_alpha"@) matches Some(value) ==> (value matches Json::Number(number)
            && number.value == config.training.duration_loss_alpha),
        root.field("mdn_alpha"@) is None ==> config.training.mdn_alpha.bits
            == 0x3FF0_0000_0000_0000,
        root.field("mdn_alpha"@) matches Some(value) ==> (value matches Json::Number(number)
            && number.value == config.training.mdn_alpha),
{
    assert(config.training@ == training_of(*root));
    reveal_strlit("align_tts");
    reveal_strlit("align-tts");
    assert("align_tts"@.len() == 9 && "align-tts"@.len() == 9);
    assert(root.field("model"@) is Some);
}

proof fn steps_are_read_in_order(items: Seq<Json>)
    requires
        steps_of(items) is Ok,
    ensures
        steps_of(items)->Ok_0.len() == items.len(),
        forall|i: int|
            0 <= i < items.len() ==> (#[trigger] items[i]).unsigned_value() == Some(
                steps_of(items)->Ok_0[i],
            ),
    decreases items.len(),
{
    if items.len() > 0 {
        let front = items.drop_last();
        steps_are_read_in_order(front);
        assert forall|i: int| 0 <= i < items.len() implies (#[trigger] items[i]).unsigned_value()
            == Some(steps_of(items)->Ok_0[i]) by {
            if i < front.len() {
                assert(front[i] == items[i]);
            }
        }
    }
}

/// The starts of the phases are those of a document, in its order; a document that leaves them out,
/// or says that there are none, gives none.
pub proof fn phase_starts_are_read_in_order(root: &Json, config: AlignTtsTrainingConfig)
    requires
        call_ensures(
            AlignTtsTrainingConfig::from_json_value,
            (root,),
            Ok::<AlignTtsTrainingConfig, AlignTtsError>(config),
        ),
    ensures
        config.phase_start_steps is None <==> root.field("phase_start_steps"@) is None
            || root.field("phase_start_steps"@) == Some(Json::Null),
        config.phase_start_steps matches Some(starts) ==> (root.field(
            "phase_start_steps"@,
        ) matches Some(Json::List(items)) && items.len() == 4 && starts.len() == 4 && forall|i: int|
            0 <= i < 4 ==> ((#[trigger] items@[i]) matches Json::Number(number) && number.unsigned
                == Some(starts@[i]))),
{
    if let Some(Json::List(items)) = root.field("phase_start_steps"@) {
        steps_are_read_in_order(items@);
        assert(config@.phase_start_steps == Some(steps_of(items@)->Ok_0));
        assert forall|i: int| 0 <= i < 4 implies ((#[trigger] items@[i]) matches Json::Number(
            number,
        ) && number.unsigned == Some(config.phase_start_steps.unwrap()@[i])) by {
            assert(items@[i].unsigned_value() == Some(steps_of(items@)->Ok_0[i]));
        }
    }
}

/// The network goes from symbols to bins: both transformers work on the hidden channels, with the
/// heads, widths and depths of their own parameters, durations come out one per token, and densities
/// with a mean and a scale for each bin.
pub proof fn align_layers_fit(config: &AlignTtsConfig, topology: AlignTtsTopology)
    requires
        config@.buildable(),
        call_ensures(
            AlignTtsConfig::topology,
            (config,),
            Ok::<AlignTtsTopology, AlignTtsError>(topology),
        ),
    ensures
        ({
            let hidden = config.hidden_channels;
            &&& topology.num_chars == config.num_chars
            &&& topology.hidden_channels == hidden
            &&& topology.encoder.channels == hidden && topology.decoder.channels == hidden
            &&& topology.encoder.num_heads == config.encoder.num_heads
            &&& topology.decoder.num_heads == config.decoder.num_heads
            &&& topology.encoder.num_layers == config.encoder.num_layers
            &&& topology.decoder.num_layers == config.decoder.num_layers
            &&& topology.encoder.conv1.channels_out == config.encoder.hidden_channels_ffn
            &&& topology.decoder.conv1.channels_out == config.decoder.hidden_channels_ffn
            &&& topology.encoder.decodes(topology.mod_layer, 0, hidden)
            &&& topology.decoder.decodes(topology.postnet, 0, config.out_channels)
            &&& topology.duration_1.channels_in == hidden
            &&& topology.duration_1.channels_out == topology.duration_2.channels_in
                == config.hidden_channels_dp
            &&& topology.duration_2.channels_out == topology.duration_3.channels_in
                == config.hidden_channels_dp
            &&& topology.duration_3.channels_out == topology.duration_projection.channels_in
                == config.hidden_channels_dp
            &&& topology.duration_projection.channels_out == 1
            &&& topology.duration_1.kernel_size == 4 && topology.duration_2.kernel_size == 3
                && topology.duration_3.kernel_size == 1
            &&& topology.duration_1.output_length(0) == 0 && topology.duration_2.output_length(0)
                == 0 && topology.duration_3.output_length(0) == 0
                && topology.duration_projection.output_length(0) == 0
            &&& topology.mdn_1.channels_in == hidden && topology.mdn_1.channels_out == hidden
            &&& topology.mdn_2.channels_in == hidden && topology.mdn_2.channels_out
                == config.out_channels * 2
            &&& topology.mdn_1.kernel_size == 1 && topology.mdn_2.kernel_size == 1
        }),
{
}

/// A batch is synthesized exactly where it has tokens that name symbols, a positive length scale,
/// and a duration for each token if for any.
pub proof fn align_batches_are_accepted_on_their_merits(
    config: &AlignTtsConfig,
    tokens: &TokenBatch,
    length_scale: Double,
    durations: &Option<[usize; 2]>,
    ids_validated: bool,
    out: Result<(), AlignTtsError>,
)
    requires
        tokens.wf(),
        call_ensures(
            AlignTtsConfig::check_inference,
            (config, tokens, length_scale, durations, ids_validated),
            out,
        ),
    ensures
        out is Ok <==> {
            &&& length_scale.finite() && length_scale.rank() > 0
            &&& tokens.batch > 0 && tokens.tokens > 0
            &&& ids_validated || ((exists|i: int|
                0 <= i < tokens.ids.len() && #[trigger] tokens.ids@[i] >= 0) && forall|i: int|
                0 <= i < tokens.ids.len() ==> #[trigger] tokens.ids@[i] < config.num_chars)
            &&& durations matches Some(shape) ==> shape@[0] == tokens.batch && shape@[1]
                == tokens.tokens
        },
{
    if tokens.batch > 0 && tokens.tokens > 0 {
        assert(tokens.ids.len() > 0) by (nonlinear_arith)
            requires
                tokens.ids.len() == tokens.batch * tokens.tokens,
                tokens.batch > 0,
                tokens.tokens > 0,
        ;
        crate::tokens::vocabularies_hold_the_largest(tokens.ids@, config.num_chars as int);
        if let Some(shape) = durations {
            assert((shape@ =~= seq![tokens.batch, tokens.tokens]) <==> shape@[0] == tokens.batch
                && shape@[1] == tokens.tokens);
        }
    }
}

/// A mask covers the frames below the length of its row, and no others.
pub proof fn masks_cover_lengths(
    lengths: &[usize],
    padded: usize,
    mask: Vec<Vec<bool>>,
    row: int,
    frame: int,
)
    requires
        call_ensures(length_mask, (lengths, padded), mask),
        0 <= row < lengths@.len(),
        0 <= frame < padded,
    ensures
        mask.len() == lengths@.len(),
        mask@[row]@.len() == padded,
        mask@[row]@[frame] <==> frame < lengths@[row],
{
}

/// A frame is aligned with a token exactly where the durations before the token end no later, and
/// those with it later.
pub proof fn alignments_follow_durations(
    durations: &Vec<Vec<usize>>,
    frames: usize,
    alignment: Vec<Vec<Vec<bool>>>,
    row: int,
    frame: int,
    token: int,
)
    requires
        call_ensures(durations_to_alignment, (durations, frames), alignment),
        0 <= row < durations.len(),
        0 <= frame < frames,
        0 <= token < durations@[row].len(),
    ensures
        alignment.len() == durations.len(),
        alignment@[row].len() == frames,
        alignment@[row]@[frame]@[token] <==> total(durations@[row]@.take(token)) <= frame < total(
            durations@[row]@.take(token + 1),
        ),
{
    assert(row_aligned(alignment@[row]@, durations@[row]@, frames as int));
}

/// The document gives the weight, or leaves it out where it is one.
pub open spec fn says_weight(root: Json, key: Seq<char>, weight: Double) -> bool {
    if root.field(key) is None {
        weight.bits == 0x3FF0_0000_0000_0000
    } else {
        says_number(root, key, weight)
    }
}

/// The document lists the starts of phases, or has none.
pub open spec fn says_phase_starts(root: Json, starts: Option<Seq<u64>>) -> bool {
    match starts {
        None => root.field("phase_start_steps"@) is None || root.field("phase_start_steps"@)
            == Some(Json::Null),
        Some(steps) => root.field("phase_start_steps"@) matches Some(Json::List(items))
            && items.len() == steps.len() && forall|i: int|
            0 <= i < steps.len() ==> ((#[trigger] items@[i]) matches Json::Number(number)
                && number.unsigned == Some(steps[i])),
    }
}

/// A document gives the parameters of a training.
pub open spec fn says_training(root: Json, training: AlignTtsTrainingModel) -> bool {
    &&& says_phase_starts(root, training.phase_start_steps)
    &&& says_weight(root, "ssim_alpha"@, training.ssim_alpha)
    &&& says_weight(root, "spec_loss_alpha"@, training.spec_loss_alpha)
    &&& says_weight(root, "dur_loss_alpha"@, training.duration_loss_alpha)
    &&& says_weight(root, "mdn_alpha"@, training.mdn_alpha)
}

/// A document gives the parameters of a model, each under its name, asks for no speakers, and
/// leaves the limits as they are.
pub open spec fn says_align(root: Json, config: AlignTtsModel) -> bool {
    &&& says_text(root, "model"@, "align_tts"@) || says_text(root, "model"@, "align-tts"@)
    &&& root.field("model_args"@) matches Some(args) && {
        &&& args is Object
        &&& says_text(args, "encoder_type"@, "fftransformer"@)
        &&& says_text(args, "decoder_type"@, "fftransformer"@)
        &&& !says_flag(args, "use_speaker_embedding"@, true) && !says_flag(
            root,
            "use_speaker_embedding"@,
            true,
        )
        &&& !says_flag(args, "use_d_vector_file"@, true) && !says_flag(
            root,
            "use_d_vector_file"@,
            true,
        )
        &&& says_characters(root, args, config.num_chars)
        &&& says_size(args, "out_channels"@, config.out_channels)
        &&& says_size(args, "hidden_channels"@, config.hidden_channels)
        &&& says_size(args, "hidden_channels_dp"@, config.hidden_channels_dp)
        &&& args.field("encoder_params"@) matches Some(value) && says_transformer(
            value,
            config.encoder,
        )
        &&& args.field("decoder_params"@) matches Some(value) && says_transformer(
            value,
            config.decoder,
        )
        &&& says_number(args, "length_scale"@, config.length_scale)
    }
    &&& says_training(root, config.training)
    &&& config.max_duration == 75 && config.max_output_frames == 20_000
}

proof fn steps_listed_are_read(items: Seq<Json>, steps: Seq<u64>)
    requires
        items.len() == steps.len(),
        forall|i: int|
            0 <= i < steps.len() ==> (#[trigger] items[i]).unsigned_value() == Some(steps[i]),
    ensures
        steps_of(items) == Ok::<Seq<u64>, Seq<char>>(steps),
    decreases items.len(),
{
    if items.len() > 0 {
        let front = items.drop_last();
        let fewer = steps.drop_last();
        assert forall|i: int| 0 <= i < fewer.len() implies (#[trigger] front[i]).unsigned_value()
            == Some(fewer[i]) by {
            assert(items[i] == front[i]);
        }
        steps_listed_are_read(front, fewer);
        assert(items[items.len() - 1].unsigned_value() == Some(steps[items.len() - 1]));
        assert(fewer.push(steps.last()) =~= steps);
    } else {
        assert(steps =~= Seq::<u64>::empty());
    }
}

proof fn training_is_said(root: Json, training: AlignTtsTrainingModel)
    ensures
        training_fault(root) is None && training_of(root) == training <==> says_training(
            root,
            training,
        ) && training.fault() is None,
{
    if training_fault(root) is None && training_of(root) == training {
        if let Some(Json::List(items)) = root.field("phase_start_steps"@) {
            steps_are_read_in_order(items@);
            let steps = steps_of(items@)->Ok_0;
            assert(training.phase_start_steps == Some(steps));
            assert forall|i: int| 0 <= i < steps.len() implies ((
            #[trigger] items@[i]) matches Json::Number(number) && number.unsigned == Some(
                steps[i],
            )) by {
                assert(items@[i].unsigned_value() == Some(steps[i]));
            }
        }
        assert(says_training(root, training));
    }
    if says_training(root, training) && training.fault() is None {
        if let Some(steps) = training.phase_start_steps {
            if let Some(Json::List(items)) = root.field("phase_start_steps"@) {
                assert forall|i: int| 0 <= i < steps.len() implies (
                #[trigger] items@[i]).unsigned_value() == Some(steps[i]) by {}
                steps_listed_are_read(items@, steps);
            }
        }
        assert(training_of(root) =~= training);
    }
}

/// What is read of the training is what the document says; and where it says a valid training, it
/// is read.
pub proof fn training_documents_are_read(
    root: &Json,
    expected: &AlignTtsTrainingConfig,
    valid: Result<(), AlignTtsError>,
    out: Result<AlignTtsTrainingConfig, AlignTtsError>,
)
    requires
        call_ensures(AlignTtsTrainingConfig::from_json_value, (root,), out),
        call_ensures(AlignTtsTrainingConfig::validate, (expected,), valid),
    ensures
        out matches Ok(config) ==> says_training(*root, config@),
        out matches Ok(config) ==> (config@ == expected@ ==> valid is Ok),
        valid is Ok && says_training(*root, expected@) ==> (out matches Ok(config) && config@
            == expected@),
        out matches Err(error) ==> error is InvalidConfig,
{
    training_is_said(*root, expected@);
    if let Ok(config) = out {
        training_is_said(*root, config@);
    }
}

/// What is read of a document is what it says; and where it says all that belongs to a valid
/// model, with valid stacks and a valid training, it is read.
pub proof fn align_documents_are_read(
    root: &Json,
    expected: &AlignTtsConfig,
    label: &str,
    valid: Result<(), AlignTtsError>,
    encoder: Result<(), FastPitchError>,
    decoder: Result<(), FastPitchError>,
    training: Result<(), AlignTtsError>,
    out: Result<AlignTtsConfig, AlignTtsError>,
)
    requires
        call_ensures(AlignTtsConfig::from_json_value, (root,), out),
        call_ensures(AlignTtsConfig::validate, (expected,), valid),
        call_ensures(FeedForwardTransformerConfig::validate, (&expected.encoder, label), encoder),
        call_ensures(FeedForwardTransformerConfig::validate, (&expected.decoder, label), decoder),
        call_ensures(AlignTtsTrainingConfig::validate, (&expected.training,), training),
    ensures
        out matches Ok(config) ==> says_align(*root, config@),
        out matches Ok(config) ==> (config@ == expected@ ==> valid is Ok && encoder is Ok
            && decoder is Ok && training is Ok),
        valid is Ok && encoder is Ok && decoder is Ok && training is Ok && says_align(
            *root,
            expected@,
        ) ==> (out matches Ok(config) && config@ == expected@),
        out matches Err(error) ==> error is InvalidConfig,
{
    if out is Ok || says_align(*root, expected@) {
        reveal_strlit("align_tts");
        reveal_strlit("align-tts");
        assert("align_tts"@.len() == 9 && "align-tts"@.len() == 9);
        let args = root.field("model_args"@)->0;
        counting_is_saying(*root, args);
        align_counting_agrees(*root, args);
        let first_stack = args.field("encoder_params"@)->0;
        let second_stack = args.field("decoder_params"@)->0;
        if let Ok(config) = out {
            training_is_said(*root, config@.training);
            transformers_are_said(first_stack, "encoder"@, config@.encoder);
            transformers_are_said(second_stack, "decoder"@, config@.decoder);
            assert(says_characters(*root, args, config@.num_chars));
            assert(says_align(*root, config@));
        }
        if valid is Ok && encoder is Ok && decoder is Ok && training is Ok && says_align(
            *root,
            expected@,
        ) {
            training_is_said(*root, expected@.training);
            transformers_are_said(first_stack, "encoder"@, expected@.encoder);
            transformers_are_said(second_stack, "decoder"@, expected@.decoder);
            assert(align_model_of(*root) =~= expected@);
            assert(align_fault(*root) is None);
        }
    }
}

proof fn align_counting_agrees(root: Json, args: Json)
    ensures
        forall|count: usize|
            num_chars_of(args, align_vocabulary_of(root)) == Ok::<usize, Seq<char>>(count)
                <==> #[trigger] says_characters(root, args, count),
{
    counting_is_saying(root, args);
    assert(align_vocabulary_of(root) is Ok <==> published_vocabulary_size_of(root) is Ok);
    assert(align_vocabulary_of(root) is Ok ==> align_vocabulary_of(root)
        == published_vocabulary_size_of(root));
}

/// An error says of what kind it is, and then its reason.
pub proof fn align_errors_say_their_kind(error: &AlignTtsError, out: String)
    requires
        call_ensures(AlignTtsError::describe, (error,), out),
    ensures
        error matches AlignTtsError::InvalidConfig(message) ==> out@ == "invalid Align-TTS config: "@ + message@,
        error matches AlignTtsError::InvalidInput(message) ==> out@ == "invalid Align-TTS input: "@ + message@,
        error matches AlignTtsError::Checkpoint(message) ==> out@ == "unable to load Align-TTS checkpoint: "@ + message@,
{
}

/// The model expands as durations say, within its own limit.
pub proof fn align_expands_within_bounds<T: Copy>(
    config: &AlignTtsConfig,
    encoded: &Vec<Vec<Vec<T>>>,
    durations: &Vec<Vec<usize>>,
    fill: T,
    plain: Result<Expanded<T>, SpeedySpeechError>,
    out: Result<Expanded<T>, AlignTtsError>,
)
    requires
        aligned_with(encoded@, durations@),
        call_ensures(
            expand_by_durations::<T>,
            (encoded, durations, fill, config.max_output_frames),
            plain,
        ),
        call_ensures(AlignTtsConfig::expand::<T>, (config, encoded, durations, fill), out),
    ensures
        out is Ok <==> plain is Ok,
        out matches Ok(expanded) ==> expanded.expands(encoded@, durations@, fill),
        out matches Err(error) ==> error is InvalidInput,
{
}

/// Frames attend within the same bounds: the whole part of the latest instant counts them.
pub proof fn align_attends_within_bounds(
    config: &AlignTtsConfig,
    starts: &Vec<Vec<Double>>,
    ends: &Vec<Vec<Double>>,
    lengths: &Vec<Double>,
    latest: Double,
    frames: usize,
    out: Result<Attention, AlignTtsError>,
)
    requires
        paired(starts@, ends@),
        call_ensures(Double::to_usize, (latest,), frames),
        call_ensures(AlignTtsConfig::attend, (config, starts, ends, lengths, latest), out),
    ensures
        out is Ok <==> 0 < frames <= config.max_output_frames && frames <= 5_000,
        out matches Ok(attention) ==> attention.frames == frames && attention.follows(
            starts@,
            ends@,
            lengths@,
            latest,
        ),
        out matches Err(error) ==> error is InvalidInput,
{
}

/// The spectrogram has the batch, the frames and the bins; durations have one value per token, and
/// an alignment one per frame and token.
pub proof fn align_shapes_follow_batches(
    config: &AlignTtsConfig,
    tokens: &TokenBatch,
    frames: usize,
    out: AlignTtsShapes,
)
    requires
        call_ensures(AlignTtsConfig::output_shapes, (config, tokens, frames), out),
    ensures
        out.mel@[0] == tokens.batch && out.mel@[1] == frames && out.mel@[2] == config.out_channels,
        out.durations@[0] == tokens.batch && out.durations@[1] == tokens.tokens,
        out.alignment@[0] == tokens.batch && out.alignment@[1] == frames && out.alignment@[2]
            == tokens.tokens,
{
}

/// A checkpoint fits exactly where nothing is missing, nothing failed, and nothing learned went
/// unused.
pub proof fn align_checkpoints_fit_exactly(report: &LoadReport, out: Result<(), AlignTtsError>)
    requires
        call_ensures(AlignTtsConfig::check_checkpoint, (report,), out),
    ensures
        out is Ok <==> report.missing.len() == 0 && report.errors.len() == 0 && (forall|i: int|
            0 <= i < report.unused.len() ==> !Subtree::Learned.contains(
                #[trigger] report.unused@[i]@,
            )),
        out matches Err(error) ==> error is Checkpoint,
{
    crate::checkpoint::fitting_leaves_nothing(*report, Subtree::Learned);
}

/// The last layer of the duration predictor gets its name; the weight of a normalization becomes
/// its scale, and the bias its shift.
pub proof fn align_names_are_changed(out: Vec<(&'static str, &'static str)>)
    requires
        call_ensures(AlignTtsConfig::key_remappings, (), out),
    ensures
        out.len() == 7,
        out@[0].0@ == r"^duration_predictor\.layers\.3\."@ && out@[0].1@
            == "duration_predictor.proj."@,
        out@[1].0@ == r"(\.norm_[12])\.weight$"@ && out@[2].0@ == r"(\.norm_[12])\.bias$"@,
        out@[3].0@ == r"(\.norm[12])\.weight$"@ && out@[4].0@ == r"(\.norm[12])\.bias$"@,
        out@[5].0@ == r"(\.norm)\.weight$"@ && out@[6].0@ == r"(\.norm)\.bias$"@,
        forall|i: int|
            1 <= i < 7 ==> (#[trigger] out@[i]).1@ == if i % 2 == 1 {
                "$1.gamma"@
            } else {
                "$1.beta"@
            },
{
}

} // verus!
