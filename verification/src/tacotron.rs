//! Tacotron 2: an autoregressive acoustic model with a location-sensitive attention.
//!
//! The decoder emits a group of frames per step until its stop probability exceeds a
//! threshold. A decoder that reaches its step limit has lost its place in the text: what it
//! emitted has a plausible size and no meaning, so that outcome is an error.

use vstd::prelude::*;

use crate::checkpoint::{LoadReport, Subtree};
use crate::double::Double;
use crate::json::{first, unless};
use crate::layers::{centered, centered_conv, Conv, EmbeddingTable, LinearLayer};
use crate::text::{
    around_number, around_text, decimal, decimal_text, shape_string, shape_text, signed_decimal,
    signed_decimal_text, with_text,
};
use crate::tokens::{highest, highest_within, vocabularies_hold_the_largest, TokenBatch};

verus! {

pub const ENCODER_CONVOLUTIONS: usize = 3;

pub const POSTNET_CONVOLUTIONS: usize = 5;

pub const RNN_CHANNELS: usize = 1024;

pub const PRENET_CHANNELS: usize = 256;

pub const ATTENTION_CHANNELS: usize = 128;

pub const LOCATION_FILTERS: usize = 32;

pub const LOCATION_KERNEL: usize = 31;

pub const CONVOLUTION_KERNEL: usize = 5;

pub const POSTNET_CHANNELS: usize = 512;

/// How a decoder came to its end.
#[derive(Debug, Clone, Copy, PartialEq, Eq, Structural)]
pub enum TacotronTermination {
    StopToken,
    MaximumSteps,
}

#[derive(Debug, Clone, PartialEq, Eq)]
pub enum TacotronError {
    InvalidConfig(String),
    InvalidInput(String),
    Checkpoint(String),
    AttentionFailure { steps: usize, input_tokens: usize, last_focus: usize },
}

impl TacotronError {
    pub open spec fn described(self) -> Seq<char> {
        match self {
            TacotronError::InvalidConfig(message) => "invalid Tacotron config: "@ + message@,
            TacotronError::InvalidInput(message) => "invalid Tacotron input: "@ + message@,
            TacotronError::Checkpoint(message) => "unable to load Tacotron checkpoint: "@
                + message@,
            TacotronError::AttentionFailure { steps, input_tokens, last_focus } =>
                "Tacotron attention did not emit a stop token after "@ + decimal(steps as nat)
                    + " decoder steps (input tokens: "@ + decimal(input_tokens as nat)
                    + ", last attention focus: "@ + decimal(last_focus as nat)
                    + "); shorten or rephrase the text, or raise max_decoder_steps only after inspecting the alignment"@,
        }
    }

    /// The error in words.
    pub fn describe(&self) -> (out: String)
        ensures
            out@ == self.described(),
    {
        match self {
            TacotronError::InvalidConfig(message) => with_text(
                "invalid Tacotron config: ",
                message.as_str(),
            ),
            TacotronError::InvalidInput(message) => with_text(
                "invalid Tacotron input: ",
                message.as_str(),
            ),
            TacotronError::Checkpoint(message) => with_text(
                "unable to load Tacotron checkpoint: ",
                message.as_str(),
            ),
            TacotronError::AttentionFailure { steps, input_tokens, last_focus } => {
                let mut message = around_number(
                    "Tacotron attention did not emit a stop token after ",
                    *steps,
                    " decoder steps (input tokens: ",
                );
                message.append(decimal_text(*input_tokens as u64).as_str());
                message.append(", last attention focus: ");
                message.append(decimal_text(*last_focus as u64).as_str());
                message.append(
                    "); shorten or rephrase the text, or raise max_decoder_steps only after inspecting the alignment",
                );
                message
            },
        }
    }
}

/// The outcome is an accepted configuration, or the given fault.
pub open spec fn config_verdict<T>(out: Result<T, TacotronError>, fault: Option<Seq<char>>) -> bool {
    match out {
        Ok(_) => fault is None,
        Err(TacotronError::InvalidConfig(message)) => fault == Some(message@),
        Err(_) => false,
    }
}

/// The outcome is an accepted input, or the given fault.
pub open spec fn input_verdict<T>(out: Result<T, TacotronError>, fault: Option<Seq<char>>) -> bool {
    match out {
        Ok(_) => fault is None,
        Err(TacotronError::InvalidInput(message)) => fault == Some(message@),
        Err(_) => false,
    }
}

fn config_error<T>(message: String) -> (out: Result<T, TacotronError>)
    ensures
        out == Err::<T, TacotronError>(TacotronError::InvalidConfig(message)),
{
    Err(TacotronError::InvalidConfig(message))
}

fn input_error<T>(message: String) -> (out: Result<T, TacotronError>)
    ensures
        out == Err::<T, TacotronError>(TacotronError::InvalidInput(message)),
{
    Err(TacotronError::InvalidInput(message))
}

#[derive(Debug, Clone, Copy, PartialEq, Eq, Structural)]
pub enum TacotronArchitecture {
    Tacotron,
    Tacotron2,
}

#[derive(Debug, Clone, Copy, PartialEq, Eq, Structural)]
pub enum TacotronAttentionNormalization {
    Softmax,
    Sigmoid,
}

/// The latent space of a Capacitron checkpoint.
#[derive(Debug, Clone, Copy, PartialEq, Eq, Structural)]
pub struct CapacitronConfig {
    pub embedding_dim: usize,
}

#[derive(Debug, Clone, Copy, PartialEq, Eq, Structural)]
pub struct TacotronInferenceConfig {
    pub architecture: TacotronArchitecture,
    pub num_chars: usize,
    pub out_channels: usize,
    pub encoder_channels: usize,
    pub reduction_factor: usize,
    pub max_decoder_steps: usize,
    pub stop_threshold: Double,
    pub location_attention: bool,
    pub attention_normalization: TacotronAttentionNormalization,
    pub attention_windowing: bool,
    pub forward_attention: bool,
    pub forward_attention_mask: bool,
    pub transition_agent: bool,
    pub prenet_dropout_at_inference: bool,
    pub capacitron: Option<CapacitronConfig>,
}

/// When a decoder stops.
#[derive(Debug, Clone, Copy, PartialEq, Eq, Structural)]
pub struct TacotronControls {
    pub stop_threshold: Double,
    pub max_decoder_steps: usize,
    pub minimum_decoder_steps: usize,
}

impl TacotronControls {
    /// The first rule that the controls break.
    pub open spec fn fault(self) -> Option<Seq<char>> {
        if !self.stop_threshold.closed_unit_interval() {
            Some("stop threshold must be finite and in the inclusive range [0, 1]"@)
        } else if self.max_decoder_steps == 0 {
            Some("maximum decoder steps must be positive"@)
        } else if self.minimum_decoder_steps >= self.max_decoder_steps {
            Some("minimum decoder steps must be smaller than the maximum"@)
        } else {
            None
        }
    }

    /// The controls of a checkpoint, which may stop after its first step.
    pub open spec fn of_config(config: TacotronInferenceConfig) -> TacotronControls {
        TacotronControls {
            stop_threshold: config.stop_threshold,
            max_decoder_steps: config.max_decoder_steps,
            minimum_decoder_steps: 1,
        }
    }

    pub fn from_config(config: &TacotronInferenceConfig) -> (out: Self)
        ensures
            out == Self::of_config(*config),
    {
        TacotronControls {
            stop_threshold: config.stop_threshold,
            max_decoder_steps: config.max_decoder_steps,
            minimum_decoder_steps: 1,
        }
    }

    pub fn validate(self) -> (out: Result<Self, TacotronError>)
        ensures
            input_verdict(out, self.fault()),
            out matches Ok(controls) ==> controls == self,
    {
        if !self.stop_threshold.is_finite() || !self.stop_threshold.is_in_closed_unit_interval() {
            return input_error(
                "stop threshold must be finite and in the inclusive range [0, 1]".to_owned(),
            );
        }
        if self.max_decoder_steps == 0 {
            return input_error("maximum decoder steps must be positive".to_owned());
        }
        if self.minimum_decoder_steps >= self.max_decoder_steps {
            return input_error(
                "minimum decoder steps must be smaller than the maximum".to_owned(),
            );
        }
        Ok(self)
    }

    /// A step, counted from zero, ends the decoding with the given stop probability.
    pub open spec fn ends(self, step: nat, stop: Double) -> bool {
        step + 1 >= self.minimum_decoder_steps && self.stop_threshold.less(stop)
    }

    /// The steps taken and the way of ending, from a step on, over the stop probabilities that
    /// the decoder would emit.
    pub open spec fn run(self, stops: spec_fn(nat) -> Double, step: nat) -> (
        nat,
        TacotronTermination,
    )
        decreases self.max_decoder_steps - step,
    {
        if step >= self.max_decoder_steps {
            (self.max_decoder_steps as nat, TacotronTermination::MaximumSteps)
        } else if self.ends(step, stops(step)) {
            (step + 1, TacotronTermination::StopToken)
        } else {
            self.run(stops, step + 1)
        }
    }
}

proof fn run_from(controls: TacotronControls, stops: spec_fn(nat) -> Double, step: nat)
    requires
        step <= controls.max_decoder_steps,
    ensures
        ({
            let (steps, termination) = controls.run(stops, step);
            &&& steps <= controls.max_decoder_steps
            &&& termination == TacotronTermination::StopToken ==> step < steps && controls.ends(
                (steps - 1) as nat,
                stops((steps - 1) as nat),
            ) && forall|k: nat|
                step <= k < steps - 1 ==> !#[trigger] controls.ends(k, stops(k))
            &&& termination == TacotronTermination::MaximumSteps ==> steps
                == controls.max_decoder_steps && forall|k: nat|
                step <= k < controls.max_decoder_steps ==> !#[trigger] controls.ends(k, stops(k))
        }),
    decreases controls.max_decoder_steps - step,
{
    if step < controls.max_decoder_steps && !controls.ends(step, stops(step)) {
        run_from(controls, stops, step + 1);
    }
}

/// A decoder stops at the first step that ends it: never before the minimum, never beyond the
/// maximum, and at the maximum only if no step ended it.
pub proof fn decoding_stops_at_first_end(
    controls: TacotronControls,
    stops: spec_fn(nat) -> Double,
)
    requires
        controls.fault() is None,
    ensures
        ({
            let (steps, termination) = controls.run(stops, 0);
            &&& 1 <= steps <= controls.max_decoder_steps
            &&& controls.minimum_decoder_steps <= steps
            &&& termination == TacotronTermination::StopToken ==> controls.ends(
                (steps - 1) as nat,
                stops((steps - 1) as nat),
            ) && forall|k: nat| k < steps - 1 ==> !#[trigger] controls.ends(k, stops(k))
            &&& termination == TacotronTermination::MaximumSteps ==> steps
                == controls.max_decoder_steps && forall|k: nat|
                k < controls.max_decoder_steps ==> !#[trigger] controls.ends(k, stops(k))
        }),
{
    run_from(controls, stops, 0);
}

/// A threshold of one is never exceeded by a probability, so that such a decoder always runs
/// into its limit.
pub proof fn threshold_of_one_never_stops(
    controls: TacotronControls,
    stops: spec_fn(nat) -> Double,
)
    requires
        controls.fault() is None,
        controls.stop_threshold.rank() == Double::one_bits(),
        forall|k: nat| (#[trigger] stops(k)).closed_unit_interval(),
    ensures
        controls.run(stops, 0) == (
            controls.max_decoder_steps as nat,
            TacotronTermination::MaximumSteps,
        ),
{
    run_from(controls, stops, 0);
    let (steps, termination) = controls.run(stops, 0);
    if termination == TacotronTermination::StopToken {
        assert(stops((steps - 1) as nat).closed_unit_interval());
    }
}

/// What a decoder does after a step.
#[derive(Debug, Clone, Copy, PartialEq, Eq, Structural)]
pub enum DecoderMove {
    Continue,
    Finish(TacotronTermination),
}

/// A decoder under way.
#[derive(Debug, Clone, Copy, PartialEq, Eq, Structural)]
pub struct Decoding {
    pub controls: TacotronControls,
    pub steps: usize,
}

impl Decoding {
    /// More steps may be taken.
    pub open spec fn under_way(self) -> bool {
        self.controls.fault() is None && self.steps < self.controls.max_decoder_steps
    }

    pub fn start(controls: TacotronControls) -> (out: Self)
        requires
            controls.fault() is None,
        ensures
            out == (Decoding { controls, steps: 0 }),
            out.under_way(),
    {
        Decoding { controls, steps: 0 }
    }

    /// Takes in the stop probability of a step and decides on the next.
    pub fn advance(&mut self, stop: Double) -> (out: DecoderMove)
        requires
            old(self).under_way(),
        ensures
            final(self).controls == old(self).controls,
            final(self).steps == old(self).steps + 1,
            out == (if old(self).controls.ends(old(self).steps as nat, stop) {
                DecoderMove::Finish(TacotronTermination::StopToken)
            } else if old(self).steps + 1 == old(self).controls.max_decoder_steps {
                DecoderMove::Finish(TacotronTermination::MaximumSteps)
            } else {
                DecoderMove::Continue
            }),
            out == DecoderMove::Continue ==> final(self).under_way(),
    {
        self.steps = self.steps + 1;
        if self.steps >= self.controls.minimum_decoder_steps
            && self.controls.stop_threshold.is_less(stop) {
            DecoderMove::Finish(TacotronTermination::StopToken)
        } else if self.steps == self.controls.max_decoder_steps {
            DecoderMove::Finish(TacotronTermination::MaximumSteps)
        } else {
            DecoderMove::Continue
        }
    }
}

impl TacotronControls {
    /// The steps of a decoder that came to its end: a decoder at its limit has failed.
    pub fn conclude(
        self,
        steps: usize,
        termination: TacotronTermination,
        input_tokens: usize,
        last_focus: usize,
    ) -> (out: Result<usize, TacotronError>)
        ensures
            out == (match termination {
                TacotronTermination::StopToken => Ok::<usize, TacotronError>(steps),
                TacotronTermination::MaximumSteps => Err(
                    TacotronError::AttentionFailure {
                        steps: self.max_decoder_steps,
                        input_tokens,
                        last_focus,
                    },
                ),
            }),
    {
        match termination {
            TacotronTermination::StopToken => Ok(steps),
            TacotronTermination::MaximumSteps => Err(
                TacotronError::AttentionFailure {
                    steps: self.max_decoder_steps,
                    input_tokens,
                    last_focus,
                },
            ),
        }
    }
}

/// Taking steps one by one follows the run as a whole.
pub proof fn steps_follow_run(decoding: Decoding, stops: spec_fn(nat) -> Double)
    requires
        decoding.under_way(),
    ensures
        ({
            let step = decoding.steps as nat;
            let stop = stops(step);
            decoding.controls.run(stops, step) == if decoding.controls.ends(step, stop) {
                (step + 1, TacotronTermination::StopToken)
            } else if step + 1 == decoding.controls.max_decoder_steps {
                (step + 1, TacotronTermination::MaximumSteps)
            } else {
                decoding.controls.run(stops, step + 1)
            }
        }),
{
    let step = decoding.steps as nat;
    assert(decoding.controls.run(stops, step + 1) == if step + 1
        >= decoding.controls.max_decoder_steps {
        (decoding.controls.max_decoder_steps as nat, TacotronTermination::MaximumSteps)
    } else if decoding.controls.ends(step + 1, stops(step + 1)) {
        (step + 2, TacotronTermination::StopToken)
    } else {
        decoding.controls.run(stops, step + 2)
    });
}

/// What a decoder left behind: the output and the stop probability of each step.
#[derive(Debug, Clone)]
pub struct DecoderTrace<O> {
    pub outputs: Vec<O>,
    pub stops: Vec<Double>,
    pub termination: TacotronTermination,
}

/// The outputs and stop probabilities are those that a step function gives from state to state.
pub open spec fn traced<S, O, F: Fn(S) -> (S, O, Double)>(
    step: F,
    start: S,
    states: Seq<S>,
    outputs: Seq<O>,
    stops: Seq<Double>,
) -> bool {
    &&& states.len() == outputs.len() + 1
    &&& stops.len() == outputs.len()
    &&& states[0] == start
    &&& forall|k: int|
        0 <= k < outputs.len() ==> call_ensures(
            step,
            (states[k],),
            (states[k + 1], #[trigger] outputs[k], stops[k]),
        )
}

/// A decoder ran until a step ended it, or until its limit.
pub open spec fn ran_to_end(
    controls: TacotronControls,
    stops: Seq<Double>,
    termination: TacotronTermination,
) -> bool {
    let last = (stops.len() - 1) as nat;
    &&& 1 <= stops.len() <= controls.max_decoder_steps
    &&& forall|k: int|
        0 <= k < last ==> !controls.ends(k as nat, #[trigger] stops[k])
    &&& match termination {
        TacotronTermination::StopToken => controls.ends(last, stops[last as int]),
        TacotronTermination::MaximumSteps => stops.len() == controls.max_decoder_steps
            && !controls.ends(last, stops[last as int]),
    }
}

/// Runs a decoder from step to step until one ends it.
pub fn decode<S, O, F: Fn(S) -> (S, O, Double)>(controls: TacotronControls, start: S, step: F) -> (out:
    DecoderTrace<O>)
    requires
        controls.fault() is None,
        forall|state: S| call_requires(step, (state,)),
    ensures
        ran_to_end(controls, out.stops@, out.termination),
        exists|states: Seq<S>| traced(step, start, states, out.outputs@, out.stops@),
{
    let ghost mut states: Seq<S> = seq![start];
    let mut outputs: Vec<O> = Vec::new();
    let mut stops: Vec<Double> = Vec::new();
    let mut decoding = Decoding::start(controls);
    let mut state = start;
    loop
        invariant
            decoding.under_way(),
            decoding.controls == controls,
            decoding.steps == stops.len(),
            forall|state: S| call_requires(step, (state,)),
            traced(step, start, states, outputs@, stops@),
            states.last() == state,
            forall|k: int|
                0 <= k < stops.len() ==> !controls.ends(k as nat, #[trigger] stops@[k]),
        decreases controls.max_decoder_steps - decoding.steps,
    {
        let (next, output, stop) = step(state);
        let ghost before = states;
        let ghost old_outputs = outputs@;
        let ghost old_stops = stops@;
        outputs.push(output);
        stops.push(stop);
        proof {
            states = states.push(next);
            assert forall|k: int| 0 <= k < outputs@.len() implies call_ensures(
                step,
                (states[k],),
                (states[k + 1], #[trigger] outputs@[k], stops@[k]),
            ) by {
                if k < old_outputs.len() {
                    assert(outputs@[k] == old_outputs[k]);
                    assert(stops@[k] == old_stops[k]);
                    assert(states[k] == before[k]);
                    assert(states[k + 1] == before[k + 1]);
                } else {
                    assert(states[k] == before.last());
                }
            }
            assert(traced(step, start, states, outputs@, stops@));
        }
        state = next;
        match decoding.advance(stop) {
            DecoderMove::Continue => {},
            DecoderMove::Finish(termination) => {
                let trace = DecoderTrace { outputs, stops, termination };
                assert(traced(step, start, states, trace.outputs@, trace.stops@));
                return trace;
            },
        }
    }
}

/// A trace is as long as the run that its stop probabilities foretell, and ends the same way.
pub proof fn trace_matches_run(
    controls: TacotronControls,
    stops: Seq<Double>,
    termination: TacotronTermination,
    foretold: spec_fn(nat) -> Double,
)
    requires
        controls.fault() is None,
        ran_to_end(controls, stops, termination),
        forall|k: nat| k < stops.len() ==> #[trigger] foretold(k) == stops[k as int],
    ensures
        controls.run(foretold, 0) == (stops.len(), termination),
{
    trace_matches_run_from(controls, stops, termination, foretold, 0);
}

proof fn trace_matches_run_from(
    controls: TacotronControls,
    stops: Seq<Double>,
    termination: TacotronTermination,
    foretold: spec_fn(nat) -> Double,
    step: nat,
)
    requires
        ran_to_end(controls, stops, termination),
        forall|k: nat| k < stops.len() ==> #[trigger] foretold(k) == stops[k as int],
        step < stops.len(),
    ensures
        controls.run(foretold, step) == (stops.len(), termination),
    decreases stops.len() - step,
{
    assert(foretold(step) == stops[step as int]);
    if step + 1 < stops.len() {
        trace_matches_run_from(controls, stops, termination, foretold, step + 1);
    } else if termination == TacotronTermination::MaximumSteps {
        assert(controls.run(foretold, step + 1) == (
            controls.max_decoder_steps as nat,
            TacotronTermination::MaximumSteps,
        ));
    }
}

/// A recurrent cell.
#[derive(Debug, Clone, Copy, PartialEq, Eq, Structural)]
pub struct LstmCell {
    pub channels_in: usize,
    pub hidden_channels: usize,
}

#[derive(Debug, Clone, Copy, PartialEq, Eq, Structural)]
pub enum ConvActivation {
    Linear,
    Relu,
    Tanh,
}

/// A convolution with batch normalization and an activation.
#[derive(Debug, Clone, Copy, PartialEq, Eq, Structural)]
pub struct TacotronConvBnBlock {
    pub convolution: Conv,
    pub activation: ConvActivation,
}

/// The layers of a Tacotron 2 decoder.
#[derive(Debug, Clone, Copy, PartialEq, Eq, Structural)]
pub struct Tacotron2DecoderLayers {
    pub prenet_in: LinearLayer,
    pub prenet_out: LinearLayer,
    pub attention_rnn: LstmCell,
    pub query_layer: LinearLayer,
    pub inputs_layer: LinearLayer,
    pub v: LinearLayer,
    pub location_conv: Conv,
    pub location_dense: LinearLayer,
    pub decoder_rnn: LstmCell,
    pub linear_projection: LinearLayer,
    pub stopnet: LinearLayer,
}

/// The layers of a Tacotron 2 model.
#[derive(Debug, Clone)]
pub struct Tacotron2Topology {
    pub embedding: EmbeddingTable,
    pub encoder_convolutions: Vec<TacotronConvBnBlock>,
    pub encoder_lstm: LstmCell,
    pub decoder: Tacotron2DecoderLayers,
    pub postnet: Vec<TacotronConvBnBlock>,
}

/// A block of the given width.
pub open spec fn block(channels_in: usize, channels_out: usize, activation: ConvActivation) -> TacotronConvBnBlock {
    TacotronConvBnBlock {
        convolution: centered(channels_in, channels_out, CONVOLUTION_KERNEL),
        activation,
    }
}

fn block_layers(channels_in: usize, channels_out: usize, activation: ConvActivation) -> (out:
    TacotronConvBnBlock)
    ensures
        out == block(channels_in, channels_out, activation),
{
    TacotronConvBnBlock {
        convolution: centered_conv(channels_in, channels_out, CONVOLUTION_KERNEL),
        activation,
    }
}

impl TacotronInferenceConfig {
    /// The channels of a style vector.
    pub open spec fn style_channels(self) -> usize {
        match self.capacitron {
            Some(capacitron) => capacitron.embedding_dim,
            None => 0,
        }
    }

    /// The first reason why the runtime cannot build the model.
    pub open spec fn unsupported(self) -> Option<Seq<char>> {
        if self.architecture != TacotronArchitecture::Tacotron2 {
            Some(
                "this runtime implements Tacotron 2; Tacotron 1 has a different CBHG encoder and decoder topology"@,
            )
        } else if self.forward_attention || self.forward_attention_mask || self.transition_agent
            || self.attention_windowing {
            Some(
                "forward/transition/windowed attention is not implemented; import a location-sensitive original-attention checkpoint"@,
            )
        } else {
            None
        }
    }

    /// The layer sizes are representable.
    pub open spec fn buildable(self) -> bool {
        &&& self.encoder_channels + self.style_channels() + RNN_CHANNELS <= usize::MAX
        &&& self.out_channels * self.reduction_factor + RNN_CHANNELS <= usize::MAX
    }

    /// The layers of the decoder.
    pub open spec fn decoder_layers(self) -> Tacotron2DecoderLayers {
        let memory = (self.encoder_channels + self.style_channels()) as usize;
        let group = (self.out_channels * self.reduction_factor) as usize;
        Tacotron2DecoderLayers {
            prenet_in: LinearLayer {
                channels_in: self.out_channels,
                channels_out: PRENET_CHANNELS,
                bias: false,
            },
            prenet_out: LinearLayer {
                channels_in: PRENET_CHANNELS,
                channels_out: PRENET_CHANNELS,
                bias: false,
            },
            attention_rnn: LstmCell {
                channels_in: (PRENET_CHANNELS + memory) as usize,
                hidden_channels: RNN_CHANNELS,
            },
            query_layer: LinearLayer {
                channels_in: RNN_CHANNELS,
                channels_out: ATTENTION_CHANNELS,
                bias: false,
            },
            inputs_layer: LinearLayer {
                channels_in: memory,
                channels_out: ATTENTION_CHANNELS,
                bias: false,
            },
            v: LinearLayer { channels_in: ATTENTION_CHANNELS, channels_out: 1, bias: true },
            location_conv: centered(2, LOCATION_FILTERS, LOCATION_KERNEL),
            location_dense: LinearLayer {
                channels_in: LOCATION_FILTERS,
                channels_out: ATTENTION_CHANNELS,
                bias: false,
            },
            decoder_rnn: LstmCell {
                channels_in: (RNN_CHANNELS + memory) as usize,
                hidden_channels: RNN_CHANNELS,
            },
            linear_projection: LinearLayer {
                channels_in: (RNN_CHANNELS + memory) as usize,
                channels_out: group,
                bias: true,
            },
            stopnet: LinearLayer {
                channels_in: (RNN_CHANNELS + group) as usize,
                channels_out: 1,
                bias: true,
            },
        }
    }

    /// The blocks that refine the frames of the decoder.
    pub open spec fn postnet_blocks(self) -> Seq<TacotronConvBnBlock> {
        Seq::new(
            POSTNET_CONVOLUTIONS as nat,
            |i: int|
                if i == 0 {
                    block(self.out_channels, POSTNET_CHANNELS, ConvActivation::Tanh)
                } else if i < POSTNET_CONVOLUTIONS - 1 {
                    block(POSTNET_CHANNELS, POSTNET_CHANNELS, ConvActivation::Tanh)
                } else {
                    block(POSTNET_CHANNELS, self.out_channels, ConvActivation::Linear)
                },
        )
    }

    pub open spec fn encoder_blocks(self) -> Seq<TacotronConvBnBlock> {
        Seq::new(
            ENCODER_CONVOLUTIONS as nat,
            |i: int| block(self.encoder_channels, self.encoder_channels, ConvActivation::Relu),
        )
    }

    /// The layers are those of the model.
    pub open spec fn built_as(self, topology: Tacotron2Topology) -> bool {
        &&& topology.embedding == (EmbeddingTable {
            rows: self.num_chars,
            channels: self.encoder_channels,
        })
        &&& topology.encoder_convolutions@ == self.encoder_blocks()
        &&& topology.encoder_lstm == (LstmCell {
            channels_in: self.encoder_channels,
            hidden_channels: self.encoder_channels / 2,
        })
        &&& topology.decoder == self.decoder_layers()
        &&& topology.postnet@ == self.postnet_blocks()
    }

    /// The layers of the model, given the verdict on the rest of its configuration.
    pub fn tacotron2_topology(&self, checked: Result<(), String>) -> (out: Result<
        Tacotron2Topology,
        TacotronError,
    >)
        requires
            checked is Ok ==> self.buildable(),
        ensures
            match checked {
                Err(reason) => out == Err::<Tacotron2Topology, TacotronError>(
                    TacotronError::InvalidConfig(reason),
                ),
                Ok(_) => config_verdict(out, self.unsupported()) && (out matches Ok(topology)
                    ==> self.built_as(topology)),
            },
    {
        if let Err(reason) = checked {
            return Err(TacotronError::InvalidConfig(reason));
        }
        if self.architecture != TacotronArchitecture::Tacotron2 {
            return config_error(
                "this runtime implements Tacotron 2; Tacotron 1 has a different CBHG encoder and decoder topology".to_owned(),
            );
        }
        if self.forward_attention || self.forward_attention_mask || self.transition_agent
            || self.attention_windowing {
            return config_error(
                "forward/transition/windowed attention is not implemented; import a location-sensitive original-attention checkpoint".to_owned(),
            );
        }
        let style: usize = match self.capacitron {
            Some(capacitron) => capacitron.embedding_dim,
            None => 0,
        };
        let memory: usize = self.encoder_channels + style;
        let decoder = self.plan_decoder(memory);
        let mut encoder_convolutions: Vec<TacotronConvBnBlock> = Vec::new();
        let mut i: usize = 0;
        while i < ENCODER_CONVOLUTIONS
            invariant
                i <= ENCODER_CONVOLUTIONS,
                encoder_convolutions@ == self.encoder_blocks().take(i as int),
            decreases ENCODER_CONVOLUTIONS - i,
        {
            encoder_convolutions.push(
                block_layers(self.encoder_channels, self.encoder_channels, ConvActivation::Relu),
            );
            assert(encoder_convolutions@ =~= self.encoder_blocks().take(i + 1));
            i = i + 1;
        }
        let mut postnet: Vec<TacotronConvBnBlock> = Vec::new();
        postnet.push(block_layers(self.out_channels, POSTNET_CHANNELS, ConvActivation::Tanh));
        postnet.push(block_layers(POSTNET_CHANNELS, POSTNET_CHANNELS, ConvActivation::Tanh));
        postnet.push(block_layers(POSTNET_CHANNELS, POSTNET_CHANNELS, ConvActivation::Tanh));
        postnet.push(block_layers(POSTNET_CHANNELS, POSTNET_CHANNELS, ConvActivation::Tanh));
        postnet.push(block_layers(POSTNET_CHANNELS, self.out_channels, ConvActivation::Linear));
        assert(postnet@ =~= self.postnet_blocks());
        assert(encoder_convolutions@ =~= self.encoder_blocks());
        Ok(
            Tacotron2Topology {
                embedding: EmbeddingTable {
                    rows: self.num_chars,
                    channels: self.encoder_channels,
                },
                encoder_convolutions,
                encoder_lstm: LstmCell {
                    channels_in: self.encoder_channels,
                    hidden_channels: self.encoder_channels / 2,
                },
                decoder,
                postnet,
            },
        )
    }

    fn plan_decoder(&self, memory: usize) -> (out: Tacotron2DecoderLayers)
        requires
            self.buildable(),
            memory == self.encoder_channels + self.style_channels(),
        ensures
            out == self.decoder_layers(),
    {
        let group: usize = self.out_channels * self.reduction_factor;
        Tacotron2DecoderLayers {
            prenet_in: LinearLayer {
                channels_in: self.out_channels,
                channels_out: PRENET_CHANNELS,
                bias: false,
            },
            prenet_out: LinearLayer {
                channels_in: PRENET_CHANNELS,
                channels_out: PRENET_CHANNELS,
                bias: false,
            },
            attention_rnn: LstmCell {
                channels_in: PRENET_CHANNELS + memory,
                hidden_channels: RNN_CHANNELS,
            },
            query_layer: LinearLayer {
                channels_in: RNN_CHANNELS,
                channels_out: ATTENTION_CHANNELS,
                bias: false,
            },
            inputs_layer: LinearLayer {
                channels_in: memory,
                channels_out: ATTENTION_CHANNELS,
                bias: false,
            },
            v: LinearLayer { channels_in: ATTENTION_CHANNELS, channels_out: 1, bias: true },
            location_conv: centered_conv(2, LOCATION_FILTERS, LOCATION_KERNEL),
            location_dense: LinearLayer {
                channels_in: LOCATION_FILTERS,
                channels_out: ATTENTION_CHANNELS,
                bias: false,
            },
            decoder_rnn: LstmCell {
                channels_in: RNN_CHANNELS + memory,
                hidden_channels: RNN_CHANNELS,
            },
            linear_projection: LinearLayer {
                channels_in: RNN_CHANNELS + memory,
                channels_out: group,
                bias: true,
            },
            stopnet: LinearLayer {
                channels_in: RNN_CHANNELS + group,
                channels_out: 1,
                bias: true,
            },
        }
    }
}

/// The convolutions of the encoder and of the postnet, and that over the attention, keep the
/// length of a sequence.
pub proof fn convolutions_keep_length(config: TacotronInferenceConfig, i: int, length: int)
    requires
        0 <= length,
    ensures
        0 <= i < ENCODER_CONVOLUTIONS ==> config.encoder_blocks()[i].convolution.output_length(
            length,
        ) == length,
        0 <= i < POSTNET_CONVOLUTIONS ==> config.postnet_blocks()[i].convolution.output_length(
            length,
        ) == length,
        config.decoder_layers().location_conv.output_length(length) == length,
{
}

/// How a style vector reaches the decoder.
#[derive(Debug, Clone, Copy, PartialEq, Eq, Structural)]
pub enum StylePlan {
    /// The model takes none.
    Unstyled,
    /// The given vector, once per token.
    Given,
    /// A vector drawn from the standard normal distribution, once per token.
    Drawn,
}

/// What a request asks of the network.
#[derive(Debug, Clone, Copy, PartialEq, Eq, Structural)]
pub struct TacotronPlan {
    pub controls: TacotronControls,
    pub style: StylePlan,
}

/// The dimensions of an optional style vector.
pub open spec fn style_shape(shape: Option<[usize; 2]>) -> Option<Seq<usize>> {
    match shape {
        Some(shape) => Some(shape@),
        None => None,
    }
}

impl TacotronInferenceConfig {
    /// The channels that the encoder emits: both directions of its recurrent layer.
    pub open spec fn encoded_channels(self) -> int {
        2 * (self.encoder_channels as int / 2)
    }

    /// The first reason why encoded tokens and a style vector do not go together.
    pub open spec fn conditioning_fault(
        self,
        batch: usize,
        channels: int,
        style: Option<Seq<usize>>,
    ) -> Option<Seq<char>> {
        if channels != self.encoder_channels {
            Some("encoder output channel mismatch"@)
        } else {
            match (self.capacitron, style) {
                (None, Some(_)) => Some(
                    "style embedding was supplied to a non-Capacitron checkpoint"@,
                ),
                (Some(capacitron), Some(shape)) => unless(
                    shape == seq![batch, capacitron.embedding_dim],
                    "Capacitron style embedding has shape "@ + shape_text(shape) + "; expected "@
                        + shape_text(seq![batch, capacitron.embedding_dim]),
                ),
                _ => None,
            }
        }
    }

    /// Where the style vector comes from.
    pub open spec fn style_plan(self, given: bool) -> StylePlan {
        if self.capacitron is None {
            StylePlan::Unstyled
        } else if given {
            StylePlan::Given
        } else {
            StylePlan::Drawn
        }
    }

    /// How a style vector of the given shape joins encoded tokens.
    pub fn plan_conditioning(&self, batch: usize, channels: usize, style: &Option<[usize; 2]>) -> (out:
        Result<StylePlan, TacotronError>)
        ensures
            input_verdict(
                out,
                self.conditioning_fault(batch, channels as int, style_shape(*style)),
            ),
            out matches Ok(plan) ==> plan == self.style_plan(style is Some),
    {
        if channels != self.encoder_channels {
            return input_error("encoder output channel mismatch".to_owned());
        }
        match (&self.capacitron, style) {
            (None, None) => Ok(StylePlan::Unstyled),
            (None, Some(_)) => input_error(
                "style embedding was supplied to a non-Capacitron checkpoint".to_owned(),
            ),
            (Some(capacitron), Some(shape)) => {
                let expected: [usize; 2] = [batch, capacitron.embedding_dim];
                assert(expected@ =~= seq![batch, capacitron.embedding_dim]);
                let same = shape[0] == expected[0] && shape[1] == expected[1];
                assert(same == (shape@ =~= expected@));
                if !same {
                    let mut message = with_text(
                        "Capacitron style embedding has shape ",
                        shape_string(shape.as_slice()).as_str(),
                    );
                    message.append("; expected ");
                    message.append(shape_string(expected.as_slice()).as_str());
                    return input_error(message);
                }
                Ok(StylePlan::Given)
            },
            (Some(_), None) => Ok(StylePlan::Drawn),
        }
    }

    /// The controls of a request, or those of the checkpoint.
    pub open spec fn effective_controls(self, controls: Option<TacotronControls>) -> TacotronControls {
        match controls {
            Some(controls) => controls,
            None => TacotronControls::of_config(self),
        }
    }

    /// The first reason why tokens cannot be synthesized.
    pub open spec fn inference_fault(
        self,
        tokens: TokenBatch,
        style: Option<Seq<usize>>,
        controls: Option<TacotronControls>,
    ) -> Option<Seq<char>> {
        if tokens.batch != 1 {
            Some("autoregressive Tacotron inference currently requires batch size 1"@)
        } else if tokens.tokens == 0 {
            Some("token sequence must not be empty"@)
        } else if !highest_within(tokens.ids@, self.num_chars as int) {
            Some(
                "token ID "@ + signed_decimal(highest(tokens.ids@)) + " is outside the "@ + decimal(
                    self.num_chars as nat,
                ) + "-symbol checkpoint vocabulary"@,
            )
        } else {
            first(
                self.effective_controls(controls).fault(),
                self.conditioning_fault(tokens.batch, self.encoded_channels(), style),
            )
        }
    }

    /// What a request asks of the network.
    pub fn plan_inference(
        &self,
        tokens: &TokenBatch,
        style: &Option<[usize; 2]>,
        controls: Option<TacotronControls>,
    ) -> (out: Result<TacotronPlan, TacotronError>)
        requires
            tokens.wf(),
        ensures
            input_verdict(out, self.inference_fault(*tokens, style_shape(*style), controls)),
            out matches Ok(plan) ==> plan == (TacotronPlan {
                controls: self.effective_controls(controls),
                style: self.style_plan(style is Some),
            }),
            out matches Ok(plan) ==> plan.controls.fault() is None,
    {
        if tokens.batch != 1 {
            return input_error(
                "autoregressive Tacotron inference currently requires batch size 1".to_owned(),
            );
        }
        if tokens.tokens == 0 {
            return input_error("token sequence must not be empty".to_owned());
        }
        let highest_id: i64 = tokens.highest_id();
        if highest_id < 0 || highest_id as u64 >= self.num_chars as u64 {
            let mut message = around_text(
                "token ID ",
                signed_decimal_text(highest_id).as_str(),
                " is outside the ",
            );
            message.append(decimal_text(self.num_chars as u64).as_str());
            message.append("-symbol checkpoint vocabulary");
            return input_error(message);
        }
        let chosen = match controls {
            Some(controls) => controls,
            None => TacotronControls::from_config(self),
        };
        let valid = chosen.validate()?;
        let half: usize = self.encoder_channels / 2;
        let style = self.plan_conditioning(tokens.batch, half + half, style)?;
        Ok(TacotronPlan { controls: valid, style })
    }

    /// The shape of encoded tokens.
    pub fn encoded_shape(&self, tokens: &TokenBatch) -> (out: [usize; 3])
        ensures
            out@ == seq![tokens.batch, tokens.tokens, self.encoded_channels() as usize],
    {
        let half: usize = self.encoder_channels / 2;
        let out: [usize; 3] = [tokens.batch, tokens.tokens, half + half];
        assert(out@ =~= seq![tokens.batch, tokens.tokens, self.encoded_channels() as usize]);
        out
    }

    /// The shape of the spectrogram of a single sequence after the given number of steps.
    pub fn mel_shape(&self, steps: usize) -> (out: [usize; 3])
        requires
            steps * self.reduction_factor <= usize::MAX,
        ensures
            out@ == seq![1, (steps * self.reduction_factor) as usize, self.out_channels],
    {
        let out: [usize; 3] = [1, steps * self.reduction_factor, self.out_channels];
        assert(out@ =~= seq![1, (steps * self.reduction_factor) as usize, self.out_channels]);
        out
    }

    /// The columns of a frame group that hold its last frame, which the next step reads.
    pub fn last_frame(&self) -> (out: (usize, usize))
        requires
            self.reduction_factor > 0,
            self.out_channels * self.reduction_factor <= usize::MAX,
        ensures
            out.0 == self.out_channels * (self.reduction_factor - 1),
            out.1 == self.out_channels * self.reduction_factor,
            out.1 - out.0 == self.out_channels,
    {
        let end: usize = self.out_channels * self.reduction_factor;
        proof {
            let channels = self.out_channels as int;
            let factor = self.reduction_factor as int;
            assert(channels * (factor - 1) == channels * factor - channels) by (nonlinear_arith);
            assert(channels * factor >= channels) by (nonlinear_arith)
                requires
                    factor >= 1,
                    channels >= 0,
            ;
        }
        (end - self.out_channels, end)
    }

    /// Whether a checkpoint fits the inference graph exactly.
    pub fn check_checkpoint(report: &LoadReport) -> (out: Result<(), TacotronError>)
        ensures
            match out {
                Ok(_) => report.fits(Subtree::Learned),
                Err(TacotronError::Checkpoint(message)) => !report.fits(Subtree::Learned)
                    && message@ == report.itemized(),
                Err(_) => false,
            },
    {
        match report.fault_itemized() {
            None => Ok(()),
            Some(message) => Err(TacotronError::Checkpoint(message)),
        }
    }

    /// How checkpoint names become parameter names, as patterns and replacements.
    pub fn key_remappings() -> (out: Vec<(&'static str, &'static str)>)
        ensures
            out@ == seq![
                (r"(\.batch_normalization)\.weight$", "$1.gamma"),
                (r"(\.batch_normalization)\.bias$", "$1.beta"),
                (r"^decoder\.stopnet\.1\.linear_layer\.", "decoder.stopnet.linear_layer."),
            ],
    {
        vec![
            (r"(\.batch_normalization)\.weight$", "$1.gamma"),
            (r"(\.batch_normalization)\.bias$", "$1.beta"),
            (r"^decoder\.stopnet\.1\.linear_layer\.", "decoder.stopnet.linear_layer."),
        ]
    }
}

/// The columns of the four gates of a recurrent cell: input, forget, candidate, output.
pub fn gate_columns(hidden_channels: usize) -> (out: [(usize, usize); 4])
    requires
        4 * hidden_channels <= usize::MAX,
    ensures
        out@ == seq![
            (0usize, hidden_channels),
            (hidden_channels, (2 * hidden_channels) as usize),
            ((2 * hidden_channels) as usize, (3 * hidden_channels) as usize),
            ((3 * hidden_channels) as usize, (4 * hidden_channels) as usize),
        ],
{
    let out: [(usize, usize); 4] = [
        (0, hidden_channels),
        (hidden_channels, 2 * hidden_channels),
        (2 * hidden_channels, 3 * hidden_channels),
        (3 * hidden_channels, 4 * hidden_channels),
    ];
    assert(out@ =~= seq![
        (0usize, hidden_channels),
        (hidden_channels, (2 * hidden_channels) as usize),
        ((2 * hidden_channels) as usize, (3 * hidden_channels) as usize),
        ((3 * hidden_channels) as usize, (4 * hidden_channels) as usize),
    ]);
    out
}

/// With the controls of a checkpoint, every step whose stop probability exceeds the checkpoint's
/// threshold ends the decoding, the first one not excepted.
pub proof fn checkpoint_controls_stop_at_any_step(
    config: &TacotronInferenceConfig,
    controls: TacotronControls,
    step: nat,
    stop: Double,
)
    requires
        call_ensures(TacotronControls::from_config, (config,), controls),
    ensures
        controls.ends(step, stop) <==> config.stop_threshold.less(stop),
        controls.max_decoder_steps == config.max_decoder_steps,
{
}

/// A step ends the decoding exactly where the minimum of steps has been taken with it and its stop
/// probability exceeds the threshold.
pub proof fn steps_end_past_minimum_and_threshold(
    controls: TacotronControls,
    taken: nat,
    stop: Double,
)
    requires
        taken > 0,
    ensures
        controls.ends((taken - 1) as nat, stop) <==> controls.minimum_decoder_steps <= taken
            && controls.stop_threshold.less(stop),
{
}

/// Controls are accepted, and unchanged, exactly where the threshold is a probability and the
/// decoder may stop before its limit.
pub proof fn valid_controls_leave_room(
    controls: TacotronControls,
    out: Result<TacotronControls, TacotronError>,
)
    requires
        call_ensures(TacotronControls::validate, (controls,), out),
    ensures
        out is Ok <==> !controls.stop_threshold.nan() && 0 <= controls.stop_threshold.rank()
            <= 0x3FF0_0000_0000_0000 && controls.minimum_decoder_steps
            < controls.max_decoder_steps,
        out matches Ok(kept) ==> kept == controls,
        out is Err ==> out->Err_0 is InvalidInput,
{
}

/// A request with controls of its own decodes by them, and one without by those of the checkpoint,
/// where any step may be the last. A style is used where one is given and drawn where none is,
/// by a checkpoint that has styles, and by no other.
pub proof fn requests_decide_how_to_decode(
    config: &TacotronInferenceConfig,
    tokens: &TokenBatch,
    style: &Option<[usize; 2]>,
    controls: Option<TacotronControls>,
    plan: TacotronPlan,
    step: nat,
    stop: Double,
)
    requires
        call_ensures(
            TacotronInferenceConfig::plan_inference,
            (config, tokens, style, controls),
            Ok::<TacotronPlan, TacotronError>(plan),
        ),
    ensures
        controls matches Some(own) ==> plan.controls == own,
        controls is None ==> (plan.controls.ends(step, stop) <==> config.stop_threshold.less(stop)),
        controls is None ==> plan.controls.max_decoder_steps == config.max_decoder_steps,
        plan.style == StylePlan::Unstyled <==> config.capacitron is None,
        plan.style == StylePlan::Given <==> config.capacitron is Some && style is Some,
        config.capacitron is None ==> style is None,
{
}

/// A single sequence is synthesized exactly where it has tokens, its largest number names a symbol,
/// the decoder may stop before its limit, the encoder halves its channels evenly, and a style, if
/// any, is one that the checkpoint takes.
pub proof fn sequences_are_accepted_on_their_merits(
    config: &TacotronInferenceConfig,
    tokens: &TokenBatch,
    style: &Option<[usize; 2]>,
    controls: Option<TacotronControls>,
    out: Result<TacotronPlan, TacotronError>,
)
    requires
        tokens.wf(),
        call_ensures(
            TacotronInferenceConfig::plan_inference,
            (config, tokens, style, controls),
            out,
        ),
    ensures
        ({
            let threshold = match controls {
                Some(own) => own.stop_threshold,
                None => config.stop_threshold,
            };
            let least = match controls {
                Some(own) => own.minimum_decoder_steps,
                None => 1,
            };
            let most = match controls {
                Some(own) => own.max_decoder_steps,
                None => config.max_decoder_steps,
            };
            out is Ok <==> {
                &&& tokens.batch == 1
                &&& tokens.tokens > 0
                &&& exists|i: int| 0 <= i < tokens.ids.len() && #[trigger] tokens.ids@[i] >= 0
                &&& forall|i: int|
                    0 <= i < tokens.ids.len() ==> #[trigger] tokens.ids@[i] < config.num_chars
                &&& !threshold.nan() && 0 <= threshold.rank() <= 0x3FF0_0000_0000_0000
                &&& least < most
                &&& config.encoder_channels % 2 == 0
                &&& style matches Some(shape) ==> config.capacitron is Some && shape@[0] == 1
                    && shape@[1] == config.capacitron.unwrap().embedding_dim
            }
        }),
{
    if tokens.batch == 1 && tokens.tokens > 0 {
        assert(tokens.ids@.len() == tokens.batch * tokens.tokens);
        assert(tokens.batch * tokens.tokens == tokens.tokens) by (nonlinear_arith)
            requires
                tokens.batch == 1,
        ;
        vocabularies_hold_the_largest(tokens.ids@, config.num_chars as int);
        if let Some(shape) = style {
            if let Some(capacitron) = config.capacitron {
                assert((shape@ =~= seq![tokens.batch, capacitron.embedding_dim]) <==> shape@[0] == 1
                    && shape@[1] == capacitron.embedding_dim);
            }
        }
    }
}

/// What a decoder leaves behind was decided step by step: only its last step can have ended it, and
/// a decoder that ends without one has come to its limit.
pub proof fn only_the_last_step_ends_decoding<S, O, F: Fn(S) -> (S, O, Double)>(
    controls: TacotronControls,
    start: S,
    step: F,
    trace: DecoderTrace<O>,
)
    requires
        call_ensures(decode::<S, O, F>, (controls, start, step), trace),
    ensures
        trace.outputs.len() == trace.stops.len(),
        1 <= trace.stops.len() <= controls.max_decoder_steps,
        forall|k: int|
            0 <= k < trace.stops.len() - 1 && controls.minimum_decoder_steps <= k + 1
                ==> !controls.stop_threshold.less(#[trigger] trace.stops@[k]),
        trace.termination == TacotronTermination::StopToken <==> (controls.minimum_decoder_steps
            <= trace.stops.len() && controls.stop_threshold.less(trace.stops@.last())),
        trace.termination == TacotronTermination::MaximumSteps ==> trace.stops.len()
            == controls.max_decoder_steps,
{
    let states = choose|states: Seq<S>| traced(step, start, states, trace.outputs@, trace.stops@);
    assert forall|k: int|
        0 <= k < trace.stops.len() - 1 && controls.minimum_decoder_steps <= k
            + 1 implies !controls.stop_threshold.less(#[trigger] trace.stops@[k]) by {
        assert(!controls.ends(k as nat, trace.stops@[k]));
    }
}

/// Each output of a decoder comes from the state before it, the first from the start.
pub proof fn decoding_threads_its_state<S, O, F: Fn(S) -> (S, O, Double)>(
    controls: TacotronControls,
    start: S,
    step: F,
    trace: DecoderTrace<O>,
)
    requires
        call_ensures(decode::<S, O, F>, (controls, start, step), trace),
    ensures
        exists|states: Seq<S>|
            {
                &&& #[trigger] states.len() == trace.outputs.len() + 1
                &&& states[0] == start
                &&& forall|k: int|
                    0 <= k < trace.outputs.len() ==> call_ensures(
                        step,
                        (states[k],),
                        (states[k + 1], #[trigger] trace.outputs@[k], trace.stops@[k]),
                    )
            },
{
    let states = choose|states: Seq<S>| traced(step, start, states, trace.outputs@, trace.stops@);
    assert(states.len() == trace.outputs.len() + 1);
}

/// A run into the limit is a failure of the attention, and nothing else is.
pub proof fn limits_are_failures(
    controls: TacotronControls,
    steps: usize,
    termination: TacotronTermination,
    input_tokens: usize,
    last_focus: usize,
    out: Result<usize, TacotronError>,
)
    requires
        call_ensures(
            TacotronControls::conclude,
            (controls, steps, termination, input_tokens, last_focus),
            out,
        ),
    ensures
        out is Err <==> termination == TacotronTermination::MaximumSteps,
        out matches Ok(taken) ==> taken == steps,
        out matches Err(error) ==> error == (TacotronError::AttentionFailure {
            steps: controls.max_decoder_steps,
            input_tokens,
            last_focus,
        }),
{
}

/// The widths of the layers fit each other: what one emits, the next reads. The decoder attends to
/// encodings with their style, reads back one frame of those it emits in a step, and judges its end
/// by all of them.
pub proof fn tacotron_layers_fit(
    config: &TacotronInferenceConfig,
    checked: Result<(), String>,
    topology: Tacotron2Topology,
)
    requires
        config.buildable(),
        call_ensures(
            TacotronInferenceConfig::tacotron2_topology,
            (config, checked),
            Ok::<Tacotron2Topology, TacotronError>(topology),
        ),
    ensures
        checked is Ok,
        config.architecture == TacotronArchitecture::Tacotron2,
        !config.forward_attention && !config.forward_attention_mask && !config.transition_agent
            && !config.attention_windowing,
        topology.embedding.rows == config.num_chars,
        topology.embedding.channels == config.encoder_channels,
        topology.encoder_convolutions.len() == 3,
        forall|i: int|
            0 <= i < 3 ==> {
                let block = #[trigger] topology.encoder_convolutions@[i];
                &&& block.activation == ConvActivation::Relu
                &&& block.convolution.channels_in == config.encoder_channels
                &&& block.convolution.channels_out == config.encoder_channels
                &&& block.convolution.kernel_size == 5
                &&& block.convolution.dilation == 1
            },
        topology.encoder_lstm.channels_in == config.encoder_channels,
        topology.encoder_lstm.hidden_channels == config.encoder_channels / 2,
        ({
            let layers = topology.decoder;
            let style: int = match config.capacitron {
                Some(capacitron) => capacitron.embedding_dim as int,
                None => 0,
            };
            let memory = config.encoder_channels + style;
            &&& layers.prenet_in.channels_in == config.out_channels
            &&& layers.prenet_in.channels_out == layers.prenet_out.channels_in == 256
            &&& layers.prenet_out.channels_out == 256
            &&& !layers.prenet_in.bias && !layers.prenet_out.bias
            &&& layers.attention_rnn.channels_in == 256 + memory
            &&& layers.attention_rnn.hidden_channels == layers.query_layer.channels_in == 1024
            &&& layers.inputs_layer.channels_in == memory
            &&& layers.query_layer.channels_out == layers.inputs_layer.channels_out
                == layers.location_dense.channels_out == layers.v.channels_in == 128
            &&& !layers.query_layer.bias && !layers.inputs_layer.bias && !layers.location_dense.bias
            &&& layers.v.channels_out == 1 && layers.v.bias
            &&& layers.location_conv.channels_in == 2
            &&& layers.location_conv.kernel_size == 31
            &&& layers.location_conv.channels_out == layers.location_dense.channels_in == 32
            &&& layers.decoder_rnn.channels_in == 1024 + memory
            &&& layers.decoder_rnn.hidden_channels == 1024
            &&& layers.linear_projection.channels_in == 1024 + memory
            &&& layers.linear_projection.channels_out == config.out_channels
                * config.reduction_factor
            &&& layers.linear_projection.bias
            &&& layers.stopnet.channels_in == 1024 + config.out_channels * config.reduction_factor
            &&& layers.stopnet.channels_out == 1 && layers.stopnet.bias
        }),
        topology.postnet.len() == 5,
        topology.postnet@[0].convolution.channels_in == config.out_channels,
        topology.postnet@[4].convolution.channels_out == config.out_channels,
        forall|i: int|
            0 <= i < 5 ==> {
                let block = #[trigger] topology.postnet@[i];
                &&& (i > 0 ==> block.convolution.channels_in == 512)
                &&& (i < 4 ==> block.convolution.channels_out == 512)
                &&& block.convolution.kernel_size == 5
                &&& block.convolution.dilation == 1
                &&& block.activation == if i < 4 {
                    ConvActivation::Tanh
                } else {
                    ConvActivation::Linear
                }
            },
{
    assert(0 <= config.out_channels * config.reduction_factor) by (nonlinear_arith);
    assert forall|i: int| 0 <= i < 3 implies {
        let block = #[trigger] topology.encoder_convolutions@[i];
        &&& block.activation == ConvActivation::Relu
        &&& block.convolution.channels_in == config.encoder_channels
        &&& block.convolution.channels_out == config.encoder_channels
        &&& block.convolution.kernel_size == 5
        &&& block.convolution.dilation == 1
    } by {
        assert(topology.encoder_convolutions@[i] == config.encoder_blocks()[i]);
    }
    assert forall|i: int| 0 <= i < 5 implies #[trigger] topology.postnet@[i]
        == config.postnet_blocks()[i] by {}
    assert(topology.postnet@[0] == config.postnet_blocks()[0]);
    assert(topology.postnet@[4] == config.postnet_blocks()[4]);
}

/// A model is built exactly where its configuration was found in order, is one of Tacotron 2, and
/// asks for no other attention than the location-sensitive one.
pub proof fn other_attentions_are_refused(
    config: &TacotronInferenceConfig,
    checked: Result<(), String>,
    out: Result<Tacotron2Topology, TacotronError>,
)
    requires
        call_ensures(TacotronInferenceConfig::tacotron2_topology, (config, checked), out),
    ensures
        out is Ok <==> checked is Ok && config.architecture == TacotronArchitecture::Tacotron2
            && !config.forward_attention && !config.forward_attention_mask
            && !config.transition_agent && !config.attention_windowing,
        checked matches Err(reason) ==> out == Err::<Tacotron2Topology, TacotronError>(
            TacotronError::InvalidConfig(reason),
        ),
{
}

/// The spectrogram of a sequence has a group of frames for each step, and the frame that is read
/// back is the last of a group: the group ends with it, and before it lie whole frames.
pub proof fn the_last_frame_is_read_back(
    config: &TacotronInferenceConfig,
    columns: (usize, usize),
)
    requires
        call_ensures(TacotronInferenceConfig::last_frame, (config,), columns),
        config.reduction_factor > 0,
    ensures
        columns.1 == config.out_channels * config.reduction_factor,
        columns.0 == config.out_channels * (config.reduction_factor - 1),
        columns.1 - columns.0 == config.out_channels,
{
}

/// Taking more steps adds as many frames as steps and groups say, and changes no other dimension.
pub proof fn steps_add_groups_of_frames(
    config: &TacotronInferenceConfig,
    steps: usize,
    more: usize,
    shape: [usize; 3],
    longer: [usize; 3],
)
    requires
        steps <= more,
        more * config.reduction_factor <= usize::MAX,
        call_ensures(TacotronInferenceConfig::mel_shape, (config, steps), shape),
        call_ensures(TacotronInferenceConfig::mel_shape, (config, more), longer),
    ensures
        shape@[0] == longer@[0] == 1,
        shape@[2] == longer@[2] == config.out_channels,
        longer@[1] - shape@[1] == (more - steps) * config.reduction_factor,
        steps == 0 ==> shape@[1] == 0,
{
    assert(steps * config.reduction_factor <= more * config.reduction_factor) by (nonlinear_arith)
        requires
            steps <= more,
    ;
    assert((more - steps) * config.reduction_factor == more * config.reduction_factor - steps
        * config.reduction_factor) by (nonlinear_arith);
    assert(0 <= steps * config.reduction_factor) by (nonlinear_arith);
    assert(steps == 0 ==> steps * config.reduction_factor == 0) by (nonlinear_arith);
}

/// The gates of a cell share its columns: each begins where the one before it ends.
pub proof fn gates_share_columns(hidden_channels: usize, gates: [(usize, usize); 4], gate: int)
    requires
        4 * hidden_channels <= usize::MAX,
        call_ensures(gate_columns, (hidden_channels,), gates),
        0 <= gate < 4,
    ensures
        gates@[gate].0 == gate * hidden_channels,
        gates@[gate].1 == gates@[gate].0 + hidden_channels,
{
    assert(0 * hidden_channels == 0 && 1 * hidden_channels == hidden_channels && 2
        * hidden_channels == hidden_channels + hidden_channels && 3 * hidden_channels
        == hidden_channels + hidden_channels + hidden_channels) by (nonlinear_arith);
}

/// Encodings have a row for each token, and the channels of both directions.
pub proof fn encodings_follow_tokens(
    config: &TacotronInferenceConfig,
    tokens: &TokenBatch,
    shape: [usize; 3],
)
    requires
        call_ensures(TacotronInferenceConfig::encoded_shape, (config, tokens), shape),
    ensures
        shape@[0] == tokens.batch,
        shape@[1] == tokens.tokens,
        shape@[2] == config.encoder_channels - config.encoder_channels % 2,
{
}

/// An error says of what kind it is, and then its reason.
pub proof fn tacotron_errors_say_their_kind(error: &TacotronError, out: String)
    requires
        call_ensures(TacotronError::describe, (error,), out),
    ensures
        error matches TacotronError::InvalidConfig(message) ==> out@ == "invalid Tacotron config: "@ + message@,
        error matches TacotronError::InvalidInput(message) ==> out@ == "invalid Tacotron input: "@ + message@,
        error matches TacotronError::Checkpoint(message) ==> out@ == "unable to load Tacotron checkpoint: "@ + message@,
{
}

/// Encoded tokens are conditioned exactly where they have the channels of the encoder and a style
/// is given only to a checkpoint that has styles, one vector of its width for each item. Without
/// styles there is none; a checkpoint with styles takes the given one or draws one.
pub proof fn styles_are_given_or_drawn(
    config: &TacotronInferenceConfig,
    batch: usize,
    channels: usize,
    style: &Option<[usize; 2]>,
    out: Result<StylePlan, TacotronError>,
)
    requires
        call_ensures(
            TacotronInferenceConfig::plan_conditioning,
            (config, batch, channels, style),
            out,
        ),
    ensures
        out is Ok <==> channels == config.encoder_channels && (style matches Some(shape) ==> (
        config.capacitron matches Some(capacitron) && shape@[0] == batch && shape@[1]
            == capacitron.embedding_dim)),
        out matches Ok(plan) ==> (plan is Unstyled <==> config.capacitron is None) && (plan is Given
            <==> style is Some),
        out matches Err(error) ==> error is InvalidInput,
{
    if let Some(shape) = style {
        if let Some(capacitron) = config.capacitron {
            assert((shape@ =~= seq![batch, capacitron.embedding_dim]) <==> shape@[0] == batch
                && shape@[1] == capacitron.embedding_dim);
        }
    }
}

/// A checkpoint fits exactly where nothing is missing, nothing failed, and nothing learned went
/// unused.
pub proof fn tacotron_checkpoints_fit_exactly(report: &LoadReport, out: Result<(), TacotronError>)
    requires
        call_ensures(TacotronInferenceConfig::check_checkpoint, (report,), out),
    ensures
        out is Ok <==> report.missing.len() == 0 && report.errors.len() == 0 && (forall|i: int|
            0 <= i < report.unused.len() ==> !Subtree::Learned.contains(
                #[trigger] report.unused@[i]@,
            )),
        out matches Err(error) ==> error is Checkpoint,
{
    crate::checkpoint::fitting_leaves_nothing(*report, Subtree::Learned);
}

/// The weight of a normalization becomes its scale, the bias its shift, and the stop layer loses
/// its number.
pub proof fn tacotron_names_are_changed(out: Vec<(&'static str, &'static str)>)
    requires
        call_ensures(TacotronInferenceConfig::key_remappings, (), out),
    ensures
        out.len() == 3,
        out@[0].0@ == r"(\.batch_normalization)\.weight$"@ && out@[0].1@ == "$1.gamma"@,
        out@[1].0@ == r"(\.batch_normalization)\.bias$"@ && out@[1].1@ == "$1.beta"@,
        out@[2].0@ == r"^decoder\.stopnet\.1\.linear_layer\."@ && out@[2].1@
            == "decoder.stopnet.linear_layer."@,
{
}

/// A decoder that did not stop says after how many steps, for how many tokens, and where it looked
/// last, in this order.
pub proof fn failures_of_attention_say_where(
    steps: usize,
    input_tokens: usize,
    last_focus: usize,
    taken: String,
    tokens: String,
    focus: String,
    out: String,
)
    requires
        call_ensures(
            TacotronError::describe,
            (&TacotronError::AttentionFailure { steps, input_tokens, last_focus },),
            out,
        ),
        call_ensures(crate::text::decimal_text, (steps as u64,), taken),
        call_ensures(crate::text::decimal_text, (input_tokens as u64,), tokens),
        call_ensures(crate::text::decimal_text, (last_focus as u64,), focus),
    ensures
        out@ == "Tacotron attention did not emit a stop token after "@ + taken@
            + " decoder steps (input tokens: "@ + tokens@ + ", last attention focus: "@ + focus@
            + "); shorten or rephrase the text, or raise max_decoder_steps only after inspecting the alignment"@,
{
}

} // verus!
