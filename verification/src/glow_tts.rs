//! Glow-TTS: an acoustic model that inverts a normalizing flow.
//!
//! The text encoder gives a Gaussian and a duration per token. Frames drawn from the expanded
//! Gaussians run backwards through the flow, which folds groups of frames into channels.

use vstd::prelude::*;

use crate::checkpoint::{LoadReport, Subtree};
use crate::double::Double;
use crate::expansion::{longest, longest_total, total};
use crate::layers::{
    centered, centered_conv, pointwise, pointwise_conv, Conv, EmbeddingTable,
};
use crate::layout::{entry, fold_frames, is_matrix, unfold_frames, whole_groups};
use crate::speedy_speech::{
    duration_predictor, duration_predictor_layers, DurationPredictorLayers,
};
use crate::text::{
    around_number, around_numbers, decimal, decimal_text, shape_string, shape_text, with_numbers, with_text,
};
use crate::vits::next_seed;

verus! {

/// The most frames that durations may ask for.
pub const DEFAULT_GLOW_MAX_OUTPUT_FRAMES: usize = 65_536;

pub const PRENET_CONVOLUTIONS: usize = 3;

pub const PRENET_KERNEL: usize = 5;

pub const DURATION_KERNEL: usize = 3;

#[derive(Debug, Clone, PartialEq, Eq)]
pub enum GlowTtsError {
    InvalidTopology(String),
    InvalidInput(String),
    Checkpoint(String),
}

impl GlowTtsError {
    pub open spec fn described(self) -> Seq<char> {
        match self {
            GlowTtsError::InvalidTopology(message) => "invalid Glow-TTS topology: "@ + message@,
            GlowTtsError::InvalidInput(message) => "invalid Glow-TTS input: "@ + message@,
            GlowTtsError::Checkpoint(message) => "unable to load Glow-TTS checkpoint: "@ + message@,
        }
    }

    /// The error in words.
    pub fn describe(&self) -> (out: String)
        ensures
            out@ == self.described(),
    {
        match self {
            GlowTtsError::InvalidTopology(message) => with_text(
                "invalid Glow-TTS topology: ",
                message.as_str(),
            ),
            GlowTtsError::InvalidInput(message) => with_text(
                "invalid Glow-TTS input: ",
                message.as_str(),
            ),
            GlowTtsError::Checkpoint(message) => with_text(
                "unable to load Glow-TTS checkpoint: ",
                message.as_str(),
            ),
        }
    }
}

/// The outcome is an accepted topology, or the given fault.
pub open spec fn topology_verdict<T>(out: Result<T, GlowTtsError>, fault: Option<Seq<char>>) -> bool {
    match out {
        Ok(_) => fault is None,
        Err(GlowTtsError::InvalidTopology(message)) => fault == Some(message@),
        Err(_) => false,
    }
}

/// The outcome is an accepted input, or the given fault.
pub open spec fn input_verdict<T>(out: Result<T, GlowTtsError>, fault: Option<Seq<char>>) -> bool {
    match out {
        Ok(_) => fault is None,
        Err(GlowTtsError::InvalidInput(message)) => fault == Some(message@),
        Err(_) => false,
    }
}

fn topology_error<T>(message: String) -> (out: Result<T, GlowTtsError>)
    ensures
        out == Err::<T, GlowTtsError>(GlowTtsError::InvalidTopology(message)),
{
    Err(GlowTtsError::InvalidTopology(message))
}

fn input_error<T>(message: String) -> (out: Result<T, GlowTtsError>)
    ensures
        out == Err::<T, GlowTtsError>(GlowTtsError::InvalidInput(message)),
{
    Err(GlowTtsError::InvalidInput(message))
}

/// Parameters of the transformer in the encoder.
#[derive(Debug, Clone, Copy, PartialEq, Eq, Structural)]
pub struct GlowTtsEncoderConfig {
    pub kernel_size: usize,
    pub num_layers: usize,
    pub num_heads: usize,
    pub hidden_channels_ffn: usize,
    pub rel_attn_window_size: Option<usize>,
}

/// The network section of a Glow-TTS configuration.
#[derive(Debug, Clone, Copy, PartialEq, Eq, Structural)]
pub struct GlowTtsNetworkConfig {
    pub num_chars: usize,
    pub out_channels: usize,
    pub hidden_channels_enc: usize,
    pub hidden_channels_dec: usize,
    pub hidden_channels_dp: usize,
    pub encoder_params: GlowTtsEncoderConfig,
    pub mean_only: bool,
    pub num_flow_blocks_dec: usize,
    pub kernel_size_dec: usize,
    pub dilation_rate: usize,
    pub num_block_layers: usize,
    pub num_splits: usize,
    pub num_squeeze: usize,
    pub sigmoid_scale: bool,
    pub use_sdp: bool,
    pub speaker_conditioning_channels: usize,
    pub length_scale: Double,
    pub inference_noise_scale: Double,
    pub inference_noise_scale_dp: Double,
}

/// The attention of the encoder.
#[derive(Debug, Clone, Copy, PartialEq, Eq, Structural)]
pub struct GlowAttention {
    pub channels: usize,
    pub num_heads: usize,
    pub channels_per_head: usize,
    /// The table of relative positions, where the attention knows them.
    pub relative: Option<EmbeddingTable>,
}

/// The layers of the text encoder.
#[derive(Debug, Clone, Copy, PartialEq, Eq, Structural)]
pub struct GlowEncoderTopology {
    pub embedding: EmbeddingTable,
    pub prenet_layers: usize,
    pub prenet: Conv,
    pub prenet_projection: Conv,
    pub layers: usize,
    pub attention: GlowAttention,
    pub feed_forward_in: Conv,
    pub feed_forward_out: Conv,
    pub proj_m: Conv,
    pub proj_s: Option<Conv>,
    pub duration_predictor: DurationPredictorLayers,
    pub conditioning_channels: usize,
}

/// The dilated network inside a coupling.
#[derive(Debug, Clone, Copy, PartialEq, Eq, Structural)]
pub struct GlowWaveNet {
    pub hidden_channels: usize,
    pub kernel_size: usize,
    pub dilation_rate: usize,
    pub num_layers: usize,
    pub conditioning_channels: usize,
}

/// The layers of the flow.
#[derive(Debug, Clone, Copy, PartialEq, Eq, Structural)]
pub struct GlowDecoderTopology {
    pub blocks: usize,
    pub channels: usize,
    pub num_splits: usize,
    pub half_channels: usize,
    pub start: Conv,
    pub end: Conv,
    pub wavenet: GlowWaveNet,
    pub sigmoid_scale: bool,
    pub num_squeeze: usize,
    pub conditioning_channels: usize,
}

/// A convolution padded before and after, the odd frame after.
pub open spec fn trailing(channels_in: usize, channels_out: usize, kernel_size: usize) -> Conv {
    Conv {
        channels_in,
        channels_out,
        kernel_size,
        dilation: 1,
        pad_left: ((kernel_size - 1) / 2) as usize,
        pad_right: (kernel_size / 2) as usize,
    }
}

fn trailing_conv(channels_in: usize, channels_out: usize, kernel_size: usize) -> (out: Conv)
    requires
        kernel_size > 0,
    ensures
        out == trailing(channels_in, channels_out, kernel_size),
{
    Conv {
        channels_in,
        channels_out,
        kernel_size,
        dilation: 1,
        pad_left: (kernel_size - 1) / 2,
        pad_right: kernel_size / 2,
    }
}

impl GlowTtsNetworkConfig {
    /// The layer sizes are representable, and nothing that divides is zero.
    pub open spec fn buildable(self) -> bool {
        &&& self.encoder_params.num_heads > 0
        &&& self.encoder_params.kernel_size > 0
        &&& self.encoder_params.rel_attn_window_size matches Some(window) ==> 2 * window + 1
            <= usize::MAX
        &&& self.hidden_channels_enc + self.speaker_conditioning_channels <= usize::MAX
        &&& self.out_channels * self.num_squeeze <= usize::MAX
    }

    /// The layers of the text encoder.
    pub open spec fn encoder_built(self) -> GlowEncoderTopology {
        let channels = self.hidden_channels_enc;
        let params = self.encoder_params;
        let per_head = (channels / params.num_heads) as usize;
        GlowEncoderTopology {
            embedding: EmbeddingTable { rows: self.num_chars, channels },
            prenet_layers: PRENET_CONVOLUTIONS,
            prenet: centered(channels, channels, PRENET_KERNEL),
            prenet_projection: pointwise(channels, channels),
            layers: params.num_layers,
            attention: GlowAttention {
                channels,
                num_heads: params.num_heads,
                channels_per_head: per_head,
                relative: match params.rel_attn_window_size {
                    Some(window) => Some(
                        EmbeddingTable { rows: (2 * window + 1) as usize, channels: per_head },
                    ),
                    None => None,
                },
            },
            feed_forward_in: trailing(channels, params.hidden_channels_ffn, params.kernel_size),
            feed_forward_out: trailing(params.hidden_channels_ffn, channels, params.kernel_size),
            proj_m: pointwise(channels, self.out_channels),
            proj_s: if self.mean_only {
                None
            } else {
                Some(pointwise(channels, self.out_channels))
            },
            duration_predictor: duration_predictor(
                (channels + self.speaker_conditioning_channels) as usize,
                self.hidden_channels_dp,
                DURATION_KERNEL,
            ),
            conditioning_channels: self.speaker_conditioning_channels,
        }
    }

    /// The layers of the flow.
    pub open spec fn decoder_built(self) -> GlowDecoderTopology {
        let channels = (self.out_channels * self.num_squeeze) as usize;
        GlowDecoderTopology {
            blocks: self.num_flow_blocks_dec,
            channels,
            num_splits: self.num_splits,
            half_channels: channels / 2,
            start: pointwise(channels / 2, self.hidden_channels_dec),
            end: pointwise(self.hidden_channels_dec, channels),
            wavenet: GlowWaveNet {
                hidden_channels: self.hidden_channels_dec,
                kernel_size: self.kernel_size_dec,
                dilation_rate: self.dilation_rate,
                num_layers: self.num_block_layers,
                conditioning_channels: self.speaker_conditioning_channels,
            },
            sigmoid_scale: self.sigmoid_scale,
            num_squeeze: self.num_squeeze,
            conditioning_channels: self.speaker_conditioning_channels,
        }
    }

    /// The layers of the text encoder, given the verdict on the rest of the configuration.
    pub fn encoder_topology(&self, checked: Result<(), String>) -> (out: Result<
        GlowEncoderTopology,
        GlowTtsError,
    >)
        requires
            checked is Ok ==> self.buildable(),
        ensures
            out == (match checked {
                Ok(_) => Ok::<GlowEncoderTopology, GlowTtsError>(self.encoder_built()),
                Err(reason) => Err(GlowTtsError::InvalidTopology(reason)),
            }),
    {
        if let Err(reason) = checked {
            return Err(GlowTtsError::InvalidTopology(reason));
        }
        let channels: usize = self.hidden_channels_enc;
        let params = self.encoder_params;
        let per_head: usize = channels / params.num_heads;
        let relative = match params.rel_attn_window_size {
            Some(window) => Some(EmbeddingTable { rows: 2 * window + 1, channels: per_head }),
            None => None,
        };
        let proj_s = if self.mean_only {
            None
        } else {
            Some(pointwise_conv(channels, self.out_channels))
        };
        Ok(
            GlowEncoderTopology {
                embedding: EmbeddingTable { rows: self.num_chars, channels },
                prenet_layers: PRENET_CONVOLUTIONS,
                prenet: centered_conv(channels, channels, PRENET_KERNEL),
                prenet_projection: pointwise_conv(channels, channels),
                layers: params.num_layers,
                attention: GlowAttention {
                    channels,
                    num_heads: params.num_heads,
                    channels_per_head: per_head,
                    relative,
                },
                feed_forward_in: trailing_conv(
                    channels,
                    params.hidden_channels_ffn,
                    params.kernel_size,
                ),
                feed_forward_out: trailing_conv(
                    params.hidden_channels_ffn,
                    channels,
                    params.kernel_size,
                ),
                proj_m: pointwise_conv(channels, self.out_channels),
                proj_s,
                duration_predictor: duration_predictor_layers(
                    channels + self.speaker_conditioning_channels,
                    self.hidden_channels_dp,
                    DURATION_KERNEL,
                ),
                conditioning_channels: self.speaker_conditioning_channels,
            },
        )
    }

    /// The layers of the flow, given the verdict on the rest of the configuration.
    pub fn decoder_topology(&self, checked: Result<(), String>) -> (out: Result<
        GlowDecoderTopology,
        GlowTtsError,
    >)
        requires
            checked is Ok ==> self.buildable(),
        ensures
            out == (match checked {
                Ok(_) => Ok::<GlowDecoderTopology, GlowTtsError>(self.decoder_built()),
                Err(reason) => Err(GlowTtsError::InvalidTopology(reason)),
            }),
    {
        if let Err(reason) = checked {
            return Err(GlowTtsError::InvalidTopology(reason));
        }
        let channels: usize = self.out_channels * self.num_squeeze;
        Ok(
            GlowDecoderTopology {
                blocks: self.num_flow_blocks_dec,
                channels,
                num_splits: self.num_splits,
                half_channels: channels / 2,
                start: pointwise_conv(channels / 2, self.hidden_channels_dec),
                end: pointwise_conv(self.hidden_channels_dec, channels),
                wavenet: GlowWaveNet {
                    hidden_channels: self.hidden_channels_dec,
                    kernel_size: self.kernel_size_dec,
                    dilation_rate: self.dilation_rate,
                    num_layers: self.num_block_layers,
                    conditioning_channels: self.speaker_conditioning_channels,
                },
                sigmoid_scale: self.sigmoid_scale,
                num_squeeze: self.num_squeeze,
                conditioning_channels: self.speaker_conditioning_channels,
            },
        )
    }

    /// Whether the model with predicted durations serves the network.
    pub fn check_deterministic(&self) -> (out: Result<(), GlowTtsError>)
        ensures
            topology_verdict(
                out,
                if self.use_sdp {
                    Some(
                        "use_sdp requires the stochastic-duration adapter, not deterministic GlowTts"@,
                    )
                } else {
                    None
                },
            ),
    {
        if self.use_sdp {
            return topology_error(
                "use_sdp requires the stochastic-duration adapter, not deterministic GlowTts".to_owned(),
            );
        }
        Ok(())
    }

    /// Whether the model with drawn durations serves the network.
    pub fn check_stochastic(&self) -> (out: Result<(), GlowTtsError>)
        ensures
            topology_verdict(
                out,
                if self.use_sdp {
                    None
                } else {
                    Some("stochastic Glow-TTS requires use_sdp=true"@)
                },
            ),
    {
        if !self.use_sdp {
            return topology_error("stochastic Glow-TTS requires use_sdp=true".to_owned());
        }
        Ok(())
    }
}

/// The convolutions of the encoder keep the length of a sequence.
pub proof fn encoder_keeps_length(network: GlowTtsNetworkConfig, length: int)
    requires
        network.buildable(),
    ensures
        ({
            let topology = network.encoder_built();
            &&& topology.prenet.output_length(length) == length
            &&& topology.prenet_projection.output_length(length) == length
            &&& topology.feed_forward_in.output_length(length) == length
            &&& topology.feed_forward_out.output_length(length) == length
            &&& topology.proj_m.output_length(length) == length
            &&& topology.duration_predictor.conv_1.output_length(length) == length
            &&& topology.duration_predictor.conv_2.output_length(length) == length
            &&& topology.duration_predictor.proj.output_length(length) == length
        }),
{
}

/// The part of a checkpoint that the encoder takes: drawn durations have a predictor of their
/// own.
pub open spec fn encoder_part(deterministic_duration: bool) -> Subtree {
    if deterministic_duration {
        Subtree::GlowEncoder
    } else {
        Subtree::GlowEncoderWithoutDuration
    }
}

/// Whether a checkpoint fits the encoder exactly.
pub fn check_encoder_checkpoint(report: &LoadReport, deterministic_duration: bool) -> (out: Result<
    (),
    GlowTtsError,
>)
    ensures
        ({
            let part = encoder_part(deterministic_duration);
            match out {
                Ok(_) => report.fits(part),
                Err(GlowTtsError::Checkpoint(message)) => !report.fits(part) && message@
                    == report.listed(
                    "encoder subtree does not exactly match the Burn module: missing ["@,
                    part,
                ),
                Err(_) => false,
            }
        }),
{
    let part = if deterministic_duration {
        Subtree::GlowEncoder
    } else {
        Subtree::GlowEncoderWithoutDuration
    };
    match report.fault_listed(
        "encoder subtree does not exactly match the Burn module: missing [",
        part,
    ) {
        None => Ok(()),
        Some(message) => Err(GlowTtsError::Checkpoint(message)),
    }
}

/// Whether a checkpoint fits the flow exactly.
pub fn check_decoder_checkpoint(report: &LoadReport) -> (out: Result<(), GlowTtsError>)
    ensures
        match out {
            Ok(_) => report.fits(Subtree::GlowDecoder),
            Err(GlowTtsError::Checkpoint(message)) => !report.fits(Subtree::GlowDecoder)
                && message@ == report.listed(
                "decoder subtree does not exactly match the Burn module: missing ["@,
                Subtree::GlowDecoder,
            ),
            Err(_) => false,
        },
{
    match report.fault_listed(
        "decoder subtree does not exactly match the Burn module: missing [",
        Subtree::GlowDecoder,
    ) {
        None => Ok(()),
        Some(message) => Err(GlowTtsError::Checkpoint(message)),
    }
}

/// How checkpoint names of the encoder become parameter names, as patterns and replacements.
pub fn encoder_remappings() -> (out: Vec<(&'static str, &'static str)>)
    ensures
        out@ == seq![(r"^encoder\.", "")],
{
    vec![(r"^encoder\.", "")]
}

/// The pattern of the `k`-th step of a flow.
pub open spec fn flow_pattern(k: nat) -> Seq<char> {
    r"^decoder\.flows\."@ + decimal(k) + r"\."@
}

/// The name of a part of a block.
pub open spec fn block_part(block: nat, part: nat) -> Seq<char> {
    "blocks."@ + decimal(block) + (if part == 0 {
        ".act_norm."@
    } else if part == 1 {
        ".inv_conv."@
    } else {
        ".coupling."@
    })
}

/// The parts of the blocks of a flow, in order: three steps of the checkpoint make one block.
pub open spec fn is_flow_remapping(remappings: Seq<(String, String)>, blocks: nat) -> bool {
    &&& remappings.len() == 3 * blocks
    &&& forall|k: int|
        0 <= k < remappings.len() ==> (#[trigger] remappings[k]).0@ == flow_pattern(k as nat)
            && remappings[k].1@ == block_part((k / 3) as nat, (k % 3) as nat)
}

/// How checkpoint names of the flow become parameter names, as patterns and replacements.
pub fn decoder_remappings(blocks: usize) -> (out: Vec<(String, String)>)
    requires
        3 * blocks <= usize::MAX,
    ensures
        is_flow_remapping(out@, blocks as nat),
{
    let mut out: Vec<(String, String)> = Vec::new();
    let mut block: usize = 0;
    while block < blocks
        invariant
            block <= blocks,
            3 * blocks <= usize::MAX,
            is_flow_remapping(out@, block as nat),
        decreases blocks - block,
    {
        let first: usize = block * 3;
        let ghost before = out@;
        out.push(
            (
                around_number(r"^decoder\.flows\.", first, r"\."),
                around_number("blocks.", block, ".act_norm."),
            ),
        );
        out.push(
            (
                around_number(r"^decoder\.flows\.", first + 1, r"\."),
                around_number("blocks.", block, ".inv_conv."),
            ),
        );
        out.push(
            (
                around_number(r"^decoder\.flows\.", first + 2, r"\."),
                around_number("blocks.", block, ".coupling."),
            ),
        );
        proof {
            assert forall|k: int| 0 <= k < out@.len() implies (#[trigger] out@[k]).0@
                == flow_pattern(k as nat) && out@[k].1@ == block_part(
                (k / 3) as nat,
                (k % 3) as nat,
            ) by {
                if k < before.len() {
                    assert(out@[k] == before[k]);
                }
            }
        }
        block = block + 1;
    }
    out
}

/// Conditioning is given exactly where the model takes it, with one frame or one per token.
pub open spec fn conditioning_fault(
    conditioning: Option<Seq<usize>>,
    batch: usize,
    channels: usize,
    tokens: usize,
) -> Option<Seq<char>> {
    match conditioning {
        None => if channels == 0 {
            None
        } else {
            Some("speaker conditioning is required by this SC-GlowTTS model"@)
        },
        Some(shape) => if channels == 0 {
            Some("speaker conditioning was supplied to a single-speaker Glow-TTS model"@)
        } else if shape[0] == batch && shape[1] == channels && (shape[2] == 1 || shape[2]
            == tokens) {
            None
        } else {
            Some(
                "speaker conditioning shape "@ + shape_text(shape) + "; expected ["@ + decimal(
                    batch as nat,
                ) + ", "@ + decimal(channels as nat) + ", 1 or "@ + decimal(tokens as nat) + "]"@,
            )
        },
    }
}

/// The dimensions of an optional tensor.
pub open spec fn dims_of(shape: Option<[usize; 3]>) -> Option<Seq<usize>> {
    match shape {
        Some(shape) => Some(shape@),
        None => None,
    }
}

/// Whether conditioning of the given shape fits.
pub fn check_conditioning(
    conditioning: &Option<[usize; 3]>,
    batch: usize,
    channels: usize,
    tokens: usize,
) -> (out: Result<(), GlowTtsError>)
    ensures
        input_verdict(out, conditioning_fault(dims_of(*conditioning), batch, channels, tokens)),
{
    match conditioning {
        None => {
            if channels != 0 {
                return input_error(
                    "speaker conditioning is required by this SC-GlowTTS model".to_owned(),
                );
            }
        },
        Some(shape) => {
            if channels == 0 {
                return input_error(
                    "speaker conditioning was supplied to a single-speaker Glow-TTS model".to_owned(),
                );
            }
            if shape[0] != batch || shape[1] != channels || (shape[2] != 1 && shape[2] != tokens) {
                let mut message = with_text(
                    "speaker conditioning shape ",
                    shape_string(shape.as_slice()).as_str(),
                );
                message.append("; expected [");
                message.append(decimal_text(batch as u64).as_str());
                message.append(", ");
                message.append(decimal_text(channels as u64).as_str());
                message.append(", 1 or ");
                message.append(decimal_text(tokens as u64).as_str());
                message.append("]");
                return input_error(message);
            }
        },
    }
    Ok(())
}

/// Every batch item has tokens and a length.
pub open spec fn tokens_fault(batch: usize, tokens: usize, lengths: usize) -> Option<Seq<char>> {
    if batch == 0 || tokens == 0 || lengths != batch {
        Some("tokens and lengths must have non-empty matching batches"@)
    } else {
        None
    }
}

impl GlowTtsNetworkConfig {
    /// The first reason why tokens cannot be encoded.
    pub open spec fn encoding_fault(
        self,
        batch: usize,
        tokens: usize,
        lengths: usize,
        conditioning: Option<Seq<usize>>,
    ) -> Option<Seq<char>> {
        match tokens_fault(batch, tokens, lengths) {
            Some(fault) => Some(fault),
            None => conditioning_fault(
                conditioning,
                batch,
                self.speaker_conditioning_channels,
                tokens,
            ),
        }
    }

    /// Whether tokens can be encoded.
    pub fn check_encoding(
        &self,
        batch: usize,
        tokens: usize,
        lengths: usize,
        conditioning: &Option<[usize; 3]>,
    ) -> (out: Result<(), GlowTtsError>)
        ensures
            input_verdict(
                out,
                self.encoding_fault(batch, tokens, lengths, dims_of(*conditioning)),
            ),
    {
        if batch == 0 || tokens == 0 || lengths != batch {
            return input_error(
                "tokens and lengths must have non-empty matching batches".to_owned(),
            );
        }
        check_conditioning(conditioning, batch, self.speaker_conditioning_channels, tokens)
    }

    /// The first reason why features cannot run backwards through the flow.
    pub open spec fn reverse_fault(
        self,
        input: Seq<usize>,
        mask: Seq<usize>,
        conditioning: Option<Seq<usize>>,
    ) -> Option<Seq<char>> {
        if input[1] != self.out_channels {
            Some(
                "Glow decoder input has "@ + decimal(input[1] as nat) + " channels; expected "@
                    + decimal(self.out_channels as nat) + " before squeeze"@,
            )
        } else if mask != seq![input[0], 1, input[2]] {
            Some(
                "Glow decoder mask shape "@ + shape_text(mask) + "; expected "@ + shape_text(
                    seq![input[0], 1, input[2]],
                ),
            )
        } else {
            match conditioning_fault(
                conditioning,
                input[0],
                self.speaker_conditioning_channels,
                input[2],
            ) {
                Some(fault) => Some(fault),
                None => if input[2] < self.num_squeeze {
                    Some("Glow decoder duration path is shorter than its squeeze factor"@)
                } else {
                    None
                },
            }
        }
    }

    /// The frames that come out of the flow for features of the given shape: whole groups only.
    pub fn plan_reverse(
        &self,
        input: &[usize; 3],
        mask: &[usize; 3],
        conditioning: &Option<[usize; 3]>,
    ) -> (out: Result<usize, GlowTtsError>)
        requires
            self.num_squeeze > 0,
        ensures
            input_verdict(out, self.reverse_fault(input@, mask@, dims_of(*conditioning))),
            out matches Ok(frames) ==> frames == whole_groups(
                input@[2] as int,
                self.num_squeeze as int,
            ) && 0 < frames <= input@[2],
    {
        if input[1] != self.out_channels {
            return input_error(
                around_numbers(
                    "Glow decoder input has ",
                    input[1],
                    " channels; expected ",
                    self.out_channels,
                    " before squeeze",
                ),
            );
        }
        let expected: [usize; 3] = [input[0], 1, input[2]];
        assert(expected@ =~= seq![input[0], 1, input[2]]);
        let same = mask[0] == expected[0] && mask[1] == expected[1] && mask[2] == expected[2];
        assert(same == (mask@ =~= expected@));
        if !same {
            let mut message = with_text(
                "Glow decoder mask shape ",
                shape_string(mask.as_slice()).as_str(),
            );
            message.append("; expected ");
            message.append(shape_string(expected.as_slice()).as_str());
            return input_error(message);
        }
        check_conditioning(conditioning, input[0], self.speaker_conditioning_channels, input[2])?;
        proof {
            groups_of(input[2] as int, self.num_squeeze as int);
        }
        let truncated: usize = input[2] / self.num_squeeze * self.num_squeeze;
        if truncated == 0 {
            return input_error(
                "Glow decoder duration path is shorter than its squeeze factor".to_owned(),
            );
        }
        Ok(truncated)
    }

    /// Folds the frames of one batch item for the flow.
    pub fn squeeze<T: Copy>(&self, values: &Vec<Vec<T>>, mask: &Vec<bool>, zero: T) -> (out: (
        Vec<Vec<T>>,
        Vec<bool>,
    ))
        requires
            self.num_squeeze > 0,
            is_matrix(values@, values.len() as int, mask.len() as int),
            values.len() * self.num_squeeze <= usize::MAX,
        ensures
            out.1.len() == mask.len() / self.num_squeeze,
            forall|t: int|
                0 <= t < out.1.len() ==> #[trigger] out.1@[t] == mask@[t * self.num_squeeze
                    + self.num_squeeze - 1],
            is_matrix(
                out.0@,
                values.len() * self.num_squeeze,
                (mask.len() / self.num_squeeze) as int,
            ),
            forall|k: int, c: int, t: int|
                #![trigger entry(out.0@, k * values.len() + c, t)]
                0 <= k < self.num_squeeze && 0 <= c < values.len() && 0 <= t < mask.len()
                    / self.num_squeeze ==> entry(out.0@, k * values.len() + c, t)
                    == if out.1@[t] {
                    entry(values@, c, t * self.num_squeeze + k)
                } else {
                    zero
                },
    {
        fold_frames(values, mask, self.num_squeeze, zero)
    }

    /// Unfolds the frames of one batch item after the flow.
    pub fn unsqueeze<T: Copy>(&self, values: &Vec<Vec<T>>, mask: &Vec<bool>, zero: T) -> (out: Vec<
        Vec<T>,
    >)
        requires
            self.num_squeeze > 0,
            is_matrix(values@, self.out_channels * self.num_squeeze, mask.len() as int),
            self.out_channels * self.num_squeeze <= usize::MAX,
            mask.len() * self.num_squeeze <= usize::MAX,
        ensures
            is_matrix(out@, self.out_channels as int, mask.len() * self.num_squeeze),
            forall|k: int, c: int, t: int|
                #![trigger entry(out@, c, t * self.num_squeeze + k)]
                0 <= k < self.num_squeeze && 0 <= c < self.out_channels && 0 <= t < mask.len()
                    ==> entry(out@, c, t * self.num_squeeze + k) == if mask@[t] {
                    entry(values@, k * self.out_channels + c, t)
                } else {
                    zero
                },
    {
        unfold_frames(values, mask, self.out_channels, self.num_squeeze, zero)
    }
}

proof fn groups_of(frames: int, factor: int)
    requires
        0 <= frames,
        0 < factor,
    ensures
        0 <= frames / factor * factor <= frames,
        frames / factor * factor == 0 <==> frames < factor,
{
    vstd::arithmetic::div_mod::lemma_fundamental_div_mod(frames, factor);
    let groups = frames / factor;
    assert(groups * factor == factor * groups) by (nonlinear_arith);
    assert(0 <= frames % factor < factor);
    if frames < factor {
        vstd::arithmetic::div_mod::lemma_basic_div(frames, factor);
        assert(groups * factor == 0) by (nonlinear_arith)
            requires
                groups == 0,
        ;
    } else {
        assert(groups >= 1) by (nonlinear_arith)
            requires
                frames == factor * groups + frames % factor,
                frames % factor < factor,
                frames >= factor,
                factor > 0,
        ;
        assert(groups * factor >= factor) by (nonlinear_arith)
            requires
                groups >= 1,
                factor > 0,
        ;
    }
    assert(0 <= groups * factor) by (nonlinear_arith)
        requires
            frames == factor * groups + frames % factor,
            frames % factor < factor,
            frames >= 0,
            factor > 0,
    ;
}

/// How durations are found.
#[derive(Debug, Clone, Copy, PartialEq, Eq, Structural)]
pub enum GlowDurations {
    /// By a predictor.
    Deterministic,
    /// By a flow of their own.
    Stochastic,
}

impl GlowDurations {
    /// The first reason why the controls are refused.
    pub open spec fn controls_fault(
        self,
        length_scale: Double,
        acoustic_noise_scale: Double,
        duration_noise_scale: Double,
    ) -> Option<Seq<char>> {
        if !length_scale.finite_positive() {
            Some("length_scale must be finite and positive"@)
        } else if !acoustic_noise_scale.finite_non_negative() {
            Some("acoustic noise_scale must be finite and non-negative"@)
        } else if self == GlowDurations::Stochastic && !duration_noise_scale.finite_non_negative() {
            Some("duration noise_scale must be finite and non-negative"@)
        } else {
            None
        }
    }

    /// Whether the controls are in bounds.
    pub fn check_controls(
        self,
        length_scale: Double,
        acoustic_noise_scale: Double,
        duration_noise_scale: Double,
    ) -> (out: Result<(), GlowTtsError>)
        ensures
            input_verdict(
                out,
                self.controls_fault(length_scale, acoustic_noise_scale, duration_noise_scale),
            ),
    {
        if !length_scale.is_finite_positive() {
            return input_error("length_scale must be finite and positive".to_owned());
        }
        if !acoustic_noise_scale.is_finite_non_negative() {
            return input_error("acoustic noise_scale must be finite and non-negative".to_owned());
        }
        if self == GlowDurations::Stochastic && !duration_noise_scale.is_finite_non_negative() {
            return input_error("duration noise_scale must be finite and non-negative".to_owned());
        }
        Ok(())
    }

    /// The seed of the acoustic noise: apart from that of the durations, where those are drawn.
    pub fn acoustic_seed(self, seed: Option<u64>) -> (out: Option<u64>)
        ensures
            out == (match (self, seed) {
                (_, None) => None,
                (GlowDurations::Deterministic, Some(value)) => Some(value),
                (GlowDurations::Stochastic, Some(value)) => Some(next_seed(value)),
            }),
    {
        match (self, seed) {
            (_, None) => None,
            (GlowDurations::Deterministic, Some(value)) => Some(value),
            (GlowDurations::Stochastic, Some(value)) => Some(value.wrapping_add(1)),
        }
    }

    /// The first reason why a batch cannot be synthesized.
    pub open spec fn inference_fault(
        self,
        network: GlowTtsNetworkConfig,
        batch: usize,
        tokens: usize,
        lengths: usize,
        conditioning: Option<Seq<usize>>,
        length_scale: Double,
        acoustic_noise_scale: Double,
        duration_noise_scale: Double,
    ) -> Option<Seq<char>> {
        match self.controls_fault(length_scale, acoustic_noise_scale, duration_noise_scale) {
            Some(fault) => Some(fault),
            None => network.encoding_fault(batch, tokens, lengths, conditioning),
        }
    }

    /// Whether a batch can be synthesized.
    pub fn check_inference(
        self,
        network: &GlowTtsNetworkConfig,
        batch: usize,
        tokens: usize,
        lengths: usize,
        conditioning: &Option<[usize; 3]>,
        length_scale: Double,
        acoustic_noise_scale: Double,
        duration_noise_scale: Double,
    ) -> (out: Result<(), GlowTtsError>)
        ensures
            input_verdict(
                out,
                self.inference_fault(
                    *network,
                    batch,
                    tokens,
                    lengths,
                    dims_of(*conditioning),
                    length_scale,
                    acoustic_noise_scale,
                    duration_noise_scale,
                ),
            ),
    {
        self.check_controls(length_scale, acoustic_noise_scale, duration_noise_scale)?;
        network.check_encoding(batch, tokens, lengths, conditioning)
    }

    /// What is said of a predictor that emits no number.
    pub open spec fn not_finite(self) -> Seq<char> {
        match self {
            GlowDurations::Deterministic => "Glow duration predictor emitted a non-finite value"@,
            GlowDurations::Stochastic =>
                "stochastic duration predictor emitted a non-finite value"@,
        }
    }

    /// Logarithmic durations and their mask have one channel.
    pub open spec fn logits_fault(self, logits: Seq<usize>, mask: Seq<usize>) -> Option<Seq<char>> {
        if logits[1] != 1 || mask != seq![logits[0], 1, logits[2]] {
            Some(
                match self {
                    GlowDurations::Deterministic =>
                        "Glow duration logits and mask must use [batch, 1, tokens]"@,
                    GlowDurations::Stochastic =>
                        "stochastic duration logits and mask must use [batch, 1, tokens]"@,
                },
            )
        } else {
            None
        }
    }

    /// Whether logarithmic durations and their mask have one channel.
    pub fn check_logits(self, logits: &[usize; 3], mask: &[usize; 3]) -> (out: Result<
        (),
        GlowTtsError,
    >)
        ensures
            input_verdict(out, self.logits_fault(logits@, mask@)),
    {
        let same = mask[0] == logits[0] && mask[1] == 1 && mask[2] == logits[2];
        assert(same == (mask@ =~= seq![logits[0], 1, logits[2]]));
        if logits[1] != 1 || !same {
            return match self {
                GlowDurations::Deterministic => input_error(
                    "Glow duration logits and mask must use [batch, 1, tokens]".to_owned(),
                ),
                GlowDurations::Stochastic => input_error(
                    "stochastic duration logits and mask must use [batch, 1, tokens]".to_owned(),
                ),
            };
        }
        Ok(())
    }

    /// Rounds predicted durations up to frames, at least one for each valid token.
    pub fn ceil_durations(
        self,
        predicted: &Vec<Vec<Double>>,
        valid: &Vec<Vec<bool>>,
        max_output_frames: usize,
    ) -> (out: Result<Vec<Vec<usize>>, GlowTtsError>)
        requires
            same_rows(predicted@, valid@),
        ensures
            input_verdict(
                out,
                if all_rows_finite(predicted@) {
                    frames_fault(asked(ceiled(predicted@, valid@)), max_output_frames)
                } else {
                    Some(self.not_finite())
                },
            ),
            out matches Ok(durations) ==> row_views(durations@) == ceiled(predicted@, valid@),
    {
        let mut durations: Vec<Vec<usize>> = Vec::new();
        let mut b: usize = 0;
        while b < predicted.len()
            invariant
                b <= predicted.len(),
                same_rows(predicted@, valid@),
                durations.len() == b,
                forall|k: int| 0 <= k < b ==> row_finite((#[trigger] predicted@[k])@),
                forall|k: int|
                    0 <= k < b ==> (#[trigger] durations@[k])@ == ceiled_row(
                        predicted@[k]@,
                        valid@[k]@,
                    ),
            decreases predicted.len() - b,
        {
            match ceil_row(&predicted[b], &valid[b]) {
                Some(row) => {
                    durations.push(row);
                },
                None => {
                    return match self {
                        GlowDurations::Deterministic => input_error(
                            "Glow duration predictor emitted a non-finite value".to_owned(),
                        ),
                        GlowDurations::Stochastic => input_error(
                            "stochastic duration predictor emitted a non-finite value".to_owned(),
                        ),
                    };
                },
            }
            b = b + 1;
        }
        assert(row_views(durations@) =~= ceiled(predicted@, valid@));
        check_frames(&durations, max_output_frames)?;
        Ok(durations)
    }
}

/// Drawn durations and the acoustic noise never share a seed.
pub proof fn stochastic_seeds_differ(seed: u64)
    ensures
        next_seed(seed) != seed,
{
}

/// Values and their mask have the same rows.
pub open spec fn same_rows(values: Seq<Vec<Double>>, valid: Seq<Vec<bool>>) -> bool {
    &&& values.len() == valid.len()
    &&& forall|b: int| 0 <= b < values.len() ==> (#[trigger] values[b]).len() == valid[b].len()
}

pub open spec fn row_finite(row: Seq<Double>) -> bool {
    forall|i: int| 0 <= i < row.len() ==> (#[trigger] row[i]).finite()
}

pub open spec fn all_rows_finite(rows: Seq<Vec<Double>>) -> bool {
    forall|b: int| 0 <= b < rows.len() ==> row_finite((#[trigger] rows[b])@)
}

/// The frames of a predicted duration: at least one for a valid token, none for padding.
pub open spec fn ceiled_frames(value: Double, valid: bool) -> usize {
    if !valid {
        0
    } else if value.ceiling() < 1 {
        1
    } else {
        value.ceiling() as usize
    }
}

pub open spec fn ceiled_row(row: Seq<Double>, valid: Seq<bool>) -> Seq<usize> {
    Seq::new(row.len(), |i: int| ceiled_frames(row[i], valid[i]))
}

/// The rounded durations of every row.
pub open spec fn ceiled(rows: Seq<Vec<Double>>, valid: Seq<Vec<bool>>) -> Seq<Seq<usize>> {
    Seq::new(rows.len(), |b: int| ceiled_row(rows[b]@, valid[b]@))
}

/// The contents of rows of frames.
pub open spec fn row_views(rows: Seq<Vec<usize>>) -> Seq<Seq<usize>> {
    Seq::new(rows.len(), |b: int| rows[b]@)
}

/// The largest total of the rows.
pub open spec fn widest(rows: Seq<Seq<usize>>) -> nat
    decreases rows.len(),
{
    if rows.len() == 0 {
        0
    } else {
        let before = widest(rows.drop_last());
        let last = total(rows.last());
        if before < last {
            last
        } else {
            before
        }
    }
}

/// The frames that durations ask for, as far as they can be counted.
pub open spec fn asked(rows: Seq<Seq<usize>>) -> int {
    if widest(rows) <= usize::MAX {
        widest(rows) as int
    } else {
        usize::MAX as int
    }
}

proof fn widest_is_longest(rows: Seq<Vec<usize>>)
    ensures
        widest(row_views(rows)) == longest(rows),
    decreases rows.len(),
{
    if rows.len() > 0 {
        assert(row_views(rows).drop_last() =~= row_views(rows.drop_last()));
        widest_is_longest(rows.drop_last());
    }
}

/// Durations ask for at least one frame and no more than the limit.
pub open spec fn frames_fault(frames: int, limit: usize) -> Option<Seq<char>> {
    if frames == 0 || frames > limit {
        Some(
            "Glow-TTS durations request "@ + decimal(frames as nat) + " frames; valid range is 1..="@
                + decimal(limit as nat),
        )
    } else {
        None
    }
}

fn check_frames(durations: &Vec<Vec<usize>>, limit: usize) -> (out: Result<(), GlowTtsError>)
    ensures
        input_verdict(out, frames_fault(asked(row_views(durations@)), limit)),
{
    proof {
        widest_is_longest(durations@);
    }
    let frames: usize = longest_total(durations);
    if frames == 0 || frames > limit {
        return input_error(
            with_numbers(
                "Glow-TTS durations request ",
                frames,
                " frames; valid range is 1..=",
                limit,
            ),
        );
    }
    Ok(())
}

/// Rounds a row of predicted durations, where all are finite.
fn ceil_row(row: &Vec<Double>, valid: &Vec<bool>) -> (out: Option<Vec<usize>>)
    requires
        row.len() == valid.len(),
    ensures
        match out {
            Some(frames) => row_finite(row@) && frames@ == ceiled_row(row@, valid@),
            None => !row_finite(row@),
        },
{
    let mut frames: Vec<usize> = Vec::new();
    let mut i: usize = 0;
    while i < row.len()
        invariant
            i <= row.len(),
            row.len() == valid.len(),
            forall|k: int| 0 <= k < i ==> (#[trigger] row@[k]).finite(),
            frames@ == ceiled_row(row@, valid@).take(i as int),
        decreases row.len() - i,
    {
        let value = row[i];
        if !value.is_finite() {
            return None;
        }
        let count: usize = if !valid[i] {
            0
        } else {
            let rounded: usize = value.ceil_to_usize();
            if rounded < 1 {
                1
            } else {
                rounded
            }
        };
        frames.push(count);
        assert(frames@ =~= ceiled_row(row@, valid@).take(i + 1));
        i = i + 1;
    }
    assert(ceiled_row(row@, valid@).take(row.len() as int) =~= ceiled_row(row@, valid@));
    Some(frames)
}

/// A valid token gets a frame, a padded one none, and no token gets fewer frames than predicted.
pub proof fn ceiling_covers_prediction(value: Double, valid: bool)
    requires
        value.finite(),
    ensures
        valid ==> ceiled_frames(value, valid) >= 1,
        valid ==> ceiled_frames(value, valid) >= value.saturated(),
        !valid ==> ceiled_frames(value, valid) == 0,
{
}

/// Every value is finite and not below zero.
pub open spec fn row_counts(row: Seq<Double>) -> bool {
    forall|i: int| 0 <= i < row.len() ==> (#[trigger] row[i]).finite_non_negative()
}

/// Every value is a positive whole number.
pub open spec fn row_whole(row: Seq<Double>) -> bool {
    forall|i: int|
        0 <= i < row.len() ==> (#[trigger] row[i]).rank() > 0 && row[i].integral()
}

/// The values of a row, rounded toward zero.
pub open spec fn truncated_row(row: Seq<Double>) -> Seq<usize> {
    Seq::new(row.len(), |i: int| row[i].saturated() as usize)
}

pub open spec fn truncated(rows: Seq<Vec<Double>>) -> Seq<Seq<usize>> {
    Seq::new(rows.len(), |b: int| truncated_row(rows[b]@))
}

/// The first reason why explicit durations are refused.
pub open spec fn explicit_fault(
    shape: Seq<usize>,
    rows: Seq<Vec<Double>>,
    batch: usize,
    tokens: usize,
    limit: usize,
) -> Option<Seq<char>> {
    if shape != seq![batch, tokens] {
        Some(
            "explicit durations shape "@ + shape_text(shape) + "; expected "@ + shape_text(
                seq![batch, tokens],
            ),
        )
    } else if exists|b: int| 0 <= b < rows.len() && !row_counts((#[trigger] rows[b])@) {
        Some("Glow-TTS durations must be finite and non-negative"@)
    } else {
        match frames_fault(asked(truncated(rows)), limit) {
            Some(fault) => Some(fault),
            None => if exists|b: int| 0 <= b < rows.len() && !row_whole((#[trigger] rows[b])@) {
                Some("explicit Glow-TTS durations must be positive integral frame counts"@)
            } else {
                None
            },
        }
    }
}

fn counts(row: &Vec<Double>) -> (out: bool)
    ensures
        out == row_counts(row@),
{
    let mut i: usize = 0;
    while i < row.len()
        invariant
            i <= row.len(),
            forall|k: int| 0 <= k < i ==> (#[trigger] row@[k]).finite_non_negative(),
        decreases row.len() - i,
    {
        if !row[i].is_finite_non_negative() {
            return false;
        }
        i = i + 1;
    }
    true
}

fn whole(row: &Vec<Double>) -> (out: bool)
    ensures
        out == row_whole(row@),
{
    let mut i: usize = 0;
    while i < row.len()
        invariant
            i <= row.len(),
            forall|k: int| 0 <= k < i ==> (#[trigger] row@[k]).rank() > 0 && row@[k].integral(),
        decreases row.len() - i,
    {
        if !Double::zero().is_less(row[i]) || !row[i].is_integral() {
            return false;
        }
        i = i + 1;
    }
    true
}

fn truncate_row(row: &Vec<Double>) -> (out: Vec<usize>)
    ensures
        out@ == truncated_row(row@),
{
    let mut out: Vec<usize> = Vec::new();
    let mut i: usize = 0;
    while i < row.len()
        invariant
            i <= row.len(),
            out@ == truncated_row(row@).take(i as int),
        decreases row.len() - i,
    {
        out.push(row[i].to_usize());
        assert(out@ =~= truncated_row(row@).take(i + 1));
        i = i + 1;
    }
    assert(truncated_row(row@).take(row.len() as int) =~= truncated_row(row@));
    out
}

/// Explicit durations as frames: positive whole numbers within the limit.
pub fn validate_explicit_durations(
    shape: &[usize; 2],
    rows: &Vec<Vec<Double>>,
    batch: usize,
    tokens: usize,
    max_output_frames: usize,
) -> (out: Result<Vec<Vec<usize>>, GlowTtsError>)
    requires
        is_matrix(rows@, shape@[0] as int, shape@[1] as int),
    ensures
        input_verdict(out, explicit_fault(shape@, rows@, batch, tokens, max_output_frames)),
        out matches Ok(durations) ==> row_views(durations@) == truncated(rows@),
{
    let expected: [usize; 2] = [batch, tokens];
    assert(expected@ =~= seq![batch, tokens]);
    let same = shape[0] == batch && shape[1] == tokens;
    assert(same == (shape@ =~= expected@));
    if !same {
        let mut message = with_text(
            "explicit durations shape ",
            shape_string(shape.as_slice()).as_str(),
        );
        message.append("; expected ");
        message.append(shape_string(expected.as_slice()).as_str());
        return input_error(message);
    }
    let mut durations: Vec<Vec<usize>> = Vec::new();
    let mut all_whole: bool = true;
    let mut b: usize = 0;
    while b < rows.len()
        invariant
            b <= rows.len(),
            shape@ == seq![batch, tokens],
            durations.len() == b,
            forall|k: int| 0 <= k < b ==> row_counts((#[trigger] rows@[k])@),
            forall|k: int| 0 <= k < b ==> (#[trigger] durations@[k])@ == truncated_row(rows@[k]@),
            all_whole == (forall|k: int| 0 <= k < b ==> row_whole((#[trigger] rows@[k])@)),
        decreases rows.len() - b,
    {
        if !counts(&rows[b]) {
            return input_error("Glow-TTS durations must be finite and non-negative".to_owned());
        }
        let row_is_whole = whole(&rows[b]);
        all_whole = all_whole && row_is_whole;
        durations.push(truncate_row(&rows[b]));
        b = b + 1;
    }
    assert(row_views(durations@) =~= truncated(rows@));
    check_frames(&durations, max_output_frames)?;
    if !all_whole {
        return input_error(
            "explicit Glow-TTS durations must be positive integral frame counts".to_owned(),
        );
    }
    Ok(durations)
}

/// The encoder embeds every character, runs three convolutions of five frames ahead of its
/// transformer, shares its channels among the heads, sees as many neighbours on both sides as its
/// window holds, and predicts one duration per token from the encoding and the conditioning.
/// Every convolution takes what the one before emits and keeps the length.
pub proof fn glow_encoder_layers_fit(
    network: &GlowTtsNetworkConfig,
    topology: GlowEncoderTopology,
    length: int,
)
    requires
        network.buildable(),
        call_ensures(
            GlowTtsNetworkConfig::encoder_topology,
            (network, Ok::<(), String>(())),
            Ok::<GlowEncoderTopology, GlowTtsError>(topology),
        ),
    ensures
        topology.embedding.rows == network.num_chars,
        topology.embedding.channels == network.hidden_channels_enc,
        topology.prenet_layers == 3 && topology.prenet.kernel_size == 5,
        topology.prenet.channels_in == topology.embedding.channels,
        topology.prenet.channels_out == topology.prenet.channels_in,
        topology.prenet.output_length(length) == length,
        topology.prenet_projection.channels_in == topology.prenet.channels_out,
        topology.prenet_projection.channels_out == topology.attention.channels,
        topology.prenet_projection.kernel_size == 1,
        topology.prenet_projection.output_length(length) == length,
        topology.layers == network.encoder_params.num_layers,
        topology.attention.channels == network.hidden_channels_enc,
        topology.attention.num_heads == network.encoder_params.num_heads,
        0 <= topology.attention.channels - topology.attention.channels_per_head
            * topology.attention.num_heads < topology.attention.num_heads,
        topology.attention.relative is Some
            <==> network.encoder_params.rel_attn_window_size is Some,
        topology.attention.relative matches Some(table) ==> table.channels
            == topology.attention.channels_per_head && table.rows == 2
            * network.encoder_params.rel_attn_window_size->0 + 1,
        topology.feed_forward_in.channels_in == network.hidden_channels_enc,
        topology.feed_forward_in.channels_out == network.encoder_params.hidden_channels_ffn,
        topology.feed_forward_out.channels_in == topology.feed_forward_in.channels_out,
        topology.feed_forward_out.channels_out == topology.feed_forward_in.channels_in,
        topology.feed_forward_in.kernel_size == network.encoder_params.kernel_size,
        topology.feed_forward_out.kernel_size == network.encoder_params.kernel_size,
        topology.feed_forward_in.dilation == 1 && topology.feed_forward_out.dilation == 1,
        topology.feed_forward_in.pad_left <= topology.feed_forward_in.pad_right
            <= topology.feed_forward_in.pad_left + 1,
        topology.feed_forward_out.pad_left <= topology.feed_forward_out.pad_right
            <= topology.feed_forward_out.pad_left + 1,
        topology.feed_forward_in.output_length(length) == length,
        topology.feed_forward_out.output_length(length) == length,
        topology.proj_m.channels_in == network.hidden_channels_enc,
        topology.proj_m.channels_out == network.out_channels,
        topology.proj_m.kernel_size == 1 && topology.proj_m.output_length(length) == length,
        topology.proj_s is Some <==> !network.mean_only,
        topology.proj_s matches Some(conv) ==> conv == topology.proj_m,
        topology.duration_predictor.conv_1.channels_in == network.hidden_channels_enc
            + network.speaker_conditioning_channels,
        topology.duration_predictor.conv_1.channels_out == network.hidden_channels_dp,
        topology.duration_predictor.conv_2.channels_in == network.hidden_channels_dp,
        topology.duration_predictor.conv_2.channels_out == network.hidden_channels_dp,
        topology.duration_predictor.proj.channels_in == network.hidden_channels_dp,
        topology.duration_predictor.proj.channels_out == 1,
        topology.duration_predictor.conv_1.kernel_size == 3,
        topology.duration_predictor.conv_2.kernel_size == 3,
        topology.duration_predictor.proj.kernel_size == 1,
        topology.duration_predictor.conv_1.output_length(length) == length,
        topology.duration_predictor.conv_2.output_length(length) == length,
        topology.duration_predictor.proj.output_length(length) == length,
        topology.conditioning_channels == network.speaker_conditioning_channels,
{
    let channels = network.hidden_channels_enc as int;
    let heads = network.encoder_params.num_heads as int;
    vstd::arithmetic::div_mod::lemma_fundamental_div_mod(channels, heads);
    assert(channels / heads * heads == heads * (channels / heads)) by (nonlinear_arith);
}

/// The flow works on the channels of a whole group of frames. A coupling reads half of them and
/// writes all; its dilated network has the hidden channels on both sides.
pub proof fn glow_decoder_layers_fit(
    network: &GlowTtsNetworkConfig,
    topology: GlowDecoderTopology,
    length: int,
)
    requires
        network.buildable(),
        call_ensures(
            GlowTtsNetworkConfig::decoder_topology,
            (network, Ok::<(), String>(())),
            Ok::<GlowDecoderTopology, GlowTtsError>(topology),
        ),
    ensures
        topology.blocks == network.num_flow_blocks_dec,
        topology.num_squeeze == network.num_squeeze,
        topology.channels == network.out_channels * network.num_squeeze,
        topology.num_splits == network.num_splits,
        2 * topology.half_channels <= topology.channels <= 2 * topology.half_channels + 1,
        topology.start.channels_in == topology.half_channels,
        topology.start.channels_out == topology.wavenet.hidden_channels,
        topology.start.kernel_size == 1 && topology.end.kernel_size == 1,
        topology.start.output_length(length) == length,
        topology.end.output_length(length) == length,
        topology.end.channels_in == topology.wavenet.hidden_channels,
        topology.end.channels_out == topology.channels,
        topology.wavenet.hidden_channels == network.hidden_channels_dec,
        topology.wavenet.kernel_size == network.kernel_size_dec,
        topology.wavenet.dilation_rate == network.dilation_rate,
        topology.wavenet.num_layers == network.num_block_layers,
        topology.wavenet.conditioning_channels == network.speaker_conditioning_channels,
        topology.conditioning_channels == network.speaker_conditioning_channels,
        topology.sigmoid_scale == network.sigmoid_scale,
{
}

/// Layers are built exactly where the rest of the configuration was accepted. A refusal is passed
/// on in its own words.
pub proof fn layers_wait_for_the_verdict(
    network: &GlowTtsNetworkConfig,
    checked: Result<(), String>,
    encoder: Result<GlowEncoderTopology, GlowTtsError>,
    decoder: Result<GlowDecoderTopology, GlowTtsError>,
)
    requires
        checked is Ok ==> network.buildable(),
        call_ensures(GlowTtsNetworkConfig::encoder_topology, (network, checked), encoder),
        call_ensures(GlowTtsNetworkConfig::decoder_topology, (network, checked), decoder),
    ensures
        encoder is Ok <==> checked is Ok,
        decoder is Ok <==> checked is Ok,
        encoder matches Err(error) ==> (error matches GlowTtsError::InvalidTopology(message)
            && checked matches Err(reason) && message == reason),
        decoder matches Err(error) ==> (error matches GlowTtsError::InvalidTopology(message)
            && checked matches Err(reason) && message == reason),
{
}

/// One of the two models serves a network, by whether its durations are drawn.
pub proof fn one_model_serves_a_network(
    network: &GlowTtsNetworkConfig,
    predicted: Result<(), GlowTtsError>,
    drawn: Result<(), GlowTtsError>,
)
    requires
        call_ensures(GlowTtsNetworkConfig::check_deterministic, (network,), predicted),
        call_ensures(GlowTtsNetworkConfig::check_stochastic, (network,), drawn),
    ensures
        drawn is Ok <==> network.use_sdp,
        predicted is Ok <==> !network.use_sdp,
        drawn matches Err(error) ==> error is InvalidTopology,
        predicted matches Err(error) ==> error is InvalidTopology,
{
}

/// Names of the encoder lose their first part.
pub proof fn encoder_names_lose_their_first_part(out: Vec<(&'static str, &'static str)>)
    requires
        call_ensures(encoder_remappings, (), out),
    ensures
        out.len() == 1,
        out@[0].0@ == r"^encoder\."@ && out@[0].1@ == ""@,
{
}

/// Three steps of a checkpoint become one block: its normalization, its convolution and its
/// coupling, in this order.
pub proof fn three_steps_make_a_block(
    blocks: usize,
    out: Vec<(String, String)>,
    block: int,
)
    requires
        3 * blocks <= usize::MAX,
        call_ensures(decoder_remappings, (blocks,), out),
        0 <= block < blocks,
    ensures
        out.len() == 3 * blocks,
        forall|part: int|
            #![trigger out@[3 * block + part]]
            0 <= part < 3 ==> out@[3 * block + part].0@ == r"^decoder\.flows\."@ + decimal(
                (3 * block + part) as nat,
            ) + r"\."@,
        out@[3 * block].1@ == "blocks."@ + decimal(block as nat) + ".act_norm."@,
        out@[3 * block + 1].1@ == "blocks."@ + decimal(block as nat) + ".inv_conv."@,
        out@[3 * block + 2].1@ == "blocks."@ + decimal(block as nat) + ".coupling."@,
{
    assert(out@[3 * block].1@ == block_part(block as nat, 0));
    assert(out@[3 * block + 1].1@ == block_part(block as nat, 1));
    assert(out@[3 * block + 2].1@ == block_part(block as nat, 2));
}

/// Conditioning is taken exactly where the model has channels for it, one vector per batch item
/// and for all tokens or for each.
pub proof fn conditioning_goes_with_channels(
    conditioning: &Option<[usize; 3]>,
    batch: usize,
    channels: usize,
    tokens: usize,
    out: Result<(), GlowTtsError>,
)
    requires
        call_ensures(check_conditioning, (conditioning, batch, channels, tokens), out),
    ensures
        out is Ok <==> match *conditioning {
            None => channels == 0,
            Some(shape) => channels > 0 && shape@[0] == batch && shape@[1] == channels && (
            shape@[2] == 1 || shape@[2] == tokens),
        },
        out matches Err(error) ==> error is InvalidInput,
{
}

/// Tokens are encoded exactly where there are some, each item has a length, and the conditioning
/// fits. They are synthesized exactly where besides the scales are in bounds; the scale of drawn
/// durations counts only where durations are drawn.
pub proof fn glow_batches_are_accepted_on_their_merits(
    durations: GlowDurations,
    network: &GlowTtsNetworkConfig,
    batch: usize,
    tokens: usize,
    lengths: usize,
    conditioning: &Option<[usize; 3]>,
    length_scale: Double,
    acoustic_noise_scale: Double,
    duration_noise_scale: Double,
    fitting: Result<(), GlowTtsError>,
    encoded: Result<(), GlowTtsError>,
    controls: Result<(), GlowTtsError>,
    out: Result<(), GlowTtsError>,
)
    requires
        call_ensures(
            check_conditioning,
            (conditioning, batch, network.speaker_conditioning_channels, tokens),
            fitting,
        ),
        call_ensures(
            GlowTtsNetworkConfig::check_encoding,
            (network, batch, tokens, lengths, conditioning),
            encoded,
        ),
        call_ensures(
            GlowDurations::check_controls,
            (durations, length_scale, acoustic_noise_scale, duration_noise_scale),
            controls,
        ),
        call_ensures(
            GlowDurations::check_inference,
            (
                durations,
                network,
                batch,
                tokens,
                lengths,
                conditioning,
                length_scale,
                acoustic_noise_scale,
                duration_noise_scale,
            ),
            out,
        ),
    ensures
        encoded is Ok <==> batch > 0 && tokens > 0 && lengths == batch && fitting is Ok,
        controls is Ok <==> {
            &&& length_scale.finite() && length_scale.rank() > 0
            &&& acoustic_noise_scale.finite() && acoustic_noise_scale.rank() >= 0
            &&& durations is Stochastic ==> duration_noise_scale.finite()
                && duration_noise_scale.rank() >= 0
        },
        out is Ok <==> encoded is Ok && controls is Ok,
        out matches Err(error) ==> error is InvalidInput,
{
}

/// Features run backwards through the flow exactly where they have its channels, their mask and
/// conditioning fit, and they fill a group. What comes out are all whole groups: less than a group
/// is left over.
pub proof fn whole_groups_come_out(
    network: &GlowTtsNetworkConfig,
    input: &[usize; 3],
    mask: &[usize; 3],
    conditioning: &Option<[usize; 3]>,
    fitting: Result<(), GlowTtsError>,
    out: Result<usize, GlowTtsError>,
)
    requires
        network.num_squeeze > 0,
        call_ensures(
            check_conditioning,
            (conditioning, input@[0], network.speaker_conditioning_channels, input@[2]),
            fitting,
        ),
        call_ensures(GlowTtsNetworkConfig::plan_reverse, (network, input, mask, conditioning), out),
    ensures
        out is Ok <==> {
            &&& input@[1] == network.out_channels
            &&& mask@[0] == input@[0] && mask@[1] == 1 && mask@[2] == input@[2]
            &&& fitting is Ok
            &&& input@[2] >= network.num_squeeze
        },
        out matches Ok(frames) ==> frames as int % network.num_squeeze as int == 0 && frames
            <= input@[2] < frames + network.num_squeeze,
        out matches Err(error) ==> error is InvalidInput,
{
    assert(mask@ == seq![input@[0], 1, input@[2]] <==> mask@ =~= seq![input@[0], 1, input@[2]]);
    let frames = input@[2] as int;
    let factor = network.num_squeeze as int;
    vstd::arithmetic::div_mod::lemma_fundamental_div_mod(frames, factor);
    assert(frames / factor * factor == factor * (frames / factor)) by (nonlinear_arith);
    vstd::arithmetic::div_mod::lemma_mod_multiples_basic(frames / factor, factor);
}

/// Frames that were folded for the flow and unfolded after it are as they were, up to the last
/// whole group. A group is kept exactly where its last frame is.
pub proof fn unfolding_undoes_folding<T: Copy>(
    network: &GlowTtsNetworkConfig,
    values: &Vec<Vec<T>>,
    mask: &Vec<bool>,
    zero: T,
    folded: (Vec<Vec<T>>, Vec<bool>),
    out: Vec<Vec<T>>,
    channel: int,
    group: int,
    place: int,
)
    requires
        network.num_squeeze > 0,
        network.out_channels == values.len(),
        is_matrix(values@, values.len() as int, mask.len() as int),
        values.len() * network.num_squeeze <= usize::MAX,
        call_ensures(GlowTtsNetworkConfig::squeeze::<T>, (network, values, mask, zero), folded),
        call_ensures(
            GlowTtsNetworkConfig::unsqueeze::<T>,
            (network, &folded.0, &folded.1, zero),
            out,
        ),
        0 <= channel < values.len(),
        0 <= group < folded.1.len(),
        0 <= place < network.num_squeeze,
    ensures
        folded.0.len() == values.len() * network.num_squeeze,
        out.len() == values.len(),
        out@[channel].len() == folded.1.len() * network.num_squeeze,
        folded.1@[group] == mask@[group * network.num_squeeze + network.num_squeeze - 1],
        out@[channel]@[group * network.num_squeeze + place] == if folded.1@[group] {
            values@[channel]@[group * network.num_squeeze + place]
        } else {
            zero
        },
{
    let factor = network.num_squeeze as int;
    let frames = mask.len() as int;
    vstd::arithmetic::div_mod::lemma_fundamental_div_mod(frames, factor);
    assert(frames / factor * factor == factor * (frames / factor)) by (nonlinear_arith);
    assert(network.out_channels * network.num_squeeze <= usize::MAX);
    assert(folded.1.len() * network.num_squeeze <= usize::MAX);
    assert(is_matrix(folded.0@, network.out_channels * network.num_squeeze, folded.1.len() as int));
    assert(entry(out@, channel, group * network.num_squeeze + place) == if folded.1@[group] {
        entry(folded.0@, place * network.out_channels + channel, group)
    } else {
        zero
    });
    assert(entry(folded.0@, place * values.len() + channel, group) == if folded.1@[group] {
        entry(values@, channel, group * network.num_squeeze + place)
    } else {
        zero
    });
}

/// The acoustic noise has the given seed, or the next one where the durations drew from it. The
/// last seed is followed by the first.
pub proof fn noises_do_not_share_seeds(
    seed: Option<u64>,
    predicted: Option<u64>,
    drawn: Option<u64>,
)
    requires
        call_ensures(GlowDurations::acoustic_seed, (GlowDurations::Deterministic, seed), predicted),
        call_ensures(GlowDurations::acoustic_seed, (GlowDurations::Stochastic, seed), drawn),
    ensures
        predicted == seed,
        drawn is Some <==> seed is Some,
        drawn matches Some(next) ==> (seed matches Some(value) && next as int == (value + 1)
            % 0x1_0000_0000_0000_0000),
        seed is Some ==> drawn != seed,
{
}

/// Logarithmic durations have one channel, and their mask has their shape.
pub proof fn logits_have_one_channel(
    durations: GlowDurations,
    logits: &[usize; 3],
    mask: &[usize; 3],
    out: Result<(), GlowTtsError>,
)
    requires
        call_ensures(GlowDurations::check_logits, (durations, logits, mask), out),
    ensures
        out is Ok <==> logits@[1] == 1 && mask@ == logits@,
        out matches Err(error) ==> error is InvalidInput,
{
    assert(mask@ == seq![logits@[0], 1, logits@[2]] <==> mask@ =~= seq![logits@[0], 1, logits@[2]]);
    assert(mask@ == logits@ <==> mask@ =~= logits@);
}

proof fn widest_bounds_rows(rows: Seq<Seq<usize>>, b: int)
    requires
        0 <= b < rows.len(),
    ensures
        total(rows[b]) <= widest(rows),
    decreases rows.len(),
{
    if b < rows.len() - 1 {
        widest_bounds_rows(rows.drop_last(), b);
    }
}

proof fn widest_is_a_row(rows: Seq<Seq<usize>>) -> (b: int)
    requires
        rows.len() > 0,
    ensures
        0 <= b < rows.len(),
        widest(rows) == total(rows[b]),
    decreases rows.len(),
{
    let last = rows.len() - 1;
    if rows.len() == 1 || widest(rows.drop_last()) < total(rows.last()) {
        assert(rows.len() == 1 ==> widest(rows.drop_last()) == 0);
        last
    } else {
        widest_is_a_row(rows.drop_last())
    }
}

/// Some row has frames, and none has more than the limit.
spec fn within_limit(rows: Seq<Seq<usize>>, limit: int) -> bool {
    &&& exists|b: int| 0 <= b < rows.len() && total(#[trigger] rows[b]) > 0
    &&& forall|b: int| 0 <= b < rows.len() ==> total(#[trigger] rows[b]) <= limit
}

proof fn limits_hold_for_every_row(rows: Seq<Seq<usize>>, limit: usize)
    requires
        limit < usize::MAX,
    ensures
        frames_fault(asked(rows), limit) is None <==> within_limit(rows, limit as int),
{
    if rows.len() > 0 {
        let b = widest_is_a_row(rows);
        assert(total(rows[b]) == widest(rows));
        assert forall|k: int| 0 <= k < rows.len() implies total(#[trigger] rows[k]) <= widest(
            rows,
        ) by {
            widest_bounds_rows(rows, k);
        }
    }
}

/// Predicted durations become frames exactly where all are finite, some token is valid, and no
/// row exceeds the limit. A valid token gets the ceiling of its prediction, and one frame at
/// least; a padded one gets none.
pub proof fn predictions_are_rounded_up(
    durations: GlowDurations,
    predicted: &Vec<Vec<Double>>,
    valid: &Vec<Vec<bool>>,
    limit: usize,
    ceilings: Seq<Seq<usize>>,
    frames: Seq<Seq<usize>>,
    out: Result<Vec<Vec<usize>>, GlowTtsError>,
)
    requires
        same_rows(predicted@, valid@),
        limit < usize::MAX,
        forall|b: int, t: int|
            0 <= b < predicted.len() && 0 <= t < predicted@[b].len() ==> call_ensures(
                Double::ceil_to_usize,
                (predicted@[b]@[t],),
                #[trigger] ceilings[b][t],
            ),
        frames.len() == predicted.len(),
        forall|b: int|
            0 <= b < predicted.len() ==> (#[trigger] frames[b]).len() == predicted@[b].len(),
        forall|b: int, t: int|
            0 <= b < predicted.len() && 0 <= t < predicted@[b].len() ==> #[trigger] frames[b][t]
                == if !valid@[b]@[t] {
                0
            } else if ceilings[b][t] == 0 {
                1
            } else {
                ceilings[b][t]
            },
        call_ensures(GlowDurations::ceil_durations, (durations, predicted, valid, limit), out),
    ensures
        out is Ok <==> {
            &&& forall|b: int, t: int|
                0 <= b < predicted.len() && 0 <= t < predicted@[b].len()
                    ==> (#[trigger] predicted@[b]@[t]).finite()
            &&& exists|b: int| 0 <= b < frames.len() && total(#[trigger] frames[b]) > 0
            &&& forall|b: int| 0 <= b < frames.len() ==> total(#[trigger] frames[b]) <= limit
        },
        out matches Ok(rows) ==> rows.len() == frames.len() && (forall|b: int|
            0 <= b < frames.len() ==> (#[trigger] rows@[b])@ == frames[b]),
        out matches Err(error) ==> error is InvalidInput,
{
    let rounded = ceiled(predicted@, valid@);
    assert forall|b: int| 0 <= b < frames.len() implies #[trigger] frames[b] == rounded[b] by {
        assert forall|t: int| 0 <= t < frames[b].len() implies #[trigger] frames[b][t]
            == rounded[b][t] by {
            assert(call_ensures(
                Double::ceil_to_usize,
                (predicted@[b]@[t],),
                ceilings[b][t],
            ));
        }
        assert(frames[b] =~= rounded[b]);
    }
    assert(frames =~= rounded);
    limits_hold_for_every_row(rounded, limit);
    if all_rows_finite(predicted@) {
        assert forall|b: int, t: int|
            0 <= b < predicted.len() && 0 <= t < predicted@[b].len() implies (
        #[trigger] predicted@[b]@[t]).finite() by {
            assert(row_finite(predicted@[b]@));
        }
    } else {
        let b = choose|b: int| 0 <= b < predicted.len() && !row_finite((#[trigger] predicted@[b])@);
        let t = choose|t: int|
            0 <= t < predicted@[b].len() && !(#[trigger] predicted@[b]@[t]).finite();
        assert(!predicted@[b]@[t].finite());
    }
    if let Ok(rows) = out {
        assert forall|b: int| 0 <= b < frames.len() implies (#[trigger] rows@[b])@
            == frames[b] by {
            assert(row_views(rows@)[b] == rounded[b]);
        }
        assert(row_views(rows@).len() == rounded.len());
    }
}

/// Explicit durations are taken exactly where there is one for each token, all are positive whole
/// numbers, and no row exceeds the limit. They are taken as they are.
pub proof fn explicit_durations_are_whole(
    shape: &[usize; 2],
    rows: &Vec<Vec<Double>>,
    batch: usize,
    tokens: usize,
    limit: usize,
    frames: Seq<Seq<usize>>,
    out: Result<Vec<Vec<usize>>, GlowTtsError>,
)
    requires
        is_matrix(rows@, shape@[0] as int, shape@[1] as int),
        limit < usize::MAX,
        frames.len() == rows.len(),
        forall|b: int| 0 <= b < rows.len() ==> (#[trigger] frames[b]).len() == rows@[b].len(),
        forall|b: int, t: int|
            0 <= b < rows.len() && 0 <= t < rows@[b].len() ==> call_ensures(
                Double::to_usize,
                (rows@[b]@[t],),
                #[trigger] frames[b][t],
            ),
        call_ensures(validate_explicit_durations, (shape, rows, batch, tokens, limit), out),
    ensures
        out is Ok <==> {
            &&& shape@[0] == batch && shape@[1] == tokens
            &&& forall|b: int, t: int|
                0 <= b < rows.len() && 0 <= t < rows@[b].len() ==> (
                #[trigger] rows@[b]@[t]).finite() && rows@[b]@[t].rank() > 0
                    && rows@[b]@[t].integral()
            &&& exists|b: int| 0 <= b < frames.len() && total(#[trigger] frames[b]) > 0
            &&& forall|b: int| 0 <= b < frames.len() ==> total(#[trigger] frames[b]) <= limit
        },
        out matches Ok(taken) ==> taken.len() == frames.len() && (forall|b: int|
            0 <= b < frames.len() ==> (#[trigger] taken@[b])@ == frames[b]),
        out matches Err(error) ==> error is InvalidInput,
{
    let kept = truncated(rows@);
    assert forall|b: int| 0 <= b < frames.len() implies #[trigger] frames[b] == kept[b] by {
        assert forall|t: int| 0 <= t < frames[b].len() implies #[trigger] frames[b][t]
            == kept[b][t] by {
            assert(call_ensures(Double::to_usize, (rows@[b]@[t],), frames[b][t]));
        }
        assert(frames[b] =~= kept[b]);
    }
    assert(frames =~= kept);
    limits_hold_for_every_row(kept, limit);
    assert(shape@ == seq![batch, tokens] <==> shape@ =~= seq![batch, tokens]);
    let sound = forall|b: int, t: int|
        0 <= b < rows.len() && 0 <= t < rows@[b].len() ==> (#[trigger] rows@[b]@[t]).finite()
            && rows@[b]@[t].rank() > 0 && rows@[b]@[t].integral();
    if sound {
        assert forall|b: int| 0 <= b < rows.len() implies row_counts((#[trigger] rows@[b])@)
            && row_whole(rows@[b]@) by {
            assert forall|t: int| 0 <= t < rows@[b].len() implies (
            #[trigger] rows@[b]@[t]).finite_non_negative() && rows@[b]@[t].rank() > 0
                && rows@[b]@[t].integral() by {
                assert(rows@[b]@[t].finite());
            }
        }
    } else {
        let (b, t) = choose|b: int, t: int|
            0 <= b < rows.len() && 0 <= t < rows@[b].len() && !((#[trigger] rows@[b]@[t]).finite()
                && rows@[b]@[t].rank() > 0 && rows@[b]@[t].integral());
        if row_whole(rows@[b]@) {
            assert(rows@[b]@[t].rank() > 0 && rows@[b]@[t].integral());
            assert(!rows@[b]@[t].finite_non_negative());
            assert(!row_counts(rows@[b]@));
        }
        assert(!row_whole(rows@[b]@) || !row_counts(rows@[b]@));
    }
    if let Ok(taken) = out {
        assert forall|b: int| 0 <= b < frames.len() implies (#[trigger] taken@[b])@
            == frames[b] by {
            assert(row_views(taken@)[b] == kept[b]);
        }
        assert(row_views(taken@).len() == kept.len());
    }
}

/// A checkpoint fits a part exactly where nothing is missing, nothing failed, and nothing of the
/// part went unused. With drawn durations the predictor of durations is not of the part.
pub proof fn glow_checkpoints_fit_exactly(
    report: &LoadReport,
    predicted: Result<(), GlowTtsError>,
    drawn: Result<(), GlowTtsError>,
    flow: Result<(), GlowTtsError>,
)
    requires
        call_ensures(check_encoder_checkpoint, (report, true), predicted),
        call_ensures(check_encoder_checkpoint, (report, false), drawn),
        call_ensures(check_decoder_checkpoint, (report,), flow),
    ensures
        predicted is Ok <==> report.missing.len() == 0 && report.errors.len() == 0 && (forall|i: int|
            0 <= i < report.unused.len() ==> !Subtree::GlowEncoder.contains(
                #[trigger] report.unused@[i]@,
            )),
        drawn is Ok <==> report.missing.len() == 0 && report.errors.len() == 0 && (forall|i: int|
            0 <= i < report.unused.len() ==> !Subtree::GlowEncoderWithoutDuration.contains(
                #[trigger] report.unused@[i]@,
            )),
        flow is Ok <==> report.missing.len() == 0 && report.errors.len() == 0 && (forall|i: int|
            0 <= i < report.unused.len() ==> !Subtree::GlowDecoder.contains(
                #[trigger] report.unused@[i]@,
            )),
        predicted matches Err(error) ==> error is Checkpoint,
        drawn matches Err(error) ==> error is Checkpoint,
        flow matches Err(error) ==> error is Checkpoint,
{
    crate::checkpoint::fitting_leaves_nothing(*report, Subtree::GlowEncoder);
    crate::checkpoint::fitting_leaves_nothing(*report, Subtree::GlowEncoderWithoutDuration);
    crate::checkpoint::fitting_leaves_nothing(*report, Subtree::GlowDecoder);
}

/// An error says of what kind it is, and then its reason.
pub proof fn glow_errors_say_their_kind(error: &GlowTtsError, out: String)
    requires
        call_ensures(GlowTtsError::describe, (error,), out),
    ensures
        error matches GlowTtsError::InvalidTopology(message) ==> out@ == "invalid Glow-TTS topology: "@ + message@,
        error matches GlowTtsError::InvalidInput(message) ==> out@ == "invalid Glow-TTS input: "@ + message@,
        error matches GlowTtsError::Checkpoint(message) ==> out@ == "unable to load Glow-TTS checkpoint: "@ + message@,
{
}

} // verus!
