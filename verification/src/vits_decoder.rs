//! The waveform decoder inside a VITS model.
//!
//! VITS holds a conditionable HiFi-GAN generator. Its checkpoints differ from those of the
//! standalone vocoder in two ways: inference adds no frame padding, and the first and the last
//! convolution are stored without weight normalization. A plain weight is loaded as the
//! direction of a normalized one, whose gain is the norm of that direction.

use vstd::prelude::*;

use crate::checkpoint::{
    belonging, listed_message, missing_path_list, missing_paths, paths_belonging, LoadReport,
    Subtree,
};
use crate::double::Double;
use crate::hifigan::{
    nested, shape_of, HifiganError, HifiganGeneratorConfig, HifiganModel, HifiganTopology,
};
use crate::sorting::{
    precedes_at, sort_texts, sorted_texts, sorting_orders_texts, text_place, text_precedes,
};
use crate::text::{
    around_number, around_text, decimal, joined, same_text, views, with_numbers, with_text,
};
use crate::upsampling::{checked_scaled, product, products_fit, scaled, total_factor};

verus! {

#[derive(Debug, Clone, PartialEq, Eq)]
pub enum VitsWaveformDecoderError {
    InvalidTopology(String),
    InvalidInput(String),
    Generator(HifiganError),
    Checkpoint(String),
}

impl VitsWaveformDecoderError {
    pub open spec fn described(self) -> Seq<char> {
        match self {
            VitsWaveformDecoderError::InvalidTopology(message) =>
                "invalid VITS waveform decoder topology: "@ + message@,
            VitsWaveformDecoderError::InvalidInput(message) =>
                "invalid VITS waveform decoder input: "@ + message@,
            VitsWaveformDecoderError::Generator(error) => error.described(),
            VitsWaveformDecoderError::Checkpoint(message) =>
                "unable to load VITS waveform decoder checkpoint: "@ + message@,
        }
    }

    /// The error in words.
    pub fn describe(&self) -> (out: String)
        ensures
            out@ == self.described(),
    {
        match self {
            VitsWaveformDecoderError::InvalidTopology(message) => with_text(
                "invalid VITS waveform decoder topology: ",
                message.as_str(),
            ),
            VitsWaveformDecoderError::InvalidInput(message) => with_text(
                "invalid VITS waveform decoder input: ",
                message.as_str(),
            ),
            VitsWaveformDecoderError::Generator(error) => error.describe(),
            VitsWaveformDecoderError::Checkpoint(message) => with_text(
                "unable to load VITS waveform decoder checkpoint: ",
                message.as_str(),
            ),
        }
    }
}

impl From<HifiganError> for VitsWaveformDecoderError {
    fn from(error: HifiganError) -> (out: Self) {
        VitsWaveformDecoderError::Generator(error)
    }
}

impl vstd::std_specs::convert::FromSpecImpl<HifiganError> for VitsWaveformDecoderError {
    open spec fn obeys_from_spec() -> bool {
        true
    }

    open spec fn from_spec(error: HifiganError) -> Self {
        VitsWaveformDecoderError::Generator(error)
    }
}

/// The network section of a VITS configuration.
#[derive(Debug, Clone)]
pub struct VitsNetworkConfig {
    pub hidden_channels: usize,
    pub use_sdp: bool,
    pub kernel_size_flow: usize,
    pub dilation_rate_flow: usize,
    pub num_layers_flow: usize,
    pub resblock_type_decoder: String,
    pub resblock_dilation_sizes_decoder: Vec<Vec<usize>>,
    pub resblock_kernel_sizes_decoder: Vec<usize>,
    pub upsample_kernel_sizes_decoder: Vec<usize>,
    pub upsample_initial_channel_decoder: usize,
    pub upsample_rates_decoder: Vec<usize>,
    pub use_speaker_embedding: bool,
    pub num_speakers: u32,
    pub speaker_embedding_channels: usize,
    pub use_d_vector_file: bool,
    pub d_vector_dim: usize,
    pub condition_dp_on_speaker: bool,
    pub use_language_embedding: bool,
    pub num_languages: u32,
    pub embedded_language_dim: usize,
    pub inference_noise_scale: Double,
    pub inference_noise_scale_dp: Double,
    pub length_scale: Double,
    pub max_inference_len: Option<usize>,
}

/// The audio section of a VITS configuration.
#[derive(Debug, Clone, Copy, PartialEq, Eq, Structural)]
pub struct VitsAudioConfig {
    pub hop_length: usize,
    pub sample_rate: u32,
}

#[derive(Debug, Clone)]
pub struct VitsInferenceConfig {
    pub network: VitsNetworkConfig,
    pub audio: VitsAudioConfig,
}

impl VitsNetworkConfig {
    /// The channels of the speaker conditioning: those of the learned embedding, else those of
    /// the external vector, else none.
    pub open spec fn conditioning_width(self) -> usize {
        if self.use_speaker_embedding {
            self.speaker_embedding_channels
        } else if self.use_d_vector_file {
            self.d_vector_dim
        } else {
            0
        }
    }

    pub fn conditioning_channels(&self) -> (out: usize)
        ensures
            out == self.conditioning_width(),
    {
        if self.use_speaker_embedding {
            self.speaker_embedding_channels
        } else if self.use_d_vector_file {
            self.d_vector_dim
        } else {
            0
        }
    }

    /// The generator inside the model, with its plain first and last convolution.
    pub open spec fn generator(self) -> HifiganModel {
        HifiganModel {
            in_channels: self.hidden_channels,
            out_channels: 1,
            resblock_type: self.resblock_type_decoder@,
            resblock_dilation_sizes: nested(self.resblock_dilation_sizes_decoder@),
            resblock_kernel_sizes: self.resblock_kernel_sizes_decoder@,
            upsample_kernel_sizes: self.upsample_kernel_sizes_decoder@,
            upsample_initial_channel: self.upsample_initial_channel_decoder,
            upsample_factors: self.upsample_rates_decoder@,
            inference_padding: 0,
            cond_channels: self.conditioning_width(),
            conv_pre_weight_norm: false,
            conv_post_weight_norm: false,
            conv_post_bias: false,
        }
    }
}

/// A copy of nested lists.
fn copied(lists: &Vec<Vec<usize>>) -> (out: Vec<Vec<usize>>)
    ensures
        nested(out@) == nested(lists@),
{
    let mut out: Vec<Vec<usize>> = Vec::new();
    let mut i: usize = 0;
    while i < lists.len()
        invariant
            i <= lists.len(),
            out.len() == i,
            forall|k: int| 0 <= k < i ==> (#[trigger] out[k])@ == lists[k]@,
        decreases lists.len() - i,
    {
        out.push(lists[i].clone());
        i = i + 1;
    }
    assert(nested(out@) =~= nested(lists@));
    out
}

/// The upsampling does not fill the hop between two frames.
pub open spec fn hop_fault(factor: nat, hop_length: usize) -> Seq<char> {
    "decoder upsample factor "@ + decimal(factor) + " does not match audio hop length "@ + decimal(
        hop_length as nat,
    )
}

/// Topology of the waveform decoder inside a VITS model.
#[derive(Debug, Clone)]
pub struct VitsWaveformDecoderConfig {
    generator: HifiganGeneratorConfig,
}

impl View for VitsWaveformDecoderConfig {
    type V = HifiganModel;

    closed spec fn view(&self) -> HifiganModel {
        self.generator@
    }
}

/// The generator that holds the decoder: normalized first and last convolutions, no padding and
/// no bias at the end.
pub open spec fn stored(model: HifiganModel) -> HifiganModel {
    HifiganModel {
        inference_padding: 0,
        conv_pre_weight_norm: true,
        conv_post_weight_norm: true,
        conv_post_bias: false,
        ..model
    }
}

impl VitsWaveformDecoderConfig {
    /// Accepts a generator that is valid on its own.
    pub fn from_generator_config(generator: HifiganGeneratorConfig) -> (out: Result<
        Self,
        VitsWaveformDecoderError,
    >)
        ensures
            match out {
                Ok(decoder) => generator@.fault() is None && decoder@ == generator@,
                Err(VitsWaveformDecoderError::Generator(HifiganError::InvalidConfig(message))) =>
                    generator@.fault() == Some(message@),
                Err(_) => false,
            },
    {
        match generator.validate() {
            Ok(_) => Ok(VitsWaveformDecoderConfig { generator }),
            Err(error) => Err(VitsWaveformDecoderError::Generator(error)),
        }
    }

    /// The decoder of a model whose configuration has been accepted.
    pub fn from_model_config(config: &VitsInferenceConfig) -> (out: Result<
        Self,
        VitsWaveformDecoderError,
    >)
        requires
            products_fit(config.network.upsample_rates_decoder@),
        ensures
            match out {
                Ok(decoder) => product(config.network.upsample_rates_decoder@)
                    == config.audio.hop_length && decoder@ == config.network.generator(),
                Err(VitsWaveformDecoderError::InvalidTopology(message)) => {
                    &&& product(config.network.upsample_rates_decoder@) != config.audio.hop_length
                    &&& message@ == hop_fault(
                        product(config.network.upsample_rates_decoder@),
                        config.audio.hop_length,
                    )
                },
                Err(_) => false,
            },
    {
        let args = &config.network;
        let generator = HifiganGeneratorConfig {
            in_channels: args.hidden_channels,
            out_channels: 1,
            resblock_type: args.resblock_type_decoder.clone(),
            resblock_dilation_sizes: copied(&args.resblock_dilation_sizes_decoder),
            resblock_kernel_sizes: args.resblock_kernel_sizes_decoder.clone(),
            upsample_kernel_sizes: args.upsample_kernel_sizes_decoder.clone(),
            upsample_initial_channel: args.upsample_initial_channel_decoder,
            upsample_factors: args.upsample_rates_decoder.clone(),
            inference_padding: 0,
            cond_channels: args.conditioning_channels(),
            conv_pre_weight_norm: false,
            conv_post_weight_norm: false,
            conv_post_bias: false,
        };
        let factor: usize = generator.upsample_factor();
        if factor != config.audio.hop_length {
            return Err(
                VitsWaveformDecoderError::InvalidTopology(
                    with_numbers(
                        "decoder upsample factor ",
                        factor,
                        " does not match audio hop length ",
                        config.audio.hop_length,
                    ),
                ),
            );
        }
        Ok(VitsWaveformDecoderConfig { generator })
    }

    /// The decoder of a model, given the verdict on its whole configuration: a refusal is the
    /// decoder's own.
    pub fn from_checked_config(config: &VitsInferenceConfig, checked: Result<(), String>) -> (out:
        Result<Self, VitsWaveformDecoderError>)
        requires
            checked is Ok ==> products_fit(config.network.upsample_rates_decoder@),
        ensures
            match (checked, out) {
                (Err(reason), Err(VitsWaveformDecoderError::InvalidTopology(message))) => message
                    == reason,
                (Err(_), _) => false,
                (Ok(_), Ok(decoder)) => product(config.network.upsample_rates_decoder@)
                    == config.audio.hop_length && decoder@ == config.network.generator(),
                (Ok(_), Err(VitsWaveformDecoderError::InvalidTopology(message))) => {
                    &&& product(config.network.upsample_rates_decoder@) != config.audio.hop_length
                    &&& message@ == hop_fault(
                        product(config.network.upsample_rates_decoder@),
                        config.audio.hop_length,
                    )
                },
                (Ok(_), Err(_)) => false,
            },
    {
        match checked {
            Ok(_) => Self::from_model_config(config),
            Err(reason) => Err(VitsWaveformDecoderError::InvalidTopology(reason)),
        }
    }

    /// The topology of the checkpoint, with its plain first and last convolution.
    pub fn generator_config(&self) -> (out: &HifiganGeneratorConfig)
        ensures
            out@ == self@,
    {
        &self.generator
    }

    /// The generator that holds the decoder in memory.
    pub fn storage_config(&self) -> (out: HifiganGeneratorConfig)
        ensures
            out@ == stored(self@),
    {
        HifiganGeneratorConfig {
            in_channels: self.generator.in_channels,
            out_channels: self.generator.out_channels,
            resblock_type: self.generator.resblock_type.clone(),
            resblock_dilation_sizes: copied(&self.generator.resblock_dilation_sizes),
            resblock_kernel_sizes: self.generator.resblock_kernel_sizes.clone(),
            upsample_kernel_sizes: self.generator.upsample_kernel_sizes.clone(),
            upsample_initial_channel: self.generator.upsample_initial_channel,
            upsample_factors: self.generator.upsample_factors.clone(),
            inference_padding: 0,
            cond_channels: self.generator.cond_channels,
            conv_pre_weight_norm: true,
            conv_post_weight_norm: true,
            conv_post_bias: false,
        }
    }

    /// The layers of the decoder.
    pub fn topology(&self) -> (out: Result<HifiganTopology, VitsWaveformDecoderError>)
        requires
            stored(self@).fault() is None ==> stored(self@).buildable(),
        ensures
            match out {
                Ok(topology) => stored(self@).fault() is None && stored(self@).built_as(topology),
                Err(VitsWaveformDecoderError::Generator(HifiganError::InvalidConfig(message))) =>
                    stored(self@).fault() == Some(message@),
                Err(_) => false,
            },
    {
        match self.storage_config().topology() {
            Ok(topology) => Ok(topology),
            Err(error) => Err(VitsWaveformDecoderError::Generator(error)),
        }
    }

    /// The channels of the latent features.
    pub fn input_channels(&self) -> (out: usize)
        ensures
            out == self@.in_channels,
    {
        self.generator.in_channels
    }

    /// The channels of the speaker conditioning.
    pub fn conditioning_channels(&self) -> (out: usize)
        ensures
            out == self@.cond_channels,
    {
        self.generator.cond_channels
    }

    /// The samples per latent frame.
    pub fn upsample_factor(&self) -> (out: usize)
        requires
            products_fit(self@.upsample_factors),
        ensures
            out == self@.factor(),
    {
        total_factor(self.generator.upsample_factors.as_slice())
    }

    /// The samples of latent frames, where they can be counted.
    pub fn output_frames(&self, latent_frames: usize) -> (out: Option<usize>)
        requires
            products_fit(self@.upsample_factors),
        ensures
            out == scaled(latent_frames as int, self@.factor() as int),
    {
        checked_scaled(latent_frames, self.upsample_factor())
    }
}

/// A part of a checkpoint that holds the decoder, and the pattern of its prefix.
pub open spec fn decoder_subtree(name: Seq<char>) -> Option<(Subtree, Seq<char>)> {
    if name == "waveform_decoder"@ {
        Some((Subtree::WaveformDecoder, r"^waveform_decoder\."@))
    } else if name == "dec"@ {
        Some((Subtree::FreevcDecoder, r"^dec\."@))
    } else {
        None
    }
}

/// The part of a checkpoint that holds the decoder, and the pattern of its prefix.
pub fn select_subtree(name: &str) -> (out: Result<
    (Subtree, &'static str),
    VitsWaveformDecoderError,
>)
    ensures
        match out {
            Ok((subtree, prefix)) => decoder_subtree(name@) == Some((subtree, prefix@)),
            Err(VitsWaveformDecoderError::Checkpoint(message)) => decoder_subtree(name@) is None
                && message@ == "unsupported decoder checkpoint subtree `"@ + name@ + "`"@,
            Err(_) => false,
        },
{
    if same_text(name, "waveform_decoder") {
        Ok((Subtree::WaveformDecoder, r"^waveform_decoder\."))
    } else if same_text(name, "dec") {
        Ok((Subtree::FreevcDecoder, r"^dec\."))
    } else {
        Err(
            VitsWaveformDecoderError::Checkpoint(
                around_text("unsupported decoder checkpoint subtree `", name, "`"),
            ),
        )
    }
}

/// How checkpoint names below a prefix become parameter names, as patterns and replacements.
pub fn key_remappings(prefix: &'static str) -> (out: Vec<(&'static str, &'static str)>)
    ensures
        out@ == seq![
            (prefix, ""),
            (r"^cond\.", "cond_layer."),
            (r"^(conv_pre|conv_post)\.weight$", "$1.weight_v"),
        ],
{
    vec![
        (prefix, ""),
        (r"^cond\.", "cond_layer."),
        (r"^(conv_pre|conv_post)\.weight$", "$1.weight_v"),
    ]
}

/// The gains that a checkpoint of plain convolutions leaves to be derived.
pub open spec fn derived_gains() -> Seq<Seq<char>> {
    seq!["conv_post.weight_g"@, "conv_pre.weight_g"@]
}

/// A checkpoint fits the decoder: exactly the gains are missing, nothing failed, and no tensor
/// of the part went unused.
pub open spec fn decoder_fits(report: LoadReport, subtree: Subtree) -> bool {
    &&& sorted_texts(missing_paths(report.missing@)) == derived_gains()
    &&& report.errors.len() == 0
    &&& belonging(views(report.unused@), subtree).len() == 0
}

/// How a checkpoint disagrees with the decoder.
pub open spec fn decoder_disagreement(report: LoadReport, subtree: Subtree) -> Seq<char> {
    "decoder subtree does not exactly match the Burn module: missing ["@ + joined(
        sorted_texts(missing_paths(report.missing@)),
        ", "@,
    ) + "], "@ + decimal(report.errors.len() as nat) + " load errors, unused ["@ + joined(
        belonging(views(report.unused@), subtree),
        ", "@,
    ) + "]"@
}

/// Whether a checkpoint fits the decoder.
pub fn check_checkpoint(report: &LoadReport, subtree: Subtree) -> (out: Result<
    (),
    VitsWaveformDecoderError,
>)
    ensures
        match out {
            Ok(_) => decoder_fits(*report, subtree),
            Err(VitsWaveformDecoderError::Checkpoint(message)) => !decoder_fits(*report, subtree)
                && message@ == decoder_disagreement(*report, subtree),
            Err(_) => false,
        },
{
    let paths = missing_path_list(&report.missing);
    let missing = sort_texts(&paths);
    let unused = paths_belonging(&report.unused, subtree);
    assert(views(unused@).len() == unused.len());
    assert(views(missing@).len() == missing.len());
    let only_gains = missing.len() == 2 && same_text(missing[0].as_str(), "conv_post.weight_g")
        && same_text(missing[1].as_str(), "conv_pre.weight_g");
    proof {
        if only_gains {
            assert(views(missing@) =~= derived_gains());
        } else if views(missing@) == derived_gains() {
            assert(views(missing@)[0] == missing@[0]@);
            assert(views(missing@)[1] == missing@[1]@);
        }
    }
    if !only_gains || report.errors.len() != 0 || unused.len() != 0 {
        return Err(
            VitsWaveformDecoderError::Checkpoint(
                listed_message(
                    "decoder subtree does not exactly match the Burn module: missing [",
                    &missing,
                    report.errors.len(),
                    &unused,
                ),
            ),
        );
    }
    Ok(())
}

/// The shape in which conditioning reaches the generator: a single frame is repeated over all
/// latent frames.
pub open spec fn spread(latent: Seq<usize>, conditioning: Seq<usize>) -> Result<
    Seq<usize>,
    Seq<char>,
> {
    if conditioning[0] != latent[0] {
        Err(
            "conditioning batch "@ + decimal(conditioning[0] as nat)
                + " does not match latent batch "@ + decimal(latent[0] as nat),
        )
    } else if conditioning[2] == 1 {
        Ok(seq![conditioning[0], conditioning[1], latent[2]])
    } else if conditioning[2] == latent[2] {
        Ok(conditioning)
    } else {
        Err(
            "conditioning has "@ + decimal(conditioning[2] as nat) + " frames; expected 1 or "@
                + decimal(latent[2] as nat),
        )
    }
}

/// What becomes of conditioning on its way to the generator.
#[derive(Debug, Clone, Copy, PartialEq, Eq, Structural)]
pub enum ConditioningSpread {
    Absent,
    AsGiven,
    /// The only frame, this many times.
    Repeated(usize),
}

/// The error of an input, if any, and otherwise what is asked of the generator.
pub open spec fn forward_outcome(
    model: HifiganModel,
    latent: Seq<usize>,
    conditioning: Option<Seq<usize>>,
    out: Result<ConditioningSpread, VitsWaveformDecoderError>,
) -> bool {
    match conditioning {
        None => match out {
            Ok(plan) => model.forward_fault(latent, None) is None && plan
                == ConditioningSpread::Absent,
            Err(VitsWaveformDecoderError::Generator(HifiganError::InvalidInput(message))) =>
                model.forward_fault(latent, None) == Some(message@),
            Err(_) => false,
        },
        Some(given) => match spread(latent, given) {
            Err(reason) => out matches Err(VitsWaveformDecoderError::InvalidInput(message))
                && message@ == reason,
            Ok(shape) => match out {
                Ok(plan) => model.forward_fault(latent, Some(shape)) is None && plan == (
                if given[2] == 1 {
                    ConditioningSpread::Repeated(latent[2])
                } else {
                    ConditioningSpread::AsGiven
                }),
                Err(VitsWaveformDecoderError::Generator(HifiganError::InvalidInput(message))) =>
                    model.forward_fault(latent, Some(shape)) == Some(message@),
                Err(_) => false,
            },
        },
    }
}

impl VitsWaveformDecoderConfig {
    /// How conditioning of the given shape is spread over latent features of the given shape,
    /// where the generator takes them.
    pub fn plan_forward(&self, latent: &[usize; 3], conditioning: &Option<[usize; 3]>) -> (out:
        Result<ConditioningSpread, VitsWaveformDecoderError>)
        ensures
            forward_outcome(stored(self@), latent@, shape_of(*conditioning), out),
    {
        let (plan, shape) = match conditioning {
            None => (ConditioningSpread::Absent, None),
            Some(given) => {
                if given[0] != latent[0] {
                    return Err(
                        VitsWaveformDecoderError::InvalidInput(
                            with_numbers(
                                "conditioning batch ",
                                given[0],
                                " does not match latent batch ",
                                latent[0],
                            ),
                        ),
                    );
                }
                if given[2] == 1 {
                    let wide: [usize; 3] = [given[0], given[1], latent[2]];
                    assert(wide@ =~= seq![given[0], given[1], latent[2]]);
                    (ConditioningSpread::Repeated(latent[2]), Some(wide))
                } else if given[2] == latent[2] {
                    (ConditioningSpread::AsGiven, Some(*given))
                } else {
                    return Err(
                        VitsWaveformDecoderError::InvalidInput(
                            with_numbers(
                                "conditioning has ",
                                given[2],
                                " frames; expected 1 or ",
                                latent[2],
                            ),
                        ),
                    );
                }
            },
        };
        match self.storage_config().check_forward(latent, &shape) {
            Ok(_) => Ok(plan),
            Err(error) => Err(VitsWaveformDecoderError::from(error)),
        }
    }
}

/// A decoder built from a model's configuration turns each latent frame into exactly one hop of
/// samples.
pub proof fn decoder_fills_the_hop(config: VitsInferenceConfig, decoder: HifiganModel)
    requires
        product(config.network.upsample_rates_decoder@) == config.audio.hop_length,
        decoder == config.network.generator(),
    ensures
        decoder.factor() == config.audio.hop_length,
        stored(decoder).factor() == config.audio.hop_length,
        decoder.inference_padding == 0,
{
}

/// A generator that is valid on its own is still valid in the form in which the decoder is held.
pub proof fn storage_keeps_validity(model: HifiganModel)
    requires
        model.fault() is None,
    ensures
        stored(model).fault() is None,
{
    stored_blocks(model, 0);
    stored_stages(model, 0);
}

proof fn stored_blocks(model: HifiganModel, from: int)
    ensures
        stored(model).blocks_fault(from) == model.blocks_fault(from),
    decreases model.resblock_kernel_sizes.len() - from,
{
    if 0 <= from < model.resblock_kernel_sizes.len() {
        stored_blocks(model, from + 1);
    }
}

proof fn stored_stages(model: HifiganModel, from: int)
    ensures
        stored(model).stages_fault(from) == model.stages_fault(from),
    decreases model.upsample_factors.len() - from,
{
    if 0 <= from < model.upsample_factors.len() {
        stored_stages(model, from + 1);
    }
}

/// Learned speakers are as wide as their table, others as wide as their vectors; without either
/// there is no conditioning. Learned speakers go first.
pub proof fn network_speakers_have_one_width(network: &VitsNetworkConfig, out: usize)
    requires
        call_ensures(VitsNetworkConfig::conditioning_channels, (network,), out),
    ensures
        network.use_speaker_embedding ==> out == network.speaker_embedding_channels,
        !network.use_speaker_embedding && network.use_d_vector_file ==> out == network.d_vector_dim,
        !network.use_speaker_embedding && !network.use_d_vector_file ==> out == 0,
{
}

/// A generator becomes a decoder exactly where it is valid, and the decoder is that generator.
pub proof fn valid_generators_are_decoders(
    generator: HifiganGeneratorConfig,
    valid: Result<(), HifiganError>,
    out: Result<VitsWaveformDecoderConfig, VitsWaveformDecoderError>,
)
    requires
        call_ensures(HifiganGeneratorConfig::validate, (&generator,), valid),
        call_ensures(VitsWaveformDecoderConfig::from_generator_config, (generator,), out),
    ensures
        out is Ok <==> valid is Ok,
        out matches Ok(decoder) ==> decoder@ == generator@,
        out matches Err(error) ==> error is Generator,
{
}

/// A model has a decoder exactly where its factors multiply to the hop. The decoder reads the
/// hidden channels, emits one, has the blocks and stages of the model and its conditioning, and
/// neither padding, nor normalized ends, nor a bias at the end.
pub proof fn decoders_follow_their_models(
    config: &VitsInferenceConfig,
    rates: &[usize],
    factor: usize,
    width: usize,
    out: Result<VitsWaveformDecoderConfig, VitsWaveformDecoderError>,
    generator: &HifiganGeneratorConfig,
)
    requires
        products_fit(config.network.upsample_rates_decoder@),
        rates@ == config.network.upsample_rates_decoder@,
        call_ensures(total_factor, (rates,), factor),
        call_ensures(VitsNetworkConfig::conditioning_channels, (&config.network,), width),
        call_ensures(VitsWaveformDecoderConfig::from_model_config, (config,), out),
        out matches Ok(decoder) ==> call_ensures(
            VitsWaveformDecoderConfig::generator_config,
            (&decoder,),
            generator,
        ),
    ensures
        out is Ok <==> factor == config.audio.hop_length,
        out matches Err(error) ==> error is InvalidTopology,
        out is Ok ==> {
            let network = config.network;
            &&& generator.in_channels == network.hidden_channels && generator.out_channels == 1
            &&& generator.resblock_type@ == network.resblock_type_decoder@
            &&& generator.resblock_kernel_sizes@ == network.resblock_kernel_sizes_decoder@
            &&& generator.resblock_dilation_sizes.len()
                == network.resblock_dilation_sizes_decoder.len()
            &&& forall|k: int|
                0 <= k < generator.resblock_dilation_sizes.len() ==> (
                #[trigger] generator.resblock_dilation_sizes@[k])@
                    == network.resblock_dilation_sizes_decoder@[k]@
            &&& generator.upsample_factors@ == network.upsample_rates_decoder@
            &&& generator.upsample_kernel_sizes@ == network.upsample_kernel_sizes_decoder@
            &&& generator.upsample_initial_channel == network.upsample_initial_channel_decoder
            &&& generator.cond_channels == width
            &&& generator.inference_padding == 0
            &&& !generator.conv_pre_weight_norm && !generator.conv_post_weight_norm
            &&& !generator.conv_post_bias
        },
{
    if out is Ok {
        let model = config.network.generator();
        let held = nested(generator.resblock_dilation_sizes@);
        assert(generator@ == model);
        assert(held == model.resblock_dilation_sizes);
        assert(held.len() == generator.resblock_dilation_sizes.len());
        assert forall|k: int| 0 <= k < generator.resblock_dilation_sizes.len() implies (
        #[trigger] generator.resblock_dilation_sizes@[k])@
            == config.network.resblock_dilation_sizes_decoder@[k]@ by {
            assert(held[k] == model.resblock_dilation_sizes[k]);
        }
    }
}

/// A refusal of the configuration is passed on in its own words; otherwise the decoder is that of
/// the model.
pub proof fn refused_models_have_no_decoders(
    config: &VitsInferenceConfig,
    checked: Result<(), String>,
    plain: Result<VitsWaveformDecoderConfig, VitsWaveformDecoderError>,
    out: Result<VitsWaveformDecoderConfig, VitsWaveformDecoderError>,
)
    requires
        products_fit(config.network.upsample_rates_decoder@),
        call_ensures(VitsWaveformDecoderConfig::from_model_config, (config,), plain),
        call_ensures(VitsWaveformDecoderConfig::from_checked_config, (config, checked), out),
    ensures
        checked matches Err(reason) ==> (out matches Err(error) && error
            == VitsWaveformDecoderError::InvalidTopology(reason)),
        checked is Ok ==> (out is Ok <==> plain is Ok),
        out matches Ok(decoder) ==> (plain matches Ok(other) && decoder@ == other@),
{
}

/// In memory the ends of the generator are normalized; all else is as in the checkpoint, without
/// padding and without a bias at the end.
pub proof fn storage_differs_at_the_ends(
    decoder: &VitsWaveformDecoderConfig,
    generator: &HifiganGeneratorConfig,
    out: HifiganGeneratorConfig,
)
    requires
        call_ensures(VitsWaveformDecoderConfig::generator_config, (decoder,), generator),
        call_ensures(VitsWaveformDecoderConfig::storage_config, (decoder,), out),
    ensures
        out.conv_pre_weight_norm && out.conv_post_weight_norm,
        !out.conv_post_bias && out.inference_padding == 0,
        out.in_channels == generator.in_channels && out.out_channels == generator.out_channels,
        out.resblock_type@ == generator.resblock_type@,
        nested(out.resblock_dilation_sizes@) == nested(generator.resblock_dilation_sizes@),
        out.resblock_kernel_sizes@ == generator.resblock_kernel_sizes@,
        out.upsample_kernel_sizes@ == generator.upsample_kernel_sizes@,
        out.upsample_factors@ == generator.upsample_factors@,
        out.upsample_initial_channel == generator.upsample_initial_channel,
        out.cond_channels == generator.cond_channels,
{
    assert(out@ == stored(generator@));
    assert(out@.resblock_type == generator@.resblock_type);
    assert(out@.upsample_factors == generator@.upsample_factors);
}

/// The decoder reads the channels of its generator, and has as many samples as frames times the
/// product of the factors, where they can be counted.
pub proof fn decoder_samples_are_counted_exactly(
    decoder: &VitsWaveformDecoderConfig,
    generator: &HifiganGeneratorConfig,
    rates: &[usize],
    whole: usize,
    channels: usize,
    width: usize,
    factor: usize,
    frames: usize,
    samples: Option<usize>,
)
    requires
        products_fit(decoder@.upsample_factors),
        call_ensures(VitsWaveformDecoderConfig::generator_config, (decoder,), generator),
        rates@ == generator.upsample_factors@,
        call_ensures(total_factor, (rates,), whole),
        call_ensures(VitsWaveformDecoderConfig::input_channels, (decoder,), channels),
        call_ensures(VitsWaveformDecoderConfig::conditioning_channels, (decoder,), width),
        call_ensures(VitsWaveformDecoderConfig::upsample_factor, (decoder,), factor),
        call_ensures(VitsWaveformDecoderConfig::output_frames, (decoder, frames), samples),
    ensures
        channels == generator.in_channels,
        width == generator.cond_channels,
        factor == whole,
        samples is Some <==> frames * factor <= usize::MAX,
        samples matches Some(count) ==> count == frames * factor,
{
    assert(generator@.upsample_factors == decoder@.upsample_factors);
    assert(0 <= frames * factor) by (nonlinear_arith);
}

/// Layers are those of the generator in memory, and are there exactly where it is valid.
pub proof fn decoder_layers_are_those_of_storage(
    decoder: &VitsWaveformDecoderConfig,
    storage: HifiganGeneratorConfig,
    valid: Result<(), HifiganError>,
    out: Result<HifiganTopology, VitsWaveformDecoderError>,
)
    requires
        stored(decoder@).fault() is None ==> stored(decoder@).buildable(),
        call_ensures(VitsWaveformDecoderConfig::storage_config, (decoder,), storage),
        call_ensures(HifiganGeneratorConfig::validate, (&storage,), valid),
        call_ensures(VitsWaveformDecoderConfig::topology, (decoder,), out),
    ensures
        out is Ok <==> valid is Ok,
        out matches Ok(topology) ==> storage@.built_as(topology),
        out matches Err(error) ==> error is Generator,
{
}

/// A decoder is found under one of two names, each with its part of a checkpoint and its prefix.
pub proof fn decoders_have_two_names(
    name: &str,
    out: Result<(Subtree, &'static str), VitsWaveformDecoderError>,
)
    requires
        call_ensures(select_subtree, (name,), out),
    ensures
        out is Ok <==> name@ == "waveform_decoder"@ || name@ == "dec"@,
        out matches Ok(found) ==> (name@ == "waveform_decoder"@ ==> found.0 is WaveformDecoder
            && found.1@ == r"^waveform_decoder\."@),
        out matches Ok(found) ==> (name@ == "dec"@ ==> found.0 is FreevcDecoder && found.1@
            == r"^dec\."@),
        out matches Err(error) ==> error is Checkpoint,
{
    reveal_strlit("waveform_decoder");
    reveal_strlit("dec");
    assert("waveform_decoder"@.len() == 16 && "dec"@.len() == 3);
}

/// The prefix goes, conditioning gets its layer, and the plain weights of the ends become
/// directions.
pub proof fn decoder_names_lose_their_prefix(
    prefix: &'static str,
    out: Vec<(&'static str, &'static str)>,
)
    requires
        call_ensures(key_remappings, (prefix,), out),
    ensures
        out.len() == 3,
        out@[0].0@ == prefix@ && out@[0].1@ == ""@,
        out@[1].0@ == r"^cond\."@ && out@[1].1@ == "cond_layer."@,
        out@[2].0@ == r"^(conv_pre|conv_post)\.weight$"@ && out@[2].1@ == "$1.weight_v"@,
{
}

proof fn gains_are_in_order()
    ensures
        text_precedes("conv_post.weight_g"@, "conv_pre.weight_g"@),
        !text_precedes("conv_pre.weight_g"@, "conv_post.weight_g"@),
        "conv_post.weight_g"@ != "conv_pre.weight_g"@,
{
    let post = "conv_post.weight_g"@;
    let pre = "conv_pre.weight_g"@;
    reveal_strlit("conv_post.weight_g");
    reveal_strlit("conv_pre.weight_g");
    assert(post.len() == 18 && pre.len() == 17);
    assert(post.take(6) =~= pre.take(6));
    precedes_at(post, pre, 6);
    precedes_at(pre, post, 6);
    assert(post[6] == 'o' && pre[6] == 'r');
    assert(post.skip(6)[0] == 'o' && pre.skip(6)[0] == 'r');
}

proof fn gains_are_missing_in_either_order(paths: Seq<Seq<char>>)
    ensures
        sorted_texts(paths) == derived_gains() <==> paths.len() == 2 && ((paths[0]
            == "conv_post.weight_g"@ && paths[1] == "conv_pre.weight_g"@) || (paths[0]
            == "conv_pre.weight_g"@ && paths[1] == "conv_post.weight_g"@)),
{
    gains_are_in_order();
    sorting_orders_texts(paths);
    if paths.len() == 2 {
        let front = paths.drop_last();
        assert(front.drop_last() =~= Seq::<Seq<char>>::empty());
        assert(sorted_texts(front.drop_last()) =~= Seq::<Seq<char>>::empty());
        assert(text_place(Seq::<Seq<char>>::empty(), front.last()) == 0);
        let first = sorted_texts(front);
        assert(first =~= seq![paths[0]]);
        assert(first.drop_last() =~= Seq::<Seq<char>>::empty());
        assert(first.last() == paths[0]);
        assert(text_place(first.drop_last(), paths[1]) == 0);
        let place = text_place(first, paths[1]);
        let sorted = sorted_texts(paths);
        if text_precedes(paths[1], paths[0]) {
            assert(place == 0);
            assert(sorted =~= seq![paths[1], paths[0]]);
        } else {
            assert(place == 1);
            assert(sorted =~= seq![paths[0], paths[1]]);
        }
        assert(derived_gains()[0] == "conv_post.weight_g"@);
        assert(derived_gains()[1] == "conv_pre.weight_g"@);
        if sorted == derived_gains() {
            assert(sorted[0] == "conv_post.weight_g"@ && sorted[1] == "conv_pre.weight_g"@);
        }
    } else {
        assert(derived_gains().len() == 2);
    }
}

/// A checkpoint fits exactly where the two gains of the ends are missing and nothing else, nothing
/// failed, and nothing of the part went unused.
pub proof fn only_gains_may_be_missing(
    report: &LoadReport,
    subtree: Subtree,
    out: Result<(), VitsWaveformDecoderError>,
)
    requires
        call_ensures(check_checkpoint, (report, subtree), out),
    ensures
        out is Ok <==> {
            &&& report.missing.len() == 2
            &&& (report.missing@[0].0@ == "conv_post.weight_g"@ && report.missing@[1].0@
                == "conv_pre.weight_g"@) || (report.missing@[0].0@ == "conv_pre.weight_g"@
                && report.missing@[1].0@ == "conv_post.weight_g"@)
            &&& report.errors.len() == 0
            &&& forall|i: int|
                0 <= i < report.unused.len() ==> !subtree.contains(#[trigger] report.unused@[i]@)
        },
        out matches Err(error) ==> error is Checkpoint,
{
    let paths = missing_paths(report.missing@);
    gains_are_missing_in_either_order(paths);
    assert(paths.len() == report.missing.len());
    crate::checkpoint::unused_parts_are_told(*report, subtree);
}

/// Latent features are decoded exactly where they have the channels of the decoder and a frame at
/// least, and come with conditioning exactly where the decoder is conditioned: of the same batch,
/// of its channels, for all frames at once or for each. One frame for all is repeated as often as
/// there are frames.
pub proof fn latents_are_decoded_on_their_merits(
    decoder: &VitsWaveformDecoderConfig,
    channels: usize,
    width: usize,
    latent: &[usize; 3],
    conditioning: &Option<[usize; 3]>,
    out: Result<ConditioningSpread, VitsWaveformDecoderError>,
)
    requires
        call_ensures(VitsWaveformDecoderConfig::input_channels, (decoder,), channels),
        call_ensures(VitsWaveformDecoderConfig::conditioning_channels, (decoder,), width),
        call_ensures(VitsWaveformDecoderConfig::plan_forward, (decoder, latent, conditioning), out),
    ensures
        out is Ok <==> {
            &&& latent@[1] == channels && latent@[2] > 0
            &&& conditioning is Some <==> width > 0
            &&& conditioning matches Some(shape) ==> shape@[0] == latent@[0] && shape@[1] == width
                && (shape@[2] == 1 || shape@[2] == latent@[2])
        },
        out matches Ok(plan) ==> match *conditioning {
            None => plan is Absent,
            Some(shape) => if shape@[2] == 1 {
                plan == ConditioningSpread::Repeated(latent@[2])
            } else {
                plan is AsGiven
            },
        },
{
    if let Some(shape) = conditioning {
        let wide = seq![shape@[0], shape@[1], latent@[2]];
        let expected = seq![latent@[0], width, latent@[2]];
        assert((shape@ =~= expected) <==> shape@[0] == latent@[0] && shape@[1] == width && shape@[2]
            == latent@[2]);
        assert((wide =~= expected) <==> shape@[0] == latent@[0] && shape@[1] == width);
    }
}

/// An error says of what kind it is, and then its reason; one of the generator speaks for itself.
pub proof fn decoder_errors_say_their_kind(
    error: &VitsWaveformDecoderError,
    inner: HifiganError,
    said: String,
    out: String,
)
    requires
        call_ensures(VitsWaveformDecoderError::describe, (error,), out),
        call_ensures(HifiganError::describe, (&inner,), said),
    ensures
        error matches VitsWaveformDecoderError::InvalidTopology(message) ==> out@
            == "invalid VITS waveform decoder topology: "@ + message@,
        error matches VitsWaveformDecoderError::InvalidInput(message) ==> out@
            == "invalid VITS waveform decoder input: "@ + message@,
        error matches VitsWaveformDecoderError::Checkpoint(message) ==> out@
            == "unable to load VITS waveform decoder checkpoint: "@ + message@,
        *error == VitsWaveformDecoderError::Generator(inner) ==> out@ == said@,
{
}

} // verus!
