//! MelGAN and its multi-band variant: generators of waveforms from spectrograms.

use vstd::arithmetic::power::pow;
use vstd::arithmetic::power2::pow2;
use vstd::prelude::*;

use crate::double::Double;
use crate::json::unless;
use crate::layers::{is_multiple_of, is_odd, multiple_of, odd, span};
use crate::speedy_speech::holds_zero;
use crate::text::{
    around_numbers, decimal, decimal_text, shape_string, shape_text, with_numbers, with_text,
};
use crate::upsampling::{
    checked_scaled, checked_scaled_padded, halved, length_after, product, products_fit, scaled,
    scaled_padded, stages_multiply, total_factor, Upsample,
};

verus! {

/// Errors of MelGAN configurations, inputs and checkpoints.
#[derive(Debug, Clone, PartialEq, Eq)]
pub enum MelganError {
    InvalidConfig(String),
    InvalidInput(String),
}

impl MelganError {
    pub open spec fn described(self) -> Seq<char> {
        match self {
            MelganError::InvalidConfig(message) => "invalid MelGAN config: "@ + message@,
            MelganError::InvalidInput(message) => "invalid MelGAN input: "@ + message@,
        }
    }

    /// The error in words.
    pub fn describe(&self) -> (out: String)
        ensures
            out@ == self.described(),
    {
        match self {
            MelganError::InvalidConfig(message) => with_text(
                "invalid MelGAN config: ",
                message.as_str(),
            ),
            MelganError::InvalidInput(message) => with_text(
                "invalid MelGAN input: ",
                message.as_str(),
            ),
        }
    }
}

/// The outcome is an accepted configuration, or the given fault.
pub open spec fn config_verdict<T>(out: Result<T, MelganError>, fault: Option<Seq<char>>) -> bool {
    match out {
        Ok(_) => fault is None,
        Err(MelganError::InvalidConfig(message)) => fault == Some(message@),
        Err(_) => false,
    }
}

/// The outcome is an accepted input, or the given fault.
pub open spec fn input_verdict<T>(out: Result<T, MelganError>, fault: Option<Seq<char>>) -> bool {
    match out {
        Ok(_) => fault is None,
        Err(MelganError::InvalidInput(message)) => fault == Some(message@),
        Err(_) => false,
    }
}

fn config_error<T>(message: String) -> (out: Result<T, MelganError>)
    ensures
        out == Err::<T, MelganError>(MelganError::InvalidConfig(message)),
{
    Err(MelganError::InvalidConfig(message))
}

fn input_error<T>(message: String) -> (out: Result<T, MelganError>)
    ensures
        out == Err::<T, MelganError>(MelganError::InvalidInput(message)),
{
    Err(MelganError::InvalidInput(message))
}

/// Parameters of a MelGAN generator.
#[derive(Debug, Clone, PartialEq, Eq)]
pub struct MelganGeneratorConfig {
    pub in_channels: usize,
    pub out_channels: usize,
    pub projection_kernel_size: usize,
    pub base_channels: usize,
    pub upsample_factors: Vec<usize>,
    pub residual_kernel_size: usize,
    pub residual_blocks: usize,
    pub inference_padding: usize,
}

/// The parameters as mathematical values.
#[verifier::ext_equal]
pub struct MelganModel {
    pub in_channels: usize,
    pub out_channels: usize,
    pub projection_kernel_size: usize,
    pub base_channels: usize,
    pub upsample_factors: Seq<usize>,
    pub residual_kernel_size: usize,
    pub residual_blocks: usize,
    pub inference_padding: usize,
}

impl View for MelganGeneratorConfig {
    type V = MelganModel;

    open spec fn view(&self) -> MelganModel {
        MelganModel {
            in_channels: self.in_channels,
            out_channels: self.out_channels,
            projection_kernel_size: self.projection_kernel_size,
            base_channels: self.base_channels,
            upsample_factors: self.upsample_factors@,
            residual_kernel_size: self.residual_kernel_size,
            residual_blocks: self.residual_blocks,
            inference_padding: self.inference_padding,
        }
    }
}

/// The dilation of a residual block, the block's power of the kernel size.
pub open spec fn block_dilation(kernel_size: usize, block: int) -> int {
    pow(kernel_size as int, block as nat)
}

/// A layer of a generator.
#[derive(Debug, Clone)]
pub enum MelganLayer {
    /// A convolution over frames that were padded by half of its kernel.
    Projection { channels_in: usize, channels_out: usize, kernel_size: usize },
    Upsample(Upsample),
    /// Residual blocks with growing dilations.
    Residual { channels: usize, kernel_size: usize, dilations: Vec<usize> },
}

impl MelganModel {
    /// The channels before a stage: half as many after each.
    pub open spec fn stage_channels(self, stage: int) -> int {
        halved(self.base_channels as nat, stage as nat) as int
    }

    /// Every stage has channels to read and to write.
    pub open spec fn enough_channels(self) -> bool {
        forall|stage: int|
            0 <= stage < self.upsample_factors.len() ==> #[trigger] self.stage_channels(stage) != 0
                && self.stage_channels(stage + 1) != 0
    }

    /// The first rule that the parameters break.
    pub open spec fn fault(self) -> Option<Seq<char>> {
        if self.in_channels == 0 || self.out_channels == 0 || self.base_channels == 0 {
            Some("input, output, and base channel counts must be positive"@)
        } else if !odd(self.projection_kernel_size) {
            Some("projection kernel size must be positive and odd"@)
        } else if !odd(self.residual_kernel_size) {
            Some("residual kernel size must be positive and odd"@)
        } else if self.residual_blocks == 0 {
            Some("at least one residual block is required"@)
        } else if self.upsample_factors.len() == 0 || self.upsample_factors.contains(0) {
            Some("upsample factors must be non-empty and positive"@)
        } else {
            unless(
                self.enough_channels(),
                "base channel count "@ + decimal(self.base_channels as nat)
                    + " is too small for "@ + decimal(self.upsample_factors.len())
                    + " upsample stages"@,
            )
        }
    }

    /// The samples per input frame and band.
    pub open spec fn factor(self) -> nat {
        product(self.upsample_factors)
    }

    /// Every residual dilation is representable.
    pub open spec fn dilations_fit(self) -> bool {
        forall|block: int|
            0 <= block < self.residual_blocks ==> #[trigger] block_dilation(
                self.residual_kernel_size,
                block,
            ) <= usize::MAX
    }

    /// The first reason why the layers cannot be built.
    pub open spec fn layers_fault(self) -> Option<Seq<char>> {
        unless(self.dilations_fit(), "residual dilation overflow"@)
    }

    /// The transposed convolution of a stage.
    pub open spec fn stage_upsample(self, stage: int) -> Upsample {
        let factor = self.upsample_factors[stage];
        Upsample {
            channels_in: self.stage_channels(stage) as usize,
            channels_out: self.stage_channels(stage + 1) as usize,
            kernel_size: (factor * 2) as usize,
            stride: factor,
            padding: (factor / 2 + factor % 2) as usize,
            output_padding: (factor % 2) as usize,
        }
    }

    /// The sizes of the transposed convolutions are representable.
    pub open spec fn buildable(self) -> bool {
        &&& products_fit(self.upsample_factors)
        &&& forall|i: int|
            0 <= i < self.upsample_factors.len() ==> #[trigger] self.upsample_factors[i] * 2
                <= usize::MAX
    }

    /// A residual layer over the given channels, one block per dilation.
    pub open spec fn residual_layer(self, layer: MelganLayer, channels: usize) -> bool {
        layer matches MelganLayer::Residual { channels: width, kernel_size, dilations } && width
            == channels && kernel_size == self.residual_kernel_size && dilations.len()
            == self.residual_blocks && (forall|i: int|
            0 <= i < dilations.len() ==> #[trigger] dilations[i] == block_dilation(
                self.residual_kernel_size,
                i,
            ))
    }

    /// The layers of the generator: a projection, a transposed convolution and a residual layer
    /// per stage, and a projection.
    pub open spec fn built_as(self, layers: Seq<MelganLayer>) -> bool {
        let stages = self.upsample_factors.len() as int;
        &&& layers.len() == 2 * stages + 2
        &&& layers[0] == (MelganLayer::Projection {
            channels_in: self.in_channels,
            channels_out: self.base_channels,
            kernel_size: self.projection_kernel_size,
        })
        &&& forall|i: int|
            #![trigger self.stage_upsample(i)]
            0 <= i < stages ==> layers[1 + 2 * i] == MelganLayer::Upsample(self.stage_upsample(i))
                && self.residual_layer(layers[2 + 2 * i], self.stage_upsample(i).channels_out)
        &&& layers[2 * stages + 1] == (MelganLayer::Projection {
            channels_in: self.stage_channels(stages) as usize,
            channels_out: self.out_channels,
            kernel_size: self.projection_kernel_size,
        })
    }

    /// The first reason why features cannot be decoded.
    pub open spec fn forward_fault(self, channels: usize, frames: usize) -> Option<Seq<char>> {
        unless(
            channels == self.in_channels && frames != 0,
            "expected non-empty input with "@ + decimal(self.in_channels as nat)
                + " channels, got "@ + shape_text(seq![channels, frames]),
        )
    }
}

impl MelganGeneratorConfig {
    pub fn validate(&self) -> (out: Result<(), MelganError>)
        ensures
            config_verdict(out, self@.fault()),
    {
        if self.in_channels == 0 || self.out_channels == 0 || self.base_channels == 0 {
            return config_error(
                "input, output, and base channel counts must be positive".to_owned(),
            );
        }
        if !is_odd(self.projection_kernel_size) {
            return config_error("projection kernel size must be positive and odd".to_owned());
        }
        if !is_odd(self.residual_kernel_size) {
            return config_error("residual kernel size must be positive and odd".to_owned());
        }
        if self.residual_blocks == 0 {
            return config_error("at least one residual block is required".to_owned());
        }
        if self.upsample_factors.len() == 0 || holds_zero(self.upsample_factors.as_slice()) {
            return config_error("upsample factors must be non-empty and positive".to_owned());
        }
        if !self.has_enough_channels() {
            return config_error(
                around_numbers(
                    "base channel count ",
                    self.base_channels,
                    " is too small for ",
                    self.upsample_factors.len(),
                    " upsample stages",
                ),
            );
        }
        Ok(())
    }

    fn has_enough_channels(&self) -> (out: bool)
        ensures
            out == self@.enough_channels(),
    {
        let mut channels: usize = self.base_channels;
        let mut stage: usize = 0;
        while stage < self.upsample_factors.len()
            invariant
                stage <= self.upsample_factors.len(),
                channels == self@.stage_channels(stage as int),
                forall|k: int|
                    0 <= k < stage ==> #[trigger] self@.stage_channels(k) != 0
                        && self@.stage_channels(k + 1) != 0,
            decreases self.upsample_factors.len() - stage,
        {
            let channels_out: usize = channels / 2;
            assert(channels_out == self@.stage_channels(stage + 1));
            if channels == 0 || channels_out == 0 {
                assert(self@.stage_channels(stage as int) == 0 || self@.stage_channels(stage + 1)
                    == 0);
                return false;
            }
            channels = channels_out;
            stage = stage + 1;
        }
        assert forall|k: int|
            0 <= k < self@.upsample_factors.len() implies #[trigger] self@.stage_channels(k) != 0
            && self@.stage_channels(k + 1) != 0 by {}
        let ghost model = self@;
        assert(model.enough_channels());
        true
    }

    /// The samples per input frame and band.
    pub fn upsample_factor(&self) -> (out: usize)
        requires
            products_fit(self.upsample_factors@),
        ensures
            out == self@.factor(),
    {
        total_factor(self.upsample_factors.as_slice())
    }

    /// The samples of an input, where they can be counted.
    pub fn output_frames(&self, input_frames: usize) -> (out: Option<usize>)
        requires
            products_fit(self.upsample_factors@),
        ensures
            out == scaled(input_frames as int, self@.factor() as int),
    {
        checked_scaled(input_frames, self.upsample_factor())
    }

    /// The samples of an input that is padded for inference, where they can be counted.
    pub fn inference_output_frames(&self, input_frames: usize) -> (out: Option<usize>)
        requires
            products_fit(self.upsample_factors@),
        ensures
            out == scaled_padded(
                input_frames as int,
                self.inference_padding as int,
                self@.factor() as int,
            ),
    {
        checked_scaled_padded(input_frames, self.inference_padding, self.upsample_factor())
    }

    /// The samples of an input that is padded for inference and synthesized from all bands, where
    /// they can be counted.
    pub fn multiband_inference_output_frames(&self, input_frames: usize) -> (out: Option<usize>)
        requires
            products_fit(self.upsample_factors@),
        ensures
            out == (match scaled_padded(
                input_frames as int,
                self.inference_padding as int,
                self@.factor() as int,
            ) {
                Some(frames) => scaled(frames as int, self.out_channels as int),
                None => None,
            }),
    {
        match self.inference_output_frames(input_frames) {
            Some(frames) => checked_scaled(frames, self.out_channels),
            None => None,
        }
    }

    fn residual_dilations(&self) -> (out: Result<Vec<usize>, MelganError>)
        requires
            self@.fault() is None,
        ensures
            config_verdict(out, self@.layers_fault()),
            out matches Ok(dilations) ==> dilations.len() == self.residual_blocks && (forall|i: int|
                0 <= i < dilations.len() ==> #[trigger] dilations[i] == block_dilation(
                    self.residual_kernel_size,
                    i,
                )),
    {
        let kernel_size: usize = self.residual_kernel_size;
        let mut dilations: Vec<usize> = Vec::new();
        let mut dilation: Option<usize> = Some(1);
        let mut block: usize = 0;
        assert(block_dilation(kernel_size, 0) == 1) by {
            reveal(pow);
        }
        while block < self.residual_blocks
            invariant
                block <= self.residual_blocks,
                self@.fault() is None,
                kernel_size == self.residual_kernel_size,
                kernel_size >= 1,
                dilations.len() == block,
                match dilation {
                    Some(value) => value == block_dilation(kernel_size, block as int),
                    None => block_dilation(kernel_size, block as int) > usize::MAX,
                },
                forall|i: int|
                    0 <= i < block ==> #[trigger] dilations[i] == block_dilation(kernel_size, i),
            decreases self.residual_blocks - block,
        {
            match dilation {
                None => {
                    assert(!self@.dilations_fit()) by {
                        assert(block_dilation(self@.residual_kernel_size, block as int)
                            > usize::MAX);
                    }
                    return config_error("residual dilation overflow".to_owned());
                },
                Some(value) => {
                    dilations.push(value);
                    proof {
                        vstd::arithmetic::power::lemma_pow1(kernel_size as int);
                        vstd::arithmetic::power::lemma_pow_adds(
                            kernel_size as int,
                            1,
                            block as nat,
                        );
                        vstd::arithmetic::mul::lemma_mul_is_commutative(
                            kernel_size as int,
                            value as int,
                        );
                    }
                    dilation = value.checked_mul(kernel_size);
                },
            }
            block = block + 1;
        }
        assert(self@.dilations_fit()) by {
            assert forall|k: int| 0 <= k < self.residual_blocks implies #[trigger] block_dilation(
                self@.residual_kernel_size,
                k,
            ) <= usize::MAX by {
                assert(dilations[k] == block_dilation(kernel_size, k));
            }
        }
        Ok(dilations)
    }

    fn layers(&self) -> (out: Result<Vec<MelganLayer>, MelganError>)
        requires
            self@.fault() is None,
            self@.buildable(),
        ensures
            config_verdict(out, self@.layers_fault()),
            out matches Ok(layers) ==> self@.built_as(layers@),
    {
        let dilations = self.residual_dilations()?;
        let mut layers: Vec<MelganLayer> = Vec::new();
        layers.push(
            MelganLayer::Projection {
                channels_in: self.in_channels,
                channels_out: self.base_channels,
                kernel_size: self.projection_kernel_size,
            },
        );
        let mut channels: usize = self.base_channels;
        let mut stage: usize = 0;
        while stage < self.upsample_factors.len()
            invariant
                stage <= self.upsample_factors.len(),
                self@.fault() is None,
                self@.buildable(),
                dilations.len() == self.residual_blocks,
                forall|i: int|
                    0 <= i < dilations.len() ==> #[trigger] dilations[i] == block_dilation(
                        self.residual_kernel_size,
                        i,
                    ),
                channels == self@.stage_channels(stage as int),
                layers.len() == 2 * stage + 1,
                layers[0] == (MelganLayer::Projection {
                    channels_in: self.in_channels,
                    channels_out: self.base_channels,
                    kernel_size: self.projection_kernel_size,
                }),
                forall|i: int|
                    #![trigger self@.stage_upsample(i)]
                    0 <= i < stage ==> layers[1 + 2 * i] == MelganLayer::Upsample(
                        self@.stage_upsample(i),
                    ) && self@.residual_layer(
                        layers[2 + 2 * i],
                        self@.stage_upsample(i).channels_out,
                    ),
            decreases self.upsample_factors.len() - stage,
        {
            let factor: usize = self.upsample_factors[stage];
            let channels_out: usize = channels / 2;
            let output_padding: usize = factor % 2;
            let up = Upsample {
                channels_in: channels,
                channels_out,
                kernel_size: factor * 2,
                stride: factor,
                padding: factor / 2 + output_padding,
                output_padding,
            };
            assert(up == self@.stage_upsample(stage as int));
            layers.push(MelganLayer::Upsample(up));
            let copied = dilations.clone();
            assert(copied@ =~= dilations@);
            layers.push(
                MelganLayer::Residual {
                    channels: channels_out,
                    kernel_size: self.residual_kernel_size,
                    dilations: copied,
                },
            );
            channels = channels_out;
            stage = stage + 1;
        }
        layers.push(
            MelganLayer::Projection {
                channels_in: channels,
                channels_out: self.out_channels,
                kernel_size: self.projection_kernel_size,
            },
        );
        Ok(layers)
    }

    /// The layers of a valid generator.
    pub fn topology(&self) -> (out: Result<Vec<MelganLayer>, MelganError>)
        requires
            self@.fault() is None ==> self@.buildable(),
        ensures
            config_verdict(
                out,
                if self@.fault() is Some {
                    self@.fault()
                } else {
                    self@.layers_fault()
                },
            ),
            out matches Ok(layers) ==> self@.built_as(layers@),
    {
        self.validate()?;
        self.layers()
    }

    /// The layers of a valid generator whose channels are the bands of a filter bank.
    pub fn multiband_topology(&self, pqmf: &PqmfConfig) -> (out: Result<Vec<MelganLayer>, MelganError>)
        requires
            self@.fault() is None ==> self@.buildable(),
        ensures
            config_verdict(
                out,
                if self@.fault() is Some {
                    self@.fault()
                } else if self.out_channels != pqmf.bands {
                    Some(
                        "MultiBand-MelGAN emits "@ + decimal(self.out_channels as nat)
                            + " channels but PQMF requires "@ + decimal(pqmf.bands as nat)
                            + " bands"@,
                    )
                } else if self@.layers_fault() is Some {
                    self@.layers_fault()
                } else {
                    pqmf.fault()
                },
            ),
            out matches Ok(layers) ==> self@.built_as(layers@),
    {
        self.validate()?;
        if self.out_channels != pqmf.bands {
            return config_error(
                around_numbers(
                    "MultiBand-MelGAN emits ",
                    self.out_channels,
                    " channels but PQMF requires ",
                    pqmf.bands,
                    " bands",
                ),
            );
        }
        let layers = self.layers()?;
        pqmf.validate()?;
        Ok(layers)
    }

    /// Whether features of the given size can be decoded.
    pub fn check_forward(&self, channels: usize, frames: usize) -> (out: Result<(), MelganError>)
        ensures
            input_verdict(out, self@.forward_fault(channels, frames)),
    {
        if channels != self.in_channels || frames == 0 {
            let got: [usize; 2] = [channels, frames];
            assert(got@ =~= seq![channels, frames]);
            let mut message = with_text(
                "expected non-empty input with ",
                decimal_text(self.in_channels as u64).as_str(),
            );
            message.append(" channels, got ");
            message.append(shape_string(got.as_slice()).as_str());
            return input_error(message);
        }
        Ok(())
    }

    /// The shape of the waveform of features of the given shape.
    pub fn forward_shape(&self, input: &[usize; 3]) -> (out: Result<[usize; 3], MelganError>)
        requires
            products_fit(self.upsample_factors@),
            input@[2] * self@.factor() <= usize::MAX,
        ensures
            input_verdict(out, self@.forward_fault(input@[1], input@[2])),
            out matches Ok(shape) ==> shape@ == seq![
                input@[0],
                self.out_channels,
                (input@[2] * self@.factor()) as usize,
            ],
    {
        self.check_forward(input[1], input[2])?;
        let samples: usize = input[2] * self.upsample_factor();
        let out: [usize; 3] = [input[0], self.out_channels, samples];
        assert(out@ =~= seq![
            input@[0],
            self.out_channels,
            (input@[2] * self@.factor()) as usize,
        ]);
        Ok(out)
    }

    /// The shape of the waveform of features of the given shape that are padded for inference.
    pub fn inference_shape(&self, input: &[usize; 3]) -> (out: Result<[usize; 3], MelganError>)
        requires
            products_fit(self.upsample_factors@),
            input@[2] + 2 * self.inference_padding <= usize::MAX,
            (input@[2] + 2 * self.inference_padding) * self@.factor() <= usize::MAX,
        ensures
            input_verdict(
                out,
                if input@[2] == 0 {
                    Some("feature input must contain at least one frame"@)
                } else {
                    self@.forward_fault(
                        input@[1],
                        (input@[2] + 2 * self.inference_padding) as usize,
                    )
                },
            ),
            out matches Ok(shape) ==> shape@ == seq![
                input@[0],
                self.out_channels,
                ((input@[2] + 2 * self.inference_padding) * self@.factor()) as usize,
            ],
    {
        if input[2] == 0 {
            return input_error("feature input must contain at least one frame".to_owned());
        }
        let wide: [usize; 3] = [input[0], input[1], input[2] + 2 * self.inference_padding];
        self.forward_shape(&wide)
    }
}

/// Frames of reflection on each side of a projection.
pub fn projection_padding(kernel_size: usize) -> (out: usize)
    requires
        kernel_size >= 1,
    ensures
        out == (kernel_size - 1) / 2,
{
    (kernel_size - 1) / 2
}

/// Frames of reflection on each side of a dilated residual convolution.
pub fn residual_padding(kernel_size: usize, dilation: usize) -> (out: usize)
    requires
        kernel_size >= 1,
        (kernel_size - 1) / 2 * dilation <= usize::MAX,
    ensures
        out == (kernel_size - 1) / 2 * dilation,
{
    (kernel_size - 1) / 2 * dilation
}

/// Reflection makes up for the span of a residual convolution and of a projection.
pub proof fn reflection_keeps_length(kernel_size: usize, dilation: usize, length: int)
    requires
        odd(kernel_size),
    ensures
        length + 2 * ((kernel_size - 1) / 2 * dilation) - span(kernel_size as int, dilation as int)
            == length,
        length + 2 * ((kernel_size - 1) / 2) - span(kernel_size as int, 1) == length,
{
    let half = (kernel_size - 1) / 2;
    assert(dilation * (kernel_size - 1) == 2 * (half * dilation)) by (nonlinear_arith)
        requires
            kernel_size - 1 == 2 * half,
    ;
}

/// A stage of a generator multiplies the length by its factor.
pub proof fn stage_multiplies(model: MelganModel, stage: int, length: int)
    requires
        model.buildable(),
        0 <= stage < model.upsample_factors.len(),
    ensures
        model.stage_upsample(stage).output_length(length) == length * model.upsample_factors[stage],
{
    let factor = model.upsample_factors[stage];
    assert(factor * 2 <= usize::MAX);
    assert((length - 1) * factor == length * factor - factor) by (nonlinear_arith);
}

/// The stages of a generator multiply the length by the upsampling factor.
pub proof fn generator_multiplies(model: MelganModel, length: int)
    requires
        model.buildable(),
    ensures
        length_after(
            Seq::new(model.upsample_factors.len(), |i: int| model.stage_upsample(i)),
            length,
        ) == length * model.factor(),
{
    let ups = Seq::new(model.upsample_factors.len(), |i: int| model.stage_upsample(i));
    assert forall|i: int, l: int| 0 <= i < ups.len() implies #[trigger] ups[i].output_length(l) == l
        * model.upsample_factors[i] by {
        stage_multiplies(model, i, l);
    }
    stages_multiply(ups, model.upsample_factors, length);
}

/// A transposed convolution is followed by a residual layer.
pub open spec fn paired(layers: Seq<MelganLayer>, pair: int) -> bool {
    layers[1 + 2 * pair] is Upsample && layers[2 + 2 * pair] is Residual
}

/// The first reason why layers are not those of a generator. Of the layers between the two
/// projections, an odd one at the end is not looked at.
pub open spec fn order_fault(layers: Seq<MelganLayer>) -> Option<Seq<char>> {
    if layers.len() == 0 {
        Some("generator has no layers"@)
    } else if !(layers[0] is Projection) {
        Some("generator does not start with a projection"@)
    } else if !(layers.last() is Projection) {
        Some("generator does not end with a projection"@)
    } else {
        unless(
            forall|pair: int| 0 <= pair < (layers.len() - 2) / 2 ==> #[trigger] paired(layers, pair),
            "generator upsample/residual layer order is invalid"@,
        )
    }
}

/// Whether layers are those of a generator.
pub fn check_layer_order(layers: &Vec<MelganLayer>) -> (out: Result<(), MelganError>)
    requires
        layers.len() != 1,
    ensures
        input_verdict(out, order_fault(layers@)),
{
    if layers.len() == 0 {
        return input_error("generator has no layers".to_owned());
    }
    match &layers[0] {
        MelganLayer::Projection { .. } => {},
        _ => return input_error("generator does not start with a projection".to_owned()),
    }
    match &layers[layers.len() - 1] {
        MelganLayer::Projection { .. } => {},
        _ => return input_error("generator does not end with a projection".to_owned()),
    }
    let pairs: usize = (layers.len() - 2) / 2;
    let mut pair: usize = 0;
    while pair < pairs
        invariant
            pair <= pairs,
            layers.len() >= 2,
            pairs == (layers.len() - 2) / 2,
            layers@[0] is Projection,
            layers@.last() is Projection,
            forall|k: int| 0 <= k < pair ==> #[trigger] paired(layers@, k),
        decreases pairs - pair,
    {
        let ordered = match (&layers[1 + 2 * pair], &layers[2 + 2 * pair]) {
            (MelganLayer::Upsample(_), MelganLayer::Residual { .. }) => true,
            _ => false,
        };
        assert(ordered == paired(layers@, pair as int));
        if !ordered {
            return input_error("generator upsample/residual layer order is invalid".to_owned());
        }
        pair = pair + 1;
    }
    Ok(())
}

/// The layers of every generator are in order.
pub proof fn built_layers_are_in_order(model: MelganModel, layers: Seq<MelganLayer>)
    requires
        model.built_as(layers),
    ensures
        order_fault(layers) is None,
{
    assert forall|pair: int| 0 <= pair < (layers.len() - 2) / 2 implies #[trigger] paired(
        layers,
        pair,
    ) by {
        let up = model.stage_upsample(pair);
        assert(model.residual_layer(layers[2 + 2 * pair], up.channels_out));
    }
}

/// Parameters of a pseudo-quadrature mirror filter bank.
#[derive(Debug, Clone, Copy, PartialEq, Eq, Structural)]
pub struct PqmfConfig {
    pub bands: usize,
    pub taps: usize,
    pub cutoff: Double,
    pub beta: Double,
}

impl Default for PqmfConfig {
    fn default() -> (out: Self)
        ensures
            out == (PqmfConfig {
                bands: 4,
                taps: 62,
                cutoff: Double { bits: 0x3FC3_3333_3333_3333 },
                beta: Double { bits: 0x4022_0000_0000_0000 },
            }),
            out.fault() is None,
    {
        PqmfConfig {
            bands: 4,
            taps: 62,
            cutoff: Double { bits: 0x3FC3_3333_3333_3333 },
            beta: Double { bits: 0x4022_0000_0000_0000 },
        }
    }
}

impl PqmfConfig {
    /// The first rule that the parameters break.
    pub open spec fn fault(self) -> Option<Seq<char>> {
        if self.bands == 0 || self.taps == 0 || !multiple_of(self.taps as int, 2) {
            Some("PQMF requires positive bands and a positive even tap order"@)
        } else if !self.cutoff.unit_interval() {
            Some("PQMF cutoff must be finite and in 0..1"@)
        } else if !self.beta.finite_non_negative() {
            Some("PQMF Kaiser beta must be finite and non-negative"@)
        } else {
            None
        }
    }

    /// The frames per band of a waveform.
    pub open spec fn band_length(self, samples: int) -> int {
        (samples + 2 * (self.taps / 2) - (self.taps + 1)) / self.bands as int + 1
    }

    /// The samples of a waveform from the frames per band.
    pub open spec fn waveform_length(self, frames: int) -> int {
        (frames - 1) * self.bands + self.bands + 2 * (self.taps / 2) - self.taps
    }

    pub fn validate(&self) -> (out: Result<(), MelganError>)
        ensures
            config_verdict(out, self.fault()),
    {
        if self.bands == 0 || self.taps == 0 || !is_multiple_of(self.taps, 2) {
            return config_error(
                "PQMF requires positive bands and a positive even tap order".to_owned(),
            );
        }
        if !self.cutoff.is_in_unit_interval() {
            return config_error("PQMF cutoff must be finite and in 0..1".to_owned());
        }
        if !self.beta.is_finite_non_negative() {
            return config_error("PQMF Kaiser beta must be finite and non-negative".to_owned());
        }
        Ok(())
    }

    /// Whether a waveform can be split into bands.
    pub fn check_analysis(&self, channels: usize) -> (out: Result<(), MelganError>)
        ensures
            input_verdict(
                out,
                unless(channels == 1, "PQMF analysis requires mono waveform input"@),
            ),
    {
        if channels != 1 {
            return input_error("PQMF analysis requires mono waveform input".to_owned());
        }
        Ok(())
    }

    /// Whether bands can be merged into a waveform.
    pub fn check_synthesis(&self, channels: usize) -> (out: Result<(), MelganError>)
        ensures
            input_verdict(
                out,
                unless(
                    channels == self.bands,
                    "PQMF synthesis requires "@ + decimal(self.bands as nat)
                        + " subbands, got "@ + decimal(channels as nat),
                ),
            ),
    {
        if channels != self.bands {
            return input_error(
                with_numbers("PQMF synthesis requires ", self.bands, " subbands, got ", channels),
            );
        }
        Ok(())
    }

    /// Where the filter that spreads a band over its samples is one: `[band, band, 0]`.
    pub fn updown_filter(&self) -> (out: Vec<Vec<Vec<bool>>>)
        ensures
            out.len() == self.bands,
            forall|i: int| 0 <= i < self.bands ==> (#[trigger] out[i]).len() == self.bands,
            forall|i: int, j: int|
                0 <= i < self.bands && 0 <= j < self.bands ==> (#[trigger] out[i][j]).len()
                    == self.bands,
            forall|i: int, j: int, k: int|
                0 <= i < self.bands && 0 <= j < self.bands && 0 <= k < self.bands
                    ==> #[trigger] out[i][j][k] == (i == j && k == 0),
    {
        let bands: usize = self.bands;
        let mut out: Vec<Vec<Vec<bool>>> = Vec::new();
        let mut i: usize = 0;
        while i < bands
            invariant
                i <= bands,
                out.len() == i,
                forall|a: int| 0 <= a < i ==> (#[trigger] out[a]).len() == bands,
                forall|a: int, b: int|
                    0 <= a < i && 0 <= b < bands ==> (#[trigger] out[a][b]).len() == bands,
                forall|a: int, b: int, c: int|
                    0 <= a < i && 0 <= b < bands && 0 <= c < bands ==> #[trigger] out[a][b][c] == (a
                        == b && c == 0),
            decreases bands - i,
        {
            let mut row: Vec<Vec<bool>> = Vec::new();
            let mut j: usize = 0;
            while j < bands
                invariant
                    j <= bands,
                    row.len() == j,
                    forall|b: int| 0 <= b < j ==> (#[trigger] row[b]).len() == bands,
                    forall|b: int, c: int|
                        0 <= b < j && 0 <= c < bands ==> #[trigger] row[b][c] == (i == b && c == 0),
                decreases bands - j,
            {
                let mut line: Vec<bool> = Vec::new();
                let mut k: usize = 0;
                while k < bands
                    invariant
                        k <= bands,
                        line.len() == k,
                        forall|c: int| 0 <= c < k ==> #[trigger] line[c] == (i == j && c == 0),
                    decreases bands - k,
                {
                    line.push(i == j && k == 0);
                    k = k + 1;
                }
                row.push(line);
                j = j + 1;
            }
            out.push(row);
            i = i + 1;
        }
        out
    }
}

/// Splitting a waveform into bands and merging them again keeps its length, where the bands share
/// its samples without remainder.
pub proof fn filter_bank_keeps_length(pqmf: PqmfConfig, samples: int)
    requires
        pqmf.fault() is None,
        samples > 0,
        samples % pqmf.bands as int == 0,
    ensures
        pqmf.waveform_length(pqmf.band_length(samples)) == samples,
        pqmf.band_length(samples) * pqmf.bands == samples,
{
    let bands = pqmf.bands as int;
    let whole = samples / bands;
    vstd::arithmetic::div_mod::lemma_fundamental_div_mod(samples, bands);
    assert(samples == bands * whole);
    assert(pqmf.band_length(samples) == (samples - 1) / bands + 1);
    assert((samples - 1) / bands == whole - 1) by (nonlinear_arith)
        requires
            samples == bands * whole,
            bands > 0,
            samples > 0,
    ;
    assert(whole * bands == bands * whole) by (nonlinear_arith);
    assert((whole - 1) * bands + bands == whole * bands) by (nonlinear_arith);
}

/// A generator is valid exactly where it has channels and odd kernels, at least one residual
/// block and one stage, no stage of factor zero, and enough channels to be halved by every stage.
pub proof fn melgan_is_valid_on_its_merits(
    config: &MelganGeneratorConfig,
    out: Result<(), MelganError>,
)
    requires
        call_ensures(MelganGeneratorConfig::validate, (config,), out),
    ensures
        out is Ok <==> {
            &&& config.in_channels > 0 && config.out_channels > 0 && config.base_channels > 0
            &&& config.projection_kernel_size % 2 == 1
            &&& config.residual_kernel_size % 2 == 1
            &&& config.residual_blocks > 0
            &&& config.upsample_factors.len() > 0
            &&& forall|s: int|
                0 <= s < config.upsample_factors.len() ==> #[trigger] config.upsample_factors@[s]
                    > 0
            &&& config.base_channels >= pow2(config.upsample_factors.len() as nat)
        },
        out matches Err(error) ==> error is InvalidConfig,
{
    let model = config@;
    let base = model.base_channels as nat;
    let stages = model.upsample_factors.len();
    crate::upsampling::halving_divides_by_twos(base, stages);
    vstd::arithmetic::power2::lemma_pow2_pos(stages);
    if base < pow2(stages) {
        vstd::arithmetic::div_mod::lemma_basic_div(base as int, pow2(stages) as int);
    } else {
        vstd::arithmetic::div_mod::lemma_div_is_ordered(
            pow2(stages) as int,
            base as int,
            pow2(stages) as int,
        );
        vstd::arithmetic::div_mod::lemma_div_by_self(pow2(stages) as int);
    }
    if stages > 0 {
        if halved(base, stages) > 0 {
            assert forall|s: int| 0 <= s < stages implies #[trigger] model.stage_channels(s) != 0
                && model.stage_channels(s + 1) != 0 by {
                crate::upsampling::halving_descends(base, s as nat, stages);
                crate::upsampling::halving_descends(base, (s + 1) as nat, stages);
            }
        } else {
            assert(model.stage_channels(stages - 1) != 0 && model.stage_channels(stages - 1 + 1)
                == 0 || model.stage_channels(stages - 1) == 0);
            assert(!model.enough_channels());
        }
    }
    let factors = config.upsample_factors@;
    if factors.contains(0) {
        let s = choose|s: int| 0 <= s < factors.len() && factors[s] == 0;
        assert(factors[s] == 0);
    } else {
        assert forall|s: int| 0 <= s < factors.len() implies #[trigger] factors[s] > 0 by {
            assert(factors.contains(factors[s]));
        }
    }
}

/// A generator projects its input to the base channels. Each stage halves the channels and
/// multiplies the length by its factor, with a kernel of twice the factor. Its residual blocks
/// work on the halved channels with dilations that start at one and grow by the kernel size.
/// At last the channels are projected to the output.
pub proof fn melgan_stages_follow_their_factors(
    config: &MelganGeneratorConfig,
    layers: Vec<MelganLayer>,
    stage: int,
    length: int,
)
    requires
        config@.buildable(),
        call_ensures(
            MelganGeneratorConfig::topology,
            (config,),
            Ok::<Vec<MelganLayer>, MelganError>(layers),
        ),
        0 <= stage < config.upsample_factors.len(),
    ensures
        layers.len() == 2 * config.upsample_factors.len() + 2,
        layers@[0] matches MelganLayer::Projection { channels_in, channels_out, kernel_size }
            && channels_in == config.in_channels && channels_out == config.base_channels
            && kernel_size == config.projection_kernel_size,
        layers@[1 + 2 * stage] matches MelganLayer::Upsample(up) && {
            &&& up.channels_in > 0
            &&& up.channels_in == config.base_channels as nat / pow2(stage as nat)
            &&& up.channels_out == up.channels_in / 2
            &&& up.stride == config.upsample_factors@[stage]
            &&& up.kernel_size == 2 * config.upsample_factors@[stage]
            &&& up.output_padding < 2
            &&& up.output_padding == config.upsample_factors@[stage] % 2
            &&& up.output_length(length) == length * config.upsample_factors@[stage]
            &&& layers@[2 + 2 * stage] matches MelganLayer::Residual {
                channels,
                kernel_size,
                dilations,
            } && {
                &&& channels == up.channels_out
                &&& kernel_size == config.residual_kernel_size
                &&& dilations.len() == config.residual_blocks
                &&& dilations@[0] == 1
                &&& forall|b: int|
                    #![trigger dilations@[b]]
                    0 < b < dilations.len() ==> dilations@[b] == dilations@[b - 1]
                        * config.residual_kernel_size
            }
        },
        layers@.last() matches MelganLayer::Projection { channels_in, channels_out, kernel_size }
            && channels_in == config.base_channels as nat / pow2(
            config.upsample_factors.len() as nat,
        ) && channels_out == config.out_channels && kernel_size == config.projection_kernel_size,
{
    let model = config@;
    let base = model.base_channels as nat;
    let stages = model.upsample_factors.len();
    stage_multiplies(model, stage, length);
    assert(model.upsample_factors[stage] * 2 <= usize::MAX);
    crate::upsampling::halving_divides_by_twos(base, stage as nat);
    crate::upsampling::halving_divides_by_twos(base, stages);
    crate::upsampling::halving_descends(base, 0, stage as nat);
    crate::upsampling::halving_descends(base, 0, stages);
    crate::upsampling::halving_descends(base, 0, (stage + 1) as nat);
    assert(halved(base, 0) == base);
    assert(model.stage_channels(stage) != 0);
    let up = model.stage_upsample(stage);
    assert(model.residual_layer(layers@[2 + 2 * stage], up.channels_out));
    let kernel = model.residual_kernel_size;
    assert(block_dilation(kernel, 0) == 1) by {
        reveal(pow);
    }
    if let MelganLayer::Residual { channels, kernel_size, dilations } = layers@[2 + 2 * stage] {
        assert forall|b: int|
            #![trigger dilations@[b]]
            0 < b < dilations.len() implies dilations@[b] == dilations@[b - 1] * kernel by {
            assert(dilations[b] == block_dilation(kernel, b));
            assert(dilations[b - 1] == block_dilation(kernel, b - 1));
            vstd::arithmetic::power::lemma_pow1(kernel as int);
            vstd::arithmetic::power::lemma_pow_adds(kernel as int, 1, (b - 1) as nat);
            vstd::arithmetic::mul::lemma_mul_is_commutative(
                kernel as int,
                block_dilation(kernel, b - 1),
            );
        }
        assert(dilations[0] == block_dilation(kernel, 0));
    }
}

/// Layers are those of a generator exactly where a projection stands at both ends and, between
/// them, transposed convolutions and residual layers take turns.
pub proof fn layers_take_turns(layers: &Vec<MelganLayer>, out: Result<(), MelganError>)
    requires
        layers.len() != 1,
        call_ensures(check_layer_order, (layers,), out),
    ensures
        out is Ok <==> {
            &&& layers.len() >= 2
            &&& layers@[0] is Projection && layers@[layers.len() - 1] is Projection
            &&& forall|i: int|
                0 < i && i + (if i % 2 == 1 { 1int } else { 0 }) < layers.len() - 1
                    ==> if i % 2 == 1 {
                    #[trigger] layers@[i] is Upsample
                } else {
                    layers@[i] is Residual
                }
        },
        out matches Err(error) ==> error is InvalidInput,
{
    let seen = layers@;
    if seen.len() >= 2 && seen[0] is Projection && seen.last() is Projection {
        let last = seen.len() - 1;
        if order_fault(seen) is None {
            assert forall|i: int|
                0 < i && i + (if i % 2 == 1 { 1int } else { 0 }) < last implies if i % 2 == 1 {
                #[trigger] seen[i] is Upsample
            } else {
                seen[i] is Residual
            } by {
                assert(paired(seen, (i - 1) / 2));
            }
        } else {
            let pair = choose|pair: int|
                0 <= pair < (seen.len() - 2) / 2 && !(#[trigger] paired(seen, pair));
            let up = 1 + 2 * pair;
            let residual = 2 + 2 * pair;
            assert(up % 2 == 1 && residual % 2 == 0);
            assert(seen[up] is Upsample || !(seen[up] is Upsample));
            assert(seen[residual] is Residual || !(seen[residual] is Residual));
        }
    }
}

/// A generator takes features exactly where they have its channels and at least one frame. The
/// waveform keeps the batch, has the output channels, and the factor of samples per frame.
pub proof fn melgan_features_become_waveforms(
    config: &MelganGeneratorConfig,
    input: &[usize; 3],
    factor: usize,
    out: Result<[usize; 3], MelganError>,
)
    requires
        products_fit(config.upsample_factors@),
        input@[2] * config@.factor() <= usize::MAX,
        call_ensures(MelganGeneratorConfig::upsample_factor, (config,), factor),
        call_ensures(MelganGeneratorConfig::forward_shape, (config, input), out),
    ensures
        out is Ok <==> input@[1] == config.in_channels && input@[2] > 0,
        out matches Ok(shape) ==> shape@.len() == 3 && shape@[0] == input@[0] && shape@[1]
            == config.out_channels && shape@[2] == input@[2] * factor,
        out matches Err(error) ==> error is InvalidInput,
{
}

/// Decoding for inference is decoding features with the padding on both sides, and refuses
/// features without frames.
pub proof fn melgan_inference_decodes_padded_features(
    config: &MelganGeneratorConfig,
    input: &[usize; 3],
    wide: &[usize; 3],
    out: Result<[usize; 3], MelganError>,
    plain: Result<[usize; 3], MelganError>,
)
    requires
        products_fit(config.upsample_factors@),
        input@[2] + 2 * config.inference_padding <= usize::MAX,
        (input@[2] + 2 * config.inference_padding) * config@.factor() <= usize::MAX,
        wide@ == input@.update(2, (input@[2] + 2 * config.inference_padding) as usize),
        call_ensures(MelganGeneratorConfig::inference_shape, (config, input), out),
        call_ensures(MelganGeneratorConfig::forward_shape, (config, wide), plain),
    ensures
        out is Ok <==> input@[1] == config.in_channels && input@[2] > 0,
        input@[2] > 0 ==> (out is Ok <==> plain is Ok),
        out matches Ok(shape) ==> (plain matches Ok(other) ==> shape@ == other@),
        out matches Ok(shape) ==> shape@[0] == input@[0] && shape@[1] == config.out_channels,
{
}

/// The samples of features are the frames, with padding where it is added, times the factor, and
/// with bands times their number. They are absent exactly where they cannot be counted.
pub proof fn melgan_samples_are_counted_exactly(
    config: &MelganGeneratorConfig,
    frames: usize,
    factor: usize,
    plain: Option<usize>,
    padded: Option<usize>,
    merged: Option<usize>,
)
    requires
        products_fit(config.upsample_factors@),
        call_ensures(MelganGeneratorConfig::upsample_factor, (config,), factor),
        call_ensures(MelganGeneratorConfig::output_frames, (config, frames), plain),
        call_ensures(MelganGeneratorConfig::inference_output_frames, (config, frames), padded),
        call_ensures(
            MelganGeneratorConfig::multiband_inference_output_frames,
            (config, frames),
            merged,
        ),
    ensures
        plain is Some <==> frames * factor <= usize::MAX,
        plain matches Some(samples) ==> samples == frames * factor,
        padded is Some <==> frames + 2 * config.inference_padding <= usize::MAX && (frames + 2
            * config.inference_padding) * factor <= usize::MAX,
        padded matches Some(samples) ==> samples == (frames + 2 * config.inference_padding)
            * factor,
        merged is Some <==> (padded matches Some(samples) && samples * config.out_channels
            <= usize::MAX),
        merged matches Some(all) ==> (padded matches Some(samples) && all == samples
            * config.out_channels),
{
    assert(0 <= frames * factor) by (nonlinear_arith);
    let wide = frames + 2 * config.inference_padding;
    assert(0 <= wide * factor) by (nonlinear_arith)
        requires
            wide >= 0,
    ;
    if let Some(samples) = padded {
        assert(0 <= samples * config.out_channels) by (nonlinear_arith);
    }
}

/// A filter bank is valid exactly where it has bands and a positive even number of taps, a cutoff
/// from zero up to but not at one, and a finite shape of at least zero.
pub proof fn filter_banks_are_valid_on_their_merits(
    pqmf: &PqmfConfig,
    out: Result<(), MelganError>,
)
    requires
        call_ensures(PqmfConfig::validate, (pqmf,), out),
    ensures
        out is Ok <==> {
            &&& pqmf.bands > 0 && pqmf.taps > 0 && pqmf.taps % 2 == 0
            &&& !pqmf.cutoff.nan() && 0 <= pqmf.cutoff.rank() < 0x3FF0_0000_0000_0000
            &&& pqmf.beta.finite() && pqmf.beta.rank() >= 0
        },
        out matches Err(error) ==> error is InvalidConfig,
{
}

/// Bands and generators go together exactly where both are valid and the generator emits one
/// channel per band. The layers are those of the generator alone.
pub proof fn bands_are_generator_channels(
    config: &MelganGeneratorConfig,
    pqmf: &PqmfConfig,
    plain: Result<Vec<MelganLayer>, MelganError>,
    valid: Result<(), MelganError>,
    out: Result<Vec<MelganLayer>, MelganError>,
)
    requires
        config@.buildable(),
        call_ensures(MelganGeneratorConfig::topology, (config,), plain),
        call_ensures(PqmfConfig::validate, (pqmf,), valid),
        call_ensures(MelganGeneratorConfig::multiband_topology, (config, pqmf), out),
    ensures
        out is Ok <==> plain is Ok && valid is Ok && config.out_channels == pqmf.bands,
        out matches Ok(layers) ==> (plain matches Ok(others) ==> layers.len() == others.len()),
        out matches Err(error) ==> error is InvalidConfig,
        plain matches Err(error) ==> error is InvalidConfig,
{
}

/// A waveform is split where it has one channel, and bands are merged where all are there.
pub proof fn waveforms_split_and_merge(
    pqmf: &PqmfConfig,
    channels: usize,
    split: Result<(), MelganError>,
    merge: Result<(), MelganError>,
)
    requires
        call_ensures(PqmfConfig::check_analysis, (pqmf, channels), split),
        call_ensures(PqmfConfig::check_synthesis, (pqmf, channels), merge),
    ensures
        split is Ok <==> channels == 1,
        merge is Ok <==> channels == pqmf.bands,
        split matches Err(error) ==> error is InvalidInput,
        merge matches Err(error) ==> error is InvalidInput,
{
}

/// Reflection on both sides of a convolution of odd kernel makes up for what it takes away.
pub proof fn reflection_is_half_the_reach(
    kernel_size: usize,
    dilation: usize,
    projected: usize,
    dilated: usize,
)
    requires
        kernel_size % 2 == 1,
        (kernel_size - 1) / 2 * dilation <= usize::MAX,
        call_ensures(projection_padding, (kernel_size,), projected),
        call_ensures(residual_padding, (kernel_size, dilation), dilated),
    ensures
        2 * projected + 1 == kernel_size,
        2 * dilated == (kernel_size - 1) * dilation,
{
    let half = (kernel_size - 1) / 2;
    assert((kernel_size - 1) * dilation == 2 * (half * dilation)) by (nonlinear_arith)
        requires
            kernel_size - 1 == 2 * half,
    ;
}

/// An error says of what kind it is, and then its reason.
pub proof fn melgan_errors_say_their_kind(error: &MelganError, out: String)
    requires
        call_ensures(MelganError::describe, (error,), out),
    ensures
        error matches MelganError::InvalidConfig(message) ==> out@ == "invalid MelGAN config: "@ + message@,
        error matches MelganError::InvalidInput(message) ==> out@ == "invalid MelGAN input: "@ + message@,
{
}

/// Features are taken exactly where they have the channels of the generator and a frame at least.
pub proof fn melgan_features_are_accepted_on_their_merits(
    config: &MelganGeneratorConfig,
    channels: usize,
    frames: usize,
    out: Result<(), MelganError>,
)
    requires
        call_ensures(MelganGeneratorConfig::check_forward, (config, channels, frames), out),
    ensures
        out is Ok <==> channels == config.in_channels && frames > 0,
        out matches Err(error) ==> error is InvalidInput,
{
}

/// A band is spread by a one at its own first place, and by nothing elsewhere.
pub proof fn bands_are_spread_to_themselves(
    pqmf: &PqmfConfig,
    out: Vec<Vec<Vec<bool>>>,
    i: int,
    j: int,
    k: int,
)
    requires
        call_ensures(PqmfConfig::updown_filter, (pqmf,), out),
        0 <= i < pqmf.bands,
        0 <= j < pqmf.bands,
        0 <= k < pqmf.bands,
    ensures
        out.len() == pqmf.bands && out@[i].len() == pqmf.bands && out@[i]@[j].len() == pqmf.bands,
        out@[i]@[j]@[k] <==> i == j && k == 0,
{
    assert(out[i].len() == pqmf.bands);
    assert(out[i][j].len() == pqmf.bands);
    assert(out[i][j][k] == (i == j && k == 0));
}

/// The usual filter bank has four bands and sixty-two taps, and is valid.
pub proof fn usual_filter_banks_are_valid(pqmf: PqmfConfig, out: Result<(), MelganError>)
    requires
        call_ensures(PqmfConfig::default, (), pqmf),
        call_ensures(PqmfConfig::validate, (&pqmf,), out),
    ensures
        out is Ok,
        pqmf.bands == 4 && pqmf.taps == 62,
        pqmf.cutoff.bits == 0x3FC3_3333_3333_3333 && pqmf.beta.bits == 0x4022_0000_0000_0000,
{
}

} // verus!
