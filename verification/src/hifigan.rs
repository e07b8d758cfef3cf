//! HiFi-GAN: a generator of waveforms from spectrograms.

use vstd::arithmetic::power2::pow2;
use vstd::prelude::*;

use crate::json::{fault_of, first, unless, Json};
use crate::layers::{
    is_multiple_of, is_odd, multiple_of, odd, pointwise, pointwise_conv, span, Conv,
};
use crate::speedy_speech::holds_zero;
use crate::text::{
    around_number, around_numbers, around_text, decimal, decimal_text, same_text, shape_string,
    shape_text, with_numbers, with_text,
};
use crate::upsampling::{
    checked_scaled, checked_scaled_padded, halved, halving_descends, product, products_fit, scaled,
    scaled_padded, stages_multiply, total_factor, Upsample,
};

verus! {

/// Errors detected before an invalid operation is dispatched.
#[derive(Debug, Clone, PartialEq, Eq)]
pub enum HifiganError {
    InvalidConfig(String),
    InvalidInput(String),
}

impl HifiganError {
    pub open spec fn described(self) -> Seq<char> {
        match self {
            HifiganError::InvalidConfig(message) => "invalid HiFi-GAN config: "@ + message@,
            HifiganError::InvalidInput(message) => "invalid HiFi-GAN input: "@ + message@,
        }
    }

    /// The error in words.
    pub fn describe(&self) -> (out: String)
        ensures
            out@ == self.described(),
    {
        match self {
            HifiganError::InvalidConfig(message) => with_text(
                "invalid HiFi-GAN config: ",
                message.as_str(),
            ),
            HifiganError::InvalidInput(message) => with_text(
                "invalid HiFi-GAN input: ",
                message.as_str(),
            ),
        }
    }
}

/// The outcome is an accepted configuration, or the given fault.
pub open spec fn config_verdict<T>(out: Result<T, HifiganError>, fault: Option<Seq<char>>) -> bool {
    match out {
        Ok(_) => fault is None,
        Err(HifiganError::InvalidConfig(message)) => fault == Some(message@),
        Err(_) => false,
    }
}

/// The outcome is an accepted input, or the given fault.
pub open spec fn input_verdict<T>(out: Result<T, HifiganError>, fault: Option<Seq<char>>) -> bool {
    match out {
        Ok(_) => fault is None,
        Err(HifiganError::InvalidInput(message)) => fault == Some(message@),
        Err(_) => false,
    }
}

fn config_error<T>(message: String) -> (out: Result<T, HifiganError>)
    ensures
        out == Err::<T, HifiganError>(HifiganError::InvalidConfig(message)),
{
    Err(HifiganError::InvalidConfig(message))
}

fn input_error<T>(message: String) -> (out: Result<T, HifiganError>)
    ensures
        out == Err::<T, HifiganError>(HifiganError::InvalidInput(message)),
{
    Err(HifiganError::InvalidInput(message))
}

fn config<T>(read: Result<T, String>) -> (out: Result<T, HifiganError>)
    ensures
        match read {
            Ok(value) => out == Ok::<T, HifiganError>(value),
            Err(message) => out == Err::<T, HifiganError>(HifiganError::InvalidConfig(message)),
        },
{
    match read {
        Ok(value) => Ok(value),
        Err(message) => Err(HifiganError::InvalidConfig(message)),
    }
}

/// Padding that keeps the length of a sequence under a dilated kernel of odd size.
pub fn same_padding(kernel_size: usize, dilation: usize) -> (out: usize)
    requires
        kernel_size >= 1,
        kernel_size * dilation <= usize::MAX,
    ensures
        out == span(kernel_size as int, dilation as int) / 2,
{
    assert(kernel_size * dilation - dilation == dilation * (kernel_size - 1)) by (nonlinear_arith);
    assert(kernel_size * dilation >= dilation) by (nonlinear_arith)
        requires
            kernel_size >= 1,
    ;
    (kernel_size * dilation - dilation) / 2
}

/// A dilated convolution with the same padding on both sides.
pub open spec fn same(channels: usize, kernel_size: usize, dilation: usize) -> Conv {
    Conv {
        channels_in: channels,
        channels_out: channels,
        kernel_size,
        dilation,
        pad_left: (span(kernel_size as int, dilation as int) / 2) as usize,
        pad_right: (span(kernel_size as int, dilation as int) / 2) as usize,
    }
}

fn same_conv(channels: usize, kernel_size: usize, dilation: usize) -> (out: Conv)
    requires
        kernel_size >= 1,
        kernel_size * dilation <= usize::MAX,
    ensures
        out == same(channels, kernel_size, dilation),
{
    let padding: usize = same_padding(kernel_size, dilation);
    Conv {
        channels_in: channels,
        channels_out: channels,
        kernel_size,
        dilation,
        pad_left: padding,
        pad_right: padding,
    }
}

/// Same padding keeps the length of a sequence under every kernel of odd size.
pub proof fn same_padding_keeps_length(
    channels: usize,
    kernel_size: usize,
    dilation: usize,
    length: int,
)
    requires
        odd(kernel_size),
        kernel_size * dilation <= usize::MAX,
    ensures
        same(channels, kernel_size, dilation).output_length(length) == length,
{
    let half = (kernel_size - 1) / 2;
    assert(kernel_size - 1 == 2 * half);
    assert(dilation * (kernel_size - 1) == 2 * (dilation * half)) by (nonlinear_arith)
        requires
            kernel_size - 1 == 2 * half,
    ;
    assert(0 <= dilation * half <= kernel_size * dilation) by (nonlinear_arith)
        requires
            0 <= half <= kernel_size,
    ;
}

/// Configuration of one residual block.
#[derive(Debug, Clone, PartialEq, Eq)]
pub struct ResBlock1Config {
    pub channels: usize,
    pub kernel_size: usize,
    pub dilations: Vec<usize>,
}

/// The first rule that a residual block of the first kind breaks.
pub open spec fn block_fault(channels: usize, kernel_size: usize, dilations: Seq<usize>) -> Option<
    Seq<char>,
> {
    if channels == 0 {
        Some("residual-block channels must be positive"@)
    } else if !odd(kernel_size) {
        Some(
            "ResBlock1 kernel size "@ + decimal(kernel_size as nat)
                + " must be positive and odd"@,
        )
    } else if dilations.len() != 3 {
        Some("ResBlock1 requires exactly three dilations, got "@ + decimal(dilations.len()))
    } else if dilations.contains(0) {
        Some("ResBlock1 dilations must be positive"@)
    } else {
        None
    }
}

/// A residual block of the second kind: an odd kernel and two positive dilations.
pub open spec fn second_kind(kernel_size: usize, dilations: Seq<usize>) -> bool {
    &&& odd(kernel_size)
    &&& dilations.len() >= 2
    &&& dilations[0] != 0
    &&& dilations[1] != 0
}

fn is_second_kind(kernel_size: usize, dilations: &Vec<usize>) -> (out: bool)
    ensures
        out == second_kind(kernel_size, dilations@),
{
    is_odd(kernel_size) && dilations.len() >= 2 && dilations[0] != 0 && dilations[1] != 0
}

fn check_block(channels: usize, kernel_size: usize, dilations: &Vec<usize>) -> (out: Result<
    (),
    HifiganError,
>)
    ensures
        config_verdict(out, block_fault(channels, kernel_size, dilations@)),
{
    if channels == 0 {
        return config_error("residual-block channels must be positive".to_owned());
    }
    if !is_odd(kernel_size) {
        return config_error(
            around_number("ResBlock1 kernel size ", kernel_size, " must be positive and odd"),
        );
    }
    if dilations.len() != 3 {
        return config_error(
            with_text(
                "ResBlock1 requires exactly three dilations, got ",
                decimal_text(dilations.len() as u64).as_str(),
            ),
        );
    }
    if holds_zero(dilations.as_slice()) {
        return config_error("ResBlock1 dilations must be positive".to_owned());
    }
    Ok(())
}

/// The convolutions of a residual block: two rows for the first kind, one for the second.
#[derive(Debug, Clone)]
pub struct ResBlockLayers {
    pub convs1: Vec<Conv>,
    pub convs2: Vec<Conv>,
    pub convs: Vec<Conv>,
}

/// One convolution per dilation.
pub open spec fn dilated(channels: usize, kernel_size: usize, dilations: Seq<usize>) -> Seq<Conv> {
    Seq::new(dilations.len(), |i: int| same(channels, kernel_size, dilations[i]))
}

/// The kernel reaches are representable.
pub open spec fn reaches_fit(kernel_size: usize, dilations: Seq<usize>) -> bool {
    forall|i: int| 0 <= i < dilations.len() ==> kernel_size * #[trigger] dilations[i] <= usize::MAX
}

impl ResBlockLayers {
    pub open spec fn of_first_kind(
        self,
        channels: usize,
        kernel_size: usize,
        dilations: Seq<usize>,
    ) -> bool {
        &&& self.convs1@ == dilated(channels, kernel_size, dilations)
        &&& self.convs2@ == Seq::new(dilations.len(), |i: int| same(channels, kernel_size, 1))
        &&& self.convs@ == Seq::<Conv>::empty()
    }

    pub open spec fn of_second_kind(
        self,
        channels: usize,
        kernel_size: usize,
        dilations: Seq<usize>,
    ) -> bool {
        &&& self.convs1@ == Seq::<Conv>::empty()
        &&& self.convs2@ == Seq::<Conv>::empty()
        &&& self.convs@ == dilated(channels, kernel_size, dilations.take(2))
    }

    /// The block of the kind that a generator names.
    pub open spec fn of_kind(
        self,
        kind: Seq<char>,
        channels: usize,
        kernel_size: usize,
        dilations: Seq<usize>,
    ) -> bool {
        if kind == "1"@ {
            self.of_first_kind(channels, kernel_size, dilations)
        } else {
            self.of_second_kind(channels, kernel_size, dilations)
        }
    }
}

fn dilated_convs(channels: usize, kernel_size: usize, dilations: &Vec<usize>, count: usize) -> (out:
    Vec<Conv>)
    requires
        kernel_size >= 1,
        count <= dilations.len(),
        reaches_fit(kernel_size, dilations@.take(count as int)),
    ensures
        out@ == dilated(channels, kernel_size, dilations@.take(count as int)),
{
    let mut out: Vec<Conv> = Vec::new();
    let mut i: usize = 0;
    while i < count
        invariant
            i <= count,
            kernel_size >= 1,
            count <= dilations.len(),
            reaches_fit(kernel_size, dilations@.take(count as int)),
            out@ == dilated(channels, kernel_size, dilations@.take(count as int)).take(i as int),
        decreases count - i,
    {
        assert(kernel_size * dilations@.take(count as int)[i as int] <= usize::MAX);
        out.push(same_conv(channels, kernel_size, dilations[i]));
        i = i + 1;
    }
    out
}

impl ResBlock1Config {
    /// The first rule that the block breaks.
    pub open spec fn fault(self) -> Option<Seq<char>> {
        block_fault(self.channels, self.kernel_size, self.dilations@)
    }

    pub fn validate(&self) -> (out: Result<(), HifiganError>)
        ensures
            config_verdict(out, self.fault()),
    {
        check_block(self.channels, self.kernel_size, &self.dilations)
    }

    /// The layers of a valid block of the first kind.
    pub fn layers(&self) -> (out: Result<ResBlockLayers, HifiganError>)
        requires
            self.fault() is None ==> reaches_fit(self.kernel_size, self.dilations@),
        ensures
            config_verdict(out, self.fault()),
            out matches Ok(layers) ==> layers.of_first_kind(
                self.channels,
                self.kernel_size,
                self.dilations@,
            ),
    {
        self.validate()?;
        let count: usize = self.dilations.len();
        let convs1 = dilated_convs(self.channels, self.kernel_size, &self.dilations, count);
        assert(self.dilations@.take(count as int) =~= self.dilations@);
        let mut convs2: Vec<Conv> = Vec::new();
        let mut i: usize = 0;
        while i < count
            invariant
                i <= count,
                self.kernel_size >= 1,
                count == self.dilations@.len(),
                convs2@ == Seq::new(
                    self.dilations@.len(),
                    |k: int| same(self.channels, self.kernel_size, 1),
                ).take(i as int),
            decreases count - i,
        {
            convs2.push(same_conv(self.channels, self.kernel_size, 1));
            i = i + 1;
        }
        assert(convs2@ =~= Seq::new(
            self.dilations@.len(),
            |k: int| same(self.channels, self.kernel_size, 1),
        ));
        Ok(ResBlockLayers { convs1, convs2, convs: Vec::new() })
    }

    /// The layers of a valid block of the second kind.
    pub fn layers_of_second_kind(&self) -> (out: Result<ResBlockLayers, HifiganError>)
        requires
            second_kind(self.kernel_size, self.dilations@) ==> reaches_fit(
                self.kernel_size,
                self.dilations@.take(2),
            ),
        ensures
            config_verdict(
                out,
                unless(
                    self.channels != 0 && second_kind(self.kernel_size, self.dilations@),
                    "ResBlock2 requires positive channels, an odd kernel, and two positive dilations"@,
                ),
            ),
            out matches Ok(layers) ==> layers.of_second_kind(
                self.channels,
                self.kernel_size,
                self.dilations@,
            ),
    {
        if self.channels == 0 || !is_second_kind(self.kernel_size, &self.dilations) {
            return config_error(
                "ResBlock2 requires positive channels, an odd kernel, and two positive dilations".to_owned(),
            );
        }
        Ok(
            ResBlockLayers {
                convs1: Vec::new(),
                convs2: Vec::new(),
                convs: dilated_convs(self.channels, self.kernel_size, &self.dilations, 2),
            },
        )
    }
}

/// Configurable HiFi-GAN generator parameters.
#[derive(Debug, Clone, PartialEq, Eq)]
pub struct HifiganGeneratorConfig {
    pub in_channels: usize,
    pub out_channels: usize,
    pub resblock_type: String,
    pub resblock_dilation_sizes: Vec<Vec<usize>>,
    pub resblock_kernel_sizes: Vec<usize>,
    pub upsample_kernel_sizes: Vec<usize>,
    pub upsample_initial_channel: usize,
    pub upsample_factors: Vec<usize>,
    pub inference_padding: usize,
    pub cond_channels: usize,
    pub conv_pre_weight_norm: bool,
    pub conv_post_weight_norm: bool,
    pub conv_post_bias: bool,
}

/// The parameters as mathematical values.
#[verifier::ext_equal]
pub struct HifiganModel {
    pub in_channels: usize,
    pub out_channels: usize,
    pub resblock_type: Seq<char>,
    pub resblock_dilation_sizes: Seq<Seq<usize>>,
    pub resblock_kernel_sizes: Seq<usize>,
    pub upsample_kernel_sizes: Seq<usize>,
    pub upsample_initial_channel: usize,
    pub upsample_factors: Seq<usize>,
    pub inference_padding: usize,
    pub cond_channels: usize,
    pub conv_pre_weight_norm: bool,
    pub conv_post_weight_norm: bool,
    pub conv_post_bias: bool,
}

/// The contents of nested lists.
pub open spec fn nested(lists: Seq<Vec<usize>>) -> Seq<Seq<usize>> {
    Seq::new(lists.len(), |i: int| lists[i]@)
}

impl View for HifiganGeneratorConfig {
    type V = HifiganModel;

    open spec fn view(&self) -> HifiganModel {
        HifiganModel {
            in_channels: self.in_channels,
            out_channels: self.out_channels,
            resblock_type: self.resblock_type@,
            resblock_dilation_sizes: nested(self.resblock_dilation_sizes@),
            resblock_kernel_sizes: self.resblock_kernel_sizes@,
            upsample_kernel_sizes: self.upsample_kernel_sizes@,
            upsample_initial_channel: self.upsample_initial_channel,
            upsample_factors: self.upsample_factors@,
            inference_padding: self.inference_padding,
            cond_channels: self.cond_channels,
            conv_pre_weight_norm: self.conv_pre_weight_norm,
            conv_post_weight_norm: self.conv_post_weight_norm,
            conv_post_bias: self.conv_post_bias,
        }
    }
}

impl HifiganModel {
    /// The first rule that a residual block breaks, of those from the given one on.
    pub open spec fn blocks_fault(self, from: int) -> Option<Seq<char>>
        decreases self.resblock_kernel_sizes.len() - from,
    {
        if from < 0 || from >= self.resblock_kernel_sizes.len() {
            None
        } else {
            let kernel_size = self.resblock_kernel_sizes[from];
            let dilations = self.resblock_dilation_sizes[from];
            first(
                if self.resblock_type == "1"@ {
                    block_fault(1, kernel_size, dilations)
                } else {
                    unless(
                        second_kind(kernel_size, dilations),
                        "ResBlock2 requires an odd kernel and at least two positive dilations"@,
                    )
                },
                self.blocks_fault(from + 1),
            )
        }
    }

    /// The first rule that an upsampling stage breaks.
    pub open spec fn stage_fault(self, stage: int) -> Option<Seq<char>> {
        let factor = self.upsample_factors[stage];
        let kernel_size = self.upsample_kernel_sizes[stage];
        if factor == 0 {
            Some(
                "upsample factor at stage "@ + decimal(stage as nat) + " must be positive"@,
            )
        } else if kernel_size < factor || !multiple_of(kernel_size - factor, 2) {
            Some(
                "upsample kernel "@ + decimal(kernel_size as nat) + " at stage "@ + decimal(
                    stage as nat,
                ) + " must be at least its factor "@ + decimal(factor as nat)
                    + " and differ from it by an even number"@,
            )
        } else if self.stage_channels(stage) == 0 || self.stage_channels(stage + 1) == 0 {
            Some(
                "upsample_initial_channel "@ + decimal(self.upsample_initial_channel as nat)
                    + " is too small for "@ + decimal(self.upsample_factors.len()) + " stages"@,
            )
        } else {
            None
        }
    }

    /// The channels before a stage: half as many after each.
    pub open spec fn stage_channels(self, stage: int) -> int {
        halved(self.upsample_initial_channel as nat, stage as nat) as int
    }

    /// The first rule that an upsampling stage breaks, of those from the given one on.
    pub open spec fn stages_fault(self, from: int) -> Option<Seq<char>>
        decreases self.upsample_factors.len() - from,
    {
        if from < 0 || from >= self.upsample_factors.len() {
            None
        } else {
            first(self.stage_fault(from), self.stages_fault(from + 1))
        }
    }

    /// The first rule that the parameters break.
    pub open spec fn fault(self) -> Option<Seq<char>> {
        if self.in_channels == 0 {
            Some("in_channels must be positive"@)
        } else if self.out_channels == 0 {
            Some("out_channels must be positive"@)
        } else if self.resblock_type != "1"@ && self.resblock_type != "2"@ {
            Some(
                "resblock_type `"@ + self.resblock_type
                    + "` is unsupported; expected `1` or `2`"@,
            )
        } else if self.resblock_kernel_sizes.len() == 0 {
            Some("at least one residual-block kernel is required"@)
        } else if self.resblock_kernel_sizes.len() != self.resblock_dilation_sizes.len() {
            Some(
                "resblock_kernel_sizes has "@ + decimal(self.resblock_kernel_sizes.len())
                    + " entries but resblock_dilation_sizes has "@ + decimal(
                    self.resblock_dilation_sizes.len(),
                ),
            )
        } else {
            first(self.blocks_fault(0), self.upsampling_fault())
        }
    }

    /// The first rule that the upsampling breaks.
    pub open spec fn upsampling_fault(self) -> Option<Seq<char>> {
        if self.upsample_factors.len() == 0 {
            Some("at least one upsampling stage is required"@)
        } else if self.upsample_factors.len() != self.upsample_kernel_sizes.len() {
            Some(
                "upsample_factors has "@ + decimal(self.upsample_factors.len())
                    + " entries but upsample_kernel_sizes has "@ + decimal(
                    self.upsample_kernel_sizes.len(),
                ),
            )
        } else if self.upsample_initial_channel == 0 {
            Some("upsample_initial_channel must be positive"@)
        } else {
            first(
                self.stages_fault(0),
                unless(
                    self.conv_pre_weight_norm && self.conv_post_weight_norm,
                    "conv_pre_weight_norm and conv_post_weight_norm must be true for weight_g/weight_v checkpoint compatibility"@,
                ),
            )
        }
    }

    /// The samples per input frame.
    pub open spec fn factor(self) -> nat {
        product(self.upsample_factors)
    }

    /// The layer sizes are representable.
    pub open spec fn buildable(self) -> bool {
        &&& products_fit(self.upsample_factors)
        &&& forall|i: int|
            0 <= i < self.resblock_kernel_sizes.len() && i < self.resblock_dilation_sizes.len()
                ==> reaches_fit(
                #[trigger] self.resblock_kernel_sizes[i],
                self.resblock_dilation_sizes[i],
            )
    }

    /// The transposed convolution of a stage.
    pub open spec fn stage_upsample(self, stage: int) -> Upsample {
        let factor = self.upsample_factors[stage];
        let kernel_size = self.upsample_kernel_sizes[stage];
        Upsample {
            channels_in: self.stage_channels(stage) as usize,
            channels_out: self.stage_channels(stage + 1) as usize,
            kernel_size,
            stride: factor,
            padding: ((kernel_size - factor) / 2) as usize,
            output_padding: 0,
        }
    }
}

impl HifiganGeneratorConfig {
    pub fn validate(&self) -> (out: Result<(), HifiganError>)
        ensures
            config_verdict(out, self@.fault()),
    {
        if self.in_channels == 0 {
            return config_error("in_channels must be positive".to_owned());
        }
        if self.out_channels == 0 {
            return config_error("out_channels must be positive".to_owned());
        }
        if !same_text(self.resblock_type.as_str(), "1") && !same_text(
            self.resblock_type.as_str(),
            "2",
        ) {
            return config_error(
                around_text(
                    "resblock_type `",
                    self.resblock_type.as_str(),
                    "` is unsupported; expected `1` or `2`",
                ),
            );
        }
        if self.resblock_kernel_sizes.len() == 0 {
            return config_error("at least one residual-block kernel is required".to_owned());
        }
        if self.resblock_kernel_sizes.len() != self.resblock_dilation_sizes.len() {
            return config_error(
                with_numbers(
                    "resblock_kernel_sizes has ",
                    self.resblock_kernel_sizes.len(),
                    " entries but resblock_dilation_sizes has ",
                    self.resblock_dilation_sizes.len(),
                ),
            );
        }
        self.check_blocks()?;
        self.check_upsampling()
    }

    fn check_blocks(&self) -> (out: Result<(), HifiganError>)
        requires
            self.resblock_kernel_sizes.len() == self.resblock_dilation_sizes.len(),
        ensures
            config_verdict(out, self@.blocks_fault(0)),
    {
        let first_kind = same_text(self.resblock_type.as_str(), "1");
        let mut i: usize = 0;
        while i < self.resblock_kernel_sizes.len()
            invariant
                i <= self.resblock_kernel_sizes.len(),
                self.resblock_kernel_sizes.len() == self.resblock_dilation_sizes.len(),
                first_kind == (self@.resblock_type == "1"@),
                self@.blocks_fault(0) == self@.blocks_fault(i as int),
            decreases self.resblock_kernel_sizes.len() - i,
        {
            let kernel_size: usize = self.resblock_kernel_sizes[i];
            let dilations = &self.resblock_dilation_sizes[i];
            assert(self@.resblock_dilation_sizes[i as int] == dilations@);
            if first_kind {
                check_block(1, kernel_size, dilations)?;
            } else if !is_second_kind(kernel_size, dilations) {
                return config_error(
                    "ResBlock2 requires an odd kernel and at least two positive dilations".to_owned(),
                );
            }
            i = i + 1;
        }
        Ok(())
    }

    fn check_upsampling(&self) -> (out: Result<(), HifiganError>)
        ensures
            config_verdict(out, self@.upsampling_fault()),
    {
        if self.upsample_factors.len() == 0 {
            return config_error("at least one upsampling stage is required".to_owned());
        }
        if self.upsample_factors.len() != self.upsample_kernel_sizes.len() {
            return config_error(
                with_numbers(
                    "upsample_factors has ",
                    self.upsample_factors.len(),
                    " entries but upsample_kernel_sizes has ",
                    self.upsample_kernel_sizes.len(),
                ),
            );
        }
        if self.upsample_initial_channel == 0 {
            return config_error("upsample_initial_channel must be positive".to_owned());
        }
        let mut channels: usize = self.upsample_initial_channel;
        let mut stage: usize = 0;
        while stage < self.upsample_factors.len()
            invariant
                stage <= self.upsample_factors.len(),
                self.upsample_factors.len() > 0,
                self.upsample_factors.len() == self.upsample_kernel_sizes.len(),
                self.upsample_initial_channel > 0,
                channels == self@.stage_channels(stage as int),
                self@.stages_fault(0) == self@.stages_fault(stage as int),
            decreases self.upsample_factors.len() - stage,
        {
            let factor: usize = self.upsample_factors[stage];
            let kernel_size: usize = self.upsample_kernel_sizes[stage];
            if factor == 0 {
                return config_error(
                    around_number("upsample factor at stage ", stage, " must be positive"),
                );
            }
            if kernel_size < factor || !is_multiple_of(kernel_size - factor, 2) {
                let mut message = with_numbers("upsample kernel ", kernel_size, " at stage ", stage);
                message.append(" must be at least its factor ");
                message.append(decimal_text(factor as u64).as_str());
                message.append(" and differ from it by an even number");
                return config_error(message);
            }
            let channels_out: usize = channels / 2;
            if channels == 0 || channels_out == 0 {
                return config_error(
                    around_numbers(
                        "upsample_initial_channel ",
                        self.upsample_initial_channel,
                        " is too small for ",
                        self.upsample_factors.len(),
                        " stages",
                    ),
                );
            }
            channels = channels_out;
            stage = stage + 1;
        }
        if !self.conv_pre_weight_norm || !self.conv_post_weight_norm {
            return config_error(
                "conv_pre_weight_norm and conv_post_weight_norm must be true for weight_g/weight_v checkpoint compatibility".to_owned(),
            );
        }
        Ok(())
    }

    /// The samples per input frame.
    pub fn upsample_factor(&self) -> (out: usize)
        requires
            products_fit(self.upsample_factors@),
        ensures
            out == self@.factor(),
    {
        total_factor(self.upsample_factors.as_slice())
    }

    /// The samples of an input, where they can be counted.
    pub fn output_frames(&self, input_frames: usize) -> (out: Option<usize>)
        requires
            products_fit(self.upsample_factors@),
        ensures
            out == scaled(input_frames as int, self@.factor() as int),
    {
        checked_scaled(input_frames, self.upsample_factor())
    }

    /// The samples of an input that is padded for inference, where they can be counted.
    pub fn inference_output_frames(&self, input_frames: usize) -> (out: Option<usize>)
        requires
            products_fit(self.upsample_factors@),
        ensures
            out == scaled_padded(
                input_frames as int,
                self.inference_padding as int,
                self@.factor() as int,
            ),
    {
        checked_scaled_padded(input_frames, self.inference_padding, self.upsample_factor())
    }
}

/// A size with its name in diagnostics.
pub open spec fn size_named(value: Json, label: Seq<char>) -> Result<usize, Seq<char>> {
    match value.unsigned_value() {
        None => Err("`"@ + label + "` must be a non-negative integer"@),
        Some(size) => if size <= usize::MAX {
            Ok(size as usize)
        } else {
            Err("`"@ + label + "` does not fit usize"@)
        },
    }
}

/// A field that must be there.
pub open spec fn field_of(object: Json, key: Seq<char>) -> Result<Json, Seq<char>> {
    match object.field(key) {
        Some(value) => Ok(value),
        None => Err("missing `"@ + key + "`"@),
    }
}

/// A size in a field that must be there.
pub open spec fn required_size(object: Json, key: Seq<char>) -> Result<usize, Seq<char>> {
    match field_of(object, key) {
        Ok(value) => size_named(value, key),
        Err(message) => Err(message),
    }
}

/// A size in a field, or a default where the field is left out.
pub open spec fn optional_size(object: Json, key: Seq<char>, default: usize) -> Result<
    usize,
    Seq<char>,
> {
    match object.field(key) {
        Some(value) => size_named(value, key),
        None => Ok(default),
    }
}

/// A flag in a field, or a default where the field is left out.
pub open spec fn optional_flag(object: Json, key: Seq<char>, default: bool) -> Result<
    bool,
    Seq<char>,
> {
    match object.field(key) {
        Some(value) => match value.bool_value() {
            Some(flag) => Ok(flag),
            None => Err("`"@ + key + "` must be a boolean"@),
        },
        None => Ok(default),
    }
}

/// A text in a field that must be there.
pub open spec fn required_text(object: Json, key: Seq<char>) -> Result<Seq<char>, Seq<char>> {
    match field_of(object, key) {
        Ok(value) => match value.text_value() {
            Some(text) => Ok(text),
            None => Err("`"@ + key + "` must be a string"@),
        },
        Err(message) => Err(message),
    }
}

/// The name of an item of a list.
pub open spec fn item_label(label: Seq<char>, index: int) -> Seq<char> {
    label + "["@ + decimal(index as nat) + "]"@
}

/// Sizes with their names in diagnostics.
pub open spec fn sizes_named(items: Seq<Json>, label: Seq<char>) -> Result<Seq<usize>, Seq<char>>
    decreases items.len(),
{
    if items.len() == 0 {
        Ok(Seq::empty())
    } else {
        match sizes_named(items.drop_last(), label) {
            Err(message) => Err(message),
            Ok(front) => match size_named(items.last(), item_label(label, items.len() - 1)) {
                Ok(size) => Ok(front.push(size)),
                Err(message) => Err(message),
            },
        }
    }
}

/// A list of sizes with its name in diagnostics.
pub open spec fn list_named(value: Json, label: Seq<char>) -> Result<Seq<usize>, Seq<char>> {
    match value {
        Json::List(items) => sizes_named(items@, label),
        _ => Err("`"@ + label + "` must be an array"@),
    }
}

/// Lists of sizes with their names in diagnostics.
pub open spec fn lists_named(items: Seq<Json>, label: Seq<char>) -> Result<
    Seq<Seq<usize>>,
    Seq<char>,
>
    decreases items.len(),
{
    if items.len() == 0 {
        Ok(Seq::empty())
    } else {
        match lists_named(items.drop_last(), label) {
            Err(message) => Err(message),
            Ok(front) => match list_named(items.last(), item_label(label, items.len() - 1)) {
                Ok(list) => Ok(front.push(list)),
                Err(message) => Err(message),
            },
        }
    }
}

/// A list of sizes in a field that must be there.
pub open spec fn required_sizes(object: Json, key: Seq<char>) -> Result<Seq<usize>, Seq<char>> {
    match field_of(object, key) {
        Ok(value) => list_named(value, key),
        Err(message) => Err(message),
    }
}

/// A list of lists of sizes in a field that must be there.
pub open spec fn required_lists(object: Json, key: Seq<char>) -> Result<Seq<Seq<usize>>, Seq<char>> {
    match field_of(object, key) {
        Ok(value) => match value {
            Json::List(items) => lists_named(items@, key),
            _ => Err("`"@ + key + "` must be an array"@),
        },
        Err(message) => Err(message),
    }
}

/// The parameters that a document holds, where each can be read.
pub open spec fn generator_of(object: Json) -> HifiganModel {
    HifiganModel {
        in_channels: required_size(object, "in_channels"@)->Ok_0,
        out_channels: required_size(object, "out_channels"@)->Ok_0,
        resblock_type: required_text(object, "resblock_type"@)->Ok_0,
        resblock_dilation_sizes: required_lists(object, "resblock_dilation_sizes"@)->Ok_0,
        resblock_kernel_sizes: required_sizes(object, "resblock_kernel_sizes"@)->Ok_0,
        upsample_kernel_sizes: required_sizes(object, "upsample_kernel_sizes"@)->Ok_0,
        upsample_initial_channel: required_size(object, "upsample_initial_channel"@)->Ok_0,
        upsample_factors: required_sizes(object, "upsample_factors"@)->Ok_0,
        inference_padding: optional_size(object, "inference_padding"@, 5)->Ok_0,
        cond_channels: optional_size(object, "cond_channels"@, 0)->Ok_0,
        conv_pre_weight_norm: optional_flag(object, "conv_pre_weight_norm"@, true)->Ok_0,
        conv_post_weight_norm: optional_flag(object, "conv_post_weight_norm"@, true)->Ok_0,
        conv_post_bias: optional_flag(object, "conv_post_bias"@, true)->Ok_0,
    }
}

/// The first reason why a document is not a generator configuration.
pub open spec fn generator_fault(value: Json) -> Option<Seq<char>> {
    if value is Object {
        generator_fields_fault(value)
    } else {
        Some("generator config must be a JSON object"@)
    }
}

pub open spec fn generator_fields_fault(object: Json) -> Option<Seq<char>> {
    first(
        fault_of(required_size(object, "in_channels"@)),
        first(
            fault_of(required_size(object, "out_channels"@)),
            first(
                fault_of(required_text(object, "resblock_type"@)),
                first(
                    fault_of(required_lists(object, "resblock_dilation_sizes"@)),
                    first(
                        fault_of(required_sizes(object, "resblock_kernel_sizes"@)),
                        first(
                            fault_of(required_sizes(object, "upsample_kernel_sizes"@)),
                            first(
                                fault_of(required_size(object, "upsample_initial_channel"@)),
                                first(
                                    fault_of(required_sizes(object, "upsample_factors"@)),
                                    first(
                                        fault_of(optional_size(object, "inference_padding"@, 5)),
                                        first(
                                            fault_of(optional_size(object, "cond_channels"@, 0)),
                                            first(
                                                fault_of(optional_flag(object, "conv_pre_weight_norm"@, true)),
                                                first(
                                                    fault_of(optional_flag(object, "conv_post_weight_norm"@, true)),
                                                    first(
                                                        fault_of(optional_flag(object, "conv_post_bias"@, true)),
                                                        generator_of(object).fault(),
                                                    ),
                                                ),
                                            ),
                                        ),
                                    ),
                                ),
                            ),
                        ),
                    ),
                ),
            ),
        ),
    )
}

fn json_usize(value: &Json, label: &str) -> (out: Result<usize, HifiganError>)
    ensures
        config_verdict(out, fault_of(size_named(*value, label@))),
        out matches Ok(size) ==> size_named(*value, label@) == Ok::<usize, Seq<char>>(size),
{
    match value.as_u64() {
        None => config_error(around_text("`", label, "` must be a non-negative integer")),
        Some(size) => if size <= usize::MAX as u64 {
            Ok(size as usize)
        } else {
            config_error(around_text("`", label, "` does not fit usize"))
        },
    }
}

fn required_value<'a>(object: &'a Json, key: &str) -> (out: Result<&'a Json, HifiganError>)
    ensures
        config_verdict(out, fault_of(field_of(*object, key@))),
        out matches Ok(value) ==> field_of(*object, key@) == Ok::<Json, Seq<char>>(*value),
{
    match object.get(key) {
        Some(value) => Ok(value),
        None => config_error(around_text("missing `", key, "`")),
    }
}

fn required_usize(object: &Json, key: &str) -> (out: Result<usize, HifiganError>)
    ensures
        config_verdict(out, fault_of(required_size(*object, key@))),
        out matches Ok(size) ==> required_size(*object, key@) == Ok::<usize, Seq<char>>(size),
{
    json_usize(required_value(object, key)?, key)
}

fn optional_usize(object: &Json, key: &str, default: usize) -> (out: Result<usize, HifiganError>)
    ensures
        config_verdict(out, fault_of(optional_size(*object, key@, default))),
        out matches Ok(size) ==> optional_size(*object, key@, default) == Ok::<usize, Seq<char>>(
            size,
        ),
{
    match object.get(key) {
        Some(value) => json_usize(value, key),
        None => Ok(default),
    }
}

fn optional_bool(object: &Json, key: &str, default: bool) -> (out: Result<bool, HifiganError>)
    ensures
        config_verdict(out, fault_of(optional_flag(*object, key@, default))),
        out matches Ok(flag) ==> optional_flag(*object, key@, default) == Ok::<bool, Seq<char>>(
            flag,
        ),
{
    match object.get(key) {
        Some(value) => match value.as_bool() {
            Some(flag) => Ok(flag),
            None => config_error(around_text("`", key, "` must be a boolean")),
        },
        None => Ok(default),
    }
}

fn required_string(object: &Json, key: &str) -> (out: Result<String, HifiganError>)
    ensures
        config_verdict(out, fault_of(required_text(*object, key@))),
        out matches Ok(text) ==> required_text(*object, key@) == Ok::<Seq<char>, Seq<char>>(text@),
{
    match required_value(object, key)?.as_str() {
        Some(text) => Ok(text.to_owned()),
        None => config_error(around_text("`", key, "` must be a string")),
    }
}

fn item_name(label: &str, index: usize) -> (out: String)
    ensures
        out@ == item_label(label@, index as int),
{
    let mut out = with_text(label, "[");
    out.append(decimal_text(index as u64).as_str());
    out.append("]");
    out
}

proof fn size_faults_persist(items: Seq<Json>, label: Seq<char>, read: int)
    requires
        0 <= read <= items.len(),
        sizes_named(items.take(read), label) is Err,
    ensures
        sizes_named(items, label) == sizes_named(items.take(read), label),
    decreases items.len() - read,
{
    if read < items.len() {
        assert(items.take(read + 1).drop_last() =~= items.take(read));
        size_faults_persist(items, label, read + 1);
    } else {
        assert(items.take(read) =~= items);
    }
}

proof fn list_faults_persist(items: Seq<Json>, label: Seq<char>, read: int)
    requires
        0 <= read <= items.len(),
        lists_named(items.take(read), label) is Err,
    ensures
        lists_named(items, label) == lists_named(items.take(read), label),
    decreases items.len() - read,
{
    if read < items.len() {
        assert(items.take(read + 1).drop_last() =~= items.take(read));
        list_faults_persist(items, label, read + 1);
    } else {
        assert(items.take(read) =~= items);
    }
}

fn json_usizes(value: &Json, label: &str) -> (out: Result<Vec<usize>, HifiganError>)
    ensures
        config_verdict(out, fault_of(list_named(*value, label@))),
        out matches Ok(sizes) ==> list_named(*value, label@) == Ok::<Seq<usize>, Seq<char>>(sizes@),
{
    let items = match value.as_array() {
        Some(items) => items,
        None => return config_error(around_text("`", label, "` must be an array")),
    };
    let mut sizes: Vec<usize> = Vec::new();
    let mut i: usize = 0;
    assert(sizes_named(items@.take(0), label@) == Ok::<Seq<usize>, Seq<char>>(sizes@));
    while i < items.len()
        invariant
            i <= items.len(),
            *value == Json::List(*items),
            sizes_named(items@.take(i as int), label@) == Ok::<Seq<usize>, Seq<char>>(sizes@),
        decreases items.len() - i,
    {
        proof {
            assert(items@.take(i + 1).drop_last() =~= items@.take(i as int));
        }
        match json_usize(&items[i], item_name(label, i).as_str()) {
            Ok(size) => sizes.push(size),
            Err(error) => {
                proof {
                    size_faults_persist(items@, label@, i + 1);
                }
                return Err(error);
            },
        }
        i = i + 1;
    }
    assert(items@.take(items.len() as int) =~= items@);
    Ok(sizes)
}

fn required_usizes(object: &Json, key: &str) -> (out: Result<Vec<usize>, HifiganError>)
    ensures
        config_verdict(out, fault_of(required_sizes(*object, key@))),
        out matches Ok(sizes) ==> required_sizes(*object, key@) == Ok::<Seq<usize>, Seq<char>>(
            sizes@,
        ),
{
    json_usizes(required_value(object, key)?, key)
}

fn required_nested_usizes(object: &Json, key: &str) -> (out: Result<Vec<Vec<usize>>, HifiganError>)
    ensures
        config_verdict(out, fault_of(required_lists(*object, key@))),
        out matches Ok(lists) ==> required_lists(*object, key@) == Ok::<Seq<Seq<usize>>, Seq<char>>(
            nested(lists@),
        ),
{
    let value = required_value(object, key)?;
    let items = match value.as_array() {
        Some(items) => items,
        None => return config_error(around_text("`", key, "` must be an array")),
    };
    let mut lists: Vec<Vec<usize>> = Vec::new();
    let mut i: usize = 0;
    assert(nested(lists@) =~= Seq::<Seq<usize>>::empty());
    while i < items.len()
        invariant
            i <= items.len(),
            field_of(*object, key@) == Ok::<Json, Seq<char>>(*value),
            *value == Json::List(*items),
            lists_named(items@.take(i as int), key@) == Ok::<Seq<Seq<usize>>, Seq<char>>(
                nested(lists@),
            ),
        decreases items.len() - i,
    {
        proof {
            assert(items@.take(i + 1).drop_last() =~= items@.take(i as int));
        }
        match json_usizes(&items[i], item_name(key, i).as_str()) {
            Ok(sizes) => {
                let ghost before = lists@;
                lists.push(sizes);
                assert(nested(lists@) =~= nested(before).push(sizes@));
            },
            Err(error) => {
                proof {
                    list_faults_persist(items@, key@, i + 1);
                }
                return Err(error);
            },
        }
        i = i + 1;
    }
    assert(items@.take(items.len() as int) =~= items@);
    Ok(lists)
}

impl HifiganGeneratorConfig {
    /// Builds a config from a JSON document, with the common constructor defaults for fields
    /// that it leaves out.
    pub fn from_json_value(value: &Json) -> (out: Result<Self, HifiganError>)
        ensures
            config_verdict(out, generator_fault(*value)),
            out matches Ok(config) ==> config@ == generator_of(*value) && config@.fault() is None,
    {
        if !value.is_object() {
            return config_error("generator config must be a JSON object".to_owned());
        }
        let out = HifiganGeneratorConfig {
            in_channels: required_usize(value, "in_channels")?,
            out_channels: required_usize(value, "out_channels")?,
            resblock_type: required_string(value, "resblock_type")?,
            resblock_dilation_sizes: required_nested_usizes(value, "resblock_dilation_sizes")?,
            resblock_kernel_sizes: required_usizes(value, "resblock_kernel_sizes")?,
            upsample_kernel_sizes: required_usizes(value, "upsample_kernel_sizes")?,
            upsample_initial_channel: required_usize(value, "upsample_initial_channel")?,
            upsample_factors: required_usizes(value, "upsample_factors")?,
            inference_padding: optional_usize(value, "inference_padding", 5)?,
            cond_channels: optional_usize(value, "cond_channels", 0)?,
            conv_pre_weight_norm: optional_bool(value, "conv_pre_weight_norm", true)?,
            conv_post_weight_norm: optional_bool(value, "conv_post_weight_norm", true)?,
            conv_post_bias: optional_bool(value, "conv_post_bias", true)?,
        };
        assert(out@ == generator_of(*value));
        out.validate()?;
        Ok(out)
    }
}

/// A stage of the generator: its transposed convolution and the residual blocks after it.
#[derive(Debug, Clone)]
pub struct HifiganStage {
    pub up: Upsample,
    pub blocks: Vec<ResBlockLayers>,
}

/// Everything that is needed to build the generator.
#[derive(Debug, Clone)]
pub struct HifiganTopology {
    pub conv_pre: Conv,
    pub stages: Vec<HifiganStage>,
    pub conv_post: Conv,
    pub conv_post_bias: bool,
    pub cond_layer: Option<Conv>,
    pub num_kernels: usize,
    pub upsample_factor: usize,
}

/// A projection over seven frames that keeps the length.
pub open spec fn projection(channels_in: usize, channels_out: usize) -> Conv {
    Conv { channels_in, channels_out, kernel_size: 7, dilation: 1, pad_left: 3, pad_right: 3 }
}

fn projection_conv(channels_in: usize, channels_out: usize) -> (out: Conv)
    ensures
        out == projection(channels_in, channels_out),
{
    Conv { channels_in, channels_out, kernel_size: 7, dilation: 1, pad_left: 3, pad_right: 3 }
}

impl HifiganModel {
    /// The residual blocks after a stage, one per kernel.
    pub open spec fn blocks_built(self, channels: usize, blocks: Seq<ResBlockLayers>) -> bool {
        &&& blocks.len() == self.resblock_kernel_sizes.len()
        &&& forall|k: int|
            0 <= k < blocks.len() ==> (#[trigger] blocks[k]).of_kind(
                self.resblock_type,
                channels,
                self.resblock_kernel_sizes[k],
                self.resblock_dilation_sizes[k],
            )
    }

    /// The generator of the parameters.
    pub open spec fn built_as(self, topology: HifiganTopology) -> bool {
        let stages = self.upsample_factors.len();
        &&& topology.conv_pre == projection(self.in_channels, self.upsample_initial_channel)
        &&& topology.stages.len() == stages
        &&& forall|i: int|
            0 <= i < stages ==> (#[trigger] topology.stages[i]).up == self.stage_upsample(i)
        &&& forall|i: int|
            0 <= i < stages ==> self.blocks_built(
                self.stage_upsample(i).channels_out,
                (#[trigger] topology.stages[i]).blocks@,
            )
        &&& topology.conv_post == projection(
            self.stage_channels(stages as int) as usize,
            self.out_channels,
        )
        &&& topology.conv_post_bias == self.conv_post_bias
        &&& topology.cond_layer == (if self.cond_channels > 0 {
            Some(pointwise(self.cond_channels, self.upsample_initial_channel))
        } else {
            None
        })
        &&& topology.num_kernels == self.resblock_kernel_sizes.len()
        &&& topology.upsample_factor == self.factor()
    }

    /// The first reason why features cannot be decoded.
    pub open spec fn forward_fault(self, input: Seq<usize>, conditioning: Option<Seq<usize>>) -> Option<
        Seq<char>,
    > {
        if input[1] != self.in_channels {
            Some(
                "expected "@ + decimal(self.in_channels as nat) + " feature channels, got "@
                    + decimal(input[1] as nat),
            )
        } else if input[2] == 0 {
            Some("feature input must contain at least one frame"@)
        } else if self.cond_channels > 0 {
            match conditioning {
                Some(shape) => unless(
                    shape == seq![input[0], self.cond_channels, input[2]],
                    "conditioning shape "@ + shape_text(shape) + " must be "@ + shape_text(
                        seq![input[0], self.cond_channels, input[2]],
                    ),
                ),
                None => Some(
                    "generator requires conditioning with "@ + decimal(self.cond_channels as nat)
                        + " channels"@,
                ),
            }
        } else {
            unless(
                conditioning is None,
                "conditioning was supplied to an unconditioned generator"@,
            )
        }
    }
}

/// A shape with padding on both ends of its frame axis.
pub open spec fn padded(shape: Seq<usize>, padding: usize) -> Seq<usize> {
    seq![shape[0], shape[1], (shape[2] + 2 * padding) as usize]
}

proof fn blocks_are_valid(model: HifiganModel, from: int, block: int)
    requires
        0 <= from <= block < model.resblock_kernel_sizes.len(),
        model.blocks_fault(from) is None,
    ensures
        model.resblock_type == "1"@ ==> block_fault(
            1,
            model.resblock_kernel_sizes[block],
            model.resblock_dilation_sizes[block],
        ) is None,
        model.resblock_type != "1"@ ==> second_kind(
            model.resblock_kernel_sizes[block],
            model.resblock_dilation_sizes[block],
        ),
    decreases block - from,
{
    if from < block {
        blocks_are_valid(model, from + 1, block);
    }
}

/// Every stage of a valid generator is valid.
pub proof fn stages_are_valid(model: HifiganModel, from: int, stage: int)
    requires
        0 <= from <= stage < model.upsample_factors.len(),
        model.stages_fault(from) is None,
    ensures
        model.stage_fault(stage) is None,
    decreases stage - from,
{
    if from < stage {
        stages_are_valid(model, from + 1, stage);
    }
}

/// A stage of a valid generator multiplies the length by its factor.
pub proof fn stage_multiplies(model: HifiganModel, stage: int, length: int)
    requires
        model.fault() is None,
        0 <= stage < model.upsample_factors.len(),
    ensures
        model.stage_upsample(stage).output_length(length) == length * model.upsample_factors[stage],
{
    stages_are_valid(model, 0, stage);
    let factor = model.upsample_factors[stage];
    let kernel_size = model.upsample_kernel_sizes[stage];
    assert(2 * ((kernel_size - factor) / 2) == kernel_size - factor);
    assert((length - 1) * factor == length * factor - factor) by (nonlinear_arith);
}

/// The waveform of a valid generator has as many samples as the frames of its input times the
/// upsampling factor.
pub proof fn generator_multiplies(model: HifiganModel, topology: HifiganTopology, length: int)
    requires
        model.fault() is None,
        model.built_as(topology),
    ensures
        crate::upsampling::length_after(
            Seq::new(topology.stages@.len(), |i: int| topology.stages[i].up),
            topology.conv_pre.output_length(length),
        ) == length * model.factor(),
        forall|samples: int| #[trigger] topology.conv_post.output_length(samples) == samples,
{
    let ups = Seq::new(topology.stages@.len(), |i: int| topology.stages[i].up);
    assert forall|i: int, l: int| 0 <= i < ups.len() implies #[trigger] ups[i].output_length(l) == l
        * model.upsample_factors[i] by {
        assert(topology.stages[i].up == model.stage_upsample(i));
        stage_multiplies(model, i, l);
    }
    stages_multiply(ups, model.upsample_factors, length);
}

/// Inference pads its input, and otherwise counts samples as a plain pass does.
pub proof fn inference_pads_input(frames: int, padding: int, factor: int)
    requires
        0 <= frames,
        0 <= padding,
        frames + 2 * padding <= usize::MAX,
    ensures
        scaled_padded(frames, padding, factor) == scaled(frames + 2 * padding, factor),
        scaled_padded(frames, 0, factor) == scaled(frames, factor),
{
}

impl HifiganGeneratorConfig {
    fn stage_blocks(&self, channels: usize) -> (out: Result<Vec<ResBlockLayers>, HifiganError>)
        requires
            self@.fault() is None,
            self@.buildable(),
            channels > 0,
        ensures
            out is Ok,
            self@.blocks_built(channels, out->Ok_0@),
    {
        let first_kind = same_text(self.resblock_type.as_str(), "1");
        let mut blocks: Vec<ResBlockLayers> = Vec::new();
        let mut k: usize = 0;
        while k < self.resblock_kernel_sizes.len()
            invariant
                k <= self.resblock_kernel_sizes.len(),
                self@.fault() is None,
                self@.buildable(),
                channels > 0,
                first_kind == (self@.resblock_type == "1"@),
                blocks.len() == k,
                forall|j: int|
                    0 <= j < k ==> (#[trigger] blocks[j]).of_kind(
                        self@.resblock_type,
                        channels,
                        self@.resblock_kernel_sizes[j],
                        self@.resblock_dilation_sizes[j],
                    ),
            decreases self.resblock_kernel_sizes.len() - k,
        {
            let dilations = self.resblock_dilation_sizes[k].clone();
            assert(dilations@ =~= self@.resblock_dilation_sizes[k as int]);
            proof {
                blocks_are_valid(self@, 0, k as int);
                assert(reaches_fit(
                    self@.resblock_kernel_sizes[k as int],
                    self@.resblock_dilation_sizes[k as int],
                ));
            }
            let block = ResBlock1Config {
                channels,
                kernel_size: self.resblock_kernel_sizes[k],
                dilations,
            };
            let layers = if first_kind {
                block.layers()?
            } else {
                block.layers_of_second_kind()?
            };
            blocks.push(layers);
            k = k + 1;
        }
        Ok(blocks)
    }

    /// The generator of a valid configuration.
    pub fn topology(&self) -> (out: Result<HifiganTopology, HifiganError>)
        requires
            self@.fault() is None ==> self@.buildable(),
        ensures
            config_verdict(out, self@.fault()),
            out matches Ok(topology) ==> self@.built_as(topology),
    {
        self.validate()?;
        let mut stages: Vec<HifiganStage> = Vec::new();
        let mut channels: usize = self.upsample_initial_channel;
        let mut stage: usize = 0;
        while stage < self.upsample_factors.len()
            invariant
                stage <= self.upsample_factors.len(),
                self@.fault() is None,
                self@.buildable(),
                channels == self@.stage_channels(stage as int),
                stages.len() == stage,
                forall|i: int|
                    0 <= i < stage ==> (#[trigger] stages[i]).up == self@.stage_upsample(i),
                forall|i: int|
                    0 <= i < stage ==> self@.blocks_built(
                        self@.stage_upsample(i).channels_out,
                        (#[trigger] stages[i]).blocks@,
                    ),
            decreases self.upsample_factors.len() - stage,
        {
            proof {
                stages_are_valid(self@, 0, stage as int);
            }
            let factor: usize = self.upsample_factors[stage];
            let kernel_size: usize = self.upsample_kernel_sizes[stage];
            let channels_out: usize = channels / 2;
            let up = Upsample {
                channels_in: channels,
                channels_out,
                kernel_size,
                stride: factor,
                padding: (kernel_size - factor) / 2,
                output_padding: 0,
            };
            let blocks = self.stage_blocks(channels_out)?;
            stages.push(HifiganStage { up, blocks });
            channels = channels_out;
            stage = stage + 1;
        }
        let cond_layer = if self.cond_channels > 0 {
            Some(pointwise_conv(self.cond_channels, self.upsample_initial_channel))
        } else {
            None
        };
        Ok(
            HifiganTopology {
                conv_pre: projection_conv(self.in_channels, self.upsample_initial_channel),
                stages,
                conv_post: projection_conv(channels, self.out_channels),
                conv_post_bias: self.conv_post_bias,
                cond_layer,
                num_kernels: self.resblock_kernel_sizes.len(),
                upsample_factor: self.upsample_factor(),
            },
        )
    }

    /// Whether features of the given shape can be decoded.
    pub fn check_forward(&self, input: &[usize; 3], conditioning: &Option<[usize; 3]>) -> (out: Result<
        (),
        HifiganError,
    >)
        ensures
            input_verdict(out, self@.forward_fault(input@, shape_of(*conditioning))),
    {
        if input[1] != self.in_channels {
            return input_error(
                with_numbers("expected ", self.in_channels, " feature channels, got ", input[1]),
            );
        }
        if input[2] == 0 {
            return input_error("feature input must contain at least one frame".to_owned());
        }
        match conditioning {
            Some(shape) => {
                if self.cond_channels == 0 {
                    return input_error(
                        "conditioning was supplied to an unconditioned generator".to_owned(),
                    );
                }
                let expected: [usize; 3] = [input[0], self.cond_channels, input[2]];
                assert(expected@ =~= seq![input[0], self.cond_channels, input[2]]);
                let same = shape[0] == expected[0] && shape[1] == expected[1] && shape[2]
                    == expected[2];
                assert(same == (shape@ =~= expected@));
                if !same {
                    let mut message = with_text(
                        "conditioning shape ",
                        shape_string(shape.as_slice()).as_str(),
                    );
                    message.append(" must be ");
                    message.append(shape_string(expected.as_slice()).as_str());
                    return input_error(message);
                }
            },
            None => {
                if self.cond_channels > 0 {
                    return input_error(
                        around_number(
                            "generator requires conditioning with ",
                            self.cond_channels,
                            " channels",
                        ),
                    );
                }
            },
        }
        Ok(())
    }

    /// Whether features of the given shape can be decoded once they are padded for inference.
    pub fn check_inference(&self, input: &[usize; 3], conditioning: &Option<[usize; 3]>) -> (out: Result<
        (),
        HifiganError,
    >)
        requires
            input@[2] + 2 * self.inference_padding <= usize::MAX,
            conditioning matches Some(shape) ==> shape@[2] + 2 * self.inference_padding
                <= usize::MAX,
        ensures
            input_verdict(
                out,
                if input@[2] == 0 {
                    Some("feature input must contain at least one frame"@)
                } else {
                    self@.forward_fault(
                        padded(input@, self.inference_padding),
                        match shape_of(*conditioning) {
                            Some(shape) => Some(padded(shape, self.inference_padding)),
                            None => None,
                        },
                    )
                },
            ),
    {
        if input[2] == 0 {
            return input_error("feature input must contain at least one frame".to_owned());
        }
        let both: usize = 2 * self.inference_padding;
        let wide: [usize; 3] = [input[0], input[1], input[2] + both];
        assert(wide@ =~= padded(input@, self.inference_padding));
        let wide_conditioning = match conditioning {
            Some(shape) => {
                let wide_shape: [usize; 3] = [shape[0], shape[1], shape[2] + both];
                assert(wide_shape@ =~= padded(shape@, self.inference_padding));
                Some(wide_shape)
            },
            None => None,
        };
        self.check_forward(&wide, &wide_conditioning)
    }
}

impl HifiganGeneratorConfig {
    /// The shape of the waveform of features of the given shape.
    pub fn forward_shape(&self, input: &[usize; 3], conditioning: &Option<[usize; 3]>) -> (out: Result<
        [usize; 3],
        HifiganError,
    >)
        requires
            products_fit(self.upsample_factors@),
            input@[2] * self@.factor() <= usize::MAX,
        ensures
            input_verdict(out, self@.forward_fault(input@, shape_of(*conditioning))),
            out matches Ok(shape) ==> shape@ == seq![
                input@[0],
                self.out_channels,
                (input@[2] * self@.factor()) as usize,
            ],
    {
        self.check_forward(input, conditioning)?;
        let samples: usize = input[2] * self.upsample_factor();
        let out: [usize; 3] = [input[0], self.out_channels, samples];
        assert(out@ =~= seq![
            input@[0],
            self.out_channels,
            (input@[2] * self@.factor()) as usize,
        ]);
        Ok(out)
    }

    /// The shape of the waveform of features of the given shape that are padded for inference.
    pub fn inference_shape(&self, input: &[usize; 3], conditioning: &Option<[usize; 3]>) -> (out: Result<
        [usize; 3],
        HifiganError,
    >)
        requires
            products_fit(self.upsample_factors@),
            input@[2] + 2 * self.inference_padding <= usize::MAX,
            (input@[2] + 2 * self.inference_padding) * self@.factor() <= usize::MAX,
            conditioning matches Some(shape) ==> shape@[2] + 2 * self.inference_padding
                <= usize::MAX,
        ensures
            input_verdict(
                out,
                if input@[2] == 0 {
                    Some("feature input must contain at least one frame"@)
                } else {
                    self@.forward_fault(
                        padded(input@, self.inference_padding),
                        match shape_of(*conditioning) {
                            Some(shape) => Some(padded(shape, self.inference_padding)),
                            None => None,
                        },
                    )
                },
            ),
            out matches Ok(shape) ==> shape@ == seq![
                input@[0],
                self.out_channels,
                ((input@[2] + 2 * self.inference_padding) * self@.factor()) as usize,
            ],
    {
        self.check_inference(input, conditioning)?;
        let frames: usize = input[2] + 2 * self.inference_padding;
        let samples: usize = frames * self.upsample_factor();
        let out: [usize; 3] = [input[0], self.out_channels, samples];
        assert(out@ =~= seq![
            input@[0],
            self.out_channels,
            ((input@[2] + 2 * self.inference_padding) * self@.factor()) as usize,
        ]);
        Ok(out)
    }
}

/// The dimensions of an optional shape.
pub open spec fn shape_of(shape: Option<[usize; 3]>) -> Option<Seq<usize>> {
    match shape {
        Some(shape) => Some(shape@),
        None => None,
    }
}

/// Same padding is the same on both sides, and half of what the kernel reaches.
pub proof fn padding_is_half_the_reach(kernel_size: usize, dilation: usize, padding: usize)
    requires
        odd(kernel_size),
        call_ensures(same_padding, (kernel_size, dilation), padding),
    ensures
        2 * padding == dilation * (kernel_size - 1),
{
    let half = (kernel_size - 1) / 2;
    assert(dilation * (kernel_size - 1) == 2 * (dilation * half)) by (nonlinear_arith)
        requires
            kernel_size - 1 == 2 * half,
    ;
}

/// A convolution of a residual block: over its channels, with its kernel, a dilation and padding that
/// keeps lengths.
spec fn holds(conv: Conv, channels: usize, kernel_size: usize, dilation: usize) -> bool {
    &&& conv.channels_in == channels
    &&& conv.channels_out == channels
    &&& conv.kernel_size == kernel_size
    &&& conv.dilation == dilation
    &&& conv.pad_left == conv.pad_right
    &&& 2 * conv.pad_left == dilation * (kernel_size - 1)
}

proof fn same_holds(channels: usize, kernel_size: usize, dilation: usize)
    requires
        odd(kernel_size),
        kernel_size * dilation <= usize::MAX,
    ensures
        holds(same(channels, kernel_size, dilation), channels, kernel_size, dilation),
{
    let half = (kernel_size - 1) / 2;
    assert(dilation * (kernel_size - 1) == 2 * (dilation * half)) by (nonlinear_arith)
        requires
            kernel_size - 1 == 2 * half,
    ;
    assert(0 <= dilation * half <= kernel_size * dilation) by (nonlinear_arith)
        requires
            0 <= half <= kernel_size,
    ;
}

/// A block of the first kind has a dilated convolution for each of its dilations, in their order,
/// and behind each a plain one.
pub proof fn first_kind_follows_its_dilations(
    block: &ResBlock1Config,
    layers: ResBlockLayers,
    i: int,
)
    requires
        reaches_fit(block.kernel_size, block.dilations@),
        call_ensures(
            ResBlock1Config::layers,
            (block,),
            Ok::<ResBlockLayers, HifiganError>(layers),
        ),
        0 <= i < block.dilations.len(),
    ensures
        block.dilations.len() == 3,
        layers.convs1.len() == 3 && layers.convs2.len() == 3 && layers.convs.len() == 0,
        layers.convs1@[i].dilation == block.dilations@[i],
        layers.convs2@[i].dilation == 1,
        layers.convs1@[i].kernel_size == block.kernel_size == layers.convs2@[i].kernel_size,
        layers.convs1@[i].channels_in == block.channels == layers.convs1@[i].channels_out,
        layers.convs2@[i].channels_in == block.channels == layers.convs2@[i].channels_out,
        layers.convs1@[i].pad_left == layers.convs1@[i].pad_right,
        2 * layers.convs1@[i].pad_left == block.dilations@[i] * (block.kernel_size - 1),
        layers.convs2@[i].pad_left == layers.convs2@[i].pad_right,
        2 * layers.convs2@[i].pad_left == block.kernel_size - 1,
{
    same_holds(block.channels, block.kernel_size, block.dilations@[i]);
    same_holds(block.channels, block.kernel_size, 1);
    assert(1 * (block.kernel_size - 1) == block.kernel_size - 1);
}

/// A block of the second kind has a dilated convolution for each of its first two dilations, in
/// their order.
pub proof fn second_kind_follows_its_dilations(
    block: &ResBlock1Config,
    layers: ResBlockLayers,
    i: int,
)
    requires
        reaches_fit(block.kernel_size, block.dilations@),
        call_ensures(
            ResBlock1Config::layers_of_second_kind,
            (block,),
            Ok::<ResBlockLayers, HifiganError>(layers),
        ),
        0 <= i < 2,
    ensures
        block.dilations.len() >= 2,
        layers.convs.len() == 2 && layers.convs1.len() == 0 && layers.convs2.len() == 0,
        layers.convs@[i].dilation == block.dilations@[i],
        layers.convs@[i].kernel_size == block.kernel_size,
        layers.convs@[i].channels_in == block.channels == layers.convs@[i].channels_out,
        layers.convs@[i].pad_left == layers.convs@[i].pad_right,
        2 * layers.convs@[i].pad_left == block.dilations@[i] * (block.kernel_size - 1),
{
    same_holds(block.channels, block.kernel_size, block.dilations@[i]);
}

/// In every residual block of a built generator, the convolutions have the dilations that are
/// configured for the kernel of the block, one by one, over the channels that the stage emits.
pub proof fn dilations_reach_every_block(
    config: &HifiganGeneratorConfig,
    topology: HifiganTopology,
    stage: int,
    kernel: int,
    i: int,
)
    requires
        config@.buildable(),
        call_ensures(
            HifiganGeneratorConfig::topology,
            (config,),
            Ok::<HifiganTopology, HifiganError>(topology),
        ),
        0 <= stage < config.upsample_factors.len(),
        0 <= kernel < config.resblock_kernel_sizes.len(),
    ensures
        topology.stages.len() == config.upsample_factors.len(),
        topology.stages@[stage].blocks.len() == config.resblock_kernel_sizes.len(),
        ({
            let block = topology.stages@[stage].blocks@[kernel];
            let size = config.resblock_kernel_sizes@[kernel];
            let dilations = config.resblock_dilation_sizes@[kernel]@;
            let channels = topology.stages@[stage].up.channels_out;
            &&& config.resblock_type@ == "1"@ ==> {
                &&& block.convs1.len() == 3 && block.convs2.len() == 3 && block.convs.len() == 0
                &&& 0 <= i < 3 ==> {
                    &&& block.convs1@[i].dilation == dilations[i]
                    &&& block.convs1@[i].kernel_size == size
                    &&& block.convs1@[i].channels_in == channels
                    &&& block.convs1@[i].channels_out == channels
                    &&& 2 * block.convs1@[i].pad_left == dilations[i] * (size - 1)
                    &&& block.convs1@[i].pad_right == block.convs1@[i].pad_left
                    &&& block.convs2@[i].dilation == 1
                    &&& block.convs2@[i].kernel_size == size
                    &&& block.convs2@[i].channels_in == channels
                    &&& block.convs2@[i].channels_out == channels
                    &&& 2 * block.convs2@[i].pad_left == size - 1
                    &&& block.convs2@[i].pad_right == block.convs2@[i].pad_left
                }
            }
            &&& config.resblock_type@ != "1"@ ==> {
                &&& config.resblock_type@ == "2"@
                &&& block.convs.len() == 2 && block.convs1.len() == 0 && block.convs2.len() == 0
                &&& 0 <= i < 2 ==> {
                    &&& block.convs@[i].dilation == dilations[i]
                    &&& block.convs@[i].kernel_size == size
                    &&& block.convs@[i].channels_in == channels
                    &&& block.convs@[i].channels_out == channels
                    &&& 2 * block.convs@[i].pad_left == dilations[i] * (size - 1)
                    &&& block.convs@[i].pad_right == block.convs@[i].pad_left
                }
            }
        }),
{
    let model = config@;
    let size = model.resblock_kernel_sizes[kernel];
    let dilations = model.resblock_dilation_sizes[kernel];
    let channels = topology.stages@[stage].up.channels_out;
    assert(model.built_as(topology) && model.fault() is None);
    blocks_are_valid(model, 0, kernel);
    assert(topology.stages@[stage].up == model.stage_upsample(stage));
    assert(model.blocks_built(channels, topology.stages@[stage].blocks@));
    let block = topology.stages@[stage].blocks@[kernel];
    assert(block.of_kind(model.resblock_type, channels, size, dilations));
    assert(dilations == config.resblock_dilation_sizes@[kernel]@);
    assert(reaches_fit(size, dilations));
    if 0 <= i < dilations.len() {
        same_holds(channels, size, dilations[i]);
        same_holds(channels, size, 1);
        assert(1 * (size - 1) == size - 1);
    }
}

/// The stages of a built generator follow its factors: each multiplies lengths by its own, halves
/// the channels, and reads what the one before it emits. The first reads what the features are
/// projected to, and of the last the waveform is made.
pub proof fn stages_follow_their_factors(
    config: &HifiganGeneratorConfig,
    topology: HifiganTopology,
    stage: int,
    length: int,
)
    requires
        config@.buildable(),
        call_ensures(
            HifiganGeneratorConfig::topology,
            (config,),
            Ok::<HifiganTopology, HifiganError>(topology),
        ),
        0 <= stage < config.upsample_factors.len(),
    ensures
        topology.stages.len() == config.upsample_factors.len(),
        ({
            let up = topology.stages@[stage].up;
            &&& up.stride == config.upsample_factors@[stage]
            &&& up.kernel_size == config.upsample_kernel_sizes@[stage]
            &&& up.output_padding == 0
            &&& up.output_length(length) == length * config.upsample_factors@[stage]
            &&& up.channels_out == up.channels_in / 2
            &&& up.channels_in == if stage == 0 {
                topology.conv_pre.channels_out
            } else {
                topology.stages@[stage - 1].up.channels_out
            }
        }),
        topology.conv_pre.channels_in == config.in_channels,
        topology.conv_pre.channels_out == config.upsample_initial_channel,
        topology.conv_pre.kernel_size == 7 && topology.conv_post.kernel_size == 7,
        topology.conv_pre.output_length(length) == length,
        topology.conv_post.output_length(length) == length,
        topology.conv_post.channels_in == topology.stages@.last().up.channels_out,
        topology.conv_post.channels_out == config.out_channels,
        topology.conv_post_bias == config.conv_post_bias,
        topology.cond_layer is Some <==> config.cond_channels > 0,
        topology.cond_layer matches Some(layer) ==> layer.channels_in == config.cond_channels
            && layer.channels_out == config.upsample_initial_channel && layer.kernel_size == 1
            && layer.output_length(length) == length,
        topology.num_kernels == config.resblock_kernel_sizes.len(),
        topology.upsample_factor == product(config.upsample_factors@),
{
    let model = config@;
    assert(model.built_as(topology) && model.fault() is None);
    stage_multiplies(model, stage, length);
    let initial = model.upsample_initial_channel as nat;
    assert(topology.stages@[stage].up == model.stage_upsample(stage));
    let last = topology.stages@.len() - 1;
    assert(topology.stages@[last].up == model.stage_upsample(last));
    crate::upsampling::halving_descends(initial, 0, stage as nat);
    crate::upsampling::halving_descends(initial, 0, (stage + 1) as nat);
    crate::upsampling::halving_descends(initial, 0, (last + 1) as nat);
    assert(model.stage_channels(stage + 1) == model.stage_channels(stage) / 2);
    if stage > 0 {
        assert(topology.stages@[stage - 1].up == model.stage_upsample(stage - 1));
    }
}

/// A residual block is what a generator of its kind takes.
spec fn block_is_sound(kind: Seq<char>, kernel_size: usize, dilations: Seq<usize>) -> bool {
    &&& kernel_size % 2 == 1
    &&& kind == "1"@ ==> dilations.len() == 3 && dilations[0] > 0 && dilations[1] > 0
        && dilations[2] > 0
    &&& kind != "1"@ ==> dilations.len() >= 2 && dilations[0] > 0 && dilations[1] > 0
}

proof fn blocks_are_sound(model: HifiganModel, from: int)
    requires
        0 <= from <= model.resblock_kernel_sizes.len(),
    ensures
        model.blocks_fault(from) is None <==> (forall|k: int|
            from <= k < model.resblock_kernel_sizes.len() ==> block_is_sound(
                model.resblock_type,
                #[trigger] model.resblock_kernel_sizes[k],
                model.resblock_dilation_sizes[k],
            )),
    decreases model.resblock_kernel_sizes.len() - from,
{
    if from < model.resblock_kernel_sizes.len() {
        blocks_are_sound(model, from + 1);
        let size = model.resblock_kernel_sizes[from];
        let dilations = model.resblock_dilation_sizes[from];
        if dilations.len() == 3 {
            if dilations[0] == 0 || dilations[1] == 0 || dilations[2] == 0 {
                assert(dilations.contains(0));
            }
        }
        assert(block_is_sound(model.resblock_type, size, dilations) <==> (if model.resblock_type
            == "1"@ {
            block_fault(1, size, dilations) is None
        } else {
            second_kind(size, dilations)
        }));
        if model.blocks_fault(from) is None {
            assert forall|k: int| from <= k < model.resblock_kernel_sizes.len() implies block_is_sound(
                model.resblock_type,
                #[trigger] model.resblock_kernel_sizes[k],
                model.resblock_dilation_sizes[k],
            ) by {
                if k > from {
                    assert(model.blocks_fault(from + 1) is None);
                }
            }
        }
    }
}

proof fn stages_are_sound(model: HifiganModel, from: int)
    requires
        0 <= from <= model.upsample_factors.len(),
    ensures
        model.stages_fault(from) is None <==> (forall|s: int|
            from <= s < model.upsample_factors.len() ==> 0 < #[trigger] model.upsample_factors[s]
                <= model.upsample_kernel_sizes[s] && (model.upsample_kernel_sizes[s]
                - model.upsample_factors[s]) % 2 == 0 && model.stage_channels(s + 1) > 0),
    decreases model.upsample_factors.len() - from,
{
    if from < model.upsample_factors.len() {
        stages_are_sound(model, from + 1);
        crate::upsampling::halving_descends(
            model.upsample_initial_channel as nat,
            from as nat,
            (from + 1) as nat,
        );
        if model.stages_fault(from) is None {
            assert forall|s: int| from <= s < model.upsample_factors.len() implies 0
                < #[trigger] model.upsample_factors[s] <= model.upsample_kernel_sizes[s] && (
            model.upsample_kernel_sizes[s] - model.upsample_factors[s]) % 2 == 0
                && model.stage_channels(s + 1) > 0 by {
                if s > from {
                    assert(model.stages_fault(from + 1) is None);
                }
            }
        }
    }
}

/// A generator is valid exactly where it has channels to read and to write, residual blocks of one
/// known kind with odd kernels and positive dilations of their own, stages whose kernels exceed
/// their factors evenly, channels enough to be halved by every stage, and weights that are
/// normalized.
pub proof fn generators_are_valid_on_their_merits(
    config: &HifiganGeneratorConfig,
    out: Result<(), HifiganError>,
)
    requires
        call_ensures(HifiganGeneratorConfig::validate, (config,), out),
    ensures
        out is Ok <==> {
            &&& config.in_channels > 0 && config.out_channels > 0
            &&& config.resblock_type@ == "1"@ || config.resblock_type@ == "2"@
            &&& config.resblock_kernel_sizes.len() > 0
            &&& config.resblock_dilation_sizes.len() == config.resblock_kernel_sizes.len()
            &&& forall|k: int|
                0 <= k < config.resblock_kernel_sizes.len() ==> {
                    let dilations = config.resblock_dilation_sizes@[k]@;
                    &&& #[trigger] config.resblock_kernel_sizes@[k] % 2 == 1
                    &&& dilations.len() >= 2 && dilations[0] > 0 && dilations[1] > 0
                    &&& config.resblock_type@ == "1"@ ==> dilations.len() == 3 && dilations[2] > 0
                }
            &&& config.upsample_factors.len() > 0
            &&& config.upsample_kernel_sizes.len() == config.upsample_factors.len()
            &&& forall|s: int|
                0 <= s < config.upsample_factors.len() ==> 0
                    < #[trigger] config.upsample_factors@[s] <= config.upsample_kernel_sizes@[s] && (
                config.upsample_kernel_sizes@[s] - config.upsample_factors@[s]) % 2 == 0
            &&& config.upsample_initial_channel >= pow2(config.upsample_factors.len() as nat)
            &&& config.conv_pre_weight_norm && config.conv_post_weight_norm
        },
{
    let model = config@;
    let initial = model.upsample_initial_channel as nat;
    let stages = model.upsample_factors.len();
    blocks_are_sound(model, 0);
    stages_are_sound(model, 0);
    crate::upsampling::halving_divides_by_twos(initial, stages);
    vstd::arithmetic::power2::lemma_pow2_pos(stages);
    if initial < pow2(stages) {
        vstd::arithmetic::div_mod::lemma_basic_div(initial as int, pow2(stages) as int);
    } else {
        vstd::arithmetic::div_mod::lemma_div_is_ordered(
            pow2(stages) as int,
            initial as int,
            pow2(stages) as int,
        );
        vstd::arithmetic::div_mod::lemma_div_by_self(pow2(stages) as int);
    }
    assert((halved(initial, stages) > 0) <==> initial >= pow2(stages));
    if stages > 0 && halved(initial, stages) > 0 {
        assert forall|s: int| 0 <= s < stages implies #[trigger] model.stage_channels(s + 1) > 0 by {
            crate::upsampling::halving_descends(initial, (s + 1) as nat, stages);
        }
    }
    if stages > 0 && initial < pow2(stages) {
        assert(model.stage_channels(stages - 1 + 1) == 0);
        assert(model.upsample_factors[stages - 1] == config.upsample_factors@[stages - 1]);
    }
    if model.resblock_dilation_sizes.len() == model.resblock_kernel_sizes.len() {
        assert forall|k: int| 0 <= k < model.resblock_kernel_sizes.len() implies
            #[trigger] model.resblock_dilation_sizes[k] == config.resblock_dilation_sizes@[k]@ by {}
        assert(forall|k: int|
            0 <= k < model.resblock_kernel_sizes.len() ==> model.resblock_dilation_sizes[k]
                == config.resblock_dilation_sizes@[k]@ && #[trigger] model.resblock_kernel_sizes[k]
                == config.resblock_kernel_sizes@[k]);
    }
}

/// Features are decoded exactly where they have the channels of the generator and a frame at least,
/// and come with conditioning, frame by frame, exactly where the generator is conditioned.
pub proof fn features_are_accepted_on_their_merits(
    config: &HifiganGeneratorConfig,
    input: &[usize; 3],
    conditioning: &Option<[usize; 3]>,
    out: Result<(), HifiganError>,
)
    requires
        call_ensures(HifiganGeneratorConfig::check_forward, (config, input, conditioning), out),
    ensures
        out is Ok <==> {
            &&& input@[1] == config.in_channels
            &&& input@[2] > 0
            &&& conditioning is Some <==> config.cond_channels > 0
            &&& conditioning matches Some(shape) ==> shape@[0] == input@[0] && shape@[1]
                == config.cond_channels && shape@[2] == input@[2]
        },
{
    if let Some(shape) = conditioning {
        assert((shape@ =~= seq![input@[0], config.cond_channels, input@[2]]) <==> shape@[0]
            == input@[0] && shape@[1] == config.cond_channels && shape@[2] == input@[2]);
    }
}

/// Padding for inference changes no decision: features are accepted padded where they are accepted
/// plain, and their waveform is that of as many more frames.
pub proof fn padding_changes_only_length(
    config: &HifiganGeneratorConfig,
    input: &[usize; 3],
    conditioning: &Option<[usize; 3]>,
    plain: Result<[usize; 3], HifiganError>,
    padded_out: Result<[usize; 3], HifiganError>,
)
    requires
        input@[2] + 2 * config.inference_padding <= usize::MAX,
        (input@[2] + 2 * config.inference_padding) * product(config.upsample_factors@)
            <= usize::MAX,
        conditioning matches Some(shape) ==> shape@[2] + 2 * config.inference_padding <= usize::MAX,
        call_ensures(HifiganGeneratorConfig::forward_shape, (config, input, conditioning), plain),
        call_ensures(
            HifiganGeneratorConfig::inference_shape,
            (config, input, conditioning),
            padded_out,
        ),
    ensures
        plain is Ok <==> padded_out is Ok,
        plain matches Ok(shape) ==> shape@[0] == input@[0] && shape@[1] == config.out_channels
            && shape@[2] == input@[2] * product(config.upsample_factors@),
        padded_out matches Ok(shape) ==> shape@[0] == input@[0] && shape@[1] == config.out_channels
            && shape@[2] == (input@[2] + 2 * config.inference_padding) * product(
            config.upsample_factors@,
        ),
{
    let factor = product(config.upsample_factors@) as int;
    let frames = input@[2] as int;
    let wide = frames + 2 * config.inference_padding;
    assert(0 <= frames * factor <= wide * factor) by (nonlinear_arith)
        requires
            0 <= frames <= wide,
            0 <= factor,
    ;
    let model = config@;
    let wide_input = padded(input@, config.inference_padding);
    assert(wide_input[0] == input@[0] && wide_input[1] == input@[1] && wide_input[2] == wide);
    if let Some(shape) = conditioning {
        let wide_shape = padded(shape@, config.inference_padding);
        assert((shape@ =~= seq![input@[0], config.cond_channels, input@[2]]) <==> shape@[0]
            == input@[0] && shape@[1] == config.cond_channels && shape@[2] == input@[2]);
        assert((wide_shape =~= seq![wide_input[0], config.cond_channels, wide_input[2]])
            <==> shape@[0] == input@[0] && shape@[1] == config.cond_channels && shape@[2]
            == input@[2]);
    }
}

/// A waveform has as many samples as the frames times the factors, where they can be counted.
pub proof fn samples_are_counted_exactly(
    config: &HifiganGeneratorConfig,
    frames: usize,
    factor: usize,
    plain: Option<usize>,
    padded_out: Option<usize>,
)
    requires
        call_ensures(HifiganGeneratorConfig::upsample_factor, (config,), factor),
        call_ensures(HifiganGeneratorConfig::output_frames, (config, frames), plain),
        call_ensures(HifiganGeneratorConfig::inference_output_frames, (config, frames), padded_out),
    ensures
        factor == product(config.upsample_factors@),
        plain is Some <==> frames * factor <= usize::MAX,
        plain matches Some(samples) ==> samples == frames * factor,
        padded_out is Some <==> frames + 2 * config.inference_padding <= usize::MAX && (frames + 2
            * config.inference_padding) * factor <= usize::MAX,
        padded_out matches Some(samples) ==> samples == (frames + 2 * config.inference_padding)
            * factor,
{
    assert(0 <= frames * factor) by (nonlinear_arith);
    assert(0 <= (frames + 2 * config.inference_padding) * factor) by (nonlinear_arith);
}

proof fn sizes_are_read_in_order(items: Seq<Json>, label: Seq<char>)
    requires
        sizes_named(items, label) is Ok,
    ensures
        sizes_named(items, label)->Ok_0.len() == items.len(),
        forall|i: int|
            0 <= i < items.len() ==> (#[trigger] items[i]).unsigned_value() == Some(
                sizes_named(items, label)->Ok_0[i] as u64,
            ),
    decreases items.len(),
{
    if items.len() > 0 {
        let front = items.drop_last();
        sizes_are_read_in_order(front, label);
        assert forall|i: int| 0 <= i < items.len() implies (#[trigger] items[i]).unsigned_value()
            == Some(sizes_named(items, label)->Ok_0[i] as u64) by {
            if i < front.len() {
                assert(front[i] == items[i]);
            }
        }
    }
}

proof fn lists_are_read_in_order(items: Seq<Json>, label: Seq<char>)
    requires
        lists_named(items, label) is Ok,
    ensures
        lists_named(items, label)->Ok_0.len() == items.len(),
        forall|i: int|
            0 <= i < items.len() ==> listed(
                Some(#[trigger] items[i]),
                lists_named(items, label)->Ok_0[i],
            ),
    decreases items.len(),
{
    if items.len() > 0 {
        let front = items.drop_last();
        lists_are_read_in_order(front, label);
        assert forall|i: int| 0 <= i < items.len() implies listed(
            Some(#[trigger] items[i]),
            lists_named(items, label)->Ok_0[i],
        ) by {
            if i < front.len() {
                assert(front[i] == items[i]);
            } else {
                let inner = item_label(label, items.len() - 1);
                if let Json::List(sizes) = items[i] {
                    sizes_are_read_in_order(sizes@, inner);
                    assert forall|k: int| 0 <= k < sizes.len() implies ((
                    #[trigger] sizes@[k]) matches Json::Number(number) && number.unsigned == Some(
                        lists_named(items, label)->Ok_0[i][k] as u64,
                    )) by {
                        assert(sizes@[k].unsigned_value() is Some);
                    }
                }
            }
        }
    }
}

/// A document gives a size.
pub open spec fn given(field: Option<Json>, size: usize) -> bool {
    field matches Some(Json::Number(number)) && number.unsigned == Some(size as u64)
}

/// A document gives sizes, one by one.
pub open spec fn listed(field: Option<Json>, sizes: Seq<usize>) -> bool {
    field matches Some(Json::List(items)) && items.len() == sizes.len() && forall|i: int|
        0 <= i < sizes.len() ==> ((#[trigger] items@[i]) matches Json::Number(number)
            && number.unsigned == Some(sizes[i] as u64))
}

proof fn required_sizes_are_listed(object: Json, key: Seq<char>)
    requires
        required_sizes(object, key) is Ok,
    ensures
        listed(object.field(key), required_sizes(object, key)->Ok_0),
{
    if let Some(Json::List(items)) = object.field(key) {
        sizes_are_read_in_order(items@, key);
        assert forall|k: int| 0 <= k < items.len() implies ((
        #[trigger] items@[k]) matches Json::Number(number) && number.unsigned == Some(
            required_sizes(object, key)->Ok_0[k] as u64,
        )) by {
            assert(items@[k].unsigned_value() is Some);
        }
    }
}

/// What is read of a document is what it says, field by field and item by item. What a document may
/// leave out has its usual value: five frames of padding, no conditioning, normalized weights and a
/// bias.
pub proof fn generators_are_read_from_documents(value: &Json, config: HifiganGeneratorConfig)
    requires
        call_ensures(
            HifiganGeneratorConfig::from_json_value,
            (value,),
            Ok::<HifiganGeneratorConfig, HifiganError>(config),
        ),
    ensures
        given(value.field("in_channels"@), config.in_channels),
        given(value.field("out_channels"@), config.out_channels),
        given(value.field("upsample_initial_channel"@), config.upsample_initial_channel),
        value.field("resblock_type"@) matches Some(Json::Text(kind)) && kind@
            == config.resblock_type@,
        listed(value.field("resblock_kernel_sizes"@), config.resblock_kernel_sizes@),
        listed(value.field("upsample_kernel_sizes"@), config.upsample_kernel_sizes@),
        listed(value.field("upsample_factors"@), config.upsample_factors@),
        value.field("resblock_dilation_sizes"@) matches Some(Json::List(items)) && items.len()
            == config.resblock_dilation_sizes.len() && forall|k: int|
            0 <= k < items.len() ==> listed(
                Some(#[trigger] items@[k]),
                config.resblock_dilation_sizes@[k]@,
            ),
        value.field("inference_padding"@) is None ==> config.inference_padding == 5,
        value.field("inference_padding"@) is Some ==> given(
            value.field("inference_padding"@),
            config.inference_padding,
        ),
        value.field("cond_channels"@) is None ==> config.cond_channels == 0,
        value.field("cond_channels"@) is Some ==> given(
            value.field("cond_channels"@),
            config.cond_channels,
        ),
        value.field("conv_pre_weight_norm"@) == Some(Json::Bool(config.conv_pre_weight_norm)) || (
        value.field("conv_pre_weight_norm"@) is None && config.conv_pre_weight_norm),
        value.field("conv_post_weight_norm"@) == Some(Json::Bool(config.conv_post_weight_norm)) || (
        value.field("conv_post_weight_norm"@) is None && config.conv_post_weight_norm),
        value.field("conv_post_bias"@) == Some(Json::Bool(config.conv_post_bias)) || (value.field(
            "conv_post_bias"@,
        ) is None && config.conv_post_bias),
{
    let object = *value;
    assert(config@ == generator_of(object));
    required_sizes_are_listed(object, "resblock_kernel_sizes"@);
    required_sizes_are_listed(object, "upsample_kernel_sizes"@);
    required_sizes_are_listed(object, "upsample_factors"@);
    if let Some(Json::List(items)) = object.field("resblock_dilation_sizes"@) {
        lists_are_read_in_order(items@, "resblock_dilation_sizes"@);
        let lists = lists_named(items@, "resblock_dilation_sizes"@)->Ok_0;
        assert(lists == nested(config.resblock_dilation_sizes@));
        assert forall|k: int| 0 <= k < items.len() implies listed(
            Some(#[trigger] items@[k]),
            config.resblock_dilation_sizes@[k]@,
        ) by {
            assert(lists[k] == config.resblock_dilation_sizes@[k]@);
        }
    }
}

proof fn sizes_listed_are_read(items: Seq<Json>, label: Seq<char>, sizes: Seq<usize>)
    requires
        items.len() == sizes.len(),
        forall|i: int|
            0 <= i < sizes.len() ==> ((#[trigger] items[i]) matches Json::Number(number)
                && number.unsigned == Some(sizes[i] as u64)),
    ensures
        sizes_named(items, label) == Ok::<Seq<usize>, Seq<char>>(sizes),
    decreases items.len(),
{
    if items.len() > 0 {
        let front = items.drop_last();
        let fewer = sizes.drop_last();
        assert forall|i: int| 0 <= i < fewer.len() implies ((
        #[trigger] front[i]) matches Json::Number(number) && number.unsigned == Some(
            fewer[i] as u64,
        )) by {
            assert(items[i] == front[i]);
        }
        sizes_listed_are_read(front, label, fewer);
        assert(items[items.len() - 1] == items.last());
        assert(fewer.push(sizes.last()) =~= sizes);
    } else {
        assert(sizes =~= Seq::<usize>::empty());
    }
}

proof fn lists_listed_are_read(items: Seq<Json>, label: Seq<char>, lists: Seq<Seq<usize>>)
    requires
        items.len() == lists.len(),
        forall|k: int| 0 <= k < items.len() ==> listed(Some(#[trigger] items[k]), lists[k]),
    ensures
        lists_named(items, label) == Ok::<Seq<Seq<usize>>, Seq<char>>(lists),
    decreases items.len(),
{
    if items.len() > 0 {
        let front = items.drop_last();
        let fewer = lists.drop_last();
        assert forall|k: int| 0 <= k < front.len() implies listed(
            Some(#[trigger] front[k]),
            fewer[k],
        ) by {
            assert(items[k] == front[k]);
        }
        lists_listed_are_read(front, label, fewer);
        let last = items[items.len() - 1];
        assert(listed(Some(last), lists[items.len() - 1]));
        if let Json::List(found) = last {
            sizes_listed_are_read(
                found@,
                item_label(label, items.len() - 1),
                lists[items.len() - 1],
            );
        }
        assert(fewer.push(lists.last()) =~= lists);
    } else {
        assert(lists =~= Seq::<Seq<usize>>::empty());
    }
}

/// A document gives a flag, or leaves it out where it is set.
pub open spec fn set_unless_given(field: Option<Json>, flag: bool) -> bool {
    field == Some(Json::Bool(flag)) || (field is None && flag)
}

/// A document gives all parameters of a generator, but for those that it may leave out.
pub open spec fn gives_generator(value: Json, model: HifiganModel) -> bool {
    &&& value is Object
    &&& given(value.field("in_channels"@), model.in_channels)
    &&& given(value.field("out_channels"@), model.out_channels)
    &&& given(value.field("upsample_initial_channel"@), model.upsample_initial_channel)
    &&& value.field("resblock_type"@) matches Some(Json::Text(kind)) && kind@
        == model.resblock_type
    &&& listed(value.field("resblock_kernel_sizes"@), model.resblock_kernel_sizes)
    &&& listed(value.field("upsample_kernel_sizes"@), model.upsample_kernel_sizes)
    &&& listed(value.field("upsample_factors"@), model.upsample_factors)
    &&& value.field("resblock_dilation_sizes"@) matches Some(Json::List(items)) && items.len()
        == model.resblock_dilation_sizes.len() && forall|k: int|
        0 <= k < items.len() ==> listed(
            Some(#[trigger] items@[k]),
            model.resblock_dilation_sizes[k],
        )
    &&& if value.field("inference_padding"@) is None {
        model.inference_padding == 5
    } else {
        given(value.field("inference_padding"@), model.inference_padding)
    }
    &&& if value.field("cond_channels"@) is None {
        model.cond_channels == 0
    } else {
        given(value.field("cond_channels"@), model.cond_channels)
    }
    &&& set_unless_given(value.field("conv_pre_weight_norm"@), model.conv_pre_weight_norm)
    &&& set_unless_given(value.field("conv_post_weight_norm"@), model.conv_post_weight_norm)
    &&& set_unless_given(value.field("conv_post_bias"@), model.conv_post_bias)
}

/// A document that gives all parameters of a valid generator is read as that generator, and what
/// is read is valid.
pub proof fn valid_generator_documents_are_read(
    value: &Json,
    expected: &HifiganGeneratorConfig,
    valid: Result<(), HifiganError>,
    out: Result<HifiganGeneratorConfig, HifiganError>,
)
    requires
        call_ensures(HifiganGeneratorConfig::from_json_value, (value,), out),
        call_ensures(HifiganGeneratorConfig::validate, (expected,), valid),
    ensures
        valid is Ok && gives_generator(*value, expected@) ==> (out matches Ok(config) && config@
            == expected@),
        out matches Ok(config) ==> (config@ == expected@ ==> valid is Ok),
        out matches Err(error) ==> error is InvalidConfig,
{
    if valid is Ok && gives_generator(*value, expected@) {
        let object = *value;
        let model = expected@;
        if let Some(Json::List(items)) = object.field("resblock_kernel_sizes"@) {
            sizes_listed_are_read(
                items@,
                "resblock_kernel_sizes"@,
                model.resblock_kernel_sizes,
            );
        }
        if let Some(Json::List(items)) = object.field("upsample_kernel_sizes"@) {
            sizes_listed_are_read(
                items@,
                "upsample_kernel_sizes"@,
                model.upsample_kernel_sizes,
            );
        }
        if let Some(Json::List(items)) = object.field("upsample_factors"@) {
            sizes_listed_are_read(items@, "upsample_factors"@, model.upsample_factors);
        }
        if let Some(Json::List(items)) = object.field("resblock_dilation_sizes"@) {
            lists_listed_are_read(
                items@,
                "resblock_dilation_sizes"@,
                model.resblock_dilation_sizes,
            );
        }
        assert(generator_of(object) =~= model);
        assert(generator_fault(object) is None);
    }
}

/// An error says of what kind it is, and then its reason.
pub proof fn hifigan_errors_say_their_kind(error: &HifiganError, out: String)
    requires
        call_ensures(HifiganError::describe, (error,), out),
    ensures
        error matches HifiganError::InvalidConfig(message) ==> out@ == "invalid HiFi-GAN config: "@ + message@,
        error matches HifiganError::InvalidInput(message) ==> out@ == "invalid HiFi-GAN input: "@ + message@,
{
}

/// A block of the first kind is valid exactly where it has channels, an odd kernel, and three
/// positive dilations.
pub proof fn first_blocks_are_valid_on_their_merits(
    block: &ResBlock1Config,
    out: Result<(), HifiganError>,
)
    requires
        call_ensures(ResBlock1Config::validate, (block,), out),
    ensures
        out is Ok <==> block.channels > 0 && block.kernel_size % 2 == 1 && block.dilations@.len()
            == 3 && block.dilations@[0] > 0 && block.dilations@[1] > 0 && block.dilations@[2] > 0,
        out matches Err(error) ==> error is InvalidConfig,
{
    let dilations = block.dilations@;
    if dilations.len() == 3 {
        if dilations.contains(0) {
            let i = choose|i: int| 0 <= i < dilations.len() && dilations[i] == 0;
            assert(i == 0 || i == 1 || i == 2);
        } else {
            assert(dilations.contains(dilations[0]) && dilations.contains(dilations[1])
                && dilations.contains(dilations[2]));
        }
    }
}

/// Features are decoded for inference exactly where they would be decoded as they are.
pub proof fn padding_changes_no_decision(
    config: &HifiganGeneratorConfig,
    input: &[usize; 3],
    conditioning: &Option<[usize; 3]>,
    plain: Result<(), HifiganError>,
    out: Result<(), HifiganError>,
)
    requires
        input@[2] + 2 * config.inference_padding <= usize::MAX,
        conditioning matches Some(shape) ==> shape@[2] + 2 * config.inference_padding
            <= usize::MAX,
        call_ensures(HifiganGeneratorConfig::check_forward, (config, input, conditioning), plain),
        call_ensures(HifiganGeneratorConfig::check_inference, (config, input, conditioning), out),
    ensures
        out is Ok <==> plain is Ok,
        out matches Err(error) ==> error is InvalidInput,
{
    let wide_input = padded(input@, config.inference_padding);
    assert(wide_input[0] == input@[0] && wide_input[1] == input@[1] && wide_input[2] == input@[2]
        + 2 * config.inference_padding);
    if let Some(shape) = conditioning {
        let wide_shape = padded(shape@, config.inference_padding);
        assert((shape@ =~= seq![input@[0], config.cond_channels, input@[2]]) <==> shape@[0]
            == input@[0] && shape@[1] == config.cond_channels && shape@[2] == input@[2]);
        assert((wide_shape =~= seq![wide_input[0], config.cond_channels, wide_input[2]])
            <==> shape@[0] == input@[0] && shape@[1] == config.cond_channels && shape@[2]
            == input@[2]);
    }
}

} // verus!
