//! Shapes of the layers that the networks are built from.
//!
//! A topology is a list of these shapes; turning a shape into a layer with
//! parameters is left to the tensor backend.

use vstd::prelude::*;

verus! {

/// `value` is a multiple of `of`; zero is the only multiple of zero.
pub open spec fn multiple_of(value: int, of: int) -> bool {
    if of == 0 {
        value == 0
    } else {
        value % of == 0
    }
}

pub fn is_multiple_of(value: usize, of: usize) -> (out: bool)
    ensures
        out == multiple_of(value as int, of as int),
{
    if of == 0 {
        value == 0
    } else {
        value % of == 0
    }
}

/// Positive and odd.
pub open spec fn odd(kernel_size: usize) -> bool {
    kernel_size % 2 == 1
}

pub fn is_odd(kernel_size: usize) -> (out: bool)
    ensures
        out == odd(kernel_size),
{
    kernel_size % 2 == 1
}

/// How much shorter a valid convolution makes a sequence.
pub open spec fn span(kernel_size: int, dilation: int) -> int {
    dilation * (kernel_size - 1)
}

/// A one-dimensional convolution with stride one.
#[derive(Debug, Clone, Copy, PartialEq, Eq, Structural)]
pub struct Conv {
    pub channels_in: usize,
    pub channels_out: usize,
    pub kernel_size: usize,
    pub dilation: usize,
    pub pad_left: usize,
    pub pad_right: usize,
}

impl Conv {
    /// The length of the output for an input of the given length.
    pub open spec fn output_length(self, length: int) -> int {
        length + self.pad_left + self.pad_right - span(self.kernel_size as int, self.dilation as int)
    }
}

/// A convolution over single frames.
pub open spec fn pointwise(channels_in: usize, channels_out: usize) -> Conv {
    Conv { channels_in, channels_out, kernel_size: 1, dilation: 1, pad_left: 0, pad_right: 0 }
}

/// A convolution padded by half of its kernel on both sides.
pub open spec fn centered(channels_in: usize, channels_out: usize, kernel_size: usize) -> Conv {
    Conv {
        channels_in,
        channels_out,
        kernel_size,
        dilation: 1,
        pad_left: (kernel_size / 2) as usize,
        pad_right: (kernel_size / 2) as usize,
    }
}

/// A dilated convolution whose padding makes up for its span, the odd frame on the right.
pub open spec fn balanced(
    channels_in: usize,
    channels_out: usize,
    kernel_size: usize,
    dilation: usize,
) -> Conv {
    Conv {
        channels_in,
        channels_out,
        kernel_size,
        dilation,
        pad_left: (span(kernel_size as int, dilation as int) / 2) as usize,
        pad_right: (span(kernel_size as int, dilation as int) - span(
            kernel_size as int,
            dilation as int,
        ) / 2) as usize,
    }
}

pub fn pointwise_conv(channels_in: usize, channels_out: usize) -> (out: Conv)
    ensures
        out == pointwise(channels_in, channels_out),
{
    Conv { channels_in, channels_out, kernel_size: 1, dilation: 1, pad_left: 0, pad_right: 0 }
}

pub fn centered_conv(channels_in: usize, channels_out: usize, kernel_size: usize) -> (out: Conv)
    ensures
        out == centered(channels_in, channels_out, kernel_size),
{
    Conv {
        channels_in,
        channels_out,
        kernel_size,
        dilation: 1,
        pad_left: kernel_size / 2,
        pad_right: kernel_size / 2,
    }
}

pub fn balanced_conv(
    channels_in: usize,
    channels_out: usize,
    kernel_size: usize,
    dilation: usize,
) -> (out: Conv)
    requires
        kernel_size >= 1,
        span(kernel_size as int, dilation as int) <= usize::MAX,
    ensures
        out == balanced(channels_in, channels_out, kernel_size, dilation),
{
    assert(0 <= dilation * (kernel_size - 1)) by (nonlinear_arith)
        requires
            kernel_size >= 1,
    ;
    let total_padding: usize = dilation * (kernel_size - 1);
    let pad_left: usize = total_padding / 2;
    let pad_right: usize = total_padding - pad_left;
    Conv { channels_in, channels_out, kernel_size, dilation, pad_left, pad_right }
}

/// A single-frame convolution, one of odd kernel padded by half, and any balanced one keep
/// the length of a sequence.
pub proof fn padding_keeps_length(
    channels_in: usize,
    channels_out: usize,
    kernel_size: usize,
    dilation: usize,
    length: int,
)
    requires
        kernel_size >= 1,
        span(kernel_size as int, dilation as int) <= usize::MAX,
    ensures
        pointwise(channels_in, channels_out).output_length(length) == length,
        odd(kernel_size) ==> centered(channels_in, channels_out, kernel_size).output_length(length)
            == length,
        balanced(channels_in, channels_out, kernel_size, dilation).output_length(length) == length,
{
    assert(0 <= dilation * (kernel_size - 1)) by (nonlinear_arith)
        requires
            kernel_size >= 1,
    ;
}

/// The rows and columns of a learned table.
#[derive(Debug, Clone, Copy, PartialEq, Eq, Structural)]
pub struct EmbeddingTable {
    pub rows: usize,
    pub channels: usize,
}

/// A layer that maps every position by itself.
#[derive(Debug, Clone, Copy, PartialEq, Eq, Structural)]
pub struct LinearLayer {
    pub channels_in: usize,
    pub channels_out: usize,
    pub bias: bool,
}

/// Multiples and odd numbers are told by their remainders; of zero only zero is a multiple.
pub proof fn remainders_decide(value: usize, of: usize, multiple: bool, uneven: bool)
    requires
        call_ensures(is_multiple_of, (value, of), multiple),
        call_ensures(is_odd, (value,), uneven),
    ensures
        multiple <==> exists|times: int| value == #[trigger] (times * of),
        uneven <==> !(exists|half: int| value == #[trigger] (2 * half)),
{
    if of > 0 {
        vstd::arithmetic::div_mod::lemma_fundamental_div_mod(value as int, of as int);
        if multiple {
            assert((value / of) * of == of * (value / of)) by (nonlinear_arith);
            assert(value == (value / of) * of);
        }
        if exists|times: int| value == #[trigger] (times * of) {
            let times = choose|times: int| value == #[trigger] (times * of);
            vstd::arithmetic::div_mod::lemma_mod_multiples_basic(times, of as int);
        }
    } else {
        if multiple {
            assert(value == 0 * of);
        }
        assert forall|times: int| #[trigger] (times * of) == 0 by {
            assert(times * of == 0) by (nonlinear_arith)
                requires
                    of == 0,
            ;
        }
    }
    if !uneven {
        assert(value == 2 * (value / 2) as int);
    }
}

/// Convolutions have the channels and the kernel that they are asked for. One over single frames
/// reads one frame; one padded by half of its kernel has the same frames on both sides; a balanced
/// one makes up for all that its kernel reaches over, with at most one frame more on the right.
pub proof fn convolutions_are_padded(
    channels_in: usize,
    channels_out: usize,
    kernel_size: usize,
    dilation: usize,
    single: Conv,
    half: Conv,
    even: Conv,
)
    requires
        kernel_size >= 1,
        dilation * (kernel_size - 1) <= usize::MAX,
        call_ensures(pointwise_conv, (channels_in, channels_out), single),
        call_ensures(centered_conv, (channels_in, channels_out, kernel_size), half),
        call_ensures(balanced_conv, (channels_in, channels_out, kernel_size, dilation), even),
    ensures
        single.channels_in == channels_in && single.channels_out == channels_out,
        half.channels_in == channels_in && half.channels_out == channels_out,
        even.channels_in == channels_in && even.channels_out == channels_out,
        single.kernel_size == 1 && half.kernel_size == kernel_size && even.kernel_size
            == kernel_size,
        single.dilation == 1 && half.dilation == 1 && even.dilation == dilation,
        single.pad_left == 0 && single.pad_right == 0,
        half.pad_left == half.pad_right,
        kernel_size % 2 == 1 ==> half.pad_left + half.pad_right == kernel_size - 1,
        kernel_size % 2 == 0 ==> half.pad_left + half.pad_right == kernel_size,
        even.pad_left + even.pad_right == dilation * (kernel_size - 1),
        even.pad_left <= even.pad_right <= even.pad_left + 1,
{
    assert(0 <= dilation * (kernel_size - 1)) by (nonlinear_arith)
        requires
            kernel_size >= 1,
    ;
}

} // verus!
