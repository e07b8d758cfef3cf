//! Upsampling stages of waveform generators.

use vstd::arithmetic::power2::pow2;
use vstd::prelude::*;

verus! {

/// The product of the factors.
pub open spec fn product(factors: Seq<usize>) -> nat
    decreases factors.len(),
{
    if factors.len() == 0 {
        1
    } else {
        product(factors.drop_last()) * factors.last() as nat
    }
}

/// No product of leading factors is too large for a `usize`.
pub open spec fn products_fit(factors: Seq<usize>) -> bool {
    forall|k: int| 0 <= k <= factors.len() ==> product(#[trigger] factors.take(k)) <= usize::MAX
}

/// A count, halved a number of times and rounded down each time.
pub open spec fn halved(count: nat, times: nat) -> nat
    decreases times,
{
    if times == 0 {
        count
    } else {
        halved(count, (times - 1) as nat) / 2
    }
}

/// Halving more often gives no more.
pub proof fn halving_descends(count: nat, fewer: nat, more: nat)
    requires
        fewer <= more,
    ensures
        halved(count, more) <= halved(count, fewer) <= count,
    decreases more,
{
    if fewer < more {
        halving_descends(count, fewer, (more - 1) as nat);
    } else if more > 0 {
        halving_descends(count, (fewer - 1) as nat, (more - 1) as nat);
    }
}

/// A count times a factor, where it fits.
pub open spec fn scaled(frames: int, factor: int) -> Option<usize> {
    if frames * factor <= usize::MAX {
        Some((frames * factor) as usize)
    } else {
        None
    }
}

/// A count with padding on both sides, times a factor, where it fits.
pub open spec fn scaled_padded(frames: int, padding: int, factor: int) -> Option<usize> {
    if frames + 2 * padding <= usize::MAX {
        scaled(frames + 2 * padding, factor)
    } else {
        None
    }
}

/// The product of the factors.
pub fn total_factor(factors: &[usize]) -> (out: usize)
    requires
        products_fit(factors@),
    ensures
        out == product(factors@),
{
    let mut out: usize = 1;
    let mut i: usize = 0;
    while i < factors.len()
        invariant
            i <= factors.len(),
            products_fit(factors@),
            out == product(factors@.take(i as int)),
        decreases factors.len() - i,
    {
        proof {
            assert(factors@.take(i + 1).drop_last() =~= factors@.take(i as int));
            assert(product(factors@.take(i + 1)) <= usize::MAX);
        }
        out = out * factors[i];
        i = i + 1;
    }
    assert(factors@.take(factors.len() as int) =~= factors@);
    out
}

/// A count times a factor, where it fits.
pub fn checked_scaled(frames: usize, factor: usize) -> (out: Option<usize>)
    ensures
        out == scaled(frames as int, factor as int),
{
    frames.checked_mul(factor)
}

/// A count with padding on both sides, times a factor, where it fits.
pub fn checked_scaled_padded(frames: usize, padding: usize, factor: usize) -> (out: Option<usize>)
    ensures
        out == scaled_padded(frames as int, padding as int, factor as int),
{
    match padding.checked_mul(2) {
        Some(both) => match frames.checked_add(both) {
            Some(padded) => padded.checked_mul(factor),
            None => None,
        },
        None => None,
    }
}

/// A transposed convolution without dilation.
#[derive(Debug, Clone, Copy, PartialEq, Eq, Structural)]
pub struct Upsample {
    pub channels_in: usize,
    pub channels_out: usize,
    pub kernel_size: usize,
    pub stride: usize,
    pub padding: usize,
    pub output_padding: usize,
}

impl Upsample {
    /// The length of the output for an input of the given length.
    pub open spec fn output_length(self, length: int) -> int {
        (length - 1) * self.stride - 2 * self.padding + self.kernel_size + self.output_padding
    }
}

/// A row of stages, each of which multiplies the length by its factor, multiplies the length by
/// the product of the factors.
pub proof fn stages_multiply(stages: Seq<Upsample>, factors: Seq<usize>, length: int)
    requires
        stages.len() == factors.len(),
        forall|i: int, l: int|
            0 <= i < stages.len() ==> #[trigger] stages[i].output_length(l) == l * factors[i],
    ensures
        length_after(stages, length) == length * product(factors),
    decreases stages.len(),
{
    if stages.len() == 0 {
        assert(length * 1 == length);
    } else {
        let front = stages.drop_last();
        let fewer = factors.drop_last();
        assert forall|i: int, l: int| 0 <= i < front.len() implies #[trigger] front[i].output_length(l)
            == l * fewer[i] by {
            assert(stages[i].output_length(l) == l * factors[i]);
        }
        stages_multiply(front, fewer, length);
        let before = length_after(front, length);
        assert(stages[stages.len() - 1].output_length(before) == before * factors[factors.len()
            - 1]);
        vstd::arithmetic::mul::lemma_mul_is_associative(
            length,
            product(fewer) as int,
            factors.last() as int,
        );
    }
}

/// The length after all stages.
pub open spec fn length_after(stages: Seq<Upsample>, length: int) -> int
    decreases stages.len(),
{
    if stages.len() == 0 {
        length
    } else {
        stages.last().output_length(length_after(stages.drop_last(), length))
    }
}

/// Halving a number of times is dividing by as many twos.
pub proof fn halving_divides_by_twos(count: nat, times: nat)
    ensures
        halved(count, times) == count / pow2(times),
    decreases times,
{
    if times == 0 {
        vstd::arithmetic::power2::lemma2_to64();
    } else {
        let fewer = (times - 1) as nat;
        halving_divides_by_twos(count, fewer);
        vstd::arithmetic::power2::lemma_pow2_pos(fewer);
        vstd::arithmetic::power2::lemma_pow2_unfold(times);
        vstd::arithmetic::div_mod::lemma_div_denominator(count as int, pow2(fewer) as int, 2);
        assert(pow2(fewer) * 2 == pow2(times)) by (nonlinear_arith)
            requires
                pow2(times) == 2 * pow2(fewer),
        ;
    }
}

/// Of no factors comes one, and a factor more multiplies what came of the others.
pub proof fn factors_multiply(
    factors: &[usize],
    more: &[usize],
    factor: usize,
    before: usize,
    after: usize,
)
    requires
        more@ == factors@.push(factor),
        call_ensures(total_factor, (factors,), before),
        call_ensures(total_factor, (more,), after),
    ensures
        factors@.len() == 0 ==> before == 1,
        after == before * factor,
{
    assert(more@.drop_last() =~= factors@);
}

/// Counts are multiplied exactly, and given up exactly where they no longer fit.
pub proof fn counts_are_exact_or_absent(
    frames: usize,
    padding: usize,
    factor: usize,
    plain: Option<usize>,
    padded: Option<usize>,
)
    requires
        call_ensures(checked_scaled, (frames, factor), plain),
        call_ensures(checked_scaled_padded, (frames, padding, factor), padded),
    ensures
        plain is Some <==> frames * factor <= usize::MAX,
        plain matches Some(count) ==> count == frames * factor,
        padded is Some <==> frames + 2 * padding <= usize::MAX && (frames + 2 * padding) * factor
            <= usize::MAX,
        padded matches Some(count) ==> count == (frames + 2 * padding) * factor,
{
    assert(0 <= frames * factor) by (nonlinear_arith);
    assert(0 <= (frames + 2 * padding) * factor) by (nonlinear_arith);
}

} // verus!
