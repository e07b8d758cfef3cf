//! Rearrangements of matrices: the index arithmetic behind reshapes, paddings and slices.

use vstd::prelude::*;
use vstd::arithmetic::div_mod::{lemma_fundamental_div_mod, lemma_fundamental_div_mod_converse};

verus! {

/// Rows of the given number and width.
pub open spec fn is_matrix<T>(rows: Seq<Vec<T>>, height: int, width: int) -> bool {
    &&& rows.len() == height
    &&& forall|i: int| 0 <= i < height ==> (#[trigger] rows[i]).len() == width
}

/// An entry of a matrix.
pub open spec fn entry<T>(rows: Seq<Vec<T>>, i: int, j: int) -> T {
    rows[i]@[j]
}

/// Something that gives the entries of a matrix.
trait Entries<T> {
    /// The entry can be had.
    spec fn readable(&self, i: int, j: int) -> bool;

    spec fn value(&self, i: int, j: int) -> T;

    fn read(&self, i: usize, j: usize) -> (out: T)
        requires
            self.readable(i as int, j as int),
        ensures
            out == self.value(i as int, j as int),
    ;
}

/// A matrix of the given entries.
fn matrix<T, E: Entries<T>>(height: usize, width: usize, entries: &E) -> (out: Vec<Vec<T>>)
    requires
        forall|i: int, j: int|
            0 <= i < height && 0 <= j < width ==> #[trigger] entries.readable(i, j),
    ensures
        is_matrix(out@, height as int, width as int),
        forall|i: int, j: int|
            0 <= i < height && 0 <= j < width ==> #[trigger] entry(out@, i, j) == entries.value(i, j),
{
    let mut out: Vec<Vec<T>> = Vec::new();
    let mut i: usize = 0;
    while i < height
        invariant
            i <= height,
            is_matrix(out@, i as int, width as int),
            forall|i: int, j: int|
                0 <= i < height && 0 <= j < width ==> #[trigger] entries.readable(i, j),
            forall|k: int, j: int|
                0 <= k < i && 0 <= j < width ==> #[trigger] entry(out@, k, j) == entries.value(
                    k,
                    j,
                ),
        decreases height - i,
    {
        let mut row: Vec<T> = Vec::new();
        let mut j: usize = 0;
        while j < width
            invariant
                i < height,
                j <= width,
                row.len() == j,
                forall|i: int, j: int|
                    0 <= i < height && 0 <= j < width ==> #[trigger] entries.readable(i, j),
                forall|k: int| 0 <= k < j ==> #[trigger] row@[k] == entries.value(i as int, k),
            decreases width - j,
        {
            assert(entries.readable(i as int, j as int));
            row.push(entries.read(i, j));
            j = j + 1;
        }
        let ghost before = out@;
        out.push(row);
        proof {
            assert forall|k: int, j: int| 0 <= k < i + 1 && 0 <= j < width implies #[trigger] entry(
                out@,
                k,
                j,
            ) == entries.value(k, j) by {
                if k < i {
                    assert(entry(out@, k, j) == entry(before, k, j));
                } else {
                    assert(entry(out@, k, j) == row@[j]);
                }
            }
            assert(is_matrix(out@, i + 1, width as int));
        }
        i = i + 1;
    }
    out
}

/// Quotient and remainder of a position in rows of equal width.
proof fn position_in_rows(position: int, row: int, column: int, width: int)
    requires
        position == row * width + column,
        0 <= column < width,
        0 <= row,
    ensures
        position / width == row,
        position % width == column,
        position >= 0,
{
    lemma_fundamental_div_mod_converse(position, width, row, column);
    assert(row * width >= 0) by (nonlinear_arith)
        requires
            row >= 0,
            width >= 0,
    ;
}

proof fn rows_before(row: int, column: int, height: int, width: int)
    requires
        0 <= row < height,
        0 <= column < width,
    ensures
        0 <= row * width,
        row * width + column < height * width,
{
    assert(row * width + column < height * width) by (nonlinear_arith)
        requires
            0 <= row < height,
            0 <= column < width,
    ;
    assert(0 <= row * width) by (nonlinear_arith)
        requires
            0 <= row,
            0 <= width,
    ;
}

// Relative attention.

/// Scores that are counted from the end of a row, shifted to the places that they speak of.
pub open spec fn shifted<T>(scores: Seq<Vec<T>>, zero: T, i: int, j: int) -> T {
    if j <= i {
        entry(scores, i, scores.len() - 1 - i + j)
    } else if j == i + 1 {
        zero
    } else {
        entry(scores, i + 1, j - i - 2)
    }
}

struct ShiftedScores<'a, T> {
    scores: &'a Vec<Vec<T>>,
    zero: T,
}

impl<'a, T: Copy> Entries<T> for ShiftedScores<'a, T> {
    spec fn readable(&self, i: int, j: int) -> bool {
        let frames = self.scores.len() as int;
        &&& 0 <= i < frames
        &&& 0 <= j < frames
        &&& is_matrix(self.scores@, frames, frames)
        &&& frames * (frames + 1) <= usize::MAX
    }

    spec fn value(&self, i: int, j: int) -> T {
        shifted(self.scores@, self.zero, i, j)
    }

    fn read(&self, i: usize, j: usize) -> (out: T) {
        let frames: usize = self.scores.len();
        proof {
            shift_position(frames as int, i as int, j as int);
            assert(frames + 1 <= frames * (frames + 1)) by (nonlinear_arith)
                requires
                    frames >= 1,
            ;
        }
        let position: usize = (i + 1) * frames + j;
        let row: usize = position / (frames + 1);
        let column: usize = position % (frames + 1);
        if column == 0 {
            self.zero
        } else {
            self.scores[row][column - 1]
        }
    }
}

/// Shifts relative scores: each row is padded by one in front, and the matrix is read again in
/// rows one shorter, without its first.
pub fn relative_shift<T: Copy>(scores: &Vec<Vec<T>>, zero: T) -> (out: Vec<Vec<T>>)
    requires
        is_matrix(scores@, scores.len() as int, scores.len() as int),
        scores.len() * (scores.len() + 1) <= usize::MAX,
    ensures
        is_matrix(out@, scores.len() as int, scores.len() as int),
        forall|i: int, j: int|
            0 <= i < scores.len() && 0 <= j < scores.len() ==> #[trigger] entry(out@, i, j)
                == shifted(scores@, zero, i, j),
{
    let entries = ShiftedScores { scores, zero };
    matrix(scores.len(), scores.len(), &entries)
}

proof fn shift_position(frames: int, i: int, j: int)
    requires
        0 <= i < frames,
        0 <= j < frames,
    ensures
        0 <= (i + 1) * frames,
        (i + 1) * frames + j < frames * (frames + 1),
        j <= i ==> ((i + 1) * frames + j) / (frames + 1) == i && ((i + 1) * frames + j) % (frames
            + 1) == frames - i + j,
        j > i ==> ((i + 1) * frames + j) / (frames + 1) == i + 1 && ((i + 1) * frames + j) % (
        frames + 1) == j - i - 1,
{
    let position = (i + 1) * frames + j;
    assert(position == i * (frames + 1) + (frames - i + j)) by (nonlinear_arith)
        requires
            position == (i + 1) * frames + j,
    ;
    assert(position == (i + 1) * (frames + 1) + (j - i - 1)) by (nonlinear_arith)
        requires
            position == (i + 1) * frames + j,
    ;
    assert((i + 1) * frames + j < frames * (frames + 1)) by (nonlinear_arith)
        requires
            0 <= i < frames,
            0 <= j < frames,
    ;
    assert(0 <= (i + 1) * frames) by (nonlinear_arith)
        requires
            0 <= i < frames,
    ;
    if j <= i {
        position_in_rows(position, i, frames - i + j, frames + 1);
    } else {
        position_in_rows(position, i + 1, j - i - 1, frames + 1);
    }
}

/// Where the relative positions of a sequence lie in a table of a limited window: the table is
/// padded on both sides, and a stretch of it is taken.
#[derive(Debug, Clone, Copy, PartialEq, Eq, Structural)]
pub struct RelativeWindow {
    pub padding: usize,
    pub start: usize,
    pub end: usize,
}

/// The stretch of relative positions of a sequence. Its `k`-th row speaks of the distance
/// `k - (length - 1)`, whose row in the table is `window` plus that distance.
pub fn relative_window(length: usize, window: usize) -> (out: RelativeWindow)
    requires
        length > 0,
        2 * length + window <= usize::MAX,
        2 * window < usize::MAX,
    ensures
        out.end - out.start == 2 * length - 1,
        out.padding == (if length > window + 1 {
            length - (window + 1)
        } else {
            0
        }),
        out.end <= 2 * window + 1 + 2 * out.padding,
        forall|k: int|
            #![trigger out.start + k]
            0 <= k < 2 * length - 1 ==> out.start + k - out.padding == window + (k - (length - 1)),
{
    let padding: usize = if length > window + 1 {
        length - (window + 1)
    } else {
        0
    };
    let start: usize = if window + 1 > length {
        window + 1 - length
    } else {
        0
    };
    RelativeWindow { padding, start, end: start + (length * 2 - 1) }
}

struct AbsoluteScores<'a, T> {
    scores: &'a Vec<Vec<T>>,
    zero: T,
}

impl<'a, T: Copy> Entries<T> for AbsoluteScores<'a, T> {
    spec fn readable(&self, i: int, j: int) -> bool {
        let length = self.scores.len() as int;
        &&& 0 <= i < length
        &&& 0 <= j < length
        &&& is_matrix(self.scores@, length, 2 * length - 1)
        &&& length * (2 * length) <= usize::MAX
    }

    spec fn value(&self, i: int, j: int) -> T {
        entry(self.scores@, i, self.scores.len() - 1 + j - i)
    }

    fn read(&self, i: usize, j: usize) -> (out: T) {
        let length: usize = self.scores.len();
        proof {
            let l = length as int;
            let width = 2 * l;
            assert(width <= usize::MAX) by (nonlinear_arith)
                requires
                    l * (2 * l) <= usize::MAX,
                    l > 0,
                    width == 2 * l,
            ;
            let position = i * (width - 1) + (l - 1 + j);
            assert(position == i * width + (l - 1 + j - i)) by (nonlinear_arith)
                requires
                    position == i * (width - 1) + (l - 1 + j),
            ;
            position_in_rows(position, i as int, l - 1 + j - i, width);
            rows_before(i as int, l - 1 + j - i, l, width);
            assert(0 <= i * (width - 1)) by (nonlinear_arith)
                requires
                    width >= 1,
                    i >= 0,
            ;
        }
        let width: usize = 2 * length;
        let position: usize = i * (width - 1) + (length - 1 + j);
        let row: usize = position / width;
        let column: usize = position % width;
        if column + 1 < width {
            self.scores[row][column]
        } else {
            self.zero
        }
    }
}

/// Turns scores by distance into scores by place: each row is padded by one behind, the matrix
/// is read again in rows one shorter, and the second half of each row is taken.
pub fn relative_to_absolute<T: Copy>(scores: &Vec<Vec<T>>, zero: T) -> (out: Vec<Vec<T>>)
    requires
        scores.len() > 0,
        is_matrix(scores@, scores.len() as int, 2 * scores.len() - 1),
        scores.len() * (2 * scores.len()) <= usize::MAX,
    ensures
        is_matrix(out@, scores.len() as int, scores.len() as int),
        forall|i: int, j: int|
            0 <= i < scores.len() && 0 <= j < scores.len() ==> #[trigger] entry(out@, i, j)
                == entry(scores@, i, scores.len() - 1 + j - i),
{
    let entries = AbsoluteScores { scores, zero };
    matrix(scores.len(), scores.len(), &entries)
}

/// The weight of the place at the given distance from a row, where there is one.
pub open spec fn by_distance<T>(weights: Seq<Vec<T>>, zero: T, i: int, k: int) -> T {
    let j = k - (weights.len() - 1) + i;
    if 0 <= j < weights.len() {
        entry(weights, i, j)
    } else {
        zero
    }
}

struct RelativeWeights<'a, T> {
    weights: &'a Vec<Vec<T>>,
    zero: T,
}

impl<'a, T: Copy> Entries<T> for RelativeWeights<'a, T> {
    spec fn readable(&self, i: int, j: int) -> bool {
        let length = self.weights.len() as int;
        &&& 0 <= i < length
        &&& 0 <= j < 2 * length - 1
        &&& is_matrix(self.weights@, length, length)
        &&& length * (2 * length) <= usize::MAX
    }

    spec fn value(&self, i: int, j: int) -> T {
        by_distance(self.weights@, self.zero, i, j)
    }

    fn read(&self, i: usize, j: usize) -> (out: T) {
        let length: usize = self.weights.len();
        proof {
            let l = length as int;
            let w = 2 * l;
            assert(w <= usize::MAX) by (nonlinear_arith)
                requires
                    l * (2 * l) <= usize::MAX,
                    l > 0,
                    w == 2 * l,
            ;
            rows_before(i as int, j + 1, l, w);
            // The position without the padding in front.
            let position = i * w + (j + 1) - l;
            assert(position == i * (w - 1) + (j + 1 - l + i)) by (nonlinear_arith)
                requires
                    position == i * w + (j + 1) - l,
            ;
            assert(position == (i - 1) * (w - 1) + (j + i + l)) by (nonlinear_arith)
                requires
                    position == i * w + (j + 1) - l,
                    w == 2 * l,
            ;
            assert(position == (i + 1) * (w - 1) + (j + 1 - l + i - (w - 1))) by (nonlinear_arith)
                requires
                    position == i * (w - 1) + (j + 1 - l + i),
            ;
            let place = j + 1 - l + i;
            if 0 <= place < w - 1 {
                position_in_rows(position, i as int, place, w - 1);
            } else if place >= w - 1 {
                position_in_rows(position, i + 1, place - (w - 1), w - 1);
            } else if i >= 1 {
                position_in_rows(position, i - 1, j + i + l, w - 1);
            }
        }
        let width: usize = 2 * length;
        let place: usize = i * width + (j + 1);
        if place < length {
            return self.zero;
        }
        let position: usize = place - length;
        let row: usize = position / (width - 1);
        let column: usize = position % (width - 1);
        if column < length && row < length {
            self.weights[row][column]
        } else {
            self.zero
        }
    }
}

/// Turns weights by place into weights by distance: each row is padded behind to twice its width
/// less one, the matrix is padded in front and read again in rows one longer, and the first
/// column is dropped. Distances that no place has weigh nothing.
pub fn absolute_to_relative<T: Copy>(weights: &Vec<Vec<T>>, zero: T) -> (out: Vec<Vec<T>>)
    requires
        weights.len() > 0,
        is_matrix(weights@, weights.len() as int, weights.len() as int),
        weights.len() * (2 * weights.len()) <= usize::MAX,
    ensures
        is_matrix(out@, weights.len() as int, 2 * weights.len() - 1),
        forall|i: int, k: int|
            0 <= i < weights.len() && 0 <= k < 2 * weights.len() - 1 ==> #[trigger] entry(
                out@,
                i,
                k,
            ) == by_distance(weights@, zero, i, k),
{
    let entries = RelativeWeights { weights, zero };
    let ghost length = weights.len() as int;
    proof {
        assert(2 * length <= usize::MAX) by (nonlinear_arith)
            requires
                length * (2 * length) <= usize::MAX,
                length > 0,
        ;
    }
    matrix(weights.len(), 2 * weights.len() - 1, &entries)
}

/// Weights taken apart by distance and put together by place are the same weights.
pub proof fn distances_give_back_places<T>(
    weights: Seq<Vec<T>>,
    relative: Seq<Vec<T>>,
    absolute: Seq<Vec<T>>,
    zero: T,
    i: int,
    j: int,
)
    requires
        relative.len() == weights.len(),
        forall|i: int, k: int|
            0 <= i < weights.len() && 0 <= k < 2 * weights.len() - 1 ==> #[trigger] entry(
                relative,
                i,
                k,
            ) == by_distance(weights, zero, i, k),
        forall|i: int, j: int|
            0 <= i < weights.len() && 0 <= j < weights.len() ==> #[trigger] entry(absolute, i, j)
                == entry(relative, i, weights.len() - 1 + j - i),
        0 <= i < weights.len(),
        0 <= j < weights.len(),
    ensures
        entry(absolute, i, j) == entry(weights, i, j),
{
    assert(entry(absolute, i, j) == entry(relative, i, weights.len() - 1 + j - i));
    assert(entry(relative, i, weights.len() - 1 + j - i) == by_distance(
        weights,
        zero,
        i,
        weights.len() - 1 + j - i,
    ));
}

// Squeezing frames into channels.

/// The frames that fill whole groups.
pub open spec fn whole_groups(frames: int, factor: int) -> int {
    frames / factor * factor
}

struct FoldedFrames<'a, T> {
    values: &'a Vec<Vec<T>>,
    mask: &'a Vec<bool>,
    frames: usize,
    factor: usize,
    zero: T,
}

impl<'a, T: Copy> Entries<T> for FoldedFrames<'a, T> {
    spec fn readable(&self, i: int, j: int) -> bool {
        let channels = self.values.len() as int;
        &&& self.factor > 0
        &&& 0 <= i < channels * self.factor
        &&& 0 <= j < self.frames / self.factor
        &&& self.mask.len() == self.frames / self.factor
        &&& is_matrix(self.values@, channels, self.frames as int)
    }

    spec fn value(&self, i: int, j: int) -> T {
        let channels = self.values.len() as int;
        if self.mask@[j] {
            entry(self.values@, i % channels, j * self.factor + i / channels)
        } else {
            self.zero
        }
    }

    fn read(&self, i: usize, j: usize) -> (out: T) {
        let channels: usize = self.values.len();
        proof {
            let factor = self.factor as int;
            assert(channels > 0) by (nonlinear_arith)
                requires
                    i < channels * factor,
                    i >= 0,
                    channels >= 0,
            ;
            row_in_group(i as int, channels as int, factor);
            group_within(j as int, i as int / channels as int, self.frames as int, factor);
        }
        if self.mask[j] {
            self.values[i % channels][j * self.factor + i / channels]
        } else {
            self.zero
        }
    }
}

/// The mask of every group's last frame.
fn folded_mask(mask: &Vec<bool>, factor: usize) -> (out: Vec<bool>)
    requires
        factor > 0,
    ensures
        out.len() == mask.len() / factor,
        forall|t: int| 0 <= t < out.len() ==> #[trigger] out@[t] == mask@[t * factor + factor - 1],
{
    let groups: usize = mask.len() / factor;
    let mut out: Vec<bool> = Vec::new();
    let mut t: usize = 0;
    while t < groups
        invariant
            t <= groups,
            groups == mask.len() / factor,
            factor > 0,
            out.len() == t,
            forall|k: int| 0 <= k < t ==> #[trigger] out@[k] == mask@[k * factor + factor - 1],
        decreases groups - t,
    {
        proof {
            group_within(t as int, factor - 1, mask.len() as int, factor as int);
        }
        out.push(mask[t * factor + (factor - 1)]);
        t = t + 1;
    }
    out
}

/// Folds every group of frames into channels, and masks what the last frame of a group masks.
pub fn fold_frames<T: Copy>(
    values: &Vec<Vec<T>>,
    mask: &Vec<bool>,
    factor: usize,
    zero: T,
) -> (out: (Vec<Vec<T>>, Vec<bool>))
    requires
        factor > 0,
        is_matrix(values@, values.len() as int, mask.len() as int),
        values.len() * factor <= usize::MAX,
    ensures
        out.1.len() == mask.len() / factor,
        forall|t: int|
            0 <= t < out.1.len() ==> #[trigger] out.1@[t] == mask@[t * factor + factor - 1],
        is_matrix(out.0@, values.len() * factor, (mask.len() / factor) as int),
        forall|k: int, c: int, t: int|
            #![trigger entry(out.0@, k * values.len() + c, t)]
            0 <= k < factor && 0 <= c < values.len() && 0 <= t < mask.len() / factor ==> entry(
                out.0@,
                k * values.len() + c,
                t,
            ) == if out.1@[t] {
                entry(values@, c, t * factor + k)
            } else {
                zero
            },
{
    let group_mask = folded_mask(mask, factor);
    let entries = FoldedFrames { values, mask: &group_mask, frames: mask.len(), factor, zero };
    let folded = matrix(values.len() * factor, mask.len() / factor, &entries);
    proof {
        let channels = values.len() as int;
        assert forall|k: int, c: int, t: int|
            #![trigger entry(folded@, k * channels + c, t)]
            0 <= k < factor && 0 <= c < channels && 0 <= t < mask.len() / factor implies entry(
            folded@,
            k * channels + c,
            t,
        ) == if group_mask@[t] {
            entry(values@, c, t * factor + k)
        } else {
            zero
        } by {
            rows_before(k, c, factor as int, channels);
            position_in_rows(k * channels + c, k, c, channels);
            assert(factor * channels == channels * factor) by (nonlinear_arith);
            assert(entry(folded@, k * channels + c, t) == entries.value(k * channels + c, t));
        }
    }
    (folded, group_mask)
}

proof fn row_in_group(row: int, channels: int, factor: int)
    requires
        0 <= row < channels * factor,
        channels > 0,
    ensures
        0 <= row / channels < factor,
        0 <= row % channels < channels,
{
    let k = row / channels;
    assert(row == channels * k + row % channels) by {
        lemma_fundamental_div_mod(row, channels);
    }
    assert(0 <= row % channels < channels);
    assert(k < factor) by (nonlinear_arith)
        requires
            channels * k <= row,
            row < channels * factor,
            channels > 0,
    ;
    assert(k >= 0) by (nonlinear_arith)
        requires
            row == channels * k + row % channels,
            0 <= row,
            row % channels < channels,
            channels > 0,
    ;
}

proof fn group_within(group: int, place: int, frames: int, factor: int)
    requires
        0 <= group < frames / factor,
        0 <= place < factor,
        0 <= frames,
    ensures
        0 <= group * factor,
        group * factor + place < frames,
        whole_groups(frames, factor) <= frames,
        group * factor + place < whole_groups(frames, factor),
{
    let groups = frames / factor;
    assert(frames == factor * groups + frames % factor) by {
        lemma_fundamental_div_mod(frames, factor);
    }
    assert(0 <= frames % factor < factor);
    assert(group * factor + place < groups * factor) by (nonlinear_arith)
        requires
            0 <= group < groups,
            0 <= place < factor,
    ;
    assert(groups * factor == factor * groups) by (nonlinear_arith);
    assert(0 <= group * factor) by (nonlinear_arith)
        requires
            0 <= group,
            0 <= factor,
    ;
}

struct UnfoldedFrames<'a, T> {
    values: &'a Vec<Vec<T>>,
    mask: &'a Vec<bool>,
    channels: usize,
    factor: usize,
    zero: T,
}

impl<'a, T: Copy> Entries<T> for UnfoldedFrames<'a, T> {
    spec fn readable(&self, i: int, j: int) -> bool {
        &&& self.factor > 0
        &&& 0 <= i < self.channels
        &&& 0 <= j < self.mask.len() * self.factor
        &&& self.channels * self.factor <= usize::MAX
        &&& is_matrix(self.values@, self.channels * self.factor, self.mask.len() as int)
    }

    spec fn value(&self, i: int, j: int) -> T {
        let group = j / self.factor as int;
        if self.mask@[group] {
            entry(self.values@, (j % self.factor as int) * self.channels + i, group)
        } else {
            self.zero
        }
    }

    fn read(&self, i: usize, j: usize) -> (out: T) {
        proof {
            let factor = self.factor as int;
            let groups = self.mask.len() as int;
            let channels = self.channels as int;
            assert(groups * factor == factor * groups) by (nonlinear_arith);
            row_in_group(j as int, factor, groups);
            rows_before(j as int % factor, i as int, factor, channels);
            assert(factor * channels == channels * factor) by (nonlinear_arith);
        }
        let group: usize = j / self.factor;
        let place: usize = j % self.factor;
        if self.mask[group] {
            self.values[place * self.channels + i][group]
        } else {
            self.zero
        }
    }
}

/// Unfolds channels into frames, and masks every frame of a masked group.
pub fn unfold_frames<T: Copy>(
    values: &Vec<Vec<T>>,
    mask: &Vec<bool>,
    channels: usize,
    factor: usize,
    zero: T,
) -> (out: Vec<Vec<T>>)
    requires
        factor > 0,
        is_matrix(values@, channels * factor, mask.len() as int),
        channels * factor <= usize::MAX,
        mask.len() * factor <= usize::MAX,
    ensures
        is_matrix(out@, channels as int, mask.len() * factor),
        forall|k: int, c: int, t: int|
            #![trigger entry(out@, c, t * factor + k)]
            0 <= k < factor && 0 <= c < channels && 0 <= t < mask.len() ==> entry(
                out@,
                c,
                t * factor + k,
            ) == if mask@[t] {
                entry(values@, k * channels + c, t)
            } else {
                zero
            },
{
    let entries = UnfoldedFrames { values, mask, channels, factor, zero };
    let out = matrix(channels, mask.len() * factor, &entries);
    proof {
        assert forall|k: int, c: int, t: int|
            #![trigger entry(out@, c, t * factor + k)]
            0 <= k < factor && 0 <= c < channels && 0 <= t < mask.len() implies entry(
            out@,
            c,
            t * factor + k,
        ) == if mask@[t] {
            entry(values@, k * channels + c, t)
        } else {
            zero
        } by {
            rows_before(t, k, mask.len() as int, factor as int);
            position_in_rows(t * factor + k, t, k, factor as int);
            assert(entry(out@, c, t * factor + k) == entries.value(c, t * factor + k));
        }
    }
    out
}

/// What was folded and unfolded again is what it was, up to the last whole group of frames and
/// to the mask.
pub proof fn unfolding_undoes_folding<T>(
    values: Seq<Vec<T>>,
    folded: Seq<Vec<T>>,
    mask: Seq<bool>,
    unfolded: Seq<Vec<T>>,
    factor: int,
    zero: T,
    c: int,
    t: int,
    k: int,
)
    requires
        factor > 0,
        forall|k: int, c: int, t: int|
            #![trigger entry(folded, k * values.len() + c, t)]
            0 <= k < factor && 0 <= c < values.len() && 0 <= t < mask.len() ==> entry(
                folded,
                k * values.len() + c,
                t,
            ) == if mask[t] {
                entry(values, c, t * factor + k)
            } else {
                zero
            },
        forall|k: int, c: int, t: int|
            #![trigger entry(unfolded, c, t * factor + k)]
            0 <= k < factor && 0 <= c < values.len() && 0 <= t < mask.len() ==> entry(
                unfolded,
                c,
                t * factor + k,
            ) == if mask[t] {
                entry(folded, k * values.len() + c, t)
            } else {
                zero
            },
        0 <= c < values.len(),
        0 <= t < mask.len(),
        0 <= k < factor,
    ensures
        entry(unfolded, c, t * factor + k) == if mask[t] {
            entry(values, c, t * factor + k)
        } else {
            zero
        },
{
    assert(entry(unfolded, c, t * factor + k) == if mask[t] {
        entry(folded, k * values.len() + c, t)
    } else {
        zero
    });
}

// Channels in splits.

/// The channel that a split holds in a group: channels are laid out in two halves, each a row of
/// groups of `half` channels.
pub open spec fn split_channel(split: int, group: int, groups: int, half: int) -> int {
    (split / half) * (groups * half) + (group * half + split % half)
}

proof fn split_within(split: int, group: int, groups: int, half: int)
    requires
        half > 0,
        0 <= split < 2 * half,
        0 <= group < groups,
    ensures
        0 <= group * half,
        0 <= (split / half) * (groups * half),
        0 <= split / half < 2,
        0 <= split_channel(split, group, groups, half) < 2 * (groups * half),
{
    row_in_group(split, half, 2);
    rows_before(group, split % half, groups, half);
    rows_before(split / half, group * half + split % half, 2, groups * half);
}

struct SplitChannels<'a, T> {
    values: &'a Vec<Vec<T>>,
    groups: usize,
    half: usize,
    frames: usize,
}

impl<'a, T: Copy> Entries<T> for SplitChannels<'a, T> {
    spec fn readable(&self, i: int, j: int) -> bool {
        &&& 0 <= i < 2 * self.half
        &&& 0 <= j < self.groups * self.frames
        &&& 2 * (self.groups * self.half) <= usize::MAX
        &&& is_matrix(self.values@, 2 * (self.groups * self.half), self.frames as int)
    }

    spec fn value(&self, i: int, j: int) -> T {
        let frames = self.frames as int;
        entry(
            self.values@,
            split_channel(i, j / frames, self.groups as int, self.half as int),
            j % frames,
        )
    }

    fn read(&self, i: usize, j: usize) -> (out: T) {
        proof {
            let groups = self.groups as int;
            let frames = self.frames as int;
            assert(groups * frames == frames * groups) by (nonlinear_arith);
            assert(frames > 0) by (nonlinear_arith)
                requires
                    0 <= j < groups * frames,
                    frames >= 0,
            ;
            row_in_group(j as int, frames, groups);
            split_within(i as int, j as int / frames, groups, self.half as int);
        }
        let group: usize = j / self.frames;
        let channel: usize = (i / self.half) * (self.groups * self.half) + (group * self.half + i
            % self.half);
        self.values[channel][j % self.frames]
    }
}

/// Lays the groups of every split side by side, so that one matrix mixes the splits of all groups
/// and frames at once.
pub fn split_channels<T: Copy>(values: &Vec<Vec<T>>, groups: usize, half: usize, frames: usize) -> (out:
    Vec<Vec<T>>)
    requires
        2 * (groups * half) <= usize::MAX,
        groups * frames <= usize::MAX,
        2 * half <= usize::MAX,
        is_matrix(values@, 2 * (groups * half), frames as int),
    ensures
        is_matrix(out@, 2 * half, groups * frames),
        forall|i: int, j: int|
            0 <= i < 2 * half && 0 <= j < groups * frames ==> #[trigger] entry(out@, i, j) == entry(
                values@,
                split_channel(i, j / frames as int, groups as int, half as int),
                j % frames as int,
            ),
{
    let entries = SplitChannels { values, groups, half, frames };
    matrix(2 * half, groups * frames, &entries)
}

struct MergedChannels<'a, T> {
    splits: &'a Vec<Vec<T>>,
    groups: usize,
    half: usize,
    frames: usize,
}

impl<'a, T: Copy> Entries<T> for MergedChannels<'a, T> {
    spec fn readable(&self, i: int, j: int) -> bool {
        &&& 0 <= i < 2 * (self.groups * self.half)
        &&& 0 <= j < self.frames
        &&& 2 * (self.groups * self.half) <= usize::MAX
        &&& self.groups * self.frames <= usize::MAX
        &&& is_matrix(self.splits@, 2 * self.half, self.groups * self.frames)
    }

    spec fn value(&self, i: int, j: int) -> T {
        let width = self.groups * self.half;
        let within = i % width;
        entry(
            self.splits@,
            (i / width) * self.half + within % self.half as int,
            (within / self.half as int) * self.frames + j,
        )
    }

    fn read(&self, i: usize, j: usize) -> (out: T) {
        proof {
            let groups = self.groups as int;
            let half = self.half as int;
            let width = groups * half;
            assert(half > 0 && width > 0) by (nonlinear_arith)
                requires
                    0 <= i < 2 * (groups * half),
                    width == groups * half,
                    half >= 0,
                    groups >= 0,
            ;
            assert(2 * width == width * 2);
            row_in_group(i as int, width, 2);
            assert(groups * half == half * groups) by (nonlinear_arith);
            row_in_group(i as int % width, half, groups);
            rows_before(i as int / width, (i as int % width) % half, 2, half);
            rows_before((i as int % width) / half, j as int, groups, self.frames as int);
        }
        let count: usize = self.splits.len();
        assert(count == 2 * self.half);
        let width: usize = self.groups * self.half;
        let within: usize = i % width;
        self.splits[(i / width) * self.half + within % self.half][(within / self.half)
            * self.frames + j]
    }
}

/// Puts channels back together from their splits.
pub fn merge_channels<T: Copy>(splits: &Vec<Vec<T>>, groups: usize, half: usize, frames: usize) -> (out:
    Vec<Vec<T>>)
    requires
        2 * (groups * half) <= usize::MAX,
        groups * frames <= usize::MAX,
        is_matrix(splits@, 2 * half, groups * frames),
    ensures
        is_matrix(out@, 2 * (groups * half), frames as int),
        forall|split: int, group: int, t: int|
            #![trigger entry(out@, split_channel(split, group, groups as int, half as int), t)]
            0 <= split < 2 * half && 0 <= group < groups && 0 <= t < frames ==> entry(
                out@,
                split_channel(split, group, groups as int, half as int),
                t,
            ) == entry(splits@, split, group * frames + t),
{
    let entries = MergedChannels { splits, groups, half, frames };
    let out = matrix(2 * (groups * half), frames, &entries);
    proof {
        assert forall|split: int, group: int, t: int|
            #![trigger entry(out@, split_channel(split, group, groups as int, half as int), t)]
            0 <= split < 2 * half && 0 <= group < groups && 0 <= t < frames implies entry(
            out@,
            split_channel(split, group, groups as int, half as int),
            t,
        ) == entry(splits@, split, group * frames + t) by {
            let h = half as int;
            let width = groups * half;
            let channel = split_channel(split, group, groups as int, h);
            split_within(split, group, groups as int, h);
            rows_before(group, split % h, groups as int, h);
            position_in_rows(channel, split / h, group * h + split % h, width);
            position_in_rows(group * h + split % h, group, split % h, h);
            lemma_fundamental_div_mod(split, h);
            assert((split / h) * h == h * (split / h)) by (nonlinear_arith);
            assert(entry(out@, channel, t) == entries.value(channel, t));
        }
    }
    out
}

/// Splitting channels and merging them again changes nothing.
pub proof fn merging_undoes_splitting<T>(
    values: Seq<Vec<T>>,
    splits: Seq<Vec<T>>,
    merged: Seq<Vec<T>>,
    groups: int,
    half: int,
    frames: int,
    split: int,
    group: int,
    t: int,
)
    requires
        forall|i: int, j: int|
            0 <= i < 2 * half && 0 <= j < groups * frames ==> #[trigger] entry(splits, i, j)
                == entry(values, split_channel(i, j / frames, groups, half), j % frames),
        forall|split: int, group: int, t: int|
            #![trigger entry(merged, split_channel(split, group, groups, half), t)]
            0 <= split < 2 * half && 0 <= group < groups && 0 <= t < frames ==> entry(
                merged,
                split_channel(split, group, groups, half),
                t,
            ) == entry(splits, split, group * frames + t),
        0 <= split < 2 * half,
        0 <= group < groups,
        0 <= t < frames,
    ensures
        entry(merged, split_channel(split, group, groups, half), t) == entry(
            values,
            split_channel(split, group, groups, half),
            t,
        ),
{
    rows_before(group, t, groups, frames);
    position_in_rows(group * frames + t, group, t, frames);
    assert(entry(merged, split_channel(split, group, groups, half), t) == entry(
        splits,
        split,
        group * frames + t,
    ));
}

/// Shifting moves the last scores of a row, which end at its own place, to the front: the last one
/// comes to stand on the diagonal. What is left over to the right is nothing at first, and then the
/// next row from its start.
pub proof fn last_scores_come_to_the_diagonal<T: Copy>(
    scores: &Vec<Vec<T>>,
    zero: T,
    out: Vec<Vec<T>>,
    i: int,
    j: int,
)
    requires
        is_matrix(scores@, scores.len() as int, scores.len() as int),
        scores.len() * (scores.len() + 1) <= usize::MAX,
        call_ensures(relative_shift::<T>, (scores, zero), out),
        0 <= i < scores.len(),
        0 <= j < scores.len(),
    ensures
        out.len() == scores.len() && out@[i].len() == scores.len(),
        out@[i]@[i] == scores@[i]@[scores.len() - 1],
        j <= i ==> out@[i]@[j] == scores@[i]@[scores.len() - 1 - (i - j)],
        j == i + 1 ==> out@[i]@[j] == zero,
        j > i + 1 ==> out@[i]@[j] == scores@[i + 1]@[j - (i + 2)],
{
    assert(entry(out@, i, j) == shifted(scores@, zero, i, j));
    assert(entry(out@, i, i) == shifted(scores@, zero, i, i));
}

/// Scores by place are the scores of the distance between the places, counted from the middle of a
/// row; weights by distance are those of the place at that distance, or nothing.
pub proof fn distances_count_from_the_middle<T: Copy>(
    scores: &Vec<Vec<T>>,
    weights: &Vec<Vec<T>>,
    zero: T,
    absolute: Vec<Vec<T>>,
    relative: Vec<Vec<T>>,
    i: int,
    j: int,
    distance: int,
)
    requires
        scores.len() > 0,
        weights.len() == scores.len(),
        is_matrix(scores@, scores.len() as int, 2 * scores.len() - 1),
        is_matrix(weights@, weights.len() as int, weights.len() as int),
        scores.len() * (2 * scores.len()) <= usize::MAX,
        call_ensures(relative_to_absolute::<T>, (scores, zero), absolute),
        call_ensures(absolute_to_relative::<T>, (weights, zero), relative),
        0 <= i < scores.len(),
        0 <= j < scores.len(),
        -(scores.len() as int) < distance < scores.len(),
    ensures
        absolute.len() == scores.len() && absolute@[i].len() == scores.len(),
        relative.len() == weights.len() && relative@[i].len() == 2 * weights.len() - 1,
        j - i == distance ==> absolute@[i]@[j] == scores@[i]@[scores.len() - 1 + distance],
        0 <= i + distance < weights.len() ==> relative@[i]@[weights.len() - 1 + distance]
            == weights@[i]@[i + distance],
        !(0 <= i + distance < weights.len()) ==> relative@[i]@[weights.len() - 1 + distance]
            == zero,
{
    assert(entry(absolute@, i, j) == entry(scores@, i, scores.len() - 1 + j - i));
    assert(entry(relative@, i, weights.len() - 1 + distance) == by_distance(
        weights@,
        zero,
        i,
        weights.len() - 1 + distance,
    ));
}

/// Weights taken apart by distance and put together by place are the same weights.
pub proof fn places_come_back_from_distances<T: Copy>(
    weights: &Vec<Vec<T>>,
    zero: T,
    relative: Vec<Vec<T>>,
    absolute: Vec<Vec<T>>,
    i: int,
    j: int,
)
    requires
        weights.len() > 0,
        is_matrix(weights@, weights.len() as int, weights.len() as int),
        weights.len() * (2 * weights.len()) <= usize::MAX,
        call_ensures(absolute_to_relative::<T>, (weights, zero), relative),
        call_ensures(relative_to_absolute::<T>, (&relative, zero), absolute),
        0 <= i < weights.len(),
        0 <= j < weights.len(),
    ensures
        absolute@[i]@[j] == weights@[i]@[j],
{
    distances_give_back_places(weights@, relative@, absolute@, zero, i, j);
    assert(entry(absolute@, i, j) == entry(weights@, i, j));
}

/// A window is widened exactly by what a sequence reaches beyond it, and of the widened table the
/// middle stretch is taken that has a row for every distance in the sequence.
pub proof fn windows_reach_over_sequences(length: usize, window: usize, out: RelativeWindow)
    requires
        length > 0,
        2 * length + window <= usize::MAX,
        2 * window < usize::MAX,
        call_ensures(relative_window, (length, window), out),
    ensures
        out.end - out.start == 2 * length - 1,
        length <= window + 1 ==> out.padding == 0,
        length > window + 1 ==> out.padding == length - 1 - window,
        out.start + (length - 1) == window + out.padding,
        out.start + out.end == 2 * window + 1 + 2 * out.padding,
{
    assert(out.start + (length - 1) - out.padding == window + ((length - 1) - (length - 1)));
}

/// A split of the first half holds, group by group, a channel of the first half; one of the second
/// half a channel of the second. Merging puts each back.
pub proof fn splits_take_halves_of_groups<T: Copy>(
    values: &Vec<Vec<T>>,
    groups: usize,
    half: usize,
    frames: usize,
    splits: Vec<Vec<T>>,
    merged: Vec<Vec<T>>,
    part: int,
    place: int,
    group: int,
    t: int,
)
    requires
        2 * (groups * half) <= usize::MAX,
        groups * frames <= usize::MAX,
        2 * half <= usize::MAX,
        is_matrix(values@, 2 * (groups * half), frames as int),
        call_ensures(split_channels::<T>, (values, groups, half, frames), splits),
        call_ensures(merge_channels::<T>, (&splits, groups, half, frames), merged),
        0 <= part < 2,
        0 <= place < half,
        0 <= group < groups,
        0 <= t < frames,
    ensures
        splits.len() == 2 * half && merged.len() == 2 * (groups * half),
        splits@[part * half + place].len() == groups * frames,
        splits@[part * half + place]@[group * frames + t] == values@[part * (groups * half) + group
            * half + place]@[t],
        merged@[part * (groups * half) + group * half + place]@[t] == values@[part * (groups * half)
            + group * half + place]@[t],
{
    let split = part * half + place;
    rows_before(part, place, 2, half as int);
    position_in_rows(split, part, place, half as int);
    rows_before(group, t, groups as int, frames as int);
    position_in_rows(group * frames + t, group, t, frames as int);
    let channel = split_channel(split, group, groups as int, half as int);
    assert(channel == part * (groups * half) + group * half + place);
    assert(entry(splits@, split, group * frames + t) == entry(
        values@,
        split_channel(split, (group * frames + t) / frames as int, groups as int, half as int),
        (group * frames + t) % frames as int,
    ));
    assert(entry(merged@, channel, t) == entry(splits@, split, group * frames + t));
}

} // verus!
