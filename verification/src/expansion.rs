//! Expansion of token sequences by integral durations.
//!
//! A token of duration `d` stands for `d` neighbouring frames. The frames of a row
//! follow the tokens in order, so a row of durations fixes which token every frame
//! belongs to.

use vstd::prelude::*;

use crate::double::Double;

verus! {

/// The frames of a row of durations.
pub open spec fn total(row: Seq<usize>) -> nat
    decreases row.len(),
{
    if row.len() == 0 {
        0
    } else {
        total(row.drop_last()) + row.last() as nat
    }
}

/// The first frame of a token.
pub open spec fn start(row: Seq<usize>, token: int) -> nat {
    total(row.take(token))
}

/// A frame belongs to a token.
pub open spec fn covers(row: Seq<usize>, token: int, frame: int) -> bool {
    &&& 0 <= token < row.len()
    &&& start(row, token) <= frame < start(row, token + 1)
}

/// The largest total of the rows.
pub open spec fn longest(rows: Seq<Vec<usize>>) -> nat
    decreases rows.len(),
{
    if rows.len() == 0 {
        0
    } else {
        let before = longest(rows.drop_last());
        let last = total(rows.last()@);
        if before < last {
            last
        } else {
            before
        }
    }
}

/// A token starts where its predecessor ends, and ends its duration later.
pub proof fn start_of_next(row: Seq<usize>, token: int)
    requires
        0 <= token < row.len(),
    ensures
        start(row, token + 1) == start(row, token) + row[token],
{
    assert(row.take(token + 1).drop_last() =~= row.take(token));
}

/// Starts do not decrease.
pub proof fn starts_ascend(row: Seq<usize>, i: int, j: int)
    requires
        0 <= i <= j <= row.len(),
    ensures
        start(row, i) <= start(row, j),
    decreases j - i,
{
    if i < j {
        starts_ascend(row, i, j - 1);
        start_of_next(row, j - 1);
    }
}

/// The last token ends at the total.
pub proof fn last_start_is_total(row: Seq<usize>)
    ensures
        start(row, row.len() as int) == total(row),
{
    assert(row.take(row.len() as int) =~= row);
}

/// Every frame below the total belongs to exactly one token, and a frame never belongs to an
/// earlier token than a frame before it.
pub proof fn frames_follow_tokens(row: Seq<usize>, frame: int)
    requires
        0 <= frame < total(row),
    ensures
        exists|token: int| covers(row, token, frame),
        forall|token: int, other: int, later: int|
            covers(row, token, frame) && covers(row, other, later) && frame <= later ==> token
                <= other,
{
    last_start_is_total(row);
    let token = covering_token(row, frame, row.len() as int);
    assert(covers(row, token, frame));
    assert forall|token: int, other: int, later: int|
        covers(row, token, frame) && covers(row, other, later) && frame <= later implies token
        <= other by {
        if other < token {
            starts_ascend(row, other + 1, token);
        }
    }
}

proof fn covering_token(row: Seq<usize>, frame: int, tokens: int) -> (token: int)
    requires
        0 <= tokens <= row.len(),
        0 <= frame < start(row, tokens),
    ensures
        covers(row, token, frame),
    decreases tokens,
{
    assert(row.take(0) =~= Seq::<usize>::empty());
    if start(row, tokens - 1) <= frame {
        tokens - 1
    } else {
        covering_token(row, frame, tokens - 1)
    }
}

/// A token covers as many frames as its duration says: the frames from its start, in order.
pub proof fn token_covers_its_duration(row: Seq<usize>, token: int, frame: int)
    requires
        0 <= token < row.len(),
    ensures
        covers(row, token, frame) <==> start(row, token) <= frame < start(row, token) + row[token],
{
    start_of_next(row, token);
}

/// The total of one row, held at the largest `usize` where it lies beyond.
pub fn row_total(row: &[usize]) -> (out: usize)
    ensures
        out == (if total(row@) <= usize::MAX {
            total(row@)
        } else {
            usize::MAX as nat
        }),
{
    let mut sum: usize = 0;
    let mut i: usize = 0;
    while i < row.len()
        invariant
            i <= row.len(),
            sum == (if total(row@.take(i as int)) <= usize::MAX {
                total(row@.take(i as int))
            } else {
                usize::MAX as nat
            }),
        decreases row.len() - i,
    {
        proof {
            start_of_next(row@, i as int);
        }
        sum = sum.saturating_add(row[i]);
        i = i + 1;
    }
    assert(row@.take(row.len() as int) =~= row@);
    sum
}

/// The largest total of the rows, held at the largest `usize` where it lies beyond.
pub fn longest_total(rows: &Vec<Vec<usize>>) -> (out: usize)
    ensures
        out == (if longest(rows@) <= usize::MAX {
            longest(rows@)
        } else {
            usize::MAX as nat
        }),
{
    let mut most: usize = 0;
    let mut i: usize = 0;
    while i < rows.len()
        invariant
            i <= rows.len(),
            most == (if longest(rows@.take(i as int)) <= usize::MAX {
                longest(rows@.take(i as int))
            } else {
                usize::MAX as nat
            }),
        decreases rows.len() - i,
    {
        proof {
            assert(rows@.take(i + 1).drop_last() =~= rows@.take(i as int));
        }
        let one: usize = row_total(rows[i].as_slice());
        if most < one {
            most = one;
        }
        i = i + 1;
    }
    assert(rows@.take(rows.len() as int) =~= rows@);
    most
}

/// The token of every frame of a row.
pub fn frame_tokens(row: &[usize]) -> (out: Vec<usize>)
    requires
        total(row@) <= usize::MAX,
    ensures
        out.len() == total(row@),
        forall|token: int, frame: int|
            #[trigger] covers(row@, token, frame) ==> out[frame] == token,
        forall|frame: int| 0 <= frame < out.len() ==> #[trigger] covers(row@, out[frame] as int, frame),
{
    let mut out: Vec<usize> = Vec::new();
    let mut token: usize = 0;
    assert(row@.take(0) =~= Seq::<usize>::empty());
    while token < row.len()
        invariant
            token <= row.len(),
            out.len() == start(row@, token as int),
            forall|frame: int| 0 <= frame < out.len() ==> #[trigger] covers(row@, out[frame] as int, frame),
        decreases row.len() - token,
    {
        let mut k: usize = 0;
        let duration: usize = row[token];
        proof {
            start_of_next(row@, token as int);
        }
        while k < duration
            invariant
                token < row.len(),
                k <= duration,
                duration == row[token as int],
                start(row@, token + 1) == start(row@, token as int) + duration,
                out.len() == start(row@, token as int) + k,
                forall|frame: int|
                    0 <= frame < out.len() ==> #[trigger] covers(row@, out[frame] as int, frame),
            decreases duration - k,
        {
            out.push(token);
            k = k + 1;
        }
        token = token + 1;
    }
    proof {
        last_start_is_total(row@);
        assert forall|token: int, frame: int| #[trigger] covers(row@, token, frame) implies out[frame]
            == token by {
            starts_ascend(row@, token + 1, row.len() as int);
            assert(covers(row@, out[frame] as int, frame));
            frames_follow_tokens(row@, frame);
        }
    }
    out
}

/// One sequence with every token repeated by its duration, filled up to `frames` places.
pub fn expand_sequence<T: Copy>(values: &[T], tokens: &Vec<usize>, fill: T, frames: usize) -> (out:
    Vec<T>)
    requires
        forall|frame: int| 0 <= frame < tokens.len() ==> #[trigger] tokens[frame] < values.len(),
    ensures
        out.len() == frames,
        forall|frame: int|
            0 <= frame < frames ==> #[trigger] out[frame] == (if frame < tokens.len() {
                values[tokens[frame] as int]
            } else {
                fill
            }),
{
    let mut out: Vec<T> = Vec::new();
    let mut frame: usize = 0;
    while frame < frames
        invariant
            frame <= frames,
            out.len() == frame,
            forall|frame: int| 0 <= frame < tokens.len() ==> #[trigger] tokens[frame] < values.len(),
            forall|f: int|
                0 <= f < frame ==> #[trigger] out[f] == (if f < tokens.len() {
                    values[tokens[f] as int]
                } else {
                    fill
                }),
        decreases frames - frame,
    {
        if frame < tokens.len() {
            let token: usize = tokens[frame];
            out.push(values[token]);
        } else {
            out.push(fill);
        }
        frame = frame + 1;
    }
    out
}

/// A frame lies in the time of a token that starts and ends at the given instants: not before
/// its start, and before its end. A whole number lies before an instant exactly where it lies
/// below its ceiling; nothing lies in a time that is not a number.
pub open spec fn attends(start: Double, end: Double, frame: int) -> bool {
    !start.nan() && !end.nan() && start.ceiling() <= frame < end.ceiling()
}

/// Which frames lie in the times of which tokens.
#[derive(Debug, Clone, PartialEq, Eq)]
pub struct Attention {
    /// `[batch, tokens, frames]`.
    pub marks: Vec<Vec<Vec<bool>>>,
    /// Which frames lie in the length of a row, `[batch, frames]`.
    pub mask: Vec<Vec<bool>>,
    pub frames: usize,
}

/// The frames of every token of one row.
pub open spec fn row_attended(
    marks: Seq<Vec<bool>>,
    starts: Seq<Double>,
    ends: Seq<Double>,
    frames: int,
) -> bool {
    &&& marks.len() == ends.len()
    &&& forall|i: int| 0 <= i < marks.len() ==> (#[trigger] marks[i]).len() == frames
    &&& forall|i: int, f: int|
        0 <= i < marks.len() && 0 <= f < frames ==> #[trigger] marks[i][f] == attends(
            starts[i],
            ends[i],
            f,
        )
}

/// The frames that lie in the length of one row.
pub open spec fn row_within(mask: Seq<bool>, length: Double, frames: int) -> bool {
    &&& mask.len() == frames
    &&& forall|f: int| 0 <= f < frames ==> #[trigger] mask[f] == (f < length.ceiling())
}

impl Attention {
    /// Every frame attends to the tokens in whose time it lies, for as many frames as lie before
    /// the latest instant.
    pub open spec fn follows(
        self,
        starts: Seq<Vec<Double>>,
        ends: Seq<Vec<Double>>,
        lengths: Seq<Double>,
        latest: Double,
    ) -> bool {
        &&& self.frames == latest.saturated()
        &&& self.marks.len() == ends.len()
        &&& self.mask.len() == lengths.len()
        &&& forall|b: int|
            0 <= b < self.marks.len() ==> row_attended(
                (#[trigger] self.marks[b])@,
                starts[b]@,
                ends[b]@,
                self.frames as int,
            )
        &&& forall|b: int|
            0 <= b < self.mask.len() ==> row_within(
                (#[trigger] self.mask[b])@,
                lengths[b],
                self.frames as int,
            )
    }
}

/// Instants are given in pairs, row by row.
pub open spec fn paired(starts: Seq<Vec<Double>>, ends: Seq<Vec<Double>>) -> bool {
    &&& starts.len() == ends.len()
    &&& forall|b: int| 0 <= b < ends.len() ==> (#[trigger] starts[b]).len() == ends[b].len()
}

fn attend_row(starts: &Vec<Double>, ends: &Vec<Double>, frames: usize) -> (out: Vec<Vec<bool>>)
    requires
        starts.len() == ends.len(),
    ensures
        row_attended(out@, starts@, ends@, frames as int),
{
    let mut out: Vec<Vec<bool>> = Vec::new();
    for i in 0..ends.len()
        invariant
            starts.len() == ends.len(),
            out.len() == i,
            forall|k: int| 0 <= k < i ==> (#[trigger] out[k]).len() == frames,
            forall|k: int, f: int|
                0 <= k < i && 0 <= f < frames ==> #[trigger] out[k][f] == attends(
                    starts[k],
                    ends[k],
                    f,
                ),
    {
        let timed = !starts[i].is_nan() && !ends[i].is_nan();
        let first: usize = starts[i].ceil_to_usize();
        let end: usize = ends[i].ceil_to_usize();
        let mut row: Vec<bool> = Vec::new();
        for f in 0..frames
            invariant
                i < ends.len(),
                starts.len() == ends.len(),
                timed == (!starts[i as int].nan() && !ends[i as int].nan()),
                first == starts[i as int].ceiling(),
                end == ends[i as int].ceiling(),
                row.len() == f,
                forall|k: int|
                    0 <= k < f ==> #[trigger] row[k] == attends(
                        starts[i as int],
                        ends[i as int],
                        k,
                    ),
        {
            row.push(timed && first <= f && f < end);
        }
        out.push(row);
    }
    out
}

/// Which of the given number of frames lie in the times of which tokens, and in which rows.
pub fn attend_times(
    starts: &Vec<Vec<Double>>,
    ends: &Vec<Vec<Double>>,
    lengths: &Vec<Double>,
    latest: Double,
) -> (out: Attention)
    requires
        paired(starts@, ends@),
    ensures
        out.follows(starts@, ends@, lengths@, latest),
{
    let frames: usize = latest.to_usize();
    let mut marks: Vec<Vec<Vec<bool>>> = Vec::new();
    for b in 0..ends.len()
        invariant
            paired(starts@, ends@),
            marks.len() == b,
            forall|k: int|
                0 <= k < b ==> row_attended(
                    (#[trigger] marks[k])@,
                    starts[k]@,
                    ends[k]@,
                    frames as int,
                ),
    {
        assert(starts@[b as int].len() == ends@[b as int].len());
        marks.push(attend_row(&starts[b], &ends[b], frames));
    }
    let mut mask: Vec<Vec<bool>> = Vec::new();
    for b in 0..lengths.len()
        invariant
            mask.len() == b,
            forall|k: int|
                0 <= k < b ==> row_within((#[trigger] mask[k])@, lengths[k], frames as int),
    {
        let end: usize = lengths[b].ceil_to_usize();
        let mut row: Vec<bool> = Vec::new();
        for f in 0..frames
            invariant
                b < lengths.len(),
                end == lengths[b as int].ceiling(),
                row.len() == f,
                forall|k: int| 0 <= k < f ==> #[trigger] row[k] == (k < lengths[b as int].ceiling()),
        {
            row.push(f < end);
        }
        mask.push(row);
    }
    Attention { marks, mask, frames }
}

/// Where the instants of a row are the partial sums of whole durations, a frame lies in the time
/// of a token exactly where the durations give it to that token.
pub proof fn whole_times_cover(row: Seq<usize>, starts: Seq<Double>, ends: Seq<Double>, token: int, frame: int)
    requires
        0 <= token < row.len(),
        starts.len() == row.len(),
        ends.len() == row.len(),
        !starts[token].nan(),
        !ends[token].nan(),
        starts[token].ceiling() == start(row, token),
        ends[token].ceiling() == start(row, token + 1),
    ensures
        attends(starts[token], ends[token], frame) <==> covers(row, token, frame),
{
}

/// The whole parts of durations, none below zero.
pub fn whole_durations(durations: &Vec<Vec<Double>>) -> (out: Vec<Vec<usize>>)
    ensures
        out.len() == durations.len(),
        forall|b: int| 0 <= b < out.len() ==> (#[trigger] out[b]).len() == durations[b].len(),
        forall|b: int, token: int|
            0 <= b < out.len() && 0 <= token < out[b].len() ==> #[trigger] out[b][token]
                == durations[b][token].saturated(),
{
    let mut out: Vec<Vec<usize>> = Vec::new();
    for b in 0..durations.len()
        invariant
            out.len() == b,
            forall|k: int| 0 <= k < b ==> (#[trigger] out[k]).len() == durations[k].len(),
            forall|k: int, token: int|
                0 <= k < b && 0 <= token < out[k].len() ==> #[trigger] out[k][token]
                    == durations[k][token].saturated(),
    {
        let mut row: Vec<usize> = Vec::new();
        let tokens: usize = durations[b].len();
        for token in 0..tokens
            invariant
                b < durations.len(),
                tokens == durations[b as int].len(),
                row.len() == token,
                forall|k: int|
                    0 <= k < token ==> #[trigger] row[k] == durations[b as int][k].saturated(),
        {
            row.push(durations[b][token].to_usize());
        }
        out.push(row);
    }
    out
}

/// No prediction is a NaN.
pub open spec fn all_numbers(predicted: Seq<Vec<Double>>) -> bool {
    forall|b: int, token: int|
        0 <= b < predicted.len() && 0 <= token < predicted[b].len()
            ==> !#[trigger] predicted[b][token].nan()
}

/// Predicted durations as frames: every token sounds for one frame at least and for no more than
/// the bound.
pub fn predicted_durations(predicted: &Vec<Vec<Double>>, most: usize) -> (out: Vec<Vec<usize>>)
    requires
        most >= 1,
        all_numbers(predicted@),
    ensures
        out.len() == predicted.len(),
        forall|b: int| 0 <= b < out.len() ==> (#[trigger] out[b]).len() == predicted[b].len(),
        forall|b: int, token: int|
            0 <= b < out.len() && 0 <= token < out[b].len() ==> #[trigger] out[b][token]
                == predicted[b][token].bounded(most as int) && 1 <= out[b][token] <= most,
{
    let mut out: Vec<Vec<usize>> = Vec::new();
    for b in 0..predicted.len()
        invariant
            most >= 1,
            all_numbers(predicted@),
            out.len() == b,
            forall|k: int| 0 <= k < b ==> (#[trigger] out[k]).len() == predicted[k].len(),
            forall|k: int, token: int|
                0 <= k < b && 0 <= token < out[k].len() ==> #[trigger] out[k][token]
                    == predicted[k][token].bounded(most as int) && 1 <= out[k][token] <= most,
    {
        let mut row: Vec<usize> = Vec::new();
        let tokens: usize = predicted[b].len();
        for token in 0..tokens
            invariant
                most >= 1,
                tokens == predicted[b as int].len(),
                b < predicted.len(),
                all_numbers(predicted@),
                row.len() == token,
                forall|k: int|
                    0 <= k < token ==> #[trigger] row[k] == predicted[b as int][k].bounded(
                        most as int,
                    ) && 1 <= row[k] <= most,
        {
            assert(!predicted[b as int][token as int].nan());
            row.push(predicted[b][token].round_within(most));
        }
        out.push(row);
    }
    out
}

/// Where every token sounds for one frame at least and for no more than a bound, a row has as many
/// frames as tokens at least, and no more than the bound for each.
pub proof fn frames_follow_bounds(row: Seq<usize>, most: int)
    requires
        forall|token: int| 0 <= token < row.len() ==> 1 <= #[trigger] row[token] <= most,
    ensures
        row.len() <= total(row) <= row.len() * most,
    decreases row.len(),
{
    if row.len() > 0 {
        let before = row.drop_last();
        assert forall|token: int| 0 <= token < before.len() implies 1 <= #[trigger] before[token]
            <= most by {
            assert(before[token] == row[token]);
        }
        frames_follow_bounds(before, most);
        assert(row.len() * most == before.len() * most + most) by (nonlinear_arith)
            requires
                row.len() == before.len() + 1,
        ;
        assert(1 <= row[row.len() - 1] <= most);
    }
}

/// Of no durations come no frames, and one duration more adds as many, up to the largest count.
pub proof fn durations_add_up(
    row: &[usize],
    more: &[usize],
    duration: usize,
    before: usize,
    after: usize,
)
    requires
        more@ == row@.push(duration),
        call_ensures(row_total, (row,), before),
        call_ensures(row_total, (more,), after),
    ensures
        row@.len() == 0 ==> before == 0,
        after == if before + duration <= usize::MAX {
            before + duration
        } else {
            usize::MAX as int
        },
{
    assert(more@.drop_last() =~= row@);
}

proof fn longest_bounds_rows(rows: Seq<Vec<usize>>, b: int)
    requires
        0 <= b < rows.len(),
    ensures
        total(rows[b]@) <= longest(rows),
    decreases rows.len(),
{
    if b < rows.len() - 1 {
        longest_bounds_rows(rows.drop_last(), b);
    }
}

proof fn longest_is_a_row(rows: Seq<Vec<usize>>) -> (b: int)
    requires
        rows.len() > 0,
    ensures
        0 <= b < rows.len(),
        longest(rows) == total(rows[b]@),
    decreases rows.len(),
{
    let last = rows.len() - 1;
    if rows.len() == 1 || longest(rows.drop_last()) < total(rows.last()@) {
        assert(rows.len() == 1 ==> longest(rows.drop_last()) == 0);
        last
    } else {
        longest_is_a_row(rows.drop_last())
    }
}

/// The longest row bounds every row, and is one of them.
pub proof fn longest_is_the_maximum(
    rows: &Vec<Vec<usize>>,
    slices: Seq<&[usize]>,
    totals: Seq<usize>,
    out: usize,
)
    requires
        slices.len() == rows.len(),
        totals.len() == rows.len(),
        forall|b: int| 0 <= b < rows.len() ==> (#[trigger] slices[b])@ == rows@[b]@,
        forall|b: int|
            0 <= b < rows.len() ==> call_ensures(row_total, (slices[b],), #[trigger] totals[b]),
        call_ensures(longest_total, (rows,), out),
    ensures
        rows.len() == 0 ==> out == 0,
        forall|b: int| 0 <= b < rows.len() ==> #[trigger] totals[b] <= out,
        rows.len() > 0 ==> exists|b: int| 0 <= b < rows.len() && #[trigger] totals[b] == out,
{
    assert forall|b: int| 0 <= b < rows.len() implies #[trigger] totals[b] <= out by {
        assert(slices[b]@ == rows@[b]@);
        assert(call_ensures(row_total, (slices[b],), totals[b]));
        longest_bounds_rows(rows@, b);
    }
    if rows.len() > 0 {
        let b = longest_is_a_row(rows@);
        assert(slices[b]@ == rows@[b]@);
        assert(call_ensures(row_total, (slices[b],), totals[b]));
        assert(totals[b] == out);
    }
}

/// One token more has the frames behind those of the others, as many as its duration.
pub proof fn tokens_take_turns(
    row: &[usize],
    more: &[usize],
    duration: usize,
    before: Vec<usize>,
    after: Vec<usize>,
)
    requires
        more@ == row@.push(duration),
        total(more@) <= usize::MAX,
        call_ensures(frame_tokens, (row,), before),
        call_ensures(frame_tokens, (more,), after),
    ensures
        row@.len() == 0 ==> before.len() == 0,
        after.len() == before.len() + duration,
        forall|frame: int|
            0 <= frame < before.len() ==> #[trigger] after@[frame] == before@[frame],
        forall|frame: int|
            before.len() <= frame < after.len() ==> #[trigger] after@[frame] == row@.len(),
{
    assert(more@.drop_last() =~= row@);
    assert forall|frame: int| 0 <= frame < before.len() implies #[trigger] after@[frame]
        == before@[frame] by {
        let token = before@[frame] as int;
        assert(covers(row@, token, frame));
        assert(more@.take(token) =~= row@.take(token));
        assert(more@.take(token + 1) =~= row@.take(token + 1));
        assert(covers(more@, token, frame));
    }
    assert forall|frame: int| before.len() <= frame < after.len() implies #[trigger] after@[frame]
        == row@.len() by {
        let token = row@.len() as int;
        assert(more@.take(token) =~= row@);
        assert(more@.take(token + 1) =~= more@);
        assert(covers(more@, token, frame));
    }
}

/// Every frame of an expanded sequence has the value of its token, and the fill follows.
pub proof fn frames_have_values_of_tokens<T: Copy>(
    values: &[T],
    tokens: &Vec<usize>,
    fill: T,
    frames: usize,
    out: Vec<T>,
    frame: int,
)
    requires
        forall|f: int| 0 <= f < tokens.len() ==> #[trigger] tokens@[f] < values@.len(),
        call_ensures(expand_sequence::<T>, (values, tokens, fill, frames), out),
        0 <= frame < frames,
    ensures
        out.len() == frames,
        frame < tokens.len() ==> out@[frame] == values@[tokens@[frame] as int],
        frame >= tokens.len() ==> out@[frame] == fill,
{
    if frame < tokens.len() {
        assert(tokens@[frame] < values@.len());
    }
}

/// A frame attends to a token exactly where it does not lie before the ceiling of the token's
/// start and lies before that of its end. There are as many frames as the whole part of the latest
/// instant says.
pub proof fn frames_attend_within_times(
    starts: &Vec<Vec<Double>>,
    ends: &Vec<Vec<Double>>,
    lengths: &Vec<Double>,
    latest: Double,
    out: Attention,
    b: int,
    token: int,
    frame: int,
    frames: usize,
    first: usize,
    end: usize,
)
    requires
        paired(starts@, ends@),
        call_ensures(attend_times, (starts, ends, lengths, latest), out),
        call_ensures(Double::to_usize, (latest,), frames),
        0 <= b < ends.len(),
        0 <= token < ends@[b].len(),
        0 <= frame < frames,
        call_ensures(Double::ceil_to_usize, (starts@[b]@[token],), first),
        call_ensures(Double::ceil_to_usize, (ends@[b]@[token],), end),
    ensures
        out.frames == frames,
        out.marks.len() == ends.len(),
        out.marks@[b].len() == ends@[b].len(),
        out.marks@[b]@[token].len() == frames,
        !starts@[b]@[token].nan() && !ends@[b]@[token].nan() ==> (out.marks@[b]@[token]@[frame]
            <==> first <= frame < end),
        starts@[b]@[token].nan() || ends@[b]@[token].nan() ==> !out.marks@[b]@[token]@[frame],
{
    assert(row_attended(out.marks[b]@, starts[b]@, ends[b]@, out.frames as int));
    assert(out.marks[b]@[token][frame] == attends(starts@[b]@[token], ends@[b]@[token], frame));
}

/// A frame lies in a row exactly where it lies before the ceiling of the row's length.
pub proof fn rows_end_at_their_lengths(
    starts: &Vec<Vec<Double>>,
    ends: &Vec<Vec<Double>>,
    lengths: &Vec<Double>,
    latest: Double,
    out: Attention,
    b: int,
    frame: int,
    end: usize,
)
    requires
        paired(starts@, ends@),
        call_ensures(attend_times, (starts, ends, lengths, latest), out),
        0 <= b < lengths.len(),
        0 <= frame < out.frames,
        call_ensures(Double::ceil_to_usize, (lengths@[b],), end),
    ensures
        out.mask.len() == lengths.len(),
        out.mask@[b].len() == out.frames,
        out.mask@[b]@[frame] <==> frame < end,
{
    assert(row_within(out.mask[b]@, lengths[b], out.frames as int));
}

/// Durations lose their fractions one by one, and predictions are rounded one by one.
pub proof fn durations_are_rounded_one_by_one(
    durations: &Vec<Vec<Double>>,
    most: usize,
    whole: Vec<Vec<usize>>,
    rounded: Vec<Vec<usize>>,
    b: int,
    token: int,
    floor: usize,
    nearest: usize,
)
    requires
        most >= 1,
        all_numbers(durations@),
        call_ensures(whole_durations, (durations,), whole),
        call_ensures(predicted_durations, (durations, most), rounded),
        0 <= b < durations.len(),
        0 <= token < durations@[b].len(),
        call_ensures(Double::to_usize, (durations@[b]@[token],), floor),
        call_ensures(Double::round_within, (durations@[b]@[token], most), nearest),
    ensures
        whole.len() == durations.len() && rounded.len() == durations.len(),
        whole@[b].len() == durations@[b].len() && rounded@[b].len() == durations@[b].len(),
        whole@[b]@[token] == floor,
        rounded@[b]@[token] == nearest,
        1 <= rounded@[b]@[token] <= most,
{
    assert(whole[b][token] == durations[b][token].saturated());
    assert(rounded[b][token] == durations[b][token].bounded(most as int));
}

} // verus!
