//! The best monotonic alignment of tokens and frames.
//!
//! Scores are of any type: the caller says how two predecessors and a score combine, and
//! when one value exceeds another. The search fills a table column by column and follows
//! it back from the last token.

use vstd::prelude::*;

use crate::align_tts::{alignable, lengths_within};

verus! {

/// What a combination of two predecessors and a score gives.
pub open spec fn combined<S, C: Fn(S, S, S) -> S>(combine: C, stay: S, advance: S, score: S) -> S {
    choose|out: S| call_ensures(combine, (stay, advance, score), out)
}

/// Whether one value exceeds another.
pub open spec fn exceeded<S, G: Fn(S, S) -> bool>(exceeds: G, left: S, right: S) -> bool {
    choose|out: bool| call_ensures(exceeds, (left, right), out)
}

/// Combining is possible for all values, and always gives the same.
pub open spec fn combines<S, C: Fn(S, S, S) -> S>(combine: C) -> bool {
    &&& forall|stay: S, advance: S, score: S|
        #[trigger] call_requires(combine, (stay, advance, score))
    &&& forall|stay: S, advance: S, score: S, out: S|
        #[trigger] call_ensures(combine, (stay, advance, score), out) ==> out == combined(
            combine,
            stay,
            advance,
            score,
        )
}

/// Comparing is possible for all values, and always gives the same.
pub open spec fn compares<S, G: Fn(S, S) -> bool>(exceeds: G) -> bool {
    &&& forall|left: S, right: S| #[trigger] call_requires(exceeds, (left, right))
    &&& forall|left: S, right: S, out: bool|
        #[trigger] call_ensures(exceeds, (left, right), out) ==> out == exceeded(
            exceeds,
            left,
            right,
        )
}

/// The tokens that a path from the first token at the first frame to the last token at the last
/// frame can be at.
pub open spec fn in_window(tokens: int, frames: int, token: int, frame: int) -> bool {
    &&& 0 <= token < tokens
    &&& token <= frame
    &&& tokens - token <= frames - frame
}

/// The value of the best path to a token at a frame; the lowest value outside the window.
pub open spec fn value_at<S, C: Fn(S, S, S) -> S>(
    scores: Seq<Vec<S>>,
    tokens: int,
    frames: int,
    lowest: S,
    combine: C,
    token: int,
    frame: int,
) -> S
    decreases frame,
{
    if frame < 0 || !in_window(tokens, frames, token, frame) {
        lowest
    } else if frame == 0 {
        scores[0][0]
    } else {
        combined(
            combine,
            value_at(scores, tokens, frames, lowest, combine, token, frame - 1),
            if token > 0 {
                value_at(scores, tokens, frames, lowest, combine, token - 1, frame - 1)
            } else {
                lowest
            },
            scores[token][frame],
        )
    }
}

/// The token of the best path at a frame, found from the end: the path comes from the previous
/// token where that has the greater value.
pub open spec fn path_at<S, C: Fn(S, S, S) -> S, G: Fn(S, S) -> bool>(
    scores: Seq<Vec<S>>,
    tokens: int,
    frames: int,
    lowest: S,
    combine: C,
    exceeds: G,
    frame: int,
) -> int
    decreases frames - frame,
{
    if frame >= frames - 1 {
        tokens - 1
    } else {
        let next = path_at(scores, tokens, frames, lowest, combine, exceeds, frame + 1);
        if next > 0 && exceeded(
            exceeds,
            value_at(scores, tokens, frames, lowest, combine, next - 1, frame),
            value_at(scores, tokens, frames, lowest, combine, next, frame),
        ) {
            next - 1
        } else {
            next
        }
    }
}

/// A row of scores covers its tokens and frames.
pub open spec fn scored<S>(scores: Seq<Vec<S>>, tokens: int, frames: int) -> bool {
    &&& scores.len() >= tokens
    &&& forall|t: int| 0 <= t < tokens ==> (#[trigger] scores[t]).len() >= frames
}

/// Every value within the window exceeds the lowest value.
pub open spec fn lowest_is_low<S, C: Fn(S, S, S) -> S, G: Fn(S, S) -> bool>(
    scores: Seq<Vec<S>>,
    tokens: int,
    frames: int,
    lowest: S,
    combine: C,
    exceeds: G,
) -> bool {
    forall|t: int, f: int|
        in_window(tokens, frames, t, f) ==> exceeded(
            exceeds,
            #[trigger] value_at(scores, tokens, frames, lowest, combine, t, f),
            lowest,
        )
}

fn fill_column<S: Copy, C: Fn(S, S, S) -> S>(
    scores: &Vec<Vec<S>>,
    tokens: usize,
    frames: usize,
    lowest: S,
    combine: &C,
    frame: usize,
    previous: &Vec<S>,
) -> (out: Vec<S>)
    requires
        0 < frame < frames,
        scored(scores@, tokens as int, frames as int),
        combines::<S, C>(*combine),
        previous.len() == tokens,
        forall|t: int|
            0 <= t < tokens ==> #[trigger] previous[t] == value_at(
                scores@,
                tokens as int,
                frames as int,
                lowest,
                *combine,
                t,
                frame - 1,
            ),
    ensures
        out.len() == tokens,
        forall|t: int|
            0 <= t < tokens ==> #[trigger] out[t] == value_at(
                scores@,
                tokens as int,
                frames as int,
                lowest,
                *combine,
                t,
                frame as int,
            ),
{
    let mut out: Vec<S> = Vec::new();
    let mut token: usize = 0;
    while token < tokens
        invariant
            token <= tokens,
            0 < frame < frames,
            scored(scores@, tokens as int, frames as int),
            combines::<S, C>(*combine),
            previous.len() == tokens,
            forall|t: int|
                0 <= t < tokens ==> #[trigger] previous[t] == value_at(
                    scores@,
                    tokens as int,
                    frames as int,
                    lowest,
                    *combine,
                    t,
                    frame - 1,
                ),
            out.len() == token,
            forall|t: int|
                0 <= t < token ==> #[trigger] out[t] == value_at(
                    scores@,
                    tokens as int,
                    frames as int,
                    lowest,
                    *combine,
                    t,
                    frame as int,
                ),
        decreases tokens - token,
    {
        if token <= frame && tokens - token <= frames - frame {
            let stay = previous[token];
            let advance = if token > 0 {
                previous[token - 1]
            } else {
                lowest
            };
            let score = scores[token][frame];
            assert(call_requires(*combine, (stay, advance, score)));
            let value = combine(stay, advance, score);
            assert(call_ensures(*combine, (stay, advance, score), value));
            out.push(value);
        } else {
            out.push(lowest);
        }
        token = token + 1;
    }
    out
}

fn best_path<S: Copy, C: Fn(S, S, S) -> S, G: Fn(S, S) -> bool>(
    scores: &Vec<Vec<S>>,
    tokens: usize,
    frames: usize,
    lowest: S,
    combine: &C,
    exceeds: &G,
) -> (out: Vec<usize>)
    requires
        0 < tokens <= frames,
        scored(scores@, tokens as int, frames as int),
        combines::<S, C>(*combine),
        compares::<S, G>(*exceeds),
    ensures
        out.len() == frames,
        forall|f: int|
            0 <= f < frames ==> #[trigger] out[f] == path_at(
                scores@,
                tokens as int,
                frames as int,
                lowest,
                *combine,
                *exceeds,
                f,
            ),
        forall|f: int| 0 <= f < frames ==> #[trigger] out[f] < tokens,
{
    let mut columns: Vec<Vec<S>> = Vec::new();
    let mut start: Vec<S> = Vec::new();
    let mut out: Vec<usize> = Vec::new();
    let mut token: usize = 0;
    while token < tokens
        invariant
            token <= tokens,
            0 < tokens <= frames,
            scored(scores@, tokens as int, frames as int),
            start.len() == token,
            forall|t: int|
                0 <= t < token ==> #[trigger] start[t] == value_at(
                    scores@,
                    tokens as int,
                    frames as int,
                    lowest,
                    *combine,
                    t,
                    0,
                ),
        decreases tokens - token,
    {
        if token == 0 {
            start.push(scores[0][0]);
        } else {
            start.push(lowest);
        }
        token = token + 1;
    }
    columns.push(start);
    out.push(0);
    let mut frame: usize = 1;
    while frame < frames
        invariant
            1 <= frame <= frames,
            0 < tokens <= frames,
            scored(scores@, tokens as int, frames as int),
            combines::<S, C>(*combine),
            compares::<S, G>(*exceeds),
            columns.len() == frame,
            out.len() == frame,
            forall|f: int| 0 <= f < frame ==> (#[trigger] columns[f]).len() == tokens,
            forall|f: int, t: int|
                0 <= f < frame && 0 <= t < tokens ==> #[trigger] columns[f][t] == value_at(
                    scores@,
                    tokens as int,
                    frames as int,
                    lowest,
                    *combine,
                    t,
                    f,
                ),
        decreases frames - frame,
    {
        let column = fill_column(
            scores,
            tokens,
            frames,
            lowest,
            combine,
            frame,
            &columns[frame - 1],
        );
        columns.push(column);
        out.push(0);
        frame = frame + 1;
    }
    let mut current: usize = tokens - 1;
    let mut left: usize = frames;
    while left > 0
        invariant
            left <= frames,
            0 < tokens <= frames,
            current < tokens,
            combines::<S, C>(*combine),
            compares::<S, G>(*exceeds),
            columns.len() == frames,
            out.len() == frames,
            forall|f: int| 0 <= f < frames ==> (#[trigger] columns[f]).len() == tokens,
            forall|f: int, t: int|
                0 <= f < frames && 0 <= t < tokens ==> #[trigger] columns[f][t] == value_at(
                    scores@,
                    tokens as int,
                    frames as int,
                    lowest,
                    *combine,
                    t,
                    f,
                ),
            left > 0 ==> current == path_at(
                scores@,
                tokens as int,
                frames as int,
                lowest,
                *combine,
                *exceeds,
                left - 1,
            ),
            forall|f: int|
                left <= f < frames ==> #[trigger] out[f] == path_at(
                    scores@,
                    tokens as int,
                    frames as int,
                    lowest,
                    *combine,
                    *exceeds,
                    f,
                ),
            forall|f: int| left <= f < frames ==> #[trigger] out[f] < tokens,
        decreases left,
    {
        let frame: usize = left - 1;
        out.set(frame, current);
        if frame > 0 && current > 0 {
            let advance = columns[frame - 1][current - 1];
            let stay = columns[frame - 1][current];
            assert(call_requires(*exceeds, (advance, stay)));
            let steps_back = exceeds(advance, stay);
            assert(call_ensures(*exceeds, (advance, stay), steps_back));
            if steps_back {
                current = current - 1;
            }
        }
        left = frame;
    }
    out
}

/// An alignment marks one token per frame of its length, and nothing else.
pub open spec fn marks(row: Seq<Vec<bool>>, frames: int, padded_frames: int, padded_tokens: int, path: spec_fn(int) -> int) -> bool {
    &&& row.len() == padded_frames
    &&& forall|f: int| 0 <= f < padded_frames ==> (#[trigger] row[f]).len() == padded_tokens
    &&& forall|f: int, t: int|
        0 <= f < padded_frames && 0 <= t < padded_tokens ==> #[trigger] row[f][t] == (f < frames
            && t == path(f))
}

fn mark_path(path: &Vec<usize>, padded_frames: usize, padded_tokens: usize) -> (out: Vec<Vec<bool>>)
    requires
        path.len() <= padded_frames,
    ensures
        marks(
            out@,
            path.len() as int,
            padded_frames as int,
            padded_tokens as int,
            |f: int| path@[f] as int,
        ),
{
    let mut out: Vec<Vec<bool>> = Vec::new();
    let mut frame: usize = 0;
    while frame < padded_frames
        invariant
            frame <= padded_frames,
            out.len() == frame,
            forall|f: int| 0 <= f < frame ==> (#[trigger] out[f]).len() == padded_tokens,
            forall|f: int, t: int|
                0 <= f < frame && 0 <= t < padded_tokens ==> #[trigger] out[f][t] == (f < path.len()
                    && t == path@[f]),
        decreases padded_frames - frame,
    {
        let mut row: Vec<bool> = Vec::new();
        let mut token: usize = 0;
        while token < padded_tokens
            invariant
                token <= padded_tokens,
                frame < padded_frames,
                row.len() == token,
                    forall|t: int|
                    0 <= t < token ==> #[trigger] row[t] == (frame < path.len() && t == path@[frame as int]),
            decreases padded_tokens - token,
        {
            row.push(frame < path.len() && path[frame] == token);
            token = token + 1;
        }
        out.push(row);
        frame = frame + 1;
    }
    out
}

/// The best monotonic alignment of every row, `[batch, frames, tokens]`. Scores are given as
/// `[batch, tokens, frames]`, padded to common sizes.
pub fn maximum_monotonic_alignment<S: Copy, C: Fn(S, S, S) -> S, G: Fn(S, S) -> bool>(
    scores: &Vec<Vec<Vec<S>>>,
    token_lengths: &Vec<usize>,
    mel_lengths: &Vec<usize>,
    padded_tokens: usize,
    padded_frames: usize,
    lowest: S,
    combine: C,
    exceeds: G,
) -> (out: Vec<Vec<Vec<bool>>>)
    requires
        combines::<S, C>(combine),
        compares::<S, G>(exceeds),
        scores.len() == token_lengths.len(),
        scores.len() == mel_lengths.len(),
        lengths_within(token_lengths@, padded_tokens as int),
        lengths_within(mel_lengths@, padded_frames as int),
        alignable(token_lengths@, mel_lengths@),
        forall|b: int|
            0 <= b < scores.len() ==> scored(
                (#[trigger] scores[b])@,
                padded_tokens as int,
                padded_frames as int,
            ),
    ensures
        out.len() == scores.len(),
        forall|b: int|
            0 <= b < out.len() ==> marks(
                (#[trigger] out[b])@,
                mel_lengths[b] as int,
                padded_frames as int,
                padded_tokens as int,
                |frame: int|
                    path_at(
                        scores[b]@,
                        token_lengths[b] as int,
                        mel_lengths[b] as int,
                        lowest,
                        combine,
                        exceeds,
                        frame,
                    ),
            ),
{
    let mut out: Vec<Vec<Vec<bool>>> = Vec::new();
    let mut b: usize = 0;
    while b < scores.len()
        invariant
            b <= scores.len(),
            combines::<S, C>(combine),
            compares::<S, G>(exceeds),
            scores.len() == token_lengths.len(),
            scores.len() == mel_lengths.len(),
            lengths_within(token_lengths@, padded_tokens as int),
            lengths_within(mel_lengths@, padded_frames as int),
            alignable(token_lengths@, mel_lengths@),
            forall|k: int|
                0 <= k < scores.len() ==> scored(
                    (#[trigger] scores[k])@,
                    padded_tokens as int,
                    padded_frames as int,
                ),
            out.len() == b,
            forall|k: int|
                0 <= k < b ==> marks(
                    (#[trigger] out[k])@,
                    mel_lengths[k] as int,
                    padded_frames as int,
                    padded_tokens as int,
                    |frame: int|
                        path_at(
                            scores[k]@,
                            token_lengths[k] as int,
                            mel_lengths[k] as int,
                            lowest,
                            combine,
                            exceeds,
                            frame,
                        ),
                ),
        decreases scores.len() - b,
    {
        let tokens: usize = token_lengths[b];
        let frames: usize = mel_lengths[b];
        assert(scored(scores[b as int]@, padded_tokens as int, padded_frames as int));
        assert(token_lengths@[b as int] <= mel_lengths@[b as int]);
        let path = best_path(&scores[b], tokens, frames, lowest, &combine, &exceeds);
        let ghost at = |frame: int|
            path_at(
                scores[b as int]@,
                tokens as int,
                frames as int,
                lowest,
                combine,
                exceeds,
                frame,
            );
        let row = mark_path(&path, padded_frames, padded_tokens);
        assert(marks(row@, frames as int, padded_frames as int, padded_tokens as int, at));
        out.push(row);
        b = b + 1;
    }
    out
}

/// The best path never leaves the window, where every value within it exceeds the lowest.
pub proof fn path_stays_in_window<S, C: Fn(S, S, S) -> S, G: Fn(S, S) -> bool>(
    scores: Seq<Vec<S>>,
    tokens: int,
    frames: int,
    lowest: S,
    combine: C,
    exceeds: G,
    frame: int,
)
    requires
        0 < tokens <= frames,
        lowest_is_low(scores, tokens, frames, lowest, combine, exceeds),
        0 <= frame < frames,
    ensures
        in_window(
            tokens,
            frames,
            path_at(scores, tokens, frames, lowest, combine, exceeds, frame),
            frame,
        ),
    decreases frames - frame,
{
    if frame < frames - 1 {
        path_stays_in_window(scores, tokens, frames, lowest, combine, exceeds, frame + 1);
        let next = path_at(scores, tokens, frames, lowest, combine, exceeds, frame + 1);
        if next > frame {
            assert(!in_window(tokens, frames, next, frame));
            assert(in_window(tokens, frames, next - 1, frame));
            assert(exceeded(
                exceeds,
                value_at(scores, tokens, frames, lowest, combine, next - 1, frame),
                lowest,
            ));
        }
    }
}

/// The best path starts at the first token, ends at the last, and moves on by at most one token
/// per frame.
pub proof fn path_is_monotonic<S, C: Fn(S, S, S) -> S, G: Fn(S, S) -> bool>(
    scores: Seq<Vec<S>>,
    tokens: int,
    frames: int,
    lowest: S,
    combine: C,
    exceeds: G,
)
    requires
        0 < tokens <= frames,
        lowest_is_low(scores, tokens, frames, lowest, combine, exceeds),
    ensures
        path_at(scores, tokens, frames, lowest, combine, exceeds, 0) == 0,
        path_at(scores, tokens, frames, lowest, combine, exceeds, frames - 1) == tokens - 1,
        forall|frame: int|
            0 <= frame < frames - 1 ==> 0 <= path_at(
                scores,
                tokens,
                frames,
                lowest,
                combine,
                exceeds,
                frame + 1,
            ) - #[trigger] path_at(scores, tokens, frames, lowest, combine, exceeds, frame) <= 1,
{
    path_stays_in_window(scores, tokens, frames, lowest, combine, exceeds, 0);
}

/// The best path passes every token.
pub proof fn path_passes_every_token<S, C: Fn(S, S, S) -> S, G: Fn(S, S) -> bool>(
    scores: Seq<Vec<S>>,
    tokens: int,
    frames: int,
    lowest: S,
    combine: C,
    exceeds: G,
    token: int,
) -> (frame: int)
    requires
        0 < tokens <= frames,
        lowest_is_low(scores, tokens, frames, lowest, combine, exceeds),
        0 <= token < tokens,
    ensures
        0 <= frame < frames,
        path_at(scores, tokens, frames, lowest, combine, exceeds, frame) == token,
{
    path_is_monotonic(scores, tokens, frames, lowest, combine, exceeds);
    first_frame_at(scores, tokens, frames, lowest, combine, exceeds, token, frames - 1)
}

proof fn first_frame_at<S, C: Fn(S, S, S) -> S, G: Fn(S, S) -> bool>(
    scores: Seq<Vec<S>>,
    tokens: int,
    frames: int,
    lowest: S,
    combine: C,
    exceeds: G,
    token: int,
    from: int,
) -> (frame: int)
    requires
        0 < tokens <= frames,
        0 <= from < frames,
        path_at(scores, tokens, frames, lowest, combine, exceeds, 0) == 0,
        0 <= token <= path_at(scores, tokens, frames, lowest, combine, exceeds, from),
    ensures
        0 <= frame < frames,
        path_at(scores, tokens, frames, lowest, combine, exceeds, frame) == token,
    decreases from,
{
    if path_at(scores, tokens, frames, lowest, combine, exceeds, from) == token {
        from
    } else {
        first_frame_at(scores, tokens, frames, lowest, combine, exceeds, token, from - 1)
    }
}

/// How many frames mark a token.
pub open spec fn marked(row: Seq<Vec<bool>>, token: int) -> nat
    decreases row.len(),
{
    if row.len() == 0 {
        0
    } else {
        marked(row.drop_last(), token) + if row.last()[token] {
            1nat
        } else {
            0nat
        }
    }
}

/// How many marks the first tokens have together.
pub open spec fn marked_below(row: Seq<Vec<bool>>, tokens: int) -> nat
    decreases tokens,
{
    if tokens <= 0 {
        0
    } else {
        marked_below(row, tokens - 1) + marked(row, tokens - 1)
    }
}

/// The durations of an alignment: for every token, how many frames mark it.
pub fn alignment_durations(row: &Vec<Vec<bool>>, tokens: usize) -> (out: Vec<usize>)
    requires
        forall|f: int| 0 <= f < row.len() ==> (#[trigger] row[f]).len() == tokens,
    ensures
        out.len() == tokens,
        forall|t: int| 0 <= t < tokens ==> #[trigger] out[t] == marked(row@, t),
{
    let mut out: Vec<usize> = Vec::new();
    let mut token: usize = 0;
    while token < tokens
        invariant
            token <= tokens,
            forall|f: int| 0 <= f < row.len() ==> (#[trigger] row[f]).len() == tokens,
            out.len() == token,
            forall|t: int| 0 <= t < token ==> #[trigger] out[t] == marked(row@, t),
        decreases tokens - token,
    {
        let mut count: usize = 0;
        let mut frame: usize = 0;
        while frame < row.len()
            invariant
                token < tokens,
                frame <= row.len(),
                count <= frame,
                forall|f: int| 0 <= f < row.len() ==> (#[trigger] row[f]).len() == tokens,
                count == marked(row@.take(frame as int), token as int),
            decreases row.len() - frame,
        {
            proof {
                assert(row@.take(frame + 1).drop_last() =~= row@.take(frame as int));
            }
            if row[frame][token] {
                count = count + 1;
            }
            frame = frame + 1;
        }
        assert(row@.take(row.len() as int) =~= row@);
        out.push(count);
        token = token + 1;
    }
    out
}

proof fn one_more_frame(row: Seq<Vec<bool>>, tokens: int, token: int)
    requires
        row.len() > 0,
        0 <= tokens,
        forall|t: int| 0 <= t < tokens ==> #[trigger] row.last()[t] == (t == token),
    ensures
        marked_below(row, tokens) == marked_below(row.drop_last(), tokens) + if 0 <= token < tokens {
            1nat
        } else {
            0nat
        },
    decreases tokens,
{
    if tokens > 0 {
        one_more_frame(row, tokens - 1, token);
        assert(row.last()[tokens - 1] == (tokens - 1 == token));
    }
}

proof fn no_marks(row: Seq<Vec<bool>>, tokens: int)
    requires
        row.len() == 0,
    ensures
        marked_below(row, tokens) == 0,
    decreases tokens,
{
    if tokens > 0 {
        no_marks(row, tokens - 1);
    }
}

/// The durations of an alignment add up to its frames.
pub proof fn durations_add_up(
    row: Seq<Vec<bool>>,
    frames: int,
    padded_tokens: int,
    path: spec_fn(int) -> int,
)
    requires
        0 <= frames <= row.len(),
        0 <= padded_tokens,
        marks(row, frames, row.len() as int, padded_tokens, path),
        forall|f: int| 0 <= f < frames ==> 0 <= #[trigger] path(f) < padded_tokens,
    ensures
        marked_below(row, padded_tokens) == frames,
    decreases row.len(),
{
    if row.len() == 0 {
        no_marks(row, padded_tokens);
    } else {
        let last = row.len() - 1;
        let front = row.drop_last();
        let token = if last < frames {
            path(last)
        } else {
            -1
        };
        assert forall|t: int| 0 <= t < padded_tokens implies #[trigger] row.last()[t] == (t
            == token) by {
            assert(row[last][t] == (last < frames && t == path(last)));
        }
        one_more_frame(row, padded_tokens, token);
        let fewer = if last < frames {
            last
        } else {
            frames
        };
        assert forall|f: int, t: int|
            0 <= f < front.len() && 0 <= t < padded_tokens implies #[trigger] front[f][t] == (f
            < fewer && t == path(f)) by {
            assert(row[f][t] == (f < frames && t == path(f)));
        }
        assert forall|f: int| 0 <= f < front.len() implies (#[trigger] front[f]).len()
            == padded_tokens by {
            assert(row[f].len() == padded_tokens);
        }
        durations_add_up(front, fewer, padded_tokens, path);
    }
}

/// A way from the first token at the first frame to the last token at the last frame that moves on
/// by at most one token per frame.
pub open spec fn is_path(tokens: int, frames: int, path: spec_fn(int) -> int) -> bool {
    &&& path(0) == 0
    &&& path(frames - 1) == tokens - 1
    &&& forall|frame: int|
        0 < frame < frames ==> 0 <= #[trigger] path(frame) - path(frame - 1) <= 1
}

/// The scores along a path, added up to a frame.
pub open spec fn path_value<S>(
    plus: spec_fn(S, S) -> S,
    scores: Seq<Vec<S>>,
    path: spec_fn(int) -> int,
    frame: int,
) -> S
    decreases frame,
{
    if frame <= 0 {
        scores[path(0)][0]
    } else {
        plus(path_value(plus, scores, path, frame - 1), scores[path(frame)][frame])
    }
}

/// Values are ordered, addition keeps their order, and a combination adds the score to the greater
/// of the predecessors.
pub open spec fn adds_to_greater<S, C: Fn(S, S, S) -> S, G: Fn(S, S) -> bool>(
    plus: spec_fn(S, S) -> S,
    combine: C,
    exceeds: G,
) -> bool {
    &&& forall|a: S, b: S| #[trigger] exceeded(exceeds, a, b) ==> !exceeded(exceeds, b, a)
    &&& forall|a: S, b: S, c: S|
        !#[trigger] exceeded(exceeds, a, b) && !#[trigger] exceeded(exceeds, b, c) ==> !exceeded(
            exceeds,
            a,
            c,
        )
    &&& forall|a: S, b: S, x: S|
        !exceeded(exceeds, a, b) ==> !exceeded(exceeds, #[trigger] plus(a, x), #[trigger] plus(b, x))
    &&& forall|stay: S, advance: S, score: S|
        #[trigger] combined(combine, stay, advance, score) == plus(
            if exceeded(exceeds, advance, stay) {
                advance
            } else {
                stay
            },
            score,
        )
}

/// A path stays in the window.
proof fn paths_stay_in_window(tokens: int, frames: int, path: spec_fn(int) -> int, frame: int)
    requires
        0 < tokens <= frames,
        is_path(tokens, frames, path),
        0 <= frame < frames,
    ensures
        in_window(tokens, frames, path(frame), frame),
{
    path_from_start(tokens, frames, path, frame);
    path_to_end(tokens, frames, path, frame);
}

proof fn path_from_start(tokens: int, frames: int, path: spec_fn(int) -> int, frame: int)
    requires
        is_path(tokens, frames, path),
        0 <= frame < frames,
    ensures
        0 <= path(frame) <= frame,
    decreases frame,
{
    if frame > 0 {
        path_from_start(tokens, frames, path, frame - 1);
    }
}

proof fn path_to_end(tokens: int, frames: int, path: spec_fn(int) -> int, frame: int)
    requires
        is_path(tokens, frames, path),
        0 <= frame < frames,
    ensures
        path(frame) < tokens,
        tokens - path(frame) <= frames - frame,
    decreases frames - frame,
{
    if frame < frames - 1 {
        path_to_end(tokens, frames, path, frame + 1);
        assert(0 <= path(frame + 1) - path(frame + 1 - 1) <= 1);
    }
}

/// No path to a token has a greater value than the table has for it.
proof fn table_bounds_paths<S, C: Fn(S, S, S) -> S, G: Fn(S, S) -> bool>(
    scores: Seq<Vec<S>>,
    tokens: int,
    frames: int,
    lowest: S,
    combine: C,
    exceeds: G,
    plus: spec_fn(S, S) -> S,
    path: spec_fn(int) -> int,
    frame: int,
)
    requires
        0 < tokens <= frames,
        adds_to_greater(plus, combine, exceeds),
        is_path(tokens, frames, path),
        0 <= frame < frames,
    ensures
        !exceeded(
            exceeds,
            path_value(plus, scores, path, frame),
            value_at(scores, tokens, frames, lowest, combine, path(frame), frame),
        ),
    decreases frame,
{
    paths_stay_in_window(tokens, frames, path, frame);
    let token = path(frame);
    let value = value_at(scores, tokens, frames, lowest, combine, token, frame);
    if frame == 0 {
        assert(exceeded(exceeds, value, value) ==> !exceeded(exceeds, value, value));
    } else {
        table_bounds_paths(
            scores,
            tokens,
            frames,
            lowest,
            combine,
            exceeds,
            plus,
            path,
            frame - 1,
        );
        let before = path_value(plus, scores, path, frame - 1);
        let stay = value_at(scores, tokens, frames, lowest, combine, token, frame - 1);
        let advance = if token > 0 {
            value_at(scores, tokens, frames, lowest, combine, token - 1, frame - 1)
        } else {
            lowest
        };
        let greater = if exceeded(exceeds, advance, stay) {
            advance
        } else {
            stay
        };
        let score = scores[token][frame];
        assert(value == combined(combine, stay, advance, score));
        assert(value == plus(greater, score));
        assert(0 <= path(frame) - path(frame - 1) <= 1);
        let from = value_at(scores, tokens, frames, lowest, combine, path(frame - 1), frame - 1);
        paths_stay_in_window(tokens, frames, path, frame - 1);
        assert(from == stay || from == advance);
        assert(exceeded(exceeds, stay, stay) ==> !exceeded(exceeds, stay, stay));
        assert(exceeded(exceeds, advance, advance) ==> !exceeded(exceeds, advance, advance));
        assert(!exceeded(exceeds, from, greater));
        assert(!exceeded(exceeds, before, from));
        assert(!exceeded(exceeds, before, greater));
        assert(path_value(plus, scores, path, frame) == plus(before, score));
    }
}

/// The best path has the value that the table has for it.
proof fn best_path_attains<S, C: Fn(S, S, S) -> S, G: Fn(S, S) -> bool>(
    scores: Seq<Vec<S>>,
    tokens: int,
    frames: int,
    lowest: S,
    combine: C,
    exceeds: G,
    plus: spec_fn(S, S) -> S,
    frame: int,
)
    requires
        0 < tokens <= frames,
        adds_to_greater(plus, combine, exceeds),
        lowest_is_low(scores, tokens, frames, lowest, combine, exceeds),
        0 <= frame < frames,
    ensures
        path_value(
            plus,
            scores,
            |f: int| path_at(scores, tokens, frames, lowest, combine, exceeds, f),
            frame,
        ) == value_at(
            scores,
            tokens,
            frames,
            lowest,
            combine,
            path_at(scores, tokens, frames, lowest, combine, exceeds, frame),
            frame,
        ),
    decreases frame,
{
    let path = |f: int| path_at(scores, tokens, frames, lowest, combine, exceeds, f);
    path_stays_in_window(scores, tokens, frames, lowest, combine, exceeds, frame);
    let token = path(frame);
    if frame > 0 {
        best_path_attains(scores, tokens, frames, lowest, combine, exceeds, plus, frame - 1);
        path_stays_in_window(scores, tokens, frames, lowest, combine, exceeds, frame - 1);
        let stay = value_at(scores, tokens, frames, lowest, combine, token, frame - 1);
        let advance = if token > 0 {
            value_at(scores, tokens, frames, lowest, combine, token - 1, frame - 1)
        } else {
            lowest
        };
        let score = scores[token][frame];
        assert(value_at(scores, tokens, frames, lowest, combine, token, frame) == combined(
            combine,
            stay,
            advance,
            score,
        ));
        if token == 0 {
            assert(path(frame - 1) == 0);
            assert(in_window(tokens, frames, 0, frame - 1));
            assert(exceeded(exceeds, stay, lowest));
        }
        assert(path_value(plus, scores, path, frame) == plus(
            path_value(plus, scores, path, frame - 1),
            score,
        ));
    }
}

/// No path has a greater value than the best path.
pub proof fn best_path_is_best<S, C: Fn(S, S, S) -> S, G: Fn(S, S) -> bool>(
    scores: Seq<Vec<S>>,
    tokens: int,
    frames: int,
    lowest: S,
    combine: C,
    exceeds: G,
    plus: spec_fn(S, S) -> S,
    path: spec_fn(int) -> int,
)
    requires
        0 < tokens <= frames,
        adds_to_greater(plus, combine, exceeds),
        lowest_is_low(scores, tokens, frames, lowest, combine, exceeds),
        is_path(tokens, frames, path),
    ensures
        !exceeded(
            exceeds,
            path_value(plus, scores, path, frames - 1),
            path_value(
                plus,
                scores,
                |f: int| path_at(scores, tokens, frames, lowest, combine, exceeds, f),
                frames - 1,
            ),
        ),
{
    table_bounds_paths(
        scores,
        tokens,
        frames,
        lowest,
        combine,
        exceeds,
        plus,
        path,
        frames - 1,
    );
    best_path_attains(scores, tokens, frames, lowest, combine, exceeds, plus, frames - 1);
}

/// Of no frames every token has none, and one frame more adds one to the tokens that it is marked
/// for, and to no other.
pub proof fn frames_count_where_marked(
    row: &Vec<Vec<bool>>,
    more: &Vec<Vec<bool>>,
    frame: Vec<bool>,
    tokens: usize,
    before: Vec<usize>,
    after: Vec<usize>,
    token: int,
)
    requires
        more@ == row@.push(frame),
        call_requires(alignment_durations, (more, tokens)),
        call_ensures(alignment_durations, (row, tokens), before),
        call_ensures(alignment_durations, (more, tokens), after),
        0 <= token < tokens,
    ensures
        before.len() == tokens && after.len() == tokens,
        row.len() == 0 ==> before@[token] == 0,
        after@[token] == before@[token] + if frame@[token] {
            1int
        } else {
            0
        },
{
    assert(more@.drop_last() =~= row@);
}

/// The alignment of a row marks one token at each of its frames and nothing behind them. It starts
/// at the first token, ends at the last, and moves on by at most one token per frame.
pub proof fn alignments_are_monotonic<S: Copy, C: Fn(S, S, S) -> S, G: Fn(S, S) -> bool>(
    scores: &Vec<Vec<Vec<S>>>,
    token_lengths: &Vec<usize>,
    mel_lengths: &Vec<usize>,
    padded_tokens: usize,
    padded_frames: usize,
    lowest: S,
    combine: C,
    exceeds: G,
    out: Vec<Vec<Vec<bool>>>,
    b: int,
    f: int,
    t: int,
    u: int,
)
    requires
        scores.len() == token_lengths.len(),
        scores.len() == mel_lengths.len(),
        call_ensures(
            maximum_monotonic_alignment::<S, C, G>,
            (
                scores,
                token_lengths,
                mel_lengths,
                padded_tokens,
                padded_frames,
                lowest,
                combine,
                exceeds,
            ),
            out,
        ),
        0 <= b < scores.len(),
        0 < token_lengths@[b] <= mel_lengths@[b] <= padded_frames,
        token_lengths@[b] <= padded_tokens,
        lowest_is_low(
            scores@[b]@,
            token_lengths@[b] as int,
            mel_lengths@[b] as int,
            lowest,
            combine,
            exceeds,
        ),
        0 <= f < padded_frames,
        0 <= t < padded_tokens,
        0 <= u < padded_tokens,
    ensures
        out.len() == scores.len(),
        out@[b].len() == padded_frames && out@[b]@[f].len() == padded_tokens,
        f >= mel_lengths@[b] ==> !out@[b]@[f]@[t],
        f < mel_lengths@[b] ==> exists|v: int|
            0 <= v < token_lengths@[b] && #[trigger] out@[b]@[f]@[v],
        out@[b]@[f]@[t] && out@[b]@[f]@[u] ==> t == u,
        f == 0 && out@[b]@[f]@[t] ==> t == 0,
        f == mel_lengths@[b] - 1 && out@[b]@[f]@[t] ==> t == token_lengths@[b] - 1,
        f + 1 < mel_lengths@[b] && out@[b]@[f]@[t] && out@[b]@[f + 1]@[u] ==> 0 <= u - t <= 1,
{
    let row = out@[b]@;
    let tokens = token_lengths@[b] as int;
    let frames = mel_lengths@[b] as int;
    let path = |frame: int|
        path_at(scores[b]@, tokens, frames, lowest, combine, exceeds, frame);
    assert(marks(row, frames, padded_frames as int, padded_tokens as int, path));
    path_is_monotonic(scores[b]@, tokens, frames, lowest, combine, exceeds);
    assert(row[f][t] == (f < frames && t == path(f)));
    assert(row[f][u] == (f < frames && u == path(f)));
    if f < frames {
        path_stays_in_window(scores[b]@, tokens, frames, lowest, combine, exceeds, f);
        assert(row[f][path(f)]);
        assert(out@[b]@[f]@[path(f)]);
    }
    if f + 1 < frames {
        assert(row[f + 1][u] == (f + 1 < frames && u == path(f + 1)));
        assert(0 <= path(f + 1) - path_at(
            scores[b]@,
            tokens,
            frames,
            lowest,
            combine,
            exceeds,
            f,
        ) <= 1);
    }
}

proof fn equal_paths_have_equal_values<S>(
    plus: spec_fn(S, S) -> S,
    scores: Seq<Vec<S>>,
    path: spec_fn(int) -> int,
    other: spec_fn(int) -> int,
    frame: int,
)
    requires
        0 <= frame,
        forall|f: int| 0 <= f <= frame ==> #[trigger] path(f) == other(f),
    ensures
        path_value(plus, scores, path, frame) == path_value(plus, scores, other, frame),
    decreases frame,
{
    assert(path(frame) == other(frame));
    if frame > 0 {
        equal_paths_have_equal_values(plus, scores, path, other, frame - 1);
    }
}

/// No way from the first token to the last has scores that add up to more than those of the tokens
/// that an alignment marks.
pub proof fn alignments_are_best<S: Copy, C: Fn(S, S, S) -> S, G: Fn(S, S) -> bool>(
    scores: &Vec<Vec<Vec<S>>>,
    token_lengths: &Vec<usize>,
    mel_lengths: &Vec<usize>,
    padded_tokens: usize,
    padded_frames: usize,
    lowest: S,
    combine: C,
    exceeds: G,
    out: Vec<Vec<Vec<bool>>>,
    b: int,
    plus: spec_fn(S, S) -> S,
    marked_path: spec_fn(int) -> int,
    path: spec_fn(int) -> int,
)
    requires
        scores.len() == token_lengths.len(),
        scores.len() == mel_lengths.len(),
        call_ensures(
            maximum_monotonic_alignment::<S, C, G>,
            (
                scores,
                token_lengths,
                mel_lengths,
                padded_tokens,
                padded_frames,
                lowest,
                combine,
                exceeds,
            ),
            out,
        ),
        0 <= b < scores.len(),
        0 < token_lengths@[b] <= mel_lengths@[b] <= padded_frames,
        token_lengths@[b] <= padded_tokens,
        lowest_is_low(
            scores@[b]@,
            token_lengths@[b] as int,
            mel_lengths@[b] as int,
            lowest,
            combine,
            exceeds,
        ),
        adds_to_greater(plus, combine, exceeds),
        forall|f: int|
            0 <= f < mel_lengths@[b] ==> 0 <= #[trigger] marked_path(f) < padded_tokens
                && out@[b]@[f]@[marked_path(f)],
        is_path(token_lengths@[b] as int, mel_lengths@[b] as int, path),
    ensures
        !exceeded(
            exceeds,
            path_value(plus, scores@[b]@, path, mel_lengths@[b] - 1),
            path_value(plus, scores@[b]@, marked_path, mel_lengths@[b] - 1),
        ),
{
    let row = out@[b]@;
    let tokens = token_lengths@[b] as int;
    let frames = mel_lengths@[b] as int;
    let best = |f: int| path_at(scores[b]@, tokens, frames, lowest, combine, exceeds, f);
    assert(marks(row, frames, padded_frames as int, padded_tokens as int, best));
    assert forall|f: int| 0 <= f <= frames - 1 implies #[trigger] marked_path(f) == best(f) by {
        assert(row[f][marked_path(f)]);
    }
    equal_paths_have_equal_values(plus, scores@[b]@, marked_path, best, frames - 1);
    best_path_is_best(scores[b]@, tokens, frames, lowest, combine, exceeds, plus, path);
}

} // verus!
