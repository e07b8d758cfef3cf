//! Passes of a recurrent layer over a sequence.

use vstd::prelude::*;

verus! {

/// The outputs are those that a step function gives from state to state, position by position.
pub open spec fn scanned<S, O, F: Fn(usize, S) -> (S, O)>(
    step: F,
    start: S,
    states: Seq<S>,
    outputs: Seq<O>,
) -> bool {
    &&& states.len() == outputs.len() + 1
    &&& states[0] == start
    &&& forall|k: int|
        0 <= k < outputs.len() ==> call_ensures(
            step,
            (k as usize, states[k]),
            (states[k + 1], #[trigger] outputs[k]),
        )
}

/// The outputs are those that a step function gives from the last position to the first.
pub open spec fn scanned_back<S, O, F: Fn(usize, S) -> (S, O)>(
    step: F,
    start: S,
    states: Seq<S>,
    outputs: Seq<O>,
) -> bool {
    &&& states.len() == outputs.len() + 1
    &&& states.last() == start
    &&& forall|k: int|
        0 <= k < outputs.len() ==> call_ensures(
            step,
            (k as usize, states[k + 1]),
            (states[k], #[trigger] outputs[k]),
        )
}

/// Carries a state from the first position to the last and collects an output at each.
pub fn scan<S, O, F: Fn(usize, S) -> (S, O)>(count: usize, start: S, step: F) -> (out: Vec<O>)
    requires
        forall|at: usize, state: S| at < count ==> call_requires(step, (at, state)),
    ensures
        out.len() == count,
        exists|states: Seq<S>| scanned(step, start, states, out@),
{
    let ghost mut states: Seq<S> = seq![start];
    let mut out: Vec<O> = Vec::new();
    let mut state = start;
    let mut at: usize = 0;
    while at < count
        invariant
            at <= count,
            out.len() == at,
            forall|at: usize, state: S| at < count ==> call_requires(step, (at, state)),
            scanned(step, start, states, out@),
            states.last() == state,
        decreases count - at,
    {
        let (next, output) = step(at, state);
        let ghost before = states;
        let ghost collected = out@;
        out.push(output);
        proof {
            states = states.push(next);
            assert forall|k: int| 0 <= k < out@.len() implies call_ensures(
                step,
                (k as usize, states[k]),
                (states[k + 1], #[trigger] out@[k]),
            ) by {
                if k < collected.len() {
                    assert(out@[k] == collected[k]);
                    assert(states[k] == before[k]);
                    assert(states[k + 1] == before[k + 1]);
                } else {
                    assert(states[k] == before.last());
                }
            }
            assert(scanned(step, start, states, out@));
        }
        state = next;
        at = at + 1;
    }
    out
}

/// Carries a state from the last position to the first and collects an output at each, in the
/// order of the positions.
pub fn scan_back<S, O, F: Fn(usize, S) -> (S, O)>(count: usize, start: S, step: F) -> (out: Vec<O>)
    requires
        forall|at: usize, state: S| at < count ==> call_requires(step, (at, state)),
    ensures
        out.len() == count,
        exists|states: Seq<S>| scanned_back(step, start, states, out@),
{
    let ghost mut states: Seq<S> = seq![start];
    let mut backwards: Vec<O> = Vec::new();
    let mut state = start;
    let mut at: usize = count;
    while at > 0
        invariant
            at <= count,
            backwards.len() == count - at,
            forall|at: usize, state: S| at < count ==> call_requires(step, (at, state)),
            states.len() == backwards.len() + 1,
            states[0] == start,
            states.last() == state,
            forall|k: int|
                0 <= k < backwards.len() ==> call_ensures(
                    step,
                    ((count - 1 - k) as usize, states[k]),
                    (states[k + 1], #[trigger] backwards@[k]),
                ),
        decreases at,
    {
        at = at - 1;
        let (next, output) = step(at, state);
        let ghost before = states;
        let ghost collected = backwards@;
        backwards.push(output);
        proof {
            states = states.push(next);
            assert forall|k: int| 0 <= k < backwards@.len() implies call_ensures(
                step,
                ((count - 1 - k) as usize, states[k]),
                (states[k + 1], #[trigger] backwards@[k]),
            ) by {
                if k < collected.len() {
                    assert(backwards@[k] == collected[k]);
                    assert(states[k] == before[k]);
                    assert(states[k + 1] == before[k + 1]);
                } else {
                    assert(states[k] == before.last());
                }
            }
        }
        state = next;
    }
    let ghost collected = backwards@;
    let mut out: Vec<O> = Vec::new();
    while backwards.len() > 0
        invariant
            backwards.len() + out.len() == count == collected.len(),
            backwards@ == collected.take(backwards.len() as int),
            forall|k: int| 0 <= k < out.len() ==> #[trigger] out@[k] == collected[count - 1 - k],
        decreases backwards.len(),
    {
        if let Some(output) = backwards.pop() {
            out.push(output);
        }
    }
    proof {
        let turned = states.reverse();
        assert forall|k: int| 0 <= k < out@.len() implies call_ensures(
            step,
            (k as usize, turned[k + 1]),
            (turned[k], #[trigger] out@[k]),
        ) by {
            let other = count - 1 - k;
            assert(out@[k] == collected[other]);
            assert(turned[k + 1] == states[other]);
            assert(turned[k] == states[other + 1]);
            assert((count - 1 - other) as usize == k as usize);
        }
        assert(scanned_back(step, start, turned, out@));
    }
    out
}

/// The state after a number of positions, where each position gives the next state.
pub open spec fn carried<S>(next: spec_fn(usize, S) -> S, start: S, count: nat) -> S
    decreases count,
{
    if count == 0 {
        start
    } else {
        let before = (count - 1) as nat;
        next(before as usize, carried(next, start, before))
    }
}

/// The state after the positions from the last down to the given one.
pub open spec fn carried_back<S>(
    next: spec_fn(usize, S) -> S,
    start: S,
    count: nat,
    at: nat,
) -> S
    decreases count - at,
{
    if at >= count {
        start
    } else {
        next(at as usize, carried_back(next, start, count, at + 1))
    }
}

proof fn states_are_carried<S, O, F: Fn(usize, S) -> (S, O)>(
    step: F,
    next: spec_fn(usize, S) -> S,
    give: spec_fn(usize, S) -> O,
    start: S,
    states: Seq<S>,
    outputs: Seq<O>,
    k: nat,
)
    requires
        forall|at: usize, state: S, result: (S, O)|
            call_ensures(step, (at, state), result) ==> result == (next(at, state), give(
                at,
                state,
            )),
        scanned(step, start, states, outputs),
        k <= outputs.len(),
    ensures
        states[k as int] == carried(next, start, k),
    decreases k,
{
    if k > 0 {
        let before = (k - 1) as nat;
        states_are_carried(step, next, give, start, states, outputs, before);
        assert(call_ensures(
            step,
            (before as usize, states[before as int]),
            (states[k as int], outputs[before as int]),
        ));
    }
}

proof fn states_are_carried_back<S, O, F: Fn(usize, S) -> (S, O)>(
    step: F,
    next: spec_fn(usize, S) -> S,
    give: spec_fn(usize, S) -> O,
    start: S,
    states: Seq<S>,
    outputs: Seq<O>,
    k: nat,
)
    requires
        forall|at: usize, state: S, result: (S, O)|
            call_ensures(step, (at, state), result) ==> result == (next(at, state), give(
                at,
                state,
            )),
        scanned_back(step, start, states, outputs),
        k <= outputs.len(),
    ensures
        states[k as int] == carried_back(next, start, outputs.len(), k),
    decreases outputs.len() - k,
{
    if k < outputs.len() {
        states_are_carried_back(step, next, give, start, states, outputs, k + 1);
        assert(call_ensures(
            step,
            (k as usize, states[k as int + 1]),
            (states[k as int], outputs[k as int]),
        ));
    }
}

/// A pass gives at every position what the step gives there in the state that the positions before
/// it have carried from the start; a pass backwards, in the state that the positions after it have
/// carried.
pub proof fn passes_carry_their_states<S, O, F: Fn(usize, S) -> (S, O)>(
    count: usize,
    start: S,
    step: F,
    next: spec_fn(usize, S) -> S,
    give: spec_fn(usize, S) -> O,
    forward: Vec<O>,
    backward: Vec<O>,
    k: int,
)
    requires
        forall|at: usize, state: S, result: (S, O)|
            call_ensures(step, (at, state), result) ==> result == (next(at, state), give(
                at,
                state,
            )),
        call_ensures(scan::<S, O, F>, (count, start, step), forward),
        call_ensures(scan_back::<S, O, F>, (count, start, step), backward),
        0 <= k < count,
    ensures
        forward.len() == count && backward.len() == count,
        forward@[k] == give(k as usize, carried(next, start, k as nat)),
        backward@[k] == give(
            k as usize,
            carried_back(next, start, count as nat, (k + 1) as nat),
        ),
{
    let states = choose|states: Seq<S>| scanned(step, start, states, forward@);
    states_are_carried(step, next, give, start, states, forward@, k as nat);
    assert(call_ensures(step, (k as usize, states[k]), (states[k + 1], forward@[k])));
    let turned = choose|states: Seq<S>| scanned_back(step, start, states, backward@);
    states_are_carried_back(step, next, give, start, turned, backward@, (k + 1) as nat);
    assert(call_ensures(step, (k as usize, turned[k + 1]), (turned[k], backward@[k])));
}

} // verus!
