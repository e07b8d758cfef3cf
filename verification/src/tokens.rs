//! Batches of token ids.

use vstd::prelude::*;

use crate::text::{around_text, decimal, decimal_text, signed_decimal, signed_decimal_text};

verus! {

/// A rectangular batch of token ids, row after row.
#[derive(Debug, Clone)]
pub struct TokenBatch {
    pub batch: usize,
    pub tokens: usize,
    pub ids: Vec<i64>,
}

/// The largest of the ids.
pub open spec fn highest(ids: Seq<i64>) -> int
    recommends
        ids.len() > 0,
    decreases ids.len(),
{
    if ids.len() <= 1 {
        ids[0] as int
    } else {
        let before = highest(ids.drop_last());
        if before < ids.last() {
            ids.last() as int
        } else {
            before
        }
    }
}

/// The largest id is an index into a vocabulary of the given size.
pub open spec fn highest_within(ids: Seq<i64>, size: int) -> bool {
    0 <= highest(ids) < size
}

/// The largest id is at least as large as each id, and one of them.
pub proof fn highest_bounds_all(ids: Seq<i64>)
    requires
        ids.len() > 0,
    ensures
        forall|i: int| 0 <= i < ids.len() ==> #[trigger] ids[i] <= highest(ids),
        exists|i: int| 0 <= i < ids.len() && #[trigger] ids[i] == highest(ids),
    decreases ids.len(),
{
    if ids.len() == 1 {
        assert(ids[0] == highest(ids));
    } else {
        let front = ids.drop_last();
        highest_bounds_all(front);
        assert forall|i: int| 0 <= i < ids.len() implies #[trigger] ids[i] <= highest(ids) by {
            if i < front.len() {
                assert(front[i] == ids[i]);
            }
        }
        if highest(front) < ids.last() {
            assert(ids[ids.len() - 1] == highest(ids));
        } else {
            let i = choose|i: int| 0 <= i < front.len() && #[trigger] front[i] == highest(front);
            assert(ids[i] == highest(ids));
        }
    }
}

impl TokenBatch {
    /// The ids fill the rectangle.
    pub open spec fn wf(&self) -> bool {
        self.ids.len() == self.batch * self.tokens
    }

    /// There is at least one token.
    pub open spec fn non_empty(&self) -> bool {
        self.batch != 0 && self.tokens != 0
    }

    /// A batch of one row.
    pub fn single(ids: Vec<i64>) -> (out: TokenBatch)
        ensures
            out.batch == 1,
            out.tokens == ids.len(),
            out.ids == ids,
            out.wf(),
    {
        TokenBatch { batch: 1, tokens: ids.len(), ids }
    }

    /// The largest id.
    pub fn highest_id(&self) -> (out: i64)
        requires
            self.wf(),
            self.non_empty(),
        ensures
            out == highest(self.ids@),
    {
        assert(self.ids.len() > 0) by (nonlinear_arith)
            requires
                self.ids.len() == self.batch * self.tokens,
                self.batch > 0,
                self.tokens > 0,
        ;
        let mut most: i64 = self.ids[0];
        let mut i: usize = 1;
        assert(self.ids@.take(1)[0] == self.ids@[0]);
        while i < self.ids.len()
            invariant
                1 <= i <= self.ids.len(),
                most == highest(self.ids@.take(i as int)),
            decreases self.ids.len() - i,
        {
            proof {
                assert(self.ids@.take(i + 1).drop_last() =~= self.ids@.take(i as int));
            }
            if most < self.ids[i] {
                most = self.ids[i];
            }
            i = i + 1;
        }
        assert(self.ids@.take(self.ids.len() as int) =~= self.ids@);
        most
    }
}

/// The message for a largest id that is no index into the vocabulary.
pub open spec fn outside_vocabulary(highest: int, size: int) -> Seq<char> {
    "token ID "@ + signed_decimal(highest) + " is outside vocabulary 0.."@ + decimal(size as nat)
}

/// The message where the largest id of a batch is no index into a vocabulary.
pub fn vocabulary_fault(tokens: &TokenBatch, size: usize) -> (out: Option<String>)
    requires
        tokens.wf(),
        tokens.non_empty(),
    ensures
        match out {
            None => highest_within(tokens.ids@, size as int),
            Some(message) => !highest_within(tokens.ids@, size as int) && message@
                == outside_vocabulary(highest(tokens.ids@), size as int),
        },
{
    let highest_id: i64 = tokens.highest_id();
    if highest_id < 0 || highest_id as u64 >= size as u64 {
        let mut message = around_text(
            "token ID ",
            signed_decimal_text(highest_id).as_str(),
            " is outside vocabulary 0..",
        );
        message.append(decimal_text(size as u64).as_str());
        return Some(message);
    }
    None
}

/// The largest id is an index into a vocabulary exactly where no id lies beyond the vocabulary and
/// some id is not negative.
pub proof fn vocabularies_hold_the_largest(ids: Seq<i64>, size: int)
    requires
        ids.len() > 0,
    ensures
        highest_within(ids, size) <==> (exists|i: int| 0 <= i < ids.len() && #[trigger] ids[i] >= 0)
            && (forall|i: int| 0 <= i < ids.len() ==> #[trigger] ids[i] < size),
{
    highest_bounds_all(ids);
    let top = choose|i: int| 0 <= i < ids.len() && #[trigger] ids[i] == highest(ids);
    assert(ids[top] == highest(ids));
}

/// A row of ids makes a batch of one row, in its order.
pub proof fn a_row_is_a_batch(ids: Vec<i64>, batch: TokenBatch)
    requires
        call_ensures(TokenBatch::single, (ids,), batch),
    ensures
        batch.batch == 1,
        batch.tokens == ids.len(),
        batch.ids@ == ids@,
{
}

/// A batch is refused for its vocabulary exactly where an id lies beyond it or all are negative.
pub proof fn ids_beyond_vocabulary_are_refused(
    tokens: &TokenBatch,
    size: usize,
    out: Option<String>,
)
    requires
        tokens.wf(),
        tokens.non_empty(),
        call_ensures(vocabulary_fault, (tokens, size), out),
    ensures
        out is None <==> (exists|i: int|
            0 <= i < tokens.ids.len() && #[trigger] tokens.ids@[i] >= 0) && (forall|i: int|
            0 <= i < tokens.ids.len() ==> #[trigger] tokens.ids@[i] < size),
{
    assert(tokens.ids.len() > 0) by (nonlinear_arith)
        requires
            tokens.ids.len() == tokens.batch * tokens.tokens,
            tokens.batch > 0,
            tokens.tokens > 0,
    ;
    vocabularies_hold_the_largest(tokens.ids@, size as int);
}

/// The highest id is one of the batch and bounds them all.
pub proof fn highest_is_the_maximum(batch: &TokenBatch, out: i64)
    requires
        batch.wf(),
        batch.non_empty(),
        call_ensures(TokenBatch::highest_id, (batch,), out),
    ensures
        forall|i: int| 0 <= i < batch.ids.len() ==> #[trigger] batch.ids@[i] <= out,
        exists|i: int| 0 <= i < batch.ids.len() && #[trigger] batch.ids@[i] == out,
{
    assert(batch.ids.len() > 0) by (nonlinear_arith)
        requires
            batch.ids.len() == batch.batch * batch.tokens,
            batch.batch > 0,
            batch.tokens > 0,
    ;
    highest_bounds_all(batch.ids@);
}

} // verus!
