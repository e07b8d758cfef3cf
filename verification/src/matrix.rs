//! The inverse of a square matrix, by elimination with row exchanges.
//!
//! Entries are of any type: the caller says how one entry is divided by another, how a multiple
//! is taken away, which of two entries weighs more, and which one weighs too little to divide by.
//! Where these operations are those of a field, what comes out undoes the matrix.

use vstd::prelude::*;

use crate::glow_tts::GlowTtsError;

verus! {

/// The operations of an elimination.
#[verifier::reject_recursive_types(S)]
pub struct Operations<S> {
    pub zero: S,
    pub one: S,
    /// An entry divided by another.
    pub divide: spec_fn(S, S) -> S,
    /// An entry less the product of the other two.
    pub reduce: spec_fn(S, S, S) -> S,
    /// Whether an entry weighs more than another.
    pub outweighs: spec_fn(S, S) -> bool,
    /// Whether an entry weighs too little to divide by.
    pub negligible: spec_fn(S) -> bool,
}

/// Rows of the given number and width.
pub open spec fn rectangular<S>(rows: Seq<Seq<S>>, height: int, width: int) -> bool {
    &&& rows.len() == height
    &&& forall|i: int| 0 <= i < height ==> (#[trigger] rows[i]).len() == width
}

/// A square matrix, given row by row.
pub open spec fn square<S>(values: Seq<S>, size: int) -> Seq<Seq<S>> {
    Seq::new(size as nat, |i: int| Seq::new(size as nat, |j: int| values[i * size + j]))
}

impl<S> Operations<S> {
    /// The rows of the identity.
    pub open spec fn identity(self, size: int) -> Seq<Seq<S>> {
        Seq::new(
            size as nat,
            |i: int|
                Seq::new(
                    size as nat,
                    |j: int|
                        if i == j {
                            self.one
                        } else {
                            self.zero
                        },
                ),
        )
    }

    /// A matrix with the identity at its side.
    pub open spec fn augmented(self, rows: Seq<Seq<S>>) -> Seq<Seq<S>> {
        Seq::new(rows.len(), |i: int| rows[i] + self.identity(rows.len() as int)[i])
    }

    /// The last of the heaviest rows in a column, from that of the column's number on.
    pub open spec fn pivot(self, rows: Seq<Seq<S>>, column: int, end: int) -> int
        decreases end - column,
    {
        if end <= column + 1 {
            column
        } else {
            let best = self.pivot(rows, column, end - 1);
            if (self.outweighs)(rows[best][column], rows[end - 1][column]) {
                best
            } else {
                end - 1
            }
        }
    }

    /// A row divided by one of its entries.
    pub open spec fn divided(self, row: Seq<S>, column: int) -> Seq<S> {
        Seq::new(row.len(), |j: int| (self.divide)(row[j], row[column]))
    }

    /// A row less the multiple of another that its entry in a column says.
    pub open spec fn reduced(self, row: Seq<S>, other: Seq<S>, column: int) -> Seq<S> {
        Seq::new(row.len(), |j: int| (self.reduce)(row[j], row[column], other[j]))
    }

    /// Every other row less the multiple of a column's own row that its entry in that column
    /// says.
    pub open spec fn cleared(self, rows: Seq<Seq<S>>, column: int) -> Seq<Seq<S>> {
        Seq::new(
            rows.len(),
            |i: int|
                if i == column {
                    rows[i]
                } else {
                    self.reduced(rows[i], rows[column], column)
                },
        )
    }

    /// One column eliminated: its pivot is brought to its own row, that row is divided by it, and
    /// the others are cleared. None where the pivot is negligible.
    pub open spec fn step(self, rows: Seq<Seq<S>>, column: int) -> Option<Seq<Seq<S>>> {
        let pivot = self.pivot(rows, column, rows.len() as int);
        if (self.negligible)(rows[pivot][column]) {
            None
        } else {
            let exchanged = exchange(rows, column, pivot);
            Some(
                self.cleared(
                    exchanged.update(column, self.divided(exchanged[column], column)),
                    column,
                ),
            )
        }
    }

    /// The first columns eliminated.
    pub open spec fn eliminated(self, rows: Seq<Seq<S>>, columns: nat) -> Option<Seq<Seq<S>>>
        decreases columns,
    {
        if columns == 0 {
            Some(rows)
        } else {
            match self.eliminated(rows, (columns - 1) as nat) {
                Some(rows) => self.step(rows, columns - 1),
                None => None,
            }
        }
    }

    /// The right half of what a matrix with the identity at its side comes to.
    pub open spec fn inverse(self, rows: Seq<Seq<S>>) -> Option<Seq<Seq<S>>> {
        match self.eliminated(self.augmented(rows), rows.len()) {
            Some(done) => Some(
                Seq::new(
                    rows.len(),
                    |i: int| Seq::new(rows.len(), |j: int| done[i][rows.len() + j]),
                ),
            ),
            None => None,
        }
    }
}

/// Two rows exchanged.
pub open spec fn exchange<S>(rows: Seq<Seq<S>>, first: int, second: int) -> Seq<Seq<S>> {
    rows.update(first, rows[second]).update(second, rows[first])
}

/// What a function of two entries gives.
pub open spec fn of_two<S, R, F: Fn(S, S) -> R>(function: F, left: S, right: S) -> R {
    choose|out: R| call_ensures(function, (left, right), out)
}

/// What a function of three entries gives.
pub open spec fn of_three<S, F: Fn(S, S, S) -> S>(function: F, first: S, second: S, third: S) -> S {
    choose|out: S| call_ensures(function, (first, second, third), out)
}

/// What a function of one entry gives.
pub open spec fn of_one<S, F: Fn(S) -> bool>(function: F, value: S) -> bool {
    choose|out: bool| call_ensures(function, (value,), out)
}

/// The function takes any entries, and gives the same for the same ones.
pub open spec fn steady_of_two<S, R, F: Fn(S, S) -> R>(function: F) -> bool {
    &&& forall|left: S, right: S| #[trigger] call_requires(function, (left, right))
    &&& forall|left: S, right: S, out: R|
        #[trigger] call_ensures(function, (left, right), out) ==> out == of_two::<S, R, F>(
            function,
            left,
            right,
        )
}

/// The function takes any entries, and gives the same for the same ones.
pub open spec fn steady_of_three<S, F: Fn(S, S, S) -> S>(function: F) -> bool {
    &&& forall|first: S, second: S, third: S|
        #[trigger] call_requires(function, (first, second, third))
    &&& forall|first: S, second: S, third: S, out: S|
        #[trigger] call_ensures(function, (first, second, third), out) ==> out == of_three(
            function,
            first,
            second,
            third,
        )
}

/// The function takes any entry, and gives the same for the same one.
pub open spec fn steady_of_one<S, F: Fn(S) -> bool>(function: F) -> bool {
    &&& forall|value: S| #[trigger] call_requires(function, (value,))
    &&& forall|value: S, out: bool|
        #[trigger] call_ensures(function, (value,), out) ==> out == of_one(function, value)
}

/// The operations that functions stand for.
pub open spec fn operations<
    S,
    D: Fn(S, S) -> S,
    R: Fn(S, S, S) -> S,
    W: Fn(S, S) -> bool,
    N: Fn(S) -> bool,
>(zero: S, one: S, divide: D, reduce: R, outweighs: W, negligible: N) -> Operations<S> {
    Operations {
        zero,
        one,
        divide: |left: S, right: S| of_two::<S, S, D>(divide, left, right),
        reduce: |first: S, second: S, third: S| of_three(reduce, first, second, third),
        outweighs: |left: S, right: S| of_two::<S, bool, W>(outweighs, left, right),
        negligible: |value: S| of_one(negligible, value),
    }
}

/// The rows that vectors hold.
pub open spec fn rows_of<S>(rows: Seq<Vec<S>>) -> Seq<Seq<S>> {
    Seq::new(rows.len(), |i: int| rows[i]@)
}

/// A square matrix with the identity at its side.
fn augment<S: Copy>(values: &Vec<S>, size: usize, zero: S, one: S, ops: Ghost<Operations<S>>) -> (out:
    Vec<Vec<S>>)
    requires
        values.len() == size * size,
        2 * size <= usize::MAX,
        ops@.zero == zero,
        ops@.one == one,
    ensures
        rows_of(out@) == ops@.augmented(square(values@, size as int)),
{
    let mut out: Vec<Vec<S>> = Vec::new();
    let ghost given = square(values@, size as int);
    for i in 0..size
        invariant
            values.len() == size * size,
            2 * size <= usize::MAX,
            ops@.zero == zero,
            ops@.one == one,
            given == square(values@, size as int),
            out.len() == i,
            forall|k: int| 0 <= k < i ==> (#[trigger] out[k])@ == ops@.augmented(given)[k],
    {
        let mut row: Vec<S> = Vec::new();
        for j in 0..size
            invariant
                values.len() == size * size,
                i < size,
                row.len() == j,
                forall|k: int| 0 <= k < j ==> #[trigger] row[k] == values[i * size + k],
        {
            assert(i * size + j < size * size) by (nonlinear_arith)
                requires
                    i < size,
                    j < size,
            ;
            assert(0 <= i * size) by (nonlinear_arith);
            row.push(values[i * size + j]);
        }
        for j in 0..size
            invariant
                i < size,
                row.len() == size + j,
                2 * size <= usize::MAX,
                forall|k: int| 0 <= k < size ==> #[trigger] row[k] == values[i * size + k],
                forall|k: int|
                    size <= k < size + j ==> #[trigger] row[k] == if k - size == i {
                        one
                    } else {
                        zero
                    },
        {
            row.push(
                if i == j {
                    one
                } else {
                    zero
                },
            );
        }
        assert(row@ =~= ops@.augmented(given)[i as int]);
        out.push(row);
    }
    assert(rows_of(out@) =~= ops@.augmented(given));
    out
}

/// The row of a column's pivot.
fn find_pivot<S: Copy, W: Fn(S, S) -> bool>(
    rows: &Vec<Vec<S>>,
    column: usize,
    outweighs: &W,
    ops: Ghost<Operations<S>>,
) -> (out: usize)
    requires
        column < rows.len(),
        rectangular(rows_of(rows@), rows.len() as int, 2 * rows.len()),
        steady_of_two::<S, bool, W>(*outweighs),
        forall|left: S, right: S|
            #[trigger] (ops@.outweighs)(left, right) == of_two::<S, bool, W>(
                *outweighs,
                left,
                right,
            ),
    ensures
        out == ops@.pivot(rows_of(rows@), column as int, rows.len() as int),
        column <= out < rows.len(),
{
    let ghost given = rows_of(rows@);
    let mut best: usize = column;
    for end in column + 1..rows.len()
        invariant
            column < end <= rows.len(),
            rectangular(given, rows.len() as int, 2 * rows.len()),
            given == rows_of(rows@),
            steady_of_two::<S, bool, W>(*outweighs),
            forall|left: S, right: S|
                #[trigger] (ops@.outweighs)(left, right) == of_two::<S, bool, W>(
                    *outweighs,
                    left,
                    right,
                ),
            best == ops@.pivot(given, column as int, end as int),
            column <= best < end,
    {
        assert(given[best as int].len() == 2 * rows.len());
        assert(given[end as int].len() == 2 * rows.len());
        let kept = outweighs(rows[best][column], rows[end][column]);
        assert(kept == (ops@.outweighs)(given[best as int][column as int], given[end as int][column as int]));
        if !kept {
            best = end;
        }
    }
    best
}

/// The entries of a row, once more.
fn copy_row<S: Copy>(row: &Vec<S>) -> (out: Vec<S>)
    ensures
        out@ == row@,
{
    let mut out: Vec<S> = Vec::new();
    for j in 0..row.len()
        invariant
            out.len() == j,
            forall|k: int| 0 <= k < j ==> #[trigger] out[k] == row[k],
    {
        out.push(row[j]);
    }
    assert(out@ =~= row@);
    out
}

/// A row divided by its entry in a column.
fn divide_row<S: Copy, D: Fn(S, S) -> S>(
    row: &Vec<S>,
    column: usize,
    divide: &D,
    ops: Ghost<Operations<S>>,
) -> (out: Vec<S>)
    requires
        column < row.len(),
        steady_of_two::<S, S, D>(*divide),
        forall|left: S, right: S|
            #[trigger] (ops@.divide)(left, right) == of_two::<S, S, D>(*divide, left, right),
    ensures
        out@ == ops@.divided(row@, column as int),
{
    let mut out: Vec<S> = Vec::new();
    let divisor: S = row[column];
    for j in 0..row.len()
        invariant
            column < row.len(),
            divisor == row[column as int],
            steady_of_two::<S, S, D>(*divide),
            forall|left: S, right: S|
                #[trigger] (ops@.divide)(left, right) == of_two::<S, S, D>(*divide, left, right),
            out.len() == j,
            forall|k: int| 0 <= k < j ==> #[trigger] out[k] == (ops@.divide)(row[k], divisor),
    {
        let entry = divide(row[j], divisor);
        assert(entry == (ops@.divide)(row[j as int], divisor));
        out.push(entry);
    }
    assert(out@ =~= ops@.divided(row@, column as int));
    out
}

/// A row less the multiple of another that its entry in a column says.
fn reduce_row<S: Copy, R: Fn(S, S, S) -> S>(
    row: &Vec<S>,
    other: &Vec<S>,
    column: usize,
    reduce: &R,
    ops: Ghost<Operations<S>>,
) -> (out: Vec<S>)
    requires
        column < row.len(),
        other.len() == row.len(),
        steady_of_three(*reduce),
        forall|first: S, second: S, third: S|
            #[trigger] (ops@.reduce)(first, second, third) == of_three(
                *reduce,
                first,
                second,
                third,
            ),
    ensures
        out@ == ops@.reduced(row@, other@, column as int),
{
    let mut out: Vec<S> = Vec::new();
    let factor: S = row[column];
    for j in 0..row.len()
        invariant
            column < row.len(),
            other.len() == row.len(),
            factor == row[column as int],
            steady_of_three(*reduce),
            forall|first: S, second: S, third: S|
                #[trigger] (ops@.reduce)(first, second, third) == of_three(
                    *reduce,
                    first,
                    second,
                    third,
                ),
            out.len() == j,
            forall|k: int|
                0 <= k < j ==> #[trigger] out[k] == (ops@.reduce)(row[k], factor, other[k]),
    {
        let entry = reduce(row[j], factor, other[j]);
        assert(entry == (ops@.reduce)(row[j as int], factor, other[j as int]));
        out.push(entry);
    }
    assert(out@ =~= ops@.reduced(row@, other@, column as int));
    out
}

/// Eliminates one column, where its pivot is not negligible.
fn eliminate_column<
    S: Copy,
    D: Fn(S, S) -> S,
    R: Fn(S, S, S) -> S,
    W: Fn(S, S) -> bool,
    N: Fn(S) -> bool,
>(
    rows: &Vec<Vec<S>>,
    column: usize,
    divide: &D,
    reduce: &R,
    outweighs: &W,
    negligible: &N,
    ops: Ghost<Operations<S>>,
) -> (out: Option<Vec<Vec<S>>>)
    requires
        column < rows.len(),
        rectangular(rows_of(rows@), rows.len() as int, 2 * rows.len()),
        steady_of_two::<S, S, D>(*divide),
        steady_of_three(*reduce),
        steady_of_two::<S, bool, W>(*outweighs),
        steady_of_one(*negligible),
        ops@ == operations(ops@.zero, ops@.one, *divide, *reduce, *outweighs, *negligible),
    ensures
        match out {
            Some(done) => {
                &&& ops@.step(rows_of(rows@), column as int) == Some(rows_of(done@))
                &&& rectangular(rows_of(done@), rows.len() as int, 2 * rows.len())
            },
            None => ops@.step(rows_of(rows@), column as int) is None,
        },
{
    let ghost given = rows_of(rows@);
    let pivot = find_pivot(rows, column, outweighs, ops);
    assert(given[pivot as int].len() == 2 * rows.len());
    assert(given[column as int].len() == 2 * rows.len());
    if negligible(rows[pivot][column]) {
        return None;
    }
    let ghost exchanged = exchange(given, column as int, pivot as int);
    assert(exchanged[column as int] == given[pivot as int]);
    let own = divide_row(&rows[pivot], column, divide, ops);
    let ghost scaled = exchanged.update(column as int, ops@.divided(exchanged[column as int], column as int));
    assert(scaled[column as int] == own@);
    let mut done: Vec<Vec<S>> = Vec::new();
    for i in 0..rows.len()
        invariant
            column < rows.len(),
            column <= pivot < rows.len(),
            given == rows_of(rows@),
            rectangular(given, rows.len() as int, 2 * rows.len()),
            exchanged == exchange(given, column as int, pivot as int),
            scaled == exchanged.update(
                column as int,
                ops@.divided(exchanged[column as int], column as int),
            ),
            scaled[column as int] == own@,
            own.len() == 2 * rows.len(),
            steady_of_three(*reduce),
            ops@ == operations(ops@.zero, ops@.one, *divide, *reduce, *outweighs, *negligible),
            done.len() == i,
            forall|k: int|
                0 <= k < i ==> (#[trigger] done[k])@ == ops@.cleared(scaled, column as int)[k],
            forall|k: int| 0 <= k < i ==> (#[trigger] done[k]).len() == 2 * rows.len(),
    {
        if i == column {
            done.push(copy_row(&own));
        } else {
            let source: usize = if i == pivot {
                column
            } else {
                i
            };
            assert(scaled[i as int] == given[source as int]);
            assert(given[source as int].len() == 2 * rows.len());
            done.push(reduce_row(&rows[source], &own, column, reduce, ops));
        }
    }
    assert(rows_of(done@) =~= ops@.cleared(scaled, column as int));
    Some(done)
}

/// The inverse of a square matrix that is given row by row.
pub fn invert_square_matrix<
    S: Copy,
    D: Fn(S, S) -> S,
    R: Fn(S, S, S) -> S,
    W: Fn(S, S) -> bool,
    N: Fn(S) -> bool,
>(
    values: &Vec<S>,
    size: usize,
    zero: S,
    one: S,
    divide: D,
    reduce: R,
    outweighs: W,
    negligible: N,
) -> (out: Result<Vec<S>, GlowTtsError>)
    requires
        steady_of_two::<S, S, D>(divide),
        steady_of_three(reduce),
        steady_of_two::<S, bool, W>(outweighs),
        steady_of_one(negligible),
    ensures
        ({
            let ops = operations(zero, one, divide, reduce, outweighs, negligible);
            let inverse = ops.inverse(square(values@, size as int));
            match out {
                Ok(entries) => {
                    &&& values.len() == size * size && size > 0
                    &&& entries.len() == size * size
                    &&& inverse == Some(square(entries@, size as int))
                },
                Err(GlowTtsError::Checkpoint(message)) => if values.len() != size * size || size
                    == 0 {
                    message@ == "invertible convolution has an invalid matrix shape"@
                } else {
                    inverse is None && message@ == "invertible convolution weight is singular"@
                },
                Err(_) => false,
            }
        }),
{
    if size == 0 || size.checked_mul(size) != Some(values.len()) {
        return Err(
            GlowTtsError::Checkpoint(
                "invertible convolution has an invalid matrix shape".to_owned(),
            ),
        );
    }
    assert(2 * size <= usize::MAX) by {
        assert(2 * size <= size * size || size == 1) by (nonlinear_arith)
            requires
                size >= 1,
        ;
    }
    let ghost ops = operations(zero, one, divide, reduce, outweighs, negligible);
    let ghost given = square(values@, size as int);
    let mut rows: Vec<Vec<S>> = augment(values, size, zero, one, Ghost(ops));
    assert(rows_of(rows@).len() == size);
    assert(rectangular(rows_of(rows@), size as int, 2 * size)) by {
        assert forall|i: int| 0 <= i < size implies (#[trigger] rows_of(rows@)[i]).len() == 2
            * size by {
            assert(ops.augmented(given)[i].len() == 2 * size);
        }
    }
    for column in 0..size
        invariant
            rows.len() == size,
            rectangular(rows_of(rows@), size as int, 2 * size),
            steady_of_two::<S, S, D>(divide),
            steady_of_three(reduce),
            steady_of_two::<S, bool, W>(outweighs),
            steady_of_one(negligible),
            ops == operations(zero, one, divide, reduce, outweighs, negligible),
            values.len() == size * size,
            size > 0,
            given == square(values@, size as int),
            ops.eliminated(ops.augmented(given), column as nat) == Some(rows_of(rows@)),
    {
        match eliminate_column(&rows, column, &divide, &reduce, &outweighs, &negligible, Ghost(ops)) {
            Some(next) => {
                rows = next;
            },
            None => {
                proof {
                    none_stays_none(ops, ops.augmented(given), column as nat + 1, size as nat);
                }
                return Err(
                    GlowTtsError::Checkpoint(
                        "invertible convolution weight is singular".to_owned(),
                    ),
                );
            },
        }
    }
    let ghost done = rows_of(rows@);
    let mut entries: Vec<S> = Vec::new();
    for i in 0..size
        invariant
            rows.len() == size,
            done == rows_of(rows@),
            rectangular(done, size as int, 2 * size),
            2 * size <= usize::MAX,
            entries.len() == i * size,
            forall|a: int, b: int|
                #![trigger entries[a * size + b]]
                0 <= a < i && 0 <= b < size ==> entries[a * size + b] == done[a][size + b],
    {
        assert(done[i as int].len() == 2 * size);
        for j in 0..size
            invariant
                i < size,
                rows.len() == size,
                done == rows_of(rows@),
                rectangular(done, size as int, 2 * size),
                done[i as int].len() == 2 * size,
                2 * size <= usize::MAX,
                entries.len() == i * size + j,
                forall|a: int, b: int|
                    #![trigger entries[a * size + b]]
                    0 <= a < i && 0 <= b < size ==> entries[a * size + b] == done[a][size + b],
                forall|b: int| 0 <= b < j ==> entries[#[trigger] (i * size + b)] == done[i as int][size + b],
        {
            let ghost before = entries@;
            entries.push(rows[i][size + j]);
            assert forall|a: int, b: int|
                #![trigger entries[a * size + b]]
                0 <= a < i && 0 <= b < size implies entries[a * size + b] == done[a][size + b] by {
                assert(0 <= a * size + b < i * size) by (nonlinear_arith)
                    requires
                        0 <= a < i,
                        0 <= b < size,
                ;
                assert(before[a * size + b] == done[a][size + b]);
            }
        }
        assert((i + 1) * size == i * size + size) by (nonlinear_arith);
        assert forall|a: int, b: int|
            #![trigger entries[a * size + b]]
            0 <= a < i + 1 && 0 <= b < size implies entries[a * size + b] == done[a][size + b] by {
            if a == i {
                assert(entries[i * size + b] == done[i as int][size + b]);
            }
        }
    }
    assert(square(entries@, size as int) =~= ops.inverse(given).unwrap()) by {
        assert forall|a: int| 0 <= a < size implies #[trigger] square(entries@, size as int)[a]
            =~= ops.inverse(given).unwrap()[a] by {
            assert forall|b: int| 0 <= b < size implies #[trigger] square(entries@, size as int)[a][b]
                == ops.inverse(given).unwrap()[a][b] by {
                assert(entries[a * size + b] == done[a][size + b]);
            }
        }
    }
    Ok(entries)
}

/// Once a pivot is negligible, nothing comes of the columns behind.
proof fn none_stays_none<S>(ops: Operations<S>, rows: Seq<Seq<S>>, early: nat, late: nat)
    requires
        early <= late,
        ops.eliminated(rows, early) is None,
    ensures
        ops.eliminated(rows, late) is None,
    decreases late - early,
{
    if early < late {
        none_stays_none(ops, rows, early + 1, late);
    }
}

/// The addition and the multiplication of a field.
#[verifier::reject_recursive_types(S)]
pub struct Field<S> {
    pub zero: S,
    pub one: S,
    pub sum: spec_fn(S, S) -> S,
    pub product: spec_fn(S, S) -> S,
}

impl<S> Field<S> {
    /// The laws of a field. That differences and quotients are unique stands for negatives and
    /// reciprocals.
    #[verifier::opaque]
    pub open spec fn lawful(self) -> bool {
        &&& forall|a: S, b: S| #[trigger] (self.sum)(a, b) == (self.sum)(b, a)
        &&& forall|a: S, b: S, c: S|
            (self.sum)((self.sum)(a, b), c) == #[trigger] (self.sum)(a, (self.sum)(b, c))
        &&& forall|a: S| #[trigger] (self.sum)(a, self.zero) == a
        &&& forall|a: S, b: S, c: S|
            #[trigger] (self.sum)(a, c) == #[trigger] (self.sum)(b, c) ==> a == b
        &&& forall|a: S, b: S| #[trigger] (self.product)(a, b) == (self.product)(b, a)
        &&& forall|a: S, b: S, c: S|
            (self.product)((self.product)(a, b), c) == #[trigger] (self.product)(
                a,
                (self.product)(b, c),
            )
        &&& forall|a: S| #[trigger] (self.product)(a, self.one) == a
        &&& forall|a: S, b: S, c: S|
            #[trigger] (self.product)((self.sum)(a, b), c) == (self.sum)(
                (self.product)(a, c),
                (self.product)(b, c),
            )
        &&& forall|a: S, b: S, c: S|
            c != self.zero && #[trigger] (self.product)(a, c) == #[trigger] (self.product)(b, c)
                ==> a == b
    }

    /// The operations of an elimination are those of the field, and nothing that is zero is
    /// divided by.
    #[verifier::opaque]
    pub open spec fn underlies(self, ops: Operations<S>) -> bool {
        &&& ops.zero == self.zero
        &&& ops.one == self.one
        &&& forall|a: S, b: S, c: S|
            (self.sum)(#[trigger] (ops.reduce)(a, b, c), (self.product)(b, c)) == a
        &&& forall|a: S, b: S|
            b != self.zero ==> (self.product)(#[trigger] (ops.divide)(a, b), b) == a
        &&& (ops.negligible)(self.zero)
    }

    /// The first terms of what a row and the column of a matrix multiply to.
    pub open spec fn dot(self, row: Seq<S>, rows: Seq<Seq<S>>, column: int, terms: nat) -> S
        decreases terms,
    {
        if terms == 0 {
            self.zero
        } else {
            (self.sum)(
                self.dot(row, rows, column, (terms - 1) as nat),
                (self.product)(row[terms - 1], rows[terms - 1][column]),
            )
        }
    }

    /// The left half of every row is the right half multiplied with the matrix.
    spec fn follows(self, augmented: Seq<Seq<S>>, rows: Seq<Seq<S>>) -> bool {
        forall|i: int, j: int|
            0 <= i < rows.len() && 0 <= j < rows.len() ==> #[trigger] augmented[i][j] == self.dot(
                right_half(augmented[i], rows.len() as int),
                rows,
                j,
                rows.len(),
            )
    }

    /// The first columns are those of the identity.
    spec fn unit_columns(self, augmented: Seq<Seq<S>>, columns: int) -> bool {
        forall|i: int, j: int|
            0 <= i < augmented.len() && 0 <= j < columns ==> #[trigger] augmented[i][j] == if i
                == j {
                self.one
            } else {
                self.zero
            }
    }

    proof fn sum_turns(self, a: S, b: S)
        requires
            self.lawful(),
        ensures
            (self.sum)(a, b) == (self.sum)(b, a),
    {
        reveal(Field::lawful);
    }

    proof fn sum_regroups(self, a: S, b: S, c: S)
        requires
            self.lawful(),
        ensures
            (self.sum)((self.sum)(a, b), c) == (self.sum)(a, (self.sum)(b, c)),
    {
        reveal(Field::lawful);
    }

    proof fn sum_with_zero(self, a: S)
        requires
            self.lawful(),
        ensures
            (self.sum)(a, self.zero) == a,
    {
        reveal(Field::lawful);
    }

    proof fn sum_cancels(self, a: S, b: S, c: S)
        requires
            self.lawful(),
            (self.sum)(a, c) == (self.sum)(b, c),
        ensures
            a == b,
    {
        reveal(Field::lawful);
    }

    proof fn product_turns(self, a: S, b: S)
        requires
            self.lawful(),
        ensures
            (self.product)(a, b) == (self.product)(b, a),
    {
        reveal(Field::lawful);
    }

    proof fn product_regroups(self, a: S, b: S, c: S)
        requires
            self.lawful(),
        ensures
            (self.product)((self.product)(a, b), c) == (self.product)(a, (self.product)(b, c)),
    {
        reveal(Field::lawful);
    }

    proof fn product_with_one(self, a: S)
        requires
            self.lawful(),
        ensures
            (self.product)(a, self.one) == a,
    {
        reveal(Field::lawful);
    }

    proof fn product_distributes(self, a: S, b: S, c: S)
        requires
            self.lawful(),
        ensures
            (self.product)((self.sum)(a, b), c) == (self.sum)(
                (self.product)(a, c),
                (self.product)(b, c),
            ),
    {
        reveal(Field::lawful);
    }

    proof fn product_cancels(self, a: S, b: S, c: S)
        requires
            self.lawful(),
            c != self.zero,
            (self.product)(a, c) == (self.product)(b, c),
        ensures
            a == b,
    {
        reveal(Field::lawful);
    }

    proof fn product_with_zero(self, a: S)
        requires
            self.lawful(),
        ensures
            (self.product)(self.zero, a) == self.zero,
            (self.product)(a, self.zero) == self.zero,
    {
        let nothing = (self.product)(self.zero, a);
        self.sum_with_zero(self.zero);
        self.product_distributes(self.zero, self.zero, a);
        self.sum_with_zero(nothing);
        self.sum_turns(self.zero, nothing);
        self.sum_cancels(nothing, self.zero, nothing);
        self.product_turns(self.zero, a);
    }

    /// Two sums of two, added in the other order.
    proof fn sums_cross(self, a: S, b: S, c: S, d: S)
        requires
            self.lawful(),
        ensures
            (self.sum)((self.sum)(a, b), (self.sum)(c, d)) == (self.sum)(
                (self.sum)(a, c),
                (self.sum)(b, d),
            ),
    {
        self.sum_regroups(a, b, (self.sum)(c, d));
        self.sum_regroups(b, c, d);
        self.sum_turns(b, c);
        self.sum_regroups(c, b, d);
        self.sum_regroups(a, c, (self.sum)(b, d));
    }

    proof fn reducing(self, ops: Operations<S>, a: S, b: S, c: S)
        requires
            self.underlies(ops),
        ensures
            (self.sum)((ops.reduce)(a, b, c), (self.product)(b, c)) == a,
    {
        reveal(Field::underlies);
    }

    proof fn dividing(self, ops: Operations<S>, a: S, b: S)
        requires
            self.underlies(ops),
            b != self.zero,
        ensures
            (self.product)((ops.divide)(a, b), b) == a,
    {
        reveal(Field::underlies);
    }

    /// A row of the identity picks a row of a matrix.
    proof fn dot_picks(self, row: Seq<S>, rows: Seq<Seq<S>>, pick: int, column: int, terms: nat)
        requires
            self.lawful(),
            forall|k: int|
                0 <= k < terms ==> #[trigger] row[k] == if k == pick {
                    self.one
                } else {
                    self.zero
                },
        ensures
            self.dot(row, rows, column, terms) == if 0 <= pick < terms {
                rows[pick][column]
            } else {
                self.zero
            },
        decreases terms,
    {
        if terms > 0 {
            let last = terms - 1;
            let entry = rows[last][column];
            self.dot_picks(row, rows, pick, column, last as nat);
            assert(row[last] == if last == pick {
                self.one
            } else {
                self.zero
            });
            self.product_with_zero(entry);
            self.product_turns(self.one, entry);
            self.product_with_one(entry);
            self.sum_with_zero(self.dot(row, rows, column, last as nat));
            self.sum_turns(self.zero, entry);
            self.sum_with_zero(entry);
        }
    }

    /// What a divided row multiplies to is divided.
    proof fn dot_divides(
        self,
        whole: Seq<S>,
        part: Seq<S>,
        divisor: S,
        rows: Seq<Seq<S>>,
        column: int,
        terms: nat,
    )
        requires
            self.lawful(),
            forall|k: int|
                0 <= k < terms ==> (self.product)(#[trigger] part[k], divisor) == whole[k],
        ensures
            (self.product)(self.dot(part, rows, column, terms), divisor) == self.dot(
                whole,
                rows,
                column,
                terms,
            ),
        decreases terms,
    {
        if terms == 0 {
            self.product_with_zero(divisor);
        } else {
            let last = terms - 1;
            let entry = rows[last][column];
            self.dot_divides(whole, part, divisor, rows, column, last as nat);
            let before = self.dot(part, rows, column, last as nat);
            self.product_distributes(before, (self.product)(part[last], entry), divisor);
            self.product_regroups(part[last], entry, divisor);
            self.product_turns(entry, divisor);
            self.product_regroups(part[last], divisor, entry);
            assert((self.product)(part[last], divisor) == whole[last]);
        }
    }

    /// What a reduced row multiplies to is reduced.
    proof fn dot_reduces(
        self,
        whole: Seq<S>,
        part: Seq<S>,
        factor: S,
        other: Seq<S>,
        rows: Seq<Seq<S>>,
        column: int,
        terms: nat,
    )
        requires
            self.lawful(),
            forall|k: int|
                0 <= k < terms ==> (self.sum)(
                    #[trigger] part[k],
                    (self.product)(factor, other[k]),
                ) == whole[k],
        ensures
            (self.sum)(
                self.dot(part, rows, column, terms),
                (self.product)(factor, self.dot(other, rows, column, terms)),
            ) == self.dot(whole, rows, column, terms),
        decreases terms,
    {
        if terms == 0 {
            self.product_with_zero(factor);
            self.sum_with_zero(self.zero);
        } else {
            let last = terms - 1;
            let entry = rows[last][column];
            self.dot_reduces(whole, part, factor, other, rows, column, last as nat);
            let parts = self.dot(part, rows, column, last as nat);
            let others = self.dot(other, rows, column, last as nat);
            let part_term = (self.product)(part[last], entry);
            let other_term = (self.product)(other[last], entry);
            self.product_turns(factor, (self.sum)(others, other_term));
            self.product_distributes(others, other_term, factor);
            self.product_turns(others, factor);
            self.product_turns(other_term, factor);
            self.sums_cross(
                parts,
                part_term,
                (self.product)(factor, others),
                (self.product)(factor, other_term),
            );
            self.product_regroups(factor, other[last], entry);
            self.product_distributes(part[last], (self.product)(factor, other[last]), entry);
            assert((self.sum)(part[last], (self.product)(factor, other[last])) == whole[last]);
        }
    }
}

/// The right half of a row.
spec fn right_half<S>(row: Seq<S>, size: int) -> Seq<S> {
    row.subrange(size, 2 * size)
}

proof fn pivot_within<S>(ops: Operations<S>, rows: Seq<Seq<S>>, column: int, end: int)
    requires
        column < end,
    ensures
        column <= ops.pivot(rows, column, end) < end,
    decreases end - column,
{
    if end > column + 1 {
        pivot_within(ops, rows, column, end - 1);
    }
}

/// Dividing a row by its entry keeps what the halves have to do with each other, and makes the
/// entry one.
proof fn dividing_keeps<S>(
    field: Field<S>,
    ops: Operations<S>,
    augmented: Seq<Seq<S>>,
    rows: Seq<Seq<S>>,
    column: int,
)
    requires
        field.lawful(),
        field.underlies(ops),
        rectangular(augmented, rows.len() as int, 2 * rows.len() as int),
        field.follows(augmented, rows),
        field.unit_columns(augmented, column),
        0 <= column < rows.len(),
        augmented[column][column] != field.zero,
    ensures
        ({
            let next = augmented.update(column, ops.divided(augmented[column], column));
            &&& rectangular(next, rows.len() as int, 2 * rows.len() as int)
            &&& field.follows(next, rows)
            &&& field.unit_columns(next, column)
            &&& next[column][column] == field.one
        }),
{
    let size = rows.len() as int;
    let row = augmented[column];
    let divisor = row[column];
    let part = ops.divided(row, column);
    let next = augmented.update(column, part);
    assert(row.len() == 2 * size);
    assert(rectangular(next, size, 2 * size)) by {
        assert forall|i: int| 0 <= i < size implies (#[trigger] next[i]).len() == 2 * size by {
            assert(augmented[i].len() == 2 * size);
        }
    }
    assert forall|i: int, j: int| 0 <= i < size && 0 <= j < size implies #[trigger] next[i][j]
        == field.dot(right_half(next[i], size), rows, j, rows.len()) by {
        assert(augmented[i][j] == field.dot(right_half(augmented[i], size), rows, j, rows.len()));
        if i == column {
            let whole = right_half(row, size);
            let half = right_half(part, size);
            assert forall|k: int| 0 <= k < rows.len() implies (field.product)(
                #[trigger] half[k],
                divisor,
            ) == whole[k] by {
                field.dividing(ops, row[size + k], divisor);
            }
            field.dot_divides(whole, half, divisor, rows, j, rows.len());
            field.dividing(ops, row[j], divisor);
            field.product_cancels(part[j], field.dot(half, rows, j, rows.len()), divisor);
        }
    }
    assert forall|i: int, j: int|
        0 <= i < next.len() && 0 <= j < column implies #[trigger] next[i][j] == if i == j {
        field.one
    } else {
        field.zero
    } by {
        assert(augmented[i][j] == if i == j {
            field.one
        } else {
            field.zero
        });
        if i == column {
            field.dividing(ops, field.zero, divisor);
            field.product_with_zero(divisor);
            field.product_cancels(part[j], field.zero, divisor);
        }
    }
    field.dividing(ops, divisor, divisor);
    field.product_turns(field.one, divisor);
    field.product_with_one(divisor);
    field.product_cancels(part[column], field.one, divisor);
}

/// Clearing a column keeps what the halves have to do with each other, and makes the column that
/// of the identity.
proof fn clearing_keeps<S>(
    field: Field<S>,
    ops: Operations<S>,
    augmented: Seq<Seq<S>>,
    rows: Seq<Seq<S>>,
    column: int,
)
    requires
        field.lawful(),
        field.underlies(ops),
        rectangular(augmented, rows.len() as int, 2 * rows.len() as int),
        field.follows(augmented, rows),
        field.unit_columns(augmented, column),
        0 <= column < rows.len(),
        augmented[column][column] == field.one,
    ensures
        rectangular(ops.cleared(augmented, column), rows.len() as int, 2 * rows.len() as int),
        field.follows(ops.cleared(augmented, column), rows),
        field.unit_columns(ops.cleared(augmented, column), column + 1),
{
    let size = rows.len() as int;
    let other = augmented[column];
    let next = ops.cleared(augmented, column);
    assert(other.len() == 2 * size);
    assert(rectangular(next, size, 2 * size)) by {
        assert forall|i: int| 0 <= i < size implies (#[trigger] next[i]).len() == 2 * size by {
            assert(augmented[i].len() == 2 * size);
        }
    }
    assert forall|i: int, j: int| 0 <= i < size && 0 <= j < size implies #[trigger] next[i][j]
        == field.dot(right_half(next[i], size), rows, j, rows.len()) by {
        let row = augmented[i];
        assert(row.len() == 2 * size);
        assert(augmented[i][j] == field.dot(right_half(augmented[i], size), rows, j, rows.len()));
        assert(augmented[column][j] == field.dot(right_half(other, size), rows, j, rows.len()));
        if i != column {
            let factor = row[column];
            let part = ops.reduced(row, other, column);
            assert(next[i] == part);
            let whole = right_half(row, size);
            let half = right_half(part, size);
            let beside = right_half(other, size);
            assert forall|k: int| 0 <= k < rows.len() implies (field.sum)(
                #[trigger] half[k],
                (field.product)(factor, beside[k]),
            ) == whole[k] by {
                field.reducing(ops, row[size + k], factor, other[size + k]);
            }
            field.dot_reduces(whole, half, factor, beside, rows, j, rows.len());
            field.reducing(ops, row[j], factor, other[j]);
            field.sum_cancels(
                part[j],
                field.dot(half, rows, j, rows.len()),
                (field.product)(factor, other[j]),
            );
        }
    }
    assert forall|i: int, j: int|
        0 <= i < next.len() && 0 <= j < column + 1 implies #[trigger] next[i][j] == if i == j {
        field.one
    } else {
        field.zero
    } by {
        let row = augmented[i];
        assert(row.len() == 2 * size);
        if j < column {
            assert(augmented[i][j] == if i == j {
                field.one
            } else {
                field.zero
            });
            assert(augmented[column][j] == field.zero);
        }
        if i != column {
            let factor = row[column];
            let entry = (ops.reduce)(row[j], factor, other[j]);
            assert(next[i][j] == entry);
            field.reducing(ops, row[j], factor, other[j]);
            if j == column {
                field.product_with_one(factor);
                field.sum_turns(field.zero, factor);
                field.sum_with_zero(factor);
                field.sum_cancels(entry, field.zero, factor);
            } else {
                field.product_with_zero(factor);
                field.sum_with_zero(entry);
            }
        }
    }
}

/// Eliminating a column keeps what the halves have to do with each other, and makes the column
/// that of the identity.
proof fn elimination_keeps<S>(
    field: Field<S>,
    ops: Operations<S>,
    augmented: Seq<Seq<S>>,
    rows: Seq<Seq<S>>,
    column: int,
)
    requires
        field.lawful(),
        field.underlies(ops),
        rectangular(augmented, rows.len() as int, 2 * rows.len() as int),
        field.follows(augmented, rows),
        field.unit_columns(augmented, column),
        0 <= column < rows.len(),
        ops.step(augmented, column) is Some,
    ensures
        ({
            let next = ops.step(augmented, column).unwrap();
            &&& rectangular(next, rows.len() as int, 2 * rows.len() as int)
            &&& field.follows(next, rows)
            &&& field.unit_columns(next, column + 1)
        }),
{
    let size = rows.len() as int;
    let pivot = ops.pivot(augmented, column, size);
    pivot_within(ops, augmented, column, size);
    let exchanged = exchange(augmented, column, pivot);
    assert(rectangular(exchanged, size, 2 * size)) by {
        assert forall|i: int| 0 <= i < size implies (#[trigger] exchanged[i]).len() == 2 * size by {
            assert(augmented[i].len() == 2 * size);
            assert(augmented[pivot].len() == 2 * size);
            assert(augmented[column].len() == 2 * size);
        }
    }
    assert forall|i: int, j: int| 0 <= i < size && 0 <= j < size implies #[trigger] exchanged[i][j]
        == field.dot(right_half(exchanged[i], size), rows, j, rows.len()) by {
        let from = if i == pivot {
            column
        } else if i == column {
            pivot
        } else {
            i
        };
        assert(exchanged[i] == augmented[from]);
        assert(augmented[from][j] == field.dot(
            right_half(augmented[from], size),
            rows,
            j,
            rows.len(),
        ));
    }
    assert forall|i: int, j: int|
        0 <= i < exchanged.len() && 0 <= j < column implies #[trigger] exchanged[i][j] == if i
        == j {
        field.one
    } else {
        field.zero
    } by {
        let from = if i == pivot {
            column
        } else if i == column {
            pivot
        } else {
            i
        };
        assert(exchanged[i] == augmented[from]);
        assert(augmented[from][j] == if from == j {
            field.one
        } else {
            field.zero
        });
    }
    assert(exchanged[column][column] != field.zero) by {
        reveal(Field::underlies);
    }
    dividing_keeps(field, ops, exchanged, rows, column);
    let scaled = exchanged.update(column, ops.divided(exchanged[column], column));
    clearing_keeps(field, ops, scaled, rows, column);
}

proof fn eliminations_keep<S>(
    field: Field<S>,
    ops: Operations<S>,
    rows: Seq<Seq<S>>,
    columns: nat,
)
    requires
        field.lawful(),
        field.underlies(ops),
        rectangular(rows, rows.len() as int, rows.len() as int),
        columns <= rows.len(),
        ops.eliminated(ops.augmented(rows), columns) is Some,
    ensures
        ({
            let done = ops.eliminated(ops.augmented(rows), columns).unwrap();
            &&& rectangular(done, rows.len() as int, 2 * rows.len() as int)
            &&& field.follows(done, rows)
            &&& field.unit_columns(done, columns as int)
        }),
    decreases columns,
{
    let size = rows.len() as int;
    let start = ops.augmented(rows);
    if columns == 0 {
        assert forall|i: int| 0 <= i < size implies (#[trigger] start[i]).len() == 2 * size by {
            assert(rows[i].len() == size);
        }
        assert forall|i: int, j: int| 0 <= i < size && 0 <= j < size implies #[trigger] start[i][j]
            == field.dot(right_half(start[i], size), rows, j, rows.len()) by {
            assert(rows[i].len() == size);
            let half = right_half(start[i], size);
            assert forall|k: int| 0 <= k < rows.len() implies #[trigger] half[k] == if k == i {
                field.one
            } else {
                field.zero
            } by {
                reveal(Field::underlies);
                assert(half[k] == ops.identity(size)[i][k]);
            }
            field.dot_picks(half, rows, i, j, rows.len());
        }
    } else {
        eliminations_keep(field, ops, rows, (columns - 1) as nat);
        let before = ops.eliminated(start, (columns - 1) as nat).unwrap();
        elimination_keeps(field, ops, before, rows, columns - 1);
    }
}

/// Over a field, the inverse of a matrix multiplied with it is the identity.
pub proof fn inverse_undoes_matrix<S>(
    field: Field<S>,
    ops: Operations<S>,
    rows: Seq<Seq<S>>,
    i: int,
    j: int,
)
    requires
        field.lawful(),
        field.underlies(ops),
        rectangular(rows, rows.len() as int, rows.len() as int),
        ops.inverse(rows) is Some,
        0 <= i < rows.len(),
        0 <= j < rows.len(),
    ensures
        field.dot(ops.inverse(rows).unwrap()[i], rows, j, rows.len()) == if i == j {
            field.one
        } else {
            field.zero
        },
{
    eliminations_keep(field, ops, rows, rows.len());
    let done = ops.eliminated(ops.augmented(rows), rows.len()).unwrap();
    assert(done[i].len() == 2 * rows.len() as int);
    assert(done[i][j] == if i == j {
        field.one
    } else {
        field.zero
    });
    assert(right_half(done[i], rows.len() as int) =~= ops.inverse(rows).unwrap()[i]);
}

impl<S> Field<S> {
    /// Every row of the first matrix is the sum of the rows of the second, weighted by the
    /// coefficients.
    spec fn combines(
        self,
        coefficients: Seq<Seq<S>>,
        whole: Seq<Seq<S>>,
        parts: Seq<Seq<S>>,
        width: int,
    ) -> bool {
        &&& rectangular(coefficients, parts.len() as int, parts.len() as int)
        &&& forall|i: int, j: int|
            0 <= i < parts.len() && 0 <= j < width ==> #[trigger] whole[i][j] == self.dot(
                coefficients[i],
                parts,
                j,
                parts.len(),
            )
    }

    /// A row with one entry that is not zero.
    spec fn single(self, size: int, place: int, value: S) -> Seq<S> {
        Seq::new(
            size as nat,
            |k: int|
                if k == place {
                    value
                } else {
                    self.zero
                },
        )
    }

    /// The first rows of a matrix, weighted and added up.
    spec fn weighted(self, weights: Seq<S>, rows: Seq<Seq<S>>, size: int, terms: nat) -> Seq<S>
        decreases terms,
    {
        if terms == 0 {
            self.single(size, -1, self.zero)
        } else {
            let before = self.weighted(weights, rows, size, (terms - 1) as nat);
            Seq::new(
                size as nat,
                |k: int|
                    (self.sum)(before[k], (self.product)(weights[terms - 1], rows[terms - 1][k])),
            )
        }
    }

    /// A row with a single entry multiplies to that multiple of a row.
    proof fn dot_scales(
        self,
        rows: Seq<Seq<S>>,
        size: int,
        place: int,
        value: S,
        column: int,
        terms: nat,
    )
        requires
            self.lawful(),
            terms <= size,
        ensures
            self.dot(self.single(size, place, value), rows, column, terms) == if 0 <= place
                < terms {
                (self.product)(value, rows[place][column])
            } else {
                self.zero
            },
        decreases terms,
    {
        if terms > 0 {
            let last = terms - 1;
            let row = self.single(size, place, value);
            let entry = rows[last][column];
            let term = (self.product)(row[last], entry);
            self.dot_scales(rows, size, place, value, column, last as nat);
            self.product_with_zero(entry);
            self.sum_with_zero(self.dot(row, rows, column, last as nat));
            self.sum_turns(self.zero, term);
            self.sum_with_zero(term);
        }
    }

    /// A column of the identity picks an entry of a row.
    proof fn dot_reads(self, row: Seq<S>, rows: Seq<Seq<S>>, column: int, terms: nat)
        requires
            self.lawful(),
            forall|k: int|
                0 <= k < terms ==> #[trigger] rows[k][column] == if k == column {
                    self.one
                } else {
                    self.zero
                },
        ensures
            self.dot(row, rows, column, terms) == if 0 <= column < terms {
                row[column]
            } else {
                self.zero
            },
        decreases terms,
    {
        if terms > 0 {
            let last = terms - 1;
            self.dot_reads(row, rows, column, last as nat);
            assert(rows[last][column] == if last == column {
                self.one
            } else {
                self.zero
            });
            self.product_with_zero(row[last]);
            self.product_with_one(row[last]);
            self.sum_with_zero(self.dot(row, rows, column, last as nat));
            self.sum_turns(self.zero, row[last]);
            self.sum_with_zero(row[last]);
        }
    }

    /// What is multiplied decides the product.
    proof fn dot_depends(
        self,
        row: Seq<S>,
        rows: Seq<Seq<S>>,
        column: int,
        other_row: Seq<S>,
        other_rows: Seq<Seq<S>>,
        other_column: int,
        terms: nat,
    )
        requires
            forall|k: int| 0 <= k < terms ==> #[trigger] row[k] == other_row[k],
            forall|k: int|
                0 <= k < terms ==> #[trigger] rows[k][column] == other_rows[k][other_column],
        ensures
            self.dot(row, rows, column, terms) == self.dot(
                other_row,
                other_rows,
                other_column,
                terms,
            ),
        decreases terms,
    {
        if terms > 0 {
            let last = terms - 1;
            self.dot_depends(
                row,
                rows,
                column,
                other_row,
                other_rows,
                other_column,
                last as nat,
            );
            assert(row[last] == other_row[last]);
            assert(rows[last][column] == other_rows[last][other_column]);
        }
    }

    /// Rows that are weighted sums of others multiply as their weights do.
    proof fn dot_composes(
        self,
        weights: Seq<S>,
        middle: Seq<Seq<S>>,
        coefficients: Seq<Seq<S>>,
        parts: Seq<Seq<S>>,
        column: int,
        terms: nat,
    )
        requires
            self.lawful(),
            terms <= parts.len(),
            forall|k: int|
                0 <= k < terms ==> #[trigger] middle[k][column] == self.dot(
                    coefficients[k],
                    parts,
                    column,
                    parts.len(),
                ),
        ensures
            self.dot(weights, middle, column, terms) == self.dot(
                self.weighted(weights, coefficients, parts.len() as int, terms),
                parts,
                column,
                parts.len(),
            ),
        decreases terms,
    {
        let size = parts.len() as int;
        if terms == 0 {
            self.dot_scales(parts, size, -1, self.zero, column, parts.len());
        } else {
            let last = terms - 1;
            self.dot_composes(weights, middle, coefficients, parts, column, last as nat);
            assert(middle[last][column] == self.dot(
                coefficients[last],
                parts,
                column,
                parts.len(),
            ));
            self.dot_reduces(
                self.weighted(weights, coefficients, size, terms),
                self.weighted(weights, coefficients, size, last as nat),
                weights[last],
                coefficients[last],
                parts,
                column,
                parts.len(),
            );
        }
    }

    /// Weighted sums of weighted sums are weighted sums.
    proof fn combinations_compose(
        self,
        outer: Seq<Seq<S>>,
        inner: Seq<Seq<S>>,
        whole: Seq<Seq<S>>,
        middle: Seq<Seq<S>>,
        parts: Seq<Seq<S>>,
        width: int,
    ) -> (out: Seq<Seq<S>>)
        requires
            self.lawful(),
            middle.len() == parts.len(),
            self.combines(outer, whole, middle, width),
            self.combines(inner, middle, parts, width),
        ensures
            self.combines(out, whole, parts, width),
    {
        let size = parts.len() as int;
        let out = Seq::new(
            parts.len(),
            |i: int| self.weighted(outer[i], inner, size, parts.len()),
        );
        assert forall|i: int| 0 <= i < size implies (#[trigger] out[i]).len() == size by {}
        assert forall|i: int, j: int| 0 <= i < size && 0 <= j < width implies #[trigger] whole[i][j]
            == self.dot(out[i], parts, j, parts.len()) by {
            assert(whole[i][j] == self.dot(outer[i], middle, j, middle.len()));
            self.dot_composes(outer[i], middle, inner, parts, j, parts.len());
        }
        out
    }
}

/// The rows before a column is eliminated are weighted sums of those after.
proof fn elimination_combines<S>(
    field: Field<S>,
    ops: Operations<S>,
    augmented: Seq<Seq<S>>,
    column: int,
    width: int,
) -> (out: Seq<Seq<S>>)
    requires
        field.lawful(),
        field.underlies(ops),
        rectangular(augmented, augmented.len() as int, width),
        0 <= column < augmented.len(),
        column < width,
        ops.step(augmented, column) is Some,
    ensures
        rectangular(ops.step(augmented, column).unwrap(), augmented.len() as int, width),
        field.combines(out, augmented, ops.step(augmented, column).unwrap(), width),
{
    let size = augmented.len() as int;
    let pivot = ops.pivot(augmented, column, size);
    pivot_within(ops, augmented, column, size);
    let exchanged = exchange(augmented, column, pivot);
    let divisor = exchanged[column][column];
    let scaled = exchanged.update(column, ops.divided(exchanged[column], column));
    let next = ops.cleared(scaled, column);
    assert(divisor != field.zero) by {
        reveal(Field::underlies);
    }
    assert forall|i: int| 0 <= i < size implies (#[trigger] exchanged[i]).len() == width by {
        assert(augmented[i].len() == width);
        assert(augmented[pivot].len() == width);
        assert(augmented[column].len() == width);
    }
    assert forall|i: int| 0 <= i < size implies (#[trigger] scaled[i]).len() == width by {
        assert(exchanged[i].len() == width);
    }
    assert forall|i: int| 0 <= i < size implies (#[trigger] next[i]).len() == width by {
        assert(scaled[i].len() == width);
    }
    let places = Seq::new(
        size as nat,
        |i: int|
            field.single(
                size,
                if i == column {
                    pivot
                } else if i == pivot {
                    column
                } else {
                    i
                },
                field.one,
            ),
    );
    assert(field.combines(places, augmented, exchanged, width)) by {
        assert forall|i: int, j: int| 0 <= i < size && 0 <= j < width implies
            #[trigger] augmented[i][j] == field.dot(places[i], exchanged, j, exchanged.len()) by {
            let from = if i == column {
                pivot
            } else if i == pivot {
                column
            } else {
                i
            };
            field.dot_scales(exchanged, size, from, field.one, j, exchanged.len());
            field.product_turns(field.one, exchanged[from][j]);
            field.product_with_one(exchanged[from][j]);
        }
    }
    let scales = Seq::new(
        size as nat,
        |i: int|
            field.single(
                size,
                i,
                if i == column {
                    divisor
                } else {
                    field.one
                },
            ),
    );
    assert(field.combines(scales, exchanged, scaled, width)) by {
        assert forall|i: int, j: int| 0 <= i < size && 0 <= j < width implies
            #[trigger] exchanged[i][j] == field.dot(scales[i], scaled, j, scaled.len()) by {
            assert(exchanged[i].len() == width);
            if i == column {
                field.dot_scales(scaled, size, i, divisor, j, scaled.len());
                field.dividing(ops, exchanged[column][j], divisor);
                field.product_turns(divisor, scaled[i][j]);
            } else {
                field.dot_scales(scaled, size, i, field.one, j, scaled.len());
                field.product_turns(field.one, scaled[i][j]);
                field.product_with_one(scaled[i][j]);
            }
        }
    }
    let sums = Seq::new(
        size as nat,
        |i: int|
            if i == column {
                field.single(size, i, field.one)
            } else {
                Seq::new(
                    size as nat,
                    |k: int|
                        (field.sum)(
                            field.single(size, i, field.one)[k],
                            (field.product)(
                                scaled[i][column],
                                field.single(size, column, field.one)[k],
                            ),
                        ),
                )
            },
    );
    assert(field.combines(sums, scaled, next, width)) by {
        assert forall|i: int| 0 <= i < size implies (#[trigger] sums[i]).len() == size by {}
        assert forall|i: int, j: int| 0 <= i < size && 0 <= j < width implies
            #[trigger] scaled[i][j] == field.dot(sums[i], next, j, next.len()) by {
            assert(scaled[i].len() == width);
            field.dot_scales(next, size, i, field.one, j, next.len());
            field.product_turns(field.one, next[i][j]);
            field.product_with_one(next[i][j]);
            if i != column {
                let factor = scaled[i][column];
                field.dot_scales(next, size, column, field.one, j, next.len());
                field.product_turns(field.one, next[column][j]);
                field.product_with_one(next[column][j]);
                field.dot_reduces(
                    sums[i],
                    field.single(size, i, field.one),
                    factor,
                    field.single(size, column, field.one),
                    next,
                    j,
                    next.len(),
                );
                field.reducing(ops, scaled[i][j], factor, scaled[column][j]);
            }
        }
    }
    let late = field.combinations_compose(scales, sums, exchanged, scaled, next, width);
    field.combinations_compose(places, late, augmented, exchanged, next, width)
}

/// The rows at the start are weighted sums of those that are left.
proof fn eliminations_combine<S>(
    field: Field<S>,
    ops: Operations<S>,
    start: Seq<Seq<S>>,
    width: int,
    columns: nat,
) -> (out: Seq<Seq<S>>)
    requires
        field.lawful(),
        field.underlies(ops),
        rectangular(start, start.len() as int, width),
        columns <= start.len() <= width,
        ops.eliminated(start, columns) is Some,
    ensures
        rectangular(ops.eliminated(start, columns).unwrap(), start.len() as int, width),
        field.combines(out, start, ops.eliminated(start, columns).unwrap(), width),
    decreases columns,
{
    let size = start.len() as int;
    if columns == 0 {
        let out = Seq::new(start.len(), |i: int| field.single(size, i, field.one));
        assert forall|i: int, j: int| 0 <= i < size && 0 <= j < width implies #[trigger] start[i][j]
            == field.dot(out[i], start, j, start.len()) by {
            field.dot_scales(start, size, i, field.one, j, start.len());
            field.product_turns(field.one, start[i][j]);
            field.product_with_one(start[i][j]);
        }
        out
    } else {
        let outer = eliminations_combine(field, ops, start, width, (columns - 1) as nat);
        let before = ops.eliminated(start, (columns - 1) as nat).unwrap();
        let inner = elimination_combines(field, ops, before, columns - 1, width);
        field.combinations_compose(
            outer,
            inner,
            start,
            before,
            ops.eliminated(start, columns).unwrap(),
            width,
        )
    }
}

/// Over a field, a matrix multiplied with its inverse is the identity.
pub proof fn matrix_undoes_inverse<S>(
    field: Field<S>,
    ops: Operations<S>,
    rows: Seq<Seq<S>>,
    i: int,
    j: int,
)
    requires
        field.lawful(),
        field.underlies(ops),
        rectangular(rows, rows.len() as int, rows.len() as int),
        ops.inverse(rows) is Some,
        0 <= i < rows.len(),
        0 <= j < rows.len(),
    ensures
        field.dot(rows[i], ops.inverse(rows).unwrap(), j, rows.len()) == if i == j {
            field.one
        } else {
            field.zero
        },
{
    let size = rows.len() as int;
    let start = ops.augmented(rows);
    let inverse = ops.inverse(rows).unwrap();
    assert forall|k: int| 0 <= k < size implies (#[trigger] start[k]).len() == 2 * size by {
        assert(rows[k].len() == size);
    }
    eliminations_keep(field, ops, rows, rows.len());
    let done = ops.eliminated(start, rows.len()).unwrap();
    let weights = eliminations_combine(field, ops, start, 2 * size, rows.len());
    assert forall|k: int| 0 <= k < size implies #[trigger] weights[i][k] == rows[i][k] by {
        assert(rows[i].len() == size);
        assert(start[i][k] == rows[i][k]);
        assert(start[i][k] == field.dot(weights[i], done, k, rows.len()));
        assert forall|l: int| 0 <= l < size implies #[trigger] done[l][k] == if l == k {
            field.one
        } else {
            field.zero
        } by {}
        field.dot_reads(weights[i], done, k, rows.len());
    }
    assert forall|k: int| 0 <= k < size implies #[trigger] done[k][size + j] == inverse[k][j] by {}
    field.dot_depends(weights[i], done, size + j, rows[i], inverse, j, rows.len());
    assert(rows[i].len() == size);
    assert(start[i][size + j] == ops.identity(size)[i][j]);
    assert(start[i][size + j] == field.dot(weights[i], done, size + j, rows.len()));
    reveal(Field::underlies);
}

/// Where zero is negligible, and neither dividing it nor taking multiples of it away makes it
/// anything else, no matrix with a column of zeros has an inverse.
pub proof fn zero_column_is_refused<S>(ops: Operations<S>, rows: Seq<Seq<S>>, column: int)
    requires
        (ops.negligible)(ops.zero),
        forall|b: S| #[trigger] (ops.reduce)(ops.zero, b, ops.zero) == ops.zero,
        forall|d: S|
            !(ops.negligible)(d) ==> #[trigger] (ops.divide)(ops.zero, d) == ops.zero,
        rectangular(rows, rows.len() as int, rows.len() as int),
        0 <= column < rows.len(),
        forall|i: int| 0 <= i < rows.len() ==> #[trigger] rows[i][column] == ops.zero,
    ensures
        ops.inverse(rows) is None,
{
    let size = rows.len() as int;
    let start = ops.augmented(rows);
    assert forall|i: int| 0 <= i < size implies (#[trigger] start[i]).len() == 2 * size
        && start[i][column] == ops.zero by {
        assert(rows[i].len() == size);
        assert(start[i][column] == rows[i][column]);
    }
    zeros_stay(ops, start, column, 2 * size, column as nat);
    if ops.eliminated(start, column as nat) is Some {
        pivot_within(ops, ops.eliminated(start, column as nat).unwrap(), column, size);
    }
    assert(ops.eliminated(start, (column + 1) as nat) is None);
    none_stays_none(ops, start, (column + 1) as nat, rows.len());
}

proof fn zeros_stay<S>(
    ops: Operations<S>,
    start: Seq<Seq<S>>,
    column: int,
    width: int,
    columns: nat,
)
    requires
        forall|b: S| #[trigger] (ops.reduce)(ops.zero, b, ops.zero) == ops.zero,
        forall|d: S|
            !(ops.negligible)(d) ==> #[trigger] (ops.divide)(ops.zero, d) == ops.zero,
        rectangular(start, start.len() as int, width),
        columns <= column < start.len() <= width,
        forall|i: int| 0 <= i < start.len() ==> #[trigger] start[i][column] == ops.zero,
    ensures
        ops.eliminated(start, columns) matches Some(rows) ==> rectangular(
            rows,
            start.len() as int,
            width,
        ) && forall|i: int| 0 <= i < start.len() ==> #[trigger] rows[i][column] == ops.zero,
    decreases columns,
{
    if columns > 0 {
        zeros_stay(ops, start, column, width, (columns - 1) as nat);
        let size = start.len() as int;
        if ops.eliminated(start, columns) is Some {
            let at = columns - 1;
            let before = ops.eliminated(start, at as nat).unwrap();
            let pivot = ops.pivot(before, at, size);
            pivot_within(ops, before, at, size);
            let exchanged = exchange(before, at, pivot);
            let scaled = exchanged.update(at, ops.divided(exchanged[at], at));
            let after = ops.eliminated(start, columns).unwrap();
            assert(after == ops.cleared(scaled, at));
            assert forall|i: int| 0 <= i < size implies (#[trigger] scaled[i]).len() == width
                && scaled[i][column] == ops.zero by {
                let from = if i == pivot {
                    at
                } else if i == at {
                    pivot
                } else {
                    i
                };
                assert(exchanged[i] == before[from]);
                assert(before[from].len() == width);
                assert(before[from][column] == ops.zero);
            }
            assert forall|i: int| 0 <= i < size implies (#[trigger] after[i]).len() == width
                && after[i][column] == ops.zero by {
                assert(scaled[i].len() == width);
                assert(scaled[at].len() == width);
            }
        }
    }
}

/// Over a field, no matrix with a column of zeros has an inverse.
pub proof fn singular_column_is_refused<S>(
    field: Field<S>,
    ops: Operations<S>,
    rows: Seq<Seq<S>>,
    column: int,
)
    requires
        field.lawful(),
        field.underlies(ops),
        rectangular(rows, rows.len() as int, rows.len() as int),
        0 <= column < rows.len(),
        forall|i: int| 0 <= i < rows.len() ==> #[trigger] rows[i][column] == field.zero,
    ensures
        ops.inverse(rows) is None,
{
    assert(ops.zero == field.zero && (ops.negligible)(ops.zero)) by {
        reveal(Field::underlies);
    }
    assert forall|b: S| #[trigger] (ops.reduce)(ops.zero, b, ops.zero) == ops.zero by {
        let entry = (ops.reduce)(field.zero, b, field.zero);
        field.reducing(ops, field.zero, b, field.zero);
        field.product_with_zero(b);
        field.sum_with_zero(entry);
    }
    assert forall|d: S| !(ops.negligible)(d) implies #[trigger] (ops.divide)(ops.zero, d)
        == ops.zero by {
        field.dividing(ops, field.zero, d);
        field.product_with_zero(d);
        field.product_cancels((ops.divide)(field.zero, d), field.zero, d);
    }
    zero_column_is_refused(ops, rows, column);
}

/// Where weights are ordered, no row outweighs the pivot of a column, and the pivot outweighs every
/// row behind it.
pub proof fn pivot_is_heaviest<S>(
    ops: Operations<S>,
    rows: Seq<Seq<S>>,
    column: int,
    end: int,
    row: int,
)
    requires
        column <= row < end,
        forall|a: S, b: S| #[trigger] (ops.outweighs)(a, b) ==> !(ops.outweighs)(b, a),
        forall|a: S, b: S, c: S|
            !#[trigger] (ops.outweighs)(a, b) && !#[trigger] (ops.outweighs)(b, c) ==> !(
            ops.outweighs)(a, c),
    ensures
        !(ops.outweighs)(rows[row][column], rows[ops.pivot(rows, column, end)][column]),
        row > ops.pivot(rows, column, end) ==> (ops.outweighs)(
            rows[ops.pivot(rows, column, end)][column],
            rows[row][column],
        ),
    decreases end - column,
{
    if end > column + 1 {
        let best = ops.pivot(rows, column, end - 1);
        pivot_within(ops, rows, column, end - 1);
        if row < end - 1 {
            pivot_is_heaviest(ops, rows, column, end - 1, row);
        }
        assert((ops.outweighs)(rows[best][column], rows[end - 1][column]) ==> !(ops.outweighs)(
            rows[end - 1][column],
            rows[best][column],
        ));
    }
}

/// Over a field, what comes out of an inversion is the inverse on both sides: multiplied with the
/// matrix it is the identity. Only a square of entries is inverted.
pub proof fn inverses_undo_on_both_sides<
    S: Copy,
    D: Fn(S, S) -> S,
    R: Fn(S, S, S) -> S,
    W: Fn(S, S) -> bool,
    N: Fn(S) -> bool,
>(
    values: &Vec<S>,
    size: usize,
    zero: S,
    one: S,
    divide: D,
    reduce: R,
    outweighs: W,
    negligible: N,
    out: Result<Vec<S>, GlowTtsError>,
    field: Field<S>,
    i: int,
    j: int,
)
    requires
        call_ensures(
            invert_square_matrix::<S, D, R, W, N>,
            (values, size, zero, one, divide, reduce, outweighs, negligible),
            out,
        ),
        field.lawful(),
        field.underlies(operations(zero, one, divide, reduce, outweighs, negligible)),
        0 <= i < size,
        0 <= j < size,
    ensures
        out is Ok ==> values.len() == size * size,
        out matches Ok(entries) ==> {
            let same = if i == j {
                field.one
            } else {
                field.zero
            };
            let rows = square(values@, size as int);
            let inverse = square(entries@, size as int);
            &&& entries.len() == size * size
            &&& field.dot(inverse[i], rows, j, size as nat) == same
            &&& field.dot(rows[i], inverse, j, size as nat) == same
        },
        out matches Err(error) ==> error is Checkpoint,
{
    let ops = operations(zero, one, divide, reduce, outweighs, negligible);
    let rows = square(values@, size as int);
    if let Ok(entries) = out {
        inverse_undoes_matrix(field, ops, rows, i, j);
        matrix_undoes_inverse(field, ops, rows, i, j);
    }
}

} // verus!
