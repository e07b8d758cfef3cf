//! Sorting of names and of characters.

use vstd::prelude::*;

use crate::text::{characters_of, views};

verus! {

/// Lexicographic order by code points, which is the order of the UTF-8 bytes as well.
pub open spec fn text_precedes(left: Seq<char>, right: Seq<char>) -> bool
    decreases left.len(),
{
    if left.len() == 0 {
        right.len() > 0
    } else if right.len() == 0 {
        false
    } else if left[0] != right[0] {
        left[0] < right[0]
    } else {
        text_precedes(left.drop_first(), right.drop_first())
    }
}

/// The place of a text in a sorted row: after everything that does not come after it.
pub open spec fn text_place(row: Seq<Seq<char>>, text: Seq<char>) -> int
    decreases row.len(),
{
    if row.len() == 0 {
        0
    } else if text_precedes(text, row.last()) {
        text_place(row.drop_last(), text)
    } else {
        row.len() as int
    }
}

/// The texts in ascending order.
pub open spec fn sorted_texts(texts: Seq<Seq<char>>) -> Seq<Seq<char>>
    decreases texts.len(),
{
    if texts.len() == 0 {
        Seq::empty()
    } else {
        let front = sorted_texts(texts.drop_last());
        front.insert(text_place(front, texts.last()), texts.last())
    }
}

/// The place of a character in a sorted row.
pub open spec fn char_place(row: Seq<char>, c: char) -> int
    decreases row.len(),
{
    if row.len() == 0 {
        0
    } else if c < row.last() {
        char_place(row.drop_last(), c)
    } else {
        row.len() as int
    }
}

/// The characters in ascending order.
pub open spec fn sorted_chars(characters: Seq<char>) -> Seq<char>
    decreases characters.len(),
{
    if characters.len() == 0 {
        Seq::empty()
    } else {
        let front = sorted_chars(characters.drop_last());
        front.insert(char_place(front, characters.last()), characters.last())
    }
}

/// The characters without those that repeat their predecessor.
pub open spec fn without_repeats(characters: Seq<char>) -> Seq<char>
    decreases characters.len(),
{
    if characters.len() == 0 {
        Seq::empty()
    } else {
        let front = without_repeats(characters.drop_last());
        if front.len() > 0 && front.last() == characters.last() {
            front
        } else {
            front.push(characters.last())
        }
    }
}

/// Characters in ascending order.
pub open spec fn ascending_chars(characters: Seq<char>) -> bool {
    forall|i: int, j: int| 0 <= i <= j < characters.len() ==> characters[i] <= characters[j]
}

proof fn char_place_splits(row: Seq<char>, c: char)
    requires
        ascending_chars(row),
    ensures
        0 <= char_place(row, c) <= row.len(),
        forall|i: int| 0 <= i < char_place(row, c) ==> #[trigger] row[i] <= c,
        forall|i: int| char_place(row, c) <= i < row.len() ==> c < #[trigger] row[i],
    decreases row.len(),
{
    if row.len() > 0 && c < row.last() {
        let front = row.drop_last();
        assert forall|i: int, j: int| 0 <= i <= j < front.len() implies front[i] <= front[j] by {
            assert(row[i] <= row[j]);
        }
        char_place_splits(front, c);
        assert forall|i: int| 0 <= i < char_place(row, c) implies #[trigger] row[i] <= c by {
            assert(front[i] <= c);
        }
        assert forall|i: int| char_place(row, c) <= i < row.len() implies c < #[trigger] row[i] by {
            if i < front.len() {
                assert(c < front[i]);
            }
        }
    } else if row.len() > 0 {
        assert forall|i: int| 0 <= i < row.len() implies #[trigger] row[i] <= c by {
            assert(row[i] <= row[row.len() - 1]);
        }
    }
}

/// Sorting characters puts them in ascending order and neither adds nor loses one.
pub proof fn sorting_orders_chars(characters: Seq<char>)
    ensures
        ascending_chars(sorted_chars(characters)),
        sorted_chars(characters).to_multiset() == characters.to_multiset(),
        sorted_chars(characters).len() == characters.len(),
    decreases characters.len(),
{
    broadcast use vstd::seq_lib::group_to_multiset_ensures;

    if characters.len() > 0 {
        let rest = characters.drop_last();
        sorting_orders_chars(rest);
        let front = sorted_chars(rest);
        let c = characters.last();
        char_place_splits(front, c);
        let at = char_place(front, c);
        let out = front.insert(at, c);
        assert forall|i: int, j: int| 0 <= i <= j < out.len() implies out[i] <= out[j] by {
            if i < at && j > at {
                assert(front[i] <= c && c < front[j - 1]);
            } else if i > at {
                assert(front[i - 1] <= front[j - 1]);
            } else if j < at {
                assert(front[i] <= front[j]);
            }
        }
        assert(characters =~= rest.push(c));
        assert(out.to_multiset() =~= front.to_multiset().insert(c));
        assert(rest.push(c).to_multiset() =~= rest.to_multiset().insert(c));
    } else {
        assert(sorted_chars(characters) =~= characters);
    }
}

/// Dropping the repeats of a sorted row leaves every character once, in ascending order.
pub proof fn dropping_repeats_leaves_each_once(characters: Seq<char>)
    requires
        ascending_chars(characters),
    ensures
        forall|i: int, j: int|
            0 <= i < j < without_repeats(characters).len() ==> without_repeats(characters)[i]
                < without_repeats(characters)[j],
        forall|c: char|
            #![trigger without_repeats(characters).contains(c)]
            #![trigger characters.contains(c)]
            without_repeats(characters).contains(c) <==> characters.contains(c),
        characters.len() > 0 ==> without_repeats(characters).len() > 0 && without_repeats(
            characters,
        ).last() == characters.last(),
    decreases characters.len(),
{
    if characters.len() > 0 {
        let rest = characters.drop_last();
        let c = characters.last();
        assert forall|i: int, j: int| 0 <= i <= j < rest.len() implies rest[i] <= rest[j] by {
            assert(characters[i] <= characters[j]);
        }
        dropping_repeats_leaves_each_once(rest);
        let front = without_repeats(rest);
        let out = without_repeats(characters);
        if rest.len() > 0 {
            assert(characters[rest.len() - 1] <= characters[characters.len() - 1]);
        }
        assert forall|i: int, j: int| 0 <= i < j < out.len() implies out[i] < out[j] by {
            if j < front.len() {
                assert(front[i] < front[j]);
            } else if i < front.len() - 1 {
                assert(front[i] < front[front.len() - 1]);
            }
        }
        assert forall|d: char| out.contains(d) <==> characters.contains(d) by {
            if out.contains(d) {
                let i = choose|i: int| 0 <= i < out.len() && out[i] == d;
                if i < front.len() {
                    assert(front.contains(d)) by {
                        assert(front[i] == d);
                    }
                    let k = choose|k: int| 0 <= k < rest.len() && rest[k] == d;
                    assert(characters[k] == d);
                } else {
                    assert(characters[characters.len() - 1] == d);
                }
            }
            if characters.contains(d) {
                let k = choose|k: int| 0 <= k < characters.len() && characters[k] == d;
                if k < rest.len() {
                    assert(rest.contains(d)) by {
                        assert(rest[k] == d);
                    }
                    let i = choose|i: int| 0 <= i < front.len() && front[i] == d;
                    assert(out[i] == d);
                } else {
                    assert(out[out.len() - 1] == d);
                }
            }
        }
    }
}

/// Whether a text comes before another.
pub fn comes_before(left: &str, right: &str) -> (out: bool)
    ensures
        out == text_precedes(left@, right@),
{
    let first = characters_of(left);
    let second = characters_of(right);
    let mut i: usize = 0;
    assert(first@.skip(0) =~= first@);
    assert(second@.skip(0) =~= second@);
    while i < first.len() && i < second.len()
        invariant
            i <= first.len(),
            i <= second.len(),
            first@ == left@,
            second@ == right@,
            text_precedes(left@, right@) == text_precedes(
                first@.skip(i as int),
                second@.skip(i as int),
            ),
        decreases first.len() - i,
    {
        proof {
            assert(first@.skip(i as int).drop_first() =~= first@.skip(i + 1));
            assert(second@.skip(i as int).drop_first() =~= second@.skip(i + 1));
        }
        if first[i] != second[i] {
            return first[i] < second[i];
        }
        i = i + 1;
    }
    i == first.len() && i < second.len()
}

/// The texts in ascending order.
pub fn sort_texts(texts: &Vec<String>) -> (out: Vec<String>)
    ensures
        views(out@) == sorted_texts(views(texts@)),
{
    let mut out: Vec<String> = Vec::new();
    let mut i: usize = 0;
    assert(views(out@) =~= sorted_texts(views(texts@).take(0)));
    while i < texts.len()
        invariant
            i <= texts.len(),
            views(out@) == sorted_texts(views(texts@).take(i as int)),
        decreases texts.len() - i,
    {
        proof {
            assert(views(texts@).take(i + 1).drop_last() =~= views(texts@).take(i as int));
        }
        let mut at: usize = out.len();
        assert(views(out@).take(at as int) =~= views(out@));
        while at > 0 && comes_before(texts[i].as_str(), out[at - 1].as_str())
            invariant
                i < texts.len(),
                at <= out.len(),
                text_place(views(out@), texts@[i as int]@) == text_place(
                    views(out@).take(at as int),
                    texts@[i as int]@,
                ),
            decreases at,
        {
            proof {
                assert(views(out@).take(at as int).drop_last() =~= views(out@).take(at - 1));
            }
            at = at - 1;
        }
        proof {
            assert(views(out@).take(at as int).len() == at);
            assert(at > 0 ==> views(out@).take(at as int).last() == out@[at - 1]@);
            assert(text_place(views(out@), texts@[i as int]@) == at);
        }
        let ghost before = out@;
        out.insert(at, texts[i].clone());
        assert(views(out@) =~= views(before).insert(at as int, texts@[i as int]@));
        i = i + 1;
    }
    assert(views(texts@).take(texts.len() as int) =~= views(texts@));
    out
}

proof fn char_place_within(row: Seq<char>, c: char)
    ensures
        0 <= char_place(row, c) <= row.len(),
    decreases row.len(),
{
    if row.len() > 0 {
        char_place_within(row.drop_last(), c);
    }
}

fn place_of_char(row: &Vec<char>, c: char) -> (at: usize)
    ensures
        at == char_place(row@, c),
        at <= row.len(),
{
    let mut at: usize = row.len();
    assert(row@.take(at as int) =~= row@);
    while at > 0 && c < row[at - 1]
        invariant
            at <= row.len(),
            char_place(row@, c) == char_place(row@.take(at as int), c),
        decreases at,
    {
        proof {
            assert(row@.take(at as int).drop_last() =~= row@.take(at - 1));
        }
        at = at - 1;
    }
    assert(at > 0 ==> row@.take(at as int).last() == row@[at - 1]);
    at
}

/// The characters in ascending order.
pub fn sort_chars(characters: &Vec<char>) -> (out: Vec<char>)
    ensures
        out@ == sorted_chars(characters@),
{
    let mut out: Vec<char> = Vec::new();
    let mut i: usize = 0;
    while i < characters.len()
        invariant
            i <= characters.len(),
            out@ == sorted_chars(characters@.take(i as int)),
        decreases characters.len() - i,
    {
        proof {
            assert(characters@.take(i + 1).drop_last() =~= characters@.take(i as int));
        }
        let c: char = characters[i];
        let at: usize = place_of_char(&out, c);
        proof {
            assert(characters@.take(i + 1).last() == c);
            char_place_within(out@, c);
        }
        out.insert(at, c);
        i = i + 1;
    }
    assert(characters@.take(characters.len() as int) =~= characters@);
    out
}

/// The characters without those that repeat their predecessor.
pub fn drop_repeats(characters: &Vec<char>) -> (out: Vec<char>)
    ensures
        out@ == without_repeats(characters@),
{
    let mut out: Vec<char> = Vec::new();
    let mut i: usize = 0;
    while i < characters.len()
        invariant
            i <= characters.len(),
            out@ == without_repeats(characters@.take(i as int)),
        decreases characters.len() - i,
    {
        proof {
            assert(characters@.take(i + 1).drop_last() =~= characters@.take(i as int));
        }
        let c: char = characters[i];
        if out.len() == 0 || out[out.len() - 1] != c {
            out.push(c);
        }
        i = i + 1;
    }
    assert(characters@.take(characters.len() as int) =~= characters@);
    out
}

/// Texts that begin alike are ordered by what follows.
pub proof fn precedes_at(left: Seq<char>, right: Seq<char>, at: int)
    requires
        0 <= at <= left.len(),
        at <= right.len(),
        left.take(at) == right.take(at),
    ensures
        text_precedes(left, right) == text_precedes(left.skip(at), right.skip(at)),
    decreases at,
{
    if at == 0 {
        assert(left.skip(0) =~= left);
        assert(right.skip(0) =~= right);
    } else {
        assert(left.take(at)[0] == left[0] && right.take(at)[0] == right[0]);
        let shorter = left.drop_first();
        let other = right.drop_first();
        assert(shorter.take(at - 1) =~= left.take(at).drop_first());
        assert(other.take(at - 1) =~= right.take(at).drop_first());
        precedes_at(shorter, other, at - 1);
        assert(shorter.skip(at - 1) =~= left.skip(at));
        assert(other.skip(at - 1) =~= right.skip(at));
    }
}

/// The first character in which two texts differ decides which comes first. Where they do not
/// differ as far as both go, the shorter comes first; a text does not come before itself.
pub proof fn first_difference_decides(left: &str, right: &str, at: int, out: bool)
    requires
        call_ensures(comes_before, (left, right), out),
        0 <= at <= left@.len(),
        at <= right@.len(),
        left@.take(at) == right@.take(at),
    ensures
        at < left@.len() && at < right@.len() && left@[at] != right@[at] ==> out == (left@[at]
            < right@[at]),
        at == left@.len() ==> (out <==> left@.len() < right@.len()),
        at == right@.len() ==> !out,
{
    precedes_at(left@, right@, at);
}

proof fn precedes_is_total(left: Seq<char>, right: Seq<char>)
    ensures
        !(text_precedes(left, right) && text_precedes(right, left)),
        left == right || text_precedes(left, right) || text_precedes(right, left),
        left == right ==> !text_precedes(left, right),
    decreases left.len(),
{
    if left.len() > 0 && right.len() > 0 && left[0] == right[0] {
        precedes_is_total(left.drop_first(), right.drop_first());
        if left.drop_first() == right.drop_first() {
            assert(left =~= seq![left[0]] + left.drop_first());
            assert(right =~= seq![right[0]] + right.drop_first());
        }
    } else if left.len() == 0 && right.len() == 0 {
        assert(left =~= right);
    }
}

proof fn precedes_is_transitive(low: Seq<char>, middle: Seq<char>, high: Seq<char>)
    requires
        text_precedes(low, middle),
        text_precedes(middle, high),
    ensures
        text_precedes(low, high),
    decreases low.len(),
{
    if low.len() > 0 && middle.len() > 0 && high.len() > 0 && low[0] == middle[0] && middle[0]
        == high[0] {
        precedes_is_transitive(low.drop_first(), middle.drop_first(), high.drop_first());
    }
}

/// Texts in ascending order: none comes before one that stands ahead of it.
pub open spec fn ascending_texts(texts: Seq<Seq<char>>) -> bool {
    forall|i: int, j: int|
        0 <= i <= j < texts.len() ==> !text_precedes(#[trigger] texts[j], #[trigger] texts[i])
}

proof fn follows_is_transitive(low: Seq<char>, middle: Seq<char>, high: Seq<char>)
    requires
        !text_precedes(middle, low),
        !text_precedes(high, middle),
    ensures
        !text_precedes(high, low),
{
    precedes_is_total(low, middle);
    if text_precedes(high, low) && low != middle {
        precedes_is_transitive(high, low, middle);
    }
}

proof fn text_place_splits(row: Seq<Seq<char>>, text: Seq<char>)
    requires
        ascending_texts(row),
    ensures
        0 <= text_place(row, text) <= row.len(),
        forall|i: int| 0 <= i < text_place(row, text) ==> !text_precedes(text, #[trigger] row[i]),
        forall|i: int|
            text_place(row, text) <= i < row.len() ==> text_precedes(text, #[trigger] row[i]),
    decreases row.len(),
{
    if row.len() > 0 && text_precedes(text, row.last()) {
        let front = row.drop_last();
        assert forall|i: int, j: int| 0 <= i <= j < front.len() implies !text_precedes(
            #[trigger] front[j],
            #[trigger] front[i],
        ) by {
            assert(!text_precedes(row[j], row[i]));
        }
        text_place_splits(front, text);
        assert forall|i: int| 0 <= i < text_place(row, text) implies !text_precedes(
            text,
            #[trigger] row[i],
        ) by {
            assert(!text_precedes(text, front[i]));
        }
        assert forall|i: int| text_place(row, text) <= i < row.len() implies text_precedes(
            text,
            #[trigger] row[i],
        ) by {
            if i < front.len() {
                assert(text_precedes(text, front[i]));
            }
        }
    } else if row.len() > 0 {
        assert forall|i: int| 0 <= i < row.len() implies !text_precedes(
            text,
            #[trigger] row[i],
        ) by {
            assert(!text_precedes(row[row.len() - 1], row[i]));
            follows_is_transitive(row[i], row[row.len() - 1], text);
        }
    }
}

/// Sorting texts puts them in ascending order and neither adds nor loses one.
pub proof fn sorting_orders_texts(texts: Seq<Seq<char>>)
    ensures
        ascending_texts(sorted_texts(texts)),
        sorted_texts(texts).to_multiset() == texts.to_multiset(),
        sorted_texts(texts).len() == texts.len(),
    decreases texts.len(),
{
    broadcast use vstd::seq_lib::group_to_multiset_ensures;

    if texts.len() > 0 {
        let rest = texts.drop_last();
        sorting_orders_texts(rest);
        let front = sorted_texts(rest);
        let text = texts.last();
        text_place_splits(front, text);
        let at = text_place(front, text);
        let out = front.insert(at, text);
        assert forall|i: int, j: int| 0 <= i <= j < out.len() implies !text_precedes(
            #[trigger] out[j],
            #[trigger] out[i],
        ) by {
            precedes_is_total(out[i], out[j]);
            if i == at && j > at {
                assert(text_precedes(text, front[j - 1]));
            } else if i < at && j == at {
                assert(!text_precedes(text, front[i]));
            } else if i < at && j > at {
                assert(!text_precedes(front[j - 1], front[i]));
            } else if i > at {
                assert(!text_precedes(front[j - 1], front[i - 1]));
            } else if j < at {
                assert(!text_precedes(front[j], front[i]));
            }
        }
        assert(texts =~= rest.push(text));
        assert(out.to_multiset() =~= front.to_multiset().insert(text));
        assert(rest.push(text).to_multiset() =~= rest.to_multiset().insert(text));
    } else {
        assert(sorted_texts(texts) =~= texts);
    }
}

/// Sorted texts are the given ones, as often as they were given, and none comes before one that
/// stands ahead of it.
pub proof fn sorted_texts_ascend(
    texts: &Vec<String>,
    out: Vec<String>,
    i: int,
    j: int,
    earlier: &str,
    later: &str,
    before: bool,
)
    requires
        call_ensures(sort_texts, (texts,), out),
        0 <= i <= j < out.len(),
        earlier@ == out@[i]@,
        later@ == out@[j]@,
        call_ensures(comes_before, (later, earlier), before),
    ensures
        out.len() == texts.len(),
        views(out@).to_multiset() == views(texts@).to_multiset(),
        !before,
{
    sorting_orders_texts(views(texts@));
    assert(views(out@).len() == out.len());
    assert(views(out@)[i] == out@[i]@ && views(out@)[j] == out@[j]@);
}

/// Sorted characters are the given ones in ascending order; without repeats each of them is there
/// once.
pub proof fn sorted_characters_ascend(
    characters: &Vec<char>,
    sorted: Vec<char>,
    once: Vec<char>,
)
    requires
        call_ensures(sort_chars, (characters,), sorted),
        call_ensures(drop_repeats, (&sorted,), once),
    ensures
        sorted@.to_multiset() == characters@.to_multiset(),
        forall|i: int, j: int| 0 <= i <= j < sorted.len() ==> sorted@[i] <= sorted@[j],
        forall|i: int, j: int| 0 <= i < j < once.len() ==> once@[i] < once@[j],
        forall|c: char|
            #![trigger once@.contains(c)]
            once@.contains(c) <==> characters@.contains(c),
{
    broadcast use vstd::seq_lib::group_to_multiset_ensures;

    sorting_orders_chars(characters@);
    dropping_repeats_leaves_each_once(sorted@);
    assert forall|c: char|
        #![trigger once@.contains(c)]
        once@.contains(c) <==> characters@.contains(c) by {
        assert(sorted@.contains(c) <==> sorted@.to_multiset().count(c) > 0);
        assert(characters@.contains(c) <==> characters@.to_multiset().count(c) > 0);
    }
}

} // verus!
