//! How the tiles of a media album are distributed over rows.

use vstd::prelude::*;

verus! {

/// The sum of the numbers.
pub open spec fn sum_of(numbers: Seq<usize>) -> int
    decreases numbers.len(),
{
    if numbers.len() == 0 {
        0
    } else {
        sum_of(numbers.drop_last()) + numbers.last()
    }
}

/// The numbers of items of the rows of a large album: rows of three, with the
/// remainder distributed over the last rows.
pub open spec fn large_row_splits(n: nat) -> Seq<usize> {
    let threes = Seq::new((n / 3) as nat, |i: int| 3usize);
    if n % 3 == 0 {
        threes
    } else if n % 3 == 1 {
        threes.drop_last().push(4)
    } else {
        threes.push(2)
    }
}

/// The numbers of items of the rows of an album.
pub open spec fn row_splits_of(n: nat, are_portraits: bool) -> Seq<usize> {
    if n == 0 {
        seq![]
    } else if n == 1 {
        seq![1]
    } else if n == 2 {
        if are_portraits {
            seq![2]
        } else {
            seq![1, 1]
        }
    } else if n == 3 {
        seq![1, 2]
    } else if n == 4 {
        seq![2, 2]
    } else if n == 5 {
        seq![3, 2]
    } else if n == 6 {
        seq![3, 3]
    } else if n == 7 {
        seq![3, 2, 2]
    } else if n == 8 {
        seq![3, 3, 2]
    } else if n == 9 {
        seq![3, 3, 3]
    } else {
        large_row_splits(n)
    }
}

/// A row of an album: the items from `start` up to, but not including, `end`.
#[derive(Clone, Copy, Debug, PartialEq, Eq, Structural)]
pub struct AlbumRow {
    pub start: usize,
    pub end: usize,
}

/// The rows that the splits stand for.
pub open spec fn rows_of(splits: Seq<usize>) -> Seq<AlbumRow> {
    Seq::new(
        splits.len(),
        |i: int|
            AlbumRow {
                start: sum_of(splits.take(i)) as usize,
                end: sum_of(splits.take(i + 1)) as usize,
            },
    )
}

proof fn lemma_sum_of_threes(count: nat)
    ensures
        sum_of(Seq::new(count, |i: int| 3usize)) == 3 * count,
    decreases count,
{
    let threes = Seq::new(count, |i: int| 3usize);
    if count > 0 {
        lemma_sum_of_threes((count - 1) as nat);
        assert(threes.drop_last() =~= Seq::new((count - 1) as nat, |i: int| 3usize));
    }
}

/// The sum of the first numbers is not larger than the sum of all of them.
proof fn lemma_sum_of_prefix(numbers: Seq<usize>, count: int)
    requires
        0 <= count <= numbers.len(),
    ensures
        0 <= sum_of(numbers.take(count)) <= sum_of(numbers),
    decreases numbers.len(),
{
    if count == numbers.len() {
        assert(numbers.take(count) =~= numbers);
        if numbers.len() > 0 {
            lemma_sum_of_prefix(numbers.drop_last(), numbers.len() - 1);
            assert(numbers.drop_last().take(numbers.len() - 1) =~= numbers.drop_last());
        }
    } else {
        lemma_sum_of_prefix(numbers.drop_last(), count);
        assert(numbers.drop_last().take(count) =~= numbers.take(count));
    }
}

/// The rows hold all items, and every row holds between one and four of them.
pub proof fn law_rows_hold_all_items(n: nat, are_portraits: bool)
    ensures
        sum_of(row_splits_of(n, are_portraits)) == n,
        forall|i: int|
            0 <= i < row_splits_of(n, are_portraits).len() ==> 1 <= #[trigger] row_splits_of(
                n,
                are_portraits,
            )[i] <= 4,
{
    let splits = row_splits_of(n, are_portraits);
    if n >= 10 {
        let threes = Seq::new((n / 3) as nat, |i: int| 3usize);
        lemma_sum_of_threes((n / 3) as nat);
        if n % 3 == 1 {
            assert(splits.drop_last() =~= threes.drop_last());
            assert(threes.last() == 3);
        } else if n % 3 == 2 {
            assert(splits.drop_last() =~= threes);
        }
    } else {
        reveal_with_fuel(sum_of, 4);
        if splits.len() >= 1 {
            assert(splits.drop_last() =~= splits.take(splits.len() - 1));
        }
        if splits.len() >= 2 {
            assert(splits.drop_last().drop_last() =~= splits.take(splits.len() - 2));
        }
        if splits.len() >= 3 {
            assert(splits.drop_last().drop_last().drop_last() =~= splits.take(0));
        }
    }
}

/// In an album of four or more items, the rows of three come first, and the
/// remainder is in the last rows.
pub proof fn law_remainder_is_in_last_rows(n: nat, are_portraits: bool, i: int, j: int)
    requires
        n >= 4,
        0 <= i < j < row_splits_of(n, are_portraits).len(),
        row_splits_of(n, are_portraits)[j] == 3,
    ensures
        row_splits_of(n, are_portraits)[i] == 3,
{
}

/// The rows follow one another without a gap, from the first item to the last
/// one.
pub proof fn law_rows_are_consecutive(n: usize, are_portraits: bool)
    requires
        n > 0,
    ensures
        ({
            let rows = rows_of(row_splits_of(n as nat, are_portraits));
            &&& rows.len() > 0
            &&& rows[0].start == 0
            &&& rows.last().end == n
            &&& forall|i: int|
                0 <= i < rows.len() - 1 ==> (#[trigger] rows[i]).end == rows[i + 1].start
            &&& forall|i: int| 0 <= i < rows.len() ==> (#[trigger] rows[i]).start < rows[i].end
        }),
{
    let splits = row_splits_of(n as nat, are_portraits);
    let rows = rows_of(splits);
    law_rows_hold_all_items(n as nat, are_portraits);
    assert(splits.take(splits.len() as int) =~= splits);
    assert(splits.take(0) =~= Seq::empty());
    assert forall|i: int| 0 <= i < rows.len() implies (#[trigger] rows[i]).start < rows[i].end by {
        lemma_sum_of_prefix(splits, i);
        lemma_sum_of_prefix(splits, i + 1);
        assert(splits.take(i + 1).drop_last() =~= splits.take(i));
        assert(splits[i] >= 1);
    }
}

/// Selects the row split pattern of an album, i.e. the number of items of every
/// row, based on the item count and on whether both items of a pair are
/// portraits.
///
/// Two portrait items share a single row, while other pairs are stacked. Three
/// items are laid out with the oldest one as a full-width tile on top of a row
/// of two. Larger albums are grouped in rows of three, with the remainder
/// distributed over the last rows.
pub fn row_splits(n: usize, are_portraits: bool) -> (splits: Vec<usize>)
    ensures
        splits@ == row_splits_of(n as nat, are_portraits),
{
    let splits: Vec<usize> = match n {
        0 => vec![],
        1 => vec![1],
        2 => {
            if are_portraits {
                vec![2]
            } else {
                vec![1, 1]
            }
        },
        3 => vec![1, 2],
        4 => vec![2, 2],
        5 => vec![3, 2],
        6 => vec![3, 3],
        7 => vec![3, 2, 2],
        8 => vec![3, 3, 2],
        9 => vec![3, 3, 3],
        _ => large_row_splits_exec(n),
    };
    assert(splits@ =~= row_splits_of(n as nat, are_portraits));
    splits
}

fn large_row_splits_exec(n: usize) -> (splits: Vec<usize>)
    requires
        n >= 10,
    ensures
        splits@ == large_row_splits(n as nat),
{
    let count: usize = n / 3;
    let mut splits: Vec<usize> = Vec::with_capacity(count);
    let mut i: usize = 0;
    while i < count
        invariant
            i <= count,
            splits@ == Seq::new(i as nat, |i: int| 3usize),
        decreases count - i,
    {
        splits.push(3);
        i = i + 1;
        assert(splits@ =~= Seq::new(i as nat, |i: int| 3usize));
    }
    let rest: usize = n % 3;
    if rest == 1 {
        splits.pop();
        splits.push(4);
    } else if rest == 2 {
        splits.push(2);
    }
    assert(splits@ =~= large_row_splits(n as nat));
    splits
}

/// The rows of an album with the given number of items.
pub fn album_rows(n: usize, are_portraits: bool) -> (rows: Vec<AlbumRow>)
    ensures
        rows@ == rows_of(row_splits_of(n as nat, are_portraits)),
{
    let splits = row_splits(n, are_portraits);
    let mut rows: Vec<AlbumRow> = Vec::with_capacity(splits.len());
    let mut start: usize = 0;
    let mut i: usize = 0;
    proof {
        law_rows_hold_all_items(n as nat, are_portraits);
        assert(splits@.take(0) =~= Seq::empty());
    }
    while i < splits.len()
        invariant
            i <= splits@.len(),
            splits@ == row_splits_of(n as nat, are_portraits),
            sum_of(splits@) == n,
            start == sum_of(splits@.take(i as int)),
            rows@ == rows_of(splits@).take(i as int),
        decreases splits@.len() - i,
    {
        proof {
            lemma_sum_of_prefix(splits@, i + 1);
            assert(splits@.take(i + 1).drop_last() =~= splits@.take(i as int));
        }
        let end: usize = start + splits[i];
        rows.push(AlbumRow { start, end });
        start = end;
        i = i + 1;
        assert(rows@ =~= rows_of(splits@).take(i as int));
    }
    assert(rows@ =~= rows_of(splits@));
    rows
}

/// The items of an album are spread evenly. From four items on, there are as
/// few rows of two and three as can hold them, and from ten on all rows are rows
/// of three but the last one, which never holds a single item. Three items are
/// one above two, and a pair shares a row if and only if both are portraits.
pub proof fn law_items_are_spread_evenly(n: nat, are_portraits: bool, i: int)
    ensures
        ({
            let splits = row_splits_of(n, are_portraits);
            &&& n == 0 ==> splits.len() == 0
            &&& n == 1 ==> splits.len() == 1
            &&& n == 2 ==> splits.len() == if are_portraits {
                1int
            } else {
                2
            }
            &&& n == 3 ==> splits.len() == 2 && splits[0] == 1
            &&& 4 <= n < 10 ==> splits.len() == (n + 2) / 3
            &&& 4 <= n < 10 && 0 <= i < splits.len() ==> 2 <= splits[i] <= 3
            &&& n >= 10 && 0 <= i < splits.len() - 1 ==> splits[i] == 3
            &&& n >= 10 ==> splits.len() >= 3 && 2 <= splits.last() <= 4
        }),
{
    if n >= 10 {
        assert(n / 3 >= 3);
    }
}

/// A row holds as many items as its part of the pattern says.
pub proof fn law_rows_follow_pattern(splits: Seq<usize>, i: int)
    requires
        0 <= i < splits.len(),
        sum_of(splits) <= usize::MAX,
    ensures
        rows_of(splits).len() == splits.len(),
        rows_of(splits)[i].end - rows_of(splits)[i].start == splits[i],
        i > 0 ==> rows_of(splits)[i].start == rows_of(splits)[i - 1].end,
        rows_of(splits)[0].start == 0,
{
    lemma_sum_of_prefix(splits, i);
    lemma_sum_of_prefix(splits, i + 1);
    assert(splits.take(i + 1).drop_last() =~= splits.take(i));
    assert(splits.take(0) =~= Seq::empty());
}

} // verus!
