//! Removing the marked items of a list in one sweep.
//!
//! The listener marks the sessions that fail during a tick and removes them afterwards, so
//! that no removal shifts the position of a session that is still to be judged.

use vstd::prelude::*;

verus! {

/// The items whose mark is not set, in their order.
pub open spec fn kept<T>(items: Seq<T>, marks: Seq<bool>) -> Seq<T>
    recommends
        marks.len() == items.len(),
    decreases items.len(),
{
    if items.len() == 0 {
        Seq::empty()
    } else if marks[0] {
        kept(items.skip(1), marks.skip(1))
    } else {
        seq![items[0]] + kept(items.skip(1), marks.skip(1))
    }
}

/// The number of marks that are set.
pub open spec fn marked(marks: Seq<bool>) -> nat
    decreases marks.len(),
{
    if marks.len() == 0 {
        0
    } else if marks[0] {
        1 + marked(marks.skip(1))
    } else {
        marked(marks.skip(1))
    }
}

/// Where the item at index `i` stands after the sweep, if its mark is not set: as many
/// places further to the front as there are marked items before it.
pub open spec fn place(marks: Seq<bool>, i: int) -> int
    recommends
        0 <= i < marks.len(),
{
    i - marked(marks.take(i))
}

/// No more marks are set than there are marks.
pub proof fn lemma_marked_bound(marks: Seq<bool>)
    ensures
        marked(marks) <= marks.len(),
    decreases marks.len(),
{
    if marks.len() > 0 {
        lemma_marked_bound(marks.skip(1));
    }
}

/// Among the first `i` marks one more is set than among those behind the first, if the first
/// is set.
proof fn lemma_marked_take(marks: Seq<bool>, i: int)
    requires
        0 < i <= marks.len(),
    ensures
        marked(marks.take(i)) == marked(marks.skip(1).take(i - 1)) + if marks[0] {
            1nat
        } else {
            0nat
        },
{
    assert(marks.take(i).skip(1) =~= marks.skip(1).take(i - 1));
}

/// Among more marks no fewer are set.
proof fn lemma_marked_monotone(marks: Seq<bool>, i: int, j: int)
    requires
        0 <= i <= j <= marks.len(),
    ensures
        marked(marks.take(i)) <= marked(marks.take(j)),
        marked(marks.take(j)) - marked(marks.take(i)) <= j - i,
    decreases marks.len(),
{
    if i == 0 {
        assert(marks.take(0).len() == 0);
        lemma_marked_bound(marks.take(j));
    } else {
        lemma_marked_take(marks, i);
        lemma_marked_take(marks, j);
        lemma_marked_monotone(marks.skip(1), i - 1, j - 1);
    }
}

/// The sweep removes exactly the marked items: as many items leave as marks are set, and
/// every item whose mark is not set stays, once, behind those that stood before it.
pub proof fn lemma_kept<T>(items: Seq<T>, marks: Seq<bool>)
    requires
        marks.len() == items.len(),
    ensures
        kept(items, marks).len() == items.len() - marked(marks),
        forall|i: int|
            0 <= i < items.len() && !marks[i] ==> 0 <= #[trigger] place(marks, i) < kept(
                items,
                marks,
            ).len() && kept(items, marks)[place(marks, i)] == items[i],
        forall|i: int, j: int|
            0 <= i < j < items.len() && !marks[i] && !marks[j] ==> #[trigger] place(marks, i)
                < #[trigger] place(marks, j),
    decreases items.len(),
{
    lemma_marked_bound(marks);
    if items.len() > 0 {
        let tail = items.skip(1);
        let tail_marks = marks.skip(1);
        lemma_kept(tail, tail_marks);
        assert forall|i: int| 0 <= i < items.len() && !marks[i] implies 0 <= #[trigger] place(
            marks,
            i,
        ) < kept(items, marks).len() && kept(items, marks)[place(marks, i)] == items[i] by {
            if i == 0 {
                assert(marks.take(0).len() == 0);
            } else {
                lemma_marked_take(marks, i);
                assert(place(marks, i) == place(tail_marks, i - 1) + if marks[0] {
                    0int
                } else {
                    1int
                });
                assert(tail[i - 1] == items[i]);
                assert(!tail_marks[i - 1]);
            }
        }
        assert forall|i: int, j: int|
            0 <= i < j < items.len() && !marks[i] && !marks[j] implies #[trigger] place(marks, i)
            < #[trigger] place(marks, j) by {
            lemma_marked_monotone(marks, i + 1, j);
            assert(marks.take(i + 1).drop_last() =~= marks.take(i));
            lemma_marked_last(marks.take(i + 1));
        }
    }
}

/// Where no mark is set, the sweep removes nothing.
pub proof fn lemma_kept_all<T>(items: Seq<T>, marks: Seq<bool>)
    requires
        marks.len() == items.len(),
        forall|i: int| 0 <= i < marks.len() ==> !marks[i],
    ensures
        marked(marks) == 0,
        kept(items, marks) == items,
    decreases items.len(),
{
    if items.len() > 0 {
        lemma_kept_all(items.skip(1), marks.skip(1));
        assert(seq![items[0]] + items.skip(1) =~= items);
    } else {
        assert(kept(items, marks) =~= items);
    }
}

/// An item more at the end stays at the end, unless its mark is set.
pub proof fn lemma_kept_push<T>(items: Seq<T>, marks: Seq<bool>, item: T, mark: bool)
    requires
        marks.len() == items.len(),
    ensures
        kept(items.push(item), marks.push(mark)) == if mark {
            kept(items, marks)
        } else {
            kept(items, marks).push(item)
        },
    decreases items.len(),
{
    let longer = items.push(item);
    let longer_marks = marks.push(mark);
    if items.len() == 0 {
        assert(longer.skip(1).len() == 0);
        assert(kept(longer.skip(1), longer_marks.skip(1)) =~= Seq::<T>::empty());
        assert(kept(longer, longer_marks) =~= if mark {
            kept(items, marks)
        } else {
            kept(items, marks).push(item)
        });
    } else {
        lemma_kept_push(items.skip(1), marks.skip(1), item, mark);
        assert(longer.skip(1) =~= items.skip(1).push(item));
        assert(longer_marks.skip(1) =~= marks.skip(1).push(mark));
        assert(kept(longer, longer_marks) =~= if mark {
            kept(items, marks)
        } else {
            kept(items, marks).push(item)
        });
    }
}

/// The last mark counts for one if it is set.
proof fn lemma_marked_last(marks: Seq<bool>)
    requires
        marks.len() > 0,
    ensures
        marked(marks) == marked(marks.drop_last()) + if marks.last() {
            1nat
        } else {
            0nat
        },
    decreases marks.len(),
{
    if marks.len() == 1 {
        assert(marked(marks.skip(1)) == 0);
        assert(marked(marks.drop_last()) == 0);
    } else {
        let front = marks.drop_last();
        lemma_marked_last(marks.skip(1));
        assert(marks.skip(1).drop_last() =~= front.skip(1));
        assert(front[0] == marks[0]);
        assert(marks.skip(1).last() == marks.last());
        assert(marked(front) == marked(front.skip(1)) + if front[0] {
            1nat
        } else {
            0nat
        });
    }
}

/// Removes from `items` every item whose mark is set, and keeps the others in their order.
pub fn remove_marked<T>(items: &mut Vec<T>, marks: &Vec<bool>)
    requires
        marks@.len() == old(items)@.len(),
    ensures
        final(items)@ == kept(old(items)@, marks@),
{
    let mut i: usize = items.len();
    proof {
        assert(old(items)@.skip(i as int).len() == 0);
        assert(items@ =~= old(items)@.take(i as int) + kept(
            old(items)@.skip(i as int),
            marks@.skip(i as int),
        ));
    }
    while i > 0
        invariant
            i <= marks@.len(),
            marks@.len() == old(items)@.len(),
            items@ == old(items)@.take(i as int) + kept(
                old(items)@.skip(i as int),
                marks@.skip(i as int),
            ),
        decreases i,
    {
        i -= 1;
        let ghost before = items@;
        let ghost rest = kept(old(items)@.skip(i + 1), marks@.skip(i + 1));
        proof {
            assert(old(items)@.skip(i as int).skip(1) =~= old(items)@.skip(i + 1));
            assert(marks@.skip(i as int).skip(1) =~= marks@.skip(i + 1));
            assert(old(items)@.take(i + 1) =~= old(items)@.take(i as int).push(
                old(items)@[i as int],
            ));
        }
        if marks[i] {
            items.remove(i);
            proof {
                assert(items@ =~= old(items)@.take(i as int) + rest);
            }
        } else {
            proof {
                assert(items@ =~= old(items)@.take(i as int) + (seq![old(items)@[i as int]]
                    + rest));
            }
        }
    }
    proof {
        assert(old(items)@.skip(0) =~= old(items)@);
        assert(marks@.skip(0) =~= marks@);
        assert(items@ =~= kept(old(items)@, marks@));
    }
}

} // verus!
