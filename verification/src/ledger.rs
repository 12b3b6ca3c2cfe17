//! The ledger of host calls, put in call order.

use vstd::prelude::*;

use crate::model::CallRecord;

verus! {

/// The records of one position, in the order in which they stand.
pub open spec fn of_index(list: Seq<CallRecord>, index: usize) -> Seq<CallRecord> {
    list.filter(|record: CallRecord| record.index == index)
}

/// Each record stands before those of later positions.
pub open spec fn by_index(list: Seq<CallRecord>) -> bool {
    forall|i: int, j: int|
        0 <= i < j < list.len() ==> (#[trigger] list[i]).index <= (#[trigger] list[j]).index
}

/// `sorted` is `list` in call order: the same records, those of one position in the order in
/// which they stood.
pub open spec fn is_in_call_order(sorted: Seq<CallRecord>, list: Seq<CallRecord>) -> bool {
    &&& sorted.len() == list.len()
    &&& by_index(sorted)
    &&& forall|index: usize| #[trigger] of_index(sorted, index) == of_index(list, index)
}

proof fn lemma_none_of_index(list: Seq<CallRecord>, index: usize)
    requires
        forall|i: int| 0 <= i < list.len() ==> (#[trigger] list[i]).index != index,
    ensures
        of_index(list, index).len() == 0,
    decreases list.len(),
{
    reveal(Seq::filter);
    if list.len() > 0 {
        let front = list.drop_last();
        assert(forall|i: int| 0 <= i < front.len() ==> #[trigger] front[i] == list[i]);
        lemma_none_of_index(front, index);
        assert(list[list.len() - 1].index != index);
    }
}

/// Where a record goes behind all that are not later, its position's records gain it at the end.
proof fn lemma_insert(sorted: Seq<CallRecord>, at: int, record: CallRecord, index: usize)
    requires
        0 <= at <= sorted.len(),
        forall|i: int| at <= i < sorted.len() ==> (#[trigger] sorted[i]).index > record.index,
    ensures
        of_index(sorted.insert(at, record), index) == of_index(sorted.push(record), index),
{
    reveal(Seq::filter);
    let here = |r: CallRecord| r.index == index;
    let low = sorted.take(at);
    let high = sorted.skip(at);
    let one = seq![record];
    assert(sorted.insert(at, record) =~= low + one + high);
    assert(sorted.push(record) =~= low + high + one);
    Seq::filter_distributes_over_add(low + one, high, here);
    Seq::filter_distributes_over_add(low, one, here);
    Seq::filter_distributes_over_add(low + high, one, here);
    Seq::filter_distributes_over_add(low, high, here);
    assert(one.drop_last() =~= Seq::<CallRecord>::empty());
    if index == record.index {
        assert(forall|i: int| 0 <= i < high.len() ==> #[trigger] high[i] == sorted[at + i]);
        lemma_none_of_index(high, index);
        assert(of_index(high, index) =~= Seq::<CallRecord>::empty());
    } else {
        lemma_none_of_index(one, index);
        assert(of_index(one, index) =~= Seq::<CallRecord>::empty());
    }
    assert(of_index(sorted.insert(at, record), index) =~= of_index(sorted.push(record), index));
}

/// Puts the records in call order.
pub fn sort_by_index(list: Vec<CallRecord>) -> (sorted: Vec<CallRecord>)
    ensures
        is_in_call_order(sorted@, list@),
{
    let mut sorted: Vec<CallRecord> = Vec::new();
    proof {
        assert(list@.take(0) =~= sorted@);
    }
    for record in it: list
        invariant
            it.seq() == list@,
            is_in_call_order(sorted@, list@.take(it.index())),
    {
        let ghost done = list@.take(it.index());
        let ghost before = sorted@;
        let mut at: usize = sorted.len();
        while at > 0 && sorted[at - 1].index > record.index
            invariant
                at <= sorted@.len(),
                sorted@ == before,
                by_index(sorted@),
                forall|i: int|
                    at <= i < sorted@.len() ==> (#[trigger] sorted@[i]).index > record.index,
            decreases at,
        {
            at = at - 1;
        }
        sorted.insert(at, record);
        proof {
            assert(list@.take(it.index() + 1) =~= done.push(record));
            assert forall|i: int, j: int| 0 <= i < j < sorted@.len() implies (
            #[trigger] sorted@[i]).index <= (#[trigger] sorted@[j]).index by {
                if i < at && at == j {
                    assert(before[i].index <= before[at - 1].index);
                }
            }
            assert forall|index: usize| #[trigger]
                of_index(sorted@, index) == of_index(done.push(record), index) by {
                lemma_insert(before, at as int, record, index);
                let here = |r: CallRecord| r.index == index;
                before.lemma_filter_push(record, here);
                done.lemma_filter_push(record, here);
                assert(of_index(before, index) == of_index(done, index));
            }
        }
    }
    proof {
        assert(list@.take(list@.len() as int) =~= list@);
    }
    sorted
}

proof fn lemma_last_of_index(list: Seq<CallRecord>)
    requires
        list.len() > 0,
    ensures
        of_index(list, list.last().index).len() > 0,
        of_index(list, list.last().index).last() == list.last(),
        of_index(list.drop_last(), list.last().index) == of_index(
            list,
            list.last().index,
        ).drop_last(),
        forall|index: usize|
            index != list.last().index ==> #[trigger] of_index(list.drop_last(), index)
                == of_index(list, index),
{
    reveal(Seq::filter);
    let here = |r: CallRecord| r.index == list.last().index;
    assert(list.filter(here) == list.drop_last().filter(here).push(list.last()));
    assert(list.drop_last().filter(here).push(list.last()).drop_last()
        =~= list.drop_last().filter(here));
}

/// The call order of a ledger is unique: whichever order the calls came back in, the same
/// records at the same positions give the same ledger.
pub proof fn law_call_order_is_unique(a: Seq<CallRecord>, b: Seq<CallRecord>)
    requires
        by_index(a),
        by_index(b),
        forall|index: usize| #[trigger] of_index(a, index) == of_index(b, index),
    ensures
        a == b,
    decreases a.len(),
{
    if a.len() == 0 {
        if b.len() > 0 {
            lemma_last_of_index(b);
            lemma_none_of_index(a, b.last().index);
            assert(of_index(a, b.last().index) == of_index(b, b.last().index));
            assert(false);
        }
        assert(a =~= b);
    } else {
        lemma_last_of_index(a);
        let top = a.last().index;
        assert(of_index(a, top) == of_index(b, top));
        if b.len() == 0 {
            lemma_none_of_index(b, top);
            assert(false);
        }
        lemma_last_of_index(b);
        let other = b.last().index;
        assert(of_index(a, other) == of_index(b, other));
        if top < other {
            assert forall|i: int| 0 <= i < a.len() implies (#[trigger] a[i]).index != other by {
                assert(a[i].index <= a[a.len() - 1].index);
            }
            lemma_none_of_index(a, other);
            assert(false);
        }
        if other < top {
            assert forall|i: int| 0 <= i < b.len() implies (#[trigger] b[i]).index != top by {
                assert(b[i].index <= b[b.len() - 1].index);
            }
            lemma_none_of_index(b, top);
            assert(false);
        }
        let front_a = a.drop_last();
        let front_b = b.drop_last();
        assert forall|index: usize| #[trigger] of_index(front_a, index) == of_index(
            front_b,
            index,
        ) by {
            assert(of_index(a, index) == of_index(b, index));
            if index != top {
                assert(of_index(front_a, index) == of_index(a, index));
                assert(of_index(front_b, index) == of_index(b, index));
            }
        }
        law_call_order_is_unique(front_a, front_b);
        assert(a =~= front_a.push(a.last()));
        assert(b =~= front_b.push(b.last()));
    }
}

/// Where each position is recorded once, as the positions of a run are, the ledger in call order
/// lists them strictly upwards.
pub proof fn law_distinct_positions_ascend(sorted: Seq<CallRecord>, list: Seq<CallRecord>)
    requires
        is_in_call_order(sorted, list),
        forall|index: usize| (#[trigger] of_index(list, index)).len() <= 1,
    ensures
        forall|i: int, j: int|
            0 <= i < j < sorted.len() ==> (#[trigger] sorted[i]).index < (
            #[trigger] sorted[j]).index,
{
    assert forall|i: int, j: int| 0 <= i < j < sorted.len() implies (#[trigger] sorted[i]).index < (
    #[trigger] sorted[j]).index by {
        if sorted[i].index == sorted[j].index {
            let index = sorted[i].index;
            let here = |r: CallRecord| r.index == index;
            let low = sorted.take(j);
            let high = sorted.skip(j);
            assert(sorted =~= low + high);
            Seq::filter_distributes_over_add(low, high, here);
            assert(low[i].index == index && high[0].index == index);
            low.lemma_filter_contains(here, i);
            high.lemma_filter_contains(here, 0);
            assert(of_index(low, index).len() >= 1);
            assert(of_index(high, index).len() >= 1);
            assert(of_index(sorted, index) == of_index(list, index));
            assert(of_index(sorted, index).len() >= 2);
        }
    }
}

/// The ledger in call order lists the positions upwards, holds as many records as there are, and
/// of every position the same records, in the order in which they stood: none is lost, made up,
/// changed or overtaken by another of its position.
pub proof fn law_call_order_sorts_and_keeps_all(
    sorted: Seq<CallRecord>,
    list: Seq<CallRecord>,
    index: usize,
)
    requires
        is_in_call_order(sorted, list),
    ensures
        sorted.len() == list.len(),
        forall|i: int, j: int|
            0 <= i < j < sorted.len() ==> (#[trigger] sorted[i]).index <= (
            #[trigger] sorted[j]).index,
        sorted.filter(|record: CallRecord| record.index == index) == list.filter(
            |record: CallRecord| record.index == index,
        ),
        forall|record: CallRecord| #[trigger] list.contains(record) <==> sorted.contains(record),
{
    assert(of_index(sorted, index) == of_index(list, index));
    assert forall|record: CallRecord| list.contains(record) implies sorted.contains(record) by {
        lemma_record_is_kept(list, sorted, record);
    }
    assert forall|record: CallRecord| sorted.contains(record) implies list.contains(record) by {
        lemma_record_is_kept(sorted, list, record);
    }
}

proof fn lemma_record_is_kept(a: Seq<CallRecord>, b: Seq<CallRecord>, record: CallRecord)
    requires
        forall|index: usize| #[trigger] of_index(a, index) == of_index(b, index),
        a.contains(record),
    ensures
        b.contains(record),
{
    let index = record.index;
    let here = |r: CallRecord| r.index == index;
    let i = choose|i: int| 0 <= i < a.len() && a[i] == record;
    a.lemma_filter_contains(here, i);
    assert(of_index(a, index) == of_index(b, index));
    assert(b.filter(here).contains(record));
    let k = choose|k: int| 0 <= k < b.filter(here).len() && b.filter(here)[k] == record;
    b.lemma_filter_contains_rev(here, b.filter(here)[k]);
}

} // verus!
