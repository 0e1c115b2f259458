//! Reconciliation of a freshly fetched list with the ledger of past
//! decisions: prune the ledger, keep only finished and not-yet-handled
//! items, and order the result for presentation.

use vstd::prelude::*;
use vstd::multiset::Multiset;
use vstd::seq_lib::group_filter_ensures;
use vstd::seq_lib::group_to_multiset_ensures;

use crate::item::HandledItem;
use crate::item::Item;
use crate::item::ListType;
use crate::item::Sort;

verus! {

/// Some entry of `items` carries this id.
pub open spec fn has_id(items: Seq<Item>, id: u32) -> bool {
    exists|k: int| 0 <= k < items.len() && items[k].id == id
}

/// The ledger records a decision about this id for this list kind.
pub open spec fn ledger_has(led: Seq<HandledItem>, list: ListType, id: u32) -> bool {
    exists|k: int| 0 <= k < led.len() && led[k].item_type == list && led[k].item_id == id
}

/// A pruned ledger keeps a decision iff it belongs to another list kind or
/// its item still appears upstream.
pub open spec fn keep_decision(h: HandledItem, fresh: Seq<Item>, list: ListType) -> bool {
    h.item_type != list || has_id(fresh, h.item_id)
}

/// The working list keeps an item iff its publication is finished (status
/// code 2) and the pruned ledger has no decision about it for this kind.
pub open spec fn keep_item(x: Item, led: Seq<HandledItem>, list: ListType) -> bool {
    x.publishing_status == 2 && !ledger_has(led, list, x.id)
}

/// Ordering of two items by progress count, under a sort direction.
pub open spec fn le_amount(sort: Sort, a: Item, b: Item) -> bool {
    match sort {
        Sort::Asc => a.amount <= b.amount,
        Sort::Desc => a.amount >= b.amount,
    }
}

/// Every pair of entries, in order, respects the sort direction.
pub open spec fn sorted_by_amount(s: Seq<Item>, sort: Sort) -> bool {
    forall|i: int, j: int| 0 <= i < j < s.len() ==> le_amount(sort, #[trigger] s[i], #[trigger] s[j])
}

/// Whether some entry of `items` carries `id`.
pub fn contains_id(items: &Vec<Item>, id: u32) -> (r: bool)
    ensures
        r == has_id(items@, id),
{
    let n = items.len();
    for i in 0..n
        invariant
            n == items@.len(),
            forall|k: int| 0 <= k < i ==> items@[k].id != id,
    {
        if items[i].id == id {
            return true;
        }
    }
    false
}

/// Whether the ledger records a decision about `id` for `list`.
pub fn ledger_contains(led: &Vec<HandledItem>, list: ListType, id: u32) -> (r: bool)
    ensures
        r == ledger_has(led@, list, id),
{
    let n = led.len();
    for i in 0..n
        invariant
            n == led@.len(),
            forall|k: int| 0 <= k < i ==> !(led@[k].item_type == list && led@[k].item_id == id),
    {
        if led[i].item_type == list && led[i].item_id == id {
            return true;
        }
    }
    false
}

proof fn lemma_filter_singleton<A>(x: A, pred: spec_fn(A) -> bool)
    ensures
        seq![x].filter(pred) == (if pred(x) {
            seq![x]
        } else {
            Seq::<A>::empty()
        }),
{
    reveal_with_fuel(Seq::filter, 2);
    assert(seq![x].drop_last() =~= Seq::<A>::empty());
    if pred(x) {
        assert(seq![x].filter(pred) =~= seq![x]);
    } else {
        assert(seq![x].filter(pred) =~= Seq::<A>::empty());
    }
}

/// Drop every decision for the current list kind whose item no longer
/// appears in the fresh list; keep everything else, in order.
pub fn prune_ledger(handled: Vec<HandledItem>, fresh: &Vec<Item>, list: ListType) -> (r: Vec<
    HandledItem,
>)
    ensures
        r@ == handled@.filter(|h: HandledItem| keep_decision(h, fresh@, list)),
{
    broadcast use Seq::filter_distributes_over_add;

    let ghost pred = |h: HandledItem| keep_decision(h, fresh@, list);
    let mut r: Vec<HandledItem> = Vec::new();
    let n = handled.len();
    assert(handled@.subrange(0, 0).filter(pred) =~= Seq::<HandledItem>::empty()) by {
        reveal(Seq::filter);
    }
    for i in 0..n
        invariant
            n == handled@.len(),
            r@ == handled@.subrange(0, i as int).filter(pred),
            pred == (|h: HandledItem| keep_decision(h, fresh@, list)),
    {
        let h = handled[i];
        let keep = if h.item_type != list {
            true
        } else {
            contains_id(fresh, h.item_id)
        };
        proof {
            assert(handled@.subrange(0, i + 1) =~= handled@.subrange(0, i as int) + seq![
                handled@[i as int],
            ]);
            lemma_filter_singleton(handled@[i as int], pred);
        }
        if keep {
            r.push(h);
        }
        assert(r@ =~= handled@.subrange(0, i + 1).filter(pred));
    }
    assert(handled@.subrange(0, n as int) =~= handled@);
    r
}

/// Keep, in order, exactly the items the working list retains: finished
/// publication and no recorded decision for this kind.
pub fn keep_working(fresh: Vec<Item>, led: &Vec<HandledItem>, list: ListType) -> (r: Vec<Item>)
    ensures
        r@ == fresh@.filter(|x: Item| keep_item(x, led@, list)),
{
    broadcast use Seq::filter_distributes_over_add;

    let ghost orig = fresh@;
    let ghost pred = |x: Item| keep_item(x, led@, list);
    let mut rest = fresh;
    let mut r: Vec<Item> = Vec::new();
    assert(orig.subrange(0, 0).filter(pred) =~= Seq::<Item>::empty()) by {
        reveal(Seq::filter);
    }
    let ghost n = orig.len();
    while rest.len() > 0
        invariant
            rest@ =~= orig.subrange(n - rest@.len(), n as int),
            rest@.len() <= n,
            r@ == orig.subrange(0, n - rest@.len()).filter(pred),
            pred == (|x: Item| keep_item(x, led@, list)),
            n == orig.len(),
        decreases rest@.len(),
    {
        let ghost i = n - rest@.len();
        assert(rest@[0] == orig[i]);
        let x = rest.remove(0);
        assert(rest@ =~= orig.subrange(i + 1, n as int));
        let keep = if x.publishing_status == 2 {
            !ledger_contains(led, list, x.id)
        } else {
            false
        };
        proof {
            assert(orig.subrange(0, i + 1) =~= orig.subrange(0, i) + seq![orig[i]]);
            lemma_filter_singleton(orig[i], pred);
        }
        if keep {
            r.push(x);
        }
        assert(r@ =~= orig.subrange(0, i + 1).filter(pred));
    }
    assert(orig.subrange(0, n as int) =~= orig);
    r
}

/// Ordering test used by the sort; total for any two items.
fn le_items(sort: Sort, a: &Item, b: &Item) -> (r: bool)
    ensures
        r == le_amount(sort, *a, *b),
{
    match sort {
        Sort::Asc => a.amount <= b.amount,
        Sort::Desc => a.amount >= b.amount,
    }
}

/// Sort the working list by progress count in the given direction.
/// The result is a permutation of the input.
pub fn sort_items(v: Vec<Item>, sort: Sort) -> (r: Vec<Item>)
    ensures
        r@.to_multiset() == v@.to_multiset(),
        sorted_by_amount(r@, sort),
{
    broadcast use group_to_multiset_ensures;
    broadcast use vstd::multiset::group_multiset_axioms;

    let mut rest = v;
    let mut out: Vec<Item> = Vec::new();
    assert(out@.to_multiset() =~= Multiset::<Item>::empty()) by {
        out@.to_multiset_ensures();
    }
    while rest.len() > 0
        invariant
            out@.to_multiset().add(rest@.to_multiset()) == v@.to_multiset(),
            sorted_by_amount(out@, sort),
        decreases rest@.len(),
    {
        let ghost rest0 = rest@;
        let x = rest.remove(0);
        let mut j: usize = 0;
        loop
            invariant
                j <= out@.len(),
                sorted_by_amount(out@, sort),
                forall|k: int| 0 <= k < j ==> le_amount(sort, #[trigger] out@[k], x),
            ensures
                j <= out@.len(),
                forall|k: int| 0 <= k < j ==> le_amount(sort, #[trigger] out@[k], x),
                forall|k: int| j <= k < out@.len() ==> !le_amount(sort, #[trigger] out@[k], x),
            decreases out@.len() - j,
        {
            if j == out.len() {
                break ;
            }
            if !le_items(sort, &out[j], &x) {
                proof {
                    assert forall|k: int| j <= k < out@.len() implies !le_amount(
                        sort,
                        #[trigger] out@[k],
                        x,
                    ) by {
                        if k > j {
                            assert(le_amount(sort, out@[j as int], out@[k]));
                        }
                    }
                }
                break ;
            }
            j += 1;
        }
        let ghost out0 = out@;
        out.insert(j, x);
        proof {
            broadcast use group_to_multiset_ensures;
            broadcast use vstd::multiset::group_multiset_axioms;

            assert(out@ == out0.insert(j as int, x));
            assert forall|p: int, q: int| 0 <= p < q < out@.len() implies le_amount(
                sort,
                #[trigger] out@[p],
                #[trigger] out@[q],
            ) by {
                if q < j {
                    assert(out@[p] == out0[p] && out@[q] == out0[q]);
                } else if p > j {
                    assert(out@[p] == out0[p - 1] && out@[q] == out0[q - 1]);
                } else if q == j {
                    assert(out@[p] == out0[p] && out@[q] == x);
                } else if p == j {
                    assert(out@[p] == x && out@[q] == out0[q - 1]);
                    assert(!le_amount(sort, out0[q - 1], x));
                } else {
                    assert(p < j && q > j);
                    assert(out@[p] == out0[p] && out@[q] == out0[q - 1]);
                }
            }
            assert(rest@ == rest0.remove(0));
            assert(rest0.remove(0).to_multiset() =~= rest0.to_multiset().remove(rest0[0]));
            assert(rest0.contains(rest0[0]));
            assert(rest0.to_multiset().count(rest0[0]) > 0);
            assert(rest0.to_multiset() =~= rest@.to_multiset().insert(x));
            assert(out@.to_multiset().add(rest@.to_multiset()) =~= v@.to_multiset());
        }
    }
    proof {
        rest@.to_multiset_ensures();
        assert(rest@.to_multiset() =~= Multiset::<Item>::empty());
        assert(out@.to_multiset() =~= v@.to_multiset());
    }
    out
}

/// Merge a fresh fetch with the ledger of past decisions: prune the ledger
/// to decisions that still matter, keep only finished and unhandled items,
/// and sort them by progress count in the given direction.
pub fn reconcile(fresh: Vec<Item>, handled: Vec<HandledItem>, list: ListType, sort: Sort) -> (r: (
    Vec<Item>,
    Vec<HandledItem>,
))
    ensures
        r.1@ == handled@.filter(|h: HandledItem| keep_decision(h, fresh@, list)),
        r.0@.to_multiset() == fresh@.filter(|x: Item| keep_item(x, r.1@, list)).to_multiset(),
        sorted_by_amount(r.0@, sort),
        forall|k: int|
            0 <= k < r.0@.len() ==> (#[trigger] r.0@[k]).publishing_status == 2 && !ledger_has(
                r.1@,
                list,
                r.0@[k].id,
            ),
{
    broadcast use group_filter_ensures;
    broadcast use group_to_multiset_ensures;

    let ghost fresh0 = fresh@;
    let pruned = prune_ledger(handled, &fresh, list);
    let working = keep_working(fresh, &pruned, list);
    let sorted = sort_items(working, sort);
    proof {
        let pred = |x: Item| keep_item(x, pruned@, list);
        assert forall|k: int| 0 <= k < sorted@.len() implies (#[trigger] sorted@[k]).publishing_status
            == 2 && !ledger_has(pruned@, list, sorted@[k].id) by {
            let x = sorted@[k];
            assert(sorted@.to_multiset().contains(x));
            assert(fresh0.filter(pred).to_multiset().contains(x));
            assert(fresh0.filter(pred).contains(x));
            let m = choose|m: int|
                0 <= m < fresh0.filter(pred).len() && fresh0.filter(pred)[m] == x;
            assert(pred(fresh0.filter(pred)[m]));
        }
    }
    (sorted, pruned)
}

} // verus!
