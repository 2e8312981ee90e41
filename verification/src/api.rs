//! Aggregation of the two sources: merge whatever each fetch produced,
//! label per-source failures without suppressing the other source's
//! results, and impose the canonical due-date order.

use vstd::prelude::*;

use crate::model::Order;
use crate::text::{append_chars, chars_vec, string_of};

verus! {

/// Result of fetching orders from all sources: whatever orders could be
/// obtained, plus one labeled diagnostic per failed source.
#[derive(Debug, Clone, PartialEq)]
pub struct FetchOrdersResult {
    pub orders: Vec<Order>,
    pub errors: Vec<String>,
}

/// Stable insertion of an order into a due-date-sorted run: the new order
/// goes after every order due no later than it.
pub open spec fn insert_by_due(s: Seq<Order>, x: Order) -> Seq<Order>
    decreases s.len(),
{
    if s.len() == 0 {
        seq![x]
    } else if s[0].due_date <= x.due_date {
        seq![s[0]] + insert_by_due(s.drop_first(), x)
    } else {
        seq![x] + s
    }
}

/// The canonical ordering of a merged batch: ascending by due date, ties
/// keeping their input order (stable insertion sort).
pub open spec fn sort_by_due(s: Seq<Order>) -> Seq<Order>
    decreases s.len(),
{
    if s.len() == 0 {
        Seq::<Order>::empty()
    } else {
        insert_by_due(sort_by_due(s.drop_last()), s.last())
    }
}

/// Ascending by due date.
pub open spec fn sorted_by_due(s: Seq<Order>) -> bool {
    forall|i: int, j: int| 0 <= i < j < s.len() ==> s[i].due_date <= s[j].due_date
}

/// Inserting keeps any due-date lower bound of the run and the new order.
proof fn lemma_insert_lower_bound(s: Seq<Order>, x: Order, b: int)
    requires
        forall|i: int| 0 <= i < s.len() ==> s[i].due_date >= b,
        x.due_date >= b,
    ensures
        forall|m: int|
            0 <= m < insert_by_due(s, x).len() ==> #[trigger] insert_by_due(s, x)[m].due_date >= b,
    decreases s.len(),
{
    if s.len() == 0 {
    } else if s[0].due_date <= x.due_date {
        assert(forall|i: int| 0 <= i < s.drop_first().len() ==> s.drop_first()[i].due_date >= b);
        lemma_insert_lower_bound(s.drop_first(), x, b);
    } else {
    }
}

/// Inserting into a sorted run keeps it sorted.
proof fn lemma_insert_sorted(s: Seq<Order>, x: Order)
    requires
        sorted_by_due(s),
    ensures
        sorted_by_due(insert_by_due(s, x)),
    decreases s.len(),
{
    if s.len() == 0 {
    } else if s[0].due_date <= x.due_date {
        let rest = s.drop_first();
        assert(sorted_by_due(rest));
        lemma_insert_sorted(rest, x);
        assert(forall|i: int| 0 <= i < rest.len() ==> rest[i].due_date >= s[0].due_date);
        lemma_insert_lower_bound(rest, x, s[0].due_date as int);
        let r = seq![s[0]] + insert_by_due(rest, x);
        assert forall|i: int, j: int| 0 <= i < j < r.len() implies r[i].due_date
            <= r[j].due_date by {
            if i == 0 {
                assert(r[j] == insert_by_due(rest, x)[j - 1]);
            } else {
                assert(r[i] == insert_by_due(rest, x)[i - 1]);
                assert(r[j] == insert_by_due(rest, x)[j - 1]);
            }
        }
    } else {
        let r = seq![x] + s;
        assert forall|i: int, j: int| 0 <= i < j < r.len() implies r[i].due_date
            <= r[j].due_date by {
            if i == 0 {
                assert(r[j] == s[j - 1]);
                assert(s[j - 1].due_date >= s[0].due_date);
            } else {
                assert(r[i] == s[i - 1] && r[j] == s[j - 1]);
            }
        }
    }
}

/// The canonical ordering really is sorted by due date.
pub proof fn lemma_sort_by_due_sorted(s: Seq<Order>)
    ensures
        sorted_by_due(sort_by_due(s)),
    decreases s.len(),
{
    if s.len() > 0 {
        lemma_sort_by_due_sorted(s.drop_last());
        lemma_insert_sorted(sort_by_due(s.drop_last()), s.last());
    }
}

/// The canonical ordering keeps exactly the input orders.
pub proof fn lemma_sort_by_due_permutes(s: Seq<Order>)
    ensures
        sort_by_due(s).to_multiset() == s.to_multiset(),
    decreases s.len(),
{
    broadcast use vstd::seq_lib::group_to_multiset_ensures;

    if s.len() > 0 {
        lemma_sort_by_due_permutes(s.drop_last());
        lemma_insert_multiset(sort_by_due(s.drop_last()), s.last());
        assert(s =~= s.drop_last().push(s.last()));
    }
}

/// Inserting adds exactly the inserted order to the run's contents.
proof fn lemma_insert_multiset(s: Seq<Order>, x: Order)
    ensures
        insert_by_due(s, x).to_multiset() == s.to_multiset().insert(x),
    decreases s.len(),
{
    broadcast use vstd::seq_lib::group_to_multiset_ensures;

    if s.len() == 0 {
        assert(seq![x] =~= Seq::<Order>::empty().push(x));
    } else if s[0].due_date <= x.due_date {
        lemma_insert_multiset(s.drop_first(), x);
        let t = insert_by_due(s.drop_first(), x);
        vstd::seq_lib::lemma_multiset_commutative(seq![s[0]], t);
        vstd::seq_lib::lemma_multiset_commutative(seq![s[0]], s.drop_first());
        assert(s =~= seq![s[0]] + s.drop_first());
        assert(seq![s[0]] =~= Seq::<Order>::empty().push(s[0]));
    } else {
        vstd::seq_lib::lemma_multiset_commutative(seq![x], s);
        assert(seq![x] =~= Seq::<Order>::empty().push(x));
    }
}

/// Insert an order into a due-date-sorted vector, after every order due no
/// later than it.
fn insert_order_sorted(out: &mut Vec<Order>, x: Order)
    ensures
        final(out)@ == insert_by_due(old(out)@, x),
{
    let n = out.len();
    let mut k: usize = 0;
    while k < n && out[k].due_date <= x.due_date
        invariant
            n == out@.len(),
            k <= n,
            out@ == old(out)@,
            forall|m: int| 0 <= m < k ==> out@[m].due_date <= x.due_date,
        decreases n - k,
    {
        k = k + 1;
    }
    let ghost pre = out@;
    out.insert(k, x);
    proof {
        lemma_insert_at_position(pre, x, k as int);
        assert(out@ =~= pre.take(k as int).push(x) + pre.skip(k as int));
    }
}

/// The recursive insertion lands exactly at the first position whose order
/// is due later.
proof fn lemma_insert_at_position(s: Seq<Order>, x: Order, k: int)
    requires
        0 <= k <= s.len(),
        forall|m: int| 0 <= m < k ==> s[m].due_date <= x.due_date,
        k == s.len() || s[k].due_date > x.due_date,
    ensures
        insert_by_due(s, x) == s.take(k).push(x) + s.skip(k),
    decreases k,
{
    if k == 0 {
        if s.len() == 0 {
            assert(insert_by_due(s, x) =~= s.take(0).push(x) + s.skip(0));
        } else {
            assert(insert_by_due(s, x) =~= s.take(0).push(x) + s.skip(0));
        }
    } else {
        assert(s[0].due_date <= x.due_date);
        lemma_insert_at_position(s.drop_first(), x, k - 1);
        assert(seq![s[0]] + (s.drop_first().take(k - 1).push(x) + s.drop_first().skip(k - 1))
            =~= s.take(k).push(x) + s.skip(k));
    }
}

/// Sort a merged batch into the canonical due-date order: ascending by due
/// date, equal due dates keeping their input order.
pub fn sort_orders_by_due(orders: Vec<Order>) -> (r: Vec<Order>)
    ensures
        r@ == sort_by_due(orders@),
{
    let ghost orig = orders@;
    let mut rest = orders;
    let mut out: Vec<Order> = Vec::new();
    while rest.len() > 0
        invariant
            rest@.len() <= orig.len(),
            rest@ == orig.skip(orig.len() - rest@.len()),
            out@ == sort_by_due(orig.take(orig.len() - rest@.len())),
        decreases rest@.len(),
    {
        let ghost pre_rest = rest@;
        let ghost idx = orig.len() - pre_rest.len();
        let x = rest.remove(0);
        proof {
            assert(pre_rest == orig.skip(idx));
            assert(orig.skip(idx) =~= orig.subrange(idx, orig.len() as int));
            assert(x == orig.subrange(idx, orig.len() as int)[0]);
            assert(x == orig[idx]);
            assert(rest@ == pre_rest.remove(0));
            assert(rest@ =~= orig.skip(idx + 1));
            assert(orig.take(idx + 1).drop_last() =~= orig.take(idx));
            assert(orig.take(idx + 1).last() == orig[idx]);
        }
        insert_order_sorted(&mut out, x);
    }
    proof {
        assert(orig.take(orig.len() as int) =~= orig);
    }
    out
}

/// The orders a source's fetch produced, a failure producing none.
pub open spec fn ok_orders(r: Result<Vec<Order>, String>) -> Seq<Order> {
    match r {
        Ok(v) => v@,
        Err(_) => Seq::<Order>::empty(),
    }
}

/// Merge the two sources' fetch results: the successful sources' orders in
/// the canonical due-date order, and one labeled diagnostic per failed
/// source ("Shopify: …" before "Etsy: …"). The merge itself never fails.
pub fn merge_fetch_results(
    shopify: Result<Vec<Order>, String>,
    etsy: Result<Vec<Order>, String>,
) -> (r: FetchOrdersResult)
    ensures
        r.orders@ == sort_by_due(ok_orders(shopify) + ok_orders(etsy)),
        shopify is Ok && etsy is Ok ==> r.errors@.len() == 0,
        shopify is Err && etsy is Ok ==> r.errors@.len() == 1 && r.errors@[0]@ == "Shopify: "@
            + shopify->Err_0@,
        shopify is Ok && etsy is Err ==> r.errors@.len() == 1 && r.errors@[0]@ == "Etsy: "@
            + etsy->Err_0@,
        shopify is Err && etsy is Err ==> r.errors@.len() == 2 && r.errors@[0]@ == "Shopify: "@
            + shopify->Err_0@ && r.errors@[1]@ == "Etsy: "@ + etsy->Err_0@,
{
    let mut all: Vec<Order> = Vec::new();
    let mut errors: Vec<String> = Vec::new();

    match shopify {
        Ok(mut v) => {
            all.append(&mut v);
        },
        Err(e) => {
            let mut msg = chars_vec("Shopify: ");
            append_chars(&mut msg, &chars_vec(e.as_str()));
            errors.push(string_of(&msg));
        },
    }
    match etsy {
        Ok(mut v) => {
            all.append(&mut v);
        },
        Err(e) => {
            let mut msg = chars_vec("Etsy: ");
            append_chars(&mut msg, &chars_vec(e.as_str()));
            errors.push(string_of(&msg));
        },
    }
    proof {
        assert(all@ =~= ok_orders(shopify) + ok_orders(etsy));
    }
    let orders = sort_orders_by_due(all);
    FetchOrdersResult { orders, errors }
}

} // verus!
