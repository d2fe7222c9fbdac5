//! Aggregation of an export's orders: selection by reporting window, totals net
//! of fees, and totals per product.
//!
//! Sums are exact integer sums; every running sum is checked against the range
//! of `i64`, and a computation whose running sum leaves it yields `None`.

use vstd::prelude::*;
use crate::pretix::{
    ExportResponseSaleItem, OrderDataExportOrderItem, OrderDataExportOrderItemFee,
    OrderDataExportOrderedItem, OrderExport,
};

verus! {

pub open spec fn fits_i64(x: int) -> bool {
    i64::MIN <= x <= i64::MAX
}

// ---------------------------------------------------------------- fees

/// Sum of the fee values.
pub open spec fn fee_sum(fees: Seq<OrderDataExportOrderItemFee>) -> int
    decreases fees.len(),
{
    if fees.len() == 0 {
        0
    } else {
        fee_sum(fees.drop_last()) + fees.last().value
    }
}

/// Every running sum of the fee values fits in `i64`.
pub open spec fn fee_sums_fit(fees: Seq<OrderDataExportOrderItemFee>) -> bool
    decreases fees.len(),
{
    fees.len() == 0 || (fee_sums_fit(fees.drop_last()) && fits_i64(fee_sum(fees)))
}

proof fn lemma_fee_sums_fit_prefix(fees: Seq<OrderDataExportOrderItemFee>, k: int)
    requires
        fee_sums_fit(fees),
        0 <= k <= fees.len(),
    ensures
        fee_sums_fit(fees.take(k)),
    decreases fees.len(),
{
    if k == fees.len() {
        assert(fees.take(k) =~= fees);
    } else {
        assert(fees.drop_last().take(k) =~= fees.take(k));
        lemma_fee_sums_fit_prefix(fees.drop_last(), k);
    }
}

/// Sum of the fees of one order.
fn order_fee_sum(fees: &Vec<OrderDataExportOrderItemFee>) -> (r: Option<i64>)
    ensures
        r is Some <==> fee_sums_fit(fees@),
        r is Some ==> r->0 == fee_sum(fees@),
{
    let mut acc: i64 = 0;
    let mut i: usize = 0;
    while i < fees.len()
        invariant
            i <= fees.len(),
            fee_sums_fit(fees@.take(i as int)),
            acc == fee_sum(fees@.take(i as int)),
        decreases fees.len() - i,
    {
        let ghost prefix = fees@.take(i as int + 1);
        assert(prefix.drop_last() =~= fees@.take(i as int));
        match acc.checked_add(fees[i].value) {
            Some(next) => {
                acc = next;
            },
            None => {
                proof {
                    if fee_sums_fit(fees@) {
                        lemma_fee_sums_fit_prefix(fees@, i as int + 1);
                    }
                }
                return None;
            },
        }
        i = i + 1;
    }
    assert(fees@.take(i as int) =~= fees@);
    Some(acc)
}

// ---------------------------------------------------------------- orders

/// Value of one order net of its fees.
pub open spec fn net_value(o: OrderDataExportOrderItem) -> int {
    o.total - fee_sum(o.fees@)
}

/// Sum of the orders' net values.
pub open spec fn total_net(orders: Seq<OrderDataExportOrderItem>) -> int
    decreases orders.len(),
{
    if orders.len() == 0 {
        0
    } else {
        total_net(orders.drop_last()) + net_value(orders.last())
    }
}

/// Sum of the orders' fees.
pub open spec fn total_fees(orders: Seq<OrderDataExportOrderItem>) -> int
    decreases orders.len(),
{
    if orders.len() == 0 {
        0
    } else {
        total_fees(orders.drop_last()) + fee_sum(orders.last().fees@)
    }
}

/// Sum of the orders' totals.
pub open spec fn total_gross(orders: Seq<OrderDataExportOrderItem>) -> int
    decreases orders.len(),
{
    if orders.len() == 0 {
        0
    } else {
        total_gross(orders.drop_last()) + orders.last().total
    }
}

/// Every per-order fee sum, net value and running total fits in `i64`.
pub open spec fn totals_fit(orders: Seq<OrderDataExportOrderItem>) -> bool
    decreases orders.len(),
{
    orders.len() == 0 || {
        &&& totals_fit(orders.drop_last())
        &&& fee_sums_fit(orders.last().fees@)
        &&& fits_i64(net_value(orders.last()))
        &&& fits_i64(total_net(orders))
        &&& fits_i64(total_fees(orders))
    }
}

proof fn lemma_totals_fit_prefix(orders: Seq<OrderDataExportOrderItem>, k: int)
    requires
        totals_fit(orders),
        0 <= k <= orders.len(),
    ensures
        totals_fit(orders.take(k)),
    decreases orders.len(),
{
    if k == orders.len() {
        assert(orders.take(k) =~= orders);
    } else {
        assert(orders.drop_last().take(k) =~= orders.take(k));
        lemma_totals_fit_prefix(orders.drop_last(), k);
    }
}

/// Net value and fee total of a set of orders.
#[derive(Debug)]
pub struct OrderExportTotals {
    /// Cents, fees excluded.
    pub value: i64,
    /// Cents.
    pub fees: i64,
}

/// Totals of the given orders: the sum of their values net of fees, and the sum
/// of their fees, added up in order.
pub fn order_export_calc_totals(items: &[OrderDataExportOrderItem]) -> (r: Option<OrderExportTotals>)
    ensures
        r is Some <==> totals_fit(items@),
        r is Some ==> r->0.value == total_net(items@) && r->0.fees == total_fees(items@),
{
    let mut value: i64 = 0;
    let mut fees: i64 = 0;
    let mut i: usize = 0;
    while i < items.len()
        invariant
            i <= items.len(),
            totals_fit(items@.take(i as int)),
            value == total_net(items@.take(i as int)),
            fees == total_fees(items@.take(i as int)),
        decreases items.len() - i,
    {
        let ghost prefix = items@.take(i as int + 1);
        assert(prefix.drop_last() =~= items@.take(i as int));
        proof {
            if totals_fit(items@) {
                lemma_totals_fit_prefix(items@, i as int + 1);
            }
        }
        let item = &items[i];
        let fee = match order_fee_sum(&item.fees) {
            Some(f) => f,
            None => {
                return None;
            },
        };
        let net = match item.total.checked_sub(fee) {
            Some(n) => n,
            None => {
                return None;
            },
        };
        match (value.checked_add(net), fees.checked_add(fee)) {
            (Some(v), Some(f)) => {
                value = v;
                fees = f;
            },
            _ => {
                return None;
            },
        }
        i = i + 1;
    }
    assert(items@.take(i as int) =~= items@);
    Some(OrderExportTotals { value, fees })
}

// ---------------------------------------------------------------- window

/// The instant of the order lies in `[start, end]`, both ends included.
pub open spec fn in_window(o: OrderDataExportOrderItem, start: i64, end: i64) -> bool {
    start <= o.datetime <= end
}

/// The orders that lie in `[start, end]`, in the order given.
pub open spec fn window_orders(orders: Seq<OrderDataExportOrderItem>, start: i64, end: i64) -> Seq<
    OrderDataExportOrderItem,
>
    decreases orders.len(),
{
    if orders.len() == 0 {
        orders
    } else {
        let kept = window_orders(orders.drop_last(), start, end);
        if in_window(orders.last(), start, end) {
            kept.push(orders.last())
        } else {
            kept
        }
    }
}

/// Keeps the orders placed within `[start, end]`, both ends included.
pub fn orders_in_window(orders: Vec<OrderDataExportOrderItem>, start: i64, end: i64) -> (r: Vec<
    OrderDataExportOrderItem,
>)
    ensures
        r@ == window_orders(orders@, start, end),
{
    let ghost all = orders@;
    let mut kept: Vec<OrderDataExportOrderItem> = Vec::new();
    for o in it: orders.into_iter()
        invariant
            it.seq() == all,
            kept@ == window_orders(all.take(it.index()), start, end),
    {
        let ghost i = it.index();
        let ghost prefix = all.take(i + 1);
        assert(prefix.drop_last() =~= all.take(i));
        if start <= o.datetime && o.datetime <= end {
            kept.push(o);
        }
    }
    assert(all.take(all.len() as int) =~= all);
    kept
}

// ---------------------------------------------------------------- products

/// All positions of the orders, order by order.
pub open spec fn positions(orders: Seq<OrderDataExportOrderItem>) -> Seq<OrderDataExportOrderedItem>
    decreases orders.len(),
{
    if orders.len() == 0 {
        Seq::empty()
    } else {
        positions(orders.drop_last()) + orders.last().ordered_items@
    }
}

/// The distinct product identifiers of the positions, in order of first
/// appearance.
pub open spec fn product_ids(ps: Seq<OrderDataExportOrderedItem>) -> Seq<u32>
    decreases ps.len(),
{
    if ps.len() == 0 {
        Seq::empty()
    } else {
        let ids = product_ids(ps.drop_last());
        if ids.contains(ps.last().item) {
            ids
        } else {
            ids.push(ps.last().item)
        }
    }
}

/// Sum of the prices of the positions of product `id`.
pub open spec fn product_total(ps: Seq<OrderDataExportOrderedItem>, id: u32) -> int
    decreases ps.len(),
{
    if ps.len() == 0 {
        0
    } else {
        product_total(ps.drop_last(), id) + if ps.last().item == id {
            ps.last().price as int
        } else {
            0
        }
    }
}

/// Every running per-product total fits in `i64`.
pub open spec fn product_totals_fit(ps: Seq<OrderDataExportOrderedItem>) -> bool
    decreases ps.len(),
{
    ps.len() == 0 || (product_totals_fit(ps.drop_last()) && fits_i64(
        product_total(ps, ps.last().item),
    ))
}

proof fn lemma_product_totals_fit_prefix(ps: Seq<OrderDataExportOrderedItem>, k: int)
    requires
        product_totals_fit(ps),
        0 <= k <= ps.len(),
    ensures
        product_totals_fit(ps.take(k)),
    decreases ps.len(),
{
    if k == ps.len() {
        assert(ps.take(k) =~= ps);
    } else {
        assert(ps.drop_last().take(k) =~= ps.take(k));
        lemma_product_totals_fit_prefix(ps.drop_last(), k);
    }
}

proof fn lemma_absent_product_total(ps: Seq<OrderDataExportOrderedItem>, id: u32)
    requires
        !product_ids(ps).contains(id),
    ensures
        product_total(ps, id) == 0,
    decreases ps.len(),
{
    if ps.len() > 0 {
        let ids = product_ids(ps.drop_last());
        if ids.contains(id) {
            assert(product_ids(ps).contains(id)) by {
                if !ids.contains(ps.last().item) {
                    let j = choose|j: int| 0 <= j < ids.len() && ids[j] == id;
                    assert(ids.push(ps.last().item)[j] == id);
                }
            }
        }
        if ps.last().item == id {
            assert(product_ids(ps).contains(id)) by {
                if !ids.contains(id) {
                    assert(ids.push(id)[ids.len() as int] == id);
                }
            }
        }
        lemma_absent_product_total(ps.drop_last(), id);
    }
}

proof fn lemma_product_ids_distinct(ps: Seq<OrderDataExportOrderedItem>)
    ensures
        product_ids(ps).no_duplicates(),
    decreases ps.len(),
{
    if ps.len() > 0 {
        lemma_product_ids_distinct(ps.drop_last());
    }
}

/// The flattened positions of the orders.
fn flatten_positions(orders: &[OrderDataExportOrderItem]) -> (r: Vec<OrderDataExportOrderedItem>)
    ensures
        r@ == positions(orders@),
{
    let mut r: Vec<OrderDataExportOrderedItem> = Vec::new();
    let mut i: usize = 0;
    while i < orders.len()
        invariant
            i <= orders.len(),
            r@ == positions(orders@.take(i as int)),
        decreases orders.len() - i,
    {
        let ghost prefix = orders@.take(i as int + 1);
        assert(prefix.drop_last() =~= orders@.take(i as int));
        let items = &orders[i].ordered_items;
        let ghost before = r@;
        let mut j: usize = 0;
        while j < items.len()
            invariant
                j <= items.len(),
                r@ == before + items@.take(j as int),
            decreases items.len() - j,
        {
            r.push(OrderDataExportOrderedItem { item: items[j].item, price: items[j].price });
            j = j + 1;
            assert(r@ =~= before + items@.take(j as int));
        }
        assert(items@.take(j as int) =~= items@);
        i = i + 1;
    }
    assert(orders@.take(i as int) =~= orders@);
    r
}

/// Totals per product over all positions of the orders: each distinct product
/// identifier, in order of first appearance, with the sum of its prices.
pub fn calc_order_totals_per_sale_item(orders: &[OrderDataExportOrderItem]) -> (r: Option<
    Vec<(u32, i64)>,
>)
    ensures
        r is Some <==> product_totals_fit(positions(orders@)),
        r is Some ==> {
            let ids = product_ids(positions(orders@));
            &&& r->0@.len() == ids.len()
            &&& forall|j: int|
                0 <= j < ids.len() ==> (#[trigger] r->0@[j]).0 == ids[j] && r->0@[j].1
                    == product_total(positions(orders@), ids[j])
        },
{
    let ps = flatten_positions(orders);
    let mut totals: Vec<(u32, i64)> = Vec::new();
    let mut k: usize = 0;
    while k < ps.len()
        invariant
            k <= ps.len(),
            ps@ == positions(orders@),
            product_totals_fit(ps@.take(k as int)),
            totals@.len() == product_ids(ps@.take(k as int)).len(),
            forall|j: int|
                0 <= j < totals@.len() ==> (#[trigger] totals@[j]).0 == product_ids(
                    ps@.take(k as int),
                )[j] && totals@[j].1 == product_total(
                    ps@.take(k as int),
                    product_ids(ps@.take(k as int))[j],
                ),
        decreases ps.len() - k,
    {
        let ghost before = ps@.take(k as int);
        let ghost after = ps@.take(k as int + 1);
        assert(after.drop_last() =~= before);
        let ghost ids = product_ids(before);
        let id = ps[k].item;
        let price = ps[k].price;
        assert(after.last() == ps@[k as int]);
        proof {
            if product_totals_fit(ps@) {
                lemma_product_totals_fit_prefix(ps@, k as int + 1);
            }
            lemma_product_ids_distinct(before);
        }
        let mut j: usize = 0;
        while j < totals.len()
            invariant
                j <= totals.len(),
                totals@.len() == ids.len(),
                forall|m: int| 0 <= m < j ==> (#[trigger] totals@[m]).0 != id,
                forall|m: int| 0 <= m < totals@.len() ==> (#[trigger] totals@[m]).0 == ids[m],
            ensures
                j <= totals.len(),
                j < totals.len() ==> totals@[j as int].0 == id,
                forall|m: int| 0 <= m < j ==> (#[trigger] totals@[m]).0 != id,
            decreases totals.len() - j,
        {
            if totals[j].0 == id {
                break;
            }
            j = j + 1;
        }
        if j < totals.len() {
            let current = totals[j].1;
            match current.checked_add(price) {
                Some(sum) => {
                    let ghost old_totals = totals@;
                    assert(ids[j as int] == id);
                    assert(ids.contains(id));
                    assert(product_ids(after) == ids);
                    totals.set(j, (id, sum));
                    assert forall|m: int| 0 <= m < totals@.len() implies (#[trigger] totals@[m]).0
                        == product_ids(after)[m] && totals@[m].1 == product_total(
                        after,
                        product_ids(after)[m],
                    ) by {
                        if m != j {
                            assert(ids[m] != ids[j as int]);
                        }
                    }
                },
                None => {
                    proof {
                        assert(totals@[j as int].1 == product_total(before, id));
                        assert(product_total(after, id) == product_total(before, id) + price);
                        assert(!product_totals_fit(after));
                    }
                    return None;
                },
            }
        } else {
            proof {
                assert forall|m: int| 0 <= m < ids.len() implies ids[m] != id by {
                    assert(totals@[m].0 == ids[m]);
                }
                lemma_absent_product_total(before, id);
            }
            let ghost old_totals = totals@;
            totals.push((id, price));
            assert forall|m: int| 0 <= m < totals@.len() implies (#[trigger] totals@[m]).0
                == product_ids(after)[m] && totals@[m].1 == product_total(
                after,
                product_ids(after)[m],
            ) by {
                assert(!ids.contains(id));
                if m < old_totals.len() {
                    assert(ids[m] != id);
                }
            }
        }
        k = k + 1;
    }
    assert(ps@.take(k as int) =~= ps@);
    Some(totals)
}


/// Index of the first catalog entry with identifier `id`.
pub open spec fn first_sale_item(catalog: Seq<ExportResponseSaleItem>, id: u32) -> Option<int>
    decreases catalog.len(),
{
    if catalog.len() == 0 {
        None
    } else {
        match first_sale_item(catalog.drop_last(), id) {
            Some(i) => Some(i),
            None => if catalog.last().id == id {
                Some(catalog.len() - 1)
            } else {
                None
            },
        }
    }
}

proof fn lemma_first_sale_item_prefix(catalog: Seq<ExportResponseSaleItem>, id: u32, k: int)
    requires
        0 <= k <= catalog.len(),
        first_sale_item(catalog.take(k), id) is Some,
    ensures
        first_sale_item(catalog, id) == first_sale_item(catalog.take(k), id),
    decreases catalog.len(),
{
    if k == catalog.len() {
        assert(catalog.take(k) =~= catalog);
    } else {
        assert(catalog.drop_last().take(k) =~= catalog.take(k));
        lemma_first_sale_item_prefix(catalog.drop_last(), id, k);
    }
}

/// Position of the first catalog entry with identifier `id`.
fn find_sale_item(catalog: &Vec<ExportResponseSaleItem>, id: u32) -> (r: Option<usize>)
    ensures
        r matches Some(i) ==> first_sale_item(catalog@, id) == Some(i as int) && i < catalog@.len()
            && catalog@[i as int].id == id,
        r is None ==> first_sale_item(catalog@, id) is None,
{
    let mut i: usize = 0;
    while i < catalog.len()
        invariant
            i <= catalog.len(),
            first_sale_item(catalog@.take(i as int), id) is None,
        decreases catalog.len() - i,
    {
        let ghost prefix = catalog@.take(i as int + 1);
        assert(prefix.drop_last() =~= catalog@.take(i as int));
        if catalog[i].id == id {
            proof {
                lemma_first_sale_item_prefix(catalog@, id, i as int + 1);
            }
            return Some(i);
        }
        i = i + 1;
    }
    assert(catalog@.take(i as int) =~= catalog@);
    None
}

/// Why a summary could not be made.
#[derive(Debug)]
pub enum SummaryError {
    /// A running sum left the range of `i64`.
    AmountOverflow,
    /// An order sold a product that the catalog does not hold.
    UnknownSaleItem(u32),
}

/// The per-product totals with each identifier replaced by the catalog name of
/// its first entry; fails on the first identifier the catalog does not hold.
pub open spec fn named_totals_ok(
    totals: Seq<(u32, i64)>,
    catalog: Seq<ExportResponseSaleItem>,
) -> bool {
    forall|j: int| 0 <= j < totals.len() ==> #[trigger] first_sale_item(catalog, totals[j].0) is Some
}

/// Resolves the product identifiers of per-product totals to catalog names.
pub fn resolve_sale_item_names(totals: &Vec<(u32, i64)>, catalog: &Vec<ExportResponseSaleItem>) -> (r:
    Result<Vec<(String, i64)>, SummaryError>)
    ensures
        r is Ok <==> named_totals_ok(totals@, catalog@),
        r matches Ok(named) ==> {
            &&& named@.len() == totals@.len()
            &&& forall|j: int|
                0 <= j < totals@.len() ==> {
                    let i = first_sale_item(catalog@, totals@[j].0)->0;
                    &&& (#[trigger] named@[j]).0@ == catalog@[i].name@
                    &&& named@[j].1 == totals@[j].1
                    &&& 0 <= i < catalog@.len()
                    &&& catalog@[i].id == totals@[j].0
                }
        },
        r matches Err(e) ==> exists|j: int|
            0 <= j < totals@.len() && e == SummaryError::UnknownSaleItem(totals@[j].0)
                && first_sale_item(catalog@, totals@[j].0) is None && forall|h: int|
                0 <= h < j ==> #[trigger] first_sale_item(catalog@, totals@[h].0) is Some,
{
    let mut named: Vec<(String, i64)> = Vec::new();
    let mut j: usize = 0;
    while j < totals.len()
        invariant
            j <= totals.len(),
            named@.len() == j,
            forall|h: int| 0 <= h < j ==> #[trigger] first_sale_item(catalog@, totals@[h].0) is Some,
            forall|h: int|
                0 <= h < j ==> {
                    let i = first_sale_item(catalog@, totals@[h].0)->0;
                    &&& (#[trigger] named@[h]).0@ == catalog@[i].name@
                    &&& named@[h].1 == totals@[h].1
                    &&& 0 <= i < catalog@.len()
                    &&& catalog@[i].id == totals@[h].0
                },
        decreases totals.len() - j,
    {
        let (id, value) = totals[j];
        match find_sale_item(catalog, id) {
            Some(i) => {
                named.push((catalog[i].name.clone(), value));
            },
            None => {
                return Err(SummaryError::UnknownSaleItem(id));
            },
        }
        j = j + 1;
    }
    Ok(named)
}

/// What one event sold within a reporting window.
#[derive(Debug)]
pub struct EventSummary {
    pub event_name: String,
    pub totals: OrderExportTotals,
    /// The rendered report for the same window.
    pub pdf: Vec<u8>,
    pub sale_items: Vec<ExportResponseSaleItem>,
    /// Total per product name, in order of the products' first sale.
    pub items: Vec<(String, i64)>,
}

/// Summarizes an event's export over the window `[start, end]`: totals of the
/// orders within the window, and their totals per product under catalog names.
pub fn summarize_event(
    event_name: String,
    export: OrderExport,
    pdf: Vec<u8>,
    start: i64,
    end: i64,
) -> (r: Result<EventSummary, SummaryError>)
    ensures
        ({
            let kept = window_orders(export.orders@, start, end);
            let ps = positions(kept);
            let ids = product_ids(ps);
            &&& r is Ok <==> totals_fit(kept) && product_totals_fit(ps) && forall|j: int|
                0 <= j < ids.len() ==> #[trigger] first_sale_item(export.items@, ids[j]) is Some
            &&& r matches Ok(s) ==> {
                &&& s.event_name == event_name
                &&& s.pdf == pdf
                &&& s.sale_items == export.items
                &&& s.totals.value == total_net(kept)
                &&& s.totals.fees == total_fees(kept)
                &&& s.items@.len() == ids.len()
                &&& forall|j: int|
                    0 <= j < ids.len() ==> {
                        let i = first_sale_item(export.items@, ids[j])->0;
                        &&& (#[trigger] s.items@[j]).0@ == export.items@[i].name@
                        &&& s.items@[j].1 == product_total(ps, ids[j])
                    }
            }
            &&& !totals_fit(kept) || !product_totals_fit(ps) ==> (r is Err && r->Err_0
                is AmountOverflow)
            &&& r matches Err(SummaryError::UnknownSaleItem(id)) ==> exists|j: int|
                0 <= j < ids.len() && id == ids[j] && first_sale_item(export.items@, id) is None
                    && forall|h: int|
                    0 <= h < j ==> #[trigger] first_sale_item(export.items@, ids[h]) is Some
        }),
{
    let OrderExport { orders, items: catalog } = export;
    let kept = orders_in_window(orders, start, end);
    let totals = match order_export_calc_totals(kept.as_slice()) {
        Some(t) => t,
        None => {
            return Err(SummaryError::AmountOverflow);
        },
    };
    let per_product = match calc_order_totals_per_sale_item(kept.as_slice()) {
        Some(p) => p,
        None => {
            return Err(SummaryError::AmountOverflow);
        },
    };
    let ghost ids = product_ids(positions(kept@));
    let named = resolve_sale_item_names(&per_product, &catalog);
    proof {
        assert forall|j: int| 0 <= j < ids.len() implies (first_sale_item(catalog@, ids[j]) is Some
            <==> #[trigger] first_sale_item(catalog@, per_product@[j].0) is Some) by {
            assert(per_product@[j].0 == ids[j]);
        }
        if named is Err && forall|j: int|
            0 <= j < ids.len() ==> #[trigger] first_sale_item(catalog@, ids[j]) is Some {
            let j = choose|j: int|
                0 <= j < per_product@.len() && named->Err_0 == SummaryError::UnknownSaleItem(per_product@[j].0)
                    && first_sale_item(catalog@, per_product@[j].0) is None;
            assert(ids[j] == per_product@[j].0);
            assert(first_sale_item(catalog@, ids[j]) is Some);
        }
        if named is Err {
            let e = named->Err_0;
            let j = choose|j: int|
                0 <= j < per_product@.len() && e == SummaryError::UnknownSaleItem(per_product@[j].0)
                    && first_sale_item(catalog@, per_product@[j].0) is None && forall|h: int|
                    0 <= h < j ==> #[trigger] first_sale_item(catalog@, per_product@[h].0) is Some;
            assert(ids[j] == per_product@[j].0);
            assert forall|h: int| 0 <= h < j implies #[trigger] first_sale_item(catalog@, ids[h]) is Some by {
                assert(ids[h] == per_product@[h].0);
                assert(first_sale_item(catalog@, per_product@[h].0) is Some);
            }
        }
    }
    match named {
        Ok(items) => {
            proof {
                assert forall|j: int| 0 <= j < ids.len() implies {
                    let i = first_sale_item(catalog@, ids[j])->0;
                    &&& (#[trigger] items@[j]).0@ == catalog@[i].name@
                    &&& items@[j].1 == product_total(positions(kept@), ids[j])
                } by {
                    assert(per_product@[j].0 == ids[j]);
                    assert(items@[j].1 == per_product@[j].1);
                }
                assert(forall|j: int|
                    0 <= j < ids.len() ==> #[trigger] first_sale_item(catalog@, ids[j]) is Some) by {
                    assert forall|j: int| 0 <= j < ids.len() implies #[trigger] first_sale_item(
                        catalog@,
                        ids[j],
                    ) is Some by {
                        assert(per_product@[j].0 == ids[j]);
                        assert(first_sale_item(catalog@, per_product@[j].0) is Some);
                    }
                }
            }
            Ok(EventSummary { event_name, totals, pdf, sale_items: catalog, items })
        },
        Err(e) => Err(e),
    }
}

/// Over a window that covers every order, the selection keeps all orders, the
/// net total is the sum of the order totals minus the sum of their fees, and
/// the fee total is the sum of the fees.
pub proof fn lemma_covering_window_totals(
    orders: Seq<OrderDataExportOrderItem>,
    start: i64,
    end: i64,
)
    requires
        forall|i: int| 0 <= i < orders.len() ==> #[trigger] in_window(orders[i], start, end),
    ensures
        window_orders(orders, start, end) == orders,
        total_net(window_orders(orders, start, end)) == total_gross(orders) - total_fees(orders),
    decreases orders.len(),
{
    if orders.len() > 0 {
        let rest = orders.drop_last();
        assert forall|i: int| 0 <= i < rest.len() implies #[trigger] in_window(rest[i], start, end) by {
            assert(rest[i] == orders[i]);
        }
        lemma_covering_window_totals(rest, start, end);
        assert(in_window(orders[orders.len() - 1], start, end));
        assert(window_orders(orders, start, end) =~= rest.push(orders.last()));
        assert(rest.push(orders.last()) =~= orders);
    }
}

/// An order placed exactly at either end of the window is selected; one placed
/// a second before the start or a second after the end is not.
pub proof fn lemma_window_bounds(o: OrderDataExportOrderItem, start: i64, end: i64)
    requires
        start <= end,
    ensures
        o.datetime == start ==> in_window(o, start, end),
        o.datetime == end ==> in_window(o, start, end),
        o.datetime == start - 1 ==> !in_window(o, start, end),
        o.datetime == end + 1 ==> !in_window(o, start, end),
{
}

} // verus!
