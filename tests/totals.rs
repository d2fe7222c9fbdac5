use knaaktomatisering::pretix::{
    ExportResponseSaleItem, OrderDataExportOrderItem, OrderDataExportOrderItemFee,
    OrderDataExportOrderedItem, OrderExport,
};
use knaaktomatisering::totals::{
    calc_order_totals_per_sale_item, order_export_calc_totals, orders_in_window,
    resolve_sale_item_names, summarize_event, SummaryError,
};

fn order(datetime: i64, total: i64, fees: &[i64], items: &[(u32, i64)]) -> OrderDataExportOrderItem {
    OrderDataExportOrderItem {
        fees: fees.iter().map(|v| OrderDataExportOrderItemFee { value: *v }).collect(),
        datetime,
        total,
        ordered_items: items
            .iter()
            .map(|(item, price)| OrderDataExportOrderedItem { item: *item, price: *price })
            .collect(),
    }
}

fn sale_item(id: u32, name: &str, tax_rate: i64) -> ExportResponseSaleItem {
    ExportResponseSaleItem { id, name: name.to_string(), tax_rate }
}

#[test]
fn totals_are_net_of_fees() {
    let orders = vec![
        order(10, 2500, &[35, 15], &[]),
        order(20, 1000, &[], &[]),
        order(30, 4000, &[100], &[]),
    ];
    let totals = order_export_calc_totals(&orders).unwrap();
    // (2500 + 1000 + 4000) - (35 + 15 + 100)
    assert_eq!(totals.value, 7350);
    assert_eq!(totals.fees, 150);
}

#[test]
fn totals_of_nothing_are_zero() {
    let totals = order_export_calc_totals(&[]).unwrap();
    assert_eq!(totals.value, 0);
    assert_eq!(totals.fees, 0);
}

#[test]
fn totals_overflow_is_reported() {
    let orders = vec![order(0, i64::MAX, &[], &[]), order(0, 1, &[], &[])];
    assert!(order_export_calc_totals(&orders).is_none());
    let orders = vec![order(0, 0, &[i64::MAX, 1], &[])];
    assert!(order_export_calc_totals(&orders).is_none());
    let orders = vec![order(0, i64::MIN, &[1], &[])];
    assert!(order_export_calc_totals(&orders).is_none());
}

#[test]
fn window_includes_both_boundaries() {
    let start = 1_000;
    let end = 2_000;
    let orders = vec![
        order(start - 1, 1, &[], &[]),
        order(start, 2, &[], &[]),
        order(1_500, 3, &[], &[]),
        order(end, 4, &[], &[]),
        order(end + 1, 5, &[], &[]),
    ];
    let kept = orders_in_window(orders, start, end);
    let totals: Vec<i64> = kept.iter().map(|o| o.total).collect();
    assert_eq!(totals, vec![2, 3, 4]);
}

#[test]
fn covering_window_sums_every_record() {
    let orders = vec![order(100, 1200, &[30], &[]), order(200, 800, &[20, 5], &[])];
    let kept = orders_in_window(orders, 100, 200);
    assert_eq!(kept.len(), 2);
    let totals = order_export_calc_totals(&kept).unwrap();
    assert_eq!(totals.value, 2000 - 55);
    assert_eq!(totals.fees, 55);
}

#[test]
fn product_totals_group_by_product() {
    // Product 1 (A) at 10.00 and product 2 (B) at 5.00 in each of two orders.
    let orders = vec![
        order(0, 1500, &[], &[(1, 1000), (2, 500)]),
        order(0, 1500, &[], &[(1, 1000), (2, 500)]),
    ];
    let per_item = calc_order_totals_per_sale_item(&orders).unwrap();
    assert_eq!(per_item, vec![(1, 2000), (2, 1000)]);
    let catalog = vec![sale_item(2, "B", 900), sale_item(1, "A", 2100)];
    let named = resolve_sale_item_names(&per_item, &catalog).unwrap();
    assert_eq!(named, vec![("A".to_string(), 2000), ("B".to_string(), 1000)]);
}

#[test]
fn product_totals_count_repeated_positions() {
    let orders = vec![order(0, 0, &[], &[(7, 300), (7, 300), (8, 100)]), order(0, 0, &[], &[(8, 50)])];
    let per_item = calc_order_totals_per_sale_item(&orders).unwrap();
    assert_eq!(per_item, vec![(7, 600), (8, 150)]);
}

#[test]
fn product_totals_overflow_is_reported() {
    let orders = vec![order(0, 0, &[], &[(1, i64::MAX)]), order(0, 0, &[], &[(1, 1)])];
    assert!(calc_order_totals_per_sale_item(&orders).is_none());
}

#[test]
fn unknown_product_is_reported() {
    let catalog = vec![sale_item(1, "A", 2100)];
    let err = resolve_sale_item_names(&vec![(1, 5), (9, 5)], &catalog).unwrap_err();
    assert!(matches!(err, SummaryError::UnknownSaleItem(9)));
}

#[test]
fn first_catalog_entry_names_the_product() {
    let catalog = vec![sale_item(1, "First", 0), sale_item(1, "Second", 0)];
    let named = resolve_sale_item_names(&vec![(1, 5)], &catalog).unwrap();
    assert_eq!(named[0].0, "First");
}

#[test]
fn summary_of_an_event() {
    let export = OrderExport {
        orders: vec![
            order(50, 9999, &[1], &[(1, 9999)]),
            order(100, 1500, &[50], &[(1, 1000), (2, 500)]),
            order(150, 1000, &[25], &[(1, 1000)]),
        ],
        items: vec![sale_item(1, "Ticket", 900), sale_item(2, "Shirt", 2100)],
    };
    let summary = summarize_event("Party".to_string(), export, vec![1, 2, 3], 100, 200).unwrap();
    assert_eq!(summary.event_name, "Party");
    assert_eq!(summary.totals.value, 2500 - 75);
    assert_eq!(summary.totals.fees, 75);
    assert_eq!(summary.items, vec![("Ticket".to_string(), 2000), ("Shirt".to_string(), 500)]);
    assert_eq!(summary.pdf, vec![1, 2, 3]);
    assert_eq!(summary.sale_items.len(), 2);
}

#[test]
fn summary_fails_on_unknown_product() {
    let export = OrderExport { orders: vec![order(100, 10, &[], &[(3, 10)])], items: vec![] };
    let err = summarize_event("E".to_string(), export, vec![], 0, 200).unwrap_err();
    assert!(matches!(err, SummaryError::UnknownSaleItem(3)));
}
