use order_tracker::api::{merge_fetch_results, sort_orders_by_due};
use order_tracker::log::LogBuffer;
use order_tracker::model::{MetalType, Order, OrderSource};

const DAY: i64 = 86400;

fn order(id: &str, source: OrderSource, due: i64) -> Order {
    Order {
        id: id.to_string(),
        source,
        order_number: format!("#{}", id),
        customer_name: "C".to_string(),
        items: vec![],
        order_date: due - 14 * DAY,
        due_date: due,
        total_price: 100,
        currency: "USD".to_string(),
        status: "open".to_string(),
        shipping_address: None,
    }
}

#[test]
fn failed_storefront_keeps_marketplace_orders() {
    // Storefront fails with HTTP 500 while the marketplace returns 3
    // receipts: the aggregator returns those 3 orders and one error string.
    let etsy_orders = vec![
        order("e1", OrderSource::Etsy, 3 * DAY),
        order("e2", OrderSource::Etsy, 1 * DAY),
        order("e3", OrderSource::Etsy, 2 * DAY),
    ];
    let r = merge_fetch_results(
        Err("Shopify API error: 500".to_string()),
        Ok(etsy_orders),
    );
    assert_eq!(r.orders.len(), 3);
    assert_eq!(r.errors, vec!["Shopify: Shopify API error: 500".to_string()]);
    // merged list is sorted ascending by due date
    assert_eq!(r.orders[0].id, "e2");
    assert_eq!(r.orders[1].id, "e3");
    assert_eq!(r.orders[2].id, "e1");
}

#[test]
fn both_sources_failing_yields_two_labeled_errors() {
    let r = merge_fetch_results(Err("boom".to_string()), Err("bust".to_string()));
    assert_eq!(r.orders.len(), 0);
    assert_eq!(r.errors, vec!["Shopify: boom".to_string(), "Etsy: bust".to_string()]);
}

#[test]
fn both_sources_succeeding_yields_no_errors() {
    let r = merge_fetch_results(
        Ok(vec![order("s1", OrderSource::Shopify, 5 * DAY)]),
        Ok(vec![order("e1", OrderSource::Etsy, 2 * DAY)]),
    );
    assert!(r.errors.is_empty());
    assert_eq!(r.orders[0].id, "e1");
    assert_eq!(r.orders[1].id, "s1");
}

#[test]
fn sort_is_stable_on_equal_due_dates() {
    let v = vec![
        order("a", OrderSource::Shopify, 2 * DAY),
        order("b", OrderSource::Shopify, 1 * DAY),
        order("c", OrderSource::Etsy, 2 * DAY),
        order("d", OrderSource::Etsy, 1 * DAY),
    ];
    let sorted = sort_orders_by_due(v);
    let ids: Vec<&str> = sorted.iter().map(|o| o.id.as_str()).collect();
    // ties keep input order: b before d (both day 1), a before c (both day 2)
    assert_eq!(ids, vec!["b", "d", "a", "c"]);
}

#[test]
fn due_day_arithmetic_and_urgency_classes() {
    let now = 1_700_000_000;
    let o = order("x", OrderSource::Shopify, now + 2 * DAY);
    assert_eq!(o.days_until_due(now), 2);
    assert_eq!(o.urgency_class(now), "urgency-critical");

    let soon = order("y", OrderSource::Shopify, now + 5 * DAY);
    assert_eq!(soon.urgency_class(now), "urgency-warning");

    let fine = order("z", OrderSource::Shopify, now + 30 * DAY);
    assert_eq!(fine.urgency_class(now), "urgency-ok");

    let overdue = order("w", OrderSource::Shopify, now - 3 * DAY);
    assert_eq!(overdue.days_until_due(now), -3);
    assert_eq!(overdue.urgency_class(now), "urgency-overdue");

    // less than a whole day either way truncates toward zero
    let almost = order("v", OrderSource::Shopify, now + DAY - 1);
    assert_eq!(almost.days_until_due(now), 0);
    // truncation toward zero: overdue by less than a day is 0 days left,
    // which still classes as critical, not overdue
    let just_over = order("u", OrderSource::Shopify, now - DAY + 1);
    assert_eq!(just_over.days_until_due(now), 0);
    assert_eq!(just_over.urgency_class(now), "urgency-critical");
}

#[test]
fn metal_badges_display() {
    assert_eq!(MetalType::Gold.display_class(), "badge-gold");
    assert_eq!(MetalType::Silver.display_class(), "badge-silver");
    assert_eq!(MetalType::Bronze.display_class(), "badge-bronze");
    assert_eq!(MetalType::Unknown.display_class(), "badge-nebula");
    assert_eq!(MetalType::Gold.display_name(), "Gold Plated");
    assert_eq!(MetalType::Unknown.display_name(), "Unknown");
}

#[test]
fn log_buffer_keeps_newest_entries() {
    let mut buf = LogBuffer::new();
    for i in 0..5 {
        buf.app_log(format!("t{}", i), "INFO".to_string(), format!("m{}", i));
    }
    let snap = buf.app_logs_snapshot();
    assert_eq!(snap.len(), 5);
    assert_eq!(snap[0].message, "m0");
    assert_eq!(snap[4].message, "m4");
    assert_eq!(snap[2].level, "INFO");
}

#[test]
fn log_buffer_drops_oldest_beyond_cap() {
    let mut buf = LogBuffer::new();
    for i in 0..2005 {
        buf.app_log("t".to_string(), "INFO".to_string(), format!("m{}", i));
    }
    let snap = buf.app_logs_snapshot();
    assert_eq!(snap.len(), 2000);
    assert_eq!(snap[0].message, "m5");
    assert_eq!(snap[1999].message, "m2004");
}
