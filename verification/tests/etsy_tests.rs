use order_tracker::etsy::{
    bounded_preview, build_etsy_order, build_etsy_orders, collect_image_keys, etsy_api_error,
    etsy_parse_error, etsy_transport_error, lookup_image, money_to_cents, normalize_epoch,
    pick_image_url, receipts_page_advance, EtsyListingImage, EtsyMoney, EtsyReceipt,
    EtsyTransaction, EtsyVariation, ImageEntry,
};
use order_tracker::model::{MetalType, OrderSource};

const DAY: i64 = 86400;

fn money(amount: i64, divisor: i64, currency: Option<&str>) -> EtsyMoney {
    EtsyMoney {
        amount: Some(amount),
        divisor: Some(divisor),
        currency_code: currency.map(|s| s.to_string()),
    }
}

fn bare_tx(title: &str) -> EtsyTransaction {
    EtsyTransaction {
        title: Some(title.to_string()),
        quantity: Some(1),
        price: None,
        variations: None,
        listing_id: None,
        listing_image_id: None,
        expected_ship_date: None,
    }
}

fn bare_receipt(id: i64, create_ts: i64) -> EtsyReceipt {
    EtsyReceipt {
        receipt_id: id,
        order_id: None,
        name: "Buyer".to_string(),
        create_timestamp: create_ts,
        grandtotal: None,
        transactions: None,
        first_line: None,
        formatted_address: None,
        status: None,
    }
}

#[test]
fn epoch_magnitude_disambiguation() {
    assert_eq!(normalize_epoch(1_700_000_000), 1_700_000_000);
    assert_eq!(normalize_epoch(1_700_000_000_123), 1_700_000_000);
    // exactly at the threshold counts as seconds
    assert_eq!(normalize_epoch(1_000_000_000_000), 1_000_000_000_000);
}

#[test]
fn money_division_with_defaults() {
    assert_eq!(money_to_cents(&money(1234, 100, None)), 1234);
    assert_eq!(money_to_cents(&money(500, 10, None)), 5000);
    // divisor absent defaults to 100
    assert_eq!(
        money_to_cents(&EtsyMoney { amount: Some(250), divisor: None, currency_code: None }),
        250
    );
    // divisor floored at 1
    assert_eq!(money_to_cents(&money(3, 0, None)), 300);
    // absent or negative amounts count as zero
    assert_eq!(
        money_to_cents(&EtsyMoney { amount: None, divisor: Some(100), currency_code: None }),
        0
    );
    assert_eq!(money_to_cents(&money(-500, 100, None)), 0);
}

#[test]
fn pagination_stops_on_short_page() {
    // a full page continues at the next offset
    assert_eq!(receipts_page_advance(0, 100, 100), Some(100));
    assert_eq!(receipts_page_advance(100, 100, 100), Some(200));
    // the second page is short: pagination terminates after it
    assert_eq!(receipts_page_advance(100, 37, 100), None);
    assert_eq!(receipts_page_advance(0, 0, 100), None);
}

#[test]
fn old_receipts_excluded_recent_kept_with_sla_due_date() {
    let now = 1_700_000_000;
    let old = bare_receipt(1, now - 70 * DAY);
    let recent = bare_receipt(2, now - 10 * DAY);
    let orders = build_etsy_orders(&vec![old, recent], &vec![], now);
    assert_eq!(orders.len(), 1);
    let o = &orders[0];
    assert_eq!(o.id, "2");
    assert_eq!(o.source, OrderSource::Etsy);
    assert_eq!(o.order_date, now - 10 * DAY);
    // no line carries an expected ship date: due defaults to order + 14 days
    assert_eq!(o.due_date, now - 10 * DAY + 14 * DAY);
}

#[test]
fn millisecond_timestamps_are_normalized_before_filtering() {
    let now = 1_700_000_000;
    let recent_ms = bare_receipt(3, (now - 5 * DAY) * 1000);
    let orders = build_etsy_orders(&vec![recent_ms], &vec![], now);
    assert_eq!(orders.len(), 1);
    assert_eq!(orders[0].order_date, now - 5 * DAY);
}

#[test]
fn due_date_is_max_expected_ship_date() {
    let now = 1_700_000_000;
    let mut r = bare_receipt(4, now - DAY);
    let mut t1 = bare_tx("a");
    t1.expected_ship_date = Some(now + 3 * DAY);
    let mut t2 = bare_tx("b");
    t2.expected_ship_date = Some(now + 5 * DAY);
    r.transactions = Some(vec![t1, t2]);
    let o = build_etsy_order(&r, &vec![]);
    assert_eq!(o.due_date, now + 5 * DAY);
}

#[test]
fn receipt_total_and_currency_defaults() {
    let now = 1_700_000_000;
    let mut r = bare_receipt(5, now);
    r.grandtotal = Some(money(2599, 100, Some("EUR")));
    let o = build_etsy_order(&r, &vec![]);
    assert_eq!(o.total_price, 2599);
    assert_eq!(o.currency, "EUR");

    let r2 = bare_receipt(6, now);
    let o2 = build_etsy_order(&r2, &vec![]);
    assert_eq!(o2.total_price, 0);
    assert_eq!(o2.currency, "USD");
}

#[test]
fn zero_total_falls_back_to_item_subtotals() {
    let now = 1_700_000_000;
    let mut r = bare_receipt(7, now);
    r.grandtotal = Some(money(0, 100, None));
    let mut t1 = bare_tx("a");
    t1.price = Some(money(1000, 100, None));
    t1.quantity = Some(2);
    let mut t2 = bare_tx("b");
    t2.price = Some(money(550, 100, None));
    t2.quantity = Some(1);
    r.transactions = Some(vec![t1, t2]);
    let o = build_etsy_order(&r, &vec![]);
    assert_eq!(o.total_price, 2550);
}

#[test]
fn variants_flatten_and_name_the_ring_size() {
    let now = 1_700_000_000;
    let mut r = bare_receipt(8, now);
    let mut t = bare_tx("Luna Band");
    t.variations = Some(vec![
        EtsyVariation {
            formatted_name: Some("Metal".to_string()),
            formatted_value: Some("Sterling Silver".to_string()),
        },
        EtsyVariation {
            formatted_name: Some("Ring size".to_string()),
            formatted_value: Some("7".to_string()),
        },
        EtsyVariation { formatted_name: None, formatted_value: None },
    ]);
    r.transactions = Some(vec![t]);
    let o = build_etsy_order(&r, &vec![]);
    let it = &o.items[0];
    assert_eq!(it.variant_info, Some("Metal: Sterling Silver, Ring size: 7".to_string()));
    // the ring size is the first flattened part mentioning ring or size
    assert_eq!(it.ring_size, Some("Ring size: 7".to_string()));
    assert_eq!(it.metal_type, MetalType::Silver);
    assert_eq!(it.name, "Luna Band");
}

#[test]
fn missing_title_and_fields_take_defaults() {
    let now = 1_700_000_000;
    let mut r = bare_receipt(9, now);
    r.name = "   ".to_string();
    r.transactions = Some(vec![EtsyTransaction {
        title: None,
        quantity: None,
        price: None,
        variations: None,
        listing_id: None,
        listing_image_id: None,
        expected_ship_date: None,
    }]);
    let o = build_etsy_order(&r, &vec![]);
    assert_eq!(o.customer_name, "Unknown");
    assert_eq!(o.status, "open");
    assert_eq!(o.order_number, "#9");
    let it = &o.items[0];
    assert_eq!(it.name, "Item");
    assert_eq!(it.quantity, 1);
    assert_eq!(it.price, 0);
}

#[test]
fn order_number_prefers_order_id() {
    let now = 1_700_000_000;
    let mut r = bare_receipt(10, now);
    r.order_id = Some(777);
    let o = build_etsy_order(&r, &vec![]);
    assert_eq!(o.order_number, "#777");
    assert_eq!(o.id, "10");
}

#[test]
fn image_keys_are_distinct_and_sorted() {
    let now = 1_700_000_000;
    let mut r1 = bare_receipt(11, now);
    let mut ta = bare_tx("a");
    ta.listing_id = Some(5);
    ta.listing_image_id = Some(50);
    let mut tb = bare_tx("b");
    tb.listing_id = Some(3);
    tb.listing_image_id = Some(30);
    r1.transactions = Some(vec![ta, tb]);
    let mut r2 = bare_receipt(12, now);
    let mut tc = bare_tx("c");
    tc.listing_id = Some(5);
    tc.listing_image_id = Some(50);
    let mut td = bare_tx("d");
    td.listing_id = Some(7);
    td.listing_image_id = None;
    r2.transactions = Some(vec![tc, td]);
    let keys = collect_image_keys(&vec![r1, r2]);
    assert_eq!(keys, vec![(3, 30), (5, 50)]);
}

#[test]
fn resolved_images_attach_to_matching_items() {
    let now = 1_700_000_000;
    let mut r = bare_receipt(13, now);
    let mut t = bare_tx("a");
    t.listing_id = Some(5);
    t.listing_image_id = Some(50);
    r.transactions = Some(vec![t, bare_tx("b")]);
    let images = vec![ImageEntry {
        listing_id: 5,
        image_id: 50,
        url: "https://img/5-50".to_string(),
    }];
    let o = build_etsy_order(&r, &images);
    assert_eq!(o.items[0].image_url, Some("https://img/5-50".to_string()));
    assert_eq!(o.items[1].image_url, None);
    assert_eq!(lookup_image(&images, 5, 51), None);
}

#[test]
fn larger_image_variant_is_preferred() {
    let both = EtsyListingImage {
        url_75x75: Some("small".to_string()),
        url_170x135: Some("large".to_string()),
    };
    assert_eq!(pick_image_url(&both), Some("large".to_string()));
    let small_only = EtsyListingImage {
        url_75x75: Some("small".to_string()),
        url_170x135: None,
    };
    assert_eq!(pick_image_url(&small_only), Some("small".to_string()));
    let empty_large = EtsyListingImage {
        url_75x75: Some("small".to_string()),
        url_170x135: Some("".to_string()),
    };
    assert_eq!(pick_image_url(&empty_large), None);
}

#[test]
fn diagnostics_are_framed_exactly() {
    assert_eq!(
        etsy_api_error(500, ""),
        "Etsy API error: 500 - Check x-api-key and OAuth token (transactions_r scope)"
    );
    assert_eq!(etsy_api_error(403, "forbidden"), "Etsy API error: 403 - forbidden");
    assert_eq!(
        etsy_transport_error("connection reset"),
        "Etsy request failed: connection reset"
    );
    assert_eq!(
        etsy_parse_error("expected value", "{bad"),
        "Etsy response parse failed: expected value | raw preview: {bad"
    );
}

#[test]
fn long_bodies_are_previewed_bounded() {
    let short = "x".repeat(1500);
    assert_eq!(bounded_preview(&short), short);
    let long = "y".repeat(1501);
    let p = bounded_preview(&long);
    assert_eq!(p.len(), 1500 + "... (truncated)".len());
    assert!(p.starts_with(&"y".repeat(1500)));
    assert!(p.ends_with("... (truncated)"));
}
