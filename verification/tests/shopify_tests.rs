use order_tracker::model::{MetalType, OrderSource};
use order_tracker::shopify::{
    build_shopify_order, build_shopify_orders, extract_ring_size, shopify_api_error,
    shopify_parse_error, shopify_transport_error, ShopifyAddress, ShopifyCustomer,
    ShopifyLineItem, ShopifyOrder, ShopifyProperty,
};
use order_tracker::text::{chars_vec, parse_money_cents};

fn line(name: &str, qty: i32, price: &str, variant: Option<&str>) -> ShopifyLineItem {
    ShopifyLineItem {
        name: name.to_string(),
        quantity: qty,
        price: price.to_string(),
        variant_title: variant.map(|s| s.to_string()),
        properties: None,
    }
}

#[test]
fn metal_inference_is_priority_ordered() {
    // A text naming both gold and silver classifies as Gold.
    assert_eq!(MetalType::from_string("silver and gold mix"), MetalType::Gold);
    assert_eq!(MetalType::from_string("Sterling Silver"), MetalType::Silver);
    assert_eq!(MetalType::from_string("925 band"), MetalType::Silver);
    assert_eq!(MetalType::from_string("antique BRASS cuff"), MetalType::Bronze);
    assert_eq!(MetalType::from_string("18K pendant"), MetalType::Gold);
    assert_eq!(MetalType::from_string("plain titanium"), MetalType::Unknown);
    assert_eq!(MetalType::from_string("bronze with silver inlay"), MetalType::Silver);
}

#[test]
fn gold_ring_size_seven_scenario() {
    // "14k Gold Ring Size 7" with no explicit size property.
    let name = "14k Gold Ring Size 7";
    assert_eq!(MetalType::from_string(name), MetalType::Gold);
    assert_eq!(extract_ring_size(name, &None), Some("7".to_string()));
}

#[test]
fn ring_size_property_wins_over_text() {
    let props = Some(vec![
        ShopifyProperty { name: "Engraving".to_string(), value: "love".to_string() },
        ShopifyProperty { name: "Ring Size".to_string(), value: "8".to_string() },
    ]);
    assert_eq!(extract_ring_size("band size 7", &props), Some("8".to_string()));
}

#[test]
fn ring_size_textual_patterns() {
    assert_eq!(extract_ring_size("gold band size 7.5 polished", &None), Some("7.5".to_string()));
    assert_eq!(extract_ring_size("cuff sz 6", &None), Some("6".to_string()));
    assert_eq!(extract_ring_size("ring us 9", &None), Some("9".to_string()));
    assert_eq!(extract_ring_size("no size here:", &None), None);
    assert_eq!(extract_ring_size("plain bracelet", &None), None);
}

#[test]
fn money_string_parses_to_cents() {
    assert_eq!(parse_money_cents(&chars_vec("12.34")), Some(1234));
    assert_eq!(parse_money_cents(&chars_vec("12")), Some(1200));
    assert_eq!(parse_money_cents(&chars_vec("12.345")), Some(1234));
    assert_eq!(parse_money_cents(&chars_vec("12.")), Some(1200));
    assert_eq!(parse_money_cents(&chars_vec("0.05")), Some(5));
    assert_eq!(parse_money_cents(&chars_vec("0.5")), Some(50));
    assert_eq!(parse_money_cents(&chars_vec(".5")), None);
    assert_eq!(parse_money_cents(&chars_vec("-3")), None);
    assert_eq!(parse_money_cents(&chars_vec("abc")), None);
    assert_eq!(parse_money_cents(&chars_vec("")), None);
}

#[test]
fn storefront_order_maps_all_fields() {
    let so = ShopifyOrder {
        id: 4501,
        order_number: 1001,
        created_at: "2024-01-10T00:00:00+00:00".to_string(),
        customer: Some(ShopifyCustomer {
            first_name: Some("Ada".to_string()),
            last_name: Some("Lovelace".to_string()),
        }),
        line_items: vec![line("14k Gold Ring", 2, "49.99", Some("Size 7"))],
        total_price: "99.98".to_string(),
        currency: "USD".to_string(),
        fulfillment_status: None,
        shipping_address: Some(ShopifyAddress {
            address1: Some("1 Main St".to_string()),
            city: Some("Springfield".to_string()),
            province: Some("IL".to_string()),
            country: Some("USA".to_string()),
            zip: Some("62704".to_string()),
        }),
    };
    let now = 1_700_000_000;
    let o = build_shopify_order(&so, now);
    assert_eq!(o.id, "4501");
    assert_eq!(o.source, OrderSource::Shopify);
    assert_eq!(o.order_number, "#1001");
    assert_eq!(o.customer_name, "Ada Lovelace");
    // 2024-01-10T00:00:00Z
    assert_eq!(o.order_date, 1_704_844_800);
    assert_eq!(o.due_date, 1_704_844_800 + 14 * 86400);
    assert_eq!(o.total_price, 9998);
    assert_eq!(o.currency, "USD");
    assert_eq!(o.status, "unfulfilled");
    assert_eq!(o.shipping_address, Some("1 Main St, Springfield, IL 62704 USA".to_string()));
    assert_eq!(o.items.len(), 1);
    let it = &o.items[0];
    assert_eq!(it.name, "14k Gold Ring");
    assert_eq!(it.quantity, 2);
    assert_eq!(it.price, 4999);
    assert_eq!(it.metal_type, MetalType::Gold);
    assert_eq!(it.ring_size, Some("7".to_string()));
    assert_eq!(it.variant_info, Some("Size 7".to_string()));
    assert_eq!(it.image_url, None);
}

#[test]
fn bad_date_falls_back_to_now_not_abort() {
    let so = ShopifyOrder {
        id: 1,
        order_number: 2,
        created_at: "not a date".to_string(),
        customer: None,
        line_items: vec![],
        total_price: "x".to_string(),
        currency: "EUR".to_string(),
        fulfillment_status: Some("partial".to_string()),
        shipping_address: None,
    };
    let now = 1_700_000_000;
    let o = build_shopify_order(&so, now);
    assert_eq!(o.order_date, now);
    assert_eq!(o.due_date, now + 14 * 86400);
    assert_eq!(o.customer_name, "Unknown Customer");
    assert_eq!(o.total_price, 0);
    assert_eq!(o.status, "partial");
    assert_eq!(o.shipping_address, None);
}

#[test]
fn storefront_zero_total_falls_back_to_item_subtotals() {
    // A zero (or unparsable) reported total is recomputed as the sum of
    // the order lines' price times quantity.
    let so = ShopifyOrder {
        id: 9,
        order_number: 9,
        created_at: "2024-01-10T00:00:00+00:00".to_string(),
        customer: None,
        line_items: vec![line("Plain Band", 3, "10.00", None)],
        total_price: "0.00".to_string(),
        currency: "USD".to_string(),
        fulfillment_status: None,
        shipping_address: None,
    };
    let o = build_shopify_order(&so, 0);
    assert_eq!(o.total_price, 3000);
    assert_eq!(o.items[0].price, 1000);

    let mut unparsable = so;
    unparsable.total_price = "n/a".to_string();
    let o2 = build_shopify_order(&unparsable, 0);
    assert_eq!(o2.total_price, 3000);
}

#[test]
fn storefront_diagnostics_are_framed_exactly() {
    assert_eq!(shopify_api_error(500), "Shopify API error: 500");
    assert_eq!(shopify_transport_error("timed out"), "Shopify request failed: timed out");
    assert_eq!(
        shopify_parse_error("missing field"),
        "Failed to parse Shopify response: missing field"
    );
}

#[test]
fn batch_maps_in_order() {
    let mk = |id: i64, date: &str| ShopifyOrder {
        id,
        order_number: id,
        created_at: date.to_string(),
        customer: None,
        line_items: vec![],
        total_price: "1.00".to_string(),
        currency: "USD".to_string(),
        fulfillment_status: None,
        shipping_address: None,
    };
    let orders = vec![
        mk(1, "2024-01-10T00:00:00+00:00"),
        mk(2, "2024-01-11T00:00:00+00:00"),
    ];
    let out = build_shopify_orders(&orders, 0);
    assert_eq!(out.len(), 2);
    assert_eq!(out[0].id, "1");
    assert_eq!(out[1].id, "2");
    assert_eq!(out[1].order_date - out[0].order_date, 86400);
}
