use order_tracker::catalog::{
    catalog_cost_sum, lookup_piece_cost, pick_cost_weight, ring_matches, ItemCostWeight,
    PieceCostRow,
};
use order_tracker::model::{MetalType, OrderItem};

fn item(name: &str, metal: MetalType, ring: Option<&str>) -> OrderItem {
    OrderItem {
        name: name.to_string(),
        quantity: 1,
        price: 0,
        metal_type: metal,
        ring_size: ring.map(|s| s.to_string()),
        variant_info: None,
        image_url: None,
    }
}

fn row(design: &str, ring: Option<&str>, keys: Option<Vec<&str>>) -> PieceCostRow {
    PieceCostRow {
        design_key: design.to_string(),
        ring_size: ring.map(|s| s.to_string()),
        volume_cm3: None,
        silver_g: None,
        silver_usd: None,
        gold_g: None,
        gold_usd: None,
        bronze_g: None,
        bronze_usd: None,
        wax_usd: None,
        product_keys: keys.map(|v| v.into_iter().map(|s| s.to_string()).collect()),
    }
}

#[test]
fn match_is_idempotent_on_same_snapshot() {
    let mut r = row("luna band", None, None);
    r.silver_usd = Some(850);
    r.silver_g = Some(3200);
    let rows = vec![r];
    let it = item("Luna Band", MetalType::Silver, None);
    let first = lookup_piece_cost(&it, &rows);
    let second = lookup_piece_cost(&it, &rows);
    assert_eq!(first, second);
    assert_eq!(
        first,
        Some(ItemCostWeight { cost_usd: 850, weight_g: 3200 })
    );
}

#[test]
fn empty_ring_size_matches_any_item() {
    let mut r = row("orbit ring", Some(""), None);
    r.gold_usd = Some(1200);
    let rows = vec![r];
    let no_ring = item("Orbit Ring", MetalType::Gold, None);
    let with_ring = item("Orbit Ring", MetalType::Gold, Some("7"));
    assert!(lookup_piece_cost(&no_ring, &rows).is_some());
    assert!(lookup_piece_cost(&with_ring, &rows).is_some());
}

#[test]
fn na_ring_size_matches_any_item() {
    let mut r = row("orbit ring", Some("N/A"), None);
    r.gold_usd = Some(1200);
    let rows = vec![r];
    let no_ring = item("Orbit Ring", MetalType::Gold, None);
    let with_ring = item("Orbit Ring", MetalType::Gold, Some("7"));
    assert!(lookup_piece_cost(&no_ring, &rows).is_some());
    assert!(lookup_piece_cost(&with_ring, &rows).is_some());
}

#[test]
fn specific_ring_size_matches_only_identical_trimmed() {
    assert!(ring_matches(&Some("7".to_string()), &Some(" 7 ".to_string())));
    assert!(!ring_matches(&Some("7".to_string()), &Some("8".to_string())));
    assert!(!ring_matches(&Some("7".to_string()), &None));
    assert!(ring_matches(&None, &None));
    assert!(ring_matches(&None, &Some("9".to_string())));
}

#[test]
fn no_metal_data_yields_none_not_zero() {
    let r = row("orbit ring", None, None);
    let rows = vec![r];
    let it = item("Orbit Ring", MetalType::Gold, None);
    assert_eq!(lookup_piece_cost(&it, &rows), None);
}

#[test]
fn zero_cost_with_positive_weight_still_matches() {
    let mut r = row("orbit ring", None, None);
    r.gold_g = Some(2500);
    let rows = vec![r];
    let it = item("Orbit Ring", MetalType::Gold, None);
    assert_eq!(
        lookup_piece_cost(&it, &rows),
        Some(ItemCostWeight { cost_usd: 0, weight_g: 2500 })
    );
}

#[test]
fn unknown_metal_sums_all_three() {
    let mut r = row("orbit ring", None, None);
    r.silver_usd = Some(100);
    r.gold_usd = Some(200);
    r.bronze_usd = Some(50);
    r.silver_g = Some(1000);
    r.gold_g = Some(1100);
    r.bronze_g = Some(900);
    assert_eq!(
        pick_cost_weight(&r, &MetalType::Unknown),
        Some(ItemCostWeight { cost_usd: 350, weight_g: 3000 })
    );
}

#[test]
fn alias_match_by_exact_key() {
    let mut r = row("internal design 77", None, Some(vec![" Luna Band "]));
    r.silver_usd = Some(700);
    let rows = vec![r];
    let it = item("luna band", MetalType::Silver, None);
    assert!(lookup_piece_cost(&it, &rows).is_some());
}

#[test]
fn alias_match_by_substring_of_item_name() {
    let mut r = row("internal design 77", None, Some(vec!["luna"]));
    r.silver_usd = Some(700);
    let rows = vec![r];
    let it = item("Sterling Luna Band Size 6", MetalType::Silver, None);
    assert!(lookup_piece_cost(&it, &rows).is_some());
}

#[test]
fn design_key_match_is_bidirectional_substring() {
    let mut a = row("luna band deluxe", None, None);
    a.silver_usd = Some(10);
    let mut b = row("orbit", None, None);
    b.silver_usd = Some(20);
    // item name contained in design key
    let it1 = item("luna band", MetalType::Silver, None);
    assert_eq!(
        lookup_piece_cost(&it1, &vec![a.clone()]),
        Some(ItemCostWeight { cost_usd: 10, weight_g: 0 })
    );
    // design key contained in item name
    let it2 = item("Big Orbit Necklace", MetalType::Silver, None);
    assert_eq!(
        lookup_piece_cost(&it2, &vec![b]),
        Some(ItemCostWeight { cost_usd: 20, weight_g: 0 })
    );
}

#[test]
fn alias_tier_beats_earlier_design_row() {
    let mut design_row = row("luna band", None, None);
    design_row.silver_usd = Some(111);
    let mut alias_row = row("unrelated key", None, Some(vec!["luna band"]));
    alias_row.silver_usd = Some(222);
    let rows = vec![design_row, alias_row];
    let it = item("luna band", MetalType::Silver, None);
    assert_eq!(
        lookup_piece_cost(&it, &rows),
        Some(ItemCostWeight { cost_usd: 222, weight_g: 0 })
    );
}

#[test]
fn first_qualifying_row_decides_even_without_data() {
    // The first structurally qualifying row has no data for the metal:
    // the result is None, and the later row with data is never reached.
    let empty = row("luna band", None, None);
    let mut with_data = row("luna band", None, None);
    with_data.silver_usd = Some(999);
    let rows = vec![empty, with_data];
    let it = item("luna band", MetalType::Silver, None);
    assert_eq!(lookup_piece_cost(&it, &rows), None);
}

#[test]
fn cost_sum_skips_unmatched_items() {
    let mut r = row("luna band", None, None);
    r.silver_usd = Some(850);
    let rows = vec![r];
    let items = vec![
        item("Luna Band", MetalType::Silver, None),
        item("No Such Piece At All Q", MetalType::Silver, None),
        item("Luna Band", MetalType::Silver, None),
    ];
    assert_eq!(catalog_cost_sum(&items, &rows), 1700);
    assert_eq!(catalog_cost_sum(&vec![], &rows), 0);
}

#[test]
fn empty_catalog_matches_nothing() {
    let rows: Vec<PieceCostRow> = vec![];
    let it = item("anything", MetalType::Gold, None);
    assert_eq!(lookup_piece_cost(&it, &rows), None);
}
