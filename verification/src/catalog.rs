//! Catalog matching: resolve an order item to a manufacturing cost/weight
//! record via a two-tier fuzzy match (alias keys first, then design keys),
//! constrained by ring size, with cost and weight picked by metal type.
//!
//! Weights are in milligrams, costs in cents. A row whose resolved cost and
//! weight are both zero means "no data", not "free": such a row yields no
//! match result.

use vstd::prelude::*;

use crate::model::{MetalType, OrderItem};
use crate::text::{
    chars_eq, chars_vec, contains_pat, contains_seq, lower, lower_vec, trim_spec, trim_vec,
};

verus! {

/// One row of the manufacturing cost catalog.
///
/// `*_g` fields are weights in milligrams, `*_usd` fields costs in cents,
/// `volume_cm3` thousandths of a cubic centimeter. `wax_usd` and
/// `volume_cm3` are carried for completeness and take no part in matching.
#[derive(Debug, Clone, PartialEq)]
pub struct PieceCostRow {
    pub design_key: String,
    pub ring_size: Option<String>,
    pub volume_cm3: Option<u64>,
    pub silver_g: Option<u64>,
    pub silver_usd: Option<u64>,
    pub gold_g: Option<u64>,
    pub gold_usd: Option<u64>,
    pub bronze_g: Option<u64>,
    pub bronze_usd: Option<u64>,
    pub wax_usd: Option<u64>,
    pub product_keys: Option<Vec<String>>,
}

/// Resolved cost (cents) and weight (milligrams) for an order item.
#[derive(Debug, Clone, PartialEq)]
pub struct ItemCostWeight {
    pub cost_usd: u64,
    pub weight_g: u64,
}

/// The item name normalized for matching: ASCII-lowercased, then trimmed.
pub open spec fn norm_name_of(name: Seq<char>) -> Seq<char> {
    trim_spec(lower(name))
}

/// An alias key hits an item name when the trimmed, lowercased key equals
/// the normalized name, or occurs inside the lowercased name.
pub open spec fn alias_key_hit(key: Seq<char>, item_name: Seq<char>) -> bool {
    let k = lower(trim_spec(key));
    k == norm_name_of(item_name) || contains_seq(lower(item_name), k)
}

/// The row's alias set contains a key that hits the item name.
pub open spec fn row_alias_matches(row: PieceCostRow, item_name: Seq<char>) -> bool {
    match row.product_keys {
        Some(keys) => exists|i: int| 0 <= i < keys.len() && alias_key_hit(keys[i]@, item_name),
        None => false,
    }
}

/// The row's design key hits the item name: equal to the normalized name, or
/// either contains the other (bidirectional, intentionally permissive).
pub open spec fn design_key_hit(design_key: Seq<char>, item_name: Seq<char>) -> bool {
    let d = lower(design_key);
    let n = norm_name_of(item_name);
    d == n || contains_seq(n, d) || contains_seq(d, n)
}

/// A row's ring-size constraint accepts an item's ring size: no declared
/// size, or an empty or "N/A" size, accepts anything; a specific size
/// accepts exactly an item whose trimmed size is identical.
pub open spec fn ring_matches_spec(row_ring: Option<Seq<char>>, item_ring: Option<Seq<char>>) -> bool {
    match row_ring {
        None => true,
        Some(rs) => if rs.len() == 0 || rs == "N/A"@ {
            true
        } else {
            match item_ring {
                Some(is) => trim_spec(rs) == trim_spec(is),
                None => false,
            }
        },
    }
}

/// The character sequence of an optional string.
pub open spec fn opt_chars(o: Option<String>) -> Option<Seq<char>> {
    match o {
        Some(s) => Some(s@),
        None => None,
    }
}

/// The row qualifies in the alias tier for this item.
pub open spec fn alias_qualifies(row: PieceCostRow, item: OrderItem) -> bool {
    row_alias_matches(row, item.name@) && ring_matches_spec(
        opt_chars(row.ring_size),
        opt_chars(item.ring_size),
    )
}

/// The row qualifies in the design-key tier for this item.
pub open spec fn design_qualifies(row: PieceCostRow, item: OrderItem) -> bool {
    design_key_hit(row.design_key@, item.name@) && ring_matches_spec(
        opt_chars(row.ring_size),
        opt_chars(item.ring_size),
    )
}

/// Index of the first row at or after `i` qualifying in the alias tier.
pub open spec fn first_alias_row_from(rows: Seq<PieceCostRow>, item: OrderItem, i: int) -> Option<
    int,
>
    decreases rows.len() + 1 - i,
{
    if i < 0 || i >= rows.len() {
        None
    } else if alias_qualifies(rows[i], item) {
        Some(i)
    } else {
        first_alias_row_from(rows, item, i + 1)
    }
}

/// Index of the first row at or after `i` qualifying in the design-key tier.
pub open spec fn first_design_row_from(rows: Seq<PieceCostRow>, item: OrderItem, i: int) -> Option<
    int,
>
    decreases rows.len() + 1 - i,
{
    if i < 0 || i >= rows.len() {
        None
    } else if design_qualifies(rows[i], item) {
        Some(i)
    } else {
        first_design_row_from(rows, item, i + 1)
    }
}

/// The row's cost in cents for a metal (0 when absent); Unknown sums all
/// three metals.
pub open spec fn metal_cost(row: PieceCostRow, metal: MetalType) -> int {
    let s = opt_or_zero(row.silver_usd);
    let g = opt_or_zero(row.gold_usd);
    let b = opt_or_zero(row.bronze_usd);
    match metal {
        MetalType::Silver => s,
        MetalType::Gold => g,
        MetalType::Bronze => b,
        MetalType::Unknown => s + g + b,
    }
}

/// The row's weight in milligrams for a metal (0 when absent); Unknown sums
/// all three metals.
pub open spec fn metal_weight(row: PieceCostRow, metal: MetalType) -> int {
    let s = opt_or_zero(row.silver_g);
    let g = opt_or_zero(row.gold_g);
    let b = opt_or_zero(row.bronze_g);
    match metal {
        MetalType::Silver => s,
        MetalType::Gold => g,
        MetalType::Bronze => b,
        MetalType::Unknown => s + g + b,
    }
}

/// The value of an optional amount, absent meaning zero.
pub open spec fn opt_or_zero(o: Option<u64>) -> int {
    match o {
        Some(v) => v as int,
        None => 0,
    }
}

/// Cost/weight resolution for a qualifying row: `None` when the row has no
/// data (both zero) for the item's metal, the clamped pair otherwise.
pub open spec fn pick_spec(row: PieceCostRow, metal: MetalType) -> Option<ItemCostWeight> {
    let cost = metal_cost(row, metal);
    let weight = metal_weight(row, metal);
    if cost > 0 || weight > 0 {
        Some(
            ItemCostWeight {
                cost_usd: crate::text::clamp_u64(cost),
                weight_g: crate::text::clamp_u64(weight),
            },
        )
    } else {
        None
    }
}

/// The full two-tier match result: resolution of the first alias-tier
/// qualifying row, else of the first design-tier qualifying row, else no
/// match.
pub open spec fn lookup_spec(item: OrderItem, rows: Seq<PieceCostRow>) -> Option<ItemCostWeight> {
    match first_alias_row_from(rows, item, 0) {
        Some(i) => pick_spec(rows[i], item.metal_type),
        None => match first_design_row_from(rows, item, 0) {
            Some(i) => pick_spec(rows[i], item.metal_type),
            None => None,
        },
    }
}

/// Whether a row's ring-size constraint accepts an item's ring size.
pub fn ring_matches(row_ring: &Option<String>, item_ring: &Option<String>) -> (r: bool)
    ensures
        r == ring_matches_spec(opt_chars(*row_ring), opt_chars(*item_ring)),
{
    match row_ring {
        None => true,
        Some(rs) => {
            let rv = chars_vec(rs.as_str());
            if rs.as_str().is_empty() || chars_eq(&rv, &chars_vec("N/A")) {
                true
            } else {
                match item_ring {
                    Some(is) => {
                        let iv = chars_vec(is.as_str());
                        chars_eq(&trim_vec(&rv), &trim_vec(&iv))
                    },
                    None => false,
                }
            }
        },
    }
}

/// Resolve the cost/weight pair of a qualifying row for the item's metal.
pub fn pick_cost_weight(row: &PieceCostRow, metal: &MetalType) -> (r: Option<ItemCostWeight>)
    ensures
        r == pick_spec(*row, *metal),
{
    let s_usd = unwrap_or_zero(&row.silver_usd);
    let g_usd = unwrap_or_zero(&row.gold_usd);
    let b_usd = unwrap_or_zero(&row.bronze_usd);
    let s_g = unwrap_or_zero(&row.silver_g);
    let g_g = unwrap_or_zero(&row.gold_g);
    let b_g = unwrap_or_zero(&row.bronze_g);
    let (cost, weight) = match metal {
        MetalType::Silver => (s_usd, s_g),
        MetalType::Gold => (g_usd, g_g),
        MetalType::Bronze => (b_usd, b_g),
        MetalType::Unknown => (
            s_usd.saturating_add(g_usd).saturating_add(b_usd),
            s_g.saturating_add(g_g).saturating_add(b_g),
        ),
    };
    if cost > 0 || weight > 0 {
        Some(ItemCostWeight { cost_usd: cost, weight_g: weight })
    } else {
        None
    }
}

/// The value of an optional amount, absent meaning zero.
fn unwrap_or_zero(o: &Option<u64>) -> (r: u64)
    ensures
        r == opt_or_zero(*o),
{
    match o {
        Some(v) => *v,
        None => 0,
    }
}

/// Whether some alias key of the row hits the item name.
fn row_alias_matches_exec(
    row: &PieceCostRow,
    lower_name: &Vec<char>,
    normalized: &Vec<char>,
    Ghost(name): Ghost<Seq<char>>,
) -> (r: bool)
    requires
        lower_name@ == lower(name),
        normalized@ == norm_name_of(name),
    ensures
        r == row_alias_matches(*row, name),
{
    match &row.product_keys {
        None => false,
        Some(keys) => {
            let mut j: usize = 0;
            while j < keys.len()
                invariant
                    j <= keys@.len(),
                    row.product_keys is Some,
                    row.product_keys->Some_0 == *keys,
                    lower_name@ == lower(name),
                    normalized@ == norm_name_of(name),
                    forall|k: int| 0 <= k < j ==> !alias_key_hit(keys@[k]@, name),
                decreases keys@.len() - j,
            {
                let kv = lower_vec(&trim_vec(&chars_vec(keys[j].as_str())));
                if chars_eq(&kv, normalized) || contains_pat(lower_name, &kv) {
                    proof {
                        assert(alias_key_hit(keys@[j as int]@, name));
                        assert(row.product_keys is Some);
                        assert(row.product_keys->Some_0 == *keys);
                        assert(exists|k: int|
                            0 <= k < keys@.len() && alias_key_hit(keys@[k]@, name));
                    }
                    return true;
                }
                j = j + 1;
            }
            false
        },
    }
}

/// Whether the row's design key hits the item name.
fn design_key_hit_exec(
    row: &PieceCostRow,
    normalized: &Vec<char>,
    Ghost(name): Ghost<Seq<char>>,
) -> (r: bool)
    requires
        normalized@ == norm_name_of(name),
    ensures
        r == design_key_hit(row.design_key@, name),
{
    let dv = lower_vec(&chars_vec(row.design_key.as_str()));
    chars_eq(&dv, normalized) || contains_pat(normalized, &dv) || contains_pat(&dv, normalized)
}

/// Match an order item against the catalog rows in their load order and
/// return cost/weight for the item's metal type, if the first qualifying
/// row carries any data for it.
pub fn lookup_piece_cost(item: &OrderItem, piece_costs: &Vec<PieceCostRow>) -> (r: Option<
    ItemCostWeight,
>)
    ensures
        r == lookup_spec(*item, piece_costs@),
{
    let name_chars = chars_vec(item.name.as_str());
    let lower_name = lower_vec(&name_chars);
    let normalized = trim_vec(&lower_name);
    proof {
        assert(lower_name@ == lower(item.name@));
        assert(normalized@ == norm_name_of(item.name@));
    }

    let n = piece_costs.len();
    let mut i: usize = 0;
    while i < n
        invariant
            n == piece_costs@.len(),
            i <= n,
            lower_name@ == lower(item.name@),
            normalized@ == norm_name_of(item.name@),
            first_alias_row_from(piece_costs@, *item, 0) == first_alias_row_from(
                piece_costs@,
                *item,
                i as int,
            ),
        decreases n - i,
    {
        let row = &piece_costs[i];
        if row_alias_matches_exec(row, &lower_name, &normalized, Ghost(item.name@)) && ring_matches(
            &row.ring_size,
            &item.ring_size,
        ) {
            proof {
                assert(alias_qualifies(piece_costs@[i as int], *item));
            }
            return pick_cost_weight(row, &item.metal_type);
        }
        proof {
            assert(!alias_qualifies(piece_costs@[i as int], *item));
        }
        i = i + 1;
    }
    proof {
        assert(first_alias_row_from(piece_costs@, *item, 0).is_none());
    }

    let mut k: usize = 0;
    while k < n
        invariant
            n == piece_costs@.len(),
            k <= n,
            normalized@ == norm_name_of(item.name@),
            first_alias_row_from(piece_costs@, *item, 0).is_none(),
            first_design_row_from(piece_costs@, *item, 0) == first_design_row_from(
                piece_costs@,
                *item,
                k as int,
            ),
        decreases n - k,
    {
        let row = &piece_costs[k];
        if design_key_hit_exec(row, &normalized, Ghost(item.name@)) && ring_matches(
            &row.ring_size,
            &item.ring_size,
        ) {
            proof {
                assert(design_qualifies(piece_costs@[k as int], *item));
            }
            return pick_cost_weight(row, &item.metal_type);
        }
        proof {
            assert(!design_qualifies(piece_costs@[k as int], *item));
        }
        k = k + 1;
    }
    proof {
        assert(first_design_row_from(piece_costs@, *item, 0).is_none());
    }
    None
}

/// The summed matched cost, in cents, of a run of items against a catalog
/// snapshot: items without a match contribute nothing.
pub open spec fn cost_sum(items: Seq<OrderItem>, rows: Seq<PieceCostRow>) -> int
    decreases items.len(),
{
    if items.len() == 0 {
        0
    } else {
        cost_sum(items.drop_last(), rows) + (match lookup_spec(items.last(), rows) {
            Some(cw) => cw.cost_usd as int,
            None => 0,
        })
    }
}

/// Sum the matched costs of the items against the catalog snapshot.
pub fn catalog_cost_sum(items: &Vec<OrderItem>, rows: &Vec<PieceCostRow>) -> (r: u64)
    ensures
        r == crate::text::clamp_u64(cost_sum(items@, rows@)),
{
    let mut acc: u64 = 0;
    let mut i: usize = 0;
    while i < items.len()
        invariant
            i <= items@.len(),
            acc == crate::text::clamp_u64(cost_sum(items@.take(i as int), rows@)),
            cost_sum(items@.take(i as int), rows@) >= 0,
        decreases items@.len() - i,
    {
        proof {
            assert(items@.take(i + 1 as int).drop_last() =~= items@.take(i as int));
            assert(items@.take(i + 1 as int).last() == items@[i as int]);
        }
        let c: u64 = match lookup_piece_cost(&items[i], rows) {
            Some(cw) => cw.cost_usd,
            None => 0,
        };
        acc = acc.saturating_add(c);
        i = i + 1;
    }
    proof {
        assert(items@.take(items@.len() as int) =~= items@);
    }
    acc
}

/// Matching is a pure function of the item and the catalog snapshot: two
/// matches of the same item against the same unchanged snapshot agree.
pub proof fn lemma_match_idempotent(
    item: OrderItem,
    rows: Seq<PieceCostRow>,
    r1: Option<ItemCostWeight>,
    r2: Option<ItemCostWeight>,
)
    requires
        r1 == lookup_spec(item, rows),
        r2 == lookup_spec(item, rows),
    ensures
        r1 == r2,
{
}

/// A row declaring no ring size, or an empty or "N/A" size, accepts every
/// item: one with no ring size and one with any specific size alike.
pub proof fn lemma_ring_wildcards(row_ring: Option<Seq<char>>, item_ring: Option<Seq<char>>)
    requires
        row_ring.is_none() || row_ring == Some(Seq::<char>::empty()) || row_ring == Some("N/A"@),
    ensures
        ring_matches_spec(row_ring, item_ring),
{
}

/// A qualifying row with no cost and no weight data for the item's metal
/// yields no match result, never a zero-cost match.
pub proof fn lemma_no_data_is_no_match(row: PieceCostRow, metal: MetalType)
    requires
        metal_cost(row, metal) == 0,
        metal_weight(row, metal) == 0,
    ensures
        pick_spec(row, metal).is_none(),
{
}

} // verus!
