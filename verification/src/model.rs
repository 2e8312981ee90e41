//! Shared domain types for orders: the canonical model both source
//! normalizers produce and the catalog matcher consumes.
//!
//! Timestamps are UTC epoch seconds, money amounts are integer cents.

use vstd::prelude::*;

use crate::text::{chars_vec, contains_pat, contains_seq, lower, lower_vec};
use crate::whole_days;
use crate::days_of_secs;
use crate::SECS_PER_DAY;

verus! {

/// The metal a piece is made of, inferred from free product text.
#[derive(Debug, Clone, PartialEq, Eq, Structural)]
pub enum MetalType {
    Gold,
    Silver,
    Bronze,
    Unknown,
}

/// The metal the keyword table assigns to a text: the first category in the
/// fixed priority order Gold, Silver, Bronze whose keywords occur in the
/// ASCII-lowercased text; otherwise Unknown.
pub open spec fn metal_of(s: Seq<char>) -> MetalType {
    let l = lower(s);
    if contains_seq(l, "gold"@) || contains_seq(l, "14k"@) || contains_seq(l, "18k"@)
        || contains_seq(l, "10k"@) {
        MetalType::Gold
    } else if contains_seq(l, "silver"@) || contains_seq(l, "sterling"@) || contains_seq(
        l,
        "925"@,
    ) {
        MetalType::Silver
    } else if contains_seq(l, "bronze"@) || contains_seq(l, "brass"@) {
        MetalType::Bronze
    } else {
        MetalType::Unknown
    }
}

impl MetalType {
    /// Parse metal type from product name/variant text.
    pub fn from_string(s: &str) -> (r: Self)
        ensures
            r == metal_of(s@),
    {
        let v = chars_vec(s);
        let l = lower_vec(&v);
        if contains_pat(&l, &chars_vec("gold")) || contains_pat(&l, &chars_vec("14k"))
            || contains_pat(&l, &chars_vec("18k")) || contains_pat(&l, &chars_vec("10k")) {
            MetalType::Gold
        } else if contains_pat(&l, &chars_vec("silver")) || contains_pat(&l, &chars_vec("sterling"))
            || contains_pat(&l, &chars_vec("925")) {
            MetalType::Silver
        } else if contains_pat(&l, &chars_vec("bronze")) || contains_pat(&l, &chars_vec("brass")) {
            MetalType::Bronze
        } else {
            MetalType::Unknown
        }
    }

    /// The style class a metal badge is rendered with.
    pub fn display_class(&self) -> (r: &'static str)
        ensures
            r@ == match self {
                MetalType::Gold => "badge-gold"@,
                MetalType::Silver => "badge-silver"@,
                MetalType::Bronze => "badge-bronze"@,
                MetalType::Unknown => "badge-nebula"@,
            },
    {
        match self {
            MetalType::Gold => "badge-gold",
            MetalType::Silver => "badge-silver",
            MetalType::Bronze => "badge-bronze",
            MetalType::Unknown => "badge-nebula",
        }
    }

    /// The human-readable name of a metal.
    pub fn display_name(&self) -> (r: &'static str)
        ensures
            r@ == match self {
                MetalType::Gold => "Gold Plated"@,
                MetalType::Silver => "Silver"@,
                MetalType::Bronze => "Bronze"@,
                MetalType::Unknown => "Unknown"@,
            },
    {
        match self {
            MetalType::Gold => "Gold Plated",
            MetalType::Silver => "Silver",
            MetalType::Bronze => "Bronze",
            MetalType::Unknown => "Unknown",
        }
    }
}

/// Metal inference is deterministic (a function of the text alone) and
/// priority-ordered: any Gold keyword wins over anything else in the same
/// text — a text naming both gold and silver classifies as Gold — a Silver
/// keyword wins over Bronze, and only a text with no keyword at all is
/// Unknown.
pub proof fn lemma_metal_priority(s: Seq<char>)
    ensures
        (contains_seq(lower(s), "gold"@) || contains_seq(lower(s), "14k"@) || contains_seq(
            lower(s),
            "18k"@,
        ) || contains_seq(lower(s), "10k"@)) ==> metal_of(s) == MetalType::Gold,
        metal_of(s) != MetalType::Gold && (contains_seq(lower(s), "silver"@) || contains_seq(
            lower(s),
            "sterling"@,
        ) || contains_seq(lower(s), "925"@)) ==> metal_of(s) == MetalType::Silver,
        metal_of(s) != MetalType::Gold && metal_of(s) != MetalType::Silver && (contains_seq(
            lower(s),
            "bronze"@,
        ) || contains_seq(lower(s), "brass"@)) ==> metal_of(s) == MetalType::Bronze,
        metal_of(s) == MetalType::Unknown ==> !contains_seq(lower(s), "gold"@) && !contains_seq(
            lower(s),
            "silver"@,
        ) && !contains_seq(lower(s), "bronze"@) && !contains_seq(lower(s), "brass"@),
{
}

/// Which upstream platform an order came from.
#[derive(Debug, Clone, PartialEq, Eq, Structural)]
pub enum OrderSource {
    Shopify,
    Etsy,
}

/// One purchase transaction in the canonical shape.
///
/// `order_date` and `due_date` are UTC epoch seconds; `total_price` is in
/// cents of `currency`.
#[derive(Debug, Clone, PartialEq)]
pub struct Order {
    pub id: String,
    pub source: OrderSource,
    pub order_number: String,
    pub customer_name: String,
    pub items: Vec<OrderItem>,
    pub order_date: i64,
    pub due_date: i64,
    pub total_price: u64,
    pub currency: String,
    pub status: String,
    pub shipping_address: Option<String>,
}

impl Order {
    /// Whole days from `now_secs` until the due date, truncated toward zero;
    /// negative when overdue.
    pub fn days_until_due(&self, now_secs: i64) -> (r: i64)
        requires
            self.due_date - now_secs < i64::MAX,
            -(i64::MAX as int) < self.due_date - now_secs,
        ensures
            r == days_of_secs(self.due_date - now_secs),
    {
        let diff = self.due_date - now_secs;
        whole_days(diff)
    }

    /// The style class reflecting how soon the order is due.
    pub fn urgency_class(&self, now_secs: i64) -> (r: &'static str)
        requires
            self.due_date - now_secs < i64::MAX,
            -(i64::MAX as int) < self.due_date - now_secs,
        ensures
            r@ == urgency_class_of(days_of_secs(self.due_date - now_secs)),
    {
        let days = self.days_until_due(now_secs);
        if days < 0 {
            "urgency-overdue"
        } else if days <= 3 {
            "urgency-critical"
        } else if days <= 7 {
            "urgency-warning"
        } else {
            "urgency-ok"
        }
    }
}

/// The urgency style class for a number of days left until due.
pub open spec fn urgency_class_of(days: int) -> Seq<char> {
    if days < 0 {
        "urgency-overdue"@
    } else if days <= 3 {
        "urgency-critical"@
    } else if days <= 7 {
        "urgency-warning"@
    } else {
        "urgency-ok"@
    }
}

/// One line within an order. `price` is the per-unit amount in cents.
#[derive(Debug, Clone, PartialEq)]
pub struct OrderItem {
    pub name: String,
    pub quantity: u32,
    pub price: u64,
    pub metal_type: MetalType,
    pub ring_size: Option<String>,
    pub variant_info: Option<String>,
    /// Product thumbnail URL, when a source supplies one.
    pub image_url: Option<String>,
}

} // verus!
