//! Storefront (Shopify) normalizer: maps raw order records, as the API
//! returns them, into the canonical [`crate::model`] types.
//!
//! The HTTP layer outside the library decodes response bodies into the raw
//! record types here and hands them in; everything after that point is
//! verified. Timestamp parsing goes through one trusted call into chrono.

use vstd::prelude::*;

use crate::model::{metal_of, MetalType, Order, OrderItem, OrderSource};
use crate::catalog::opt_chars;
use crate::text::{
    append_chars, chars_vec, clamp_u64, contains_pat, contains_seq, dec_rep, find_pat, first_match,
    i64_chars, int_rep, is_digit, lower, lower_vec, matches_at, money_cents_of, parse_money_cents,
    string_of, trim_spec, trim_vec,
};
use crate::sat_add_secs;
use crate::FULFILLMENT_SLA_SECS;

verus! {

/// One raw order as the storefront API returns it.
#[derive(Debug, Clone, PartialEq)]
pub struct ShopifyOrder {
    pub id: i64,
    pub order_number: i64,
    pub created_at: String,
    pub customer: Option<ShopifyCustomer>,
    pub line_items: Vec<ShopifyLineItem>,
    pub total_price: String,
    pub currency: String,
    pub fulfillment_status: Option<String>,
    pub shipping_address: Option<ShopifyAddress>,
}

/// The customer block of a raw storefront order.
#[derive(Debug, Clone, PartialEq)]
pub struct ShopifyCustomer {
    pub first_name: Option<String>,
    pub last_name: Option<String>,
}

/// One raw order line of a storefront order.
#[derive(Debug, Clone, PartialEq)]
pub struct ShopifyLineItem {
    pub name: String,
    pub quantity: i32,
    pub price: String,
    pub variant_title: Option<String>,
    pub properties: Option<Vec<ShopifyProperty>>,
}

/// One custom property attached to a storefront order line.
#[derive(Debug, Clone, PartialEq)]
pub struct ShopifyProperty {
    pub name: String,
    pub value: String,
}

/// The shipping address block of a raw storefront order.
#[derive(Debug, Clone, PartialEq)]
pub struct ShopifyAddress {
    pub address1: Option<String>,
    pub city: Option<String>,
    pub province: Option<String>,
    pub country: Option<String>,
    pub zip: Option<String>,
}

/// The UTC epoch seconds an RFC 3339 date-and-time string denotes, `None`
/// when the string is not a valid RFC 3339 value. A pure function of the
/// text alone.
pub uninterp spec fn rfc3339_secs_of(s: Seq<char>) -> Option<i64>;

/// Relies on `chrono::DateTime::parse_from_rfc3339` and
/// `chrono::DateTime::timestamp`: parsing accepts exactly the valid RFC 3339
/// date-and-time strings, and the parsed instant's UTC epoch-second value
/// depends only on the input text.
#[verifier::external_body]
fn parse_rfc3339_secs(s: &str) -> (r: Option<i64>)
    ensures
        r == rfc3339_secs_of(s@),
{
    match chrono::DateTime::parse_from_rfc3339(s) {
        Ok(dt) => Some(dt.timestamp()),
        Err(_) => None,
    }
}

/// The character sequence of an optional string, absent meaning empty.
pub open spec fn opt_str(o: Option<String>) -> Seq<char> {
    match o {
        Some(s) => s@,
        None => Seq::<char>::empty(),
    }
}

/// The display name derived from a raw customer block: "first last" with
/// absent parts empty, trimmed; or the fixed fallback when there is no
/// customer block at all.
pub open spec fn customer_name_of(c: Option<ShopifyCustomer>) -> Seq<char> {
    match c {
        Some(cu) => trim_spec(opt_str(cu.first_name) + seq![' '] + opt_str(cu.last_name)),
        None => "Unknown Customer"@,
    }
}

/// The formatted one-line shipping address of a raw address block, absent
/// component fields rendered empty.
pub open spec fn address_of(a: Option<ShopifyAddress>) -> Option<Seq<char>> {
    match a {
        Some(ad) => Some(
            opt_str(ad.address1) + ", "@ + opt_str(ad.city) + ", "@ + opt_str(ad.province)
                + " "@ + opt_str(ad.zip) + " "@ + opt_str(ad.country),
        ),
        None => None,
    }
}

/// A property names a ring size when its lowercased name mentions "size" or
/// "ring".
pub open spec fn prop_is_size(p: ShopifyProperty) -> bool {
    contains_seq(lower(p.name@), "size"@) || contains_seq(lower(p.name@), "ring"@)
}

/// Index of the first size-naming property at or after `i`.
pub open spec fn first_size_prop_from(ps: Seq<ShopifyProperty>, i: int) -> Option<int>
    decreases ps.len() + 1 - i,
{
    if i < 0 || i >= ps.len() {
        None
    } else if prop_is_size(ps[i]) {
        Some(i)
    } else {
        first_size_prop_from(ps, i + 1)
    }
}

/// A character a textual size token may consist of.
pub open spec fn size_token_char(c: char) -> bool {
    is_digit(c) || c == '.' || c == '/' || c == ' '
}

/// The run of size-token characters in `s` starting at `i`.
pub open spec fn token_from(s: Seq<char>, i: int) -> Seq<char>
    decreases s.len() - i,
{
    if 0 <= i < s.len() && size_token_char(s[i]) {
        seq![s[i]] + token_from(s, i + 1)
    } else {
        Seq::<char>::empty()
    }
}

/// What one textual size pattern yields on a name: the trimmed token after
/// the pattern's first occurrence in the lowercased name, if the pattern
/// occurs and the token is nonempty.
pub open spec fn pattern_result(name: Seq<char>, pat: Seq<char>) -> Option<Seq<char>> {
    match first_match(lower(name), pat) {
        None => None,
        Some(idx) => {
            let tok = trim_spec(token_from(name, idx + pat.len()));
            if tok.len() > 0 {
                Some(tok)
            } else {
                None
            }
        },
    }
}

/// The ring size extracted from free text: the first of the fixed size
/// patterns, in order, that yields a nonempty token.
pub open spec fn ring_size_from_name(name: Seq<char>) -> Option<Seq<char>> {
    if pattern_result(name, "size "@) is Some {
        pattern_result(name, "size "@)
    } else if pattern_result(name, "ring size "@) is Some {
        pattern_result(name, "ring size "@)
    } else if pattern_result(name, "sz "@) is Some {
        pattern_result(name, "sz "@)
    } else if pattern_result(name, "us "@) is Some {
        pattern_result(name, "us "@)
    } else if pattern_result(name, "uk "@) is Some {
        pattern_result(name, "uk "@)
    } else {
        None
    }
}

/// The extracted ring size: the value of the first size-naming custom
/// property when one exists, else whatever the textual size patterns yield.
pub open spec fn ring_size_spec(name: Seq<char>, props: Option<Vec<ShopifyProperty>>) -> Option<
    Seq<char>,
> {
    match props {
        Some(ps) => match first_size_prop_from(ps@, 0) {
            Some(i) => Some(ps@[i].value@),
            None => ring_size_from_name(name),
        },
        None => ring_size_from_name(name),
    }
}

/// The run of size-token characters starting at an index where earlier
/// characters since `start` are all size-token characters is exactly the
/// scanned range.
proof fn lemma_token_from_index(s: Seq<char>, start: int, i: int)
    requires
        0 <= start <= i <= s.len(),
        forall|j: int| start <= j < i ==> size_token_char(s[j]),
        i == s.len() || !size_token_char(s[i]),
    ensures
        token_from(s, start) == s.subrange(start, i),
    decreases i - start,
{
    if start == i {
        assert(s.subrange(start, i) =~= Seq::<char>::empty());
    } else {
        assert(size_token_char(s[start]));
        lemma_token_from_index(s, start + 1, i);
        assert(seq![s[start]] + s.subrange(start + 1, i) =~= s.subrange(start, i));
    }
}

/// Apply one textual size pattern to a name.
fn try_pattern(name: &Vec<char>, lname: &Vec<char>, pat: &Vec<char>) -> (r: Option<Vec<char>>)
    requires
        lname@ == lower(name@),
    ensures
        match r {
            Some(v) => pattern_result(name@, pat@) == Some(v@),
            None => pattern_result(name@, pat@).is_none(),
        },
{
    match find_pat(lname, pat) {
        None => None,
        Some(idx) => {
            let ln = lname.len();
            proof {
                crate::text::lemma_first_match_characterizes(lname@, pat@);
                assert(matches_at(lname@, pat@, idx as int));
                assert(lower(name@).len() == name@.len());
            }
            let start = idx + pat.len();
            let n = name.len();
            let mut out: Vec<char> = Vec::new();
            let mut i: usize = start;
            while i < n && size_token_ok(name[i])
                invariant
                    n == name@.len(),
                    start <= i <= n,
                    out@ == name@.subrange(start as int, i as int),
                    forall|j: int| start <= j < i ==> size_token_char(name@[j]),
                decreases n - i,
            {
                out.push(name[i]);
                proof {
                    assert(out@ =~= name@.subrange(start as int, i + 1 as int));
                }
                i = i + 1;
            }
            proof {
                lemma_token_from_index(name@, start as int, i as int);
            }
            let trimmed = trim_vec(&out);
            if trimmed.len() > 0 {
                Some(trimmed)
            } else {
                None
            }
        },
    }
}

/// Whether `c` may be part of a textual size token.
fn size_token_ok(c: char) -> (r: bool)
    ensures
        r == size_token_char(c),
{
    (c >= '0' && c <= '9') || c == '.' || c == '/' || c == ' '
}

/// Extract a ring size from an item's full text and custom properties:
/// explicit size or ring properties win; otherwise a fixed set of textual
/// patterns followed by a numeric token.
pub fn extract_ring_size(name: &str, properties: &Option<Vec<ShopifyProperty>>) -> (r: Option<
    String,
>)
    ensures
        opt_chars(r) == ring_size_spec(name@, *properties),
{
    match properties {
        Some(props) => {
            let mut j: usize = 0;
            while j < props.len()
                invariant
                    j <= props@.len(),
                    (*properties) is Some,
                    (*properties)->Some_0 == *props,
                    first_size_prop_from(props@, 0) == first_size_prop_from(props@, j as int),
                decreases props@.len() - j,
            {
                let p = &props[j];
                let pl = lower_vec(&chars_vec(p.name.as_str()));
                if contains_pat(&pl, &chars_vec("size")) || contains_pat(&pl, &chars_vec("ring")) {
                    proof {
                        assert(prop_is_size(props@[j as int]));
                    }
                    return Some(p.value.clone());
                }
                proof {
                    assert(!prop_is_size(props@[j as int]));
                }
                j = j + 1;
            }
            proof {
                assert(first_size_prop_from(props@, 0).is_none());
            }
            ring_size_from_text(name)
        },
        None => ring_size_from_text(name),
    }
}

/// Extract a ring size from free text by the fixed patterns alone.
fn ring_size_from_text(name: &str) -> (r: Option<String>)
    ensures
        opt_chars(r) == ring_size_from_name(name@),
{
    let nv = chars_vec(name);
    let lv = lower_vec(&nv);
    if let Some(v) = try_pattern(&nv, &lv, &chars_vec("size ")) {
        return Some(string_of(&v));
    }
    if let Some(v) = try_pattern(&nv, &lv, &chars_vec("ring size ")) {
        return Some(string_of(&v));
    }
    if let Some(v) = try_pattern(&nv, &lv, &chars_vec("sz ")) {
        return Some(string_of(&v));
    }
    if let Some(v) = try_pattern(&nv, &lv, &chars_vec("us ")) {
        return Some(string_of(&v));
    }
    if let Some(v) = try_pattern(&nv, &lv, &chars_vec("uk ")) {
        return Some(string_of(&v));
    }
    None
}

/// The diagnostic for a storefront request whose transport failed.
pub fn shopify_transport_error(detail: &str) -> (r: String)
    ensures
        r@ == "Shopify request failed: "@ + detail@,
{
    let mut v = chars_vec("Shopify request failed: ");
    append_chars(&mut v, &chars_vec(detail));
    string_of(&v)
}

/// The diagnostic for a non-success storefront response status.
pub fn shopify_api_error(status: u16) -> (r: String)
    ensures
        r@ == "Shopify API error: "@ + dec_rep(status as nat),
{
    let mut v = chars_vec("Shopify API error: ");
    append_chars(&mut v, &crate::text::u64_chars(status as u64));
    string_of(&v)
}

/// The diagnostic for a storefront response body that failed to decode.
pub fn shopify_parse_error(detail: &str) -> (r: String)
    ensures
        r@ == "Failed to parse Shopify response: "@ + detail@,
{
    let mut v = chars_vec("Failed to parse Shopify response: ");
    append_chars(&mut v, &chars_vec(detail));
    string_of(&v)
}

/// Cents denoted by a money string, unparsable meaning zero.
pub open spec fn money_or_zero(s: Seq<char>) -> u64 {
    match money_cents_of(s) {
        Some(c) => c,
        None => 0,
    }
}

/// The full text metal inference and size extraction run on: the item name,
/// a space, and the variant title (empty when absent).
pub open spec fn full_text_of(li: ShopifyLineItem) -> Seq<char> {
    li.name@ + seq![' '] + opt_str(li.variant_title)
}

/// The canonical item a raw storefront order line maps to.
pub open spec fn item_matches(li: ShopifyLineItem, it: OrderItem) -> bool {
    &&& it.name == li.name
    &&& it.quantity == li.quantity as u32
    &&& it.price == money_or_zero(li.price@)
    &&& it.metal_type == metal_of(full_text_of(li))
    &&& opt_chars(it.ring_size) == ring_size_spec(full_text_of(li), li.properties)
    &&& it.variant_info == li.variant_title
    &&& it.image_url.is_none()
}

/// Map one raw order line to a canonical item.
fn map_shopify_item(li: &ShopifyLineItem) -> (r: OrderItem)
    ensures
        item_matches(*li, r),
{
    let mut full: Vec<char> = chars_vec(li.name.as_str());
    full.push(' ');
    match &li.variant_title {
        Some(vt) => append_chars(&mut full, &chars_vec(vt.as_str())),
        None => (),
    }
    proof {
        assert(full@ =~= full_text_of(*li));
    }
    let full_str = string_of(&full);
    let metal_type = MetalType::from_string(full_str.as_str());
    let ring_size = extract_ring_size(full_str.as_str(), &li.properties);
    let price = match parse_money_cents(&chars_vec(li.price.as_str())) {
        Some(c) => c,
        None => 0,
    };
    OrderItem {
        name: li.name.clone(),
        quantity: li.quantity as u32,
        price,
        metal_type,
        ring_size,
        variant_info: match &li.variant_title {
            Some(vt) => Some(vt.clone()),
            None => None,
        },
        image_url: None,
    }
}

/// The order date a raw storefront order resolves to: its creation
/// timestamp, or the current instant when that does not parse (one bad date
/// never aborts the batch).
pub open spec fn order_date_of(created_at: Seq<char>, now_secs: i64) -> i64 {
    match rfc3339_secs_of(created_at) {
        Some(t) => t,
        None => now_secs,
    }
}

/// The mathematical sum, in cents, of each order line's price times its
/// quantity.
pub open spec fn li_subtotal(ls: Seq<ShopifyLineItem>) -> int
    decreases ls.len(),
{
    if ls.len() == 0 {
        0
    } else {
        li_subtotal(ls.drop_last()) + (money_or_zero(ls.last().price@) as int) * (((
        ls.last().quantity as u32)) as int)
    }
}

/// The per-line subtotal sum is nonnegative.
proof fn lemma_li_subtotal_nonneg(ls: Seq<ShopifyLineItem>)
    ensures
        li_subtotal(ls) >= 0,
    decreases ls.len(),
{
    if ls.len() > 0 {
        lemma_li_subtotal_nonneg(ls.drop_last());
        let c = money_or_zero(ls.last().price@) as int;
        let q = ((ls.last().quantity as u32)) as int;
        assert(c * q >= 0) by (nonlinear_arith)
            requires
                c >= 0,
                q >= 0,
        ;
    }
}

/// Sum the per-line subtotals of the order lines, clamped into `u64`.
fn line_items_subtotal_clamped(ls: &Vec<ShopifyLineItem>) -> (r: u64)
    ensures
        r == clamp_u64(li_subtotal(ls@)),
{
    let mut acc: u64 = 0;
    let mut i: usize = 0;
    while i < ls.len()
        invariant
            i <= ls@.len(),
            acc == clamp_u64(li_subtotal(ls@.take(i as int))),
            li_subtotal(ls@.take(i as int)) >= 0,
        decreases ls@.len() - i,
    {
        proof {
            assert(ls@.take(i + 1 as int).drop_last() =~= ls@.take(i as int));
            assert(ls@.take(i + 1 as int).last() == ls@[i as int]);
            lemma_li_subtotal_nonneg(ls@.take(i + 1 as int));
        }
        let li = &ls[i];
        let cents: u64 = match parse_money_cents(&chars_vec(li.price.as_str())) {
            Some(c) => c,
            None => 0,
        };
        let qty: u32 = li.quantity as u32;
        let ghost c = cents as int;
        let ghost q = qty as int;
        let ghost s = li_subtotal(ls@.take(i as int));
        proof {
            assert(li_subtotal(ls@.take(i + 1 as int)) == s + c * q);
            assert(c * q >= 0) by (nonlinear_arith)
                requires
                    c >= 0,
                    q >= 0,
            ;
        }
        acc = match cents.checked_mul(qty as u64) {
            Some(p) => acc.saturating_add(p),
            None => u64::MAX,
        };
        i = i + 1;
    }
    proof {
        assert(ls@.take(ls@.len() as int) =~= ls@);
    }
    acc
}

/// The total a raw storefront order resolves to: the reported total when it
/// parses to a positive amount; when it is zero or absent, the clamped sum
/// of the order lines' price times quantity.
pub open spec fn order_total_of(so: ShopifyOrder) -> u64 {
    if money_or_zero(so.total_price@) > 0 {
        money_or_zero(so.total_price@)
    } else {
        clamp_u64(li_subtotal(so.line_items@))
    }
}

/// The canonical order a raw storefront order maps to at instant `now_secs`.
pub open spec fn order_matches(so: ShopifyOrder, r: Order, now_secs: i64) -> bool {
    &&& r.id@ == int_rep(so.id as int)
    &&& r.source == OrderSource::Shopify
    &&& r.order_number@ == seq!['#'] + int_rep(so.order_number as int)
    &&& r.customer_name@ == customer_name_of(so.customer)
    &&& r.order_date == order_date_of(so.created_at@, now_secs)
    &&& r.due_date == sat_add_secs(r.order_date as int, FULFILLMENT_SLA_SECS as int)
    &&& r.total_price == order_total_of(so)
    &&& r.currency == so.currency
    &&& r.status@ == (match so.fulfillment_status {
        Some(s) => s@,
        None => "unfulfilled"@,
    })
    &&& opt_chars(r.shipping_address) == address_of(so.shipping_address)
    &&& r.items@.len() == so.line_items@.len()
    &&& forall|i: int|
        0 <= i < so.line_items@.len() ==> item_matches(so.line_items@[i], #[trigger] r.items@[i])
}

/// Append the characters of an optional string, absent meaning nothing.
fn append_opt_str(out: &mut Vec<char>, o: &Option<String>)
    ensures
        final(out)@ == old(out)@ + opt_str(*o),
{
    match o {
        Some(s) => append_chars(out, &chars_vec(s.as_str())),
        None => proof {
            assert(old(out)@ + opt_str(*o) =~= old(out)@);
        },
    }
}

/// Map one raw storefront order to the canonical shape, dating it at
/// `now_secs` when its creation timestamp does not parse.
pub fn build_shopify_order(so: &ShopifyOrder, now_secs: i64) -> (r: Order)
    ensures
        order_matches(*so, r, now_secs),
{
    let order_date = match parse_rfc3339_secs(so.created_at.as_str()) {
        Some(t) => t,
        None => now_secs,
    };
    let due_date = match order_date.checked_add(FULFILLMENT_SLA_SECS) {
        Some(d) => d,
        None => i64::MAX,
    };

    let customer_name = match &so.customer {
        Some(cu) => {
            let mut v: Vec<char> = Vec::new();
            append_opt_str(&mut v, &cu.first_name);
            v.push(' ');
            append_opt_str(&mut v, &cu.last_name);
            proof {
                assert(v@ =~= opt_str(cu.first_name) + seq![' '] + opt_str(cu.last_name));
            }
            string_of(&trim_vec(&v))
        },
        None => string_of(&chars_vec("Unknown Customer")),
    };

    let shipping_address = match &so.shipping_address {
        Some(ad) => {
            let mut v: Vec<char> = Vec::new();
            append_opt_str(&mut v, &ad.address1);
            append_chars(&mut v, &chars_vec(", "));
            append_opt_str(&mut v, &ad.city);
            append_chars(&mut v, &chars_vec(", "));
            append_opt_str(&mut v, &ad.province);
            v.push(' ');
            append_opt_str(&mut v, &ad.zip);
            v.push(' ');
            append_opt_str(&mut v, &ad.country);
            proof {
                reveal_strlit(" ");
                assert(v@ =~= opt_str(ad.address1) + ", "@ + opt_str(ad.city) + ", "@ + opt_str(
                    ad.province,
                ) + " "@ + opt_str(ad.zip) + " "@ + opt_str(ad.country));
            }
            Some(string_of(&v))
        },
        None => None,
    };

    let mut items: Vec<OrderItem> = Vec::new();
    let mut i: usize = 0;
    while i < so.line_items.len()
        invariant
            i <= so.line_items@.len(),
            items@.len() == i,
            forall|j: int|
                0 <= j < i ==> item_matches(so.line_items@[j], #[trigger] items@[j]),
        decreases so.line_items@.len() - i,
    {
        items.push(map_shopify_item(&so.line_items[i]));
        i = i + 1;
    }

    let mut num: Vec<char> = Vec::new();
    num.push('#');
    append_chars(&mut num, &i64_chars(so.order_number));
    proof {
        assert(num@ =~= seq!['#'] + int_rep(so.order_number as int));
    }

    let reported_total = match parse_money_cents(&chars_vec(so.total_price.as_str())) {
        Some(c) => c,
        None => 0,
    };
    let total_price = if reported_total > 0 {
        reported_total
    } else {
        line_items_subtotal_clamped(&so.line_items)
    };

    Order {
        id: string_of(&i64_chars(so.id)),
        source: OrderSource::Shopify,
        order_number: string_of(&num),
        customer_name,
        items,
        order_date,
        due_date,
        total_price,
        currency: so.currency.clone(),
        status: match &so.fulfillment_status {
            Some(s) => s.clone(),
            None => string_of(&chars_vec("unfulfilled")),
        },
        shipping_address,
    }
}

/// Map a whole page of raw storefront orders to canonical orders, in order.
pub fn build_shopify_orders(orders: &Vec<ShopifyOrder>, now_secs: i64) -> (r: Vec<Order>)
    ensures
        r@.len() == orders@.len(),
        forall|i: int|
            0 <= i < orders@.len() ==> order_matches(orders@[i], #[trigger] r@[i], now_secs),
{
    let mut out: Vec<Order> = Vec::new();
    let mut i: usize = 0;
    while i < orders.len()
        invariant
            i <= orders@.len(),
            out@.len() == i,
            forall|j: int|
                0 <= j < i ==> order_matches(orders@[j], #[trigger] out@[j], now_secs),
        decreases orders@.len() - i,
    {
        out.push(build_shopify_order(&orders[i], now_secs));
        i = i + 1;
    }
    out
}

} // verus!
