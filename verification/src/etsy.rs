//! Marketplace (Etsy) normalizer: maps raw receipt records, as the API
//! returns them, into the canonical [`crate::model`] types, and supplies the
//! pure decisions of the paginated fetch (when to stop, how receipts are
//! filtered, how diagnostics are framed).
//!
//! The HTTP layer outside the library performs the requests, decodes bodies
//! into the raw record types here, and drives pagination by the decisions of
//! this module.

use vstd::prelude::*;

use crate::model::{metal_of, MetalType, Order, OrderItem, OrderSource};
use crate::catalog::opt_chars;
use crate::shopify::opt_str;
use crate::text::{
    append_chars, chars_vec, clamp_u64, contains_pat, contains_seq, dec_rep, i64_chars,
    int_rep, lower, lower_vec, string_of, trim_spec, trim_vec,
};
use crate::sat_add_secs;
use crate::FULFILLMENT_SLA_SECS;
use crate::LOOKBACK_SECS;

verus! {

/// One raw shop receipt as the marketplace API returns it.
#[derive(Debug, Clone, PartialEq)]
pub struct EtsyReceipt {
    pub receipt_id: i64,
    pub order_id: Option<i64>,
    pub name: String,
    pub create_timestamp: i64,
    pub grandtotal: Option<EtsyMoney>,
    pub transactions: Option<Vec<EtsyTransaction>>,
    pub first_line: Option<String>,
    pub formatted_address: Option<String>,
    pub status: Option<String>,
}

/// A raw money value: an integer amount over an integer divisor.
#[derive(Debug, Clone, PartialEq)]
pub struct EtsyMoney {
    pub amount: Option<i64>,
    pub divisor: Option<i64>,
    pub currency_code: Option<String>,
}

/// One raw transaction (order line) of a receipt.
#[derive(Debug, Clone, PartialEq)]
pub struct EtsyTransaction {
    pub title: Option<String>,
    pub quantity: Option<i32>,
    pub price: Option<EtsyMoney>,
    pub variations: Option<Vec<EtsyVariation>>,
    pub listing_id: Option<i64>,
    pub listing_image_id: Option<i64>,
    pub expected_ship_date: Option<i64>,
}

/// One raw variant descriptor of a transaction.
#[derive(Debug, Clone, PartialEq)]
pub struct EtsyVariation {
    pub formatted_name: Option<String>,
    pub formatted_value: Option<String>,
}

/// A raw listing image record, carrying two resolution variants.
#[derive(Debug, Clone, PartialEq)]
pub struct EtsyListingImage {
    pub url_75x75: Option<String>,
    pub url_170x135: Option<String>,
}

/// A resolved thumbnail URL for one (listing, image) pair.
#[derive(Debug, Clone, PartialEq)]
pub struct ImageEntry {
    pub listing_id: i64,
    pub image_id: i64,
    pub url: String,
}

/// Epoch values above this magnitude are milliseconds, below it seconds:
/// the marketplace API is inconsistent about the unit, so it is
/// disambiguated by magnitude.
pub const EPOCH_MILLIS_THRESHOLD: i64 = 1_000_000_000_000;

/// A raw epoch value normalized to seconds.
pub open spec fn norm_epoch(ts: int) -> int {
    if ts > EPOCH_MILLIS_THRESHOLD {
        ts / 1000
    } else {
        ts
    }
}

/// Normalize a raw epoch value (seconds or milliseconds) to seconds.
pub fn normalize_epoch(ts: i64) -> (r: i64)
    ensures
        r == norm_epoch(ts as int),
{
    if ts > EPOCH_MILLIS_THRESHOLD {
        ts / 1000
    } else {
        ts
    }
}

/// Cents denoted by a raw money value: the amount times 100 over the
/// divisor (default 100, floored at 1), truncated; amounts at or below
/// zero count as zero.
pub open spec fn money_cents(m: EtsyMoney) -> u64 {
    let divisor = {
        let d = match m.divisor {
            Some(d) => d as int,
            None => 100,
        };
        if d < 1 {
            1
        } else {
            d
        }
    };
    let amount = match m.amount {
        Some(a) => a as int,
        None => 0,
    };
    if amount <= 0 {
        0
    } else {
        clamp_u64(amount * 100 / divisor)
    }
}

/// The currency of a raw money value, defaulting to "USD".
pub open spec fn money_currency(m: EtsyMoney) -> Seq<char> {
    match m.currency_code {
        Some(c) => c@,
        None => "USD"@,
    }
}

/// Convert a raw money value to cents.
pub fn money_to_cents(m: &EtsyMoney) -> (r: u64)
    ensures
        r == money_cents(*m),
{
    let divisor: i64 = {
        let d = match &m.divisor {
            Some(d) => *d,
            None => 100,
        };
        if d < 1 {
            1
        } else {
            d
        }
    };
    let amount: i64 = match &m.amount {
        Some(a) => *a,
        None => 0,
    };
    if amount <= 0 {
        0
    } else {
        let scaled: i128 = amount as i128 * 100 / divisor as i128;
        if scaled > u64::MAX as i128 {
            u64::MAX
        } else {
            scaled as u64
        }
    }
}

/// The latest expected ship date named by any transaction, if any.
pub open spec fn max_ship(ts: Seq<EtsyTransaction>) -> Option<i64>
    decreases ts.len(),
{
    if ts.len() == 0 {
        None
    } else {
        let rest = max_ship(ts.drop_last());
        match (rest, ts.last().expected_ship_date) {
            (None, last) => last,
            (Some(a), None) => Some(a),
            (Some(a), Some(b)) => if b > a {
                Some(b)
            } else {
                Some(a)
            },
        }
    }
}

/// The latest expected ship date named by any transaction, if any.
pub fn max_ship_date(ts: &Vec<EtsyTransaction>) -> (r: Option<i64>)
    ensures
        r == max_ship(ts@),
{
    let mut best: Option<i64> = None;
    let mut i: usize = 0;
    while i < ts.len()
        invariant
            i <= ts@.len(),
            best == max_ship(ts@.take(i as int)),
        decreases ts@.len() - i,
    {
        proof {
            assert(ts@.take(i + 1 as int).drop_last() =~= ts@.take(i as int));
            assert(ts@.take(i + 1 as int).last() == ts@[i as int]);
        }
        match &ts[i].expected_ship_date {
            Some(d) => {
                best = match best {
                    Some(b) => if *d > b {
                        Some(*d)
                    } else {
                        Some(b)
                    },
                    None => Some(*d),
                };
            },
            None => (),
        }
        i = i + 1;
    }
    proof {
        assert(ts@.take(ts@.len() as int) =~= ts@);
    }
    best
}

/// The transactions of a receipt, absent meaning none.
pub open spec fn txs_of(r: EtsyReceipt) -> Seq<EtsyTransaction> {
    match r.transactions {
        Some(ts) => ts@,
        None => Seq::<EtsyTransaction>::empty(),
    }
}

/// The due date of a receipt: the latest expected ship date across its
/// transactions, normalized to seconds; absent any, the order date plus the
/// fulfillment SLA.
pub open spec fn due_date_of(r: EtsyReceipt, order_date: int) -> int {
    match max_ship(txs_of(r)) {
        Some(ts) => norm_epoch(ts as int),
        None => sat_add_secs(order_date, FULFILLMENT_SLA_SECS as int),
    }
}

/// The nonempty variant descriptors of a transaction, each flattened to
/// "name: value".
pub open spec fn variant_parts(vs: Seq<EtsyVariation>) -> Seq<Seq<char>>
    decreases vs.len(),
{
    if vs.len() == 0 {
        Seq::<Seq<char>>::empty()
    } else {
        let rest = variant_parts(vs.drop_last());
        let n = opt_str(vs.last().formatted_name);
        let v = opt_str(vs.last().formatted_value);
        if n.len() == 0 && v.len() == 0 {
            rest
        } else {
            rest.push(n + ": "@ + v)
        }
    }
}

/// The flattened parts joined with ", ".
pub open spec fn join_parts(ps: Seq<Seq<char>>) -> Seq<char>
    decreases ps.len(),
{
    if ps.len() == 0 {
        Seq::<char>::empty()
    } else if ps.len() == 1 {
        ps[0]
    } else {
        join_parts(ps.drop_last()) + ", "@ + ps.last()
    }
}

/// A variant part names a ring size when it mentions "ring" or "size",
/// case-insensitively.
pub open spec fn part_is_ring(p: Seq<char>) -> bool {
    contains_seq(lower(p), "ring"@) || contains_seq(lower(p), "size"@)
}

/// Index of the first ring-naming part at or after `i`.
pub open spec fn first_ring_part_from(ps: Seq<Seq<char>>, i: int) -> Option<int>
    decreases ps.len() + 1 - i,
{
    if i < 0 || i >= ps.len() {
        None
    } else if part_is_ring(ps[i]) {
        Some(i)
    } else {
        first_ring_part_from(ps, i + 1)
    }
}

/// The views of a vector of character vectors.
pub open spec fn views_of(s: Seq<Vec<char>>) -> Seq<Seq<char>> {
    s.map_values(|v: Vec<char>| v@)
}

/// The thumbnail URL a raw listing image resolves to: the larger variant is
/// preferred when present, and an empty URL yields nothing.
pub open spec fn image_url_of(img: EtsyListingImage) -> Option<Seq<char>> {
    match img.url_170x135 {
        Some(u) => if u@.len() > 0 {
            Some(u@)
        } else {
            None
        },
        None => match img.url_75x75 {
            Some(u) => if u@.len() > 0 {
                Some(u@)
            } else {
                None
            },
            None => None,
        },
    }
}

/// Resolve a raw listing image to its preferred thumbnail URL.
pub fn pick_image_url(img: &EtsyListingImage) -> (r: Option<String>)
    ensures
        opt_chars(r) == image_url_of(*img),
{
    match &img.url_170x135 {
        Some(u) => if !u.as_str().is_empty() {
            Some(u.clone())
        } else {
            None
        },
        None => match &img.url_75x75 {
            Some(u) => if !u.as_str().is_empty() {
                Some(u.clone())
            } else {
                None
            },
            None => None,
        },
    }
}

/// Index of the first resolved image entry for a (listing, image) pair at
/// or after `i`.
pub open spec fn first_image_from(images: Seq<ImageEntry>, lid: i64, iid: i64, i: int) -> Option<
    int,
>
    decreases images.len() + 1 - i,
{
    if i < 0 || i >= images.len() {
        None
    } else if images[i].listing_id == lid && images[i].image_id == iid {
        Some(i)
    } else {
        first_image_from(images, lid, iid, i + 1)
    }
}

/// The URL resolved for a (listing, image) pair, if any entry carries it.
pub open spec fn image_lookup_spec(images: Seq<ImageEntry>, lid: i64, iid: i64) -> Option<
    Seq<char>,
> {
    match first_image_from(images, lid, iid, 0) {
        Some(i) => Some(images[i].url@),
        None => None,
    }
}

/// Look up the resolved thumbnail URL for a (listing, image) pair.
pub fn lookup_image(images: &Vec<ImageEntry>, lid: i64, iid: i64) -> (r: Option<String>)
    ensures
        opt_chars(r) == image_lookup_spec(images@, lid, iid),
{
    let mut i: usize = 0;
    while i < images.len()
        invariant
            i <= images@.len(),
            first_image_from(images@, lid, iid, 0) == first_image_from(
                images@,
                lid,
                iid,
                i as int,
            ),
        decreases images@.len() - i,
    {
        let e = &images[i];
        if e.listing_id == lid && e.image_id == iid {
            return Some(e.url.clone());
        }
        i = i + 1;
    }
    None
}

/// Whether a fetched page, holding `page_len` receipts against a requested
/// page size of `limit`, calls for another page.
pub open spec fn page_continues(page_len: int, limit: int) -> bool {
    page_len >= limit
}

/// The offset of the next page to request, or `None` when the page just
/// fetched was short and pagination ends.
pub fn receipts_page_advance(offset: i64, page_len: usize, limit: usize) -> (r: Option<i64>)
    requires
        0 <= offset,
        offset + limit <= i64::MAX,
        limit <= usize::MAX,
    ensures
        r is Some <==> page_continues(page_len as int, limit as int),
        r is Some ==> r->Some_0 == offset + limit,
{
    if page_len < limit {
        None
    } else {
        Some(offset + limit as i64)
    }
}

/// Pagination terminates on the first short page: a page holding fewer
/// receipts than the requested page size asks for no further page.
pub proof fn lemma_pagination_stops(page_len: int, limit: int)
    requires
        page_len < limit,
    ensures
        !page_continues(page_len, limit),
{
}

/// A receipt is within the lookback window at `now` when its normalized
/// creation instant is no older than the window start.
pub open spec fn in_window(create_ts: i64, now_secs: i64) -> bool {
    norm_epoch(create_ts as int) >= now_secs - LOOKBACK_SECS
}

/// Whether a receipt's creation instant falls within the lookback window.
pub fn receipt_in_window(create_ts: i64, now_secs: i64) -> (r: bool)
    requires
        now_secs >= i64::MIN + LOOKBACK_SECS,
    ensures
        r == in_window(create_ts, now_secs),
{
    normalize_epoch(create_ts) >= now_secs - LOOKBACK_SECS
}

/// The (listing, image) pairs named by a run of transactions, in order.
pub open spec fn tx_pairs(ts: Seq<EtsyTransaction>) -> Seq<(i64, i64)>
    decreases ts.len(),
{
    if ts.len() == 0 {
        Seq::<(i64, i64)>::empty()
    } else {
        let front = tx_pairs(ts.drop_last());
        match (ts.last().listing_id, ts.last().listing_image_id) {
            (Some(l), Some(im)) => front.push((l, im)),
            _ => front,
        }
    }
}

/// All (listing, image) pairs named across a batch of receipts, in order.
pub open spec fn all_pairs(rs: Seq<EtsyReceipt>) -> Seq<(i64, i64)>
    decreases rs.len(),
{
    if rs.len() == 0 {
        Seq::<(i64, i64)>::empty()
    } else {
        all_pairs(rs.drop_last()) + tx_pairs(txs_of(rs.last()))
    }
}

/// Lexicographic order on (listing, image) pairs.
pub open spec fn pair_lt(a: (i64, i64), b: (i64, i64)) -> bool {
    a.0 < b.0 || (a.0 == b.0 && a.1 < b.1)
}

/// Strictly ascending (hence duplicate-free) in the pair order.
pub open spec fn strictly_sorted_pairs(s: Seq<(i64, i64)>) -> bool {
    forall|i: int, j: int| 0 <= i < j < s.len() ==> pair_lt(s[i], s[j])
}

/// Insert a pair into a strictly sorted vector, keeping it a sorted set.
fn insert_pair(out: &mut Vec<(i64, i64)>, p: (i64, i64))
    requires
        strictly_sorted_pairs(old(out)@),
    ensures
        strictly_sorted_pairs(final(out)@),
        forall|q: (i64, i64)| final(out)@.contains(q) <==> (old(out)@.contains(q) || q == p),
{
    let n = out.len();
    let mut k: usize = 0;
    while k < n && (out[k].0 < p.0 || (out[k].0 == p.0 && out[k].1 < p.1))
        invariant
            n == out@.len(),
            k <= n,
            out@ == old(out)@,
            forall|m: int| 0 <= m < k ==> pair_lt(out@[m], p),
        decreases n - k,
    {
        k = k + 1;
    }
    if k < n && out[k].0 == p.0 && out[k].1 == p.1 {
        proof {
            assert(out@[k as int] == p);
            assert(old(out)@.contains(p));
        }
        return ;
    }
    proof {
        if k < n {
            assert(pair_lt(p, out@[k as int]));
        }
    }
    let ghost pre = out@;
    out.insert(k, p);
    proof {
        pre.insert_ensures(k as int, p);
        assert forall|i: int, j: int| 0 <= i < j < out@.len() implies pair_lt(
            out@[i],
            out@[j],
        ) by {
            if j < k {
                assert(out@[i] == pre[i] && out@[j] == pre[j]);
            } else if i > k {
                assert(out@[i] == pre[i - 1] && out@[j] == pre[j - 1]);
            } else if i < k && j == k {
                assert(out@[i] == pre[i] && out@[j] == p);
            } else if i == k && j > k {
                assert(out@[i] == p && out@[j] == pre[j - 1]);
                if j - 1 > k {
                    assert(pair_lt(p, pre[k as int]) && pair_lt(pre[k as int], pre[j - 1]));
                }
            } else if i < k && j > k {
                assert(out@[i] == pre[i] && out@[j] == pre[j - 1]);
                assert(pair_lt(pre[i], p));
                if j - 1 == k {
                    assert(pair_lt(p, pre[k as int]));
                } else {
                    assert(pair_lt(p, pre[k as int]) && pair_lt(pre[k as int], pre[j - 1]));
                }
            }
        }
        assert forall|q: (i64, i64)| out@.contains(q) implies (pre.contains(q) || q == p) by {
            let w = choose|w: int| 0 <= w < out@.len() && out@[w] == q;
            if w < k {
                assert(pre[w] == q);
            } else if w == k {
            } else {
                assert(pre[w - 1] == q);
            }
        }
        assert forall|q: (i64, i64)| (pre.contains(q) || q == p) implies out@.contains(q) by {
            if q == p {
                assert(out@[k as int] == q);
            } else {
                let w = choose|w: int| 0 <= w < pre.len() && pre[w] == q;
                if w < k {
                    assert(out@[w] == q);
                } else {
                    assert(out@[w + 1] == q);
                }
            }
        }
    }
}

/// A pushed element extends the members of a pair sequence by itself.
proof fn lemma_pairs_push_contains(s: Seq<(i64, i64)>, x: (i64, i64))
    ensures
        forall|q: (i64, i64)| s.push(x).contains(q) <==> (s.contains(q) || q == x),
{
    assert(s.push(x)[s.len() as int] == x);
    assert forall|q: (i64, i64)| s.push(x).contains(q) implies (s.contains(q) || q == x) by {
        let w = choose|w: int| 0 <= w < s.push(x).len() && s.push(x)[w] == q;
        if w < s.len() {
            assert(s[w] == q);
        }
    }
    assert forall|q: (i64, i64)| s.contains(q) implies s.push(x).contains(q) by {
        let w = choose|w: int| 0 <= w < s.len() && s[w] == q;
        assert(s.push(x)[w] == q);
    }
}

/// All (listing, image) pairs named across the receipts, in order, with
/// duplicates kept.
fn flatten_pairs(receipts: &Vec<EtsyReceipt>) -> (r: Vec<(i64, i64)>)
    ensures
        r@ == all_pairs(receipts@),
{
    let mut out: Vec<(i64, i64)> = Vec::new();
    let mut i: usize = 0;
    while i < receipts.len()
        invariant
            i <= receipts@.len(),
            out@ == all_pairs(receipts@.take(i as int)),
        decreases receipts@.len() - i,
    {
        proof {
            assert(receipts@.take(i + 1 as int).drop_last() =~= receipts@.take(i as int));
            assert(receipts@.take(i + 1 as int).last() == receipts@[i as int]);
        }
        let ghost upto = all_pairs(receipts@.take(i as int));
        match &receipts[i].transactions {
            Some(ts) => {
                let mut j: usize = 0;
                while j < ts.len()
                    invariant
                        j <= ts@.len(),
                        receipts@[i as int].transactions is Some,
                        receipts@[i as int].transactions->Some_0 == *ts,
                        out@ == upto + tx_pairs(ts@.take(j as int)),
                    decreases ts@.len() - j,
                {
                    proof {
                        assert(ts@.take(j + 1 as int).drop_last() =~= ts@.take(j as int));
                        assert(ts@.take(j + 1 as int).last() == ts@[j as int]);
                    }
                    match (&ts[j].listing_id, &ts[j].listing_image_id) {
                        (Some(l), Some(im)) => {
                            out.push((*l, *im));
                            proof {
                                assert(out@ =~= upto + tx_pairs(ts@.take(j + 1 as int)));
                            }
                        },
                        _ => (),
                    }
                    j = j + 1;
                }
                proof {
                    assert(ts@.take(ts@.len() as int) =~= ts@);
                    assert(out@ =~= all_pairs(receipts@.take(i + 1 as int)));
                }
            },
            None => {
                proof {
                    assert(tx_pairs(txs_of(receipts@[i as int])) =~= Seq::<(i64, i64)>::empty());
                    assert(out@ =~= all_pairs(receipts@.take(i + 1 as int)));
                }
            },
        }
        i = i + 1;
    }
    proof {
        assert(receipts@.take(receipts@.len() as int) =~= receipts@);
    }
    out
}

/// Collect the distinct (listing, image) pairs referenced by all
/// transactions across all receipts, in ascending pair order: the work list
/// for the secondary image lookups, one request per distinct pair.
pub fn collect_image_keys(receipts: &Vec<EtsyReceipt>) -> (r: Vec<(i64, i64)>)
    ensures
        strictly_sorted_pairs(r@),
        forall|q: (i64, i64)| r@.contains(q) <==> all_pairs(receipts@).contains(q),
{
    let raw = flatten_pairs(receipts);
    let mut out: Vec<(i64, i64)> = Vec::new();
    let mut i: usize = 0;
    while i < raw.len()
        invariant
            i <= raw@.len(),
            raw@ == all_pairs(receipts@),
            strictly_sorted_pairs(out@),
            forall|q: (i64, i64)| out@.contains(q) <==> raw@.take(i as int).contains(q),
        decreases raw@.len() - i,
    {
        proof {
            assert(raw@.take(i + 1 as int) =~= raw@.take(i as int).push(raw@[i as int]));
            lemma_pairs_push_contains(raw@.take(i as int), raw@[i as int]);
        }
        insert_pair(&mut out, raw[i]);
        i = i + 1;
    }
    proof {
        assert(raw@.take(raw@.len() as int) =~= raw@);
    }
    out
}

/// The longest raw-body prefix a parse diagnostic may carry.
pub const PREVIEW_MAX_CHARS: usize = 1500;

/// A bounded preview of a raw response body: the body itself when short
/// enough, else its first characters marked as truncated.
pub open spec fn preview_of(s: Seq<char>) -> Seq<char> {
    if s.len() > PREVIEW_MAX_CHARS {
        s.take(PREVIEW_MAX_CHARS as int) + "... (truncated)"@
    } else {
        s
    }
}

/// Bound a raw response body to a preview safe to put in a diagnostic.
pub fn bounded_preview(raw_body: &str) -> (r: String)
    ensures
        r@ == preview_of(raw_body@),
{
    let mut v = chars_vec(raw_body);
    if v.len() > PREVIEW_MAX_CHARS {
        v.truncate(PREVIEW_MAX_CHARS);
        proof {
            assert(v@ =~= raw_body@.take(PREVIEW_MAX_CHARS as int));
        }
        append_chars(&mut v, &chars_vec("... (truncated)"));
    }
    string_of(&v)
}

/// The diagnostic for a marketplace page request whose transport failed.
pub fn etsy_transport_error(detail: &str) -> (r: String)
    ensures
        r@ == "Etsy request failed: "@ + detail@,
{
    let mut v = chars_vec("Etsy request failed: ");
    append_chars(&mut v, &chars_vec(detail));
    string_of(&v)
}

/// The diagnostic for a non-success marketplace response: the status code
/// and the body, or a configuration hint when the body is empty.
pub fn etsy_api_error(status: u16, body: &str) -> (r: String)
    ensures
        r@ == "Etsy API error: "@ + dec_rep(status as nat) + " - "@ + (if body@.len() == 0 {
            "Check x-api-key and OAuth token (transactions_r scope)"@
        } else {
            body@
        }),
{
    let mut v = chars_vec("Etsy API error: ");
    append_chars(&mut v, &crate::text::u64_chars(status as u64));
    append_chars(&mut v, &chars_vec(" - "));
    if body.is_empty() {
        append_chars(&mut v, &chars_vec("Check x-api-key and OAuth token (transactions_r scope)"));
    } else {
        append_chars(&mut v, &chars_vec(body));
    }
    string_of(&v)
}

/// The diagnostic for a marketplace page body that failed to decode: the
/// decoder's detail and a bounded preview of the raw body.
pub fn etsy_parse_error(detail: &str, raw_body: &str) -> (r: String)
    ensures
        r@ == "Etsy response parse failed: "@ + detail@ + " | raw preview: "@ + preview_of(
            raw_body@,
        ),
{
    let mut v = chars_vec("Etsy response parse failed: ");
    append_chars(&mut v, &chars_vec(detail));
    append_chars(&mut v, &chars_vec(" | raw preview: "));
    append_chars(&mut v, &chars_vec(bounded_preview(raw_body).as_str()));
    string_of(&v)
}

/// The character sequence of an optional string, absent meaning a default.
pub open spec fn opt_str_or(o: Option<String>, d: Seq<char>) -> Seq<char> {
    match o {
        Some(s) => s@,
        None => d,
    }
}

/// The variant descriptors of a transaction, absent meaning none.
pub open spec fn vars_of(t: EtsyTransaction) -> Seq<EtsyVariation> {
    match t.variations {
        Some(v) => v@,
        None => Seq::<EtsyVariation>::empty(),
    }
}

/// The full text metal inference runs on: the title (default "Item"), a
/// space, and the joined variant text (empty when there is none).
pub open spec fn item_full_text(t: EtsyTransaction) -> Seq<char> {
    let parts = variant_parts(vars_of(t));
    let info = if parts.len() == 0 {
        Seq::<char>::empty()
    } else {
        join_parts(parts)
    };
    opt_str_or(t.title, "Item"@) + seq![' '] + info
}

/// The canonical item a raw transaction maps to, given the resolved images.
pub open spec fn etsy_item_matches(t: EtsyTransaction, it: OrderItem, images: Seq<ImageEntry>)
    -> bool {
    let parts = variant_parts(vars_of(t));
    &&& it.name@ == opt_str_or(t.title, "Item"@)
    &&& it.quantity == (match t.quantity {
        Some(q) => q,
        None => 1,
    }) as u32
    &&& it.price == (match t.price {
        Some(m) => money_cents(m),
        None => 0,
    })
    &&& it.metal_type == metal_of(item_full_text(t))
    &&& opt_chars(it.ring_size) == (match first_ring_part_from(parts, 0) {
        Some(i) => Some(parts[i]),
        None => None,
    })
    &&& (match it.variant_info {
        Some(s) => parts.len() > 0 && s@ == join_parts(parts),
        None => parts.len() == 0,
    })
    &&& opt_chars(it.image_url) == (match (t.listing_id, t.listing_image_id) {
        (Some(l), Some(im)) => image_lookup_spec(images, l, im),
        _ => None,
    })
}

/// Joining one more part appends a separator and the part.
proof fn lemma_join_push(ps: Seq<Seq<char>>, p: Seq<char>)
    requires
        ps.len() >= 1,
    ensures
        join_parts(ps.push(p)) == join_parts(ps) + ", "@ + p,
{
    assert(ps.push(p).drop_last() =~= ps);
    assert(ps.push(p).last() == p);
}

/// The first flattened variant part naming a ring size, if any.
fn find_ring_part(parts: &Vec<Vec<char>>, Ghost(pspec): Ghost<Seq<Seq<char>>>) -> (r: Option<
    String,
>)
    requires
        views_of(parts@) == pspec,
    ensures
        match r {
            Some(s) => first_ring_part_from(pspec, 0) is Some && s@ == pspec[first_ring_part_from(
                pspec,
                0,
            )->Some_0],
            None => first_ring_part_from(pspec, 0).is_none(),
        },
{
    let mut j: usize = 0;
    while j < parts.len()
        invariant
            j <= parts@.len(),
            views_of(parts@) == pspec,
            first_ring_part_from(pspec, 0) == first_ring_part_from(pspec, j as int),
        decreases parts@.len() - j,
    {
        let p = &parts[j];
        let pl = lower_vec(p);
        if contains_pat(&pl, &chars_vec("ring")) || contains_pat(&pl, &chars_vec("size")) {
            proof {
                assert(part_is_ring(pspec[j as int]));
            }
            return Some(string_of(p));
        }
        proof {
            assert(!part_is_ring(pspec[j as int]));
        }
        j = j + 1;
    }
    None
}

/// Map one raw transaction to a canonical item, attaching its resolved
/// thumbnail URL when one exists.
pub fn map_etsy_item(t: &EtsyTransaction, images: &Vec<ImageEntry>) -> (r: OrderItem)
    ensures
        etsy_item_matches(*t, r, images@),
{
    let mut parts: Vec<Vec<char>> = Vec::new();
    match &t.variations {
        Some(vs) => {
            let mut i: usize = 0;
            while i < vs.len()
                invariant
                    i <= vs@.len(),
                    t.variations is Some,
                    t.variations->Some_0 == *vs,
                    views_of(parts@) == variant_parts(vs@.take(i as int)),
                decreases vs@.len() - i,
            {
                proof {
                    assert(vs@.take(i + 1 as int).drop_last() =~= vs@.take(i as int));
                    assert(vs@.take(i + 1 as int).last() == vs@[i as int]);
                }
                let va = &vs[i];
                let mut part: Vec<char> = Vec::new();
                let name_empty = match &va.formatted_name {
                    Some(s) => s.as_str().is_empty(),
                    None => true,
                };
                let value_empty = match &va.formatted_value {
                    Some(s) => s.as_str().is_empty(),
                    None => true,
                };
                if !(name_empty && value_empty) {
                    match &va.formatted_name {
                        Some(s) => append_chars(&mut part, &chars_vec(s.as_str())),
                        None => (),
                    }
                    append_chars(&mut part, &chars_vec(": "));
                    match &va.formatted_value {
                        Some(s) => append_chars(&mut part, &chars_vec(s.as_str())),
                        None => (),
                    }
                    proof {
                        assert(part@ =~= opt_str(va.formatted_name) + ": "@ + opt_str(
                            va.formatted_value,
                        ));
                    }
                    let ghost before = parts@;
                    parts.push(part);
                    proof {
                        assert(views_of(parts@) =~= views_of(before).push(
                            opt_str(va.formatted_name) + ": "@ + opt_str(va.formatted_value),
                        ));
                    }
                }
                proof {
                    assert(views_of(parts@) =~= variant_parts(vs@.take(i + 1 as int)));
                }
                i = i + 1;
            }
            proof {
                assert(vs@.take(vs@.len() as int) =~= vs@);
            }
        },
        None => (),
    }
    let ghost pspec = variant_parts(vars_of(*t));
    proof {
        assert(views_of(parts@) == pspec);
    }

    let mut joined: Vec<char> = Vec::new();
    if parts.len() > 0 {
        append_chars(&mut joined, &parts[0]);
        proof {
            assert(joined@ =~= pspec[0]);
            assert(pspec.take(1) =~= seq![pspec[0]]);
        }
        let mut k: usize = 1;
        while k < parts.len()
            invariant
                1 <= k <= parts@.len(),
                views_of(parts@) == pspec,
                joined@ == join_parts(pspec.take(k as int)),
            decreases parts@.len() - k,
        {
            append_chars(&mut joined, &chars_vec(", "));
            append_chars(&mut joined, &parts[k]);
            proof {
                lemma_join_push(pspec.take(k as int), pspec[k as int]);
                assert(pspec.take(k + 1 as int) =~= pspec.take(k as int).push(pspec[k as int]));
                assert(joined@ =~= join_parts(pspec.take(k as int)) + ", "@ + pspec[k as int]);
            }
            k = k + 1;
        }
        proof {
            assert(pspec.take(pspec.len() as int) =~= pspec);
        }
    }

    let mut full: Vec<char> = Vec::new();
    match &t.title {
        Some(s) => append_chars(&mut full, &chars_vec(s.as_str())),
        None => append_chars(&mut full, &chars_vec("Item")),
    }
    full.push(' ');
    append_chars(&mut full, &joined);
    proof {
        assert(full@ =~= item_full_text(*t));
    }
    let metal_type = MetalType::from_string(string_of(&full).as_str());

    let ring_size: Option<String> = find_ring_part(&parts, Ghost(pspec));

    let price = match &t.price {
        Some(m) => money_to_cents(m),
        None => 0,
    };

    let image_url = match (&t.listing_id, &t.listing_image_id) {
        (Some(l), Some(im)) => lookup_image(images, *l, *im),
        _ => None,
    };

    OrderItem {
        name: match &t.title {
            Some(s) => s.clone(),
            None => string_of(&chars_vec("Item")),
        },
        quantity: (match &t.quantity {
            Some(q) => *q,
            None => 1,
        }) as u32,
        price,
        metal_type,
        ring_size,
        variant_info: if parts.len() == 0 {
            None
        } else {
            Some(string_of(&joined))
        },
        image_url,
    }
}

/// The mathematical sum, in cents, of each transaction's price times its
/// quantity (defaults: no price is 0, no quantity is 1).
pub open spec fn tx_subtotal(ts: Seq<EtsyTransaction>) -> int
    decreases ts.len(),
{
    if ts.len() == 0 {
        0
    } else {
        tx_subtotal(ts.drop_last()) + (match ts.last().price {
            Some(m) => money_cents(m) as int,
            None => 0,
        }) * (((match ts.last().quantity {
            Some(q) => q,
            None => 1,
        }) as u32) as int)
    }
}

/// The per-line subtotal sum is nonnegative.
proof fn lemma_tx_subtotal_nonneg(ts: Seq<EtsyTransaction>)
    ensures
        tx_subtotal(ts) >= 0,
    decreases ts.len(),
{
    if ts.len() > 0 {
        lemma_tx_subtotal_nonneg(ts.drop_last());
        let c = (match ts.last().price {
            Some(m) => money_cents(m) as int,
            None => 0,
        });
        let q = (((match ts.last().quantity {
            Some(q) => q,
            None => 1,
        }) as u32) as int);
        assert(c * q >= 0) by (nonlinear_arith)
            requires
                c >= 0,
                q >= 0,
        ;
    }
}

/// Sum the per-line subtotals of the transactions, clamped into `u64`.
pub fn txs_subtotal_clamped(ts: &Vec<EtsyTransaction>) -> (r: u64)
    ensures
        r == clamp_u64(tx_subtotal(ts@)),
{
    let mut acc: u64 = 0;
    let mut i: usize = 0;
    while i < ts.len()
        invariant
            i <= ts@.len(),
            acc == clamp_u64(tx_subtotal(ts@.take(i as int))),
            tx_subtotal(ts@.take(i as int)) >= 0,
        decreases ts@.len() - i,
    {
        proof {
            assert(ts@.take(i + 1 as int).drop_last() =~= ts@.take(i as int));
            assert(ts@.take(i + 1 as int).last() == ts@[i as int]);
            lemma_tx_subtotal_nonneg(ts@.take(i + 1 as int));
        }
        let t = &ts[i];
        let cents: u64 = match &t.price {
            Some(m) => money_to_cents(m),
            None => 0,
        };
        let qty: u32 = (match &t.quantity {
            Some(q) => *q,
            None => 1,
        }) as u32;
        let ghost c = cents as int;
        let ghost q = qty as int;
        let ghost s = tx_subtotal(ts@.take(i as int));
        proof {
            assert(tx_subtotal(ts@.take(i + 1 as int)) == s + c * q);
            assert(c * q >= 0) by (nonlinear_arith)
                requires
                    c >= 0,
                    q >= 0,
            ;
        }
        acc = match cents.checked_mul(qty as u64) {
            Some(p) => acc.saturating_add(p),
            None => u64::MAX,
        };
        i = i + 1;
    }
    proof {
        assert(ts@.take(ts@.len() as int) =~= ts@);
    }
    acc
}

/// The canonical order a raw receipt maps to, given the resolved images.
pub open spec fn etsy_order_matches(rc: EtsyReceipt, o: Order, images: Seq<ImageEntry>) -> bool {
    let order_date = norm_epoch(rc.create_timestamp as int);
    let raw_total = match rc.grandtotal {
        Some(m) => money_cents(m),
        None => 0u64,
    };
    &&& o.id@ == int_rep(rc.receipt_id as int)
    &&& o.source == OrderSource::Etsy
    &&& o.order_number@ == seq!['#'] + int_rep(
        (match rc.order_id {
            Some(x) => x,
            None => rc.receipt_id,
        }) as int,
    )
    &&& o.customer_name@ == (if trim_spec(rc.name@).len() == 0 {
        "Unknown"@
    } else {
        trim_spec(rc.name@)
    })
    &&& o.order_date == order_date
    &&& o.due_date == due_date_of(rc, order_date)
    &&& o.total_price == (if raw_total > 0 {
        raw_total
    } else {
        clamp_u64(tx_subtotal(txs_of(rc)))
    })
    &&& o.currency@ == (match rc.grandtotal {
        Some(m) => money_currency(m),
        None => "USD"@,
    })
    &&& o.status@ == opt_str_or(rc.status, "open"@)
    &&& opt_chars(o.shipping_address) == (match rc.first_line {
        Some(f) => Some(f@),
        None => match rc.formatted_address {
            Some(a) => Some(a@),
            None => None,
        },
    })
    &&& o.items@.len() == txs_of(rc).len()
    &&& forall|i: int|
        0 <= i < txs_of(rc).len() ==> etsy_item_matches(txs_of(rc)[i], #[trigger] o.items@[i], images)
}

/// Map one raw receipt to a canonical order.
pub fn build_etsy_order(rc: &EtsyReceipt, images: &Vec<ImageEntry>) -> (r: Order)
    ensures
        etsy_order_matches(*rc, r, images@),
{
    let order_date = normalize_epoch(rc.create_timestamp);

    let due_date: i64 = {
        let ship = match &rc.transactions {
            Some(ts) => max_ship_date(ts),
            None => None,
        };
        match ship {
            Some(ts) => normalize_epoch(ts),
            None => match order_date.checked_add(FULFILLMENT_SLA_SECS) {
                Some(d) => d,
                None => i64::MAX,
            },
        }
    };

    let (raw_total, currency) = match &rc.grandtotal {
        Some(m) => (
            money_to_cents(m),
            match &m.currency_code {
                Some(c) => c.clone(),
                None => string_of(&chars_vec("USD")),
            },
        ),
        None => (0u64, string_of(&chars_vec("USD"))),
    };

    let total_price = if raw_total > 0 {
        raw_total
    } else {
        match &rc.transactions {
            Some(ts) => txs_subtotal_clamped(ts),
            None => 0,
        }
    };

    let mut items: Vec<OrderItem> = Vec::new();
    match &rc.transactions {
        Some(ts) => {
            let mut i: usize = 0;
            while i < ts.len()
                invariant
                    i <= ts@.len(),
                    rc.transactions is Some,
                    rc.transactions->Some_0 == *ts,
                    items@.len() == i,
                    forall|j: int|
                        0 <= j < i ==> etsy_item_matches(ts@[j], #[trigger] items@[j], images@),
                decreases ts@.len() - i,
            {
                items.push(map_etsy_item(&ts[i], images));
                i = i + 1;
            }
        },
        None => (),
    }

    let trimmed_name = trim_vec(&chars_vec(rc.name.as_str()));
    let customer_name = if trimmed_name.len() == 0 {
        string_of(&chars_vec("Unknown"))
    } else {
        string_of(&trimmed_name)
    };

    let mut num: Vec<char> = Vec::new();
    num.push('#');
    let num_id = match &rc.order_id {
        Some(x) => *x,
        None => rc.receipt_id,
    };
    append_chars(&mut num, &i64_chars(num_id));
    proof {
        assert(num@ =~= seq!['#'] + int_rep(num_id as int));
    }

    Order {
        id: string_of(&i64_chars(rc.receipt_id)),
        source: OrderSource::Etsy,
        order_number: string_of(&num),
        customer_name,
        items,
        order_date,
        due_date,
        total_price,
        currency,
        status: match &rc.status {
            Some(s) => s.clone(),
            None => string_of(&chars_vec("open")),
        },
        shipping_address: match &rc.first_line {
            Some(f) => Some(f.clone()),
            None => match &rc.formatted_address {
                Some(a) => Some(a.clone()),
                None => None,
            },
        },
    }
}

/// The receipts of a batch that fall within the lookback window, in order.
pub open spec fn recent_receipts(rs: Seq<EtsyReceipt>, now_secs: i64) -> Seq<EtsyReceipt>
    decreases rs.len(),
{
    if rs.len() == 0 {
        Seq::<EtsyReceipt>::empty()
    } else {
        let front = recent_receipts(rs.drop_last(), now_secs);
        if in_window(rs.last().create_timestamp, now_secs) {
            front.push(rs.last())
        } else {
            front
        }
    }
}

/// Map a collected batch of raw receipts to canonical orders, excluding
/// receipts older than the lookback window at `now_secs`.
pub fn build_etsy_orders(receipts: &Vec<EtsyReceipt>, images: &Vec<ImageEntry>, now_secs: i64) -> (r:
    Vec<Order>)
    requires
        now_secs >= i64::MIN + LOOKBACK_SECS,
    ensures
        r@.len() == recent_receipts(receipts@, now_secs).len(),
        forall|i: int|
            0 <= i < r@.len() ==> etsy_order_matches(
                recent_receipts(receipts@, now_secs)[i],
                #[trigger] r@[i],
                images@,
            ),
{
    let mut out: Vec<Order> = Vec::new();
    let mut i: usize = 0;
    while i < receipts.len()
        invariant
            i <= receipts@.len(),
            now_secs >= i64::MIN + LOOKBACK_SECS,
            out@.len() == recent_receipts(receipts@.take(i as int), now_secs).len(),
            forall|j: int|
                0 <= j < out@.len() ==> etsy_order_matches(
                    recent_receipts(receipts@.take(i as int), now_secs)[j],
                    #[trigger] out@[j],
                    images@,
                ),
        decreases receipts@.len() - i,
    {
        proof {
            assert(receipts@.take(i + 1 as int).drop_last() =~= receipts@.take(i as int));
            assert(receipts@.take(i + 1 as int).last() == receipts@[i as int]);
        }
        let rc = &receipts[i];
        if receipt_in_window(rc.create_timestamp, now_secs) {
            out.push(build_etsy_order(rc, images));
        }
        i = i + 1;
    }
    proof {
        assert(receipts@.take(receipts@.len() as int) =~= receipts@);
    }
    out
}

} // verus!
