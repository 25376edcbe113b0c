//! Reading and correcting JSON already stored on kitchen tickets and on
//! pending outbox events: which order items a ticket carries, which
//! station ticketed an item, and the in-place quantity correction of a not
//! yet published `ItemAdded` event.

use vstd::prelude::*;
use crate::error::{DbError, InvalidInput};
use crate::text::{opt_view, str_eq};

verus! {

/// The views of a list of optional strings.
pub open spec fn ids_view(v: Seq<Option<String>>) -> Seq<Option<Seq<char>>> {
    v.map_values(|o: Option<String>| opt_view(o))
}

/// For a ticket's stored items text: the `order_item_id` string of each
/// element of the JSON array, in order (`None` for an element without
/// one), or `None` when the text is not a JSON array.
pub uninterp spec fn ticket_item_ids(items_json: Seq<char>) -> Option<Seq<Option<Seq<char>>>>;

/// `serde_json::from_str::<Vec<serde_json::Value>>` on a ticket's items
/// text, each element read back through `get("order_item_id")` and
/// `as_str`. Trusted: the result is a function of the text alone, named
/// `ticket_item_ids`; which texts parse, and to what, is left to that name.
#[verifier::external_body]
fn parse_ticket_item_ids(items_json: &str) -> (r: Option<Vec<Option<String>>>)
    ensures
        match r {
            Some(v) => ticket_item_ids(items_json@) == Some(ids_view(v@)),
            None => ticket_item_ids(items_json@) is None,
        },
{
    match serde_json::from_str::<Vec<serde_json::Value>>(items_json) {
        Ok(items) => Some(
            items.iter().map(|i| i.get("order_item_id").and_then(|v| v.as_str()).map(|s| s.to_string())).collect(),
        ),
        Err(_) => None,
    }
}

/// The ids a ticket carries: those of its items array, none when the text
/// is not an array.
pub open spec fn ticket_ids(items_json: Seq<char>) -> Seq<Option<Seq<char>>> {
    match ticket_item_ids(items_json) {
        Some(s) => s,
        None => seq![],
    }
}

/// `ids` names `id`.
pub open spec fn names_id(ids: Seq<Option<Seq<char>>>, id: Seq<char>) -> bool {
    exists|k: int| 0 <= k < ids.len() && #[trigger] ids[k] == Some(id)
}

/// Reads a ticket's item ids.
pub fn ticket_order_item_ids(items_json: &str) -> (r: Vec<Option<String>>)
    ensures
        ids_view(r@) == ticket_ids(items_json@),
{
    match parse_ticket_item_ids(items_json) {
        Some(v) => v,
        None => {
            let v: Vec<Option<String>> = Vec::new();
            proof {
                assert(ids_view(v@) =~= seq![]);
            }
            v
        },
    }
}

/// Whether a parsed items list names `order_item_id`.
pub fn carries_item(ids: &Vec<Option<String>>, order_item_id: &str) -> (r: bool)
    ensures
        r == names_id(ids_view(ids@), order_item_id@),
{
    let n = ids.len();
    let mut i: usize = 0;
    while i < n
        invariant
            i <= n,
            n == ids@.len(),
            forall|k: int| 0 <= k < i ==> ids_view(ids@)[k] != Some(order_item_id@),
        decreases n - i,
    {
        if let Some(s) = &ids[i] {
            if str_eq(s.as_str(), order_item_id) {
                proof {
                    assert(ids_view(ids@)[i as int] == Some(order_item_id@));
                }
                return true;
            }
        }
        proof {
            assert(ids_view(ids@)[i as int] == opt_view(ids@[i as int]));
        }
        i += 1;
    }
    false
}

/// The station of the first of an order's tickets (`(station, items
/// text)` rows) that carries `order_item_id`, if any.
pub fn find_ticketed_station_for_order_item(tickets: &Vec<(String, String)>, order_item_id: &str) -> (r: Option<String>)
    ensures
        match r {
            Some(st) => exists|i: int|
                0 <= i < tickets@.len() && names_id(ticket_ids(tickets@[i].1@), order_item_id@) && st@
                    == tickets@[i].0@ && forall|j: int|
                    0 <= j < i ==> !names_id(ticket_ids(#[trigger] tickets@[j].1@), order_item_id@),
            None => forall|i: int|
                0 <= i < tickets@.len() ==> !names_id(ticket_ids(#[trigger] tickets@[i].1@), order_item_id@),
        },
{
    let n = tickets.len();
    let mut i: usize = 0;
    while i < n
        invariant
            i <= n,
            n == tickets@.len(),
            forall|j: int|
                0 <= j < i ==> !names_id(ticket_ids(#[trigger] tickets@[j].1@), order_item_id@),
        decreases n - i,
    {
        let ids = ticket_order_item_ids(tickets[i].1.as_str());
        if carries_item(&ids, order_item_id) {
            return Some(tickets[i].0.clone());
        }
        i += 1;
    }
    None
}

/// `id` is named by one of `blobs`' tickets.
pub open spec fn ticketed_by(blobs: Seq<String>, id: Seq<char>) -> bool {
    exists|b: int| 0 <= b < blobs.len() && names_id(ticket_ids(#[trigger] blobs[b]@), id)
}

/// `id` is one of the strings of `v`.
pub open spec fn listed(v: Seq<String>, id: Seq<char>) -> bool {
    exists|j: int| 0 <= j < v.len() && (#[trigger] v[j])@ == id
}

/// No string occurs twice in `v`.
pub open spec fn all_distinct(v: Seq<String>) -> bool {
    forall|j: int, k: int| 0 <= j < k < v.len() ==> (#[trigger] v[j])@ != (#[trigger] v[k])@
}

/// Appends `s` unless it is already listed.
fn push_distinct(out: &mut Vec<String>, s: &String)
    requires
        all_distinct(old(out)@),
    ensures
        all_distinct(final(out)@),
        forall|id: Seq<char>| #[trigger] listed(final(out)@, id) <==> (listed(old(out)@, id) || id == s@),
{
    let mut present = false;
    let mut j: usize = 0;
    while j < out.len()
        invariant
            j <= out@.len(),
            present == exists|q: int| 0 <= q < j && (#[trigger] out@[q])@ == s@,
        decreases out@.len() - j,
    {
        if str_eq(out[j].as_str(), s.as_str()) {
            present = true;
        }
        j += 1;
    }
    if !present {
        let ghost prev = out@;
        out.push(s.clone());
        proof {
            assert forall|x: int, y: int| 0 <= x < y < out@.len() implies (#[trigger] out@[x])@ != (
            #[trigger] out@[y])@ by {
                assert(out@[x] == prev[x]);
                if y < prev.len() {
                    assert(out@[y] == prev[y]);
                }
            }
            assert forall|id: Seq<char>| #[trigger] listed(out@, id) <==> (listed(prev, id) || id == s@) by {
                if listed(out@, id) {
                    let j2 = choose|j2: int| 0 <= j2 < out@.len() && (#[trigger] out@[j2])@ == id;
                    if j2 < prev.len() {
                        assert(prev[j2] == out@[j2]);
                    }
                }
                if listed(prev, id) {
                    let j2 = choose|j2: int| 0 <= j2 < prev.len() && (#[trigger] prev[j2])@ == id;
                    assert(out@[j2] == prev[j2]);
                }
                if id == s@ {
                    assert(out@[prev.len() as int]@ == id);
                }
            }
        }
    } else {
        proof {
            assert forall|id: Seq<char>| #[trigger] listed(out@, id) <==> (listed(out@, id) || id == s@) by {
                if id == s@ {
                    let q = choose|q: int| 0 <= q < j && (#[trigger] out@[q])@ == s@;
                    assert(out@[q]@ == id);
                }
            }
        }
    }
}

/// The distinct order item ids carried by an order's tickets (`blobs` are
/// the tickets' items texts): an item is ticketed at most once over an
/// order's life, so a send to the kitchen skips exactly these.
pub fn already_ticketed_order_item_ids(blobs: &Vec<String>) -> (r: Vec<String>)
    ensures
        forall|id: Seq<char>| #[trigger] listed(r@, id) <==> ticketed_by(blobs@, id),
        all_distinct(r@),
{
    let mut out: Vec<String> = Vec::new();
    let n = blobs.len();
    let mut b: usize = 0;
    while b < n
        invariant
            b <= n,
            n == blobs@.len(),
            forall|id: Seq<char>| #[trigger] listed(out@, id) <==> ticketed_by(blobs@.take(b as int), id),
            all_distinct(out@),
        decreases n - b,
    {
        let ids = ticket_order_item_ids(blobs[b].as_str());
        let m = ids.len();
        let mut k: usize = 0;
        while k < m
            invariant
                b < n,
                n == blobs@.len(),
                k <= m,
                m == ids@.len(),
                ids_view(ids@) == ticket_ids(blobs@[b as int]@),
                forall|id: Seq<char>|
                    #[trigger] listed(out@, id) <==> (ticketed_by(blobs@.take(b as int), id) || names_id(
                        ids_view(ids@).take(k as int),
                        id,
                    )),
                all_distinct(out@),
            decreases m - k,
        {
            proof {
                assert(ids_view(ids@)[k as int] == opt_view(ids@[k as int]));
            }
            let ghost before = out@;
            if let Some(s) = &ids[k] {
                push_distinct(&mut out, s);
            }
            proof {
                let vk = ids_view(ids@);
                assert forall|id: Seq<char>|
                    names_id(vk.take(k as int + 1), id) <==> (names_id(vk.take(k as int), id) || vk[k as int] == Some(
                        id,
                    )) by {
                    if names_id(vk.take(k as int + 1), id) {
                        let q = choose|q: int| 0 <= q < k + 1 && #[trigger] vk.take(k as int + 1)[q] == Some(id);
                        if q < k {
                            assert(vk.take(k as int)[q] == vk.take(k as int + 1)[q]);
                        }
                    }
                    if names_id(vk.take(k as int), id) {
                        let q = choose|q: int| 0 <= q < k && #[trigger] vk.take(k as int)[q] == Some(id);
                        assert(vk.take(k as int + 1)[q] == vk.take(k as int)[q]);
                    }
                    if vk[k as int] == Some(id) {
                        assert(vk.take(k as int + 1)[k as int] == Some(id));
                    }
                }
            }
            k += 1;
        }
        proof {
            let vk = ids_view(ids@);
            assert(vk.take(m as int) =~= vk);
            assert forall|id: Seq<char>|
                ticketed_by(blobs@.take(b as int + 1), id) <==> (ticketed_by(blobs@.take(b as int), id) || names_id(
                    vk,
                    id,
                )) by {
                let t = blobs@.take(b as int + 1);
                if ticketed_by(t, id) {
                    let bb = choose|bb: int| 0 <= bb < t.len() && names_id(ticket_ids(#[trigger] t[bb]@), id);
                    if bb < b {
                        assert(blobs@.take(b as int)[bb] == t[bb]);
                    } else {
                        assert(t[bb] == blobs@[b as int]);
                    }
                }
                if ticketed_by(blobs@.take(b as int), id) {
                    let bb = choose|bb: int|
                        0 <= bb < b && names_id(ticket_ids(#[trigger] blobs@.take(b as int)[bb]@), id);
                    assert(t[bb] == blobs@.take(b as int)[bb]);
                }
                if names_id(vk, id) {
                    assert(t[b as int] == blobs@[b as int]);
                    assert(names_id(ticket_ids(t[b as int]@), id));
                }
            }
        }
        b += 1;
    }
    proof {
        assert(blobs@.take(n as int) =~= blobs@);
    }
    out
}

// ------------------------------------------- pending ItemAdded events ----

/// For a pending event's payload text: the `data.item.id` string
/// (`Some(None)` when there is none), or `None` when the text is not JSON.
pub uninterp spec fn payload_item_id(payload: Seq<char>) -> Option<Option<Seq<char>>>;

/// `serde_json::from_str::<serde_json::Value>` on an event payload, read
/// back through `get("data")`, `get("item")`, `get("id")` and `as_str`.
/// Trusted: the result is a function of the text alone, named
/// `payload_item_id`.
#[verifier::external_body]
fn parse_payload_item_id(payload: &str) -> (r: Option<Option<String>>)
    ensures
        match r {
            Some(o) => payload_item_id(payload@) == Some(opt_view(o)),
            None => payload_item_id(payload@) is None,
        },
{
    match serde_json::from_str::<serde_json::Value>(payload) {
        Ok(v) => Some(
            v.get("data").and_then(|d| d.get("item")).and_then(|i| i.get("id")).and_then(|id| id.as_str()).map(
                |s| s.to_string(),
            ),
        ),
        Err(_) => None,
    }
}

/// For a pending event's payload text: the text with `data.item.quantity`
/// and `data.item.line_total_paise` set, as `serde_json::to_string`
/// renders it; `None` when the text is not JSON, `data.item` is not an
/// object, or rendering fails.
pub uninterp spec fn payload_item_patched(payload: Seq<char>, quantity: i64, line_total_paise: i64) -> Option<Seq<char>>;

/// Parses a payload with `serde_json::from_str`, inserts the two fields
/// into the `data.item` object (`serde_json::Map::insert`) and renders it
/// with `serde_json::to_string`. Trusted: the result is a function of the
/// three arguments alone, named `payload_item_patched`.
#[verifier::external_body]
fn patch_payload_item(payload: &str, quantity: i64, line_total_paise: i64) -> (r: Option<String>)
    ensures
        opt_view(r) == payload_item_patched(payload@, quantity, line_total_paise),
{
    let mut value: serde_json::Value = match serde_json::from_str(payload) {
        Ok(v) => v,
        Err(_) => return None,
    };
    match value.get_mut("data").and_then(|d| d.get_mut("item")).and_then(|i| i.as_object_mut()) {
        Some(item) => {
            item.insert("quantity".to_string(), serde_json::Value::from(quantity));
            item.insert("line_total_paise".to_string(), serde_json::Value::from(line_total_paise));
        },
        None => return None,
    }
    serde_json::to_string(&value).ok()
}

/// The index of the first candidate whose parsed item id (`None` when its
/// payload did not parse) is `order_item_id`.
pub fn first_item_added_for(parsed: &Vec<Option<Option<String>>>, order_item_id: &str) -> (r: Option<usize>)
    ensures
        match r {
            Some(k) => k < parsed@.len() && (parsed@[k as int] matches Some(Some(s)) && s@ == order_item_id@)
                && forall|j: int| 0 <= j < k ==> !(#[trigger] parsed@[j] matches Some(Some(s)) && s@ == order_item_id@),
            None => forall|j: int|
                0 <= j < parsed@.len() ==> !(#[trigger] parsed@[j] matches Some(Some(s)) && s@ == order_item_id@),
        },
{
    let n = parsed.len();
    let mut i: usize = 0;
    while i < n
        invariant
            i <= n,
            n == parsed@.len(),
            forall|j: int| 0 <= j < i ==> !(#[trigger] parsed@[j] matches Some(Some(s)) && s@ == order_item_id@),
        decreases n - i,
    {
        if let Some(Some(s)) = &parsed[i] {
            if str_eq(s.as_str(), order_item_id) {
                return Some(i);
            }
        }
        i += 1;
    }
    None
}

/// The candidate's payload names `order_item_id` as its item.
pub open spec fn is_item_added_for(payload: Seq<char>, order_item_id: Seq<char>) -> bool {
    payload_item_id(payload) == Some(Some(order_item_id))
}

/// Candidate `k` is the first whose payload names `order_item_id`.
pub open spec fn first_item_added_at(candidates: Seq<(String, String)>, order_item_id: Seq<char>, k: int) -> bool {
    &&& 0 <= k < candidates.len()
    &&& is_item_added_for(candidates[k].1@, order_item_id)
    &&& forall|j: int| 0 <= j < k ==> !is_item_added_for(#[trigger] candidates[j].1@, order_item_id)
}

/// The correction of the one pending `ItemAdded` event of an order item:
/// among the order's pending `ItemAdded` candidates (`(outbox id,
/// payload)` rows), the first whose payload names the item gets its
/// quantity and line total rewritten. Returns that row's id and its new
/// payload; `None` when no candidate names the item or its payload cannot
/// be patched.
pub fn pending_item_added_correction(
    candidates: &Vec<(String, String)>,
    order_item_id: &str,
    quantity: i64,
    line_total_paise: i64,
) -> (r: Option<(String, String)>)
    ensures
        match r {
            Some((id, payload)) => exists|k: int|
                #[trigger] first_item_added_at(candidates@, order_item_id@, k) && id@ == candidates@[k].0@
                    && payload_item_patched(candidates@[k].1@, quantity, line_total_paise) == Some(payload@),
            None => forall|k: int|
                0 <= k < candidates@.len() && is_item_added_for(#[trigger] candidates@[k].1@, order_item_id@) ==> (
                exists|j: int| 0 <= j < k && is_item_added_for(#[trigger] candidates@[j].1@, order_item_id@))
                    || payload_item_patched(candidates@[k].1@, quantity, line_total_paise) is None,
        },
{
    let n = candidates.len();
    let mut parsed: Vec<Option<Option<String>>> = Vec::new();
    let mut i: usize = 0;
    while i < n
        invariant
            i <= n,
            n == candidates@.len(),
            parsed@.len() == i,
            forall|j: int|
                0 <= j < i ==> ((#[trigger] parsed@[j] matches Some(Some(s)) && s@ == order_item_id@)
                    <==> is_item_added_for(candidates@[j].1@, order_item_id@)),
        decreases n - i,
    {
        let p = parse_payload_item_id(candidates[i].1.as_str());
        parsed.push(p);
        proof {
            assert(parsed@[i as int] == p);
        }
        i += 1;
    }
    match first_item_added_for(&parsed, order_item_id) {
        Some(k) => {
            assert(is_item_added_for(candidates@[k as int].1@, order_item_id@));
            assert forall|j: int| 0 <= j < k implies !is_item_added_for(
                #[trigger] candidates@[j].1@,
                order_item_id@,
            ) by {
                assert(!(parsed@[j] matches Some(Some(s)) && s@ == order_item_id@));
            }
            assert(first_item_added_at(candidates@, order_item_id@, k as int));
            match patch_payload_item(candidates[k].1.as_str(), quantity, line_total_paise) {
                Some(patched) => {
                    let id = candidates[k].0.clone();
                    assert(id@ == candidates@[k as int].0@);
                    assert(payload_item_patched(candidates@[k as int].1@, quantity, line_total_paise) == Some(
                        patched@,
                    ));
                    Some((id, patched))
                },
                None => {
                    assert forall|k2: int|
                        0 <= k2 < candidates@.len() && is_item_added_for(
                            #[trigger] candidates@[k2].1@,
                            order_item_id@,
                        ) implies (exists|j: int|
                        0 <= j < k2 && is_item_added_for(#[trigger] candidates@[j].1@, order_item_id@))
                        || payload_item_patched(candidates@[k2].1@, quantity, line_total_paise) is None by {
                        if k2 > k {
                            assert(is_item_added_for(candidates@[k as int].1@, order_item_id@));
                        } else if k2 < k {
                            assert(!is_item_added_for(candidates@[k2].1@, order_item_id@));
                        }
                    }
                    None
                },
            }
        },
        None => {
            assert forall|k2: int|
                0 <= k2 < candidates@.len() && is_item_added_for(
                    #[trigger] candidates@[k2].1@,
                    order_item_id@,
                ) implies (exists|j: int|
                0 <= j < k2 && is_item_added_for(#[trigger] candidates@[j].1@, order_item_id@))
                || payload_item_patched(candidates@[k2].1@, quantity, line_total_paise) is None by {
                assert(!(parsed@[k2] matches Some(Some(s)) && s@ == order_item_id@));
            }
            None
        },
    }
}

// ------------------------------------------------ OrderCreated payloads ----

/// For an `OrderCreated` payload text: the text with
/// `data.order.display_number` set (when `data.order` is an object),
/// re-rendered by `serde_json::to_string`; `None` when the text is not
/// JSON or rendering fails.
pub uninterp spec fn order_display_patched(payload: Seq<char>, display_number: Seq<char>) -> Option<Seq<char>>;

/// Parses a payload with `serde_json::from_str`, inserts `display_number`
/// into the `data.order` object when there is one
/// (`serde_json::Map::insert`), and renders it with `serde_json::to_string`.
/// Trusted: the result is a function of the two texts alone, named
/// `order_display_patched`.
#[verifier::external_body]
fn patch_display_number(payload: &str, display_number: &str) -> (r: Option<String>)
    ensures
        opt_view(r) == order_display_patched(payload@, display_number@),
{
    let mut value: serde_json::Value = match serde_json::from_str(payload) {
        Ok(v) => v,
        Err(_) => return None,
    };
    if let Some(order) = value.get_mut("data").and_then(|d| d.get_mut("order")).and_then(|o| o.as_object_mut()) {
        order.insert("display_number".to_string(), serde_json::Value::from(display_number));
    }
    serde_json::to_string(&value).ok()
}

/// The patched payload when patching succeeded, else the payload as it
/// was: a malformed payload is left unchanged rather than failing the
/// order it describes.
pub fn patched_or_original(patched: Option<String>, original: &str) -> (r: String)
    ensures
        r@ == (match patched {
            Some(p) => p@,
            None => original@,
        }),
{
    match patched {
        Some(p) => p,
        None => original.to_owned(),
    }
}

/// Best-effort patch of an `OrderCreated` payload with the display number
/// minted when the order row was written.
pub fn patch_order_created_display_number(payload_json: &str, display_number: &str) -> (r: String)
    ensures
        r@ == (match order_display_patched(payload_json@, display_number@) {
            Some(p) => p,
            None => payload_json@,
        }),
{
    patched_or_original(patch_display_number(payload_json, display_number), payload_json)
}

// ---------------------------------------------- InvoiceCreated sources ----

/// Whether a text is one JSON value.
pub uninterp spec fn is_json_text(text: Seq<char>) -> bool;

/// `serde_json::from_str::<serde_json::Value>` on a stored JSON column,
/// keeping only whether it succeeded. Trusted: the answer is a function of
/// the text alone, named `is_json_text`.
#[verifier::external_body]
fn parses_as_json(text: &str) -> (r: bool)
    ensures
        r == is_json_text(text@),
{
    serde_json::from_str::<serde_json::Value>(text).is_ok()
}

/// The error an `InvoiceCreated` payload is refused with, given whether
/// its two stored JSON columns parse: the tax snapshot is checked first.
pub open spec fn invoice_sources_outcome(tax_snapshot_ok: bool, fiscal_profile_ok: bool) -> Result<(), DbError> {
    if !tax_snapshot_ok {
        Err(DbError::InvalidInput(InvalidInput::StoredJsonInvalid { field: "tax_snapshot_json" }))
    } else if !fiscal_profile_ok {
        Err(DbError::InvalidInput(InvalidInput::StoredJsonInvalid { field: "fiscal_profile_json" }))
    } else {
        Ok(())
    }
}

/// The decision on an invoice's two stored JSON columns once it is known
/// whether each parses: the `InvoiceCreated` payload embeds both, so it is
/// refused naming the first that does not.
pub fn invoice_sources_verdict(tax_snapshot_ok: bool, fiscal_profile_ok: bool) -> (r: Result<(), DbError>)
    ensures
        r == invoice_sources_outcome(tax_snapshot_ok, fiscal_profile_ok),
{
    if !tax_snapshot_ok {
        Err(DbError::InvalidInput(InvalidInput::StoredJsonInvalid { field: "tax_snapshot_json" }))
    } else if !fiscal_profile_ok {
        Err(DbError::InvalidInput(InvalidInput::StoredJsonInvalid { field: "fiscal_profile_json" }))
    } else {
        Ok(())
    }
}

/// Checks the stored `tax_snapshot_json` and `fiscal_profile_json` of an
/// invoice before its `InvoiceCreated` payload embeds them: `Ok` exactly
/// when both are JSON, else the refusal naming the first that is not.
pub fn check_invoice_event_sources(tax_snapshot_json: &str, fiscal_profile_json: &str) -> (r: Result<(), DbError>)
    ensures
        r == invoice_sources_outcome(is_json_text(tax_snapshot_json@), is_json_text(fiscal_profile_json@)),
        r is Ok <==> is_json_text(tax_snapshot_json@) && is_json_text(fiscal_profile_json@),
{
    let tax_ok = parses_as_json(tax_snapshot_json);
    let fiscal_ok = parses_as_json(fiscal_profile_json);
    invoice_sources_verdict(tax_ok, fiscal_ok)
}

} // verus!
