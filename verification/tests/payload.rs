use edge_database::error::{DbError, InvalidInput};
use edge_database::payload::{
    already_ticketed_order_item_ids, check_invoice_event_sources, invoice_sources_verdict, carries_item, find_ticketed_station_for_order_item,
    first_item_added_for, pending_item_added_correction, ticket_order_item_ids,
};

#[test]
fn a_ticket_lists_the_order_items_it_carries() {
    let ids = ticket_order_item_ids(r#"[{"order_item_id":"oi-1","name":"Dal"},{"name":"no id"},{"order_item_id":"oi-2"}]"#);
    assert_eq!(ids, vec![Some("oi-1".to_string()), None, Some("oi-2".to_string())]);
    assert!(carries_item(&ids, "oi-2"));
    assert!(!carries_item(&ids, "oi-3"));
}

#[test]
fn an_unreadable_ticket_carries_nothing() {
    assert!(ticket_order_item_ids("not json").is_empty());
    assert!(ticket_order_item_ids(r#"{"order_item_id":"oi-1"}"#).is_empty());
}

#[test]
fn the_first_ticket_carrying_an_item_names_its_station() {
    let tickets = vec![
        ("GRILL".to_string(), r#"[{"order_item_id":"oi-1"}]"#.to_string()),
        ("BAR".to_string(), r#"[{"order_item_id":"oi-2"}]"#.to_string()),
        ("TANDOOR".to_string(), r#"[{"order_item_id":"oi-2"}]"#.to_string()),
    ];
    assert_eq!(find_ticketed_station_for_order_item(&tickets, "oi-2").as_deref(), Some("BAR"));
    assert_eq!(find_ticketed_station_for_order_item(&tickets, "oi-9"), None);
}

#[test]
fn already_ticketed_ids_are_distinct_across_tickets() {
    let blobs = vec![
        r#"[{"order_item_id":"oi-1"},{"order_item_id":"oi-2"}]"#.to_string(),
        "garbage".to_string(),
        r#"[{"order_item_id":"oi-2"},{"order_item_id":"oi-3"}]"#.to_string(),
    ];
    let mut ids = already_ticketed_order_item_ids(&blobs);
    ids.sort();
    assert_eq!(ids, vec!["oi-1".to_string(), "oi-2".to_string(), "oi-3".to_string()]);
}

#[test]
fn the_first_matching_candidate_is_chosen() {
    let parsed = vec![None, Some(None), Some(Some("oi-2".to_string())), Some(Some("oi-1".to_string())), Some(Some("oi-1".to_string()))];
    assert_eq!(first_item_added_for(&parsed, "oi-1"), Some(3));
    assert_eq!(first_item_added_for(&parsed, "oi-7"), None);
}

#[test]
fn a_pending_item_added_event_gets_the_corrected_quantity() {
    let candidates = vec![
        ("out-1".to_string(), r#"{"data":{"item":{"id":"oi-2","quantity":1}}}"#.to_string()),
        ("out-2".to_string(), "not json".to_string()),
        ("out-3".to_string(), r#"{"data":{"item":{"id":"oi-1","quantity":1,"line_total_paise":100}}}"#.to_string()),
    ];
    let (id, payload) = pending_item_added_correction(&candidates, "oi-1", 3, 300).expect("corrected");
    assert_eq!(id, "out-3");
    let v: serde_json::Value = serde_json::from_str(&payload).unwrap();
    assert_eq!(v["data"]["item"]["quantity"], 3);
    assert_eq!(v["data"]["item"]["line_total_paise"], 300);
    assert_eq!(v["data"]["item"]["id"], "oi-1");
    assert!(pending_item_added_correction(&candidates, "oi-9", 3, 300).is_none());
}

#[test]
fn a_payload_whose_item_carries_no_id_is_not_corrected() {
    let candidates = vec![("out-1".to_string(), r#"{"data":{"item":{"id":"oi-1"}}}"#.to_string())];
    assert!(pending_item_added_correction(&candidates, "oi-1", 2, 50).is_some());
    let odd = vec![("out-1".to_string(), r#"{"data":{"item":"oi-1"}}"#.to_string())];
    assert!(pending_item_added_correction(&odd, "oi-1", 2, 50).is_none());
}

#[test]
fn the_minted_display_number_is_patched_into_the_order_created_payload() {
    use_patch();
}

fn use_patch() {
    let patched = edge_database::payload::patch_order_created_display_number(
        r#"{"data":{"order":{"id":"order-1"}}}"#,
        "#A7",
    );
    let v: serde_json::Value = serde_json::from_str(&patched).unwrap();
    assert_eq!(v["data"]["order"]["display_number"], "#A7");
    assert_eq!(v["data"]["order"]["id"], "order-1");
    assert_eq!(
        edge_database::payload::patch_order_created_display_number("not json", "#A7"),
        "not json"
    );
    assert_eq!(edge_database::payload::patched_or_original(None, "x"), "x");
    assert_eq!(edge_database::payload::patched_or_original(Some("y".to_string()), "x"), "y");
}

#[test]
fn invoice_sources_that_parse_are_accepted() {
    assert!(check_invoice_event_sources(r#"{"components":[]}"#, r#"{"gstin":"29ABCDE1234F1Z5"}"#).is_ok());
    assert!(invoice_sources_verdict(true, true).is_ok());
}

#[test]
fn a_broken_tax_snapshot_is_named_first() {
    let r = check_invoice_event_sources("{not json", "also not json");
    assert!(matches!(
        r,
        Err(DbError::InvalidInput(InvalidInput::StoredJsonInvalid { field: "tax_snapshot_json" }))
    ));
    assert!(matches!(
        invoice_sources_verdict(false, true),
        Err(DbError::InvalidInput(InvalidInput::StoredJsonInvalid { field: "tax_snapshot_json" }))
    ));
}

#[test]
fn a_broken_fiscal_profile_is_refused() {
    let r = check_invoice_event_sources("{}", "[1, 2");
    assert!(matches!(
        r,
        Err(DbError::InvalidInput(InvalidInput::StoredJsonInvalid { field: "fiscal_profile_json" }))
    ));
    assert!(matches!(
        invoice_sources_verdict(true, false),
        Err(DbError::InvalidInput(InvalidInput::StoredJsonInvalid { field: "fiscal_profile_json" }))
    ));
}
