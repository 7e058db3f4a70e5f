use todo_store::adapter;
use todo_store::codec;
use todo_store::error::StoreError;
use todo_store::status::Status;
use todo_store::store::{RawEntry, RawRow, Store};

#[test]
fn test_status_labels() {
    assert_eq!(Status::NotStarted.label(), "Not Started");
    assert_eq!(Status::Completed.label(), "Completed");
    assert_eq!(Status::Archived.label(), "Archived");
}

#[test]
fn test_status_round_trip() {
    // encoding `Archived` then decoding the quoted store form yields it back
    let encoded = Status::Archived.label();
    assert_eq!(encoded, "Archived");
    let quoted = format!("\"{}\"", encoded);
    assert_eq!(Status::decode(quoted.as_str()), Status::Archived);
    assert_eq!(Status::decode(encoded), Status::Archived);

    assert_eq!(Status::decode("Completed"), Status::Completed);
    assert_eq!(Status::decode("\"Completed\""), Status::Completed);
    assert_eq!(Status::decode("Not Started"), Status::NotStarted);
    assert_eq!(Status::decode("\"Not Started\""), Status::NotStarted);
}

#[test]
fn test_status_decode_lenient_default() {
    // an unrecognised string decodes to `NotStarted`
    assert_eq!(Status::decode("Bogus"), Status::NotStarted);
    assert_eq!(Status::decode(""), Status::NotStarted);
    assert_eq!(Status::decode("archived"), Status::NotStarted);
}

#[test]
fn test_status_from_string() {
    assert_eq!(Status::from(String::from("\"Archived\"")), Status::Archived);
    assert_eq!(Status::from(String::from("Completed")), Status::Completed);
    assert_eq!(Status::from(String::from("nonsense")), Status::NotStarted);
}

#[test]
fn test_status_decode_strict() {
    assert_eq!(Status::decode_strict("Archived"), Some(Status::Archived));
    assert_eq!(Status::decode_strict("\"Archived\""), Some(Status::Archived));
    assert_eq!(Status::decode_strict("Not Started"), Some(Status::NotStarted));
    assert_eq!(Status::decode_strict("Bogus"), None);
    assert_eq!(Status::decode_strict(""), None);
}

#[test]
fn test_quote_and_strip() {
    assert_eq!(codec::quote("Buy Milk"), "\"Buy Milk\"");
    assert_eq!(codec::strip_quotes("\"Buy Milk\""), "Buy Milk");
    // a string not wrapped in quotes is unchanged
    assert_eq!(codec::strip_quotes("Buy Milk"), "Buy Milk");
    // exactly one layer is stripped
    assert_eq!(codec::strip_quotes("\"\"nested\"\""), "\"nested\"");
    assert_eq!(codec::strip_quotes(codec::quote("\"x\"").as_str()), "\"x\"");
    // too short to hold a matching pair
    assert_eq!(codec::strip_quotes("\""), "\"");
    assert_eq!(codec::strip_quotes("\"\""), "");
}

#[test]
fn test_parse_u8_strict() {
    assert_eq!(codec::parse_u8("0"), Some(0));
    assert_eq!(codec::parse_u8("5"), Some(5));
    assert_eq!(codec::parse_u8("255"), Some(255));
    assert_eq!(codec::parse_u8("042"), Some(42));
    assert_eq!(codec::parse_u8("256"), None);
    assert_eq!(codec::parse_u8("9999999999999999999999"), None);
    assert_eq!(codec::parse_u8(""), None);
    assert_eq!(codec::parse_u8("12a"), None);
    assert_eq!(codec::parse_u8("-1"), None);
    assert_eq!(codec::parse_u8("+5"), None);
    assert_eq!(codec::parse_u8(" 5"), None);
}

#[test]
fn test_u64_to_dec() {
    assert_eq!(codec::u64_to_dec(0), "0");
    assert_eq!(codec::u64_to_dec(7), "7");
    assert_eq!(codec::u64_to_dec(255), "255");
    assert_eq!(codec::u64_to_dec(1234567890), "1234567890");
}

#[test]
fn test_record_id_shape() {
    assert!(codec::is_valid_record_id("task:1"));
    assert!(codec::is_valid_record_id("task:ab12cd"));
    assert!(!codec::is_valid_record_id("garbage"));
    assert!(!codec::is_valid_record_id(""));
    assert!(!codec::is_valid_record_id(":x"));
    assert!(!codec::is_valid_record_id("task:"));
    assert!(!codec::is_valid_record_id(":"));
}

#[test]
fn test_decode_raw_record_strips_quotes() {
    let raw = RawEntry::Row(RawRow {
        id: String::from("task:7"),
        title: String::from("\"Buy Milk\""),
        status: String::from("\"Archived\""),
        priority: String::from("5"),
    });
    let (id, title, status, priority) = adapter::decode_raw_record(&raw).unwrap();
    assert_eq!(id, "task:7");
    assert_eq!(title, "Buy Milk");
    assert_eq!(status, "Archived");
    assert_eq!(priority, 5);
}

#[test]
fn test_decode_raw_record_malformed() {
    // a non-row response entry
    let r = adapter::decode_raw_record(&RawEntry::NotARow);
    assert_eq!(r, Err(StoreError::MalformedRow));

    // a numeric field that fails strict parsing is fatal, never defaulted
    let raw = RawEntry::Row(RawRow {
        id: String::from("task:7"),
        title: String::from("\"Buy Milk\""),
        status: String::from("\"Archived\""),
        priority: String::from("boom"),
    });
    assert_eq!(adapter::decode_raw_record(&raw), Err(StoreError::MalformedRow));

    // out of range
    let raw = RawEntry::Row(RawRow {
        id: String::from("task:7"),
        title: String::from("\"Buy Milk\""),
        status: String::from("\"Archived\""),
        priority: String::from("300"),
    });
    assert_eq!(adapter::decode_raw_record(&raw), Err(StoreError::MalformedRow));
}

#[test]
fn test_store_read_back_is_quoted() {
    let store = &mut Store::new();
    let id = adapter::create_task(store, "Buy Milk", 5, Status::NotStarted.label()).unwrap();
    assert!(codec::is_valid_record_id(id.as_str()));

    let raw = store.list_raw();
    assert_eq!(raw.len(), 1);
    match &raw[0] {
        RawEntry::Row(r) => {
            assert_eq!(r.id, id);
            assert_eq!(r.title, "\"Buy Milk\"");
            assert_eq!(r.status, "\"Not Started\"");
            assert_eq!(r.priority, "5");
        }
        RawEntry::NotARow => panic!("a stored record must list as a row"),
    }
}

#[test]
fn test_adapter_operations() {
    let store = &mut Store::new();
    let id = adapter::create_task(store, "Buy Milk", 5, Status::NotStarted.label()).unwrap();

    let echoed = adapter::update_task(store, id.as_str(), "Get milk", "Completed", 6).unwrap();
    assert_eq!(echoed, id.as_str());

    let rows = adapter::get_all_tasks(store).unwrap();
    assert_eq!(rows.len(), 1);
    assert_eq!(rows[0].0, id);
    assert_eq!(rows[0].1, "Get milk");
    assert_eq!(rows[0].2, "Completed");
    assert_eq!(rows[0].3, 6);

    let echoed = adapter::archive_task(store, id.as_str()).unwrap();
    assert_eq!(echoed, id.as_str());
    let rows = adapter::get_all_tasks(store).unwrap();
    assert_eq!(rows[0].1, "Get milk");
    assert_eq!(rows[0].2, "Archived");
    assert_eq!(rows[0].3, 6);

    let echoed = adapter::hard_delete_task(store, id.as_str()).unwrap();
    assert_eq!(echoed, id.as_str());
    assert!(adapter::get_all_tasks(store).unwrap().is_empty());

    // deleting again is success, not an error
    assert!(adapter::hard_delete_task(store, id.as_str()).is_ok());
    // a malformed identifier is rejected before any store work
    assert_eq!(
        adapter::hard_delete_task(store, "nope"),
        Err(StoreError::InvalidId)
    );
}

#[test]
fn test_store_issues_distinct_ids() {
    let store = &mut Store::new();
    let a = adapter::create_task(store, "a", 1, "Not Started").unwrap();
    let b = adapter::create_task(store, "b", 2, "Not Started").unwrap();
    let c = adapter::create_task(store, "c", 3, "Not Started").unwrap();
    assert_ne!(a, b);
    assert_ne!(b, c);
    assert_ne!(a, c);
    assert!(a.starts_with("task:"));
}
