use kvstore::Storage;
use kvstore::Store;

#[test]
fn store_set_then_get() {
    let store = Store::new();
    store.set("k".to_string(), "v".to_string());
    assert_eq!(store.get("k"), Some("v".to_string()));
}

#[test]
fn store_methods_take_shared_references() {
    // Every operation goes through &Store: the same reference a second
    // connection would hold.
    let store = Store::new();
    let writer: &Store = &store;
    let reader: &Store = &store;
    writer.set("k".to_string(), "v".to_string());
    assert_eq!(reader.get("k"), Some("v".to_string()));
    assert!(writer.delete("k"));
    assert!(reader.get("k").is_none());
}

#[test]
fn store_delete_and_contains() {
    let store = Store::new();
    assert!(!store.delete("k"));
    store.set("k".to_string(), "v".to_string());
    assert!(store.contains_key("k"));
    assert!(store.delete("k"));
    assert!(!store.contains_key("k"));
}

#[test]
fn storage_trait_dispatch() {
    let store = Store::new();
    Storage::set(&store, "k".to_string(), "v".to_string());
    assert_eq!(Storage::get(&store, "k"), Some("v".to_string()));
    assert!(Storage::delete(&store, "k"));
    assert!(!Storage::delete(&store, "k"));
}

#[test]
fn write_visible_to_other_connection() {
    let store = Store::new();
    let first: &Store = &store;
    let second: &Store = &store;
    assert_eq!(first.handle_line("SET k v"), "OK");
    assert_eq!(second.handle_line("GET k"), "v");
}

#[test]
fn scenario_round_trip_through_store() {
    let store = Store::new();
    assert_eq!(store.handle_line("SET foo bar"), "OK");
    assert_eq!(store.handle_line("GET foo"), "bar");
    assert_eq!(store.handle_line("DEL foo"), "(integer) 1");
    assert_eq!(store.handle_line("GET foo"), "(nil)");
    assert_eq!(store.handle_line("PING"), "PONG");
    assert_eq!(store.handle_line("FOO"), "ERR unknown command");
}

#[test]
fn stored_nil_literal_reads_back_as_nil() {
    // The one value the wire protocol cannot tell from absence: a client
    // that stores the literal "(nil)" reads the same line back, while
    // EXISTS still reports presence.
    let store = Store::new();
    assert_eq!(store.handle_line("SET k (nil)"), "OK");
    assert_eq!(store.handle_line("GET k"), "(nil)");
    assert_eq!(store.handle_line("EXISTS k"), "(integer) 1");
}
