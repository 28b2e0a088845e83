use echo_daily::error::AppError;
use echo_daily::models::ImportOptions;
use echo_daily::store::Store;

#[test]
fn migrations_are_idempotent() {
    let mut store = Store::new();
    store.migrate().expect("first migration");
    store.migrate().expect("second migration");
}

#[test]
fn upsert_overwrites_same_date() {
    let mut store = Store::open();

    let date = "2026-01-01";
    let content1 = r#"{"type":"doc","content":[{"type":"paragraph","content":[{"type":"text","text":"a"}]}]}"#;
    let content2 = r#"{"type":"doc","content":[{"type":"paragraph","content":[{"type":"text","text":"b"}]}]}"#;

    let first = store.upsert_entry(date, content1).expect("upsert first");
    let second = store.upsert_entry(date, content2).expect("upsert second");

    assert_eq!(first.entry_date, second.entry_date);
    assert_eq!(second.content_json, content2);

    let fetched = store.get_entry(date).expect("get").expect("some entry");
    assert_eq!(fetched.content_json, content2);

    let entries = store.list_entries("2026-01").expect("list");
    assert_eq!(entries.len(), 1);
    assert_eq!(entries[0].entry_date, date);
}

#[test]
fn upsert_keeps_id_and_created_at() {
    let mut store = Store::open();
    let first = store.upsert_entry_at("2026-01-05", "one", 100, "id-a").expect("insert");
    assert_eq!(first.id, "id-a");
    assert_eq!(first.created_at, 100);
    assert_eq!(first.updated_at, 100);

    let second = store.upsert_entry_at("2026-01-05", "two", 200, "id-b").expect("update");
    assert_eq!(second.id, "id-a");
    assert_eq!(second.created_at, 100);
    assert_eq!(second.updated_at, 200);
    assert_eq!(second.content_json, "two");
}

#[test]
fn upsert_rejects_malformed_date() {
    let mut store = Store::open();
    let r = store.upsert_entry("2026-1-5", "text");
    assert!(matches!(r, Err(AppError::InvalidEntryDate(_))));
    let r = store.upsert_entry("not-a-date", "text");
    assert!(matches!(r, Err(AppError::InvalidEntryDate(_))));
    let r = store.get_entry("2026-02-30");
    assert!(matches!(r, Err(AppError::InvalidEntryDate(_))));
}

#[test]
fn duplicate_entry_id_is_a_database_error() {
    let mut store = Store::open();
    store.upsert_entry_at("2026-01-01", "a", 1, "same-id").expect("first");
    let r = store.upsert_entry_at("2026-01-02", "b", 2, "same-id");
    assert!(matches!(r, Err(AppError::Database(_))));
}

#[test]
fn fresh_ids_look_like_uuids() {
    let mut store = Store::open();
    let e = store.upsert_entry("2026-03-01", "text").expect("insert");
    assert_eq!(e.id.chars().count(), 36);
}

#[test]
fn list_entries_filters_and_orders_descending() {
    let mut store = Store::open();
    store.upsert_entry("2026-01-02", "b").expect("b");
    store.upsert_entry("2026-02-10", "d").expect("d");
    store.upsert_entry("2026-01-20", "c").expect("c");
    store.upsert_entry("2026-01-01", "a").expect("a");

    let january = store.list_entries("2026-01").expect("list");
    let dates: Vec<&str> = january.iter().map(|e| e.entry_date.as_str()).collect();
    assert_eq!(dates, vec!["2026-01-20", "2026-01-02", "2026-01-01"]);

    let r = store.list_entries("2026-1");
    assert!(matches!(r, Err(AppError::InvalidEntryDate(_))));
    let r = store.list_entries("2026-13");
    assert!(matches!(r, Err(AppError::InvalidEntryDate(_))));
}

#[test]
fn delete_entry_reports_presence() {
    let mut store = Store::open();
    store.upsert_entry("2026-01-01", "a").expect("insert");
    assert_eq!(store.delete_entry("2026-01-01").expect("delete"), true);
    assert_eq!(store.delete_entry("2026-01-01").expect("delete again"), false);
    assert!(store.get_entry("2026-01-01").expect("get").is_none());
}

#[test]
fn delete_entry_cascades_to_audit_records_and_index() {
    let mut store = Store::open();
    let e = store.upsert_entry("2026-01-01", "about coffee").expect("insert");
    store
        .create_ai_operation(&e.id, "polish", "raw", "polished", "zhipu", "glm-4-flash")
        .expect("record");
    assert_eq!(store.list_ai_operations(&e.id).expect("ops").len(), 1);
    assert_eq!(store.search_entries("coffee").expect("search").len(), 1);

    assert!(store.delete_entry("2026-01-01").expect("delete"));
    assert_eq!(store.list_ai_operations(&e.id).expect("ops gone").len(), 0);
    assert_eq!(store.search_entries("coffee").expect("not indexed").len(), 0);
}

#[test]
fn search_finds_exactly_the_matching_entry() {
    let mut store = Store::open();
    store.upsert_entry("2026-01-01", "a cup of coffee").expect("coffee");
    store.upsert_entry("2026-01-02", "a pot of tea").expect("tea");

    let hits = store.search_entries("coffee").expect("search");
    assert_eq!(hits.len(), 1);
    assert_eq!(hits[0].entry_date, "2026-01-01");

    let hits = store.search_entries("  tea  ").expect("trimmed search");
    assert_eq!(hits.len(), 1);
    assert_eq!(hits[0].entry_date, "2026-01-02");

    assert_eq!(store.search_entries("").expect("empty").len(), 0);
    assert_eq!(store.search_entries("   ").expect("blank").len(), 0);
}

#[test]
fn search_reflects_updates_and_moods() {
    let mut store = Store::open();
    store.upsert_entry("2026-01-01", "about tea").expect("insert");
    assert_eq!(store.search_entries("coffee").expect("none yet").len(), 0);

    store.upsert_entry("2026-01-01", "about coffee").expect("update");
    assert_eq!(store.search_entries("coffee").expect("updated").len(), 1);
    assert_eq!(store.search_entries("tea").expect("old text gone").len(), 0);

    store
        .upsert_entry_mood("2026-01-01", Some("happy"), Some("grin"))
        .expect("mood");
    assert_eq!(store.search_entries("happy").expect("mood indexed").len(), 1);
}

#[test]
fn mood_upsert_touches_only_mood_fields() {
    let mut store = Store::open();
    store.upsert_entry_at("2026-01-01", "content", 10, "id-1").expect("insert");
    let e = store
        .upsert_entry_mood_at("2026-01-01", Some("happy"), Some("grin"), 20, "id-2")
        .expect("mood update");
    assert_eq!(e.id, "id-1");
    assert_eq!(e.content_json, "content");
    assert_eq!(e.mood.as_deref(), Some("happy"));
    assert_eq!(e.mood_emoji.as_deref(), Some("grin"));
    assert_eq!(e.created_at, 10);
    assert_eq!(e.updated_at, 20);

    // inserting through the mood path gives an empty document
    let fresh = store
        .upsert_entry_mood_at("2026-01-02", Some("sad"), None, 30, "id-3")
        .expect("mood insert");
    assert_eq!(fresh.content_json, "{}");
    assert_eq!(fresh.mood.as_deref(), Some("sad"));
    assert_eq!(fresh.mood_emoji, None);
}

#[test]
fn list_entries_by_mood_filters_both_ways() {
    let mut store = Store::open();
    store.upsert_entry_mood("2026-01-01", Some("happy"), None).expect("a");
    store.upsert_entry_mood("2026-01-02", Some("sad"), None).expect("b");
    store.upsert_entry_mood("2026-02-01", Some("happy"), None).expect("c");

    let hits = store.list_entries_by_mood("2026-01", "happy").expect("list");
    assert_eq!(hits.len(), 1);
    assert_eq!(hits[0].entry_date, "2026-01-01");
}

#[test]
fn audit_records_need_a_live_entry() {
    let mut store = Store::open();
    let r = store.create_ai_operation("nobody", "polish", "a", "b", "zhipu", "m");
    assert!(matches!(r, Err(AppError::EntryNotFound(_))));
}

#[test]
fn audit_records_list_newest_first_and_delete_counts() {
    let mut store = Store::open();
    let e = store.upsert_entry("2026-01-01", "text").expect("insert");
    store
        .create_ai_operation_at(&e.id, "polish", "a", "b", "zhipu", "m", 100, "op-1")
        .expect("op 1");
    store
        .create_ai_operation_at(&e.id, "expand", "c", "d", "zhipu", "m", 200, "op-2")
        .expect("op 2");

    let ops = store.list_ai_operations(&e.id).expect("list");
    assert_eq!(ops.len(), 2);
    assert_eq!(ops[0].id, "op-2");
    assert_eq!(ops[1].id, "op-1");

    let removed = store.delete_ai_operations_for_entry(&e.id).expect("bulk delete");
    assert_eq!(removed, 2);
    assert_eq!(store.list_ai_operations(&e.id).expect("empty").len(), 0);
}

#[test]
fn duplicate_audit_id_is_a_database_error() {
    let mut store = Store::open();
    let e = store.upsert_entry("2026-01-01", "text").expect("insert");
    store
        .create_ai_operation_at(&e.id, "polish", "a", "b", "zhipu", "m", 100, "op-1")
        .expect("first");
    let r = store.create_ai_operation_at(&e.id, "polish", "a", "b", "zhipu", "m", 200, "op-1");
    assert!(matches!(r, Err(AppError::Database(_))));
}

#[test]
fn settings_are_upserts() {
    let mut store = Store::open();
    assert!(store.get_setting("tts_config").expect("missing").is_none());
    store.save_setting("tts_config", "first").expect("save");
    assert_eq!(store.get_setting("tts_config").expect("get").as_deref(), Some("first"));
    store.save_setting("tts_config", "second").expect("overwrite");
    assert_eq!(store.get_setting("tts_config").expect("get").as_deref(), Some("second"));
}

#[test]
fn export_snapshot_is_ordered_and_versioned() {
    let mut store = Store::open();
    store.upsert_entry_at("2026-01-02", "b", 50, "id-b").expect("b");
    store.upsert_entry_at("2026-01-01", "a", 60, "id-a").expect("a");
    let e = store.get_entry("2026-01-01").expect("get").expect("entry");
    store
        .create_ai_operation_at(&e.id, "polish", "x", "y", "zhipu", "m", 300, "op-2")
        .expect("late op");
    store
        .create_ai_operation_at(&e.id, "polish", "x", "y", "zhipu", "m", 200, "op-1")
        .expect("early op");

    let bundle = store.export_all_data_at(999);
    assert_eq!(bundle.version, "1.0");
    assert_eq!(bundle.exported_at, 999);
    let dates: Vec<&str> = bundle.entries.iter().map(|x| x.entry_date.as_str()).collect();
    assert_eq!(dates, vec!["2026-01-01", "2026-01-02"]);
    let ops: Vec<&str> = bundle.ai_operations.iter().map(|o| o.id.as_str()).collect();
    assert_eq!(ops, vec!["op-1", "op-2"]);
}

#[test]
fn import_inserts_new_entries_and_respects_overwrite() {
    let mut source = Store::open();
    source.upsert_entry_at("2026-02-01", "from the bundle", 100, "bundle-id").expect("seed");
    let bundle = source.export_all_data_at(500);

    let mut target = Store::open();
    let options = ImportOptions { overwrite: false, include_ai_operations: false };
    let imported = target.import_data(bundle, options).expect("import");
    assert_eq!(imported, 1);
    let got = target.get_entry("2026-02-01").expect("get").expect("imported entry");
    assert_eq!(got.content_json, "from the bundle");
    assert_eq!(got.id, "bundle-id");
    assert_eq!(got.created_at, 100);

    // re-importing the same bundle without overwrite changes nothing
    let bundle_again = source.export_all_data_at(501);
    let imported = target.import_data(bundle_again, options).expect("re-import");
    assert_eq!(imported, 0);
    let unchanged = target.get_entry("2026-02-01").expect("get").expect("entry");
    assert_eq!(unchanged.content_json, "from the bundle");
}

#[test]
fn import_overwrite_updates_in_place() {
    let mut source = Store::open();
    source.upsert_entry_at("2026-02-01", "new text", 100, "bundle-id").expect("seed");
    let bundle = source.export_all_data_at(500);

    let mut target = Store::open();
    target.upsert_entry_at("2026-02-01", "old text", 50, "local-id").expect("local");
    let options = ImportOptions { overwrite: true, include_ai_operations: false };
    let imported = target.import_data(bundle, options).expect("import");
    assert_eq!(imported, 1);
    let got = target.get_entry("2026-02-01").expect("get").expect("entry");
    assert_eq!(got.content_json, "new text");
    // the local identity survives an overwrite
    assert_eq!(got.id, "local-id");
    assert_eq!(got.created_at, 50);
}

#[test]
fn import_brings_audit_records_once_and_skips_orphans() {
    let mut source = Store::open();
    source.upsert_entry_at("2026-02-01", "text", 100, "shared-id").expect("seed");
    source
        .create_ai_operation_at("shared-id", "polish", "a", "b", "zhipu", "m", 150, "op-1")
        .expect("op");
    let mut bundle = source.export_all_data_at(500);
    // an orphaned audit record: its entry is not in the bundle or the target
    bundle.ai_operations.push(echo_daily::models::AIOperation {
        id: "op-orphan".to_string(),
        entry_id: "missing".to_string(),
        op_type: "polish".to_string(),
        original_text: "a".to_string(),
        result_text: "b".to_string(),
        provider: "zhipu".to_string(),
        model: "m".to_string(),
        created_at: 160,
    });

    let mut target = Store::open();
    let options = ImportOptions { overwrite: false, include_ai_operations: true };
    target.import_data(bundle, options).expect("import");
    let ops = target.list_ai_operations("shared-id").expect("ops");
    assert_eq!(ops.len(), 1);
    assert_eq!(ops[0].id, "op-1");

    // importing the same records again inserts nothing new
    let bundle2 = source.export_all_data_at(501);
    target.import_data(bundle2, options).expect("second import");
    assert_eq!(target.list_ai_operations("shared-id").expect("ops").len(), 1);
}
