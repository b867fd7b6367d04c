use remerge::db::{DbState, RemergeDb};
use remerge::error::{ErrorKind, InvalidRecord};
use remerge::meta::{MetaKey, MetaValue};
use remerge::records::{NativeRecord, Value};
use remerge::schema::{RecordSchema, SchemaVersion};
use remerge::sync_status::SyncStatus;
use remerge::upgrades::{UpgradeKind, UpgradeRemote};

fn schema_v1() -> RecordSchema {
    RecordSchema {
        name: "notes".to_string(),
        version: SchemaVersion { major: 1, minor: 0, patch: 0 },
        required_version: "^1".to_string(),
        legacy: false,
        source: "notes schema, first version".to_string(),
        own_guid_field: "id".to_string(),
        dedupe_on: Vec::new(),
    }
}

fn schema_v2() -> RecordSchema {
    let mut s = schema_v1();
    s.version = SchemaVersion { major: 2, minor: 0, patch: 0 };
    s.source = "notes schema, second version".to_string();
    s
}

fn open_fresh() -> RemergeDb {
    RemergeDb::open(DbState::new(), &schema_v1()).unwrap()
}

fn titled(title: &str) -> NativeRecord {
    NativeRecord { fields: vec![("title".to_string(), Value::Text(title.to_string()))] }
}

fn titled_with_id(id: &str, title: &str) -> NativeRecord {
    NativeRecord {
        fields: vec![
            ("id".to_string(), Value::Text(id.to_string())),
            ("title".to_string(), Value::Text(title.to_string())),
        ],
    }
}

fn counter_of(store: &RemergeDb) -> u64 {
    match store.state().meta.try_get(MetaKey::ChangeCounter) {
        Some(MetaValue::Uint(c)) => c,
        other => panic!("change counter missing or mistyped: {:?}", other),
    }
}

const GUID_A: &str = "AAAAAAAAAAAA";
const GUID_B: &str = "BBBBBBBBBBBB";

#[test]
fn fresh_open_sets_collection_and_versions() {
    // Scenario: opening a fresh store with native schema v1.
    let store = open_fresh();
    assert_eq!(store.collection(), "notes");
    let v1 = SchemaVersion { major: 1, minor: 0, patch: 0 };
    assert_eq!(
        store.state().meta.try_get(MetaKey::LocalSchemaVersion),
        Some(MetaValue::Version(v1))
    );
    assert_eq!(
        store.state().meta.try_get(MetaKey::NativeSchemaVersion),
        Some(MetaValue::Version(v1))
    );
    assert_eq!(counter_of(&store), 1);
    assert_eq!(store.state().schemas.len(), 1);
    let client = store.client_id();
    assert!(remerge::guid::is_valid_guid(client.as_str()));
}

#[test]
fn meta_key_names() {
    assert_eq!(MetaKey::CollectionName.name(), "remerge/collection-name");
    assert_eq!(MetaKey::LocalSchemaVersion.name(), "remerge/local-schema-version");
    assert_eq!(MetaKey::NativeSchemaVersion.name(), "remerge/native-schema-version");
    assert_eq!(MetaKey::OwnClientId.name(), "remerge/client-id");
    assert_eq!(MetaKey::ChangeCounter.name(), "remerge/change-counter");
    assert_eq!(
        MetaKey::SyncNativeVersionThreshold.name(),
        "remerge/sync-native-version-threshold"
    );
}

#[test]
fn create_then_get_all_round_trips() {
    // Scenario: create({"title":"a"}) and read everything back.
    let mut store = open_fresh();
    let guid = store.create(&titled("a"), 1000).unwrap();
    assert!(remerge::guid::is_valid_guid(guid.as_str()));
    assert_eq!(guid.len(), 12);
    let all = store.get_all().unwrap();
    assert_eq!(all.len(), 1);
    assert_eq!(all[0].get("title"), Some(&Value::Text("a".to_string())));
    assert_eq!(all[0].get("id"), Some(&Value::Text(guid.clone())));
    // The overlay row is marked New.
    assert_eq!(store.state().local.len(), 1);
    assert_eq!(store.state().local[0].sync_status, SyncStatus::New);
    assert!(store.record_exists(guid.as_str()).unwrap());
}

#[test]
fn create_with_existing_guid_fails_id_not_unique() {
    let mut store = open_fresh();
    let g = store.create(&titled_with_id(GUID_A, "first"), 1).unwrap();
    assert_eq!(g, GUID_A);
    let rows_before = store.state().local.len();
    let counter_before = counter_of(&store);
    let err = store.create(&titled_with_id(GUID_A, "second"), 2).unwrap_err();
    assert!(matches!(err, ErrorKind::InvalidRecord(InvalidRecord::IdNotUnique)));
    // Nothing was inserted, not even partially.
    assert_eq!(store.state().local.len(), rows_before);
    assert_eq!(counter_of(&store), counter_before);
}

#[test]
fn create_with_invalid_guid_fails() {
    let mut store = open_fresh();
    let err = store.create(&titled_with_id("not a guid!", "x"), 1).unwrap_err();
    assert!(matches!(err, ErrorKind::InvalidRecord(InvalidRecord::InvalidGuid(_))));
    let err = store
        .create(
            &NativeRecord { fields: vec![("id".to_string(), Value::Int(3))] },
            1,
        )
        .unwrap_err();
    assert!(matches!(err, ErrorKind::InvalidRecord(InvalidRecord::WrongFieldType(_, _))));
}

#[test]
fn create_with_null_guid_mints_one() {
    let mut store = open_fresh();
    let rec = NativeRecord {
        fields: vec![
            ("id".to_string(), Value::Null),
            ("title".to_string(), Value::Text("n".to_string())),
        ],
    };
    let guid = store.create(&rec, 1).unwrap();
    assert!(remerge::guid::is_valid_guid(guid.as_str()));
    let got = store.get_by_id(guid.as_str()).unwrap().unwrap();
    assert_eq!(got.get("id"), Some(&Value::Text(guid.clone())));
}

#[test]
fn update_changes_field_and_raises_status() {
    // Scenario: create guid g, then update the same guid with a changed
    // field.
    let mut store = open_fresh();
    store.create(&titled_with_id(GUID_A, "old title"), 1).unwrap();
    let client = store.client_id();
    let clock_before = store.state().local[0].vector_clock.get(client.as_str());
    store.update_record(&titled_with_id(GUID_A, "new title"), 2).unwrap();
    let got = store.get_by_id(GUID_A).unwrap().unwrap();
    assert_eq!(got.get("title"), Some(&Value::Text("new title".to_string())));
    let row = &store.state().local[0];
    assert!(row.vector_clock.get(client.as_str()) > clock_before);
    assert!(row.sync_status.level_exec() >= SyncStatus::Changed.level_exec());
}

#[test]
fn update_nonexistent_fails_no_such_record() {
    let mut store = open_fresh();
    store.create(&titled_with_id(GUID_A, "kept"), 1).unwrap();
    let rows_before = store.state().local.len();
    let counter_before = counter_of(&store);
    let err = store.update_record(&titled_with_id(GUID_B, "nope"), 2).unwrap_err();
    assert!(matches!(err, ErrorKind::NoSuchRecord(ref g) if g == GUID_B));
    // Storage is unchanged.
    assert_eq!(store.state().local.len(), rows_before);
    assert_eq!(counter_of(&store), counter_before);
    let kept = store.get_by_id(GUID_A).unwrap().unwrap();
    assert_eq!(kept.get("title"), Some(&Value::Text("kept".to_string())));
}

#[test]
fn update_without_id_fails_missing_field() {
    let mut store = open_fresh();
    let err = store.update_record(&titled("no id"), 1).unwrap_err();
    assert!(matches!(
        err,
        ErrorKind::InvalidRecord(InvalidRecord::MissingRequiredField(ref f)) if f == "id"
    ));
}

#[test]
fn delete_existing_then_again() {
    // Scenario: delete an existing record, then delete it again.
    let mut store = open_fresh();
    store.create(&titled_with_id(GUID_A, "doomed"), 1).unwrap();
    assert!(store.delete_by_id(GUID_A, 2).unwrap());
    assert!(!store.delete_by_id(GUID_A, 3).unwrap());
    assert_eq!(store.get_by_id(GUID_A).unwrap(), None);
    assert!(!store.record_exists(GUID_A).unwrap());
    // A tombstone overlay row remains, with a cleared payload.
    assert_eq!(store.state().local.len(), 1);
    assert!(store.state().local[0].is_deleted);
    assert_eq!(store.state().local[0].record_data.fields.len(), 0);
    assert_eq!(store.state().local[0].sync_status, SyncStatus::Changed);
}

#[test]
fn delete_nonexistent_returns_false_without_writes() {
    let mut store = open_fresh();
    let counter_before = counter_of(&store);
    assert!(!store.delete_by_id(GUID_A, 1).unwrap());
    assert_eq!(counter_of(&store), counter_before);
    assert_eq!(store.state().local.len(), 0);
}

#[test]
fn recreating_a_tombstoned_guid_is_refused() {
    let mut store = open_fresh();
    store.create(&titled_with_id(GUID_A, "first life"), 1).unwrap();
    store.delete_by_id(GUID_A, 2).unwrap();
    let err = store.create(&titled_with_id(GUID_A, "second life"), 3).unwrap_err();
    assert!(matches!(err, ErrorKind::Unspecified(_)));
}

#[test]
fn change_counter_counts_committed_mutations() {
    let mut store = open_fresh();
    assert_eq!(counter_of(&store), 1);
    store.create(&titled_with_id(GUID_A, "a"), 1).unwrap();
    assert_eq!(counter_of(&store), 2);
    store.update_record(&titled_with_id(GUID_A, "b"), 2).unwrap();
    assert_eq!(counter_of(&store), 3);
    store.delete_by_id(GUID_A, 3).unwrap();
    assert_eq!(counter_of(&store), 4);
    // The counter survives a close and reopen.
    let state = store.into_state();
    let store = RemergeDb::open(state, &schema_v1()).unwrap();
    assert_eq!(counter_of(&store), 4);
}

#[test]
fn counter_overflow_is_reported_as_corruption() {
    let mut store = open_fresh();
    store.db.meta.put(MetaKey::ChangeCounter, MetaValue::Uint(u64::MAX));
    let err = store.create(&titled_with_id(GUID_A, "x"), 1).unwrap_err();
    assert!(matches!(err, ErrorKind::InvariantViolation(_)));
    assert!(err.is_corruption());
}

#[test]
fn own_clock_component_never_decreases() {
    let mut store = open_fresh();
    let client = store.client_id();
    store.create(&titled_with_id(GUID_A, "v1"), 1).unwrap();
    let c1 = store.state().local[0].vector_clock.get(client.as_str());
    store.update_record(&titled_with_id(GUID_A, "v2"), 2).unwrap();
    let c2 = store.state().local[0].vector_clock.get(client.as_str());
    store.delete_by_id(GUID_A, 3).unwrap();
    let c3 = store.state().local[0].vector_clock.get(client.as_str());
    assert!(c1 <= c2);
    assert!(c2 <= c3);
    assert!(c1 >= 1);
}

#[test]
fn reopen_with_bumped_native_version_keeps_local() {
    // Scenario: the application was upgraded; its native schema version
    // moved while the stored local schema stays behind.
    let mut store = open_fresh();
    store.create(&titled_with_id(GUID_A, "kept across reopen"), 1).unwrap();
    let state = store.into_state();
    let store = RemergeDb::open(state, &schema_v2()).unwrap();
    let v1 = SchemaVersion { major: 1, minor: 0, patch: 0 };
    let v2 = SchemaVersion { major: 2, minor: 0, patch: 0 };
    assert_eq!(
        store.state().meta.try_get(MetaKey::NativeSchemaVersion),
        Some(MetaValue::Version(v2))
    );
    assert_eq!(
        store.state().meta.try_get(MetaKey::LocalSchemaVersion),
        Some(MetaValue::Version(v1))
    );
    assert_eq!(store.bundle().local.version, v1);
    assert_eq!(store.bundle().native.version, v2);
    let kept = store.get_by_id(GUID_A).unwrap().unwrap();
    assert_eq!(kept.get("title"), Some(&Value::Text("kept across reopen".to_string())));
}

#[test]
fn reopen_with_wrong_collection_name_fails() {
    let store = open_fresh();
    let state = store.into_state();
    let mut other = schema_v1();
    other.name = "passwords".to_string();
    let err = RemergeDb::open(state, &other).unwrap_err();
    assert!(matches!(err, ErrorKind::SchemaNameMatchError(_, _)));
}

#[test]
fn reopen_clears_sync_lockout_marker() {
    let mut store = open_fresh();
    store.db.meta.put(
        MetaKey::SyncNativeVersionThreshold,
        MetaValue::Text(">=9.0.0".to_string()),
    );
    let state = store.into_state();
    let store = RemergeDb::open(state, &schema_v1()).unwrap();
    assert_eq!(store.state().meta.try_get(MetaKey::SyncNativeVersionThreshold), None);
}

#[test]
fn upgrade_local_replaces_schema_and_version() {
    let mut store = open_fresh();
    store.upgrade_local(schema_v2()).unwrap();
    let v2 = SchemaVersion { major: 2, minor: 0, patch: 0 };
    assert_eq!(
        store.state().meta.try_get(MetaKey::LocalSchemaVersion),
        Some(MetaValue::Version(v2))
    );
    assert_eq!(store.bundle().local.version, v2);
    assert_eq!(store.state().schemas.len(), 2);
}

#[test]
fn upgrade_adding_dedupe_fields_is_refused() {
    let mut store = open_fresh();
    let mut with_dedupe = schema_v2();
    with_dedupe.dedupe_on = vec!["title".to_string()];
    let err = store.upgrade_local(with_dedupe).unwrap_err();
    assert!(matches!(err, ErrorKind::NotYetImplemented(_)));
    // The stored schema and version are unchanged.
    let v1 = SchemaVersion { major: 1, minor: 0, patch: 0 };
    assert_eq!(
        store.state().meta.try_get(MetaKey::LocalSchemaVersion),
        Some(MetaValue::Version(v1))
    );
    assert_eq!(store.bundle().local.version, v1);
    assert_eq!(store.state().schemas.len(), 1);
}

#[test]
fn upgrade_dropping_dedupe_fields_succeeds() {
    // Start from a local schema that dedupes on title; dropping the set is
    // a safe transition.
    let mut first = schema_v1();
    first.dedupe_on = vec!["title".to_string()];
    let mut store = RemergeDb::open(DbState::new(), &first).unwrap();
    let dropped = schema_v2();
    assert_eq!(dropped.dedupe_on.len(), 0);
    store.upgrade_local(dropped).unwrap();
    let v2 = SchemaVersion { major: 2, minor: 0, patch: 0 };
    assert_eq!(store.bundle().local.version, v2);
}

#[test]
fn upgrade_remote_classification() {
    let mut store = open_fresh();
    // A fresh server needs nothing.
    let fresh = UpgradeRemote { fresh_server: true, from: None };
    store.upgrade_remote(&fresh).unwrap();
    // No prior schema known: nothing to do.
    let unknown = UpgradeRemote { fresh_server: false, from: None };
    store.upgrade_remote(&unknown).unwrap();
    // Transition keeping the (empty) dedupe set: fine.
    let same = UpgradeRemote { fresh_server: false, from: Some(schema_v2()) };
    store.upgrade_remote(&same).unwrap();
    // The local target adds a dedupe field over the remote source: refused.
    let mut with_dedupe = schema_v1();
    with_dedupe.dedupe_on = vec!["title".to_string()];
    let mut store2 = RemergeDb::open(DbState::new(), &with_dedupe).unwrap();
    let from_plain = UpgradeRemote { fresh_server: false, from: Some(schema_v1()) };
    let err = store2.upgrade_remote(&from_plain).unwrap_err();
    assert!(matches!(err, ErrorKind::NotYetImplemented(_)));
}

#[test]
fn upgrade_kind_between_cases() {
    let plain = schema_v1();
    let same = schema_v1();
    assert_eq!(UpgradeKind::between(&plain, &same), UpgradeKind::NoOp);
    assert_eq!(UpgradeKind::between(&plain, &schema_v2()), UpgradeKind::Compatible);
    let mut with_dedupe = schema_v2();
    with_dedupe.dedupe_on = vec!["title".to_string()];
    assert_eq!(
        UpgradeKind::between(&plain, &with_dedupe),
        UpgradeKind::RequiresDedupe
    );
    // Dropping the dedupe set is compatible.
    let mut source = schema_v1();
    source.dedupe_on = vec!["title".to_string()];
    assert_eq!(UpgradeKind::between(&source, &schema_v2()), UpgradeKind::Compatible);
}

#[test]
fn mirror_records_are_visible_and_editable() {
    // A record the sync collaborator stored in the mirror is visible, and
    // a first local edit clones it into the overlay.
    let mut store = open_fresh();
    let payload = remerge::records::LocalRecord {
        fields: vec![
            ("id".to_string(), Value::Text(GUID_A.to_string())),
            ("title".to_string(), Value::Text("from the server".to_string())),
        ],
    };
    let clock = remerge::vclock::VClock { entries: vec![("peer".to_string(), 7)] };
    store
        .apply_remote_record(GUID_A.to_string(), payload, clock, "peer".to_string())
        .unwrap();
    assert!(store.record_exists(GUID_A).unwrap());
    let got = store.get_by_id(GUID_A).unwrap().unwrap();
    assert_eq!(got.get("title"), Some(&Value::Text("from the server".to_string())));
    assert_eq!(store.state().local.len(), 0);
    // First local edit: the overlay row appears and the mirror is
    // overridden.
    store.update_record(&titled_with_id(GUID_A, "edited locally"), 5).unwrap();
    assert_eq!(store.state().local.len(), 1);
    assert!(store.state().mirror[0].is_overridden);
    let got = store.get_by_id(GUID_A).unwrap().unwrap();
    assert_eq!(got.get("title"), Some(&Value::Text("edited locally".to_string())));
    // The edited row keeps the peer's clock component and adds ours.
    let client = store.client_id();
    let row = &store.state().local[0];
    assert_eq!(row.vector_clock.get("peer"), 7);
    assert!(row.vector_clock.get(client.as_str()) >= 1);
}

#[test]
fn deleting_a_mirror_only_record_leaves_a_tombstone() {
    let mut store = open_fresh();
    let payload = remerge::records::LocalRecord {
        fields: vec![("title".to_string(), Value::Text("server side".to_string()))],
    };
    let clock = remerge::vclock::VClock { entries: vec![("peer".to_string(), 3)] };
    store
        .apply_remote_record(GUID_A.to_string(), payload, clock, "peer".to_string())
        .unwrap();
    assert!(store.delete_by_id(GUID_A, 9).unwrap());
    assert!(!store.record_exists(GUID_A).unwrap());
    assert_eq!(store.state().local.len(), 1);
    assert!(store.state().local[0].is_deleted);
    assert!(store.state().mirror[0].is_overridden);
}

#[test]
fn get_all_lists_overlay_and_mirror_records() {
    let mut store = open_fresh();
    store.create(&titled_with_id(GUID_A, "local one"), 1).unwrap();
    let payload = remerge::records::LocalRecord {
        fields: vec![("title".to_string(), Value::Text("mirror one".to_string()))],
    };
    let clock = remerge::vclock::VClock { entries: Vec::new() };
    store
        .apply_remote_record(GUID_B.to_string(), payload, clock, "peer".to_string())
        .unwrap();
    let all = store.get_all().unwrap();
    assert_eq!(all.len(), 2);
    assert_eq!(all[0].get("title"), Some(&Value::Text("local one".to_string())));
    assert_eq!(all[1].get("title"), Some(&Value::Text("mirror one".to_string())));
}
