use remerge::db::{DbState, RemergeDb};
use remerge::error::ErrorKind;
use remerge::guid::is_valid_guid;
use remerge::meta::{MetaKey, MetaStore, MetaValue};
use remerge::records::{NativeRecord, Value};
use remerge::schema::{RecordSchema, SchemaVersion, ToLocalReason};
use remerge::sync_status::SyncStatus;
use remerge::vclock::VClock;

fn schema() -> RecordSchema {
    RecordSchema {
        name: "notes".to_string(),
        version: SchemaVersion { major: 1, minor: 2, patch: 3 },
        required_version: "^1".to_string(),
        legacy: false,
        source: "notes schema".to_string(),
        own_guid_field: "id".to_string(),
        dedupe_on: Vec::new(),
    }
}

#[test]
fn guid_validity() {
    assert!(is_valid_guid("AAAAAAAAAAAA"));
    assert!(is_valid_guid("aZ09-_aZ09-_"));
    assert!(!is_valid_guid(""));
    assert!(!is_valid_guid("short"));
    assert!(!is_valid_guid("thirteen chars"));
    assert!(!is_valid_guid("AAAAAAAAAAA!"));
    assert!(!is_valid_guid("AAAAAAAAAAAAA"));
}

#[test]
fn random_guids_are_valid_and_fresh() {
    let a = remerge::guid::random_guid();
    let b = remerge::guid::random_guid();
    assert!(is_valid_guid(a.as_str()));
    assert!(is_valid_guid(b.as_str()));
    assert_eq!(a.len(), 12);
    // Two draws of seventy-two random bits virtually never collide; a
    // constant generator would fail here.
    assert_ne!(a, b);
}

#[test]
fn guid_encoding_is_base64url() {
    let s = remerge::guid::encode_guid(&[0, 0, 0, 0, 0, 0, 0, 0, 0]);
    assert_eq!(s, "AAAAAAAAAAAA");
    let s = remerge::guid::encode_guid(&[255, 255, 255, 255, 255, 255, 255, 255, 255]);
    assert_eq!(s, "____________");
    // 0x00 0x10 0x83 encodes the sextets 0, 1, 2, 3.
    let s = remerge::guid::encode_guid(&[0x00, 0x10, 0x83, 0x00, 0x10, 0x83, 0x00, 0x10, 0x83]);
    assert_eq!(s, "ABCDABCDABCD");
    let s = remerge::guid::encode_guid(&[0xfb, 0xef, 0xbe, 0xfb, 0xef, 0xbe, 0xfb, 0xef, 0xbe]);
    assert_eq!(s, "------------");
}

#[test]
fn sync_status_order_and_codec() {
    assert_eq!(SyncStatus::from_u8(0).unwrap(), SyncStatus::Synced);
    assert_eq!(SyncStatus::from_u8(1).unwrap(), SyncStatus::New);
    assert_eq!(SyncStatus::from_u8(2).unwrap(), SyncStatus::Changed);
    assert!(matches!(
        SyncStatus::from_u8(3).unwrap_err(),
        ErrorKind::BadSyncStatus(3)
    ));
    assert_eq!(SyncStatus::Synced.as_u8(), 0);
    assert_eq!(SyncStatus::New.as_u8(), 1);
    assert_eq!(SyncStatus::Changed.as_u8(), 2);
    // Promote, never demote.
    assert_eq!(SyncStatus::Synced.promote(SyncStatus::Changed), SyncStatus::Changed);
    assert_eq!(SyncStatus::New.promote(SyncStatus::Changed), SyncStatus::Changed);
    assert_eq!(SyncStatus::Changed.promote(SyncStatus::Synced), SyncStatus::Changed);
    assert_eq!(SyncStatus::New.promote(SyncStatus::Synced), SyncStatus::New);
}

#[test]
fn vclock_new_apply_get() {
    let vc = VClock::new("alpha".to_string(), 4);
    assert_eq!(vc.get("alpha"), 4);
    assert_eq!(vc.get("beta"), 0);
    let vc2 = vc.apply("beta".to_string(), 9);
    assert_eq!(vc2.get("alpha"), 4);
    assert_eq!(vc2.get("beta"), 9);
    let vc3 = vc2.apply("alpha".to_string(), 11);
    assert_eq!(vc3.get("alpha"), 11);
    assert_eq!(vc3.get("beta"), 9);
}

#[test]
fn meta_store_put_get_delete() {
    let mut m = MetaStore::new();
    assert_eq!(m.try_get(MetaKey::CollectionName), None);
    m.put(MetaKey::CollectionName, MetaValue::Text("notes".to_string()));
    m.put(MetaKey::ChangeCounter, MetaValue::Uint(5));
    assert_eq!(
        m.try_get(MetaKey::CollectionName),
        Some(MetaValue::Text("notes".to_string()))
    );
    assert_eq!(m.try_get(MetaKey::ChangeCounter), Some(MetaValue::Uint(5)));
    m.put(MetaKey::ChangeCounter, MetaValue::Uint(6));
    assert_eq!(m.try_get(MetaKey::ChangeCounter), Some(MetaValue::Uint(6)));
    m.delete(MetaKey::ChangeCounter);
    assert_eq!(m.try_get(MetaKey::ChangeCounter), None);
    assert_eq!(
        m.try_get(MetaKey::CollectionName),
        Some(MetaValue::Text("notes".to_string()))
    );
    assert!(matches!(m.get(MetaKey::ChangeCounter), Err(ErrorKind::InvariantViolation(_))));
}

#[test]
fn conversion_pins_the_guid_field() {
    let bundle = remerge::schema::SchemaBundle {
        collection_name: "notes".to_string(),
        native: schema(),
        local: schema(),
    };
    let rec = NativeRecord {
        fields: vec![("title".to_string(), Value::Text("t".to_string()))],
    };
    let (guid, local) = bundle.native_to_local(&rec, ToLocalReason::Creation).unwrap();
    assert!(is_valid_guid(guid.as_str()));
    let mut saw_id = false;
    for (name, value) in &local.fields {
        if name == "id" {
            saw_id = true;
            assert_eq!(value, &Value::Text(guid.clone()));
        }
    }
    assert!(saw_id);
    let back = bundle.local_to_native(&local).unwrap();
    assert_eq!(back.get("title"), Some(&Value::Text("t".to_string())));
    assert_eq!(back.get("id"), Some(&Value::Text(guid)));
}

#[test]
fn lockout_respects_stored_requirement() {
    let mut store = RemergeDb::open(DbState::new(), &schema()).unwrap();
    // No threshold stored: no lockout.
    assert!(!store.in_sync_lockout().unwrap());
    // The native version 1.2.3 fails a >=2 requirement: locked out.
    store.db.meta.put(
        MetaKey::SyncNativeVersionThreshold,
        MetaValue::Text(">=2.0.0".to_string()),
    );
    assert!(store.in_sync_lockout().unwrap());
    // The native version satisfies ^1: not locked out.
    store.db.meta.put(
        MetaKey::SyncNativeVersionThreshold,
        MetaValue::Text("^1".to_string()),
    );
    assert!(!store.in_sync_lockout().unwrap());
}

#[test]
fn lockout_discards_an_illegal_requirement() {
    let mut store = RemergeDb::open(DbState::new(), &schema()).unwrap();
    store.db.meta.put(
        MetaKey::SyncNativeVersionThreshold,
        MetaValue::Text("not a requirement //".to_string()),
    );
    assert!(!store.in_sync_lockout().unwrap());
    // The illegal marker was discarded.
    assert_eq!(store.state().meta.try_get(MetaKey::SyncNativeVersionThreshold), None);
}

#[test]
fn lockout_discards_a_mistyped_marker() {
    let mut store = RemergeDb::open(DbState::new(), &schema()).unwrap();
    store.db.meta.put(MetaKey::SyncNativeVersionThreshold, MetaValue::Uint(2));
    assert!(!store.in_sync_lockout().unwrap());
    assert_eq!(store.state().meta.try_get(MetaKey::SyncNativeVersionThreshold), None);
}

#[test]
fn open_rejects_corrupt_metadata() {
    // A collection name of the wrong type is corruption.
    let mut state = DbState::new();
    state.meta.put(MetaKey::CollectionName, MetaValue::Uint(9));
    let err = RemergeDb::open(state, &schema()).unwrap_err();
    assert!(matches!(err, ErrorKind::InvariantViolation(_)));
    // A named collection whose stored local schema row is missing is
    // corruption too.
    let mut state = DbState::new();
    state.meta.put(MetaKey::CollectionName, MetaValue::Text("notes".to_string()));
    state.meta.put(
        MetaKey::LocalSchemaVersion,
        MetaValue::Version(SchemaVersion { major: 1, minor: 2, patch: 3 }),
    );
    state.meta.put(
        MetaKey::NativeSchemaVersion,
        MetaValue::Version(SchemaVersion { major: 1, minor: 2, patch: 3 }),
    );
    state.meta.put(MetaKey::OwnClientId, MetaValue::Text("AAAAAAAAAAAA".to_string()));
    state.meta.put(MetaKey::ChangeCounter, MetaValue::Uint(1));
    let err = RemergeDb::open(state, &schema()).unwrap_err();
    assert!(matches!(err, ErrorKind::InvariantViolation(_)));
}

#[test]
fn client_id_survives_reopen() {
    let store = RemergeDb::open(DbState::new(), &schema()).unwrap();
    let client = store.client_id();
    let state = store.into_state();
    let store = RemergeDb::open(state, &schema()).unwrap();
    assert_eq!(store.client_id(), client);
}
