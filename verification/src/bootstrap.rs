//! First-run and reload bootstrap of schema and metadata state.
//!
//! On a fresh database, bootstrap mints a client id, stores the native
//! schema as the sole schema record, and writes the initial metadata. On an
//! existing database, it checks the stored collection name against the
//! native schema's name, loads the stored client id and local schema,
//! clears any pending sync lockout, and records the native schema version
//! the application now runs.

use vstd::prelude::*;
use crate::db::{find_schema, lemma_find_schema_push, schema_idx, DbState, SchemaRow};
use crate::error::ErrorKind;
use crate::guid::{random_guid, valid_guid};
use crate::meta::{MetaKey, MetaStore, MetaValue, MetaValueV};
use crate::schema::{RecordSchema, RecordSchemaV, SchemaBundle, SchemaVersion};
use crate::text::str_eq;

verus! {

/// How a first run leaves the state: the native schema stored as the sole
/// new schema record, the metadata keys at their initial values, and the
/// record tables untouched.
pub open spec fn bootstrap_post(
    pre: DbState,
    post: DbState,
    native: RecordSchemaV,
    client: Seq<char>,
) -> bool {
    &&& post.meta.spec_get(MetaKey::CollectionName) == Some(MetaValueV::Text(native.name))
    &&& post.meta.spec_get(MetaKey::LocalSchemaVersion) == Some(
        MetaValueV::Version(native.version),
    )
    &&& post.meta.spec_get(MetaKey::NativeSchemaVersion) == Some(
        MetaValueV::Version(native.version),
    )
    &&& post.meta.spec_get(MetaKey::OwnClientId) == Some(MetaValueV::Text(client))
    &&& post.change_counter() == Some(1u64)
    &&& post.meta.spec_get(MetaKey::SyncNativeVersionThreshold) == pre.meta.spec_get(
        MetaKey::SyncNativeVersionThreshold,
    )
    &&& (post.schema_row(native.version) matches Some(row) && row.schema@ == native)
    &&& (forall|v: SchemaVersion| v != native.version ==> post.schema_row(v) == pre.schema_row(v))
    &&& post.schemas@.len() == pre.schemas@.len() + 1
    &&& post.local == pre.local
    &&& post.mirror == pre.mirror
}

/// How a reload leaves the state: any pending sync lockout cleared, the
/// stored native schema version moved to the version now running, and
/// everything else untouched.
pub open spec fn reload_post(pre: DbState, post: DbState, native: RecordSchemaV) -> bool {
    &&& post.meta.spec_get(MetaKey::SyncNativeVersionThreshold) is None
    &&& post.meta.spec_get(MetaKey::NativeSchemaVersion) == Some(
        MetaValueV::Version(native.version),
    )
    &&& (forall|k: MetaKey|
        k != MetaKey::SyncNativeVersionThreshold && k != MetaKey::NativeSchemaVersion
            ==> post.meta.spec_get(k) == pre.meta.spec_get(k))
    &&& post.schemas == pre.schemas
    &&& post.local == pre.local
    &&& post.mirror == pre.mirror
}

/// The stored metadata an existing database must carry to be reloaded: a
/// well-typed local and native schema version, a client id, and a change
/// counter.
pub open spec fn reload_meta_ok(db: DbState) -> bool {
    &&& db.meta.spec_get(MetaKey::LocalSchemaVersion) matches Some(MetaValueV::Version(_))
    &&& db.meta.spec_get(MetaKey::NativeSchemaVersion) matches Some(MetaValueV::Version(_))
    &&& db.meta.spec_get(MetaKey::OwnClientId) matches Some(MetaValueV::Text(_))
    &&& db.change_counter() is Some
}

/// First-run initialization: mint a fresh client id, store the native
/// schema as the sole schema record, and write the initial metadata.
///
/// A schema record already stored under the native schema's version on a
/// database with no collection name is reported as corruption.
pub fn bootstrap(db: &mut DbState, native: &RecordSchema) -> (r: Result<
    (SchemaBundle, String),
    ErrorKind,
>)
    requires
        old(db).wf(),
    ensures
        final (db).wf(),
        match r {
            Ok((bundle, client)) => {
                &&& old(db).schema_row(native@.version) is None
                &&& valid_guid(client@)
                &&& bundle.collection_name@ == native@.name
                &&& bundle.native@ == native@
                &&& bundle.local@ == native@
                &&& bootstrap_post(*old(db), *final (db), native@, client@)
            },
            Err(e) => {
                &&& *final (db) == *old(db)
                &&& old(db).schema_row(native@.version) is Some
                &&& e matches ErrorKind::InvariantViolation(_)
            },
        },
{
    if let Some(_) = schema_idx(&db.schemas, &native.version) {
        return Err(ErrorKind::InvariantViolation("schema version already stored".to_owned()));
    }
    let ghost pre = *db;
    let client = random_guid();
    let row = SchemaRow {
        is_legacy: native.legacy,
        version: native.version,
        required_version: native.required_version.clone(),
        schema_text: native.source.clone(),
        schema: native.duplicate(),
    };
    db.schemas.push(row);
    proof {
        assert forall|v: SchemaVersion|
            find_schema(db.schemas@, v) == if v == native@.version {
                Some(db.schemas@.last())
            } else {
                find_schema(pre.schemas@, v)
            } by {
            lemma_find_schema_push(pre.schemas@, db.schemas@.last(), v);
        }
    }
    db.meta.put(MetaKey::OwnClientId, MetaValue::Text(client.clone()));
    db.meta.put(MetaKey::LocalSchemaVersion, MetaValue::Version(native.version));
    db.meta.put(MetaKey::NativeSchemaVersion, MetaValue::Version(native.version));
    db.meta.put(MetaKey::CollectionName, MetaValue::Text(native.name.clone()));
    db.meta.put(MetaKey::ChangeCounter, MetaValue::Uint(1));
    let bundle = SchemaBundle {
        collection_name: native.name.clone(),
        native: native.duplicate(),
        local: native.duplicate(),
    };
    Ok((bundle, client))
}

/// Load an existing collection's schema and client id, or bootstrap a fresh
/// one.
///
/// A stored collection name that differs from the native schema's name, a
/// missing or mistyped metadata entry, and a missing schema record for the
/// stored local version all fail the open and leave the state unchanged.
pub fn load_or_bootstrap(db: &mut DbState, native: &RecordSchema) -> (r: Result<
    (SchemaBundle, String),
    ErrorKind,
>)
    requires
        old(db).wf(),
    ensures
        final (db).wf(),
        match old(db).meta.spec_get(MetaKey::CollectionName) {
            None => match r {
                Ok((bundle, client)) => {
                    &&& old(db).schema_row(native@.version) is None
                    &&& valid_guid(client@)
                    &&& bundle.collection_name@ == native@.name
                    &&& bundle.native@ == native@
                    &&& bundle.local@ == native@
                    &&& bootstrap_post(*old(db), *final (db), native@, client@)
                },
                Err(e) => {
                    &&& *final (db) == *old(db)
                    &&& old(db).schema_row(native@.version) is Some
                    &&& e matches ErrorKind::InvariantViolation(_)
                },
            },
            Some(MetaValueV::Text(name)) => {
                if name != native@.name {
                    r matches Err(ErrorKind::SchemaNameMatchError(a, b)) && a@ == native@.name
                        && b@ == name && *final (db) == *old(db)
                } else if !reload_meta_ok(*old(db)) {
                    (r matches Err(ErrorKind::InvariantViolation(_))) && *final (db) == *old(db)
                } else {
                    match old(db).meta.spec_get(MetaKey::LocalSchemaVersion) {
                        Some(MetaValueV::Version(lv)) => match old(db).schema_row(lv) {
                            None => (r matches Err(ErrorKind::InvariantViolation(_))) && *final (db)
                                == *old(db),
                            Some(row) => {
                                &&& r matches Ok((bundle, client))
                                &&& (r matches Ok((bundle, client)) ==> {
                                    &&& bundle.collection_name@ == native@.name
                                    &&& bundle.native@ == native@
                                    &&& bundle.local@ == row.schema@
                                    &&& bundle.local@.version == lv
                                    &&& old(db).meta.spec_get(MetaKey::OwnClientId) == Some(
                                        MetaValueV::Text(client@),
                                    )
                                    &&& reload_post(*old(db), *final (db), native@)
                                })
                            },
                        },
                        _ => false,
                    }
                }
            },
            Some(_) => (r matches Err(ErrorKind::InvariantViolation(_))) && *final (db) == *old(
                db,
            ),
        },
{
    let name: String = match db.meta.try_get(MetaKey::CollectionName) {
        None => {
            return bootstrap(db, native);
        },
        Some(MetaValue::Text(name)) => name,
        Some(_) => {
            return Err(ErrorKind::InvariantViolation("collection name mistyped".to_owned()));
        },
    };
    if !str_eq(name.as_str(), native.name.as_str()) {
        return Err(ErrorKind::SchemaNameMatchError(native.name.clone(), name));
    }
    let local_ver: SchemaVersion = match db.meta.try_get(MetaKey::LocalSchemaVersion) {
        Some(MetaValue::Version(v)) => v,
        _ => {
            return Err(ErrorKind::InvariantViolation("local schema version missing".to_owned()));
        },
    };
    let native_ver: SchemaVersion = match db.meta.try_get(MetaKey::NativeSchemaVersion) {
        Some(MetaValue::Version(v)) => v,
        _ => {
            return Err(ErrorKind::InvariantViolation("native schema version missing".to_owned()));
        },
    };
    let client: String = match db.meta.try_get(MetaKey::OwnClientId) {
        Some(MetaValue::Text(c)) => c,
        _ => {
            return Err(ErrorKind::InvariantViolation("client id missing".to_owned()));
        },
    };
    match db.meta.try_get(MetaKey::ChangeCounter) {
        Some(MetaValue::Uint(_)) => {},
        _ => {
            return Err(ErrorKind::InvariantViolation("change counter missing".to_owned()));
        },
    };
    let local_schema: RecordSchema = match schema_idx(&db.schemas, &local_ver) {
        Some(i) => db.schemas[i].schema.duplicate(),
        None => {
            return Err(ErrorKind::InvariantViolation("stored local schema missing".to_owned()));
        },
    };
    // From here on nothing can fail: the reload commits as one step.
    db.meta.delete(MetaKey::SyncNativeVersionThreshold);
    if !(native_ver == native.version) {
        db.meta.put(MetaKey::NativeSchemaVersion, MetaValue::Version(native.version));
    }
    let bundle = SchemaBundle {
        collection_name: native.name.clone(),
        native: native.duplicate(),
        local: local_schema,
    };
    Ok((bundle, client))
}

} // verus!
