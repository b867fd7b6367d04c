//! Schemas and the schema bundle.
//!
//! The engine reads only a schema's metadata: name, version, required
//! version, legacy flag, source text, the declared own-guid field and the
//! dedupe-key fields. The bundle pairs the native schema (the shape the
//! caller speaks) with the local schema (the shape that is persisted) and
//! converts records between the two shapes; in this engine the shapes agree
//! field for field, and conversion pins the own-guid field.

use vstd::prelude::*;
use crate::error::{ErrorKind, InvalidRecord};
use crate::guid::{is_valid_guid, random_guid, valid_guid};
use crate::records::{
    fields_get, fields_set, vec_fields_set, copy_fields, FieldsV, LocalRecord,
    NativeRecord, Value, ValueV,
};

verus! {

/// A schema version: major, minor and patch numbers.
#[derive(Debug, Clone, Copy, PartialEq, Eq, Structural)]
pub struct SchemaVersion {
    pub major: u64,
    pub minor: u64,
    pub patch: u64,
}

/// Spec-level form of a record schema.
pub struct RecordSchemaV {
    pub name: Seq<char>,
    pub version: SchemaVersion,
    pub required_version: Seq<char>,
    pub legacy: bool,
    pub source: Seq<char>,
    pub own_guid_field: Seq<char>,
    pub dedupe_on: Seq<Seq<char>>,
}

/// What the engine reads of a record schema.
#[derive(Debug, Clone)]
pub struct RecordSchema {
    /// The collection name the schema declares.
    pub name: String,
    /// The schema's version.
    pub version: SchemaVersion,
    /// The version requirement peers must satisfy, as requirement text.
    pub required_version: String,
    /// Whether the schema is a legacy schema.
    pub legacy: bool,
    /// The schema's source text.
    pub source: String,
    /// The field that holds a record's own guid.
    pub own_guid_field: String,
    /// The fields whose values identify a record for deduplication.
    pub dedupe_on: Vec<String>,
}

impl View for RecordSchema {
    type V = RecordSchemaV;

    open spec fn view(&self) -> RecordSchemaV {
        RecordSchemaV {
            name: self.name@,
            version: self.version,
            required_version: self.required_version@,
            legacy: self.legacy,
            source: self.source@,
            own_guid_field: self.own_guid_field@,
            dedupe_on: self.dedupe_on@.map_values(|s: String| s@),
        }
    }
}

/// Copy a vector of strings, element by element.
fn copy_strings(v: &Vec<String>) -> (r: Vec<String>)
    ensures
        r@ == v@,
{
    let mut r: Vec<String> = Vec::new();
    let n = v.len();
    let mut i: usize = 0;
    while i < n
        invariant
            n == v.len(),
            0 <= i <= n,
            r@ == v@.take(i as int),
        decreases n - i,
    {
        r.push(v[i].clone());
        proof {
            assert(r@ =~= v@.take(i as int + 1));
        }
        i += 1;
    }
    proof {
        assert(v@.take(n as int) =~= v@);
    }
    r
}

impl RecordSchema {
    /// An equal copy of the schema.
    pub fn duplicate(&self) -> (r: RecordSchema)
        ensures
            r@ == self@,
    {
        RecordSchema {
            name: self.name.clone(),
            version: self.version,
            required_version: self.required_version.clone(),
            legacy: self.legacy,
            source: self.source.clone(),
            own_guid_field: self.own_guid_field.clone(),
            dedupe_on: copy_strings(&self.dedupe_on),
        }
    }
}

/// Why a native record is converted to local form.
pub enum ToLocalReason {
    /// The record is being created; a missing own guid is defaulted to a
    /// fresh one.
    Creation,
    /// The record replaces an existing one; `prev` is the stored local
    /// record it replaces, for fields whose update semantics depend on the
    /// prior value (none in this engine's shapes).
    Update { prev: LocalRecord },
}

/// The guid the caller chose in a record's own-guid field: the field's text
/// when it is a valid guid. `None` stands for an absent or null field, where
/// creation mints a fresh guid.
pub open spec fn given_guid(fs: FieldsV, field: Seq<char>) -> Option<Seq<char>> {
    match fields_get(fs, field) {
        Option::Some(ValueV::Text(s)) => Option::Some(s),
        _ => Option::None,
    }
}

/// Whether a record can be converted for creation: its own-guid field is
/// absent, null, or text holding a valid guid.
pub open spec fn creation_convertible(fs: FieldsV, field: Seq<char>) -> bool {
    match fields_get(fs, field) {
        Option::None => true,
        Option::Some(ValueV::Null) => true,
        Option::Some(ValueV::Text(s)) => valid_guid(s),
        Option::Some(_) => false,
    }
}

/// Whether a record can be converted for update: its own-guid field holds
/// text that is a valid guid.
pub open spec fn update_convertible(fs: FieldsV, field: Seq<char>) -> bool {
    match fields_get(fs, field) {
        Option::Some(ValueV::Text(s)) => valid_guid(s),
        _ => false,
    }
}

/// The local shape of a native record whose guid was resolved to `g`: the
/// same fields, with the own-guid field set to `g`.
pub open spec fn local_of(fs: FieldsV, field: Seq<char>, g: Seq<char>) -> FieldsV {
    fields_set(fs, field, ValueV::Text(g))
}

/// Law: a record's local shape round-trips the input modulo the own-guid
/// default. The stored shape holds the resolved guid in the own-guid field
/// and agrees with the input record on every other field.
pub proof fn lemma_local_of_round_trip(fs: FieldsV, field: Seq<char>, g: Seq<char>, n: Seq<char>)
    ensures
        fields_get(local_of(fs, field, g), field) == Some(ValueV::Text(g)),
        n != field ==> fields_get(local_of(fs, field, g), n) == fields_get(fs, n),
{
    crate::records::lemma_fields_get_set(fs, field, ValueV::Text(g), field);
    crate::records::lemma_fields_get_set(fs, field, ValueV::Text(g), n);
}

/// The native and local schemas of one collection, with record conversion
/// between their shapes.
#[derive(Debug, Clone)]
pub struct SchemaBundle {
    /// The collection's name.
    pub collection_name: String,
    /// The schema in the shape the calling application speaks.
    pub native: RecordSchema,
    /// The schema of the persisted shape; may differ from `native` in
    /// version while a schema upgrade is pending.
    pub local: RecordSchema,
}

impl SchemaBundle {
    /// The native schema.
    pub fn native_schema(&self) -> (r: &RecordSchema)
        ensures
            r == &self.native,
    {
        &self.native
    }

    /// The local schema.
    pub fn local_schema(&self) -> (r: &RecordSchema)
        ensures
            r == &self.local,
    {
        &self.local
    }

    /// Convert a native record to its local shape, resolving its guid.
    ///
    /// For creation, an absent or null own-guid field is defaulted to a
    /// fresh random guid; for update, the own-guid field must name an
    /// existing valid guid. In either shape, the returned local record is
    /// the native record with its own-guid field pinned to the resolved
    /// guid.
    pub fn native_to_local(&self, record: &NativeRecord, reason: ToLocalReason) -> (r: Result<
        (String, LocalRecord),
        ErrorKind,
    >)
        ensures
            ({
                let fs = record@;
                let field = self.native@.own_guid_field;
                match r {
                    Ok((g, local)) => {
                        &&& valid_guid(g@)
                        &&& local@ == local_of(fs, field, g@)
                        &&& (given_guid(fs, field) matches Some(s) ==> g@ == s)
                        &&& (reason matches ToLocalReason::Creation ==> creation_convertible(
                            fs,
                            field,
                        ))
                        &&& (reason matches ToLocalReason::Update { .. } ==> update_convertible(
                            fs,
                            field,
                        ))
                    },
                    Err(e) => {
                        &&& (reason matches ToLocalReason::Creation ==> !creation_convertible(
                            fs,
                            field,
                        ))
                        &&& (reason matches ToLocalReason::Update { .. } ==> !update_convertible(
                            fs,
                            field,
                        ))
                        &&& (fields_get(fs, field) is None ==> (e matches ErrorKind::InvalidRecord(
                            InvalidRecord::MissingRequiredField(n),
                        ) && n@ == field))
                        &&& (match fields_get(fs, field) {
                            Some(ValueV::Text(s)) => !valid_guid(s) ==> (e
                                matches ErrorKind::InvalidRecord(InvalidRecord::InvalidGuid(t))
                                && t@ == s),
                            _ => true,
                        })
                        &&& e matches ErrorKind::InvalidRecord(_)
                    },
                }
            }),
    {
        let field = self.native.own_guid_field.as_str();
        let creation = match &reason {
            ToLocalReason::Creation => true,
            ToLocalReason::Update { .. } => false,
        };
        let guid: String = match record.get(field) {
            None => {
                if creation {
                    random_guid()
                } else {
                    return Err(
                        ErrorKind::InvalidRecord(
                            InvalidRecord::MissingRequiredField(self.native.own_guid_field.clone()),
                        ),
                    );
                }
            },
            Some(v) => {
                match v {
                    Value::Null => {
                        if creation {
                            random_guid()
                        } else {
                            return Err(
                                ErrorKind::InvalidRecord(
                                    InvalidRecord::InvalidGuid(
                                        self.native.own_guid_field.clone(),
                                    ),
                                ),
                            );
                        }
                    },
                    Value::Text(s) => {
                        if is_valid_guid(s.as_str()) {
                            s.clone()
                        } else {
                            return Err(
                                ErrorKind::InvalidRecord(InvalidRecord::InvalidGuid(s.clone())),
                            );
                        }
                    },
                    _ => {
                        return Err(
                            ErrorKind::InvalidRecord(
                                InvalidRecord::WrongFieldType(
                                    self.native.own_guid_field.clone(),
                                    "own_guid".to_owned(),
                                ),
                            ),
                        );
                    },
                }
            },
        };
        let fields = vec_fields_set(&record.fields, field, Value::Text(guid.clone()));
        Ok((guid, LocalRecord { fields }))
    }

    /// Resolve the guid a record names in its own-guid field, as an update
    /// must: the field has to hold text that is a valid guid.
    pub fn own_guid_of(&self, record: &NativeRecord) -> (r: Result<String, ErrorKind>)
        ensures
            ({
                let fs = record@;
                let field = self.native@.own_guid_field;
                match r {
                    Ok(g) => {
                        &&& update_convertible(fs, field)
                        &&& given_guid(fs, field) == Some(g@)
                        &&& valid_guid(g@)
                    },
                    Err(e) => {
                        &&& !update_convertible(fs, field)
                        &&& (fields_get(fs, field) is None ==> (e
                            matches ErrorKind::InvalidRecord(InvalidRecord::MissingRequiredField(n))
                            && n@ == field))
                        &&& (match fields_get(fs, field) {
                            Some(ValueV::Text(s)) => !valid_guid(s) ==> (e
                                matches ErrorKind::InvalidRecord(InvalidRecord::InvalidGuid(t))
                                && t@ == s),
                            _ => true,
                        })
                        &&& e matches ErrorKind::InvalidRecord(_)
                    },
                }
            }),
    {
        let field = self.native.own_guid_field.as_str();
        match record.get(field) {
            None => Err(
                ErrorKind::InvalidRecord(
                    InvalidRecord::MissingRequiredField(self.native.own_guid_field.clone()),
                ),
            ),
            Some(v) => match v {
                Value::Text(s) => {
                    if is_valid_guid(s.as_str()) {
                        Ok(s.clone())
                    } else {
                        Err(ErrorKind::InvalidRecord(InvalidRecord::InvalidGuid(s.clone())))
                    }
                },
                Value::Null => Err(
                    ErrorKind::InvalidRecord(
                        InvalidRecord::InvalidGuid(self.native.own_guid_field.clone()),
                    ),
                ),
                _ => Err(
                    ErrorKind::InvalidRecord(
                        InvalidRecord::WrongFieldType(
                            self.native.own_guid_field.clone(),
                            "own_guid".to_owned(),
                        ),
                    ),
                ),
            },
        }
    }

    /// Convert a stored local record back to native shape; the shapes agree
    /// field for field.
    pub fn local_to_native(&self, record: &LocalRecord) -> (r: Result<NativeRecord, ErrorKind>)
        ensures
            r matches Ok(n) && n@ == record@,
    {
        Ok(NativeRecord { fields: copy_fields(&record.fields) })
    }
}

} // verus!
