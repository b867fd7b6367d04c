//! The record store: overlay and mirror tables, metadata, and CRUD.
//!
//! Each record lives under a guid. The overlay table holds the local
//! working copy of records with unsynced local state; the mirror table
//! holds the last state known to have been synchronized. The live, visible
//! record for a guid is the overlay row when one exists and is not a
//! tombstone, otherwise the mirror row when it is not overridden, otherwise
//! the record does not exist.

use vstd::prelude::*;
use crate::bootstrap::{bootstrap_post, load_or_bootstrap, reload_meta_ok, reload_post};
use crate::error::{ErrorKind, InvalidRecord};
use crate::guid::valid_guid;
use crate::meta::{MetaKey, MetaStore, MetaValue, MetaValueV};
use crate::records::{fields_get, LocalRecord, NativeRecord};
use crate::schema::{
    creation_convertible, given_guid, local_of, update_convertible, RecordSchema, RecordSchemaV,
    SchemaBundle,
    SchemaVersion, ToLocalReason,
};
use crate::sync_status::SyncStatus;
use crate::text::str_eq;
use crate::upgrades::{upgrade_between, UpgradeKind, UpgradeRemote};
use crate::vclock::VClock;
use crate::version_req::{parse_version_req, req_matches, req_parses, version_req_matches};

verus! {

/// An overlay row: the local working copy of one record.
#[derive(Debug, Clone)]
pub struct LocalRow {
    /// The record's guid.
    pub guid: String,
    /// The local schema version the payload was written under.
    pub schema_version: SchemaVersion,
    /// The record payload; empty for a tombstone.
    pub record_data: LocalRecord,
    /// When the row was last modified locally, in milliseconds.
    pub local_modified_ms: u64,
    /// Whether the row is a tombstone.
    pub is_deleted: bool,
    /// Whether the row is synced, new, or changed.
    pub sync_status: SyncStatus,
    /// The row's causality stamp.
    pub vector_clock: VClock,
    /// The client that wrote the row last.
    pub last_writer_id: String,
}

/// A mirror row: the last state known synchronized for one record.
#[derive(Debug, Clone)]
pub struct MirrorRow {
    /// The record's guid.
    pub guid: String,
    /// The last synchronized payload.
    pub record_data: LocalRecord,
    /// The payload's causality stamp.
    pub vector_clock: VClock,
    /// The client that wrote the payload.
    pub last_writer_id: String,
    /// Whether an overlay row overrides this row.
    pub is_overridden: bool,
}

/// A stored schema: one version's source text beside its parsed form.
#[derive(Debug, Clone)]
pub struct SchemaRow {
    /// Whether the schema is a legacy schema.
    pub is_legacy: bool,
    /// The schema's version; at most one row per version.
    pub version: SchemaVersion,
    /// The version requirement peers must satisfy, as requirement text.
    pub required_version: String,
    /// The schema's source text.
    pub schema_text: String,
    /// The parsed form of `schema_text`.
    pub schema: RecordSchema,
}

/// The first overlay row whose guid reads `g`.
pub open spec fn find_local(rows: Seq<LocalRow>, g: Seq<char>) -> Option<LocalRow>
    decreases rows.len(),
{
    if rows.len() == 0 {
        Option::None
    } else if rows[0].guid@ == g {
        Option::Some(rows[0])
    } else {
        find_local(rows.drop_first(), g)
    }
}

/// The first mirror row whose guid reads `g`.
pub open spec fn find_mirror(rows: Seq<MirrorRow>, g: Seq<char>) -> Option<MirrorRow>
    decreases rows.len(),
{
    if rows.len() == 0 {
        Option::None
    } else if rows[0].guid@ == g {
        Option::Some(rows[0])
    } else {
        find_mirror(rows.drop_first(), g)
    }
}

/// The first schema row of version `v`.
pub open spec fn find_schema(rows: Seq<SchemaRow>, v: SchemaVersion) -> Option<SchemaRow>
    decreases rows.len(),
{
    if rows.len() == 0 {
        Option::None
    } else if rows[0].version == v {
        Option::Some(rows[0])
    } else {
        find_schema(rows.drop_first(), v)
    }
}

proof fn lemma_find_local_at(rows: Seq<LocalRow>, i: int)
    requires
        0 <= i < rows.len(),
        forall|j: int| 0 <= j < i ==> rows[j].guid@ != rows[i].guid@,
    ensures
        find_local(rows, rows[i].guid@) == Some(rows[i]),
    decreases i,
{
    if i > 0 {
        lemma_find_local_at(rows.drop_first(), i - 1);
    }
}

proof fn lemma_find_local_absent(rows: Seq<LocalRow>, g: Seq<char>)
    requires
        forall|j: int| 0 <= j < rows.len() ==> rows[j].guid@ != g,
    ensures
        find_local(rows, g) is None,
    decreases rows.len(),
{
    if rows.len() > 0 {
        assert forall|j: int| 0 <= j < rows.drop_first().len() implies rows.drop_first()[j].guid@
            != g by {
            assert(rows.drop_first()[j] == rows[j + 1]);
        }
        lemma_find_local_absent(rows.drop_first(), g);
    }
}

proof fn lemma_find_local_update(rows: Seq<LocalRow>, i: int, row: LocalRow, g2: Seq<char>)
    requires
        0 <= i < rows.len(),
        row.guid@ == rows[i].guid@,
        forall|j: int| 0 <= j < i ==> rows[j].guid@ != rows[i].guid@,
    ensures
        find_local(rows.update(i, row), g2) == if g2 == rows[i].guid@ {
            Some(row)
        } else {
            find_local(rows, g2)
        },
    decreases i,
{
    let rows2 = rows.update(i, row);
    if i == 0 {
        assert(rows2.drop_first() =~= rows.drop_first());
    } else {
        assert(rows2[0] == rows[0]);
        lemma_find_local_update(rows.drop_first(), i - 1, row, g2);
        assert(rows2.drop_first() =~= rows.drop_first().update(i - 1, row));
    }
}

proof fn lemma_find_local_push(rows: Seq<LocalRow>, row: LocalRow, g2: Seq<char>)
    requires
        forall|j: int| 0 <= j < rows.len() ==> rows[j].guid@ != row.guid@,
    ensures
        find_local(rows.push(row), g2) == if g2 == row.guid@ {
            Some(row)
        } else {
            find_local(rows, g2)
        },
    decreases rows.len(),
{
    let rows2 = rows.push(row);
    if rows.len() == 0 {
        assert(rows2[0] == row);
        assert(rows2.drop_first() =~= Seq::<LocalRow>::empty());
        assert(find_local(Seq::<LocalRow>::empty(), g2) is None);
    } else {
        assert(rows2[0] == rows[0]);
        assert forall|j: int| 0 <= j < rows.drop_first().len() implies rows.drop_first()[j].guid@
            != row.guid@ by {
            assert(rows.drop_first()[j] == rows[j + 1]);
        }
        lemma_find_local_push(rows.drop_first(), row, g2);
        assert(rows2.drop_first() =~= rows.drop_first().push(row));
    }
}

proof fn lemma_find_mirror_at(rows: Seq<MirrorRow>, i: int)
    requires
        0 <= i < rows.len(),
        forall|j: int| 0 <= j < i ==> rows[j].guid@ != rows[i].guid@,
    ensures
        find_mirror(rows, rows[i].guid@) == Some(rows[i]),
    decreases i,
{
    if i > 0 {
        lemma_find_mirror_at(rows.drop_first(), i - 1);
    }
}

proof fn lemma_find_mirror_absent(rows: Seq<MirrorRow>, g: Seq<char>)
    requires
        forall|j: int| 0 <= j < rows.len() ==> rows[j].guid@ != g,
    ensures
        find_mirror(rows, g) is None,
    decreases rows.len(),
{
    if rows.len() > 0 {
        assert forall|j: int| 0 <= j < rows.drop_first().len() implies rows.drop_first()[j].guid@
            != g by {
            assert(rows.drop_first()[j] == rows[j + 1]);
        }
        lemma_find_mirror_absent(rows.drop_first(), g);
    }
}

proof fn lemma_find_mirror_is_element(rows: Seq<MirrorRow>, g: Seq<char>)
    ensures
        match find_mirror(rows, g) {
            Option::Some(m) => exists|i: int| 0 <= i < rows.len() && rows[i] == m,
            Option::None => true,
        },
    decreases rows.len(),
{
    if rows.len() > 0 && rows[0].guid@ != g {
        lemma_find_mirror_is_element(rows.drop_first(), g);
        match find_mirror(rows, g) {
            Option::Some(m) => {
                let i = choose|i: int|
                    0 <= i < rows.drop_first().len() && rows.drop_first()[i] == m;
                assert(rows[i + 1] == m);
            },
            Option::None => {},
        }
    }
}

proof fn lemma_find_mirror_update(rows: Seq<MirrorRow>, i: int, row: MirrorRow, g2: Seq<char>)
    requires
        0 <= i < rows.len(),
        row.guid@ == rows[i].guid@,
        forall|j: int| 0 <= j < i ==> rows[j].guid@ != rows[i].guid@,
    ensures
        find_mirror(rows.update(i, row), g2) == if g2 == rows[i].guid@ {
            Some(row)
        } else {
            find_mirror(rows, g2)
        },
    decreases i,
{
    let rows2 = rows.update(i, row);
    if i == 0 {
        assert(rows2.drop_first() =~= rows.drop_first());
    } else {
        assert(rows2[0] == rows[0]);
        lemma_find_mirror_update(rows.drop_first(), i - 1, row, g2);
        assert(rows2.drop_first() =~= rows.drop_first().update(i - 1, row));
    }
}

proof fn lemma_find_mirror_push(rows: Seq<MirrorRow>, row: MirrorRow, g2: Seq<char>)
    requires
        forall|j: int| 0 <= j < rows.len() ==> rows[j].guid@ != row.guid@,
    ensures
        find_mirror(rows.push(row), g2) == if g2 == row.guid@ {
            Some(row)
        } else {
            find_mirror(rows, g2)
        },
    decreases rows.len(),
{
    let rows2 = rows.push(row);
    if rows.len() == 0 {
        assert(rows2[0] == row);
        assert(rows2.drop_first() =~= Seq::<MirrorRow>::empty());
        assert(find_mirror(Seq::<MirrorRow>::empty(), g2) is None);
    } else {
        assert(rows2[0] == rows[0]);
        assert forall|j: int| 0 <= j < rows.drop_first().len() implies rows.drop_first()[j].guid@
            != row.guid@ by {
            assert(rows.drop_first()[j] == rows[j + 1]);
        }
        lemma_find_mirror_push(rows.drop_first(), row, g2);
        assert(rows2.drop_first() =~= rows.drop_first().push(row));
    }
}

proof fn lemma_find_schema_at(rows: Seq<SchemaRow>, i: int)
    requires
        0 <= i < rows.len(),
        forall|j: int| 0 <= j < i ==> rows[j].version != rows[i].version,
    ensures
        find_schema(rows, rows[i].version) == Some(rows[i]),
    decreases i,
{
    if i > 0 {
        lemma_find_schema_at(rows.drop_first(), i - 1);
    }
}

proof fn lemma_find_schema_absent(rows: Seq<SchemaRow>, v: SchemaVersion)
    requires
        forall|j: int| 0 <= j < rows.len() ==> rows[j].version != v,
    ensures
        find_schema(rows, v) is None,
    decreases rows.len(),
{
    if rows.len() > 0 {
        assert forall|j: int| 0 <= j < rows.drop_first().len() implies rows.drop_first()[j].version
            != v by {
            assert(rows.drop_first()[j] == rows[j + 1]);
        }
        lemma_find_schema_absent(rows.drop_first(), v);
    }
}

proof fn lemma_find_schema_update(rows: Seq<SchemaRow>, i: int, row: SchemaRow, v2: SchemaVersion)
    requires
        0 <= i < rows.len(),
        row.version == rows[i].version,
        forall|j: int| 0 <= j < i ==> rows[j].version != rows[i].version,
    ensures
        find_schema(rows.update(i, row), v2) == if v2 == rows[i].version {
            Some(row)
        } else {
            find_schema(rows, v2)
        },
    decreases i,
{
    let rows2 = rows.update(i, row);
    if i == 0 {
        assert(rows2.drop_first() =~= rows.drop_first());
    } else {
        assert(rows2[0] == rows[0]);
        lemma_find_schema_update(rows.drop_first(), i - 1, row, v2);
        assert(rows2.drop_first() =~= rows.drop_first().update(i - 1, row));
    }
}

pub(crate) proof fn lemma_find_schema_push(rows: Seq<SchemaRow>, row: SchemaRow, v2: SchemaVersion)
    requires
        forall|j: int| 0 <= j < rows.len() ==> rows[j].version != row.version,
    ensures
        find_schema(rows.push(row), v2) == if v2 == row.version {
            Some(row)
        } else {
            find_schema(rows, v2)
        },
    decreases rows.len(),
{
    let rows2 = rows.push(row);
    if rows.len() == 0 {
        assert(rows2[0] == row);
        assert(rows2.drop_first() =~= Seq::<SchemaRow>::empty());
        assert(find_schema(Seq::<SchemaRow>::empty(), v2) is None);
    } else {
        assert(rows2[0] == rows[0]);
        assert forall|j: int| 0 <= j < rows.drop_first().len() implies rows.drop_first()[j].version
            != row.version by {
            assert(rows.drop_first()[j] == rows[j + 1]);
        }
        lemma_find_schema_push(rows.drop_first(), row, v2);
        assert(rows2.drop_first() =~= rows.drop_first().push(row));
    }
}

/// The index of the first overlay row whose guid reads `g`.
fn local_idx(rows: &Vec<LocalRow>, g: &str) -> (r: Option<usize>)
    ensures
        match r {
            Some(i) => {
                &&& i < rows@.len()
                &&& rows@[i as int].guid@ == g@
                &&& (forall|j: int| 0 <= j < i ==> rows@[j].guid@ != g@)
                &&& find_local(rows@, g@) == Some(rows@[i as int])
            },
            None => {
                &&& find_local(rows@, g@) is None
                &&& (forall|j: int| 0 <= j < rows@.len() ==> rows@[j].guid@ != g@)
            },
        },
{
    let n = rows.len();
    let mut i: usize = 0;
    while i < n
        invariant
            n == rows.len(),
            0 <= i <= n,
            forall|j: int| 0 <= j < i ==> rows@[j].guid@ != g@,
        decreases n - i,
    {
        if str_eq(rows[i].guid.as_str(), g) {
            proof {
                lemma_find_local_at(rows@, i as int);
            }
            return Some(i);
        }
        i += 1;
    }
    proof {
        lemma_find_local_absent(rows@, g@);
    }
    None
}

/// The index of the first mirror row whose guid reads `g`.
fn mirror_idx(rows: &Vec<MirrorRow>, g: &str) -> (r: Option<usize>)
    ensures
        match r {
            Some(i) => {
                &&& i < rows@.len()
                &&& rows@[i as int].guid@ == g@
                &&& (forall|j: int| 0 <= j < i ==> rows@[j].guid@ != g@)
                &&& find_mirror(rows@, g@) == Some(rows@[i as int])
            },
            None => {
                &&& find_mirror(rows@, g@) is None
                &&& (forall|j: int| 0 <= j < rows@.len() ==> rows@[j].guid@ != g@)
            },
        },
{
    let n = rows.len();
    let mut i: usize = 0;
    while i < n
        invariant
            n == rows.len(),
            0 <= i <= n,
            forall|j: int| 0 <= j < i ==> rows@[j].guid@ != g@,
        decreases n - i,
    {
        if str_eq(rows[i].guid.as_str(), g) {
            proof {
                lemma_find_mirror_at(rows@, i as int);
            }
            return Some(i);
        }
        i += 1;
    }
    proof {
        lemma_find_mirror_absent(rows@, g@);
    }
    None
}

/// The index of the first schema row of version `v`.
pub(crate) fn schema_idx(rows: &Vec<SchemaRow>, v: &SchemaVersion) -> (r: Option<usize>)
    ensures
        match r {
            Some(i) => {
                &&& i < rows@.len()
                &&& rows@[i as int].version == *v
                &&& (forall|j: int| 0 <= j < i ==> rows@[j].version != *v)
                &&& find_schema(rows@, *v) == Some(rows@[i as int])
            },
            None => {
                &&& find_schema(rows@, *v) is None
                &&& (forall|j: int| 0 <= j < rows@.len() ==> rows@[j].version != *v)
            },
        },
{
    let n = rows.len();
    let mut i: usize = 0;
    while i < n
        invariant
            n == rows.len(),
            0 <= i <= n,
            forall|j: int| 0 <= j < i ==> rows@[j].version != *v,
        decreases n - i,
    {
        if rows[i].version == *v {
            proof {
                lemma_find_schema_at(rows@, i as int);
            }
            return Some(i);
        }
        i += 1;
    }
    proof {
        lemma_find_schema_absent(rows@, *v);
    }
    None
}

/// The durable state of one collection: schema history, overlay and mirror
/// tables, and the metadata table.
#[derive(Debug, Clone)]
pub struct DbState {
    /// The stored schemas, at most one row per version.
    pub schemas: Vec<SchemaRow>,
    /// The overlay table, at most one row per guid.
    pub local: Vec<LocalRow>,
    /// The mirror table, at most one row per guid.
    pub mirror: Vec<MirrorRow>,
    /// The metadata table.
    pub meta: MetaStore,
}

impl DbState {
    /// Primary keys are unique, the metadata table is well formed, each
    /// stored schema row agrees with its parsed form, and a mirror row is
    /// marked overridden whenever an overlay row stands under its guid.
    pub open spec fn wf(self) -> bool {
        &&& self.meta.wf()
        &&& (forall|i: int|
            0 <= i < self.mirror@.len() ==> (find_local(
                self.local@,
                #[trigger] self.mirror@[i].guid@,
            ) is Some ==> self.mirror@[i].is_overridden))
        &&& (forall|i: int, j: int|
            0 <= i < j < self.local@.len() ==> self.local@[i].guid@ != self.local@[j].guid@)
        &&& (forall|i: int, j: int|
            0 <= i < j < self.mirror@.len() ==> self.mirror@[i].guid@ != self.mirror@[j].guid@)
        &&& (forall|i: int, j: int|
            0 <= i < j < self.schemas@.len() ==> self.schemas@[i].version
                != self.schemas@[j].version)
        &&& (forall|i: int|
            0 <= i < self.schemas@.len() ==> {
                let row = #[trigger] self.schemas@[i];
                &&& row.schema@.version == row.version
                &&& row.schema@.source == row.schema_text@
                &&& row.schema@.required_version == row.required_version@
                &&& row.schema@.legacy == row.is_legacy
            })
    }

    /// The overlay row under guid `g`, if any.
    pub open spec fn local_row(self, g: Seq<char>) -> Option<LocalRow> {
        find_local(self.local@, g)
    }

    /// The mirror row under guid `g`, if any.
    pub open spec fn mirror_row(self, g: Seq<char>) -> Option<MirrorRow> {
        find_mirror(self.mirror@, g)
    }

    /// The schema row of version `v`, if any.
    pub open spec fn schema_row(self, v: SchemaVersion) -> Option<SchemaRow> {
        find_schema(self.schemas@, v)
    }

    /// The live, visible record under guid `g`: the overlay row's payload
    /// when the row exists and is not a tombstone; otherwise the mirror
    /// row's payload when it is not overridden; otherwise nothing.
    pub open spec fn live(self, g: Seq<char>) -> Option<LocalRecord> {
        match self.local_row(g) {
            Option::Some(row) if !row.is_deleted => Option::Some(row.record_data),
            _ => match self.mirror_row(g) {
                Option::Some(m) if !m.is_overridden => Option::Some(m.record_data),
                _ => Option::None,
            },
        }
    }

    /// Whether a live record exists under guid `g`.
    pub open spec fn exists_spec(self, g: Seq<char>) -> bool {
        self.live(g) is Some
    }

    /// The causality stamp of the live row under guid `g`, resolved by the
    /// same rule as [`Self::live`].
    pub open spec fn live_clock(self, g: Seq<char>) -> Option<VClock> {
        match self.local_row(g) {
            Option::Some(row) if !row.is_deleted => Option::Some(row.vector_clock),
            _ => match self.mirror_row(g) {
                Option::Some(m) if !m.is_overridden => Option::Some(m.vector_clock),
                _ => Option::None,
            },
        }
    }

    /// The global change counter, when it is stored well-typed.
    pub open spec fn change_counter(self) -> Option<u64> {
        match self.meta.spec_get(MetaKey::ChangeCounter) {
            Option::Some(MetaValueV::Uint(n)) => Option::Some(n),
            _ => Option::None,
        }
    }

    /// The payloads of all live records: the overlay rows that are not
    /// tombstones, then the mirror rows that are not overridden.
    pub open spec fn all_live(self) -> Seq<LocalRecord> {
        local_live_seq(self.local@) + mirror_live_seq(self.mirror@)
    }

    /// The change counter is stored and has room to grow.
    pub open spec fn counter_below_max(self) -> bool {
        match self.change_counter() {
            Option::Some(c) => c < u64::MAX,
            Option::None => false,
        }
    }

    /// An empty collection state, as a fresh database leaves it.
    pub fn new() -> (r: DbState)
        ensures
            r.wf(),
            r.schemas@.len() == 0,
            r.local@.len() == 0,
            r.mirror@.len() == 0,
            forall|k: MetaKey| r.meta.spec_get(k) is None,
    {
        DbState { schemas: Vec::new(), local: Vec::new(), mirror: Vec::new(), meta: MetaStore::new() }
    }
}

/// The payloads of the overlay rows that are not tombstones, in table
/// order.
pub open spec fn local_live_seq(rows: Seq<LocalRow>) -> Seq<LocalRecord>
    decreases rows.len(),
{
    if rows.len() == 0 {
        Seq::empty()
    } else if !rows[0].is_deleted {
        seq![rows[0].record_data] + local_live_seq(rows.drop_first())
    } else {
        local_live_seq(rows.drop_first())
    }
}

/// The payloads of the mirror rows that are not overridden, in table order.
pub open spec fn mirror_live_seq(rows: Seq<MirrorRow>) -> Seq<LocalRecord>
    decreases rows.len(),
{
    if rows.len() == 0 {
        Seq::empty()
    } else if !rows[0].is_overridden {
        seq![rows[0].record_data] + mirror_live_seq(rows.drop_first())
    } else {
        mirror_live_seq(rows.drop_first())
    }
}

proof fn lemma_local_live_take(rows: Seq<LocalRow>, i: int)
    requires
        0 <= i < rows.len(),
    ensures
        local_live_seq(rows.take(i + 1)) == if !rows[i].is_deleted {
            local_live_seq(rows.take(i)).push(rows[i].record_data)
        } else {
            local_live_seq(rows.take(i))
        },
    decreases i,
{
    let a = rows.take(i);
    let b = rows.take(i + 1);
    if i == 0 {
        assert(a =~= Seq::<LocalRow>::empty());
        if !rows[0].is_deleted {
            assert(b[0] == rows[0]);
            assert(b.drop_first() =~= Seq::<LocalRow>::empty());
            assert(local_live_seq(Seq::<LocalRow>::empty()) =~= Seq::<LocalRecord>::empty());
            assert(local_live_seq(b) =~= local_live_seq(a).push(rows[0].record_data));
        } else {
            assert(b[0] == rows[0]);
            assert(b.drop_first() =~= Seq::<LocalRow>::empty());
        }
    } else {
        lemma_local_live_take(rows.drop_first(), i - 1);
        assert(a[0] == rows[0]);
        assert(b[0] == rows[0]);
        assert(a.drop_first() =~= rows.drop_first().take(i - 1));
        assert(b.drop_first() =~= rows.drop_first().take(i));
        assert(rows.drop_first()[i - 1] == rows[i]);
        if !rows[i].is_deleted {
            if !rows[0].is_deleted {
                assert(local_live_seq(b) =~= local_live_seq(a).push(rows[i].record_data));
            } else {
                assert(local_live_seq(b) =~= local_live_seq(a).push(rows[i].record_data));
            }
        }
    }
}

proof fn lemma_mirror_live_take(rows: Seq<MirrorRow>, i: int)
    requires
        0 <= i < rows.len(),
    ensures
        mirror_live_seq(rows.take(i + 1)) == if !rows[i].is_overridden {
            mirror_live_seq(rows.take(i)).push(rows[i].record_data)
        } else {
            mirror_live_seq(rows.take(i))
        },
    decreases i,
{
    let a = rows.take(i);
    let b = rows.take(i + 1);
    if i == 0 {
        assert(a =~= Seq::<MirrorRow>::empty());
        assert(b[0] == rows[0]);
        assert(b.drop_first() =~= Seq::<MirrorRow>::empty());
        if !rows[0].is_overridden {
            assert(mirror_live_seq(b) =~= mirror_live_seq(a).push(rows[0].record_data));
        }
    } else {
        lemma_mirror_live_take(rows.drop_first(), i - 1);
        assert(a[0] == rows[0]);
        assert(b[0] == rows[0]);
        assert(a.drop_first() =~= rows.drop_first().take(i - 1));
        assert(b.drop_first() =~= rows.drop_first().take(i));
        assert(rows.drop_first()[i - 1] == rows[i]);
        if !rows[i].is_overridden {
            assert(mirror_live_seq(b) =~= mirror_live_seq(a).push(rows[i].record_data));
        }
    }
}

/// Every stored causality stamp's component for `client` is at or below
/// the global change counter: local mutations mint clock values from the
/// counter, so the store's own components never outrun it.
pub open spec fn clocks_bounded(db: DbState, client: Seq<char>) -> bool {
    match db.change_counter() {
        Option::Some(c) => {
            &&& (forall|i: int|
                0 <= i < db.local@.len()
                    ==> #[trigger] db.local@[i].vector_clock.get_spec(client) <= c)
            &&& (forall|i: int|
                0 <= i < db.mirror@.len()
                    ==> #[trigger] db.mirror@[i].vector_clock.get_spec(client) <= c)
        },
        Option::None => false,
    }
}

/// The stored causality component for `client` on the record under guid
/// `g`: the overlay row's when one stands, else the mirror row's, else
/// zero.
pub open spec fn own_component(db: DbState, g: Seq<char>, client: Seq<char>) -> u64 {
    match db.local_row(g) {
        Option::Some(row) => row.vector_clock.get_spec(client),
        Option::None => match db.mirror_row(g) {
            Option::Some(m) => m.vector_clock.get_spec(client),
            Option::None => 0,
        },
    }
}

/// The global change counter grew by exactly one from `pre` to `post`.
pub open spec fn counter_bumped(pre: DbState, post: DbState) -> bool {
    match pre.change_counter() {
        Option::Some(c) => post.change_counter() == Some((c + 1) as u64),
        Option::None => false,
    }
}

/// Whether a store opens over `pre` with the native schema `native`: a
/// fresh database bootstraps unless a schema row already sits under the
/// native version; an existing one reloads when the stored name matches,
/// the metadata is well typed, and the stored local schema is present.
pub open spec fn open_ok(pre: DbState, native: RecordSchemaV) -> bool {
    match pre.meta.spec_get(MetaKey::CollectionName) {
        Option::None => pre.schema_row(native.version) is None,
        Option::Some(MetaValueV::Text(name)) => {
            &&& name == native.name
            &&& reload_meta_ok(pre)
            &&& (match pre.meta.spec_get(MetaKey::LocalSchemaVersion) {
                Option::Some(MetaValueV::Version(lv)) => pre.schema_row(lv) is Some,
                _ => false,
            })
        },
        Option::Some(_) => false,
    }
}

/// The record store engine: the collection's durable state, its schema
/// bundle, and this installation's client id.
#[derive(Debug)]
pub struct RemergeDb {
    pub db: DbState,
    pub info: SchemaBundle,
    pub client_id: String,
}

impl RemergeDb {
    /// The store's invariant: the state is well formed and the bootstrap
    /// metadata is present, well typed, and agrees with the bundle and the
    /// client id the store carries.
    pub open spec fn wf(self) -> bool {
        &&& self.db.wf()
        &&& self.db.change_counter() is Some
        &&& self.db.meta.spec_get(MetaKey::CollectionName) == Some(
            MetaValueV::Text(self.info.collection_name@),
        )
        &&& self.db.meta.spec_get(MetaKey::OwnClientId) == Some(
            MetaValueV::Text(self.client_id@),
        )
        &&& self.db.meta.spec_get(MetaKey::LocalSchemaVersion) == Some(
            MetaValueV::Version(self.info.local@.version),
        )
    }

    /// The collection's name.
    pub fn collection(&self) -> (r: &str)
        ensures
            r@ == self.info.collection_name@,
    {
        self.info.collection_name.as_str()
    }

    /// The schema bundle the store runs under.
    pub fn info(&self) -> (r: &SchemaBundle)
        ensures
            r == &self.info,
    {
        &self.info
    }

    /// The schema bundle the store runs under.
    pub fn bundle(&self) -> (r: &SchemaBundle)
        ensures
            r == &self.info,
    {
        &self.info
    }

    /// This installation's client id.
    pub fn client_id(&self) -> (r: String)
        ensures
            r == self.client_id,
    {
        self.client_id.clone()
    }

    /// The collection's durable state, as the sync collaborator reads it.
    pub fn state(&self) -> (r: &DbState)
        ensures
            r == &self.db,
    {
        &self.db
    }

    /// Bump the global change counter: read it, add one, store it back.
    /// Overflow is reported as corruption and changes nothing.
    fn counter_bump(&mut self) -> (r: Result<u64, ErrorKind>)
        requires
            old(self).wf(),
        ensures
            final (self).wf(),
            final (self).info == old(self).info,
            final (self).client_id == old(self).client_id,
            final (self).db.schemas == old(self).db.schemas,
            final (self).db.local == old(self).db.local,
            final (self).db.mirror == old(self).db.mirror,
            match r {
                Ok(c) => {
                    &&& c >= 1
                    &&& old(self).db.change_counter() == Some((c - 1) as u64)
                    &&& final (self).db.change_counter() == Some(c)
                    &&& (forall|k: MetaKey|
                        k != MetaKey::ChangeCounter ==> final (self).db.meta.spec_get(k) == old(
                            self,
                        ).db.meta.spec_get(k))
                },
                Err(e) => {
                    &&& *final (self) == *old(self)
                    &&& e matches ErrorKind::InvariantViolation(_)
                    &&& old(self).db.change_counter() == Some(u64::MAX)
                },
            },
    {
        let cur: u64 = match self.db.meta.try_get(MetaKey::ChangeCounter) {
            Some(MetaValue::Uint(c)) => c,
            _ => {
                return Err(ErrorKind::InvariantViolation("change counter missing".to_owned()));
            },
        };
        if cur == u64::MAX {
            return Err(ErrorKind::InvariantViolation("change counter overflow".to_owned()));
        }
        let next = cur + 1;
        self.db.meta.put(MetaKey::ChangeCounter, MetaValue::Uint(next));
        Ok(next)
    }

    /// The live record under `id`, when one is visible.
    fn live_record_ref(&self, id: &str) -> (r: Option<&LocalRecord>)
        ensures
            match r {
                Some(rec) => self.db.live(id@) == Some(*rec),
                None => self.db.live(id@) is None,
            },
    {
        match local_idx(&self.db.local, id) {
            Some(i) => {
                if !self.db.local[i].is_deleted {
                    return Some(&self.db.local[i].record_data);
                }
            },
            None => {},
        }
        match mirror_idx(&self.db.mirror, id) {
            Some(i) => {
                if !self.db.mirror[i].is_overridden {
                    Some(&self.db.mirror[i].record_data)
                } else {
                    None
                }
            },
            None => None,
        }
    }

    /// Whether a live record exists under `id`: an overlay row that is not
    /// a tombstone, or a mirror row that is not overridden.
    pub fn record_exists(&self, id: &str) -> (r: Result<bool, ErrorKind>)
        ensures
            r matches Ok(b) && b == self.db.exists_spec(id@),
    {
        match self.live_record_ref(id) {
            Some(_) => Ok(true),
            None => Ok(false),
        }
    }

    /// Open a store over a collection's durable state: bootstrap a fresh
    /// database or reload an existing one, and bind the schema bundle and
    /// client id the store runs under.
    pub fn open(db: DbState, native: &RecordSchema) -> (r: Result<RemergeDb, ErrorKind>)
        requires
            db.wf(),
        ensures
            r is Ok <==> open_ok(db, native@),
            match r {
                Ok(store) => {
                    &&& store.wf()
                    &&& store.info.native@ == native@
                    &&& store.info.collection_name@ == native@.name
                    &&& (db.meta.spec_get(MetaKey::CollectionName) is None ==> {
                        &&& valid_guid(store.client_id@)
                        &&& store.info.local@ == native@
                        &&& bootstrap_post(db, store.db, native@, store.client_id@)
                    })
                    &&& (db.meta.spec_get(MetaKey::CollectionName) matches Some(
                        MetaValueV::Text(_),
                    ) ==> {
                        &&& reload_post(db, store.db, native@)
                        &&& db.meta.spec_get(MetaKey::OwnClientId) == Some(
                            MetaValueV::Text(store.client_id@),
                        )
                        &&& (match db.meta.spec_get(MetaKey::LocalSchemaVersion) {
                            Some(MetaValueV::Version(lv)) => db.schema_row(lv) matches Some(row)
                                && store.info.local@ == row.schema@,
                            _ => false,
                        })
                    })
                },
                Err(e) => {
                    &&& (db.meta.spec_get(MetaKey::CollectionName) matches Some(
                        MetaValueV::Text(name),
                    ) && name != native@.name ==> e matches ErrorKind::SchemaNameMatchError(_, _))
                },
            },
    {
        let mut state = db;
        match load_or_bootstrap(&mut state, native) {
            Ok((info, client_id)) => Ok(RemergeDb { db: state, info, client_id }),
            Err(e) => Err(e),
        }
    }

    /// Close the store, handing back the collection's durable state.
    pub fn into_state(self) -> (r: DbState)
        ensures
            r == self.db,
    {
        self.db
    }

    /// Whether a live record stands under `id`.
    fn is_live(&self, id: &str) -> (b: bool)
        ensures
            b == self.db.exists_spec(id@),
    {
        match self.live_record_ref(id) {
            Some(_) => true,
            None => false,
        }
    }

    /// Whether the record collides with an existing record on the schema's
    /// dedupe-on fields. The deduplication search is deferred by design: no
    /// collision is ever reported.
    fn dupe_exists(&self, _record: &LocalRecord) -> (r: Result<bool, ErrorKind>)
        ensures
            r matches Ok(b) && b == false,
    {
        Ok(false)
    }

    /// Create a record: convert it to local shape (minting a fresh guid
    /// when none was given), refuse a guid that already exists, stamp a
    /// fresh causality clock, and insert the overlay row as `New`.
    ///
    /// A guid whose overlay row is a tombstone cannot be created again; the
    /// conflict surfaces as an unspecified storage error, as a primary-key
    /// conflict would.
    pub fn create(&mut self, native: &NativeRecord, now_ms: u64) -> (r: Result<String, ErrorKind>)
        requires
            old(self).wf(),
        ensures
            final (self).wf(),
            final (self).info == old(self).info,
            final (self).client_id == old(self).client_id,
            r is Err ==> *final (self) == *old(self),
            (clocks_bounded(old(self).db, old(self).client_id@) && r is Ok ==> {
                &&& clocks_bounded(final (self).db, old(self).client_id@)
                &&& (forall|g2: Seq<char>|
                    #[trigger] own_component(final (self).db, g2, old(self).client_id@)
                        >= own_component(old(self).db, g2, old(self).client_id@))
            }),
            match r {
                Ok(g) => {
                    &&& valid_guid(g@)
                    &&& creation_convertible(native@, old(self).info.native@.own_guid_field)
                    &&& (given_guid(native@, old(self).info.native@.own_guid_field) matches Some(s)
                        ==> g@ == s)
                    &&& !old(self).db.exists_spec(g@)
                    &&& old(self).db.local_row(g@) is None
                    &&& final (self).db.exists_spec(g@)
                    &&& (final (self).db.live(g@) matches Some(rec) && rec@ == local_of(
                        native@,
                        old(self).info.native@.own_guid_field,
                        g@,
                    ))
                    &&& (final (self).db.local_row(g@) matches Some(row) && {
                        &&& row.sync_status == SyncStatus::New
                        &&& !row.is_deleted
                        &&& row.schema_version == old(self).info.local@.version
                        &&& row.local_modified_ms == now_ms
                        &&& row.last_writer_id@ == old(self).client_id@
                        &&& (old(self).db.change_counter() matches Some(c0)
                            && row.vector_clock.get_spec(old(self).client_id@) == c0 + 1)
                        &&& (forall|c2: Seq<char>|
                            c2 != old(self).client_id@ ==> row.vector_clock.get_spec(c2) == 0)
                    })
                    &&& counter_bumped(old(self).db, final (self).db)
                    &&& (forall|g2: Seq<char>|
                        g2 != g@ ==> final (self).db.local_row(g2) == old(self).db.local_row(g2))
                    &&& final (self).db.mirror == old(self).db.mirror
                    &&& final (self).db.schemas == old(self).db.schemas
                    &&& (forall|k: MetaKey|
                        k != MetaKey::ChangeCounter ==> final (self).db.meta.spec_get(k) == old(
                            self,
                        ).db.meta.spec_get(k))
                },
                Err(e) => {
                    &&& (!creation_convertible(native@, old(self).info.native@.own_guid_field)
                        ==> e matches ErrorKind::InvalidRecord(_))
                    &&& (match given_guid(native@, old(self).info.native@.own_guid_field) {
                        Some(s) => {
                            &&& (creation_convertible(
                                native@,
                                old(self).info.native@.own_guid_field,
                            ) && old(self).db.exists_spec(s) ==> e == ErrorKind::InvalidRecord(
                                InvalidRecord::IdNotUnique,
                            ))
                        },
                        None => true,
                    })
                },
            },
            (match given_guid(native@, old(self).info.native@.own_guid_field) {
                Some(s) => r is Ok <==> {
                    &&& creation_convertible(native@, old(self).info.native@.own_guid_field)
                    &&& !old(self).db.exists_spec(s)
                    &&& old(self).db.local_row(s) is None
                    &&& old(self).db.counter_below_max()
                },
                None => true,
            }),
    {
        let (guid, record) = match self.info.native_to_local(native, ToLocalReason::Creation) {
            Ok(p) => p,
            Err(e) => {
                return Err(e);
            },
        };
        if self.is_live(guid.as_str()) {
            return Err(ErrorKind::InvalidRecord(InvalidRecord::IdNotUnique));
        }
        match local_idx(&self.db.local, guid.as_str()) {
            Some(_) => {
                // A tombstone overlay row still owns this guid.
                return Err(ErrorKind::Unspecified("guid conflicts with a stored row".to_owned()));
            },
            None => {},
        }
        match self.dupe_exists(&record) {
            Ok(true) => {
                return Err(ErrorKind::InvalidRecord(InvalidRecord::Duplicate));
            },
            Ok(false) => {},
            Err(e) => {
                return Err(e);
            },
        }
        let ghost pre = *self;
        let ctr = match self.counter_bump() {
            Ok(c) => c,
            Err(e) => {
                return Err(e);
            },
        };
        let vclock = VClock::new(self.client_id.clone(), ctr);
        let row = LocalRow {
            guid: guid.clone(),
            schema_version: self.info.local.version,
            record_data: record,
            local_modified_ms: now_ms,
            is_deleted: false,
            sync_status: SyncStatus::New,
            vector_clock: vclock,
            last_writer_id: self.client_id.clone(),
        };
        self.db.local.push(row);
        proof {
            assert forall|g2: Seq<char>|
                find_local(self.db.local@, g2) == if g2 == guid@ {
                    Some(self.db.local@.last())
                } else {
                    find_local(pre.db.local@, g2)
                } by {
                lemma_find_local_push(pre.db.local@, self.db.local@.last(), g2);
            }
            assert forall|a: int, b: int|
                0 <= a < b < self.db.local@.len() implies self.db.local@[a].guid@
                != self.db.local@[b].guid@ by {
                assert(self.db.local@[a] == pre.db.local@[a]);
                if b < self.db.local@.len() - 1 {
                    assert(self.db.local@[b] == pre.db.local@[b]);
                }
            }
            assert forall|i: int|
                0 <= i < self.db.mirror@.len() && find_local(
                    self.db.local@,
                    #[trigger] self.db.mirror@[i].guid@,
                ) is Some implies self.db.mirror@[i].is_overridden by {
                let g2 = self.db.mirror@[i].guid@;
                if g2 == guid@ {
                    lemma_find_mirror_at(self.db.mirror@, i);
                    assert(pre.db.mirror_row(guid@) == Some(self.db.mirror@[i]));
                    assert(!pre.db.exists_spec(guid@));
                }
            }
            let oldc = old(self).client_id@;
            if clocks_bounded(old(self).db, oldc) {
                assert forall|i: int|
                    0 <= i < self.db.local@.len() implies #[trigger] self.db.local@[
                    i].vector_clock.get_spec(oldc) <= ctr by {
                    if i < self.db.local@.len() - 1 {
                        assert(self.db.local@[i] == pre.db.local@[i]);
                        assert(pre.db.local@[i].vector_clock.get_spec(oldc) <= ctr - 1);
                    }
                }
                assert forall|g2: Seq<char>|
                    #[trigger] own_component(self.db, g2, oldc) >= own_component(
                        old(self).db,
                        g2,
                        oldc,
                    ) by {
                    if g2 == guid@ {
                        lemma_find_mirror_is_element(old(self).db.mirror@, g2);
                    }
                }
            }
        }
        Ok(guid)
    }

    /// The causality stamp of the live row under `id`, when one is visible.
    fn get_vclock(&self, id: &str) -> (r: Option<VClock>)
        ensures
            match r {
                Some(vc) => self.db.live_clock(id@) matches Some(w) && vc@ == w@,
                None => self.db.live_clock(id@) is None,
            },
    {
        match local_idx(&self.db.local, id) {
            Some(i) => {
                if !self.db.local[i].is_deleted {
                    return Some(self.db.local[i].vector_clock.duplicate());
                }
            },
            None => {},
        }
        match mirror_idx(&self.db.mirror, id) {
            Some(i) => {
                if !self.db.mirror[i].is_overridden {
                    Some(self.db.mirror[i].vector_clock.duplicate())
                } else {
                    None
                }
            },
            None => None,
        }
    }

    /// Delete the record under `id`, if one is visible: tombstone the
    /// overlay row (cloning one from the mirror when none exists), clear
    /// its payload, stamp a bumped causality clock, and mark the mirror row
    /// overridden. Returns whether a record was there to delete.
    pub fn delete_by_id(&mut self, id: &str, now_ms: u64) -> (r: Result<bool, ErrorKind>)
        requires
            old(self).wf(),
        ensures
            final (self).wf(),
            final (self).info == old(self).info,
            final (self).client_id == old(self).client_id,
            r is Err ==> *final (self) == *old(self),
            (clocks_bounded(old(self).db, old(self).client_id@) && r is Ok ==> {
                &&& clocks_bounded(final (self).db, old(self).client_id@)
                &&& (forall|g2: Seq<char>|
                    #[trigger] own_component(final (self).db, g2, old(self).client_id@)
                        >= own_component(old(self).db, g2, old(self).client_id@))
            }),
            (r is Err <==> old(self).db.exists_spec(id@) && !old(self).db.counter_below_max()),
            match r {
                Ok(b) => {
                    &&& b == old(self).db.exists_spec(id@)
                    &&& (!b ==> *final (self) == *old(self))
                    &&& (b ==> {
                        &&& !final (self).db.exists_spec(id@)
                        &&& counter_bumped(old(self).db, final (self).db)
                        &&& (final (self).db.local_row(id@) matches Some(row) && {
                            &&& row.is_deleted
                            &&& row.record_data@.len() == 0
                            &&& row.sync_status == SyncStatus::Changed
                            &&& row.local_modified_ms == now_ms
                            &&& row.last_writer_id@ == old(self).client_id@
                            &&& (old(self).db.change_counter() matches Some(c0)
                                && row.vector_clock.get_spec(old(self).client_id@) == c0 + 1)
                            &&& (old(self).db.live_clock(id@) matches Some(w) ==> forall|
                                c2: Seq<char>,
                            |
                                c2 != old(self).client_id@ ==> row.vector_clock.get_spec(c2)
                                    == w.get_spec(c2))
                            &&& (old(self).db.local_row(id@) matches Some(prev) ==> {
                                &&& row.guid == prev.guid
                                &&& row.schema_version == prev.schema_version
                                &&& row.sync_status.level() >= prev.sync_status.level()
                            })
                            &&& (old(self).db.local_row(id@) is None ==> row.schema_version == old(
                                self,
                            ).info.local@.version)
                        })
                        &&& (final (self).db.mirror_row(id@) matches Some(m) ==> m.is_overridden)
                        &&& (old(self).db.mirror_row(id@) matches Some(m0)
                            ==> (final (self).db.mirror_row(id@) matches Some(m1) && m1.guid
                            == m0.guid && m1.record_data == m0.record_data && m1.vector_clock
                            == m0.vector_clock && m1.last_writer_id == m0.last_writer_id))
                        &&& (old(self).db.mirror_row(id@) is None ==> final (self).db.mirror_row(
                            id@,
                        ) is None)
                        &&& (forall|g2: Seq<char>|
                            g2 != id@ ==> final (self).db.local_row(g2) == old(self).db.local_row(
                                g2,
                            ))
                        &&& (forall|g2: Seq<char>|
                            g2 != id@ ==> final (self).db.mirror_row(g2) == old(self).db.mirror_row(
                                g2,
                            ))
                        &&& final (self).db.schemas == old(self).db.schemas
                        &&& (forall|k: MetaKey|
                            k != MetaKey::ChangeCounter ==> final (self).db.meta.spec_get(k) == old(
                                self,
                            ).db.meta.spec_get(k))
                    })
                },
                Err(e) => e matches ErrorKind::InvariantViolation(_),
            },
    {
        if !self.is_live(id) {
            return Ok(false);
        }
        let prev_clock: VClock = match self.get_vclock(id) {
            Some(vc) => vc,
            None => {
                return Err(ErrorKind::InvariantViolation("live row lost its clock".to_owned()));
            },
        };
        let ctr = match self.counter_bump() {
            Ok(c) => c,
            Err(e) => {
                return Err(e);
            },
        };
        let vclock = prev_clock.apply(self.client_id.clone(), ctr);
        let ghost mid = *self;
        match local_idx(&self.db.local, id) {
            Some(i) => {
                let gclone = self.db.local[i].guid.clone();
                let sv = self.db.local[i].schema_version;
                let row = LocalRow {
                    guid: gclone,
                    schema_version: sv,
                    record_data: LocalRecord::new_empty(),
                    local_modified_ms: now_ms,
                    is_deleted: true,
                    sync_status: SyncStatus::Changed,
                    vector_clock: vclock,
                    last_writer_id: self.client_id.clone(),
                };
                self.db.local[i] = row;
                proof {
                    assert forall|g2: Seq<char>|
                        find_local(self.db.local@, g2) == if g2 == id@ {
                            Some(self.db.local@[i as int])
                        } else {
                            find_local(mid.db.local@, g2)
                        } by {
                        lemma_find_local_update(
                            mid.db.local@,
                            i as int,
                            self.db.local@[i as int],
                            g2,
                        );
                    }
                    assert forall|a: int, b: int|
                        0 <= a < b < self.db.local@.len() implies self.db.local@[a].guid@
                        != self.db.local@[b].guid@ by {
                        assert(self.db.local@[a].guid@ == mid.db.local@[a].guid@);
                        assert(self.db.local@[b].guid@ == mid.db.local@[b].guid@);
                    }
                }
            },
            None => {
                let row = LocalRow {
                    guid: id.to_owned(),
                    schema_version: self.info.local.version,
                    record_data: LocalRecord::new_empty(),
                    local_modified_ms: now_ms,
                    is_deleted: true,
                    sync_status: SyncStatus::Changed,
                    vector_clock: vclock,
                    last_writer_id: self.client_id.clone(),
                };
                self.db.local.push(row);
                proof {
                    assert forall|g2: Seq<char>|
                        find_local(self.db.local@, g2) == if g2 == id@ {
                            Some(self.db.local@.last())
                        } else {
                            find_local(mid.db.local@, g2)
                        } by {
                        lemma_find_local_push(mid.db.local@, self.db.local@.last(), g2);
                    }
                    assert forall|a: int, b: int|
                        0 <= a < b < self.db.local@.len() implies self.db.local@[a].guid@
                        != self.db.local@[b].guid@ by {
                        assert(self.db.local@[a].guid@ == mid.db.local@[a].guid@);
                        if b < self.db.local@.len() - 1 {
                            assert(self.db.local@[b].guid@ == mid.db.local@[b].guid@);
                        }
                    }
                }
            },
        }
        let ghost mid2 = *self;
        match mirror_idx(&self.db.mirror, id) {
            Some(m) => {
                self.db.mirror[m].is_overridden = true;
                proof {
                    assert forall|g2: Seq<char>|
                        find_mirror(self.db.mirror@, g2) == if g2 == id@ {
                            Some(self.db.mirror@[m as int])
                        } else {
                            find_mirror(mid2.db.mirror@, g2)
                        } by {
                        lemma_find_mirror_update(
                            mid2.db.mirror@,
                            m as int,
                            self.db.mirror@[m as int],
                            g2,
                        );
                    }
                    assert forall|a: int, b: int|
                        0 <= a < b < self.db.mirror@.len() implies self.db.mirror@[a].guid@
                        != self.db.mirror@[b].guid@ by {
                        assert(self.db.mirror@[a].guid@ == mid2.db.mirror@[a].guid@);
                        assert(self.db.mirror@[b].guid@ == mid2.db.mirror@[b].guid@);
                    }
                    assert forall|i2: int|
                        0 <= i2 < self.db.mirror@.len() && find_local(
                            self.db.local@,
                            #[trigger] self.db.mirror@[i2].guid@,
                        ) is Some implies self.db.mirror@[i2].is_overridden by {
                        if i2 != m as int {
                            assert(self.db.mirror@[i2] == mid2.db.mirror@[i2]);
                            assert(mid2.db.mirror@[i2].guid@ != id@);
                        }
                    }
                }
            },
            None => {
                proof {
                    assert forall|i2: int|
                        0 <= i2 < self.db.mirror@.len() && find_local(
                            self.db.local@,
                            #[trigger] self.db.mirror@[i2].guid@,
                        ) is Some implies self.db.mirror@[i2].is_overridden by {
                        assert(self.db.mirror@[i2].guid@ != id@);
                    }
                }
            },
        }
        Ok(true)
    }

    /// Update the record a native record names in its own-guid field:
    /// resolve the stored record (failing with `NoSuchRecord` when none is
    /// visible), convert the new shape, clone an overlay row from the
    /// mirror on a first local edit, mark the mirror overridden, stamp a
    /// bumped causality clock, and raise the row's sync status to at least
    /// `Changed`.
    pub fn update_record(&mut self, record: &NativeRecord, now_ms: u64) -> (r: Result<
        (),
        ErrorKind,
    >)
        requires
            old(self).wf(),
        ensures
            final (self).wf(),
            final (self).info == old(self).info,
            final (self).client_id == old(self).client_id,
            r is Err ==> *final (self) == *old(self),
            (clocks_bounded(old(self).db, old(self).client_id@) && r is Ok ==> {
                &&& clocks_bounded(final (self).db, old(self).client_id@)
                &&& (forall|g2: Seq<char>|
                    #[trigger] own_component(final (self).db, g2, old(self).client_id@)
                        >= own_component(old(self).db, g2, old(self).client_id@))
            }),
            (r is Ok <==> {
                &&& update_convertible(record@, old(self).info.native@.own_guid_field)
                &&& (match given_guid(record@, old(self).info.native@.own_guid_field) {
                    Some(g) => old(self).db.exists_spec(g) && old(self).db.counter_below_max(),
                    None => false,
                })
            }),
            match r {
                Ok(_) => (match given_guid(record@, old(self).info.native@.own_guid_field) {
                    Some(g) => {
                        &&& old(self).db.exists_spec(g)
                        &&& (final (self).db.live(g) matches Some(rec) && rec@ == local_of(
                            record@,
                            old(self).info.native@.own_guid_field,
                            g,
                        ))
                        &&& (final (self).db.local_row(g) matches Some(row) && {
                            &&& row.guid@ == g
                            &&& !row.is_deleted
                            &&& row.sync_status == (match old(self).db.local_row(g) {
                                Some(p) => p.sync_status.spec_promote(SyncStatus::Changed),
                                None => SyncStatus::Changed,
                            })
                            &&& (match old(self).db.local_row(g) {
                                Some(p) => row.sync_status.level() >= p.sync_status.level(),
                                None => true,
                            })
                            &&& row.sync_status.level() >= SyncStatus::Changed.level()
                            &&& row.local_modified_ms == now_ms
                            &&& row.last_writer_id@ == old(self).client_id@
                            &&& row.schema_version == old(self).info.local@.version
                            &&& (old(self).db.change_counter() matches Some(c0)
                                && row.vector_clock.get_spec(old(self).client_id@) == c0 + 1)
                            &&& (old(self).db.live_clock(g) matches Some(w) ==> forall|
                                c2: Seq<char>,
                            |
                                c2 != old(self).client_id@ ==> row.vector_clock.get_spec(c2)
                                    == w.get_spec(c2))
                        })
                        &&& counter_bumped(old(self).db, final (self).db)
                        &&& (final (self).db.mirror_row(g) matches Some(m) ==> m.is_overridden)
                        &&& (old(self).db.mirror_row(g) matches Some(m0)
                            ==> (final (self).db.mirror_row(g) matches Some(m1) && m1.guid
                            == m0.guid && m1.record_data == m0.record_data && m1.vector_clock
                            == m0.vector_clock && m1.last_writer_id == m0.last_writer_id))
                        &&& (old(self).db.mirror_row(g) is None ==> final (self).db.mirror_row(g)
                            is None)
                        &&& (forall|g2: Seq<char>|
                            g2 != g ==> final (self).db.local_row(g2) == old(self).db.local_row(
                                g2,
                            ))
                        &&& (forall|g2: Seq<char>|
                            g2 != g ==> final (self).db.mirror_row(g2) == old(self).db.mirror_row(
                                g2,
                            ))
                        &&& final (self).db.schemas == old(self).db.schemas
                        &&& (forall|k: MetaKey|
                            k != MetaKey::ChangeCounter ==> final (self).db.meta.spec_get(k) == old(
                                self,
                            ).db.meta.spec_get(k))
                    },
                    None => false,
                }),
                Err(e) => {
                    &&& (!update_convertible(record@, old(self).info.native@.own_guid_field)
                        ==> e matches ErrorKind::InvalidRecord(_))
                    &&& (fields_get(record@, old(self).info.native@.own_guid_field) is None ==> (e
                        matches ErrorKind::InvalidRecord(InvalidRecord::MissingRequiredField(n))
                        && n@ == old(self).info.native@.own_guid_field))
                    &&& (match given_guid(record@, old(self).info.native@.own_guid_field) {
                        Some(g) => {
                            &&& (update_convertible(
                                record@,
                                old(self).info.native@.own_guid_field,
                            ) && !old(self).db.exists_spec(g) ==> (e matches ErrorKind::NoSuchRecord(
                                t,
                            ) && t@ == g))
                            &&& (update_convertible(
                                record@,
                                old(self).info.native@.own_guid_field,
                            ) && old(self).db.exists_spec(g)
                                ==> e matches ErrorKind::InvariantViolation(_))
                        },
                        None => true,
                    })
                },
            },
    {
        let guid = match self.info.own_guid_of(record) {
            Ok(g) => g,
            Err(e) => {
                return Err(e);
            },
        };
        let prev: LocalRecord = match self.live_record_ref(guid.as_str()) {
            Some(rec) => rec.duplicate(),
            None => {
                return Err(ErrorKind::NoSuchRecord(guid));
            },
        };
        let (guid, local) = match self.info.native_to_local(
            record,
            ToLocalReason::Update { prev },
        ) {
            Ok(p) => p,
            Err(e) => {
                return Err(e);
            },
        };
        match self.dupe_exists(&local) {
            Ok(true) => {
                return Err(ErrorKind::InvalidRecord(InvalidRecord::Duplicate));
            },
            Ok(false) => {},
            Err(e) => {
                return Err(e);
            },
        }
        let prev_clock: VClock = match self.get_vclock(guid.as_str()) {
            Some(vc) => vc,
            None => {
                return Err(ErrorKind::InvariantViolation("live row lost its clock".to_owned()));
            },
        };
        let ctr = match self.counter_bump() {
            Ok(c) => c,
            Err(e) => {
                return Err(e);
            },
        };
        let vclock = prev_clock.apply(self.client_id.clone(), ctr);
        let ghost mid = *self;
        match local_idx(&self.db.local, guid.as_str()) {
            Some(i) => {
                let gclone = self.db.local[i].guid.clone();
                let status = self.db.local[i].sync_status.promote(SyncStatus::Changed);
                let row = LocalRow {
                    guid: gclone,
                    schema_version: self.info.local.version,
                    record_data: local,
                    local_modified_ms: now_ms,
                    is_deleted: self.db.local[i].is_deleted,
                    sync_status: status,
                    vector_clock: vclock,
                    last_writer_id: self.client_id.clone(),
                };
                self.db.local[i] = row;
                proof {
                    assert forall|g2: Seq<char>|
                        find_local(self.db.local@, g2) == if g2 == guid@ {
                            Some(self.db.local@[i as int])
                        } else {
                            find_local(mid.db.local@, g2)
                        } by {
                        lemma_find_local_update(
                            mid.db.local@,
                            i as int,
                            self.db.local@[i as int],
                            g2,
                        );
                    }
                    assert forall|a: int, b: int|
                        0 <= a < b < self.db.local@.len() implies self.db.local@[a].guid@
                        != self.db.local@[b].guid@ by {
                        assert(self.db.local@[a].guid@ == mid.db.local@[a].guid@);
                        assert(self.db.local@[b].guid@ == mid.db.local@[b].guid@);
                    }
                }
            },
            None => {
                let row = LocalRow {
                    guid: guid.clone(),
                    schema_version: self.info.local.version,
                    record_data: local,
                    local_modified_ms: now_ms,
                    is_deleted: false,
                    sync_status: SyncStatus::Changed,
                    vector_clock: vclock,
                    last_writer_id: self.client_id.clone(),
                };
                self.db.local.push(row);
                proof {
                    assert forall|g2: Seq<char>|
                        find_local(self.db.local@, g2) == if g2 == guid@ {
                            Some(self.db.local@.last())
                        } else {
                            find_local(mid.db.local@, g2)
                        } by {
                        lemma_find_local_push(mid.db.local@, self.db.local@.last(), g2);
                    }
                    assert forall|a: int, b: int|
                        0 <= a < b < self.db.local@.len() implies self.db.local@[a].guid@
                        != self.db.local@[b].guid@ by {
                        assert(self.db.local@[a].guid@ == mid.db.local@[a].guid@);
                        if b < self.db.local@.len() - 1 {
                            assert(self.db.local@[b].guid@ == mid.db.local@[b].guid@);
                        }
                    }
                }
            },
        }
        let ghost mid2 = *self;
        match mirror_idx(&self.db.mirror, guid.as_str()) {
            Some(m) => {
                self.db.mirror[m].is_overridden = true;
                proof {
                    assert forall|g2: Seq<char>|
                        find_mirror(self.db.mirror@, g2) == if g2 == guid@ {
                            Some(self.db.mirror@[m as int])
                        } else {
                            find_mirror(mid2.db.mirror@, g2)
                        } by {
                        lemma_find_mirror_update(
                            mid2.db.mirror@,
                            m as int,
                            self.db.mirror@[m as int],
                            g2,
                        );
                    }
                    assert forall|a: int, b: int|
                        0 <= a < b < self.db.mirror@.len() implies self.db.mirror@[a].guid@
                        != self.db.mirror@[b].guid@ by {
                        assert(self.db.mirror@[a].guid@ == mid2.db.mirror@[a].guid@);
                        assert(self.db.mirror@[b].guid@ == mid2.db.mirror@[b].guid@);
                    }
                    assert forall|i2: int|
                        0 <= i2 < self.db.mirror@.len() && find_local(
                            self.db.local@,
                            #[trigger] self.db.mirror@[i2].guid@,
                        ) is Some implies self.db.mirror@[i2].is_overridden by {
                        if i2 != m as int {
                            assert(self.db.mirror@[i2] == mid2.db.mirror@[i2]);
                            assert(mid2.db.mirror@[i2].guid@ != guid@);
                        }
                    }
                }
            },
            None => {
                proof {
                    assert forall|i2: int|
                        0 <= i2 < self.db.mirror@.len() && find_local(
                            self.db.local@,
                            #[trigger] self.db.mirror@[i2].guid@,
                        ) is Some implies self.db.mirror@[i2].is_overridden by {
                        assert(self.db.mirror@[i2].guid@ != guid@);
                    }
                }
            },
        }
        Ok(())
    }

    /// All live records, converted to native shape: the overlay rows that
    /// are not tombstones, then the mirror rows that are not overridden.
    pub fn get_all(&self) -> (r: Result<Vec<NativeRecord>, ErrorKind>)
        ensures
            r matches Ok(v) && {
                &&& v@.len() == self.db.all_live().len()
                &&& (forall|i: int|
                    0 <= i < v@.len() ==> #[trigger] v@[i]@ == self.db.all_live()[i]@)
            },
    {
        let mut out: Vec<NativeRecord> = Vec::new();
        let ghost locals = local_live_seq(self.db.local@);
        let ghost mirrors = mirror_live_seq(self.db.mirror@);
        let n = self.db.local.len();
        let mut i: usize = 0;
        proof {
            assert(self.db.local@.take(0) =~= Seq::<LocalRow>::empty());
        }
        while i < n
            invariant
                n == self.db.local.len(),
                0 <= i <= n,
                locals == local_live_seq(self.db.local@),
                out@.len() == local_live_seq(self.db.local@.take(i as int)).len(),
                forall|j: int|
                    0 <= j < out@.len() ==> #[trigger] out@[j]@ == local_live_seq(
                        self.db.local@.take(i as int),
                    )[j]@,
            decreases n - i,
        {
            if !self.db.local[i].is_deleted {
                match self.info.local_to_native(&self.db.local[i].record_data) {
                    Ok(converted) => {
                        out.push(converted);
                    },
                    Err(e) => {
                        return Err(e);
                    },
                }
            }
            proof {
                lemma_local_live_take(self.db.local@, i as int);
            }
            i += 1;
        }
        proof {
            assert(self.db.local@.take(n as int) =~= self.db.local@);
            assert(self.db.mirror@.take(0) =~= Seq::<MirrorRow>::empty());
        }
        let m = self.db.mirror.len();
        let mut k: usize = 0;
        while k < m
            invariant
                m == self.db.mirror.len(),
                0 <= k <= m,
                locals == local_live_seq(self.db.local@),
                mirrors == mirror_live_seq(self.db.mirror@),
                out@.len() == locals.len() + mirror_live_seq(self.db.mirror@.take(k as int)).len(),
                forall|j: int|
                    0 <= j < locals.len() ==> #[trigger] out@[j]@ == locals[j]@,
                forall|j: int|
                    locals.len() <= j < out@.len() ==> #[trigger] out@[j]@ == mirror_live_seq(
                        self.db.mirror@.take(k as int),
                    )[j - locals.len()]@,
            decreases m - k,
        {
            if !self.db.mirror[k].is_overridden {
                match self.info.local_to_native(&self.db.mirror[k].record_data) {
                    Ok(converted) => {
                        out.push(converted);
                    },
                    Err(e) => {
                        return Err(e);
                    },
                }
            }
            proof {
                lemma_mirror_live_take(self.db.mirror@, k as int);
            }
            k += 1;
        }
        proof {
            assert(self.db.mirror@.take(m as int) =~= self.db.mirror@);
        }
        Ok(out)
    }

    /// Replace the local schema: classify the transition from the current
    /// local schema, refuse one that would require re-deduplication, store
    /// the new schema under its version, record the new local schema
    /// version, and swap the bundle's local schema.
    pub fn upgrade_local(&mut self, new_local: RecordSchema) -> (r: Result<(), ErrorKind>)
        requires
            old(self).wf(),
        ensures
            final (self).wf(),
            final (self).client_id == old(self).client_id,
            final (self).info.native == old(self).info.native,
            final (self).info.collection_name == old(self).info.collection_name,
            final (self).db.local == old(self).db.local,
            final (self).db.mirror == old(self).db.mirror,
            r is Err ==> *final (self) == *old(self),
            (r is Ok <==> upgrade_between(old(self).info.local@, new_local@)
                != UpgradeKind::RequiresDedupe),
            match r {
                Ok(_) => {
                    &&& final (self).info.local@ == new_local@
                    &&& final (self).db.meta.spec_get(MetaKey::LocalSchemaVersion) == Some(
                        MetaValueV::Version(new_local@.version),
                    )
                    &&& (forall|k: MetaKey|
                        k != MetaKey::LocalSchemaVersion ==> final (self).db.meta.spec_get(k)
                            == old(self).db.meta.spec_get(k))
                    &&& (final (self).db.schema_row(new_local@.version) matches Some(row)
                        && row.schema@ == new_local@)
                    &&& (forall|v: SchemaVersion|
                        v != new_local@.version ==> final (self).db.schema_row(v) == old(
                            self,
                        ).db.schema_row(v))
                },
                Err(e) => e matches ErrorKind::NotYetImplemented(_),
            },
    {
        let kind = UpgradeKind::between(&self.info.local, &new_local);
        if kind == UpgradeKind::RequiresDedupe {
            return Err(
                ErrorKind::NotYetImplemented(
                    "upgrades that add items to dedupe_on".to_owned(),
                ),
            );
        }
        let ghost pre = *self;
        let row = SchemaRow {
            is_legacy: new_local.legacy,
            version: new_local.version,
            required_version: new_local.required_version.clone(),
            schema_text: new_local.source.clone(),
            schema: new_local.duplicate(),
        };
        match schema_idx(&self.db.schemas, &new_local.version) {
            Some(i) => {
                self.db.schemas[i] = row;
                proof {
                    assert forall|v: SchemaVersion|
                        find_schema(self.db.schemas@, v) == if v == new_local@.version {
                            Some(self.db.schemas@[i as int])
                        } else {
                            find_schema(pre.db.schemas@, v)
                        } by {
                        lemma_find_schema_update(
                            pre.db.schemas@,
                            i as int,
                            self.db.schemas@[i as int],
                            v,
                        );
                    }
                    assert forall|a: int, b: int|
                        0 <= a < b < self.db.schemas@.len() implies self.db.schemas@[a].version
                        != self.db.schemas@[b].version by {
                        assert(self.db.schemas@[a].version == pre.db.schemas@[a].version);
                        assert(self.db.schemas@[b].version == pre.db.schemas@[b].version);
                    }
                }
            },
            None => {
                self.db.schemas.push(row);
                proof {
                    assert forall|v: SchemaVersion|
                        find_schema(self.db.schemas@, v) == if v == new_local@.version {
                            Some(self.db.schemas@.last())
                        } else {
                            find_schema(pre.db.schemas@, v)
                        } by {
                        lemma_find_schema_push(pre.db.schemas@, self.db.schemas@.last(), v);
                    }
                    assert forall|a: int, b: int|
                        0 <= a < b < self.db.schemas@.len() implies self.db.schemas@[a].version
                        != self.db.schemas@[b].version by {
                        assert(self.db.schemas@[a].version == pre.db.schemas@[a].version);
                        if b < self.db.schemas@.len() - 1 {
                            assert(self.db.schemas@[b].version == pre.db.schemas@[b].version);
                        }
                    }
                }
            },
        }
        self.db.meta.put(MetaKey::LocalSchemaVersion, MetaValue::Version(new_local.version));
        self.info.local = new_local;
        Ok(())
    }

    /// Act on an "upgrade remote" directive from the sync collaborator:
    /// nothing to do for a fresh server or an unknown prior schema; a
    /// transition from the remote schema to the current local schema that
    /// would require re-deduplication is refused. The state never changes.
    pub fn upgrade_remote(&mut self, action: &UpgradeRemote) -> (r: Result<(), ErrorKind>)
        requires
            old(self).wf(),
        ensures
            *final (self) == *old(self),
            (r is Ok <==> (action.fresh_server || (match action.from {
                Some(f) => upgrade_between(f@, old(self).info.local@)
                    != UpgradeKind::RequiresDedupe,
                None => true,
            }))),
            r matches Err(e) ==> e matches ErrorKind::NotYetImplemented(_),
    {
        if action.fresh_server {
            return Ok(());
        }
        let source = match &action.from {
            Some(f) => f,
            None => {
                return Ok(());
            },
        };
        let kind = UpgradeKind::between(source, &self.info.local);
        if kind == UpgradeKind::RequiresDedupe {
            return Err(
                ErrorKind::NotYetImplemented(
                    "upgrades that add items to dedupe_on".to_owned(),
                ),
            );
        }
        Ok(())
    }

    /// Whether sync is locked out: a stored version requirement that the
    /// native schema's version fails to satisfy restricts sync to metadata.
    /// A stored requirement that does not parse only gates an optimization:
    /// it is discarded and no lockout is reported.
    pub fn in_sync_lockout(&mut self) -> (r: Result<bool, ErrorKind>)
        requires
            old(self).wf(),
        ensures
            final (self).wf(),
            final (self).info == old(self).info,
            final (self).client_id == old(self).client_id,
            final (self).db.schemas == old(self).db.schemas,
            final (self).db.local == old(self).db.local,
            final (self).db.mirror == old(self).db.mirror,
            match old(self).db.meta.spec_get(MetaKey::SyncNativeVersionThreshold) {
                None => r matches Ok(b) && b == false && *final (self) == *old(self),
                Some(MetaValueV::Text(s)) => {
                    if req_parses(s) {
                        &&& *final (self) == *old(self)
                        &&& (r matches Ok(b) && b == !req_matches(
                            s,
                            old(self).info.native@.version.major,
                            old(self).info.native@.version.minor,
                            old(self).info.native@.version.patch,
                        ))
                    } else {
                        &&& (r matches Ok(b) && b == false)
                        &&& final (self).db.meta.spec_get(
                            MetaKey::SyncNativeVersionThreshold,
                        ) is None
                        &&& (forall|k: MetaKey|
                            k != MetaKey::SyncNativeVersionThreshold ==> final (self).db.meta.spec_get(
                                k,
                            ) == old(self).db.meta.spec_get(k))
                    }
                },
                Some(_) => {
                    &&& (r matches Ok(b) && b == false)
                    &&& final (self).db.meta.spec_get(MetaKey::SyncNativeVersionThreshold) is None
                    &&& (forall|k: MetaKey|
                        k != MetaKey::SyncNativeVersionThreshold ==> final (self).db.meta.spec_get(
                            k,
                        ) == old(self).db.meta.spec_get(k))
                },
            },
    {
        let stored: String = match self.db.meta.try_get(MetaKey::SyncNativeVersionThreshold) {
            None => {
                return Ok(false);
            },
            Some(MetaValue::Text(s)) => s,
            Some(_) => {
                self.db.meta.delete(MetaKey::SyncNativeVersionThreshold);
                return Ok(false);
            },
        };
        match parse_version_req(stored.as_str()) {
            Ok(req) => Ok(
                !version_req_matches(
                    &req,
                    self.info.native.version.major,
                    self.info.native.version.minor,
                    self.info.native.version.patch,
                ),
            ),
            Err(_) => {
                // Discard the illegal requirement: it only gates an
                // optimization, not correctness.
                self.db.meta.delete(MetaKey::SyncNativeVersionThreshold);
                Ok(false)
            },
        }
    }

    /// The sync collaborator's write path: store the last synchronized
    /// payload for a guid in the mirror, marked overridden exactly when an
    /// overlay row stands under the guid.
    pub fn apply_remote_record(
        &mut self,
        guid: String,
        record_data: LocalRecord,
        vector_clock: VClock,
        last_writer_id: String,
    ) -> (r: Result<(), ErrorKind>)
        requires
            old(self).wf(),
        ensures
            final (self).wf(),
            final (self).info == old(self).info,
            final (self).client_id == old(self).client_id,
            final (self).db.schemas == old(self).db.schemas,
            final (self).db.local == old(self).db.local,
            final (self).db.meta == old(self).db.meta,
            r is Ok,
            (final (self).db.mirror_row(guid@) matches Some(m) && {
                &&& m.guid@ == guid@
                &&& m.record_data == record_data
                &&& m.vector_clock == vector_clock
                &&& m.last_writer_id == last_writer_id
                &&& m.is_overridden == (old(self).db.local_row(guid@) is Some)
            }),
            (forall|g2: Seq<char>|
                g2 != guid@ ==> final (self).db.mirror_row(g2) == old(self).db.mirror_row(g2)),
    {
        let overridden = match local_idx(&self.db.local, guid.as_str()) {
            Some(_) => true,
            None => false,
        };
        let ghost pre = *self;
        let row = MirrorRow {
            guid,
            record_data,
            vector_clock,
            last_writer_id,
            is_overridden: overridden,
        };
        match mirror_idx(&self.db.mirror, row.guid.as_str()) {
            Some(i) => {
                self.db.mirror[i] = row;
                proof {
                    assert forall|g2: Seq<char>|
                        find_mirror(self.db.mirror@, g2) == if g2 == pre.db.mirror@[i as int].guid@ {
                            Some(self.db.mirror@[i as int])
                        } else {
                            find_mirror(pre.db.mirror@, g2)
                        } by {
                        lemma_find_mirror_update(
                            pre.db.mirror@,
                            i as int,
                            self.db.mirror@[i as int],
                            g2,
                        );
                    }
                    assert forall|a: int, b: int|
                        0 <= a < b < self.db.mirror@.len() implies self.db.mirror@[a].guid@
                        != self.db.mirror@[b].guid@ by {
                        assert(self.db.mirror@[a].guid@ == pre.db.mirror@[a].guid@);
                        assert(self.db.mirror@[b].guid@ == pre.db.mirror@[b].guid@);
                    }
                    assert forall|i2: int|
                        0 <= i2 < self.db.mirror@.len() && find_local(
                            self.db.local@,
                            #[trigger] self.db.mirror@[i2].guid@,
                        ) is Some implies self.db.mirror@[i2].is_overridden by {
                        if i2 != i as int {
                            assert(self.db.mirror@[i2] == pre.db.mirror@[i2]);
                        }
                    }
                }
            },
            None => {
                self.db.mirror.push(row);
                proof {
                    assert forall|g2: Seq<char>|
                        find_mirror(self.db.mirror@, g2) == if g2 == self.db.mirror@.last().guid@ {
                            Some(self.db.mirror@.last())
                        } else {
                            find_mirror(pre.db.mirror@, g2)
                        } by {
                        lemma_find_mirror_push(pre.db.mirror@, self.db.mirror@.last(), g2);
                    }
                    assert forall|a: int, b: int|
                        0 <= a < b < self.db.mirror@.len() implies self.db.mirror@[a].guid@
                        != self.db.mirror@[b].guid@ by {
                        assert(self.db.mirror@[a].guid@ == pre.db.mirror@[a].guid@);
                        if b < self.db.mirror@.len() - 1 {
                            assert(self.db.mirror@[b].guid@ == pre.db.mirror@[b].guid@);
                        }
                    }
                    assert forall|i2: int|
                        0 <= i2 < self.db.mirror@.len() && find_local(
                            self.db.local@,
                            #[trigger] self.db.mirror@[i2].guid@,
                        ) is Some implies self.db.mirror@[i2].is_overridden by {
                        if i2 != self.db.mirror@.len() - 1 {
                            assert(self.db.mirror@[i2] == pre.db.mirror@[i2]);
                        }
                    }
                }
            },
        }
        Ok(())
    }

    /// The live record under `id`, converted to native shape.
    pub fn get_by_id(&self, id: &str) -> (r: Result<Option<NativeRecord>, ErrorKind>)
        ensures
            r matches Ok(o) && (match o {
                Some(n) => self.db.live(id@) matches Some(rec) && n@ == rec@,
                None => self.db.live(id@) is None,
            }),
    {
        match self.live_record_ref(id) {
            Some(rec) => {
                match self.info.local_to_native(rec) {
                    Ok(n) => Ok(Some(n)),
                    Err(e) => Err(e),
                }
            },
            None => Ok(None),
        }
    }
}

} // verus!
