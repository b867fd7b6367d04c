//! Typed metadata persistence: well-known keys mapped to typed values.
//!
//! The store keeps the collection name, the local and native schema
//! versions, the installation's own client id, the global change counter,
//! and an optional sync lockout threshold.

use vstd::prelude::*;
use crate::error::ErrorKind;
use crate::schema::SchemaVersion;

verus! {

/// The well-known metadata keys.
#[derive(Debug, Clone, Copy, PartialEq, Eq, Structural)]
pub enum MetaKey {
    /// The collection's name.
    CollectionName,
    /// The version of the schema records are stored under.
    LocalSchemaVersion,
    /// The version of the schema the application last opened with.
    NativeSchemaVersion,
    /// This installation's own client id.
    OwnClientId,
    /// The global change counter.
    ChangeCounter,
    /// A version requirement some peer declared; while stored, sync is
    /// restricted to metadata.
    SyncNativeVersionThreshold,
}

impl MetaKey {
    /// The key's name in the metadata table.
    pub fn name(&self) -> (r: &'static str)
        ensures
            r@ == self.spec_name(),
    {
        match self {
            MetaKey::CollectionName => "remerge/collection-name",
            MetaKey::LocalSchemaVersion => "remerge/local-schema-version",
            MetaKey::NativeSchemaVersion => "remerge/native-schema-version",
            MetaKey::OwnClientId => "remerge/client-id",
            MetaKey::ChangeCounter => "remerge/change-counter",
            MetaKey::SyncNativeVersionThreshold => "remerge/sync-native-version-threshold",
        }
    }

    /// The key's name, as a sequence of characters.
    pub open spec fn spec_name(self) -> Seq<char> {
        match self {
            MetaKey::CollectionName => "remerge/collection-name"@,
            MetaKey::LocalSchemaVersion => "remerge/local-schema-version"@,
            MetaKey::NativeSchemaVersion => "remerge/native-schema-version"@,
            MetaKey::OwnClientId => "remerge/client-id"@,
            MetaKey::ChangeCounter => "remerge/change-counter"@,
            MetaKey::SyncNativeVersionThreshold => "remerge/sync-native-version-threshold"@,
        }
    }
}

/// A metadata value: text, an unsigned count, or a schema version.
#[derive(Debug, Clone, PartialEq)]
pub enum MetaValue {
    Text(String),
    Uint(u64),
    Version(SchemaVersion),
}

/// Spec-level form of a metadata value.
pub enum MetaValueV {
    Text(Seq<char>),
    Uint(u64),
    Version(SchemaVersion),
}

impl View for MetaValue {
    type V = MetaValueV;

    open spec fn view(&self) -> MetaValueV {
        match self {
            MetaValue::Text(s) => MetaValueV::Text(s@),
            MetaValue::Uint(n) => MetaValueV::Uint(*n),
            MetaValue::Version(v) => MetaValueV::Version(*v),
        }
    }
}

impl MetaValue {
    /// An equal copy of the value.
    pub fn duplicate(&self) -> (r: MetaValue)
        ensures
            r == *self,
    {
        match self {
            MetaValue::Text(s) => MetaValue::Text(s.clone()),
            MetaValue::Uint(n) => MetaValue::Uint(*n),
            MetaValue::Version(v) => MetaValue::Version(*v),
        }
    }
}

/// The value stored under `k`: the first entry with that key, if any.
pub open spec fn meta_get(es: Seq<(MetaKey, MetaValueV)>, k: MetaKey) -> Option<MetaValueV>
    decreases es.len(),
{
    if es.len() == 0 {
        Option::None
    } else if es[0].0 == k {
        Option::Some(es[0].1)
    } else {
        meta_get(es.drop_first(), k)
    }
}

proof fn lemma_meta_get_update(
    es: Seq<(MetaKey, MetaValueV)>,
    i: int,
    k: MetaKey,
    v: MetaValueV,
    k2: MetaKey,
)
    requires
        0 <= i < es.len(),
        es[i].0 == k,
        forall|j: int| 0 <= j < i ==> es[j].0 != k,
    ensures
        meta_get(es.update(i, (k, v)), k2) == if k2 == k {
            Option::Some(v)
        } else {
            meta_get(es, k2)
        },
    decreases i,
{
    let es2 = es.update(i, (k, v));
    if i == 0 {
        assert(es2.drop_first() =~= es.drop_first());
    } else {
        assert(es2[0] == es[0]);
        assert(es.drop_first()[i - 1].0 == k);
        assert(forall|j: int| 0 <= j < i - 1 ==> es.drop_first()[j].0 != k);
        lemma_meta_get_update(es.drop_first(), i - 1, k, v, k2);
        assert(es2.drop_first() =~= es.drop_first().update(i - 1, (k, v)));
    }
}

proof fn lemma_meta_get_push(es: Seq<(MetaKey, MetaValueV)>, k: MetaKey, v: MetaValueV, k2: MetaKey)
    requires
        forall|j: int| 0 <= j < es.len() ==> es[j].0 != k,
    ensures
        meta_get(es.push((k, v)), k2) == if k2 == k {
            Option::Some(v)
        } else {
            meta_get(es, k2)
        },
    decreases es.len(),
{
    let es2 = es.push((k, v));
    if es.len() == 0 {
        assert(es2[0] == (k, v));
        assert(es2.drop_first() =~= Seq::<(MetaKey, MetaValueV)>::empty());
        assert(meta_get(Seq::<(MetaKey, MetaValueV)>::empty(), k2) is None);
    } else {
        assert(es2[0] == es[0]);
        assert forall|j: int| 0 <= j < es.drop_first().len() implies es.drop_first()[j].0 != k by {
            assert(es.drop_first()[j] == es[j + 1]);
        }
        lemma_meta_get_push(es.drop_first(), k, v, k2);
        assert(es2.drop_first() =~= es.drop_first().push((k, v)));
    }
}

proof fn lemma_meta_get_remove(es: Seq<(MetaKey, MetaValueV)>, i: int, k2: MetaKey)
    requires
        0 <= i < es.len(),
        forall|j: int| 0 <= j < es.len() && j != i ==> es[j].0 != es[i].0,
    ensures
        meta_get(es.remove(i), k2) == if k2 == es[i].0 {
            Option::None
        } else {
            meta_get(es, k2)
        },
    decreases i,
{
    let es2 = es.remove(i);
    if i == 0 {
        assert(es2 =~= es.drop_first());
        if k2 == es[0].0 {
            lemma_meta_get_absent(es.drop_first(), k2);
        }
    } else {
        assert(es2[0] == es[0]);
        assert forall|j: int|
            0 <= j < es.drop_first().len() && j != i - 1 implies #[trigger] es.drop_first()[j].0
            != es.drop_first()[i - 1].0 by {
            assert(es.drop_first()[j] == es[j + 1]);
            assert(es.drop_first()[i - 1] == es[i]);
        }
        lemma_meta_get_remove(es.drop_first(), i - 1, k2);
        assert(es2.drop_first() =~= es.drop_first().remove(i - 1));
    }
}

proof fn lemma_meta_get_absent(es: Seq<(MetaKey, MetaValueV)>, k: MetaKey)
    requires
        forall|j: int| 0 <= j < es.len() ==> es[j].0 != k,
    ensures
        meta_get(es, k) is None,
    decreases es.len(),
{
    if es.len() > 0 {
        assert forall|j: int| 0 <= j < es.drop_first().len() implies es.drop_first()[j].0 != k by {
            assert(es.drop_first()[j] == es[j + 1]);
        }
        lemma_meta_get_absent(es.drop_first(), k);
    }
}

/// The metadata table: well-known keys mapped to typed values, each key at
/// most once.
#[derive(Debug, Clone, PartialEq)]
pub struct MetaStore {
    pub entries: Vec<(MetaKey, MetaValue)>,
}

impl View for MetaStore {
    type V = Seq<(MetaKey, MetaValueV)>;

    open spec fn view(&self) -> Seq<(MetaKey, MetaValueV)> {
        self.entries@.map_values(|e: (MetaKey, MetaValue)| (e.0, e.1@))
    }
}

impl MetaStore {
    /// Each key appears at most once.
    pub open spec fn wf(self) -> bool {
        forall|i: int, j: int| 0 <= i < j < self@.len() ==> self@[i].0 != self@[j].0
    }

    /// The value stored under `k`, if any.
    pub open spec fn spec_get(self, k: MetaKey) -> Option<MetaValueV> {
        meta_get(self@, k)
    }

    /// An empty metadata table.
    pub fn new() -> (r: MetaStore)
        ensures
            r.wf(),
            forall|k: MetaKey| r.spec_get(k) is None,
    {
        let r = MetaStore { entries: Vec::new() };
        proof {
            assert(r@ =~= Seq::<(MetaKey, MetaValueV)>::empty());
        }
        r
    }

    /// Read the value stored under `key`, if any.
    pub fn try_get(&self, key: MetaKey) -> (r: Option<MetaValue>)
        ensures
            match r {
                Some(v) => self.spec_get(key) == Some(v@),
                None => self.spec_get(key) is None,
            },
    {
        let n = self.entries.len();
        let mut i: usize = 0;
        proof {
            assert(self@.skip(0) =~= self@);
        }
        while i < n
            invariant
                n == self.entries.len(),
                0 <= i <= n,
                self@.len() == n,
                meta_get(self@, key) == meta_get(self@.skip(i as int), key),
                forall|j: int| 0 <= j < self@.len()
                    ==> #[trigger] self@[j] == (self.entries@[j].0, self.entries@[j].1@),
            decreases n - i,
        {
            proof {
                assert(self@.skip(i as int)[0] == self@[i as int]);
            }
            if self.entries[i].0 == key {
                return Some(self.entries[i].1.duplicate());
            }
            proof {
                assert(self@.skip(i as int).drop_first() =~= self@.skip(i as int + 1));
            }
            i += 1;
        }
        proof {
            assert(self@.skip(i as int).len() == 0);
        }
        None
    }

    /// Read the value stored under `key`; a missing entry is reported as
    /// corruption.
    pub fn get(&self, key: MetaKey) -> (r: Result<MetaValue, ErrorKind>)
        ensures
            match r {
                Ok(v) => self.spec_get(key) == Some(v@),
                Err(e) => self.spec_get(key) is None && e matches ErrorKind::InvariantViolation(_),
            },
    {
        match self.try_get(key) {
            Some(v) => Ok(v),
            None => Err(ErrorKind::InvariantViolation(key.name().to_owned())),
        }
    }

    /// Store `value` under `key`, replacing any previous value.
    pub fn put(&mut self, key: MetaKey, value: MetaValue)
        requires
            old(self).wf(),
        ensures
            final (self).wf(),
            forall|k2: MetaKey|
                final (self).spec_get(k2) == if k2 == key {
                    Some(value@)
                } else {
                    old(self).spec_get(k2)
                },
    {
        let ghost orig = self@;
        let ghost vv = value@;
        let n = self.entries.len();
        let mut i: usize = 0;
        while i < n
            invariant
                n == self.entries.len(),
                orig == self@,
                old(self).wf(),
                orig == old(self)@,
                vv == value@,
                0 <= i <= n,
                forall|j: int| 0 <= j < i ==> orig[j].0 != key,
            decreases n - i,
        {
            if self.entries[i].0 == key {
                self.entries[i] = (key, value);
                proof {
                    assert(self@ =~= orig.update(i as int, (key, vv)));
                    assert forall|k2: MetaKey|
                        self.spec_get(k2) == if k2 == key {
                            Some(vv)
                        } else {
                            old(self).spec_get(k2)
                        } by {
                        lemma_meta_get_update(orig, i as int, key, vv, k2);
                    }
                    assert forall|a: int, b: int| 0 <= a < b < self@.len() implies self@[a].0
                        != self@[b].0 by {
                        assert(self@[a].0 == orig[a].0);
                        assert(self@[b].0 == orig[b].0);
                    }
                }
                return ;
            }
            i += 1;
        }
        self.entries.push((key, value));
        proof {
            assert(self@ =~= orig.push((key, vv)));
            assert forall|k2: MetaKey|
                self.spec_get(k2) == if k2 == key {
                    Some(vv)
                } else {
                    old(self).spec_get(k2)
                } by {
                lemma_meta_get_push(orig, key, vv, k2);
            }
        }
    }

    /// Remove the value stored under `key`, if any.
    pub fn delete(&mut self, key: MetaKey)
        requires
            old(self).wf(),
        ensures
            final (self).wf(),
            final (self).spec_get(key) is None,
            forall|k2: MetaKey| k2 != key ==> final (self).spec_get(k2) == old(self).spec_get(k2),
    {
        let ghost orig = self@;
        let n = self.entries.len();
        let mut i: usize = 0;
        while i < n
            invariant
                n == self.entries.len(),
                orig == self@,
                old(self).wf(),
                orig == old(self)@,
                0 <= i <= n,
                forall|j: int| 0 <= j < i ==> orig[j].0 != key,
            decreases n - i,
        {
            if self.entries[i].0 == key {
                self.entries.remove(i);
                proof {
                    assert(self@ =~= orig.remove(i as int));
                    assert(orig[i as int].0 == key);
                    assert forall|k2: MetaKey|
                        meta_get(self@, k2) == if k2 == key {
                            Option::<MetaValueV>::None
                        } else {
                            meta_get(orig, k2)
                        } by {
                        lemma_meta_get_remove(orig, i as int, k2);
                    }
                    assert forall|a: int, b: int| 0 <= a < b < self@.len() implies self@[a].0
                        != self@[b].0 by {
                        if b < i {
                            assert(self@[a].0 == orig[a].0);
                            assert(self@[b].0 == orig[b].0);
                        } else if a < i && b >= i {
                            assert(self@[a].0 == orig[a].0);
                            assert(self@[b].0 == orig[b + 1].0);
                        } else {
                            assert(self@[a].0 == orig[a + 1].0);
                            assert(self@[b].0 == orig[b + 1].0);
                        }
                    }
                }
                return ;
            }
            i += 1;
        }
        proof {
            lemma_meta_get_absent(orig, key);
        }
    }
}

} // verus!
