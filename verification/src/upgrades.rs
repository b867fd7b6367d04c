//! Schema-upgrade compatibility classification.
//!
//! A transition that adds dedupe-key fields could make already-stored
//! records collide retroactively; such records would have to be
//! re-deduplicated before the upgrade is safe, which this engine does not
//! implement. Every other transition is compatible.

use vstd::prelude::*;
use crate::schema::{RecordSchema, RecordSchemaV};
use crate::text::str_eq;

verus! {

/// How a schema transition may be applied.
#[derive(Debug, Clone, Copy, PartialEq, Eq, Structural)]
pub enum UpgradeKind {
    /// Source and target are the same version; nothing need change.
    NoOp,
    /// The transition is safe to apply as it stands.
    Compatible,
    /// The target adds dedupe-key fields; stored records would have to be
    /// re-deduplicated first.
    RequiresDedupe,
}

/// Whether every name in `sub` also stands in `sup`.
pub open spec fn names_subset(sub: Seq<Seq<char>>, sup: Seq<Seq<char>>) -> bool {
    forall|i: int| 0 <= i < sub.len() ==> sup.contains(#[trigger] sub[i])
}

/// The classification of the transition from `source` to `target`:
/// `RequiresDedupe` when the target's dedupe-key set is not a subset of the
/// source's; otherwise `NoOp` when the versions agree, else `Compatible`.
pub open spec fn upgrade_between(source: RecordSchemaV, target: RecordSchemaV) -> UpgradeKind {
    if !names_subset(target.dedupe_on, source.dedupe_on) {
        UpgradeKind::RequiresDedupe
    } else if source.version == target.version {
        UpgradeKind::NoOp
    } else {
        UpgradeKind::Compatible
    }
}

/// An "upgrade remote" directive handed in by the sync collaborator: the
/// server is fresh, or the remote schema the server last saw.
pub struct UpgradeRemote {
    /// The server holds no prior state for this collection.
    pub fresh_server: bool,
    /// The schema the remote side is upgrading from, when one is known.
    pub from: Option<RecordSchema>,
}

/// Whether `name` stands among `names`.
fn names_contain(names: &Vec<String>, name: &str) -> (r: bool)
    ensures
        r == names@.map_values(|s: String| s@).contains(name@),
{
    let ghost nv = names@.map_values(|s: String| s@);
    let n = names.len();
    let mut i: usize = 0;
    while i < n
        invariant
            n == names.len(),
            nv == names@.map_values(|s: String| s@),
            nv.len() == n,
            0 <= i <= n,
            forall|j: int| 0 <= j < i ==> nv[j] != name@,
        decreases n - i,
    {
        if str_eq(names[i].as_str(), name) {
            proof {
                assert(nv[i as int] == name@);
            }
            return true;
        }
        i += 1;
    }
    false
}

impl UpgradeKind {
    /// Classify the transition from `source` to `target`.
    pub fn between(source: &RecordSchema, target: &RecordSchema) -> (r: UpgradeKind)
        ensures
            r == upgrade_between(source@, target@),
    {
        let ghost subv = target@.dedupe_on;
        let ghost supv = source@.dedupe_on;
        let n = target.dedupe_on.len();
        let mut i: usize = 0;
        while i < n
            invariant
                n == target.dedupe_on.len(),
                subv == target@.dedupe_on,
                supv == source@.dedupe_on,
                subv.len() == n,
                0 <= i <= n,
                forall|j: int| 0 <= j < i ==> supv.contains(#[trigger] subv[j]),
            decreases n - i,
        {
            if !names_contain(&source.dedupe_on, target.dedupe_on[i].as_str()) {
                proof {
                    assert(!supv.contains(subv[i as int]));
                }
                return UpgradeKind::RequiresDedupe;
            }
            i += 1;
        }
        if source.version.major == target.version.major && source.version.minor
            == target.version.minor && source.version.patch == target.version.patch {
            UpgradeKind::NoOp
        } else {
            UpgradeKind::Compatible
        }
    }
}

} // verus!
