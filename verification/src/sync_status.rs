//! Per-overlay-row sync status, an ordered sum type.
//!
//! The order is `Synced < New < Changed`; local writes only ever promote a
//! row along this order ("promote, never demote"), so a row that carries
//! unsynced local state is never silently reset to the synced baseline.

use vstd::prelude::*;
use crate::error::ErrorKind;

verus! {

/// Whether an overlay row is unmodified since the last sync, newly created,
/// or changed since the last sync.
#[derive(Debug, Clone, Copy, PartialEq, Eq, Structural)]
pub enum SyncStatus {
    /// The row matches the last synchronized state.
    Synced,
    /// The row was created locally and has never been synchronized.
    New,
    /// The row was modified locally after it was last synchronized.
    Changed,
}

impl SyncStatus {
    /// Position of the status in the total order `Synced < New < Changed`.
    pub open spec fn level(self) -> int {
        match self {
            SyncStatus::Synced => 0,
            SyncStatus::New => 1,
            SyncStatus::Changed => 2,
        }
    }

    /// The status `floor` promotes `self` to: the greater of the two.
    pub open spec fn spec_promote(self, floor: SyncStatus) -> SyncStatus {
        if self.level() >= floor.level() {
            self
        } else {
            floor
        }
    }

    /// Executable counterpart of [`Self::level`].
    pub fn level_exec(self) -> (n: u8)
        ensures
            n as int == self.level(),
    {
        match self {
            SyncStatus::Synced => 0,
            SyncStatus::New => 1,
            SyncStatus::Changed => 2,
        }
    }

    /// Promote, never demote: the least status at or above both `self` and
    /// `floor`.
    pub fn promote(self, floor: SyncStatus) -> (r: SyncStatus)
        ensures
            r == self.spec_promote(floor),
            r.level() >= self.level(),
            r.level() >= floor.level(),
    {
        if self.level_exec() >= floor.level_exec() {
            self
        } else {
            floor
        }
    }

    /// Decode a persisted status byte; an illegal byte is reported as
    /// [`ErrorKind::BadSyncStatus`].
    pub fn from_u8(v: u8) -> (r: Result<SyncStatus, ErrorKind>)
        ensures
            r matches Ok(s) <==> v <= 2,
            r matches Ok(s) ==> s.level() == v as int,
            r matches Err(e) ==> e == ErrorKind::BadSyncStatus(v),
    {
        match v {
            0 => Ok(SyncStatus::Synced),
            1 => Ok(SyncStatus::New),
            2 => Ok(SyncStatus::Changed),
            _ => Err(ErrorKind::BadSyncStatus(v)),
        }
    }

    /// Encode the status as its persisted byte.
    pub fn as_u8(self) -> (r: u8)
        ensures
            r as int == self.level(),
    {
        self.level_exec()
    }
}

} // verus!
