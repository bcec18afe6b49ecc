use vstd::prelude::*;
use vstd::rwlock::{RwLock, RwLockPredicate};
use crate::config::{BotConfig, ReloadOutcome, Snapshot};
use crate::matcher::patterns_compile;

verus! {

/// The store's invariant: every snapshot ever held is well formed, so a
/// configuration is only ever paired with the matcher compiled from its own
/// pattern list.
pub struct SnapshotInv {}

impl RwLockPredicate<Snapshot> for SnapshotInv {
    open spec fn inv(self, s: Snapshot) -> bool {
        s.wf()
    }
}

/// Owns the current snapshot under single-writer/many-reader discipline.
/// Readers and the writer serialize on the lock, so a read sees either the
/// previous whole snapshot or the next whole snapshot, never a mix.
pub struct ConfigStore {
    cell: RwLock<Snapshot, SnapshotInv>,
}

impl ConfigStore {
    pub fn new(snapshot: Snapshot) -> (s: Self)
        requires
            snapshot.wf(),
    {
        ConfigStore { cell: RwLock::new(snapshot, Ghost(SnapshotInv {  })) }
    }

    /// One atomic read. The returned pair is well formed: its configuration
    /// and matcher were produced together by the same replacement, never
    /// crossed from two different ones.
    pub fn read(&self) -> (r: Snapshot)
        ensures
            r.wf(),
    {
        let handle = self.cell.acquire_read();
        let r = handle.borrow().duplicate();
        handle.release_read();
        r
    }

    /// Atomically installs a whole new snapshot in place of the old one.
    pub fn replace(&self, snapshot: Snapshot)
        requires
            snapshot.wf(),
    {
        let (_old_snapshot, write_handle) = self.cell.acquire_write();
        write_handle.release_write(snapshot);
    }

    /// One whole reload attempt against the store: installs the loaded
    /// configuration paired with a freshly compiled matcher, or — when
    /// nothing was loaded or a pattern fails to compile — leaves the store's
    /// contents untouched.
    pub fn apply_reload(&self, loaded: Option<BotConfig>) -> (r: ReloadOutcome)
        ensures
            (r is Updated) <==> (loaded is Some && patterns_compile(
                (loaded->0).torrent_patterns.deep_view(),
            )),
            (r is ReadFailed) <==> (loaded is None),
    {
        let current = self.read();
        let (next, outcome) = crate::config::next_snapshot(current, loaded);
        match outcome {
            ReloadOutcome::Updated => {
                self.replace(next);
                ReloadOutcome::Updated
            },
            other => other,
        }
    }
}

} // verus!
