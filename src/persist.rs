use vstd::prelude::*;
use vstd::string::StringExecFns;
use crate::cache::{host_map, region_map, views, Cache};
use crate::record::{RecordView, ServerCache};
use crate::time::{window, Timestamp, FRESHNESS_SECS, NANOS_PER_SEC};

verus! {

/// The persisted form of a cache: the version that wrote it, when its
/// record set was created, and the records.
pub struct Snapshot {
    pub version: String,
    pub created: Timestamp,
    pub records: Vec<ServerCache>,
}

/// The mathematical content of a snapshot.
pub struct SnapshotView {
    pub version: Seq<char>,
    pub created: Timestamp,
    pub records: Seq<RecordView>,
}

impl View for Snapshot {
    type V = SnapshotView;

    open spec fn view(&self) -> SnapshotView {
        SnapshotView { version: self.version@, created: self.created, records: views(self.records@) }
    }
}

/// Why a snapshot was not accepted.
#[derive(Clone, Copy, Debug, PartialEq, Eq, Structural)]
pub enum LoadError {
    /// There is no snapshot.
    NotFound,
    /// The snapshot was written by another version.
    VersionMismatch,
    /// The snapshot claims to have been created after now.
    CreatedInFuture,
    /// The snapshot is older than the freshness window.
    Stale,
}

/// The view of what was read from disk.
pub open spec fn found_view(found: Option<Snapshot>) -> Option<SnapshotView> {
    match found {
        Some(s) => Some(s@),
        None => None,
    }
}

/// The snapshot that saving `c` under the version `running` writes.
pub open spec fn saved(c: Cache, running: Seq<char>) -> SnapshotView {
    SnapshotView { version: running, created: c.created_at(), records: c.records() }
}

/// What loading gives: the records and creation time, or the error. The
/// version is checked first, then the age.
pub open spec fn loaded(found: Option<SnapshotView>, running: Seq<char>, now: Timestamp)
    -> Result<(Seq<RecordView>, Timestamp), LoadError>
{
    match found {
        None => Err(LoadError::NotFound),
        Some(s) => {
            if s.version != running {
                Err(LoadError::VersionMismatch)
            } else if s.created.total() > now.total() {
                Err(LoadError::CreatedInFuture)
            } else if now.total() - s.created.total() > window() {
                Err(LoadError::Stale)
            } else {
                Ok((s.records, s.created))
            }
        }
    }
}

/// Builds the snapshot of `cache` that is written to disk.
pub fn snapshot_of(cache: &Cache, running: &str) -> (r: Snapshot)
    ensures
        r@ == saved(*cache, running@),
{
    Snapshot { version: String::from_str(running), created: cache.created(), records: cache.records_vec() }
}

/// Turns what was read from disk into a cache: `None` when no snapshot
/// file exists, else the decoded snapshot, checked against the running
/// version and the time `now`.
pub fn read_cache(found: Option<Snapshot>, running: &str, now: Timestamp) -> (r: Result<Cache, LoadError>)
    ensures
        match r {
            Ok(c) => c.wf() && loaded(found_view(found), running@, now) == Ok::<(Seq<RecordView>, Timestamp), LoadError>((c.records(), c.created_at())),
            Err(e) => loaded(found_view(found), running@, now) == Err::<(Seq<RecordView>, Timestamp), LoadError>(e),
        },
{
    match found {
        None => Err(LoadError::NotFound),
        Some(snapshot) => {
            let running_owned = String::from_str(running);
            if snapshot.version != running_owned {
                return Err(LoadError::VersionMismatch);
            }
            let created = snapshot.created.total_nanos();
            let now_total = now.total_nanos();
            if created > now_total {
                return Err(LoadError::CreatedInFuture);
            }
            if now_total - created > FRESHNESS_SECS as u128 * NANOS_PER_SEC {
                return Err(LoadError::Stale);
            }
            Ok(Cache::from(snapshot.records, snapshot.created))
        }
    }
}

/// Saving a cache and loading the snapshot back under the same version,
/// within the freshness window, gives the same records in the same order
/// and the same creation time; the loaded cache's indexes, which are those
/// rebuilt from the records, are the ones the saved cache had.
pub proof fn lemma_save_load_round_trip(c: Cache, running: Seq<char>, now: Timestamp)
    requires
        c.wf(),
        c.created_at().total() <= now.total() <= c.created_at().total() + window(),
    ensures
        loaded(Some(saved(c, running)), running, now) == Ok::<(Seq<RecordView>, Timestamp), LoadError>((c.records(), c.created_at())),
        host_map(c.records()) == c.hosts(),
        region_map(c.records()) == c.regions(),
{
}

/// A snapshot written by the running version 25 hours before now is stale.
pub proof fn lemma_day_old_snapshot_is_stale(s: SnapshotView, running: Seq<char>, now: Timestamp)
    requires
        s.version == running,
        now.total() == s.created.total() + 25 * 3600 * 1_000_000_000,
    ensures
        loaded(Some(s), running, now) == Err::<(Seq<RecordView>, Timestamp), LoadError>(LoadError::Stale),
{
}

/// A snapshot of another version is refused as such, whatever its age.
pub proof fn lemma_other_version_refused(s: SnapshotView, running: Seq<char>, now: Timestamp)
    requires
        s.version != running,
    ensures
        loaded(Some(s), running, now) == Err::<(Seq<RecordView>, Timestamp), LoadError>(LoadError::VersionMismatch),
{
}

/// Without a snapshot, loading fails with `NotFound`.
pub proof fn lemma_missing_snapshot(running: Seq<char>, now: Timestamp)
    ensures
        loaded(None, running, now) == Err::<(Seq<RecordView>, Timestamp), LoadError>(LoadError::NotFound),
{
}

} // verus!
