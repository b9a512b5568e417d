//! The snapshot the next start paints from, before `kubectl` has answered.
//!
//! Pods only: names, statuses, images, owners. Never a log line, never a
//! configmap's data, never a secret's — the types those live in are not in
//! this file and cannot be named from it.

use vstd::prelude::*;

use crate::config::{Scope, ScopeView};
use crate::kube::pod::{copy_pods, pod_views, Pod, PodView};
use crate::timestamp::Timestamp;

verus! {

/// The schema this build writes. A file of any other version is ignored
/// rather than migrated: it is a cache, and the next read rewrites it.
pub const VERSION: u32 = 1;

/// One scope's last read.
#[derive(Debug)]
pub struct CachedScope {
    pub scope: Scope,
    pub read_at: Timestamp,
    pub pods: Vec<Pod>,
}

pub struct CachedScopeView {
    pub scope: ScopeView,
    pub read_at: int,
    pub pods: Seq<PodView>,
}

impl View for CachedScope {
    type V = CachedScopeView;

    open spec fn view(&self) -> CachedScopeView {
        CachedScopeView {
            scope: self.scope@,
            read_at: self.read_at@,
            pods: pod_views(self.pods@),
        }
    }
}

impl Clone for CachedScope {
    fn clone(&self) -> (copy: Self)
        ensures
            copy@ == self@,
    {
        CachedScope {
            scope: self.scope.clone(),
            read_at: self.read_at,
            pods: copy_pods(&self.pods),
        }
    }
}

/// What each cached scope is.
pub open spec fn cached_views(held: Seq<CachedScope>) -> Seq<CachedScopeView> {
    held.map_values(|scope: CachedScope| scope@)
}

/// What the cache file holds.
#[derive(Debug)]
pub struct Snapshot {
    /// The schema it is written in.
    pub version: u32,
    pub scopes: Vec<CachedScope>,
}

impl View for Snapshot {
    type V = Seq<CachedScopeView>;

    open spec fn view(&self) -> Seq<CachedScopeView> {
        cached_views(self.scopes@)
    }
}

impl Snapshot {
    pub fn new(scopes: Vec<CachedScope>) -> (snapshot: Self)
        ensures
            snapshot.scopes@ == scopes@,
            snapshot.version == VERSION,
    {
        Snapshot { version: VERSION, scopes }
    }

    /// What a file held that says it was written in `version`: nothing, where
    /// that is not the schema this build writes.
    pub fn of_version(version: u32, scopes: Vec<CachedScope>) -> (snapshot: Option<Self>)
        ensures
            snapshot is Some <==> version == VERSION,
            snapshot matches Some(snapshot) ==> snapshot.scopes@ == scopes@
                && snapshot.version == version,
    {
        if version == VERSION {
            Some(Snapshot { version, scopes })
        } else {
            None
        }
    }
}

/// A snapshot of the version this reads is taken as it is, and one of any
/// other not at all; a new one is of that version.
pub proof fn law_only_this_version_is_read(
    version: u32,
    scopes: Vec<CachedScope>,
    read: Option<Snapshot>,
    made: Snapshot,
)
    ensures
        call_ensures(Snapshot::of_version, (version, scopes), read) && version == 1 ==> read is Some
            && read->0.scopes@ == scopes@,
        call_ensures(Snapshot::of_version, (version, scopes), read) && version != 1 ==> read
            is None,
        call_ensures(Snapshot::new, (scopes,), made) ==> made.version == 1 && made.scopes@
            == scopes@,
{
}

} // verus!
