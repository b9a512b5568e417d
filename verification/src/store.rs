//! What every tab reads, and the one place a worker event changes anything:
//! one slot per scope, holding the last read's pods and what the last read
//! said when it failed.

use vstd::prelude::*;
use vstd::string::*;

use crate::cache::{cached_views, CachedScope, CachedScopeView, Snapshot, VERSION};
use crate::config::{tab_views, ScopeView, Tab, TabView};
use crate::kube::pod::{copy_pods, pod_views, Pod, PodView};
use crate::kube::watcher::{Event, EventView};
use crate::text::{copy_maybe, maybe, texts};
use crate::timestamp::Timestamp;

verus! {

/// What an event changed, so a screen knows whether to re-filter or leave
/// its cursor alone.
#[derive(Clone, Copy, Debug, PartialEq, Eq, Structural)]
pub enum Applied {
    /// This scope's rows moved.
    Pods(usize),
    /// This scope's read failed: its rows stand and it has a message.
    Failed(usize),
    /// The status bar changed and nothing else.
    Status,
    Nothing,
}

/// One scope's slot.
#[derive(Debug)]
pub struct ScopeData {
    pub pods: Vec<Pod>,
    /// What the last read said when it failed. The rows are the previous
    /// read's and the pane says so.
    pub error: Option<String>,
    /// When the rows were read, or when the cache they came from was written.
    pub read_at: Option<Timestamp>,
    /// How many reads have answered this run, which tells "nothing has come
    /// back yet" from "the namespace is empty".
    pub reads: usize,
    pub reading: bool,
}

pub struct ScopeDataView {
    pub pods: Seq<PodView>,
    pub error: Option<Seq<char>>,
    pub read_at: Option<int>,
    pub reads: int,
    pub reading: bool,
}

impl View for ScopeData {
    type V = ScopeDataView;

    open spec fn view(&self) -> ScopeDataView {
        ScopeDataView {
            pods: pod_views(self.pods@),
            error: maybe(self.error),
            read_at: match self.read_at {
                Some(stamp) => Some(stamp@),
                None => None,
            },
            reads: self.reads as int,
            reading: self.reading,
        }
    }
}

/// How many of the pods somebody has to look at.
pub open spec fn unhealthy_among(pods: Seq<PodView>) -> nat
    decreases pods.len(),
{
    if pods.len() == 0 {
        0
    } else {
        unhealthy_among(pods.drop_last()) + if pods.last().is_unhealthy() {
            1nat
        } else {
            0nat
        }
    }
}

impl ScopeDataView {
    /// A slot that nothing was read into.
    pub open spec fn empty() -> ScopeDataView {
        ScopeDataView { pods: seq![], error: None, read_at: None, reads: 0, reading: false }
    }

    /// A slot that was filled from the cache.
    pub open spec fn cached(held: CachedScopeView) -> ScopeDataView {
        ScopeDataView {
            pods: held.pods,
            read_at: Some(held.read_at),
            ..ScopeDataView::empty()
        }
    }

    /// A read that answered: its rows replace the last, or its message is
    /// kept beside them.
    pub open spec fn after_read(
        self,
        read: Result<Seq<PodView>, Seq<char>>,
        now: int,
    ) -> ScopeDataView {
        let answered = ScopeDataView { reading: false, reads: self.reads + 1, ..self };
        match read {
            Ok(pods) => ScopeDataView { pods, error: None, read_at: Some(now), ..answered },
            Err(message) => ScopeDataView { error: Some(message), ..answered },
        }
    }
}

impl Default for ScopeData {
    fn default() -> (data: Self)
        ensures
            data@ == ScopeDataView::empty(),
    {
        let data = ScopeData {
            pods: Vec::new(),
            error: None,
            read_at: None,
            reads: 0,
            reading: false,
        };
        assert(data@.pods =~= seq![]);
        data
    }
}

impl Clone for ScopeData {
    fn clone(&self) -> (copy: Self)
        ensures
            copy@ == self@,
    {
        ScopeData {
            pods: copy_pods(&self.pods),
            error: copy_maybe(&self.error),
            read_at: self.read_at,
            reads: self.reads,
            reading: self.reading,
        }
    }
}

impl ScopeData {
    /// How many pods somebody has to look at: the tab's badge.
    pub fn unhealthy(&self) -> (count: usize)
        ensures
            count == unhealthy_among(self@.pods),
            count <= self@.pods.len(),
    {
        let ghost all = self@.pods;
        let mut count: usize = 0;
        let mut at: usize = 0;
        while at < self.pods.len()
            invariant
                at <= self.pods@.len(),
                count <= at,
                all == pod_views(self.pods@),
                count == unhealthy_among(all.take(at as int)),
            decreases self.pods@.len() - at,
        {
            assert(all.take(at as int + 1).drop_last() =~= all.take(at as int));
            assert(all.take(at as int + 1).last() == self.pods@[at as int]@);
            if self.pods[at].is_unhealthy() {
                count += 1;
            }
            at += 1;
        }
        assert(all.take(at as int) =~= all);
        count
    }
}

/// Every tab's slot, in the tabs' order.
#[derive(Debug)]
pub struct Store {
    pub scopes: Vec<ScopeData>,
}

impl View for Store {
    type V = Seq<ScopeDataView>;

    open spec fn view(&self) -> Seq<ScopeDataView> {
        self.scopes@.map_values(|slot: ScopeData| slot@)
    }
}

/// What the cache holds of a scope: the first entry of that scope.
pub open spec fn cached_of(
    held: Seq<CachedScopeView>,
    scope: ScopeView,
) -> Option<CachedScopeView>
    decreases held.len(),
{
    if held.len() == 0 {
        None
    } else if held[0].scope == scope {
        Some(held[0])
    } else {
        cached_of(held.skip(1), scope)
    }
}

/// The slots a run opens with: every tab whose scope the cache holds opens
/// on the cached rows.
pub open spec fn opened_with(
    held: Seq<CachedScopeView>,
    tabs: Seq<TabView>,
) -> Seq<ScopeDataView> {
    tabs.map_values(
        |tab: TabView|
            match cached_of(held, tab.scope) {
                Some(held) => ScopeDataView::cached(held),
                None => ScopeDataView::empty(),
            },
    )
}

/// How many tabs have a slot.
pub open spec fn paired(tabs: Seq<TabView>, slots: Seq<ScopeDataView>) -> nat {
    if tabs.len() <= slots.len() {
        tabs.len()
    } else {
        slots.len()
    }
}

/// What the first so many tabs leave in the cache: every scope that has been
/// read at all, in order.
pub open spec fn kept(
    tabs: Seq<TabView>,
    slots: Seq<ScopeDataView>,
    count: nat,
) -> Seq<CachedScopeView>
    decreases count,
{
    if count == 0 {
        seq![]
    } else {
        let before = kept(tabs, slots, (count - 1) as nat);
        let slot = slots[count - 1];
        match slot.read_at {
            Some(read_at) => before.push(
                CachedScopeView { scope: tabs[count - 1].scope, read_at, pods: slot.pods },
            ),
            None => before,
        }
    }
}

/// What the first so many tabs complain of: `qa/dev: message`, in order.
pub open spec fn complaints(
    tabs: Seq<TabView>,
    slots: Seq<ScopeDataView>,
    count: nat,
) -> Seq<Seq<char>>
    decreases count,
{
    if count == 0 {
        seq![]
    } else {
        let before = complaints(tabs, slots, (count - 1) as nat);
        match slots[count - 1].error {
            Some(message) => before.push(tabs[count - 1].scope.describe() + ": "@ + message),
            None => before,
        }
    }
}

/// What an event makes of the slots, when it is applied at `now`. An event
/// of a scope that is not there changes nothing.
pub open spec fn after_event(
    slots: Seq<ScopeDataView>,
    event: EventView,
    now: int,
) -> Seq<ScopeDataView> {
    match event {
        EventView::Reading(index) if 0 <= index < slots.len() => slots.update(
            index,
            ScopeDataView { reading: true, ..slots[index] },
        ),
        EventView::Pods { scope, pods } if 0 <= scope < slots.len() => slots.update(
            scope,
            slots[scope].after_read(pods, now),
        ),
        _ => slots,
    }
}

/// What an event changed.
pub open spec fn change_of(count: nat, event: EventView) -> Applied {
    match event {
        EventView::Reading(index) => if 0 <= index < count {
            Applied::Status
        } else {
            Applied::Nothing
        },
        EventView::Pods { scope, pods } => if !(0 <= scope < count) {
            Applied::Nothing
        } else if pods is Ok {
            Applied::Pods(scope as usize)
        } else {
            Applied::Failed(scope as usize)
        },
        EventView::Stopped => Applied::Status,
    }
}

/// The reads of the scope that an event is about can still be counted.
pub open spec fn can_count(slots: Seq<ScopeDataView>, event: EventView) -> bool {
    event matches EventView::Pods { scope, .. } ==> 0 <= scope < slots.len() ==> slots[scope].reads
        < usize::MAX
}

impl Store {
    /// Empty slots, one per tab.
    pub fn new(count: usize) -> (store: Self)
        ensures
            store@ == Seq::new(count as nat, |at: int| ScopeDataView::empty()),
    {
        let mut scopes: Vec<ScopeData> = Vec::new();
        let mut at: usize = 0;
        while at < count
            invariant
                at <= count,
                scopes@.len() == at,
                forall|k: int|
                    0 <= k < at ==> (#[trigger] scopes@[k])@ == ScopeDataView::empty(),
            decreases count - at,
        {
            scopes.push(ScopeData::default());
            at += 1;
        }
        let store = Store { scopes };
        assert(store@ =~= Seq::new(count as nat, |at: int| ScopeDataView::empty()));
        store
    }

    /// The store as the last run left it: every tab whose scope the cache
    /// holds opens on yesterday's rows, stamped with when they were read.
    pub fn from_cache(snapshot: &Snapshot, tabs: &[Tab]) -> (store: Self)
        ensures
            store@ == opened_with(snapshot@, tab_views(tabs@)),
    {
        let mut scopes: Vec<ScopeData> = Vec::new();
        let ghost all = opened_with(snapshot@, tab_views(tabs@));
        let mut at: usize = 0;
        while at < tabs.len()
            invariant
                at <= tabs@.len(),
                all == opened_with(snapshot@, tab_views(tabs@)),
                scopes@.len() == at,
                forall|k: int| 0 <= k < at ==> (#[trigger] scopes@[k])@ == all[k],
            decreases tabs@.len() - at,
        {
            let slot = match find_cached(&snapshot.scopes, &tabs[at]) {
                Some(held) => ScopeData {
                    pods: copy_pods(&held.pods),
                    error: None,
                    read_at: Some(held.read_at),
                    reads: 0,
                    reading: false,
                },
                None => ScopeData::default(),
            };
            assert(tab_views(tabs@)[at as int] == tabs@[at as int]@);
            assert(slot@ == all[at as int]);
            scopes.push(slot);
            at += 1;
        }
        let store = Store { scopes };
        assert(store@ =~= all);
        store
    }

    /// What the next save writes: every scope that has been read at all.
    pub fn snapshot(&self, tabs: &[Tab]) -> (snapshot: Snapshot)
        ensures
            snapshot@ == kept(tab_views(tabs@), self@, paired(tab_views(tabs@), self@)),
            snapshot.version == VERSION,
    {
        let ghost slots = self@;
        let ghost labels = tab_views(tabs@);
        let mut scopes: Vec<CachedScope> = Vec::new();
        let mut at: usize = 0;
        assert(cached_views(scopes@) =~= seq![]);
        while at < tabs.len() && at < self.scopes.len()
            invariant
                at <= tabs@.len(),
                at <= self.scopes@.len(),
                slots == self@,
                labels == tab_views(tabs@),
                cached_views(scopes@) == kept(labels, slots, at as nat),
            decreases tabs@.len() - at,
        {
            let slot = &self.scopes[at];
            assert(slots[at as int] == slot@);
            assert(labels[at as int] == tabs@[at as int]@);
            if let Some(read_at) = slot.read_at {
                let ghost before = scopes@;
                let held = CachedScope {
                    scope: tabs[at].scope.clone(),
                    read_at,
                    pods: copy_pods(&slot.pods),
                };
                scopes.push(held);
                assert(cached_views(scopes@) =~= cached_views(before).push(held@));
            }
            at += 1;
        }
        Snapshot::new(scopes)
    }

    pub fn scope(&self, index: usize) -> (slot: Option<&ScopeData>)
        ensures
            slot is Some <==> index < self@.len(),
            slot matches Some(slot) ==> slot@ == self@[index as int],
    {
        if index < self.scopes.len() {
            Some(&self.scopes[index])
        } else {
            None
        }
    }

    /// Whether any read is in flight, for the spinner and the poll rate.
    pub fn reading(&self) -> (answer: bool)
        ensures
            answer == exists|at: int| 0 <= at < self@.len() && (#[trigger] self@[at]).reading,
    {
        let mut at: usize = 0;
        while at < self.scopes.len()
            invariant
                at <= self.scopes@.len(),
                forall|k: int| 0 <= k < at ==> !(#[trigger] self@[k]).reading,
            decreases self.scopes@.len() - at,
        {
            if self.scopes[at].reading {
                assert(self@[at as int].reading);
                return true;
            }
            at += 1;
        }
        false
    }

    /// Every scope whose last read failed: `qa/dev: message`, for the help.
    pub fn problems(&self, tabs: &[Tab]) -> (problems: Vec<String>)
        ensures
            texts(problems@) == complaints(
                tab_views(tabs@),
                self@,
                paired(tab_views(tabs@), self@),
            ),
    {
        let ghost slots = self@;
        let ghost labels = tab_views(tabs@);
        let mut problems: Vec<String> = Vec::new();
        let mut at: usize = 0;
        assert(texts(problems@) =~= seq![]);
        while at < tabs.len() && at < self.scopes.len()
            invariant
                at <= tabs@.len(),
                at <= self.scopes@.len(),
                slots == self@,
                labels == tab_views(tabs@),
                texts(problems@) == complaints(labels, slots, at as nat),
            decreases tabs@.len() - at,
        {
            assert(slots[at as int] == self.scopes@[at as int]@);
            assert(labels[at as int] == tabs@[at as int]@);
            if let Some(message) = &self.scopes[at].error {
                let ghost before = problems@;
                let said = tabs[at].scope.describe().concat(": ").concat(message.as_str());
                let ghost line = said@;
                problems.push(said);
                assert(texts(problems@) =~= texts(before).push(line));
            }
            at += 1;
        }
        problems
    }

    /// What an event that came in at `now` changes.
    pub fn apply_at(&mut self, event: Event, now: Timestamp) -> (applied: Applied)
        requires
            can_count(old(self)@, event@),
        ensures
            final(self)@ == after_event(old(self)@, event@, now@),
            applied == change_of(old(self)@.len(), event@),
    {
        let ghost before = self@;
        match event {
            Event::Reading(index) => {
                if index >= self.scopes.len() {
                    return Applied::Nothing;
                }
                assert(before[index as int] == self.scopes@[index as int]@);
                self.scopes[index].reading = true;
                assert(self@ =~= after_event(before, event@, now@));
                Applied::Status
            },
            Event::Pods { scope, pods } => {
                if scope >= self.scopes.len() {
                    return Applied::Nothing;
                }
                assert(before[scope as int] == self.scopes@[scope as int]@);
                self.scopes[scope].reading = false;
                self.scopes[scope].reads = self.scopes[scope].reads + 1;
                match pods {
                    Ok(pods) => {
                        self.scopes[scope].pods = pods;
                        self.scopes[scope].error = None;
                        self.scopes[scope].read_at = Some(now);
                        assert(self@ =~= after_event(before, event@, now@));
                        Applied::Pods(scope)
                    },
                    Err(message) => {
                        self.scopes[scope].error = Some(message);
                        assert(self@ =~= after_event(before, event@, now@));
                        Applied::Failed(scope)
                    },
                }
            },
            Event::Stopped => Applied::Status,
        }
    }

    /// What an event changes, at whatever time it is.
    pub fn apply(&mut self, event: Event) -> (applied: Applied)
        requires
            can_count(old(self)@, event@),
        ensures
            exists|now: int| final(self)@ == #[trigger] after_event(old(self)@, event@, now),
            applied == change_of(old(self)@.len(), event@),
    {
        let now = Timestamp::now();
        self.apply_at(event, now)
    }
}

/// What the cache holds of a tab's scope.
fn find_cached<'a>(held: &'a Vec<CachedScope>, tab: &Tab) -> (found: Option<&'a CachedScope>)
    ensures
        found is Some <==> cached_of(cached_views(held@), tab@.scope) is Some,
        found matches Some(found) ==> cached_of(cached_views(held@), tab@.scope) == Some(found@),
{
    let ghost all = cached_views(held@);
    let mut at: usize = 0;
    assert(all.skip(0) =~= all);
    while at < held.len()
        invariant
            at <= held@.len(),
            all == cached_views(held@),
            cached_of(all, tab@.scope) == cached_of(all.skip(at as int), tab@.scope),
        decreases held@.len() - at,
    {
        assert(all.skip(at as int)[0] == held@[at as int]@);
        if held[at].scope.same(&tab.scope) {
            return Some(&held[at]);
        }
        assert(all.skip(at as int).skip(1) =~= all.skip(at as int + 1));
        at += 1;
    }
    None
}

proof fn lemma_kept_first(
    tabs: Seq<TabView>,
    slots: Seq<ScopeDataView>,
    count: nat,
    index: int,
)
    requires
        0 <= index < count <= tabs.len(),
        count <= slots.len(),
        slots[index].read_at is Some,
        forall|k: int|
            0 <= k < index && slots[k].read_at is Some ==> (#[trigger] tabs[k]).scope
                != tabs[index].scope,
    ensures
        cached_of(kept(tabs, slots, count), tabs[index].scope) == Some(
            CachedScopeView {
                scope: tabs[index].scope,
                read_at: slots[index].read_at->0,
                pods: slots[index].pods,
            },
        ),
    decreases count,
{
    let before = kept(tabs, slots, (count - 1) as nat);
    let scope = tabs[index].scope;
    if count - 1 == index {
        lemma_kept_none(tabs, slots, (count - 1) as nat, scope);
        lemma_cached_push(before, kept(tabs, slots, count).last(), scope);
    } else {
        lemma_kept_first(tabs, slots, (count - 1) as nat, index);
        if slots[count - 1].read_at is Some {
            lemma_cached_push(before, kept(tabs, slots, count).last(), scope);
        }
    }
}

proof fn lemma_kept_none(
    tabs: Seq<TabView>,
    slots: Seq<ScopeDataView>,
    count: nat,
    scope: ScopeView,
)
    requires
        count <= tabs.len(),
        count <= slots.len(),
        forall|k: int|
            0 <= k < count && slots[k].read_at is Some ==> (#[trigger] tabs[k]).scope != scope,
    ensures
        cached_of(kept(tabs, slots, count), scope) is None,
    decreases count,
{
    if count > 0 {
        lemma_kept_none(tabs, slots, (count - 1) as nat, scope);
        if slots[count - 1].read_at is Some {
            assert(tabs[count - 1].scope != scope);
            lemma_cached_push(
                kept(tabs, slots, (count - 1) as nat),
                kept(tabs, slots, count).last(),
                scope,
            );
        }
    }
}

proof fn lemma_cached_push(held: Seq<CachedScopeView>, last: CachedScopeView, scope: ScopeView)
    ensures
        cached_of(held.push(last), scope) == (match cached_of(held, scope) {
            Some(found) => Some(found),
            None => if last.scope == scope {
                Some(last)
            } else {
                None
            },
        }),
    decreases held.len(),
{
    if held.len() == 0 {
        assert(held.push(last).skip(1) =~= seq![]);
        assert(cached_of(held.push(last).skip(1), scope) is None);
    } else {
        assert(held.push(last)[0] == held[0]);
        assert(held.push(last).skip(1) =~= held.skip(1).push(last));
        lemma_cached_push(held.skip(1), last, scope);
    }
}

/// The first tab of this scope that was read stands here.
pub open spec fn first_read(
    tabs: Seq<TabView>,
    slots: Seq<ScopeDataView>,
    scope: ScopeView,
    index: int,
) -> bool {
    &&& 0 <= index < tabs.len()
    &&& tabs[index].scope == scope
    &&& slots[index].read_at is Some
    &&& forall|k: int|
        0 <= k < index && slots[k].read_at is Some ==> (#[trigger] tabs[k]).scope != scope
}

/// The cache round-trips by scope and not by position: a tab of the next run
/// opens on the rows that the first tab of the same scope to be read held,
/// wherever either of them stands, and on nothing where no tab of that scope
/// was read or there was none. What comes out of the cache is no read.
pub proof fn law_the_cache_round_trips_by_scope(
    tabs: Seq<TabView>,
    slots: Seq<ScopeDataView>,
    next: Seq<TabView>,
    place: int,
)
    requires
        tabs.len() == slots.len(),
        0 <= place < next.len(),
    ensures
        forall|index: int| #[trigger]
            first_read(tabs, slots, next[place].scope, index) ==> {
                let opened = opened_with(kept(tabs, slots, tabs.len()), next)[place];
                &&& opened.pods == slots[index].pods
                &&& opened.read_at == slots[index].read_at
                &&& opened.reads == 0
                &&& opened.error is None
                &&& !opened.reading
            },
        (forall|k: int|
            0 <= k < tabs.len() && (#[trigger] tabs[k]).scope == next[place].scope
                ==> slots[k].read_at is None) ==> opened_with(
            kept(tabs, slots, tabs.len()),
            next,
        )[place] == ScopeDataView::empty(),
{
    assert forall|index: int| #[trigger]
        first_read(tabs, slots, next[place].scope, index) implies {
        let opened = opened_with(kept(tabs, slots, tabs.len()), next)[place];
        &&& opened.pods == slots[index].pods
        &&& opened.read_at == slots[index].read_at
        &&& opened.reads == 0
        &&& opened.error is None
        &&& !opened.reading
    } by {
        lemma_kept_first(tabs, slots, tabs.len(), index);
    }
    if forall|k: int|
        0 <= k < tabs.len() && (#[trigger] tabs[k]).scope == next[place].scope
            ==> slots[k].read_at is None {
        lemma_kept_none(tabs, slots, tabs.len(), next[place].scope);
    }
}

/// An event is about one scope: every other scope's slot stays as it is.
pub proof fn law_an_event_touches_one_scope(
    slots: Seq<ScopeDataView>,
    event: EventView,
    now: int,
    other: int,
)
    requires
        0 <= other < slots.len(),
        event matches EventView::Reading(index) ==> index != other,
        event matches EventView::Pods { scope, .. } ==> scope != other,
    ensures
        after_event(slots, event, now)[other] == slots[other],
        after_event(slots, event, now).len() == slots.len(),
{
}

/// A failed read keeps the rows and when they were read, and has a message
/// beside them; the next that works clears it.
pub proof fn law_a_failure_keeps_the_rows(
    slots: Seq<ScopeDataView>,
    scope: int,
    message: Seq<char>,
    pods: Seq<PodView>,
    now: int,
    later: int,
)
    requires
        0 <= scope < slots.len(),
    ensures
        ({
            let failed = after_event(
                slots,
                EventView::Pods { scope, pods: Err(message) },
                now,
            );
            let worked = after_event(failed, EventView::Pods { scope, pods: Ok(pods) }, later);
            &&& failed[scope].pods == slots[scope].pods
            &&& failed[scope].read_at == slots[scope].read_at
            &&& failed[scope].error == Some(message)
            &&& !failed[scope].reading
            &&& worked[scope].error is None
            &&& worked[scope].pods == pods
            &&& worked[scope].read_at == Some(later)
            &&& worked[scope].reads == slots[scope].reads + 2
        }),
{
}

/// A read that starts is seen to run until it is answered, and leaves the
/// rows alone.
pub proof fn law_a_read_runs_until_it_is_answered(
    slots: Seq<ScopeDataView>,
    scope: int,
    pods: Result<Seq<PodView>, Seq<char>>,
    now: int,
)
    requires
        0 <= scope < slots.len(),
    ensures
        ({
            let started = after_event(slots, EventView::Reading(scope), now);
            let answered = after_event(started, EventView::Pods { scope, pods }, now);
            &&& started[scope].reading
            &&& started[scope].pods == slots[scope].pods
            &&& started[scope].error == slots[scope].error
            &&& started[scope].read_at == slots[scope].read_at
            &&& started[scope].reads == slots[scope].reads
            &&& !answered[scope].reading
            &&& answered[scope].reads == slots[scope].reads + 1
        }),
        after_event(slots, EventView::Stopped, now) == slots,
        after_event(slots, EventView::Reading(slots.len() as int), now) == slots,
        after_event(slots, EventView::Pods { scope: slots.len() as int, pods }, now) == slots,
{
}

/// What an event is said to have changed is what it changed: the rows of a
/// scope, that its read failed, the status bar, or nothing.
pub proof fn law_what_is_said_to_change_changes(
    count: nat,
    scope: int,
    pods: Seq<PodView>,
    message: Seq<char>,
)
    requires
        count <= usize::MAX,
    ensures
        0 <= scope < count ==> change_of(count, EventView::Pods { scope, pods: Ok(pods) })
            == Applied::Pods(scope as usize),
        0 <= scope < count ==> change_of(count, EventView::Pods { scope, pods: Err(message) })
            == Applied::Failed(scope as usize),
        0 <= scope < count ==> change_of(count, EventView::Reading(scope)) == Applied::Status,
        scope >= count ==> change_of(count, EventView::Pods { scope, pods: Ok(pods) })
            == Applied::Nothing,
        scope >= count ==> change_of(count, EventView::Reading(scope)) == Applied::Nothing,
        change_of(count, EventView::Stopped) == Applied::Status,
{
}

/// The problems are what each scope in trouble says, under its name and in
/// the order of the tabs, and no other scope says anything.
pub proof fn law_each_scope_in_trouble_is_named(
    tabs: Seq<TabView>,
    slots: Seq<ScopeDataView>,
    count: nat,
    at: int,
    message: Seq<char>,
)
    requires
        0 <= at < count <= tabs.len(),
        count <= slots.len(),
    ensures
        slots[at].error == Some(message) ==> complaints(tabs, slots, count).contains(
            tabs[at].scope.describe() + ": "@ + message,
        ),
        complaints(tabs, slots, count).len() <= count,
        (forall|k: int| 0 <= k < count ==> (#[trigger] slots[k]).error is None) ==> complaints(
            tabs,
            slots,
            count,
        ).len() == 0,
        (forall|k: int| 0 <= k < count ==> (#[trigger] slots[k]).error is Some) ==> complaints(
            tabs,
            slots,
            count,
        ).len() == count,
    decreases count,
{
    let before = complaints(tabs, slots, (count - 1) as nat);
    let all = complaints(tabs, slots, count);
    let said = tabs[at].scope.describe() + ": "@ + message;
    if count > 1 {
        let inner = if at < count - 1 {
            at
        } else {
            0
        };
        law_each_scope_in_trouble_is_named(tabs, slots, (count - 1) as nat, inner, message);
    }
    if slots[at].error == Some(message) {
        if at == count - 1 {
            assert(all[all.len() - 1] == said);
        } else {
            let k = choose|k: int| 0 <= k < before.len() && before[k] == said;
            assert(all[k] == said);
        }
    }
}

} // verus!
