//! The worker that keeps reading: which scope is next, and what a read does
//! to its cadence.

use vstd::prelude::*;

use crate::config::{Scope, ScopeView};

use super::cadence::{smaller, Cadence, CadenceView, HIDDEN_REFRESH, LONGEST};
use super::pod::{pod_views, Pod, PodView};

verus! {

/// Where the worker reads from: `kubectl` in the application, anything that
/// answers in a test. What went wrong is told in words.
pub trait KubeSource: Send {
    fn pods(&self, scope: &Scope) -> Result<Vec<Pod>, String>;
}

/// What the run tells the worker.
#[derive(Clone, Copy, Debug, PartialEq, Eq, Structural)]
pub enum Request {
    /// Which tab is on screen, by index. It is read at once and then on the
    /// fast cadence; the others fall back to the slow one.
    Showing(usize),
    /// Read one scope again now.
    Refresh(usize),
    Stop,
}

/// What the worker sends back. Nothing here is written anywhere but the
/// cache: the screen shows it, and the next read replaces it.
#[derive(Debug)]
pub enum Event {
    /// A read of this scope has started, for the spinner.
    Reading(usize),
    /// One scope's pods, replacing the last read's and nothing else.
    Pods { scope: usize, pods: Result<Vec<Pod>, String> },
    Stopped,
}

/// What an event says.
pub enum EventView {
    Reading(int),
    Pods { scope: int, pods: Result<Seq<PodView>, Seq<char>> },
    Stopped,
}

/// What a read came back with.
pub open spec fn read_view(pods: Result<Vec<Pod>, String>) -> Result<Seq<PodView>, Seq<char>> {
    match pods {
        Ok(pods) => Ok(pod_views(pods@)),
        Err(said) => Err(said@),
    }
}

impl View for Event {
    type V = EventView;

    open spec fn view(&self) -> EventView {
        match *self {
            Event::Reading(scope) => EventView::Reading(scope as int),
            Event::Pods { scope, pods } => EventView::Pods {
                scope: scope as int,
                pods: read_view(pods),
            },
            Event::Stopped => EventView::Stopped,
        }
    }
}

/// What each event says.
pub open spec fn event_views(told: Seq<Event>) -> Seq<EventView> {
    told.map_values(|event: Event| event@)
}

/// The worker's own state, apart from the thread it usually runs on.
pub struct Watcher<S: KubeSource> {
    source: Box<S>,
    /// Each scope and when it is next worth reading. One cadence each, so a
    /// dead cluster backing off never slows a live one.
    scopes: Vec<(Scope, Cadence)>,
    showing: Option<usize>,
    fast: u128,
}

/// What a watcher holds, apart from where it reads.
pub struct WatcherView {
    pub scopes: Seq<(ScopeView, CadenceView)>,
    pub showing: Option<int>,
    pub fast: int,
}

impl<S: KubeSource> View for Watcher<S> {
    type V = WatcherView;

    closed spec fn view(&self) -> WatcherView {
        WatcherView {
            scopes: self.scopes@.map_values(|held: (Scope, Cadence)| (held.0@, held.1@)),
            showing: match self.showing {
                Some(index) => Some(index as int),
                None => None,
            },
            fast: self.fast as int,
        }
    }
}

/// The first scope at or after `from` that is due.
pub open spec fn first_due(
    scopes: Seq<(ScopeView, CadenceView)>,
    now: int,
    from: int,
) -> Option<int>
    decreases scopes.len() - from,
{
    if from < 0 || from >= scopes.len() {
        None
    } else if scopes[from].1.is_due(now) {
        Some(from)
    } else {
        first_due(scopes, now, from + 1)
    }
}

/// How many scopes are due.
pub open spec fn due_among(scopes: Seq<(ScopeView, CadenceView)>, now: int) -> nat
    decreases scopes.len(),
{
    if scopes.len() == 0 {
        0
    } else {
        due_among(scopes.drop_last(), now) + if scopes.last().1.is_due(now) {
            1nat
        } else {
            0nat
        }
    }
}

/// The shorter of two waits, where there are two.
pub open spec fn sooner(a: Option<int>, b: Option<int>) -> Option<int> {
    match (a, b) {
        (Some(a), Some(b)) => Some(smaller(a, b)),
        (Some(a), None) => Some(a),
        (None, b) => b,
    }
}

/// The shortest wait among the scopes that will be due on their own.
pub open spec fn shortest_wait(scopes: Seq<(ScopeView, CadenceView)>, now: int) -> Option<int>
    decreases scopes.len(),
{
    if scopes.len() == 0 {
        None
    } else {
        sooner(shortest_wait(scopes.drop_last(), now), scopes.last().1.until_due(now))
    }
}

impl WatcherView {
    /// Every cadence holds together.
    pub open spec fn holds(self) -> bool {
        &&& self.fast <= LONGEST
        &&& forall|at: int| 0 <= at < self.scopes.len() ==> (#[trigger] self.scopes[at]).1.holds()
    }

    /// A watcher over these scopes, none of them read or shown yet.
    pub open spec fn fresh(scopes: Seq<ScopeView>, fast: int) -> WatcherView {
        WatcherView {
            scopes: scopes.map_values(
                |scope: ScopeView| (scope, CadenceView::fresh(HIDDEN_REFRESH as int)),
            ),
            showing: None,
            fast,
        }
    }

    /// The scope to read next: the one on screen when it is due, else the
    /// first other that is.
    pub open spec fn next_due(self, now: int) -> Option<int> {
        match self.showing {
            Some(index) if 0 <= index < self.scopes.len() && self.scopes[index].1.is_due(now) => {
                Some(index)
            },
            _ => first_due(self.scopes, now, 0),
        }
    }

    /// With one scope's cadence changed, and nothing else.
    pub open spec fn with(self, index: int, cadence: CadenceView) -> WatcherView {
        WatcherView {
            scopes: self.scopes.update(index, (self.scopes[index].0, cadence)),
            ..self
        }
    }

    /// Another tab on screen: that one on the fast cadence and due now, the
    /// others on the slow one.
    pub open spec fn showing(self, index: int) -> WatcherView {
        WatcherView {
            showing: Some(index),
            scopes: Seq::new(
                self.scopes.len(),
                |at: int|
                    (
                        self.scopes[at].0,
                        if at == index {
                            self.scopes[at].1.with_base(self.fast).asked()
                        } else {
                            self.scopes[at].1.with_base(HIDDEN_REFRESH as int)
                        },
                    ),
            ),
            ..self
        }
    }

    /// What a request makes of it.
    pub open spec fn handled(self, request: Request) -> WatcherView {
        match request {
            Request::Stop => self,
            Request::Showing(index) => if self.showing == Some(index as int) {
                self
            } else {
                self.showing(index as int)
            },
            Request::Refresh(index) => if index < self.scopes.len() {
                self.with(index as int, self.scopes[index as int].1.asked())
            } else {
                self
            },
        }
    }

    /// What a burst of requests makes of it: those before the first that
    /// stops it.
    pub open spec fn handled_all(self, requests: Seq<Request>) -> WatcherView
        decreases requests.len(),
    {
        if requests.len() == 0 || requests[0] is Stop {
            self
        } else {
            self.handled(requests[0]).handled_all(requests.skip(1))
        }
    }

    /// One scope read at `now`.
    pub open spec fn read(self, index: int, now: int, failed: bool) -> WatcherView {
        self.with(index, self.scopes[index].1.polled(now, failed))
    }

    /// The wait of a failing read can still be doubled.
    pub open spec fn can_back_off(self, index: int) -> bool {
        self.scopes[index].1.current * 2 <= LONGEST
    }

    /// What a poll at `now` that tells this leaves behind: nothing told and
    /// nothing changed while nothing is due, else the scope that is next
    /// started and then read.
    pub open spec fn after_poll(self, now: int, told: Seq<EventView>) -> Option<WatcherView> {
        match self.next_due(now) {
            Some(index) => if told.len() == 2 && told[0] == EventView::Reading(index) {
                match told[1] {
                    EventView::Pods { scope, pods } if scope == index => Some(
                        self.read(index, now, pods is Err),
                    ),
                    _ => None,
                }
            } else {
                None
            },
            None => if told.len() == 0 {
                Some(self)
            } else {
                None
            },
        }
    }

    /// What a round of reads at `now` leaves behind: one poll after the
    /// other, each of which reads a scope.
    pub open spec fn after_round(self, now: int, told: Seq<EventView>) -> Option<WatcherView>
        decreases told.len(),
    {
        if told.len() == 0 {
            Some(self)
        } else if told.len() == 1 {
            None
        } else {
            match self.after_round(now, told.take(told.len() - 2)) {
                Some(before) => before.after_poll(now, told.skip(told.len() - 2)),
                None => None,
            }
        }
    }
}

proof fn lemma_first_due(scopes: Seq<(ScopeView, CadenceView)>, now: int, from: int)
    requires
        0 <= from,
    ensures
        first_due(scopes, now, from) matches Some(index) ==> {
            &&& from <= index < scopes.len()
            &&& scopes[index].1.is_due(now)
            &&& forall|at: int| from <= at < index ==> !(#[trigger] scopes[at]).1.is_due(now)
        },
        first_due(scopes, now, from) is None ==> forall|at: int|
            from <= at < scopes.len() ==> !(#[trigger] scopes[at]).1.is_due(now),
    decreases scopes.len() - from,
{
    if from < scopes.len() && !scopes[from].1.is_due(now) {
        lemma_first_due(scopes, now, from + 1);
    }
}

proof fn lemma_due_among_update(
    scopes: Seq<(ScopeView, CadenceView)>,
    now: int,
    index: int,
    held: (ScopeView, CadenceView),
)
    requires
        0 <= index < scopes.len(),
        scopes[index].1.is_due(now),
        !held.1.is_due(now),
    ensures
        due_among(scopes.update(index, held), now) + 1 == due_among(scopes, now),
    decreases scopes.len(),
{
    let updated = scopes.update(index, held);
    if index == scopes.len() - 1 {
        assert(updated.drop_last() =~= scopes.drop_last());
    } else {
        assert(updated.drop_last() =~= scopes.drop_last().update(index, held));
        lemma_due_among_update(scopes.drop_last(), now, index, held);
    }
}

proof fn lemma_none_due(scopes: Seq<(ScopeView, CadenceView)>, now: int)
    requires
        forall|at: int| 0 <= at < scopes.len() ==> !(#[trigger] scopes[at]).1.is_due(now),
    ensures
        due_among(scopes, now) == 0,
    decreases scopes.len(),
{
    if scopes.len() > 0 {
        assert forall|at: int| 0 <= at < scopes.drop_last().len() implies !(
        #[trigger] scopes.drop_last()[at]).1.is_due(now) by {
            assert(scopes.drop_last()[at] == scopes[at]);
        }
        lemma_none_due(scopes.drop_last(), now);
    }
}

/// The scope on screen is read before any other that is due.
pub proof fn law_the_open_tab_is_read_first(watcher: WatcherView, now: int, index: int)
    requires
        watcher.showing == Some(index),
        0 <= index < watcher.scopes.len(),
        watcher.scopes[index].1.is_due(now),
    ensures
        watcher.next_due(now) == Some(index),
{
}

/// What is read next is due, and nothing is read only while nothing is due.
pub proof fn law_only_what_is_due_is_read(watcher: WatcherView, now: int)
    ensures
        watcher.next_due(now) matches Some(index) ==> 0 <= index < watcher.scopes.len()
            && watcher.scopes[index].1.is_due(now),
        watcher.next_due(now) is None ==> forall|at: int|
            0 <= at < watcher.scopes.len() ==> !(#[trigger] watcher.scopes[at]).1.is_due(now),
{
    lemma_first_due(watcher.scopes, now, 0);
}

/// A poll reads one scope and no more: the one on screen if it is due, else
/// the first that is. It says that the read has started, then what came
/// back, and that scope's cadence alone moves, failed read or not. While
/// nothing is due it says nothing and changes nothing.
pub proof fn law_a_poll_starts_and_reads_one_scope(
    watcher: WatcherView,
    now: int,
    told: Seq<EventView>,
    after: WatcherView,
)
    requires
        watcher.after_poll(now, told) == Some(after),
    ensures
        match watcher.next_due(now) {
            Some(index) => {
                &&& 0 <= index < watcher.scopes.len()
                &&& watcher.scopes[index].1.is_due(now)
                &&& watcher.showing == Some(index) || forall|at: int|
                    0 <= at < watcher.scopes.len() && (at < index || watcher.showing == Some(at))
                        ==> !(#[trigger] watcher.scopes[at]).1.is_due(now)
                &&& told.len() == 2
                &&& told[0] == EventView::Reading(index)
                &&& told[1] is Pods
                &&& told[1]->scope == index
                &&& after.scopes.len() == watcher.scopes.len()
                &&& after.scopes[index] == (
                    watcher.scopes[index].0,
                    watcher.scopes[index].1.polled(now, told[1]->pods is Err),
                )
                &&& watcher.scopes[index].1.holds() ==> !after.scopes[index].1.is_due(now)
                &&& forall|at: int|
                    0 <= at < watcher.scopes.len() && at != index ==> #[trigger] after.scopes[at]
                        == watcher.scopes[at]
                &&& after.showing == watcher.showing
                &&& after.fast == watcher.fast
            },
            None => {
                &&& forall|at: int|
                    0 <= at < watcher.scopes.len() ==> !(#[trigger] watcher.scopes[at]).1.is_due(
                        now,
                    )
                &&& told.len() == 0
                &&& after == watcher
            },
        },
{
    lemma_first_due(watcher.scopes, now, 0);
}

/// Every scope of a new watcher is due, whatever the clock says.
pub proof fn law_every_scope_is_read_at_once(
    scopes: Seq<ScopeView>,
    fast: int,
    now: int,
    index: int,
)
    requires
        0 <= index < scopes.len(),
    ensures
        WatcherView::fresh(scopes, fast).scopes[index].1.is_due(now),
        WatcherView::fresh(scopes, fast).next_due(now) is Some,
{
    lemma_first_due(WatcherView::fresh(scopes, fast).scopes, now, 0);
}

/// A read, failed or not, leaves every other scope's cadence as it was, and
/// the scope itself not due at the moment it was read.
pub proof fn law_a_read_touches_one_scope(
    watcher: WatcherView,
    now: int,
    index: int,
    failed: bool,
    other: int,
)
    requires
        watcher.holds(),
        0 <= index < watcher.scopes.len(),
        0 <= other < watcher.scopes.len(),
        other != index,
    ensures
        watcher.read(index, now, failed).scopes[other] == watcher.scopes[other],
        watcher.read(index, now, failed).scopes[index].0 == watcher.scopes[index].0,
        !watcher.read(index, now, failed).scopes[index].1.is_due(now),
        watcher.read(index, now, failed).showing == watcher.showing,
        watcher.read(index, now, failed).holds(),
{
}

/// A tab that comes on screen is due at once.
pub proof fn law_a_tab_that_shows_is_read_at_once(watcher: WatcherView, now: int, index: usize)
    requires
        index < watcher.scopes.len(),
        watcher.showing != Some(index as int),
    ensures
        watcher.handled(Request::Showing(index)).next_due(now) == Some(index as int),
{
}

/// The tab that is already on screen is no switch.
pub proof fn law_the_same_tab_again_changes_nothing(watcher: WatcherView, index: usize)
    requires
        watcher.showing == Some(index as int),
    ensures
        watcher.handled(Request::Showing(index)) == watcher,
{
}

/// Every cadence holds together from the first read on: no request and no
/// read, failed or not, breaks one.
pub proof fn law_every_cadence_stays_whole(
    scopes: Seq<ScopeView>,
    fast: int,
    watcher: WatcherView,
    request: Request,
    index: int,
    now: int,
    failed: bool,
)
    requires
        0 <= fast <= LONGEST,
        watcher.holds(),
        0 <= watcher.fast,
        0 <= index < watcher.scopes.len(),
    ensures
        WatcherView::fresh(scopes, fast).holds(),
        watcher.handled(request).holds(),
        watcher.read(index, now, failed).holds(),
{
    let handled = watcher.handled(request);
    assert forall|at: int| 0 <= at < handled.scopes.len() implies (#[trigger] handled.scopes[at])
        .1.holds() by {
        assert(watcher.scopes[at].1.holds());
    }
    let read = watcher.read(index, now, failed);
    assert forall|at: int| 0 <= at < read.scopes.len() implies (#[trigger] read.scopes[at])
        .1.holds() by {
        assert(watcher.scopes[at].1.holds());
    }
}

/// While the fast cadence can be doubled, every wait can: no request and no
/// read, failed or not, makes one that cannot.
pub proof fn law_a_wait_that_can_be_doubled_stays_one(
    watcher: WatcherView,
    request: Request,
    index: int,
    now: int,
    failed: bool,
    other: int,
)
    requires
        watcher.holds(),
        0 <= watcher.fast * 2 <= LONGEST,
        forall|at: int| 0 <= at < watcher.scopes.len() ==> #[trigger] watcher.can_back_off(at),
        0 <= index < watcher.scopes.len(),
        0 <= other < watcher.scopes.len(),
    ensures
        watcher.handled(request).can_back_off(other),
        watcher.read(index, now, failed).can_back_off(other),
{
    assert(watcher.can_back_off(other));
    assert(watcher.scopes[other].1.holds());
}

/// Asking for a scope makes that one due and no other; asking for one that
/// is not there does nothing.
pub proof fn law_a_refresh_asks_for_one_scope(
    watcher: WatcherView,
    index: usize,
    other: int,
    now: int,
)
    requires
        0 <= other < watcher.scopes.len(),
    ensures
        index >= watcher.scopes.len() ==> watcher.handled(Request::Refresh(index)) == watcher,
        other == index ==> watcher.handled(Request::Refresh(index)).scopes[other].1.is_due(now),
        other != index ==> watcher.handled(Request::Refresh(index)).scopes[other]
            == watcher.scopes[other],
{
}

/// The shortest wait is nothing exactly while something is due, and no scope
/// is due before it is over.
pub proof fn law_nothing_is_due_before_the_shortest_wait(
    scopes: Seq<(ScopeView, CadenceView)>,
    now: int,
    index: int,
)
    requires
        0 <= index < scopes.len(),
    ensures
        scopes[index].1.until_due(now) matches Some(wait) ==> {
            &&& shortest_wait(scopes, now) is Some
            &&& shortest_wait(scopes, now)->0 <= wait
        },
        scopes[index].1.is_due(now) ==> shortest_wait(scopes, now) == Some(0int),
    decreases scopes.len(),
{
    lemma_no_wait_is_negative(scopes, now);
    if index < scopes.len() - 1 {
        law_nothing_is_due_before_the_shortest_wait(scopes.drop_last(), now, index);
        assert(scopes.drop_last()[index] == scopes[index]);
    }
}

proof fn lemma_no_wait_is_negative(scopes: Seq<(ScopeView, CadenceView)>, now: int)
    ensures
        shortest_wait(scopes, now) matches Some(wait) ==> wait >= 0,
    decreases scopes.len(),
{
    if scopes.len() > 0 {
        lemma_no_wait_is_negative(scopes.drop_last(), now);
    }
}

/// What each scope is.
pub open spec fn scope_views(scopes: Seq<Scope>) -> Seq<ScopeView> {
    scopes.map_values(|scope: Scope| scope@)
}

impl<S: KubeSource> Watcher<S> {
    #[verifier::type_invariant]
    spec fn always_holds(self) -> bool {
        self.fast <= LONGEST
    }

    pub fn new(source: Box<S>, scopes: Vec<Scope>, fast: u128) -> (watcher: Self)
        requires
            fast <= LONGEST,
        ensures
            watcher@ == WatcherView::fresh(scope_views(scopes@), fast as int),
            watcher@.holds(),
            forall|at: int, read: Result<Vec<Pod>, String>|
                0 <= at < scopes@.len() ==> #[trigger] watcher.answers(at, read) == call_ensures(
                    S::pods,
                    (&*source, &scopes@[at]),
                    read,
                ),
    {
        let ghost all = scope_views(scopes@);
        let ghost parts = scopes@;
        let mut held: Vec<(Scope, Cadence)> = Vec::new();
        for scope in it: scopes
            invariant
                it.seq() == parts,
                all == scope_views(parts),
                held@.len() == it.index(),
                forall|at: int| 0 <= at < held@.len() ==> (#[trigger] held@[at]).0 == parts[at],
                forall|at: int|
                    0 <= at < held@.len() ==> ((#[trigger] held@[at]).0@, held@[at].1@) == (
                        all[at],
                        CadenceView::fresh(HIDDEN_REFRESH as int),
                    ),
        {
            held.push((scope, Cadence::new(HIDDEN_REFRESH)));
        }
        assert(held@.map_values(|held: (Scope, Cadence)| (held.0@, held.1@)) =~= WatcherView::fresh(
            all,
            fast as int,
        ).scopes);
        Watcher { source, scopes: held, showing: None, fast }
    }

    /// The source can answer a read of this scope so.
    pub closed spec fn answers(self, index: int, pods: Result<Vec<Pod>, String>) -> bool {
        call_ensures(
            S::pods,
            (&*self.source, &self.scopes@[index].0),
            pods,
        )
    }

    /// The scope to read next, when one is due.
    pub fn next_due(&self, now: u128) -> (index: Option<usize>)
        ensures
            match index {
                Some(index) => self@.next_due(now as int) == Some(index as int) && index
                    < self@.scopes.len(),
                None => self@.next_due(now as int) is None,
            },
    {
        let ghost all = self@.scopes;
        if let Some(index) = self.showing {
            if index < self.scopes.len() {
                assert(all[index as int].1 == self.scopes@[index as int].1@);
                if self.scopes[index].1.is_due(now) {
                    return Some(index);
                }
            }
        }
        let mut at: usize = 0;
        while at < self.scopes.len()
            invariant
                at <= self.scopes@.len(),
                all == self@.scopes,
                first_due(all, now as int, 0) == first_due(all, now as int, at as int),
                self@.next_due(now as int) == first_due(all, now as int, 0),
            decreases self.scopes@.len() - at,
        {
            assert(all[at as int].1 == self.scopes@[at as int].1@);
            if self.scopes[at].1.is_due(now) {
                return Some(at);
            }
            at += 1;
        }
        None
    }

    fn ask(&mut self, index: usize)
        requires
            index < old(self)@.scopes.len(),
        ensures
            final(self)@ == old(self)@.with(
                index as int,
                old(self)@.scopes[index as int].1.asked(),
            ),
            forall|at: int, read: Result<Vec<Pod>, String>|
                0 <= at < old(self)@.scopes.len() ==> #[trigger] final(self).answers(at, read)
                    == old(self).answers(at, read),
    {
        proof {
            use_type_invariant(&*self);
        }
        let ghost before = self@;
        self.scopes[index].1.ask();
        assert(self@.scopes =~= before.with(
            index as int,
            before.scopes[index as int].1.asked(),
        ).scopes);
    }

    /// One request. Answers whether to keep going.
    pub fn handle(&mut self, request: Request) -> (going: bool)
        ensures
            final(self)@ == old(self)@.handled(request),
            going == !(request is Stop),
            forall|at: int, read: Result<Vec<Pod>, String>|
                0 <= at < old(self)@.scopes.len() ==> #[trigger] final(self).answers(at, read)
                    == old(self).answers(at, read),
    {
        proof {
            use_type_invariant(&*self);
        }
        match request {
            Request::Stop => {
                return false;
            },
            Request::Showing(index) => {
                let same = match self.showing {
                    Some(shown) => shown == index,
                    None => false,
                };
                if !same {
                    self.show(index);
                }
            },
            Request::Refresh(index) => {
                if index < self.scopes.len() {
                    self.ask(index);
                }
            },
        }
        true
    }

    /// Every request that was waiting, so a burst of them costs one poll
    /// rather than one each. Answers whether to keep going.
    pub fn handle_all(&mut self, requests: &Vec<Request>) -> (going: bool)
        ensures
            final(self)@ == old(self)@.handled_all(requests@),
            going == !requests@.contains(Request::Stop),
            forall|at: int, read: Result<Vec<Pod>, String>|
                0 <= at < old(self)@.scopes.len() ==> #[trigger] final(self).answers(at, read)
                    == old(self).answers(at, read),
    {
        let ghost before = self@;
        let mut at: usize = 0;
        assert(requests@.skip(0) =~= requests@);
        while at < requests.len()
            invariant
                at <= requests@.len(),
                before == old(self)@,
                self@.scopes.len() == before.scopes.len(),
                forall|k: int, read: Result<Vec<Pod>, String>|
                    0 <= k < before.scopes.len() ==> #[trigger] self.answers(k, read) == old(
                        self,
                    ).answers(k, read),
                before.handled_all(requests@) == self@.handled_all(requests@.skip(at as int)),
                forall|k: int| 0 <= k < at ==> !((#[trigger] requests@[k]) is Stop),
            decreases requests@.len() - at,
        {
            assert(requests@.skip(at as int)[0] == requests@[at as int]);
            assert(requests@.skip(at as int).skip(1) =~= requests@.skip(at as int + 1));
            let ghost mid = self@;
            if !self.handle(requests[at]) {
                assert(requests@[at as int] == Request::Stop);
                assert(mid.handled_all(requests@.skip(at as int)) == mid);
                return false;
            }
            at += 1;
        }
        true
    }

    /// Puts another tab on screen.
    fn show(&mut self, index: usize)
        ensures
            final(self)@ == old(self)@.showing(index as int),
            forall|at: int, read: Result<Vec<Pod>, String>|
                0 <= at < old(self)@.scopes.len() ==> #[trigger] final(self).answers(at, read)
                    == old(self).answers(at, read),
    {
        proof {
            use_type_invariant(&*self);
        }
        let ghost before = self@;
        self.showing = Some(index);
        let mut at: usize = 0;
        while at < self.scopes.len()
            invariant
                at <= self.scopes@.len(),
                self.fast <= LONGEST,
                self@.fast == before.fast,
                self@.showing == Some(index as int),
                self@.scopes.len() == before.scopes.len(),
                self.source == old(self).source,
                self.scopes@.len() == old(self).scopes@.len(),
                forall|k: int|
                    0 <= k < self.scopes@.len() ==> (#[trigger] self.scopes@[k]).0 == old(
                        self,
                    ).scopes@[k].0,
                forall|k: int|
                    0 <= k < at ==> #[trigger] self@.scopes[k] == (
                        before.scopes[k].0,
                        before.scopes[k].1.with_base(
                            if k == index {
                                before.fast
                            } else {
                                HIDDEN_REFRESH as int
                            },
                        ),
                    ),
                forall|k: int|
                    at <= k < self.scopes@.len() ==> #[trigger] self@.scopes[k]
                        == before.scopes[k],
            decreases self.scopes@.len() - at,
        {
            let base = if at == index {
                self.fast
            } else {
                HIDDEN_REFRESH
            };
            let ghost now = self@;
            assert(now.scopes[at as int] == before.scopes[at as int]);
            self.scopes[at].1.set_base(base);
            assert(self@.scopes =~= now.with(
                at as int,
                before.scopes[at as int].1.with_base(base as int),
            ).scopes);
            at += 1;
        }
        if index < self.scopes.len() {
            self.ask(index);
        }
        assert(self@.scopes =~= before.showing(index as int).scopes);
    }

    /// Takes what a read of one scope at `now` came back with, and tells it.
    pub fn take_read(
        &mut self,
        index: usize,
        now: u128,
        pods: Result<Vec<Pod>, String>,
    ) -> (told: Event)
        requires
            index < old(self)@.scopes.len(),
            pods is Err ==> old(self)@.can_back_off(index as int),
        ensures
            final(self)@ == old(self)@.read(index as int, now as int, pods is Err),
            told == (Event::Pods { scope: index, pods }),
            old(self)@.scopes[index as int].1.holds(),
            forall|at: int, read: Result<Vec<Pod>, String>|
                0 <= at < old(self)@.scopes.len() ==> #[trigger] final(self).answers(at, read)
                    == old(self).answers(at, read),
    {
        proof {
            use_type_invariant(&*self);
        }
        let ghost before = self@;
        self.scopes[index].1.polled(now, pods.is_err());
        assert(self@.scopes =~= before.read(index as int, now as int, pods is Err).scopes);
        Event::Pods { scope: index, pods }
    }

    /// What a poll says before it reads, so that the read is seen to run.
    pub fn starting(&self, now: u128) -> (told: Option<Event>)
        ensures
            match told {
                Some(told) => told is Reading && self@.next_due(now as int) == Some(
                    told->Reading_0 as int,
                ),
                None => self@.next_due(now as int) is None,
            },
    {
        match self.next_due(now) {
            Some(index) => Some(Event::Reading(index)),
            None => None,
        }
    }

    /// The read of a poll, once it is said to have started.
    pub fn read_due(&mut self, now: u128) -> (told: Option<Event>)
        requires
            old(self)@.next_due(now as int) matches Some(index) ==> old(self)@.can_back_off(index),
        ensures
            match told {
                Some(told) => old(self)@.next_due(now as int) is Some && {
                    let index = old(self)@.next_due(now as int)->0;
                    &&& told matches Event::Pods { scope, pods }
                    &&& scope == index
                    &&& old(self).answers(index, pods)
                    &&& final(self)@ == old(self)@.read(index, now as int, pods is Err)
                    &&& old(self)@.scopes[index].1.holds()
                },
                None => old(self)@.next_due(now as int) is None && final(self)@ == old(self)@,
            },
            forall|at: int, read: Result<Vec<Pod>, String>|
                0 <= at < old(self)@.scopes.len() ==> #[trigger] final(self).answers(at, read)
                    == old(self).answers(at, read),
    {
        proof {
            use_type_invariant(&*self);
        }
        let index = match self.next_due(now) {
            Some(index) => index,
            None => return None,
        };
        let pods = self.source.pods(&self.scopes[index].0);
        Some(self.take_read(index, now, pods))
    }

    /// Reads one scope: the one on screen when it is due, else the first
    /// other that is. One read a call, so a request sent during a round is
    /// taken between two reads rather than after the last. Answers what was
    /// told, in order.
    pub fn poll(&mut self, now: u128) -> (told: Vec<Event>)
        requires
            old(self)@.next_due(now as int) matches Some(index) ==> old(self)@.can_back_off(index),
        ensures
            old(self)@.after_poll(now as int, event_views(told@)) == Some(final(self)@),
            old(self)@.next_due(now as int) matches Some(index) ==> {
                &&& told@.len() == 2
                &&& told@[0] is Reading
                &&& told@[1] is Pods
                &&& told@[1]->scope == index
                &&& old(self).answers(index, told@[1]->pods)
                &&& old(self)@.scopes[index].1.holds()
            },
            forall|at: int, read: Result<Vec<Pod>, String>|
                0 <= at < old(self)@.scopes.len() ==> #[trigger] final(self).answers(at, read)
                    == old(self).answers(at, read),
    {
        let mut told: Vec<Event> = Vec::new();
        assert(event_views(told@) =~= seq![]);
        if let Some(event) = self.starting(now) {
            told.push(event);
            if let Some(event) = self.read_due(now) {
                told.push(event);
            }
            assert(event_views(told@) =~= seq![told@[0]@, told@[1]@]);
        }
        told
    }

    /// Every read that is due at `now`, the whole round in one call: what
    /// was told, in order.
    pub fn poll_all(&mut self, now: u128) -> (told: Vec<Event>)
        requires
            forall|index: int|
                0 <= index < old(self)@.scopes.len() ==> #[trigger] old(self)@.can_back_off(index),
        ensures
            old(self)@.after_round(now as int, event_views(told@)) == Some(final(self)@),
            final(self)@.next_due(now as int) is None,
            told@.len() == 2 * due_among(old(self)@.scopes, now as int),
            forall|k: int|
                0 <= k < told@.len() && (#[trigger] told@[k]) is Pods ==> old(self).answers(
                    told@[k]->scope as int,
                    told@[k]->pods,
                ),
            forall|at: int, read: Result<Vec<Pod>, String>|
                0 <= at < old(self)@.scopes.len() ==> #[trigger] final(self).answers(at, read)
                    == old(self).answers(at, read),
    {
        proof {
            use_type_invariant(&*self);
        }
        let ghost before = self@;
        let mut told: Vec<Event> = Vec::new();
        assert(event_views(told@) =~= seq![]);
        loop
            invariant
                before == old(self)@,
                before.after_round(now as int, event_views(told@)) == Some(self@),
                self@.scopes.len() == before.scopes.len(),
                forall|k: int|
                    0 <= k < told@.len() && (#[trigger] told@[k]) is Pods ==> old(self).answers(
                        told@[k]->scope as int,
                        told@[k]->pods,
                    ),
                forall|at: int, read: Result<Vec<Pod>, String>|
                    0 <= at < before.scopes.len() ==> #[trigger] self.answers(at, read) == old(
                        self,
                    ).answers(at, read),
                told@.len() + 2 * due_among(self@.scopes, now as int) == 2 * due_among(
                    before.scopes,
                    now as int,
                ),
                forall|index: int|
                    0 <= index < self@.scopes.len() ==> #[trigger] self@.can_back_off(index),
            ensures
                self@.next_due(now as int) is None,
                due_among(self@.scopes, now as int) == 0,
            decreases due_among(self@.scopes, now as int),
        {
            let ghost mid = self@;
            let ghost said = event_views(told@);
            proof {
                law_only_what_is_due_is_read(mid, now as int);
            }
            let mut more = self.poll(now);
            if more.len() == 0 {
                proof {
                    lemma_none_due(self@.scopes, now as int);
                }
                break;
            }
            let ghost last = event_views(more@);
            told.append(&mut more);
            proof {
                let index = mid.next_due(now as int)->0;
                let all = event_views(told@);
                assert(all =~= said + last);
                assert(all.take(all.len() - 2) =~= said);
                assert(all.skip(all.len() - 2) =~= last);
                lemma_due_among_update(mid.scopes, now as int, index, self@.scopes[index]);
                assert forall|k: int| 0 <= k < self@.scopes.len() implies #[trigger] self@.can_back_off(
                    k,
                ) by {
                    assert(mid.can_back_off(k));
                }
            }
        }
        told
    }

    /// How long until something is due, or `None` while nothing ever will be
    /// on its own.
    pub fn until_due(&self, now: u128) -> (wait: Option<u128>)
        ensures
            match wait {
                Some(wait) => shortest_wait(self@.scopes, now as int) == Some(wait as int),
                None => shortest_wait(self@.scopes, now as int) is None,
            },
    {
        let ghost all = self@.scopes;
        let mut shortest: Option<u128> = None;
        let mut at: usize = 0;
        while at < self.scopes.len()
            invariant
                at <= self.scopes@.len(),
                all == self@.scopes,
                match shortest {
                    Some(wait) => shortest_wait(all.take(at as int), now as int) == Some(
                        wait as int,
                    ),
                    None => shortest_wait(all.take(at as int), now as int) is None,
                },
            decreases self.scopes@.len() - at,
        {
            assert(all.take(at as int + 1).drop_last() =~= all.take(at as int));
            assert(all.take(at as int + 1).last().1 == self.scopes@[at as int].1@);
            if let Some(wait) = self.scopes[at].1.until_due(now) {
                shortest = match shortest {
                    Some(held) => Some(if held <= wait {
                        held
                    } else {
                        wait
                    }),
                    None => Some(wait),
                };
            }
            at += 1;
        }
        assert(all.take(at as int) =~= all);
        shortest
    }

    /// How long to wait for a request before looking again: until something
    /// is due, or an hour while nothing ever will be on its own.
    pub fn idle_for(&self, now: u128) -> (wait: u128)
        ensures
            wait == (match shortest_wait(self@.scopes, now as int) {
                Some(wait) => wait,
                None => IDLE_WAIT as int,
            }),
    {
        match self.until_due(now) {
            Some(wait) => wait,
            None => IDLE_WAIT,
        }
    }
}

/// How long the worker waits while nothing will be due on its own, in
/// nanoseconds.
pub const IDLE_WAIT: u128 = 3_600_000_000_000;

/// How long a quit waits for the worker to finish what it has in hand, in
/// nanoseconds. A read of an unreachable cluster can take ten seconds, and a
/// quit is not worth that; a worker with nothing in hand answers in a
/// millisecond.
pub const STOP_GRACE: u128 = 2_000_000_000;

/// What a look at the worker's side of the line found.
#[derive(Debug)]
pub enum Arrival {
    Told(Event),
    Nothing,
    /// The worker is gone, and nothing it said is left.
    Gone,
}

/// The main thread's end of the line to the worker.
#[derive(Debug)]
pub struct Inbox {
    stopped: bool,
}

impl Inbox {
    /// Whether it was said that the worker stopped.
    pub closed spec fn has_stopped(self) -> bool {
        self.stopped
    }

    pub fn new() -> (inbox: Self)
        ensures
            !inbox.has_stopped(),
    {
        Inbox { stopped: false }
    }

    /// The next event, if one is waiting. That the worker is gone is said
    /// once.
    pub fn take(&mut self, arrival: Arrival) -> (event: Option<Event>)
        ensures
            event == (match arrival {
                Arrival::Told(event) => Some(event),
                Arrival::Nothing => None,
                Arrival::Gone => if old(self).has_stopped() {
                    None
                } else {
                    Some(Event::Stopped)
                },
            }),
            final(self).has_stopped() == (old(self).has_stopped() || arrival is Gone),
    {
        match arrival {
            Arrival::Told(event) => Some(event),
            Arrival::Nothing => None,
            Arrival::Gone => {
                let said = self.stopped;
                self.stopped = true;
                if said {
                    None
                } else {
                    Some(Event::Stopped)
                }
            },
        }
    }
}

/// A tab that comes on screen is read on the fast cadence and every other
/// each half minute, and no tab but the one that comes on is asked for.
pub proof fn law_only_the_tab_on_screen_is_read_fast(
    watcher: WatcherView,
    index: usize,
    other: int,
    scopes: Seq<ScopeView>,
    fast: int,
    at: int,
)
    requires
        index < watcher.scopes.len(),
        watcher.showing != Some(index as int),
        0 <= other < watcher.scopes.len(),
        other != index,
        0 <= at < scopes.len(),
    ensures
        ({
            let after = watcher.handled(Request::Showing(index));
            &&& after.showing == Some(index as int)
            &&& after.scopes[index as int].1.base == watcher.fast
            &&& after.scopes[index as int].1.asked
            &&& after.scopes[index as int].0 == watcher.scopes[index as int].0
            &&& after.scopes[other].1.base == 30_000_000_000
            &&& after.scopes[other].1.asked == watcher.scopes[other].1.asked
            &&& after.scopes[other].0 == watcher.scopes[other].0
        }),
        WatcherView::fresh(scopes, fast).scopes[at].1.base == 30_000_000_000,
        WatcherView::fresh(scopes, fast).scopes[at].0 == scopes[at],
        WatcherView::fresh(scopes, fast).showing is None,
{
}

/// A burst of requests is taken in its order, up to the first that stops.
pub proof fn law_a_burst_is_taken_in_its_order(
    watcher: WatcherView,
    first: Request,
    rest: Seq<Request>,
)
    requires
        !(first is Stop),
    ensures
        watcher.handled_all(seq![first] + rest) == watcher.handled(first).handled_all(rest),
        watcher.handled_all(seq![Request::Stop] + rest) == watcher,
        watcher.handled_all(Seq::empty()) == watcher,
{
    let all = seq![first] + rest;
    assert(all.skip(1) =~= rest);
}

/// The shortest wait is the wait of one of the scopes.
pub proof fn law_the_shortest_wait_is_a_scopes(
    scopes: Seq<(ScopeView, CadenceView)>,
    now: int,
) -> (at: int)
    requires
        shortest_wait(scopes, now) is Some,
    ensures
        0 <= at < scopes.len(),
        scopes[at].1.until_due(now) == shortest_wait(scopes, now),
    decreases scopes.len(),
{
    let before = shortest_wait(scopes.drop_last(), now);
    if before is Some && shortest_wait(scopes, now) == before {
        law_the_shortest_wait_is_a_scopes(scopes.drop_last(), now)
    } else {
        scopes.len() - 1
    }
}

/// What is due is counted scope by scope.
pub proof fn law_what_is_due_adds_up(
    a: Seq<(ScopeView, CadenceView)>,
    b: Seq<(ScopeView, CadenceView)>,
    one: (ScopeView, CadenceView),
    now: int,
)
    ensures
        due_among(a + b, now) == due_among(a, now) + due_among(b, now),
        one.1.is_due(now) ==> due_among(seq![one], now) == 1,
        !one.1.is_due(now) ==> due_among(seq![one], now) == 0,
        due_among(Seq::empty(), now) == 0,
    decreases b.len(),
{
    reveal_with_fuel(due_among, 2);
    assert(seq![one].drop_last() =~= Seq::empty());
    if b.len() == 0 {
        assert(a + b =~= a);
    } else {
        law_what_is_due_adds_up(a, b.drop_last(), one, now);
        assert((a + b).drop_last() =~= a + b.drop_last());
        assert((a + b).last() == b.last());
    }
}

/// The worker sleeps until the next read is due, and an hour where none is.
pub proof fn law_the_worker_sleeps_until_the_next_read<S: KubeSource>(
    watcher: &Watcher<S>,
    now: u128,
    wait: u128,
)
    requires
        call_ensures(Watcher::<S>::idle_for, (watcher, now), wait),
    ensures
        shortest_wait(watcher@.scopes, now as int) matches Some(left) ==> wait == left,
        shortest_wait(watcher@.scopes, now as int) is None ==> wait == 3_600_000_000_000,
{
}

/// A worker that is gone is told of once, and what it said before is passed
/// on as it is.
pub proof fn law_a_gone_worker_is_told_of_once(
    inbox: &mut Inbox,
    event: Event,
    told: Option<Event>,
)
    ensures
        call_ensures(Inbox::take, (inbox, Arrival::Gone), told) ==> final(inbox).has_stopped() && (
        told is Some <==> !old(inbox).has_stopped()) && (told is Some ==> told->0 is Stopped),
        call_ensures(Inbox::take, (inbox, Arrival::Nothing), told) ==> told is None && final(
            inbox
        ).has_stopped() == old(inbox).has_stopped(),
        call_ensures(Inbox::take, (inbox, Arrival::Told(event)), told) ==> told == Some(event),
{
}

/// A round is its polls, one after the other.
pub proof fn law_a_round_is_poll_after_poll(
    watcher: WatcherView,
    now: int,
    told: Seq<EventView>,
    two: Seq<EventView>,
)
    requires
        two.len() == 2,
    ensures
        watcher.after_round(now, Seq::empty()) == Some(watcher),
        watcher.after_round(now, two) == watcher.after_poll(now, two),
        watcher.after_round(now, told) matches Some(before) ==> watcher.after_round(
            now,
            told + two,
        ) == before.after_poll(now, two),
        watcher.after_round(now, told) is None ==> watcher.after_round(now, told + two) is None,
        watcher.after_round(now, two.take(1)) is None,
{
    reveal_with_fuel(WatcherView::after_round, 2);
    let whole = told + two;
    assert(whole.take(whole.len() - 2) =~= told);
    assert(whole.skip(whole.len() - 2) =~= two);
    assert(two.take(0) =~= Seq::empty());
    assert(two.skip(0) =~= two);
}

} // verus!
