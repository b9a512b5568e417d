//! The terminal loop's decisions: what the first frame is painted from, when
//! the layout and the cache are written, what the worker is told, and what
//! the status bar says of what was done. Every time is a count of
//! nanoseconds since the run began.

use vstd::prelude::*;
use vstd::string::*;

use crate::app::application::{App, AppView};
use crate::app::shell::{Level, Shell, ShellView};
use crate::cache::{CachedScopeView, Snapshot, VERSION};
use crate::config::{tab_views, Scope, Tab};
use crate::kube::cadence::{DEFAULT_REFRESH, LONGEST};
use crate::kube::watcher::{scope_views, Event, Request};
use crate::store::{can_count, kept, opened_with, paired, ScopeDataView, Store};
use crate::text;

verus! {

/// How long a settled screen waits for a key before looking at the clock.
pub const RESTING: u128 = 250_000_000;

/// How long a frame of the spinner stands.
pub const TURNING: u128 = 120_000_000;

/// How long a layout has to stop changing before it is written. Holding `S`
/// through six columns is one save, not six.
pub const SETTLE: u128 = 500_000_000;

/// How often the cache is rewritten while reads keep landing. Every read
/// would be a file write every few seconds for nothing anyone can see.
pub const CACHE_EVERY: u128 = 30_000_000_000;

/// How often the open tab is read: so many seconds, or the default where
/// nobody said.
pub open spec fn fast_of(refresh: Option<u64>) -> int {
    match refresh {
        Some(seconds) => seconds * 1_000_000_000,
        None => DEFAULT_REFRESH as int,
    }
}

/// How often the open tab is read.
pub fn fast_refresh(refresh: Option<u64>) -> (fast: u128)
    ensures
        fast == fast_of(refresh),
        fast <= LONGEST,
{
    match refresh {
        Some(seconds) => seconds as u128 * 1_000_000_000,
        None => DEFAULT_REFRESH,
    }
}

/// The store the first frame is painted from: the cache, unless there is
/// none or it is not to be read.
pub fn opening_store(no_cache: bool, snapshot: &Option<Snapshot>, tabs: &Vec<Tab>) -> (store: Store)
    ensures
        store@ == (match snapshot {
            Some(snapshot) if !no_cache => opened_with(snapshot@, tab_views(tabs@)),
            _ => Seq::new(tabs@.len(), |at: int| ScopeDataView::empty()),
        }),
{
    match snapshot {
        Some(snapshot) => if no_cache {
            Store::new(tabs.len())
        } else {
            Store::from_cache(snapshot, tabs.as_slice())
        },
        None => Store::new(tabs.len()),
    }
}

/// The scopes the worker reads, in the tabs' order.
pub fn scopes_of(tabs: &Vec<Tab>) -> (scopes: Vec<Scope>)
    ensures
        scope_views(scopes@) == Seq::new(tabs@.len(), |at: int| tabs@[at]@.scope),
{
    let mut scopes: Vec<Scope> = Vec::new();
    let mut at: usize = 0;
    while at < tabs.len()
        invariant
            at <= tabs@.len(),
            scopes@.len() == at,
            forall|k: int| 0 <= k < at ==> (#[trigger] scopes@[k])@ == tabs@[k]@.scope,
        decreases tabs@.len() - at,
    {
        scopes.push(tabs[at].scope.clone());
        at += 1;
    }
    assert(scope_views(scopes@) =~= Seq::new(tabs@.len(), |at: int| tabs@[at]@.scope));
    scopes
}

/// How long to wait for a key: a frame of the spinner while it turns.
pub fn poll_for(reading: bool) -> (wait: u128)
    ensures
        wait == if reading {
            TURNING
        } else {
            RESTING
        },
{
    if reading {
        TURNING
    } else {
        RESTING
    }
}

/// What the loop remembers between two frames.
#[derive(Debug)]
pub struct Timers {
    /// Neither read nor write the cache.
    pub no_cache: bool,
    /// The layout as it was last written.
    pub saved: String,
    /// The layout as it was last seen, and when it is written if it stays so.
    pub settling: Option<(String, u128)>,
    pub cache_written: u128,
    /// The tab that the worker was told is on screen.
    pub showing: Option<usize>,
}

#[verifier::ext_equal]
pub struct TimersView {
    pub no_cache: bool,
    pub saved: Seq<char>,
    pub settling: Option<(Seq<char>, int)>,
    pub cache_written: int,
    pub showing: Option<int>,
}

impl View for Timers {
    type V = TimersView;

    open spec fn view(&self) -> TimersView {
        TimersView {
            no_cache: self.no_cache,
            saved: self.saved@,
            settling: match self.settling {
                Some(held) => Some((held.0@, held.1 as int)),
                None => None,
            },
            cache_written: self.cache_written as int,
            showing: match self.showing {
                Some(tab) => Some(tab as int),
                None => None,
            },
        }
    }
}

impl TimersView {
    /// The layout is written now: it has been this one for long enough.
    pub open spec fn writes_layout(self, layout: Seq<char>, now: int) -> bool {
        layout != self.saved && (self.settling matches Some((seen, due)) && seen == layout && now
            >= due)
    }

    /// What a look at the layout leaves behind.
    pub open spec fn after_layout(self, layout: Seq<char>, now: int) -> TimersView {
        if layout == self.saved {
            TimersView { settling: None, ..self }
        } else if self.writes_layout(layout, now) {
            TimersView { settling: None, saved: layout, ..self }
        } else {
            TimersView {
                settling: match self.settling {
                    Some((seen, due)) if seen == layout => Some((seen, due)),
                    _ => Some((layout, now + SETTLE)),
                },
                ..self
            }
        }
    }

    /// The cache is written now: there are rows it does not have, and it was
    /// not written for long enough.
    pub open spec fn writes_cache(self, dirty: bool, now: int) -> bool {
        dirty && !self.no_cache && now - self.cache_written >= CACHE_EVERY
    }
}

/// What the cache has of an application: every scope that was read.
pub open spec fn snapshot_of(app: AppView) -> Seq<CachedScopeView> {
    kept(app.tabs, app.store, paired(app.tabs, app.store))
}

impl Timers {
    /// A run that begins with this layout.
    pub fn new(no_cache: bool, layout: &str, now: u128) -> (timers: Self)
        ensures
            timers@ == (TimersView {
                no_cache,
                saved: layout@,
                settling: None,
                cache_written: now as int,
                showing: None,
            }),
    {
        Timers {
            no_cache,
            saved: layout.to_owned(),
            settling: None,
            cache_written: now,
            showing: None,
        }
    }

    /// Looks at the layout, and says whether it is to be written: once it
    /// has stopped moving.
    pub fn layout_due(&mut self, layout: &str, now: u128) -> (due: bool)
        requires
            now + SETTLE <= u128::MAX,
        ensures
            due == old(self)@.writes_layout(layout@, now as int),
            final(self)@ == old(self)@.after_layout(layout@, now as int),
    {
        if text::same(self.saved.as_str(), layout) {
            self.settling = None;
            return false;
        }
        let stays = match &self.settling {
            Some(held) => if text::same(held.0.as_str(), layout) {
                Some(held.1)
            } else {
                None
            },
            None => None,
        };
        match stays {
            Some(due) => if now >= due {
                self.settling = None;
                self.saved = layout.to_owned();
                true
            } else {
                false
            },
            None => {
                self.settling = Some((layout.to_owned(), now + SETTLE));
                false
            },
        }
    }

    /// The cache, when it is to be written now: it then has every row there
    /// is.
    pub fn cache_due(&mut self, app: &mut App, now: u128) -> (due: Option<Snapshot>)
        ensures
            due is Some <==> old(self)@.writes_cache(old(app)@.cache_dirty, now as int),
            due matches Some(due) ==> due@ == snapshot_of(old(app)@) && due.version == VERSION,
            final(self)@ == (if due is Some {
                TimersView { cache_written: now as int, ..old(self)@ }
            } else {
                old(self)@
            }),
            final(app)@ == (if due is Some {
                AppView { cache_dirty: false, ..old(app)@ }
            } else {
                old(app)@
            }),
    {
        let due = app.cache_dirty && !self.no_cache && now >= self.cache_written && now
            - self.cache_written >= CACHE_EVERY;
        if due {
            self.cache_written = now;
            app.cache_dirty = false;
            Some(app.store.snapshot(app.tabs.as_slice()))
        } else {
            None
        }
    }

    /// The cache, when it goes with the run as it ends, timers or not.
    pub fn cache_on_quit(&self, app: &App) -> (due: Option<Snapshot>)
        ensures
            match due {
                Some(due) => app@.cache_dirty && !self@.no_cache && due@ == snapshot_of(app@)
                    && due.version == VERSION,
                None => !app@.cache_dirty || self@.no_cache,
            },
    {
        if app.cache_dirty && !self.no_cache {
            Some(app.store.snapshot(app.tabs.as_slice()))
        } else {
            None
        }
    }

    /// What the worker is to be told of the tab on screen: once when it
    /// comes on screen, and nothing where there is no tab.
    pub fn tab_shown(&mut self, app: &App) -> (request: Option<Request>)
        ensures
            request == (if app@.tab < app@.tabs.len() && old(self)@.showing != Some(app@.tab) {
                Some(Request::Showing(app.tab))
            } else {
                None
            }),
            final(self)@ == (if request is Some {
                TimersView { showing: Some(app@.tab), ..old(self)@ }
            } else {
                old(self)@
            }),
    {
        if app.tab >= app.tabs.len() {
            return None;
        }
        let same = match self.showing {
            Some(shown) => shown == app.tab,
            None => false,
        };
        if same {
            None
        } else {
            self.showing = Some(app.tab);
            Some(Request::Showing(app.tab))
        }
    }
}

/// Takes what the worker said. That it stopped is said in the status bar.
pub fn told(app: &mut App, event: Event)
    requires
        can_count(old(app)@.store, event@),
    ensures
        event is Stopped ==> final(app)@ == (AppView {
            shell: ShellView {
                notification: Some(
                    ("the cluster worker stopped; restart aks-tui"@, Level::Error),
                ),
                ..old(app)@.shell
            },
            ..old(app)@
        }),
        !(event is Stopped) ==> exists|now: int|
            final(app)@ == #[trigger] old(app)@.after_event(event@, now),
{
    let ghost before = app@;
    let stopped = match &event {
        Event::Stopped => true,
        _ => false,
    };
    if stopped {
        app.shell.set_error("the cluster worker stopped; restart aks-tui");
    } else {
        app.apply(event);
    }
}

/// How a text reached the clipboard.
#[derive(Clone, Copy, Debug, PartialEq, Eq, Structural)]
pub enum Channel {
    /// A command took it.
    Command,
    /// It went out as an escape that nothing confirmed.
    Terminal,
}

/// What the status bar says of a copy. A terminal that does not speak the
/// escape has dropped the text, so it says which it was.
pub open spec fn copy_said(
    label: Seq<char>,
    result: Result<Channel, Seq<char>>,
) -> (Seq<char>, Level) {
    match result {
        Ok(Channel::Command) => (label, Level::Info),
        Ok(Channel::Terminal) => (
            label + " \u{b7} sent to the terminal (OSC 52)"@,
            Level::Info,
        ),
        Err(error) => (error, Level::Error),
    }
}

/// What a copy came to.
pub open spec fn copy_view(result: Result<Channel, String>) -> Result<Channel, Seq<char>> {
    match result {
        Ok(channel) => Ok(channel),
        Err(error) => Err(error@),
    }
}

/// Says in the status bar what a copy came to.
pub fn copied(shell: &mut Shell, label: &str, result: &Result<Channel, String>)
    ensures
        final(shell)@ == (ShellView {
            notification: Some(copy_said(label@, copy_view(*result))),
            ..old(shell)@
        }),
{
    match result {
        Ok(Channel::Command) => shell.set_status(label),
        Ok(Channel::Terminal) => shell.set_status(
            label.to_owned().concat(" \u{b7} sent to the terminal (OSC 52)").as_str(),
        ),
        Err(error) => shell.set_error(error.as_str()),
    }
}

/// Says in the status bar that a request did not reach the worker.
pub fn sent(shell: &mut Shell, result: &Result<(), String>)
    ensures
        final(shell)@ == (match result {
            Ok(_) => old(shell)@,
            Err(error) => ShellView {
                notification: Some((error@, Level::Error)),
                ..old(shell)@
            },
        }),
{
    match result {
        Ok(_) => {},
        Err(error) => shell.set_error(error.as_str()),
    }
}

/// Says in the status bar that a file could not be written: what it is, and
/// why not.
pub fn not_saved(shell: &mut Shell, what: &str, error: &str)
    ensures
        final(shell)@ == (ShellView {
            notification: Some(
                ("could not save the "@ + what@ + ": "@ + error@, Level::Error),
            ),
            ..old(shell)@
        }),
{
    shell.set_error(
        "could not save the ".to_owned().concat(what).concat(": ").concat(error).as_str(),
    );
}

/// A layout that has not stood still is not written: a look at another
/// layout starts the wait again.
pub proof fn law_a_layout_is_written_once_it_has_stopped_moving(
    timers: TimersView,
    layout: Seq<char>,
    moved: Seq<char>,
    now: int,
    later: int,
)
    requires
        layout != timers.saved,
        moved != timers.saved,
        moved != layout,
        !timers.writes_layout(layout, now),
        later < now + SETTLE,
    ensures
        !timers.after_layout(layout, now).writes_layout(moved, later),
        !timers.after_layout(layout, now).after_layout(moved, now).writes_layout(moved, later),
        timers.after_layout(layout, now).after_layout(moved, now).writes_layout(
            moved,
            now + SETTLE,
        ),
{
}

/// A layout that was written is not written again while it stays so.
pub proof fn law_a_layout_is_written_once(timers: TimersView, layout: Seq<char>, now: int, later: int)
    requires
        timers.writes_layout(layout, now),
    ensures
        !timers.after_layout(layout, now).writes_layout(layout, later),
{
}

/// The open tab is read as often as the configuration says, in seconds, and
/// every five where it does not say.
pub proof fn law_the_open_tab_is_read_as_often_as_asked(seconds: u64)
    ensures
        fast_of(Some(seconds)) == seconds * 1_000_000_000,
        fast_of(None) == 5_000_000_000,
        fast_of(Some(5)) == fast_of(None),
{
}

/// The cache is written half a minute after it last was, while there are
/// rows it does not have, and never where the run keeps none.
pub proof fn law_the_cache_is_written_every_half_minute(timers: TimersView, dirty: bool, now: int)
    ensures
        timers.no_cache ==> !timers.writes_cache(dirty, now),
        !timers.writes_cache(false, now),
        !timers.no_cache ==> (timers.writes_cache(true, now) <==> now >= timers.cache_written
            + 30_000_000_000),
{
}

/// A layout is written once it has stood for half a second, and one that
/// goes back to what is in the file is not written at all.
pub proof fn law_a_layout_settles_for_half_a_second(
    timers: TimersView,
    layout: Seq<char>,
    now: int,
    later: int,
)
    requires
        layout != timers.saved,
        timers.settling is None,
    ensures
        !timers.writes_layout(layout, now),
        timers.after_layout(layout, now).writes_layout(layout, later) <==> later >= now
            + 500_000_000,
        timers.after_layout(layout, now).saved == timers.saved,
        !timers.writes_layout(timers.saved, later),
        timers.after_layout(layout, now).after_layout(timers.saved, now).settling is None,
{
}

/// A copy says what was copied, and that a terminal may have dropped it; one
/// that failed says why, as an error.
pub proof fn law_a_copy_says_what_it_came_to(label: Seq<char>, error: Seq<char>)
    ensures
        copy_said(label, Ok(Channel::Command)) == (label, Level::Info),
        copy_said(label, Ok(Channel::Terminal)).0.take(label.len() as int) == label,
        copy_said(label, Ok(Channel::Terminal)).0 != label,
        copy_said(label, Ok(Channel::Terminal)).1 == Level::Info,
        copy_said(label, Err(error)) == (error, Level::Error),
{
    reveal_strlit(" \u{b7} sent to the terminal (OSC 52)");
    assert(copy_said(label, Ok(Channel::Terminal)).0.take(label.len() as int) =~= label);
}

/// How long the loop waits for a key is a frame of the spinner while it
/// turns, and a quarter of a second while it rests.
pub proof fn law_the_loop_rests_a_quarter_of_a_second()
    ensures
        TURNING == 120_000_000,
        RESTING == 250_000_000,
{
}

/// A request that did not go out, and a file that was not written, say why,
/// as errors; a request that went out leaves the status bar as it was.
pub proof fn law_what_failed_is_said(shell: &mut Shell, what: &str, error: &str, said: String)
    ensures
        call_ensures(sent, (shell, &Err::<(), String>(said)), ()) ==> final(shell)@.notification
            == Some((said@, Level::Error)),
        call_ensures(sent, (shell, &Ok::<(), String>(())), ()) ==> final(shell)@ == old(shell)@,
        call_ensures(not_saved, (shell, what, error), ()) ==> final(shell)@.notification == Some(
            ("could not save the "@ + what@ + ": "@ + error@, Level::Error),
        ),
        call_ensures(copied, (shell, what, &Ok::<Channel, String>(Channel::Terminal)), ())
            ==> final(shell)@.notification == Some(
            (what@ + " \u{b7} sent to the terminal (OSC 52)"@, Level::Info),
        ),
        call_ensures(copied, (shell, what, &Err::<Channel, String>(said)), ()) ==> final(shell)@.notification
            == Some((said@, Level::Error)),
{
}

/// The loop wakes for every frame of the spinner while a read runs, and four
/// times a second while none does.
pub proof fn law_the_loop_wakes_for_the_spinner(wait: u128)
    ensures
        call_ensures(poll_for, (true,), wait) ==> wait == 120_000_000,
        call_ensures(poll_for, (false,), wait) ==> wait == 250_000_000,
{
}

/// The worker is told which tab is open once, when it comes to be open.
pub proof fn law_the_worker_is_told_of_the_open_tab_once(
    timers: &mut Timers,
    app: &App,
    request: Option<Request>,
)
    requires
        call_ensures(Timers::tab_shown, (timers, app), request),
        app@.tab < app@.tabs.len(),
    ensures
        old(timers)@.showing != Some(app@.tab) ==> request == Some(Request::Showing(app.tab)),
        old(timers)@.showing == Some(app@.tab) ==> request is None,
        final(timers)@.showing == Some(app@.tab),
        final(timers)@.saved == old(timers)@.saved,
{
}

/// A run opens with the rows it kept, and with none where it keeps none or
/// kept none.
pub proof fn law_a_run_without_a_cache_opens_empty(
    snapshot: Snapshot,
    tabs: &Vec<Tab>,
    store: Store,
    at: int,
)
    requires
        0 <= at < tabs@.len(),
    ensures
        call_ensures(opening_store, (true, &Some(snapshot), tabs), store) ==> store@.len()
            == tabs@.len() && store@[at].pods.len() == 0 && store@[at].read_at is None,
        call_ensures(opening_store, (false, &None, tabs), store) ==> store@.len() == tabs@.len()
            && store@[at].pods.len() == 0,
        call_ensures(opening_store, (false, &Some(snapshot), tabs), store) ==> store@
            == opened_with(snapshot@, tab_views(tabs@)),
{
}

/// What the run keeps on the way out is what it has and the file lacks.
pub proof fn law_the_cache_is_kept_on_the_way_out(
    timers: &Timers,
    app: &App,
    due: Option<Snapshot>,
)
    requires
        call_ensures(Timers::cache_on_quit, (timers, app), due),
    ensures
        due is Some <==> app@.cache_dirty && !timers@.no_cache,
        due is Some ==> due->0@ == snapshot_of(app@),
{
}

/// A worker that stopped is an error that says so, and changes nothing else.
pub proof fn law_a_stopped_worker_is_said(app: &mut App)
    requires
        call_ensures(told, (app, Event::Stopped), ()),
    ensures
        final(app)@.shell.notification == Some(
            ("the cluster worker stopped; restart aks-tui"@, Level::Error),
        ),
        final(app)@.store == old(app)@.store,
        final(app)@.screens == old(app)@.screens,
        final(app)@.tab == old(app)@.tab,
{
}

/// Rows that were written to the cache are not written again, and the snapshot
/// is of what the run has.
pub proof fn law_what_was_written_is_not_written_again(
    timers: &mut Timers,
    app: &mut App,
    now: u128,
    due: Option<Snapshot>,
)
    requires
        call_ensures(Timers::cache_due, (timers, app, now), due),
    ensures
        due is Some ==> !final(app)@.cache_dirty && due->0@ == snapshot_of(old(app)@) && final(
            timers
        )@.cache_written == now,
        due is None ==> final(app)@ == old(app)@ && final(timers)@ == old(timers)@,
        final(app)@.store == old(app)@.store,
        final(app)@.screens == old(app)@.screens,
{
}

} // verus!
