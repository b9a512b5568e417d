//! Which tab is open, and what the keys do before a screen sees them.

use vstd::prelude::*;
use vstd::string::*;

use crate::columns::{with_visible, ColumnId};
use crate::config::{tab_views, Tab, TabView};
use crate::input::{KeyCode, KeyEvent, MouseEvent, MouseKind};
use crate::kube::watcher::{Event, EventView, Request};
use crate::session::{Session, SessionTabView, SessionView};
use crate::store::{after_event, can_count, change_of, Applied, ScopeDataView, Store};
use crate::text;
use crate::text_input::{on_one_line, TextInputView};
use crate::timestamp::{age, age_of, Timestamp};

use super::layout::{
    apply_columns, column_entries, columns_of, read_sort, sort_entry, sort_in, sort_of,
    with_entries,
};
use super::scope::{hint_of, ScopeScreen, ScopeScreenView};
use super::screen::{AppAction, Target};
use super::shell::{drawn_at, Focus, Shell, ShellView};

verus! {

/// The application: what every tab shares, one screen a tab, and what the
/// clusters answered.
#[derive(Debug)]
pub struct App {
    pub shell: Shell,
    /// The tabs, in `config.toml`'s order. One screen each.
    pub tabs: Vec<Tab>,
    pub tab: usize,
    pub screens: Vec<ScopeScreen>,
    pub store: Store,
    /// Whether rows have come in that the cache file does not have.
    pub cache_dirty: bool,
}

#[verifier::ext_equal]
pub struct AppView {
    pub shell: ShellView,
    pub tabs: Seq<TabView>,
    pub tab: int,
    pub screens: Seq<ScopeScreenView>,
    pub store: Seq<ScopeDataView>,
    pub cache_dirty: bool,
}

/// What each screen is.
pub open spec fn screen_views(screens: Seq<ScopeScreen>) -> Seq<ScopeScreenView> {
    screens.map_values(|screen: ScopeScreen| screen@)
}

impl View for App {
    type V = AppView;

    open spec fn view(&self) -> AppView {
        AppView {
            shell: self.shell@,
            tabs: tab_views(self.tabs@),
            tab: self.tab as int,
            screens: screen_views(self.screens@),
            store: self.store@,
            cache_dirty: self.cache_dirty,
        }
    }
}

/// The screen a tab opens with. A tab over every namespace says which each
/// pod is in.
pub open spec fn opening_screen(tab: TabView) -> ScopeScreenView {
    if tab.scope.namespace is None {
        ScopeScreenView {
            layout: with_visible(ScopeScreenView::fresh().layout, ColumnId::Namespace, true),
            ..ScopeScreenView::fresh()
        }
    } else {
        ScopeScreenView::fresh()
    }
}

/// Where the first tab of this label stands, or past the last.
pub open spec fn labelled(tabs: Seq<TabView>, label: Seq<char>) -> nat
    decreases tabs.len(),
{
    if tabs.len() == 0 || tabs[0].label == label {
        0
    } else {
        1 + labelled(tabs.skip(1), label)
    }
}

/// What the session file has of a screen.
pub open spec fn entry_of(screen: ScopeScreenView) -> SessionTabView {
    SessionTabView {
        sort: Some(sort_entry(screen.sort, screen.descending)),
        columns: column_entries(screen.layout),
    }
}

/// A screen with what the session file has of it. A sort this build does not
/// know is left as it is.
pub open spec fn screen_with(screen: ScopeScreenView, held: SessionTabView) -> ScopeScreenView {
    let laid_out = ScopeScreenView {
        layout: with_entries(screen.layout, held.columns),
        ..screen
    };
    match sort_in(held.sort) {
        Some(sort) => ScopeScreenView { sort: sort.0, descending: sort.1, ..laid_out },
        None => laid_out,
    }
}

impl AppView {
    /// An application over these tabs, with what the clusters answered
    /// before.
    pub open spec fn opened(tabs: Seq<TabView>, store: Seq<ScopeDataView>) -> AppView {
        AppView {
            shell: ShellView::fresh(),
            tabs,
            tab: 0,
            screens: tabs.map_values(|tab: TabView| opening_screen(tab)),
            store,
            cache_dirty: false,
        }
    }

    pub open spec fn with_focus(self, focus: Focus) -> AppView {
        AppView { shell: self.shell.with_focus(focus), ..self }
    }

    pub open spec fn with_help(self, help_open: bool) -> AppView {
        AppView { shell: ShellView { help_open, ..self.shell }, ..self }
    }

    /// Whether there is a screen to show.
    pub open spec fn has_screen(self) -> bool {
        0 <= self.tab < self.screens.len()
    }

    /// With the open tab's screen changed, if there is one.
    pub open spec fn with_screen(self, screen: ScopeScreenView) -> AppView {
        if self.has_screen() {
            AppView { screens: self.screens.update(self.tab, screen), ..self }
        } else {
            self
        }
    }

    /// With what is in the open tab's search box changed.
    pub open spec fn with_input(self, input: TextInputView) -> AppView {
        self.with_screen(ScopeScreenView { input, ..self.screens[self.tab] })
    }

    /// On another tab, if there is such a tab: the table has the keys.
    pub open spec fn on_tab(self, tab: int) -> AppView {
        if self.tab != tab && 0 <= tab < self.tabs.len() {
            AppView { tab, ..self.with_focus(Focus::Table) }
        } else {
            self
        }
    }

    /// On the tab so many further, round the ends.
    pub open spec fn stepped(self, by: int) -> AppView {
        if self.tabs.len() == 0 {
            self
        } else {
            self.on_tab((self.tab + by) % self.tabs.len() as int)
        }
    }

    /// What a key makes of it. The global keys are matched first; everything
    /// else goes to the tab, except while the search box has focus, which
    /// takes everything but `Esc`, `Enter` and `Tab`. The help takes every
    /// key: the one thing it can do is close.
    pub open spec fn after_key(self, key: KeyEvent) -> AppView {
        if !key.press || (key.control && key.code == KeyCode::Char('c')) {
            self
        } else if self.shell.help_open {
            self.with_help(false)
        } else if self.shell.focus is Search {
            match key.code {
                KeyCode::Enter | KeyCode::Esc | KeyCode::Tab => self.with_focus(Focus::Table),
                _ => self.with_input(self.screens[self.tab].input.after_key(key)),
            }
        } else {
            match key.code {
                KeyCode::Char('[') | KeyCode::Left => self.stepped(-1),
                KeyCode::Char(']') | KeyCode::Right => self.stepped(1),
                KeyCode::Char('?') => self.with_help(true),
                KeyCode::Char('q') | KeyCode::Char('r') => self,
                KeyCode::Char('/') => self.with_focus(Focus::Search),
                KeyCode::Esc => self.with_input(TextInputView::empty()),
                KeyCode::Tab => self.with_focus(
                    if self.shell.focus is Table {
                        Focus::Details
                    } else {
                        Focus::Table
                    },
                ),
                KeyCode::Char(c) if '1' <= c <= '9' => self.on_tab(c as int - '1' as int),
                _ => self.with_screen(
                    self.screens[self.tab].after_key(self.shell.focus, key.code),
                ),
            }
        }
    }

    /// What a key asks of the run: `Ctrl-C` ends it from anywhere, `q` where
    /// it is not typed into the box, and `r` reads the open tab again.
    pub open spec fn asked_by_key(self, key: KeyEvent) -> AppAction {
        if !key.press {
            AppAction::Nothing
        } else if key.control && key.code == KeyCode::Char('c') {
            AppAction::Quit
        } else if self.shell.help_open || self.shell.focus is Search {
            AppAction::Nothing
        } else if key.code == KeyCode::Char('q') {
            AppAction::Quit
        } else if key.code == KeyCode::Char('r') && self.tab < self.tabs.len() {
            AppAction::Send(Request::Refresh(self.tab as usize))
        } else {
            AppAction::Nothing
        }
    }

    /// What a paste makes of it: it goes into the search box when that is
    /// what has focus, and nowhere otherwise.
    pub open spec fn after_paste(self, pasted: Seq<char>) -> AppView {
        if self.shell.focus is Search {
            self.with_input(self.screens[self.tab].input.with(on_one_line(pasted)))
        } else {
            self
        }
    }

    /// What a click on something makes of it.
    pub open spec fn after_click(self, target: Target) -> AppView {
        match target {
            Target::Tab(tab) => self.on_tab(tab as int),
            Target::Help => self.with_help(!self.shell.help_open),
            Target::SearchField => self.with_focus(Focus::Search),
            Target::ClearSearch => self.with_input(TextInputView::empty()),
            Target::Details => self.with_focus(Focus::Details),
            _ => self.with_focus(Focus::Table).with_screen(
                self.screens[self.tab].after_click(target),
            ),
        }
    }

    /// What the mouse makes of it, over whatever was drawn there last.
    pub open spec fn after_mouse(self, event: MouseEvent) -> AppView {
        let target = drawn_at(self.shell.regions, event.column as int, event.row as int);
        match event.kind {
            MouseKind::Down => match target {
                Some(target) => self.after_click(target),
                None => self,
            },
            MouseKind::ScrollDown => self.with_screen(
                self.screens[self.tab].after_wheel(target, 3),
            ),
            MouseKind::ScrollUp => self.with_screen(
                self.screens[self.tab].after_wheel(target, -3),
            ),
            MouseKind::Other => self,
        }
    }

    /// The session of the first so many tabs.
    pub open spec fn session_among(self, count: nat) -> SessionView
        decreases count,
    {
        if count == 0 {
            SessionView {
                tab: if 0 <= self.tab < self.tabs.len() {
                    Some(self.tabs[self.tab].label)
                } else {
                    None
                },
                tabs: seq![],
            }
        } else {
            self.session_among((count - 1) as nat).with_tab(
                self.tabs[count - 1].label,
                entry_of(self.screens[count - 1]),
            )
        }
    }

    /// How many tabs have a screen.
    pub open spec fn paired(self) -> nat {
        if self.tabs.len() <= self.screens.len() {
            self.tabs.len()
        } else {
            self.screens.len()
        }
    }

    /// The layout as it stands, for the file.
    pub open spec fn session(self) -> SessionView {
        self.session_among(self.paired())
    }

    /// With a session put back. What it does not have stays as it is, and so
    /// does what this build does not know.
    pub open spec fn restored(self, session: SessionView) -> AppView {
        AppView {
            tab: match session.tab {
                Some(label) if labelled(self.tabs, label) < self.tabs.len() => {
                    labelled(self.tabs, label) as int
                },
                _ => self.tab,
            },
            screens: Seq::new(
                self.screens.len(),
                |at: int|
                    if at < self.tabs.len() {
                        match session.of_tab(self.tabs[at].label) {
                            Some(held) => screen_with(self.screens[at], held),
                            None => self.screens[at],
                        }
                    } else {
                        self.screens[at]
                    },
            ),
            ..self
        }
    }

    /// What a worker's event makes of it, when it comes in at `now`: rows
    /// that moved are filtered again, and are not in the cache file yet.
    pub open spec fn after_event(self, event: EventView, now: int) -> AppView {
        let store = after_event(self.store, event, now);
        match change_of(self.store.len(), event) {
            Applied::Pods(scope) => AppView {
                store,
                cache_dirty: true,
                screens: if scope < self.screens.len() {
                    self.screens.update(
                        scope as int,
                        self.screens[scope as int].refiltered(store[scope as int].pods),
                    )
                } else {
                    self.screens
                },
                ..self
            },
            _ => AppView { store, ..self },
        }
    }

    /// What the status bar says on the right: what the open tab holds, and
    /// how old it is once it was read.
    pub open spec fn state(self, now: int) -> Seq<char> {
        if 0 <= self.tab < self.tabs.len() {
            let scope = "\u{25cf} "@ + self.tabs[self.tab].scope.describe();
            if self.tab < self.store.len() && self.store[self.tab].read_at is Some {
                scope + " \u{b7} "@ + age_of(self.store[self.tab].read_at, now) + " old"@
            } else {
                scope
            }
        } else {
            "no clusters configured"@
        }
    }
}

impl App {
    /// An application over these tabs that nothing was read of yet.
    pub fn new(tabs: Vec<Tab>) -> (app: Self)
        ensures
            app@ == AppView::opened(
                tab_views(tabs@),
                Seq::new(tabs@.len(), |at: int| ScopeDataView::empty()),
            ),
    {
        let store = Store::new(tabs.len());
        App::with_store(tabs, store)
    }

    /// An application over these tabs, with what the clusters answered
    /// before.
    pub fn with_store(tabs: Vec<Tab>, store: Store) -> (app: Self)
        ensures
            app@ == AppView::opened(tab_views(tabs@), store@),
    {
        let mut screens: Vec<ScopeScreen> = Vec::new();
        let ghost all = tab_views(tabs@);
        let mut at: usize = 0;
        while at < tabs.len()
            invariant
                at <= tabs@.len(),
                all == tab_views(tabs@),
                screens@.len() == at,
                forall|k: int| 0 <= k < at ==> (#[trigger] screens@[k])@ == opening_screen(all[k]),
            decreases tabs@.len() - at,
        {
            let mut screen = ScopeScreen::default();
            // A tab over every namespace says which each pod is in.
            if tabs[at].scope.namespace.is_none() {
                screen.layout.set_visible(ColumnId::Namespace, true);
            }
            assert(all[at as int] == tabs@[at as int]@);
            screens.push(screen);
            at += 1;
        }
        let app = App {
            shell: Shell::default(),
            tabs,
            tab: 0,
            screens,
            store,
            cache_dirty: false,
        };
        assert(app@.screens =~= AppView::opened(all, store@).screens);
        app
    }

    /// One key. The global keys are matched here first; everything else goes
    /// to the tab, except while the search box has focus, which takes
    /// everything but `Esc`, `Enter` and `Tab`.
    pub fn handle_key(&mut self, key: KeyEvent) -> (action: AppAction)
        ensures
            final(self)@ == old(self)@.after_key(key),
            action == old(self)@.asked_by_key(key),
    {
        if !key.press {
            return AppAction::Nothing;
        }
        if key.control && key.code == KeyCode::Char('c') {
            return AppAction::Quit;
        }
        if self.shell.help_open {
            // The help takes every key: the one thing it can do is close.
            self.shell.help_open = false;
            return AppAction::Nothing;
        }
        if self.shell.focus == Focus::Search {
            self.key_in_search(key);
            return AppAction::Nothing;
        }
        match key.code {
            KeyCode::Char('[') | KeyCode::Left => {
                self.step_tab(false);
                AppAction::Nothing
            },
            KeyCode::Char(']') | KeyCode::Right => {
                self.step_tab(true);
                AppAction::Nothing
            },
            KeyCode::Char('?') => {
                self.shell.help_open = true;
                AppAction::Nothing
            },
            KeyCode::Char('q') => AppAction::Quit,
            KeyCode::Char('r') => if self.tab < self.tabs.len() {
                AppAction::Send(Request::Refresh(self.tab))
            } else {
                AppAction::Nothing
            },
            // Esc out of the table clears the query rather than quitting:
            // Esc left the box keeping the filter, and this is the second
            // press that takes it off.
            KeyCode::Esc => {
                self.clear_query();
                AppAction::Nothing
            },
            KeyCode::Char('/') => {
                self.shell.focus = Focus::Search;
                AppAction::Nothing
            },
            KeyCode::Tab => {
                self.shell.toggle_focus();
                AppAction::Nothing
            },
            KeyCode::Char(number) if '1' <= number && number <= '9' => {
                self.switch_to(tab_of(number));
                AppAction::Nothing
            },
            _ => self.screen_key(key),
        }
    }

    /// While the box has focus every key is a character, except the three
    /// that leave it.
    fn key_in_search(&mut self, key: KeyEvent)
        requires
            key.press,
            !(key.control && key.code == KeyCode::Char('c')),
            !old(self)@.shell.help_open,
            old(self)@.shell.focus is Search,
        ensures
            final(self)@ == old(self)@.after_key(key),
    {
        let ghost before = self@;
        match key.code {
            KeyCode::Enter | KeyCode::Esc | KeyCode::Tab => {
                self.shell.focus = Focus::Table;
            },
            _ => {
                if self.tab < self.screens.len() {
                    let tab = self.tab;
                    assert(before.screens[tab as int] == self.screens@[tab as int]@);
                    self.screens[tab].input.handle_key(key);
                    assert(self@ =~= before.after_key(key));
                }
            },
        }
    }

    /// A paste, which bracketed paste hands over whole. It goes into the
    /// search box when that is what has focus, and nowhere otherwise.
    pub fn handle_paste(&mut self, pasted: &str) -> (action: AppAction)
        ensures
            final(self)@ == old(self)@.after_paste(pasted@),
            action is Nothing,
    {
        let ghost before = self@;
        if self.shell.focus == Focus::Search && self.tab < self.screens.len() {
            let tab = self.tab;
            assert(before.screens[tab as int] == self.screens@[tab as int]@);
            self.screens[tab].input.paste(pasted);
            assert(self@ =~= before.after_paste(pasted@));
        }
        AppAction::Nothing
    }

    /// `Esc` out of the table: the filter goes, and the table comes back
    /// whole.
    fn clear_query(&mut self)
        ensures
            final(self)@ == old(self)@.with_input(TextInputView::empty()),
    {
        let ghost before = self@;
        if self.tab < self.screens.len() {
            let tab = self.tab;
            assert(before.screens[tab as int] == self.screens@[tab as int]@);
            self.screens[tab].input.clear();
            assert(self@ =~= before.with_input(TextInputView::empty()));
        }
    }

    fn screen_key(&mut self, key: KeyEvent) -> (action: AppAction)
        ensures
            final(self)@ == old(self)@.with_screen(
                old(self)@.screens[old(self)@.tab].after_key(old(self)@.shell.focus, key.code),
            ),
            action is Nothing,
    {
        let ghost before = self@;
        if self.tab >= self.screens.len() {
            return AppAction::Nothing;
        }
        let tab = self.tab;
        assert(before.screens[tab as int] == self.screens@[tab as int]@);
        let action = self.screens[tab].handle_key(&self.shell, key);
        assert(self@ =~= before.with_screen(
            before.screens[before.tab].after_key(before.shell.focus, key.code),
        ));
        action
    }

    fn switch_to(&mut self, tab: usize)
        ensures
            final(self)@ == old(self)@.on_tab(tab as int),
    {
        if self.tab != tab && tab < self.tabs.len() {
            self.tab = tab;
            self.shell.focus = Focus::Table;
        }
    }

    /// `[` and `]`: the previous and the next tab, round the ends.
    fn step_tab(&mut self, forward: bool)
        ensures
            final(self)@ == old(self)@.stepped(
                if forward {
                    1
                } else {
                    -1
                },
            ),
    {
        let count = self.tabs.len();
        if count == 0 {
            return ;
        }
        let at = self.tab % count;
        let next = if forward {
            if at + 1 < count {
                at + 1
            } else {
                0
            }
        } else if at > 0 {
            at - 1
        } else {
            count - 1
        };
        proof {
            lemma_step(self.tab as int, count as int, forward);
        }
        self.switch_to(next);
    }

    /// A click, resolved against what was drawn last frame. A click lands
    /// focus where it lands: on a row, the table; on the pane, the pane.
    pub fn handle_mouse(&mut self, event: MouseEvent) -> (action: AppAction)
        ensures
            final(self)@ == old(self)@.after_mouse(event),
            action is Nothing,
    {
        let target = match self.shell.hit(event.column, event.row) {
            Some(target) => Some(*target),
            None => None,
        };
        match event.kind {
            MouseKind::Down => match target {
                Some(target) => self.click(target),
                None => {},
            },
            MouseKind::ScrollDown => self.wheel(target, 3),
            MouseKind::ScrollUp => self.wheel(target, -3),
            MouseKind::Other => {},
        }
        AppAction::Nothing
    }

    fn click(&mut self, target: Target)
        ensures
            final(self)@ == old(self)@.after_click(target),
    {
        let ghost before = self@;
        match target {
            Target::Tab(tab) => self.switch_to(tab),
            Target::Help => {
                self.shell.help_open = !self.shell.help_open;
            },
            Target::SearchField => {
                self.shell.focus = Focus::Search;
            },
            Target::ClearSearch => self.clear_query(),
            Target::Details => {
                self.shell.focus = Focus::Details;
            },
            _ => {
                self.shell.focus = Focus::Table;
                if self.tab < self.screens.len() {
                    let tab = self.tab;
                    assert(before.screens[tab as int] == self.screens@[tab as int]@);
                    let _ = self.screens[tab].handle_click(target);
                    assert(self@ =~= before.after_click(target));
                }
            },
        }
    }

    fn wheel(&mut self, target: Option<Target>, delta: i32)
        ensures
            final(self)@ == old(self)@.with_screen(
                old(self)@.screens[old(self)@.tab].after_wheel(target, delta as int),
            ),
    {
        let ghost before = self@;
        if self.tab < self.screens.len() {
            let tab = self.tab;
            assert(before.screens[tab as int] == self.screens@[tab as int]@);
            self.screens[tab].handle_wheel(target, delta);
            assert(self@ =~= before.with_screen(
                before.screens[before.tab].after_wheel(target, delta as int),
            ));
        }
    }

    /// The layout as it stands, for the file. Never the query, never the
    /// cursor, and nothing a cluster answered.
    pub fn session(&self) -> (session: Session)
        ensures
            session@ == self@.session(),
    {
        let mut session = Session::default();
        if self.tab < self.tabs.len() {
            session.tab = Some(self.tabs[self.tab].label.clone());
        }
        let ghost whole = self@;
        let mut at: usize = 0;
        assert(session@.tabs =~= seq![]);
        while at < self.tabs.len() && at < self.screens.len()
            invariant
                at <= self.tabs@.len(),
                at <= self.screens@.len(),
                whole == self@,
                session@ == whole.session_among(at as nat),
            decreases self.tabs@.len() - at,
        {
            let screen = &self.screens[at];
            assert(whole.tabs[at as int] == self.tabs@[at as int]@);
            assert(whole.screens[at as int] == screen@);
            let held = session.tab(self.tabs[at].label.as_str());
            held.sort = Some(sort_of(screen.sort, screen.descending));
            held.columns = columns_of(&screen.layout);
            at += 1;
        }
        session
    }

    /// Puts a session back, before the first frame. Anything this build does
    /// not recognise is left where it is.
    pub fn restore(&mut self, session: &Session)
        ensures
            final(self)@ == old(self)@.restored(session@),
    {
        let ghost before = self@;
        if let Some(label) = &session.tab {
            let at = self.find_tab(label.as_str());
            if at < self.tabs.len() {
                self.tab = at;
            }
        }
        let ghost tab = self@.tab;
        let ghost after = before.restored(session@);
        let mut at: usize = 0;
        while at < self.tabs.len() && at < self.screens.len()
            invariant
                at <= self.tabs@.len(),
                at <= self.screens@.len(),
                after == before.restored(session@),
                self@.tabs == before.tabs,
                self@.shell == before.shell,
                self@.store == before.store,
                self@.cache_dirty == before.cache_dirty,
                self@.tab == tab,
                self@.screens.len() == before.screens.len(),
                forall|k: int| 0 <= k < at ==> #[trigger] self@.screens[k] == after.screens[k],
                forall|k: int|
                    at <= k < before.screens.len() ==> #[trigger] self@.screens[k]
                        == before.screens[k],
            decreases self.tabs@.len() - at,
        {
            let ghost mid = self@;
            assert(mid.tabs[at as int] == self.tabs@[at as int]@);
            assert(mid.screens[at as int] == self.screens@[at as int]@);
            if let Some(held) = session.get(self.tabs[at].label.as_str()) {
                if let Some(sort) = read_sort(&held.sort) {
                    self.screens[at].sort = sort.0;
                    self.screens[at].descending = sort.1;
                }
                apply_columns(&mut self.screens[at].layout, &held.columns);
                assert(self.screens@[at as int]@ =~= screen_with(mid.screens[at as int], held@));
                assert(self@.screens =~= mid.screens.update(at as int, after.screens[at as int]));
            }
            at += 1;
        }
        assert(self@.screens =~= after.screens);
    }

    fn find_tab(&self, label: &str) -> (at: usize)
        ensures
            at == labelled(self@.tabs, label@),
            at <= self.tabs@.len(),
    {
        let ghost all = self@.tabs;
        let mut at: usize = 0;
        assert(all.skip(0) =~= all);
        while at < self.tabs.len()
            invariant
                at <= self.tabs@.len(),
                all == self@.tabs,
                labelled(all, label@) == at + labelled(all.skip(at as int), label@),
            decreases self.tabs@.len() - at,
        {
            assert(all.skip(at as int)[0] == self.tabs@[at as int]@);
            if text::same(self.tabs[at].label.as_str(), label) {
                return at;
            }
            assert(all.skip(at as int).skip(1) =~= all.skip(at as int + 1));
            at += 1;
        }
        at
    }

    /// What the status bar says on the left when nothing has just happened.
    pub fn footer_hint(&self) -> (hint: String)
        ensures
            hint@ == if self@.has_screen() {
                hint_of(self@.shell.focus)
            } else {
                seq![]
            },
    {
        if self.tab < self.screens.len() {
            self.screens[self.tab].footer_hint(&self.shell)
        } else {
            String::new()
        }
    }

    /// What the status bar says on the right: what the open tab holds, and
    /// how old it is once it was read.
    pub fn store_state(&self, now: Timestamp) -> (said: String)
        ensures
            said@ == self@.state(now@),
    {
        if self.tab < self.tabs.len() {
            assert(self@.tabs[self@.tab] == self.tabs@[self.tab as int]@);
            let scope = "\u{25cf} ".to_owned().concat(
                self.tabs[self.tab].scope.describe().as_str(),
            );
            match self.store.scope(self.tab) {
                Some(held) if held.read_at.is_some() => {
                    scope.concat(" \u{b7} ").concat(age(held.read_at, now).as_str()).concat(" old")
                },
                _ => scope,
            }
        } else {
            "no clusters configured".to_owned()
        }
    }

    /// What a worker's event that came in at `now` changes.
    pub fn apply_at(&mut self, event: Event, now: Timestamp)
        requires
            can_count(old(self)@.store, event@),
        ensures
            final(self)@ == old(self)@.after_event(event@, now@),
    {
        let ghost before = self@;
        let applied = self.store.apply_at(event, now);
        assert(applied == change_of(before.store.len(), event@));
        if let Applied::Pods(scope) = applied {
            self.cache_dirty = true;
            assert(scope < self@.store.len());
            if scope < self.screens.len() {
                assert(before.screens[scope as int] == self.screens@[scope as int]@);
                assert(self@.store[scope as int] == self.store.scopes@[scope as int]@);
                self.screens[scope].refilter(&self.store.scopes[scope]);
                assert(self@.screens =~= before.after_event(event@, now@).screens);
            }
        }
        assert(self@ =~= before.after_event(event@, now@));
    }

    /// What a worker's event changes, at whatever time it is.
    pub fn apply(&mut self, event: Event)
        requires
            can_count(old(self)@.store, event@),
        ensures
            exists|now: int| final(self)@ == #[trigger] old(self)@.after_event(event@, now),
    {
        let now = Timestamp::now();
        self.apply_at(event, now);
    }
}

/// The tab that a number key stands for.
fn tab_of(number: char) -> (tab: usize)
    requires
        '1' <= number <= '9',
    ensures
        tab == number as int - '1' as int,
{
    (number as u32 - '1' as u32) as usize
}

proof fn lemma_step(tab: int, count: int, forward: bool)
    requires
        0 <= tab,
        0 < count,
    ensures
        forward ==> (tab + 1) % count == if tab % count + 1 < count {
            tab % count + 1
        } else {
            0
        },
        !forward ==> (tab - 1) % count == if tab % count > 0 {
            tab % count - 1
        } else {
            count - 1
        },
{
    let rest = tab % count;
    let turns = tab / count;
    vstd::arithmetic::div_mod::lemma_fundamental_div_mod(tab, count);
    vstd::arithmetic::div_mod::lemma_mod_bound(tab, count);
    if rest + 1 < count {
        vstd::arithmetic::div_mod::lemma_fundamental_div_mod_converse(
            tab + 1,
            count,
            turns,
            rest + 1,
        );
    } else {
        vstd::arithmetic::mul::lemma_mul_is_distributive_add(count, turns, 1);
        vstd::arithmetic::div_mod::lemma_fundamental_div_mod_converse(
            tab + 1,
            count,
            turns + 1,
            0,
        );
    }
    if rest > 0 {
        vstd::arithmetic::div_mod::lemma_fundamental_div_mod_converse(
            tab - 1,
            count,
            turns,
            rest - 1,
        );
    } else {
        vstd::arithmetic::mul::lemma_mul_is_distributive_sub(count, turns, 1);
        vstd::arithmetic::div_mod::lemma_fundamental_div_mod_converse(
            tab - 1,
            count,
            turns - 1,
            count - 1,
        );
    }
}

} // verus!
