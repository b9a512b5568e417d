//! One frame put together: the tab bar, the open tab, the status bar, and
//! the help over them.

use vstd::prelude::*;
use vstd::string::*;

use crate::app::application::{App, AppView};
use crate::app::rows::{
    law_the_rows_are_those_asked_for_in_order, lemma_no_more_rows_than_pods, SortView,
};
use crate::app::scope::{hint_of, schema, ScopeScreenView};
use crate::app::screen::Target;
use crate::app::shell::ShellView;
use crate::filter::QueryView;
use crate::kube::pod::PodView;
use crate::store::{complaints, paired, unhealthy_among, ScopeDataView};
use crate::text;
use crate::text::{decimal, words};
use crate::timestamp::Timestamp;

use super::layout::{frame_parts, frame_split, tab_split, FrameParts, TabParts};
use super::modal::{help_is, render_help, Help};
use super::paint::{Rect, Tone};
use super::pane::can_wrap;
use super::pods::maybe_text;
use super::render::{after_tab, headers_of, render, tab_is, TabDrawn};
use super::table::{body_rows, can_draw, can_draw_within, screen_drawn};
use super::widgets::{
    bar_fits, bar_is, label_views, render_status_bar, render_tab_bar, right_cells, spinner,
    spinner_frame, status_is, with_bar, StatusBar, TabBar, TabLabel, TabLabelView,
};

verus! {

/// The narrowest frame anything is drawn in.
pub const MIN_WIDTH: u16 = 40;

/// The lowest frame anything is drawn in.
pub const MIN_HEIGHT: u16 = 10;

/// What a frame says that has no tab to show.
pub const NO_CLUSTERS: &'static str =
    "No clusters configured.\n\nAdd a [[clusters]] table to ~/.config/aks-tui/config.toml naming a kubeconfig context and its namespaces, then start again.";

/// Whether there is room for a frame.
pub fn has_room(area: Rect) -> (answer: bool)
    ensures
        answer == (area.width >= MIN_WIDTH && area.height >= MIN_HEIGHT),
{
    area.width >= MIN_WIDTH && area.height >= MIN_HEIGHT
}

/// How many pods of a tab somebody has to look at, where there are any.
pub open spec fn badge_of(store: Seq<ScopeDataView>, index: int) -> Option<Seq<char>> {
    if index < store.len() && unhealthy_among(store[index].pods) > 0 {
        Some("\u{2717} "@ + decimal(unhealthy_among(store[index].pods)))
    } else {
        None
    }
}

/// A tab as the bar draws it.
pub open spec fn label_of(app: AppView, index: int) -> TabLabelView {
    TabLabelView {
        label: app.tabs[index].label,
        short: app.tabs[index].scope.short_label(),
        badge: badge_of(app.store, index),
    }
}

/// The tabs as the bar draws them.
pub fn tab_labels(app: &App) -> (labels: Vec<TabLabel>)
    ensures
        label_views(labels@) == Seq::new(app@.tabs.len(), |at: int| label_of(app@, at)),
{
    let mut labels: Vec<TabLabel> = Vec::new();
    let ghost all = Seq::new(app@.tabs.len(), |at: int| label_of(app@, at));
    let mut at: usize = 0;
    while at < app.tabs.len()
        invariant
            at <= app.tabs@.len(),
            all == Seq::new(app@.tabs.len(), |at: int| label_of(app@, at)),
            labels@.len() == at,
            forall|k: int| 0 <= k < at ==> (#[trigger] labels@[k])@ == all[k],
        decreases app.tabs@.len() - at,
    {
        let tab = &app.tabs[at];
        assert(app@.tabs[at as int] == tab@);
        let badge = match app.store.scope(at) {
            Some(slot) => {
                let count = slot.unhealthy();
                if count > 0 {
                    Some("\u{2717} ".to_owned().concat(text::print(count as u128).as_str()))
                } else {
                    None
                }
            },
            None => None,
        };
        labels.push(
            TabLabel {
                label: tab.label.clone(),
                short: tab.scope.short_label().to_owned(),
                badge,
            },
        );
        at += 1;
    }
    assert(label_views(labels@) =~= all);
    labels
}

/// One frame, as it is drawn.
#[derive(Debug)]
pub struct FrameDrawn {
    pub parts: FrameParts,
    pub bar: TabBar,
    /// The open tab, where there is one.
    pub tab: Option<TabDrawn>,
    pub status: StatusBar,
    pub help: Option<Help>,
}

/// The open tab with what its cluster answered, where there is one.
pub open spec fn shows_tab(app: AppView) -> bool {
    0 <= app.tab < app.tabs.len() && app.tab < app.screens.len() && app.tab < app.store.len()
}

/// The open tab's screen with the rows its search box asks for.
pub open spec fn screen_shown(app: AppView) -> ScopeScreenView {
    app.screens[app.tab].refiltered(app.store[app.tab].pods)
}

/// The tabs as the bar draws them.
pub open spec fn labels_of(app: AppView) -> Seq<TabLabelView> {
    Seq::new(app.tabs.len(), |at: int| label_of(app, at))
}

/// A read is in flight.
pub open spec fn is_reading(store: Seq<ScopeDataView>) -> bool {
    exists|at: int| 0 <= at < store.len() && (#[trigger] store[at]).reading
}

/// What the status bar says on the right: what the open tab holds, behind
/// the spinner while a read runs.
pub open spec fn right_of(app: AppView, millis: int, now: int) -> Seq<char> {
    if is_reading(app.store) {
        seq![spinner((millis / 120) % 4)] + " "@ + app.state(now)
    } else {
        app.state(now)
    }
}

/// What the keys do on the open tab.
pub open spec fn hint_shown(app: AppView) -> Seq<char> {
    if app.has_screen() {
        hint_of(app.shell.focus)
    } else {
        seq![]
    }
}

/// What the clusters are in trouble with.
pub open spec fn problems_of(app: AppView) -> Seq<Seq<char>> {
    complaints(app.tabs, app.store, paired(app.tabs, app.store))
}

/// The shell with nothing drawn but the tab bar.
pub open spec fn shell_barred(app: AppView, parts: FrameParts) -> ShellView {
    with_bar(ShellView { regions: seq![], ..app.shell }, parts.tabs, labels_of(app))
}

/// Everything that a frame of this size shows can be counted.
pub open spec fn can_frame(app: AppView, area: Rect, millis: int, now: int) -> bool {
    &&& bar_fits(area, labels_of(app))
    &&& right_cells(right_of(app, millis, now)) + 3 <= u16::MAX
    &&& app.shell.help_open ==> area.x + area.width <= u16::MAX && area.y + area.height
        <= u16::MAX
    &&& shows_tab(app) ==> {
        &&& can_wrap(area)
        &&& app.store[app.tab].pods.len() * (area.height + 1) <= usize::MAX
        &&& forall|k: int|
            0 <= k < app.store[app.tab].pods.len() ==> (
            #[trigger] app.store[app.tab].pods[k]).status.len() + 2 <= usize::MAX
    }
}

/// The application once a frame is drawn in these parts, with the open tab
/// in parts of its own and its headers here where there is one.
pub open spec fn after_frame(
    app: AppView,
    area: Rect,
    parts: FrameParts,
    within: Option<(TabParts, Seq<Rect>)>,
    replicas: Option<Seq<char>>,
    now: int,
) -> AppView {
    let barred = shell_barred(app, parts);
    let bodied = match within {
        Some((within, headers)) => {
            let drawn = after_tab(
                barred,
                screen_shown(app),
                app.tabs[app.tab],
                app.store[app.tab],
                parts.body.width,
                within,
                headers,
                replicas,
                now,
            );
            AppView { shell: drawn.0, screens: app.screens.update(app.tab, drawn.1), ..app }
        },
        None => AppView { shell: barred, ..app },
    };
    if app.shell.help_open {
        AppView { shell: bodied.shell.with_region(area, Target::Help), ..bodied }
    } else {
        bodied
    }
}

/// A frame of the application.
pub open spec fn frame_is(
    drawn: FrameDrawn,
    app: AppView,
    area: Rect,
    millis: int,
    replicas: Option<Seq<char>>,
    now: int,
) -> bool {
    &&& frame_split(area, drawn.parts)
    &&& bar_is(drawn.bar, drawn.parts.tabs, app.tab, labels_of(app))
    &&& match drawn.tab {
        Some(tab) => shows_tab(app) && tab_split(
            drawn.parts.body,
            screen_shown(app).input.has_text(),
            tab.parts,
        ) && tab_is(
            tab,
            shell_barred(app, drawn.parts),
            screen_shown(app),
            app.tabs[app.tab],
            app.store[app.tab],
            drawn.parts.body.width,
            tab.parts,
            replicas,
            now,
        ),
        None => !shows_tab(app),
    }
    &&& status_is(
        drawn.status,
        app.shell.notification,
        hint_shown(app),
        right_of(app, millis, now),
        drawn.parts.status,
    )
    &&& match drawn.help {
        Some(help) => app.shell.help_open && help_is(help, area, problems_of(app)),
        None => !app.shell.help_open,
    }
}

/// The parts of the open tab and its headers, where it was drawn.
pub open spec fn parts_within(drawn: FrameDrawn) -> Option<(TabParts, Seq<Rect>)> {
    match drawn.tab {
        Some(tab) => Some((tab.parts, headers_of(tab))),
        None => None,
    }
}

/// The rows that a search box asks for are pods there are, and no more of
/// them.
proof fn lemma_refiltered(screen: ScopeScreenView, pods: Seq<PodView>)
    requires
        pods.len() <= usize::MAX,
    ensures
        screen.refiltered(pods).layout == screen.layout,
        screen.refiltered(pods).visible.len() <= pods.len(),
        forall|k: int|
            0 <= k < screen.refiltered(pods).visible.len() ==> (#[trigger] screen.refiltered(
                pods,
            ).visible[k]) < pods.len(),
{
    let query = QueryView::of(words(screen.input.text), schema());
    let sort = SortView { column: screen.sort, descending: screen.descending };
    let rows = screen.refiltered(pods).visible;
    assert forall|k: int| 0 <= k < rows.len() implies (#[trigger] rows[k]) < pods.len() by {
        law_the_rows_are_those_asked_for_in_order(pods, query, sort, rows[k]);
        assert(rows.contains(rows[k]));
    }
    lemma_no_more_rows_than_pods(pods, query, sort, pods.len());
}

/// Rows that are pods there are, and no more of them than can be counted on
/// a scrollbar so high, can be drawn anywhere in an area no higher.
proof fn lemma_drawable(screen: ScopeScreenView, data: ScopeDataView, area: Rect, high: int)
    requires
        area.height <= high,
        screen.visible.len() <= data.pods.len() <= usize::MAX,
        data.pods.len() * (high + 1) <= usize::MAX,
        forall|k: int|
            0 <= k < screen.visible.len() ==> (#[trigger] screen.visible[k]) < data.pods.len(),
        forall|k: int|
            0 <= k < data.pods.len() ==> (#[trigger] data.pods[k]).status.len() + 2 <= usize::MAX,
    ensures
        can_draw_within(screen, data, area),
{
    assert forall|part: Rect|
        part.width <= area.width && part.height <= area.height implies #[trigger] can_draw(
        screen,
        data,
        part,
    ) by {
        let offset = screen_drawn(screen, part).cursor.scroll.offset as int;
        let rows = body_rows(part);
        let shown = screen.visible.len() as int;
        let pods = data.pods.len() as int;
        if shown > rows {
            assert(offset * rows + shown <= pods * (high + 1)) by (nonlinear_arith)
                requires
                    0 <= offset <= shown <= pods,
                    0 <= rows <= high,
            ;
        }
    }
}

impl App {
    /// What the status bar says on the right.
    pub fn right_end(&self, millis: u128, now: Timestamp) -> (said: String)
        ensures
            said@ == right_of(self@, millis as int, now@),
    {
        let state = self.store_state(now);
        if self.store.reading() {
            let mut said = String::new();
            said.push(spinner_frame(millis));
            assert(said@ =~= seq![spinner((millis as int / 120) % 4)]);
            said.concat(" ").concat(state.as_str())
        } else {
            state
        }
    }

    /// The tone of that end: an error where there is no tab to speak of.
    pub fn right_tone(&self) -> (tone: Tone)
        ensures
            tone == (if self@.tab < self@.tabs.len() {
                Tone::Muted
            } else {
                Tone::Error
            }),
    {
        if self.tab < self.tabs.len() {
            Tone::Muted
        } else {
            Tone::Error
        }
    }

    /// One frame, or nothing where there is no room for one. `replicas` is
    /// what the owner of the pod under the cursor has ready, where that is
    /// known.
    pub fn render(
        &mut self,
        area: Rect,
        millis: u128,
        replicas: Option<&str>,
        now: Timestamp,
    ) -> (drawn: Option<FrameDrawn>)
        requires
            area.width >= MIN_WIDTH && area.height >= MIN_HEIGHT ==> can_frame(
                old(self)@,
                area,
                millis as int,
                now@,
            ),
        ensures
            match drawn {
                Some(drawn) => area.width >= MIN_WIDTH && area.height >= MIN_HEIGHT && frame_is(
                    drawn,
                    old(self)@,
                    area,
                    millis as int,
                    maybe_text(replicas),
                    now@,
                ) && final(self)@ == after_frame(
                    old(self)@,
                    area,
                    drawn.parts,
                    parts_within(drawn),
                    maybe_text(replicas),
                    now@,
                ),
                None => !(area.width >= MIN_WIDTH && area.height >= MIN_HEIGHT) && final(self)@
                    == old(self)@,
            },
    {
        if !has_room(area) {
            return None;
        }
        let ghost app = self@;
        let parts = frame_parts(area);
        let help_open = self.shell.help_open;
        let status = render_status_bar(
            &self.shell,
            parts.status,
            self.footer_hint().as_str(),
            self.right_end(millis, now).as_str(),
        );
        let labels = tab_labels(self);
        assert(label_views(labels@) =~= labels_of(app));
        self.shell.begin_frame();
        let bar = render_tab_bar(&mut self.shell, parts.tabs, self.tab, &labels);
        let at = self.tab;
        let tab = if at < self.tabs.len() && at < self.screens.len() && at
            < self.store.scopes.len() {
            assert(app.screens[at as int] == self.screens@[at as int]@);
            assert(app.store[at as int] == self.store.scopes@[at as int]@);
            assert(app.tabs[at as int] == self.tabs@[at as int]@);
            self.screens[at].refilter(&self.store.scopes[at]);
            proof {
                let pods = app.store[at as int].pods;
                assert(pods.len() == self.store.scopes@[at as int].pods.len());
                lemma_refiltered(app.screens[at as int], pods);
                lemma_drawable(
                    screen_shown(app),
                    app.store[at as int],
                    parts.body,
                    area.height as int,
                );
            }
            let drawn = render(
                &mut self.shell,
                &mut self.screens[at],
                &self.tabs[at],
                &self.store.scopes[at],
                parts.body,
                replicas,
                now,
            );
            assert(self@.screens =~= app.screens.update(at as int, self.screens@[at as int]@));
            Some(drawn)
        } else {
            None
        };
        let help = if help_open {
            let problems = self.store.problems(self.tabs.as_slice());
            Some(render_help(&mut self.shell, area, &problems))
        } else {
            None
        };
        Some(FrameDrawn { parts, bar, tab, status, help })
    }
}

} // verus!
