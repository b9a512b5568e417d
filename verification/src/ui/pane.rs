//! The details pane beside the table, alone or over a text pane.

use vstd::prelude::*;

use crate::app::scope::{ScopeScreen, ScopeScreenView};
use crate::app::screen::Target;
use crate::app::shell::{Focus, Shell, ShellView};
use crate::config::{Tab, TabView};
use crate::store::{ScopeData, ScopeDataView};
use crate::timestamp::Timestamp;

use super::details::pane_width;
use super::layout::{details_and_text, text_split};
use super::modal::{inner, inside, line_count, line_texts, wrapped_rows, WIDEST};
use super::paint::{line_views, rest_of, Line, Rect, SpanView};
use super::pods::{
    detail_lines, details_height, details_rows, maybe_text, nothing_line, nothing_selected, pod_lines,
    register_toolbar, with_toolbar,
};

verus! {

/// The details pane, as it is drawn.
#[derive(Debug, PartialEq, Eq)]
pub struct DetailsPane {
    pub lines: Vec<Line>,
    pub focused: bool,
    /// What the border leaves for the lines.
    pub inner: Rect,
    /// How many of the wrapped rows are above the pane's first.
    pub offset: usize,
}

/// What the pane says: all about the pod under the cursor, with what its
/// owner has ready where that is known, or why there is none.
pub open spec fn pane_says(
    screen: ScopeScreenView,
    tab: TabView,
    data: ScopeDataView,
    area: Rect,
    replicas: Option<Seq<char>>,
    now: int,
) -> Seq<Seq<SpanView>> {
    match screen.selected(data.pods) {
        Some(pod) => pod_lines(
            pod,
            replicas,
            data.error,
            rest_of(area.width as int, 2) as nat,
            now,
        ),
        None => seq![seq![nothing_line(tab.scope.describe(), data)]],
    }
}

/// The screen with its details scrolled no further than they go.
pub open spec fn details_drawn(
    screen: ScopeScreenView,
    tab: TabView,
    data: ScopeDataView,
    area: Rect,
    replicas: Option<Seq<char>>,
    now: int,
) -> ScopeScreenView {
    ScopeScreenView {
        details_scroll: screen.details_scroll.sized(
            inside(area).height as usize,
            wrapped_rows(
                line_texts(pane_says(screen, tab, data, area, replicas, now)),
                rest_of(area.width as int, 2) as u16,
            ),
        ),
        ..screen
    }
}

/// The details pane of a screen.
pub open spec fn details_are(
    pane: DetailsPane,
    focused: bool,
    screen: ScopeScreenView,
    tab: TabView,
    data: ScopeDataView,
    area: Rect,
    replicas: Option<Seq<char>>,
    now: int,
) -> bool {
    &&& line_views(pane.lines@) == pane_says(screen, tab, data, area, replicas, now)
    &&& pane.focused == focused
    &&& pane.inner == inside(area)
    &&& pane.offset == details_drawn(screen, tab, data, area, replicas, now).details_scroll.offset
}

/// With the details pane as an area, and its buttons while there is a pod to
/// press them for.
pub open spec fn with_details(
    shell: ShellView,
    screen: ScopeScreenView,
    tab: TabView,
    data: ScopeDataView,
    area: Rect,
    replicas: Option<Seq<char>>,
    now: int,
) -> ShellView {
    with_toolbar(
        shell.with_region(area, Target::Details),
        area,
        details_drawn(screen, tab, data, area, replicas, now).details_scroll.offset as nat,
        screen.selected(data.pods) is Some,
    )
}

/// The details can be wrapped in an area this wide.
pub open spec fn can_wrap(area: Rect) -> bool {
    rest_of(area.width as int, 2) <= WIDEST
}

/// Draws the details pane in an area.
fn draw_details(
    shell: &mut Shell,
    screen: &mut ScopeScreen,
    lines: Vec<Line>,
    area: Rect,
    focused: bool,
    have_pod: bool,
    Ghost(says): Ghost<Seq<Seq<SpanView>>>,
) -> (pane: DetailsPane)
    requires
        can_wrap(area),
        line_views(lines@) == says,
    ensures
        pane.lines@ == lines@,
        pane.focused == focused,
        pane.inner == inside(area),
        pane.offset == final(screen)@.details_scroll.offset,
        final(screen)@ == (ScopeScreenView {
            details_scroll: old(screen)@.details_scroll.sized(
                inside(area).height as usize,
                wrapped_rows(line_texts(says), rest_of(area.width as int, 2) as u16),
            ),
            ..old(screen)@
        }),
        final(shell)@ == with_toolbar(
            old(shell)@.with_region(area, Target::Details),
            area,
            pane.offset as nat,
            have_pod,
        ),
{
    let inner = inner(area);
    let rows = line_count(&lines, pane_width(area));
    screen.details_scroll.set_viewport(inner.height as usize, rows);
    let offset = screen.details_scroll.offset;
    shell.region(area, Target::Details);
    register_toolbar(shell, area, offset, have_pod);
    DetailsPane { lines, focused, inner, offset }
}

/// The lines of the details pane in an area this wide.
fn pane_lines(
    screen: &ScopeScreen,
    tab: &Tab,
    data: &ScopeData,
    area: Rect,
    replicas: Option<&str>,
    now: Timestamp,
) -> (lines: Vec<Line>)
    ensures
        line_views(lines@) == pane_says(screen@, tab@, data@, area, maybe_text(replicas), now@),
{
    match screen.selected(data) {
        Some(pod) => detail_lines(pod, replicas, data, pane_width(area), now),
        None => nothing_selected(tab, data),
    }
}

/// The details pane for the pod under the cursor, with what its owner has
/// ready where that is known.
pub fn render_details(
    shell: &mut Shell,
    screen: &mut ScopeScreen,
    tab: &Tab,
    data: &ScopeData,
    area: Rect,
    replicas: Option<&str>,
    now: Timestamp,
) -> (pane: DetailsPane)
    requires
        can_wrap(area),
    ensures
        final(screen)@ == details_drawn(old(screen)@, tab@, data@, area, maybe_text(replicas), now@),
        details_are(
            pane,
            old(shell)@.focus is Details,
            old(screen)@,
            tab@,
            data@,
            area,
            maybe_text(replicas),
            now@,
        ),
        final(shell)@ == with_details(old(shell)@, old(screen)@, tab@, data@, area, maybe_text(replicas), now@),
{
    let ghost says = pane_says(screen@, tab@, data@, area, maybe_text(replicas), now@);
    let focused = shell.focus == Focus::Details;
    let have_pod = screen.selected(data).is_some();
    let lines = pane_lines(screen, tab, data, area, replicas, now);
    draw_details(shell, screen, lines, area, focused, have_pod, Ghost(says))
}

/// The details pane with a text pane open under it, or the text pane alone
/// where it has the whole area.
#[derive(Debug)]
pub struct OverText {
    pub details: Option<(Rect, DetailsPane)>,
    pub text: Rect,
}

/// The details pane with the text pane open. The keys go to the text pane,
/// so the details never have the focus; they keep the top, with what they
/// need up to just under half, unless the text pane was given the whole
/// area.
pub fn render_over_text(
    shell: &mut Shell,
    screen: &mut ScopeScreen,
    tab: &Tab,
    data: &ScopeData,
    area: Rect,
    zoomed: bool,
    replicas: Option<&str>,
    now: Timestamp,
) -> (drawn: OverText)
    requires
        !zoomed ==> can_wrap(area) && area.height * 45 <= u16::MAX,
    ensures
        drawn.details is None <==> zoomed,
        zoomed ==> drawn.text == area && final(screen)@ == old(screen)@ && final(shell)@ == old(
            shell,
        )@.with_region(area, Target::TextPane),
        drawn.details matches Some(details) ==> {
            let lines = pane_says(old(screen)@, tab@, data@, area, maybe_text(replicas), now@).len();
            &&& text_split(area, details_rows(lines, area.height), details.0, drawn.text)
            &&& details_are(details.1, false, old(screen)@, tab@, data@, details.0, maybe_text(replicas), now@)
            &&& final(screen)@ == details_drawn(old(screen)@, tab@, data@, details.0, maybe_text(replicas), now@)
            &&& final(shell)@ == with_details(
                old(shell)@,
                old(screen)@,
                tab@,
                data@,
                details.0,
                maybe_text(replicas),
                now@,
            ).with_region(drawn.text, Target::TextPane)
        },
{
    if zoomed {
        shell.region(area, Target::TextPane);
        return OverText { details: None, text: area };
    }
    let ghost says = pane_says(screen@, tab@, data@, area, maybe_text(replicas), now@);
    let have_pod = screen.selected(data).is_some();
    let lines = pane_lines(screen, tab, data, area, replicas, now);
    assert(lines@.len() == says.len());
    let (top, text) = details_and_text(area, details_height(lines.len(), area.height));
    let pane = draw_details(shell, screen, lines, top, false, have_pod, Ghost(says));
    shell.region(text, Target::TextPane);
    OverText { details: Some((top, pane)), text }
}

} // verus!
