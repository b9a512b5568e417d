//! What a frame promises: a click lands on what is drawn under it, and
//! drawing changes nothing else.

use vstd::prelude::*;

use crate::app::application::AppView;
use crate::app::scope::ScopeScreenView;
use crate::app::screen::Target;
use crate::app::shell::{drawn_at, law_drawn_last_is_on_top, ShellView};
use crate::columns::ColumnConfig;
use crate::config::TabView;
use crate::store::ScopeDataView;

use super::frame::{after_frame, labels_of, screen_shown, shell_barred, shows_tab};
use super::layout::{is_along, FrameParts, Pane, TabParts};
use super::paint::{sum_to_end, Rect};
use super::pods::with_buttons;
use super::render::{after_panes, tab_panes};
use super::table::{
    body_row, body_rows, header_row, headers_split, row_area, rows_shown, screen_drawn,
    with_headers, with_rows, with_table,
};
use super::widgets::{are_short, with_search_row, with_tabs, TabLabelView};

verus! {

/// The same but for what a click lands on.
pub open spec fn same_but_regions(a: ShellView, b: ShellView) -> bool {
    a.focus == b.focus && a.help_open == b.help_open && a.notification == b.notification
}

proof fn lemma_tabs_keep(
    shell: ShellView,
    area: Rect,
    tabs: Seq<TabLabelView>,
    short: bool,
    count: nat,
)
    ensures
        same_but_regions(shell, with_tabs(shell, area, tabs, short, count)),
    decreases count,
{
    if count > 0 {
        lemma_tabs_keep(shell, area, tabs, short, (count - 1) as nat);
    }
}

proof fn lemma_rows_keep(shell: ShellView, area: Rect, first: int, count: nat)
    ensures
        same_but_regions(shell, with_rows(shell, area, first, count)),
    decreases count,
{
    if count > 0 {
        lemma_rows_keep(shell, area, first, (count - 1) as nat);
    }
}

proof fn lemma_headers_keep(
    shell: ShellView,
    columns: Seq<ColumnConfig>,
    headers: Seq<Rect>,
    count: nat,
)
    ensures
        same_but_regions(shell, with_headers(shell, columns, headers, count)),
    decreases count,
{
    if count > 0 {
        lemma_headers_keep(shell, columns, headers, (count - 1) as nat);
    }
}

proof fn lemma_buttons_keep(shell: ShellView, count: nat, column: int, row: int)
    ensures
        same_but_regions(shell, with_buttons(shell, count, column, row)),
    decreases count,
{
    if count > 0 {
        lemma_buttons_keep(shell, (count - 1) as nat, column, row);
    }
}

proof fn lemma_table_keeps(
    shell: ShellView,
    screen: ScopeScreenView,
    area: Rect,
    headers: Seq<Rect>,
)
    ensures
        same_but_regions(shell, with_table(shell, screen, area, headers)),
{
    let drawn = screen_drawn(screen, area);
    let first = drawn.cursor.scroll.offset as int;
    let count = rows_shown(screen, area) as nat;
    lemma_rows_keep(shell, area, first, count);
    lemma_headers_keep(
        with_rows(shell, area, first, count),
        drawn.columns(),
        headers,
        drawn.columns().len(),
    );
}

/// What a frame leaves of a screen: the search box, the sort, the columns
/// and the rows, and the row under the cursor.
pub open spec fn same_but_scrolled(a: ScopeScreenView, b: ScopeScreenView) -> bool {
    &&& a.input == b.input
    &&& a.sort == b.sort
    &&& a.descending == b.descending
    &&& a.layout == b.layout
    &&& a.visible == b.visible
    &&& a.cursor.index == b.cursor.index
}

proof fn lemma_panes_keep(
    shell: ShellView,
    screen: ScopeScreenView,
    tab: TabView,
    data: ScopeDataView,
    panes: Seq<(Pane, Rect)>,
    headers: Seq<Rect>,
    replicas: Option<Seq<char>>,
    now: int,
)
    ensures
        ({
            let after = after_panes(shell, screen, tab, data, panes, headers, replicas, now);
            same_but_regions(shell, after.0) && same_but_scrolled(screen, after.1)
        }),
    decreases panes.len(),
{
    if panes.len() > 0 {
        let rest = panes.drop_last();
        lemma_panes_keep(shell, screen, tab, data, rest, headers, replicas, now);
        let before = after_panes(shell, screen, tab, data, rest, headers, replicas, now);
        let area = panes.last().1;
        match panes.last().0 {
            Pane::Table => {
                lemma_table_keeps(before.0, before.1, area, headers);
            },
            Pane::Details => {
                lemma_buttons_keep(
                    before.0.with_region(area, Target::Details),
                    6,
                    sum_to_end(area.x as int, 1),
                    sum_to_end(area.y as int, 1),
                );
            },
        }
    }
}

/// Drawing a frame changes nothing but what a click lands on and, on the open
/// tab's screen, the rows that its search box asks for and how far they and
/// the details are scrolled.
pub proof fn law_a_frame_changes_only_what_is_drawn(
    app: AppView,
    area: Rect,
    parts: FrameParts,
    within: Option<(TabParts, Seq<Rect>)>,
    replicas: Option<Seq<char>>,
    now: int,
)
    requires
        within is Some <==> shows_tab(app),
    ensures
        ({
            let after = after_frame(app, area, parts, within, replicas, now);
            &&& same_but_regions(app.shell, after.shell)
            &&& after.tabs == app.tabs
            &&& after.tab == app.tab
            &&& after.store == app.store
            &&& after.cache_dirty == app.cache_dirty
            &&& after.screens.len() == app.screens.len()
            &&& forall|k: int|
                0 <= k < app.screens.len() && k != app.tab ==> #[trigger] after.screens[k]
                    == app.screens[k]
            &&& shows_tab(app) ==> same_but_scrolled(screen_shown(app), after.screens[app.tab])
        }),
{
    let begun = ShellView { regions: seq![], ..app.shell };
    let barred = shell_barred(app, parts);
    lemma_tabs_keep(
        begun,
        parts.tabs,
        labels_of(app),
        are_short(labels_of(app), parts.tabs.width as int),
        labels_of(app).len(),
    );
    if let Some((within, headers)) = within {
        let shown = screen_shown(app);
        let rowed = with_search_row(barred, within.row, shown.input);
        lemma_panes_keep(
            rowed,
            shown,
            app.tabs[app.tab],
            app.store[app.tab],
            tab_panes(barred.focus, parts.body.width, within),
            headers,
            replicas,
            now,
        );
    }
}

/// While the help is open it is over everything: a click anywhere in the
/// frame is for the help, which it closes.
pub proof fn law_the_open_help_takes_every_click(
    app: AppView,
    area: Rect,
    parts: FrameParts,
    within: Option<(TabParts, Seq<Rect>)>,
    replicas: Option<Seq<char>>,
    now: int,
    column: int,
    row: int,
)
    requires
        app.shell.help_open,
        area.holds_cell(column, row),
    ensures
        drawn_at(after_frame(app, area, parts, within, replicas, now).shell.regions, column, row) == Some(
            Target::Help,
        ),
        !app.after_click(Target::Help).shell.help_open,
{
    let after = after_frame(app, area, parts, within, replicas, now).shell.regions;
    assert(after.last() == (area, Target::Help));
}

proof fn lemma_row_under_click(
    shell: ShellView,
    area: Rect,
    first: int,
    count: nat,
    at: int,
    column: int,
    row: int,
)
    requires
        area.y + area.height <= u16::MAX,
        0 <= at < count <= body_rows(area),
        row_area(area, at).holds_cell(column, row),
    ensures
        drawn_at(with_rows(shell, area, first, count).regions, column, row) == Some(
            Target::Row((first + at) as usize),
        ),
    decreases count,
{
    let before = with_rows(shell, area, first, (count - 1) as nat);
    law_drawn_last_is_on_top(
        before,
        row_area(area, count - 1),
        Target::Row((first + count - 1) as usize),
        column,
        row,
    );
    if at < count - 1 {
        lemma_row_under_click(shell, area, first, (count - 1) as nat, at, column, row);
    }
}

proof fn lemma_headers_elsewhere(
    shell: ShellView,
    columns: Seq<ColumnConfig>,
    headers: Seq<Rect>,
    count: nat,
    column: int,
    row: int,
)
    requires
        count <= headers.len(),
        forall|k: int| 0 <= k < count ==> !(#[trigger] headers[k]).holds_cell(column, row),
    ensures
        drawn_at(with_headers(shell, columns, headers, count).regions, column, row) == drawn_at(
            shell.regions,
            column,
            row,
        ),
    decreases count,
{
    if count > 0 {
        let before = with_headers(shell, columns, headers, (count - 1) as nat);
        law_drawn_last_is_on_top(
            before,
            headers[count - 1],
            Target::Header(columns[count - 1].id),
            column,
            row,
        );
        lemma_headers_elsewhere(shell, columns, headers, (count - 1) as nat, column, row);
    }
}

proof fn lemma_header_under_click(
    shell: ShellView,
    columns: Seq<ColumnConfig>,
    headers: Seq<Rect>,
    count: nat,
    at: int,
    column: int,
    row: int,
)
    requires
        0 <= at < count <= headers.len(),
        headers[at].holds_cell(column, row),
        forall|k: int| at < k < count ==> !(#[trigger] headers[k]).holds_cell(column, row),
    ensures
        drawn_at(with_headers(shell, columns, headers, count).regions, column, row) == Some(
            Target::Header(columns[at].id),
        ),
    decreases count,
{
    law_drawn_last_is_on_top(
        with_headers(shell, columns, headers, (count - 1) as nat),
        headers[count - 1],
        Target::Header(columns[count - 1].id),
        column,
        row,
    );
    if at < count - 1 {
        lemma_header_under_click(shell, columns, headers, (count - 1) as nat, at, column, row);
    }
}

/// A click on a header of the table lands on that column, or on the last of
/// them where the row is too narrow to keep the headers apart.
pub proof fn law_a_click_on_a_header_lands_on_that_column(
    shell: ShellView,
    screen: ScopeScreenView,
    area: Rect,
    headers: Seq<Rect>,
    at: int,
    column: int,
    row: int,
)
    requires
        headers_split(screen_drawn(screen, area).columns(), header_row(area), headers),
        0 <= at < headers.len(),
        headers[at].holds_cell(column, row),
        forall|k: int|
            at < k < headers.len() ==> !(#[trigger] headers[k]).holds_cell(column, row),
    ensures
        drawn_at(with_table(shell, screen, area, headers).regions, column, row) == Some(
            Target::Header(screen_drawn(screen, area).columns()[at].id),
        ),
{
    let drawn = screen_drawn(screen, area);
    let rowed = with_rows(
        shell,
        area,
        drawn.cursor.scroll.offset as int,
        rows_shown(screen, area) as nat,
    );
    lemma_header_under_click(rowed, drawn.columns(), headers, headers.len(), at, column, row);
}

/// A click on a row of the table lands on that row.
pub proof fn law_a_click_on_a_row_lands_on_that_row(
    shell: ShellView,
    screen: ScopeScreenView,
    area: Rect,
    headers: Seq<Rect>,
    at: int,
    column: int,
    row: int,
)
    requires
        headers_split(screen_drawn(screen, area).columns(), header_row(area), headers),
        area.y + area.height <= u16::MAX,
        0 <= at < rows_shown(screen, area),
        row_area(area, at).holds_cell(column, row),
    ensures
        drawn_at(with_table(shell, screen, area, headers).regions, column, row) == Some(
            Target::Row((screen_drawn(screen, area).cursor.scroll.offset + at) as usize),
        ),
{
    let drawn = screen_drawn(screen, area);
    let first = drawn.cursor.scroll.offset as int;
    let count = rows_shown(screen, area) as nat;
    assert(count <= body_rows(area));
    lemma_row_under_click(shell, area, first, count, at, column, row);
    assert forall|k: int| 0 <= k < headers.len() implies !(#[trigger] headers[k]).holds_cell(
        column,
        row,
    ) by {
        assert(is_along(headers[k], header_row(area)));
        assert(row >= body_row(area));
    }
    lemma_headers_elsewhere(
        with_rows(shell, area, first, count),
        drawn.columns(),
        headers,
        drawn.columns().len(),
        column,
        row,
    );
}

} // verus!
