//! One tab put together: the search row, and the panes under it.

use vstd::prelude::*;
use vstd::string::*;

use crate::app::scope::{ScopeScreen, ScopeScreenView};
use crate::app::shell::{Focus, Shell, ShellView};
use crate::config::{Tab, TabView};
use crate::store::{ScopeData, ScopeDataView};
use crate::timestamp::Timestamp;

use super::layout::{panes_at, panes_in, placed, tab_parts, tab_split, Pane, TabParts};
use super::paint::Rect;
use super::pane::{
    can_wrap, details_are, details_drawn, render_details, with_details, DetailsPane,
};
use super::pods::maybe_text;
use super::table::{
    can_draw, can_draw_within, render_table, screen_drawn, table_is, with_table, Table,
};
use super::widgets::{row_is, search_row, with_search_row, SearchRow, PODS_PLACEHOLDER};

verus! {

/// One pane of a tab, as it is drawn.
#[derive(Debug)]
pub enum PaneDrawn {
    Table(Rect, Table),
    Details(Rect, DetailsPane),
}

/// One tab, as it is drawn.
#[derive(Debug)]
pub struct TabDrawn {
    pub parts: TabParts,
    pub search: SearchRow,
    pub panes: Vec<PaneDrawn>,
}

/// The shell and the screen once these panes are drawn, one after the other.
pub open spec fn after_panes(
    shell: ShellView,
    screen: ScopeScreenView,
    tab: TabView,
    data: ScopeDataView,
    panes: Seq<(Pane, Rect)>,
    headers: Seq<Rect>,
    replicas: Option<Seq<char>>,
    now: int,
) -> (ShellView, ScopeScreenView)
    decreases panes.len(),
{
    if panes.len() == 0 {
        (shell, screen)
    } else {
        let rest = panes.drop_last();
        let before = after_panes(shell, screen, tab, data, rest, headers, replicas, now);
        let area = panes.last().1;
        match panes.last().0 {
            Pane::Table => (with_table(before.0, before.1, area, headers), screen_drawn(before.1, area)),
            Pane::Details => (
                with_details(before.0, before.1, tab, data, area, replicas, now),
                details_drawn(before.1, tab, data, area, replicas, now),
            ),
        }
    }
}

/// One pane, drawn over this shell and this screen.
pub open spec fn pane_is(
    drawn: PaneDrawn,
    pane: (Pane, Rect),
    before: (ShellView, ScopeScreenView),
    tab: TabView,
    data: ScopeDataView,
    replicas: Option<Seq<char>>,
    now: int,
) -> bool {
    match drawn {
        PaneDrawn::Table(area, table) => pane == (Pane::Table, area) && table_is(
            table,
            before.0.focus,
            before.1,
            data,
            area,
            now,
        ),
        PaneDrawn::Details(area, details) => pane == (Pane::Details, area) && details_are(
            details,
            before.0.focus is Details,
            before.1,
            tab,
            data,
            area,
            replicas,
            now,
        ),
    }
}

/// The panes of a tab this wide, in the order they are drawn.
pub open spec fn tab_panes(focus: Focus, width: u16, parts: TabParts) -> Seq<(Pane, Rect)> {
    panes_in(panes_at(width), focus, parts.body, parts.first, parts.second)
}

/// Where the headers of the table stand, which is the first pane wherever it
/// is one of them.
pub open spec fn headers_of(drawn: TabDrawn) -> Seq<Rect> {
    if drawn.panes@.len() > 0 {
        match drawn.panes@[0] {
            PaneDrawn::Table(_, table) => table.headers@,
            PaneDrawn::Details(..) => seq![],
        }
    } else {
        seq![]
    }
}

/// A tab in these parts: the search row, then each pane over what was drawn
/// before it.
pub open spec fn tab_is(
    drawn: TabDrawn,
    shell: ShellView,
    screen: ScopeScreenView,
    tab: TabView,
    data: ScopeDataView,
    width: u16,
    parts: TabParts,
    replicas: Option<Seq<char>>,
    now: int,
) -> bool {
    let rowed = with_search_row(shell, parts.row, screen.input);
    let panes = tab_panes(shell.focus, width, parts);
    &&& drawn.parts == parts
    &&& row_is(
        drawn.search,
        parts.row,
        screen.input,
        shell.focus is Search,
        PODS_PLACEHOLDER@,
    )
    &&& drawn.panes@.len() == panes.len()
    &&& forall|k: int|
        0 <= k < panes.len() ==> pane_is(
            #[trigger] drawn.panes@[k],
            panes[k],
            after_panes(
                rowed,
                screen,
                tab,
                data,
                panes.take(k),
                headers_of(drawn),
                replicas,
                now,
            ),
            tab,
            data,
            replicas,
            now,
        )
}

/// The shell and the screen once the tab is drawn in these parts.
pub open spec fn after_tab(
    shell: ShellView,
    screen: ScopeScreenView,
    tab: TabView,
    data: ScopeDataView,
    width: u16,
    parts: TabParts,
    headers: Seq<Rect>,
    replicas: Option<Seq<char>>,
    now: int,
) -> (ShellView, ScopeScreenView) {
    after_panes(
        with_search_row(shell, parts.row, screen.input),
        screen,
        tab,
        data,
        tab_panes(shell.focus, width, parts),
        headers,
        replicas,
        now,
    )
}

/// Drawing panes leaves the rows and the columns of the screen as they are.
proof fn lemma_after_panes(
    shell: ShellView,
    screen: ScopeScreenView,
    tab: TabView,
    data: ScopeDataView,
    panes: Seq<(Pane, Rect)>,
    headers: Seq<Rect>,
    replicas: Option<Seq<char>>,
    now: int,
)
    ensures
        ({
            let after = after_panes(shell, screen, tab, data, panes, headers, replicas, now).1;
            after.layout == screen.layout && after.visible == screen.visible
        }),
    decreases panes.len(),
{
    if panes.len() > 0 {
        lemma_after_panes(shell, screen, tab, data, panes.drop_last(), headers, replicas, now);
    }
}

/// What a pane shows can be counted in its area.
pub open spec fn can_draw_pane(
    screen: ScopeScreenView,
    data: ScopeDataView,
    pane: (Pane, Rect),
) -> bool {
    match pane.0 {
        Pane::Table => can_draw(screen, data, pane.1),
        Pane::Details => can_wrap(pane.1),
    }
}

/// Draws a tab in these parts.
pub fn render_panes(
    shell: &mut Shell,
    screen: &mut ScopeScreen,
    tab: &Tab,
    data: &ScopeData,
    width: u16,
    parts: TabParts,
    replicas: Option<&str>,
    now: Timestamp,
) -> (drawn: TabDrawn)
    requires
        parts.row.1.x + parts.row.1.width <= u16::MAX,
        forall|k: int|
            0 <= k < tab_panes(old(shell)@.focus, width, parts).len() ==> can_draw_pane(
                old(screen)@,
                data@,
                #[trigger] tab_panes(old(shell)@.focus, width, parts)[k],
            ),
    ensures
        tab_is(
            drawn,
            old(shell)@,
            old(screen)@,
            tab@,
            data@,
            width,
            parts,
            maybe_text(replicas),
            now@,
        ),
        (final(shell)@, final(screen)@) == after_tab(
            old(shell)@,
            old(screen)@,
            tab@,
            data@,
            width,
            parts,
            headers_of(drawn),
            maybe_text(replicas),
            now@,
        ),
{
    let ghost begun = shell@;
    let ghost first = screen@;
    let focus = shell.focus;
    let search = search_row(
        shell,
        parts.row,
        &screen.input,
        focus == Focus::Search,
        PODS_PLACEHOLDER,
    );
    let ghost rowed = shell@;
    let areas = placed(Shell::panes(width), focus, parts.body, parts.first, parts.second);
    let ghost all = tab_panes(begun.focus, width, parts);
    assert(areas@ == all);
    let ghost says = maybe_text(replicas);
    let ghost mut headers: Seq<Rect> = Seq::empty();
    let mut panes: Vec<PaneDrawn> = Vec::new();
    let mut at: usize = 0;
    assert(all.take(0) =~= seq![]);
    while at < areas.len()
        invariant
            at <= areas@.len(),
            areas@ == all,
            says == maybe_text(replicas),
            panes@.len() == at,
            forall|k: int|
                0 <= k < all.len() ==> can_draw_pane(first, data@, #[trigger] all[k]),
            all.len() > 0 && at > 0 ==> (match panes@[0] {
                PaneDrawn::Table(_, table) => table.headers@ == headers,
                PaneDrawn::Details(..) => headers == Seq::<Rect>::empty(),
            }),
            at == 0 ==> headers == Seq::<Rect>::empty(),
            forall|k: int| 0 < k < all.len() ==> (#[trigger] all[k]).0 is Details,
            (shell@, screen@) == after_panes(
                rowed,
                first,
                tab@,
                data@,
                all.take(at as int),
                headers,
                says,
                now@,
            ),
            forall|k: int|
                0 <= k < at ==> pane_is(
                    #[trigger] panes@[k],
                    all[k],
                    after_panes(rowed, first, tab@, data@, all.take(k), headers, says, now@),
                    tab@,
                    data@,
                    says,
                    now@,
                ),
        decreases areas@.len() - at,
    {
        let (pane, area) = areas[at];
        assert(all[at as int] == (pane, area));
        assert(all.take(at as int + 1).drop_last() =~= all.take(at as int));
        proof {
            lemma_after_panes(
                rowed,
                first,
                tab@,
                data@,
                all.take(at as int),
                headers,
                says,
                now@,
            );
        }
        let ghost before = (shell@, screen@);
        let drawn = match pane {
            Pane::Table => {
                let table = render_table(shell, screen, data, area, now);
                proof {
                    headers = table.headers@;
                }
                PaneDrawn::Table(area, table)
            },
            Pane::Details => PaneDrawn::Details(
                area,
                render_details(shell, screen, tab, data, area, replicas, now),
            ),
        };
        assert(after_panes(
            rowed,
            first,
            tab@,
            data@,
            all.take(at as int),
            headers,
            says,
            now@,
        ) == before) by {
            if pane is Table {
                assert(at == 0);
                assert(all.take(0) =~= seq![]);
            }
        }
        panes.push(drawn);
        at += 1;
    }
    assert(all.take(at as int) =~= all);
    TabDrawn { parts, search, panes }
}

/// Draws the tab: one row for the search box, then the table and the details
/// pane, laid out to fit. `replicas` is what the owner of the pod under the
/// cursor has ready, where that is known.
pub fn render(
    shell: &mut Shell,
    screen: &mut ScopeScreen,
    tab: &Tab,
    data: &ScopeData,
    area: Rect,
    replicas: Option<&str>,
    now: Timestamp,
) -> (drawn: TabDrawn)
    requires
        can_draw_within(old(screen)@, data@, area),
        can_wrap(area),
    ensures
        tab_split(area, old(screen)@.input.has_text(), drawn.parts),
        tab_is(
            drawn,
            old(shell)@,
            old(screen)@,
            tab@,
            data@,
            area.width,
            drawn.parts,
            maybe_text(replicas),
            now@,
        ),
        (final(shell)@, final(screen)@) == after_tab(
            old(shell)@,
            old(screen)@,
            tab@,
            data@,
            area.width,
            drawn.parts,
            headers_of(drawn),
            maybe_text(replicas),
            now@,
        ),
{
    let parts = tab_parts(area, !screen.input.is_empty());
    let ghost panes = tab_panes(shell@.focus, area.width, parts);
    proof {
        let before = screen@;
        assert forall|k: int| 0 <= k < panes.len() implies can_draw_pane(
            before,
            data@,
            #[trigger] panes[k],
        ) by {
            assert(panes[k].1.width <= area.width && panes[k].1.height <= area.height);
        }
    }
    render_panes(shell, screen, tab, data, area.width, parts, replicas, now)
}

} // verus!
