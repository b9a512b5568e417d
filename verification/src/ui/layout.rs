//! How an area is shared out among parts.

use vstd::prelude::*;

use crate::app::shell::{Focus, Panes, Shell, SIDE_BY_SIDE, STACKED};

use super::paint::Rect;

verus! {

/// How much of an area one part of it wants.
#[derive(Clone, Copy, Debug, PartialEq, Eq, Structural)]
pub enum Want {
    /// So many cells.
    Length(u16),
    /// So many cells or more.
    Min(u16),
    /// So many hundredths of the whole.
    Percentage(u16),
    /// A share of what is left over, so many times as large as a single one.
    Fill(u16),
}

/// `part` is rows of `area`, each of them whole.
pub open spec fn is_across(part: Rect, area: Rect) -> bool {
    &&& part.x == area.x
    &&& part.width == area.width
    &&& area.y <= part.y
    &&& part.y + part.height <= area.end_row()
}

/// `part` is columns of `area`, each of them whole.
pub open spec fn is_along(part: Rect, area: Rect) -> bool {
    &&& part.y == area.y
    &&& part.height == area.height
    &&& area.x <= part.x
    &&& part.x + part.width <= area.end_column()
}

/// These are areas that `ratatui`'s `Layout::vertical` over these parts may
/// split an area into.
pub uninterp spec fn split_downwards(wants: Seq<Want>, area: Rect, parts: Seq<Rect>) -> bool;

/// These are areas that `ratatui`'s `Layout::horizontal` over these parts,
/// with so many cells between two, may split an area into.
pub uninterp spec fn split_sideways(
    wants: Seq<Want>,
    spacing: u16,
    area: Rect,
    parts: Seq<Rect>,
) -> bool;

/// `ratatui`'s `Layout::vertical` and its `split`: one area for each part, in
/// the order of the parts, each as wide as the whole and none of them outside
/// it. How high each of them is, and where it starts, is what the solver
/// behind it finds, and is not stated.
#[verifier::external_body]
fn split_down(wants: &Vec<Want>, area: Rect) -> (parts: Vec<Rect>)
    ensures
        split_downwards(wants@, area, parts@),
        parts@.len() == wants@.len(),
        forall|k: int|
            0 <= k < parts@.len() ==> is_across(#[trigger] parts@[k], area),
{
    let wants = wants.iter().map(|want| match want {
        Want::Length(cells) => ratatui::layout::Constraint::Length(*cells),
        Want::Min(cells) => ratatui::layout::Constraint::Min(*cells),
        Want::Percentage(part) => ratatui::layout::Constraint::Percentage(*part),
        Want::Fill(share) => ratatui::layout::Constraint::Fill(*share),
    });
    let area = ratatui::layout::Rect { x: area.x, y: area.y, width: area.width, height: area.height };
    let parts = ratatui::layout::Layout::vertical(wants).split(area);
    parts.iter().map(|part| Rect { x: part.x, y: part.y, width: part.width, height: part.height }).collect()
}

/// `ratatui`'s `Layout::horizontal` with its `spacing` and `split`: one area
/// for each part, in the order of the parts, each as high as the whole and
/// none of them outside it. How wide each of them is, and where it starts,
/// is what the solver behind it finds, and is not stated.
#[verifier::external_body]
pub(crate) fn split_across(wants: &Vec<Want>, spacing: u16, area: Rect) -> (parts: Vec<Rect>)
    ensures
        split_sideways(wants@, spacing, area, parts@),
        parts@.len() == wants@.len(),
        forall|k: int|
            0 <= k < parts@.len() ==> is_along(#[trigger] parts@[k], area),
{
    let wants = wants.iter().map(|want| match want {
        Want::Length(cells) => ratatui::layout::Constraint::Length(*cells),
        Want::Min(cells) => ratatui::layout::Constraint::Min(*cells),
        Want::Percentage(part) => ratatui::layout::Constraint::Percentage(*part),
        Want::Fill(share) => ratatui::layout::Constraint::Fill(*share),
    });
    let area = ratatui::layout::Rect { x: area.x, y: area.y, width: area.width, height: area.height };
    let parts = ratatui::layout::Layout::horizontal(wants).spacing(spacing).split(area);
    parts.iter().map(|part| Rect { x: part.x, y: part.y, width: part.width, height: part.height }).collect()
}

/// The parts of a frame, one under the other and each as wide as it.
#[derive(Clone, Copy, Debug, PartialEq, Eq, Structural)]
pub struct FrameParts {
    pub tabs: Rect,
    pub body: Rect,
    pub status: Rect,
}

/// Three areas that a frame may be split into.
pub open spec fn frame_split(area: Rect, parts: FrameParts) -> bool {
    &&& split_downwards(
        seq![Want::Length(1), Want::Min(3), Want::Length(1)],
        area,
        seq![parts.tabs, parts.body, parts.status],
    )
    &&& is_across(parts.tabs, area)
    &&& is_across(parts.body, area)
    &&& is_across(parts.status, area)
}

/// The parts of a frame: a row of tabs, the body, and the status bar.
pub fn frame_parts(area: Rect) -> (parts: FrameParts)
    ensures
        frame_split(area, parts),
{
    let wants = vec![Want::Length(1), Want::Min(3), Want::Length(1)];
    let parts = split_down(&wants, area);
    assert(wants@ =~= seq![Want::Length(1), Want::Min(3), Want::Length(1)]);
    assert(parts@ =~= seq![parts@[0], parts@[1], parts@[2]]);
    FrameParts { tabs: parts[0], body: parts[1], status: parts[2] }
}

/// Two areas that a tab may be split into: the search row, and what is left
/// for the panes.
pub open spec fn body_split(area: Rect, search: Rect, body: Rect) -> bool {
    &&& split_downwards(seq![Want::Length(1), Want::Min(3)], area, seq![search, body])
    &&& is_across(search, area)
    &&& is_across(body, area)
}

/// The search row over a tab's body, and what is left for the panes.
pub fn search_and_panes(area: Rect) -> (parts: (Rect, Rect))
    ensures
        body_split(area, parts.0, parts.1),
{
    let wants = vec![Want::Length(1), Want::Min(3)];
    let parts = split_down(&wants, area);
    assert(wants@ =~= seq![Want::Length(1), Want::Min(3)]);
    assert(parts@ =~= seq![parts@[0], parts@[1]]);
    (parts[0], parts[1])
}

/// Three areas that a search row may be split into: the `/`, the field, and
/// the `×` that clears it, which has room only where there is anything to
/// clear.
pub open spec fn search_split(area: Rect, clearable: bool, parts: (Rect, Rect, Rect)) -> bool {
    &&& split_sideways(
        seq![Want::Length(2), Want::Min(1), Want::Length(if clearable { 3 } else { 0 })],
        0,
        area,
        seq![parts.0, parts.1, parts.2],
    )
    &&& is_along(parts.0, area)
    &&& is_along(parts.1, area)
    &&& is_along(parts.2, area)
}

/// The parts of the search row: the `/`, the field, and the `×` that clears
/// it, which has room only where there is anything to clear.
pub fn search_parts(area: Rect, clearable: bool) -> (parts: (Rect, Rect, Rect))
    ensures
        search_split(area, clearable, parts),
{
    let right: u16 = if clearable {
        3
    } else {
        0
    };
    let wants = vec![Want::Length(2), Want::Min(1), Want::Length(right)];
    let parts = split_across(&wants, 0, area);
    assert(wants@ =~= seq![Want::Length(2), Want::Min(1), Want::Length(right)]);
    assert(parts@ =~= seq![parts@[0], parts@[1], parts@[2]]);
    (parts[0], parts[1], parts[2])
}

/// Two areas that the details and an open text pane may be split into, where
/// the details take so many rows.
pub open spec fn text_split(area: Rect, rows: int, details: Rect, text: Rect) -> bool {
    &&& split_downwards(
        seq![Want::Length(rows as u16), Want::Min(4)],
        area,
        seq![details, text],
    )
    &&& is_across(details, area)
    &&& is_across(text, area)
}

/// The details pane over the text pane, where the details take so many rows.
pub fn details_and_text(area: Rect, rows: u16) -> (parts: (Rect, Rect))
    ensures
        text_split(area, rows as int, parts.0, parts.1),
{
    let wants = vec![Want::Length(rows), Want::Min(4)];
    let parts = split_down(&wants, area);
    assert(wants@ =~= seq![Want::Length(rows), Want::Min(4)]);
    assert(parts@ =~= seq![parts@[0], parts@[1]]);
    (parts[0], parts[1])
}

/// Which pane a frame is asking a screen to draw, at the width it has.
#[derive(Clone, Copy, Debug, PartialEq, Eq, Structural)]
pub enum Pane {
    Table,
    Details,
}

/// The panes in the order they are drawn, where there are two areas for them
/// or one that has them by turns.
pub open spec fn panes_in(
    panes: Panes,
    focus: Focus,
    body: Rect,
    first: Rect,
    second: Rect,
) -> Seq<(Pane, Rect)> {
    if !(panes is One) {
        seq![(Pane::Table, first), (Pane::Details, second)]
    } else if focus is Details {
        seq![(Pane::Details, body)]
    } else {
        seq![(Pane::Table, body)]
    }
}

/// The panes in the order they are drawn.
pub fn placed(
    panes: Panes,
    focus: Focus,
    body: Rect,
    first: Rect,
    second: Rect,
) -> (placed: Vec<(Pane, Rect)>)
    ensures
        placed@ == panes_in(panes, focus, body, first, second),
{
    let placed = if panes != Panes::One {
        vec![(Pane::Table, first), (Pane::Details, second)]
    } else if focus == Focus::Details {
        vec![(Pane::Details, body)]
    } else {
        vec![(Pane::Table, body)]
    };
    assert(placed@ =~= panes_in(panes, focus, body, first, second));
    placed
}

/// Two areas that a body this wide may be split into for the panes.
pub open spec fn shared(width: u16, body: Rect, first: Rect, second: Rect) -> bool {
    match panes_at(width) {
        Panes::SideBySide => split_sideways(
            seq![Want::Percentage(55), Want::Percentage(45)],
            0,
            body,
            seq![first, second],
        ) && is_along(first, body) && is_along(second, body),
        Panes::Stacked => split_downwards(
            seq![Want::Percentage(60), Want::Percentage(40)],
            body,
            seq![first, second],
        ) && is_across(first, body) && is_across(second, body),
        Panes::One => first == body && second == body,
    }
}

/// The areas of the table and of the details pane in a body this wide.
fn share(width: u16, body: Rect) -> (parts: (Rect, Rect))
    ensures
        shared(width, body, parts.0, parts.1),
{
    match Shell::panes(width) {
        Panes::SideBySide => {
            let wants = vec![Want::Percentage(55), Want::Percentage(45)];
            let parts = split_across(&wants, 0, body);
            assert(wants@ =~= seq![Want::Percentage(55), Want::Percentage(45)]);
            assert(parts@ =~= seq![parts@[0], parts@[1]]);
            (parts[0], parts[1])
        },
        Panes::Stacked => {
            let wants = vec![Want::Percentage(60), Want::Percentage(40)];
            let parts = split_down(&wants, body);
            assert(wants@ =~= seq![Want::Percentage(60), Want::Percentage(40)]);
            assert(parts@ =~= seq![parts@[0], parts@[1]]);
            (parts[0], parts[1])
        },
        Panes::One => (body, body),
    }
}

/// The parts of a tab.
#[derive(Clone, Copy, Debug, PartialEq, Eq)]
pub struct TabParts {
    pub search: Rect,
    /// The `/`, the field, and the `×` that clears it.
    pub row: (Rect, Rect, Rect),
    pub body: Rect,
    /// What the table has of the body, and what the details pane has.
    pub first: Rect,
    pub second: Rect,
}

/// Areas that a tab may be split into.
pub open spec fn tab_split(area: Rect, clearable: bool, parts: TabParts) -> bool {
    &&& body_split(area, parts.search, parts.body)
    &&& search_split(parts.search, clearable, parts.row)
    &&& shared(area.width, parts.body, parts.first, parts.second)
}

/// The parts of a tab: one row for the search box, then the table and the
/// details pane, laid out to fit.
pub fn tab_parts(area: Rect, clearable: bool) -> (parts: TabParts)
    ensures
        tab_split(area, clearable, parts),
{
    let (search, body) = search_and_panes(area);
    let row = search_parts(search, clearable);
    let (first, second) = share(area.width, body);
    TabParts { search, row, body, first, second }
}

/// How the panes share a body this wide.
pub open spec fn panes_at(width: u16) -> Panes {
    if width >= SIDE_BY_SIDE {
        Panes::SideBySide
    } else if width >= STACKED {
        Panes::Stacked
    } else {
        Panes::One
    }
}

/// The frame is a row of tabs, the body and a row of status; the body a row
/// of search over the panes; and that row the slash, the field and, where
/// there is text to clear, the cross.
pub proof fn law_the_frame_is_cut_in_rows(
    area: Rect,
    frame: FrameParts,
    search: Rect,
    body: Rect,
    row: (Rect, Rect, Rect),
    rows: u16,
)
    ensures
        frame_split(area, frame) ==> split_downwards(
            seq![Want::Length(1), Want::Min(3), Want::Length(1)],
            area,
            seq![frame.tabs, frame.body, frame.status],
        ),
        body_split(area, search, body) ==> split_downwards(
            seq![Want::Length(1), Want::Min(3)],
            area,
            seq![search, body],
        ),
        search_split(area, true, row) ==> split_sideways(
            seq![Want::Length(2), Want::Min(1), Want::Length(3)],
            0,
            area,
            seq![row.0, row.1, row.2],
        ),
        search_split(area, false, row) ==> split_sideways(
            seq![Want::Length(2), Want::Min(1), Want::Length(0)],
            0,
            area,
            seq![row.0, row.1, row.2],
        ),
        text_split(area, rows as int, search, body) ==> split_downwards(
            seq![Want::Length(rows), Want::Min(4)],
            area,
            seq![search, body],
        ),
        frame_split(area, frame) ==> is_across(frame.tabs, area) && is_across(frame.body, area)
            && is_across(frame.status, area),
        body_split(area, search, body) || text_split(area, rows as int, search, body) ==> is_across(
            search,
            area,
        ) && is_across(body, area),
        search_split(area, true, row) || search_split(area, false, row) ==> is_along(row.0, area)
            && is_along(row.1, area) && is_along(row.2, area),
{
}

/// Side by side the table has eleven twentieths of the body, and over the
/// details three fifths of it; alone each has all of it.
pub proof fn law_the_table_has_the_larger_half(width: u16, body: Rect, first: Rect, second: Rect)
    requires
        shared(width, body, first, second),
    ensures
        width >= 100 ==> split_sideways(
            seq![Want::Percentage(55), Want::Percentage(45)],
            0,
            body,
            seq![first, second],
        ),
        70 <= width < 100 ==> split_downwards(
            seq![Want::Percentage(60), Want::Percentage(40)],
            body,
            seq![first, second],
        ),
        width < 70 ==> first == body && second == body,
{
}

/// A tab is cut into its search row and its body, the row into its parts, and
/// the body is shared by the panes; a part across an area is as wide as it
/// and inside it, and one along it as high and inside it.
pub proof fn law_a_tab_is_cut_in_its_parts(
    area: Rect,
    clearable: bool,
    parts: TabParts,
    part: Rect,
)
    ensures
        tab_split(area, clearable, parts) ==> body_split(area, parts.search, parts.body)
            && search_split(parts.search, clearable, parts.row) && shared(
            area.width,
            parts.body,
            parts.first,
            parts.second,
        ),
        is_across(part, area) <==> part.x == area.x && part.width == area.width && area.y <= part.y
            && part.y + part.height <= area.end_row(),
        is_along(part, area) <==> part.y == area.y && part.height == area.height && area.x <= part.x
            && part.x + part.width <= area.end_column(),
        is_across(area, area) <==> area.y + area.height <= u16::MAX,
        is_along(area, area) <==> area.x + area.width <= u16::MAX,
{
}

} // verus!
