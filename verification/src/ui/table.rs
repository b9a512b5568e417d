//! The pods table: which rows and columns are on screen, what stands in
//! their cells, and what a click on them is for.

use vstd::prelude::*;
use vstd::string::*;

use crate::app::scope::{query_of, schema, ScopeScreen, ScopeScreenView};
use crate::app::screen::Target;
use crate::app::shell::{Focus, Shell, ShellView};
use crate::columns::{
    ColumnConfig, ColumnId, Constraint, TableLayout, COLUMN_SPACING, SCROLLBAR_WIDTH,
    SELECTION_WIDTH,
};
use crate::filter::QueryView;
use crate::kube::pod::PodView;
use crate::search::Query;
use crate::store::{ScopeData, ScopeDataView};
use crate::text::{texts, words};
use crate::timestamp::Timestamp;

use super::layout::{is_along, split_across, split_sideways, Want};
use super::modal::{inner, inside};
use super::paint::{rest_of, sum_to_end, Rect};
use super::pods::{cell_of, cell_views, row_cells, Cell, CellView};
use super::scrollbar::{scrollbar, thumb_at, thumb_len, Thumb};

verus! {

/// How much of the row a column wants: a share of what is left over, or so
/// many cells.
pub open spec fn column_want(column: ColumnConfig) -> Want {
    if column.id.look().flexible || column.width == 0 {
        Want::Fill(1)
    } else {
        Want::Length(column.width)
    }
}

/// Areas that a row may be split into for the headers of these columns, one
/// beside the other and a cell between two.
pub open spec fn headers_split(columns: Seq<ColumnConfig>, row: Rect, headers: Seq<Rect>) -> bool {
    &&& split_sideways(
        columns.map_values(|column: ColumnConfig| column_want(column)),
        COLUMN_SPACING,
        row,
        headers,
    )
    &&& headers.len() == columns.len()
    &&& forall|k: int| 0 <= k < headers.len() ==> is_along(#[trigger] headers[k], row)
}

/// Where the columns' headers stand in a row.
pub fn headers(columns: &Vec<ColumnConfig>, row: Rect) -> (areas: Vec<Rect>)
    ensures
        headers_split(columns@, row, areas@),
{
    let mut wants: Vec<Want> = Vec::new();
    let ghost all = columns@.map_values(|column: ColumnConfig| column_want(column));
    let mut at: usize = 0;
    while at < columns.len()
        invariant
            at <= columns@.len(),
            all == columns@.map_values(|column: ColumnConfig| column_want(column)),
            wants@ == all.take(at as int),
        decreases columns@.len() - at,
    {
        wants.push(
            match TableLayout::constraint(columns[at]) {
                Constraint::Fill(share) => Want::Fill(share),
                Constraint::Length(width) => Want::Length(width),
            },
        );
        assert(wants@ =~= all.take(at as int + 1));
        at += 1;
    }
    assert(all.take(at as int) =~= all);
    split_across(&wants, COLUMN_SPACING, row)
}

/// One row of the table, as it is drawn.
#[derive(Debug, PartialEq, Eq)]
pub struct TableRow {
    pub area: Rect,
    pub cells: Vec<Cell>,
    /// Whether it is the row under the cursor.
    pub selected: bool,
}

pub struct TableRowView {
    pub area: Rect,
    pub cells: Seq<CellView>,
    pub selected: bool,
}

impl View for TableRow {
    type V = TableRowView;

    open spec fn view(&self) -> TableRowView {
        TableRowView { area: self.area, cells: cell_views(self.cells@), selected: self.selected }
    }
}

/// What each row is.
pub open spec fn table_row_views(rows: Seq<TableRow>) -> Seq<TableRowView> {
    rows.map_values(|row: TableRow| row@)
}

/// The table, as it is drawn.
#[derive(Debug)]
pub struct Table {
    /// What the top border says.
    pub title: String,
    /// What the bottom border says.
    pub status: String,
    pub focused: bool,
    pub columns: Vec<ColumnConfig>,
    /// What each column's header says, and where it stands.
    pub labels: Vec<String>,
    pub headers: Vec<Rect>,
    pub rows: Vec<TableRow>,
    pub thumb: Option<Thumb>,
    /// Where the scrollbar stands.
    pub track: Rect,
}

/// The rows under the header, inside the border.
pub open spec fn body_rows(area: Rect) -> int {
    rest_of(inside(area).height as int, 1)
}

/// The first row under the header.
pub open spec fn body_row(area: Rect) -> int {
    sum_to_end(inside(area).y as int, 1)
}

/// One row of the list: so many under the header.
pub open spec fn row_area(area: Rect, at: int) -> Rect {
    Rect::cut(
        inside(area).x as int,
        sum_to_end(body_row(area), at),
        rest_of(inside(area).width as int, SCROLLBAR_WIDTH as int),
        1,
    )
}

/// The screen with the width its columns were solved at and the window its
/// rows are in.
pub open spec fn screen_drawn(screen: ScopeScreenView, area: Rect) -> ScopeScreenView {
    ScopeScreenView {
        available: available_in(area) as u16,
        cursor: screen.cursor.drawn(body_rows(area) as usize, screen.visible.len() as usize),
        ..screen
    }
}

/// The width the columns share.
pub open spec fn available_in(area: Rect) -> int {
    rest_of(inside(area).width as int, SELECTION_WIDTH + SCROLLBAR_WIDTH)
}

/// How many rows are on screen.
pub open spec fn rows_shown(screen: ScopeScreenView, area: Rect) -> int {
    let offset = screen_drawn(screen, area).cursor.scroll.offset;
    if offset + body_rows(area) <= screen.visible.len() {
        body_rows(area)
    } else {
        screen.visible.len() - offset
    }
}

/// A row on screen.
pub open spec fn row_drawn(
    screen: ScopeScreenView,
    pods: Seq<PodView>,
    area: Rect,
    at: int,
    now: int,
) -> TableRowView {
    let drawn = screen_drawn(screen, area);
    let index = drawn.cursor.scroll.offset + at;
    TableRowView {
        area: row_area(area, at),
        cells: drawn.columns().map_values(
            |column: ColumnConfig|
                cell_of(
                    pods[screen.visible[index] as int],
                    column.id,
                    QueryView::of(words(screen.input.text), schema()).words,
                    now,
                ),
        ),
        selected: index == screen.cursor.index,
    }
}

/// With the first so many rows on screen as areas of the table.
pub open spec fn with_rows(shell: ShellView, area: Rect, first: int, count: nat) -> ShellView
    decreases count,
{
    if count == 0 {
        shell
    } else {
        with_rows(shell, area, first, (count - 1) as nat).with_region(
            row_area(area, count - 1),
            Target::Row((first + count - 1) as usize),
        )
    }
}

/// With the first so many headers as areas of the table.
pub open spec fn with_headers(
    shell: ShellView,
    columns: Seq<ColumnConfig>,
    headers: Seq<Rect>,
    count: nat,
) -> ShellView
    decreases count,
{
    if count == 0 {
        shell
    } else {
        with_headers(shell, columns, headers, (count - 1) as nat).with_region(
            headers[count - 1],
            Target::Header(columns[count - 1].id),
        )
    }
}

/// The rows on screen are pods there are, and what is on screen can be
/// counted: their status words, and how far down the scrollbar they are.
pub open spec fn can_draw(screen: ScopeScreenView, data: ScopeDataView, area: Rect) -> bool {
    let offset = screen_drawn(screen, area).cursor.scroll.offset;
    &&& screen.visible.len() > body_rows(area) ==> offset * body_rows(area) + screen.visible.len()
        <= usize::MAX
    &&& forall|k: int|
        offset <= k < offset + rows_shown(screen, area) ==> (#[trigger] screen.visible[k])
            < data.pods.len() && data.pods[screen.visible[k] as int].status.len() + 2 <= usize::MAX
}

/// The same in any part of an area.
pub open spec fn can_draw_within(screen: ScopeScreenView, data: ScopeDataView, area: Rect) -> bool {
    forall|part: Rect|
        part.width <= area.width && part.height <= area.height ==> #[trigger] can_draw(
            screen,
            data,
            part,
        )
}

/// The rows on screen, as they are drawn.
fn rows_on_screen(
    screen: &ScopeScreen,
    data: &ScopeData,
    columns: &Vec<ColumnConfig>,
    area: Rect,
    shown: (usize, usize),
    now: Timestamp,
    Ghost(before): Ghost<ScopeScreenView>,
) -> (rows: Vec<TableRow>)
    requires
        can_draw(before, data@, area),
        screen@ == screen_drawn(before, area),
        columns@ == screen@.columns(),
        shown.0 == screen@.cursor.scroll.offset,
        shown.0 <= shown.1 <= screen@.visible.len(),
        shown.1 - shown.0 == rows_shown(before, area),
    ensures
        table_row_views(rows@) == Seq::new(
            rows_shown(before, area) as nat,
            |at: int| row_drawn(before, data@.pods, area, at, now@),
        ),
{
    let inner = inner(area);
    let query = query_of(screen.input.text());
    let highlighter = Query::new(&query.words);
    let ghost all = Seq::new(
        rows_shown(before, area) as nat,
        |at: int| row_drawn(before, data@.pods, area, at, now@),
    );
    let width = inner.width.saturating_sub(SCROLLBAR_WIDTH);
    let top = inner.y.saturating_add(1);
    let mut rows: Vec<TableRow> = Vec::new();
    let mut row = top;
    let mut index: usize = shown.0;
    let ghost mut at: int = 0;
    assert(table_row_views(rows@) =~= all.take(0));
    while index < shown.1
        invariant
            shown.0 <= index <= shown.1 <= screen@.visible.len(),
            at == index - shown.0,
            can_draw(before, data@, area),
            screen@ == screen_drawn(before, area),
            columns@ == screen@.columns(),
            shown.0 == screen@.cursor.scroll.offset,
            shown.1 - shown.0 == rows_shown(before, area),
            inner == inside(area),
            width == rest_of(inner.width as int, SCROLLBAR_WIDTH as int),
            top == body_row(area),
            row == sum_to_end(top as int, at),
            texts(highlighter.words@) == QueryView::of(words(before.input.text), schema()).words,
            all == Seq::new(
                rows_shown(before, area) as nat,
                |at: int| row_drawn(before, data@.pods, area, at, now@),
            ),
            table_row_views(rows@) == all.take(at),
        decreases shown.1 - index,
    {
        let place = screen.visible[index];
        assert(screen@.visible[index as int] == place);
        assert(data@.pods[place as int] == data.pods@[place as int]@);
        let cells = row_cells(&data.pods[place], columns, &highlighter, now);
        let one = TableRow {
            area: Rect::new(inner.x, row, width, 1),
            cells,
            selected: index == screen.cursor.index,
        };
        let ghost held = rows@;
        assert(one@.cells =~= all[at].cells);
        assert(one@ == all[at]);
        rows.push(one);
        assert(table_row_views(rows@) =~= table_row_views(held).push(one@));
        assert(all.take(at + 1) =~= all.take(at).push(all[at]));
        row = row.saturating_add(1);
        index += 1;
        proof {
            at = at + 1;
        }
    }
    assert(all.take(at) =~= all);
    rows
}

/// The row of the headers.
pub open spec fn header_row(area: Rect) -> Rect {
    Rect::cut(
        sum_to_end(inside(area).x as int, SELECTION_WIDTH as int),
        inside(area).y as int,
        available_in(area),
        1,
    )
}

/// What a column's header says: its label, and on the column that the rows
/// are sorted by which way.
pub open spec fn header_label(column: ColumnId, sort: ColumnId, descending: bool) -> Seq<char> {
    if column != sort {
        column.look().label
    } else if descending {
        column.look().label + " \u{2193}"@
    } else {
        column.look().label + " \u{2191}"@
    }
}

/// What the headers say.
fn header_labels(columns: &Vec<ColumnConfig>, sort: ColumnId, descending: bool) -> (labels: Vec<
    String,
>)
    ensures
        texts(labels@) == columns@.map_values(
            |column: ColumnConfig| header_label(column.id, sort, descending),
        ),
{
    let mut labels: Vec<String> = Vec::new();
    let ghost all = columns@.map_values(
        |column: ColumnConfig| header_label(column.id, sort, descending),
    );
    let mut at: usize = 0;
    while at < columns.len()
        invariant
            at <= columns@.len(),
            all == columns@.map_values(
                |column: ColumnConfig| header_label(column.id, sort, descending),
            ),
            labels@.len() == at,
            forall|k: int| 0 <= k < at ==> (#[trigger] labels@[k])@ == all[k],
        decreases columns@.len() - at,
    {
        let id = columns[at].id;
        let label = id.label().to_owned();
        labels.push(
            if id != sort {
                label
            } else if descending {
                label.concat(" \u{2193}")
            } else {
                label.concat(" \u{2191}")
            },
        );
        at += 1;
    }
    assert(texts(labels@) =~= all);
    labels
}

/// Where the scrollbar stands: down the right edge, beside the rows.
pub open spec fn table_track(area: Rect) -> Rect {
    Rect::cut(rest_of(inside(area).end_column(), 1), body_row(area), 1, body_rows(area))
}

/// The table of a screen: its columns with their headers, the window of its
/// rows that fits, and a scrollbar where there are more.
pub open spec fn table_is(
    table: Table,
    focus: Focus,
    screen: ScopeScreenView,
    data: ScopeDataView,
    area: Rect,
    now: int,
) -> bool {
    let drawn = screen_drawn(screen, area);
    let total = screen.visible.len() as int;
    let high = table_track(area).height as int;
    &&& table.title@ == " Pods "@
    &&& table.status@ == screen.status(data.pods.len())
    &&& table.focused == (focus is Table)
    &&& table.columns@ == drawn.columns()
    &&& texts(table.labels@) == drawn.columns().map_values(
        |column: ColumnConfig| header_label(column.id, screen.sort, screen.descending),
    )
    &&& headers_split(drawn.columns(), header_row(area), table.headers@)
    &&& table_row_views(table.rows@) == Seq::new(
        rows_shown(screen, area) as nat,
        |at: int| row_drawn(screen, data.pods, area, at, now),
    )
    &&& table.track == table_track(area)
    &&& match table.thumb {
        Some(thumb) => total > body_rows(area) && high > 0 && thumb.at == thumb_at(
            high,
            drawn.cursor.scroll.offset as int,
            body_rows(area),
            total,
        ) && thumb.len == thumb_len(high, body_rows(area), total),
        None => total <= body_rows(area) || high == 0,
    }
}

/// With the rows and the headers of the table as its areas, where the headers
/// stand here.
pub open spec fn with_table(
    shell: ShellView,
    screen: ScopeScreenView,
    area: Rect,
    headers: Seq<Rect>,
) -> ShellView {
    let drawn = screen_drawn(screen, area);
    with_headers(
        with_rows(
            shell,
            area,
            drawn.cursor.scroll.offset as int,
            rows_shown(screen, area) as nat,
        ),
        drawn.columns(),
        headers,
        drawn.columns().len(),
    )
}

/// The table itself. The screen has already decided which rows are shown and
/// in what order; this turns the window of them that fits into cells.
pub fn render_table(
    shell: &mut Shell,
    screen: &mut ScopeScreen,
    data: &ScopeData,
    area: Rect,
    now: Timestamp,
) -> (table: Table)
    requires
        can_draw(old(screen)@, data@, area),
    ensures
        final(screen)@ == screen_drawn(old(screen)@, area),
        table_is(table, old(shell)@.focus, old(screen)@, data@, area, now@),
        final(shell)@ == with_table(old(shell)@, old(screen)@, area, table.headers@),
{
    let ghost before = screen@;
    let ghost started = shell@;
    let focused = shell.focus == Focus::Table;
    let status = screen.status(data.pods.len());
    let inside_area = inner(area);
    let available = TableLayout::available_width(inside_area.width);
    screen.note_width(available);
    let columns = screen.layout.visible_columns(available);
    let visible_rows = inside_area.height.saturating_sub(1);
    let total = screen.visible.len();
    // `window` is what records the viewport on the cursor, so a page and an
    // End know how far to move.
    let shown = screen.cursor.window(visible_rows as usize, total);
    assert(screen@ =~= screen_drawn(before, area));
    let rows = rows_on_screen(screen, data, &columns, area, shown, now, Ghost(before));
    let row = Rect::new(
        inside_area.x.saturating_add(SELECTION_WIDTH),
        inside_area.y,
        available,
        1,
    );
    let headers = headers(&columns, row);
    let labels = header_labels(&columns, screen.sort, screen.descending);
    let count = rows.len();
    assert(count == table_row_views(rows@).len());
    let mut at: usize = 0;
    while at < count
        invariant
            at <= count,
            count == rows@.len(),
            count == rows_shown(before, area),
            shown.0 == screen_drawn(before, area).cursor.scroll.offset,
            shown.0 + count <= before.visible.len() <= usize::MAX,
            table_row_views(rows@) == Seq::new(
                rows_shown(before, area) as nat,
                |at: int| row_drawn(before, data@.pods, area, at, now@),
            ),
            shell@ == with_rows(started, area, shown.0 as int, at as nat),
        decreases count - at,
    {
        assert(table_row_views(rows@)[at as int].area == row_area(area, at as int));
        shell.region(rows[at].area, Target::Row(shown.0 + at));
        at += 1;
    }
    let ghost rowed = shell@;
    let mut at: usize = 0;
    while at < columns.len()
        invariant
            at <= columns@.len(),
            headers@.len() == columns@.len(),
            shell@ == with_headers(rowed, columns@, headers@, at as nat),
        decreases columns@.len() - at,
    {
        shell.region(headers[at], Target::Header(columns[at].id));
        at += 1;
    }
    let track = Rect::new(
        inside_area.right().saturating_sub(1),
        inside_area.y.saturating_add(1),
        1,
        visible_rows,
    );
    proof {
        let high = track.height as int;
        let seen = visible_rows as int;
        let offset = shown.0 as int;
        assert(high * seen <= 0xffff * 0xffff) by (nonlinear_arith)
            requires
                0 <= high <= 0xffff,
                0 <= seen <= 0xffff,
        ;
        assert(offset * high <= offset * body_rows(area)) by (nonlinear_arith)
            requires
                0 <= offset,
                0 <= high <= body_rows(area),
        ;
    }
    let thumb = scrollbar(track, shown.0, visible_rows as usize, total);
    let title = " Pods ".to_owned();
    Table { title, status, focused, columns, labels, headers, rows, thumb, track }
}

/// A table says that it lists pods and how many, has the focus where the list
/// has it, and a header and a cell for every column on screen.
pub proof fn law_a_table_says_what_it_lists(
    table: Table,
    focus: Focus,
    screen: ScopeScreenView,
    data: ScopeDataView,
    area: Rect,
    now: int,
    column: int,
    row: int,
)
    requires
        table_is(table, focus, screen, data, area, now),
        0 <= column < screen_drawn(screen, area).columns().len(),
        0 <= row < rows_shown(screen, area),
    ensures
        table.title@ == " Pods "@,
        table.status@ == screen.status(data.pods.len()),
        table.focused <==> focus is Table,
        table.labels@.len() == screen_drawn(screen, area).columns().len(),
        table.labels@[column]@ == header_label(
            screen_drawn(screen, area).columns()[column].id,
            screen.sort,
            screen.descending,
        ),
        table.rows@.len() == rows_shown(screen, area),
        table.rows@[row]@ == row_drawn(screen, data.pods, area, row, now),
        table.thumb is Some <==> screen.visible.len() > body_rows(area) && table_track(area).height
            > 0,
{
    assert(texts(table.labels@).len() == table.labels@.len());
    assert(texts(table.labels@)[column] == table.labels@[column]@);
    assert(table_row_views(table.rows@).len() == table.rows@.len());
    assert(table_row_views(table.rows@)[row] == table.rows@[row]@);
}

/// Each column wants its own width, but for the name and one without a
/// width, which take what is left, with a cell between two of them.
pub proof fn law_a_column_wants_its_width(
    columns: Seq<ColumnConfig>,
    row: Rect,
    headers: Seq<Rect>,
    column: ColumnConfig,
)
    ensures
        column.id == ColumnId::Name || column.width == 0 ==> column_want(column) == Want::Fill(1),
        column.id != ColumnId::Name && column.width > 0 ==> column_want(column) == Want::Length(
            column.width,
        ),
        headers_split(columns, row, headers) ==> headers.len() == columns.len() && split_sideways(
            columns.map_values(|held: ColumnConfig| column_want(held)),
            1,
            row,
            headers,
        ),
{
}

/// Inside its border a table has the columns' width, less the mark and the
/// scrollbar, a header row, the rows under it, and the scrollbar at its right
/// end.
pub proof fn law_a_table_is_laid_out_inside_its_border(area: Rect)
    requires
        6 <= area.width,
        4 <= area.height,
        area.x + area.width <= u16::MAX,
        area.y + area.height <= u16::MAX,
    ensures
        available_in(area) == area.width - 5,
        body_rows(area) == area.height - 3,
        header_row(area).x == area.x + 3,
        header_row(area).y == area.y + 1,
        header_row(area).width == area.width - 5,
        header_row(area).height == 1,
        table_track(area).x == area.x + area.width - 2,
        table_track(area).y == area.y + 2,
        table_track(area).width == 1,
        table_track(area).height == area.height - 3,
        row_area(area, 0).width == area.width - 3,
{
}

} // verus!
