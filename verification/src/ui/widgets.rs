//! The pieces of the frame that are not a table: the tab bar, the search
//! row, the status bar, the scrollbar, and the help modal.

use vstd::prelude::*;
use vstd::string::*;

use crate::app::screen::Target;
use crate::app::shell::{drawn_at, law_drawn_last_is_on_top, Level, Shell, ShellView};
use crate::text;
use crate::text::{decimal, maybe};
use crate::text_input::{field_window, TextInput, TextInputView};

use super::layout::{search_parts, search_split};
use super::paint::{least, line_text, rest_of, Line, Rect, Span, SpanView, Tone};

verus! {

/// What the search row says before anything is typed.
pub const PODS_PLACEHOLDER: &'static str =
    "Type / to search pods, or status:crash owner:orders-api app: node:";

/// The frames of the spinner that turns while a read runs.
pub open spec fn spinner(turn: int) -> char {
    if turn == 0 {
        '\u{25d0}'
    } else if turn == 1 {
        '\u{25d3}'
    } else if turn == 2 {
        '\u{25d1}'
    } else {
        '\u{25d2}'
    }
}

/// Which spinner frame this instant shows. Driven by the clock rather than by
/// a counter, so a slow frame does not make the spinner stutter.
pub fn spinner_frame(millis: u128) -> (frame: char)
    ensures
        frame == spinner((millis as int / 120) % 4),
{
    let turn: u128 = (millis / 120) % 4;
    if turn == 0 {
        '\u{25d0}'
    } else if turn == 1 {
        '\u{25d3}'
    } else if turn == 2 {
        '\u{25d1}'
    } else {
        '\u{25d2}'
    }
}

/// One tab as the bar draws it.
#[derive(Debug, PartialEq, Eq)]
pub struct TabLabel {
    pub label: String,
    /// What the bar falls back to when it is narrow.
    pub short: String,
    pub badge: Option<String>,
}

pub struct TabLabelView {
    pub label: Seq<char>,
    pub short: Seq<char>,
    pub badge: Option<Seq<char>>,
}

impl View for TabLabel {
    type V = TabLabelView;

    open spec fn view(&self) -> TabLabelView {
        TabLabelView { label: self.label@, short: self.short@, badge: maybe(self.badge) }
    }
}

/// What each tab is.
pub open spec fn label_views(tabs: Seq<TabLabel>) -> Seq<TabLabelView> {
    tabs.map_values(|tab: TabLabel| tab@)
}

impl TabLabelView {
    /// How many cells it takes with its whole name.
    pub open spec fn cells(self) -> nat {
        self.label.len() + 4 + match self.badge {
            Some(badge) => badge.len() + 1,
            None => 0,
        }
    }

    /// What the bar says of it, numbered for the first nine.
    pub open spec fn said(self, index: int, short: bool) -> Seq<char> {
        let name = if short {
            self.short
        } else {
            self.label
        };
        if index < 9 {
            " "@ + decimal((index + 1) as nat) + " "@ + name
        } else {
            " "@ + name
        }
    }

    /// How many cells a click on it may land on.
    pub open spec fn hit_cells(self, index: int, short: bool) -> nat {
        self.said(index, short).len() + match self.badge {
            Some(badge) => (" "@ + badge).len(),
            None => 0,
        }
    }
}

/// How many cells the tabs take with their whole names.
pub open spec fn all_cells(tabs: Seq<TabLabelView>) -> nat
    decreases tabs.len(),
{
    if tabs.len() == 0 {
        0
    } else {
        all_cells(tabs.drop_last()) + tabs.last().cells()
    }
}

/// The tabs do not fit the bar with their whole names.
pub open spec fn are_short(tabs: Seq<TabLabelView>, width: int) -> bool {
    all_cells(tabs) + 2 > width
}

/// The pieces of the first so many tabs: each tab's name, and its badge
/// where it has something to say.
pub open spec fn tab_spans(
    tabs: Seq<TabLabelView>,
    active: int,
    short: bool,
    count: nat,
) -> Seq<SpanView>
    decreases count,
{
    if count == 0 {
        seq![]
    } else {
        let index = count - 1;
        let said = tabs[index].said(index, short);
        tab_spans(tabs, active, short, (count - 1) as nat).push(
            if index == active {
                SpanView::bold(said, Tone::Accent)
            } else {
                SpanView::of(said, Tone::Muted)
            },
        ) + match tabs[index].badge {
            Some(badge) => seq![SpanView::of(" "@ + badge, Tone::Error)],
            None => seq![],
        }
    }
}

/// The column where a tab starts, when the first starts at `column`.
pub open spec fn tab_column(
    tabs: Seq<TabLabelView>,
    short: bool,
    column: int,
    count: nat,
) -> int
    decreases count,
{
    if count == 0 {
        column
    } else {
        tab_column(tabs, short, column, (count - 1) as nat) + tabs[count - 1].hit_cells(
            count - 1,
            short,
        )
    }
}

/// With the first so many tabs as areas of the bar, as far as it goes.
pub open spec fn with_tabs(
    shell: ShellView,
    area: Rect,
    tabs: Seq<TabLabelView>,
    short: bool,
    count: nat,
) -> ShellView
    decreases count,
{
    if count == 0 {
        shell
    } else {
        let index = count - 1;
        let before = with_tabs(shell, area, tabs, short, (count - 1) as nat);
        let column = tab_column(tabs, short, area.x as int, (count - 1) as nat);
        if column < area.end_column() {
            before.with_region(
                Rect::cut(
                    column,
                    area.y as int,
                    least(tabs[index].hit_cells(index, short) as int, area.end_column() - column),
                    1,
                ),
                Target::Tab(index as usize),
            )
        } else {
            before
        }
    }
}

/// The `?` at the right end of the bar, where there is room for it.
pub open spec fn help_area(area: Rect) -> Option<Rect> {
    if area.width > 2 {
        Some(Rect::cut(area.end_column() - 2, area.y as int, 1, 1))
    } else {
        None
    }
}

/// With the whole bar: the tabs, and the `?` over them.
pub open spec fn with_bar(shell: ShellView, area: Rect, tabs: Seq<TabLabelView>) -> ShellView {
    let tabbed = with_tabs(shell, area, tabs, are_short(tabs, area.width as int), tabs.len());
    match help_area(area) {
        Some(help) => tabbed.with_region(help, Target::Help),
        None => tabbed,
    }
}

/// The bar can be counted: its end is a column there is.
pub open spec fn bar_fits(area: Rect, tabs: Seq<TabLabelView>) -> bool {
    &&& all_cells(tabs) + 2 <= usize::MAX
    &&& tab_column(tabs, are_short(tabs, area.width as int), area.x as int, tabs.len())
        <= u16::MAX
}

/// The tab bar, as it is drawn.
#[derive(Debug, PartialEq, Eq)]
pub struct TabBar {
    pub line: Line,
    /// Where the `?` stands.
    pub help: Option<Rect>,
}

/// The bar of these tabs: their names, or their short ones where the whole
/// ones do not fit, and the `?`.
pub open spec fn bar_is(bar: TabBar, area: Rect, active: int, tabs: Seq<TabLabelView>) -> bool {
    &&& bar.line@ == tab_spans(tabs, active, are_short(tabs, area.width as int), tabs.len())
    &&& bar.help == help_area(area)
}

fn said_of(tab: &TabLabel, index: usize, short: bool) -> (said: String)
    ensures
        said@ == tab@.said(index as int, short),
{
    let name = if short {
        tab.short.as_str()
    } else {
        tab.label.as_str()
    };
    if index < 9 {
        " ".to_owned().concat(text::print(index as u128 + 1).as_str()).concat(" ").concat(name)
    } else {
        " ".to_owned().concat(name)
    }
}

proof fn lemma_cells_grow(tabs: Seq<TabLabelView>, count: int)
    requires
        0 <= count <= tabs.len(),
    ensures
        all_cells(tabs.take(count)) <= all_cells(tabs),
    decreases tabs.len() - count,
{
    if count < tabs.len() {
        lemma_cells_grow(tabs, count + 1);
        assert(tabs.take(count + 1).drop_last() =~= tabs.take(count));
    } else {
        assert(tabs.take(count) =~= tabs);
    }
}

proof fn lemma_columns_grow(
    tabs: Seq<TabLabelView>,
    short: bool,
    column: int,
    first: nat,
    second: nat,
)
    requires
        first <= second,
    ensures
        tab_column(tabs, short, column, first) <= tab_column(tabs, short, column, second),
    decreases second,
{
    if first < second {
        lemma_columns_grow(tabs, short, column, first, (second - 1) as nat);
    }
}

/// How many cells the tabs take with their whole names.
fn full_width(tabs: &Vec<TabLabel>) -> (width: usize)
    requires
        all_cells(label_views(tabs@)) <= usize::MAX,
    ensures
        width == all_cells(label_views(tabs@)),
{
    let ghost all = label_views(tabs@);
    let mut width: usize = 0;
    let mut at: usize = 0;
    while at < tabs.len()
        invariant
            at <= tabs@.len(),
            all == label_views(tabs@),
            all_cells(all) <= usize::MAX,
            width == all_cells(all.take(at as int)),
        decreases tabs@.len() - at,
    {
        assert(all.take(at as int + 1).drop_last() =~= all.take(at as int));
        assert(all.take(at as int + 1).last() == tabs@[at as int]@);
        proof {
            lemma_cells_grow(all, at as int + 1);
        }
        let label = text::chars_of(tabs[at].label.as_str()).len();
        let badge: usize = match &tabs[at].badge {
            Some(badge) => text::chars_of(badge.as_str()).len() + 1,
            None => 0,
        };
        width = width + label + 4 + badge;
        at += 1;
    }
    assert(all.take(at as int) =~= all);
    width
}

/// The tab bar: one tab per scope, numbered for the first nine, with a badge
/// where a tab has something to say. Names shorten before any is dropped.
pub fn render_tab_bar(
    shell: &mut Shell,
    area: Rect,
    active: usize,
    tabs: &Vec<TabLabel>,
) -> (bar: TabBar)
    requires
        bar_fits(area, label_views(tabs@)),
    ensures
        bar_is(bar, area, active as int, label_views(tabs@)),
        final(shell)@ == with_bar(old(shell)@, area, label_views(tabs@)),
{
    let ghost all = label_views(tabs@);
    let ghost before = shell@;
    let short = full_width(tabs) + 2 > area.width as usize;
    let right = area.right();
    let mut line = Line::new();
    let mut column = area.x;
    let mut at: usize = 0;
    while at < tabs.len()
        invariant
            at <= tabs@.len(),
            all == label_views(tabs@),
            before == old(shell)@,
            short == are_short(all, area.width as int),
            bar_fits(area, all),
            right == area.end_column(),
            column == tab_column(all, short, area.x as int, at as nat),
            line@ == tab_spans(all, active as int, short, at as nat),
            shell@ == with_tabs(before, area, all, short, at as nat),
        decreases tabs@.len() - at,
    {
        let ghost drawn = line@;
        assert(all[at as int] == tabs@[at as int]@);
        proof {
            lemma_columns_grow(all, short, area.x as int, (at + 1) as nat, all.len());
        }
        let said = said_of(&tabs[at], at, short);
        let width = text::chars_of(said.as_str()).len();
        if at == active {
            line.push(Span::bold(said.as_str(), Tone::Accent));
        } else {
            line.push(Span::of(said.as_str(), Tone::Muted));
        }
        let mut hit_width: usize = width;
        if let Some(badge) = &tabs[at].badge {
            let badge = " ".to_owned().concat(badge.as_str());
            hit_width = hit_width + text::chars_of(badge.as_str()).len();
            line.push(Span::of(badge.as_str(), Tone::Error));
        }
        assert(line@ =~= tab_spans(all, active as int, short, (at + 1) as nat));
        let hit_width = hit_width as u16;
        if column < right {
            let room = right - column;
            shell.region(
                Rect::new(
                    column,
                    area.y,
                    if hit_width <= room {
                        hit_width
                    } else {
                        room
                    },
                    1,
                ),
                Target::Tab(at),
            );
        }
        column = column + hit_width;
        at += 1;
    }
    // The `?` sits at the right end of the same row.
    let help = if area.width > 2 {
        let help = Rect::new(right - 2, area.y, 1, 1);
        shell.region(help, Target::Help);
        Some(help)
    } else {
        None
    };
    TabBar { line, help }
}

proof fn lemma_click_on_tab(
    shell: ShellView,
    area: Rect,
    tabs: Seq<TabLabelView>,
    short: bool,
    count: nat,
    index: int,
    column: int,
)
    requires
        0 <= index < count,
        count <= tabs.len() <= usize::MAX,
        area.y < area.end_row(),
        tab_column(tabs, short, area.x as int, index as nat) <= column,
        column < tab_column(tabs, short, area.x as int, (index + 1) as nat),
        column < area.end_column(),
    ensures
        drawn_at(
            with_tabs(shell, area, tabs, short, count).regions,
            column,
            area.y as int,
        ) == Some(Target::Tab(index as usize)),
    decreases count,
{
    let last = count - 1;
    let before = with_tabs(shell, area, tabs, short, last as nat);
    let after = with_tabs(shell, area, tabs, short, count);
    let start = tab_column(tabs, short, area.x as int, last as nat);
    lemma_columns_grow(tabs, short, area.x as int, 0, last as nat);
    if index == last {
        assert(after.regions.last().0.holds_cell(column, area.y as int));
    } else {
        lemma_click_on_tab(shell, area, tabs, short, last as nat, index, column);
        lemma_columns_grow(tabs, short, area.x as int, (index + 1) as nat, last as nat);
        if start < area.end_column() {
            assert(after.regions.drop_last() =~= before.regions);
            assert(!after.regions.last().0.holds_cell(column, area.y as int));
        }
    }
}

/// A click on a tab lands on that tab, anywhere on its name or its badge,
/// but for the cell that the `?` is drawn over.
pub proof fn law_a_click_on_a_tab_lands_on_that_tab(
    shell: ShellView,
    area: Rect,
    tabs: Seq<TabLabelView>,
    index: int,
    column: int,
)
    requires
        0 <= index < tabs.len() <= usize::MAX,
        area.y < area.end_row(),
        ({
            let short = are_short(tabs, area.width as int);
            &&& tab_column(tabs, short, area.x as int, index as nat) <= column
            &&& column < tab_column(tabs, short, area.x as int, (index + 1) as nat)
        }),
        column < area.end_column(),
        help_area(area) is Some ==> column != area.end_column() - 2,
    ensures
        drawn_at(with_bar(shell, area, tabs).regions, column, area.y as int) == Some(
            Target::Tab(index as usize),
        ),
{
    let short = are_short(tabs, area.width as int);
    let tabbed = with_tabs(shell, area, tabs, short, tabs.len());
    lemma_click_on_tab(shell, area, tabs, short, tabs.len(), index, column);
    if help_area(area) is Some {
        assert(with_bar(shell, area, tabs).regions.drop_last() =~= tabbed.regions);
        assert(!help_area(area)->0.holds_cell(column, area.y as int));
    }
}

/// The `?` is over whatever else stands there.
pub proof fn law_a_click_on_the_question_mark_opens_the_help(
    shell: ShellView,
    area: Rect,
    tabs: Seq<TabLabelView>,
)
    requires
        area.width > 2,
        area.y < area.end_row(),
    ensures
        drawn_at(
            with_bar(shell, area, tabs).regions,
            area.end_column() - 2,
            area.y as int,
        ) == Some(Target::Help),
{
    assert(with_bar(shell, area, tabs).regions.last().0 == help_area(area)->0);
    assert(help_area(area)->0.holds_cell(area.end_column() - 2, area.y as int));
}

/// However narrow the bar is, no tab is dropped from it: each has its name
/// there, whole or short.
pub proof fn law_no_tab_is_dropped(
    tabs: Seq<TabLabelView>,
    active: int,
    short: bool,
    count: nat,
    index: int,
)
    requires
        0 <= index < count <= tabs.len(),
    ensures
        exists|at: int|
            0 <= at < tab_spans(tabs, active, short, count).len() && (#[trigger] tab_spans(
                tabs,
                active,
                short,
                count,
            )[at]).text == tabs[index].said(index, short),
    decreases count,
{
    let before = tab_spans(tabs, active, short, (count - 1) as nat);
    let all = tab_spans(tabs, active, short, count);
    if index < count - 1 {
        law_no_tab_is_dropped(tabs, active, short, (count - 1) as nat, index);
        let at = choose|at: int|
            0 <= at < before.len() && (#[trigger] before[at]).text == tabs[index].said(
                index,
                short,
            );
        assert(all[at] == before[at]);
    } else {
        assert(all[before.len() as int].text == tabs[index].said(index, short));
    }
}

/// A text in at most so many cells, with an ellipsis where something was
/// cut.
pub open spec fn cut_to(held: Seq<char>, room: int) -> Seq<char> {
    if held.len() <= room {
        held
    } else if room <= 1 {
        seq![]
    } else {
        held.take(room - 1).push('\u{2026}')
    }
}

/// A cut text fits its room, and one that fits is not cut.
pub proof fn law_a_cut_text_fits(held: Seq<char>, room: int)
    requires
        room >= 0,
    ensures
        cut_to(held, room).len() <= room,
        held.len() <= room ==> cut_to(held, room) == held,
{
}

/// `text` in at most `room` cells, with an ellipsis where something was cut.
pub fn truncate(held: &str, room: usize) -> (cut: String)
    ensures
        cut@ == cut_to(held@, room as int),
{
    let chars = text::chars_of(held);
    if chars.len() <= room {
        return held.to_owned();
    }
    if room <= 1 {
        return String::new();
    }
    let mut cut = text::text_of(&chars, 0, room - 1);
    cut.push('\u{2026}');
    assert(cut@ =~= cut_to(held@, room as int));
    cut
}

/// The status bar, as it is drawn: what is on the left, and what is on the
/// right and where.
#[derive(Debug, PartialEq, Eq)]
pub struct StatusBar {
    pub left: Span,
    pub right: Option<(Rect, String)>,
}

/// How many cells the right-hand end takes: none where it is more than a
/// `u16` counts.
pub open spec fn right_cells(right: Seq<char>) -> int {
    if right.len() <= u16::MAX {
        right.len() as int
    } else {
        0
    }
}

/// The left-hand end: what just happened, or what the keys do, cut to what
/// the right-hand end leaves it. Where there is no room for both, what is
/// happening beats what the keys do.
pub open spec fn left_of(
    notification: Option<(Seq<char>, Level)>,
    hint: Seq<char>,
    right: Seq<char>,
    width: int,
) -> SpanView {
    let said = match notification {
        Some(said) => said.0,
        None => hint,
    };
    let tone = match notification {
        Some((_, Level::Error)) => Tone::Error,
        Some((_, Level::Info)) => Tone::Success,
        None => Tone::Muted,
    };
    SpanView::of(
        if right_cells(right) + 3 >= width {
            seq![]
        } else {
            cut_to(said, width - right_cells(right) - 3)
        },
        tone,
    )
}

/// A status bar: the left-hand end, and on the right what the open tab holds
/// where there is room for it.
pub open spec fn status_is(
    bar: StatusBar,
    notification: Option<(Seq<char>, Level)>,
    hint: Seq<char>,
    right: Seq<char>,
    area: Rect,
) -> bool {
    &&& bar.left@ == left_of(notification, hint, right, area.width as int)
    &&& match bar.right {
        Some(drawn) => right_cells(right) < area.width && drawn.0 == Rect::cut(
            area.x as int,
            area.y as int,
            rest_of(area.width as int, 1),
            1,
        ) && drawn.1@ == right,
        None => right_cells(right) >= area.width,
    }
}

/// The bottom row: what just happened, or what the keys do, and on the right
/// what the open tab holds. The right-hand end is the one that cannot be
/// guessed from the keys, so it keeps its room and the hint is cut to what is
/// left, with a gap, so the two never read as one sentence.
pub fn render_status_bar(shell: &Shell, area: Rect, hint: &str, right: &str) -> (bar: StatusBar)
    requires
        right_cells(right@) + 3 <= u16::MAX,
    ensures
        status_is(bar, shell@.notification, hint@, right@, area),
{
    let len = text::chars_of(right).len();
    let right_width: u16 = if len <= u16::MAX as usize {
        len as u16
    } else {
        0
    };
    let (said, tone) = match shell.notification() {
        Some((said, Level::Error)) => (said, Tone::Error),
        Some((said, Level::Info)) => (said, Tone::Success),
        None => (hint, Tone::Muted),
    };
    let left = if right_width + 3 >= area.width {
        String::new()
    } else {
        truncate(said, (area.width - right_width - 3) as usize)
    };
    let drawn = if right_width < area.width {
        Some(
            (Rect::new(area.x, area.y, area.width.saturating_sub(1), 1), right.to_owned()),
        )
    } else {
        None
    };
    StatusBar { left: Span { text: left, tone, bold: false }, right: drawn }
}

/// The two halves of the status bar never run into each other: with both
/// drawn there are two cells between them, and one past the right one.
pub proof fn law_the_halves_of_the_status_bar_stay_apart(
    notification: Option<(Seq<char>, Level)>,
    hint: Seq<char>,
    right: Seq<char>,
    width: int,
)
    requires
        width >= 0,
    ensures
        ({
            let left = left_of(notification, hint, right, width).text;
            left.len() == 0 || left.len() + 2 + right_cells(right) + 1 <= width
        }),
{
}

/// The search row, as it is drawn.
#[derive(Debug, PartialEq, Eq)]
pub struct SearchRow {
    pub glyph: (Rect, Span),
    pub field: (Rect, Span),
    /// The column and the row of the caret, while the box has focus.
    pub caret: Option<(u16, u16)>,
    /// The `×`, where there is anything to clear.
    pub clear: Option<(Rect, Span)>,
}

/// What the field shows: the placeholder until something is typed or the box
/// has focus, and then the part of the text that the caret is in.
pub open spec fn field_shows(
    input: TextInputView,
    focused: bool,
    placeholder: Seq<char>,
    width: u16,
) -> SpanView {
    if !input.has_text() && !focused {
        SpanView::of(placeholder, Tone::Muted)
    } else {
        SpanView::of(input.text.skip(first_shown(input.cursor, width as int)), Tone::Text)
    }
}

/// The first character a field shows.
pub open spec fn first_shown(cursor: int, width: int) -> int {
    if width == 0 {
        cursor
    } else if cursor >= width {
        cursor - width + 1
    } else {
        0
    }
}

/// With the field as an area of the row, and what clears it where there is
/// anything to clear.
pub open spec fn with_search_row(
    shell: ShellView,
    parts: (Rect, Rect, Rect),
    input: TextInputView,
) -> ShellView {
    let fielded = shell.with_region(parts.1, Target::SearchField);
    if input.has_text() {
        fielded.with_region(parts.2, Target::ClearSearch)
    } else {
        fielded
    }
}

/// A search row in the three parts of it: the `/` glyph, the field with the
/// caret in it while the box has focus, and the `×` where there is anything
/// to clear.
pub open spec fn row_is(
    row: SearchRow,
    parts: (Rect, Rect, Rect),
    input: TextInputView,
    focused: bool,
    placeholder: Seq<char>,
) -> bool {
    let column = parts.1.x + input.cursor - first_shown(input.cursor, parts.1.width as int);
    &&& row.glyph.0 == parts.0
    &&& row.glyph.1@ == SpanView::of(
        "/ "@,
        if focused {
            Tone::Accent
        } else {
            Tone::Muted
        },
    )
    &&& row.field.0 == parts.1
    &&& row.field.1@ == field_shows(input, focused, placeholder, parts.1.width)
    &&& row.caret == (if focused {
        Some((column as u16, parts.1.y))
    } else {
        None
    })
    &&& match row.clear {
        Some(clear) => input.has_text() && clear.0 == parts.2 && clear.1@ == SpanView::of(
            " \u{d7} "@,
            Tone::Muted,
        ),
        None => !input.has_text(),
    }
}

/// The one-line search field in the three parts of its row: the `/` glyph,
/// the text, and a `×` to clear it.
pub fn search_row(
    shell: &mut Shell,
    parts: (Rect, Rect, Rect),
    input: &TextInput,
    focused: bool,
    placeholder: &str,
) -> (row: SearchRow)
    requires
        parts.1.x + parts.1.width <= u16::MAX,
    ensures
        row_is(row, parts, input@, focused, placeholder@),
        final(shell)@ == with_search_row(old(shell)@, parts, input@),
{
    let field = parts.1;
    let glyph = Span::of(
        "/ ",
        if focused {
            Tone::Accent
        } else {
            Tone::Muted
        },
    );
    let cursor = input.cursor();
    let (first, caret) = field_window(cursor, field.width);
    let shown = if input.is_empty() && !focused {
        Span::of(placeholder, Tone::Muted)
    } else {
        let chars = text::chars_of(input.text());
        let shown = text::text_of(&chars, first, chars.len());
        assert(shown@ =~= input@.text.skip(first as int));
        Span::of(shown.as_str(), Tone::Text)
    };
    shell.region(field, Target::SearchField);
    let clear = if input.is_empty() {
        None
    } else {
        shell.region(parts.2, Target::ClearSearch);
        Some((parts.2, Span::of(" \u{d7} ", Tone::Muted)))
    };
    SearchRow {
        glyph: (parts.0, glyph),
        field: (field, shown),
        caret: if focused {
            Some((field.x + caret, field.y))
        } else {
            None
        },
        clear,
    }
}

/// The search row of an area: its parts are what the layout makes of it.
pub fn render_search_row(
    shell: &mut Shell,
    area: Rect,
    input: &TextInput,
    focused: bool,
    placeholder: &str,
) -> (row: SearchRow)
    ensures
        exists|parts: (Rect, Rect, Rect)| #[trigger]
            search_split(area, input@.has_text(), parts) && row_is(
                row,
                parts,
                input@,
                focused,
                placeholder@,
            ) && final(shell)@ == with_search_row(old(shell)@, parts, input@),
{
    let parts = search_parts(area, !input.is_empty());
    search_row(shell, parts, input, focused, placeholder)
}

/// The search row has its slash, lit while the box has the focus, the field,
/// the caret while it has the focus, and the cross while there is text.
pub proof fn law_the_search_row_is_the_boxs(
    row: SearchRow,
    parts: (Rect, Rect, Rect),
    input: TextInputView,
    focused: bool,
    placeholder: Seq<char>,
)
    requires
        row_is(row, parts, input, focused, placeholder),
        input.holds(),
        0 < parts.1.width,
        parts.1.x + parts.1.width <= u16::MAX,
    ensures
        row.glyph.1@.text == "/ "@,
        focused <==> row.glyph.1@.tone == Tone::Accent,
        focused <==> row.caret is Some,
        row.caret matches Some(caret) ==> parts.1.x <= caret.0 < parts.1.x + parts.1.width
            && caret.1 == parts.1.y,
        row.caret matches Some(caret) ==> (input.cursor < parts.1.width ==> caret.0 == parts.1.x
            + input.cursor),
        input.text.len() > 0 <==> row.clear is Some,
        row.clear matches Some(clear) ==> clear.0 == parts.2 && clear.1@.text == " \u{d7} "@,
        row.field.1@ == field_shows(input, focused, placeholder, parts.1.width),
{
}

/// A click in the field goes to the box, and one on the cross clears it.
pub proof fn law_a_click_in_the_search_row_lands(
    shell: ShellView,
    parts: (Rect, Rect, Rect),
    input: TextInputView,
    column: int,
    line: int,
)
    ensures
        parts.1.holds_cell(column, line) && (input.text.len() == 0 || !parts.2.holds_cell(
            column,
            line,
        )) ==> drawn_at(with_search_row(shell, parts, input).regions, column, line) == Some(
            Target::SearchField,
        ),
        parts.2.holds_cell(column, line) && input.text.len() > 0 ==> drawn_at(
            with_search_row(shell, parts, input).regions,
            column,
            line,
        ) == Some(Target::ClearSearch),
{
    let fielded = shell.with_region(parts.1, Target::SearchField);
    law_drawn_last_is_on_top(shell, parts.1, Target::SearchField, column, line);
    law_drawn_last_is_on_top(fielded, parts.2, Target::ClearSearch, column, line);
}

/// A text that does not fit ends in an ellipsis in place of the rest.
pub proof fn law_a_cut_text_ends_in_an_ellipsis(held: Seq<char>, room: int)
    requires
        1 < room < held.len(),
    ensures
        cut_to(held, room).len() == room,
        cut_to(held, room).last() == '\u{2026}',
        cut_to(held, room).drop_last() == held.take(room - 1),
{
    assert(cut_to(held, room).drop_last() =~= held.take(room - 1));
}

/// The spinner turns clockwise through its four halves.
pub proof fn law_the_spinner_has_four_frames(turn: int)
    requires
        0 <= turn < 4,
    ensures
        spinner(turn) == seq!['\u{25d0}', '\u{25d3}', '\u{25d1}', '\u{25d2}'][turn],
{
}

/// The box says what it takes before anything is typed.
pub proof fn law_the_empty_box_says_what_it_takes()
    ensures
        PODS_PLACEHOLDER@ == "Type / to search pods, or status:crash owner:orders-api app: node:"@,
{
}

/// A tab takes its name and four cells, and a badge and a cell for it; the
/// bar is short where all of them and two cells are more than it is wide.
pub proof fn law_a_bar_is_short_where_its_names_do_not_fit(
    a: Seq<TabLabelView>,
    b: Seq<TabLabelView>,
    tab: TabLabelView,
    badge: Seq<char>,
    width: int,
)
    ensures
        tab.badge is None ==> all_cells(seq![tab]) == tab.label.len() + 4,
        tab.badge == Some(badge) ==> all_cells(seq![tab]) == tab.label.len() + 5 + badge.len(),
        all_cells(a + b) == all_cells(a) + all_cells(b),
        all_cells(Seq::empty()) == 0,
        are_short(a, width) <==> width < all_cells(a) + 2,
    decreases b.len(),
{
    reveal_with_fuel(all_cells, 2);
    assert(seq![tab].drop_last() =~= Seq::empty());
    if b.len() == 0 {
        assert(a + b =~= a);
    } else {
        law_a_bar_is_short_where_its_names_do_not_fit(a, b.drop_last(), tab, badge, width);
        assert((a + b).drop_last() =~= a + b.drop_last());
        assert((a + b).last() == b.last());
    }
}

/// The right end of the status bar is drawn where it fits, one cell from the
/// edge, and else not at all.
pub proof fn law_the_right_end_is_drawn_where_it_fits(
    bar: StatusBar,
    notification: Option<(Seq<char>, Level)>,
    hint: Seq<char>,
    right: Seq<char>,
    area: Rect,
)
    requires
        status_is(bar, notification, hint, right, area),
        area.x + area.width <= u16::MAX,
        area.y < u16::MAX,
        0 < area.width,
    ensures
        right.len() < area.width ==> bar.right is Some && (bar.right->0).1@ == right,
        area.width <= right.len() <= u16::MAX ==> bar.right is None,
        bar.right matches Some(drawn) ==> drawn.0.x == area.x && drawn.0.y == area.y
            && drawn.0.width == area.width - 1 && drawn.0.height == 1,
        bar.left@ == left_of(notification, hint, right, area.width as int),
{
}

/// The help's mark is one cell from the end of the bar, where there is room
/// for it.
pub proof fn law_the_question_mark_is_at_the_end_of_the_bar(
    bar: TabBar,
    area: Rect,
    active: int,
    tabs: Seq<TabLabelView>,
)
    requires
        bar_is(bar, area, active, tabs),
        area.x + area.width <= u16::MAX,
        area.y < u16::MAX,
    ensures
        bar.help is Some <==> area.width > 2,
        bar.help matches Some(help) ==> help.x == area.x + area.width - 2 && help.y == area.y
            && help.width == 1 && help.height == 1,
        line_text(bar.line@) == line_text(
            tab_spans(tabs, active, area.width < all_cells(tabs) + 2, tabs.len()),
        ),
{
}

} // verus!
