//! One tab: the list over one namespace of one cluster, and the state that is
//! this tab's alone — its cursor, its search, its sort.

use vstd::prelude::*;
use vstd::string::*;

use crate::columns::{
    law_columns_drop_from_the_right, narrowed, place_of, pod_columns, pods_open_with, taken_at,
    turned_on, ColumnConfig, ColumnId, TableLayout,
};
use crate::filter::{keys, Query, QueryView};
use crate::input::{KeyCode, KeyEvent};
use crate::kube::pod::{Pod, PodView};
use crate::store::ScopeData;
use crate::text;
use crate::text::{decimal, words};
use crate::text_input::{TextInput, TextInputView};

use super::cursor::{between, ListCursor, ScrollState};
use super::layout::all_differ;
use super::rows::{
    is_asked_for, is_sorted, law_an_empty_query_asks_for_everything,
    law_the_rows_are_those_asked_for_in_order, rows_among, rows_of, SortView,
};
use super::screen::{AppAction, Target};
use super::shell::{Focus, Shell};

verus! {

/// The `key:` filters the pods list knows. Everything else typed is a word.
pub open spec fn schema() -> Seq<Seq<char>> {
    seq!["name"@, "ns"@, "status"@, "owner"@, "app"@, "node"@]
}

/// What is typed in the search box, as a query of the pods list.
pub fn query_of(raw: &str) -> (query: Query)
    ensures
        query@ == QueryView::of(words(raw@), schema()),
{
    let known: [&str; 6] = ["name", "ns", "status", "owner", "app", "node"];
    assert(keys(known@) =~= schema());
    Query::parse(raw, &known)
}

/// The state that is one tab's alone.
#[derive(Debug)]
pub struct ScopeScreen {
    pub cursor: ListCursor,
    pub layout: TableLayout,
    pub input: TextInput,
    pub sort: ColumnId,
    pub descending: bool,
    /// Which rows of the tab's list are shown, in the order they are shown.
    pub visible: Vec<usize>,
    /// The width the columns were last solved at, which is what `S` walks.
    pub available: u16,
    /// How far down the details pane is scrolled.
    pub details_scroll: ScrollState,
}

#[verifier::ext_equal]
pub struct ScopeScreenView {
    pub cursor: ListCursor,
    pub layout: Seq<ColumnConfig>,
    pub input: TextInputView,
    pub sort: ColumnId,
    pub descending: bool,
    pub visible: Seq<usize>,
    pub available: u16,
    pub details_scroll: ScrollState,
}

impl View for ScopeScreen {
    type V = ScopeScreenView;

    open spec fn view(&self) -> ScopeScreenView {
        ScopeScreenView {
            cursor: self.cursor,
            layout: self.layout.columns@,
            input: self.input@,
            sort: self.sort,
            descending: self.descending,
            visible: self.visible@,
            available: self.available,
            details_scroll: self.details_scroll,
        }
    }
}

impl ScopeScreenView {
    pub open spec fn fresh() -> ScopeScreenView {
        let scroll = ScrollState { offset: 0, viewport: 0, content: 0 };
        ScopeScreenView {
            cursor: ListCursor { index: 0, scroll },
            layout: pods_open_with(),
            input: TextInputView::empty(),
            sort: ColumnId::Name,
            descending: false,
            visible: seq![],
            available: 0,
            details_scroll: scroll,
        }
    }

    /// The columns on screen.
    pub open spec fn columns(self) -> Seq<ColumnConfig> {
        narrowed(turned_on(self.layout), self.available as int)
    }

    /// Sorted by the next column on screen, or by the first where the column
    /// it is sorted by is not on screen.
    pub open spec fn next_sorted(self) -> ScopeScreenView {
        let columns = self.columns();
        let at = place_of(columns, self.sort) as int;
        if columns.len() == 0 {
            self
        } else {
            ScopeScreenView {
                sort: if at + 1 < columns.len() {
                    columns[at + 1].id
                } else {
                    columns[0].id
                },
                descending: false,
                ..self
            }
        }
    }

    /// After so many calls for the next column.
    pub open spec fn sorted_on(self, times: nat) -> ScopeScreenView
        decreases times,
    {
        if times == 0 {
            self
        } else {
            self.sorted_on((times - 1) as nat).next_sorted()
        }
    }

    /// Sorted by a column whose header was clicked: the same column cycles
    /// ascending, descending, then back to the default; a different column
    /// starts ascending.
    pub open spec fn sorted_by(self, column: ColumnId) -> ScopeScreenView {
        if self.sort != column {
            ScopeScreenView { sort: column, descending: false, ..self }
        } else if !self.descending {
            ScopeScreenView { descending: true, ..self }
        } else {
            ScopeScreenView { sort: ColumnId::Name, descending: false, ..self }
        }
    }

    /// With the details from their top, where the cursor is on another row.
    pub open spec fn details_after(self, before: usize) -> ScopeScreenView {
        if self.cursor.index != before {
            ScopeScreenView { details_scroll: self.details_scroll.from(0), ..self }
        } else {
            self
        }
    }

    pub open spec fn moved(self, cursor: ListCursor) -> ScopeScreenView {
        ScopeScreenView { cursor, ..self }.details_after(self.cursor.index)
    }

    pub open spec fn scrolled(self, by: int) -> ScopeScreenView {
        ScopeScreenView {
            details_scroll: self.details_scroll.from(self.details_scroll.offset + by),
            ..self
        }
    }

    /// With the details from this line, or as near to it as they go.
    pub open spec fn details_from(self, line: int) -> ScopeScreenView {
        ScopeScreenView { details_scroll: self.details_scroll.from(line), ..self }
    }

    /// How far a page of the details goes: a single line where a page is
    /// more than an `i32` counts.
    pub open spec fn details_page(self) -> int {
        if self.details_scroll.page() <= i32::MAX {
            self.details_scroll.page() as int
        } else {
            1
        }
    }

    /// What a key makes of it, with the details pane or anything else in
    /// focus.
    pub open spec fn after_key(self, focus: Focus, code: KeyCode) -> ScopeScreenView {
        let count = self.visible.len() as int;
        if focus is Details {
            match code {
                KeyCode::Char('j') | KeyCode::Down => self.scrolled(1),
                KeyCode::Char('k') | KeyCode::Up => self.scrolled(-1),
                KeyCode::PageDown => self.scrolled(self.details_page()),
                KeyCode::PageUp => self.scrolled(-self.details_page()),
                KeyCode::Home => self.details_from(0),
                KeyCode::End => self.details_from(self.details_scroll.content as int),
                _ => self,
            }
        } else {
            match code {
                KeyCode::Char('j') | KeyCode::Down => self.moved(self.cursor.moved(1, count)),
                KeyCode::Char('k') | KeyCode::Up => self.moved(self.cursor.moved(-1, count)),
                KeyCode::PageDown => self.moved(
                    self.cursor.moved(self.cursor.scroll.page() as int, count),
                ),
                KeyCode::PageUp => self.moved(
                    self.cursor.moved(-(self.cursor.scroll.page() as int), count),
                ),
                KeyCode::Home => self.moved(ListCursor { index: 0, ..self.cursor }),
                KeyCode::End => self.moved(self.cursor.moved(isize::MAX as int, count)),
                KeyCode::Char('S') => self.next_sorted(),
                _ => self,
            }
        }
    }

    /// What a click makes of it: on a row the cursor moves there, on a
    /// header it sorts by it.
    pub open spec fn after_click(self, target: Target) -> ScopeScreenView {
        match target {
            Target::Row(index) => {
                let last = if self.visible.len() > 0 {
                    self.visible.len() - 1
                } else {
                    0
                };
                self.moved(
                    ListCursor {
                        index: if index <= last {
                            index
                        } else {
                            last as usize
                        },
                        ..self.cursor
                    },
                )
            },
            Target::Header(column) => self.sorted_by(column),
            _ => self,
        }
    }

    /// What the wheel makes of it: over the details they scroll; anywhere
    /// else the window does, and the cursor stays in it.
    pub open spec fn after_wheel(self, target: Option<Target>, delta: int) -> ScopeScreenView {
        let count = self.visible.len() as usize;
        let sized = self.cursor.scroll.sized(self.cursor.scroll.viewport, count);
        let scroll = sized.from(sized.offset + delta);
        let end = scroll.offset + (if scroll.viewport > 0 {
            scroll.viewport - 1
        } else {
            0
        });
        let last = if count == 0 {
            0
        } else if end <= count - 1 {
            end
        } else {
            count - 1
        };
        let first = if scroll.offset <= last {
            scroll.offset as int
        } else {
            last
        };
        if target == Some(Target::Details) {
            self.scrolled(delta)
        } else {
            self.moved(
                ListCursor {
                    index: between(self.cursor.index as int, first, last) as usize,
                    scroll,
                },
            )
        }
    }

    /// What the bottom border says: how many rows of how many, and the sort.
    pub open spec fn status(self, total: nat) -> Seq<char> {
        (if self.visible.len() == total {
            decimal(total)
        } else {
            decimal(self.visible.len()) + "/"@ + decimal(total)
        }) + " \u{b7} "@ + self.sort.look().label + " "@ + (if self.descending {
            "\u{2193}"@
        } else {
            "\u{2191}"@
        })
    }

    /// With the rows that the search box asks for, in the order of the sort,
    /// and the cursor on one of them.
    pub open spec fn refiltered(self, pods: Seq<PodView>) -> ScopeScreenView {
        let visible = rows_among(
            pods,
            QueryView::of(words(self.input.text), schema()),
            SortView { column: self.sort, descending: self.descending },
            pods.len(),
        );
        ScopeScreenView {
            visible,
            cursor: self.cursor.moved(0, visible.len() as int),
            ..self
        }
    }

    /// The pod under the cursor, when there is one.
    pub open spec fn selected(self, pods: Seq<PodView>) -> Option<PodView> {
        if self.cursor.index < self.visible.len() && self.visible[self.cursor.index as int]
            < pods.len() {
            Some(pods[self.visible[self.cursor.index as int] as int])
        } else {
            None
        }
    }
}

/// What the keys do, for the status bar.
pub open spec fn hint_of(focus: Focus) -> Seq<char> {
    if focus is Search {
        "Esc/Enter keep the filter  Esc again clears it  Ctrl-U empties the box"@
    } else {
        "\u{2191}\u{2193}/jk move  [ ] tabs  / search  S sort  r refresh  ? help"@
    }
}

impl Default for ScopeScreen {
    fn default() -> (screen: Self)
        ensures
            screen@ == ScopeScreenView::fresh(),
    {
        ScopeScreen {
            cursor: ListCursor::default(),
            layout: TableLayout::new(pod_columns().as_slice()),
            input: TextInput::default(),
            sort: ColumnId::Name,
            descending: false,
            visible: Vec::new(),
            available: 0,
            details_scroll: ScrollState::default(),
        }
    }
}

impl ScopeScreen {
    /// The rows on screen, as indices into the tab's list.
    pub fn visible(&self) -> (rows: &[usize])
        ensures
            rows@ == self@.visible,
    {
        self.visible.as_slice()
    }

    /// `S`: the next column on screen.
    pub fn next_sort(&mut self)
        ensures
            final(self)@ == old(self)@.next_sorted(),
    {
        let columns = self.layout.visible_columns(self.available);
        if columns.len() == 0 {
            return ;
        }
        let ghost all = columns@;
        let mut at: usize = 0;
        assert(all.skip(0) =~= all);
        while at < columns.len() && columns[at].id != self.sort
            invariant
                at <= columns@.len(),
                all == columns@,
                place_of(all, self.sort) == at + place_of(all.skip(at as int), self.sort),
            decreases columns@.len() - at,
        {
            assert(all.skip(at as int)[0] == all[at as int]);
            assert(all.skip(at as int).skip(1) =~= all.skip(at as int + 1));
            at += 1;
        }
        assert(at < columns@.len() ==> all.skip(at as int)[0] == all[at as int]);
        let count = columns.len();
        self.sort = if at < count && at + 1 < count {
            columns[at + 1].id
        } else {
            columns[0].id
        };
        self.descending = false;
    }

    /// A header click: the same column cycles ascending, descending, then
    /// back to the default; a different column starts ascending.
    pub fn sort_by(&mut self, column: ColumnId)
        ensures
            final(self)@ == old(self)@.sorted_by(column),
    {
        if self.sort == column {
            if self.descending {
                self.sort = ColumnId::Name;
                self.descending = false;
            } else {
                self.descending = true;
            }
        } else {
            self.sort = column;
            self.descending = false;
        }
    }

    /// What the bottom border says: how many rows of how many, and the sort.
    pub fn status(&self, total: usize) -> (said: String)
        ensures
            said@ == self@.status(total as nat),
    {
        let arrow = if self.descending {
            "\u{2193}"
        } else {
            "\u{2191}"
        };
        let count = if self.visible.len() == total {
            text::print(total as u128)
        } else {
            text::print(self.visible.len() as u128).concat("/").concat(
                text::print(total as u128).as_str(),
            )
        };
        count.concat(" \u{b7} ").concat(self.sort.label()).concat(" ").concat(arrow)
    }

    /// Remembers the width the columns were solved at, so `S` walks the
    /// columns that are actually on screen.
    pub fn note_width(&mut self, available: u16)
        ensures
            final(self)@ == (ScopeScreenView { available, ..old(self)@ }),
    {
        self.available = available;
    }

    /// Picks the rows that the search box asks for, in the order of the
    /// sort.
    pub fn refilter(&mut self, data: &ScopeData)
        ensures
            final(self)@ == old(self)@.refiltered(data@.pods),
    {
        let query = query_of(self.input.text());
        self.visible = rows_of(&data.pods, &query, self.sort, self.descending);
        self.cursor.move_by(0, self.visible.len());
    }

    /// The pod under the cursor, when there is one.
    pub fn selected<'a>(&self, data: &'a ScopeData) -> (pod: Option<&'a Pod>)
        ensures
            pod is Some <==> self@.selected(data@.pods) is Some,
            pod matches Some(pod) ==> self@.selected(data@.pods) == Some(pod@),
    {
        if self.cursor.index < self.visible.len() {
            let row = self.visible[self.cursor.index];
            if row < data.pods.len() {
                assert(data@.pods[row as int] == data.pods@[row as int]@);
                return Some(&data.pods[row]);
            }
        }
        None
    }

    /// One key the shell did not take: movement and sorting.
    pub fn handle_key(&mut self, shell: &Shell, key: KeyEvent) -> (action: AppAction)
        ensures
            final(self)@ == old(self)@.after_key(shell@.focus, key.code),
            action is Nothing,
    {
        let count = self.visible.len();
        // The keys that move scroll the details pane when that is what has
        // focus.
        if shell.focus == Focus::Details {
            let page = self.details_scroll.page_step();
            let page: i32 = if page <= i32::MAX as usize {
                page as i32
            } else {
                1
            };
            match key.code {
                KeyCode::Char('j') | KeyCode::Down => self.details_scroll.scroll_by(1),
                KeyCode::Char('k') | KeyCode::Up => self.details_scroll.scroll_by(-1),
                KeyCode::PageDown => self.details_scroll.scroll_by(page),
                KeyCode::PageUp => self.details_scroll.scroll_by(-page),
                KeyCode::Home => self.details_scroll.scroll_to(0),
                KeyCode::End => self.details_scroll.scroll_to(self.details_scroll.content),
                _ => {},
            }
            return AppAction::Nothing;
        }
        let before = self.cursor.index;
        match key.code {
            KeyCode::Char('j') | KeyCode::Down => self.cursor.move_by(1, count),
            KeyCode::Char('k') | KeyCode::Up => self.cursor.move_by(-1, count),
            KeyCode::PageDown => self.cursor.page(true, count),
            KeyCode::PageUp => self.cursor.page(false, count),
            KeyCode::Home => self.cursor.focus(0),
            KeyCode::End => self.cursor.move_by(isize::MAX, count),
            KeyCode::Char('S') => self.next_sort(),
            _ => {},
        }
        if self.cursor.index != before {
            self.details_scroll.scroll_to(0);
        }
        AppAction::Nothing
    }

    /// A click on a row moves the cursor there; on a header, sorts by it.
    pub fn handle_click(&mut self, target: Target) -> (action: AppAction)
        ensures
            final(self)@ == old(self)@.after_click(target),
            action is Nothing,
    {
        match target {
            Target::Row(index) => {
                let before = self.cursor.index;
                let last = self.visible.len().saturating_sub(1);
                self.cursor.focus(
                    if index <= last {
                        index
                    } else {
                        last
                    },
                );
                if self.cursor.index != before {
                    self.details_scroll.scroll_to(0);
                }
            },
            Target::Header(column) => self.sort_by(column),
            _ => {},
        }
        AppAction::Nothing
    }

    /// The wheel: over the details pane it scrolls that; anywhere else the
    /// cursor follows the viewport rather than being left behind it, so what
    /// a key acts on is always something on screen.
    pub fn handle_wheel(&mut self, target: Option<Target>, delta: i32)
        ensures
            final(self)@ == old(self)@.after_wheel(target, delta as int),
    {
        let over_details = match target {
            Some(Target::Details) => true,
            _ => false,
        };
        if over_details {
            self.details_scroll.scroll_by(delta);
            return ;
        }
        let before = self.cursor.index;
        let count = self.visible.len();
        let viewport = self.cursor.scroll.viewport;
        self.cursor.scroll.set_viewport(viewport, count);
        self.cursor.scroll.scroll_by(delta);
        let offset = self.cursor.scroll.offset;
        let bottom = count.saturating_sub(1);
        // A window over fewer rows than it holds starts at the first.
        let end = if count > viewport {
            offset + viewport.saturating_sub(1)
        } else {
            bottom
        };
        let last = if end <= bottom {
            end
        } else {
            bottom
        };
        let first = if offset <= last {
            offset
        } else {
            last
        };
        if self.cursor.index > last {
            self.cursor.index = last;
        } else if self.cursor.index < first {
            self.cursor.index = first;
        }
        if self.cursor.index != before {
            self.details_scroll.scroll_to(0);
        }
    }

    /// What the keys do, for the status bar.
    pub fn footer_hint(&self, shell: &Shell) -> (hint: String)
        ensures
            hint@ == hint_of(shell@.focus),
    {
        if shell.focus == Focus::Search {
            "Esc/Enter keep the filter  Esc again clears it  Ctrl-U empties the box".to_owned()
        } else {
            "\u{2191}\u{2193}/jk move  [ ] tabs  / search  S sort  r refresh  ? help".to_owned()
        }
    }
}

/// Clicking the same header three times goes round: ascending, descending,
/// and back to the default.
pub proof fn law_a_header_goes_round_in_three_clicks(screen: ScopeScreenView, column: ColumnId)
    requires
        screen.sort != column,
    ensures
        screen.sorted_by(column).sort == column,
        !screen.sorted_by(column).descending,
        screen.sorted_by(column).sorted_by(column).sort == column,
        screen.sorted_by(column).sorted_by(column).descending,
        screen.sorted_by(column).sorted_by(column).sorted_by(column).sort == ColumnId::Name,
        !screen.sorted_by(column).sorted_by(column).sorted_by(column).descending,
{
}

/// The next column to sort by is one on screen, ascending: the first where
/// the column it is sorted by is not on screen. Nothing else changes, and
/// nothing at all where there is no column.
pub proof fn law_the_next_sort_is_on_screen(screen: ScopeScreenView)
    ensures
        screen.columns().len() == 0 ==> screen.next_sorted() == screen,
        screen.columns().len() > 0 ==> {
            let next = screen.next_sorted();
            &&& exists|at: int|
                0 <= at < screen.columns().len() && (#[trigger] screen.columns()[at]).id
                    == next.sort
            &&& !next.descending
            &&& next == (ScopeScreenView { sort: next.sort, descending: false, ..screen })
            &&& (forall|at: int|
                0 <= at < screen.columns().len() ==> (#[trigger] screen.columns()[at]).id
                    != screen.sort) ==> next.sort == screen.columns()[0].id
        },
{
    let columns = screen.columns();
    if columns.len() > 0 {
        let at = place_of(columns, screen.sort) as int;
        lemma_place_of(columns, screen.sort);
        assert(columns[if at + 1 < columns.len() {
            at + 1
        } else {
            0
        }].id == screen.next_sorted().sort);
    }
}

proof fn lemma_place_of(columns: Seq<ColumnConfig>, id: ColumnId)
    ensures
        place_of(columns, id) <= columns.len(),
        place_of(columns, id) < columns.len() ==> columns[place_of(columns, id) as int].id == id,
        forall|k: int|
            0 <= k < place_of(columns, id) && k < columns.len() ==> (#[trigger] columns[k]).id
                != id,
    decreases columns.len(),
{
    if columns.len() > 0 && columns[0].id != id {
        let rest = columns.skip(1);
        lemma_place_of(rest, id);
        let at = place_of(rest, id) as int;
        assert(at < rest.len() ==> rest[at] == columns[at + 1]);
        assert forall|k: int| 0 <= k < at + 1 && k < columns.len() implies (
        #[trigger] columns[k]).id != id by {
            if k > 0 {
                assert(rest[k - 1] == columns[k]);
            }
        }
    }
}

/// The next sort, so many columns after the one at `place`.
proof fn lemma_sorted_on(screen: ScopeScreenView, place: int, times: nat)
    requires
        all_differ(screen.columns()),
        0 <= place < screen.columns().len(),
        screen.columns()[place].id == screen.sort,
    ensures
        ({
            let columns = screen.columns();
            let at = (place + times) % (columns.len() as int);
            &&& 0 <= at < columns.len()
            &&& screen.sorted_on(times) == (ScopeScreenView {
                sort: columns[at].id,
                descending: times == 0 && screen.descending,
                ..screen
            })
        }),
    decreases times,
{
    let columns = screen.columns();
    let count = columns.len() as int;
    vstd::arithmetic::div_mod::lemma_mod_bound(place + times, count);
    if times == 0 {
        vstd::arithmetic::div_mod::lemma_small_mod(place as nat, columns.len());
    } else {
        let before = screen.sorted_on((times - 1) as nat);
        let at = (place + times - 1) % count;
        lemma_sorted_on(screen, place, (times - 1) as nat);
        lemma_place_of(columns, before.sort);
        let found = place_of(columns, before.sort) as int;
        assert(found == at) by {
            if found < at {
                assert(columns[found].id != columns[at].id);
            }
        }
        vstd::arithmetic::div_mod::lemma_fundamental_div_mod(place + times - 1, count);
        let turns = (place + times - 1) / count;
        vstd::arithmetic::mul::lemma_mul_is_commutative(count, turns);
        assert(place + times == turns * count + (at + 1));
        if at + 1 < count {
            vstd::arithmetic::div_mod::lemma_fundamental_div_mod_converse(
                place + times,
                count,
                turns,
                at + 1,
            );
        } else {
            vstd::arithmetic::mul::lemma_mul_is_distributive_add_other_way(count, turns, 1);
            vstd::arithmetic::div_mod::lemma_fundamental_div_mod_converse(
                place + times,
                count,
                turns + 1,
                0,
            );
        }
    }
}

/// `S` goes round the columns on screen: from one of them, each call sorts
/// by the one to its right and after the last by the first, so that as many
/// calls as there are columns end where they began. The layout, the cursor
/// and the search box stay as they are.
pub proof fn law_the_sort_goes_round_the_columns_on_screen(
    screen: ScopeScreenView,
    place: int,
    times: nat,
)
    requires
        all_differ(screen.columns()),
        0 <= place < screen.columns().len(),
        screen.columns()[place].id == screen.sort,
    ensures
        0 <= (place + times) % (screen.columns().len() as int) < screen.columns().len(),
        screen.sorted_on(times) == (ScopeScreenView {
            sort: screen.columns()[(place + times) % (screen.columns().len() as int)].id,
            descending: times == 0 && screen.descending,
            ..screen
        }),
        screen.sorted_on(screen.columns().len()).sort == screen.sort,
{
    let count = screen.columns().len();
    lemma_sorted_on(screen, place, times);
    lemma_sorted_on(screen, place, count);
    vstd::arithmetic::div_mod::lemma_fundamental_div_mod_converse(
        place + count,
        count as int,
        1,
        place,
    );
}

/// On its way round the sort comes by every column on screen once.
pub proof fn law_the_sort_comes_by_every_column_once(
    screen: ScopeScreenView,
    place: int,
    at: int,
) -> (times: nat)
    requires
        all_differ(screen.columns()),
        0 <= place < screen.columns().len(),
        screen.columns()[place].id == screen.sort,
        0 <= at < screen.columns().len(),
    ensures
        times < screen.columns().len(),
        screen.sorted_on(times).sort == screen.columns()[at].id,
        forall|other: nat|
            other < screen.columns().len() && other != times ==> (#[trigger] screen.sorted_on(
                other,
            )).sort != screen.columns()[at].id,
{
    let columns = screen.columns();
    let count = columns.len() as int;
    let times: nat = if at >= place {
        (at - place) as nat
    } else {
        (at - place + count) as nat
    };
    let reached = turned(place + times, count);
    vstd::arithmetic::div_mod::lemma_fundamental_div_mod_converse(
        place + times,
        count,
        reached.0,
        reached.1,
    );
    lemma_sorted_on(screen, place, times);
    assert forall|other: nat| other < count && other != times implies (#[trigger] screen.sorted_on(
        other,
    )).sort != columns[at].id by {
        let found = turned(place + other, count);
        vstd::arithmetic::div_mod::lemma_fundamental_div_mod_converse(
            place + other,
            count,
            found.0,
            found.1,
        );
        lemma_sorted_on(screen, place, other);
        assert(found.1 != at);
        if found.1 < at {
            assert(columns[found.1].id != columns[at].id);
        } else {
            assert(columns[at].id != columns[found.1].id);
        }
    }
    times
}

/// Less than two turns of so many, as turns and what is left.
spec fn turned(sum: int, count: int) -> (int, int) {
    if sum < count {
        (0, sum)
    } else {
        (1, sum - count)
    }
}

proof fn lemma_turned_on_differ(columns: Seq<ColumnConfig>)
    requires
        all_differ(columns),
    ensures
        all_differ(turned_on(columns)),
        forall|k: int|
            0 <= k < turned_on(columns).len() ==> columns.contains(
                #[trigger] turned_on(columns)[k],
            ),
    decreases columns.len(),
{
    if columns.len() > 0 {
        let rest = columns.drop_last();
        lemma_turned_on_differ(rest);
        let on = turned_on(rest);
        assert forall|k: int| 0 <= k < on.len() implies columns.contains(#[trigger] on[k])
            && on[k].id != columns.last().id by {
            let at = choose|at: int| 0 <= at < rest.len() && rest[at] == on[k];
            assert(columns[at] == on[k]);
            assert(columns[at].id != columns[columns.len() - 1].id);
        }
        assert(columns.contains(columns.last()));
    }
}

/// Where no column stands twice in a tab's layout, none stands twice on
/// screen.
pub proof fn law_the_columns_on_screen_differ(screen: ScopeScreenView)
    requires
        all_differ(screen.layout),
    ensures
        all_differ(screen.columns()),
{
    let on = turned_on(screen.layout);
    lemma_turned_on_differ(screen.layout);
    let places = law_columns_drop_from_the_right(on, screen.available as int);
    let shown = screen.columns();
    assert(taken_at(shown, on, places));
    assert forall|j: int, k: int| 0 <= j < k < shown.len() implies (#[trigger] shown[j]).id != (
    #[trigger] shown[k]).id by {
        assert(places[j] < places[k]);
        assert(on[places[j]].id != on[places[k]].id);
    }
}

/// After the wheel the row under the cursor is on screen, as long as there
/// is a row and a screen to show it on.
pub proof fn law_the_wheel_keeps_the_cursor_on_screen(
    screen: ScopeScreenView,
    target: Option<Target>,
    delta: int,
)
    requires
        target != Some(Target::Details),
        0 < screen.visible.len() <= usize::MAX,
        screen.cursor.scroll.viewport > 0,
    ensures
        ({
            let after = screen.after_wheel(target, delta).cursor;
            &&& after.index < screen.visible.len()
            &&& after.scroll.offset <= after.index
            &&& after.index < after.scroll.offset + after.scroll.viewport
        }),
{
}

/// The rows shown are the pods that the box asks for, each once, in the order
/// of the sorted column; an empty box asks for all of them.
pub proof fn law_a_screen_shows_what_its_box_asks_for(
    screen: ScopeScreenView,
    pods: Seq<PodView>,
    row: usize,
)
    requires
        pods.len() <= usize::MAX,
    ensures
        ({
            let shown = screen.refiltered(pods).visible;
            let query = QueryView::of(words(screen.input.text), schema());
            let sort = SortView { column: screen.sort, descending: screen.descending };
            &&& shown.contains(row) <==> row < pods.len() && is_asked_for(pods[row as int], query)
            &&& shown.no_duplicates()
            &&& is_sorted(shown, pods, sort)
            &&& screen.input.text.len() == 0 ==> (shown.contains(row) <==> row < pods.len())
        }),
        screen.refiltered(pods).input == screen.input,
        screen.refiltered(pods).sort == screen.sort,
        screen.refiltered(pods).descending == screen.descending,
        screen.refiltered(pods).layout == screen.layout,
{
    let query = QueryView::of(words(screen.input.text), schema());
    let sort = SortView { column: screen.sort, descending: screen.descending };
    law_the_rows_are_those_asked_for_in_order(pods, query, sort, row);
    if screen.input.text.len() == 0 {
        assert(words(screen.input.text) =~= seq![]);
        if row < pods.len() {
            law_an_empty_query_asks_for_everything(pods[row as int]);
        }
    }
}

/// A cursor whose row is gone goes to the last there is, and any other stays
/// where it is.
pub proof fn law_the_cursor_follows_a_shorter_list(screen: ScopeScreenView, pods: Seq<PodView>)
    ensures
        ({
            let after = screen.refiltered(pods);
            let count = after.visible.len();
            &&& screen.cursor.index < count ==> after.cursor == screen.cursor
            &&& screen.cursor.index >= count > 0 ==> after.cursor.index == count - 1
            &&& count == 0 ==> after.cursor.index == 0
        }),
{
}

/// The wheel leaves the cursor where it is as long as that stays on screen,
/// and else takes it along at the edge.
pub proof fn law_the_wheel_takes_the_cursor_along(
    screen: ScopeScreenView,
    target: Option<Target>,
    delta: int,
)
    requires
        target != Some(Target::Details),
        0 < screen.cursor.scroll.viewport <= screen.visible.len() <= usize::MAX,
        screen.cursor.index < screen.visible.len(),
    ensures
        ({
            let after = screen.after_wheel(target, delta).cursor;
            let first = after.scroll.offset as int;
            let last = first + screen.cursor.scroll.viewport - 1;
            &&& first <= screen.cursor.index <= last ==> after.index == screen.cursor.index
            &&& screen.cursor.index < first ==> after.index == first
            &&& screen.cursor.index > last ==> after.index == last
        }),
{
}

/// The status bar has the keys of the box while it has the focus, and else
/// those of the list.
pub proof fn law_the_hint_is_of_what_has_the_focus(focus: Focus)
    ensures
        focus is Search ==> hint_of(focus)
            == "Esc/Enter keep the filter  Esc again clears it  Ctrl-U empties the box"@,
        !(focus is Search) ==> hint_of(focus)
            == "\u{2191}\u{2193}/jk move  [ ] tabs  / search  S sort  r refresh  ? help"@,
{
}

/// A screen opens at the top, with an empty box, sorted by name.
pub proof fn law_a_screen_opens_at_the_top(list: ScrollState)
    ensures
        ({
            let screen = ScopeScreenView::fresh();
            &&& screen.cursor.index == 0
            &&& screen.cursor.scroll == screen.details_scroll
            &&& screen.details_scroll.offset == 0
            &&& screen.details_scroll.viewport == 0
            &&& screen.details_scroll.content == 0
            &&& screen.input.text.len() == 0
            &&& screen.input.cursor == 0
            &&& screen.sort == ColumnId::Name
            &&& !screen.descending
            &&& screen.visible.len() == 0
        }),
        (ScopeScreenView { details_scroll: list, ..ScopeScreenView::fresh() }).details_page() == (
        if 1 < list.viewport <= 0x8000_0000 {
            list.viewport - 1
        } else {
            1
        }),
{
}

} // verus!
