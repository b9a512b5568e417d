//! What the keys, the mouse and a paste do, seen from outside.

use vstd::prelude::*;
use vstd::string::*;

use crate::columns::{ColumnConfig, ColumnId};
use crate::config::TabView;
use crate::input::{KeyCode, KeyEvent, MouseEvent};
use crate::kube::pod::PodView;
use crate::kube::watcher::{EventView, Request};
use crate::store::ScopeDataView;
use crate::text::decimal;
use crate::text_input::{on_one_line, pressed};

use super::application::{App, AppView};
use super::scope::{schema, ScopeScreen, ScopeScreenView};
use super::screen::{AppAction, Target};
use super::shell::{drawn_at, Focus, Shell};

verus! {

/// Nothing of a screen changed but where its cursor and its details are.
pub open spec fn only_moved(a: ScopeScreenView, b: ScopeScreenView) -> bool {
    &&& a.layout == b.layout
    &&& a.input == b.input
    &&& a.sort == b.sort
    &&& a.descending == b.descending
    &&& a.visible == b.visible
    &&& a.available == b.available
    &&& a.cursor.scroll == b.cursor.scroll
}

/// While the details do not have the keys, `k` and Up go one row up, `j` and
/// Down one row down, Home to the first row and End to the last; at an end
/// of the list there is no row further.
pub proof fn law_the_keys_move_the_cursor(screen: ScopeScreenView, focus: Focus)
    requires
        !(focus is Details),
        screen.cursor.index < screen.visible.len() <= isize::MAX,
    ensures
        ({
            let index = screen.cursor.index as int;
            let last = screen.visible.len() - 1;
            let after = |code: KeyCode| screen.after_key(focus, code).cursor.index as int;
            &&& index > 0 ==> after(KeyCode::Char('k')) == index - 1 && after(KeyCode::Up) == index
                - 1
            &&& index == 0 ==> after(KeyCode::Char('k')) == 0 && after(KeyCode::Up) == 0
            &&& index < last ==> after(KeyCode::Char('j')) == index + 1 && after(KeyCode::Down)
                == index + 1
            &&& index == last ==> after(KeyCode::Char('j')) == last && after(KeyCode::Down) == last
            &&& after(KeyCode::Home) == 0
            &&& after(KeyCode::End) == last
        }),
{
}

/// A page down goes a screenful less one row down and a page up as far up,
/// and neither past the ends of the list.
pub proof fn law_a_page_is_a_screenful_less_one_row(screen: ScopeScreenView, focus: Focus)
    requires
        !(focus is Details),
        screen.cursor.index < screen.visible.len() <= isize::MAX,
        screen.cursor.scroll.viewport > 1,
    ensures
        ({
            let index = screen.cursor.index as int;
            let last = screen.visible.len() - 1;
            let page = screen.cursor.scroll.viewport - 1;
            let down = screen.after_key(focus, KeyCode::PageDown).cursor.index as int;
            let up = screen.after_key(focus, KeyCode::PageUp).cursor.index as int;
            &&& index + page <= last ==> down == index + page
            &&& index + page > last ==> down == last
            &&& index - page >= 0 ==> up == index - page
            &&& index - page < 0 ==> up == 0
        }),
{
}

/// A row down and a row up again, or up and down again, is where the cursor
/// was, as long as there is such a row.
pub proof fn law_down_and_up_again_is_no_move(screen: ScopeScreenView, focus: Focus)
    requires
        !(focus is Details),
        screen.cursor.index < screen.visible.len() <= isize::MAX,
    ensures
        screen.cursor.index + 1 < screen.visible.len() ==> screen.after_key(
            focus,
            KeyCode::Char('j'),
        ).after_key(focus, KeyCode::Char('k')).cursor == screen.cursor,
        screen.cursor.index + 1 < screen.visible.len() ==> screen.after_key(
            focus,
            KeyCode::Down,
        ).after_key(focus, KeyCode::Up).cursor == screen.cursor,
        screen.cursor.index > 0 ==> screen.after_key(focus, KeyCode::Up).after_key(
            focus,
            KeyCode::Down,
        ).cursor == screen.cursor,
{
}

/// A key that moves the cursor changes nothing else of the screen, but that
/// the details of another pod are read from their top.
pub proof fn law_moving_only_moves(screen: ScopeScreenView, focus: Focus, code: KeyCode)
    requires
        !(focus is Details),
        code != KeyCode::Char('S'),
    ensures
        ({
            let after = screen.after_key(focus, code);
            &&& only_moved(screen, after)
            &&& after.cursor.index != screen.cursor.index ==> after.details_scroll.offset == 0
            &&& after.cursor.index == screen.cursor.index ==> after.details_scroll
                == screen.details_scroll
        }),
{
}

/// While the details have the keys, these scroll them line by line, by the
/// page and to their ends, never past them, and leave the cursor alone.
pub proof fn law_the_keys_scroll_the_details(screen: ScopeScreenView, code: KeyCode)
    requires
        screen.details_scroll.viewport < screen.details_scroll.content,
        1 < screen.details_scroll.viewport <= i32::MAX,
        screen.details_scroll.offset <= screen.details_scroll.content
            - screen.details_scroll.viewport,
    ensures
        ({
            let offset = screen.details_scroll.offset as int;
            let page = screen.details_scroll.viewport - 1;
            let last = screen.details_scroll.content - screen.details_scroll.viewport;
            let after = |code: KeyCode|
                screen.after_key(Focus::Details, code).details_scroll.offset as int;
            &&& offset < last ==> after(KeyCode::Char('j')) == offset + 1 && after(KeyCode::Down)
                == offset + 1
            &&& offset == last ==> after(KeyCode::Char('j')) == last && after(KeyCode::Down) == last
            &&& offset > 0 ==> after(KeyCode::Char('k')) == offset - 1 && after(KeyCode::Up)
                == offset - 1
            &&& offset == 0 ==> after(KeyCode::Char('k')) == 0 && after(KeyCode::Up) == 0
            &&& offset + page <= last ==> after(KeyCode::PageDown) == offset + page
            &&& offset + page > last ==> after(KeyCode::PageDown) == last
            &&& offset >= page ==> after(KeyCode::PageUp) == offset - page
            &&& offset < page ==> after(KeyCode::PageUp) == 0
            &&& after(KeyCode::Home) == 0
            &&& after(KeyCode::End) == last
        }),
        screen.after_key(Focus::Details, code).cursor == screen.cursor,
        only_moved(screen, screen.after_key(Focus::Details, code)),
{
}

/// A click on a row puts the cursor there, and on a header sorts by it.
pub proof fn law_a_click_goes_where_it_lands(
    screen: ScopeScreenView,
    row: usize,
    column: ColumnId,
)
    ensures
        row < screen.visible.len() ==> screen.after_click(Target::Row(row)).cursor.index == row,
        row >= screen.visible.len() && screen.visible.len() > 0 ==> screen.after_click(
            Target::Row(row),
        ).cursor.index == screen.visible.len() - 1,
        only_moved(screen, screen.after_click(Target::Row(row))),
        screen.sort != column ==> screen.after_click(Target::Header(column)).sort == column
            && !screen.after_click(Target::Header(column)).descending,
        screen.sort == column && !screen.descending ==> screen.after_click(
            Target::Header(column),
        ).sort == column && screen.after_click(Target::Header(column)).descending,
        screen.sort == column && screen.descending ==> screen.after_click(
            Target::Header(column),
        ).sort == ColumnId::Name && !screen.after_click(Target::Header(column)).descending,
        screen.after_click(Target::Header(column)).cursor == screen.cursor,
{
}

/// The wheel scrolls the details when it is over them and the rows anywhere
/// else, by as much as it turned and no further than they go.
pub proof fn law_the_wheel_scrolls_what_it_is_over(
    screen: ScopeScreenView,
    target: Option<Target>,
    delta: int,
)
    requires
        -3 <= delta <= 3,
        target != Some(Target::Details),
        screen.details_scroll.offset <= screen.details_scroll.furthest(),
        screen.cursor.scroll.viewport < screen.visible.len() <= usize::MAX,
        screen.cursor.scroll.offset <= screen.visible.len() - screen.cursor.scroll.viewport,
    ensures
        ({
            let over = screen.after_wheel(Some(Target::Details), delta);
            let wanted = screen.details_scroll.offset + delta;
            &&& over.cursor == screen.cursor
            &&& 0 <= wanted <= screen.details_scroll.furthest() ==> over.details_scroll.offset
                == wanted
            &&& wanted < 0 ==> over.details_scroll.offset == 0
            &&& wanted > screen.details_scroll.furthest() ==> over.details_scroll.offset
                == screen.details_scroll.furthest()
        }),
        ({
            let elsewhere = screen.after_wheel(target, delta);
            let wanted = screen.cursor.scroll.offset + delta;
            let last = screen.visible.len() - screen.cursor.scroll.viewport;
            &&& 0 <= wanted <= last ==> elsewhere.cursor.scroll.offset == wanted
            &&& wanted < 0 ==> elsewhere.cursor.scroll.offset == 0
            &&& wanted > last ==> elsewhere.cursor.scroll.offset == last
            &&& elsewhere.cursor.index == screen.cursor.index ==> elsewhere.details_scroll
                == screen.details_scroll
        }),
{
}

/// The pod under the cursor is the one of the row the cursor is on.
pub proof fn law_the_selected_pod_is_the_row_under_the_cursor(
    screen: ScopeScreenView,
    pods: Seq<PodView>,
    row: usize,
)
    requires
        row < screen.visible.len(),
        screen.visible[row as int] < pods.len(),
    ensures
        screen.after_click(Target::Row(row)).selected(pods) == Some(
            pods[screen.visible[row as int] as int],
        ),
{
}

/// The border says how many rows are shown, of how many where some are not,
/// and by which column they are sorted and which way.
pub proof fn law_the_border_counts_the_rows(screen: ScopeScreenView, total: nat)
    ensures
        screen.visible.len() == total && !screen.descending ==> screen.status(total) == decimal(
            total,
        ) + " \u{b7} "@ + screen.sort.look().label + " "@ + "\u{2191}"@,
        screen.visible.len() != total && !screen.descending ==> screen.status(total) == decimal(
            screen.visible.len(),
        ) + "/"@ + decimal(total) + " \u{b7} "@ + screen.sort.look().label + " "@ + "\u{2191}"@,
        screen.visible.len() == total && screen.descending ==> screen.status(total) == decimal(
            total,
        ) + " \u{b7} "@ + screen.sort.look().label + " "@ + "\u{2193}"@,
{
}

/// The search box knows the keys of the list, and no others.
pub proof fn law_the_list_knows_its_keys(key: Seq<char>)
    ensures
        schema().contains(key) <==> key == "name"@ || key == "ns"@ || key == "status"@ || key
            == "owner"@ || key == "app"@ || key == "node"@,
{
    let all = schema();
    assert(all[0] == "name"@ && all[1] == "ns"@ && all[2] == "status"@);
    assert(all[3] == "owner"@ && all[4] == "app"@ && all[5] == "node"@);
}

/// An application that takes keys for its tab: no help is open, and the box
/// does not have them.
pub open spec fn takes_keys(app: AppView) -> bool {
    !app.shell.help_open && !(app.shell.focus is Search) && 0 <= app.tab < app.tabs.len()
        && app.screens.len() == app.tabs.len()
}

/// `]` and the right arrow open the next tab and `[` and the left arrow the
/// one before, round the ends, with the keys on its table.
pub proof fn law_the_brackets_step_through_the_tabs(app: AppView, control: bool)
    requires
        takes_keys(app),
    ensures
        ({
            let after = |code: KeyCode| app.after_key(pressed(code, control));
            let last = app.tabs.len() - 1;
            &&& app.tab < last ==> after(KeyCode::Char(']')).tab == app.tab + 1 && after(
                KeyCode::Right,
            ).tab == app.tab + 1
            &&& app.tab == last ==> after(KeyCode::Char(']')).tab == 0 && after(KeyCode::Right).tab
                == 0
            &&& app.tab > 0 ==> after(KeyCode::Char('[')).tab == app.tab - 1 && after(
                KeyCode::Left,
            ).tab == app.tab - 1
            &&& app.tab == 0 ==> after(KeyCode::Char('[')).tab == last && after(KeyCode::Left).tab
                == last
            &&& last > 0 ==> after(KeyCode::Char(']')).shell.focus is Table && after(
                KeyCode::Char('['),
            ).shell.focus is Table
            &&& after(KeyCode::Char(']')).screens == app.screens
        }),
{
    let count = app.tabs.len() as int;
    if app.tab < count - 1 {
        vstd::arithmetic::div_mod::lemma_small_mod((app.tab + 1) as nat, count as nat);
    } else {
        vstd::arithmetic::div_mod::lemma_mod_self_0(count);
    }
    if app.tab > 0 {
        vstd::arithmetic::div_mod::lemma_small_mod((app.tab - 1) as nat, count as nat);
    } else {
        vstd::arithmetic::div_mod::lemma_fundamental_div_mod_converse(-1, count, -1, count - 1);
    }
}

/// `?` opens the help, any key closes it, and neither does anything else.
pub proof fn law_the_help_opens_and_any_key_closes_it(app: AppView, key: KeyEvent)
    requires
        takes_keys(app),
        key.press,
        !(key.control && key.code == KeyCode::Char('c')),
    ensures
        ({
            let opened = app.after_key(pressed(KeyCode::Char('?'), false));
            &&& opened.shell.help_open
            &&& opened.after_key(key) == app
            &&& opened.asked_by_key(key) == AppAction::Nothing
        }),
{
    let opened = app.after_key(pressed(KeyCode::Char('?'), false));
    assert(opened.after_key(key) =~= app);
}

/// `/` puts the keys on the search box, Tab on the details and back on the
/// table, and Enter and Esc take them off the box with what it holds kept.
pub proof fn law_the_focus_goes_where_it_is_asked(app: AppView, control: bool)
    requires
        takes_keys(app),
    ensures
        app.after_key(pressed(KeyCode::Char('/'), control)).shell.focus is Search,
        app.after_key(pressed(KeyCode::Char('/'), control)).screens == app.screens,
        app.shell.focus is Table ==> app.after_key(
            pressed(KeyCode::Tab, control),
        ).shell.focus is Details,
        app.shell.focus is Details ==> app.after_key(
            pressed(KeyCode::Tab, control),
        ).shell.focus is Table,
        app.after_key(pressed(KeyCode::Tab, control)).screens == app.screens,
        ({
            let searching = app.after_key(pressed(KeyCode::Char('/'), control));
            &&& searching.after_key(pressed(KeyCode::Enter, control)).shell.focus is Table
            &&& searching.after_key(pressed(KeyCode::Esc, control)).shell.focus is Table
            &&& searching.after_key(pressed(KeyCode::Tab, control)).shell.focus is Table
            &&& searching.after_key(pressed(KeyCode::Enter, control)).screens == app.screens
            &&& searching.after_key(pressed(KeyCode::Esc, control)).screens == app.screens
        }),
{
}

/// While the box has the keys it takes what is typed, the letters that are
/// keys elsewhere among them, and asks for nothing.
pub proof fn law_the_box_takes_what_is_typed(app: AppView, c: char)
    requires
        app.shell.focus is Search,
        !app.shell.help_open,
        0 <= app.tab < app.screens.len(),
        app.screens[app.tab].input.holds(),
    ensures
        ({
            let after = app.after_key(pressed(KeyCode::Char(c), false));
            let box_before = app.screens[app.tab].input;
            &&& after.screens[app.tab].input.text == box_before.text.take(box_before.cursor) + seq![
                c,
            ] + box_before.text.skip(box_before.cursor)
            &&& after.tab == app.tab
            &&& after.shell.focus is Search
            &&& !after.shell.help_open
            &&& app.asked_by_key(pressed(KeyCode::Char(c), false)) == AppAction::Nothing
        }),
{
}

/// `Ctrl-C` ends the run from anywhere and `q` from outside the box and the
/// help; `r` reads the open tab again; a key that is let go asks for nothing
/// and does nothing.
pub proof fn law_the_run_is_asked_by_its_own_keys(app: AppView, key: KeyEvent)
    requires
        0 <= app.tab <= usize::MAX,
    ensures
        app.asked_by_key(pressed(KeyCode::Char('c'), true)) == AppAction::Quit,
        takes_keys(app) ==> app.asked_by_key(pressed(KeyCode::Char('q'), false)) == AppAction::Quit,
        takes_keys(app) ==> app.asked_by_key(pressed(KeyCode::Char('r'), false)) == AppAction::Send(
            Request::Refresh(app.tab as usize),
        ),
        takes_keys(app) ==> app.after_key(pressed(KeyCode::Char('r'), false)) == app,
        app.shell.help_open || app.shell.focus is Search ==> app.asked_by_key(
            pressed(KeyCode::Char('q'), false),
        ) == AppAction::Nothing,
        !key.press ==> app.asked_by_key(key) == AppAction::Nothing && app.after_key(key) == app,
        key.press && !key.control && key.code != KeyCode::Char('q') && key.code != KeyCode::Char(
            'r',
        ) ==> app.asked_by_key(key) == AppAction::Nothing,
{
}

/// A key that no tab takes is the open screen's, and reaches no other.
pub proof fn law_the_other_keys_are_the_screens(app: AppView, code: KeyCode)
    requires
        takes_keys(app),
        code == KeyCode::Char('j') || code == KeyCode::Char('k') || code == KeyCode::Up || code
            == KeyCode::Down || code == KeyCode::PageUp || code == KeyCode::PageDown || code
            == KeyCode::Home || code == KeyCode::End || code == KeyCode::Char('S'),
    ensures
        ({
            let after = app.after_key(pressed(code, false));
            &&& after.screens[app.tab] == app.screens[app.tab].after_key(app.shell.focus, code)
            &&& after.tab == app.tab
            &&& after.shell == app.shell
        }),
{
}

/// Esc outside the box empties it.
pub proof fn law_escape_clears_the_filter(app: AppView)
    requires
        takes_keys(app),
    ensures
        app.after_key(pressed(KeyCode::Esc, false)).screens[app.tab].input.text.len() == 0,
        app.after_key(pressed(KeyCode::Esc, false)).tab == app.tab,
{
}

/// A click does what it landed on says: opens that tab, opens or closes the
/// help, goes into the box or clears it, goes to the details, and on a row
/// or a header to the table.
pub proof fn law_a_click_does_what_it_landed_on_says(
    app: AppView,
    tab: usize,
    row: usize,
    column: ColumnId,
)
    requires
        takes_keys(app),
    ensures
        tab < app.tabs.len() ==> app.after_click(Target::Tab(tab)).tab == tab,
        tab >= app.tabs.len() ==> app.after_click(Target::Tab(tab)).tab == app.tab,
        app.after_click(Target::Help).shell.help_open,
        !app.after_click(Target::Help).after_click(Target::Help).shell.help_open,
        app.after_click(Target::SearchField).shell.focus is Search,
        app.after_click(Target::SearchField).screens == app.screens,
        app.after_click(Target::ClearSearch).screens[app.tab].input.text.len() == 0,
        app.after_click(Target::Details).shell.focus is Details,
        app.after_click(Target::Row(row)).shell.focus is Table,
        app.after_click(Target::Row(row)).screens[app.tab]
            == app.screens[app.tab].after_click(Target::Row(row)),
        app.after_click(Target::Header(column)).screens[app.tab]
            == app.screens[app.tab].after_click(Target::Header(column)),
{
}

/// The mouse acts on what was drawn last under it: a press clicks it, and
/// the wheel turns it by three lines, up or down.
pub proof fn law_the_mouse_acts_on_what_is_under_it(app: AppView, event: MouseEvent)
    requires
        takes_keys(app),
    ensures
        ({
            let under = drawn_at(app.shell.regions, event.column as int, event.row as int);
            let screen = app.screens[app.tab];
            &&& event.kind is Down && under is Some ==> app.after_mouse(event) == app.after_click(
                under->0,
            )
            &&& event.kind is Down && under is None ==> app.after_mouse(event) == app
            &&& event.kind is ScrollDown ==> app.after_mouse(event).screens[app.tab]
                == screen.after_wheel(under, 3)
            &&& event.kind is ScrollUp ==> app.after_mouse(event).screens[app.tab]
                == screen.after_wheel(under, -3)
            &&& event.kind is ScrollDown || event.kind is ScrollUp ==> app.after_mouse(event).shell
                == app.shell
            &&& event.kind is Other ==> app.after_mouse(event) == app
        }),
{
}

/// A paste goes into the box at its caret, on one line, while the box has
/// the keys, and is dropped otherwise.
pub proof fn law_a_paste_goes_into_the_box(app: AppView, pasted: Seq<char>)
    requires
        0 <= app.tab < app.screens.len(),
        app.screens[app.tab].input.holds(),
    ensures
        !(app.shell.focus is Search) ==> app.after_paste(pasted) == app,
        app.shell.focus is Search ==> {
            let held = app.screens[app.tab].input;
            let after = app.after_paste(pasted).screens[app.tab].input;
            &&& after.text == held.text.take(held.cursor) + on_one_line(pasted) + held.text.skip(
                held.cursor,
            )
            &&& after.cursor == held.cursor + on_one_line(pasted).len()
        },
{
}

/// Rows that come in replace the rows of their tab, which is then filtered
/// again, and are not in the cache yet; a failure leaves the rows, the
/// screen and the cache alone, and so does a read that starts.
pub proof fn law_rows_that_come_in_are_shown_and_not_yet_kept(
    app: AppView,
    scope: int,
    pods: Seq<PodView>,
    message: Seq<char>,
    now: int,
)
    requires
        app.screens.len() == app.store.len() <= usize::MAX,
        0 <= scope < app.store.len(),
    ensures
        ({
            let read = app.after_event(EventView::Pods { scope, pods: Ok(pods) }, now);
            let failed = app.after_event(EventView::Pods { scope, pods: Err(message) }, now);
            let started = app.after_event(EventView::Reading(scope), now);
            &&& read.cache_dirty
            &&& read.store[scope].pods == pods
            &&& read.screens[scope] == app.screens[scope].refiltered(pods)
            &&& failed.cache_dirty == app.cache_dirty
            &&& failed.screens == app.screens
            &&& failed.store[scope].pods == app.store[scope].pods
            &&& started.cache_dirty == app.cache_dirty
            &&& started.screens == app.screens
            &&& started.store[scope].reading
            &&& started.store[scope].pods == app.store[scope].pods
            &&& read.shell == app.shell && failed.shell == app.shell && started.shell == app.shell
            &&& read.tab == app.tab
        }),
{
}

/// A tab over every namespace opens with the column that says which, and one
/// over a single namespace without it; every other column opens the same.
pub proof fn law_a_tab_over_every_namespace_says_which(
    tabs: Seq<TabView>,
    store: Seq<ScopeDataView>,
    at: int,
    column: int,
)
    requires
        0 <= at < tabs.len(),
        0 <= column < AppView::opened(tabs, store).screens[at].layout.len(),
    ensures
        ({
            let held: ColumnConfig = AppView::opened(tabs, store).screens[at].layout[column];
            &&& held.id == ColumnId::Namespace ==> held.visible == (
            tabs[at].scope.namespace is None)
            &&& held.id == ColumnId::Name || held.id == ColumnId::Ready || held.id
                == ColumnId::Status || held.id == ColumnId::Restarts || held.id == ColumnId::Age
                ==> held.visible
            &&& held.id == ColumnId::Node || held.id == ColumnId::Ip || held.id == ColumnId::Owner
                || held.id == ColumnId::Image ==> !held.visible
        }),
        AppView::opened(tabs, store).screens[at].sort == ColumnId::Name,
        !AppView::opened(tabs, store).screens[at].descending,
        AppView::opened(tabs, store).screens[at].cursor.index == 0,
        AppView::opened(tabs, store).shell.focus is Table,
        !AppView::opened(tabs, store).shell.help_open,
{
    reveal_with_fuel(crate::columns::place_of, 3);
    let layout = crate::columns::pods_open_with();
    assert(layout.skip(1)[0] == layout[1]);
}

/// What the status bar says of the open tab: its scope, and once it was read
/// how old that is; and that there is none where no cluster is configured.
pub proof fn law_the_status_bar_says_how_old_the_rows_are(app: AppView, now: int, read: int)
    requires
        0 <= app.tab < app.tabs.len() == app.store.len(),
    ensures
        app.store[app.tab].read_at is None ==> app.state(now) == "\u{25cf} "@
            + app.tabs[app.tab].scope.describe(),
        app.store[app.tab].read_at == Some(read) ==> app.state(now) == "\u{25cf} "@
            + app.tabs[app.tab].scope.describe() + " \u{b7} "@ + crate::timestamp::age_of(
            Some(read),
            now,
        ) + " old"@,
        (AppView { tabs: seq![], tab: 0, ..app }).state(now) == "no clusters configured"@,
{
}

/// With the list in focus `j` and the arrow down go a row down, `k` and the
/// arrow up a row up, as far as there are rows, and nothing is asked of the
/// run.
pub proof fn law_a_key_moves_the_screen(
    screen: &mut ScopeScreen,
    shell: &Shell,
    key: KeyEvent,
    action: AppAction,
)
    requires
        call_ensures(ScopeScreen::handle_key, (screen, shell, key), action),
        !(shell@.focus is Details),
        old(screen)@.cursor.index < old(screen)@.visible.len() <= isize::MAX,
    ensures
        ({
            let index = old(screen)@.cursor.index as int;
            let count = old(screen)@.visible.len();
            let after = final(screen)@.cursor.index as int;
            &&& key.code == KeyCode::Char('k') || key.code == KeyCode::Up ==> (index > 0 ==> after
                == index - 1) && (index == 0 ==> after == 0)
            &&& key.code == KeyCode::Char('j') || key.code == KeyCode::Down ==> (index + 1 < count
                ==> after == index + 1) && (index + 1 == count ==> after == index)
            &&& key.code == KeyCode::Home ==> after == 0
            &&& key.code == KeyCode::End ==> after == count - 1
        }),
        action is Nothing,
        final(screen)@.visible == old(screen)@.visible,
{
    law_the_keys_move_the_cursor(old(screen)@, shell@.focus);
    if key.code != KeyCode::Char('S') {
        law_moving_only_moves(old(screen)@, shell@.focus, key.code);
    }
}

/// A click on a row puts the cursor on it, and one on a header sorts by its
/// column.
pub proof fn law_a_click_moves_the_screen(
    screen: &mut ScopeScreen,
    row: usize,
    column: ColumnId,
    action: AppAction,
)
    ensures
        call_ensures(ScopeScreen::handle_click, (screen, Target::Row(row)), action) && row < old(
            screen
        )@.visible.len() ==> final(screen)@.cursor.index == row,
        call_ensures(ScopeScreen::handle_click, (screen, Target::Header(column)), action) && old(
            screen
        )@.sort != column ==> final(screen)@.sort == column && !final(screen)@.descending,
{
    law_a_click_goes_where_it_lands(old(screen)@, row, column);
}

/// The run's own keys: `q` and `Ctrl-C` quit, and `r` reads the open tab.
pub proof fn law_a_key_asks_the_run(app: &mut App, key: KeyEvent, action: AppAction)
    requires
        call_ensures(App::handle_key, (app, key), action),
        takes_keys(old(app)@),
        key.press,
    ensures
        key.control && key.code == KeyCode::Char('c') ==> action is Quit,
        !key.control && key.code == KeyCode::Char('q') ==> action is Quit,
        !key.control && key.code == KeyCode::Char('r') ==> action == AppAction::Send(
            Request::Refresh(old(app)@.tab as usize),
        ),
        !key.control && key.code == KeyCode::Char('?') ==> final(app)@.shell.help_open && action
            is Nothing,
        !key.control && key.code == KeyCode::Char('/') ==> final(app)@.shell.focus is Search
            && action is Nothing,
        final(app)@.store == old(app)@.store,
        final(app)@.tabs == old(app)@.tabs,
{
}

} // verus!
