//! What holds of the application as a whole, whatever was pressed.

use vstd::prelude::*;

use crate::config::TabView;
use crate::input::{KeyCode, KeyEvent, MouseEvent};
use crate::session::{
    law_what_is_kept_of_a_tab_is_found, SessionColumnView, SessionTabView, SessionView,
};
use crate::columns::{ColumnConfig, ColumnId};
use crate::store::ScopeDataView;
use crate::text_input::TextInputView;

use super::application::{entry_of, labelled, screen_with, AppView};
use super::layout::{
    all_differ, law_a_sort_comes_back_as_it_went, law_columns_come_back_as_they_went,
    same_columns, with_entries,
};
use super::scope::ScopeScreenView;

verus! {

/// There is one screen a tab, and one of the tabs is open, where there is
/// any.
pub open spec fn is_whole(app: AppView) -> bool {
    &&& app.screens.len() == app.tabs.len()
    &&& 0 <= app.tab
    &&& app.tab < app.tabs.len() || (app.tabs.len() == 0 && app.tab == 0)
}

/// No key, click or paste opens a tab that is not there, and none makes or
/// loses a screen.
pub proof fn law_an_open_tab_is_always_there(
    app: AppView,
    key: KeyEvent,
    event: MouseEvent,
    pasted: Seq<char>,
)
    requires
        is_whole(app),
    ensures
        is_whole(app.after_key(key)),
        is_whole(app.after_mouse(event)),
        is_whole(app.after_paste(pasted)),
        app.after_key(key).tabs == app.tabs,
        app.after_mouse(event).tabs == app.tabs,
        app.after_paste(pasted).tabs == app.tabs,
{
}

/// An application opens whole.
pub proof fn law_an_application_opens_on_its_first_tab(
    tabs: Seq<TabView>,
    store: Seq<ScopeDataView>,
)
    ensures
        is_whole(AppView::opened(tabs, store)),
        AppView::opened(tabs, store).tab == 0,
{
}

/// Each tab keeps its own search box, sort and cursor: what is pressed,
/// clicked or pasted changes no screen but the one that was open.
pub proof fn law_each_tab_keeps_its_own_screen(
    app: AppView,
    key: KeyEvent,
    event: MouseEvent,
    pasted: Seq<char>,
    other: int,
)
    requires
        0 <= other < app.screens.len(),
        other != app.tab,
    ensures
        app.after_key(key).screens[other] == app.screens[other],
        app.after_mouse(event).screens[other] == app.screens[other],
        app.after_paste(pasted).screens[other] == app.screens[other],
{
}

/// Going to another tab and back leaves every screen as it was.
pub proof fn law_a_tab_comes_back_as_it_was(app: AppView, other: int)
    requires
        is_whole(app),
    ensures
        app.on_tab(other).on_tab(app.tab).screens == app.screens,
        app.on_tab(other).on_tab(app.tab).tab == app.tab,
{
}

/// `]` and then `[` is where it was, and so is `[` and then `]`.
pub proof fn law_a_step_there_and_back_is_no_step(app: AppView)
    requires
        is_whole(app),
        app.tabs.len() > 0,
    ensures
        app.stepped(1).stepped(-1).tab == app.tab,
        app.stepped(-1).stepped(1).tab == app.tab,
{
    let count = app.tabs.len() as int;
    vstd::arithmetic::div_mod::lemma_small_mod(app.tab as nat, count as nat);
    if app.tab + 1 < count {
        vstd::arithmetic::div_mod::lemma_small_mod((app.tab + 1) as nat, count as nat);
    } else {
        vstd::arithmetic::div_mod::lemma_mod_self_0(count);
    }
    if app.tab > 0 {
        vstd::arithmetic::div_mod::lemma_small_mod((app.tab - 1) as nat, count as nat);
    } else {
        vstd::arithmetic::div_mod::lemma_mod_add_multiples_vanish(-1, count);
        vstd::arithmetic::div_mod::lemma_small_mod((count - 1) as nat, count as nat);
        assert((-1int) % count == count - 1);
    }
    vstd::arithmetic::div_mod::lemma_mod_add_multiples_vanish(-1, count);
    vstd::arithmetic::div_mod::lemma_small_mod((count - 1) as nat, count as nat);
    vstd::arithmetic::div_mod::lemma_mod_self_0(count);
    vstd::arithmetic::div_mod::lemma_small_mod(0, count as nat);
}

/// From the table a number opens the tab of that number, if there is one,
/// and nothing else happens.
pub proof fn law_a_number_opens_its_tab(app: AppView, number: int)
    requires
        1 <= number <= 9,
        !app.shell.help_open,
        app.shell.focus is Table,
    ensures
        ({
            let key = KeyEvent {
                code: KeyCode::Char(('0' as int + number) as char),
                control: false,
                press: true,
            };
            app.after_key(key) == if number <= app.tabs.len() {
                AppView { tab: number - 1, ..app }
            } else {
                app
            }
        }),
{
}

/// What is typed stays when the box is left, and the next `Esc` clears it.
pub proof fn law_the_second_escape_clears_the_box(app: AppView)
    requires
        app.has_screen(),
        !app.shell.help_open,
        app.shell.focus is Search,
    ensures
        ({
            let escape = KeyEvent { code: KeyCode::Esc, control: false, press: true };
            let once = app.after_key(escape);
            let twice = once.after_key(escape);
            &&& once.shell.focus is Table
            &&& once.screens[app.tab].input == app.screens[app.tab].input
            &&& twice.screens[app.tab].input == TextInputView::empty()
        }),
{
}

/// The session has the open tab, and each tab's sort and columns: two
/// applications that agree on those have the same session, whatever is typed
/// in the search boxes and wherever the cursors are.
pub proof fn law_a_session_holds_only_the_layout(a: AppView, b: AppView)
    requires
        a.tabs == b.tabs,
        a.tab == b.tab,
        a.screens.len() == b.screens.len(),
        forall|k: int|
            0 <= k < a.screens.len() ==> {
                &&& (#[trigger] a.screens[k]).sort == b.screens[k].sort
                &&& a.screens[k].descending == b.screens[k].descending
                &&& a.screens[k].layout == b.screens[k].layout
            },
    ensures
        a.session() == b.session(),
{
    lemma_same_session(a, b, a.paired());
}

proof fn lemma_same_session(a: AppView, b: AppView, count: nat)
    requires
        a.tabs == b.tabs,
        a.tab == b.tab,
        count <= a.screens.len(),
        a.screens.len() == b.screens.len(),
        forall|k: int|
            0 <= k < a.screens.len() ==> {
                &&& (#[trigger] a.screens[k]).sort == b.screens[k].sort
                &&& a.screens[k].descending == b.screens[k].descending
                &&& a.screens[k].layout == b.screens[k].layout
            },
    ensures
        a.session_among(count) == b.session_among(count),
    decreases count,
{
    if count > 0 {
        lemma_same_session(a, b, (count - 1) as nat);
        assert(entry_of(a.screens[count - 1]) == entry_of(b.screens[count - 1]));
    }
}

proof fn lemma_session_entry(app: AppView, count: nat, index: int)
    requires
        0 <= index < count,
        count <= app.paired(),
        forall|k: int|
            index < k < count ==> (#[trigger] app.tabs[k]).label != app.tabs[index].label,
    ensures
        app.session_among(count).of_tab(app.tabs[index].label) == Some(
            entry_of(app.screens[index]),
        ),
    decreases count,
{
    let before = app.session_among((count - 1) as nat);
    law_what_is_kept_of_a_tab_is_found(
        before,
        app.tabs[count - 1].label,
        entry_of(app.screens[count - 1]),
        app.tabs[index].label,
    );
    if index < count - 1 {
        lemma_session_entry(app, (count - 1) as nat, index);
        assert(app.tabs[count - 1].label != app.tabs[index].label);
    }
}

proof fn lemma_session_tab(app: AppView, count: nat)
    ensures
        app.session_among(count).tab == app.session_among(0).tab,
    decreases count,
{
    if count > 0 {
        lemma_session_tab(app, (count - 1) as nat);
    }
}

proof fn lemma_labelled(tabs: Seq<TabView>, place: int)
    requires
        0 <= place < tabs.len(),
        forall|k: int| 0 <= k < place ==> (#[trigger] tabs[k]).label != tabs[place].label,
    ensures
        labelled(tabs, tabs[place].label) == place,
    decreases place,
{
    if place > 0 {
        assert(tabs[0].label != tabs[place].label);
        let rest = tabs.skip(1);
        assert forall|k: int| 0 <= k < place - 1 implies (#[trigger] rest[k]).label
            != rest[place - 1].label by {
            assert(rest[k] == tabs[k + 1]);
        }
        lemma_labelled(rest, place - 1);
    }
}

/// A layout survives a round trip through the file by the tab's label: a tab
/// of the next run takes the sort and the columns that the tab of the same
/// label had, wherever either of them stands. Where two tabs of one run
/// share a label the file has the last of them.
pub proof fn law_a_layout_survives_the_file_by_label(
    app: AppView,
    next: AppView,
    index: int,
    place: int,
)
    requires
        is_whole(app),
        is_whole(next),
        0 <= index < app.tabs.len(),
        0 <= place < next.tabs.len(),
        next.tabs[place].label == app.tabs[index].label,
        forall|k: int|
            index < k < app.tabs.len() ==> (#[trigger] app.tabs[k]).label
                != app.tabs[index].label,
        same_columns(next.screens[place].layout, app.screens[index].layout),
        all_differ(app.screens[index].layout),
    ensures
        ({
            let after = next.restored(app.session()).screens[place];
            &&& after.sort == app.screens[index].sort
            &&& after.descending == app.screens[index].descending
            &&& after.layout == app.screens[index].layout
            &&& after.input == next.screens[place].input
            &&& after.cursor == next.screens[place].cursor
        }),
{
    lemma_session_entry(app, app.paired(), index);
    law_a_sort_comes_back_as_it_went(app.screens[index].sort, app.screens[index].descending);
    law_columns_come_back_as_they_went(next.screens[place].layout, app.screens[index].layout);
}

/// The next run opens on the first tab of the label that was open.
pub proof fn law_the_open_tab_survives_the_file_by_label(app: AppView, next: AppView, place: int)
    requires
        is_whole(app),
        app.tabs.len() > 0,
        0 <= place < next.tabs.len(),
        next.tabs[place].label == app.tabs[app.tab].label,
        forall|k: int|
            0 <= k < place ==> (#[trigger] next.tabs[k]).label != next.tabs[place].label,
    ensures
        next.restored(app.session()).tab == place,
{
    lemma_session_tab(app, app.paired());
    lemma_labelled(next.tabs, place);
}

proof fn lemma_unknown_columns(columns: Seq<ColumnConfig>, stored: Seq<SessionColumnView>)
    requires
        forall|k: int|
            0 <= k < stored.len() ==> ColumnId::named((#[trigger] stored[k]).key) is None,
    ensures
        with_entries(columns, stored) == columns,
    decreases stored.len(),
{
    if stored.len() > 0 {
        let before = stored.drop_last();
        assert forall|k: int| 0 <= k < before.len() implies ColumnId::named(
            (#[trigger] before[k]).key,
        ) is None by {
            assert(before[k] == stored[k]);
        }
        lemma_unknown_columns(columns, before);
    }
}

/// A sort or a column that this build does not know is skipped: a tab of
/// which the file has nothing else stays as it is.
pub proof fn law_what_is_not_known_is_skipped(screen: ScopeScreenView, held: SessionTabView)
    requires
        held.sort matches Some(sort) ==> ColumnId::named(sort.0) is None,
        forall|k: int|
            0 <= k < held.columns.len() ==> ColumnId::named(
                (#[trigger] held.columns[k]).key,
            ) is None,
    ensures
        screen_with(screen, held) == screen,
{
    lemma_unknown_columns(screen.layout, held.columns);
}

proof fn lemma_not_labelled(tabs: Seq<TabView>, label: Seq<char>)
    requires
        forall|k: int| 0 <= k < tabs.len() ==> (#[trigger] tabs[k]).label != label,
    ensures
        labelled(tabs, label) == tabs.len(),
    decreases tabs.len(),
{
    if tabs.len() > 0 {
        assert(tabs[0].label != label);
        assert forall|k: int| 0 <= k < tabs.skip(1).len() implies (
        #[trigger] tabs.skip(1)[k]).label != label by {
            assert(tabs.skip(1)[k] == tabs[k + 1]);
        }
        lemma_not_labelled(tabs.skip(1), label);
    }
}

/// A tab that this run does not have leaves the open one open.
pub proof fn law_an_unknown_tab_is_skipped(app: AppView, session: SessionView)
    requires
        session.tab matches Some(label) ==> forall|k: int|
            0 <= k < app.tabs.len() ==> (#[trigger] app.tabs[k]).label != label,
    ensures
        app.restored(session).tab == app.tab,
{
    if let Some(label) = session.tab {
        lemma_not_labelled(app.tabs, label);
    }
}

} // verus!
