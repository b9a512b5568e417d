use aks_tui::app::application::App;
use aks_tui::app::cursor::{ListCursor, ScrollState};
use aks_tui::app::rows::{asks_for, rows_of};
use aks_tui::app::scope::{query_of, ScopeScreen};
use aks_tui::app::screen::{AppAction, Target};
use aks_tui::app::shell::{Focus, Level, Shell};
use aks_tui::cache::Snapshot;
use aks_tui::columns::ColumnId;
use aks_tui::config::{Scope, Tab};
use aks_tui::input::{KeyCode, KeyEvent};
use aks_tui::kube::{Container, Event, Pod, PodKey, Request, DEFAULT_REFRESH};
use aks_tui::run::{
    copied, fast_refresh, not_saved, opening_store, poll_for, scopes_of, sent, told, Channel,
    Timers, CACHE_EVERY, RESTING, SETTLE, TURNING,
};
use aks_tui::store::{ScopeData, Store};
use aks_tui::text_input::{field_window, TextInput};
use aks_tui::timestamp::Timestamp;

fn pod(name: &str, status: &str, restarts: u32) -> Pod {
    Pod {
        key: PodKey {
            cluster: "qa".to_owned(),
            namespace: "dev".to_owned(),
            name: name.to_owned(),
        },
        status: status.to_owned(),
        ready: (1, 1),
        restarts,
        created: None,
        node: "node-1".to_owned(),
        ip: String::new(),
        owner: Some(("Deployment".to_owned(), "orders-api".to_owned())),
        containers: vec![Container {
            name: "api".to_owned(),
            image: "acr/orders:1".to_owned(),
            ready: true,
            restarts: 0,
            state: "Running".to_owned(),
            last_termination: None,
        }],
        labels: vec![("app".to_owned(), "Orders".to_owned())],
    }
}

fn pods() -> Vec<Pod> {
    vec![
        pod("c", "Running", 1),
        pod("a", "CrashLoopBackOff", 9),
        pod("b", "Running", 1),
    ]
}

fn data() -> ScopeData {
    ScopeData {
        pods: pods(),
        reads: 1,
        ..ScopeData::default()
    }
}

fn drawn() -> ScopeScreen {
    let mut screen = ScopeScreen::default();
    screen.refilter(&data());
    screen.note_width(120);
    screen
}

fn tab(namespace: &str) -> Tab {
    Tab {
        label: format!("qa/{namespace}"),
        scope: Scope {
            cluster: "qa".to_owned(),
            context: "aks-qa".to_owned(),
            namespace: Some(namespace.to_owned()),
        },
    }
}

#[test]
fn the_rows_are_those_asked_for_in_the_order_of_the_sort() {
    let pods = pods();
    let all = query_of("");
    assert_eq!(rows_of(&pods, &all, ColumnId::Name, false), [1, 2, 0]);
    assert_eq!(rows_of(&pods, &all, ColumnId::Name, true), [0, 2, 1]);
    assert_eq!(
        rows_of(&pods, &all, ColumnId::Restarts, false),
        [0, 2, 1],
        "what is equal stays as it came"
    );
    assert_eq!(
        rows_of(&pods, &query_of("status:CRASH"), ColumnId::Name, false),
        [1]
    );
    assert!(rows_of(&pods, &query_of("nothing"), ColumnId::Name, false).is_empty());
}

#[test]
fn every_word_and_filter_must_match() {
    let held = pod("orders-api-1", "Running", 0);
    for asked in ["", "ORDERS", "api-1 status:run", "app:orders node:NODE-1", "owner:orders"] {
        assert!(asks_for(&query_of(asked), &held), "{asked}");
    }
    for asked in ["workers", "orders status:crash", "node:node-2", "app:x"] {
        assert!(!asks_for(&query_of(asked), &held), "{asked}");
    }
}

#[test]
fn a_header_goes_round_in_three_clicks() {
    let mut screen = drawn();
    let header = Target::Header(ColumnId::Restarts);
    screen.handle_click(header);
    assert_eq!((screen.sort, screen.descending), (ColumnId::Restarts, false));
    screen.handle_click(header);
    assert_eq!((screen.sort, screen.descending), (ColumnId::Restarts, true));
    screen.handle_click(header);
    assert_eq!((screen.sort, screen.descending), (ColumnId::Name, false));
    assert_eq!(screen.status(3), "3 · Name ↑");
    screen.sort_by(ColumnId::Name);
    assert_eq!(screen.status(9), "3/9 · Name ↓");
}

#[test]
fn the_sort_goes_to_the_next_column_on_screen_and_round() {
    let mut screen = drawn();
    let mut seen = Vec::new();
    for _ in 0..5 {
        screen.next_sort();
        seen.push(screen.sort);
    }
    assert_eq!(
        seen,
        [
            ColumnId::Ready,
            ColumnId::Status,
            ColumnId::Restarts,
            ColumnId::Age,
            ColumnId::Name
        ]
    );
}

#[test]
fn the_keys_move_the_cursor_in_the_focused_pane() {
    let mut screen = drawn();
    let mut shell = Shell::default();
    let rows = data();
    assert_eq!(screen.selected(&rows).unwrap().key.name, "a");
    screen.handle_key(&shell, KeyEvent::new(KeyCode::Char('j')));
    assert_eq!(screen.selected(&rows).unwrap().key.name, "b");
    screen.handle_key(&shell, KeyEvent::new(KeyCode::End));
    assert_eq!(screen.cursor.index, 2);
    screen.handle_key(&shell, KeyEvent::new(KeyCode::Down));
    assert_eq!(screen.cursor.index, 2, "not past the end");
    screen.handle_key(&shell, KeyEvent::new(KeyCode::Home));
    assert_eq!(screen.cursor.index, 0);

    shell.focus = Focus::Details;
    screen.details_scroll.set_viewport(4, 10);
    screen.handle_key(&shell, KeyEvent::new(KeyCode::PageDown));
    assert_eq!((screen.cursor.index, screen.details_scroll.offset), (0, 3));
    let action = screen.handle_key(&shell, KeyEvent::new(KeyCode::End));
    assert_eq!(action, AppAction::Nothing);
    assert_eq!((screen.cursor.index, screen.details_scroll.offset), (0, 6));
    let action = screen.handle_key(&shell, KeyEvent::new(KeyCode::Home));
    assert_eq!(action, AppAction::Nothing);
    assert_eq!((screen.cursor.index, screen.details_scroll.offset), (0, 0));
    assert_eq!(screen.layout, drawn().layout);
    screen.handle_key(&shell, KeyEvent::new(KeyCode::PageDown));
    shell.focus = Focus::Table;
    let action = screen.handle_click(Target::Row(9));
    assert_eq!(action, AppAction::Nothing);
    assert_eq!((screen.cursor.index, screen.details_scroll.offset), (2, 0));
    assert!(ScopeScreen::default().selected(&rows).is_none());
    assert!(!screen.footer_hint(&shell).is_empty());
}

#[test]
fn the_wheel_scrolls_the_window_and_the_cursor_stays_in_it() {
    let mut screen = ScopeScreen::default();
    screen.visible = (0..100).collect();
    screen.cursor.window(10, 100);
    screen.handle_wheel(None, 3);
    assert_eq!((screen.cursor.scroll.offset, screen.cursor.index), (3, 3));
    screen.handle_wheel(Some(Target::Details), 3);
    assert_eq!(screen.cursor.scroll.offset, 3);
    screen.handle_wheel(None, -3);
    assert_eq!((screen.cursor.scroll.offset, screen.cursor.index), (0, 3));
}

#[test]
fn a_window_holds_the_row_under_the_cursor() {
    let mut cursor = ListCursor::default();
    assert_eq!(cursor.window(10, 100), (0, 10));
    cursor.move_by(25, 100);
    assert_eq!(cursor.window(10, 100), (16, 26));
    cursor.page(true, 100);
    assert_eq!(cursor.index, 34);
    cursor.page(false, 100);
    cursor.focus(99);
    assert_eq!(cursor.window(10, 100), (90, 100));
    assert_eq!(cursor.window(10, 5), (0, 5));
    cursor.move_by(-500, 100);
    assert_eq!(cursor.index, 0);

    let mut scroll = ScrollState::default();
    assert_eq!(scroll.page_step(), 1);
    scroll.set_viewport(5, 20);
    scroll.scroll_by(100);
    assert_eq!(scroll.offset, 15);
    scroll.scroll_by(-1);
    assert_eq!(scroll.offset, 14);
    scroll.scroll_to(3);
    assert_eq!(scroll.offset, 3);
    assert_eq!(scroll.page_step(), 4);
}

#[test]
fn a_field_takes_keys_at_its_caret() {
    let mut input = TextInput::new("ab");
    assert_eq!(input.cursor(), 2);
    input.handle_key(KeyEvent::new(KeyCode::Left));
    input.handle_key(KeyEvent::new(KeyCode::Char('é')));
    assert_eq!(input.text(), "aéb");
    input.handle_key(KeyEvent::new(KeyCode::Backspace));
    assert_eq!((input.text(), input.cursor()), ("ab", 1));
    input.handle_key(KeyEvent::new(KeyCode::Delete));
    assert_eq!(input.text(), "a");
    input.handle_key(KeyEvent::new(KeyCode::Home));
    input.handle_key(KeyEvent::new(KeyCode::Backspace));
    input.paste("x\r\ny");
    assert_eq!((input.text(), input.cursor()), ("xya", 2));
    input.handle_key(KeyEvent::new(KeyCode::End));
    assert_eq!(input.cursor(), 3);
    assert_eq!(input.clone(), input);
    input.clear();
    assert!(input.is_empty());
    assert_eq!(field_window(3, 10), (0, 3));
    assert_eq!(field_window(10, 10), (1, 9));
    assert_eq!(field_window(4, 0), (4, 0));
}

#[test]
fn a_layout_is_written_once_it_has_stopped_moving() {
    let mut timers = Timers::new(false, "a", 0);
    assert!(!timers.layout_due("b", 0));
    assert!(!timers.layout_due("b", SETTLE - 1));
    assert!(!timers.layout_due("c", SETTLE), "it moved again");
    assert!(!timers.layout_due("c", SETTLE * 2 - 1));
    assert!(timers.layout_due("c", SETTLE * 2));
    assert!(!timers.layout_due("c", SETTLE * 3), "once");
    assert!(!timers.layout_due("d", SETTLE * 3));
    assert!(!timers.layout_due("c", SETTLE * 9), "back as it was written");
    assert!(!timers.layout_due("d", SETTLE * 9));
}

#[test]
fn the_cache_is_written_now_and_then_and_with_the_run() {
    let mut app = App::new(vec![tab("dev")]);
    let mut timers = Timers::new(false, "", 0);
    assert!(timers.cache_due(&mut app, CACHE_EVERY).is_none(), "it has every row");
    assert!(timers.cache_on_quit(&app).is_none());
    told(
        &mut app,
        Event::Pods {
            scope: 0,
            pods: Ok(pods()),
        },
    );
    assert!(timers.cache_due(&mut app, CACHE_EVERY - 1).is_none());
    assert_eq!(timers.cache_on_quit(&app).unwrap().scopes.len(), 1);
    let written = timers.cache_due(&mut app, CACHE_EVERY).unwrap();
    assert_eq!(written.scopes[0].pods.len(), 3);
    assert!(!app.cache_dirty);
    app.cache_dirty = true;
    assert!(timers.cache_due(&mut app, CACHE_EVERY + 1).is_none());

    let mut without = Timers::new(true, "", 0);
    assert!(without.cache_due(&mut app, CACHE_EVERY * 2).is_none());
    assert!(without.cache_on_quit(&app).is_none());
}

#[test]
fn the_worker_is_told_each_tab_that_comes_on_screen_once() {
    let mut app = App::new(vec![tab("dev"), tab("qa")]);
    let mut timers = Timers::new(false, "", 0);
    assert_eq!(timers.tab_shown(&app), Some(Request::Showing(0)));
    assert_eq!(timers.tab_shown(&app), None);
    app.tab = 1;
    assert_eq!(timers.tab_shown(&app), Some(Request::Showing(1)));
    assert_eq!(Timers::new(false, "", 0).tab_shown(&App::new(Vec::new())), None);
}

#[test]
fn what_the_run_has_to_say_is_in_the_status_bar() {
    let mut app = App::new(vec![tab("dev")]);
    told(&mut app, Event::Stopped);
    assert_eq!(
        app.shell.notification(),
        Some(("the cluster worker stopped; restart aks-tui", Level::Error))
    );
    told(&mut app, Event::Reading(0));
    assert!(app.store.reading());
    let shell = &mut app.shell;
    copied(shell, "Copied a", &Ok(Channel::Command));
    assert_eq!(shell.notification(), Some(("Copied a", Level::Info)));
    copied(shell, "Copied a", &Ok(Channel::Terminal));
    assert_eq!(
        shell.notification(),
        Some(("Copied a · sent to the terminal (OSC 52)", Level::Info))
    );
    copied(shell, "Copied a", &Err("no".to_owned()));
    assert_eq!(shell.notification(), Some(("no", Level::Error)));
    sent(shell, &Ok(()));
    assert_eq!(shell.notification(), Some(("no", Level::Error)));
    sent(shell, &Err("gone".to_owned()));
    assert_eq!(shell.notification(), Some(("gone", Level::Error)));
    not_saved(shell, "cache", "full");
    assert_eq!(
        shell.notification(),
        Some(("could not save the cache: full", Level::Error))
    );
}

#[test]
fn a_run_opens_from_the_cache_unless_it_is_told_not_to() {
    let tabs = vec![tab("dev"), tab("qa")];
    let mut store = Store::new(2);
    store.apply(Event::Pods {
        scope: 1,
        pods: Ok(pods()),
    });
    let snapshot: Option<Snapshot> = Some(store.snapshot(&tabs));
    assert_eq!(opening_store(false, &snapshot, &tabs).scopes[1].pods.len(), 3);
    assert!(opening_store(true, &snapshot, &tabs).scopes[1].pods.is_empty());
    assert_eq!(opening_store(false, &None, &tabs).scopes.len(), 2);
    assert_eq!(scopes_of(&tabs)[1], tabs[1].scope);
    assert_eq!(fast_refresh(None), DEFAULT_REFRESH);
    assert_eq!(fast_refresh(Some(3)), 3_000_000_000);
    assert_eq!((poll_for(true), poll_for(false)), (TURNING, RESTING));
}

#[test]
fn a_read_comes_to_the_pane_through_the_run() {
    let mut app = App::new(vec![tab("dev")]);
    let before = Timestamp::now();
    told(
        &mut app,
        Event::Pods {
            scope: 0,
            pods: Ok(pods()),
        },
    );
    assert!(app.cache_dirty);
    assert_eq!(app.screens[0].visible().len(), 3);
    assert!(app.store.scopes[0].read_at.unwrap().seconds() >= before.seconds());
}
