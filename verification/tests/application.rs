use aks_tui::app::application::App;
use aks_tui::app::keys::keys;
use aks_tui::app::screen::{AppAction, Target};
use aks_tui::app::shell::Focus;
use aks_tui::columns::ColumnId;
use aks_tui::config::{ClusterConfig, Config, Tab};
use aks_tui::input::{KeyCode, KeyEvent, MouseEvent, MouseKind};
use aks_tui::kube::{Event, Pod, PodKey, Request};
use aks_tui::session::{Session, SessionColumn};
use aks_tui::store::Store;
use aks_tui::timestamp::Timestamp;
use aks_tui::ui::frame::{has_room, tab_labels, MIN_HEIGHT, MIN_WIDTH, NO_CLUSTERS};
use aks_tui::ui::paint::{Rect, Tone};
use aks_tui::ui::render::PaneDrawn;

const TWO_CLUSTERS: &str = r#"
[[clusters]]
name = "qa"
context = "aks-qa"
namespaces = ["dev", "qa", "uat"]

[[clusters]]
name = "prod"
namespaces = ["prod"]
"#;

fn parse(text: &str) -> Config {
    let table: toml::Table = toml::from_str(text).unwrap();
    let mut config = Config::default();
    if let Some(clusters) = table.get("clusters").and_then(toml::Value::as_array) {
        for cluster in clusters {
            let text = |key: &str| cluster.get(key).and_then(toml::Value::as_str);
            config.clusters.push(ClusterConfig {
                name: text("name").unwrap().to_owned(),
                context: text("context").map(str::to_owned),
                namespaces: cluster
                    .get("namespaces")
                    .and_then(toml::Value::as_array)
                    .map(|names| {
                        names
                            .iter()
                            .map(|name| name.as_str().unwrap().to_owned())
                            .collect()
                    })
                    .unwrap_or_default(),
            });
        }
    }
    config
}

fn two_clusters() -> App {
    App::new(parse(TWO_CLUSTERS).tabs())
}

fn press(app: &mut App, code: KeyCode) -> AppAction {
    app.handle_key(KeyEvent::new(code))
}

fn click(app: &mut App, column: u16, row: u16) -> AppAction {
    app.handle_mouse(MouseEvent {
        kind: MouseKind::Down,
        column,
        row,
    })
}

fn pod(name: &str, status: &str) -> Pod {
    Pod {
        key: PodKey {
            cluster: "qa".to_owned(),
            namespace: "dev".to_owned(),
            name: name.to_owned(),
        },
        status: status.to_owned(),
        ready: (1, 1),
        restarts: 0,
        created: None,
        node: String::new(),
        ip: String::new(),
        owner: None,
        containers: Vec::new(),
        labels: Vec::new(),
    }
}

fn now() -> Timestamp {
    Timestamp::parse("2026-08-30T10:00:00Z").unwrap()
}

/// Everything that a frame says.
fn frame_text(app: &mut App, width: u16, height: u16) -> String {
    let drawn = app.render(Rect::new(0, 0, width, height), 0, None, now()).unwrap();
    let mut said = vec![drawn.bar.line.text()];
    match &drawn.tab {
        Some(tab) => {
            for pane in &tab.panes {
                match pane {
                    PaneDrawn::Table(_, table) => said.push(table.title.clone()),
                    PaneDrawn::Details(_, pane) => {
                        said.extend(pane.lines.iter().map(|line| line.text()));
                    }
                }
            }
        }
        None => said.push(NO_CLUSTERS.to_owned()),
    }
    said.push(drawn.status.left.text.clone());
    said.extend(drawn.status.right.iter().map(|(_, text)| text.clone()));
    said.join("\n")
}

#[test]
fn every_key_says_what_it_does_and_the_widest_column_stays_narrow() {
    for key in keys() {
        assert!(!key.keys.is_empty() && !key.does.is_empty());
        assert!(
            key.keys.chars().count() <= 12,
            "the help's left column is 12 wide: {:?}",
            key.keys
        );
    }
}

#[test]
fn a_tab_is_reached_by_number_by_bracket_and_by_click() {
    let mut app = two_clusters();
    assert_eq!(app.tab, 0);
    press(&mut app, KeyCode::Char('3'));
    assert_eq!(app.tabs[app.tab].label, "qa/uat");
    press(&mut app, KeyCode::Char('9'));
    assert_eq!(app.tab, 2, "a number with no tab does nothing");
    press(&mut app, KeyCode::Char(']'));
    press(&mut app, KeyCode::Char(']'));
    assert_eq!(app.tab, 0, "round the end");
    press(&mut app, KeyCode::Char('['));
    assert_eq!(app.tabs[app.tab].label, "prod");
    press(&mut app, KeyCode::Left);
    assert_eq!(app.tab, 2);

    app.shell.begin_frame();
    app.shell.region(Rect::new(0, 0, 8, 1), Target::Tab(1));
    click(&mut app, 2, 0);
    assert_eq!(app.tab, 1);
}

#[test]
fn each_tab_keeps_its_own_search_box() {
    let mut app = two_clusters();
    app.shell.focus = Focus::Search;
    app.handle_paste("orders");
    press(&mut app, KeyCode::Esc);
    assert_eq!(app.screens[0].input.text(), "orders");
    press(&mut app, KeyCode::Char('2'));
    assert!(
        app.screens[1].input.is_empty(),
        "the other tab's box is its own"
    );
    press(&mut app, KeyCode::Char('1'));
    assert_eq!(
        app.screens[0].input.text(),
        "orders",
        "and comes back as it was"
    );
    press(&mut app, KeyCode::Esc);
    assert!(
        app.screens[0].input.is_empty(),
        "Esc out of the table clears it"
    );
}

#[test]
fn a_layout_survives_a_round_trip_through_the_file_by_the_tabs_label() {
    let mut app = two_clusters();
    app.tab = 3;
    app.screens[3].sort = ColumnId::Age;
    app.screens[3].descending = true;
    app.screens[3].layout.columns[0].width = 20;
    app.screens[0].layout.set_visible(ColumnId::Node, true);

    let session = app.session();
    let mut fresh = two_clusters();
    fresh.restore(&session);

    assert_eq!(fresh.tabs[fresh.tab].label, "prod");
    assert_eq!(fresh.screens[3].sort, ColumnId::Age);
    assert!(fresh.screens[3].descending);
    assert_eq!(fresh.screens[3].layout.columns[0].width, 20);
    assert!(fresh.screens[0]
        .layout
        .columns
        .iter()
        .any(|c| c.id == ColumnId::Node && c.visible));
    assert!(!fresh.screens[1]
        .layout
        .columns
        .iter()
        .any(|c| c.id == ColumnId::Node && c.visible));

    let written = format!("{session:?}");
    assert!(!written.contains("cursor"), "{written}");
    assert!(!written.contains("query"), "{written}");
}

#[test]
fn a_tab_or_column_this_build_does_not_know_is_skipped_rather_than_fatal() {
    let mut session = Session {
        tab: Some("staging/blue".into()),
        ..Session::default()
    };
    let held = session.tab("qa/dev");
    held.sort = Some(("from_the_future".into(), "asc".into()));
    held.columns = vec![SessionColumn {
        key: "from_the_future".into(),
        width: Some(9),
        visible: Some(false),
    }];
    let mut app = two_clusters();
    let before = app.screens[0].layout.clone();
    app.restore(&session);
    assert_eq!(app.tab, 0, "an unknown tab is the first one");
    assert_eq!(app.screens[0].sort, ColumnId::Name);
    assert_eq!(app.screens[0].layout, before);
}

#[test]
fn a_tab_over_every_namespace_shows_which_one_a_pod_is_in() {
    let app = App::new(parse("[[clusters]]\nname = \"lab\"\n").tabs());
    let namespace = app.screens[0]
        .layout
        .columns
        .iter()
        .find(|column| column.id == ColumnId::Namespace)
        .unwrap();
    assert!(namespace.visible);
    let app = two_clusters();
    assert!(!app.screens[0]
        .layout
        .columns
        .iter()
        .any(|c| c.id == ColumnId::Namespace && c.visible));
}

#[test]
fn no_clusters_at_all_is_a_message_not_a_panic() {
    let mut app = App::new(Vec::new());
    press(&mut app, KeyCode::Char('1'));
    press(&mut app, KeyCode::Char(']'));
    press(&mut app, KeyCode::Char('j'));
    assert!(app.session().tab.is_none());
    assert!(tab_labels(&app).is_empty());
    let drawn = frame_text(&mut app, 100, 20);
    assert!(drawn.contains("No clusters configured"), "{drawn}");
    assert_eq!(press(&mut app, KeyCode::Char('r')), AppAction::Nothing);
    assert_eq!(press(&mut app, KeyCode::Char('q')), AppAction::Quit);
}

#[test]
fn a_frame_names_every_tab_and_the_open_tabs_scope() {
    let mut app = two_clusters();
    app.tab = 1;
    let drawn = frame_text(&mut app, 120, 20);
    assert!(drawn.contains("1 qa/dev"), "{drawn}");
    assert!(drawn.contains("4 prod"), "{drawn}");
    assert!(drawn.contains("Pods"), "{drawn}");
    assert!(drawn.contains("● qa/qa"), "{drawn}");
    assert!(drawn.contains("Reading qa/qa"), "{drawn}");
}

#[test]
fn a_frame_that_is_too_small_shows_nothing_and_changes_nothing() {
    let mut app = two_clusters();
    app.shell.region(Rect::new(0, 0, 8, 1), Target::Tab(1));
    assert!(app.render(Rect::new(0, 0, 39, 20), 0, None, now()).is_none());
    assert!(app.render(Rect::new(0, 0, 120, 9), 0, None, now()).is_none());
    assert_eq!(app.shell.regions.len(), 1);
}

#[test]
fn a_frame_resolves_clicks_on_what_it_drew() {
    let mut app = two_clusters();
    app.apply_at(
        Event::Pods {
            scope: 0,
            pods: Ok(vec![pod("b", "Running"), pod("a", "CrashLoopBackOff")]),
        },
        now(),
    );
    app.render(Rect::new(0, 0, 120, 20), 0, None, now()).unwrap();
    assert_eq!(app.shell.hit(2, 0), Some(&Target::Tab(0)));
    assert_eq!(app.shell.hit(4, 1), Some(&Target::SearchField));
    assert_eq!(app.shell.hit(4, 3), Some(&Target::Header(ColumnId::Name)));
    assert_eq!(app.shell.hit(4, 5), Some(&Target::Row(1)));
    assert_eq!(app.shell.hit(100, 15), Some(&Target::Details));
    click(&mut app, 4, 5);
    assert_eq!(app.screens[0].cursor.index, 1);

    press(&mut app, KeyCode::Char('?'));
    let drawn = app.render(Rect::new(0, 0, 120, 20), 0, None, now()).unwrap();
    assert!(drawn.help.is_some());
    for (column, row) in [(0, 0), (4, 5), (119, 19)] {
        assert_eq!(app.shell.hit(column, row), Some(&Target::Help));
    }
    click(&mut app, 4, 5);
    assert!(!app.shell.help_open);
}

#[test]
fn a_frame_changes_nothing_but_what_is_drawn() {
    let mut app = two_clusters();
    app.shell.set_status("Copied");
    app.shell.focus = Focus::Details;
    app.screens[0].input.set_text("x");
    app.render(Rect::new(0, 0, 60, 20), 0, None, now()).unwrap();
    assert_eq!(app.shell.focus, Focus::Details);
    assert_eq!(app.shell.notification().unwrap().0, "Copied");
    assert_eq!(app.screens[0].input.text(), "x");
    assert_eq!((app.tab, app.cache_dirty), (0, false));
}

#[test]
fn a_spinner_turns_while_a_read_runs() {
    let mut app = two_clusters();
    assert_eq!(app.right_end(120, now()), "● qa/dev");
    app.apply_at(Event::Reading(1), now());
    assert_eq!(app.right_end(120, now()), "◓ ● qa/dev");
}

#[test]
fn the_status_bar_says_how_old_the_rows_are() {
    let mut app = two_clusters();
    let read = Timestamp::parse("2026-08-30T09:55:00Z").unwrap();
    let pods = Ok(vec![pod("a", "Running")]);
    app.apply_at(Event::Pods { scope: 0, pods }, read);
    assert_eq!(app.store_state(now()), "● qa/dev · 5m old");
    assert_eq!(app.right_end(0, now()), "● qa/dev · 5m old");
    let tabs = two_clusters().tabs;
    let store = Store::from_cache(&app.store.snapshot(&app.tabs), &tabs);
    let again = App::with_store(tabs, store);
    let later = Timestamp::parse("2026-08-31T09:55:00Z").unwrap();
    assert_eq!(again.right_end(0, later), "● qa/dev · 1d old");
}

#[test]
fn the_right_end_is_an_error_where_there_is_no_tab() {
    assert_eq!(two_clusters().right_tone(), Tone::Muted);
    let none = App::with_store(Vec::new(), Store::new(0));
    assert_eq!(none.right_tone(), Tone::Error);
}

#[test]
fn a_paste_lands_in_the_search_box_and_nowhere_else() {
    let mut app = two_clusters();
    assert_eq!(app.handle_paste("orders"), AppAction::Nothing);
    assert!(app.screens[0].input.is_empty(), "nobody is typing");
    press(&mut app, KeyCode::Char('/'));
    assert_eq!(app.shell.focus, Focus::Search);
    app.handle_paste("two\nlines");
    assert_eq!(app.screens[0].input.text(), "twolines", "the box is one line");
    press(&mut app, KeyCode::Char('q'));
    assert_eq!(app.screens[0].input.text(), "twolinesq", "q is typed here");
    app.handle_key(KeyEvent {
        code: KeyCode::Char('u'),
        control: true,
        press: true,
    });
    assert!(app.screens[0].input.is_empty());
    assert_eq!(
        app.handle_key(KeyEvent {
            code: KeyCode::Char('c'),
            control: true,
            press: true,
        }),
        AppAction::Quit
    );
}

#[test]
fn the_refresh_key_asks_for_the_open_tab() {
    let mut app = two_clusters();
    press(&mut app, KeyCode::Char('2'));
    assert_eq!(
        press(&mut app, KeyCode::Char('r')),
        AppAction::Send(Request::Refresh(1))
    );
    let released = KeyEvent {
        press: false,
        ..KeyEvent::new(KeyCode::Char('q'))
    };
    assert_eq!(app.handle_key(released), AppAction::Nothing);
}

#[test]
fn any_key_puts_the_help_away() {
    let mut app = two_clusters();
    press(&mut app, KeyCode::Char('?'));
    assert!(app.shell.help_open);
    assert_eq!(press(&mut app, KeyCode::Esc), AppAction::Nothing);
    assert!(!app.shell.help_open);
}

#[test]
fn what_was_drawn_last_is_what_a_click_lands_on() {
    let mut app = two_clusters();
    app.shell.region(Rect::new(0, 0, 10, 10), Target::Tab(1));
    app.shell.region(Rect::new(2, 2, 2, 2), Target::SearchField);
    assert_eq!(app.shell.hit(2, 2), Some(&Target::SearchField));
    assert_eq!(app.shell.hit(4, 2), Some(&Target::Tab(1)));
    assert_eq!(app.shell.hit(10, 2), None);
    click(&mut app, 3, 3);
    assert_eq!(app.shell.focus, Focus::Search);
}

#[test]
fn a_read_that_lands_marks_the_cache_and_refills_its_own_screen() {
    let mut app = two_clusters();
    app.apply_at(
        Event::Pods {
            scope: 0,
            pods: Ok(vec![pod("b", "Running"), pod("a", "CrashLoopBackOff")]),
        },
        now(),
    );
    assert!(app.cache_dirty);
    assert_eq!(app.screens[0].visible(), &[1, 0], "sorted by name");
    assert!(app.screens[1].visible().is_empty());
    let labels = tab_labels(&app);
    assert_eq!(labels[0].badge.as_deref(), Some("✗ 1"));
    assert_eq!(labels[1].badge, None);
    assert_eq!(labels[0].short, "dev");
    app.cache_dirty = false;
    app.apply_at(
        Event::Pods {
            scope: 0,
            pods: Err("no".into()),
        },
        now(),
    );
    assert!(!app.cache_dirty, "a failure brings no rows");
    assert_eq!(app.screens[0].visible().len(), 2);
}

#[test]
fn a_store_that_was_read_is_on_the_first_frame() {
    let tabs: Vec<Tab> = parse(TWO_CLUSTERS).tabs();
    let mut store = Store::new(tabs.len());
    store.apply(Event::Pods {
        scope: 0,
        pods: Ok(vec![pod("a", "Running")]),
    });
    let mut app = App::with_store(tabs, store);
    app.screens[0].refilter(&app.store.scopes[0]);
    assert_eq!(app.screens[0].visible(), &[0]);
    assert!(!app.cache_dirty);
}

#[test]
fn a_number_that_is_a_tab_opens_it_and_a_step_there_and_back_is_none() {
    let mut app = two_clusters();
    for number in 1..=4u8 {
        press(&mut app, KeyCode::Char(char::from(b'0' + number)));
        assert_eq!(app.tab, usize::from(number) - 1);
        press(&mut app, KeyCode::Right);
        press(&mut app, KeyCode::Left);
        assert_eq!(app.tab, usize::from(number) - 1);
    }
    press(&mut app, KeyCode::Char('0'));
    assert_eq!(app.tab, 3, "there is no tab nought");
}

#[test]
fn a_frame_needs_so_much_room() {
    assert!(has_room(Rect::new(0, 0, MIN_WIDTH, MIN_HEIGHT)));
    assert!(!has_room(Rect::new(0, 0, MIN_WIDTH - 1, MIN_HEIGHT)));
    assert!(!has_room(Rect::new(0, 0, MIN_WIDTH, MIN_HEIGHT - 1)));
}

#[test]
fn what_a_session_keeps_of_a_tab_is_found_again() {
    let mut session = Session::default();
    assert!(session.get("qa/dev").is_none());
    session.tab("qa/dev").sort = Some(("age".into(), "desc".into()));
    session.tab("prod").sort = None;
    session.tab("qa/dev").columns.clear();
    assert_eq!(session.tabs.len(), 2);
    assert_eq!(
        session.get("qa/dev").unwrap().sort,
        Some(("age".to_owned(), "desc".to_owned()))
    );
}
