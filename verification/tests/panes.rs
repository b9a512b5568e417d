use aks_tui::app::scope::ScopeScreen;
use aks_tui::app::screen::{Button, Target};
use aks_tui::app::shell::{Focus, Panes, Shell};
use aks_tui::columns::{ColumnConfig, ColumnId};
use aks_tui::config::{Scope, Tab};
use aks_tui::kube::{Container, Pod, PodKey};
use aks_tui::search::Query;
use aks_tui::store::ScopeData;
use aks_tui::timestamp::Timestamp;
use aks_tui::ui::layout::{
    details_and_text, frame_parts, placed, search_and_panes, search_parts, tab_parts, Pane,
};
use aks_tui::ui::paint::{Rect, Tone};
use aks_tui::ui::pane::{render_details, render_over_text};
use aks_tui::ui::pods::{
    detail_lines, details_height, pod_style, row_cells, toolbar_line, toolbar_width,
};
use aks_tui::ui::render::{render, PaneDrawn};
use aks_tui::ui::table::{headers, render_table, Table};

fn pod(cluster: &str, namespace: &str, name: &str, status: &str) -> Pod {
    Pod {
        key: PodKey {
            cluster: cluster.to_owned(),
            namespace: namespace.to_owned(),
            name: name.to_owned(),
        },
        status: status.to_owned(),
        ready: (1, 1),
        restarts: 0,
        created: Timestamp::parse("2026-08-30T10:00:00Z"),
        node: "aks-nodepool1-0".to_owned(),
        ip: "10.0.0.7".to_owned(),
        owner: Some(("Deployment".to_owned(), "orders-api".to_owned())),
        containers: vec![Container {
            name: "api".to_owned(),
            image: "myacr.azurecr.io/team/orders-api:1.2.3".to_owned(),
            ready: true,
            restarts: 0,
            state: "Running".to_owned(),
            last_termination: None,
        }],
        labels: vec![("app".to_owned(), "orders-api".to_owned())],
    }
}

/// A pod in trouble, which is what the badge counts and the glyph paints.
fn crashing(cluster: &str, namespace: &str, name: &str) -> Pod {
    let mut pod = pod(cluster, namespace, name, "CrashLoopBackOff");
    pod.ready = (0, 1);
    pod.restarts = 9;
    pod.containers[0].ready = false;
    pod.containers[0].restarts = 9;
    pod.containers[0].state = "CrashLoopBackOff".to_owned();
    pod.containers[0].last_termination = Some(("Error".to_owned(), 1));
    pod
}

fn tab() -> Tab {
    Tab {
        label: "qa/dev".to_owned(),
        scope: Scope {
            cluster: "qa".to_owned(),
            context: "aks-qa".to_owned(),
            namespace: Some("dev".to_owned()),
        },
    }
}

fn data() -> ScopeData {
    ScopeData {
        pods: vec![
            pod("qa", "dev", "orders-api-7d9f5b-k9x2p", "Running"),
            crashing("qa", "dev", "orders-worker-5c4d3e-q8zt"),
        ],
        reads: 1,
        ..ScopeData::default()
    }
}

fn now() -> Timestamp {
    Timestamp::parse("2026-08-30T12:00:00Z").unwrap()
}

fn say(drawn: &mut String, said: &str) {
    drawn.push_str(said);
    drawn.push('\n');
}

fn table_text(drawn: &mut String, table: &Table) {
    say(drawn, &table.title);
    say(drawn, &table.labels.join(" "));
    for row in &table.rows {
        let cells: Vec<&str> = row.cells.iter().map(|cell| cell.text.as_str()).collect();
        say(drawn, &cells.join(" "));
    }
    say(drawn, &table.status);
}

fn draw(width: u16, height: u16, screen: &mut ScopeScreen, data: &ScopeData) -> (String, Shell) {
    let mut shell = Shell::default();
    shell.begin_frame();
    screen.refilter(data);
    let mut drawn = String::new();
    let area = Rect::new(0, 0, width, height);
    let held = render(&mut shell, screen, &tab(), data, area, None, now());
    say(&mut drawn, &held.search.field.1.text);
    for pane in &held.panes {
        match pane {
            PaneDrawn::Table(_, table) => table_text(&mut drawn, table),
            PaneDrawn::Details(_, pane) => {
                say(&mut drawn, " Details ");
                for line in &pane.lines {
                    say(&mut drawn, &line.text());
                }
            }
        }
    }
    (drawn, shell)
}

#[test]
fn the_table_paints_a_pod_in_trouble_in_the_error_colour_from_end_to_end() {
    let data = data();
    let mut screen = ScopeScreen::default();
    let (drawn, _) = draw(120, 16, &mut screen, &data);
    assert!(drawn.contains("Ready"), "{drawn}");
    assert!(drawn.contains("\u{2717} CrashLoopBackOff"), "{drawn}");
    assert!(drawn.contains("\u{25cf} Running"), "{drawn}");
    assert!(drawn.contains("2 · Name ↑"), "{drawn}");

    let mut shell = Shell::default();
    let table = render_table(&mut shell, &mut screen, &data, Rect::new(0, 1, 66, 15), now());
    let row = table
        .rows
        .iter()
        .find(|row| row.cells[0].text.contains("orders-worker"))
        .expect("the crashing pod's row");
    assert!(
        row.cells.iter().all(|cell| cell.tone == Tone::Error),
        "the whole row reads as trouble: {row:?}"
    );
    assert_eq!(table.labels[..2], ["Name ↑", "Ready"]);
}

#[test]
fn the_details_pane_names_the_pod_its_owner_and_its_containers() {
    let data = data();
    let mut screen = ScopeScreen::default();
    let (drawn, _) = draw(120, 20, &mut screen, &data);
    assert!(
        drawn.contains("orders-api-7d9f5b-k9x2p  Running"),
        "{drawn}"
    );
    assert!(drawn.contains("qa/dev · Deployment/orders-api"), "{drawn}");
    assert!(drawn.contains("Node          aks-nodepool1-0"), "{drawn}");
    assert!(drawn.contains("── Containers"), "{drawn}");
    assert!(drawn.contains("✓ api  Running  ↻0"), "{drawn}");
    assert!(
        drawn.contains("myacr.azurecr.io/team/orders-api:1.2.3"),
        "{drawn}"
    );
    assert!(drawn.contains("app=orders-api"), "{drawn}");

    screen.cursor.focus(1);
    let (drawn, _) = draw(120, 20, &mut screen, &data);
    assert!(drawn.contains("✗ api  CrashLoopBackOff  ↻9"), "{drawn}");
    assert!(drawn.contains("last exit: Error (1)"), "{drawn}");
}

#[test]
fn a_query_narrows_the_table_and_the_border_counts_what_is_left() {
    let data = data();
    let mut screen = ScopeScreen::default();
    screen.input.set_text("worker");
    let (drawn, _) = draw(120, 14, &mut screen, &data);
    assert!(drawn.contains("1/2 · Name ↑"), "{drawn}");
    assert!(drawn.contains("orders-worker"), "{drawn}");
    assert!(!drawn.contains("orders-api-7d9f5b-k9x2p"), "{drawn}");
    screen.input.set_text("nothing");
    let (drawn, _) = draw(120, 14, &mut screen, &data);
    assert!(drawn.contains("No pods match"), "{drawn}");
}

#[test]
fn the_pane_says_what_it_is_waiting_for_what_went_wrong_and_when_there_is_nothing() {
    let mut screen = ScopeScreen::default();
    let (drawn, _) = draw(120, 14, &mut screen, &ScopeData::default());
    assert!(drawn.contains("Reading qa/dev…"), "{drawn}");

    let failed = ScopeData {
        error: Some("Unable to connect to the server".into()),
        reads: 1,
        ..ScopeData::default()
    };
    let (drawn, _) = draw(120, 14, &mut screen, &failed);
    assert!(drawn.contains("qa/dev: Unable to connect"), "{drawn}");

    let empty = ScopeData {
        reads: 1,
        ..ScopeData::default()
    };
    let (drawn, _) = draw(120, 14, &mut screen, &empty);
    assert!(drawn.contains("No pods in qa/dev"), "{drawn}");

    // Rows from before a failure stand, and the pane says so under them.
    let stale = ScopeData {
        error: Some("Unable to connect to the server".into()),
        ..data()
    };
    let (drawn, _) = draw(120, 24, &mut screen, &stale);
    assert!(drawn.contains("orders-api-7d9f5b-k9x2p"), "{drawn}");
    assert!(
        drawn.contains("last read failed: Unable to connect"),
        "{drawn}"
    );
}

#[test]
fn a_click_lands_on_the_row_and_the_header_under_it() {
    let data = data();
    let mut screen = ScopeScreen::default();
    let (_, shell) = draw(120, 14, &mut screen, &data);
    let row = (0..14)
        .find_map(|y| match shell.hit(4, y) {
            Some(Target::Row(index)) => Some((y, *index)),
            _ => None,
        })
        .expect("a row region");
    assert_eq!(row.1, 0);
    let header = (0..14)
        .find_map(|y| match shell.hit(4, y) {
            Some(Target::Header(column)) => Some(*column),
            _ => None,
        })
        .expect("a header region");
    assert_eq!(header, ColumnId::Name);
}

#[test]
fn under_seventy_columns_the_details_pane_waits_for_tab() {
    let data = data();
    let mut screen = ScopeScreen::default();
    let (drawn, _) = draw(60, 16, &mut screen, &data);
    assert!(
        !drawn.contains("Details"),
        "the table gets the room: {drawn}"
    );
    assert!(drawn.contains("orders-api"), "{drawn}");
}

#[test]
fn a_cell_lights_up_what_the_search_found_past_its_glyph() {
    let highlighter = Query::new(&vec!["crash".to_owned()]);
    let mut screen = ScopeScreen::default();
    screen.layout.set_visible(ColumnId::Ip, true);
    let columns = screen.layout.visible_columns(200);
    let cells = row_cells(&crashing("qa", "dev", "crash"), &columns, &highlighter, now());
    let cell = |id: ColumnId| &cells[columns.iter().position(|c| c.id == id).unwrap()];
    assert_eq!(cell(ColumnId::Name).matched, [0, 1, 2, 3, 4]);
    assert_eq!(cell(ColumnId::Status).matched, [2, 3, 4, 5, 6]);
    assert!(cell(ColumnId::Ip).matched.is_empty());
    assert_eq!(cell(ColumnId::Ready).text, "0/1");
    assert_eq!(cell(ColumnId::Restarts).text, "9");
    assert_eq!(cell(ColumnId::Age).text, "2h");
}

#[test]
fn a_pods_tone_is_what_its_state_reads_as() {
    let tone = |status: &str| pod_style(&pod("qa", "dev", "a", status));
    assert_eq!(tone("Running"), Tone::Success);
    assert_eq!(tone("Pending"), Tone::Warning);
    assert_eq!(tone("Completed"), Tone::Muted);
    assert_eq!(tone("CrashLoopBackOff"), Tone::Error);
}

#[test]
fn the_toolbar_is_where_its_regions_say() {
    assert_eq!(
        toolbar_line().text(),
        "[Logs] [Bash] [Restart] [Scale] [Describe] [YAML]"
    );
    assert_eq!(toolbar_width(), toolbar_line().text().chars().count());
    let data = data();
    let mut screen = ScopeScreen::default();
    let (_, shell) = draw(130, 20, &mut screen, &data);
    let first = shell
        .regions
        .iter()
        .find(|(_, target)| *target == Target::Button(Button::Logs))
        .expect("there is room for the toolbar")
        .0;
    assert_eq!((first.width, first.height), (6, 1));
    assert_eq!(
        shell.hit(first.x + 7, first.y),
        Some(&Target::Button(Button::Bash))
    );
    let (_, shell) = draw(100, 20, &mut screen, &data);
    assert!(!shell
        .regions
        .iter()
        .any(|(_, target)| matches!(target, Target::Button(_))));
}

#[test]
fn the_details_say_how_many_of_an_owners_pods_are_ready() {
    let data = data();
    let lines = detail_lines(&data.pods[0], Some("3/4 ready"), &data, 40, now());
    assert!(lines[2]
        .text()
        .contains("Deployment/orders-api · 3/4 ready"));
    let bare = Pod {
        node: String::new(),
        created: None,
        labels: Vec::new(),
        ..data.pods[0].clone()
    };
    let lines = detail_lines(&bare, None, &data, 40, now());
    let text: Vec<String> = lines.iter().map(|line| line.text()).collect();
    assert!(text.contains(&"Node          \u{2014}".to_owned()), "{text:?}");
    assert!(text.contains(&"Created       \u{2014}".to_owned()), "{text:?}");
    assert!(!text.iter().any(|line| line.starts_with("Labels")), "{text:?}");
}

#[test]
fn the_frame_is_one_row_above_and_one_below() {
    let parts = frame_parts(Rect::new(0, 0, 100, 20));
    assert_eq!(parts.tabs, Rect::new(0, 0, 100, 1));
    assert_eq!(parts.body, Rect::new(0, 1, 100, 18));
    assert_eq!(parts.status, Rect::new(0, 19, 100, 1));
    assert_eq!(
        search_and_panes(parts.body),
        (Rect::new(0, 1, 100, 1), Rect::new(0, 2, 100, 17))
    );
    assert_eq!(
        search_parts(Rect::new(0, 1, 100, 1), true),
        (
            Rect::new(0, 1, 2, 1),
            Rect::new(2, 1, 95, 1),
            Rect::new(97, 1, 3, 1)
        )
    );
    assert_eq!(
        details_and_text(Rect::new(0, 0, 40, 20), 8),
        (Rect::new(0, 0, 40, 8), Rect::new(0, 8, 40, 12))
    );
}

#[test]
fn the_panes_are_laid_out_to_fit() {
    let parts = tab_parts(Rect::new(0, 1, 100, 21), false);
    assert_eq!(parts.search, Rect::new(0, 1, 100, 1));
    assert_eq!(parts.body, Rect::new(0, 2, 100, 20));
    assert_eq!(parts.first, Rect::new(0, 2, 55, 20));
    assert_eq!(parts.second, Rect::new(55, 2, 45, 20));
    let parts = tab_parts(Rect::new(0, 1, 80, 21), true);
    assert_eq!(parts.row.2, Rect::new(77, 1, 3, 1));
    assert_eq!(parts.first, Rect::new(0, 2, 80, 12));
    assert_eq!(parts.second, Rect::new(0, 14, 80, 8));
    let parts = tab_parts(Rect::new(0, 1, 60, 21), false);
    let body = parts.body;
    assert_eq!((parts.first, parts.second), (body, body));
    assert_eq!(
        placed(Panes::One, Focus::Search, body, body, body),
        [(Pane::Table, body)]
    );
    assert_eq!(
        placed(Panes::One, Focus::Details, body, body, body),
        [(Pane::Details, body)]
    );
    let (first, second) = (Rect::new(0, 0, 1, 1), Rect::new(1, 0, 1, 1));
    assert_eq!(
        placed(Panes::Stacked, Focus::Details, body, first, second),
        [(Pane::Table, first), (Pane::Details, second)]
    );
}

#[test]
fn the_details_take_what_they_need_up_to_just_under_half() {
    assert_eq!(details_height(3, 20), 5);
    assert_eq!(details_height(40, 20), 9);
    assert_eq!(details_height(0, 4), 4);
}

#[test]
fn the_details_scroll_over_the_rows_they_wrap_to() {
    let mut data = data();
    data.pods[0].node = "a-node-name-that-is-longer-than-the-pane-is-wide".to_owned();
    let mut screen = ScopeScreen::default();
    screen.refilter(&data);
    let mut shell = Shell::default();
    let area = Rect::new(0, 0, 30, 6);
    screen.details_scroll.offset = 500;
    let pane = render_details(&mut shell, &mut screen, &tab(), &data, area, None, now());
    let rows = screen.details_scroll.content;
    assert!(rows > pane.lines.len(), "some lines wrap");
    assert_eq!(pane.offset, rows - 4, "and no further than the last row");
    assert_eq!(pane.inner, Rect::new(1, 1, 28, 4));
}

#[test]
fn the_details_say_what_the_owner_has_ready() {
    let data = data();
    let mut screen = ScopeScreen::default();
    let area = Rect::new(0, 0, 120, 20);
    screen.refilter(&data);
    for ready in [None, Some("4/4 ready")] {
        let mut shell = Shell::default();
        let held = render(&mut shell, &mut screen, &tab(), &data, area, ready, now());
        let said = held.panes.iter().find_map(|pane| match pane {
            PaneDrawn::Details(_, pane) => Some(pane.lines[2].text()),
            PaneDrawn::Table(..) => None,
        });
        assert_eq!(said.unwrap().contains(" · 4/4 ready"), ready.is_some());
    }
}

fn column(id: ColumnId, width: u16) -> ColumnConfig {
    ColumnConfig { id, visible: true, width }
}

#[test]
fn the_headers_share_a_row_with_a_cell_between_two() {
    let columns = vec![
        column(ColumnId::Name, 30),
        column(ColumnId::Ready, 5),
        column(ColumnId::Age, 4),
    ];
    assert_eq!(
        headers(&columns, Rect::new(3, 2, 40, 1)),
        [
            Rect::new(3, 2, 29, 1),
            Rect::new(33, 2, 5, 1),
            Rect::new(39, 2, 4, 1)
        ],
        "the name takes the rest"
    );
    let two = vec![column(ColumnId::Name, 30), column(ColumnId::Node, 0)];
    let shared = headers(&two, Rect::new(0, 0, 10, 1));
    assert_eq!(shared[0].width + shared[1].width, 9, "nothing is left over");
    let wide = vec![column(ColumnId::Status, 30)];
    assert_eq!(
        headers(&wide, Rect::new(1, 0, 8, 1)),
        [Rect::new(1, 0, 8, 1)],
        "no wider than the row"
    );
    assert!(headers(&Vec::new(), Rect::new(0, 0, 8, 1)).is_empty());
}

#[test]
fn an_open_text_pane_stands_under_the_details_or_over_them() {
    let data = data();
    let mut screen = ScopeScreen::default();
    screen.refilter(&data);
    let mut shell = Shell::default();
    shell.focus = Focus::Details;
    let area = Rect::new(0, 0, 60, 20);
    let ready = Some("4/4 ready");
    let drawn = render_over_text(
        &mut shell, &mut screen, &tab(), &data, area, false, ready, now(),
    );
    let (top, pane) = drawn.details.unwrap();
    assert!(pane.lines[2].text().contains(" · 4/4 ready"), "{:?}", pane.lines[2]);
    assert_eq!(top, Rect::new(0, 0, 60, 9), "just under half");
    assert_eq!(drawn.text, Rect::new(0, 9, 60, 11));
    assert!(!pane.focused, "the keys go to the text pane");
    assert_eq!(shell.hit(3, 12), Some(&Target::TextPane));
    assert_eq!(shell.hit(3, 5), Some(&Target::Details));

    let zoomed = render_over_text(&mut shell, &mut screen, &tab(), &data, area, true, None, now());
    assert!(zoomed.details.is_none());
    assert_eq!(zoomed.text, area);
    assert_eq!(shell.hit(3, 5), Some(&Target::TextPane));
}
