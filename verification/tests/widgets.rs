use aks_tui::app::screen::Target;
use aks_tui::app::shell::Shell;
use aks_tui::text_input::TextInput;
use aks_tui::ui::modal::{help_box, help_lines, modal_frame, render_help, HELP_TITLE};
use aks_tui::ui::paint::{Rect, Tone};
use aks_tui::ui::scrollbar::{is_thumb, scrollbar, Thumb};
use aks_tui::ui::widgets::{
    render_search_row, render_status_bar, render_tab_bar, spinner_frame, truncate, StatusBar,
    TabBar, TabLabel, PODS_PLACEHOLDER,
};

const SPINNER: [char; 4] = ['◐', '◓', '◑', '◒'];

/// A row of cells, with each text where it is drawn and cut at the end.
fn row(width: u16, texts: &[(u16, &str)]) -> String {
    let mut cells = vec![' '; usize::from(width)];
    for (column, text) in texts {
        for (at, c) in text.chars().enumerate() {
            if let Some(cell) = cells.get_mut(usize::from(*column) + at) {
                *cell = c;
            }
        }
    }
    cells.into_iter().collect()
}

fn tabs() -> Vec<TabLabel> {
    [
        ("qa/dev", "dev"),
        ("qa/qa", "qa"),
        ("qa/uat", "uat"),
        ("prod", "prod"),
    ]
    .into_iter()
    .map(|(label, short)| TabLabel {
        label: label.to_owned(),
        short: short.to_owned(),
        badge: None,
    })
    .collect()
}

fn bar_text(width: u16, bar: &TabBar) -> String {
    let line = bar.line.text();
    match bar.help {
        Some(help) => row(width, &[(0, &line), (help.x, "?")]),
        None => row(width, &[(0, &line)]),
    }
}

#[test]
fn the_tab_bar_numbers_every_tab_and_paints_a_badge() {
    let mut tabs = tabs();
    tabs[0].badge = Some("✗ 3".into());
    let mut shell = Shell::default();
    let bar = render_tab_bar(&mut shell, Rect::new(0, 0, 80, 1), 0, &tabs);
    let drawn = bar_text(80, &bar);
    assert!(drawn.contains("1 qa/dev ✗ 3"), "{drawn}");
    assert!(drawn.contains("2 qa/qa"), "{drawn}");
    assert!(drawn.contains("4 prod"), "{drawn}");
    assert!(drawn.trim_end().ends_with('?'), "{drawn}");
}

#[test]
fn a_narrow_tab_bar_shortens_the_names_rather_than_dropping_one() {
    let mut shell = Shell::default();
    let bar = render_tab_bar(&mut shell, Rect::new(0, 0, 30, 1), 0, &tabs());
    let drawn = bar_text(30, &bar);
    assert!(drawn.contains("1 dev"), "{drawn}");
    assert!(drawn.contains("4 prod"), "{drawn}");
    assert!(!drawn.contains("qa/dev"), "{drawn}");
}

#[test]
fn a_click_on_a_tab_lands_on_that_tab() {
    let mut shell = Shell::default();
    shell.begin_frame();
    render_tab_bar(&mut shell, Rect::new(0, 0, 80, 1), 0, &tabs());
    assert_eq!(shell.hit(3, 0), Some(&Target::Tab(0)));
    assert_eq!(shell.hit(12, 0), Some(&Target::Tab(1)));
    assert_eq!(shell.hit(78, 0), Some(&Target::Help));
}

#[test]
fn the_open_tab_is_bold_and_the_tenth_has_no_number() {
    let tabs: Vec<TabLabel> = (0..10)
        .map(|at| TabLabel {
            label: format!("t{at}"),
            short: "t".to_owned(),
            badge: None,
        })
        .collect();
    let mut shell = Shell::default();
    let bar = render_tab_bar(&mut shell, Rect::new(0, 0, 120, 1), 9, &tabs);
    assert!(bar.line.spans[9].bold);
    assert_eq!(bar.line.spans[9].text, " t9");
    assert_eq!(bar.line.spans[9].tone, Tone::Accent);
    assert_eq!(bar.line.spans[8].text, " 9 t8");
    assert!(!bar.line.spans[8].bold);
    let tiny = render_tab_bar(&mut shell, Rect::new(0, 0, 2, 1), 0, &tabs);
    assert_eq!(tiny.help, None);
}

#[test]
fn the_search_row_shows_the_placeholder_until_something_is_typed() {
    let mut shell = Shell::default();
    let search = render_search_row(
        &mut shell,
        Rect::new(0, 0, 80, 1),
        &TextInput::default(),
        false,
        PODS_PLACEHOLDER,
    );
    let drawn = row(
        80,
        &[
            (search.glyph.0.x, &search.glyph.1.text),
            (search.field.0.x, &search.field.1.text),
        ],
    );
    assert!(drawn.starts_with("/ Type / to search"), "{drawn}");
    assert!(search.clear.is_none(), "nothing to clear yet: {drawn}");
    assert!(!drawn.contains('×'), "nothing to clear yet: {drawn}");
    assert_eq!(search.caret, None);

    let search = render_search_row(
        &mut shell,
        Rect::new(0, 0, 80, 1),
        &TextInput::new("orders"),
        true,
        PODS_PLACEHOLDER,
    );
    assert!(search.field.1.text.contains("orders"), "{search:?}");
    let (clear, span) = search.clear.unwrap();
    assert!(span.text.contains('×'), "{span:?}");
    assert_eq!(search.caret, Some((8, 0)));
    assert_eq!(shell.hit(clear.x, 0), Some(&Target::ClearSearch));
    assert_eq!(shell.hit(4, 0), Some(&Target::SearchField));
}

fn status_text(width: u16, bar: &StatusBar) -> String {
    match &bar.right {
        Some((area, said)) => {
            let at = area.x + area.width - said.chars().count() as u16;
            row(width, &[(0, &bar.left.text), (at, said)])
        }
        None => row(width, &[(0, &bar.left.text)]),
    }
}

#[test]
fn the_status_bar_says_the_hint_then_the_notification_then_the_error() {
    let mut shell = Shell::default();
    let area = Rect::new(0, 0, 100, 1);
    let bar = render_status_bar(&shell, area, "↑↓ move", "● 41 pods · 2s ago");
    let drawn = status_text(100, &bar);
    assert!(drawn.contains("↑↓ move"), "{drawn}");
    assert!(drawn.contains("41 pods"), "{drawn}");

    shell.set_status("Copied orders-api-7d9f5b-abc12");
    shell.begin_frame();
    let bar = render_status_bar(&shell, area, "↑↓ move", "● 41 pods");
    let drawn = status_text(100, &bar);
    assert!(drawn.contains("Copied orders-api"), "{drawn}");
    assert!(!drawn.contains("↑↓ move"), "the notification wins: {drawn}");
    assert_eq!(bar.left.tone, Tone::Success);

    shell.set_error("gone");
    let bar = render_status_bar(&shell, area, "↑↓ move", "● 41 pods");
    assert_eq!((bar.left.text.as_str(), bar.left.tone), ("gone", Tone::Error));
}

#[test]
fn the_two_halves_of_the_status_bar_never_run_into_each_other() {
    for width in [40, 60, 80, 100, 120] {
        let shell = Shell::default();
        let bar = render_status_bar(
            &shell,
            Rect::new(0, 0, width, 1),
            "↑↓/jk move  / search  S sort  r refresh  ? help",
            "! qa/dev: Unable to connect",
        );
        let drawn = status_text(width, &bar);
        assert!(
            drawn.contains("Unable to connect"),
            "what is wrong survives every width: {width} {drawn}"
        );
        assert!(
            !drawn.contains("sor!") && !drawn.contains("movе!"),
            "the hint is cut rather than written over: {width} {drawn}"
        );
    }
}

#[test]
fn a_status_bar_without_room_says_what_is_happening() {
    let shell = Shell::default();
    let bar = render_status_bar(&shell, Rect::new(0, 0, 10, 1), "hint", "1234567");
    assert_eq!(bar.left.text, "");
    assert_eq!(bar.right.unwrap().0, Rect::new(0, 0, 9, 1));
    let bar = render_status_bar(&shell, Rect::new(0, 0, 7, 1), "hint", "1234567");
    assert!(bar.right.is_none());
}

#[test]
fn a_hint_is_cut_with_an_ellipsis_rather_than_in_the_middle_of_nothing() {
    assert_eq!(truncate("↑↓/jk move", 20), "↑↓/jk move");
    assert_eq!(truncate("↑↓/jk move", 6), "↑↓/jk…");
    assert_eq!(truncate("↑↓/jk move", 1), "");
    assert_eq!(truncate("", 0), "");
}

#[test]
fn the_help_lists_the_keys_the_filters_and_the_problems_under_them() {
    let mut shell = Shell::default();
    let help = render_help(
        &mut shell,
        Rect::new(0, 0, 100, 30),
        &vec!["qa/dev: Unable to connect to the server".to_owned()],
    );
    assert_eq!(help.title, HELP_TITLE);
    let drawn: String = help.title.clone()
        + "\n"
        + &help
            .lines
            .iter()
            .map(|line| line.text() + "\n")
            .collect::<String>();
    assert!(drawn.contains("Keys"), "{drawn}");
    assert!(drawn.contains("read this tab again"), "{drawn}");
    assert!(drawn.contains("Filters"), "{drawn}");
    assert!(drawn.contains("owner:"), "{drawn}");
    assert!(drawn.contains("Problems"), "{drawn}");
    assert!(drawn.contains("Unable to connect"), "{drawn}");
    assert_eq!(shell.hit(0, 0), Some(&Target::Help), "a click puts it away");
}

#[test]
fn the_help_is_as_high_as_its_wrapped_lines() {
    let mut shell = Shell::default();
    let area = Rect::new(0, 0, 100, 40);
    let none = render_help(&mut shell, area, &Vec::new());
    let one = render_help(&mut shell, area, &vec!["x".to_owned()]);
    let long = render_help(&mut shell, area, &vec!["word ".repeat(20)]);
    assert_eq!(none.modal.width, 74);
    assert_eq!(one.modal.height, none.modal.height + 3);
    assert_eq!(long.modal.height, one.modal.height + 1, "it wraps once");
    assert_eq!(help_box(area, 10), (Rect::new(13, 14, 74, 12), Rect::new(14, 15, 72, 10)));
    assert_eq!(help_lines(&Vec::new()).len(), none.lines.len());
}

#[test]
fn a_modal_stands_in_the_middle_and_inside() {
    let area = Rect::new(2, 3, 20, 10);
    assert_eq!(modal_frame(area, 10, 4), Rect::new(7, 6, 10, 4));
    assert_eq!(modal_frame(area, 90, 90), Rect::new(3, 4, 18, 8));
    assert_eq!(modal_frame(Rect::new(0, 0, 1, 1), 9, 9), Rect::new(0, 0, 1, 1));
}

fn column(area: Rect, thumb: Option<Thumb>) -> Vec<&'static str> {
    (0..usize::from(area.height))
        .map(|at| match thumb {
            Some(thumb) if is_thumb(thumb, at) => "█",
            Some(_) => "│",
            None => "",
        })
        .collect()
}

#[test]
fn the_scrollbar_appears_only_when_there_is_more_than_fits() {
    let area = Rect::new(2, 0, 1, 10);
    let drawn = column(area, scrollbar(area, 0, 10, 10));
    assert!(!drawn.contains(&"█") && !drawn.contains(&"│"), "{drawn:?}");

    let drawn = column(area, scrollbar(area, 0, 10, 40));
    assert!(drawn.contains(&"█"), "{drawn:?}");
    assert_eq!(drawn[0], "█", "{drawn:?}");
    assert_eq!(drawn[9], "│", "{drawn:?}");
}

#[test]
fn the_thumb_reaches_the_end_of_the_track_with_the_list() {
    let area = Rect::new(0, 0, 1, 10);
    assert_eq!(scrollbar(area, 30, 10, 40), Some(Thumb { at: 8, len: 2 }));
    assert_eq!(scrollbar(area, 15, 10, 40), Some(Thumb { at: 4, len: 2 }));
    assert_eq!(scrollbar(Rect::new(0, 0, 0, 10), 0, 10, 40), None);
    assert_eq!(scrollbar(area, 0, 1, 1000), Some(Thumb { at: 0, len: 1 }));
}

#[test]
fn the_spinner_turns_with_the_clock() {
    assert_eq!(spinner_frame(0), SPINNER[0]);
    assert_eq!(spinner_frame(120), SPINNER[1]);
    assert_eq!(spinner_frame(480), SPINNER[0], "and comes round again");
}
