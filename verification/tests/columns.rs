use aks_tui::app::layout::{apply_columns, columns_of, read_sort, sort_of};
use aks_tui::columns::{
    pod_columns, Alignment, ColumnConfig, ColumnId, Constraint, TableLayout, COLUMN_SPACING,
    MIN_FLEXIBLE_WIDTH,
};
use aks_tui::session::SessionColumn;
use aks_tui::ui::frame::MIN_WIDTH;

/// What the flexible column is left with once the fixed ones and the gaps
/// between them are paid for.
fn flexible_width(columns: &[ColumnConfig], available: u16) -> u16 {
    let spacing = COLUMN_SPACING * (columns.len() as u16 - 1);
    let fixed: u16 = columns
        .iter()
        .filter(|column| !column.id.spec().flexible)
        .map(|column| column.width)
        .sum();
    available.saturating_sub(spacing).saturating_sub(fixed)
}

fn ids(columns: &[ColumnConfig]) -> Vec<ColumnId> {
    columns.iter().map(|column| column.id).collect()
}

#[test]
fn columns_drop_from_the_right_before_the_name_is_squeezed() {
    let layout = TableLayout::new(&pod_columns());
    for pane in [140_u16, 110, 90, 70, 55] {
        let available = TableLayout::available_width(pane - 2);
        let columns = layout.visible_columns(available);
        let visible = ids(&columns);

        assert_eq!(visible[0], ColumnId::Name, "the pinned columns stay");
        assert!(visible.contains(&ColumnId::Status), "{pane}: {visible:?}");
        assert!(
            flexible_width(&columns, available) >= MIN_FLEXIBLE_WIDTH,
            "{pane} left the name {} wide with {visible:?}",
            flexible_width(&columns, available)
        );
        let mut ordered = visible.clone();
        ordered.sort_by_key(|id| {
            pod_columns()
                .iter()
                .position(|column| column.id == *id)
                .unwrap()
        });
        assert_eq!(ordered, visible, "the columns keep their order");
    }

    assert_eq!(
        ids(&layout.visible_columns(TableLayout::available_width(158))),
        vec![
            ColumnId::Name,
            ColumnId::Ready,
            ColumnId::Status,
            ColumnId::Restarts,
            ColumnId::Age,
        ],
        "a wide enough table keeps every column it opened with"
    );
}

#[test]
fn a_table_too_narrow_for_anything_keeps_the_name_and_the_status() {
    let pods = TableLayout::new(&pod_columns());
    let cramped = TableLayout::available_width(MIN_WIDTH - 2);
    let columns = pods.visible_columns(cramped);
    assert_eq!(ids(&columns), vec![ColumnId::Name, ColumnId::Status]);
    assert!(flexible_width(&columns, cramped) > 0);
    assert_eq!(
        ids(&pods.visible_columns(0)),
        vec![ColumnId::Name, ColumnId::Status],
        "a table with no room at all still says what its rows are"
    );
}

#[test]
fn a_hidden_column_holds_its_place_until_it_is_turned_on() {
    let mut layout = TableLayout::new(&pod_columns());
    assert!(
        !ids(&layout.visible_columns(200)).contains(&ColumnId::Namespace),
        "nobody asked for it"
    );
    layout.set_visible(ColumnId::Namespace, true);
    assert_eq!(
        ids(&layout.visible_columns(200))[..2],
        [ColumnId::Name, ColumnId::Namespace],
        "and it comes back where it always was"
    );
}

#[test]
fn every_key_is_its_own_and_survives_the_round_trip() {
    let mut keys: Vec<&str> = ColumnId::ALL.iter().map(|id| id.key()).collect();
    keys.sort_unstable();
    let count = keys.len();
    keys.dedup();
    assert_eq!(keys.len(), count, "two columns cannot share a session key");

    for id in ColumnId::ALL {
        assert_eq!(ColumnId::from_key(id.key()), Some(id));
        let spec = id.spec();
        assert!(
            spec.key.chars().all(|c| c.is_ascii_lowercase() || c == '_'),
            "{spec:?} is not a stable lowercase key"
        );
        assert!(
            u16::try_from(spec.label.chars().count()).unwrap() <= spec.width.max(spec.min),
            "{spec:?} cannot show its own header"
        );
    }
    assert_eq!(
        ColumnId::from_key("vault"),
        None,
        "another program's column"
    );
}

#[test]
fn the_flexible_column_fills_and_the_rest_are_what_they_say() {
    let columns = TableLayout::new(&pod_columns()).visible_columns(120);
    let constraints: Vec<_> = columns.into_iter().map(TableLayout::constraint).collect();
    assert_eq!(
        constraints[0],
        Constraint::Fill(1),
        "the name takes the rest"
    );
    assert_eq!(constraints[1], Constraint::Length(5));
    assert_eq!(
        TableLayout::available_width(100),
        97,
        "the marker and the scrollbar are spent first"
    );
    assert_eq!(TableLayout::available_width(2), 0, "and cannot overdraw");
}

#[test]
fn a_count_stands_on_the_right() {
    assert_eq!(ColumnId::Restarts.spec().align, Alignment::Right);
    assert_eq!(ColumnId::Name.spec().align, Alignment::Left);
    assert_eq!(ColumnId::Status.label(), "Status");
}

#[test]
fn a_column_comes_back_as_it_went_and_one_that_is_not_known_is_left() {
    let mut layout = TableLayout::new(&pod_columns());
    layout.columns[2].width = 31;
    layout.set_visible(ColumnId::Node, true);
    let held = columns_of(&layout);
    assert_eq!(held[0].key, "name");
    let mut fresh = TableLayout::new(&pod_columns());
    apply_columns(&mut fresh, &held);
    assert_eq!(fresh, layout);
    apply_columns(
        &mut fresh,
        &vec![SessionColumn {
            key: "vault".to_owned(),
            width: Some(9),
            visible: Some(true),
        }],
    );
    assert_eq!(fresh, layout);
}

#[test]
fn a_sort_comes_back_as_it_went() {
    for id in ColumnId::ALL {
        for descending in [false, true] {
            let held = sort_of(id, descending);
            assert_eq!(read_sort(&Some(held)), Some((id, descending)));
        }
    }
    assert_eq!(
        sort_of(ColumnId::Age, true),
        ("age".to_owned(), "desc".to_owned())
    );
    assert_eq!(read_sort(&None), None);
    assert_eq!(read_sort(&Some(("vault".into(), "asc".into()))), None);
}
