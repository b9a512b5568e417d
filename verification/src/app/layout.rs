//! A tab's layout to and from the session file: its sort and its columns.

use vstd::prelude::*;
use vstd::string::*;

use crate::columns::{
    law_a_key_names_its_column, place_of, pods_open_with, ColumnConfig, ColumnId, TableLayout,
};
use crate::session::{column_views, SessionColumn, SessionColumnView};
use crate::text;
use crate::text::lower;

verus! {

/// A sort, as the file has it.
pub open spec fn sort_entry(column: ColumnId, descending: bool) -> (Seq<char>, Seq<char>) {
    (
        column.look().key,
        if descending {
            "desc"@
        } else {
            "asc"@
        },
    )
}

/// A sort out of the file, if this build knows the column it names.
pub open spec fn sort_in(sort: Option<(Seq<char>, Seq<char>)>) -> Option<(ColumnId, bool)> {
    match sort {
        Some(sort) => match ColumnId::named(sort.0) {
            Some(column) => Some((column, lower(sort.1) == lower("desc"@))),
            None => None,
        },
        None => None,
    }
}

/// A table's columns, as the file has them.
pub open spec fn column_entries(columns: Seq<ColumnConfig>) -> Seq<SessionColumnView> {
    columns.map_values(
        |column: ColumnConfig|
            SessionColumnView {
                key: column.id.look().key,
                width: Some(column.width),
                visible: Some(column.visible),
            },
    )
}

/// A column with what the file has of it.
pub open spec fn column_with(column: ColumnConfig, stored: SessionColumnView) -> ColumnConfig {
    ColumnConfig {
        id: column.id,
        width: match stored.width {
            Some(width) => width,
            None => column.width,
        },
        visible: match stored.visible {
            Some(visible) => visible,
            None => column.visible,
        },
    }
}

/// A table's columns with what the file has of one of them. A key this build
/// does not know, or a column the table does not have, changes nothing.
pub open spec fn with_entry(
    columns: Seq<ColumnConfig>,
    stored: SessionColumnView,
) -> Seq<ColumnConfig> {
    match ColumnId::named(stored.key) {
        Some(id) => {
            let at = place_of(columns, id) as int;
            if at < columns.len() {
                columns.update(at, column_with(columns[at], stored))
            } else {
                columns
            }
        },
        None => columns,
    }
}

/// A table's columns with what the file has of them, in its order.
pub open spec fn with_entries(
    columns: Seq<ColumnConfig>,
    stored: Seq<SessionColumnView>,
) -> Seq<ColumnConfig>
    decreases stored.len(),
{
    if stored.len() == 0 {
        columns
    } else {
        with_entry(with_entries(columns, stored.drop_last()), stored.last())
    }
}

/// A sort, as the file has it.
pub fn sort_of(column: ColumnId, descending: bool) -> (sort: (String, String))
    ensures
        (sort.0@, sort.1@) == sort_entry(column, descending),
{
    (
        column.key().to_owned(),
        (if descending {
            "desc"
        } else {
            "asc"
        }).to_owned(),
    )
}

/// What a sort in the file says.
pub open spec fn sort_view(sort: Option<(String, String)>) -> Option<(Seq<char>, Seq<char>)> {
    match sort {
        Some(sort) => Some((sort.0@, sort.1@)),
        None => None,
    }
}

/// A sort out of the file, if this build knows the column it names.
pub fn read_sort(sort: &Option<(String, String)>) -> (read: Option<(ColumnId, bool)>)
    ensures
        read == sort_in(sort_view(*sort)),
{
    match sort {
        Some(sort) => match ColumnId::from_key(sort.0.as_str()) {
            Some(column) => Some((column, text::same_ignoring_case(sort.1.as_str(), "desc"))),
            None => None,
        },
        None => None,
    }
}

/// A table's columns, as the file has them.
pub fn columns_of(layout: &TableLayout) -> (held: Vec<SessionColumn>)
    ensures
        column_views(held@) == column_entries(layout.columns@),
{
    let mut held: Vec<SessionColumn> = Vec::new();
    let ghost all = column_entries(layout.columns@);
    let mut at: usize = 0;
    assert(column_views(held@) =~= all.take(0));
    while at < layout.columns.len()
        invariant
            at <= layout.columns@.len(),
            all == column_entries(layout.columns@),
            column_views(held@) == all.take(at as int),
        decreases layout.columns@.len() - at,
    {
        let ghost before = held@;
        let column = layout.columns[at];
        held.push(
            SessionColumn {
                key: column.id.key().to_owned(),
                width: Some(column.width),
                visible: Some(column.visible),
            },
        );
        assert(column_views(held@) =~= column_views(before).push(all[at as int]));
        assert(all.take(at as int + 1) =~= all.take(at as int).push(all[at as int]));
        at += 1;
    }
    assert(all.take(at as int) =~= all);
    held
}

fn apply_column(layout: &mut TableLayout, stored: &SessionColumn)
    ensures
        final(layout).columns@ == with_entry(old(layout).columns@, stored@),
{
    let id = match ColumnId::from_key(stored.key.as_str()) {
        Some(id) => id,
        None => return ,
    };
    let ghost all = layout.columns@;
    let mut at: usize = 0;
    assert(all.skip(0) =~= all);
    while at < layout.columns.len()
        invariant
            at <= layout.columns@.len(),
            all == layout.columns@,
            all == old(layout).columns@,
            ColumnId::named(stored@.key) == Some(id),
            place_of(all, id) == at + place_of(all.skip(at as int), id),
        decreases layout.columns@.len() - at,
    {
        assert(all.skip(at as int)[0] == all[at as int]);
        let mut column = layout.columns[at];
        if column.id == id {
            if let Some(width) = stored.width {
                column.width = width;
            }
            if let Some(visible) = stored.visible {
                column.visible = visible;
            }
            layout.columns.set(at, column);
            return ;
        }
        assert(all.skip(at as int).skip(1) =~= all.skip(at as int + 1));
        at += 1;
    }
}

/// Widths and visibility out of the file. A key this build does not know is
/// skipped; a column the file does not mention keeps its default.
pub fn apply_columns(layout: &mut TableLayout, held: &Vec<SessionColumn>)
    ensures
        final(layout).columns@ == with_entries(old(layout).columns@, column_views(held@)),
{
    let ghost all = column_views(held@);
    let ghost before = layout.columns@;
    let mut at: usize = 0;
    while at < held.len()
        invariant
            at <= held@.len(),
            all == column_views(held@),
            before == old(layout).columns@,
            layout.columns@ == with_entries(before, all.take(at as int)),
        decreases held@.len() - at,
    {
        assert(all.take(at as int + 1).drop_last() =~= all.take(at as int));
        assert(all.take(at as int + 1).last() == held@[at as int]@);
        apply_column(layout, &held[at]);
        at += 1;
    }
    assert(all.take(at as int) =~= all);
}

/// A sort comes out of the file as it went in.
pub proof fn law_a_sort_comes_back_as_it_went(column: ColumnId, descending: bool)
    ensures
        sort_in(Some(sort_entry(column, descending))) == Some((column, descending)),
{
    law_a_key_names_its_column(column);
    reveal_strlit("asc");
    reveal_strlit("desc");
    assert(lower("asc"@).len() != lower("desc"@).len());
}

/// No two of these columns are the same one.
pub open spec fn all_differ(columns: Seq<ColumnConfig>) -> bool {
    forall|j: int, k: int|
        0 <= j < k < columns.len() ==> (#[trigger] columns[j]).id != (#[trigger] columns[k]).id
}

/// The same columns in the same order, however wide and whether turned on or
/// not.
pub open spec fn same_columns(a: Seq<ColumnConfig>, b: Seq<ColumnConfig>) -> bool {
    a.len() == b.len() && forall|k: int|
        0 <= k < a.len() ==> (#[trigger] a[k]).id == (#[trigger] b[k]).id
}

proof fn lemma_place(columns: Seq<ColumnConfig>, place: int)
    requires
        all_differ(columns),
        0 <= place < columns.len(),
    ensures
        place_of(columns, columns[place].id) == place,
    decreases columns.len(),
{
    if place > 0 {
        assert(columns[0].id != columns[place].id);
        let rest = columns.skip(1);
        assert(all_differ(rest)) by {
            assert forall|j: int, k: int| 0 <= j < k < rest.len() implies (
            #[trigger] rest[j]).id != (#[trigger] rest[k]).id by {
                assert(rest[j] == columns[j + 1] && rest[k] == columns[k + 1]);
            }
        }
        lemma_place(rest, place - 1);
        assert(rest[place - 1] == columns[place]);
    }
}

proof fn lemma_restored(columns: Seq<ColumnConfig>, kept: Seq<ColumnConfig>, count: int)
    requires
        same_columns(columns, kept),
        all_differ(kept),
        0 <= count <= kept.len(),
    ensures
        with_entries(columns, column_entries(kept).take(count)) == kept.take(count)
            + columns.skip(count),
    decreases count,
{
    let stored = column_entries(kept).take(count);
    if count == 0 {
        assert(kept.take(0) + columns.skip(0) =~= columns);
    } else {
        lemma_restored(columns, kept, count - 1);
        let before = kept.take(count - 1) + columns.skip(count - 1);
        assert(stored.drop_last() =~= column_entries(kept).take(count - 1));
        let id = kept[count - 1].id;
        assert(stored.last().key == id.look().key);
        law_a_key_names_its_column(id);
        assert(same_columns(before, kept)) by {
            assert forall|k: int| 0 <= k < before.len() implies (#[trigger] before[k]).id == (
            #[trigger] kept[k]).id by {
                assert(columns[k].id == kept[k].id);
            }
        }
        assert(all_differ(before)) by {
            assert forall|j: int, k: int| 0 <= j < k < before.len() implies (
            #[trigger] before[j]).id != (#[trigger] before[k]).id by {
                assert(before[j].id == kept[j].id && before[k].id == kept[k].id);
            }
        }
        assert(before[count - 1].id == id);
        lemma_place(before, count - 1);
        assert(with_entry(before, stored.last()) =~= kept.take(count) + columns.skip(count));
    }
}

/// A table's columns come out of the file as they went in, into any table of
/// the same columns.
pub proof fn law_columns_come_back_as_they_went(
    columns: Seq<ColumnConfig>,
    kept: Seq<ColumnConfig>,
)
    requires
        same_columns(columns, kept),
        all_differ(kept),
    ensures
        with_entries(columns, column_entries(kept)) == kept,
{
    lemma_restored(columns, kept, kept.len() as int);
    assert(column_entries(kept).take(kept.len() as int) =~= column_entries(kept));
    assert(kept.take(kept.len() as int) + columns.skip(kept.len() as int) =~= kept);
}

/// No column stands twice in the Pods table.
pub proof fn law_the_pod_columns_differ()
    ensures
        all_differ(pods_open_with()),
{
}

/// A sort is kept as the column's key and the way it goes, and read in
/// capitals too; any other way goes up.
pub proof fn law_a_sort_is_kept_by_its_words(column: ColumnId, way: Seq<char>)
    ensures
        sort_entry(column, true) == (column.look().key, "desc"@),
        sort_entry(column, false) == (column.look().key, "asc"@),
        lower(way) == lower("desc"@) ==> sort_in(Some((column.look().key, way))) == Some(
            (column, true),
        ),
        lower(way) != lower("desc"@) ==> sort_in(Some((column.look().key, way))) == Some(
            (column, false),
        ),
        sort_in(None) is None,
{
    law_a_key_names_its_column(column);
}

/// A stored column changes the one of its key and no other, and only in what
/// it says.
pub proof fn law_a_stored_column_changes_its_own(
    columns: Seq<ColumnConfig>,
    stored: SessionColumnView,
    at: int,
    other: int,
)
    requires
        0 <= at < columns.len(),
        0 <= other < columns.len(),
        other != at,
        all_differ(columns),
        stored.key == columns[at].id.look().key,
    ensures
        with_entry(columns, stored).len() == columns.len(),
        with_entry(columns, stored)[other] == columns[other],
        with_entry(columns, stored)[at].id == columns[at].id,
        stored.width matches Some(width) ==> with_entry(columns, stored)[at].width == width,
        stored.width is None ==> with_entry(columns, stored)[at].width == columns[at].width,
        stored.visible matches Some(visible) ==> with_entry(columns, stored)[at].visible == visible,
        stored.visible is None ==> with_entry(columns, stored)[at].visible == columns[at].visible,
{
    law_a_key_names_its_column(columns[at].id);
    lemma_place(columns, at);
}

} // verus!
