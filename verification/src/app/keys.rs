//! Every key, in one table, which is what `?` renders.

use vstd::prelude::*;

verus! {

/// One row of the help modal, and one case of the dispatch.
#[derive(Clone, Copy, Debug, PartialEq, Eq)]
pub struct Key {
    /// As the help prints it.
    pub keys: &'static str,
    pub does: &'static str,
}

impl View for Key {
    type V = (Seq<char>, Seq<char>);

    open spec fn view(&self) -> (Seq<char>, Seq<char>) {
        (self.keys@, self.does@)
    }
}

/// What each row says.
pub open spec fn key_views(held: Seq<Key>) -> Seq<(Seq<char>, Seq<char>)> {
    held.map_values(|key: Key| key@)
}

/// Every key, and what it does.
pub open spec fn table() -> Seq<(Seq<char>, Seq<char>)> {
    seq![
        ("1-9  [ ]"@, "a tab by number; the previous, the next"@),
        ("j k  \u{2191} \u{2193}"@, "move the cursor in the focused pane"@),
        ("PgUp PgDn"@, "a screenful at a time"@),
        ("Home End"@, "the first row, the last row"@),
        ("Tab"@, "focus the table or the details pane"@),
        ("/"@, "search; Esc or Enter keeps the filter, Esc again clears it"@),
        ("Ctrl-U"@, "clear the search box"@),
        ("S"@, "sort by the next column; a header click sorts too"@),
        ("r"@, "read this tab again now"@),
        ("?"@, "this help"@),
        ("q  Ctrl-C"@, "quit"@),
    ]
}

/// Every key, and what it does.
pub fn keys() -> (rows: Vec<Key>)
    ensures
        key_views(rows@) == table(),
{
    let rows = vec![
        Key { keys: "1-9  [ ]", does: "a tab by number; the previous, the next" },
        Key { keys: "j k  \u{2191} \u{2193}", does: "move the cursor in the focused pane" },
        Key { keys: "PgUp PgDn", does: "a screenful at a time" },
        Key { keys: "Home End", does: "the first row, the last row" },
        Key { keys: "Tab", does: "focus the table or the details pane" },
        Key { keys: "/", does: "search; Esc or Enter keeps the filter, Esc again clears it" },
        Key { keys: "Ctrl-U", does: "clear the search box" },
        Key { keys: "S", does: "sort by the next column; a header click sorts too" },
        Key { keys: "r", does: "read this tab again now" },
        Key { keys: "?", does: "this help" },
        Key { keys: "q  Ctrl-C", does: "quit" },
    ];
    assert(key_views(rows@) =~= table());
    rows
}

/// The help's left column is twelve cells wide, and every row's keys fit it.
pub proof fn law_every_key_fits_the_help(row: int)
    requires
        0 <= row < table().len(),
    ensures
        0 < table()[row].0.len() <= 12,
        table()[row].1.len() > 0,
{
    reveal_strlit("1-9  [ ]");
    reveal_strlit("j k  \u{2191} \u{2193}");
    reveal_strlit("PgUp PgDn");
    reveal_strlit("Home End");
    reveal_strlit("Tab");
    reveal_strlit("/");
    reveal_strlit("Ctrl-U");
    reveal_strlit("S");
    reveal_strlit("r");
    reveal_strlit("?");
    reveal_strlit("q  Ctrl-C");
    reveal_strlit("a tab by number; the previous, the next");
    reveal_strlit("move the cursor in the focused pane");
    reveal_strlit("a screenful at a time");
    reveal_strlit("the first row, the last row");
    reveal_strlit("focus the table or the details pane");
    reveal_strlit("search; Esc or Enter keeps the filter, Esc again clears it");
    reveal_strlit("clear the search box");
    reveal_strlit("sort by the next column; a header click sorts too");
    reveal_strlit("read this tab again now");
    reveal_strlit("this help");
    reveal_strlit("quit");
}

} // verus!
