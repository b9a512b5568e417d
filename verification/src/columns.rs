//! The columns a list table shows: which ones, in what order, how wide, and
//! what it drops first when the terminal is too narrow for all of them.
//!
//! One enum, and one ordered list of it per kind of table. What a column
//! *starts out* visible as belongs to the table and not to the column, so
//! the list carries that, and everything else rides on the variant.

use vstd::prelude::*;

use crate::text;

verus! {

/// The two columns the selection marker (`› `) is always given, whether or
/// not the row under the cursor is on screen.
pub const SELECTION_WIDTH: u16 = 2;

/// The scrollbar's own column, at the right edge of every list table. It is
/// reserved whether or not the list overflows, so a table does not shuffle
/// sideways as rows arrive.
pub const SCROLLBAR_WIDTH: u16 = 1;

/// The blank column between two neighbouring cells.
pub const COLUMN_SPACING: u16 = 1;

/// The fewest cells any column is drawn in. Under three there is no room for
/// a value and the sign that it was cut.
pub const MIN_COLUMN_WIDTH: u16 = 3;

/// The fewest cells a flexible column is squeezed to before the table starts
/// dropping optional columns from the right. A pod's name is its deployment's
/// plus two hashes, which is about this much.
pub const MIN_FLEXIBLE_WIDTH: u16 = 24;

/// Every column any list offers.
#[derive(Clone, Copy, Debug, PartialEq, Eq, Hash, Structural)]
pub enum ColumnId {
    Name,
    Namespace,
    Ready,
    Status,
    Restarts,
    Age,
    Node,
    Ip,
    Owner,
    Image,
}

/// Which edge of its cell a value is read against.
#[derive(Clone, Copy, Debug, PartialEq, Eq, Structural)]
pub enum Alignment {
    Left,
    Right,
}

/// How much room a column asks for: a share of what is left over, or so many
/// cells.
#[derive(Clone, Copy, Debug, PartialEq, Eq, Structural)]
pub enum Constraint {
    Fill(u16),
    Length(u16),
}

/// What one column is: what the session file calls it, what its header says,
/// and how much room it wants.
#[derive(Clone, Copy, Debug, PartialEq, Eq)]
pub struct ColumnSpec {
    /// The identity. It is what the session file records and what a clicked
    /// header carries back to the screen that drew it, so it is lowercase and
    /// it does not change between releases: renaming one silently drops
    /// somebody's stored width.
    pub key: &'static str,
    /// What the header cell says.
    pub label: &'static str,
    /// What the column opens at. The flexible column has none and takes
    /// whatever is left over instead.
    pub width: u16,
    /// The fewest cells the column is drawn in.
    pub min: u16,
    /// The one column per table that takes the width left over. Its stored
    /// width is ignored.
    pub flexible: bool,
    /// Numbers read better against the right edge of their cell.
    pub align: Alignment,
    /// Whether the column stays whatever happens: the auto-drop never takes a
    /// pinned column away.
    pub pinned: bool,
}

/// What a column is.
pub struct ColumnLook {
    pub key: Seq<char>,
    pub label: Seq<char>,
    pub width: u16,
    pub min: u16,
    pub flexible: bool,
    pub align: Alignment,
    pub pinned: bool,
}

impl View for ColumnSpec {
    type V = ColumnLook;

    open spec fn view(&self) -> ColumnLook {
        ColumnLook {
            key: self.key@,
            label: self.label@,
            width: self.width,
            min: self.min,
            flexible: self.flexible,
            align: self.align,
            pinned: self.pinned,
        }
    }
}

impl ColumnLook {
    /// A column of one width.
    pub open spec fn fixed(key: Seq<char>, label: Seq<char>, width: u16) -> ColumnLook {
        ColumnLook {
            key,
            label,
            width,
            min: MIN_COLUMN_WIDTH,
            flexible: false,
            align: Alignment::Left,
            pinned: false,
        }
    }

    /// A count, which is a fixed column read against its right edge.
    pub open spec fn count(key: Seq<char>, label: Seq<char>, width: u16) -> ColumnLook {
        ColumnLook { align: Alignment::Right, ..ColumnLook::fixed(key, label, width) }
    }
}

impl ColumnSpec {
    fn fixed(key: &'static str, label: &'static str, width: u16) -> (column: Self)
        ensures
            column@ == ColumnLook::fixed(key@, label@, width),
    {
        ColumnSpec {
            key,
            label,
            width,
            min: MIN_COLUMN_WIDTH,
            flexible: false,
            align: Alignment::Left,
            pinned: false,
        }
    }

    /// A count, which is a fixed column read against its right edge.
    fn count(key: &'static str, label: &'static str, width: u16) -> (column: Self)
        ensures
            column@ == ColumnLook::count(key@, label@, width),
    {
        ColumnSpec { align: Alignment::Right, ..ColumnSpec::fixed(key, label, width) }
    }

    /// The column a table is really about, which is always the one that takes
    /// the leftover width and always one it will not drop.
    fn flexible(key: &'static str, label: &'static str, min: u16) -> (column: Self)
        ensures
            column@ == (ColumnLook {
                min,
                flexible: true,
                pinned: true,
                ..ColumnLook::fixed(key@, label@, 0)
            }),
    {
        ColumnSpec { min, flexible: true, pinned: true, ..ColumnSpec::fixed(key, label, 0) }
    }

    /// A fixed column the table keeps however narrow it gets.
    fn pinned(key: &'static str, label: &'static str, width: u16) -> (column: Self)
        ensures
            column@ == (ColumnLook { pinned: true, ..ColumnLook::fixed(key@, label@, width) }),
    {
        ColumnSpec { pinned: true, ..ColumnSpec::fixed(key, label, width) }
    }
}

impl ColumnId {
    /// What the column is: the name is flexible, the status is pinned, and
    /// the rest are dropped when there is no room.
    pub open spec fn look(self) -> ColumnLook {
        match self {
            ColumnId::Name => ColumnLook {
                min: MIN_FLEXIBLE_WIDTH,
                flexible: true,
                pinned: true,
                ..ColumnLook::fixed("name"@, "Name"@, 0)
            },
            ColumnId::Namespace => ColumnLook::fixed("ns"@, "Namespace"@, 14),
            ColumnId::Ready => ColumnLook::count("ready"@, "Ready"@, 5),
            ColumnId::Status => ColumnLook {
                pinned: true,
                ..ColumnLook::fixed("status"@, "Status"@, 20)
            },
            ColumnId::Restarts => ColumnLook::count("restarts"@, "\u{21bb}"@, 3),
            ColumnId::Age => ColumnLook::count("age"@, "Age"@, 5),
            ColumnId::Node => ColumnLook::fixed("node"@, "Node"@, 24),
            ColumnId::Ip => ColumnLook::fixed("ip"@, "IP"@, 15),
            ColumnId::Owner => ColumnLook::fixed("owner"@, "Owner"@, 24),
            ColumnId::Image => ColumnLook::fixed("image"@, "Image"@, 32),
        }
    }

    /// Every column there is, which is what a key out of the session file is
    /// resolved against.
    pub const ALL: [ColumnId; 10] = [
        ColumnId::Name,
        ColumnId::Namespace,
        ColumnId::Ready,
        ColumnId::Status,
        ColumnId::Restarts,
        ColumnId::Age,
        ColumnId::Node,
        ColumnId::Ip,
        ColumnId::Owner,
        ColumnId::Image,
    ];

    pub fn spec(self) -> (column: ColumnSpec)
        ensures
            column@ == self.look(),
    {
        match self {
            ColumnId::Name => ColumnSpec::flexible("name", "Name", MIN_FLEXIBLE_WIDTH),
            ColumnId::Namespace => ColumnSpec::fixed("ns", "Namespace", 14),
            ColumnId::Ready => ColumnSpec::count("ready", "Ready", 5),
            ColumnId::Status => ColumnSpec::pinned("status", "Status", 20),
            ColumnId::Restarts => ColumnSpec::count("restarts", "\u{21bb}", 3),
            ColumnId::Age => ColumnSpec::count("age", "Age", 5),
            ColumnId::Node => ColumnSpec::fixed("node", "Node", 24),
            ColumnId::Ip => ColumnSpec::fixed("ip", "IP", 15),
            ColumnId::Owner => ColumnSpec::fixed("owner", "Owner", 24),
            ColumnId::Image => ColumnSpec::fixed("image", "Image", 32),
        }
    }

    pub fn key(self) -> (key: &'static str)
        ensures
            key@ == self.look().key,
    {
        self.spec().key
    }

    pub fn label(self) -> (label: &'static str)
        ensures
            label@ == self.look().label,
    {
        self.spec().label
    }

    /// The column that a key names, when one does.
    pub open spec fn named(key: Seq<char>) -> Option<ColumnId> {
        if exists|id: ColumnId| (#[trigger] id.look()).key == key {
            Some(choose|id: ColumnId| (#[trigger] id.look()).key == key)
        } else {
            None
        }
    }

    /// The column that key names. An unknown key comes out of a session file
    /// written by an older build and is dropped.
    pub fn from_key(key: &str) -> (found: Option<Self>)
        ensures
            found == ColumnId::named(key@),
            found matches Some(id) ==> id.look().key == key@,
    {
        let mut at: usize = 0;
        while at < 10
            invariant
                at <= 10,
                forall|k: int|
                    0 <= k < at ==> (#[trigger] ColumnId::ALL[k]).look().key != key@,
            decreases 10 - at,
        {
            let id = ColumnId::ALL[at];
            if text::same(id.key(), key) {
                proof {
                    law_a_key_names_its_column(id);
                }
                return Some(id);
            }
            at += 1;
        }
        assert forall|id: ColumnId| (#[trigger] id.look()).key != key@ by {
            assert(ColumnId::ALL[id.place()] == id);
        }
        None
    }

    /// Where the column stands among all of them.
    pub open spec fn place(self) -> int {
        match self {
            ColumnId::Name => 0,
            ColumnId::Namespace => 1,
            ColumnId::Ready => 2,
            ColumnId::Status => 3,
            ColumnId::Restarts => 4,
            ColumnId::Age => 5,
            ColumnId::Node => 6,
            ColumnId::Ip => 7,
            ColumnId::Owner => 8,
            ColumnId::Image => 9,
        }
    }
}

/// Two columns cannot share a session key, so the column that a key names is
/// the one the key was taken from.
pub proof fn law_every_key_is_its_own(a: ColumnId, b: ColumnId)
    ensures
        a.look().key == b.look().key <==> a == b,
{
    reveal_strlit("name");
    reveal_strlit("ns");
    reveal_strlit("ready");
    reveal_strlit("status");
    reveal_strlit("restarts");
    reveal_strlit("age");
    reveal_strlit("node");
    reveal_strlit("ip");
    reveal_strlit("owner");
    reveal_strlit("image");
    assert(a.look().key.len() == b.look().key.len() && a.look().key[0] == b.look().key[0]
        && a.look().key[1] == b.look().key[1] && a.look().key.last() == b.look().key.last() ==> a
        == b);
}

/// The key of a column names that column.
pub proof fn law_a_key_names_its_column(id: ColumnId)
    ensures
        ColumnId::named(id.look().key) == Some(id),
{
    let found = choose|found: ColumnId| (#[trigger] found.look()).key == id.look().key;
    law_every_key_is_its_own(found, id);
}

/// Every column has room for its own header.
pub proof fn law_every_header_fits_its_column(id: ColumnId)
    ensures
        id.look().label.len() <= id.look().width || id.look().label.len() <= id.look().min,
{
    reveal_strlit("Name");
    reveal_strlit("Namespace");
    reveal_strlit("Ready");
    reveal_strlit("Status");
    reveal_strlit("\u{21bb}");
    reveal_strlit("Age");
    reveal_strlit("Node");
    reveal_strlit("IP");
    reveal_strlit("Owner");
    reveal_strlit("Image");
}

/// One column as a table currently has it: its identity, plus the two things
/// a user is allowed to change about it and the session file remembers.
#[derive(Clone, Copy, Debug, PartialEq, Eq, Structural)]
pub struct ColumnConfig {
    pub id: ColumnId,
    pub visible: bool,
    pub width: u16,
}

impl ColumnConfig {
    pub fn shown(id: ColumnId) -> (column: Self)
        ensures
            column == (ColumnConfig { id, visible: true, width: id.look().width }),
    {
        ColumnConfig { id, visible: true, width: id.spec().width }
    }

    /// A column the table offers but does not open with: room it would rather
    /// spend on the name until somebody asks for it back.
    pub fn hidden(id: ColumnId) -> (column: Self)
        ensures
            column == (ColumnConfig { id, visible: false, width: id.look().width }),
    {
        ColumnConfig { id, visible: false, width: id.spec().width }
    }
}

/// A column that its table opens with, or only offers.
pub open spec fn offered(id: ColumnId, visible: bool) -> ColumnConfig {
    ColumnConfig { id, visible, width: id.look().width }
}

/// The Pods table, in the order it opens with.
pub open spec fn pods_open_with() -> Seq<ColumnConfig> {
    seq![
        offered(ColumnId::Name, true),
        offered(ColumnId::Namespace, false),
        offered(ColumnId::Ready, true),
        offered(ColumnId::Status, true),
        offered(ColumnId::Restarts, true),
        offered(ColumnId::Age, true),
        offered(ColumnId::Owner, false),
        offered(ColumnId::Node, false),
        offered(ColumnId::Ip, false),
        offered(ColumnId::Image, false),
    ]
}

/// The Pods table, in the order it opens with. The namespace is on the tab,
/// so its column opens hidden and is turned on for a tab over every
/// namespace.
pub fn pod_columns() -> (columns: Vec<ColumnConfig>)
    ensures
        columns@ == pods_open_with(),
{
    let columns = vec![
        ColumnConfig::shown(ColumnId::Name),
        ColumnConfig::hidden(ColumnId::Namespace),
        ColumnConfig::shown(ColumnId::Ready),
        ColumnConfig::shown(ColumnId::Status),
        ColumnConfig::shown(ColumnId::Restarts),
        ColumnConfig::shown(ColumnId::Age),
        ColumnConfig::hidden(ColumnId::Owner),
        ColumnConfig::hidden(ColumnId::Node),
        ColumnConfig::hidden(ColumnId::Ip),
        ColumnConfig::hidden(ColumnId::Image),
    ];
    assert(columns@ =~= pods_open_with());
    columns
}

/// The smaller of a length and the most a `u16` holds.
pub open spec fn capped(n: int) -> int {
    if n <= u16::MAX {
        n
    } else {
        u16::MAX as int
    }
}

/// The fewest cells a column is drawn in: the flexible one's minimum, or its
/// own width where that is over the minimum.
pub open spec fn least_width(column: ColumnConfig) -> int {
    let look = column.id.look();
    if look.flexible || column.width < look.min {
        look.min as int
    } else {
        column.width as int
    }
}

/// The fewest cells these columns are drawn in, gaps apart.
pub open spec fn least_widths(columns: Seq<ColumnConfig>) -> int
    decreases columns.len(),
{
    if columns.len() == 0 {
        0
    } else {
        least_widths(columns.drop_last()) + least_width(columns.last())
    }
}

/// What these columns need to draw with the flexible one still readable:
/// every fixed width, the flexible column's own minimum, and a gap between
/// each pair, as far as a `u16` counts.
pub open spec fn needed(columns: Seq<ColumnConfig>) -> int {
    let gaps = if columns.len() == 0 {
        0
    } else {
        COLUMN_SPACING * (capped(columns.len() as int) - 1)
    };
    capped(gaps + least_widths(columns))
}

/// Where the right-most column stands that may be dropped, when one may.
pub open spec fn last_unpinned(columns: Seq<ColumnConfig>) -> Option<int>
    decreases columns.len(),
{
    if columns.len() == 0 {
        None
    } else if !columns.last().id.look().pinned {
        Some(columns.len() - 1)
    } else {
        last_unpinned(columns.drop_last())
    }
}

/// These columns without those that go: the right-most unpinned one for as
/// long as they need more than there is.
pub open spec fn narrowed(columns: Seq<ColumnConfig>, available: int) -> Seq<ColumnConfig>
    decreases columns.len(),
{
    if needed(columns) <= available {
        columns
    } else {
        match last_unpinned(columns) {
            Some(index) if 0 <= index < columns.len() => narrowed(
                columns.remove(index),
                available,
            ),
            _ => columns,
        }
    }
}

/// The columns that are turned on.
pub open spec fn turned_on(columns: Seq<ColumnConfig>) -> Seq<ColumnConfig>
    decreases columns.len(),
{
    if columns.len() == 0 {
        seq![]
    } else if columns.last().visible {
        turned_on(columns.drop_last()).push(columns.last())
    } else {
        turned_on(columns.drop_last())
    }
}

/// Where the first column of this identity stands, or past the last.
pub open spec fn place_of(columns: Seq<ColumnConfig>, id: ColumnId) -> nat
    decreases columns.len(),
{
    if columns.len() == 0 || columns[0].id == id {
        0
    } else {
        1 + place_of(columns.skip(1), id)
    }
}

/// These columns with one turned on or off, where there is one of that
/// identity.
pub open spec fn with_visible(
    columns: Seq<ColumnConfig>,
    id: ColumnId,
    visible: bool,
) -> Seq<ColumnConfig> {
    let at = place_of(columns, id) as int;
    if at < columns.len() {
        columns.update(at, ColumnConfig { visible, ..columns[at] })
    } else {
        columns
    }
}

/// What these columns need to draw with the flexible one still readable.
fn required_width(columns: &Vec<ColumnConfig>) -> (width: u16)
    ensures
        width == needed(columns@),
{
    let len: u16 = if columns.len() <= u16::MAX as usize {
        columns.len() as u16
    } else {
        u16::MAX
    };
    let mut width: u16 = if len == 0 {
        0
    } else {
        COLUMN_SPACING * (len - 1)
    };
    let ghost gaps = width as int;
    let mut at: usize = 0;
    assert(columns@.take(0) =~= seq![]);
    while at < columns.len()
        invariant
            at <= columns@.len(),
            width == capped(gaps + least_widths(columns@.take(at as int))),
        decreases columns@.len() - at,
    {
        assert(columns@.take(at as int + 1).drop_last() =~= columns@.take(at as int));
        let column = columns[at];
        let look = column.id.spec();
        let least: u16 = if look.flexible || column.width < look.min {
            look.min
        } else {
            column.width
        };
        width = width.saturating_add(least);
        at += 1;
    }
    assert(columns@.take(at as int) =~= columns@);
    width
}

/// Where the right-most column stands that may be dropped.
fn droppable(columns: &Vec<ColumnConfig>) -> (index: Option<usize>)
    ensures
        match index {
            Some(index) => last_unpinned(columns@) == Some(index as int) && index < columns@.len(),
            None => last_unpinned(columns@) is None,
        },
{
    let mut at: usize = columns.len();
    assert(columns@.take(at as int) =~= columns@);
    while at > 0
        invariant
            at <= columns@.len(),
            last_unpinned(columns@) == last_unpinned(columns@.take(at as int)),
        decreases at,
    {
        assert(columns@.take(at as int).drop_last() =~= columns@.take(at - 1));
        at -= 1;
        if !columns[at].id.spec().pinned {
            return Some(at);
        }
    }
    None
}

/// One table's columns as they stand: what it opened with, plus whatever the
/// session file has done to them since.
#[derive(Debug, PartialEq, Eq)]
pub struct TableLayout {
    pub columns: Vec<ColumnConfig>,
}

impl Clone for TableLayout {
    fn clone(&self) -> (copy: Self)
        ensures
            copy.columns@ == self.columns@,
    {
        TableLayout::new(self.columns.as_slice())
    }
}

impl TableLayout {
    /// A table opened at its defaults.
    pub fn new(defaults: &[ColumnConfig]) -> (layout: Self)
        ensures
            layout.columns@ == defaults@,
    {
        let mut columns: Vec<ColumnConfig> = Vec::new();
        let mut at: usize = 0;
        while at < defaults.len()
            invariant
                at <= defaults@.len(),
                columns@ == defaults@.take(at as int),
            decreases defaults@.len() - at,
        {
            columns.push(defaults[at]);
            assert(columns@ =~= defaults@.take(at as int + 1));
            at += 1;
        }
        assert(defaults@.take(at as int) =~= defaults@);
        TableLayout { columns }
    }

    /// Turns one column on or off, if the table has it.
    pub fn set_visible(&mut self, id: ColumnId, visible: bool)
        ensures
            final(self).columns@ == with_visible(old(self).columns@, id, visible),
    {
        let ghost all = self.columns@;
        let mut at: usize = 0;
        assert(all.skip(0) =~= all);
        while at < self.columns.len()
            invariant
                at <= self.columns@.len(),
                all == self.columns@,
                all == old(self).columns@,
                place_of(all, id) == at + place_of(all.skip(at as int), id),
            decreases self.columns@.len() - at,
        {
            assert(all.skip(at as int)[0] == all[at as int]);
            let mut column = self.columns[at];
            if column.id == id {
                column.visible = visible;
                self.columns.set(at, column);
                return ;
            }
            assert(all.skip(at as int).skip(1) =~= all.skip(at as int + 1));
            at += 1;
        }
    }

    /// The width the columns and the gaps between them share, inside a pane
    /// `inner_width` wide: what the selection marker and the scrollbar take is
    /// spent before a column sees any of it.
    pub fn available_width(inner_width: u16) -> (width: u16)
        ensures
            width == if inner_width >= SELECTION_WIDTH + SCROLLBAR_WIDTH {
                inner_width - SELECTION_WIDTH - SCROLLBAR_WIDTH
            } else {
                0
            },
    {
        inner_width.saturating_sub(SELECTION_WIDTH).saturating_sub(SCROLLBAR_WIDTH)
    }

    /// The columns this table draws in `available` cells, dropping the
    /// right-most unpinned one for as long as the flexible column would
    /// otherwise fall under its minimum. A pinned column never goes.
    pub fn visible_columns(&self, available: u16) -> (columns: Vec<ColumnConfig>)
        ensures
            columns@ == narrowed(turned_on(self.columns@), available as int),
    {
        let mut columns: Vec<ColumnConfig> = Vec::new();
        let ghost all = self.columns@;
        let mut at: usize = 0;
        while at < self.columns.len()
            invariant
                at <= self.columns@.len(),
                all == self.columns@,
                columns@ == turned_on(all.take(at as int)),
            decreases self.columns@.len() - at,
        {
            assert(all.take(at as int + 1).drop_last() =~= all.take(at as int));
            if self.columns[at].visible {
                columns.push(self.columns[at]);
            }
            at += 1;
        }
        assert(all.take(at as int) =~= all);
        let ghost on = columns@;
        while required_width(&columns) > available
            invariant
                narrowed(on, available as int) == narrowed(columns@, available as int),
            ensures
                narrowed(on, available as int) == columns@,
            decreases columns@.len(),
        {
            let index = match droppable(&columns) {
                Some(index) => index,
                None => {
                    break;
                },
            };
            columns.remove(index);
        }
        columns
    }

    pub fn constraint(column: ColumnConfig) -> (constraint: Constraint)
        ensures
            constraint == (if column.id.look().flexible || column.width == 0 {
                Constraint::Fill(1)
            } else {
                Constraint::Length(column.width)
            }),
    {
        if column.id.spec().flexible || column.width == 0 {
            Constraint::Fill(1)
        } else {
            Constraint::Length(column.width)
        }
    }
}

/// One of these places.
pub open spec fn is_among(places: Seq<int>, place: int) -> bool {
    exists|k: int| 0 <= k < places.len() && #[trigger] places[k] == place
}

/// `part` is `whole` at these places, in the same order.
pub open spec fn taken_at(
    part: Seq<ColumnConfig>,
    whole: Seq<ColumnConfig>,
    places: Seq<int>,
) -> bool {
    &&& places.len() == part.len()
    &&& forall|k: int|
        0 <= k < places.len() ==> 0 <= #[trigger] places[k] < whole.len() && part[k]
            == whole[places[k]]
    &&& forall|j: int, k: int|
        0 <= j < k < places.len() ==> #[trigger] places[j] < #[trigger] places[k]
}

proof fn lemma_last_unpinned(columns: Seq<ColumnConfig>)
    ensures
        match last_unpinned(columns) {
            Some(index) => {
                &&& 0 <= index < columns.len()
                &&& !columns[index].id.look().pinned
                &&& forall|k: int|
                    index < k < columns.len() ==> (#[trigger] columns[k]).id.look().pinned
            },
            None => forall|k: int|
                0 <= k < columns.len() ==> (#[trigger] columns[k]).id.look().pinned,
        },
    decreases columns.len(),
{
    if columns.len() > 0 && columns.last().id.look().pinned {
        lemma_last_unpinned(columns.drop_last());
        assert forall|k: int| 0 <= k < columns.len() && (last_unpinned(columns) matches Some(index)
            ==> index < k) implies (#[trigger] columns[k]).id.look().pinned by {
            if k < columns.len() - 1 {
                assert(columns.drop_last()[k] == columns[k]);
            }
        }
    }
}

/// What is drawn fits, or there is nothing left that may go. The columns
/// that stay keep their order, a pinned one always stays, and one that goes
/// takes every unpinned one to its right with it.
pub proof fn law_columns_drop_from_the_right(
    columns: Seq<ColumnConfig>,
    available: int,
) -> (places: Seq<int>)
    ensures
        taken_at(narrowed(columns, available), columns, places),
        forall|k: int|
            0 <= k < columns.len() && (#[trigger] columns[k]).id.look().pinned ==> is_among(
                places,
                k,
            ),
        forall|j: int, k: int|
            0 <= j < k < columns.len() && !(#[trigger] columns[j]).id.look().pinned && !(
            #[trigger] columns[k]).id.look().pinned && is_among(places, k) ==> is_among(places, j),
        needed(narrowed(columns, available)) <= available || forall|k: int|
            0 <= k < narrowed(columns, available).len() ==> (#[trigger] narrowed(
                columns,
                available,
            )[k]).id.look().pinned,
    decreases columns.len(),
{
    lemma_last_unpinned(columns);
    let all = Seq::new(columns.len(), |k: int| k);
    match last_unpinned(columns) {
        Some(gone) if needed(columns) > available => {
            let rest = columns.remove(gone);
            let inner = law_columns_drop_from_the_right(rest, available);
            let shift = |k: int| if k < gone { k } else { k + 1 };
            let places = inner.map_values(shift);
            assert forall|k: int|
                0 <= k < columns.len() && (#[trigger] columns[k]).id.look().pinned implies is_among(
                places,
                k,
            ) by {
                let at = if k < gone { k } else { k - 1 };
                assert(rest[at] == columns[k]);
                assert(is_among(inner, at));
                let i = choose|i: int| 0 <= i < inner.len() && #[trigger] inner[i] == at;
                assert(places[i] == k);
            }
            assert forall|j: int, k: int|
                0 <= j < k < columns.len() && !(#[trigger] columns[j]).id.look().pinned && !(
                #[trigger] columns[k]).id.look().pinned && is_among(places, k) implies is_among(
                places,
                j,
            ) by {
                let i = choose|i: int| 0 <= i < places.len() && #[trigger] places[i] == k;
                assert(places[i] == shift(inner[i]));
                assert(k < gone);
                assert(inner[i] == k);
                assert(rest[j] == columns[j] && rest[k] == columns[k]);
                assert(is_among(inner, k));
                assert(is_among(inner, j));
                let m = choose|m: int| 0 <= m < inner.len() && #[trigger] inner[m] == j;
                assert(places[m] == j);
            }
            places
        },
        _ => {
            assert forall|k: int| 0 <= k < columns.len() implies is_among(all, k) by {
                assert(all[k] == k);
            }
            all
        },
    }
}

/// Turning a column on or off moves none of them.
pub proof fn law_a_hidden_column_holds_its_place(
    columns: Seq<ColumnConfig>,
    id: ColumnId,
    visible: bool,
    place: int,
)
    requires
        0 <= place < columns.len(),
    ensures
        with_visible(columns, id, visible).len() == columns.len(),
        with_visible(columns, id, visible)[place].id == columns[place].id,
        with_visible(columns, id, visible)[place].width == columns[place].width,
{
}

/// What each column is called, in the session file and in its header, and
/// how wide it opens.
pub proof fn law_each_column_has_its_name()
    ensures
        ColumnId::Name.look().key == "name"@ && ColumnId::Name.look().label == "Name"@,
        ColumnId::Namespace.look().key == "ns"@ && ColumnId::Namespace.look().label == "Namespace"@,
        ColumnId::Ready.look().key == "ready"@ && ColumnId::Ready.look().label == "Ready"@,
        ColumnId::Status.look().key == "status"@ && ColumnId::Status.look().label == "Status"@,
        ColumnId::Restarts.look().key == "restarts"@ && ColumnId::Restarts.look().label
            == "\u{21bb}"@,
        ColumnId::Age.look().key == "age"@ && ColumnId::Age.look().label == "Age"@,
        ColumnId::Node.look().key == "node"@ && ColumnId::Node.look().label == "Node"@,
        ColumnId::Ip.look().key == "ip"@ && ColumnId::Ip.look().label == "IP"@,
        ColumnId::Owner.look().key == "owner"@ && ColumnId::Owner.look().label == "Owner"@,
        ColumnId::Image.look().key == "image"@ && ColumnId::Image.look().label == "Image"@,
{
}

/// The name takes what is left over, it and the status always stay, the
/// counts stand against the right edge, and every other column has a width
/// of its own.
pub proof fn law_the_name_takes_the_rest_and_stays(id: ColumnId)
    ensures
        id.look().flexible <==> id == ColumnId::Name,
        id.look().pinned <==> id == ColumnId::Name || id == ColumnId::Status,
        id.look().align == Alignment::Right <==> id == ColumnId::Ready || id == ColumnId::Restarts
            || id == ColumnId::Age,
        id == ColumnId::Name ==> id.look().min == 24,
        id != ColumnId::Name ==> id.look().min == 3,
        id != ColumnId::Name ==> id.look().width >= 3,
        ColumnId::Status.look().width == 20 && ColumnId::Ready.look().width == 5,
        ColumnId::Restarts.look().width == 3 && ColumnId::Age.look().width == 5,
        ColumnId::Namespace.look().width == 14 && ColumnId::Node.look().width == 24,
        ColumnId::Ip.look().width == 15 && ColumnId::Owner.look().width == 24,
        ColumnId::Image.look().width == 32,
{
}

proof fn lemma_least_widths(a: Seq<ColumnConfig>, b: Seq<ColumnConfig>)
    ensures
        least_widths(a + b) == least_widths(a) + least_widths(b),
        least_widths(a) >= 0,
    decreases b.len(), a.len(),
{
    if a.len() > 0 {
        lemma_least_widths(a.drop_last(), seq![]);
    }
    if b.len() == 0 {
        assert(a + b =~= a);
    } else {
        lemma_least_widths(a, b.drop_last());
        assert((a + b).drop_last() =~= a + b.drop_last());
        assert((a + b).last() == b.last());
    }
}

/// Columns need what each of them needs and a gap between two: the name what
/// keeps it readable, and every other its width, three cells at least.
pub proof fn law_columns_need_their_widths_and_a_gap(
    a: Seq<ColumnConfig>,
    b: Seq<ColumnConfig>,
    one: ColumnConfig,
)
    requires
        0 < a.len() <= 1000,
        0 < b.len() <= 1000,
        needed(a) + needed(b) + 1 < u16::MAX,
    ensures
        needed(a + b) == needed(a) + 1 + needed(b),
        needed(Seq::empty()) == 0,
        one.id == ColumnId::Name ==> needed(seq![one]) == 24,
        one.id != ColumnId::Name && one.width >= 3 ==> needed(seq![one]) == one.width,
        one.id != ColumnId::Name && one.width < 3 ==> needed(seq![one]) == 3,
{
    reveal_with_fuel(least_widths, 2);
    lemma_least_widths(a, b);
    lemma_least_widths(b, a);
    assert(seq![one].drop_last() =~= Seq::<ColumnConfig>::empty());
}

/// Columns that fit all stay.
pub proof fn law_columns_that_fit_all_stay(columns: Seq<ColumnConfig>, available: int)
    requires
        needed(columns) <= available,
    ensures
        narrowed(columns, available) == columns,
{
}

/// The columns on screen are those that are turned on, in their order.
pub proof fn law_what_is_turned_on_is_shown(
    a: Seq<ColumnConfig>,
    b: Seq<ColumnConfig>,
    one: ColumnConfig,
)
    ensures
        turned_on(a + b) == turned_on(a) + turned_on(b),
        one.visible ==> turned_on(seq![one]) == seq![one],
        !one.visible ==> turned_on(seq![one]).len() == 0,
    decreases b.len(),
{
    let alone = seq![one];
    assert(alone.drop_last() =~= Seq::empty());
    assert(turned_on(alone.drop_last()) =~= seq![]);
    if one.visible {
        assert(turned_on(alone) =~= seq![one]);
    }
    if b.len() == 0 {
        assert(a + b =~= a);
        assert(turned_on(a) + turned_on(b) =~= turned_on(a));
    } else {
        law_what_is_turned_on_is_shown(a, b.drop_last(), one);
        assert((a + b).drop_last() =~= a + b.drop_last());
        assert((a + b).last() == b.last());
        assert(turned_on(a + b) =~= turned_on(a) + turned_on(b));
    }
}

/// Turning a column on or off does it to that column and to no other.
pub proof fn law_a_column_is_turned_by_itself(
    columns: Seq<ColumnConfig>,
    id: ColumnId,
    visible: bool,
    at: int,
    other: int,
)
    requires
        0 <= at < columns.len(),
        columns[at].id == id,
        forall|k: int| 0 <= k < at ==> (#[trigger] columns[k]).id != id,
        0 <= other < columns.len(),
        other != at,
    ensures
        with_visible(columns, id, visible)[at].visible == visible,
        with_visible(columns, id, visible)[other] == columns[other],
{
    lemma_found_at(columns, id, at);
}

proof fn lemma_found_at(columns: Seq<ColumnConfig>, id: ColumnId, at: int)
    requires
        0 <= at < columns.len(),
        columns[at].id == id,
        forall|k: int| 0 <= k < at ==> (#[trigger] columns[k]).id != id,
    ensures
        place_of(columns, id) == at,
    decreases at,
{
    if at > 0 {
        let rest = columns.skip(1);
        assert(columns[0].id != id);
        assert forall|k: int| 0 <= k < at - 1 implies (#[trigger] rest[k]).id != id by {
            assert(rest[k] == columns[k + 1]);
        }
        lemma_found_at(rest, id, at - 1);
    }
}

/// The table opens with its columns in this order.
pub proof fn law_the_columns_open_in_their_order()
    ensures
        pods_open_with().map_values(|column: ColumnConfig| column.id) == seq![
            ColumnId::Name,
            ColumnId::Namespace,
            ColumnId::Ready,
            ColumnId::Status,
            ColumnId::Restarts,
            ColumnId::Age,
            ColumnId::Owner,
            ColumnId::Node,
            ColumnId::Ip,
            ColumnId::Image,
        ],
        forall|at: int|
            0 <= at < pods_open_with().len() ==> (#[trigger] pods_open_with()[at]).width
                == pods_open_with()[at].id.look().width,
{
    assert(pods_open_with().map_values(|column: ColumnConfig| column.id) =~= seq![
        ColumnId::Name,
        ColumnId::Namespace,
        ColumnId::Ready,
        ColumnId::Status,
        ColumnId::Restarts,
        ColumnId::Age,
        ColumnId::Owner,
        ColumnId::Node,
        ColumnId::Ip,
        ColumnId::Image,
    ]);
}

/// The columns have the pane's width but for the mark of the selected row and
/// the scrollbar, which take three cells.
pub proof fn law_the_marks_take_three_cells(inner: u16, width: u16)
    requires
        call_ensures(TableLayout::available_width, (inner,), width),
    ensures
        inner >= 3 ==> width == inner - 3,
        inner < 3 ==> width == 0,
{
}

/// The name takes the width that is left, as does a column without one, and
/// every other its own.
pub proof fn law_a_column_asks_for_its_width(column: ColumnConfig, constraint: Constraint)
    requires
        call_ensures(TableLayout::constraint, (column,), constraint),
    ensures
        column.id == ColumnId::Name || column.width == 0 ==> constraint == Constraint::Fill(1),
        column.id != ColumnId::Name && column.width > 0 ==> constraint == Constraint::Length(
            column.width,
        ),
{
}

} // verus!
