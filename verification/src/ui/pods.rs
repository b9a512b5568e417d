//! One tab's panes: the cells of the pods table, and the lines of the
//! details pane.

use vstd::prelude::*;
use vstd::string::*;

use crate::app::rows::{first_image, image_of};
use crate::app::screen::{Button, Target};
use crate::app::shell::{Shell, ShellView};
use crate::columns::{ColumnConfig, ColumnId};
use crate::config::Tab;
use crate::kube::pod::{Container, ContainerView, Pod, PodView};
use crate::search::{lit_among, Query};
use crate::store::{ScopeData, ScopeDataView};
use crate::text;
use crate::text::{decimal, pad, signed_decimal, texts};
use crate::timestamp::{age, age_of, civil_of, Timestamp};

use super::details::{
    chip, field, field_line, heading, push_line, quiet, refused, section, subtitle, subtitle_line,
    LABEL,
};
use super::paint::{
    least, line_views, most, rest_of, sum_to_end, Line, Rect, Span, SpanView, Tone,
};

verus! {

/// The tone of a pod's glyph and status word: what its state reads as, at a
/// glance.
pub open spec fn tone_of(pod: PodView) -> Tone {
    if pod.is_unhealthy() {
        Tone::Error
    } else if pod.is_up() {
        Tone::Success
    } else if pod.has_finished() {
        Tone::Muted
    } else if pod.is_moving() {
        Tone::Warning
    } else {
        Tone::Muted
    }
}

/// The tone the row's other cells take: the error one on a pod in trouble,
/// muted on one that has finished or is nothing in particular, and none
/// otherwise.
pub open spec fn row_tone_of(pod: PodView) -> Tone {
    if pod.is_unhealthy() {
        Tone::Error
    } else if pod.is_up() || (pod.is_moving() && !pod.has_finished()) {
        Tone::Plain
    } else {
        Tone::Muted
    }
}

proof fn lemma_glyphs()
    ensures
        "\u{25cf}"@ != "\u{25d0}"@,
        "\u{25cf}"@ != "\u{2717}"@,
        "\u{25cf}"@ != "\u{2713}"@,
        "\u{25cf}"@ != "\u{25cb}"@,
        "\u{25d0}"@ != "\u{2717}"@,
        "\u{25d0}"@ != "\u{2713}"@,
        "\u{25d0}"@ != "\u{25cb}"@,
        "\u{2717}"@ != "\u{2713}"@,
        "\u{2717}"@ != "\u{25cb}"@,
        "\u{2713}"@ != "\u{25cb}"@,
{
    reveal_strlit("\u{25cf}");
    reveal_strlit("\u{25d0}");
    reveal_strlit("\u{2717}");
    reveal_strlit("\u{2713}");
    reveal_strlit("\u{25cb}");
    assert("\u{25cf}"@[0] == '\u{25cf}');
    assert("\u{25d0}"@[0] == '\u{25d0}');
    assert("\u{2717}"@[0] == '\u{2717}');
    assert("\u{2713}"@[0] == '\u{2713}');
    assert("\u{25cb}"@[0] == '\u{25cb}');
}

/// The tone of a pod's glyph and status word, and of its whole row when it
/// is in trouble or finished: what its state reads as, at a glance.
pub fn pod_style(pod: &Pod) -> (tone: Tone)
    ensures
        tone == tone_of(pod@),
{
    let glyph = pod.glyph();
    proof {
        lemma_glyphs();
    }
    if text::same(glyph, "\u{25cf}") {
        Tone::Success
    } else if text::same(glyph, "\u{25d0}") {
        Tone::Warning
    } else if text::same(glyph, "\u{2717}") {
        Tone::Error
    } else {
        Tone::Muted
    }
}

/// The tone the row's other cells take.
fn row_style(pod: &Pod) -> (tone: Tone)
    ensures
        tone == row_tone_of(pod@),
{
    proof {
        lemma_glyphs();
    }
    if pod.is_unhealthy() {
        Tone::Error
    } else if text::same(pod.glyph(), "\u{2713}") || text::same(pod.glyph(), "\u{25cb}") {
        Tone::Muted
    } else {
        Tone::Plain
    }
}

/// One cell of the table: what it says, in which tone, and which of its
/// characters the search lights up.
#[derive(Debug, PartialEq, Eq)]
pub struct Cell {
    pub text: String,
    pub tone: Tone,
    pub matched: Vec<usize>,
}

pub struct CellView {
    pub text: Seq<char>,
    pub tone: Tone,
    pub matched: Seq<usize>,
}

impl View for Cell {
    type V = CellView;

    open spec fn view(&self) -> CellView {
        CellView { text: self.text@, tone: self.tone, matched: self.matched@ }
    }
}

/// What each cell is.
pub open spec fn cell_views(cells: Seq<Cell>) -> Seq<CellView> {
    cells.map_values(|cell: Cell| cell@)
}

/// A cell that the search does not look at.
pub open spec fn plain_cell(text: Seq<char>, tone: Tone) -> CellView {
    CellView { text, tone, matched: seq![] }
}

/// A cell that the search lights up.
pub open spec fn lit_cell(text: Seq<char>, tone: Tone, words: Seq<Seq<char>>) -> CellView {
    CellView { text, tone, matched: lit_among(words, text, text.len()) }
}

/// Each place, two further.
pub open spec fn shifted(places: Seq<usize>) -> Seq<usize> {
    places.map_values(|place: usize| (place + 2) as usize)
}

/// One column's cell of a pod's row.
pub open spec fn cell_of(
    pod: PodView,
    column: ColumnId,
    words: Seq<Seq<char>>,
    now: int,
) -> CellView {
    let tone = row_tone_of(pod);
    match column {
        ColumnId::Name => lit_cell(pod.key.name, tone, words),
        ColumnId::Namespace => lit_cell(pod.key.namespace, tone, words),
        ColumnId::Ready => plain_cell(pod.ready_label(), tone),
        ColumnId::Status => CellView {
            text: pod.glyph() + " "@ + pod.status,
            tone: tone_of(pod),
            matched: shifted(lit_among(words, pod.status, pod.status.len())),
        },
        ColumnId::Restarts => plain_cell(decimal(pod.restarts as nat), tone),
        ColumnId::Age => plain_cell(age_of(pod.created, now), tone),
        ColumnId::Node => lit_cell(pod.node, tone, words),
        ColumnId::Ip => plain_cell(pod.ip, tone),
        ColumnId::Owner => lit_cell(pod.owner_name(), tone, words),
        ColumnId::Image => lit_cell(image_of(pod), tone, words),
    }
}

fn plain(text: &str, tone: Tone) -> (cell: Cell)
    ensures
        cell@ == plain_cell(text@, tone),
{
    Cell { text: text.to_owned(), tone, matched: Vec::new() }
}

fn lit(text: &str, tone: Tone, highlighter: &Query) -> (cell: Cell)
    ensures
        cell@ == lit_cell(text@, tone, texts(highlighter.words@)),
{
    Cell { text: text.to_owned(), tone, matched: highlighter.indices(text) }
}

proof fn lemma_lit_bound(words: Seq<Seq<char>>, held: Seq<char>, count: nat)
    requires
        count <= usize::MAX,
    ensures
        forall|k: int|
            0 <= k < lit_among(words, held, count).len() ==> (#[trigger] lit_among(
                words,
                held,
                count,
            )[k]) < count,
    decreases count,
{
    if count > 0 {
        let before = lit_among(words, held, (count - 1) as nat);
        let all = lit_among(words, held, count);
        lemma_lit_bound(words, held, (count - 1) as nat);
        assert forall|k: int| 0 <= k < all.len() implies (#[trigger] all[k]) < count by {
            if k < before.len() {
                assert(before[k] < count - 1);
                assert(all[k] == before[k]);
            }
        }
    }
}

/// The status cell, where the glyph and a space stand before what the search
/// looks at. `requires` leaves out a status too long for its characters to
/// be counted.
fn status_cell(pod: &Pod, highlighter: &Query) -> (cell: Cell)
    requires
        pod@.status.len() + 2 <= usize::MAX,
    ensures
        cell@ == cell_of(pod@, ColumnId::Status, texts(highlighter.words@), 0),
{
    let found = highlighter.indices(pod.status.as_str());
    let ghost all = found@;
    proof {
        lemma_lit_bound(texts(highlighter.words@), pod@.status, pod@.status.len());
    }
    let mut matched: Vec<usize> = Vec::new();
    let mut at: usize = 0;
    while at < found.len()
        invariant
            at <= found@.len(),
            all == found@,
            forall|k: int| 0 <= k < all.len() ==> (#[trigger] all[k]) + 2 <= usize::MAX,
            matched@ == shifted(all.take(at as int)),
        decreases found@.len() - at,
    {
        matched.push(found[at] + 2);
        assert(matched@ =~= shifted(all.take(at as int + 1)));
        at += 1;
    }
    assert(all.take(at as int) =~= all);
    Cell {
        text: pod.glyph().to_owned().concat(" ").concat(pod.status.as_str()),
        tone: pod_style(pod),
        matched,
    }
}

/// One column's cell of a pod's row.
fn cell(pod: &Pod, column: ColumnId, highlighter: &Query, now: Timestamp) -> (cell: Cell)
    requires
        pod@.status.len() + 2 <= usize::MAX,
    ensures
        cell@ == cell_of(pod@, column, texts(highlighter.words@), now@),
{
    let base = row_style(pod);
    match column {
        ColumnId::Name => lit(pod.key.name.as_str(), base, highlighter),
        ColumnId::Namespace => lit(pod.key.namespace.as_str(), base, highlighter),
        ColumnId::Ready => plain(pod.ready_label().as_str(), base),
        ColumnId::Status => status_cell(pod, highlighter),
        ColumnId::Restarts => plain(text::print(pod.restarts as u128).as_str(), base),
        ColumnId::Age => plain(age(pod.created, now).as_str(), base),
        ColumnId::Node => lit(pod.node.as_str(), base, highlighter),
        ColumnId::Ip => plain(pod.ip.as_str(), base),
        ColumnId::Owner => lit(pod.owner_name(), base, highlighter),
        ColumnId::Image => lit(first_image(pod), base, highlighter),
    }
}

/// One row's cells, in the order the visible columns are in.
pub fn row_cells(
    pod: &Pod,
    columns: &Vec<ColumnConfig>,
    highlighter: &Query,
    now: Timestamp,
) -> (cells: Vec<Cell>)
    requires
        pod@.status.len() + 2 <= usize::MAX,
    ensures
        cell_views(cells@) == columns@.map_values(
            |column: ColumnConfig| cell_of(pod@, column.id, texts(highlighter.words@), now@),
        ),
{
    let mut cells: Vec<Cell> = Vec::new();
    let ghost all = columns@.map_values(
        |column: ColumnConfig| cell_of(pod@, column.id, texts(highlighter.words@), now@),
    );
    let mut at: usize = 0;
    while at < columns.len()
        invariant
            at <= columns@.len(),
            pod@.status.len() + 2 <= usize::MAX,
            all == columns@.map_values(
                |column: ColumnConfig| cell_of(pod@, column.id, texts(highlighter.words@), now@),
            ),
            cells@.len() == at,
            forall|k: int| 0 <= k < at ==> (#[trigger] cells@[k])@ == all[k],
        decreases columns@.len() - at,
    {
        cells.push(cell(pod, columns[at].id, highlighter, now));
        at += 1;
    }
    assert(cell_views(cells@) =~= all);
    cells
}

/// One button of the toolbar.
pub open spec fn button_spans(button: Button) -> Seq<SpanView> {
    seq![
        SpanView::of("["@, Tone::Muted),
        SpanView::bold(button.says(), Tone::Link),
        SpanView::of("]"@, Tone::Muted),
    ]
}

/// The first so many buttons of the toolbar, with a space between two.
pub open spec fn toolbar_among(count: nat) -> Seq<SpanView>
    decreases count,
{
    if count == 0 {
        seq![]
    } else {
        toolbar_among((count - 1) as nat) + (if count > 1 {
            seq![SpanView::of(" "@, Tone::Plain)]
        } else {
            seq![]
        }) + button_spans(Button::ALL[count - 1])
    }
}

/// `[Logs] [Bash] [Restart] [Scale] [Describe] [YAML]`.
pub fn toolbar_line() -> (line: Line)
    ensures
        line@ == toolbar_among(6),
{
    let mut line = Line::new();
    let mut at: usize = 0;
    while at < 6
        invariant
            at <= 6,
            line@ == toolbar_among(at as nat),
        decreases 6 - at,
    {
        let ghost before = line@;
        let button = Button::ALL[at];
        if at > 0 {
            line.push(Span::of(" ", Tone::Plain));
        }
        line.push(Span::of("[", Tone::Muted));
        line.push(Span::bold(button.label(), Tone::Link));
        line.push(Span::of("]", Tone::Muted));
        assert(line@ =~= toolbar_among((at + 1) as nat));
        at += 1;
    }
    line
}

/// How many cells the first so many buttons take, with a space after each.
pub open spec fn toolbar_cells(count: nat) -> int
    decreases count,
{
    if count == 0 {
        0
    } else {
        toolbar_cells((count - 1) as nat) + Button::ALL[count - 1].says().len() + 3
    }
}

fn label_len(button: Button) -> (len: usize)
    ensures
        len == button.says().len(),
        len <= 8,
{
    proof {
        reveal_strlit("Logs");
        reveal_strlit("Bash");
        reveal_strlit("Restart");
        reveal_strlit("Scale");
        reveal_strlit("Describe");
        reveal_strlit("YAML");
    }
    text::chars_of(button.label()).len()
}

/// How wide the toolbar is: every button, and a space between two.
pub fn toolbar_width() -> (width: usize)
    ensures
        width == toolbar_cells(6) - 1,
{
    let mut width: usize = 0;
    let mut at: usize = 0;
    while at < 6
        invariant
            at <= 6,
            width == toolbar_cells(at as nat),
            3 * at <= width <= 11 * at,
        decreases 6 - at,
    {
        width += label_len(Button::ALL[at]) + 3;
        at += 1;
    }
    width - 1
}

/// The column where a button of the toolbar starts, when the first starts
/// at `column`.
pub open spec fn button_column(count: nat, column: int) -> int
    decreases count,
{
    if count == 0 {
        column
    } else {
        sum_to_end(
            button_column((count - 1) as nat, column),
            Button::ALL[count - 1].says().len() as int + 3,
        )
    }
}

/// With the first so many buttons as areas of one row.
pub open spec fn with_buttons(shell: ShellView, count: nat, column: int, row: int) -> ShellView
    decreases count,
{
    if count == 0 {
        shell
    } else {
        with_buttons(shell, (count - 1) as nat, column, row).with_region(
            Rect::cut(
                button_column((count - 1) as nat, column),
                row,
                Button::ALL[count - 1].says().len() as int + 2,
                1,
            ),
            Target::Button(Button::ALL[count - 1]),
        )
    }
}

/// The toolbar's buttons, as areas of the pane's first line. Only while the
/// first line is the one on screen and the whole row fits, so an area never
/// sits over a wrapped word.
pub open spec fn with_toolbar(
    shell: ShellView,
    area: Rect,
    offset: nat,
    have_pod: bool,
) -> ShellView {
    if !have_pod || offset != 0 || area.height < 3 || rest_of(area.width as int, 2)
        < toolbar_cells(6) - 1 {
        shell
    } else {
        with_buttons(shell, 6, sum_to_end(area.x as int, 1), sum_to_end(area.y as int, 1))
    }
}

/// The toolbar's buttons, as areas of the pane's first line: each stands for
/// the key it names.
pub fn register_toolbar(shell: &mut Shell, area: Rect, offset: usize, have_pod: bool)
    ensures
        final(shell)@ == with_toolbar(old(shell)@, area, offset as nat, have_pod),
{
    if !have_pod || offset != 0 || area.height < 3 {
        return ;
    }
    let width = area.width.saturating_sub(2);
    if (width as usize) < toolbar_width() {
        return ;
    }
    let first = area.x.saturating_add(1);
    let row = area.y.saturating_add(1);
    let ghost before = shell@;
    let mut column = first;
    let mut at: usize = 0;
    while at < 6
        invariant
            at <= 6,
            before == old(shell)@,
            column == button_column(at as nat, first as int),
            shell@ == with_buttons(before, at as nat, first as int, row as int),
        decreases 6 - at,
    {
        let button = Button::ALL[at];
        let cells = label_len(button) as u16 + 2;
        shell.region(Rect::new(column, row, cells, 1), Target::Button(button));
        column = column.saturating_add(cells + 1);
        at += 1;
    }
}

/// A value, or a dash where there is none.
pub open spec fn or_dash(value: Seq<char>) -> Seq<char> {
    if value.len() == 0 {
        "\u{2014}"@
    } else {
        value
    }
}

pub fn dash_if_empty(value: &str) -> (said: String)
    ensures
        said@ == or_dash(value@),
{
    if value.is_empty() {
        "\u{2014}".to_owned()
    } else {
        value.to_owned()
    }
}

/// The line with the pod's name.
pub open spec fn name_line(pod: PodView) -> Seq<SpanView> {
    seq![
        SpanView::of(pod.glyph() + " "@, tone_of(pod)),
        SpanView::bold(pod.key.name, Tone::Text),
        SpanView::of("  "@, Tone::Plain),
        SpanView::of(pod.status, tone_of(pod)),
    ]
}

/// What made the pod, and what is known of its replicas.
pub open spec fn owner_said(pod: PodView, replicas: Option<Seq<char>>) -> Seq<char> {
    match replicas {
        Some(replicas) => pod.owner_label() + " \u{b7} "@ + replicas,
        None => pod.owner_label(),
    }
}

/// Where the pod is, what made it, and how old it is.
pub open spec fn place_parts(pod: PodView, replicas: Option<Seq<char>>, now: int) -> Seq<
    Seq<char>,
> {
    seq![
        pod.key.cluster + "/"@ + pod.key.namespace,
        owner_said(pod, replicas),
        age_of(pod.created, now),
    ]
}

/// Where the pod is, what made it, and how old it is.
pub open spec fn place_line(pod: PodView, replicas: Option<Seq<char>>, now: int) -> Seq<SpanView> {
    subtitle_line(place_parts(pod, replicas, now))
}

/// When the pod was made, and how long ago.
pub open spec fn made_at(created: Option<int>, now: int) -> Seq<char> {
    match created {
        Some(stamp) => civil_of(stamp).date() + " \u{b7} "@ + age_of(created, now),
        None => "\u{2014}"@,
    }
}

/// The labels, two spaces between two.
pub open spec fn chips(labels: Seq<(Seq<char>, Seq<char>)>) -> Seq<SpanView>
    decreases labels.len(),
{
    if labels.len() == 0 {
        seq![SpanView::of(pad("Labels"@, LABEL as nat), Tone::Muted)]
    } else {
        chips(labels.drop_last()) + (if labels.len() > 1 {
            seq![SpanView::of("  "@, Tone::Plain)]
        } else {
            seq![]
        }) + seq![SpanView::of(labels.last().0 + "="@ + labels.last().1, Tone::Accent)]
    }
}

/// What the pane says of the pod before its containers.
pub open spec fn head_lines(
    pod: PodView,
    replicas: Option<Seq<char>>,
    now: int,
) -> Seq<Seq<SpanView>> {
    seq![
        toolbar_among(6),
        name_line(pod),
        place_line(pod, replicas, now),
        seq![],
        field_line("Ready"@, pod.ready_label()),
        field_line("Restarts"@, decimal(pod.restarts as nat)),
        field_line("Node"@, or_dash(pod.node)),
        field_line("IP"@, or_dash(pod.ip)),
        field_line("Created"@, made_at(pod.created, now)),
    ] + if pod.labels.len() > 0 {
        seq![chips(pod.labels)]
    } else {
        seq![]
    }
}

/// What the pane says of one container.
pub open spec fn container_lines(container: ContainerView) -> Seq<Seq<SpanView>> {
    seq![
        seq![
            SpanView::of(
                (if container.ready {
                    "\u{2713}"@
                } else {
                    "\u{2717}"@
                }) + " "@,
                if container.ready {
                    Tone::Success
                } else {
                    Tone::Error
                },
            ),
            SpanView::of(container.name, Tone::Text),
            SpanView::of(
                "  "@ + container.state + "  \u{21bb}"@ + decimal(container.restarts as nat),
                if container.ready {
                    Tone::Muted
                } else {
                    Tone::Error
                },
            ),
        ],
        seq![SpanView::of("  "@ + container.image, Tone::Muted)],
    ] + match container.last_termination {
        Some(last) => seq![
            seq![
                SpanView::of(
                    "  last exit: "@ + last.0 + " ("@ + signed_decimal(last.1 as int) + ")"@,
                    Tone::Warning,
                ),
            ],
        ],
        None => seq![],
    }
}

/// What the pane says of the containers, one after the other.
pub open spec fn all_container_lines(containers: Seq<ContainerView>) -> Seq<Seq<SpanView>>
    decreases containers.len(),
{
    if containers.len() == 0 {
        seq![]
    } else {
        all_container_lines(containers.drop_last()) + container_lines(containers.last())
    }
}

/// What the pane says when the last read failed.
pub open spec fn problem_lines(error: Option<Seq<char>>, width: nat) -> Seq<Seq<SpanView>> {
    match error {
        Some(message) => seq![
            seq![],
            seq![SpanView::of(heading("Problem"@, width), Tone::Header)],
            seq![SpanView::of("last read failed: "@ + message, Tone::Error)],
            seq![SpanView::of("these rows are from the read before it"@, Tone::Muted)],
        ],
        None => seq![],
    }
}

/// Everything the pane says about one pod, top to bottom: the toolbar first,
/// so its buttons are always where their areas say they are.
pub open spec fn pod_lines(
    pod: PodView,
    replicas: Option<Seq<char>>,
    error: Option<Seq<char>>,
    width: nat,
    now: int,
) -> Seq<Seq<SpanView>> {
    head_lines(pod, replicas, now) + seq![
        seq![],
        seq![SpanView::of(heading("Containers"@, width), Tone::Header)],
    ] + all_container_lines(pod.containers) + problem_lines(error, width)
}

fn name_of(pod: &Pod) -> (line: Line)
    ensures
        line@ == name_line(pod@),
{
    let tone = pod_style(pod);
    let mut line = Line::new();
    line.push(Span::of(pod.glyph().to_owned().concat(" ").as_str(), tone));
    line.push(Span::bold(pod.key.name.as_str(), Tone::Text));
    line.push(Span::of("  ", Tone::Plain));
    line.push(Span::of(pod.status.as_str(), tone));
    assert(line@ =~= name_line(pod@));
    line
}

fn place_of(pod: &Pod, replicas: Option<&str>, now: Timestamp) -> (line: Line)
    ensures
        line@ == place_line(pod@, maybe_text(replicas), now@),
{
    let place = pod.key.cluster.clone().concat("/").concat(pod.key.namespace.as_str());
    let owner = match replicas {
        Some(replicas) => pod.owner_label().concat(" \u{b7} ").concat(replicas),
        None => pod.owner_label(),
    };
    let created = age(pod.created, now);
    let parts = vec![place, owner, created];
    assert(texts(parts@) =~= place_parts(pod@, maybe_text(replicas), now@));
    subtitle(&parts)
}

fn labels_of(labels: &Vec<(String, String)>) -> (line: Line)
    ensures
        line@ == chips(text::pairs(labels@)),
{
    let mut line = Line::of(text::padded("Labels", LABEL).as_str(), Tone::Muted);
    let ghost all = text::pairs(labels@);
    let mut at: usize = 0;
    while at < labels.len()
        invariant
            at <= labels@.len(),
            all == text::pairs(labels@),
            line@ == chips(all.take(at as int)),
        decreases labels@.len() - at,
    {
        assert(all.take(at as int + 1).drop_last() =~= all.take(at as int));
        assert(all.take(at as int + 1).last() == (labels@[at as int].0@, labels@[at as int].1@));
        if at > 0 {
            line.push(Span::of("  ", Tone::Plain));
        }
        line.push(chip(labels[at].0.as_str(), labels[at].1.as_str()));
        assert(line@ =~= chips(all.take(at as int + 1)));
        at += 1;
    }
    assert(all.take(at as int) =~= all);
    line
}

fn push_container(lines: &mut Vec<Line>, container: &Container)
    ensures
        line_views(final(lines)@) == line_views(old(lines)@) + container_lines(container@),
{
    let ghost before = line_views(lines@);
    let mut first = Line::new();
    if container.ready {
        first.push(Span::of("\u{2713}".to_owned().concat(" ").as_str(), Tone::Success));
    } else {
        first.push(Span::of("\u{2717}".to_owned().concat(" ").as_str(), Tone::Error));
    }
    first.push(Span::of(container.name.as_str(), Tone::Text));
    first.push(
        Span::of(
            "  ".to_owned().concat(container.state.as_str()).concat("  \u{21bb}").concat(
                text::print(container.restarts as u128).as_str(),
            ).as_str(),
            if container.ready {
                Tone::Muted
            } else {
                Tone::Error
            },
        ),
    );
    assert(first@ =~= container_lines(container@)[0]);
    push_line(lines, first);
    push_line(
        lines,
        Line::of("  ".to_owned().concat(container.image.as_str()).as_str(), Tone::Muted),
    );
    if let Some(last) = &container.last_termination {
        push_line(
            lines,
            Line::of(
                "  last exit: ".to_owned().concat(last.0.as_str()).concat(" (").concat(
                    text::print_signed(last.1).as_str(),
                ).concat(")").as_str(),
                Tone::Warning,
            ),
        );
    }
    assert(line_views(lines@) =~= before + container_lines(container@));
}

/// A text, where there is one.
pub open spec fn maybe_text(held: Option<&str>) -> Option<Seq<char>> {
    match held {
        Some(held) => Some(held@),
        None => None,
    }
}

fn head_of(pod: &Pod, replicas: Option<&str>, now: Timestamp) -> (lines: Vec<Line>)
    ensures
        line_views(lines@) == head_lines(pod@, maybe_text(replicas), now@),
{
    let mut lines: Vec<Line> = Vec::new();
    assert(line_views(lines@) =~= seq![]);
    push_line(&mut lines, toolbar_line());
    push_line(&mut lines, name_of(pod));
    push_line(&mut lines, place_of(pod, replicas, now));
    push_line(&mut lines, Line::new());
    push_line(&mut lines, field("Ready", pod.ready_label().as_str()));
    push_line(&mut lines, field("Restarts", text::print(pod.restarts as u128).as_str()));
    push_line(&mut lines, field("Node", dash_if_empty(pod.node.as_str()).as_str()));
    push_line(&mut lines, field("IP", dash_if_empty(pod.ip.as_str()).as_str()));
    let made = match pod.created {
        Some(stamp) => stamp.calendar_date().concat(" \u{b7} ").concat(
            age(pod.created, now).as_str(),
        ),
        None => "\u{2014}".to_owned(),
    };
    push_line(&mut lines, field("Created", made.as_str()));
    if pod.labels.len() > 0 {
        push_line(&mut lines, labels_of(&pod.labels));
    }
    assert(line_views(lines@) =~= head_lines(pod@, maybe_text(replicas), now@));
    lines
}

/// Everything the pane says about one pod, top to bottom: the toolbar first,
/// so its buttons are always where their areas say they are.
pub fn detail_lines(
    pod: &Pod,
    replicas: Option<&str>,
    data: &ScopeData,
    width: u16,
    now: Timestamp,
) -> (lines: Vec<Line>)
    ensures
        line_views(lines@) == pod_lines(
            pod@,
            maybe_text(replicas),
            data@.error,
            width as nat,
            now@,
        ),
{
    let mut lines = head_of(pod, replicas, now);
    let ghost head = line_views(lines@);
    push_line(&mut lines, Line::new());
    push_line(&mut lines, section("Containers", width));
    let ghost front = line_views(lines@);
    assert(front =~= head + seq![
        seq![],
        seq![SpanView::of(heading("Containers"@, width as nat), Tone::Header)],
    ]);
    let ghost all = pod@.containers;
    let mut at: usize = 0;
    assert(front =~= front + all_container_lines(all.take(0)));
    while at < pod.containers.len()
        invariant
            at <= pod.containers@.len(),
            all == pod@.containers,
            line_views(lines@) == front + all_container_lines(all.take(at as int)),
        decreases pod.containers@.len() - at,
    {
        assert(all.take(at as int + 1).drop_last() =~= all.take(at as int));
        assert(all.take(at as int + 1).last() == pod.containers@[at as int]@);
        push_container(&mut lines, &pod.containers[at]);
        assert(line_views(lines@) =~= front + all_container_lines(all.take(at as int + 1)));
        at += 1;
    }
    assert(all.take(at as int) =~= all);
    let ghost whole = line_views(lines@);
    if let Some(message) = &data.error {
        push_line(&mut lines, Line::new());
        push_line(&mut lines, section("Problem", width));
        push_line(
            &mut lines,
            refused("last read failed: ".to_owned().concat(message.as_str()).as_str()),
        );
        push_line(&mut lines, quiet("these rows are from the read before it"));
    }
    assert(line_views(lines@) =~= whole + problem_lines(data@.error, width as nat));
    lines
}

/// What the pane says with no pod under the cursor: nothing has come back
/// yet, what went wrong, or nothing matches.
pub open spec fn nothing_line(scope: Seq<char>, data: ScopeDataView) -> SpanView {
    if data.pods.len() > 0 {
        SpanView::of("No pods match"@, Tone::Muted)
    } else {
        match data.error {
            Some(message) => SpanView::of(scope + ": "@ + message, Tone::Error),
            None => if data.reads == 0 {
                SpanView::of("Reading "@ + scope + "\u{2026}"@, Tone::Muted)
            } else {
                SpanView::of("No pods in "@ + scope, Tone::Muted)
            },
        }
    }
}

/// What the pane says with no pod under the cursor.
pub fn nothing_selected(tab: &Tab, data: &ScopeData) -> (lines: Vec<Line>)
    ensures
        line_views(lines@) == seq![seq![nothing_line(tab@.scope.describe(), data@)]],
{
    let scope = tab.scope.describe();
    let line = if data.pods.len() > 0 {
        quiet("No pods match")
    } else {
        match &data.error {
            Some(message) => refused(scope.concat(": ").concat(message.as_str()).as_str()),
            None => if data.reads == 0 {
                quiet("Reading ".to_owned().concat(scope.as_str()).concat("\u{2026}").as_str())
            } else {
                quiet("No pods in ".to_owned().concat(scope.as_str()).as_str())
            },
        }
    };
    let mut lines: Vec<Line> = Vec::new();
    assert(line_views(lines@) =~= seq![]);
    push_line(&mut lines, line);
    assert(line_views(lines@) =~= seq![seq![nothing_line(tab@.scope.describe(), data@)]]);
    lines
}

/// How many rows the details take over the text pane: what they need with
/// their border, up to just under half, and five where there are that many.
pub open spec fn details_rows(lines: nat, height: u16) -> int {
    most(
        least(sum_to_end(least(lines as int, u16::MAX as int), 2), height * 45 / 100),
        least(5, height as int),
    )
}

/// How many rows the details take over the text pane, in a pane of no more
/// rows than a `u16` counts the hundredths of.
pub fn details_height(lines: usize, height: u16) -> (rows: u16)
    requires
        height * 45 <= u16::MAX,
    ensures
        rows == details_rows(lines as nat, height),
{
    let count: u16 = if lines <= u16::MAX as usize {
        lines as u16
    } else {
        u16::MAX
    };
    let wanted = count.saturating_add(2);
    let half = height * 45 / 100;
    let top = if wanted <= half {
        wanted
    } else {
        half
    };
    let few = if height <= 5 {
        height
    } else {
        5
    };
    if top >= few {
        top
    } else {
        few
    }
}

} // verus!
