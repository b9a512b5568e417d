//! What a frame says, seen from outside: each thing on it is what it says it
//! is.

use vstd::prelude::*;
use vstd::string::*;

use crate::app::application::{App, AppView};
use crate::app::keys::table;
use crate::app::scope::{hint_of, schema, ScopeScreenView};
use crate::app::screen::{Button, Target};
use crate::app::shell::{drawn_at, law_drawn_last_is_on_top, Focus, Level, Panes, ShellView};
use crate::columns::ColumnId;
use crate::config::TabView;
use crate::filter::QueryView;
use crate::kube::pod::{ContainerView, Pod, PodView};
use crate::search::lit_among;
use crate::store::{unhealthy_among, ScopeData, ScopeDataView};
use crate::text::{decimal, pad, signed_decimal, words};
use crate::text_input::TextInputView;
use crate::timestamp::{age_of, civil_of, Timestamp};

use super::details::{field_line, heading};
use super::frame::{
    badge_of, frame_is, has_room, is_reading, label_of, labels_of, right_of, FrameDrawn, NO_CLUSTERS,
};
use super::layout::{panes_at, panes_in, Pane, TabParts};
use super::modal::{help_text, inside, modal_in, HELP_TITLE, HELP_WIDTH};
use super::paint::{line_text, line_views, rest_of, sum_to_end, Line, Rect, SpanView, Tone};
use super::pane::{details_are, details_drawn, with_details, DetailsPane};
use super::pods::{
    all_container_lines, button_column, cell_of, chips, container_lines, detail_lines, details_rows,
    head_lines, maybe_text, nothing_line, pod_lines, row_tone_of, tone_of, toolbar_among, toolbar_cells, with_buttons,
    with_toolbar,
};
use super::render::{
    after_panes, after_tab, headers_of, pane_is, tab_is, tab_panes, PaneDrawn, TabDrawn,
};
use super::table::{header_label, row_drawn, rows_shown, screen_drawn, with_table};
use super::widgets::{
    all_cells, are_short, field_shows, first_shown, left_of, right_cells, spinner, tab_column,
    tab_spans, with_search_row, TabLabelView, PODS_PLACEHOLDER,
};

verus! {

/// What a line says is what its pieces say, one after the other.
pub proof fn law_a_line_says_what_its_pieces_say(
    a: Seq<SpanView>,
    b: Seq<SpanView>,
    one: SpanView,
)
    ensures
        line_text(a + b) == line_text(a) + line_text(b),
        line_text(seq![one]) == one.text,
        line_text(Seq::empty()).len() == 0,
    decreases b.len(),
{
    let alone = seq![one];
    reveal_with_fuel(line_text, 2);
    assert(alone.drop_last() =~= Seq::empty());
    assert(line_text(alone) =~= one.text);
    if b.len() == 0 {
        assert(a + b =~= a);
        assert(line_text(a) + line_text(b) =~= line_text(a));
    } else {
        law_a_line_says_what_its_pieces_say(a, b.drop_last(), one);
        assert((a + b).drop_last() =~= a + b.drop_last());
        assert((a + b).last() == b.last());
        assert(line_text(a + b) =~= line_text(a) + line_text(b));
    }
}

/// One of these lines says this.
pub open spec fn is_said(lines: Seq<Seq<SpanView>>, said: Seq<char>) -> bool {
    exists|at: int| 0 <= at < lines.len() && line_text(#[trigger] lines[at]) == said
}

/// A piece of one of these lines says this.
pub open spec fn is_pieced(lines: Seq<Seq<SpanView>>, said: Seq<char>) -> bool {
    exists|at: int, piece: int|
        0 <= at < lines.len() && 0 <= piece < lines[at].len() && (#[trigger] lines[at][piece]).text
            == said
}

proof fn lemma_field_said(name: Seq<char>, value: Seq<char>)
    ensures
        line_text(field_line(name, value)) == pad(name, 14) + value,
{
    reveal_with_fuel(line_text, 3);
    let line = field_line(name, value);
    assert(line.drop_last() =~= seq![line[0]]);
    assert(line.drop_last().drop_last() =~= seq![]);
    assert(line_text(line) =~= pad(name, 14) + value);
}

proof fn lemma_labels()
    ensures
        pad("Ready"@, 14) == "Ready         "@,
        pad("Restarts"@, 14) == "Restarts      "@,
        pad("Node"@, 14) == "Node          "@,
        pad("IP"@, 14) == "IP            "@,
        pad("Created"@, 14) == "Created       "@,
{
    reveal_strlit("Ready");
    reveal_strlit("Restarts");
    reveal_strlit("Node");
    reveal_strlit("IP");
    reveal_strlit("Created");
    reveal_strlit("Ready         ");
    reveal_strlit("Restarts      ");
    reveal_strlit("Node          ");
    reveal_strlit("IP            ");
    reveal_strlit("Created       ");
    assert(pad("Ready"@, 14) =~= "Ready         "@);
    assert(pad("Restarts"@, 14) =~= "Restarts      "@);
    assert(pad("Node"@, 14) =~= "Node          "@);
    assert(pad("IP"@, 14) =~= "IP            "@);
    assert(pad("Created"@, 14) =~= "Created       "@);
}

/// The details say of a pod each thing under its own name: how many of its
/// containers are ready, how often it restarted, its node, its address and
/// when it was made, with a dash for what is not known.
pub proof fn law_the_details_say_each_thing_under_its_name(
    pod: PodView,
    replicas: Option<Seq<char>>,
    error: Option<Seq<char>>,
    width: nat,
    now: int,
    made: int,
)
    ensures
        ({
            let lines = pod_lines(pod, replicas, error, width, now);
            &&& is_said(
                lines,
                "Ready         "@ + (decimal(pod.ready.0 as nat) + "/"@ + decimal(
                    pod.ready.1 as nat,
                )),
            )
            &&& is_said(lines, "Restarts      "@ + decimal(pod.restarts as nat))
            &&& pod.node.len() > 0 ==> is_said(lines, "Node          "@ + pod.node)
            &&& pod.node.len() == 0 ==> is_said(lines, "Node          "@ + "\u{2014}"@)
            &&& pod.ip.len() > 0 ==> is_said(lines, "IP            "@ + pod.ip)
            &&& pod.ip.len() == 0 ==> is_said(lines, "IP            "@ + "\u{2014}"@)
            &&& pod.created == Some(made) ==> is_said(
                lines,
                "Created       "@ + (civil_of(made).date() + " \u{b7} "@ + age_of(Some(made), now)),
            )
            &&& pod.created is None ==> is_said(lines, "Created       "@ + "\u{2014}"@)
        }),
{
    let lines = pod_lines(pod, replicas, error, width, now);
    let head = head_lines(pod, replicas, now);
    lemma_labels();
    assert forall|at: int| 0 <= at < head.len() implies #[trigger] lines[at] == head[at] by {}
    lemma_field_said("Ready"@, pod.ready_label());
    lemma_field_said("Restarts"@, decimal(pod.restarts as nat));
    lemma_field_said("Node"@, pod.node);
    lemma_field_said("Node"@, "\u{2014}"@);
    lemma_field_said("IP"@, pod.ip);
    lemma_field_said("IP"@, "\u{2014}"@);
    lemma_field_said("Created"@, "\u{2014}"@);
    lemma_field_said(
        "Created"@,
        civil_of(made).date() + " \u{b7} "@ + age_of(Some(made), now),
    );
    assert(lines[4] == head[4] && lines[5] == head[5] && lines[6] == head[6]);
    assert(lines[7] == head[7] && lines[8] == head[8]);
}

/// The details name the pod first, with its glyph and its status, and under
/// that where it is, what made it and how old it is.
pub proof fn law_the_details_name_the_pod(
    pod: PodView,
    replicas: Seq<char>,
    error: Option<Seq<char>>,
    width: nat,
    now: int,
)
    ensures
        is_said(
            pod_lines(pod, None, error, width, now),
            pod.glyph() + " "@ + pod.key.name + "  "@ + pod.status,
        ),
        is_said(
            pod_lines(pod, None, error, width, now),
            pod.key.cluster + "/"@ + pod.key.namespace + " \u{b7} "@ + pod.owner_label()
                + " \u{b7} "@ + age_of(pod.created, now),
        ),
        is_said(
            pod_lines(pod, Some(replicas), error, width, now),
            pod.key.cluster + "/"@ + pod.key.namespace + " \u{b7} "@ + (pod.owner_label()
                + " \u{b7} "@ + replicas) + " \u{b7} "@ + age_of(pod.created, now),
        ),
{
    lemma_named_line(pod, None, error, width, now);
    lemma_named_line(pod, Some(replicas), error, width, now);
}

proof fn lemma_named_line(
    pod: PodView,
    replicas: Option<Seq<char>>,
    error: Option<Seq<char>>,
    width: nat,
    now: int,
)
    ensures
        ({
            let lines = pod_lines(pod, replicas, error, width, now);
            &&& lines.len() > 2
            &&& line_text(lines[1]) == pod.glyph() + " "@ + pod.key.name + "  "@ + pod.status
            &&& line_text(lines[2]) == pod.key.cluster + "/"@ + pod.key.namespace + " \u{b7} "@
                + super::pods::owner_said(pod, replicas) + " \u{b7} "@ + age_of(pod.created, now)
        }),
{
    reveal_with_fuel(line_text, 5);
    reveal_with_fuel(crate::text::join, 4);
    let lines = pod_lines(pod, replicas, error, width, now);
    let head = head_lines(pod, replicas, now);
    assert(lines[1] == head[1] && lines[2] == head[2]);
    let name = lines[1];
    assert(name.drop_last().drop_last().drop_last().drop_last() =~= seq![]);
    assert(line_text(name) =~= pod.glyph() + " "@ + pod.key.name + "  "@ + pod.status);
    let parts = super::pods::place_parts(pod, replicas, now);
    let place = lines[2];
    assert(place.drop_last() =~= seq![]);
    assert(parts.drop_last().drop_last().len() == 1);
    assert(line_text(place) =~= crate::text::join(parts, " \u{b7} "@));
    assert(crate::text::join(parts, " \u{b7} "@) =~= pod.key.cluster + "/"@ + pod.key.namespace
        + " \u{b7} "@ + super::pods::owner_said(pod, replicas) + " \u{b7} "@ + age_of(
        pod.created,
        now,
    ));
}

proof fn lemma_chip(labels: Seq<(Seq<char>, Seq<char>)>, at: int) -> (piece: int)
    requires
        0 <= at < labels.len(),
    ensures
        0 <= piece < chips(labels).len(),
        chips(labels)[piece].text == labels[at].0 + "="@ + labels[at].1,
    decreases labels.len(),
{
    if at == labels.len() - 1 {
        chips(labels).len() - 1
    } else {
        lemma_chip(labels.drop_last(), at)
    }
}

/// The details have every label, as key and value.
pub proof fn law_the_details_have_every_label(
    pod: PodView,
    replicas: Option<Seq<char>>,
    error: Option<Seq<char>>,
    width: nat,
    now: int,
    at: int,
)
    requires
        0 <= at < pod.labels.len(),
    ensures
        is_pieced(
            pod_lines(pod, replicas, error, width, now),
            pod.labels[at].0 + "="@ + pod.labels[at].1,
        ),
{
    let lines = pod_lines(pod, replicas, error, width, now);
    let piece = lemma_chip(pod.labels, at);
    assert(lines[9] == head_lines(pod, replicas, now)[9]);
    assert(lines[9] == chips(pod.labels));
    assert(lines[9][piece].text == pod.labels[at].0 + "="@ + pod.labels[at].1);
}

proof fn lemma_container_place(containers: Seq<ContainerView>, at: int) -> (from: int)
    requires
        0 <= at < containers.len(),
    ensures
        0 <= from,
        from + container_lines(containers[at]).len() <= all_container_lines(containers).len(),
        forall|k: int|
            0 <= k < container_lines(containers[at]).len() ==> all_container_lines(containers)[from
                + k] == #[trigger] container_lines(containers[at])[k],
    decreases containers.len(),
{
    let front = all_container_lines(containers.drop_last());
    if at == containers.len() - 1 {
        front.len() as int
    } else {
        lemma_container_place(containers.drop_last(), at)
    }
}

proof fn lemma_container_said(container: ContainerView)
    ensures
        container_lines(container).len() >= 2,
        line_text(container_lines(container)[0]) == (if container.ready {
            "\u{2713}"@
        } else {
            "\u{2717}"@
        }) + " "@ + container.name + ("  "@ + container.state + "  \u{21bb}"@ + decimal(
            container.restarts as nat,
        )),
        line_text(container_lines(container)[1]) == "  "@ + container.image,
        container.last_termination matches Some(last) ==> {
            &&& container_lines(container).len() == 3
            &&& line_text(container_lines(container)[2]) == "  last exit: "@ + last.0 + " ("@
                + signed_decimal(last.1 as int) + ")"@
        },
{
    reveal_with_fuel(line_text, 4);
    let lines = container_lines(container);
    assert(lines[0].drop_last().drop_last().drop_last() =~= seq![]);
    assert(line_text(lines[0]) =~= (if container.ready {
        "\u{2713}"@
    } else {
        "\u{2717}"@
    }) + " "@ + container.name + ("  "@ + container.state + "  \u{21bb}"@ + decimal(
        container.restarts as nat,
    )));
    assert(lines[1].drop_last() =~= seq![]);
    assert(line_text(lines[1]) =~= "  "@ + container.image);
    if let Some(last) = container.last_termination {
        assert(lines[2].drop_last() =~= seq![]);
        assert(line_text(lines[2]) =~= "  last exit: "@ + last.0 + " ("@ + signed_decimal(
            last.1 as int,
        ) + ")"@);
    }
}

/// The details have every container: whether it is ready, what it is called,
/// what it does and how often it restarted, its image, and why it last
/// stopped where it did.
pub proof fn law_the_details_have_every_container(
    pod: PodView,
    replicas: Option<Seq<char>>,
    error: Option<Seq<char>>,
    width: nat,
    now: int,
    at: int,
)
    requires
        0 <= at < pod.containers.len(),
    ensures
        ({
            let lines = pod_lines(pod, replicas, error, width, now);
            let held = pod.containers[at];
            let rest = "  "@ + held.state + "  \u{21bb}"@ + decimal(held.restarts as nat);
            &&& held.ready ==> is_said(lines, "\u{2713}"@ + " "@ + held.name + rest)
            &&& !held.ready ==> is_said(lines, "\u{2717}"@ + " "@ + held.name + rest)
            &&& is_said(lines, "  "@ + held.image)
            &&& held.last_termination matches Some(last) ==> is_said(
                lines,
                "  last exit: "@ + last.0 + " ("@ + signed_decimal(last.1 as int) + ")"@,
            )
        }),
{
    let lines = pod_lines(pod, replicas, error, width, now);
    let head = head_lines(pod, replicas, now);
    let held = pod.containers[at];
    let one = container_lines(held);
    let from = lemma_container_place(pod.containers, at);
    let start = head.len() + 2 + from;
    lemma_container_said(held);
    let all = all_container_lines(pod.containers);
    assert(lines[start] == all[from]);
    assert(lines[start + 1] == all[from + 1]);
    assert(all[from + 0] == one[0]);
    assert(all[from + 1] == one[1]);
    if held.last_termination is Some {
        assert(all[from + 2] == one[2]);
        assert(lines[start + 2] == all[from + 2]);
    }
}

/// What went wrong with the last read is said under the pod, and nothing is
/// said of it where nothing did.
pub proof fn law_a_failed_read_is_said_under_the_pod(
    pod: PodView,
    replicas: Option<Seq<char>>,
    message: Seq<char>,
    width: nat,
    now: int,
)
    ensures
        is_said(
            pod_lines(pod, replicas, Some(message), width, now),
            "last read failed: "@ + message,
        ),
        is_said(
            pod_lines(pod, replicas, Some(message), width, now),
            "these rows are from the read before it"@,
        ),
        pod_lines(pod, replicas, Some(message), width, now).take(
            pod_lines(pod, replicas, None, width, now).len() as int,
        ) == pod_lines(pod, replicas, None, width, now),
{
    reveal_with_fuel(line_text, 2);
    let lines = pod_lines(pod, replicas, Some(message), width, now);
    let without = pod_lines(pod, replicas, None, width, now);
    let count = without.len() as int;
    assert(lines.take(count) =~= without);
    assert(lines[count + 2].drop_last() =~= seq![]);
    assert(line_text(lines[count + 2]) =~= "last read failed: "@ + message);
    assert(lines[count + 3].drop_last() =~= seq![]);
    assert(line_text(lines[count + 3]) =~= "these rows are from the read before it"@);
}

/// With no pod under the cursor the details say why: no pod matches, the
/// read failed, none has come back yet, or the scope has no pods.
pub proof fn law_nothing_selected_says_why(
    scope: Seq<char>,
    data: ScopeDataView,
    message: Seq<char>,
)
    ensures
        data.pods.len() > 0 ==> nothing_line(scope, data).text == "No pods match"@,
        data.pods.len() == 0 && data.error == Some(message) ==> nothing_line(scope, data).text
            == scope + ": "@ + message && nothing_line(scope, data).tone == Tone::Error,
        data.pods.len() == 0 && data.error is None && data.reads == 0 ==> nothing_line(
            scope,
            data,
        ).text == "Reading "@ + scope + "\u{2026}"@,
        data.pods.len() == 0 && data.error is None && data.reads != 0 ==> nothing_line(
            scope,
            data,
        ).text == "No pods in "@ + scope,
{
}

proof fn lemma_all_glyphs()
    ensures
        "\u{25cf}"@ != "\u{25d0}"@ && "\u{25cf}"@ != "\u{2717}"@ && "\u{25cf}"@ != "\u{2713}"@
            && "\u{25cf}"@ != "\u{25cb}"@,
        "\u{25d0}"@ != "\u{2717}"@ && "\u{25d0}"@ != "\u{2713}"@ && "\u{25d0}"@ != "\u{25cb}"@,
        "\u{2717}"@ != "\u{2713}"@ && "\u{2717}"@ != "\u{25cb}"@ && "\u{2713}"@ != "\u{25cb}"@,
{
    reveal_strlit("\u{25cf}");
    reveal_strlit("\u{25d0}");
    reveal_strlit("\u{2717}");
    reveal_strlit("\u{2713}");
    reveal_strlit("\u{25cb}");
    assert("\u{25cf}"@[0] == '\u{25cf}');
    assert("\u{25d0}"@[0] == '\u{25d0}');
    assert("\u{2717}"@[0] == '\u{2717}');
    assert("\u{2713}"@[0] == '\u{2713}');
    assert("\u{25cb}"@[0] == '\u{25cb}');
}

/// The tone of a pod says what its glyph says, and its row has the error's
/// tone on one in trouble, is muted on one that is over, and plain else.
pub proof fn law_the_tone_says_what_the_glyph_says(pod: PodView)
    ensures
        pod.glyph() == "\u{2717}"@ <==> tone_of(pod) == Tone::Error,
        pod.glyph() == "\u{25cf}"@ <==> tone_of(pod) == Tone::Success,
        pod.glyph() == "\u{25d0}"@ <==> tone_of(pod) == Tone::Warning,
        pod.glyph() == "\u{2713}"@ || pod.glyph() == "\u{25cb}"@ <==> tone_of(pod) == Tone::Muted,
        pod.glyph() == "\u{2717}"@ <==> row_tone_of(pod) == Tone::Error,
        pod.glyph() == "\u{2713}"@ || pod.glyph() == "\u{25cb}"@ <==> row_tone_of(pod)
            == Tone::Muted,
        pod.glyph() == "\u{25cf}"@ || pod.glyph() == "\u{25d0}"@ <==> row_tone_of(pod)
            == Tone::Plain,
{
    lemma_all_glyphs();
}

/// Each cell of a row shows what its column is called.
pub proof fn law_each_cell_shows_its_column(pod: PodView, words: Seq<Seq<char>>, now: int)
    ensures
        ({
            let shown = |column: ColumnId| cell_of(pod, column, words, now).text;
            &&& shown(ColumnId::Name) == pod.key.name
            &&& shown(ColumnId::Namespace) == pod.key.namespace
            &&& shown(ColumnId::Ready) == decimal(pod.ready.0 as nat) + "/"@ + decimal(
                pod.ready.1 as nat,
            )
            &&& shown(ColumnId::Status) == pod.glyph() + " "@ + pod.status
            &&& shown(ColumnId::Restarts) == decimal(pod.restarts as nat)
            &&& shown(ColumnId::Age) == age_of(pod.created, now)
            &&& shown(ColumnId::Node) == pod.node
            &&& shown(ColumnId::Ip) == pod.ip
            &&& shown(ColumnId::Owner) == pod.owner_name()
            &&& pod.containers.len() > 0 ==> shown(ColumnId::Image) == pod.containers[0].image
        }),
{
}

/// The search lights up what it found in the cells it looks at, past the
/// glyph in the status, and the status alone has the tone of the glyph.
pub proof fn law_the_found_is_lit_in_its_cell(
    pod: PodView,
    words: Seq<Seq<char>>,
    now: int,
    at: int,
)
    requires
        pod.status.len() + 2 <= usize::MAX,
    ensures
        ({
            let cell = |column: ColumnId| cell_of(pod, column, words, now);
            let found = |held: Seq<char>| lit_among(words, held, held.len());
            &&& cell(ColumnId::Name).matched == found(pod.key.name)
            &&& cell(ColumnId::Namespace).matched == found(pod.key.namespace)
            &&& cell(ColumnId::Node).matched == found(pod.node)
            &&& cell(ColumnId::Owner).matched == found(pod.owner_name())
            &&& cell(ColumnId::Status).matched.len() == found(pod.status).len()
            &&& 0 <= at < found(pod.status).len() ==> cell(ColumnId::Status).matched[at]
                == found(pod.status)[at] + 2
            &&& cell(ColumnId::Status).tone == tone_of(pod)
            &&& cell(ColumnId::Name).tone == row_tone_of(pod)
            &&& cell(ColumnId::Restarts).tone == row_tone_of(pod)
        }),
{
    let found = lit_among(words, pod.status, pod.status.len());
    if 0 <= at < found.len() {
        let last = if pod.status.len() > 0 {
            (pod.status.len() - 1) as usize
        } else {
            0
        };
        crate::search::law_what_is_found_is_lit(words, pod.status, pod.status.len(), last);
        assert(found[at] < pod.status.len());
    }
}

/// A row of the table is the pod of its place in the window, and the one
/// under the cursor alone stands out.
pub proof fn law_a_row_is_the_pod_of_its_place(
    screen: ScopeScreenView,
    pods: Seq<PodView>,
    area: Rect,
    at: int,
    now: int,
)
    requires
        0 <= at < rows_shown(screen, area),
        area.width >= 2,
        area.x + area.width <= u16::MAX,
        area.y + area.height <= u16::MAX,
        screen.visible.len() <= usize::MAX,
    ensures
        ({
            let drawn = row_drawn(screen, pods, area, at, now);
            let place = screen_drawn(screen, area).cursor.scroll.offset + at;
            &&& 0 <= place < screen.visible.len()
            &&& drawn.selected <==> place == screen.cursor.index
            &&& drawn.cells.len() == screen_drawn(screen, area).columns().len()
            &&& forall|k: int|
                0 <= k < drawn.cells.len() ==> #[trigger] drawn.cells[k] == cell_of(
                    pods[screen.visible[place] as int],
                    screen_drawn(screen, area).columns()[k].id,
                    QueryView::of(words(screen.input.text), schema()).words,
                    now,
                )
            &&& drawn.area.height == 1
            &&& drawn.area.y == area.y + 2 + at
            &&& drawn.area.x == area.x + 1
            &&& drawn.area.y < area.y + area.height - 1
        }),
{
}

/// The rows on screen are as many as fit under the header and there are.
pub proof fn law_as_many_rows_as_fit(screen: ScopeScreenView, area: Rect)
    requires
        area.height >= 3,
        screen.cursor.index < screen.visible.len() <= usize::MAX,
    ensures
        screen.visible.len() <= area.height - 3 ==> rows_shown(screen, area) == screen.visible.len(),
        screen.visible.len() > area.height - 3 ==> rows_shown(screen, area) == area.height - 3,
{
}

/// A header says what its column is called, and the sorted one which way.
pub proof fn law_a_header_says_its_column_and_the_way(column: ColumnId, sort: ColumnId)
    ensures
        column != sort ==> header_label(column, sort, true) == column.look().label && header_label(
            column,
            sort,
            false,
        ) == column.look().label,
        header_label(sort, sort, false) == sort.look().label + " \u{2191}"@,
        header_label(sort, sort, true) == sort.look().label + " \u{2193}"@,
{
}

proof fn lemma_tab_spans_step(
    tabs: Seq<TabLabelView>,
    active: int,
    short: bool,
    count: nat,
)
    requires
        0 < count <= tabs.len(),
    ensures
        line_text(tab_spans(tabs, active, short, count)) == line_text(
            tab_spans(tabs, active, short, (count - 1) as nat),
        ) + tabs[count - 1].said(count - 1, short) + (match tabs[count - 1].badge {
            Some(badge) => " "@ + badge,
            None => seq![],
        }),
{
    let before = tab_spans(tabs, active, short, (count - 1) as nat);
    let all = tab_spans(tabs, active, short, count);
    let said = tabs[count - 1].said(count - 1, short);
    let one = if count - 1 == active {
        SpanView::bold(said, Tone::Accent)
    } else {
        SpanView::of(said, Tone::Muted)
    };
    law_a_line_says_what_its_pieces_say(before, seq![one], one);
    assert(before.push(one) =~= before + seq![one]);
    match tabs[count - 1].badge {
        Some(badge) => {
            let worn = SpanView::of(" "@ + badge, Tone::Error);
            law_a_line_says_what_its_pieces_say(before.push(one), seq![worn], worn);
            assert(line_text(all) =~= line_text(before) + said + (" "@ + badge));
        },
        None => {
            assert(all =~= before.push(one));
            assert(line_text(all) =~= line_text(before) + said + seq![]);
        },
    }
}

/// A tab takes a click just where it is drawn: it starts where the drawn
/// tabs before it end.
pub proof fn law_a_tab_is_clicked_where_it_is_drawn(
    tabs: Seq<TabLabelView>,
    active: int,
    short: bool,
    column: int,
    count: nat,
)
    requires
        count <= tabs.len(),
    ensures
        tab_column(tabs, short, column, count) == column + line_text(
            tab_spans(tabs, active, short, count),
        ).len(),
    decreases count,
{
    if count > 0 {
        law_a_tab_is_clicked_where_it_is_drawn(tabs, active, short, column, (count - 1) as nat);
        lemma_tab_spans_step(tabs, active, short, count);
    }
}

/// A tab says the number of the key that opens it, as far as there are
/// number keys, then its name: the short one where the bar is narrow.
pub proof fn law_a_tab_says_its_number_and_its_name(tab: TabLabelView, index: int)
    requires
        0 <= index,
    ensures
        index < 9 ==> tab.said(index, false) == " "@ + decimal((index + 1) as nat) + " "@
            + tab.label,
        index < 9 ==> tab.said(index, true) == " "@ + decimal((index + 1) as nat) + " "@ + tab.short,
        index >= 9 ==> tab.said(index, false) == " "@ + tab.label,
        index >= 9 ==> tab.said(index, true) == " "@ + tab.short,
{
}

/// The open tab alone stands out, and every badge is in the error's tone.
pub proof fn law_the_open_tab_stands_out(
    tabs: Seq<TabLabelView>,
    active: int,
    short: bool,
    count: nat,
    index: int,
) -> (at: int)
    requires
        0 <= index < count <= tabs.len(),
    ensures
        ({
            let spans = tab_spans(tabs, active, short, count);
            &&& 0 <= at < spans.len()
            &&& spans[at].text == tabs[index].said(index, short)
            &&& spans[at].bold <==> index == active
            &&& spans[at].tone == (if index == active {
                Tone::Accent
            } else {
                Tone::Muted
            })
            &&& tabs[index].badge matches Some(badge) ==> {
                &&& at + 1 < spans.len()
                &&& spans[at + 1].text == " "@ + badge
                &&& spans[at + 1].tone == Tone::Error
            }
        }),
    decreases count,
{
    let before = tab_spans(tabs, active, short, (count - 1) as nat);
    if index == count - 1 {
        before.len() as int
    } else {
        law_the_open_tab_stands_out(tabs, active, short, (count - 1) as nat, index)
    }
}

/// Where the names are not shortened the whole bar fits, with room for the
/// `?` beside it.
pub proof fn law_a_bar_of_long_names_fits(
    tabs: Seq<TabLabelView>,
    active: int,
    width: int,
    count: nat,
)
    requires
        count <= tabs.len(),
    ensures
        !are_short(tabs, width) ==> line_text(tab_spans(tabs, active, false, tabs.len())).len() + 2
            <= width,
{
    lemma_bar_cells(tabs, active, tabs.len());
    assert(tabs.take(tabs.len() as int) =~= tabs);
}

proof fn lemma_bar_cells(tabs: Seq<TabLabelView>, active: int, count: nat)
    requires
        count <= tabs.len(),
    ensures
        line_text(tab_spans(tabs, active, false, count)).len() <= all_cells(
            tabs.take(count as int),
        ),
    decreases count,
{
    if count > 0 {
        lemma_bar_cells(tabs, active, (count - 1) as nat);
        lemma_tab_spans_step(tabs, active, false, count);
        assert(tabs.take(count as int).drop_last() =~= tabs.take(count - 1));
        assert(tabs.take(count as int).last() == tabs[count - 1]);
        reveal_strlit(" ");
        let index = count - 1;
        if index < 9 {
            assert(decimal((index + 1) as nat).len() == 1);
        }
    }
}

/// The badge of a tab is the cross and how many of its pods are in trouble,
/// and there is none where none is; its name is its label, and its short
/// name that of its scope.
pub proof fn law_a_badge_counts_the_pods_in_trouble(app: AppView, index: int)
    requires
        0 <= index < app.tabs.len() == app.store.len(),
    ensures
        ({
            let count = unhealthy_among(app.store[index].pods);
            &&& count == 0 ==> badge_of(app.store, index) is None
            &&& count > 0 ==> badge_of(app.store, index) == Some("\u{2717} "@ + decimal(count))
            &&& label_of(app, index).badge == badge_of(app.store, index)
            &&& label_of(app, index).label == app.tabs[index].label
            &&& label_of(app, index).short == app.tabs[index].scope.short_label()
        }),
{
}

/// The status bar says what just happened, in the tone of it, and what the
/// keys do where nothing did.
pub proof fn law_what_happened_is_said_over_the_keys(
    said: Seq<char>,
    hint: Seq<char>,
    right: Seq<char>,
    width: int,
)
    requires
        right_cells(right) + 3 + said.len() < width,
        right_cells(right) + 3 + hint.len() < width,
    ensures
        left_of(Some((said, Level::Error)), hint, right, width) == SpanView::of(said, Tone::Error),
        left_of(Some((said, Level::Info)), hint, right, width) == SpanView::of(said, Tone::Success),
        left_of(None, hint, right, width) == SpanView::of(hint, Tone::Muted),
{
}

/// The spinner stands before what the open tab holds just while a read runs,
/// and turns a quarter every 120 milliseconds.
pub proof fn law_the_spinner_turns_while_a_read_runs(app: AppView, millis: int, now: int)
    requires
        millis >= 0,
    ensures
        !is_reading(app.store) ==> right_of(app, millis, now) == app.state(now),
        is_reading(app.store) ==> right_of(app, millis, now).skip(2) == app.state(now)
            && right_of(app, millis, now)[1] == ' ',
        is_reading(app.store) ==> right_of(app, millis, now)[0] != right_of(
            app,
            millis + 120,
            now,
        )[0],
        is_reading(app.store) ==> right_of(app, millis, now) == right_of(app, millis + 480, now),
        is_reading(app.store) <==> exists|at: int|
            0 <= at < app.store.len() && (#[trigger] app.store[at]).reading,
{
    reveal_strlit(" ");
    let turn = millis / 120;
    assert((millis + 120) / 120 == turn + 1) by (nonlinear_arith)
        requires
            turn == millis / 120,
    ;
    assert((millis + 480) / 120 == turn + 4) by (nonlinear_arith)
        requires
            turn == millis / 120,
    ;
    assert((turn + 1) % 4 != turn % 4);
    assert((turn + 4) % 4 == turn % 4);
    assert(0 <= turn % 4 < 4);
    if is_reading(app.store) {
        assert(right_of(app, millis, now).skip(2) =~= app.state(now));
    }
}

/// The search row shows what is typed, from far enough in that the caret is
/// on it, and says what it is for where nothing is.
pub proof fn law_the_caret_is_on_the_search_row(
    input: TextInputView,
    focused: bool,
    placeholder: Seq<char>,
    width: u16,
)
    requires
        input.holds(),
        width > 0,
    ensures
        ({
            let first = first_shown(input.cursor, width as int);
            let shown = field_shows(input, focused, placeholder, width);
            &&& 0 <= first <= input.cursor < first + width
            &&& input.cursor < width ==> first == 0
            &&& input.text.len() == 0 && !focused ==> shown.text == placeholder && shown.tone
                == Tone::Muted
            &&& input.text.len() > 0 || focused ==> shown.text == input.text.skip(first)
                && shown.tone == Tone::Text
        }),
{
}

/// The help has every key with what it does, and every problem.
pub proof fn law_the_help_has_every_key_and_every_problem(
    problems: Seq<Seq<char>>,
    row: int,
    at: int,
)
    ensures
        0 <= row < table().len() ==> is_said(
            help_text(problems),
            pad(table()[row].0, 12) + table()[row].1,
        ),
        0 <= at < problems.len() ==> is_said(help_text(problems), problems[at]),
        table().contains(("q  Ctrl-C"@, "quit"@)),
        table().contains(("?"@, "this help"@)),
        table().contains(("r"@, "read this tab again now"@)),
        table().contains(("S"@, "sort by the next column; a header click sorts too"@)),
        table().contains(("/"@, "search; Esc or Enter keeps the filter, Esc again clears it"@)),
        table().contains(("Tab"@, "focus the table or the details pane"@)),
        table().contains(("Ctrl-U"@, "clear the search box"@)),
        table().contains(("j k  \u{2191} \u{2193}"@, "move the cursor in the focused pane"@)),
        table().contains(("1-9  [ ]"@, "a tab by number; the previous, the next"@)),
        table().contains(("PgUp PgDn"@, "a screenful at a time"@)),
        table().contains(("Home End"@, "the first row, the last row"@)),
{
    reveal_with_fuel(line_text, 3);
    let lines = help_text(problems);
    let all = table();
    if 0 <= row < all.len() {
        let line = super::modal::entry(all[row].0, all[row].1);
        assert(lines[row] == line);
        assert(line.drop_last().drop_last() =~= seq![]);
        assert(line_text(line) =~= pad(all[row].0, 12) + all[row].1);
        assert(line_text(lines[row]) == pad(all[row].0, 12) + all[row].1);
    }
    if 0 <= at < problems.len() {
        let place = all.len() + 2 + 2 + at;
        assert(lines[place] == seq![SpanView::of(problems[at], Tone::Error)]);
        assert(lines[place].drop_last() =~= seq![]);
        assert(line_text(lines[place]) =~= problems[at]);
    }
    assert(all[0] == ("1-9  [ ]"@, "a tab by number; the previous, the next"@));
    assert(all[1] == ("j k  \u{2191} \u{2193}"@, "move the cursor in the focused pane"@));
    assert(all[2] == ("PgUp PgDn"@, "a screenful at a time"@));
    assert(all[3] == ("Home End"@, "the first row, the last row"@));
    assert(all[4] == ("Tab"@, "focus the table or the details pane"@));
    assert(all[5] == ("/"@, "search; Esc or Enter keeps the filter, Esc again clears it"@));
    assert(all[6] == ("Ctrl-U"@, "clear the search box"@));
    assert(all[7] == ("S"@, "sort by the next column; a header click sorts too"@));
    assert(all[8] == ("r"@, "read this tab again now"@));
    assert(all[9] == ("?"@, "this help"@));
    assert(all[10] == ("q  Ctrl-C"@, "quit"@));
}

proof fn lemma_toolbar_said(count: nat)
    requires
        0 < count <= 6,
    ensures
        line_text(toolbar_among(count)) == line_text(toolbar_among((count - 1) as nat)) + (if count
            > 1 {
            " "@
        } else {
            seq![]
        }) + ("["@ + Button::ALL[count - 1].says() + "]"@),
{
    reveal_with_fuel(line_text, 4);
    let before = toolbar_among((count - 1) as nat);
    let button = super::pods::button_spans(Button::ALL[count - 1]);
    assert(button.drop_last().drop_last().drop_last() =~= seq![]);
    assert(line_text(button) =~= "["@ + Button::ALL[count - 1].says() + "]"@);
    if count > 1 {
        let gap = SpanView::of(" "@, Tone::Plain);
        law_a_line_says_what_its_pieces_say(before, seq![gap], gap);
        law_a_line_says_what_its_pieces_say(before + seq![gap], button, gap);
        assert(line_text(toolbar_among(count)) =~= line_text(before) + " "@ + ("["@ + Button::ALL[
            count - 1].says() + "]"@));
    } else {
        assert(toolbar_among(count) =~= button);
        assert(before =~= seq![]);
        assert(line_text(toolbar_among(count)) =~= line_text(before) + seq![] + ("["@ + Button::ALL[
            count - 1].says() + "]"@));
    }
}

/// Each button takes a click just where it is drawn: it starts where the
/// buttons before it end, a blank further after the first.
pub proof fn law_a_button_is_clicked_where_it_is_drawn(count: nat, column: int)
    requires
        count < 6,
        0 <= column,
        column + 80 <= u16::MAX,
    ensures
        button_column(count, column) == column + line_text(toolbar_among(count)).len() + (if count
            > 0 {
            1int
        } else {
            0int
        }),
        line_text(toolbar_among(count)).len() <= 12 * count,
        line_text(toolbar_among(count + 1)).skip(
            button_column(count, column) - column,
        ) == "["@ + Button::ALL[count as int].says() + "]"@,
    decreases count,
{
    reveal_strlit("Logs");
    reveal_strlit("Bash");
    reveal_strlit("Restart");
    reveal_strlit("Scale");
    reveal_strlit("Describe");
    reveal_strlit("YAML");
    reveal_strlit(" ");
    reveal_strlit("[");
    reveal_strlit("]");
    lemma_toolbar_said(count + 1);
    if count > 0 {
        law_a_button_is_clicked_where_it_is_drawn((count - 1) as nat, column);
        lemma_toolbar_said(count);
    }
    let drawn = line_text(toolbar_among(count));
    assert(line_text(toolbar_among(count + 1)).skip(button_column(count, column) - column) =~= "["@
        + Button::ALL[count as int].says() + "]"@);
}

/// The buttons are those of the toolbar, in its order, under their names.
pub proof fn law_the_toolbar_has_its_buttons()
    ensures
        Button::ALL[0].says() == "Logs"@,
        Button::ALL[1].says() == "Bash"@,
        Button::ALL[2].says() == "Restart"@,
        Button::ALL[3].says() == "Scale"@,
        Button::ALL[4].says() == "Describe"@,
        Button::ALL[5].says() == "YAML"@,
{
}

/// A click on a button's cells lands on that button.
pub proof fn law_a_click_on_a_button_lands_on_that_button(
    shell: ShellView,
    count: nat,
    index: nat,
    column: int,
    row: int,
    at: int,
)
    requires
        index < count <= 6,
        0 <= column,
        column + 80 <= u16::MAX,
        0 <= row < u16::MAX,
        button_column(index, column) <= at < button_column(index, column)
            + Button::ALL[index as int].says().len() + 2,
    ensures
        drawn_at(with_buttons(shell, count, column, row).regions, at, row) == Some(
            Target::Button(Button::ALL[index as int]),
        ),
    decreases count,
{
    reveal_strlit("Logs");
    reveal_strlit("Bash");
    reveal_strlit("Restart");
    reveal_strlit("Scale");
    reveal_strlit("Describe");
    reveal_strlit("YAML");
    let last = (count - 1) as nat;
    law_a_button_is_clicked_where_it_is_drawn(last, column);
    law_a_button_is_clicked_where_it_is_drawn(index, column);
    let area = Rect::cut(
        button_column(last, column),
        row,
        Button::ALL[last as int].says().len() as int + 2,
        1,
    );
    law_drawn_last_is_on_top(
        with_buttons(shell, last, column, row),
        area,
        Target::Button(Button::ALL[last as int]),
        at,
        row,
    );
    if index < last {
        lemma_buttons_go_right(index, last, column);
        law_a_click_on_a_button_lands_on_that_button(shell, last, index, column, row, at);
    }
}

proof fn lemma_buttons_go_right(first: nat, second: nat, column: int)
    requires
        first < second < 6,
        0 <= column,
        column + 80 <= u16::MAX,
    ensures
        button_column(first, column) + Button::ALL[first as int].says().len() + 3 <= button_column(
            second,
            column,
        ),
    decreases second,
{
    reveal_strlit("Logs");
    reveal_strlit("Bash");
    reveal_strlit("Restart");
    reveal_strlit("Scale");
    reveal_strlit("Describe");
    reveal_strlit("YAML");
    law_a_button_is_clicked_where_it_is_drawn((second - 1) as nat, column);
    if first < second - 1 {
        lemma_buttons_go_right(first, (second - 1) as nat, column);
    }
}

/// A modal stands in the middle: as far from the one side as from the other,
/// but for a cell that cannot be halved.
pub proof fn law_a_modal_stands_in_the_middle(area: Rect, width: int, height: int)
    requires
        area.x + area.width <= u16::MAX,
        area.y + area.height <= u16::MAX,
        3 <= area.width,
        3 <= area.height,
        1 <= width,
        1 <= height,
    ensures
        ({
            let modal = modal_in(area, width, height);
            let left = modal.x - area.x;
            let right = area.width - modal.width - left;
            let above = modal.y - area.y;
            let below = area.height - modal.height - above;
            &&& 0 <= right - left <= 1
            &&& 0 <= below - above <= 1
            &&& width <= area.width - 2 ==> modal.width == width
            &&& width > area.width - 2 ==> modal.width == area.width - 2
            &&& height <= area.height - 2 ==> modal.height == height
            &&& height > area.height - 2 ==> modal.height == area.height - 2
        }),
{
}

/// A border takes a cell of each side.
pub proof fn law_a_border_takes_a_cell_of_each_side(area: Rect)
    requires
        area.x + area.width <= u16::MAX,
        area.y + area.height <= u16::MAX,
        2 <= area.width,
        2 <= area.height,
    ensures
        inside(area).x == area.x + 1,
        inside(area).y == area.y + 1,
        inside(area).x + inside(area).width == area.x + area.width - 1,
        inside(area).y + inside(area).height == area.y + area.height - 1,
{
}

/// A wide frame has the panes side by side, a narrower one stacks them, and
/// the narrowest shows the one that has the keys.
pub proof fn law_the_panes_fit_the_width(
    width: u16,
    focus: Focus,
    body: Rect,
    first: Rect,
    second: Rect,
)
    ensures
        width >= 100 <==> panes_at(width) == Panes::SideBySide,
        70 <= width < 100 <==> panes_at(width) == Panes::Stacked,
        width < 70 <==> panes_at(width) == Panes::One,
        width >= 70 ==> panes_in(panes_at(width), focus, body, first, second) == seq![
            (Pane::Table, first),
            (Pane::Details, second),
        ],
        width < 70 && focus is Details ==> panes_in(panes_at(width), focus, body, first, second)
            == seq![(Pane::Details, body)],
        width < 70 && !(focus is Details) ==> panes_in(panes_at(width), focus, body, first, second)
            == seq![(Pane::Table, body)],
{
}

/// The details over a text pane take no more than they need or than just
/// under half, and five rows at least where there are so many.
pub proof fn law_the_details_leave_half_for_the_text(lines: nat, height: u16)
    requires
        height >= 12,
    ensures
        5 <= details_rows(lines, height) <= height,
        details_rows(lines, height) * 100 <= height * 45 || details_rows(lines, height) == 5,
        details_rows(lines, height) <= lines + 2 || details_rows(lines, height) == 5,
        5 <= lines + 2 && (lines + 2) * 100 <= height * 45 ==> details_rows(lines, height) == lines
            + 2,
{
}

/// A heading is its title between rules, as wide as the pane.
pub proof fn law_a_heading_is_as_wide_as_the_pane(title: Seq<char>, width: nat)
    requires
        title.len() + 4 <= width,
    ensures
        heading(title, width).len() == width,
        heading(title, width).subrange(3, 3 + title.len() as int) == title,
{
    reveal_strlit("\u{2500}\u{2500} ");
    reveal_strlit(" ");
    assert(heading(title, width).subrange(3, 3 + title.len() as int) =~= title);
}

/// The details pane is about the pod under the cursor: it says its name, its
/// status, where it is and its address, and with no pod there why not.
pub proof fn law_the_details_pane_is_about_the_selected_pod(
    pane: DetailsPane,
    focused: bool,
    screen: ScopeScreenView,
    tab: TabView,
    data: ScopeDataView,
    area: Rect,
    replicas: Option<Seq<char>>,
    now: int,
)
    requires
        details_are(pane, focused, screen, tab, data, area, replicas, now),
    ensures
        screen.cursor.index < screen.visible.len() && screen.visible[screen.cursor.index as int]
            < data.pods.len() ==> {
            let pod = data.pods[screen.visible[screen.cursor.index as int] as int];
            let lines = line_views(pane.lines@);
            &&& is_said(lines, pod.glyph() + " "@ + pod.key.name + "  "@ + pod.status)
            &&& pod.ip.len() > 0 ==> is_said(lines, "IP            "@ + pod.ip)
            &&& pod.node.len() > 0 ==> is_said(lines, "Node          "@ + pod.node)
            &&& is_said(lines, "Restarts      "@ + decimal(pod.restarts as nat))
            &&& data.error matches Some(message) ==> is_said(
                lines,
                "last read failed: "@ + message,
            )
        },
        screen.visible.len() == 0 ==> line_views(pane.lines@).len() == 1 && line_views(
            pane.lines@,
        )[0] == seq![nothing_line(tab.scope.describe(), data)],
        pane.focused == focused,
        pane.inner == inside(area),
{
    if screen.cursor.index < screen.visible.len() && screen.visible[screen.cursor.index as int]
        < data.pods.len() {
        let pod = data.pods[screen.visible[screen.cursor.index as int] as int];
        let width = rest_of(area.width as int, 2) as nat;
        assert(screen.selected(data.pods) == Some(pod));
        law_the_details_say_each_thing_under_its_name(pod, replicas, data.error, width, now, 0);
        lemma_named_line(pod, replicas, data.error, width, now);
        let lines = pod_lines(pod, replicas, data.error, width, now);
        assert(line_text(lines[1]) == pod.glyph() + " "@ + pod.key.name + "  "@ + pod.status);
        if let Some(message) = data.error {
            law_a_failed_read_is_said_under_the_pod(pod, replicas, message, width, now);
        }
    }
}

/// The labels come after their name, and the containers and what went wrong
/// under headings of their own.
pub proof fn law_the_details_have_their_headings(
    pod: PodView,
    replicas: Option<Seq<char>>,
    message: Seq<char>,
    width: nat,
    now: int,
)
    ensures
        is_said(pod_lines(pod, replicas, None, width, now), heading("Containers"@, width)),
        is_said(pod_lines(pod, replicas, Some(message), width, now), heading("Problem"@, width)),
        pod.labels.len() > 0 ==> is_pieced(
            pod_lines(pod, replicas, None, width, now),
            "Labels        "@,
        ),
{
    reveal_with_fuel(line_text, 2);
    let head = head_lines(pod, replicas, now);
    let lines = pod_lines(pod, replicas, None, width, now);
    let place = head.len() + 1;
    assert(lines[place as int].drop_last() =~= seq![]);
    assert(line_text(lines[place as int]) =~= heading("Containers"@, width));
    let failed = pod_lines(pod, replicas, Some(message), width, now);
    let end = lines.len() as int;
    assert(failed[end + 1].drop_last() =~= seq![]);
    assert(line_text(failed[end + 1]) =~= heading("Problem"@, width));
    if pod.labels.len() > 0 {
        lemma_chips_begin(pod.labels);
        reveal_strlit("Labels");
        reveal_strlit("Labels        ");
        assert(pad("Labels"@, 14) =~= "Labels        "@);
        assert(lines[9] == head[9]);
        assert(lines[9][0].text == "Labels        "@);
    }
}

proof fn lemma_chips_begin(labels: Seq<(Seq<char>, Seq<char>)>)
    ensures
        chips(labels).len() > 0,
        chips(labels)[0].text == pad("Labels"@, 14),
    decreases labels.len(),
{
    if labels.len() > 0 {
        lemma_chips_begin(labels.drop_last());
    }
}

/// A heading is its title between two rules.
pub proof fn law_a_heading_stands_between_rules(title: Seq<char>, width: nat, at: int)
    requires
        title.len() + 4 <= at < width,
    ensures
        heading(title, width)[0] == '\u{2500}' && heading(title, width)[1] == '\u{2500}'
            && heading(title, width)[2] == ' ',
        heading(title, width)[title.len() as int + 3] == ' ',
        heading(title, width)[at] == '\u{2500}',
{
    reveal_strlit("\u{2500}\u{2500} ");
    reveal_strlit(" ");
}

/// The help has what the filters are, and its problems under their own
/// heading.
pub proof fn law_the_help_has_the_filters(problems: Seq<Seq<char>>)
    ensures
        is_said(
            help_text(problems),
            pad("Filters"@, 12)
                + "name: ns: status: owner: app: node: \u{2014} every word and filter must match"@,
        ),
        problems.len() > 0 ==> is_said(help_text(problems), "Problems"@),
{
    reveal_with_fuel(line_text, 3);
    let lines = help_text(problems);
    let at = table().len() as int + 1;
    let line = lines[at];
    assert(line.len() == 2);
    assert(line.drop_last().drop_last() =~= seq![]);
    assert(line.drop_last() =~= seq![line[0]]);
    assert(line_text(line) =~= line[0].text + line[1].text);
    if problems.len() > 0 {
        let title = lines[at + 2];
        assert(title.drop_last() =~= seq![]);
        assert(line_text(title) =~= "Problems"@);
    }
}

/// The toolbar takes clicks while a pod is under the cursor and its line is
/// on screen and fits, one cell inside the pane, and else none.
pub proof fn law_the_toolbar_takes_clicks_where_it_shows(
    shell: ShellView,
    area: Rect,
    offset: nat,
)
    requires
        area.x < u16::MAX,
        area.y < u16::MAX,
    ensures
        with_toolbar(shell, area, offset, false) == shell,
        offset > 0 ==> with_toolbar(shell, area, offset, true) == shell,
        area.width < 51 || area.height < 3 ==> with_toolbar(shell, area, offset, true) == shell,
        offset == 0 && area.width >= 51 && area.height >= 3 ==> with_toolbar(
            shell,
            area,
            offset,
            true,
        ) == with_buttons(shell, 6, area.x + 1, area.y + 1),
{
    reveal_with_fuel(toolbar_cells, 7);
    reveal_strlit("Logs");
    reveal_strlit("Bash");
    reveal_strlit("Restart");
    reveal_strlit("Scale");
    reveal_strlit("Describe");
    reveal_strlit("YAML");
    law_the_toolbar_has_its_buttons();
    assert(toolbar_cells(6) == 50);
}

/// A frame shows the application: its tabs with the open one standing out,
/// the help while it is open, and at the bottom what happened or else the
/// keys, and how old the rows are.
pub proof fn law_a_frame_shows_the_application(
    drawn: FrameDrawn,
    app: AppView,
    area: Rect,
    millis: int,
    replicas: Option<Seq<char>>,
    now: int,
    index: int,
) -> (at: int)
    requires
        frame_is(drawn, app, area, millis, replicas, now),
        0 <= index < app.tabs.len(),
    ensures
        0 <= at < drawn.bar.line@.len(),
        drawn.bar.line@[at].bold <==> index == app.tab,
        drawn.bar.line@[at].text == label_of(app, index).said(
            index,
            are_short(labels_of(app), drawn.parts.tabs.width as int),
        ),
        drawn.help is Some <==> app.shell.help_open,
        drawn.tab is Some <==> 0 <= app.tab < app.tabs.len() && app.tab < app.screens.len()
            && app.tab < app.store.len(),
        drawn.status.right matches Some(right) ==> right.1@ == right_of(app, millis, now),
        app.shell.notification is None && app.has_screen() && right_cells(
            right_of(app, millis, now),
        ) + 3 + hint_of(app.shell.focus).len() < drawn.parts.status.width
            ==> drawn.status.left@.text == hint_of(app.shell.focus),
{
    law_the_open_tab_stands_out(
        labels_of(app),
        app.tab,
        are_short(labels_of(app), drawn.parts.tabs.width as int),
        labels_of(app).len(),
        index,
    )
}

/// A frame needs forty columns and ten rows.
pub proof fn law_a_frame_needs_room(area: Rect, answer: bool)
    requires
        call_ensures(has_room, (area,), answer),
    ensures
        answer <==> area.width >= 40 && area.height >= 10,
{
}

/// Without a tab the screen says how to get one.
pub proof fn law_no_clusters_says_what_to_do()
    ensures
        NO_CLUSTERS@
            == "No clusters configured.\n\nAdd a [[clusters]] table to ~/.config/aks-tui/config.toml naming a kubeconfig context and its namespaces, then start again."@,
        HELP_TITLE@ == " Keys "@,
        HELP_WIDTH == 74,
{
}

/// A container that is not ready is in the error's tone, and one that is has
/// the mark of success and is quiet else; why it last stopped is a warning.
pub proof fn law_a_container_that_is_not_ready_stands_out(container: ContainerView)
    ensures
        ({
            let lines = container_lines(container);
            &&& container.ready ==> lines[0][0].tone == Tone::Success && lines[0][2].tone
                == Tone::Muted
            &&& !container.ready ==> lines[0][0].tone == Tone::Error && lines[0][2].tone
                == Tone::Error
            &&& lines[0][1].tone == Tone::Text
            &&& lines[1][0].tone == Tone::Muted
            &&& container.last_termination is Some ==> lines.len() == 3 && lines[2][0].tone
                == Tone::Warning
            &&& container.last_termination is None ==> lines.len() == 2
        }),
{
}

/// What the details say has the tone of what it is: the name of a field is
/// quiet and its value is text, and the pod's glyph and status have its tone.
pub proof fn law_the_details_have_their_tones(
    pod: PodView,
    replicas: Option<Seq<char>>,
    error: Option<Seq<char>>,
    width: nat,
    now: int,
    at: int,
)
    ensures
        ({
            let lines = pod_lines(pod, replicas, error, width, now);
            &&& lines[1][0].tone == tone_of(pod) && lines[1][3].tone == tone_of(pod)
            &&& lines[1][1].bold && lines[1][1].text == pod.key.name
            &&& 4 <= at < 9 ==> lines[at][0].tone == Tone::Muted && lines[at][1].tone == Tone::Text
        }),
{
    let head = head_lines(pod, replicas, now);
    let lines = pod_lines(pod, replicas, error, width, now);
    assert(lines[1] == head[1]);
    if 4 <= at < 9 {
        assert(lines[at] == head[at]);
    }
}

/// A pane's lines scroll as far as they go and no further, and the pane is as
/// high as its border leaves.
pub proof fn law_the_details_scroll_as_far_as_they_go(
    screen: ScopeScreenView,
    tab: TabView,
    data: ScopeDataView,
    area: Rect,
    replicas: Option<Seq<char>>,
    now: int,
)
    ensures
        ({
            let after = details_drawn(screen, tab, data, area, replicas, now);
            let scroll = after.details_scroll;
            &&& scroll.viewport == inside(area).height
            &&& scroll.content <= scroll.viewport ==> scroll.offset == 0
            &&& scroll.content > scroll.viewport ==> scroll.offset <= scroll.content
                - scroll.viewport
            &&& screen.details_scroll.offset + scroll.viewport <= scroll.content ==> scroll.offset
                == screen.details_scroll.offset
            &&& after.cursor == screen.cursor
            &&& after.visible == screen.visible
        }),
{
}

/// With no pod under the cursor a click anywhere in the details goes to the
/// details.
pub proof fn law_a_click_in_the_details_lands_there(
    shell: ShellView,
    screen: ScopeScreenView,
    tab: TabView,
    data: ScopeDataView,
    area: Rect,
    replicas: Option<Seq<char>>,
    now: int,
    column: int,
    row: int,
)
    requires
        area.holds_cell(column, row),
        screen.selected(data.pods) is None || area.height < 3,
    ensures
        drawn_at(
            with_details(shell, screen, tab, data, area, replicas, now).regions,
            column,
            row,
        ) == Some(Target::Details),
{
    law_drawn_last_is_on_top(shell, area, Target::Details, column, row);
}

/// A tab has its search row, lit while the box has the focus, and its panes:
/// the table and the details, or on a narrow screen the one that has the
/// focus.
pub proof fn law_a_tab_has_its_row_and_its_panes(
    drawn: TabDrawn,
    shell: ShellView,
    screen: ScopeScreenView,
    tab: TabView,
    data: ScopeDataView,
    width: u16,
    parts: TabParts,
    replicas: Option<Seq<char>>,
    now: int,
)
    requires
        tab_is(drawn, shell, screen, tab, data, width, parts, replicas, now),
    ensures
        drawn.search.glyph.1@.tone == Tone::Accent <==> shell.focus is Search,
        screen.input.text.len() == 0 && !(shell.focus is Search) ==> drawn.search.field.1@.text
            == PODS_PLACEHOLDER@,
        width >= 70 ==> drawn.panes@.len() == 2 && drawn.panes@[0] is Table && drawn.panes@[1]
            is Details,
        width < 70 ==> drawn.panes@.len() == 1,
        width < 70 && shell.focus is Details ==> drawn.panes@[0] is Details,
        width < 70 && !(shell.focus is Details) ==> drawn.panes@[0] is Table,
        drawn.panes@[0] matches PaneDrawn::Table(_, table) ==> table.title@ == " Pods "@ && (
        table.focused <==> shell.focus is Table) && table.status@ == screen.status(data.pods.len()),
{
    let panes = tab_panes(shell.focus, width, parts);
    let rowed = with_search_row(shell, parts.row, screen.input);
    assert(panes.len() >= 1);
    assert(panes.take(0) =~= seq![]);
    assert(pane_is(
        drawn.panes@[0],
        panes[0],
        after_panes(rowed, screen, tab, data, panes.take(0), headers_of(drawn), replicas, now),
        tab,
        data,
        replicas,
        now,
    ));
    if width >= 70 {
        assert(panes.len() == 2);
        assert(pane_is(
            drawn.panes@[1],
            panes[1],
            after_panes(rowed, screen, tab, data, panes.take(1), headers_of(drawn), replicas, now),
            tab,
            data,
            replicas,
            now,
        ));
    }
}

/// On a wide screen what the table drew stays under what the details draw:
/// its regions come first, and the details pane's after them.
pub proof fn law_the_details_are_drawn_after_the_table(
    shell: ShellView,
    screen: ScopeScreenView,
    tab: TabView,
    data: ScopeDataView,
    width: u16,
    parts: TabParts,
    headers: Seq<Rect>,
    replicas: Option<Seq<char>>,
    now: int,
    at: int,
)
    requires
        width >= 70,
    ensures
        ({
            let rowed = with_search_row(shell, parts.row, screen.input);
            let tabled = with_table(rowed, screen, parts.first, headers).regions;
            let after = after_tab(
                shell,
                screen,
                tab,
                data,
                width,
                parts,
                headers,
                replicas,
                now,
            );
            &&& tabled.len() < after.0.regions.len()
            &&& 0 <= at < tabled.len() ==> after.0.regions[at] == tabled[at]
            &&& after.0.regions[tabled.len() as int] == (parts.second, Target::Details)
            &&& after.1.cursor == screen_drawn(screen, parts.first).cursor
            &&& after.1.details_scroll.viewport == inside(parts.second).height
        }),
{
    reveal_with_fuel(after_panes, 3);
    let rowed = with_search_row(shell, parts.row, screen.input);
    let panes = tab_panes(shell.focus, width, parts);
    assert(panes.len() == 2);
    assert(panes.drop_last() =~= seq![(Pane::Table, parts.first)]);
    assert(panes.drop_last().drop_last() =~= seq![]);
    let tabled = with_table(rowed, screen, parts.first, headers);
    let pointed = tabled.with_region(parts.second, Target::Details);
    lemma_buttons_come_after(pointed, 6, sum_to_end(parts.second.x as int, 1), sum_to_end(
        parts.second.y as int,
        1,
    ), at);
    lemma_buttons_come_after(pointed, 6, sum_to_end(parts.second.x as int, 1), sum_to_end(
        parts.second.y as int,
        1,
    ), tabled.regions.len() as int);
}

proof fn lemma_buttons_come_after(shell: ShellView, count: nat, column: int, row: int, at: int)
    ensures
        with_buttons(shell, count, column, row).regions.len() == shell.regions.len() + count,
        0 <= at < shell.regions.len() ==> with_buttons(shell, count, column, row).regions[at]
            == shell.regions[at],
    decreases count,
{
    if count > 0 {
        lemma_buttons_come_after(shell, (count - 1) as nat, column, row, at);
    }
}

/// The right end of the status bar is quiet, and an error without a tab.
pub proof fn law_no_tab_is_an_error(app: &App, tone: Tone)
    requires
        call_ensures(App::right_tone, (app,), tone),
    ensures
        app@.tabs.len() == 0 ==> tone == Tone::Error,
        app@.tab < app@.tabs.len() ==> tone == Tone::Muted,
{
}

/// In the help the keys stand out, what they do is its body, and what is
/// wrong is in the error's tone.
pub proof fn law_the_help_has_its_tones(problems: Seq<Seq<char>>, row: int, at: int)
    ensures
        0 <= row < table().len() ==> help_text(problems)[row][0].tone == Tone::Accent
            && help_text(problems)[row][1].tone == Tone::Body,
        0 <= at < problems.len() ==> {
            let line = help_text(problems)[table().len() + 4 + at];
            &&& line.len() == 1
            &&& line[0].text == problems[at]
            &&& line[0].tone == Tone::Error
        },
        problems.len() == 0 ==> help_text(problems).len() == table().len() + 2,
{
}

/// The details of a pod, as they are drawn, say each thing under its name, and
/// what went wrong with the last read.
pub proof fn law_the_drawn_details_say_each_thing_under_its_name(
    pod: &Pod,
    replicas: Option<&str>,
    data: &ScopeData,
    width: u16,
    now: Timestamp,
    lines: Vec<Line>,
)
    requires
        call_ensures(detail_lines, (pod, replicas, data, width, now), lines),
    ensures
        pod@.ip.len() > 0 ==> is_said(line_views(lines@), "IP            "@ + pod@.ip),
        pod@.node.len() > 0 ==> is_said(line_views(lines@), "Node          "@ + pod@.node),
        is_said(line_views(lines@), "Restarts      "@ + decimal(pod@.restarts as nat)),
        is_said(
            line_views(lines@),
            "Ready         "@ + (decimal(pod@.ready.0 as nat) + "/"@ + decimal(
                pod@.ready.1 as nat,
            )),
        ),
        data@.error matches Some(message) ==> is_said(
            line_views(lines@),
            "last read failed: "@ + message,
        ),
{
    law_the_details_say_each_thing_under_its_name(
        pod@,
        maybe_text(replicas),
        data@.error,
        width as nat,
        now@,
        0,
    );
    if let Some(message) = data@.error {
        law_a_failed_read_is_said_under_the_pod(
            pod@,
            maybe_text(replicas),
            message,
            width as nat,
            now@,
        );
    }
}

} // verus!
