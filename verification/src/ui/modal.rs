//! The help: a box over the frame, with every key, the filters the search
//! box takes, and whatever is wrong.

use vstd::prelude::*;
use vstd::string::*;

use crate::app::keys::{key_views, keys, table};
use crate::app::screen::Target;
use crate::app::shell::Shell;
use crate::text;
use crate::text::{pad, texts};

use super::details::push_line;
use super::paint::{least, line_views, most, rest_of, Line, Rect, Span, SpanView, Tone};

verus! {

/// How wide the help is.
pub const HELP_WIDTH: u16 = 74;

/// What the help's border says.
pub const HELP_TITLE: &'static str = " Keys ";

/// The widest that lines are wrapped: the wrapping adds up less than four
/// times its width in a `u16`.
pub const WIDEST: u16 = 16_383;

/// The box of a modal: in the middle of the area, at most as large as was
/// asked for, with a cell of the area round it, and never nothing.
pub open spec fn modal_in(area: Rect, width: int, height: int) -> Rect {
    let wide = most(least(width, rest_of(area.width as int, 2)), 1);
    let high = most(least(height, rest_of(area.height as int, 2)), 1);
    Rect::cut(
        area.x + rest_of(area.width as int, wide) / 2,
        area.y + rest_of(area.height as int, high) / 2,
        wide,
        high,
    )
}

/// What a border round an area leaves of it.
pub open spec fn inside(area: Rect) -> Rect {
    Rect {
        x: least(area.x + 1, area.end_column()) as u16,
        y: least(area.y + 1, area.end_row()) as u16,
        width: rest_of(area.width as int, 2) as u16,
        height: rest_of(area.height as int, 2) as u16,
    }
}

/// The box of a modal, in the middle of the area.
pub fn modal_frame(area: Rect, width: u16, height: u16) -> (modal: Rect)
    requires
        area.x + area.width <= u16::MAX,
        area.y + area.height <= u16::MAX,
    ensures
        modal == modal_in(area, width as int, height as int),
{
    let room = area.width.saturating_sub(2);
    let width = if width <= room {
        width
    } else {
        room
    };
    let width: u16 = if width >= 1 {
        width
    } else {
        1
    };
    let room = area.height.saturating_sub(2);
    let height = if height <= room {
        height
    } else {
        room
    };
    let height: u16 = if height >= 1 {
        height
    } else {
        1
    };
    Rect::new(
        area.x + area.width.saturating_sub(width) / 2,
        area.y + area.height.saturating_sub(height) / 2,
        width,
        height,
    )
}

/// What a border round an area leaves of it.
pub fn inner(area: Rect) -> (inner: Rect)
    ensures
        inner == inside(area),
{
    let x = area.x.saturating_add(1);
    let y = area.y.saturating_add(1);
    Rect {
        x: if x <= area.right() {
            x
        } else {
            area.right()
        },
        y: if y <= area.bottom() {
            y
        } else {
            area.bottom()
        },
        width: area.width.saturating_sub(2),
        height: area.height.saturating_sub(2),
    }
}

/// One entry of the help.
pub open spec fn entry(keys: Seq<char>, does: Seq<char>) -> Seq<SpanView> {
    seq![SpanView::of(pad(keys, 12), Tone::Accent), SpanView::of(does, Tone::Body)]
}

/// An entry for each key.
pub open spec fn key_lines(rows: Seq<(Seq<char>, Seq<char>)>) -> Seq<Seq<SpanView>> {
    rows.map_values(|row: (Seq<char>, Seq<char>)| entry(row.0, row.1))
}

/// What is wrong, under its heading.
pub open spec fn problem_lines(problems: Seq<Seq<char>>) -> Seq<Seq<SpanView>> {
    if problems.len() == 0 {
        seq![]
    } else {
        seq![seq![], seq![SpanView::bold("Problems"@, Tone::Header)]] + problems.map_values(
            |problem: Seq<char>| seq![SpanView::of(problem, Tone::Error)],
        )
    }
}

/// The help: every key, the filters the search box takes, then whatever is
/// wrong.
pub open spec fn help_text(problems: Seq<Seq<char>>) -> Seq<Seq<SpanView>> {
    key_lines(table()) + seq![
        seq![],
        entry(
            "Filters"@,
            "name: ns: status: owner: app: node: \u{2014} every word and filter must match"@,
        ),
    ] + problem_lines(problems)
}

fn help_entry(keys: &str, does: &str) -> (line: Line)
    ensures
        line@ == entry(keys@, does@),
{
    let mut line = Line::of(text::padded(keys, 12).as_str(), Tone::Accent);
    line.push(Span::of(does, Tone::Body));
    assert(line@ =~= entry(keys@, does@));
    line
}

/// The help: every key, the filters the search box takes, then whatever is
/// wrong.
pub fn help_lines(problems: &Vec<String>) -> (lines: Vec<Line>)
    ensures
        line_views(lines@) == help_text(texts(problems@)),
{
    let rows = keys();
    let ghost all = key_lines(table());
    let mut lines: Vec<Line> = Vec::new();
    let mut at: usize = 0;
    assert(line_views(lines@) =~= all.take(0));
    while at < rows.len()
        invariant
            at <= rows@.len(),
            key_views(rows@) == table(),
            all == key_lines(table()),
            line_views(lines@) == all.take(at as int),
        decreases rows@.len() - at,
    {
        assert(table()[at as int] == rows@[at as int]@);
        push_line(&mut lines, help_entry(rows[at].keys, rows[at].does));
        assert(line_views(lines@) =~= all.take(at as int + 1));
        at += 1;
    }
    assert(all.take(at as int) =~= all);
    push_line(&mut lines, Line::new());
    push_line(
        &mut lines,
        help_entry(
            "Filters",
            "name: ns: status: owner: app: node: \u{2014} every word and filter must match",
        ),
    );
    let ghost front = line_views(lines@);
    assert(front =~= all + seq![
        seq![],
        entry(
            "Filters"@,
            "name: ns: status: owner: app: node: \u{2014} every word and filter must match"@,
        ),
    ]);
    let ghost said = texts(problems@);
    if problems.len() > 0 {
        push_line(&mut lines, Line::new());
        let mut heading = Line::new();
        heading.push(Span::bold("Problems", Tone::Header));
        assert(heading@ =~= seq![SpanView::bold("Problems"@, Tone::Header)]);
        push_line(&mut lines, heading);
        let ghost headed = front + seq![
            seq![],
            seq![SpanView::bold("Problems"@, Tone::Header)],
        ];
        let ghost told = said.map_values(
            |problem: Seq<char>| seq![SpanView::of(problem, Tone::Error)],
        );
        assert(line_views(lines@) =~= headed + told.take(0));
        let mut at: usize = 0;
        while at < problems.len()
            invariant
                at <= problems@.len(),
                said == texts(problems@),
                told == said.map_values(
                    |problem: Seq<char>| seq![SpanView::of(problem, Tone::Error)],
                ),
                line_views(lines@) == headed + told.take(at as int),
            decreases problems@.len() - at,
        {
            assert(said[at as int] == problems@[at as int]@);
            push_line(&mut lines, Line::of(problems[at].as_str(), Tone::Error));
            assert(line_views(lines@) =~= headed + told.take(at as int + 1));
            at += 1;
        }
        assert(told.take(at as int) =~= told);
    }
    assert(line_views(lines@) =~= front + problem_lines(said));
    lines
}

/// The texts of a line's pieces.
pub open spec fn piece_texts(line: Seq<SpanView>) -> Seq<Seq<char>> {
    line.map_values(|span: SpanView| span.text)
}

/// The texts of the pieces of each line.
pub open spec fn line_texts(lines: Seq<Seq<SpanView>>) -> Seq<Seq<Seq<char>>> {
    lines.map_values(|line: Seq<SpanView>| piece_texts(line))
}

/// How many rows `ratatui`'s `Paragraph` takes for these lines when it wraps
/// them at this width, by the texts of the pieces of each line.
pub uninterp spec fn wrapped_rows(lines: Seq<Seq<Seq<char>>>, width: u16) -> usize;

/// `Paragraph::line_count` of `ratatui`, of lines that wrap with their
/// leading blanks kept. It counts by the texts alone, whatever their tones.
/// It adds the width of the line so far, of a word, of the blanks before it
/// and of one character more, none of which is past what its width leaves
/// them, so `requires` leaves out a width at which that sum does not fit.
#[verifier::external_body]
pub(crate) fn line_count(lines: &Vec<Line>, width: u16) -> (rows: usize)
    requires
        width <= WIDEST,
    ensures
        rows == wrapped_rows(line_texts(line_views(lines@)), width),
{
    let lines: Vec<ratatui::text::Line> = lines.iter().map(|line| {
        line.spans.iter().map(|span| ratatui::text::Span::raw(span.text.as_str())).collect()
    }).collect();
    let paragraph = ratatui::widgets::Paragraph::new(lines);
    paragraph.wrap(ratatui::widgets::Wrap { trim: false }).line_count(width)
}

/// The help, as it is drawn.
#[derive(Debug, PartialEq, Eq)]
pub struct Help {
    /// What the border says.
    pub title: String,
    pub lines: Vec<Line>,
    /// The box, with its border.
    pub modal: Rect,
    /// What the border leaves for the lines.
    pub inner: Rect,
}

/// How high the help is over so many rows of text: with its border, as far
/// as a `u16` counts.
pub open spec fn help_rows(rows: int) -> int {
    least(rows + 2, u16::MAX as int)
}

/// The help over so many rows of text. It is sized to what the wrapping
/// makes of it: a refusal names the fix in its second half, which a cut line
/// lost.
pub fn help_box(area: Rect, rows: usize) -> (boxed: (Rect, Rect))
    requires
        area.x + area.width <= u16::MAX,
        area.y + area.height <= u16::MAX,
    ensures
        boxed.0 == modal_in(area, HELP_WIDTH as int, help_rows(rows as int)),
        boxed.1 == inside(boxed.0),
{
    let height: u16 = if rows <= u16::MAX as usize - 2 {
        (rows + 2) as u16
    } else {
        u16::MAX
    };
    let modal = modal_frame(area, HELP_WIDTH, height);
    (modal, inner(modal))
}

/// The help over an area: every key, the filters the search box takes, then
/// whatever is wrong, in a box as high as the rows they wrap to.
pub open spec fn help_is(help: Help, area: Rect, problems: Seq<Seq<char>>) -> bool {
    &&& help.title@ == HELP_TITLE@
    &&& line_views(help.lines@) == help_text(problems)
    &&& help.modal == modal_in(
        area,
        HELP_WIDTH as int,
        help_rows(wrapped_rows(line_texts(help_text(problems)), 72) as int),
    )
    &&& help.inner == inside(help.modal)
}

/// The help: every key, the filters the search box takes, then whatever is
/// wrong, in a box over the whole area, where a click closes it.
pub fn render_help(shell: &mut Shell, area: Rect, problems: &Vec<String>) -> (help: Help)
    requires
        area.x + area.width <= u16::MAX,
        area.y + area.height <= u16::MAX,
    ensures
        help_is(help, area, texts(problems@)),
        final(shell)@ == old(shell)@.with_region(area, Target::Help),
{
    let lines = help_lines(problems);
    let rows = line_count(&lines, HELP_WIDTH - 2);
    let (modal, inner) = help_box(area, rows);
    shell.region(area, Target::Help);
    Help { title: HELP_TITLE.to_owned(), lines, modal, inner }
}

/// A modal stands inside its area, wherever there is a cell of it to stand
/// on.
pub proof fn law_a_modal_stands_inside_its_area(area: Rect, width: int, height: int)
    requires
        area.x + area.width <= u16::MAX,
        area.y + area.height <= u16::MAX,
        area.width > 0,
        area.height > 0,
        0 <= width,
        0 <= height,
    ensures
        ({
            let modal = modal_in(area, width, height);
            &&& area.x <= modal.x
            &&& area.y <= modal.y
            &&& modal.x + modal.width <= area.x + area.width
            &&& modal.y + modal.height <= area.y + area.height
            &&& modal.width > 0
            &&& modal.height > 0
        }),
{
}

/// The help is as wide as it wants and as high as its rows and its border,
/// where there is room, and says what it has to inside it.
pub proof fn law_the_help_is_as_high_as_its_rows(
    help: Help,
    area: Rect,
    problems: Seq<Seq<char>>,
)
    requires
        help_is(help, area, problems),
        area.x + area.width <= u16::MAX,
        area.y + area.height <= u16::MAX,
        3 <= area.width,
        3 <= area.height,
    ensures
        help.title@ == " Keys "@,
        line_views(help.lines@) == help_text(problems),
        area.width >= 76 ==> help.modal.width == 74,
        area.width < 76 ==> help.modal.width == area.width - 2,
        ({
            let rows = wrapped_rows(line_texts(help_text(problems)), 72) as int;
            &&& rows + 4 <= area.height ==> help.modal.height == rows + 2
            &&& rows + 4 > area.height ==> help.modal.height == area.height - 2
        }),
        help.modal.width >= 2 && help.modal.height >= 2 ==> help.inner.x == help.modal.x + 1
            && help.inner.y == help.modal.y + 1 && help.inner.width == help.modal.width - 2
            && help.inner.height == help.modal.height - 2,
{
}

} // verus!
