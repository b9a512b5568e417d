//! What is drawn, before anything draws it: areas of the screen, and lines
//! of text in the tones of the palette.

use vstd::prelude::*;
use vstd::string::*;

verus! {

/// An area of the screen, in cells.
#[derive(Clone, Copy, Debug, PartialEq, Eq, Structural)]
pub struct Rect {
    pub x: u16,
    pub y: u16,
    pub width: u16,
    pub height: u16,
}

/// The sum of two, as far as a `u16` counts.
pub open spec fn sum_to_end(a: int, b: int) -> int {
    if a + b <= u16::MAX {
        a + b
    } else {
        u16::MAX as int
    }
}

/// The difference of two, or nothing.
pub open spec fn rest_of(a: int, b: int) -> int {
    if a >= b {
        a - b
    } else {
        0
    }
}

/// The smaller of two.
pub open spec fn least(a: int, b: int) -> int {
    if a <= b {
        a
    } else {
        b
    }
}

/// The larger of two.
pub open spec fn most(a: int, b: int) -> int {
    if a >= b {
        a
    } else {
        b
    }
}

impl Rect {
    /// The area, cut where it would run past the last cell there is.
    pub open spec fn cut(x: int, y: int, width: int, height: int) -> Rect {
        Rect {
            x: x as u16,
            y: y as u16,
            width: (sum_to_end(x, width) - x) as u16,
            height: (sum_to_end(y, height) - y) as u16,
        }
    }

    /// The first column past it.
    pub open spec fn end_column(self) -> int {
        sum_to_end(self.x as int, self.width as int)
    }

    /// The first row past it.
    pub open spec fn end_row(self) -> int {
        sum_to_end(self.y as int, self.height as int)
    }

    pub open spec fn holds_cell(self, column: int, row: int) -> bool {
        self.x <= column < self.end_column() && self.y <= row < self.end_row()
    }

    /// The area, cut where it would run past the last cell there is.
    pub fn new(x: u16, y: u16, width: u16, height: u16) -> (area: Self)
        ensures
            area == Rect::cut(x as int, y as int, width as int, height as int),
    {
        Rect { x, y, width: x.saturating_add(width) - x, height: y.saturating_add(height) - y }
    }

    /// The first column past it.
    pub fn right(self) -> (column: u16)
        ensures
            column == self.end_column(),
    {
        self.x.saturating_add(self.width)
    }

    /// The first row past it.
    pub fn bottom(self) -> (row: u16)
        ensures
            row == self.end_row(),
    {
        self.y.saturating_add(self.height)
    }

    /// Whether a cell is in it.
    pub fn contains(self, column: u16, row: u16) -> (answer: bool)
        ensures
            answer == self.holds_cell(column as int, row as int),
    {
        column >= self.x && column < self.right() && row >= self.y && row < self.bottom()
    }
}

/// A colour of the palette.
#[derive(Clone, Copy, Debug, PartialEq, Eq, Structural)]
pub enum Tone {
    /// Whatever the terminal writes in.
    Plain,
    Text,
    Body,
    Muted,
    Accent,
    Header,
    Link,
    Success,
    Warning,
    Error,
}

/// A piece of a line, in one tone.
#[derive(Debug, PartialEq, Eq)]
pub struct Span {
    pub text: String,
    pub tone: Tone,
    pub bold: bool,
}

pub struct SpanView {
    pub text: Seq<char>,
    pub tone: Tone,
    pub bold: bool,
}

impl View for Span {
    type V = SpanView;

    open spec fn view(&self) -> SpanView {
        SpanView { text: self.text@, tone: self.tone, bold: self.bold }
    }
}

impl SpanView {
    pub open spec fn of(text: Seq<char>, tone: Tone) -> SpanView {
        SpanView { text, tone, bold: false }
    }

    pub open spec fn bold(text: Seq<char>, tone: Tone) -> SpanView {
        SpanView { text, tone, bold: true }
    }
}

impl Span {
    pub fn of(text: &str, tone: Tone) -> (span: Self)
        ensures
            span@ == SpanView::of(text@, tone),
    {
        Span { text: text.to_owned(), tone, bold: false }
    }

    pub fn bold(text: &str, tone: Tone) -> (span: Self)
        ensures
            span@ == SpanView::bold(text@, tone),
    {
        Span { text: text.to_owned(), tone, bold: true }
    }
}

/// One line of text.
#[derive(Debug, PartialEq, Eq)]
pub struct Line {
    pub spans: Vec<Span>,
}

/// What each piece is.
pub open spec fn span_views(spans: Seq<Span>) -> Seq<SpanView> {
    spans.map_values(|span: Span| span@)
}

impl View for Line {
    type V = Seq<SpanView>;

    open spec fn view(&self) -> Seq<SpanView> {
        span_views(self.spans@)
    }
}

/// What each line is.
pub open spec fn line_views(lines: Seq<Line>) -> Seq<Seq<SpanView>> {
    lines.map_values(|line: Line| line@)
}

impl Line {
    pub fn new() -> (line: Self)
        ensures
            line@ == Seq::<SpanView>::empty(),
    {
        let line = Line { spans: Vec::new() };
        assert(line@ =~= seq![]);
        line
    }

    /// A line of one piece.
    pub fn of(text: &str, tone: Tone) -> (line: Self)
        ensures
            line@ == seq![SpanView::of(text@, tone)],
    {
        let mut line = Line::new();
        line.push(Span::of(text, tone));
        assert(line@ =~= seq![SpanView::of(text@, tone)]);
        line
    }

    /// Writes one more piece at its end.
    pub fn push(&mut self, span: Span)
        ensures
            final(self)@ == old(self)@.push(span@),
    {
        let ghost before = self@;
        self.spans.push(span);
        assert(self@ =~= before.push(span@));
    }

    /// The line without its tones.
    pub fn text(&self) -> (whole: String)
        ensures
            whole@ == line_text(self@),
    {
        let mut whole = String::new();
        let ghost all = self@;
        let mut at: usize = 0;
        while at < self.spans.len()
            invariant
                at <= self.spans@.len(),
                all == self@,
                whole@ == line_text(all.take(at as int)),
            decreases self.spans@.len() - at,
        {
            assert(all.take(at as int + 1).drop_last() =~= all.take(at as int));
            assert(all.take(at as int + 1).last() == self.spans@[at as int]@);
            whole.append(self.spans[at].text.as_str());
            at += 1;
        }
        assert(all.take(at as int) =~= all);
        whole
    }
}

/// A line without its tones.
pub open spec fn line_text(spans: Seq<SpanView>) -> Seq<char>
    decreases spans.len(),
{
    if spans.len() == 0 {
        seq![]
    } else {
        line_text(spans.drop_last()) + spans.last().text
    }
}

} // verus!
