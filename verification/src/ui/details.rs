//! The lines a details pane is made of.

use vstd::prelude::*;
use vstd::string::*;

use crate::text;
use crate::text::{join, pad, texts};

use super::paint::{line_views, rest_of, Line, Rect, Span, SpanView, Tone};

verus! {

/// How wide the names of the fields are.
pub const LABEL: usize = 14;

/// One field: its name, and what it is.
pub open spec fn field_line(name: Seq<char>, value: Seq<char>) -> Seq<SpanView> {
    seq![SpanView::of(pad(name, LABEL as nat), Tone::Muted), SpanView::of(value, Tone::Text)]
}

/// One field: its name, and what it is.
pub fn field(name: &str, value: &str) -> (line: Line)
    ensures
        line@ == field_line(name@, value@),
{
    let mut line = Line::new();
    line.push(Span::of(text::padded(name, LABEL).as_str(), Tone::Muted));
    line.push(Span::of(value, Tone::Text));
    assert(line@ =~= field_line(name@, value@));
    line
}

/// A heading, with a rule to the end of the line.
pub open spec fn heading(title: Seq<char>, width: nat) -> Seq<char> {
    let front = "\u{2500}\u{2500} "@ + title + " "@;
    front + Seq::new(rest_of(width as int, front.len() as int) as nat, |at: int| '\u{2500}')
}

/// A heading, with a rule to the end of a line this wide.
pub fn section(title: &str, width: u16) -> (line: Line)
    ensures
        line@ == seq![SpanView::of(heading(title@, width as nat), Tone::Header)],
{
    let mut whole = "\u{2500}\u{2500} ".to_owned().concat(title).concat(" ");
    let ghost front = whole@;
    let mut at: usize = text::chars_of(whole.as_str()).len();
    assert(whole@ =~= front + Seq::new(0, |at: int| '\u{2500}'));
    while at < width as usize
        invariant
            front.len() <= at,
            at <= width || at == front.len(),
            whole@ == front + Seq::new((at - front.len()) as nat, |at: int| '\u{2500}'),
        decreases width - at,
    {
        let ghost before = whole@;
        whole.push('\u{2500}');
        assert(whole@ =~= front + Seq::new((at + 1 - front.len()) as nat, |at: int| '\u{2500}'));
        at += 1;
    }
    assert(whole@ =~= heading(title@, width as nat));
    Line::of(whole.as_str(), Tone::Header)
}

/// What stands under a pod's name, part by part.
pub open spec fn subtitle_line(parts: Seq<Seq<char>>) -> Seq<SpanView> {
    seq![SpanView::of(join(parts, " \u{b7} "@), Tone::Muted)]
}

/// What stands under a pod's name, part by part.
pub fn subtitle(parts: &Vec<String>) -> (line: Line)
    ensures
        line@ == subtitle_line(texts(parts@)),
{
    Line::of(text::joined(parts, " \u{b7} ").as_str(), Tone::Muted)
}

/// One label.
pub fn chip(key: &str, value: &str) -> (span: Span)
    ensures
        span@ == SpanView::of(key@ + "="@ + value@, Tone::Accent),
{
    Span::of(key.to_owned().concat("=").concat(value).as_str(), Tone::Accent)
}

/// Something there is nothing to do about.
pub fn quiet(said: &str) -> (line: Line)
    ensures
        line@ == seq![SpanView::of(said@, Tone::Muted)],
{
    Line::of(said, Tone::Muted)
}

/// Something that went wrong.
pub fn refused(said: &str) -> (line: Line)
    ensures
        line@ == seq![SpanView::of(said@, Tone::Error)],
{
    Line::of(said, Tone::Error)
}

/// How wide a line inside a pane is.
pub fn pane_width(area: Rect) -> (width: u16)
    ensures
        width == rest_of(area.width as int, 2),
{
    area.width.saturating_sub(2)
}

/// Adds one more line.
pub fn push_line(lines: &mut Vec<Line>, line: Line)
    ensures
        line_views(final(lines)@) == line_views(old(lines)@).push(line@),
{
    let ghost before = line_views(lines@);
    lines.push(line);
    assert(line_views(lines@) =~= before.push(line@));
}

} // verus!
