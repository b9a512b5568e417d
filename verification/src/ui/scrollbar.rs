//! The one-character scrollbar down the right edge of a pane.

use vstd::prelude::*;

use super::paint::Rect;

verus! {

/// The part of a scrollbar that stands for what is on screen, in rows from
/// its top.
#[derive(Clone, Copy, Debug, PartialEq, Eq, Structural)]
pub struct Thumb {
    pub at: usize,
    pub len: usize,
}

/// How long the thumb is on a track: its share of the whole, a row at least
/// and the track at most.
pub open spec fn thumb_len(track: int, viewport: int, content: int) -> int {
    let share = track * viewport / content;
    if share < 1 {
        1
    } else if share > track {
        track
    } else {
        share
    }
}

/// Where the thumb starts: at the top with the first line on screen, at the
/// bottom with the last, and as near as a row comes between.
pub open spec fn thumb_at(track: int, offset: int, viewport: int, content: int) -> int {
    let travel = track - thumb_len(track, viewport, content);
    let furthest = content - viewport;
    if travel == 0 {
        0
    } else {
        (offset * travel + furthest / 2) / furthest
    }
}

/// The scrollbar of a pane, drawn only when there is more content than
/// viewport.
pub fn scrollbar(area: Rect, offset: usize, viewport: usize, content: usize) -> (thumb: Option<
    Thumb,
>)
    requires
        content > viewport && area.height > 0 && area.width > 0 ==> area.height * viewport
            <= usize::MAX && offset * area.height + content <= usize::MAX,
    ensures
        thumb is Some <==> content > viewport && area.height > 0 && area.width > 0,
        thumb matches Some(thumb) ==> thumb.at == thumb_at(
            area.height as int,
            offset as int,
            viewport as int,
            content as int,
        ) && thumb.len == thumb_len(area.height as int, viewport as int, content as int),
{
    if content <= viewport || area.height == 0 || area.width == 0 {
        return None;
    }
    let track = area.height as usize;
    let share = (track * viewport) / content;
    let len: usize = if share < 1 {
        1
    } else if share > track {
        track
    } else {
        share
    };
    let travel = track - len;
    let furthest = content - viewport;
    let at: usize = if travel == 0 {
        0
    } else {
        proof {
            assert(offset * travel <= offset * track) by (nonlinear_arith)
                requires
                    travel <= track,
            ;
        }
        (offset * travel + furthest / 2) / furthest
    };
    Some(Thumb { at, len })
}

/// Whether a row of the track is part of the thumb.
pub fn is_thumb(thumb: Thumb, row: usize) -> (answer: bool)
    ensures
        answer == (thumb.at <= row < thumb.at + thumb.len),
{
    row >= thumb.at && row - thumb.at < thumb.len
}

/// The thumb stays on the track, starts at its top with the first line on
/// screen, and ends at its bottom with the last.
pub proof fn law_the_thumb_stays_on_the_track(
    track: int,
    offset: int,
    viewport: int,
    content: int,
)
    requires
        track > 0,
        0 <= viewport < content,
        0 <= offset <= content - viewport,
    ensures
        0 <= thumb_at(track, offset, viewport, content),
        thumb_at(track, offset, viewport, content) + thumb_len(track, viewport, content) <= track,
        offset == 0 ==> thumb_at(track, offset, viewport, content) == 0,
        offset == content - viewport ==> thumb_at(track, offset, viewport, content) + thumb_len(
            track,
            viewport,
            content,
        ) == track,
{
    let travel = track - thumb_len(track, viewport, content);
    let furthest = content - viewport;
    if travel > 0 {
        let half = furthest / 2;
        let sum = offset * travel + half;
        assert(0 <= offset * travel <= furthest * travel) by (nonlinear_arith)
            requires
                0 <= offset <= furthest,
                0 <= travel,
        ;
        vstd::arithmetic::div_mod::lemma_div_pos_is_pos(sum, furthest);
        vstd::arithmetic::div_mod::lemma_fundamental_div_mod_converse(
            furthest * travel + half,
            furthest,
            travel,
            half,
        );
        vstd::arithmetic::div_mod::lemma_div_is_ordered(sum, furthest * travel + half, furthest);
        if offset == 0 {
            assert(offset * travel == 0) by (nonlinear_arith)
                requires
                    offset == 0,
            ;
            vstd::arithmetic::div_mod::lemma_basic_div(half, furthest);
        }
    }
}

/// The thumb is to its track what the rows on screen are to all of them, to
/// the cell below, and one cell at least.
pub proof fn law_the_thumb_is_as_long_as_its_share(track: int, viewport: int, content: int)
    requires
        track > 0,
        0 <= viewport < content,
    ensures
        1 <= thumb_len(track, viewport, content) <= track,
        thumb_len(track, viewport, content) > 1 ==> thumb_len(track, viewport, content) * content
            <= track * viewport,
        track * viewport < (thumb_len(track, viewport, content) + 1) * content,
{
    let share = track * viewport / content;
    assert(track * viewport >= 0) by (nonlinear_arith)
        requires
            track > 0,
            viewport >= 0,
    ;
    vstd::arithmetic::div_mod::lemma_fundamental_div_mod(track * viewport, content);
    vstd::arithmetic::div_mod::lemma_mod_bound(track * viewport, content);
    assert(share * content == content * share) by (nonlinear_arith);
    assert((share + 1) * content == share * content + content) by (nonlinear_arith);
    assert(share <= track) by (nonlinear_arith)
        requires
            share * content <= track * viewport,
            track > 0,
            0 <= viewport < content,
    ;
    assert((1 + 1) * content == content + content) by (nonlinear_arith);
    if share < 1 {
        assert(share * content <= 0) by (nonlinear_arith)
            requires
                share < 1,
                content > 0,
        ;
    }
}

/// The thumb goes down with the rows, and never up.
pub proof fn law_the_thumb_goes_down_with_the_rows(
    track: int,
    offset: int,
    further: int,
    viewport: int,
    content: int,
)
    requires
        track > 0,
        0 <= viewport < content,
        0 <= offset <= further <= content - viewport,
    ensures
        thumb_at(track, offset, viewport, content) <= thumb_at(track, further, viewport, content),
{
    law_the_thumb_is_as_long_as_its_share(track, viewport, content);
    let travel = track - thumb_len(track, viewport, content);
    let furthest = content - viewport;
    if travel > 0 {
        assert(offset * travel <= further * travel) by (nonlinear_arith)
            requires
                offset <= further,
                travel > 0,
        ;
        vstd::arithmetic::div_mod::lemma_div_is_ordered(
            offset * travel + furthest / 2,
            further * travel + furthest / 2,
            furthest,
        );
    }
}

/// A row is the thumb's where the thumb stands over it.
pub proof fn law_a_row_is_the_thumbs_where_it_stands(thumb: Thumb, row: usize, answer: bool)
    requires
        call_ensures(is_thumb, (thumb, row), answer),
    ensures
        row == thumb.at && thumb.len > 0 ==> answer,
        row == thumb.at + thumb.len ==> !answer,
        row < thumb.at ==> !answer,
        thumb.at <= row < thumb.at + thumb.len ==> answer,
{
}

} // verus!
