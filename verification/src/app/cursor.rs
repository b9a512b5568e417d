//! Where a list stands: the row under the cursor, and the window of rows
//! that is on screen.

use vstd::prelude::*;

verus! {

/// A window over something longer than it.
#[derive(Clone, Copy, Debug, PartialEq, Eq, Structural)]
pub struct ScrollState {
    /// The first line on screen.
    pub offset: usize,
    /// How many lines are on screen.
    pub viewport: usize,
    /// How many lines there are.
    pub content: usize,
}

/// `n` between the two, as far as the upper one allows.
pub open spec fn between(n: int, least: int, most: int) -> int {
    if n > most {
        most
    } else if n < least {
        least
    } else {
        n
    }
}

impl ScrollState {
    /// The furthest the window goes: with the last line at its end.
    pub open spec fn furthest(self) -> int {
        if self.content > self.viewport {
            self.content - self.viewport
        } else {
            0
        }
    }

    /// A window that starts at this line, or as near to it as it can.
    pub open spec fn from(self, line: int) -> ScrollState {
        ScrollState { offset: between(line, 0, self.furthest()) as usize, ..self }
    }

    /// A window of this size over so many lines.
    pub open spec fn sized(self, viewport: usize, content: usize) -> ScrollState {
        ScrollState { viewport, content, ..self }.from(self.offset as int)
    }

    /// How far a page goes: a screenful less one line, and never nothing.
    pub open spec fn page(self) -> usize {
        if self.viewport > 1 {
            (self.viewport - 1) as usize
        } else {
            1
        }
    }

    fn last_offset(&self) -> (offset: usize)
        ensures
            offset == self.furthest(),
    {
        self.content.saturating_sub(self.viewport)
    }

    /// Sizes the window. It stays where it is as far as it can.
    pub fn set_viewport(&mut self, viewport: usize, content: usize)
        ensures
            *final(self) == old(self).sized(viewport, content),
    {
        self.viewport = viewport;
        self.content = content;
        let furthest = self.last_offset();
        if self.offset > furthest {
            self.offset = furthest;
        }
    }

    /// Moves the window by so many lines, and not past either end.
    pub fn scroll_by(&mut self, delta: i32)
        ensures
            *final(self) == old(self).from(old(self).offset + delta),
    {
        let furthest = self.last_offset();
        let wanted: i128 = self.offset as i128 + delta as i128;
        self.offset = if wanted > furthest as i128 {
            furthest
        } else if wanted < 0 {
            0
        } else {
            wanted as usize
        };
    }

    /// Moves the window to a line, or as near to it as it can.
    pub fn scroll_to(&mut self, line: usize)
        ensures
            *final(self) == old(self).from(line as int),
    {
        let furthest = self.last_offset();
        self.offset = if line > furthest {
            furthest
        } else {
            line
        };
    }

    /// How far a page goes.
    pub fn page_step(&self) -> (lines: usize)
        ensures
            lines == self.page(),
    {
        if self.viewport > 1 {
            self.viewport - 1
        } else {
            1
        }
    }
}

impl Default for ScrollState {
    fn default() -> (state: Self)
        ensures
            state == (ScrollState { offset: 0, viewport: 0, content: 0 }),
    {
        ScrollState { offset: 0, viewport: 0, content: 0 }
    }
}

/// The row under the cursor, and the rows on screen.
#[derive(Clone, Copy, Debug, PartialEq, Eq, Structural)]
pub struct ListCursor {
    pub index: usize,
    pub scroll: ScrollState,
}

impl ListCursor {
    /// On another row, of so many.
    pub open spec fn moved(self, by: int, count: int) -> ListCursor {
        ListCursor {
            index: if count == 0 {
                0
            } else {
                between(self.index + by, 0, count - 1) as usize
            },
            ..self
        }
    }

    /// The window a list of so many rows is drawn in: it holds the row under
    /// the cursor.
    pub open spec fn drawn(self, viewport: usize, count: usize) -> ListCursor {
        let scroll = self.scroll.sized(viewport, count);
        ListCursor {
            scroll: if self.index < scroll.offset {
                scroll.from(self.index as int)
            } else if viewport > 0 && self.index >= scroll.offset + viewport {
                scroll.from(self.index - viewport + 1)
            } else {
                scroll
            },
            ..self
        }
    }

    /// Moves the cursor by so many rows, and not past either end.
    pub fn move_by(&mut self, by: isize, count: usize)
        ensures
            *final(self) == old(self).moved(by as int, count as int),
    {
        if count == 0 {
            self.index = 0;
            return ;
        }
        let wanted: i128 = self.index as i128 + by as i128;
        let last = count - 1;
        self.index = if wanted > last as i128 {
            last
        } else if wanted < 0 {
            0
        } else {
            wanted as usize
        };
    }

    /// Moves the cursor a screenful down, or up.
    pub fn page(&mut self, down: bool, count: usize)
        ensures
            *final(self) == old(self).moved(
                if down {
                    old(self).scroll.page() as int
                } else {
                    -(old(self).scroll.page() as int)
                },
                count as int,
            ),
    {
        if count == 0 {
            self.index = 0;
            return ;
        }
        let step: i128 = self.scroll.page_step() as i128;
        let at: i128 = self.index as i128;
        let wanted: i128 = if down {
            at + step
        } else {
            at - step
        };
        let last = count - 1;
        self.index = if wanted > last as i128 {
            last
        } else if wanted < 0 {
            0
        } else {
            wanted as usize
        };
    }

    /// Puts the cursor on a row.
    pub fn focus(&mut self, index: usize)
        ensures
            *final(self) == (ListCursor { index, ..*old(self) }),
    {
        self.index = index;
    }

    /// Sizes the window for a list of so many rows, with the row under the
    /// cursor in it, and says which rows are on screen: the first, and the
    /// one past the last.
    pub fn window(&mut self, viewport: usize, count: usize) -> (rows: (usize, usize))
        ensures
            *final(self) == old(self).drawn(viewport, count),
            rows.0 == final(self).scroll.offset,
            rows.1 == if final(self).scroll.offset + viewport <= count {
                final(self).scroll.offset + viewport
            } else {
                count as int
            },
            rows.0 <= rows.1 <= count,
    {
        self.scroll.set_viewport(viewport, count);
        if self.index < self.scroll.offset {
            self.scroll.scroll_to(self.index);
        } else if viewport > 0 && self.index - self.scroll.offset >= viewport {
            self.scroll.scroll_to(self.index - (viewport - 1));
        }
        let first = self.scroll.offset;
        let last = if count - first >= viewport {
            first + viewport
        } else {
            count
        };
        (first, last)
    }
}

impl Default for ListCursor {
    fn default() -> (cursor: Self)
        ensures
            cursor == (ListCursor {
                index: 0,
                scroll: ScrollState { offset: 0, viewport: 0, content: 0 },
            }),
    {
        ListCursor { index: 0, scroll: ScrollState::default() }
    }
}

/// The row under the cursor is on screen, wherever the window was, as long
/// as there is such a row and a screen to show it on.
pub proof fn law_the_cursor_is_on_screen(cursor: ListCursor, viewport: usize, count: usize)
    requires
        viewport > 0,
        cursor.index < count,
    ensures
        cursor.drawn(viewport, count).scroll.offset <= cursor.index,
        cursor.index < cursor.drawn(viewport, count).scroll.offset + viewport,
{
}

/// A cursor never leaves the list.
pub proof fn law_the_cursor_stays_in_the_list(cursor: ListCursor, by: int, count: usize)
    requires
        count > 0,
    ensures
        cursor.moved(by, count as int).index < count,
{
}

/// The window moves no further than it must: not at all for a cursor that is
/// on screen, else until the cursor is its first row or its last.
pub proof fn law_the_window_moves_no_further_than_it_must(
    cursor: ListCursor,
    viewport: usize,
    count: usize,
)
    requires
        0 < viewport < count,
        cursor.index < count,
        cursor.scroll.offset <= count - viewport,
    ensures
        ({
            let offset = cursor.drawn(viewport, count).scroll.offset as int;
            let before = cursor.scroll.offset as int;
            &&& before <= cursor.index < before + viewport ==> offset == before
            &&& cursor.index < before ==> offset == cursor.index
            &&& cursor.index >= before + viewport ==> offset == cursor.index - viewport + 1
        }),
        cursor.drawn(viewport, count).index == cursor.index,
        cursor.drawn(viewport, count).scroll.viewport == viewport,
        cursor.drawn(viewport, count).scroll.content == count,
{
}

/// A list that fits is shown from its first row.
pub proof fn law_a_list_that_fits_is_shown_whole(cursor: ListCursor, viewport: usize, count: usize)
    requires
        count <= viewport,
        cursor.index < count,
    ensures
        cursor.drawn(viewport, count).scroll.offset == 0,
{
}

/// The rows on screen are the ones from the window's first, as many as it is
/// high and there are.
pub proof fn law_the_window_is_as_high_as_the_pane(
    cursor: &mut ListCursor,
    viewport: usize,
    count: usize,
    rows: (usize, usize),
)
    requires
        call_ensures(ListCursor::window, (cursor, viewport, count), rows),
    ensures
        rows.0 == final(cursor).scroll.offset,
        rows.0 + viewport <= count ==> rows.1 - rows.0 == viewport,
        rows.0 + viewport > count ==> rows.1 == count,
        final(cursor).index == old(cursor).index,
{
}

} // verus!
