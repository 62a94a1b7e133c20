//! The visible window over the text, and the commands that scroll it.

use vstd::prelude::*;

verus! {

/// The visible window: the scroll offset (top row and left column) and the size
/// of the area it was last rendered into.
#[derive(Clone, Copy, Debug, PartialEq, Eq, Structural)]
pub struct Viewport {
    pub row: u16,
    pub col: u16,
    pub width: u16,
    pub height: u16,
}

/// `v` held within `lo ..= hi`.
pub open spec fn clamp_int(v: int, lo: int, hi: int) -> int {
    if v < lo {
        lo
    } else if v > hi {
        hi
    } else {
        v
    }
}

pub open spec fn sat_u16(v: int) -> int {
    clamp_int(v, 0, u16::MAX as int)
}

/// Last row and last column that the window shows; never before its first.
pub open spec fn bottom_of(v: Viewport) -> (u16, u16) {
    let rb = sat_u16(sat_u16(v.row + v.height) - 1);
    let cb = sat_u16(sat_u16(v.col + v.width) - 1);
    (
        if rb < v.row {
            v.row
        } else {
            rb as u16
        },
        if cb < v.col {
            v.col
        } else {
            cb as u16
        },
    )
}

fn add_clamped(pos: u16, delta: i32, hi: u16) -> (r: u16)
    ensures
        r == clamp_int(pos + delta, 0, hi as int),
{
    let v: i64 = pos as i64 + delta as i64;
    if v < 0 {
        0
    } else if v > hi as i64 {
        hi
    } else {
        v as u16
    }
}

impl Viewport {
    pub open spec fn new_spec() -> Self {
        Viewport { row: 0, col: 0, width: 0, height: 0 }
    }

    /// A window at the top-left corner that has not been rendered yet.
    pub fn new() -> (r: Self)
        ensures
            r == Self::new_spec(),
    {
        Viewport { row: 0, col: 0, width: 0, height: 0 }
    }

    /// Top row, left column, width and height.
    pub fn rect(&self) -> (r: (u16, u16, u16, u16))
        ensures
            r == (self.row, self.col, self.width, self.height),
    {
        (self.row, self.col, self.width, self.height)
    }

    /// First row, first column, last row and last column that the window shows.
    pub fn position(&self) -> (r: (u16, u16, u16, u16))
        ensures
            r == (self.row, self.col, bottom_of(*self).0, bottom_of(*self).1),
    {
        let row_bottom = self.row.saturating_add(self.height).saturating_sub(1);
        let col_bottom = self.col.saturating_add(self.width).saturating_sub(1);
        let rb = if row_bottom < self.row {
            self.row
        } else {
            row_bottom
        };
        let cb = if col_bottom < self.col {
            self.col
        } else {
            col_bottom
        };
        (self.row, self.col, rb, cb)
    }

    /// Records the size of the area the window was rendered into.
    pub fn set_size(&mut self, width: u16, height: u16)
        ensures
            *final(self) == (Viewport { width, height, ..*old(self) }),
    {
        self.width = width;
        self.height = height;
    }

    /// Moves the window by `rows` and `cols`, never above the first row, past
    /// `last_row`, or left of the first column.
    pub fn scroll(&mut self, rows: i32, cols: i32, last_row: u16)
        ensures
            final(self).row == clamp_int(old(self).row + rows, 0, last_row as int),
            final(self).col == clamp_int(old(self).col + cols, 0, u16::MAX as int),
            final(self).width == old(self).width,
            final(self).height == old(self).height,
    {
        self.row = add_clamped(self.row, rows, last_row);
        self.col = add_clamped(self.col, cols, u16::MAX);
    }
}

/// How to scroll the window.
#[non_exhaustive]
#[derive(Clone, Copy, Debug, PartialEq, Eq, Structural)]
pub enum Scrolling {
    /// By `rows` down and `cols` right; negative amounts go up and left.
    Delta { rows: i16, cols: i16 },
    /// Down by the height of the window.
    PageDown,
    /// Up by the height of the window.
    PageUp,
    /// Down by half the height of the window, rounded down.
    HalfPageDown,
    /// Up by half the height of the window, rounded down.
    HalfPageUp,
}

/// Rows and columns that `s` scrolls by in a window `height` rows high.
pub open spec fn scroll_delta(s: Scrolling, height: u16) -> (int, int) {
    match s {
        Scrolling::Delta { rows, cols } => (rows as int, cols as int),
        Scrolling::PageDown => (height as int, 0),
        Scrolling::PageUp => (-(height as int), 0),
        Scrolling::HalfPageDown => (height as int / 2, 0),
        Scrolling::HalfPageUp => (-(height as int / 2), 0),
    }
}

impl Scrolling {
    /// Scrolls `viewport` over a text whose last row is `last_row`.
    pub fn scroll(self, viewport: &mut Viewport, last_row: usize)
        ensures
            final(viewport).row == clamp_int(
                old(viewport).row + scroll_delta(self, old(viewport).height).0,
                0,
                if last_row < u16::MAX {
                    last_row as int
                } else {
                    u16::MAX as int
                },
            ),
            final(viewport).col == clamp_int(
                old(viewport).col + scroll_delta(self, old(viewport).height).1,
                0,
                u16::MAX as int,
            ),
            final(viewport).width == old(viewport).width,
            final(viewport).height == old(viewport).height,
    {
        let (_, _, _, height) = viewport.rect();
        let h = height as i32;
        let (rows, cols): (i32, i32) = match self {
            Self::Delta { rows, cols } => (rows as i32, cols as i32),
            Self::PageDown => (h, 0),
            Self::PageUp => (-h, 0),
            Self::HalfPageDown => (h / 2, 0),
            Self::HalfPageUp => (-(h / 2), 0),
        };
        let last: u16 = if last_row < u16::MAX as usize {
            last_row as u16
        } else {
            u16::MAX
        };
        viewport.scroll(rows, cols, last);
    }
}

impl From<(i16, i16)> for Scrolling {
    fn from(rc: (i16, i16)) -> (r: Self) {
        Self::Delta { rows: rc.0, cols: rc.1 }
    }
}

impl vstd::std_specs::convert::FromSpecImpl<(i16, i16)> for Scrolling {
    open spec fn obeys_from_spec() -> bool {
        true
    }

    open spec fn from_spec(rc: (i16, i16)) -> Self {
        Scrolling::Delta { rows: rc.0, cols: rc.1 }
    }
}

} // verus!
