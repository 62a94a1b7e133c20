//! Cursor motion over the character offsets of the text.

use vstd::prelude::*;
use crate::scroll::{Viewport, bottom_of};
use crate::text::{text_chars, text_to_chars};
use crate::util::{
    line_start, line_end, count_newlines, col_of, lemma_line_end_bounds, lemma_line_start_bounds,
    find_line_start, line_end_at, count_newlines_in, row_of,
};
use crate::word::{
    find_word_start_forward, find_word_inclusive_end_forward, find_word_start_backward_v2,
    next_word_start, word_end_from, word_start_back_from, kind_of, CharKind, scan_origin, word_run_before,
};

verus! {

/// How to move the cursor.
#[non_exhaustive]
#[derive(Clone, Copy, Debug, PartialEq, Eq, Structural)]
pub enum CursorMove {
    /// One character forward; past the end of a line onto the next one.
    Forward,
    /// One character back; past the head of a line onto the previous one.
    Back,
    /// One line up, keeping the column where the line is long enough.
    Up,
    /// One line down, keeping the column where the line is long enough.
    Down,
    /// To the head of the line.
    Head,
    /// To the end of the line.
    End,
    /// To the first line, keeping the column where the line is long enough.
    Top,
    /// To the last line, keeping the column where the line is long enough.
    Bottom,
    /// To the start of the next word.
    WordForward,
    /// To the last character of the next word.
    WordEnd,
    /// To the start of the previous word.
    WordBack,
    /// To `(row, col)`, both held within the text.
    Jump(u16, u16),
    /// Into the window, as little as possible.
    InViewport,
}

/// Row of the last line that a jump can reach: a newline at the very end opens
/// no line of its own.
pub open spec fn last_row(s: Seq<char>) -> int {
    count_newlines(s) + (if s.len() == 0 || s.last() != '\n' {
        1int
    } else {
        0int
    }) - 1
}

/// Offset where row `r` starts; rows past the last give the start of the last.
pub open spec fn row_start(s: Seq<char>, r: nat) -> int
    decreases r,
{
    if r == 0 {
        0
    } else {
        let p = row_start(s, (r - 1) as nat);
        if line_end(s, p) < s.len() {
            line_end(s, p) + 1
        } else {
            p
        }
    }
}

pub open spec fn min_int(a: int, b: int) -> int {
    if a < b {
        a
    } else {
        b
    }
}

/// Offset that a jump to `(row, col)` reaches: the row held to the last one,
/// the column to the length of that row.
pub open spec fn jump_target(s: Seq<char>, row: int, col: int) -> int {
    let r = min_int(row, last_row(s));
    let st = row_start(s, r as nat);
    st + min_int(col, line_end(s, st) - st)
}

/// Offset one line above `o`, at the same column or the end of that line.
pub open spec fn up_target(s: Seq<char>, o: int) -> Option<int> {
    let ls = line_start(s, o);
    if ls == 0 {
        None
    } else {
        let pls = line_start(s, ls - 1);
        Some(pls + min_int(o - ls, (ls - 1) - pls))
    }
}

/// Offset one line below `o`, at the same column or the end of that line.
pub open spec fn down_target(s: Seq<char>, o: int) -> Option<int> {
    let e = line_end(s, o);
    if e >= s.len() {
        None
    } else {
        let nls = e + 1;
        Some(nls + min_int(o - line_start(s, o), line_end(s, nls) - nls))
    }
}

/// The offset before `o`, or the head of the text.
pub open spec fn before(o: int) -> int {
    if o > 0 {
        o - 1
    } else {
        0
    }
}

/// `offset` moved back to the end of `s` when it lies past it.
pub open spec fn clamp_offset(s: Seq<char>, offset: int) -> int {
    if offset <= s.len() {
        offset
    } else {
        s.len() as int
    }
}

pub open spec fn as_offset(r: Option<int>) -> Option<usize> {
    match r {
        Some(x) => Some(x as usize),
        None => None,
    }
}

/// `r` is where `m` takes the cursor from offset `o` of `s`, with the window
/// `v`; `None` when the cursor does not move.
pub open spec fn moved(m: CursorMove, s: Seq<char>, o: int, v: Viewport, r: Option<usize>) -> bool {
    match m {
        CursorMove::Forward => r == if o < s.len() {
            Some((o + 1) as usize)
        } else {
            None
        },
        CursorMove::Back => r == if o > 0 {
            Some((o - 1) as usize)
        } else {
            None
        },
        CursorMove::Up => r == as_offset(up_target(s, o)),
        CursorMove::Down => r == as_offset(down_target(s, o)),
        CursorMove::Head => r == Some(line_start(s, o) as usize),
        CursorMove::End => r == if s.len() == 0 {
            None
        } else {
            Some(line_end(s, o) as usize)
        },
        CursorMove::Top => r == Some(jump_target(s, 0, col_of(s, o)) as usize),
        CursorMove::Bottom => r == Some(jump_target(s, last_row(s), col_of(s, o)) as usize),
        CursorMove::WordForward => next_word_start(s, o, r),
        CursorMove::WordEnd => word_end_from(s, o + 1, r),
        CursorMove::WordBack => word_start_back_from(s, before(o), r),
        CursorMove::Jump(row, col) => r == Some(jump_target(s, row as int, col as int) as usize),
        CursorMove::InViewport => {
            let top = jump_target(s, v.row as int, v.col as int);
            let bottom = jump_target(s, bottom_of(v).0 as int, bottom_of(v).1 as int);
            r == Some(
                (if o < top {
                    top
                } else if o > bottom {
                    bottom
                } else {
                    o
                }) as usize,
            )
        },
    }
}

proof fn lemma_row_start_bounds(s: Seq<char>, r: nat)
    ensures
        0 <= row_start(s, r) <= s.len(),
    decreases r,
{
    if r > 0 {
        lemma_row_start_bounds(s, (r - 1) as nat);
        lemma_line_end_bounds(s, row_start(s, (r - 1) as nat));
    }
}

pub proof fn lemma_count_newlines_len(s: Seq<char>)
    ensures
        count_newlines(s) <= s.len(),
    decreases s.len(),
{
    if s.len() > 0 {
        lemma_count_newlines_len(s.drop_last());
    }
}

proof fn lemma_last_row_nonneg(s: Seq<char>)
    ensures
        last_row(s) >= 0,
{
}

/// Offset that a jump to `(row, col)` reaches.
fn jump(chars: &Vec<char>, row: usize, col: usize) -> (r: usize)
    ensures
        r == jump_target(chars@, row as int, col as int),
        r <= chars@.len(),
{
    let n = count_newlines_in(chars);
    let len = chars.len();
    proof {
        lemma_last_row_nonneg(chars@);
    }
    let last: usize = if len == 0 || chars[len - 1] != '\n' {
        n
    } else {
        n - 1
    };
    let target: usize = if row < last {
        row
    } else {
        last
    };
    let mut start: usize = 0;
    let mut k: usize = 0;
    while k < target
        invariant
            k <= target,
            start == row_start(chars@, k as nat),
            start <= chars@.len(),
        decreases target - k,
    {
        let e = line_end_at(chars, start);
        if e < chars.len() {
            start = e + 1;
        }
        k += 1;
    }
    let e = line_end_at(chars, start);
    let room = e - start;
    start + if col < room {
        col
    } else {
        room
    }
}

impl CursorMove {
    /// Where this motion takes a cursor at `offset` in `text`, shown through
    /// `viewport`; `None` when the cursor stays. An offset past the end of the
    /// text is first moved back to the end.
    pub fn next_cursor(&self, offset: usize, text: &autosurgeon::Text, viewport: &Viewport) -> (r:
        Option<usize>)
        ensures
            moved(*self, text_chars(*text), clamp_offset(text_chars(*text), offset as int), *viewport, r),
            r matches Some(p) ==> p <= text_chars(*text).len(),
    {
        let chars = text_to_chars(text);
        let len = chars.len();
        let o: usize = if offset <= len {
            offset
        } else {
            len
        };
        assert(o as int == clamp_offset(chars@, offset as int));
        proof {
            lemma_line_start_bounds(chars@, o as int);
            lemma_line_end_bounds(chars@, o as int);
        }
        match self {
            CursorMove::Forward => {
                if o >= len {
                    None
                } else {
                    Some(o + 1)
                }
            },
            CursorMove::Back => o.checked_sub(1),
            CursorMove::Up => {
                let ls = find_line_start(o, chars.as_slice());
                if ls == 0 {
                    return None;
                }
                let pls = find_line_start(ls - 1, chars.as_slice());
                proof {
                    lemma_line_start_bounds(chars@, ls - 1);
                }
                let prev_len = (ls - 1) - pls;
                let col = o - ls;
                Some(
                    pls + if col < prev_len {
                        col
                    } else {
                        prev_len
                    },
                )
            },
            CursorMove::Down => {
                let e = line_end_at(&chars, o);
                if e >= len {
                    return None;
                }
                let nls = e + 1;
                let nle = line_end_at(&chars, nls);
                let col = o - find_line_start(o, chars.as_slice());
                let next_len = nle - nls;
                Some(
                    nls + if col < next_len {
                        col
                    } else {
                        next_len
                    },
                )
            },
            CursorMove::Head => Some(find_line_start(o, chars.as_slice())),
            CursorMove::End => {
                if len == 0 {
                    None
                } else {
                    Some(line_end_at(&chars, o))
                }
            },
            CursorMove::Top => {
                let col = o - find_line_start(o, chars.as_slice());
                Some(jump(&chars, 0, col))
            },
            CursorMove::Bottom => {
                let col = o - find_line_start(o, chars.as_slice());
                proof {
                    lemma_last_row_nonneg(chars@);
                    lemma_count_newlines_len(chars@);
                }
                Some(jump(&chars, usize::MAX, col))
            },
            CursorMove::WordForward => find_word_start_forward(text.as_str(), o),
            CursorMove::WordEnd => {
                if o < len {
                    find_word_inclusive_end_forward(text.as_str(), o + 1)
                } else {
                    let r = find_word_inclusive_end_forward(text.as_str(), o);
                    assert(forall|k: int| o <= k < len ==> kind_of(chars@[k]) == CharKind::Space);
                    assert(r == Some(len));
                    r
                }
            },
            CursorMove::WordBack => find_word_start_backward_v2(
                text.as_str(),
                o.saturating_sub(1),
            ),
            CursorMove::Jump(row, col) => Some(jump(&chars, *row as usize, *col as usize)),
            CursorMove::InViewport => {
                let (row_top, col_top, row_bottom, col_bottom) = viewport.position();
                let top = jump(&chars, row_top as usize, col_top as usize);
                let bottom = jump(&chars, row_bottom as usize, col_bottom as usize);
                if o < top {
                    Some(top)
                } else if o > bottom {
                    Some(bottom)
                } else {
                    Some(o)
                }
            },
        }
    }
}

proof fn lemma_row_of_step(s: Seq<char>, k: int)
    requires
        0 <= k < s.len(),
    ensures
        row_of(s, k + 1) == row_of(s, k) + if s[k] == '\n' {
            1int
        } else {
            0int
        },
{
    assert(s.take(k + 1).drop_last() =~= s.take(k));
    assert(s.take(k + 1).last() == s[k]);
}

/// No newline between `st` and `o` leaves the row as it is.
proof fn lemma_row_of_flat(s: Seq<char>, st: int, o: int)
    requires
        0 <= st <= o <= s.len(),
        forall|k: int| st <= k < o ==> s[k] != '\n',
    ensures
        row_of(s, o) == row_of(s, st),
    decreases o - st,
{
    if o > st {
        lemma_row_of_flat(s, st, o - 1);
        lemma_row_of_step(s, o - 1);
    }
}

/// No newline between a line's first character `st` and `o` puts `o` on that line.
proof fn lemma_line_start_flat(s: Seq<char>, st: int, o: int)
    requires
        0 <= st <= o <= s.len(),
        st == 0 || s[st - 1] == '\n',
        forall|k: int| st <= k < o ==> s[k] != '\n',
    ensures
        line_start(s, o) == st,
    decreases o - st,
{
    if o > st {
        lemma_line_start_flat(s, st, o - 1);
    }
}

proof fn lemma_line_end_flat(s: Seq<char>, st: int, o: int)
    requires
        0 <= st <= o <= line_end(s, st),
        st <= s.len(),
    ensures
        line_end(s, o) == line_end(s, st),
    decreases o - st,
{
    lemma_line_end_bounds(s, st);
    if o > st {
        lemma_line_end_flat(s, st, o - 1);
    }
}

/// A line that runs to the end of the text is on the last row or below.
proof fn lemma_line_to_end_is_last(s: Seq<char>, st: int, r: int)
    requires
        0 <= st <= s.len(),
        row_of(s, st) == r,
        line_end(s, st) == s.len(),
    ensures
        r >= last_row(s),
{
    lemma_line_end_bounds(s, st);
    lemma_row_of_flat(s, st, s.len() as int);
    assert(s.take(s.len() as int) =~= s);
}

/// Row `r`, up to the last row, starts after the `r`-th newline.
proof fn lemma_row_start_row(s: Seq<char>, r: nat)
    requires
        r <= last_row(s),
    ensures
        0 <= row_start(s, r) <= s.len(),
        row_start(s, r) == 0 || s[row_start(s, r) - 1] == '\n',
        row_of(s, row_start(s, r)) == r,
    decreases r,
{
    if r == 0 {
        assert(s.take(0) =~= Seq::<char>::empty());
    } else {
        let r0 = (r - 1) as nat;
        lemma_row_start_row(s, r0);
        let st = row_start(s, r0);
        lemma_line_end_bounds(s, st);
        let e = line_end(s, st);
        if e == s.len() {
            lemma_line_to_end_is_last(s, st, r0 as int);
        }
        lemma_row_of_flat(s, st, e);
        lemma_row_of_step(s, e);
    }
}

/// Word motion settles at the ends of the text: forward motion only ever moves
/// on and stays put at the end, the motion to a word end stays at the end, and
/// backward motion stays at the head. Repeating a motion therefore comes to rest
/// at one final offset.
pub proof fn lemma_word_motion_settles(s: Seq<char>, o: int, v: Viewport, r: Option<usize>)
    requires
        0 <= o <= s.len(),
    ensures
        moved(CursorMove::WordForward, s, o, v, r) ==> (r matches Some(p) ==> o < p < s.len()),
        moved(CursorMove::WordForward, s, s.len() as int, v, r) ==> r is None,
        moved(CursorMove::WordEnd, s, s.len() as int, v, r) ==> r == Some(s.len() as usize),
        moved(CursorMove::WordBack, s, 0, v, r) ==> r == Some(0usize),
{
    if moved(CursorMove::WordBack, s, 0, v, r) && s.len() > 0 {
        assert(scan_origin(s, 0) == 0);
    }
}

/// Word motion skips spaces, newlines and blank lines without stopping on
/// them: forward motion only lands on a word's first character, and backward
/// motion on a word's first character or the head of the text.
pub proof fn lemma_word_motion_skips_spaces(s: Seq<char>, o: int, v: Viewport, p: usize)
    requires
        0 <= o <= s.len(),
    ensures
        moved(CursorMove::WordForward, s, o, v, Some(p)) ==> kind_of(s[p as int])
            != CharKind::Space,
        moved(CursorMove::WordBack, s, o, v, Some(p)) ==> p == 0 || (p < s.len() && kind_of(
            s[p as int],
        ) != CharKind::Space),
{
    if moved(CursorMove::WordBack, s, o, v, Some(p)) && p != 0 {
        let p0 = scan_origin(s, before(o));
        assert(exists|k: int| 0 < k <= p0 && kind_of(s[k]) != CharKind::Space);
        let q = choose|q: int| word_run_before(s, p0, q, p as int);
        assert(kind_of(s[p as int]) == kind_of(s[q]));
    }
}

/// A jump never leaves the text: it lands on the requested row held to the
/// last one, at the requested column held to the length of that row; so a row
/// past the last lands on the last row, and a column past the end of its row
/// lands at the end of that row.
pub proof fn lemma_jump_clamps(s: Seq<char>, row: int, col: int)
    requires
        row >= 0,
        col >= 0,
    ensures
        0 <= jump_target(s, row, col) <= s.len(),
        row >= last_row(s) ==> jump_target(s, row, col) == jump_target(s, last_row(s), col),
        ({
            let st = row_start(s, min_int(row, last_row(s)) as nat);
            col >= line_end(s, st) - st ==> jump_target(s, row, col) == line_end(s, st)
        }),
        ({
            let o = jump_target(s, row, col);
            &&& row_of(s, o) == min_int(row, last_row(s))
            &&& col_of(s, o) == min_int(col, line_end(s, o) - line_start(s, o))
        }),
{
    lemma_last_row_nonneg(s);
    let r = min_int(row, last_row(s));
    let st = row_start(s, r as nat);
    lemma_row_start_bounds(s, r as nat);
    lemma_row_start_row(s, r as nat);
    lemma_line_end_bounds(s, st);
    let e = line_end(s, st);
    let o = jump_target(s, row, col);
    lemma_row_of_flat(s, st, o);
    lemma_line_start_flat(s, st, o);
    lemma_line_end_flat(s, st, o);
}

} // verus!
