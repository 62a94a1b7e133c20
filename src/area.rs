//! The editing session: a text object, a cursor into it, the undo/redo log, a
//! selection, the yank buffer and the window over the text.

use vstd::prelude::*;
use vstd::string::{StringExecFns, StrSliceExecFns};
use crate::cursor::{CursorMove, moved, clamp_offset, last_row, row_start, lemma_count_newlines_len};
use crate::history::{Edit, EditKind, History, HistoryState, applied, inverse, pushed, stepped_back,
    stepped_forward, state_wf, is_insert, payload, splice_at, lemma_undo_after_apply};
use crate::scroll::{Scrolling, Viewport, clamp_int, scroll_delta};
use crate::text::{new_text, text_chars, text_to_chars};
use crate::search::{
    Pattern, PatternError, pattern_compiles, find_matches, next_match, prev_match, first_after,
    last_before, regex_spans, char_spans,
};
use crate::util::{
    col_of, line_end, row_of, find_line_start, count_newlines, lemma_line_start_bounds,
    line_end_at, count_newlines_in,
};

verus! {

/// Capacity of the undo/redo log of a new session.
pub const DEFAULT_MAX_HISTORIES: usize = 50;

/// An editing session over a replicated text object.
pub struct MergeArea {
    text: autosurgeon::Text,
    cursor: usize,
    history: History,
    selection_start: Option<usize>,
    yank: String,
    viewport: Viewport,
    search: Option<Pattern>,
}

/// Lower and upper end of the range between `a` and `b`.
pub open spec fn ordered(a: int, b: int) -> (int, int) {
    if a <= b {
        (a, b)
    } else {
        (b, a)
    }
}

/// `after` is `before` with one more edit recorded, which inserts (or removes)
/// `p` at offset `o`.
pub open spec fn recorded(before: HistoryState, after: HistoryState, insert: bool, p: Seq<char>, o: int) -> bool {
    exists|e: Edit|
        #![trigger pushed(before, e)]
        after == pushed(before, e) && is_insert(e.kind) == insert && payload(e.kind) == p && e.offset
            == o
}

/// `after` is `before` with the removal of `sel` at `st` recorded, and then,
/// if `p` holds any characters, their insertion at `st`.
pub open spec fn replaced_then_inserted(
    before: HistoryState,
    after: HistoryState,
    sel: Seq<char>,
    st: int,
    p: Seq<char>,
) -> bool {
    exists|mid: HistoryState|
        #![trigger recorded(before, mid, false, sel, st)]
        recorded(before, mid, false, sel, st) && (p.len() > 0 ==> recorded(mid, after, true, p, st))
            && (p.len() == 0 ==> after == mid)
}

impl MergeArea {
    /// The characters of the text.
    pub closed spec fn chars(&self) -> Seq<char> {
        text_chars(self.text)
    }

    /// The cursor offset.
    pub closed spec fn pos(&self) -> int {
        self.cursor as int
    }

    /// Where the selection was started, if one is active.
    pub closed spec fn anchor(&self) -> Option<int> {
        match self.selection_start {
            Some(a) => Some(a as int),
            None => None,
        }
    }

    /// The yank buffer.
    pub closed spec fn yanked(&self) -> Seq<char> {
        self.yank@
    }

    /// The undo/redo log.
    pub closed spec fn log(&self) -> HistoryState {
        self.history.state()
    }

    /// The window over the text.
    pub closed spec fn window(&self) -> Viewport {
        self.viewport
    }

    /// The search pattern, if one is set.
    pub closed spec fn pattern(&self) -> Option<Seq<char>> {
        match self.search {
            Some(p) => Some(p.source()),
            None => None,
        }
    }

    /// Whether a search pattern is set.
    pub open spec fn searching(&self) -> bool {
        self.pattern() is Some
    }

    /// The matches of the search pattern in the text, as character spans; none
    /// without a pattern.
    pub open spec fn found(&self) -> Seq<(usize, usize)> {
        match self.pattern() {
            Some(p) => char_spans(self.chars(), regex_spans(p, self.chars())),
            None => Seq::empty(),
        }
    }

    /// The cursor and the selection lie within the text, and the log is well
    /// formed.
    pub open spec fn wf(&self) -> bool {
        &&& 0 <= self.pos() <= self.chars().len()
        &&& self.anchor() matches Some(a) ==> 0 <= a <= self.chars().len()
        &&& state_wf(self.log())
    }

    /// A selection is active and holds at least one character.
    pub open spec fn has_selection(&self) -> bool {
        self.anchor() matches Some(a) && a != self.pos()
    }

    /// Lower and upper end of the selection.
    pub open spec fn selection_bounds(&self) -> (int, int) {
        ordered(self.anchor()->0, self.pos())
    }

    /// The selected characters.
    pub open spec fn selected(&self) -> Seq<char> {
        self.chars().subrange(self.selection_bounds().0, self.selection_bounds().1)
    }

    /// The text once the selection is removed.
    pub open spec fn chars_without_selection(&self) -> Seq<char> {
        if self.has_selection() {
            self.chars().take(self.selection_bounds().0) + self.chars().skip(
                self.selection_bounds().1,
            )
        } else {
            self.chars()
        }
    }

    /// The cursor once the selection is removed.
    pub open spec fn pos_without_selection(&self) -> int {
        if self.has_selection() {
            self.selection_bounds().0
        } else {
            self.pos()
        }
    }

    /// A session over `text`, with the cursor at its head.
    pub fn new(text: autosurgeon::Text) -> (r: Self)
        ensures
            r.wf(),
            r.chars() == text_chars(text),
            r.pos() == 0,
            r.anchor() is None,
            r.yanked() == Seq::<char>::empty(),
            r.log() == (HistoryState {
                edits: Seq::empty(),
                index: 0,
                max_items: DEFAULT_MAX_HISTORIES as nat,
            }),
            r.window() == Viewport::new_spec(),
            !r.searching(),
    {
        let history = History::new(DEFAULT_MAX_HISTORIES);
        assert(history.state().edits =~= Seq::<Edit>::empty());
        MergeArea {
            text,
            cursor: 0,
            history,
            selection_start: None,
            yank: String::new(),
            viewport: Viewport::new(),
            search: None,
        }
    }

    /// A session over a new text object that holds `value`.
    pub fn with_value(value: &str) -> (r: Self)
        ensures
            r.wf(),
            r.chars() == value@,
            r.pos() == 0,
            r.anchor() is None,
            r.yanked() == Seq::<char>::empty(),
            r.log().edits.len() == 0,
            r.log().index == 0,
            r.log().max_items == DEFAULT_MAX_HISTORIES,
    {
        Self::new(new_text(value))
    }

    /// The text object.
    pub fn text(&self) -> (r: &autosurgeon::Text)
        ensures
            text_chars(*r) == self.chars(),
    {
        &self.text
    }

    /// Replaces the text object, as after a merge with another replica: the
    /// cursor is held within the new text, the selection is dropped, and the
    /// log is emptied since its offsets no longer match the content.
    pub fn set_text(&mut self, text: autosurgeon::Text)
        requires
            old(self).wf(),
        ensures
            final(self).wf(),
            final(self).chars() == text_chars(text),
            final(self).pos() == if old(self).pos() <= text_chars(text).len() {
                old(self).pos()
            } else {
                text_chars(text).len() as int
            },
            final(self).anchor() is None,
            final(self).yanked() == old(self).yanked(),
            final(self).log().edits.len() == 0,
            final(self).log().index == 0,
            final(self).log().max_items == old(self).log().max_items,
            final(self).window() == old(self).window(),
            final(self).pattern() == old(self).pattern(),
    {
        let len = text_to_chars(&text).len();
        self.text = text;
        if self.cursor > len {
            self.cursor = len;
        }
        self.selection_start = None;
        self.history = History::new(self.history.max_items());
    }

    /// The cursor offset.
    pub fn cursor(&self) -> (r: usize)
        ensures
            r == self.pos(),
    {
        self.cursor
    }

    /// Row and column of the cursor.
    pub fn cursor2(&self) -> (r: (usize, usize))
        requires
            self.wf(),
        ensures
            r == (row_of(self.chars(), self.pos()) as usize, col_of(self.chars(), self.pos()) as usize),
    {
        let chars = text_to_chars(&self.text);
        let mut row: usize = 0;
        let mut i: usize = 0;
        while i < self.cursor
            invariant
                i <= self.cursor <= chars@.len(),
                row == row_of(chars@, i as int),
                row <= i,
            decreases self.cursor - i,
        {
            assert(chars@.take(i + 1).drop_last() =~= chars@.take(i as int));
            if chars[i] == '\n' {
                row += 1;
            }
            i += 1;
        }
        let ls = find_line_start(self.cursor, chars.as_slice());
        proof {
            lemma_line_start_bounds(chars@, self.cursor as int);
        }
        (row, self.cursor - ls)
    }

    /// Moves the cursor as `m` says; where `m` has no effect it stays.
    pub fn move_cursor(&mut self, m: CursorMove)
        requires
            old(self).wf(),
        ensures
            final(self).wf(),
            exists|r: Option<usize>|
                #![trigger moved(m, old(self).chars(), old(self).pos(), old(self).window(), r)]
                moved(m, old(self).chars(), old(self).pos(), old(self).window(), r)
                    && final(self).pos() == (match r {
                    Some(p) => p as int,
                    None => old(self).pos(),
                }),
            final(self).chars() == old(self).chars(),
            final(self).anchor() == old(self).anchor(),
            final(self).yanked() == old(self).yanked(),
            final(self).log() == old(self).log(),
            final(self).window() == old(self).window(),
            final(self).pattern() == old(self).pattern(),
    {
        let r = m.next_cursor(self.cursor, &self.text, &self.viewport);
        assert(clamp_offset(self.chars(), self.cursor as int) == self.cursor);
        assert(moved(m, self.chars(), self.pos(), self.window(), r));
        if let Some(p) = r {
            self.cursor = p;
        }
    }
}

impl MergeArea {
    /// Applies `kind` at offset `at` and records it in the log.
    fn edit(&mut self, kind: EditKind, at: usize)
        requires
            state_wf(old(self).log()),
        ensures
            state_wf(final(self).log()),
            final(self).chars() == applied(kind, old(self).chars(), at as int),
            final(self).log() == pushed(old(self).log(), Edit { kind, offset: at }),
            final(self).pos() == old(self).pos(),
            final(self).anchor() == old(self).anchor(),
            final(self).yanked() == old(self).yanked(),
            final(self).window() == old(self).window(),
            final(self).pattern() == old(self).pattern(),
    {
        kind.apply(&mut self.text, at);
        self.history.push(Edit::new(kind, at));
    }

    /// Removes the characters `start .. end`, records the removal, puts the
    /// cursor at `start`, and ends any selection; with `should_yank` the removed
    /// characters go to the yank buffer.
    fn remove_range(&mut self, start: usize, end: usize, should_yank: bool)
        requires
            old(self).wf(),
            start < end <= old(self).chars().len(),
        ensures
            final(self).wf(),
            final(self).chars() == old(self).chars().take(start as int) + old(self).chars().skip(
                end as int,
            ),
            final(self).pos() == start,
            final(self).anchor() is None,
            final(self).yanked() == if should_yank {
                old(self).chars().subrange(start as int, end as int)
            } else {
                old(self).yanked()
            },
            recorded(
                old(self).log(),
                final(self).log(),
                false,
                old(self).chars().subrange(start as int, end as int),
                start as int,
            ),
            final(self).window() == old(self).window(),
            final(self).pattern() == old(self).pattern(),
    {
        let ghost s = self.chars();
        let removed = String::from_str(self.text.as_str().substring_char(start, end));
        let kind = EditKind::DeleteStr(removed.clone());
        let ghost e = Edit { kind, offset: start };
        self.edit(kind, start);
        assert(self.chars() =~= s.take(start as int) + s.skip(end as int));
        assert(pushed(old(self).log(), e) == self.log());
        self.cursor = start;
        self.selection_start = None;
        if should_yank {
            self.yank = removed;
        }
    }

    /// Removes the selected characters, if a selection holds any, and ends the
    /// selection.
    fn delete_selection(&mut self, should_yank: bool) -> (r: bool)
        requires
            old(self).wf(),
        ensures
            final(self).wf(),
            r == old(self).has_selection(),
            final(self).anchor() is None,
            final(self).chars() == old(self).chars_without_selection(),
            final(self).pos() == old(self).pos_without_selection(),
            final(self).yanked() == if r && should_yank {
                old(self).selected()
            } else {
                old(self).yanked()
            },
            r ==> recorded(
                old(self).log(),
                final(self).log(),
                false,
                old(self).selected(),
                old(self).selection_bounds().0,
            ),
            !r ==> final(self).log() == old(self).log(),
            final(self).window() == old(self).window(),
            final(self).pattern() == old(self).pattern(),
    {
        match self.selection_start {
            None => false,
            Some(a) => {
                let c = self.cursor;
                if a == c {
                    self.selection_start = None;
                    false
                } else {
                    let (start, end) = if a <= c {
                        (a, c)
                    } else {
                        (c, a)
                    };
                    self.remove_range(start, end, should_yank);
                    true
                }
            },
        }
    }

    /// Removes the selection, or else the character before the cursor.
    pub fn delete_char(&mut self) -> (r: bool)
        requires
            old(self).wf(),
        ensures
            final(self).wf(),
            final(self).anchor() is None,
            final(self).window() == old(self).window(),
            old(self).has_selection() ==> r && final(self).chars()
                == old(self).chars_without_selection() && final(self).pos()
                == old(self).pos_without_selection() && final(self).yanked() == old(self).selected()
                && recorded(
                old(self).log(),
                final(self).log(),
                false,
                old(self).selected(),
                old(self).selection_bounds().0,
            ),
            !old(self).has_selection() ==> {
                let s = old(self).chars();
                let c = old(self).pos();
                &&& r == (c > 0)
                &&& final(self).chars() == if c > 0 {
                    s.take(c - 1) + s.skip(c)
                } else {
                    s
                }
                &&& final(self).pos() == if c > 0 {
                    c - 1
                } else {
                    c
                }
                &&& final(self).yanked() == old(self).yanked()
                &&& r ==> recorded(old(self).log(), final(self).log(), false, s.subrange(c - 1, c), c - 1)
                &&& !r ==> final(self).log() == old(self).log()
            },
            final(self).pattern() == old(self).pattern(),
    {
        if self.delete_selection(true) {
            return true;
        }
        if self.cursor == 0 {
            return false;
        }
        let c = self.cursor;
        self.remove_range(c - 1, c, false);
        true
    }

    /// Removes the selection, or else the newline just before the cursor.
    pub fn delete_newline(&mut self) -> (r: bool)
        requires
            old(self).wf(),
        ensures
            final(self).wf(),
            final(self).anchor() is None,
            final(self).window() == old(self).window(),
            old(self).has_selection() ==> r && final(self).chars()
                == old(self).chars_without_selection() && final(self).pos()
                == old(self).pos_without_selection() && final(self).yanked() == old(self).selected()
                && recorded(
                old(self).log(),
                final(self).log(),
                false,
                old(self).selected(),
                old(self).selection_bounds().0,
            ),
            !old(self).has_selection() ==> {
                let s = old(self).chars();
                let c = old(self).pos();
                &&& r == (c > 0 && s[c - 1] == '\n')
                &&& final(self).chars() == if r {
                    s.take(c - 1) + s.skip(c)
                } else {
                    s
                }
                &&& final(self).pos() == if r {
                    c - 1
                } else {
                    c
                }
                &&& final(self).yanked() == old(self).yanked()
                &&& r ==> recorded(old(self).log(), final(self).log(), false, seq!['\n'], c - 1)
                &&& !r ==> final(self).log() == old(self).log()
            },
            final(self).pattern() == old(self).pattern(),
    {
        if self.delete_selection(true) {
            return true;
        }
        let c = self.cursor;
        if c == 0 {
            return false;
        }
        let chars = text_to_chars(&self.text);
        if chars[c - 1] != '\n' {
            return false;
        }
        self.remove_range(c - 1, c, false);
        assert(chars@.subrange(c - 1, c as int) =~= seq!['\n']);
        true
    }

    /// Removes the selection, or else the character at the cursor.
    pub fn delete_next_char(&mut self) -> (r: bool)
        requires
            old(self).wf(),
        ensures
            final(self).wf(),
            final(self).anchor() is None,
            final(self).window() == old(self).window(),
            old(self).has_selection() ==> r && final(self).chars()
                == old(self).chars_without_selection() && final(self).pos()
                == old(self).pos_without_selection() && final(self).yanked() == old(self).selected()
                && recorded(
                old(self).log(),
                final(self).log(),
                false,
                old(self).selected(),
                old(self).selection_bounds().0,
            ),
            !old(self).has_selection() ==> {
                let s = old(self).chars();
                let c = old(self).pos();
                &&& r == (c < s.len())
                &&& final(self).chars() == if r {
                    s.take(c) + s.skip(c + 1)
                } else {
                    s
                }
                &&& final(self).pos() == c
                &&& final(self).yanked() == old(self).yanked()
                &&& r ==> recorded(old(self).log(), final(self).log(), false, s.subrange(c, c + 1), c)
                &&& !r ==> final(self).log() == old(self).log()
            },
            final(self).pattern() == old(self).pattern(),
    {
        if self.delete_selection(true) {
            return true;
        }
        let c = self.cursor;
        let len = text_to_chars(&self.text).len();
        if c >= len {
            return false;
        }
        self.remove_range(c, c + 1, false);
        true
    }

    /// Removes the selection, or else `n` characters from the cursor on (fewer
    /// at the end of the text), which go to the yank buffer; a request for at
    /// least one character is reported as done even at the end of the text.
    pub fn delete_str(&mut self, n: usize) -> (r: bool)
        requires
            old(self).wf(),
        ensures
            final(self).wf(),
            final(self).anchor() is None,
            final(self).window() == old(self).window(),
            old(self).has_selection() ==> r && final(self).chars()
                == old(self).chars_without_selection() && final(self).pos()
                == old(self).pos_without_selection() && final(self).yanked() == old(self).selected()
                && recorded(
                old(self).log(),
                final(self).log(),
                false,
                old(self).selected(),
                old(self).selection_bounds().0,
            ),
            !old(self).has_selection() ==> {
                let s = old(self).chars();
                let c = old(self).pos();
                let e = if c + n <= s.len() {
                    c + n
                } else {
                    s.len() as int
                };
                &&& r == (n > 0)
                &&& final(self).chars() == s.take(c) + s.skip(e)
                &&& final(self).pos() == c
                &&& final(self).yanked() == if r {
                    s.subrange(c, e)
                } else {
                    old(self).yanked()
                }
                &&& c < e ==> recorded(old(self).log(), final(self).log(), false, s.subrange(c, e), c)
                &&& c == e ==> final(self).log() == old(self).log()
            },
            final(self).pattern() == old(self).pattern(),
    {
        if self.delete_selection(true) {
            return true;
        }
        let c = self.cursor;
        let len = text_to_chars(&self.text).len();
        let e: usize = if n <= len - c {
            c + n
        } else {
            len
        };
        if e == c {
            assert(self.chars().take(c as int) + self.chars().skip(c as int) =~= self.chars());
            if n == 0 {
                return false;
            }
            self.yank = String::new();
            assert(self.yank@ =~= self.chars().subrange(c as int, c as int));
            return true;
        }
        self.remove_range(c, e, true);
        true
    }

    /// Removes the selection, or else the rest of the line from the cursor on,
    /// which goes to the yank buffer; at the end of a line, the newline (not
    /// yanked).
    pub fn delete_line_by_end(&mut self) -> (r: bool)
        requires
            old(self).wf(),
        ensures
            final(self).wf(),
            final(self).anchor() is None,
            final(self).window() == old(self).window(),
            old(self).has_selection() ==> r && final(self).chars()
                == old(self).chars_without_selection() && final(self).pos()
                == old(self).pos_without_selection() && final(self).yanked() == old(self).selected()
                && recorded(
                old(self).log(),
                final(self).log(),
                false,
                old(self).selected(),
                old(self).selection_bounds().0,
            ),
            !old(self).has_selection() ==> {
                let s = old(self).chars();
                let c = old(self).pos();
                let e = line_end(s, c);
                &&& r == (c < s.len())
                &&& final(self).pos() == c
                &&& e > c ==> final(self).chars() == s.take(c) + s.skip(e) && final(self).yanked()
                    == s.subrange(c, e) && recorded(
                    old(self).log(),
                    final(self).log(),
                    false,
                    s.subrange(c, e),
                    c,
                )
                &&& e == c && c < s.len() ==> final(self).chars() == s.take(c) + s.skip(c + 1)
                    && final(self).yanked() == old(self).yanked() && recorded(
                    old(self).log(),
                    final(self).log(),
                    false,
                    s.subrange(c, c + 1),
                    c,
                )
                &&& c == s.len() ==> final(self).chars() == s && final(self).yanked()
                    == old(self).yanked() && final(self).log() == old(self).log()
            },
            final(self).pattern() == old(self).pattern(),
    {
        if self.delete_selection(true) {
            return true;
        }
        let c = self.cursor;
        let chars = text_to_chars(&self.text);
        let e = line_end_at(&chars, c);
        if e > c {
            self.remove_range(c, e, true);
            return true;
        }
        self.delete_next_char()
    }
}

impl MergeArea {
    /// Inserts `kind`'s characters at the cursor, records it, and moves the
    /// cursor past them.
    fn insert_piece(&mut self, kind: EditKind)
        requires
            old(self).wf(),
            is_insert(kind),
        ensures
            final(self).wf(),
            final(self).chars() == old(self).chars().take(old(self).pos()) + payload(kind)
                + old(self).chars().skip(old(self).pos()),
            final(self).pos() == old(self).pos() + payload(kind).len(),
            final(self).log() == pushed(old(self).log(), Edit { kind, offset: old(self).pos() as usize }),
            final(self).anchor() == old(self).anchor(),
            final(self).yanked() == old(self).yanked(),
            final(self).window() == old(self).window(),
            final(self).pattern() == old(self).pattern(),
    {
        let ghost s = self.chars();
        let c = self.cursor;
        let n: usize = match &kind {
            EditKind::InsertStr(t) => t.as_str().unicode_len(),
            _ => 1,
        };
        self.edit(kind, c);
        assert(self.chars() =~= s.take(c as int) + payload(kind) + s.skip(c as int));
        let len = text_to_chars(&self.text).len();
        assert(c + n <= len);
        self.cursor = c + n;
        proof {
            if let Some(a) = self.selection_start {
                assert(a <= s.len());
            }
        }
    }

    /// Replaces the selection, if any, by `text`, or else inserts `text` at
    /// the cursor; the cursor ends after it.
    pub fn insert_str(&mut self, text: &str) -> (r: bool)
        requires
            old(self).wf(),
        ensures
            final(self).wf(),
            final(self).anchor() is None,
            r == (old(self).has_selection() || text@.len() > 0),
            final(self).chars() == old(self).chars_without_selection().take(
                old(self).pos_without_selection(),
            ) + text@ + old(self).chars_without_selection().skip(old(self).pos_without_selection()),
            final(self).pos() == old(self).pos_without_selection() + text@.len(),
            final(self).yanked() == old(self).yanked(),
            final(self).window() == old(self).window(),
            !old(self).has_selection() && text@.len() > 0 ==> recorded(
                old(self).log(),
                final(self).log(),
                true,
                text@,
                old(self).pos(),
            ),
            !old(self).has_selection() && text@.len() == 0 ==> final(self).log() == old(
                self,
            ).log(),
            final(self).pattern() == old(self).pattern(),
            old(self).has_selection() ==> replaced_then_inserted(
                old(self).log(),
                final(self).log(),
                old(self).selected(),
                old(self).selection_bounds().0,
                text@,
            ),
    {
        let ghost had = self.has_selection();
        let ghost log0 = self.log();
        let ghost sel = self.selected();
        let ghost st = self.selection_bounds().0;
        let modified = self.delete_selection(false);
        let ghost mid = self.log();
        assert(had ==> recorded(log0, mid, false, sel, st));
        if text.unicode_len() == 0 {
            assert(self.chars().take(self.pos()) + text@ + self.chars().skip(self.pos()) =~= self.chars());
            assert(had ==> replaced_then_inserted(log0, self.log(), sel, st, text@));
            return modified;
        }
        let kind = EditKind::InsertStr(String::from_str(text));
        let ghost e = Edit { kind, offset: self.cursor };
        self.insert_piece(kind);
        assert(self.log() == pushed(mid, e));
        assert(recorded(mid, self.log(), true, text@, e.offset as int));
        assert(had ==> replaced_then_inserted(log0, self.log(), sel, st, text@));
        true
    }

    /// Replaces the selection, if any, by `c`, or else inserts `c` at the
    /// cursor; the cursor ends after it.
    pub fn insert_char(&mut self, c: char)
        requires
            old(self).wf(),
        ensures
            final(self).wf(),
            final(self).anchor() is None,
            final(self).chars() == old(self).chars_without_selection().take(
                old(self).pos_without_selection(),
            ) + seq![c] + old(self).chars_without_selection().skip(old(self).pos_without_selection()),
            final(self).pos() == old(self).pos_without_selection() + 1,
            final(self).yanked() == old(self).yanked(),
            final(self).window() == old(self).window(),
            !old(self).has_selection() ==> final(self).log() == pushed(
                old(self).log(),
                Edit { kind: if c == '\n' {
                    EditKind::InsertNewline
                } else {
                    EditKind::InsertChar(c)
                }, offset: old(self).pos() as usize },
            ),
            final(self).pattern() == old(self).pattern(),
            old(self).has_selection() ==> exists|mid: HistoryState|
                recorded(
                    old(self).log(),
                    mid,
                    false,
                    old(self).selected(),
                    old(self).selection_bounds().0,
                ) && final(self).log() == pushed(
                    mid,
                    Edit { kind: if c == '\n' {
                        EditKind::InsertNewline
                    } else {
                        EditKind::InsertChar(c)
                    }, offset: old(self).selection_bounds().0 as usize },
                ),
    {
        self.delete_selection(false);
        let ghost mid = self.log();
        if c == '\n' {
            self.insert_piece(EditKind::InsertNewline);
        } else {
            self.insert_piece(EditKind::InsertChar(c));
        }
    }

    /// Replaces the selection, if any, by a newline, or else inserts one at
    /// the cursor; the cursor ends at the head of the new line.
    pub fn insert_newline(&mut self)
        requires
            old(self).wf(),
        ensures
            final(self).wf(),
            final(self).anchor() is None,
            final(self).chars() == old(self).chars_without_selection().take(
                old(self).pos_without_selection(),
            ) + seq!['\n'] + old(self).chars_without_selection().skip(
                old(self).pos_without_selection(),
            ),
            final(self).pos() == old(self).pos_without_selection() + 1,
            final(self).yanked() == old(self).yanked(),
            final(self).window() == old(self).window(),
            final(self).pattern() == old(self).pattern(),
            !old(self).has_selection() ==> final(self).log() == pushed(
                old(self).log(),
                Edit { kind: EditKind::InsertNewline, offset: old(self).pos() as usize },
            ),
            old(self).has_selection() ==> exists|mid: HistoryState|
                recorded(
                    old(self).log(),
                    mid,
                    false,
                    old(self).selected(),
                    old(self).selection_bounds().0,
                ) && final(self).log() == pushed(
                    mid,
                    Edit {
                        kind: EditKind::InsertNewline,
                        offset: old(self).selection_bounds().0 as usize,
                    },
                ),
    {
        self.insert_char('\n');
    }

    /// Starts a selection at the cursor.
    pub fn start_selection(&mut self)
        requires
            old(self).wf(),
        ensures
            final(self).wf(),
            final(self).anchor() == Some(old(self).pos()),
            final(self).chars() == old(self).chars(),
            final(self).pos() == old(self).pos(),
            final(self).yanked() == old(self).yanked(),
            final(self).log() == old(self).log(),
            final(self).window() == old(self).window(),
            final(self).pattern() == old(self).pattern(),
    {
        self.selection_start = Some(self.cursor);
    }

    /// Ends the selection without touching the text.
    pub fn cancel_selection(&mut self)
        requires
            old(self).wf(),
        ensures
            final(self).wf(),
            final(self).anchor() is None,
            final(self).chars() == old(self).chars(),
            final(self).pos() == old(self).pos(),
            final(self).yanked() == old(self).yanked(),
            final(self).log() == old(self).log(),
            final(self).window() == old(self).window(),
            final(self).pattern() == old(self).pattern(),
    {
        self.selection_start = None;
    }

    /// Whether a selection is active.
    pub fn is_selecting(&self) -> (r: bool)
        ensures
            r == self.anchor() is Some,
    {
        self.selection_start.is_some()
    }

    /// Selects the whole text: the selection starts at its head and the cursor
    /// goes to its end.
    pub fn select_all(&mut self)
        requires
            old(self).wf(),
        ensures
            final(self).wf(),
            final(self).anchor() == Some(0int),
            final(self).pos() == old(self).chars().len(),
            final(self).chars() == old(self).chars(),
            final(self).yanked() == old(self).yanked(),
            final(self).log() == old(self).log(),
            final(self).window() == old(self).window(),
            final(self).pattern() == old(self).pattern(),
    {
        self.selection_start = Some(0);
        self.cursor = text_to_chars(&self.text).len();
    }

    /// Lower and upper offset of the selection, if one is active.
    pub fn selection_range(&self) -> (r: Option<(usize, usize)>)
        ensures
            self.anchor() is None ==> r is None,
            self.anchor() is Some ==> r == Some(
                (self.selection_bounds().0 as usize, self.selection_bounds().1 as usize),
            ),
    {
        match self.selection_start {
            None => None,
            Some(a) => {
                if a <= self.cursor {
                    Some((a, self.cursor))
                } else {
                    Some((self.cursor, a))
                }
            },
        }
    }

    /// Puts the selected characters in the yank buffer and ends the selection;
    /// the text stays as it is.
    pub fn copy(&mut self)
        requires
            old(self).wf(),
        ensures
            final(self).wf(),
            final(self).anchor() is None,
            final(self).yanked() == if old(self).has_selection() {
                old(self).selected()
            } else {
                old(self).yanked()
            },
            final(self).chars() == old(self).chars(),
            final(self).pos() == old(self).pos(),
            final(self).log() == old(self).log(),
            final(self).window() == old(self).window(),
            final(self).pattern() == old(self).pattern(),
    {
        if let Some(a) = self.selection_start {
            let c = self.cursor;
            if a != c {
                let (start, end) = if a <= c {
                    (a, c)
                } else {
                    (c, a)
                };
                self.yank = String::from_str(self.text.as_str().substring_char(start, end));
            }
        }
        self.selection_start = None;
    }

    /// Removes the selected characters into the yank buffer.
    pub fn cut(&mut self) -> (r: bool)
        requires
            old(self).wf(),
        ensures
            final(self).wf(),
            r == old(self).has_selection(),
            final(self).anchor() is None,
            final(self).chars() == old(self).chars_without_selection(),
            final(self).pos() == old(self).pos_without_selection(),
            final(self).yanked() == if r {
                old(self).selected()
            } else {
                old(self).yanked()
            },
            final(self).window() == old(self).window(),
            final(self).pattern() == old(self).pattern(),
            r ==> recorded(
                old(self).log(),
                final(self).log(),
                false,
                old(self).selected(),
                old(self).selection_bounds().0,
            ),
            !r ==> final(self).log() == old(self).log(),
    {
        self.delete_selection(true)
    }

    /// Replaces the selection, if any, by the yank buffer, or else inserts the
    /// yank buffer at the cursor.
    pub fn paste(&mut self) -> (r: bool)
        requires
            old(self).wf(),
        ensures
            final(self).wf(),
            final(self).anchor() is None,
            r == (old(self).has_selection() || old(self).yanked().len() > 0),
            final(self).chars() == old(self).chars_without_selection().take(
                old(self).pos_without_selection(),
            ) + old(self).yanked() + old(self).chars_without_selection().skip(
                old(self).pos_without_selection(),
            ),
            final(self).pos() == old(self).pos_without_selection() + old(self).yanked().len(),
            final(self).yanked() == old(self).yanked(),
            final(self).window() == old(self).window(),
            final(self).pattern() == old(self).pattern(),
            old(self).has_selection() ==> replaced_then_inserted(
                old(self).log(),
                final(self).log(),
                old(self).selected(),
                old(self).selection_bounds().0,
                old(self).yanked(),
            ),
            !old(self).has_selection() && old(self).yanked().len() > 0 ==> recorded(
                old(self).log(),
                final(self).log(),
                true,
                old(self).yanked(),
                old(self).pos(),
            ),
            !old(self).has_selection() && old(self).yanked().len() == 0 ==> final(self).log()
                == old(self).log(),
    {
        let y = self.yank.clone();
        self.insert_str(y.as_str())
    }

    /// The yank buffer.
    pub fn yank_text(&self) -> (r: String)
        ensures
            r@ == self.yanked(),
    {
        self.yank.clone()
    }

    /// Replaces the yank buffer.
    pub fn set_yank_text(&mut self, text: &str)
        requires
            old(self).wf(),
        ensures
            final(self).wf(),
            final(self).yanked() == text@,
            final(self).chars() == old(self).chars(),
            final(self).pos() == old(self).pos(),
            final(self).anchor() == old(self).anchor(),
            final(self).log() == old(self).log(),
            final(self).window() == old(self).window(),
            final(self).pattern() == old(self).pattern(),
    {
        self.yank = String::from_str(text);
    }
}

impl MergeArea {
    /// Takes back the last edit that is not undone yet and puts the cursor where
    /// it applied; `false` when there is nothing to undo. Ends any selection.
    pub fn undo(&mut self) -> (r: bool)
        requires
            old(self).wf(),
        ensures
            final(self).wf(),
            final(self).anchor() is None,
            r == (old(self).log().index > 0),
            final(self).log() == stepped_back(old(self).log()),
            !r ==> final(self).chars() == old(self).chars() && final(self).pos() == old(self).pos(),
            r ==> {
                let e = old(self).log().edits[old(self).log().index - 1];
                &&& final(self).chars() == applied(inverse(e.kind), old(self).chars(), e.offset as int)
                &&& final(self).pos() == if e.offset <= final(self).chars().len() {
                    e.offset as int
                } else {
                    final(self).chars().len() as int
                }
            },
            final(self).yanked() == old(self).yanked(),
            final(self).window() == old(self).window(),
            final(self).pattern() == old(self).pattern(),
    {
        self.selection_start = None;
        match self.history.undo(&mut self.text) {
            Some(o) => {
                let len = text_to_chars(&self.text).len();
                self.cursor = if o <= len {
                    o
                } else {
                    len
                };
                true
            },
            None => false,
        }
    }

    /// Applies again the last edit that was undone and puts the cursor where it
    /// applies; `false` when there is nothing to redo. Ends any selection.
    pub fn redo(&mut self) -> (r: bool)
        requires
            old(self).wf(),
        ensures
            final(self).wf(),
            final(self).anchor() is None,
            r == (old(self).log().index < old(self).log().edits.len()),
            final(self).log() == stepped_forward(old(self).log()),
            !r ==> final(self).chars() == old(self).chars() && final(self).pos() == old(self).pos(),
            r ==> {
                let e = old(self).log().edits[old(self).log().index as int];
                &&& final(self).chars() == applied(e.kind, old(self).chars(), e.offset as int)
                &&& final(self).pos() == if e.offset <= final(self).chars().len() {
                    e.offset as int
                } else {
                    final(self).chars().len() as int
                }
            },
            final(self).yanked() == old(self).yanked(),
            final(self).window() == old(self).window(),
            final(self).pattern() == old(self).pattern(),
    {
        self.selection_start = None;
        match self.history.redo(&mut self.text) {
            Some(o) => {
                let len = text_to_chars(&self.text).len();
                self.cursor = if o <= len {
                    o
                } else {
                    len
                };
                true
            },
            None => false,
        }
    }

    /// Replaces the log by an empty one that keeps at most `max` edits; with
    /// zero nothing is recorded any more.
    pub fn set_max_histories(&mut self, max: usize)
        requires
            old(self).wf(),
        ensures
            final(self).wf(),
            final(self).log().edits.len() == 0,
            final(self).log().index == 0,
            final(self).log().max_items == max,
            final(self).chars() == old(self).chars(),
            final(self).pos() == old(self).pos(),
            final(self).anchor() == old(self).anchor(),
            final(self).yanked() == old(self).yanked(),
            final(self).window() == old(self).window(),
            final(self).pattern() == old(self).pattern(),
    {
        self.history = History::new(max);
    }

    /// Capacity of the log.
    pub fn max_histories(&self) -> (r: usize)
        ensures
            r == self.log().max_items,
    {
        self.history.max_items()
    }

    /// The window over the text.
    pub fn viewport(&self) -> (r: Viewport)
        ensures
            r == self.window(),
    {
        self.viewport
    }

    /// Records the size of the area the text is rendered into.
    pub fn resize(&mut self, width: u16, height: u16)
        requires
            old(self).wf(),
        ensures
            final(self).wf(),
            final(self).window() == (Viewport { width, height, ..old(self).window() }),
            final(self).chars() == old(self).chars(),
            final(self).pos() == old(self).pos(),
            final(self).anchor() == old(self).anchor(),
            final(self).yanked() == old(self).yanked(),
            final(self).log() == old(self).log(),
            final(self).pattern() == old(self).pattern(),
    {
        self.viewport.set_size(width, height);
    }

    /// Scrolls the window as `s` says, no further than the last row of the
    /// text, then brings the cursor into the window.
    pub fn scroll(&mut self, s: Scrolling)
        requires
            old(self).wf(),
        ensures
            final(self).wf(),
            final(self).window().row == clamp_int(
                old(self).window().row + scroll_delta(s, old(self).window().height).0,
                0,
                if count_newlines(old(self).chars()) < u16::MAX {
                    count_newlines(old(self).chars()) as int
                } else {
                    u16::MAX as int
                },
            ),
            final(self).window().col == clamp_int(
                old(self).window().col + scroll_delta(s, old(self).window().height).1,
                0,
                u16::MAX as int,
            ),
            final(self).window().width == old(self).window().width,
            final(self).window().height == old(self).window().height,
            exists|r: Option<usize>|
                #![trigger moved(CursorMove::InViewport, old(self).chars(), old(self).pos(), final(self).window(), r)]
                moved(CursorMove::InViewport, old(self).chars(), old(self).pos(), final(self).window(), r)
                    && final(self).pos() == (match r {
                    Some(p) => p as int,
                    None => old(self).pos(),
                }),
            final(self).chars() == old(self).chars(),
            final(self).anchor() == old(self).anchor(),
            final(self).yanked() == old(self).yanked(),
            final(self).log() == old(self).log(),
            final(self).pattern() == old(self).pattern(),
    {
        let chars = text_to_chars(&self.text);
        let last = count_newlines_in(&chars);
        s.scroll(&mut self.viewport, last);
        self.move_cursor(CursorMove::InViewport);
    }

    /// The lines of the text, without their newlines; a newline at the very end
    /// opens no line, and an empty text has none.
    pub fn lines(&self) -> (r: Vec<String>)
        ensures
            r.len() == if self.chars().len() == 0 {
                0
            } else {
                last_row(self.chars()) + 1
            },
            forall|i: int|
                0 <= i < r.len() ==> #[trigger] r[i]@ == self.chars().subrange(
                    row_start(self.chars(), i as nat),
                    line_end(self.chars(), row_start(self.chars(), i as nat)),
                ),
    {
        let chars = text_to_chars(&self.text);
        let mut r: Vec<String> = Vec::new();
        if chars.len() == 0 {
            return r;
        }
        let n = count_newlines_in(&chars);
        proof {
            lemma_count_newlines_len(chars@.drop_last());
        }
        let count: usize = if chars[chars.len() - 1] != '\n' {
            n + 1
        } else {
            n
        };
        let mut start: usize = 0;
        let mut k: usize = 0;
        while k < count
            invariant
                k <= count,
                chars@ == self.chars(),
                count == last_row(chars@) + 1,
                r.len() == k,
                start == row_start(chars@, k as nat),
                start <= chars@.len(),
                forall|i: int|
                    0 <= i < k ==> #[trigger] r[i]@ == chars@.subrange(
                        row_start(chars@, i as nat),
                        line_end(chars@, row_start(chars@, i as nat)),
                    ),
            decreases count - k,
        {
            let e = line_end_at(&chars, start);
            r.push(String::from_str(self.text.as_str().substring_char(start, e)));
            if e < chars.len() {
                start = e + 1;
            }
            k += 1;
        }
        r
    }
}

impl MergeArea {
    /// Sets the search pattern; an empty pattern ends searching. A pattern that
    /// does not compile is refused and leaves the session as it was.
    pub fn set_search_pattern(&mut self, pattern: &str) -> (r: Result<(), PatternError>)
        requires
            old(self).wf(),
        ensures
            final(self).wf(),
            r is Ok <==> (pattern@.len() == 0 || pattern_compiles(pattern@)),
            r is Ok ==> final(self).pattern() == if pattern@.len() == 0 {
                None
            } else {
                Some(pattern@)
            },
            r is Err ==> final(self).pattern() == old(self).pattern() && r->Err_0.pattern@
                == pattern@,
            final(self).chars() == old(self).chars(),
            final(self).pos() == old(self).pos(),
            final(self).anchor() == old(self).anchor(),
            final(self).yanked() == old(self).yanked(),
            final(self).log() == old(self).log(),
            final(self).window() == old(self).window(),
    {
        if pattern.unicode_len() == 0 {
            self.search = None;
            return Ok(());
        }
        match Pattern::new(pattern) {
            Ok(p) => {
                self.search = Some(p);
                Ok(())
            },
            Err(e) => Err(e),
        }
    }

    /// Whether a search pattern is set.
    pub fn has_search_pattern(&self) -> (r: bool)
        ensures
            r == self.searching(),
    {
        self.search.is_some()
    }

    /// Moves the cursor to the start of the first match after it, wrapping
    /// around past the last match; `false` when no pattern is set or nothing
    /// matches.
    pub fn search_forward(&mut self) -> (r: bool)
        requires
            old(self).wf(),
        ensures
            final(self).wf(),
            r == (old(self).found().len() > 0),
            !r ==> final(self).pos() == old(self).pos(),
            r ==> exists|i: int|
                first_after(old(self).found(), old(self).pos(), i) && final(self).pos() == (if i
                    < old(self).found().len() {
                    old(self).found()[i]
                } else {
                    old(self).found()[0]
                }).0,
            final(self).chars() == old(self).chars(),
            final(self).anchor() == old(self).anchor(),
            final(self).yanked() == old(self).yanked(),
            final(self).log() == old(self).log(),
            final(self).window() == old(self).window(),
            final(self).pattern() == old(self).pattern(),
    {
        let spans = match &self.search {
            None => return false,
            Some(p) => find_matches(p, self.text.as_str()),
        };
        match next_match(&spans, self.cursor) {
            None => false,
            Some((start, _)) => {
                self.cursor = start;
                true
            },
        }
    }

    /// Moves the cursor to the start of the last match before it, wrapping
    /// around before the first match; `false` when no pattern is set or nothing
    /// matches.
    pub fn search_back(&mut self) -> (r: bool)
        requires
            old(self).wf(),
        ensures
            final(self).wf(),
            r == (old(self).found().len() > 0),
            !r ==> final(self).pos() == old(self).pos(),
            r ==> exists|i: int|
                last_before(old(self).found(), old(self).pos(), i) && final(self).pos() == (if i
                    >= 0 {
                    old(self).found()[i]
                } else {
                    old(self).found()[old(self).found().len() - 1]
                }).0,
            final(self).chars() == old(self).chars(),
            final(self).anchor() == old(self).anchor(),
            final(self).yanked() == old(self).yanked(),
            final(self).log() == old(self).log(),
            final(self).window() == old(self).window(),
            final(self).pattern() == old(self).pattern(),
    {
        let spans = match &self.search {
            None => return false,
            Some(p) => find_matches(p, self.text.as_str()),
        };
        match prev_match(&spans, self.cursor) {
            None => false,
            Some((start, _)) => {
                self.cursor = start;
                true
            },
        }
    }
}

impl Default for MergeArea {
    fn default() -> (r: Self)
        ensures
            r.wf(),
            r.chars() == Seq::<char>::empty(),
            r.pos() == 0,
            r.anchor() is None,
            r.yanked() == Seq::<char>::empty(),
            r.log().edits.len() == 0,
            r.log().max_items == DEFAULT_MAX_HISTORIES,
    {
        proof {
            reveal_strlit("");
        }
        Self::with_value("")
    }
}

/// An edit that a session records in a log with room for it is the one that
/// the next undo takes back, at the offset where it applied, and taking it back
/// gives the text it was applied to.
pub proof fn lemma_undo_takes_back_recorded(
    before: HistoryState,
    after: HistoryState,
    insert: bool,
    p: Seq<char>,
    o: int,
    s: Seq<char>,
)
    requires
        state_wf(before),
        before.max_items > 0,
        recorded(before, after, insert, p, o),
        0 <= o <= s.len(),
        !insert ==> o + p.len() <= s.len() && s.subrange(o, o + p.len()) == p,
    ensures
        after.index > 0,
        ({
            let e = after.edits[after.index - 1];
            &&& e.offset == o
            &&& applied(inverse(e.kind), splice_at(insert, p, s, o), o) == s
        }),
{
    let e = choose|e: Edit|
        #![trigger pushed(before, e)]
        after == pushed(before, e) && is_insert(e.kind) == insert && payload(e.kind) == p && e.offset
            == o;
    assert(after.edits[after.index - 1] == e);
    assert(applied(e.kind, s, o) == splice_at(insert, p, s, o));
    lemma_undo_after_apply(e.kind, s, o);
}

} // verus!
