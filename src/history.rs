//! Reversible edits and the bounded undo/redo log that replays them.

use vstd::prelude::*;
use std::collections::VecDeque;
use crate::text::{text_chars, text_to_chars, splice_chars};

verus! {

/// A primitive change to the text.
#[derive(Clone, Debug)]
pub enum EditKind {
    InsertChar(char),
    DeleteChar(char),
    InsertNewline,
    DeleteNewline,
    InsertStr(String),
    DeleteStr(String),
}

/// Whether `k` adds characters (rather than removing them).
pub open spec fn is_insert(k: EditKind) -> bool {
    match k {
        EditKind::InsertChar(_) | EditKind::InsertNewline | EditKind::InsertStr(_) => true,
        _ => false,
    }
}

/// The characters that `k` adds or removes.
pub open spec fn payload(k: EditKind) -> Seq<char> {
    match k {
        EditKind::InsertChar(c) | EditKind::DeleteChar(c) => seq![c],
        EditKind::InsertNewline | EditKind::DeleteNewline => seq!['\n'],
        EditKind::InsertStr(s) | EditKind::DeleteStr(s) => s@,
    }
}

/// The edit that undoes `k`: an insertion becomes the deletion of the same
/// characters and the other way round.
pub open spec fn inverse(k: EditKind) -> EditKind {
    match k {
        EditKind::InsertChar(c) => EditKind::DeleteChar(c),
        EditKind::DeleteChar(c) => EditKind::InsertChar(c),
        EditKind::InsertNewline => EditKind::DeleteNewline,
        EditKind::DeleteNewline => EditKind::InsertNewline,
        EditKind::InsertStr(s) => EditKind::DeleteStr(s),
        EditKind::DeleteStr(s) => EditKind::InsertStr(s),
    }
}

/// Text `s` after a change that inserts `p` (or removes as many characters as
/// `p` holds) at offset `o`; the offset is held to the end of the text, and a
/// removal stops there too.
pub open spec fn splice_at(insert: bool, p: Seq<char>, s: Seq<char>, o: int) -> Seq<char> {
    let o2 = if o <= s.len() {
        o
    } else {
        s.len() as int
    };
    if insert {
        s.take(o2) + p + s.skip(o2)
    } else {
        let e = if o2 + p.len() <= s.len() {
            o2 + p.len()
        } else {
            s.len() as int
        };
        s.take(o2) + s.skip(e)
    }
}

/// Text `s` after `k` is applied at offset `o`.
pub open spec fn applied(k: EditKind, s: Seq<char>, o: int) -> Seq<char> {
    splice_at(is_insert(k), payload(k), s, o)
}

/// Relies on ToString for char: a string of that one character.
#[verifier::external_body]
fn char_to_string(c: char) -> (r: String)
    ensures
        r@ == seq![c],
{
    c.to_string()
}

fn remove_at(text: &mut autosurgeon::Text, offset: usize, count: usize)
    ensures
        text_chars(*final(text)) == splice_at(
            false,
            Seq::new(count as nat, |i: int| ' '),
            text_chars(*old(text)),
            offset as int,
        ),
{
    let len = text_to_chars(text).len();
    let o: usize = if offset <= len {
        offset
    } else {
        len
    };
    let n: usize = if count <= len - o {
        count
    } else {
        len - o
    };
    proof {
        reveal_strlit("");
    }
    splice_chars(text, o, n, "");
    assert(text_chars(*final(text)) =~= splice_at(
        false,
        Seq::new(count as nat, |i: int| ' '),
        text_chars(*old(text)),
        offset as int,
    ));
}

fn insert_at(text: &mut autosurgeon::Text, offset: usize, s: &str)
    ensures
        text_chars(*final(text)) == splice_at(true, s@, text_chars(*old(text)), offset as int),
{
    let len = text_to_chars(text).len();
    let o: usize = if offset <= len {
        offset
    } else {
        len
    };
    splice_chars(text, o, 0, s);
    assert(text_chars(*final(text)) =~= splice_at(true, s@, text_chars(*old(text)), offset as int));
}

impl EditKind {
    /// Applies this edit to `text` at character offset `offset`.
    pub fn apply(&self, text: &mut autosurgeon::Text, offset: usize)
        ensures
            text_chars(*final(text)) == applied(*self, text_chars(*old(text)), offset as int),
    {
        match self {
            EditKind::InsertChar(c) => {
                let s = char_to_string(*c);
                insert_at(text, offset, s.as_str());
            },
            EditKind::DeleteChar(_) => {
                remove_at(text, offset, 1);
            },
            EditKind::InsertNewline => {
                proof {
                    reveal_strlit("\n");
                }
                insert_at(text, offset, "\n");
                assert("\n"@ =~= seq!['\n']);
            },
            EditKind::DeleteNewline => {
                remove_at(text, offset, 1);
            },
            EditKind::InsertStr(s) => {
                insert_at(text, offset, s.as_str());
            },
            EditKind::DeleteStr(s) => {
                let n = s.as_str().unicode_len();
                remove_at(text, offset, n);
            },
        }
    }

    /// The edit that undoes this one.
    pub fn invert(&self) -> (r: Self)
        ensures
            r == inverse(*self),
    {
        match self {
            EditKind::InsertChar(c) => EditKind::DeleteChar(*c),
            EditKind::DeleteChar(c) => EditKind::InsertChar(*c),
            EditKind::InsertNewline => EditKind::DeleteNewline,
            EditKind::DeleteNewline => EditKind::InsertNewline,
            EditKind::InsertStr(s) => EditKind::DeleteStr(s.clone()),
            EditKind::DeleteStr(s) => EditKind::InsertStr(s.clone()),
        }
    }
}

/// An edit together with the character offset where it applies.
#[derive(Clone, Debug)]
pub struct Edit {
    pub kind: EditKind,
    pub offset: usize,
}

impl Edit {
    pub fn new(kind: EditKind, offset: usize) -> (r: Self)
        ensures
            r == (Edit { kind, offset }),
    {
        Self { kind, offset }
    }

    /// Applies the edit to `lines` again.
    pub fn redo(&self, lines: &mut autosurgeon::Text)
        ensures
            text_chars(*final(lines)) == applied(self.kind, text_chars(*old(lines)), self.offset as int),
    {
        self.kind.apply(lines, self.offset);
    }

    /// Takes the edit back from `lines`.
    pub fn undo(&self, lines: &mut autosurgeon::Text)
        ensures
            text_chars(*final(lines)) == applied(
                inverse(self.kind),
                text_chars(*old(lines)),
                self.offset as int,
            ),
    {
        self.kind.invert().apply(lines, self.offset);
    }

    /// Where the cursor goes once the edit is undone.
    pub fn cursor_before(&self) -> (r: usize)
        ensures
            r == self.offset,
    {
        self.offset
    }

    /// Where the cursor goes once the edit is redone.
    pub fn cursor_after(&self) -> (r: usize)
        ensures
            r == self.offset,
    {
        self.offset
    }
}

/// A bounded log of edits with a position that separates what can be undone
/// (before it) from what can be redone (from it on).
#[derive(Clone, Debug)]
pub struct History {
    index: usize,
    max_items: usize,
    edits: VecDeque<Edit>,
}

/// Abstract state of a history: the edits, the position, the capacity.
pub struct HistoryState {
    pub edits: Seq<Edit>,
    pub index: nat,
    pub max_items: nat,
}

/// The position is within the log and the log within its capacity.
pub open spec fn state_wf(h: HistoryState) -> bool {
    h.index <= h.edits.len() <= h.max_items
}

/// State after `e` is recorded: nothing when the capacity is zero; otherwise
/// what could be redone is dropped, the oldest edit leaves a log that is still
/// full, and `e` comes last.
pub open spec fn pushed(h: HistoryState, e: Edit) -> HistoryState {
    if h.max_items == 0 {
        h
    } else {
        let kept = h.edits.take(h.index as int);
        let full = kept.len() == h.max_items;
        let es1 = if full {
            kept.drop_first()
        } else {
            kept
        };
        HistoryState { edits: es1.push(e), index: es1.len() + 1, max_items: h.max_items }
    }
}

/// State after a step back: the position moves one edit back, if it can.
pub open spec fn stepped_back(h: HistoryState) -> HistoryState {
    if h.index == 0 {
        h
    } else {
        HistoryState { index: (h.index - 1) as nat, ..h }
    }
}

/// State after a step forward: the position moves one edit on, if it can.
pub open spec fn stepped_forward(h: HistoryState) -> HistoryState {
    if h.index >= h.edits.len() {
        h
    } else {
        HistoryState { index: h.index + 1, ..h }
    }
}

impl History {
    pub closed spec fn state(&self) -> HistoryState {
        HistoryState {
            edits: self.edits@,
            index: self.index as nat,
            max_items: self.max_items as nat,
        }
    }

    pub open spec fn wf(&self) -> bool {
        state_wf(self.state())
    }

    /// An empty history that keeps at most `max_items` edits.
    pub fn new(max_items: usize) -> (r: Self)
        ensures
            r.wf(),
            r.state().edits == Seq::<Edit>::empty(),
            r.state().index == 0,
            r.state().max_items == max_items,
    {
        Self { index: 0, max_items, edits: VecDeque::new() }
    }

    /// Records `edit`, which has just been applied.
    pub fn push(&mut self, edit: Edit)
        requires
            old(self).wf(),
        ensures
            final(self).wf(),
            final(self).state() == pushed(old(self).state(), edit),
    {
        if self.max_items == 0 {
            return;
        }
        if self.index < self.edits.len() {
            self.edits.truncate(self.index);
        }
        if self.edits.len() == self.max_items {
            self.edits.pop_front();
            self.index = self.index - 1;
        }
        self.index += 1;
        self.edits.push_back(edit);
        assert(self.state().edits =~= pushed(old(self).state(), edit).edits);
    }

    /// Applies again the next edit that was undone, and gives the offset where
    /// it applies; `None` when there is none.
    pub fn redo(&mut self, text: &mut autosurgeon::Text) -> (r: Option<usize>)
        requires
            old(self).wf(),
        ensures
            final(self).wf(),
            final(self).state() == stepped_forward(old(self).state()),
            ({
                let h = old(self).state();
                if h.index >= h.edits.len() {
                    r is None && text_chars(*final(text)) == text_chars(*old(text))
                } else {
                    let e = h.edits[h.index as int];
                    r == Some(e.offset) && text_chars(*final(text)) == applied(
                        e.kind,
                        text_chars(*old(text)),
                        e.offset as int,
                    )
                }
            }),
    {
        if self.index == self.edits.len() {
            return None;
        }
        let edit = &self.edits[self.index];
        edit.redo(text);
        let r = edit.cursor_after();
        self.index += 1;
        Some(r)
    }

    /// Takes back the last edit that is not undone yet, and gives the offset
    /// where it applied; `None` when there is none.
    pub fn undo(&mut self, text: &mut autosurgeon::Text) -> (r: Option<usize>)
        requires
            old(self).wf(),
        ensures
            final(self).wf(),
            final(self).state() == stepped_back(old(self).state()),
            ({
                let h = old(self).state();
                if h.index == 0 {
                    r is None && text_chars(*final(text)) == text_chars(*old(text))
                } else {
                    let e = h.edits[h.index - 1];
                    r == Some(e.offset) && text_chars(*final(text)) == applied(
                        inverse(e.kind),
                        text_chars(*old(text)),
                        e.offset as int,
                    )
                }
            }),
    {
        if self.index == 0 {
            return None;
        }
        self.index = self.index - 1;
        let edit = &self.edits[self.index];
        edit.undo(text);
        Some(edit.cursor_before())
    }

    /// The capacity of the log.
    pub fn max_items(&self) -> (r: usize)
        ensures
            r == self.state().max_items,
    {
        self.max_items
    }
}

/// Undoing an edit right after applying it at the same offset gives back the
/// text exactly; a removal has to record the characters that it removes.
pub proof fn lemma_undo_after_apply(k: EditKind, s: Seq<char>, o: int)
    requires
        0 <= o <= s.len(),
        !is_insert(k) ==> o + payload(k).len() <= s.len() && s.subrange(o, o + payload(k).len())
            == payload(k),
    ensures
        applied(inverse(k), applied(k, s, o), o) == s,
{
    let p = payload(k);
    assert(payload(inverse(k)) == p);
    assert(is_insert(inverse(k)) == !is_insert(k));
    if is_insert(k) {
        assert(applied(inverse(k), applied(k, s, o), o) =~= s);
    } else {
        assert(s =~= s.take(o) + s.subrange(o, o + p.len()) + s.skip(o + p.len()));
        assert(applied(inverse(k), applied(k, s, o), o) =~= s);
    }
}

/// A history of capacity zero records nothing: a push leaves it as it is, and
/// there is no step for undo or redo to take.
pub proof fn lemma_zero_capacity(h: HistoryState, e: Edit)
    requires
        state_wf(h),
        h.max_items == 0,
    ensures
        pushed(h, e) == h,
        stepped_back(h) == h,
        stepped_forward(h) == h,
        h.index == 0,
        h.index >= h.edits.len(),
{
}

/// An edit recorded after an undo drops what could have been redone: the
/// following redo has no step to take.
pub proof fn lemma_push_after_undo_drops_redo(h: HistoryState, e: Edit)
    requires
        state_wf(h),
        h.index > 0,
    ensures
        ({
            let h2 = pushed(stepped_back(h), e);
            &&& state_wf(h2)
            &&& h2.index == h2.edits.len()
            &&& stepped_forward(h2) == h2
            &&& h2.edits.last() == e
        }),
{
}

} // verus!
