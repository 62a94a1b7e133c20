//! Word boundaries: characters fall into spaces, ASCII punctuation and the
//! rest, and a word is a maximal run of one non-space class.

use vstd::prelude::*;
use crate::text::chars_of;

verus! {

/// Whether `c` has the Unicode White_Space property: tab through carriage
/// return, space, next line, no-break space, ogham space mark, the spaces from
/// en quad to hair space, line and paragraph separators, narrow no-break space,
/// medium mathematical space and ideographic space.
pub open spec fn white_space(c: char) -> bool {
    let u = c as u32;
    ||| 0x09 <= u <= 0x0d
    ||| u == 0x20
    ||| u == 0x85
    ||| u == 0xa0
    ||| u == 0x1680
    ||| 0x2000 <= u <= 0x200a
    ||| u == 0x2028
    ||| u == 0x2029
    ||| u == 0x202f
    ||| u == 0x205f
    ||| u == 0x3000
}

/// Whether `c` is one of the ASCII punctuation characters.
pub open spec fn ascii_punct(c: char) -> bool {
    let u = c as u32;
    (0x21 <= u <= 0x2f) || (0x3a <= u <= 0x40) || (0x5b <= u <= 0x60) || (0x7b <= u <= 0x7e)
}

/// Relies on char::is_whitespace: the Unicode White_Space property.
#[verifier::external_body]
fn is_space(c: char) -> (r: bool)
    ensures
        r == white_space(c),
{
    c.is_whitespace()
}

/// Whether `c` is ASCII punctuation, by its four ranges.
fn is_punct(c: char) -> (r: bool)
    ensures
        r == ascii_punct(c),
{
    let u = c as u32;
    (0x21 <= u && u <= 0x2f) || (0x3a <= u && u <= 0x40) || (0x5b <= u && u <= 0x60) || (0x7b
        <= u && u <= 0x7e)
}

/// Class of a character for word motion.
#[derive(PartialEq, Eq, Structural, Clone, Copy, Debug)]
pub enum CharKind {
    Space,
    Punct,
    Other,
}

pub open spec fn kind_of(c: char) -> CharKind {
    if white_space(c) {
        CharKind::Space
    } else if ascii_punct(c) {
        CharKind::Punct
    } else {
        CharKind::Other
    }
}

/// A word starts at `k`: its character is no space and its class differs from
/// the one before.
pub open spec fn is_word_start(s: Seq<char>, k: int) -> bool {
    &&& 0 < k < s.len()
    &&& kind_of(s[k]) != CharKind::Space
    &&& kind_of(s[k]) != kind_of(s[k - 1])
}

/// A word ends just before `k`: the character before is no space and its class
/// differs from the one at `k`.
pub open spec fn is_word_exclusive_end(s: Seq<char>, k: int) -> bool {
    &&& 0 < k < s.len()
    &&& kind_of(s[k - 1]) != CharKind::Space
    &&& kind_of(s[k - 1]) != kind_of(s[k])
}

/// `p .. v` (both included) is the run of one non-space class that follows
/// the spaces from `cursor` on.
pub open spec fn word_run_after(s: Seq<char>, cursor: int, p: int, v: int) -> bool {
    &&& cursor <= p <= v < s.len()
    &&& forall|k: int| cursor <= k < p ==> kind_of(s[k]) == CharKind::Space
    &&& kind_of(s[p]) != CharKind::Space
    &&& forall|k: int| p <= k <= v ==> kind_of(s[k]) == kind_of(s[p])
    &&& (v + 1 == s.len() || kind_of(s[v + 1]) != kind_of(s[p]))
}

/// `v ..= p` is the run of one non-space class that ends at `p`, and only
/// spaces follow it up to `p0`.
pub open spec fn word_run_before(s: Seq<char>, p0: int, p: int, v: int) -> bool {
    &&& 0 <= v <= p <= p0 < s.len()
    &&& kind_of(s[p]) != CharKind::Space
    &&& forall|k: int| p < k <= p0 ==> kind_of(s[k]) == CharKind::Space
    &&& forall|k: int| v <= k <= p ==> kind_of(s[k]) == kind_of(s[p])
    &&& (v == 0 || kind_of(s[v - 1]) != kind_of(s[p]))
}

/// `k` is the last word start strictly between the head of the text and `m`.
pub open spec fn last_word_start_before(s: Seq<char>, m: int, k: int) -> bool {
    &&& 0 < k < m
    &&& is_word_start(s, k)
    &&& forall|j: int| k < j < m ==> !is_word_start(s, j)
}

/// `start` moved back onto the text when it lies past its end.
pub open spec fn scan_limit(s: Seq<char>, start: int) -> int {
    if start <= s.len() {
        start
    } else {
        s.len() as int
    }
}

/// `cursor` moved back onto the last character when it lies at or past the end.
pub open spec fn scan_origin(s: Seq<char>, cursor: int) -> int {
    if cursor < s.len() {
        cursor
    } else {
        s.len() - 1
    }
}

/// `r` is the first word start after `cursor`, or `None` when there is none.
pub open spec fn next_word_start(s: Seq<char>, cursor: int, r: Option<usize>) -> bool {
    match r {
        Some(p) => cursor < p < s.len() && is_word_start(s, p as int) && forall|k: int|
            cursor < k < p ==> !is_word_start(s, k),
        None => forall|k: int| cursor < k < s.len() ==> !is_word_start(s, k),
    }
}

/// `r` is the first word end after `start`, or `None` when there is none.
pub open spec fn next_word_exclusive_end(s: Seq<char>, start: int, r: Option<usize>) -> bool {
    match r {
        Some(p) => start < p < s.len() && is_word_exclusive_end(s, p as int) && forall|k: int|
            start < k < p ==> !is_word_exclusive_end(s, k),
        None => forall|k: int| start < k < s.len() ==> !is_word_exclusive_end(s, k),
    }
}

/// `r` holds the last character of the first word at or after `cursor`, or the
/// length of `s` when only spaces follow.
pub open spec fn word_end_from(s: Seq<char>, cursor: int, r: Option<usize>) -> bool {
    &&& r is Some
    &&& (forall|k: int| cursor <= k < s.len() ==> kind_of(s[k]) == CharKind::Space) ==> r
        == Some(s.len() as usize)
    &&& (exists|k: int| cursor <= k < s.len() && kind_of(s[k]) != CharKind::Space) ==> exists|
        p: int,
    | word_run_after(s, cursor, p, r->0 as int)
}

/// `r` holds the start of the word at or before `cursor` (spaces skipped), or
/// the head of the text when no word lies there.
pub open spec fn word_start_back_from(s: Seq<char>, cursor: int, r: Option<usize>) -> bool {
    let p0 = scan_origin(s, cursor);
    let v = r->0 as int;
    &&& r is Some
    &&& s.len() == 0 ==> v == 0
    &&& s.len() > 0 ==> {
        &&& (forall|k: int| 0 < k <= p0 ==> kind_of(s[k]) == CharKind::Space) ==> v == 0
        &&& (exists|k: int| 0 < k <= p0 && kind_of(s[k]) != CharKind::Space) ==> exists|p: int|
            word_run_before(s, p0, p, v)
    }
}

impl CharKind {
    pub fn new(c: char) -> (r: Self)
        ensures
            r == kind_of(c),
            c == ' ' || c == '\n' ==> r == CharKind::Space,
    {
        if is_space(c) {
            Self::Space
        } else if is_punct(c) {
            Self::Punct
        } else {
            Self::Other
        }
    }
}

/// Offset of the first word start after `cursor`, if there is one.
pub fn find_word_start_forward(text: &str, cursor: usize) -> (r: Option<usize>)
    ensures
        next_word_start(text@, cursor as int, r),
{
    let chars = chars_of(text);
    if cursor >= chars.len() {
        return None;
    }
    let mut prev = CharKind::new(chars[cursor]);
    let mut col: usize = cursor + 1;
    while col < chars.len()
        invariant
            cursor < col <= chars@.len(),
            chars@ == text@,
            prev == kind_of(chars@[col - 1]),
            forall|k: int| cursor < k < col ==> !is_word_start(text@, k),
        decreases chars@.len() - col,
    {
        let cur = CharKind::new(chars[col]);
        if cur != CharKind::Space && prev != cur {
            return Some(col);
        }
        prev = cur;
        col = col + 1;
    }
    None
}

/// Offset just past the end of the first word that ends after `start_col`, if
/// there is one.
pub fn find_word_exclusive_end_forward(line: &str, start_col: usize) -> (r: Option<usize>)
    ensures
        next_word_exclusive_end(line@, start_col as int, r),
{
    let chars = chars_of(line);
    if start_col >= chars.len() {
        return None;
    }
    let mut prev = CharKind::new(chars[start_col]);
    let mut col: usize = start_col + 1;
    while col < chars.len()
        invariant
            start_col < col <= chars@.len(),
            chars@ == line@,
            prev == kind_of(chars@[col - 1]),
            forall|k: int| start_col < k < col ==> !is_word_exclusive_end(line@, k),
        decreases chars@.len() - col,
    {
        let cur = CharKind::new(chars[col]);
        if prev != CharKind::Space && prev != cur {
            return Some(col);
        }
        prev = cur;
        col = col + 1;
    }
    None
}

/// Offset of the last character of the first word at or after `cursor`, or the
/// length of the text when only spaces follow.
pub fn find_word_inclusive_end_forward(text: &str, cursor: usize) -> (r: Option<usize>)
    ensures
        word_end_from(text@, cursor as int, r),
{
    let chars = chars_of(text);
    let mut pos: usize = cursor;
    while pos < chars.len() && CharKind::new(chars[pos]) == CharKind::Space
        invariant
            cursor <= pos,
            chars@ == text@,
            forall|k: int| cursor <= k < pos ==> kind_of(text@[k]) == CharKind::Space,
        decreases chars@.len() - pos,
    {
        pos += 1;
    }
    if pos >= chars.len() {
        return Some(chars.len());
    }
    let start = pos;
    let word_kind = CharKind::new(chars[pos]);
    while pos < chars.len() && CharKind::new(chars[pos]) == word_kind
        invariant
            start <= pos <= chars@.len(),
            start < chars@.len(),
            chars@ == text@,
            word_kind == kind_of(text@[start as int]),
            forall|k: int| start <= k < pos ==> kind_of(text@[k]) == word_kind,
        decreases chars@.len() - pos,
    {
        pos += 1;
    }
    let v = pos - 1;
    assert(word_run_after(text@, cursor as int, start as int, v as int));
    let r = Some(v);
    assert(r->0 == v);
    assert(exists|p: int| word_run_after(text@, cursor as int, p, r->0 as int));
    r
}

/// Offset of the last word start before `start_col` (held to the end of the
/// text); the head of the text counts when it is no space.
pub fn find_word_start_backward(line: &str, start_col: usize) -> (r: Option<usize>)
    ensures
        ({
            let s = line@;
            let m = scan_limit(s, start_col as int);
            ||| exists|k: int| last_word_start_before(s, m, k) && r == Some(k as usize)
            ||| (forall|j: int| 0 < j < m ==> !is_word_start(s, j)) && r == (if m > 0 && kind_of(s[0])
                != CharKind::Space {
                Some(0usize)
            } else {
                None
            })
        }),
{
    let chars = chars_of(line);
    let m: usize = if start_col <= chars.len() {
        start_col
    } else {
        chars.len()
    };
    if m == 0 {
        return None;
    }
    let mut k: usize = m - 1;
    while k > 0
        invariant
            k < m <= chars@.len(),
            m <= start_col,
            m as int == scan_limit(line@, start_col as int),
            chars@ == line@,
            forall|j: int| k < j < m ==> !is_word_start(line@, j),
        decreases k,
    {
        let cur = CharKind::new(chars[k]);
        let before = CharKind::new(chars[k - 1]);
        if cur != CharKind::Space && before != cur {
            assert(m as int == scan_limit(line@, start_col as int));
            assert(last_word_start_before(line@, m as int, k as int));
            return Some(k);
        }
        k -= 1;
    }
    if CharKind::new(chars[0]) != CharKind::Space {
        Some(0)
    } else {
        None
    }
}

/// Offset where the word at or before `cursor` starts, spaces before it skipped;
/// the head of the text when no word lies there.
pub fn find_word_start_backward_v2(text: &str, cursor: usize) -> (r: Option<usize>)
    ensures
        word_start_back_from(text@, cursor as int, r),
{
    let chars = chars_of(text);
    if chars.len() == 0 {
        return Some(0);
    }
    let p0: usize = if cursor < chars.len() {
        cursor
    } else {
        chars.len() - 1
    };
    let mut pos: usize = p0;
    while pos > 0 && CharKind::new(chars[pos]) == CharKind::Space
        invariant
            pos <= p0 < chars@.len(),
            chars@ == text@,
            forall|k: int| pos < k <= p0 ==> kind_of(text@[k]) == CharKind::Space,
        decreases pos,
    {
        pos -= 1;
    }
    if pos == 0 {
        return Some(0);
    }
    let end = pos;
    let word_kind = CharKind::new(chars[pos]);
    while pos > 0 && CharKind::new(chars[pos]) == word_kind
        invariant
            pos <= end <= p0 < chars@.len(),
            chars@ == text@,
            word_kind == kind_of(text@[end as int]),
            word_kind != CharKind::Space,
            forall|k: int| pos < k <= end ==> kind_of(text@[k]) == word_kind,
        decreases pos,
    {
        pos -= 1;
    }
    assert(p0 as int == scan_origin(text@, cursor as int));
    let v = if CharKind::new(chars[pos]) == word_kind {
        pos
    } else {
        pos + 1
    };
    assert(word_run_before(text@, p0 as int, end as int, v as int));
    let r = Some(v);
    assert(r->0 == v);
    assert(exists|p: int| word_run_before(text@, p0 as int, p, r->0 as int));
    assert(!(forall|k: int| 0 < k <= p0 ==> kind_of(text@[k]) == CharKind::Space));
    r
}

} // verus!
