//! Access to the replicated text object: its characters, and splices addressed
//! by character offsets.

use vstd::prelude::*;

verus! {

/// The replicated text object, opaque to proofs.
#[verifier::external_type_specification]
#[verifier::external_body]
pub struct ExText(autosurgeon::Text);

/// The characters held by a text object.
pub uninterp spec fn text_chars(t: autosurgeon::Text) -> Seq<char>;

/// Number of bytes that the UTF-8 encoding of `c` takes.
pub open spec fn char_utf8_len(c: char) -> nat {
    if (c as u32) < 0x80 {
        1
    } else if (c as u32) < 0x800 {
        2
    } else if (c as u32) < 0x10000 {
        3
    } else {
        4
    }
}

/// Number of bytes that the UTF-8 encoding of `s` takes.
pub open spec fn utf8_len(s: Seq<char>) -> nat
    decreases s.len(),
{
    if s.len() == 0 {
        0
    } else {
        utf8_len(s.drop_last()) + char_utf8_len(s.last())
    }
}

/// Relies on autosurgeon::Text::as_str: the current content as a string slice.
pub assume_specification<'a>[ autosurgeon::Text::as_str ](t: &'a autosurgeon::Text) -> (r: &'a str)
    ensures
        r@ == text_chars(*t),
;

/// Relies on str::len: the length of a string slice in bytes of its UTF-8 encoding.
#[verifier::external_body]
fn str_byte_len(s: &str) -> (r: usize)
    ensures
        r == utf8_len(s@),
{
    s.len()
}

/// Number of bytes of the UTF-8 encoding of `c`, by the range of its code
/// point.
fn char_len_utf8(c: char) -> (r: usize)
    ensures
        r == char_utf8_len(c),
{
    let u = c as u32;
    if u < 0x80 {
        1
    } else if u < 0x800 {
        2
    } else if u < 0x10000 {
        3
    } else {
        4
    }
}

/// Relies on autosurgeon::Text::with_value: a fresh text object holding `s`.
#[verifier::external_body]
pub(crate) fn new_text(s: &str) -> (r: autosurgeon::Text)
    ensures
        text_chars(r) == s@,
{
    autosurgeon::Text::with_value(s)
}

/// Relies on autosurgeon::Text::splice: the bytes `pos .. pos + del` of the UTF-8
/// content are replaced by `insert`; both ends lie on character boundaries.
#[verifier::external_body]
fn splice_bytes(t: &mut autosurgeon::Text, pos: usize, del: usize, insert: &str)
    requires
        exists|i: int, j: int|
            0 <= i <= j <= text_chars(*old(t)).len() && utf8_len(text_chars(*old(t)).take(i))
                == pos && utf8_len(text_chars(*old(t)).take(j)) == pos + del,
    ensures
        forall|i: int, j: int|
            #![trigger text_chars(*old(t)).take(i), text_chars(*old(t)).take(j)]
            0 <= i <= j <= text_chars(*old(t)).len() && utf8_len(text_chars(*old(t)).take(i))
                == pos && utf8_len(text_chars(*old(t)).take(j)) == pos + del
                ==> text_chars(*final(t)) == text_chars(*old(t)).take(i) + insert@
                + text_chars(*old(t)).skip(j),
{
    t.splice(pos, del as isize, insert)
}

/// The characters of a string slice, in order.
pub fn chars_of(s: &str) -> (r: Vec<char>)
    ensures
        r@ == s@,
{
    let mut r: Vec<char> = Vec::new();
    for c in it: s.chars()
        invariant
            r@ == it.seq().take(it.index() as int),
    {
        r.push(c);
    }
    r
}

/// A longer prefix never takes fewer bytes, and no prefix takes more than the whole.
pub proof fn lemma_utf8_len_prefix(s: Seq<char>, i: int, j: int)
    requires
        0 <= i <= j <= s.len(),
    ensures
        utf8_len(s.take(i)) <= utf8_len(s.take(j)) <= utf8_len(s),
    decreases s.len(),
{
    if s.len() > 0 {
        let t = s.drop_last();
        assert(s.take(s.len() as int) =~= s);
        if j == s.len() {
            if i < j {
                lemma_utf8_len_prefix(t, i, t.len() as int);
                assert(t.take(i) =~= s.take(i));
                assert(t.take(t.len() as int) =~= t);
            }
        } else {
            lemma_utf8_len_prefix(t, i, j);
            assert(t.take(i) =~= s.take(i));
            assert(t.take(j) =~= s.take(j));
        }
    }
}

/// Each character takes at least one byte, so longer prefixes take strictly
/// more bytes.
pub proof fn lemma_utf8_len_strict(s: Seq<char>, i: int, j: int)
    requires
        0 <= i < j <= s.len(),
    ensures
        utf8_len(s.take(i)) < utf8_len(s.take(j)),
{
    lemma_utf8_len_prefix(s, i, j - 1);
    let t = s.take(j);
    assert(t.drop_last() =~= s.take(j - 1));
    lemma_utf8_len_prefix(s, j, s.len() as int);
}

/// Two character offsets with the same byte position are the same offset.
pub proof fn lemma_utf8_len_injective(s: Seq<char>, i: int, j: int)
    requires
        0 <= i <= s.len(),
        0 <= j <= s.len(),
        utf8_len(s.take(i)) == utf8_len(s.take(j)),
    ensures
        i == j,
{
    if i < j {
        lemma_utf8_len_strict(s, i, j);
    } else if j < i {
        lemma_utf8_len_strict(s, j, i);
    }
}

/// Character offset of the byte position `b`, which lies on a character
/// boundary of the UTF-8 encoding of `chars`.
pub fn char_offset_of_byte(chars: &Vec<char>, b: usize) -> (r: usize)
    requires
        exists|k: int| 0 <= k <= chars@.len() && utf8_len(#[trigger] chars@.take(k)) == b,
        utf8_len(chars@) <= usize::MAX,
    ensures
        r <= chars@.len(),
        utf8_len(chars@.take(r as int)) == b,
{
    let ghost k0 = choose|k: int| 0 <= k <= chars@.len() && utf8_len(#[trigger] chars@.take(k)) == b;
    let mut sum: usize = 0;
    let mut k: usize = 0;
    proof {
        if k0 > 0 {
            lemma_utf8_len_strict(chars@, 0, k0);
        }
        assert(chars@.take(0) =~= Seq::<char>::empty());
    }
    while sum < b
        invariant
            k <= k0 <= chars@.len(),
            utf8_len(chars@.take(k0)) == b,
            utf8_len(chars@) <= usize::MAX,
            sum == utf8_len(chars@.take(k as int)),
        decreases k0 - k,
    {
        proof {
            if k == k0 {
                assert(false);
            }
            lemma_utf8_len_prefix(chars@, k + 1, chars.len() as int);
            assert(chars@.take(k + 1).drop_last() =~= chars@.take(k as int));
            if k + 1 < k0 {
                lemma_utf8_len_strict(chars@, k + 1, k0);
            }
        }
        sum = sum + char_len_utf8(chars[k]);
        k = k + 1;
    }
    proof {
        if k < k0 {
            lemma_utf8_len_strict(chars@, k as int, k0);
        }
    }
    k
}

/// Byte length of the UTF-8 encoding of `s`.
pub fn byte_len(s: &str) -> (r: usize)
    ensures
        r == utf8_len(s@),
{
    str_byte_len(s)
}

/// Byte position of the character offset `n` in the UTF-8 encoding of `chars`.
fn byte_offset(chars: &Vec<char>, n: usize) -> (r: usize)
    requires
        n <= chars.len(),
        utf8_len(chars@) <= usize::MAX,
    ensures
        r == utf8_len(chars@.take(n as int)),
{
    let mut sum: usize = 0;
    let mut k: usize = 0;
    while k < n
        invariant
            k <= n <= chars.len(),
            utf8_len(chars@) <= usize::MAX,
            sum == utf8_len(chars@.take(k as int)),
        decreases n - k,
    {
        proof {
            lemma_utf8_len_prefix(chars@, k + 1, chars.len() as int);
            assert(chars@.take(k + 1).drop_last() =~= chars@.take(k as int));
        }
        sum = sum + char_len_utf8(chars[k]);
        k = k + 1;
    }
    sum
}

/// The characters that a text object holds.
pub fn text_to_chars(t: &autosurgeon::Text) -> (r: Vec<char>)
    ensures
        r@ == text_chars(*t),
{
    chars_of(t.as_str())
}

/// Removes `count` characters at character offset `start` and puts `insert` in
/// their place.
pub fn splice_chars(t: &mut autosurgeon::Text, start: usize, count: usize, insert: &str)
    requires
        start + count <= text_chars(*old(t)).len(),
    ensures
        text_chars(*final(t)) == text_chars(*old(t)).take(start as int) + insert@
            + text_chars(*old(t)).skip(start + count),
{
    let chars = text_to_chars(t);
    let total = str_byte_len(t.as_str());
    assert(utf8_len(chars@) == total);
    let end = start + count;
    let b0 = byte_offset(&chars, start);
    let b1 = byte_offset(&chars, end);
    proof {
        lemma_utf8_len_prefix(chars@, start as int, end as int);
    }
    let ghost s = text_chars(*t);
    splice_bytes(t, b0, b1 - b0, insert);
    assert(utf8_len(s.take(start as int)) == b0 && utf8_len(s.take(end as int)) == b0 + (b1 - b0));
}

} // verus!
