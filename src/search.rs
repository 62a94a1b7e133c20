//! Pattern search: the matches of a compiled pattern as character spans, and
//! navigation to the next or previous one with wrap-around.

use vstd::prelude::*;
use vstd::string::StringExecFns;
use crate::text::{utf8_len, char_offset_of_byte, byte_len, lemma_utf8_len_injective};

verus! {

/// A compiled pattern, opaque to proofs.
#[verifier::external_type_specification]
#[verifier::external_body]
pub struct ExRegex(regex::Regex);

/// Why a pattern did not compile, opaque to proofs.
#[verifier::external_type_specification]
#[verifier::external_body]
pub struct ExRegexError(regex::Error);

/// A pattern that did not compile.
#[derive(Clone, Debug)]
pub struct PatternError {
    pub pattern: String,
}

/// A pattern compiled by `Pattern::new`, with the default options of
/// `regex::Regex::new`: its matches depend on its source text alone. No other
/// way to build one exists, so every `Pattern` is of that kind.
#[derive(Debug)]
pub struct Pattern {
    re: regex::Regex,
}

/// Whether `p` is a pattern that compiles.
pub uninterp spec fn pattern_compiles(p: Seq<char>) -> bool;

/// The pattern that a compiled pattern was built from.
pub uninterp spec fn regex_source(re: regex::Regex) -> Seq<char>;

/// The successive non-overlapping matches in `hay` of `pattern`, compiled with
/// the default options of `regex::Regex::new`, as byte spans.
pub uninterp spec fn regex_spans(pattern: Seq<char>, hay: Seq<char>) -> Seq<(usize, usize)>;

/// Relies on regex::Regex::new: compiles `pattern`; whether it succeeds depends
/// on the pattern alone, and the result keeps the pattern it was built from
/// (as `Regex::as_str` returns it).
#[verifier::external_body]
fn compile(pattern: &str) -> (r: Result<regex::Regex, regex::Error>)
    ensures
        r is Ok == pattern_compiles(pattern@),
        r matches Ok(re) ==> regex_source(re) == pattern@,
{
    regex::Regex::new(pattern)
}

/// `b` is the byte position of some character offset of `s`.
pub open spec fn on_boundary(s: Seq<char>, b: int) -> bool {
    exists|k: int| 0 <= k <= s.len() && utf8_len(#[trigger] s.take(k)) == b
}

/// `spans` are ordered, non-overlapping byte ranges of `s` whose ends lie on
/// character boundaries.
pub open spec fn byte_spans_of(s: Seq<char>, spans: Seq<(usize, usize)>) -> bool {
    &&& forall|i: int|
        0 <= i < spans.len() ==> #[trigger] spans[i].0 <= spans[i].1 <= utf8_len(s) && on_boundary(
            s,
            spans[i].0 as int,
        ) && on_boundary(s, spans[i].1 as int)
    &&& forall|i: int| 0 <= i < spans.len() - 1 ==> #[trigger] spans[i].1 <= spans[i + 1].0
}

/// `spans` are ordered, non-overlapping character ranges of a text of length
/// `n`.
pub open spec fn spans_within(n: int, spans: Seq<(usize, usize)>) -> bool {
    &&& forall|i: int| 0 <= i < spans.len() ==> #[trigger] spans[i].0 <= spans[i].1 <= n
    &&& forall|i: int| 0 <= i < spans.len() - 1 ==> #[trigger] spans[i].1 <= spans[i + 1].0
}

/// Relies on regex::Regex::find_iter: the successive non-overlapping matches
/// in `haystack`, each as its start and end byte offsets, which lie on
/// character boundaries. A `Pattern` holds a regex that `Regex::new` built with
/// default options, so they depend on its source and the haystack alone.
#[verifier::external_body]
fn match_bytes(p: &Pattern, haystack: &str) -> (r: Vec<(usize, usize)>)
    ensures
        r@ == regex_spans(p.source(), haystack@),
        byte_spans_of(haystack@, r@),
{
    p.re.find_iter(haystack).map(|m| (m.start(), m.end())).collect()
}

impl Pattern {
    /// The pattern text this was compiled from.
    pub closed spec fn source(&self) -> Seq<char> {
        regex_source(self.re)
    }

    /// Compiles `pattern`; a pattern that does not compile is refused with the
    /// pattern text.
    pub fn new(pattern: &str) -> (r: Result<Pattern, PatternError>)
        ensures
            r is Ok == pattern_compiles(pattern@),
            r matches Ok(p) ==> p.source() == pattern@,
            r matches Err(e) ==> e.pattern@ == pattern@,
    {
        match compile(pattern) {
            Ok(re) => Ok(Pattern { re }),
            Err(_) => Err(PatternError { pattern: String::from_str(pattern) }),
        }
    }
}

/// Character offset whose byte position in `s` is `b`.
pub open spec fn char_index(s: Seq<char>, b: int) -> int {
    choose|k: int| 0 <= k <= s.len() && utf8_len(#[trigger] s.take(k)) == b
}

/// Byte spans of `s` turned into character spans.
pub open spec fn char_spans(s: Seq<char>, bytes: Seq<(usize, usize)>) -> Seq<(usize, usize)> {
    Seq::new(
        bytes.len(),
        |i: int| (char_index(s, bytes[i].0 as int) as usize, char_index(s, bytes[i].1 as int) as usize),
    )
}

/// The matches of `re` in `s`, as character spans.
pub open spec fn matches_of(p: Pattern, s: Seq<char>) -> Seq<(usize, usize)> {
    char_spans(s, regex_spans(p.source(), s))
}

/// Character span `c` covers the bytes of byte span `b` in `s`.
pub open spec fn span_of_bytes(s: Seq<char>, c: (usize, usize), b: (usize, usize)) -> bool {
    &&& c.0 <= c.1 <= s.len()
    &&& utf8_len(s.take(c.0 as int)) == b.0
    &&& utf8_len(s.take(c.1 as int)) == b.1
}

/// The byte spans of `chars` turned into character spans.
fn to_char_spans(chars: &Vec<char>, spans: &Vec<(usize, usize)>) -> (r: Vec<(usize, usize)>)
    requires
        byte_spans_of(chars@, spans@),
        utf8_len(chars@) <= usize::MAX,
    ensures
        r.len() == spans.len(),
        forall|i: int| 0 <= i < r.len() ==> span_of_bytes(chars@, #[trigger] r@[i], spans@[i]),
{
    let mut r: Vec<(usize, usize)> = Vec::new();
    let mut i: usize = 0;
    while i < spans.len()
        invariant
            i <= spans.len(),
            r.len() == i,
            byte_spans_of(chars@, spans@),
            utf8_len(chars@) <= usize::MAX,
            forall|j: int| 0 <= j < i ==> span_of_bytes(chars@, #[trigger] r@[j], spans@[j]),
        decreases spans.len() - i,
    {
        let (b0, b1) = spans[i];
        assert(on_boundary(chars@, spans@[i as int].0 as int));
        assert(on_boundary(chars@, spans@[i as int].1 as int));
        let c0 = char_offset_of_byte(chars, b0);
        let c1 = char_offset_of_byte(chars, b1);
        proof {
            if c1 < c0 {
                crate::text::lemma_utf8_len_strict(chars@, c1 as int, c0 as int);
            }
        }
        r.push((c0, c1));
        assert(span_of_bytes(chars@, r@[i as int], spans@[i as int]));
        i += 1;
    }
    r
}

proof fn lemma_char_spans_ordered(s: Seq<char>, bytes: Seq<(usize, usize)>, r: Seq<(usize, usize)>)
    requires
        byte_spans_of(s, bytes),
        r.len() == bytes.len(),
        forall|i: int| 0 <= i < r.len() ==> span_of_bytes(s, #[trigger] r[i], bytes[i]),
    ensures
        spans_within(s.len() as int, r),
{
    assert forall|i: int| 0 <= i < r.len() implies #[trigger] r[i].0 <= r[i].1 <= s.len() by {
        assert(span_of_bytes(s, r[i], bytes[i]));
    }
    assert forall|i: int| 0 <= i < r.len() - 1 implies #[trigger] r[i].1 <= r[i + 1].0 by {
        assert(span_of_bytes(s, r[i], bytes[i]));
        assert(span_of_bytes(s, r[i + 1], bytes[i + 1]));
        assert(bytes[i].1 <= bytes[i + 1].0);
        if r[i].1 > r[i + 1].0 {
            crate::text::lemma_utf8_len_strict(s, r[i + 1].0 as int, r[i].1 as int);
        }
    }
}

/// The matches of `re` in `text`, as ordered, non-overlapping character spans.
pub fn find_matches(p: &Pattern, text: &str) -> (r: Vec<(usize, usize)>)
    ensures
        r@ == matches_of(*p, text@),
        spans_within(text@.len() as int, r@),
{
    let chars = crate::text::chars_of(text);
    let n_bytes = byte_len(text);
    assert(utf8_len(chars@) == n_bytes);
    let bytes = match_bytes(p, text);
    let r = to_char_spans(&chars, &bytes);
    proof {
        lemma_char_spans_ordered(chars@, bytes@, r@);
        assert forall|i: int| 0 <= i < r.len() implies #[trigger] r@[i] == char_spans(
            chars@,
            bytes@,
        )[i] by {
            assert(span_of_bytes(chars@, r@[i], bytes@[i]));
            let k0 = char_index(chars@, bytes@[i].0 as int);
            let k1 = char_index(chars@, bytes@[i].1 as int);
            assert(0 <= k0 <= chars@.len() && utf8_len(chars@.take(k0)) == bytes@[i].0) by {
                assert(utf8_len(chars@.take(r@[i].0 as int)) == bytes@[i].0);
            }
            assert(0 <= k1 <= chars@.len() && utf8_len(chars@.take(k1)) == bytes@[i].1) by {
                assert(utf8_len(chars@.take(r@[i].1 as int)) == bytes@[i].1);
            }
            lemma_utf8_len_injective(chars@, k0, r@[i].0 as int);
            lemma_utf8_len_injective(chars@, k1, r@[i].1 as int);
        }
        assert(r@ =~= matches_of(*p, text@));
    }
    r
}

/// Index of the first span that starts after `cursor`, or the number of spans.
pub open spec fn first_after(spans: Seq<(usize, usize)>, cursor: int, i: int) -> bool {
    &&& 0 <= i <= spans.len()
    &&& forall|j: int| 0 <= j < i ==> #[trigger] spans[j].0 <= cursor
    &&& i < spans.len() ==> spans[i].0 > cursor
}

/// Index of the last span that starts before `cursor`, or minus one.
pub open spec fn last_before(spans: Seq<(usize, usize)>, cursor: int, i: int) -> bool {
    &&& -1 <= i < spans.len()
    &&& forall|j: int| i < j < spans.len() ==> #[trigger] spans[j].0 >= cursor
    &&& i >= 0 ==> spans[i].0 < cursor
}

/// The first span that starts strictly after `cursor`; past the last one the
/// search wraps around to the first. `None` when there are no spans.
pub fn next_match(spans: &Vec<(usize, usize)>, cursor: usize) -> (r: Option<(usize, usize)>)
    ensures
        spans.len() == 0 ==> r is None,
        spans.len() > 0 ==> exists|i: int|
            first_after(spans@, cursor as int, i) && r == Some(
                if i < spans.len() {
                    spans@[i]
                } else {
                    spans@[0]
                },
            ),
{
    if spans.len() == 0 {
        return None;
    }
    let mut i: usize = 0;
    while i < spans.len() && spans[i].0 <= cursor
        invariant
            i <= spans.len(),
            forall|j: int| 0 <= j < i ==> #[trigger] spans@[j].0 <= cursor,
        decreases spans.len() - i,
    {
        i += 1;
    }
    let r = if i < spans.len() {
        spans[i]
    } else {
        spans[0]
    };
    assert(first_after(spans@, cursor as int, i as int));
    Some(r)
}

/// The last span that starts strictly before `cursor`; before the first one
/// the search wraps around to the last. `None` when there are no spans.
pub fn prev_match(spans: &Vec<(usize, usize)>, cursor: usize) -> (r: Option<(usize, usize)>)
    ensures
        spans.len() == 0 ==> r is None,
        spans.len() > 0 ==> exists|i: int|
            last_before(spans@, cursor as int, i) && r == Some(
                if i >= 0 {
                    spans@[i]
                } else {
                    spans@[spans.len() - 1]
                },
            ),
{
    if spans.len() == 0 {
        return None;
    }
    let mut i: usize = spans.len();
    while i > 0 && spans[i - 1].0 >= cursor
        invariant
            i <= spans.len(),
            forall|j: int| i <= j < spans.len() ==> #[trigger] spans@[j].0 >= cursor,
        decreases i,
    {
        i -= 1;
    }
    let r = if i > 0 {
        spans[i - 1]
    } else {
        spans[spans.len() - 1]
    };
    assert(last_before(spans@, cursor as int, i - 1));
    Some(r)
}

} // verus!
