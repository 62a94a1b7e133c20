//! Small helpers: padding, digit counts, positions, and line boundaries over a
//! character sequence.

use vstd::prelude::*;

verus! {

/// Offset of the first character of the line that holds offset `o`.
pub open spec fn line_start(s: Seq<char>, o: int) -> int
    decreases o,
{
    if o <= 0 {
        0
    } else if s[o - 1] == '\n' {
        o
    } else {
        line_start(s, o - 1)
    }
}

/// Offset of the newline that ends the line holding offset `o`, or the length
/// of `s` on the last line.
pub open spec fn line_end(s: Seq<char>, o: int) -> int
    decreases s.len() - o,
{
    if o >= s.len() || o < 0 {
        s.len() as int
    } else if s[o] == '\n' {
        o
    } else {
        line_end(s, o + 1)
    }
}

/// Number of newlines in `s`.
pub open spec fn count_newlines(s: Seq<char>) -> nat
    decreases s.len(),
{
    if s.len() == 0 {
        0
    } else {
        count_newlines(s.drop_last()) + if s.last() == '\n' {
            1nat
        } else {
            0nat
        }
    }
}

/// Row of offset `o`: the number of newlines before it.
pub open spec fn row_of(s: Seq<char>, o: int) -> nat {
    count_newlines(s.take(o))
}

/// Column of offset `o`: its distance from the start of its line.
pub open spec fn col_of(s: Seq<char>, o: int) -> int {
    o - line_start(s, o)
}

pub proof fn lemma_line_start_bounds(s: Seq<char>, o: int)
    requires
        0 <= o <= s.len(),
    ensures
        0 <= line_start(s, o) <= o,
        line_start(s, o) == 0 || s[line_start(s, o) - 1] == '\n',
        forall|k: int| line_start(s, o) <= k < o ==> s[k] != '\n',
    decreases o,
{
    if o > 0 && s[o - 1] != '\n' {
        lemma_line_start_bounds(s, o - 1);
    }
}

pub proof fn lemma_line_end_bounds(s: Seq<char>, o: int)
    requires
        0 <= o <= s.len(),
    ensures
        o <= line_end(s, o) <= s.len(),
        line_end(s, o) == s.len() || s[line_end(s, o)] == '\n',
        forall|k: int| o <= k < line_end(s, o) ==> s[k] != '\n',
    decreases s.len() - o,
{
    if o < s.len() && s[o] != '\n' {
        lemma_line_end_bounds(s, o + 1);
    }
}

/// A string of `size` spaces.
pub fn spaces(size: u8) -> (r: &'static str)
    ensures
        r@ == Seq::new(size as nat, |i: int| ' '),
{
    proof {
        reveal_strlit(
            "                                                                                                                                                                                                                                                                ",
        );
    }
    let all: &'static str = "                                                                                                                                                                                                                                                                ";
    let r = all.substring_ascii(0, size as usize);
    assert(r@ =~= Seq::new(size as nat, |i: int| ' '));
    r
}

/// Number of decimal digits of `n`.
pub open spec fn decimal_digits(n: nat) -> nat
    decreases n,
{
    if n < 10 {
        1
    } else {
        1 + decimal_digits(n / 10)
    }
}

/// Number of decimal digits needed to write `i` (one for zero).
pub fn num_digits(i: usize) -> (r: u8)
    ensures
        r == decimal_digits(i as nat),
{
    let mut n: usize = i;
    let mut count: u8 = 1;
    proof {
        lemma_digits_below_pow10(i as nat, 20);
    }
    while n >= 10
        invariant
            count + decimal_digits(n as nat) == decimal_digits(i as nat) + 1,
            decimal_digits(i as nat) <= 20,
            1 <= count,
        decreases n,
    {
        n = n / 10;
        count = count + 1;
    }
    count
}

pub open spec fn pow10(k: nat) -> nat
    decreases k,
{
    if k == 0 {
        1
    } else {
        10 * pow10((k - 1) as nat)
    }
}

proof fn lemma_digits_below_pow10(n: nat, k: nat)
    requires
        1 <= k,
        n < pow10(k) || (k == 20 && n <= usize::MAX),
    ensures
        decimal_digits(n) <= k,
    decreases k,
{
    if k == 20 && n <= usize::MAX {
        reveal_with_fuel(pow10, 21);
        assert(pow10(20) == 100000000000000000000nat);
    }
    if n >= 10 {
        let p = pow10((k - 1) as nat);
        assert(n < 10 * p);
        assert(n / 10 < p) by (nonlinear_arith)
            requires
                n < 10 * p,
        ;
        if k - 1 == 0 {
            assert(p == 1);
        } else {
            lemma_digits_below_pow10(n / 10, (k - 1) as nat);
        }
    }
}

/// A position in the text: its row, column and character offset.
#[derive(Debug, Clone)]
pub struct Pos {
    pub row: usize,
    pub col: usize,
    pub offset: usize,
}

impl Pos {
    pub fn new(row: usize, col: usize, offset: usize) -> (r: Self)
        ensures
            r.row == row,
            r.col == col,
            r.offset == offset,
    {
        Self { row, col, offset }
    }
}

/// Offset of the first character of the line holding `offset`.
pub fn find_line_start(offset: usize, chars: &[char]) -> (r: usize)
    requires
        offset <= chars@.len(),
    ensures
        r == line_start(chars@, offset as int),
{
    let mut current_line_start: usize = offset;
    while current_line_start > 0 && chars[current_line_start - 1] != '\n'
        invariant
            current_line_start <= offset <= chars@.len(),
            line_start(chars@, current_line_start as int) == line_start(chars@, offset as int),
        decreases current_line_start,
    {
        current_line_start -= 1;
    }
    current_line_start
}

/// Offset of the last character of the line holding `offset`, the newline
/// excluded.
pub fn find_line_end(offset: usize, chars: &[char]) -> (r: usize)
    requires
        offset <= chars@.len(),
        line_end(chars@, offset as int) > 0,
    ensures
        r == line_end(chars@, offset as int) - 1,
{
    let mut end: usize = offset;
    while end < chars.len() && chars[end] != '\n'
        invariant
            offset <= end <= chars@.len(),
            line_end(chars@, end as int) == line_end(chars@, offset as int),
        decreases chars@.len() - end,
    {
        end += 1;
    }
    end - 1
}

/// Offset of the newline that ends the line holding `o`, or the length of the
/// text on the last line.
pub fn line_end_at(chars: &Vec<char>, o: usize) -> (r: usize)
    requires
        o <= chars@.len(),
    ensures
        r == line_end(chars@, o as int),
        o <= r <= chars@.len(),
{
    let mut end: usize = o;
    while end < chars.len() && chars[end] != '\n'
        invariant
            o <= end <= chars@.len(),
            line_end(chars@, end as int) == line_end(chars@, o as int),
        decreases chars@.len() - end,
    {
        end += 1;
    }
    end
}

/// Number of newlines in `chars`.
pub fn count_newlines_in(chars: &Vec<char>) -> (r: usize)
    ensures
        r == count_newlines(chars@),
{
    let mut n: usize = 0;
    let mut i: usize = 0;
    while i < chars.len()
        invariant
            i <= chars@.len(),
            n == count_newlines(chars@.take(i as int)),
            n <= i,
        decreases chars@.len() - i,
    {
        assert(chars@.take(i + 1).drop_last() =~= chars@.take(i as int));
        if chars[i] == '\n' {
            n += 1;
        }
        i += 1;
    }
    assert(chars@.take(i as int) =~= chars@);
    n
}

} // verus!
