//! Text helpers shared by the query builder and the field corrector:
//! decimal rendering of identifiers, splitting at white space and
//! lower-casing.

use vstd::prelude::*;
use vstd::std_specs::iter::IteratorSpec;

verus! {

/// `String::push` of the standard library appends one character to the end
/// of the string and leaves the characters before it as they were.
pub assume_specification[ String::push ](s: &mut String, c: char)
    ensures
        final(s)@ == old(s)@.push(c),
;

/// The lower-case form of a text as the standard library computes it
/// (Unicode lower-casing, which may change the number of characters).
pub uninterp spec fn lowercase_of(s: Seq<char>) -> Seq<char>;

/// `str::to_lowercase` of the standard library. The result depends on the
/// characters of the argument alone; it is named here, not described.
#[verifier::external_body]
pub(crate) fn to_lowercase(s: &str) -> (r: String)
    ensures
        r@ == lowercase_of(s@),
{
    s.to_lowercase()
}

/// The character that writes the decimal digit `d`.
pub open spec fn digit_char(d: int) -> char {
    if d == 0 {
        '0'
    } else if d == 1 {
        '1'
    } else if d == 2 {
        '2'
    } else if d == 3 {
        '3'
    } else if d == 4 {
        '4'
    } else if d == 5 {
        '5'
    } else if d == 6 {
        '6'
    } else if d == 7 {
        '7'
    } else if d == 8 {
        '8'
    } else {
        '9'
    }
}

/// The decimal numeral of `n`: most significant digit first, no sign, no
/// padding, and the single digit `0` for zero.
pub open spec fn decimal(n: nat) -> Seq<char>
    decreases n,
{
    if n < 10 {
        seq![digit_char(n as int)]
    } else {
        decimal(n / 10).push(digit_char((n % 10) as int))
    }
}

fn digit(d: u64) -> (c: char)
    requires
        d < 10,
    ensures
        c == digit_char(d as int),
{
    if d == 0 {
        '0'
    } else if d == 1 {
        '1'
    } else if d == 2 {
        '2'
    } else if d == 3 {
        '3'
    } else if d == 4 {
        '4'
    } else if d == 5 {
        '5'
    } else if d == 6 {
        '6'
    } else if d == 7 {
        '7'
    } else if d == 8 {
        '8'
    } else {
        '9'
    }
}

/// Appends the decimal numeral of `n` to `out`.
pub fn push_decimal(out: &mut String, n: u64)
    ensures
        final(out)@ == old(out)@ + decimal(n as nat),
    decreases n,
{
    if n >= 10 {
        push_decimal(out, n / 10);
    }
    out.push(digit(n % 10));
    assert(final(out)@ =~= old(out)@ + decimal(n as nat));
}

/// The decimal numeral of `n` as a string.
pub fn to_decimal(n: u64) -> (s: String)
    ensures
        s@ == decimal(n as nat),
{
    let mut s = String::new();
    push_decimal(&mut s, n);
    assert(s@ =~= decimal(n as nat));
    s
}

/// The digit that a character writes; 0 for any character that is no
/// decimal digit.
pub open spec fn digit_value(c: char) -> nat {
    if c == '1' {
        1
    } else if c == '2' {
        2
    } else if c == '3' {
        3
    } else if c == '4' {
        4
    } else if c == '5' {
        5
    } else if c == '6' {
        6
    } else if c == '7' {
        7
    } else if c == '8' {
        8
    } else if c == '9' {
        9
    } else {
        0
    }
}

/// Whether a character is a decimal digit.
pub open spec fn is_digit(c: char) -> bool {
    c == '0' || digit_value(c) > 0
}

/// The number that a sequence of digits writes in base ten.
pub open spec fn numeral_value(digits: Seq<char>) -> nat
    decreases digits.len(),
{
    if digits.len() == 0 {
        0
    } else {
        numeral_value(digits.drop_last()) * 10 + digit_value(digits.last())
    }
}

/// A decimal numeral is made of digits, reads back as the number it was
/// made from, and starts with the digit 0 only where it is the numeral of
/// zero.
pub proof fn lemma_decimal_reads_back(n: nat)
    ensures
        decimal(n).len() >= 1,
        forall|i: int| 0 <= i < decimal(n).len() ==> is_digit(#[trigger] decimal(n)[i]),
        numeral_value(decimal(n)) == n,
        decimal(n)[0] == '0' ==> n == 0,
    decreases n,
{
    if n < 10 {
        assert(decimal(n).drop_last() =~= Seq::<char>::empty());
        assert(numeral_value(decimal(n).drop_last()) == 0);
    } else {
        lemma_decimal_reads_back(n / 10);
        assert(decimal(n).drop_last() =~= decimal(n / 10));
        assert(decimal(n)[0] == decimal(n / 10)[0]);
    }
}

/// Whether a character is white space: a tab, a line feed, a vertical tab,
/// a form feed, a carriage return, a space, a next-line character, a
/// no-break space, or one of the spaces and line or paragraph separators of
/// the higher planes of the character set.
pub open spec fn is_whitespace(c: char) -> bool {
    let n = c as u32;
    ||| 0x0009 <= n <= 0x000D
    ||| n == 0x0020
    ||| n == 0x0085
    ||| n == 0x00A0
    ||| n == 0x1680
    ||| 0x2000 <= n <= 0x200A
    ||| n == 0x2028
    ||| n == 0x2029
    ||| n == 0x202F
    ||| n == 0x205F
    ||| n == 0x3000
}

/// Whether a character is white space.
pub fn is_space(c: char) -> (white: bool)
    ensures
        white == is_whitespace(c),
{
    let n: u32 = c as u32;
    (0x0009 <= n && n <= 0x000D) || n == 0x0020 || n == 0x0085 || n == 0x00A0 || n == 0x1680 || (
    0x2000 <= n && n <= 0x200A) || n == 0x2028 || n == 0x2029 || n == 0x202F || n == 0x205F || n
        == 0x3000
}

/// The pieces of `s` between its white-space characters, in order. A text
/// without white space is one piece; two white-space characters in a row,
/// and one at either end, give an empty piece. There is always one piece
/// more than there are white-space characters.
pub open spec fn split_whitespace(s: Seq<char>) -> Seq<Seq<char>>
    decreases s.len(),
{
    if s.len() == 0 {
        seq![Seq::<char>::empty()]
    } else {
        let before = split_whitespace(s.drop_last());
        if is_whitespace(s.last()) {
            before.push(Seq::<char>::empty())
        } else {
            before.drop_last().push(before.last().push(s.last()))
        }
    }
}

/// The white-space characters of a text, in order.
pub open spec fn separators(s: Seq<char>) -> Seq<char>
    decreases s.len(),
{
    if s.len() == 0 {
        Seq::<char>::empty()
    } else if is_whitespace(s.last()) {
        separators(s.drop_last()).push(s.last())
    } else {
        separators(s.drop_last())
    }
}

/// The pieces put together again, with one character of `between` after
/// each piece but the last.
pub open spec fn weave(pieces: Seq<Seq<char>>, between: Seq<char>) -> Seq<char>
    decreases pieces.len(),
{
    if pieces.len() == 0 {
        Seq::<char>::empty()
    } else if pieces.len() == 1 {
        pieces[0]
    } else {
        weave(pieces.drop_last(), between.drop_last()).push(between.last()) + pieces.last()
    }
}

/// Splitting loses nothing and cuts at every white-space character: there
/// is one piece more than there are white-space characters, no piece holds
/// one, and the pieces with the white-space characters of the text put
/// between them are the text again.
pub proof fn lemma_split_weaves_back(s: Seq<char>)
    ensures
        split_whitespace(s).len() == separators(s).len() + 1,
        forall|i: int, j: int|
            0 <= i < split_whitespace(s).len() && 0 <= j < split_whitespace(s)[i].len()
                ==> !is_whitespace(#[trigger] split_whitespace(s)[i][j]),
        weave(split_whitespace(s), separators(s)) == s,
    decreases s.len(),
{
    if s.len() == 0 {
        assert(weave(split_whitespace(s), separators(s)) =~= s);
    } else {
        let before = split_whitespace(s.drop_last());
        let gaps = separators(s.drop_last());
        let pieces = split_whitespace(s);
        lemma_split_weaves_back(s.drop_last());
        assert(s.drop_last().push(s.last()) =~= s);
        if is_whitespace(s.last()) {
            assert(pieces.drop_last() =~= before);
            assert(separators(s).drop_last() =~= gaps);
            assert(weave(pieces, separators(s)) =~= s.drop_last().push(s.last())
                + Seq::<char>::empty());
            assert(weave(pieces, separators(s)) =~= s);
        } else {
            let grown = before.last().push(s.last());
            assert(pieces.last() == grown);
            assert(pieces.drop_last() =~= before.drop_last());
            if before.len() == 1 {
                assert(before.last() == before[0]);
                assert(weave(before, gaps) == before[0]);
                assert(weave(pieces, gaps) =~= s.drop_last().push(s.last()));
            } else {
                assert(weave(before, gaps) == weave(before.drop_last(), gaps.drop_last()).push(
                    gaps.last(),
                ) + before.last());
                assert(weave(pieces, gaps) =~= weave(before, gaps).push(s.last()));
            }
            assert forall|i: int, j: int|
                0 <= i < pieces.len() && 0 <= j < pieces[i].len() implies !is_whitespace(
                #[trigger] pieces[i][j],
            ) by {
                if i < pieces.len() - 1 {
                    assert(pieces[i] == before[i]);
                } else if j < before.last().len() {
                    assert(pieces[i][j] == before[before.len() - 1][j]);
                }
            }
        }
    }
}

/// The views of a vector of strings.
pub open spec fn views(v: Seq<String>) -> Seq<Seq<char>> {
    v.map_values(|s: String| s@)
}

/// Splits `s` at every white-space character, keeping empty pieces.
pub fn split(s: &str) -> (pieces: Vec<String>)
    ensures
        views(pieces@) == split_whitespace(s@),
{
    let mut done: Vec<String> = Vec::new();
    let mut piece = String::new();
    for c in it: s.chars()
        invariant
            it.seq() == s@,
            views(done@).push(piece@) == split_whitespace(s@.take(it.index() as int)),
    {
        let ghost k = it.index() as int;
        let ghost before = s@.take(k);
        let ghost now = s@.take(k + 1);
        assert(now.drop_last() =~= before);
        assert(now.last() == c);
        if is_space(c) {
            let ghost old_done = done@;
            let ghost closed = piece@;
            done.push(piece);
            piece = String::new();
            assert(views(done@) =~= views(old_done).push(closed));
            assert(views(done@).push(piece@) =~= split_whitespace(now));
        } else {
            let ghost old_piece = piece@;
            piece.push(c);
            assert(views(done@).push(old_piece).drop_last() =~= views(done@));
            assert(views(done@).push(piece@) =~= split_whitespace(now));
        }
    }
    assert(s@.take(s@.len() as int) =~= s@);
    let ghost old_done = done@;
    let ghost closed = piece@;
    done.push(piece);
    assert(views(done@) =~= views(old_done).push(closed));
    done
}

} // verus!
