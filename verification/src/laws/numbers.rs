//! What numbers and texts mean.

use crate::arith::{div_toward_zero, fits, or_zero, or_zero64, sat_i32, share};
use crate::text::{
    begins_with, decimal, digits_value, is_digit, is_list_separator, is_space, list_pieces, number,
    number_or_zero, param, pieces, pieces_nonempty, trimmed, trimmed_end, trimmed_start,
    unsigned_part,
};
use vstd::prelude::*;

verus! {

/// Arithmetic that saturates is exact within the range of numbers and stops at its ends.
pub proof fn saturation(x: int)
    ensures
        -0x8000_0000 <= x <= 0x7fff_ffff ==> sat_i32(x) == x,
        x > 0x7fff_ffff ==> sat_i32(x) == 0x7fff_ffff,
        x < -0x8000_0000 ==> sat_i32(x) == -0x8000_0000,
        fits(x) <==> -0x8000_0000 <= x <= 0x7fff_ffff,
{
}

/// A value that is not given counts as zero.
pub proof fn values_that_are_not_given(x: i32, y: i64)
    ensures
        or_zero(Some(x)) == x,
        or_zero(None) == 0,
        or_zero64(Some(y)) == y,
        or_zero64(None) == 0,
{
}

/// A quotient leaves a rest that is smaller than the divisor and has the sign of the
/// dividend.
pub proof fn division_leaves_a_small_rest(a: int, b: int)
    requires
        b > 0,
    ensures
        a >= 0 ==> 0 <= a - div_toward_zero(a, b) * b < b,
        a <= 0 ==> -b < a - div_toward_zero(a, b) * b <= 0,
{
    if a >= 0 {
        vstd::arithmetic::div_mod::lemma_fundamental_div_mod(a, b);
        vstd::arithmetic::div_mod::lemma_mod_bound(a, b);
        assert(b * (a / b) == (a / b) * b) by (nonlinear_arith);
        if a == 0 {
            assert(0int / b == 0) by (nonlinear_arith)
                requires
                    b > 0,
            ;
        }
    } else {
        vstd::arithmetic::div_mod::lemma_fundamental_div_mod(-a, b);
        vstd::arithmetic::div_mod::lemma_mod_bound(-a, b);
        assert(b * ((-a) / b) == -((-((-a) / b)) * b)) by (nonlinear_arith);
    }
}

/// A share of a number leaves a rest that is smaller than one unit.
pub proof fn shares_leave_a_small_rest(a: int, parts: int, unit: int)
    requires
        unit > 0,
    ensures
        a * parts >= 0 ==> 0 <= a * parts - share(a, parts, unit) * unit < unit,
        a * parts <= 0 ==> -unit < a * parts - share(a, parts, unit) * unit <= 0,
{
    division_leaves_a_small_rest(a * parts, unit);
}

/// The text consists of digits, and of at least one.
pub open spec fn of_digits(s: Seq<char>) -> bool {
    s.len() > 0 && forall|k: int| 0 <= k < s.len() ==> '0' <= #[trigger] s[k] <= '9'
}

proof fn digits_of(s: Seq<char>)
    requires
        of_digits(s),
    ensures
        unsigned_part(s) == s,
        forall|k: int| 0 <= k < s.len() ==> is_digit(#[trigger] s[k]),
        unsigned_part(seq!['-'] + s) =~= s,
        unsigned_part(seq!['+'] + s) =~= s,
{
    assert('0' <= s[0] <= '9');
    assert((seq!['-'] + s).skip(1) =~= s);
    assert((seq!['+'] + s).skip(1) =~= s);
    assert((seq!['-'] + s)[0] == '-');
    assert((seq!['+'] + s)[0] == '+');
}

/// A number is read digit by digit, each counting ten times as much as the next. One that
/// is out of range is none.
pub proof fn numbers_are_read_digit_by_digit(s: Seq<char>, c: char)
    requires
        of_digits(s),
        '0' <= c <= '9',
    ensures
        ({
            let digit = c as u32 - '0' as u32;
            let longer = number(s.push(c));
            &&& number(seq![c]) == Some(digit as i32)
            &&& number(s) is None ==> longer is None
            &&& number(s) is Some && fits(number(s)->0 * 10 + digit) ==> longer == Some(
                (number(s)->0 * 10 + digit) as i32,
            )
            &&& number(s) is Some && !fits(number(s)->0 * 10 + digit) ==> longer is None
        }),
{
    let one = seq![c];
    assert(one[0] == c);
    digits_of(one);
    digits_of(s);
    assert forall|k: int| 0 <= k < s.push(c).len() implies '0' <= #[trigger] s.push(c)[k] <= '9' by {
        if k < s.len() {
            assert(s.push(c)[k] == s[k]);
        }
    }
    digits_of(s.push(c));
    assert(s.push(c).drop_last() =~= s);
    assert(one.drop_last() =~= Seq::<char>::empty());
    assert(digits_value(one.drop_last()) == 0);
    assert(one.last() == c);
    assert(s.push(c).last() == c);
    assert(s[0] != '-');
    assert(s.push(c)[0] == s[0]);
}

/// A number with a minus is read the same way, below zero. A plus changes nothing.
pub proof fn signs_of_numbers(s: Seq<char>, c: char)
    requires
        of_digits(s),
        '0' <= c <= '9',
    ensures
        ({
            let digit = c as u32 - '0' as u32;
            let n = number(seq!['-'] + s);
            let longer = number(seq!['-'] + s.push(c));
            &&& number(seq!['-'] + seq![c]) == Some((-digit) as i32)
            &&& n is None ==> longer is None
            &&& n is Some && fits(n->0 * 10 - digit) ==> longer == Some((n->0 * 10 - digit) as i32)
            &&& n is Some && !fits(n->0 * 10 - digit) ==> longer is None
            &&& number(seq!['+'] + s) == number(s)
        }),
{
    let one = seq![c];
    assert(one[0] == c);
    digits_of(one);
    digits_of(s);
    assert forall|k: int| 0 <= k < s.push(c).len() implies '0' <= #[trigger] s.push(c)[k] <= '9' by {
        if k < s.len() {
            assert(s.push(c)[k] == s[k]);
        }
    }
    digits_of(s.push(c));
    assert(s.push(c).drop_last() =~= s);
    assert(one.drop_last() =~= Seq::<char>::empty());
    assert(digits_value(one.drop_last()) == 0);
    assert(one.last() == c);
    assert(s.push(c).last() == c);
    assert((seq!['-'] + s)[0] == '-');
    assert((seq!['-'] + one)[0] == '-');
    assert((seq!['-'] + s.push(c))[0] == '-');
    assert((seq!['+'] + s)[0] == '+');
    assert(s[0] != '-');
}

/// Nothing but digits behind at most one sign is a number, and what is none counts as zero.
pub proof fn only_digits_are_numbers(s: Seq<char>)
    ensures
        number(s) is Some ==> of_digits(s) || (s.len() > 0 && (s[0] == '-' || s[0] == '+')
            && of_digits(s.skip(1))),
        number(s) is Some ==> number_or_zero(s) == number(s)->0,
        number(s) is None ==> number_or_zero(s) == 0,
        number(Seq::empty()) is None,
{
    let digits = unsigned_part(s);
    if number(s) is Some {
        assert forall|k: int| 0 <= k < digits.len() implies '0' <= #[trigger] digits[k] <= '9' by {
            assert(is_digit(digits[k]));
        }
    }
}

/// A text without the separator is one piece. A separator between two texts separates their
/// pieces.
pub proof fn separators_separate(a: Seq<char>, b: Seq<char>, sep: char)
    ensures
        !a.contains(sep) ==> pieces(a, sep) == seq![a],
        pieces(a.push(sep) + b, sep) == pieces(a, sep) + pieces(b, sep),
    decreases a.len() + b.len(),
{
    if !a.contains(sep) {
        one_piece(a, sep);
    }
    pieces_nonempty(a, sep);
    pieces_nonempty(b, sep);
    if b.len() == 0 {
        assert(a.push(sep) + b =~= a.push(sep));
        assert(a.push(sep).drop_last() =~= a);
        assert(pieces(a.push(sep) + b, sep) =~= pieces(a, sep) + pieces(b, sep));
    } else {
        separators_separate(a, b.drop_last(), sep);
        pieces_nonempty(b.drop_last(), sep);
        assert((a.push(sep) + b).drop_last() =~= a.push(sep) + b.drop_last());
        assert(pieces(a.push(sep) + b, sep) =~= pieces(a, sep) + pieces(b, sep));
    }
}

proof fn one_piece(a: Seq<char>, sep: char)
    requires
        !a.contains(sep),
    ensures
        pieces(a, sep) == seq![a],
    decreases a.len(),
{
    if a.len() == 0 {
        assert(a =~= Seq::<char>::empty());
        assert(pieces(a, sep) =~= seq![a]);
    } else {
        assert forall|i: int| 0 <= i < a.len() - 1 implies a.drop_last()[i] != sep by {
            assert(a.contains(a[i]));
        }
        assert(!a.drop_last().contains(sep));
        one_piece(a.drop_last(), sep);
        assert(a.contains(a.last()));
        assert(a.drop_last().push(a.last()) =~= a);
        assert(pieces(a.drop_last(), sep).last() == a.drop_last());
        assert(pieces(a, sep) =~= pieces(a.drop_last(), sep).update(0, a));
        assert(pieces(a, sep) =~= seq![a]);
    }
}

/// The separators of a list are a bar, a comma, a semicolon and a hash; each of them
/// separates pieces, and nothing else does.
pub proof fn list_separators_separate(a: Seq<char>, b: Seq<char>, sep: char)
    ensures
        sep == '|' || sep == ',' || sep == ';' || sep == '#' ==> list_pieces(a.push(sep) + b)
            == list_pieces(a) + list_pieces(b),
        !a.contains('|') && !a.contains(',') && !a.contains(';') && !a.contains('#')
            ==> list_pieces(a) == seq![a],
    decreases a.len() + b.len(),
{
    list_pieces_nonempty(a);
    list_pieces_nonempty(b);
    if !a.contains('|') && !a.contains(',') && !a.contains(';') && !a.contains('#') {
        if a.len() == 0 {
            assert(a =~= Seq::<char>::empty());
            assert(list_pieces(a) =~= seq![a]);
        } else {
            let less = a.drop_last();
            assert forall|c: char| less.contains(c) implies a.contains(c) by {
                let i = choose|i: int| 0 <= i < less.len() && less[i] == c;
                assert(a[i] == c);
            }
            list_separators_separate(less, Seq::empty(), sep);
            assert(a.contains(a.last()));
            assert(less.push(a.last()) =~= a);
            assert(list_pieces(less).last() == less);
            assert(list_pieces(a) =~= list_pieces(less).update(0, a));
            assert(list_pieces(a) =~= seq![a]);
        }
    }
    if is_list_separator(sep) {
        if b.len() == 0 {
            assert(a.push(sep) + b =~= a.push(sep));
            assert(a.push(sep).drop_last() =~= a);
            assert(list_pieces(a.push(sep) + b) =~= list_pieces(a) + list_pieces(b));
        } else {
            list_separators_separate(a, b.drop_last(), sep);
            list_pieces_nonempty(b.drop_last());
            assert((a.push(sep) + b).drop_last() =~= a.push(sep) + b.drop_last());
            assert(list_pieces(a.push(sep) + b) =~= list_pieces(a) + list_pieces(b));
        }
    }
}

proof fn list_pieces_nonempty(s: Seq<char>)
    ensures
        list_pieces(s).len() >= 1,
    decreases s.len(),
{
    if s.len() > 0 {
        list_pieces_nonempty(s.drop_last());
    }
}

/// The parameters of a text stand between hashes, counted from zero. One that is not there
/// or is no number counts as zero.
pub proof fn parameters_of_a_text(a: Seq<char>, b: Seq<char>, i: int)
    requires
        !a.contains('#'),
    ensures
        param(a, 0) == number_or_zero(a),
        i != 0 ==> param(a, i) == 0,
        param(a.push('#') + b, 0) == number_or_zero(a),
        i >= 0 ==> param(a.push('#') + b, i + 1) == param(b, i),
        i < 0 ==> param(b, i) == 0,
{
    separators_separate(a, b, '#');
    pieces_nonempty(b, '#');
    assert(pieces(a, '#')[0] == a);
    assert((pieces(a, '#') + pieces(b, '#'))[0] == a);
    if 0 <= i < pieces(b, '#').len() {
        assert((pieces(a, '#') + pieces(b, '#'))[i + 1] == pieces(b, '#')[i]);
    }
}

/// Trimming takes away the spaces at both ends and nothing else.
pub proof fn trimming_takes_the_outer_spaces(s: Seq<char>)
    ensures
        exists|i: int, j: int|
            #![trigger s.subrange(i, j)]
            0 <= i <= j <= s.len() && trimmed(s) == s.subrange(i, j) && (forall|k: int|
                0 <= k < i ==> is_space(#[trigger] s[k])) && (forall|k: int|
                j <= k < s.len() ==> is_space(#[trigger] s[k])),
        trimmed(s).len() > 0 ==> !is_space(trimmed(s)[0]) && !is_space(trimmed(s).last()),
{
    let i = start_of(s);
    let t = trimmed_start(s);
    let j = end_of(t);
    assert(trimmed(s) =~= s.subrange(i, i + j));
    assert forall|k: int| i + j <= k < s.len() implies is_space(#[trigger] s[k]) by {
        assert(t[k - i] == s[k]);
    }
    if trimmed(s).len() > 0 {
        assert(trimmed(s)[0] == t[0]);
    }
}

proof fn start_of(s: Seq<char>) -> (i: int)
    ensures
        0 <= i <= s.len(),
        trimmed_start(s) == s.skip(i),
        forall|k: int| 0 <= k < i ==> is_space(#[trigger] s[k]),
        i < s.len() ==> !is_space(s[i]),
    decreases s.len(),
{
    if s.len() > 0 && is_space(s[0]) {
        let i = start_of(s.skip(1));
        assert(s.skip(1).skip(i) =~= s.skip(i + 1));
        assert forall|k: int| 0 <= k < i + 1 implies is_space(#[trigger] s[k]) by {
            if k > 0 {
                assert(s.skip(1)[k - 1] == s[k]);
            }
        }
        i + 1
    } else {
        assert(s.skip(0) =~= s);
        0
    }
}

proof fn end_of(s: Seq<char>) -> (j: int)
    ensures
        0 <= j <= s.len(),
        trimmed_end(s) == s.take(j),
        forall|k: int| j <= k < s.len() ==> is_space(#[trigger] s[k]),
        j > 0 ==> !is_space(s[j - 1]),
    decreases s.len(),
{
    if s.len() > 0 && is_space(s.last()) {
        let j = end_of(s.drop_last());
        assert(s.drop_last().take(j) =~= s.take(j));
        assert forall|k: int| j <= k < s.len() implies is_space(#[trigger] s[k]) by {
            if k < s.len() - 1 {
                assert(s.drop_last()[k] == s[k]);
            }
        }
        j
    } else {
        assert(s.take(s.len() as int) =~= s);
        s.len() as int
    }
}

/// Blanks, tabs and line ends are spaces; nothing that can be printed in one byte is.
pub proof fn what_a_space_is(c: char)
    ensures
        c == ' ' || c == '\t' || c == '\n' || c == '\r' ==> is_space(c),
        '!' <= c <= '~' ==> !is_space(c),
{
}

/// A text begins with a prefix exactly if it is the prefix and something behind it.
pub proof fn prefixes_of_texts(s: Seq<char>, prefix: Seq<char>)
    ensures
        begins_with(s, prefix) ==> s == prefix + s.skip(prefix.len() as int),
        begins_with(prefix + s, prefix),
        (prefix + s).skip(prefix.len() as int) == s,
{
    assert((prefix + s).take(prefix.len() as int) =~= prefix);
    assert((prefix + s).skip(prefix.len() as int) =~= s);
    if begins_with(s, prefix) {
        assert(s =~= prefix + s.skip(prefix.len() as int));
    }
}

/// A number above zero is spelled without a leading zero.
pub proof fn no_leading_zeros(n: nat)
    ensures
        decimal(n).len() > 0,
        n > 0 ==> decimal(n)[0] != '0',
    decreases n,
{
    if n >= 10 {
        no_leading_zeros(n / 10);
        assert(decimal(n)[0] == decimal(n / 10)[0]);
    }
}

} // verus!
