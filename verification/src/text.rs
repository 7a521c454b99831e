//! The small text grammar of the game tables: numbers joined by separators.

use vstd::prelude::*;
use vstd::string::*;

verus! {

/// The pieces of a text between the occurrences of a separator. There is always
/// one more piece than there are separators; pieces may be empty.
pub open spec fn pieces(s: Seq<char>, sep: char) -> Seq<Seq<char>>
    decreases s.len(),
{
    if s.len() == 0 {
        seq![Seq::<char>::empty()]
    } else {
        let before = pieces(s.drop_last(), sep);
        if s.last() == sep {
            before.push(Seq::<char>::empty())
        } else {
            before.update(before.len() - 1, before.last().push(s.last()))
        }
    }
}

/// There is at least one piece.
pub proof fn pieces_nonempty(s: Seq<char>, sep: char)
    ensures
        pieces(s, sep).len() >= 1,
    decreases s.len(),
{
    if s.len() > 0 {
        pieces_nonempty(s.drop_last(), sep);
    }
}

/// The texts of a list, each by its characters.
pub open spec fn texts_view(v: Seq<String>) -> Seq<Seq<char>> {
    Seq::new(v.len(), |i: int| v[i]@)
}

/// The characters of a text.
pub fn chars_of(s: &str) -> (r: Vec<char>)
    ensures
        r@ == s@,
{
    let mut r: Vec<char> = Vec::new();
    for c in it: s.chars()
        invariant
            r@ == it.seq().take(it.index()),
            it.seq() == s@,
    {
        assert(it.seq().take(it.index() + 1) =~= it.seq().take(it.index()).push(c));
        r.push(c);
    }
    assert(s@.take(s@.len() as int) =~= s@);
    r
}

/// Splits a text at a separator.
pub fn split_text(s: &str, sep: char) -> (r: Vec<String>)
    ensures
        texts_view(r@) == pieces(s@, sep),
{
    let chars = chars_of(s);
    let mut r: Vec<String> = Vec::new();
    let mut start: usize = 0;
    let mut i: usize = 0;
    assert(s@.take(0).len() == 0);
    assert(s@.subrange(0, 0) =~= Seq::<char>::empty());
    assert(texts_view(r@).push(s@.subrange(0, 0)) =~= pieces(s@.take(0), sep));
    while i < chars.len()
        invariant
            start <= i <= chars.len(),
            chars@ == s@,
            texts_view(r@).push(s@.subrange(start as int, i as int)) == pieces(
                s@.take(i as int),
                sep,
            ),
        decreases chars.len() - i,
    {
        let ghost before = texts_view(r@).push(s@.subrange(start as int, i as int));
        assert(s@.take(i + 1).drop_last() =~= s@.take(i as int));
        assert(s@.take(i + 1).last() == s@[i as int]);
        if chars[i] == sep {
            r.push(s.substring_char(start, i).to_owned());
            start = i + 1;
            assert(texts_view(r@) =~= before);
            assert(s@.subrange(start as int, i + 1) =~= Seq::<char>::empty());
            assert(texts_view(r@).push(s@.subrange(start as int, i + 1)) =~= before.push(
                Seq::<char>::empty(),
            ));
        } else {
            assert(s@.subrange(start as int, i + 1) =~= s@.subrange(start as int, i as int).push(
                s@[i as int],
            ));
            assert(texts_view(r@).push(s@.subrange(start as int, i + 1)) =~= before.update(
                before.len() - 1,
                before.last().push(s@[i as int]),
            ));
        }
        i += 1;
    }
    let ghost before = texts_view(r@);
    r.push(s.substring_char(start, i).to_owned());
    assert(s@.take(s@.len() as int) =~= s@);
    assert(texts_view(r@) =~= before.push(s@.subrange(start as int, i as int)));
    r
}

/// Whether a character separates the entries of a loose list.
pub open spec fn is_list_separator(c: char) -> bool {
    c == '|' || c == ',' || c == ';' || c == '#'
}

/// The entries of a loose list.
pub open spec fn list_pieces(s: Seq<char>) -> Seq<Seq<char>>
    decreases s.len(),
{
    if s.len() == 0 {
        seq![Seq::<char>::empty()]
    } else {
        let before = list_pieces(s.drop_last());
        if is_list_separator(s.last()) {
            before.push(Seq::<char>::empty())
        } else {
            before.update(before.len() - 1, before.last().push(s.last()))
        }
    }
}

/// Splits a loose list.
pub fn split_list(s: &str) -> (r: Vec<String>)
    ensures
        texts_view(r@) == list_pieces(s@),
{
    let chars = chars_of(s);
    let mut r: Vec<String> = Vec::new();
    let mut start: usize = 0;
    let mut i: usize = 0;
    assert(s@.take(0).len() == 0);
    assert(s@.subrange(0, 0) =~= Seq::<char>::empty());
    assert(texts_view(r@).push(s@.subrange(0, 0)) =~= list_pieces(s@.take(0)));
    while i < chars.len()
        invariant
            start <= i <= chars.len(),
            chars@ == s@,
            texts_view(r@).push(s@.subrange(start as int, i as int)) == list_pieces(
                s@.take(i as int),
            ),
        decreases chars.len() - i,
    {
        let ghost before = texts_view(r@).push(s@.subrange(start as int, i as int));
        assert(s@.take(i + 1).drop_last() =~= s@.take(i as int));
        assert(s@.take(i + 1).last() == s@[i as int]);
        let c = chars[i];
        if c == '|' || c == ',' || c == ';' || c == '#' {
            r.push(s.substring_char(start, i).to_owned());
            start = i + 1;
            assert(texts_view(r@) =~= before);
            assert(s@.subrange(start as int, i + 1) =~= Seq::<char>::empty());
            assert(texts_view(r@).push(s@.subrange(start as int, i + 1)) =~= before.push(
                Seq::<char>::empty(),
            ));
        } else {
            assert(s@.subrange(start as int, i + 1) =~= s@.subrange(start as int, i as int).push(
                s@[i as int],
            ));
            assert(texts_view(r@).push(s@.subrange(start as int, i + 1)) =~= before.update(
                before.len() - 1,
                before.last().push(s@[i as int]),
            ));
        }
        i += 1;
    }
    let ghost before = texts_view(r@);
    r.push(s.substring_char(start, i).to_owned());
    assert(s@.take(s@.len() as int) =~= s@);
    assert(texts_view(r@) =~= before.push(s@.subrange(start as int, i as int)));
    r
}

/// Whether a character is a decimal digit.
pub open spec fn is_digit(c: char) -> bool {
    '0' <= c <= '9'
}

/// The value of a row of decimal digits.
pub open spec fn digits_value(s: Seq<char>) -> nat
    decreases s.len(),
{
    if s.len() == 0 {
        0
    } else {
        (digits_value(s.drop_last()) * 10 + (s.last() as u32 - '0' as u32)) as nat
    }
}

/// The digits of a number text: what follows its sign, if it has one.
pub open spec fn unsigned_part(s: Seq<char>) -> Seq<char> {
    if s.len() > 0 && (s[0] == '-' || s[0] == '+') {
        s.skip(1)
    } else {
        s
    }
}

/// The number that a text spells: an optional sign and at least one digit, in the
/// range of `i32`.
pub open spec fn number(s: Seq<char>) -> Option<i32> {
    let digits = unsigned_part(s);
    if digits.len() == 0 || !(forall|k: int| 0 <= k < digits.len() ==> is_digit(#[trigger] digits[k])) {
        None
    } else {
        let magnitude = digits_value(digits);
        let value = if s[0] == '-' {
            -(magnitude as int)
        } else {
            magnitude as int
        };
        if i32::MIN <= value <= i32::MAX {
            Some(value as i32)
        } else {
            None
        }
    }
}

/// Reads a number.
pub fn parse_number(s: &str) -> (r: Option<i32>)
    ensures
        r == number(s@),
{
    let chars = chars_of(s);
    let n = chars.len();
    let signed: bool = n > 0 && (chars[0] == '-' || chars[0] == '+');
    let negative: bool = n > 0 && chars[0] == '-';
    let start: usize = if signed {
        1
    } else {
        0
    };
    let ghost digits = unsigned_part(s@);
    assert(digits =~= s@.skip(start as int));
    if n == start {
        return None;
    }
    let limit: i64 = 2147483648;
    let mut value: i64 = 0;
    let mut large: bool = false;
    let mut i: usize = start;
    assert(digits.take(0).len() == 0);
    while i < n
        invariant
            n == chars.len(),
            chars@ == s@,
            start <= i <= n,
            start <= 1,
            digits == s@.skip(start as int),
            digits == unsigned_part(s@),
            digits.len() > 0,
            limit == 2147483648,
            forall|k: int| 0 <= k < i - start ==> is_digit(#[trigger] digits[k]),
            !large ==> value == digits_value(digits.take(i - start)),
            0 <= value <= limit,
            large ==> digits_value(digits.take(i - start)) > limit,
        decreases n - i,
    {
        let c = chars[i];
        assert(c == digits[i - start]);
        assert(digits.take(i - start + 1).drop_last() =~= digits.take(i - start));
        if c < '0' || c > '9' {
            assert(!is_digit(digits[i - start]));
            return None;
        }
        assert(is_digit(digits[i - start]));
        if !large {
            let next: i64 = value * 10 + (c as u32 - '0' as u32) as i64;
            if next > limit {
                large = true;
            } else {
                value = next;
            }
        }
        i += 1;
    }
    assert(digits.take(digits.len() as int) =~= digits);
    if large {
        return None;
    }
    if negative {
        Some((0 - value) as i32)
    } else if value < limit {
        Some(value as i32)
    } else {
        None
    }
}

/// Reads a number; anything else counts as zero.
pub open spec fn number_or_zero(s: Seq<char>) -> i32 {
    match number(s) {
        Some(n) => n,
        None => 0,
    }
}

/// The number in one piece of a parameter list; a missing piece or one that is no
/// number counts as zero.
pub open spec fn param(raw: Seq<char>, index: int) -> i32 {
    let parts = pieces(raw, '#');
    if 0 <= index < parts.len() {
        number_or_zero(parts[index])
    } else {
        0
    }
}

/// Reads one piece of a parameter list whose pieces are at hand.
pub fn piece_number(parts: &Vec<String>, index: usize) -> (r: Option<i32>)
    ensures
        r == (if index < parts@.len() {
            number(parts@[index as int]@)
        } else {
            None
        }),
{
    if index < parts.len() {
        parse_number(parts[index].as_str())
    } else {
        None
    }
}

/// Reads one number of a parameter list; see [`param`].
pub fn param_at(raw: &str, index: usize) -> (r: i32)
    ensures
        r == param(raw@, index as int),
{
    let parts = split_text(raw, '#');
    assert(texts_view(parts@).len() == parts@.len());
    match piece_number(&parts, index) {
        Some(n) => n,
        None => 0,
    }
}

/// Whether a character is white space.
pub open spec fn is_space(c: char) -> bool {
    let u = c as u32;
    ||| 0x9 <= u <= 0xd
    ||| u == 0x20
    ||| u == 0x85
    ||| u == 0xa0
    ||| u == 0x1680
    ||| 0x2000 <= u <= 0x200a
    ||| u == 0x2028
    ||| u == 0x2029
    ||| u == 0x202f
    ||| u == 0x205f
    ||| u == 0x3000
}

/// A text without the white space at its end.
pub open spec fn trimmed_end(s: Seq<char>) -> Seq<char>
    decreases s.len(),
{
    if s.len() > 0 && is_space(s.last()) {
        trimmed_end(s.drop_last())
    } else {
        s
    }
}

/// A text without the white space at its start.
pub open spec fn trimmed_start(s: Seq<char>) -> Seq<char>
    decreases s.len(),
{
    if s.len() > 0 && is_space(s[0]) {
        trimmed_start(s.skip(1))
    } else {
        s
    }
}

/// A text without the white space around it.
pub open spec fn trimmed(s: Seq<char>) -> Seq<char> {
    trimmed_end(trimmed_start(s))
}

fn space(c: char) -> (r: bool)
    ensures
        r == is_space(c),
{
    let u: u32 = c as u32;
    (0x9 <= u && u <= 0xd) || u == 0x20 || u == 0x85 || u == 0xa0 || u == 0x1680 || (0x2000 <= u && u
        <= 0x200a) || u == 0x2028 || u == 0x2029 || u == 0x202f || u == 0x205f || u == 0x3000
}

/// Strips the white space around a text.
pub fn trim_text(s: &str) -> (r: String)
    ensures
        r@ == trimmed(s@),
{
    let chars = chars_of(s);
    let n = chars.len();
    let mut a: usize = 0;
    assert(s@.skip(0) =~= s@);
    while a < n && space(chars[a])
        invariant
            n == chars.len(),
            chars@ == s@,
            a <= n,
            trimmed_start(s@.skip(a as int)) == trimmed_start(s@),
        decreases n - a,
    {
        assert(s@.skip(a as int).skip(1) =~= s@.skip(a + 1));
        assert(s@.skip(a as int)[0] == s@[a as int]);
        a += 1;
    }
    let ghost rest = s@.skip(a as int);
    assert(trimmed_start(s@) == rest) by {
        if a < n {
            assert(rest[0] == s@[a as int]);
        }
    }
    let mut b: usize = n;
    assert(s@.subrange(a as int, n as int) =~= rest);
    while b > a && space(chars[b - 1])
        invariant
            n == chars.len(),
            chars@ == s@,
            a <= b <= n,
            trimmed_end(s@.subrange(a as int, b as int)) == trimmed_end(rest),
        decreases b,
    {
        assert(s@.subrange(a as int, b as int).drop_last() =~= s@.subrange(a as int, b - 1));
        b -= 1;
    }
    s.substring_char(a, b).to_owned()
}

/// Whether a text starts with a prefix.
pub open spec fn begins_with(s: Seq<char>, prefix: Seq<char>) -> bool {
    prefix.len() <= s.len() && s.take(prefix.len() as int) == prefix
}

/// What follows a prefix; nothing is returned for a text that does not have it.
pub fn after_prefix(s: &str, prefix: &str) -> (r: Option<String>)
    ensures
        r is Some <==> begins_with(s@, prefix@),
        r is Some ==> r->0@ == s@.skip(prefix@.len() as int),
{
    let chars = chars_of(s);
    let head = chars_of(prefix);
    if head.len() > chars.len() {
        return None;
    }
    for i in 0..head.len()
        invariant
            chars@ == s@,
            head@ == prefix@,
            head@.len() <= chars@.len(),
            forall|k: int| 0 <= k < i ==> s@[k] == prefix@[k],
    {
        if chars[i] != head[i] {
            assert(s@.take(prefix@.len() as int)[i as int] != prefix@[i as int]);
            return None;
        }
    }
    assert(s@.take(prefix@.len() as int) =~= prefix@);
    assert(s@.skip(prefix@.len() as int) =~= s@.subrange(prefix@.len() as int, s@.len() as int));
    Some(s.substring_char(head.len(), chars.len()).to_owned())
}

/// Compares a text with a fixed one.
pub fn text_is(s: &String, other: &str) -> (r: bool)
    ensures
        r == (s@ == other@),
{
    *s == other.to_owned()
}

/// The character of a decimal digit.
pub open spec fn digit_char(d: int) -> char {
    if d == 0 {
        '0'
    } else if d == 1 {
        '1'
    } else if d == 2 {
        '2'
    } else if d == 3 {
        '3'
    } else if d == 4 {
        '4'
    } else if d == 5 {
        '5'
    } else if d == 6 {
        '6'
    } else if d == 7 {
        '7'
    } else if d == 8 {
        '8'
    } else {
        '9'
    }
}

/// A number spelled with decimal digits, without a leading zero.
pub open spec fn decimal(n: nat) -> Seq<char>
    decreases n,
{
    if n < 10 {
        seq![digit_char(n as int)]
    } else {
        decimal(n / 10).push(digit_char((n % 10) as int))
    }
}

fn append_digit(out: &mut String, d: i32)
    requires
        0 <= d < 10,
    ensures
        final(out)@ == old(out)@.push(digit_char(d as int)),
{
    proof {
        reveal_strlit("0");
        reveal_strlit("1");
        reveal_strlit("2");
        reveal_strlit("3");
        reveal_strlit("4");
        reveal_strlit("5");
        reveal_strlit("6");
        reveal_strlit("7");
        reveal_strlit("8");
        reveal_strlit("9");
    }
    let ghost start = out@;
    match d {
        0 => out.append("0"),
        1 => out.append("1"),
        2 => out.append("2"),
        3 => out.append("3"),
        4 => out.append("4"),
        5 => out.append("5"),
        6 => out.append("6"),
        7 => out.append("7"),
        8 => out.append("8"),
        _ => out.append("9"),
    }
    assert(out@ =~= start.push(digit_char(d as int)));
}

/// Spells a number that is not negative.
pub fn spell_number(n: i32) -> (r: String)
    requires
        n >= 0,
    ensures
        r@ == decimal(n as nat),
    decreases n,
{
    if n < 10 {
        let mut out = String::new();
        append_digit(&mut out, n);
        assert(out@ =~= decimal(n as nat));
        out
    } else {
        let mut out = spell_number(n / 10);
        append_digit(&mut out, n % 10);
        out
    }
}

proof fn decimal_digits(n: nat)
    ensures
        decimal(n).len() >= 1,
        forall|k: int| 0 <= k < decimal(n).len() ==> is_digit(#[trigger] decimal(n)[k]),
        digits_value(decimal(n)) == n,
    decreases n,
{
    if n < 10 {
        let s = decimal(n);
        assert(s.drop_last() =~= Seq::empty());
        assert(digits_value(s.drop_last()) == 0);
    } else {
        decimal_digits(n / 10);
        let s = decimal(n);
        assert(s.drop_last() =~= decimal(n / 10));
        assert forall|k: int| 0 <= k < s.len() implies is_digit(#[trigger] s[k]) by {
            if k < s.len() - 1 {
                assert(s[k] == decimal(n / 10)[k]);
            }
        }
    }
}

/// A number that is spelled reads back as itself.
pub proof fn spelled_number_reads_back(n: i32)
    requires
        n >= 0,
    ensures
        number(decimal(n as nat)) == Some(n),
{
    decimal_digits(n as nat);
    assert(is_digit(decimal(n as nat)[0]));
}

/// The pieces of a text, joined by a separator.
pub open spec fn joined(parts: Seq<Seq<char>>, sep: char) -> Seq<char>
    decreases parts.len(),
{
    if parts.len() == 0 {
        Seq::empty()
    } else if parts.len() == 1 {
        parts[0]
    } else {
        joined(parts.drop_last(), sep).push(sep) + parts.last()
    }
}

/// A text that is split and joined again is the same text, and no piece holds the
/// separator.
pub proof fn split_and_joined(s: Seq<char>, sep: char)
    ensures
        joined(pieces(s, sep), sep) == s,
        forall|k: int| 0 <= k < pieces(s, sep).len() ==> !(#[trigger] pieces(s, sep)[k]).contains(
            sep,
        ),
    decreases s.len(),
{
    if s.len() == 0 {
        assert(joined(pieces(s, sep), sep) =~= s);
    } else {
        let t = s.drop_last();
        let before = pieces(t, sep);
        let now = pieces(s, sep);
        split_and_joined(t, sep);
        pieces_nonempty(t, sep);
        if s.last() == sep {
            assert(now.drop_last() =~= before);
            assert(joined(now, sep) =~= t.push(sep));
            assert forall|k: int| 0 <= k < now.len() implies !(#[trigger] now[k]).contains(
                sep,
            ) by {
                if k < before.len() {
                    assert(now[k] == before[k]);
                }
            }
        } else {
            assert(now.drop_last() =~= before.drop_last());
            if before.len() == 1 {
                assert(joined(now, sep) =~= t.push(s.last()));
            } else {
                assert(joined(now, sep) =~= t.push(s.last()));
            }
            assert forall|k: int| 0 <= k < now.len() implies !(#[trigger] now[k]).contains(
                sep,
            ) by {
                assert(!before[k].contains(sep));
                if now[k].contains(sep) {
                    let i = choose|i: int| 0 <= i < now[k].len() && now[k][i] == sep;
                    assert(i < before[k].len());
                    assert(before[k][i] == sep);
                }
            }
        }
        assert(joined(now, sep) =~= s);
    }
}

} // verus!
