//! What holds of every text that is stripped, split, read or written.

use crate::report;
use crate::text;
use vstd::prelude::*;

verus! {

/// The text holds nothing but white space.
pub open spec fn is_blank(s: Seq<char>) -> bool {
    forall|i: int| 0 <= i < s.len() ==> text::is_white_space(#[trigger] s[i])
}

/// What stripping the front takes off is white space, and what is left starts
/// with something else.
proof fn lemma_trim_front_splits(s: Seq<char>) -> (k: int)
    ensures
        0 <= k <= s.len(),
        is_blank(s.take(k)),
        text::trim_front(s) == s.skip(k),
        k < s.len() ==> !text::is_white_space(s[k]),
    decreases s.len(),
{
    if s.len() > 0 && text::is_white_space(s[0]) {
        let rest = s.drop_first();
        let k = lemma_trim_front_splits(rest);
        assert forall|i: int| 0 <= i < k + 1 implies text::is_white_space(
            #[trigger] s.take(k + 1)[i],
        ) by {
            if i > 0 {
                assert(s.take(k + 1)[i] == rest.take(k)[i - 1]);
            }
        }
        assert(rest.skip(k) =~= s.skip(k + 1));
        k + 1
    } else {
        assert(s.skip(0) =~= s);
        0
    }
}

/// What stripping the back takes off is white space, and what is left ends with
/// something else.
proof fn lemma_trim_back_splits(s: Seq<char>) -> (k: int)
    ensures
        0 <= k <= s.len(),
        is_blank(s.skip(k)),
        text::trim_back(s) == s.take(k),
        k > 0 ==> !text::is_white_space(s[k - 1]),
    decreases s.len(),
{
    if s.len() > 0 && text::is_white_space(s.last()) {
        let rest = s.drop_last();
        let k = lemma_trim_back_splits(rest);
        assert forall|i: int| 0 <= i < s.len() - k implies text::is_white_space(
            #[trigger] s.skip(k)[i],
        ) by {
            if i < rest.len() - k {
                assert(s.skip(k)[i] == rest.skip(k)[i]);
            }
        }
        assert(rest.take(k) =~= s.take(k));
        k
    } else {
        assert(s.take(s.len() as int) =~= s);
        s.len() as int
    }
}

/// Stripping a text takes white space off both ends and nothing else, and leaves
/// none there.
pub proof fn law_trimmed(s: Seq<char>)
    ensures
        exists|front: Seq<char>, back: Seq<char>|
            is_blank(front) && is_blank(back) && s == #[trigger] ((front + text::trimmed(s)) + back),
        text::trimmed(s).len() > 0 ==> !text::is_white_space(text::trimmed(s)[0])
            && !text::is_white_space(text::trimmed(s).last()),
{
    let a = lemma_trim_front_splits(s);
    let inner = s.skip(a);
    let b = lemma_trim_back_splits(inner);
    let front = s.take(a);
    let back = inner.skip(b);
    assert(s =~= (front + text::trimmed(s)) + back);
    if b > 0 {
        assert(text::trimmed(s)[0] == s[a]);
    }
}

/// The text holds no line feed.
pub open spec fn is_one_line(s: Seq<char>) -> bool {
    forall|i: int| 0 <= i < s.len() ==> #[trigger] s[i] != '\n'
}

/// The end of a line behind a text that is put in front.
proof fn lemma_line_end_behind(a: Seq<char>, s: Seq<char>, from: int)
    requires
        0 <= from,
    ensures
        text::line_end(a + s, a.len() + from) == a.len() + text::line_end(s, from),
    decreases s.len() - from,
{
    if from < s.len() && s[from] != '\n' {
        lemma_line_end_behind(a, s, from + 1);
    }
}

/// The lines behind a text that is put in front.
proof fn lemma_lines_behind(a: Seq<char>, s: Seq<char>, from: int)
    requires
        0 <= from,
    ensures
        text::lines_from(a + s, a.len() + from) == text::lines_from(s, from),
    decreases s.len() - from,
{
    if from < s.len() {
        lemma_line_end_behind(a, s, from);
        text::lemma_line_end(s, from);
        let end = text::line_end(s, from);
        assert((a + s).subrange(a.len() + from, a.len() + end) =~= s.subrange(from, end));
        if end < s.len() {
            lemma_lines_behind(a, s, end + 1);
            assert(a.len() + (end + 1) == a.len() + end + 1);
        }
    }
}

/// Where the first line ends.
proof fn lemma_first_line_end(s: Seq<char>, from: int, at: int)
    requires
        0 <= from <= at <= s.len(),
        forall|i: int| from <= i < at ==> s[i] != '\n',
        at < s.len() ==> s[at] == '\n',
    ensures
        text::line_end(s, from) == at,
    decreases at - from,
{
    if from < at {
        lemma_first_line_end(s, from + 1, at);
    }
}

/// What stands before a line feed is a line, without a carriage return at its
/// end; the other lines are those of what stands behind the line feed.
pub proof fn law_first_line(a: Seq<char>, b: Seq<char>)
    requires
        is_one_line(a),
    ensures
        a.len() == 0 || a.last() != '\r' ==> text::lines_of(a.push('\n') + b) == seq![a]
            + text::lines_of(b),
        text::lines_of(a.push('\r').push('\n') + b) == seq![a] + text::lines_of(b),
{
    let s = a.push('\n') + b;
    lemma_first_line_end(s, 0, a.len() as int);
    lemma_lines_behind(a.push('\n'), b, 0);
    assert(s.subrange(0, a.len() as int) =~= a);
    let c = a.push('\r');
    let t = c.push('\n') + b;
    assert forall|i: int| 0 <= i < c.len() implies t[i] != '\n' by {
        if i < a.len() {
            assert(t[i] == a[i]);
        }
    }
    lemma_first_line_end(t, 0, c.len() as int);
    lemma_lines_behind(c.push('\n'), b, 0);
    assert(t.subrange(0, c.len() as int) =~= c);
    assert(c.drop_last() =~= a);
}

/// A text without a line feed is a line of its own, unless it is empty.
pub proof fn law_last_line(a: Seq<char>)
    requires
        is_one_line(a),
    ensures
        a.len() > 0 ==> text::lines_of(a) == seq![a],
        a.len() == 0 ==> text::lines_of(a).len() == 0,
{
    lemma_first_line_end(a, 0, a.len() as int);
    assert(a.subrange(0, a.len() as int) =~= a);
}

/// A text is found exactly in the texts that hold it between two others.
pub proof fn law_contains(s: Seq<char>, pattern: Seq<char>)
    ensures
        text::contains_text(s, pattern) <==> exists|front: Seq<char>, back: Seq<char>|
            s == #[trigger] ((front + pattern) + back),
{
    if text::contains_text(s, pattern) {
        let at = choose|at: int| #[trigger] text::occurs_at(s, pattern, at);
        let front = s.take(at);
        let back = s.skip(at + pattern.len());
        assert forall|i: int| 0 <= i < s.len() implies s[i] == ((front + pattern) + back)[i] by {
            if at <= i < at + pattern.len() {
                assert(s[i] == s.subrange(at, at + pattern.len())[i - at]);
            }
        }
        assert(s =~= (front + pattern) + back);
    }
    if exists|front: Seq<char>, back: Seq<char>| s == #[trigger] ((front + pattern) + back) {
        let (front, back) = choose|front: Seq<char>, back: Seq<char>|
            s == #[trigger] ((front + pattern) + back);
        let at = front.len() as int;
        assert(s.subrange(at, at + pattern.len()) =~= pattern);
        assert(text::occurs_at(s, pattern, at));
    }
}

/// A number is written in decimal digits that read back as the number, without
/// leading zeros.
pub proof fn law_decimal(n: nat)
    ensures
        text::decimal(n).len() > 0,
        text::all_digits(text::decimal(n)),
        text::digits_value(text::decimal(n)) == n,
        text::decimal(n)[0] == '0' ==> text::decimal(n).len() == 1,
    decreases n,
{
    reveal_with_fuel(text::digits_value, 2);
    text::lemma_decimal(n);
    if n < 10 {
        assert(text::decimal(n).drop_last() =~= Seq::<char>::empty());
    } else {
        law_decimal(n / 10);
        assert(text::decimal(n).drop_last() =~= text::decimal(n / 10));
        if n / 10 < 10 {
            assert(text::decimal(n / 10)[0] != '0');
        } else {
            assert(text::decimal(n / 10).len() > 1) by {
                text::lemma_decimal(n / 10 / 10);
            }
        }
    }
}

/// The digits of a number weigh ten times as much as those behind them.
pub proof fn law_digits(s: Seq<char>, c: char)
    requires
        text::is_digit(c),
    ensures
        text::digits_value(s.push(c)) == 10 * text::digits_value(s) + (c as int - '0' as int),
        text::digits_value(Seq::empty()) == 0,
{
    assert(s.push(c).drop_last() =~= s);
}

/// Every `i64` is read back from the text that writes it.
pub proof fn law_integers_read_back(n: int)
    requires
        i64::MIN <= n <= i64::MAX,
    ensures
        text::parsed_i64(text::signed_decimal(n)) == Some(n),
{
    let magnitude = if n < 0 {
        (-n) as nat
    } else {
        n as nat
    };
    law_decimal(magnitude);
    if n < 0 {
        assert(text::signed_decimal(n).drop_first() =~= text::decimal(magnitude));
    } else {
        assert(text::is_digit(text::decimal(magnitude)[0]));
    }
}

/// Every `u16` is read back from the text that writes it.
pub proof fn law_ports_read_back(n: nat)
    requires
        n <= u16::MAX,
    ensures
        text::parsed_u16(text::decimal(n)) == Some(n as int),
{
    law_decimal(n);
    assert(text::is_digit(text::decimal(n)[0]));
}

/// A text that is no number within the range is read as none.
pub proof fn law_what_is_no_number(s: Seq<char>)
    ensures
        s.len() == 0 ==> text::parsed_i64(s) is None && text::parsed_u16(s) is None,
        (exists|i: int| 1 <= i < s.len() && !text::is_digit(#[trigger] s[i])) ==> text::parsed_i64(
            s,
        ) is None && text::parsed_u16(s) is None,
        s.len() > 0 && text::all_digits(s) && text::digits_value(s) > i64::MAX
            ==> text::parsed_i64(s) is None,
        s.len() > 0 && text::all_digits(s) && text::digits_value(s) > u16::MAX
            ==> text::parsed_u16(s) is None,
{
    if exists|i: int| 1 <= i < s.len() && !text::is_digit(#[trigger] s[i]) {
        let i = choose|i: int| 1 <= i < s.len() && !text::is_digit(#[trigger] s[i]);
        assert(s.drop_first()[i - 1] == s[i]);
    }
    if s.len() > 0 && text::all_digits(s) {
        assert(text::is_digit(s[0]));
    }
}

/// The character of a digit is a digit, and its value is the number.
proof fn lemma_digit_char(d: int)
    requires
        0 <= d < 10,
    ensures
        text::is_digit(text::digit_char(d)),
        text::digit_char(d) as int - '0' as int == d,
{
}

/// The value of three digits.
proof fn lemma_three_digits(x: int, y: int, z: int)
    requires
        0 <= x < 10,
        0 <= y < 10,
        0 <= z < 10,
    ensures
        ({
            let s = seq![text::digit_char(x), text::digit_char(y), text::digit_char(z)];
            text::all_digits(s) && text::digits_value(s) == 100 * x + 10 * y + z
        }),
{
    lemma_digit_char(x);
    lemma_digit_char(y);
    lemma_digit_char(z);
    let none: Seq<char> = Seq::empty();
    let a = text::digit_char(x);
    let b = text::digit_char(y);
    let c = text::digit_char(z);
    assert(seq![a, b, c] =~= none.push(a).push(b).push(c));
    law_digits(none, a);
    law_digits(none.push(a), b);
    law_digits(none.push(a).push(b), c);
}

/// A number is the sum of its places.
proof fn lemma_places(n: nat)
    ensures
        (n / 1000) * 1000 + 100 * (n / 100 % 10) + 10 * (n / 10 % 10) + n % 10 == n,
{
    assert(n / 100 == n / 10 / 10);
    assert(n / 1000 == n / 100 / 10);
}

/// Thousandths are written as the whole part, a dot and three digits.
pub proof fn law_thousandths(n: nat)
    ensures
        ({
            let s = text::thousandths(n);
            let dot = s.len() - 4;
            &&& dot > 0
            &&& s[dot] == '.'
            &&& text::all_digits(s.take(dot))
            &&& text::all_digits(s.skip(dot + 1))
            &&& text::digits_value(s.take(dot)) * 1000 + text::digits_value(s.skip(dot + 1)) == n
        }),
{
    let s = text::thousandths(n);
    law_decimal(n / 1000);
    let dot = s.len() - 4;
    assert(s.take(dot) =~= text::decimal(n / 1000));
    let x = (n / 100 % 10) as int;
    let y = (n / 10 % 10) as int;
    let z = (n % 10) as int;
    lemma_three_digits(x, y, z);
    assert(s.skip(dot + 1) =~= seq![
        text::digit_char(x),
        text::digit_char(y),
        text::digit_char(z),
    ]);
    lemma_places(n);
}

/// What is kept of a text are its first characters: all of them, or as many as
/// allowed.
pub proof fn law_truncated(s: Seq<char>, max: nat)
    ensures
        text::truncated(s, max).len() == if s.len() < max {
            s.len()
        } else {
            max
        },
        forall|i: int|
            0 <= i < text::truncated(s, max).len() ==> #[trigger] text::truncated(s, max)[i]
                == s[i],
{
}

/// An aligned text fills the width, with the text whole at one end and spaces at
/// the other.
pub proof fn law_aligned(s: Seq<char>, width: nat)
    ensures
        ({
            let left = report::left_aligned(s, width as int);
            let right = report::right_aligned(s, width as int);
            let length = if s.len() < width {
                width
            } else {
                s.len()
            };
            &&& left.len() == length
            &&& right.len() == length
            &&& left.take(s.len() as int) == s
            &&& right.skip(length - s.len()) == s
            &&& forall|i: int| s.len() <= i < length ==> #[trigger] left[i] == ' '
            &&& forall|i: int| 0 <= i < length - s.len() ==> #[trigger] right[i] == ' '
        }),
{
    let left = report::left_aligned(s, width as int);
    let right = report::right_aligned(s, width as int);
    assert(left.take(s.len() as int) =~= s);
    assert(right.skip(right.len() - s.len()) =~= s);
}

} // verus!
