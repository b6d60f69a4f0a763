//! What holds of texts: of lines, of white space, of order and of numbers that are
//! spelled.

use crate::text;
use crate::text::{
    ascii_lower_is, has_prefix, is_blank, is_white_space, parse_unsigned, split_lines, text_less,
    trim,
};
use vstd::prelude::*;

verus! {

/// The decimal digits of a number, without leading zeros.
pub open spec fn digits(n: nat) -> Seq<char>
    decreases n,
{
    if n < 10 {
        seq![digit(n)]
    } else {
        digits(n / 10).push(digit(n % 10))
    }
}

/// The character of a digit.
pub open spec fn digit(d: nat) -> char {
    if d == 0 {
        '0'
    } else if d == 1 {
        '1'
    } else if d == 2 {
        '2'
    } else if d == 3 {
        '3'
    } else if d == 4 {
        '4'
    } else if d == 5 {
        '5'
    } else if d == 6 {
        '6'
    } else if d == 7 {
        '7'
    } else if d == 8 {
        '8'
    } else {
        '9'
    }
}

proof fn digits_value(n: nat)
    ensures
        text::decimal_value(digits(n)) == Some(n),
        digits(n).len() > 0,
        digits(n)[0] != '+',
        forall|i: int| 0 <= i < digits(n).len() ==> '0' <= #[trigger] digits(n)[i] <= '9',
    decreases n,
{
    reveal_with_fuel(text::decimal_value, 2);
    if n < 10 {
        assert(digits(n).drop_last() =~= Seq::<char>::empty());
    } else {
        digits_value(n / 10);
        assert(digits(n).drop_last() =~= digits(n / 10));
        assert(digits(n)[0] == digits(n / 10)[0]);
        assert(n == 10 * (n / 10) + n % 10);
    }
}

/// The digits of a number spell that number, with a plus sign in front of them or
/// without, as far as it is not above the limit.
pub proof fn digits_are_read(n: nat, max: nat)
    ensures
        text::unsigned_value(digits(n), max) == (if n <= max {
            Some(n)
        } else {
            None
        }),
        text::unsigned_value(seq!['+'] + digits(n), max) == (if n <= max {
            Some(n)
        } else {
            None
        }),
{
    digits_value(n);
    let signed = seq!['+'] + digits(n);
    assert(signed.drop_first() =~= digits(n));
}

proof fn stray_character_has_no_value(s: Seq<char>, i: int)
    requires
        0 <= i < s.len(),
        !('0' <= s[i] <= '9'),
    ensures
        text::decimal_value(s) is None,
    decreases s.len(),
{
    if i < s.len() - 1 {
        stray_character_has_no_value(s.drop_last(), i);
    }
}

/// A text with anything but digits, apart from a plus sign at its start, spells no
/// number; nor does an empty one, or a sign alone.
pub proof fn stray_character_spells_nothing(s: Seq<char>, max: nat, i: int)
    requires
        0 <= i < s.len(),
        !('0' <= s[i] <= '9'),
        i > 0 || s[i] != '+' || s.len() == 1,
    ensures
        text::unsigned_value(s, max) is None,
        text::unsigned_value(Seq::empty(), max) is None,
{
    let d = text::unsigned_digits(s);
    if s.len() > 1 && s[0] == '+' {
        assert(d[i - 1] == s[i]);
        stray_character_has_no_value(d, i - 1);
    } else {
        stray_character_has_no_value(s, i);
    }
}

/// Reading a number gives the number that digits spell, and nothing where they spell
/// one above the limit.
pub proof fn number_is_read(s: &str, max: u64, res: Option<u64>, n: nat)
    requires
        call_ensures(parse_unsigned, (s, max), res),
        s@ == digits(n) || s@ == seq!['+'] + digits(n),
    ensures
        n <= max ==> (res matches Some(v) && v == n),
        n > max ==> res is None,
{
    digits_are_read(n, max as nat);
}

proof fn line_end_is_first(s: Seq<char>)
    ensures
        text::line_end(s) <= s.len(),
        forall|i: int| 0 <= i < text::line_end(s) ==> #[trigger] s[i] != '\n',
        text::line_end(s) < s.len() ==> s[text::line_end(s) as int] == '\n',
    decreases s.len(),
{
    if s.len() > 0 && s[0] != '\n' {
        let rest = s.drop_first();
        line_end_is_first(rest);
        assert forall|i: int| 0 <= i < text::line_end(s) implies #[trigger] s[i] != '\n' by {
            if i > 0 {
                assert(rest[i - 1] == s[i]);
            }
        }
    }
}

/// A text up to a line feed is a line, without a carriage return at its end; what
/// follows the line feed has lines of its own. A text without a line feed is one
/// line, carriage return and all, unless it is empty.
pub proof fn lines_split_at_feeds(line: Seq<char>, rest: Seq<char>)
    requires
        !line.contains('\n'),
    ensures
        text::lines(line + seq!['\n'] + rest) == seq![
            if line.len() > 0 && line.last() == '\r' {
                line.drop_last()
            } else {
                line
            },
        ] + text::lines(rest),
        line.len() > 0 ==> text::lines(line) == seq![line],
        text::lines(Seq::empty()) == Seq::<Seq<char>>::empty(),
{
    let s = line + seq!['\n'] + rest;
    let n = line.len() as int;
    line_end_is_first(s);
    line_end_is_first(line);
    assert(s[n] == '\n');
    let e = text::line_end(s) as int;
    if e < n {
        assert(s[e] == line[e]);
    }
    assert(e == n);
    assert(s.take(n) =~= line);
    assert(s.skip(n + 1) =~= rest);
    let k = text::line_end(line) as int;
    if k < n {
        assert(line[k] == '\n');
    }
}

/// Splitting a text gives its lines.
pub proof fn split_gives_lines(s: &str, res: Vec<String>, line: Seq<char>, rest: Seq<char>)
    requires
        call_ensures(split_lines, (s,), res),
        !line.contains('\n'),
        s@ == line + seq!['\n'] + rest,
    ensures
        res@.len() == 1 + text::lines(rest).len(),
        res@[0]@ == (if line.len() > 0 && line.last() == '\r' {
            line.drop_last()
        } else {
            line
        }),
        forall|i: int|
            0 <= i < text::lines(rest).len() ==> (#[trigger] res@[i + 1])@ == text::lines(rest)[i],
{
    lines_split_at_feeds(line, rest);
    let all = text::texts(res@);
    assert(all.len() == res@.len());
    assert(all[0] == res@[0]@);
    assert forall|i: int| 0 <= i < text::lines(rest).len() implies (#[trigger] res@[i + 1])@
        == text::lines(rest)[i] by {
        assert(all[i + 1] == res@[i + 1]@);
    }
}

/// White space is what Unicode takes for it: of ASCII the space and the controls from
/// tab to carriage return, and no visible character; beyond it the spaces of other
/// writing and the separators of lines and paragraphs.
pub proof fn white_space_holds(c: char, res: bool)
    requires
        call_ensures(is_white_space, (c,), res),
    ensures
        c == ' ' || c == '\t' || c == '\n' || c == '\r' || c == '\x0b' || c == '\x0c' ==> res,
        '!' <= c <= '~' ==> !res,
        c < '\t' ==> !res,
        '\x0e' <= c <= '\x1f' ==> !res,
        '\x7f' <= c <= '\u{84}' ==> !res,
        '\u{86}' <= c <= '\u{9f}' ==> !res,
        '\u{a1}' <= c <= '\u{167f}' ==> !res,
        '\u{1681}' <= c <= '\u{1fff}' ==> !res,
        '\u{200b}' <= c <= '\u{2027}' ==> !res,
        '\u{202a}' <= c <= '\u{202e}' ==> !res,
        '\u{2030}' <= c <= '\u{205e}' ==> !res,
        '\u{2060}' <= c <= '\u{2fff}' ==> !res,
        '\u{3001}' <= c ==> !res,
        c == '\u{85}' || c == '\u{a0}' || c == '\u{1680}' || c == '\u{2028}' || c == '\u{2029}' || c
            == '\u{202f}' || c == '\u{205f}' || c == '\u{3000}' ==> res,
        '\u{2000}' <= c <= '\u{200a}' ==> res,
{
}

/// A text is blank where every character is white space.
pub proof fn blank_holds(s: &str, res: bool)
    requires
        call_ensures(is_blank, (s,), res),
    ensures
        res <==> forall|i: int| 0 <= i < s@.len() ==> text::white_space(#[trigger] s@[i]),
{
}

proof fn trim_start_cuts(s: Seq<char>) -> (n: int)
    ensures
        0 <= n <= s.len(),
        text::trim_start(s) == s.skip(n),
        forall|i: int| 0 <= i < n ==> text::white_space(#[trigger] s[i]),
        n < s.len() ==> !text::white_space(s[n]),
    decreases s.len(),
{
    if s.len() > 0 && text::white_space(s[0]) {
        let rest = s.drop_first();
        let n = trim_start_cuts(rest);
        assert(rest.skip(n) =~= s.skip(n + 1));
        assert forall|i: int| 0 <= i < n + 1 implies text::white_space(#[trigger] s[i]) by {
            if i > 0 {
                assert(rest[i - 1] == s[i]);
            }
        }
        n + 1
    } else {
        assert(s.skip(0) =~= s);
        0
    }
}

proof fn trim_end_cuts(s: Seq<char>) -> (n: int)
    ensures
        0 <= n <= s.len(),
        text::trim_end(s) == s.take(n),
        forall|i: int| n <= i < s.len() ==> text::white_space(#[trigger] s[i]),
        n > 0 ==> !text::white_space(s[n - 1]),
    decreases s.len(),
{
    if s.len() > 0 && text::white_space(s.last()) {
        let rest = s.drop_last();
        let n = trim_end_cuts(rest);
        assert(rest.take(n) =~= s.take(n));
        assert forall|i: int| n <= i < s.len() implies text::white_space(#[trigger] s[i]) by {
            if i < s.len() - 1 {
                assert(rest[i] == s[i]);
            }
        }
        n
    } else {
        assert(s.take(s.len() as int) =~= s);
        s.len() as int
    }
}

/// Trimming cuts white space off both ends and nothing else: what is left starts and
/// ends with something else than white space, or is empty.
pub proof fn trim_cuts_ends(s: &str, res: String) -> (cut: (int, int))
    requires
        call_ensures(trim, (s,), res),
    ensures
        0 <= cut.0 <= cut.1 <= s@.len(),
        res@ == s@.subrange(cut.0, cut.1),
        forall|i: int|
            0 <= i < s@.len() && (i < cut.0 || cut.1 <= i) ==> text::white_space(#[trigger] s@[i]),
        res@.len() > 0 ==> !text::white_space(res@[0]) && !text::white_space(res@.last()),
{
    let a = trim_start_cuts(s@);
    let rest = s@.skip(a);
    let n = trim_end_cuts(rest);
    assert(res@ =~= s@.subrange(a, a + n));
    assert forall|i: int| 0 <= i < s@.len() && (i < a || a + n <= i) implies text::white_space(
        #[trigger] s@[i],
    ) by {
        if i >= a + n {
            assert(rest[i - a] == s@[i]);
        }
    }
    (a, a + n)
}

/// A text starts with another where that is a prefix of it.
pub proof fn prefix_holds(s: &str, prefix: &str, res: bool)
    requires
        call_ensures(has_prefix, (s, prefix), res),
    ensures
        res <==> prefix@.is_prefix_of(s@),
{
    if prefix@.len() <= s@.len() {
        assert(s@.take(prefix@.len() as int) =~= s@.subrange(0, prefix@.len() as int));
    }
}

proof fn less_by_difference(a: Seq<char>, b: Seq<char>) -> (k: int)
    ensures
        0 <= k <= a.len(),
        k <= b.len(),
        a.take(k) == b.take(k),
        k < a.len() && k < b.len() ==> a[k] != b[k],
        text::lex_less(a, b) == (k < b.len() && (k == a.len() || a[k] < b[k])),
    decreases a.len(),
{
    if b.len() == 0 || a.len() == 0 {
        assert(a.take(0) =~= b.take(0));
        0
    } else if a[0] != b[0] {
        assert(a.take(0) =~= b.take(0));
        0
    } else {
        let k = less_by_difference(a.drop_first(), b.drop_first());
        assert(a.take(k + 1) =~= seq![a[0]] + a.drop_first().take(k));
        assert(b.take(k + 1) =~= seq![b[0]] + b.drop_first().take(k));
        k + 1
    }
}

/// One text comes before another where the first character in which they differ is
/// smaller, or where it ends before they differ.
pub proof fn order_by_difference(a: &str, b: &str, res: bool) -> (k: int)
    requires
        call_ensures(text_less, (a, b), res),
    ensures
        0 <= k <= a@.len(),
        k <= b@.len(),
        a@.take(k) == b@.take(k),
        k < a@.len() && k < b@.len() ==> a@[k] != b@[k] && res == (a@[k] < b@[k]),
        k == a@.len() ==> res == (k < b@.len()),
        k == b@.len() ==> !res,
{
    less_by_difference(a@, b@)
}

/// Lower case changes the capital letters of ASCII, and no other character.
pub proof fn lower_case_holds(s: &str, word: &str, res: bool)
    requires
        call_ensures(ascii_lower_is, (s, word), res),
    ensures
        res ==> s@.len() == word@.len(),
        res ==> forall|i: int|
            0 <= i < s@.len() ==> {
                &&& 'A' <= #[trigger] s@[i] <= 'Z' ==> word@[i] as int == s@[i] as int + 32
                &&& !('A' <= s@[i] <= 'Z') ==> word@[i] == s@[i]
            },
        (s@ == word@ && forall|i: int|
            0 <= i < s@.len() ==> !('A' <= #[trigger] s@[i] <= 'Z')) ==> res,
{
    let low = text::ascii_lower(s@);
    if res {
        assert forall|i: int| 0 <= i < s@.len() implies {
            &&& 'A' <= #[trigger] s@[i] <= 'Z' ==> word@[i] as int == s@[i] as int + 32
            &&& !('A' <= s@[i] <= 'Z') ==> word@[i] == s@[i]
        } by {
            assert(low[i] == word@[i]);
        }
    }
    if s@ == word@ && forall|i: int| 0 <= i < s@.len() ==> !('A' <= #[trigger] s@[i] <= 'Z') {
        assert(low =~= word@);
    }
}

} // verus!
