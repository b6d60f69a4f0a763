//! Text helpers over `str`, specified on the sequence of characters.

use vstd::prelude::*;
use vstd::string::*;

verus! {

/// The characters of `s`, in order.
pub fn chars_of(s: &str) -> (res: Vec<char>)
    ensures
        res@ == s@,
{
    let mut res: Vec<char> = Vec::new();
    for c in it: s.chars()
        invariant
            res@ == s@.take(it.index()),
            it.seq() == s@,
    {
        proof {
            assert(s@.take(it.index() + 1) =~= s@.take(it.index()).push(c));
        }
        res.push(c);
    }
    assert(s@.take(s@.len() as int) =~= s@);
    res
}

/// Whether `s` starts with `prefix`.
pub open spec fn starts_with(s: Seq<char>, prefix: Seq<char>) -> bool {
    prefix.len() <= s.len() && s.take(prefix.len() as int) == prefix
}

/// Whether the text starts with `prefix`.
pub fn has_prefix(s: &str, prefix: &str) -> (res: bool)
    ensures
        res == starts_with(s@, prefix@),
{
    let sc = chars_of(s);
    let pc = chars_of(prefix);
    if pc.len() > sc.len() {
        return false;
    }
    let mut i: usize = 0;
    while i < pc.len()
        invariant
            i <= pc.len() <= sc.len(),
            sc@ == s@,
            pc@ == prefix@,
            forall|k: int| 0 <= k < i ==> sc@[k] == pc@[k],
        decreases pc.len() - i,
    {
        if sc[i] != pc[i] {
            proof {
                assert(s@.take(prefix@.len() as int)[i as int] != prefix@[i as int]);
            }
            return false;
        }
        i = i + 1;
    }
    assert(s@.take(prefix@.len() as int) =~= prefix@);
    true
}

/// Whether two texts hold the same characters.
pub fn text_eq(a: &str, b: &str) -> (res: bool)
    ensures
        res == (a@ == b@),
{
    let ac = chars_of(a);
    let bc = chars_of(b);
    if ac.len() != bc.len() {
        return false;
    }
    let mut i: usize = 0;
    while i < ac.len()
        invariant
            i <= ac.len() == bc.len(),
            ac@ == a@,
            bc@ == b@,
            forall|k: int| 0 <= k < i ==> ac@[k] == bc@[k],
        decreases ac.len() - i,
    {
        if ac[i] != bc[i] {
            return false;
        }
        i = i + 1;
    }
    assert(a@ =~= b@);
    true
}

/// The text as a string of its own.
pub fn owned(s: &str) -> (res: String)
    ensures
        res@ == s@,
{
    s.to_owned()
}

/// `a` followed by `b`.
pub fn join2(a: &str, b: &str) -> (res: String)
    ensures
        res@ == a@ + b@,
{
    let mut res = a.to_owned();
    res.append(b);
    res
}

/// `a`, `b` and `c`, one after the other.
pub fn join3(a: &str, b: &str, c: &str) -> (res: String)
    ensures
        res@ == a@ + b@ + c@,
{
    let mut res = join2(a, b);
    res.append(c);
    res
}

/// The order of `String`: the first differing code point decides, and a
/// proper prefix comes first.
pub open spec fn lex_less(a: Seq<char>, b: Seq<char>) -> bool
    decreases a.len(),
{
    if b.len() == 0 {
        false
    } else if a.len() == 0 {
        true
    } else if a[0] != b[0] {
        a[0] < b[0]
    } else {
        lex_less(a.drop_first(), b.drop_first())
    }
}

/// No text precedes itself.
pub proof fn lex_less_irreflexive(a: Seq<char>)
    ensures
        !lex_less(a, a),
    decreases a.len(),
{
    if a.len() > 0 {
        lex_less_irreflexive(a.drop_first());
    }
}

/// The order on texts is transitive.
pub proof fn lex_less_transitive(a: Seq<char>, b: Seq<char>, c: Seq<char>)
    requires
        lex_less(a, b),
        lex_less(b, c),
    ensures
        lex_less(a, c),
    decreases a.len(),
{
    if a.len() > 0 && a[0] == b[0] && b[0] == c[0] {
        lex_less_transitive(a.drop_first(), b.drop_first(), c.drop_first());
    }
}

/// Of two different texts one precedes the other.
pub proof fn lex_less_total(a: Seq<char>, b: Seq<char>)
    ensures
        a == b || lex_less(a, b) || lex_less(b, a),
    decreases a.len(),
{
    if a.len() > 0 && b.len() > 0 && a[0] == b[0] {
        lex_less_total(a.drop_first(), b.drop_first());
        if a.drop_first() == b.drop_first() {
            assert(a =~= seq![a[0]] + a.drop_first());
            assert(b =~= seq![b[0]] + b.drop_first());
        }
    } else if a.len() == 0 && b.len() == 0 {
        assert(a =~= b);
    }
}

/// Whether `a` precedes `b` in the order of `String`.
pub fn text_less(a: &str, b: &str) -> (res: bool)
    ensures
        res == lex_less(a@, b@),
{
    let ac = chars_of(a);
    let bc = chars_of(b);
    let mut i: usize = 0;
    assert(a@.skip(0) =~= a@);
    assert(b@.skip(0) =~= b@);
    while i < ac.len() && i < bc.len()
        invariant
            i <= ac.len(),
            i <= bc.len(),
            ac@ == a@,
            bc@ == b@,
            lex_less(a@, b@) == lex_less(a@.skip(i as int), b@.skip(i as int)),
        decreases ac.len() - i,
    {
        if ac[i] != bc[i] {
            return ac[i] < bc[i];
        }
        proof {
            assert(a@.skip(i as int).drop_first() =~= a@.skip(i + 1));
            assert(b@.skip(i as int).drop_first() =~= b@.skip(i + 1));
        }
        i = i + 1;
    }
    i < bc.len()
}

/// The code points that have the Unicode property `White_Space`.
pub open spec fn white_space(c: char) -> bool {
    let u = c as u32;
    ||| 0x09 <= u <= 0x0d
    ||| u == 0x20
    ||| u == 0x85
    ||| u == 0xa0
    ||| u == 0x1680
    ||| 0x2000 <= u <= 0x200a
    ||| u == 0x2028
    ||| u == 0x2029
    ||| u == 0x202f
    ||| u == 0x205f
    ||| u == 0x3000
}

/// Whether `c` is white space.
pub fn is_white_space(c: char) -> (res: bool)
    ensures
        res == white_space(c),
{
    let u: u32 = c as u32;
    (0x09 <= u && u <= 0x0d) || u == 0x20 || u == 0x85 || u == 0xa0 || u == 0x1680 || (0x2000 <= u
        && u <= 0x200a) || u == 0x2028 || u == 0x2029 || u == 0x202f || u == 0x205f || u == 0x3000
}

/// Whether `s` holds white space only.
pub open spec fn blank(s: Seq<char>) -> bool {
    forall|i: int| 0 <= i < s.len() ==> white_space(#[trigger] s[i])
}

/// `s` without the white space at its start.
pub open spec fn trim_start(s: Seq<char>) -> Seq<char>
    decreases s.len(),
{
    if s.len() > 0 && white_space(s[0]) {
        trim_start(s.drop_first())
    } else {
        s
    }
}

/// `s` without the white space at its end.
pub open spec fn trim_end(s: Seq<char>) -> Seq<char>
    decreases s.len(),
{
    if s.len() > 0 && white_space(s.last()) {
        trim_end(s.drop_last())
    } else {
        s
    }
}

/// `s` without the white space at both ends.
pub open spec fn trimmed(s: Seq<char>) -> Seq<char> {
    trim_end(trim_start(s))
}

/// The text without the white space at both ends.
pub fn trim(s: &str) -> (res: String)
    ensures
        res@ == trimmed(s@),
{
    let cs = chars_of(s);
    let mut i: usize = 0;
    assert(s@.skip(0) =~= s@);
    while i < cs.len() && is_white_space(cs[i])
        invariant
            i <= cs.len(),
            cs@ == s@,
            trim_start(s@) == trim_start(s@.skip(i as int)),
        decreases cs.len() - i,
    {
        proof {
            assert(s@.skip(i as int).drop_first() =~= s@.skip(i + 1));
        }
        i = i + 1;
    }
    let mut j: usize = cs.len();
    assert(trim_start(s@) == s@.skip(i as int));
    assert(s@.skip(i as int) =~= s@.subrange(i as int, j as int));
    while i < j && is_white_space(cs[j - 1])
        invariant
            i <= j <= cs.len(),
            cs@ == s@,
            trimmed(s@) == trim_end(s@.subrange(i as int, j as int)),
        decreases j - i,
    {
        proof {
            assert(s@.subrange(i as int, j as int).drop_last() =~= s@.subrange(i as int, j - 1));
        }
        j = j - 1;
    }
    let cut = s.substring_char(i, j);
    cut.to_owned()
}

/// Trimming leaves nothing exactly where there is white space only.
pub proof fn trimmed_empty_iff_blank(s: Seq<char>)
    ensures
        trimmed(s).len() == 0 <==> blank(s),
    decreases s.len(),
{
    if s.len() > 0 && white_space(s[0]) {
        trimmed_empty_iff_blank(s.drop_first());
        assert forall|i: int| 0 <= i < s.len() && blank(s.drop_first()) implies white_space(
            #[trigger] s[i],
        ) by {
            if i > 0 {
                assert(s.drop_first()[i - 1] == s[i]);
            }
        }
        assert forall|i: int| 0 <= i < s.drop_first().len() && blank(s) implies white_space(
            #[trigger] s.drop_first()[i],
        ) by {
            assert(s.drop_first()[i] == s[i + 1]);
        }
    } else if s.len() > 0 {
        trim_end_keeps_start(s);
    }
}

/// A text that starts with something else than white space keeps it.
proof fn trim_end_keeps_start(s: Seq<char>)
    requires
        s.len() > 0,
        !white_space(s[0]),
    ensures
        trim_end(s).len() > 0,
    decreases s.len(),
{
    if white_space(s.last()) {
        trim_end_keeps_start(s.drop_last());
    }
}

/// Whether the text holds white space only.
pub fn is_blank(s: &str) -> (res: bool)
    ensures
        res == blank(s@),
        res == (trimmed(s@).len() == 0),
{
    proof {
        trimmed_empty_iff_blank(s@);
    }
    let cs = chars_of(s);
    let mut i: usize = 0;
    while i < cs.len()
        invariant
            i <= cs.len(),
            cs@ == s@,
            blank(s@) == (trimmed(s@).len() == 0),
            forall|k: int| 0 <= k < i ==> white_space(#[trigger] cs@[k]),
        decreases cs.len() - i,
    {
        if !is_white_space(cs[i]) {
            return false;
        }
        i = i + 1;
    }
    true
}

/// `c`, or its small letter where `c` is an ASCII capital.
pub open spec fn ascii_lower_char(c: char) -> char {
    if 'A' <= c && c <= 'Z' {
        ((c as int) + 32) as char
    } else {
        c
    }
}

/// `s` with the ASCII capitals made small.
pub open spec fn ascii_lower(s: Seq<char>) -> Seq<char> {
    Seq::new(s.len(), |i: int| ascii_lower_char(s[i]))
}

/// Whether the text, with its ASCII capitals made small, is `word`.
pub fn ascii_lower_is(s: &str, word: &str) -> (res: bool)
    ensures
        res == (ascii_lower(s@) == word@),
{
    let sc = chars_of(s);
    let wc = chars_of(word);
    if sc.len() != wc.len() {
        return false;
    }
    let mut i: usize = 0;
    while i < sc.len()
        invariant
            i <= sc.len() == wc.len(),
            sc@ == s@,
            wc@ == word@,
            forall|k: int| 0 <= k < i ==> ascii_lower_char(#[trigger] sc@[k]) == wc@[k],
        decreases sc.len() - i,
    {
        let c = sc[i];
        let u: u32 = c as u32;
        let w: u32 = wc[i] as u32;
        let lowered: u32 = if 65 <= u && u <= 90 {
            u + 32
        } else {
            u
        };
        proof {
            vstd::utf8::char_u32_cast(wc[i as int], w);
            vstd::utf8::char_u32_cast(ascii_lower_char(c), lowered);
        }
        if lowered != w {
            assert(ascii_lower(s@)[i as int] != word@[i as int]);
            return false;
        }
        i = i + 1;
    }
    assert(ascii_lower(s@) =~= word@);
    true
}

/// What `str::to_lowercase` makes of a text.
pub uninterp spec fn lowercase(s: Seq<char>) -> Seq<char>;

/// Whether every character is ASCII.
pub open spec fn all_ascii(s: Seq<char>) -> bool {
    forall|i: int| 0 <= i < s.len() ==> #[trigger] s[i] <= '\x7f'
}

/// `str::to_lowercase`: the text in lower case by the rules of Unicode. On
/// ASCII text that is each upper-case letter in lower case and all else as it
/// was; nothing more is claimed of other text than that it depends on nothing
/// but the text.
#[verifier::external_body]
pub(crate) fn to_lowercase(s: &str) -> (res: String)
    ensures
        res@ == lowercase(s@),
        all_ascii(s@) ==> res@ == ascii_lower(s@),
{
    s.to_lowercase()
}

/// The value of a sequence of decimal digits; `None` where a character is no
/// ASCII digit.
pub open spec fn decimal_value(s: Seq<char>) -> Option<nat>
    decreases s.len(),
{
    if s.len() == 0 {
        Some(0)
    } else {
        let d = s.last();
        match decimal_value(s.drop_last()) {
            Some(v) if '0' <= d && d <= '9' => Some(10 * v + (d as nat - '0' as nat) as nat),
            _ => None,
        }
    }
}

/// The digits of an unsigned literal: a single leading plus sign is dropped.
pub open spec fn unsigned_digits(s: Seq<char>) -> Seq<char> {
    if s.len() > 1 && s[0] == '+' {
        s.drop_first()
    } else {
        s
    }
}

/// The number that `s` spells, where it spells one that is at most `max`.
pub open spec fn unsigned_value(s: Seq<char>, max: nat) -> Option<nat> {
    let digits = unsigned_digits(s);
    if digits.len() == 0 {
        None
    } else {
        match decimal_value(digits) {
            Some(v) if v <= max => Some(v),
            _ => None,
        }
    }
}

/// A longer sequence of digits spells no smaller number.
proof fn decimal_value_monotone(s: Seq<char>, n: int)
    requires
        0 <= n <= s.len(),
        decimal_value(s) is Some,
    ensures
        decimal_value(s.take(n)) is Some,
        decimal_value(s.take(n))->0 <= decimal_value(s)->0,
    decreases s.len() - n,
{
    if n < s.len() {
        decimal_value_monotone(s, n + 1);
        assert(s.take(n + 1).drop_last() =~= s.take(n));
    } else {
        assert(s.take(n) =~= s);
    }
}

/// Reads an unsigned number of at most `max`.
pub fn parse_unsigned(s: &str, max: u64) -> (res: Option<u64>)
    ensures
        match res {
            Some(v) => unsigned_value(s@, max as nat) == Some(v as nat),
            None => unsigned_value(s@, max as nat) is None,
        },
{
    let cs = chars_of(s);
    let start: usize = if cs.len() > 1 && cs[0] == '+' {
        1
    } else {
        0
    };
    let ghost digits = unsigned_digits(s@);
    assert(digits =~= s@.skip(start as int));
    if start >= cs.len() {
        return None;
    }
    let mut value: u64 = 0;
    let mut i: usize = start;
    assert(digits.take(0) =~= Seq::<char>::empty());
    while i < cs.len()
        invariant
            start <= i <= cs.len(),
            start < cs.len(),
            cs@ == s@,
            digits == unsigned_digits(s@),
            digits == s@.skip(start as int),
            value <= max,
            decimal_value(digits.take(i - start)) == Some(value as nat),
        decreases cs.len() - i,
    {
        let c = cs[i];
        proof {
            assert(digits.take(i - start + 1).drop_last() =~= digits.take(i - start));
            assert(digits.take(i - start + 1).last() == c);
            assert(digits.take(digits.len() as int) =~= digits);
            if decimal_value(digits) is Some {
                decimal_value_monotone(digits, i - start + 1);
            }
        }
        if c < '0' || c > '9' {
            return None;
        }
        let d: u64 = c as u64 - 48;
        if value > max / 10 {
            return None;
        }
        let tens: u64 = 10 * value;
        if d > max - tens {
            return None;
        }
        value = tens + d;
        i = i + 1;
    }
    assert(digits.take(digits.len() as int) =~= digits);
    Some(value)
}

/// The characters of each text.
pub open spec fn texts(v: Seq<String>) -> Seq<Seq<char>> {
    v.map_values(|t: String| t@)
}

/// The number of characters before the first line feed.
pub open spec fn line_end(s: Seq<char>) -> nat
    decreases s.len(),
{
    if s.len() == 0 || s[0] == '\n' {
        0
    } else {
        1 + line_end(s.drop_first())
    }
}

/// A line that a line feed ended, without a carriage return before it.
pub open spec fn without_cr(line: Seq<char>) -> Seq<char> {
    if line.len() > 0 && line.last() == '\r' {
        line.drop_last()
    } else {
        line
    }
}

/// The lines of `s`. A line feed ends a line and takes a carriage return
/// before it along; the last line needs no line feed.
pub open spec fn lines(s: Seq<char>) -> Seq<Seq<char>>
    decreases s.len(),
{
    let end = line_end(s);
    if s.len() == 0 {
        Seq::empty()
    } else if end >= s.len() {
        seq![s]
    } else {
        seq![without_cr(s.take(end as int))] + lines(s.skip(end as int + 1))
    }
}

/// `line_end` found by scanning: the next line feed at or after `from`.
fn find_line_end(cs: &Vec<char>, from: usize) -> (res: usize)
    requires
        from <= cs.len(),
    ensures
        from <= res <= cs.len(),
        res == from + line_end(cs@.skip(from as int)),
        res < cs.len() ==> cs@[res as int] == '\n',
{
    let mut i: usize = from;
    while i < cs.len() && cs[i] != '\n'
        invariant
            from <= i <= cs.len(),
            line_end(cs@.skip(from as int)) == i - from + line_end(cs@.skip(i as int)),
        decreases cs.len() - i,
    {
        proof {
            assert(cs@.skip(i as int).drop_first() =~= cs@.skip(i + 1));
        }
        i = i + 1;
    }
    i
}

/// Splits a text into its lines.
pub fn split_lines(s: &str) -> (res: Vec<String>)
    ensures
        texts(res@) == lines(s@),
{
    let cs = chars_of(s);
    let mut res: Vec<String> = Vec::new();
    let mut p: usize = 0;
    assert(s@.skip(0) =~= s@);
    assert(texts(res@) + lines(s@) =~= lines(s@));
    while p < cs.len()
        invariant
            p <= cs.len(),
            cs@ == s@,
            lines(s@) == texts(res@) + lines(s@.skip(p as int)),
        decreases cs.len() - p,
    {
        let e = find_line_end(&cs, p);
        let ghost rest = s@.skip(p as int);
        let ghost before = texts(res@);
        if e >= cs.len() {
            let line = s.substring_char(p, e);
            assert(line@ =~= rest);
            let line = line.to_owned();
            proof {
                assert(texts(res@.push(line)) =~= before.push(line@));
                assert(s@.skip(cs@.len() as int) =~= Seq::<char>::empty());
                assert(before + seq![rest] =~= before.push(rest) + lines(
                    s@.skip(cs@.len() as int),
                ));
            }
            res.push(line);
            p = e;
        } else {
            let stop: usize = if e > p && cs[e - 1] == '\r' {
                e - 1
            } else {
                e
            };
            let line = s.substring_char(p, stop);
            let line = line.to_owned();
            proof {
                let end = line_end(rest) as int;
                assert(rest.take(end) =~= s@.subrange(p as int, e as int));
                assert(line@ =~= without_cr(rest.take(end)));
                assert(rest.skip(end + 1) =~= s@.skip(e + 1));
                assert(texts(res@.push(line)) =~= before.push(line@));
                assert(before + (seq![line@] + lines(s@.skip(e + 1))) =~= before.push(line@)
                    + lines(s@.skip(e + 1)));
            }
            res.push(line);
            p = e + 1;
        }
    }
    assert(s@.skip(p as int) =~= Seq::<char>::empty());
    assert(texts(res@) + lines(s@.skip(p as int)) =~= texts(res@));
    res
}

} // verus!
