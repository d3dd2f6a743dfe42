//! Text: the few operations on strings that the rest of the crate needs.

use vstd::prelude::*;
use vstd::utf8::is_ascii_chars;

verus! {

broadcast use vstd::string::group_string_axioms;

/// The characters of the Unicode property `White_Space`.
pub open spec fn white_space(c: char) -> bool {
    let n = c as u32;
    ||| 0x9 <= n <= 0xd
    ||| n == 0x20
    ||| n == 0x85
    ||| n == 0xa0
    ||| n == 0x1680
    ||| 0x2000 <= n <= 0x200a
    ||| n == 0x2028
    ||| n == 0x2029
    ||| n == 0x202f
    ||| n == 0x205f
    ||| n == 0x3000
}

/// `s` without its leading white space.
pub open spec fn trimmed_front(s: Seq<char>) -> Seq<char>
    decreases s.len(),
{
    if s.len() > 0 && white_space(s[0]) {
        trimmed_front(s.drop_first())
    } else {
        s
    }
}

/// `s` without its trailing white space.
pub open spec fn trimmed_back(s: Seq<char>) -> Seq<char>
    decreases s.len(),
{
    if s.len() > 0 && white_space(s.last()) {
        trimmed_back(s.drop_last())
    } else {
        s
    }
}

/// `s` without the white space at either end.
pub open spec fn trimmed(s: Seq<char>) -> Seq<char> {
    trimmed_back(trimmed_front(s))
}

/// Nothing but white space, or nothing at all.
pub open spec fn blank(s: Seq<char>) -> bool {
    trimmed(s).len() == 0
}

/// `str::trim`: the text without the white space at either end, where white
/// space is what Unicode's property `White_Space` says.
pub assume_specification[ str::trim ](s: &str) -> (r: &str)
    ensures
        r@ == trimmed(s@),
;

/// `str::trim_end`: the text without its trailing white space.
pub assume_specification[ str::trim_end ](s: &str) -> (r: &str)
    ensures
        r@ == trimmed_back(s@),
;

/// The lowercase form of an ASCII character.
pub open spec fn ascii_lower(c: char) -> char {
    if 'A' <= c && c <= 'Z' {
        ((c as u32) + 32) as char
    } else {
        c
    }
}

/// The lowercase form of a text that is not ASCII, as Unicode defines it.
pub uninterp spec fn unicode_lowercase(s: Seq<char>) -> Seq<char>;

/// The lowercase form of a text.
pub open spec fn lowercase(s: Seq<char>) -> Seq<char> {
    if is_ascii_chars(s) {
        s.map_values(|c: char| ascii_lower(c))
    } else {
        unicode_lowercase(s)
    }
}

/// `str::to_lowercase`: a function of the text alone. On ASCII text it turns
/// each of `A` to `Z` into its small letter and keeps every other character;
/// what it does elsewhere is left to Unicode.
pub assume_specification[ str::to_lowercase ](s: &str) -> (r: String)
    ensures
        r@ == lowercase(s@),
        !is_ascii_chars(s@) ==> r@ == unicode_lowercase(s@),
;

/// `String::push`: one more character at the end.
pub assume_specification[ String::push ](s: &mut String, c: char)
    ensures
        final(s)@ == old(s)@.push(c),
;

/// The two texts hold the same characters.
pub fn same_text(a: &str, b: &str) -> (r: bool)
    ensures
        r == (a@ == b@),
{
    a.to_owned() == b.to_owned()
}

/// The text holds nothing but white space.
pub fn is_blank(s: &str) -> (r: bool)
    ensures
        r == blank(s@),
{
    s.trim().is_empty()
}

/// The characters of a text, one by one.
pub fn chars_of(s: &str) -> (r: Vec<char>)
    ensures
        r@ == s@,
{
    let mut v: Vec<char> = Vec::new();
    for c in it: s.chars()
        invariant
            it.seq() == s@,
            v@ == s@.take(it.index() as int),
    {
        v.push(c);
    }
    assert(s@.take(s@.len() as int) == s@);
    v
}

/// The text made of the characters `v[from..to]`.
pub fn text_of(v: &Vec<char>, from: usize, to: usize) -> (r: String)
    requires
        from <= to <= v@.len(),
    ensures
        r@ == v@.subrange(from as int, to as int),
{
    let mut s = String::new();
    let mut i: usize = from;
    while i < to
        invariant
            from <= i <= to <= v@.len(),
            s@ == v@.subrange(from as int, i as int),
        decreases to - i,
    {
        s.push(v[i]);
        assert(v@.subrange(from as int, i + 1) == v@.subrange(from as int, i as int).push(v@[i as int]));
        i += 1;
    }
    s
}

/// `a` comes before `b` in the order of their code points.
pub open spec fn text_less(a: Seq<char>, b: Seq<char>) -> bool
    decreases a.len(),
{
    if b.len() == 0 {
        false
    } else if a.len() == 0 {
        true
    } else if a[0] != b[0] {
        a[0] < b[0]
    } else {
        text_less(a.drop_first(), b.drop_first())
    }
}

/// No text comes before itself.
pub proof fn text_less_irreflexive(a: Seq<char>)
    ensures
        !text_less(a, a),
    decreases a.len(),
{
    if a.len() > 0 {
        text_less_irreflexive(a.drop_first());
    }
}

/// The order of texts is transitive.
pub proof fn text_less_transitive(a: Seq<char>, b: Seq<char>, c: Seq<char>)
    requires
        text_less(a, b),
        text_less(b, c),
    ensures
        text_less(a, c),
    decreases a.len(),
{
    if a.len() > 0 && b.len() > 0 && c.len() > 0 && a[0] == b[0] && b[0] == c[0] {
        text_less_transitive(a.drop_first(), b.drop_first(), c.drop_first());
    }
}

/// Of two different texts one comes before the other.
pub proof fn text_less_total(a: Seq<char>, b: Seq<char>)
    requires
        a != b,
    ensures
        text_less(a, b) || text_less(b, a),
    decreases a.len(),
{
    if a.len() > 0 && b.len() > 0 && a[0] == b[0] {
        assert(a == seq![a[0]] + a.drop_first());
        assert(b == seq![b[0]] + b.drop_first());
        text_less_total(a.drop_first(), b.drop_first());
    } else if a.len() == 0 && b.len() == 0 {
        assert(a == b);
    }
}

/// Where two texts differ first, the smaller character decides which comes first;
/// where one is the beginning of the other, the shorter one does.
pub proof fn text_less_by_first_difference(a: Seq<char>, b: Seq<char>, n: int)
    requires
        0 <= n <= a.len(),
        n <= b.len(),
        a.take(n) == b.take(n),
        n < a.len() && n < b.len() ==> a[n] != b[n],
    ensures
        n < a.len() && n < b.len() ==> text_less(a, b) == (a[n] < b[n]),
        n == a.len() && n < b.len() ==> text_less(a, b),
        n == b.len() ==> !text_less(a, b),
    decreases n,
{
    if n > 0 {
        assert(a[0] == a.take(n)[0] && b[0] == b.take(n)[0]);
        assert(a.drop_first().take(n - 1) =~= a.take(n).drop_first());
        assert(b.drop_first().take(n - 1) =~= b.take(n).drop_first());
        text_less_by_first_difference(a.drop_first(), b.drop_first(), n - 1);
    }
}

proof fn trimmed_front_cut(s: Seq<char>)
    ensures
        exists|n: int|
            {
                &&& 0 <= n <= s.len()
                &&& #[trigger] s.skip(n) == trimmed_front(s)
                &&& forall|i: int| 0 <= i < n ==> white_space(#[trigger] s[i])
            },
        trimmed_front(s).len() > 0 ==> !white_space(trimmed_front(s)[0]),
    decreases s.len(),
{
    if s.len() > 0 && white_space(s[0]) {
        let rest = s.drop_first();
        trimmed_front_cut(rest);
        let n = choose|n: int|
            {
                &&& 0 <= n <= rest.len()
                &&& #[trigger] rest.skip(n) == trimmed_front(rest)
                &&& forall|i: int| 0 <= i < n ==> white_space(#[trigger] rest[i])
            };
        assert(s.skip(n + 1) =~= rest.skip(n));
        assert forall|i: int| 0 <= i < n + 1 implies white_space(#[trigger] s[i]) by {
            if i > 0 {
                assert(s[i] == rest[i - 1]);
            }
        }
    } else {
        assert(s.skip(0) =~= s);
    }
}

proof fn trimmed_back_cut(s: Seq<char>)
    ensures
        exists|n: int|
            {
                &&& 0 <= n <= s.len()
                &&& #[trigger] s.take(n) == trimmed_back(s)
                &&& forall|i: int| n <= i < s.len() ==> white_space(#[trigger] s[i])
            },
        trimmed_back(s).len() > 0 ==> !white_space(trimmed_back(s).last()),
    decreases s.len(),
{
    if s.len() > 0 && white_space(s.last()) {
        let rest = s.drop_last();
        trimmed_back_cut(rest);
        let n = choose|n: int|
            {
                &&& 0 <= n <= rest.len()
                &&& #[trigger] rest.take(n) == trimmed_back(rest)
                &&& forall|i: int| n <= i < rest.len() ==> white_space(#[trigger] rest[i])
            };
        assert(s.take(n) =~= rest.take(n));
        assert forall|i: int| n <= i < s.len() implies white_space(#[trigger] s[i]) by {
            if i < rest.len() {
                assert(s[i] == rest[i]);
            }
        }
    } else {
        assert(s.take(s.len() as int) =~= s);
    }
}

/// Trimming takes nothing but white space, and only from the ends; what is left
/// neither begins nor ends with any.
pub proof fn trimmed_is_the_middle(s: Seq<char>) -> (cut: (int, int))
    ensures
        0 <= cut.0 <= cut.1 <= s.len(),
        trimmed(s) == s.subrange(cut.0, cut.1),
        forall|i: int| 0 <= i < cut.0 || cut.1 <= i < s.len() ==> white_space(#[trigger] s[i]),
        trimmed(s).len() > 0 ==> !white_space(s[cut.0]) && !white_space(s[cut.1 - 1]),
{
    trimmed_front_cut(s);
    let n = choose|n: int|
        {
            &&& 0 <= n <= s.len()
            &&& #[trigger] s.skip(n) == trimmed_front(s)
            &&& forall|i: int| 0 <= i < n ==> white_space(#[trigger] s[i])
        };
    let rest = s.skip(n);
    trimmed_back_cut(rest);
    let m = choose|m: int|
        {
            &&& 0 <= m <= rest.len()
            &&& #[trigger] rest.take(m) == trimmed_back(rest)
            &&& forall|i: int| m <= i < rest.len() ==> white_space(#[trigger] rest[i])
        };
    assert(rest.take(m) =~= s.subrange(n, n + m));
    assert forall|i: int| 0 <= i < n || n + m <= i < s.len() implies white_space(
        #[trigger] s[i],
    ) by {
        if i >= n + m {
            assert(s[i] == rest[i - n]);
        }
    }
    if m > 0 {
        assert(rest.take(m).last() == s[n + m - 1]);
        assert(s[n] == rest[0]);
    }
    (n, n + m)
}

/// A text is blank just where all of its characters are white space.
pub proof fn blank_is_white_space(s: Seq<char>)
    ensures
        blank(s) <==> forall|i: int| 0 <= i < s.len() ==> white_space(#[trigger] s[i]),
{
    let (n, m) = trimmed_is_the_middle(s);
    if n < m {
        assert(!white_space(s[n]));
    }
}

/// In ASCII text only the capital letters change: each becomes the small letter of
/// the same name.
pub proof fn lowercase_of_ascii(s: Seq<char>)
    requires
        is_ascii_chars(s),
    ensures
        lowercase(s).len() == s.len(),
        forall|i: int|
            0 <= i < s.len() ==> #[trigger] lowercase(s)[i] == (if 'A' <= s[i] && s[i] <= 'Z' {
                ((s[i] as u32) + 32) as char
            } else {
                s[i]
            }),
{
}

/// Whether `a` comes before `b` in the order of their code points.
pub fn less_text(a: &str, b: &str) -> (r: bool)
    ensures
        r == text_less(a@, b@),
{
    let x = chars_of(a);
    let y = chars_of(b);
    let mut i: usize = 0;
    assert(x@.skip(0) == x@);
    assert(y@.skip(0) == y@);
    while i < x.len() && i < y.len()
        invariant
            i <= x@.len(),
            i <= y@.len(),
            x@ == a@,
            y@ == b@,
            text_less(x@, y@) == text_less(x@.skip(i as int), y@.skip(i as int)),
        decreases x@.len() - i,
    {
        if x[i] != y[i] {
            return x[i] < y[i];
        }
        assert(x@.skip(i as int).drop_first() == x@.skip(i + 1));
        assert(y@.skip(i as int).drop_first() == y@.skip(i + 1));
        i += 1;
    }
    i < y.len()
}

/// A decimal digit.
pub open spec fn digit(d: nat) -> char {
    ((48 + d) as u32) as char
}

/// A natural number in decimal, without leading zeros.
pub open spec fn decimal(n: nat) -> Seq<char>
    decreases n,
{
    if n < 10 {
        seq![digit(n)]
    } else {
        decimal(n / 10).push(digit(n % 10))
    }
}

/// An integer in decimal, with a minus sign where it is negative.
pub open spec fn int_decimal(i: int) -> Seq<char> {
    if i < 0 {
        seq!['-'] + decimal((-i) as nat)
    } else {
        decimal(i as nat)
    }
}

/// `n` in decimal.
pub fn decimal_text(n: u128) -> (r: String)
    ensures
        r@ == decimal(n as nat),
    decreases n,
{
    let d: u8 = 48 + (n % 10) as u8;
    let c: char = d as char;
    if n < 10 {
        let mut s = String::new();
        s.push(c);
        s
    } else {
        let mut s = decimal_text(n / 10);
        s.push(c);
        s
    }
}

/// `i` in decimal.
pub fn int_text(i: i64) -> (r: String)
    ensures
        r@ == int_decimal(i as int),
{
    if i < 0 {
        let n: u128 = (-(i as i128)) as u128;
        let mut s = String::new();
        s.push('-');
        s.append(decimal_text(n).as_str());
        s
    } else {
        decimal_text(i as u128)
    }
}

/// Where the first line feed of `s` is, or its length where it has none.
pub open spec fn line_feed_at(s: Seq<char>) -> int
    decreases s.len(),
{
    if s.len() == 0 || s[0] == '\n' {
        0
    } else {
        1 + line_feed_at(s.drop_first())
    }
}

/// A line without the carriage return in front of its line feed.
pub open spec fn without_return(s: Seq<char>) -> Seq<char> {
    if s.len() > 0 && s.last() == '\r' {
        s.drop_last()
    } else {
        s
    }
}

/// The place of the first line feed lies within the text.
pub proof fn line_feed_at_bounds(s: Seq<char>)
    ensures
        0 <= line_feed_at(s) <= s.len(),
        line_feed_at(s) < s.len() ==> s[line_feed_at(s)] == '\n',
    decreases s.len(),
{
    if s.len() > 0 && s[0] != '\n' {
        line_feed_at_bounds(s.drop_first());
    }
}

/// The lines of a text: each ends with a line feed, or with a carriage return
/// and a line feed, which do not belong to it. What follows the last line feed
/// is a line too, unless it is empty.
pub open spec fn lines_of(s: Seq<char>) -> Seq<Seq<char>>
    decreases s.len(),
{
    let n = line_feed_at(s);
    if s.len() == 0 {
        Seq::empty()
    } else if n == s.len() {
        seq![s]
    } else {
        proof {
            line_feed_at_bounds(s);
        }
        seq![without_return(s.take(n))] + lines_of(s.skip(n + 1))
    }
}

/// The views of a vector of texts.
pub open spec fn texts(v: Seq<String>) -> Seq<Seq<char>> {
    v.map_values(|s: String| s@)
}

proof fn line_feed_at_step(s: Seq<char>, i: int)
    requires
        0 <= i < s.len(),
        s[i] != '\n',
        line_feed_at(s) == i + line_feed_at(s.skip(i)),
    ensures
        line_feed_at(s) == i + 1 + line_feed_at(s.skip(i + 1)),
{
    assert(s.skip(i).drop_first() == s.skip(i + 1));
}

/// The lines of a text.
pub fn split_lines(s: &str) -> (r: Vec<String>)
    ensures
        texts(r@) == lines_of(s@),
{
    let v = chars_of(s);
    let mut lines: Vec<String> = Vec::new();
    let mut start: usize = 0;
    assert(v@.skip(0) == v@);
    assert(texts(lines@) + lines_of(v@) == lines_of(v@));
    while start < v.len()
        invariant
            start <= v@.len(),
            texts(lines@) + lines_of(v@.skip(start as int)) == lines_of(v@),
        decreases v@.len() - start,
    {
        let ghost rest = v@.skip(start as int);
        let ghost before = texts(lines@);
        let mut i: usize = start;
        assert(rest.skip(0) == rest);
        while i < v.len() && v[i] != '\n'
            invariant
                start <= i <= v@.len(),
                rest == v@.skip(start as int),
                line_feed_at(rest) == i - start + line_feed_at(rest.skip(i - start)),
            decreases v@.len() - i,
        {
            proof {
                line_feed_at_step(rest, i - start);
            }
            i += 1;
        }
        let ghost n = line_feed_at(rest);
        assert(n == i - start);
        if i == v.len() {
            let line = text_of(&v, start, i);
            assert(line@ == rest);
            lines.push(line);
            assert(lines_of(rest) == seq![rest]);
            assert(texts(lines@) == before + seq![rest]);
            start = i;
            assert(v@.skip(start as int) == Seq::<char>::empty());
            assert(texts(lines@) + lines_of(v@.skip(start as int)) == before + lines_of(rest));
        } else {
            let end: usize = if i > start && v[i - 1] == '\r' { i - 1 } else { i };
            let line = text_of(&v, start, end);
            assert(rest.take(n) == v@.subrange(start as int, i as int));
            assert(line@ == without_return(rest.take(n)));
            lines.push(line);
            assert(texts(lines@) == before.push(line@));
            assert(rest.skip(n + 1) == v@.skip(i + 1));
            assert(lines_of(rest) == seq![line@] + lines_of(v@.skip(i + 1)));
            assert(texts(lines@) + lines_of(v@.skip(i + 1)) == before + lines_of(rest));
            start = i + 1;
        }
    }
    assert(v@.skip(start as int) == Seq::<char>::empty());
    assert(texts(lines@) == lines_of(v@));
    lines
}

/// An ASCII letter.
pub open spec fn ascii_letter(c: char) -> bool {
    ('a' <= c && c <= 'z') || ('A' <= c && c <= 'Z')
}

/// An ASCII decimal digit.
pub open spec fn ascii_digit(c: char) -> bool {
    '0' <= c && c <= '9'
}

/// Whether `c` is an ASCII letter.
pub fn is_ascii_letter(c: char) -> (r: bool)
    ensures
        r == ascii_letter(c),
{
    let n: u32 = c as u32;
    (97 <= n && n <= 122) || (65 <= n && n <= 90)
}

/// Whether `c` is an ASCII decimal digit.
pub fn is_ascii_digit(c: char) -> (r: bool)
    ensures
        r == ascii_digit(c),
{
    let n: u32 = c as u32;
    48 <= n && n <= 57
}

/// The number that digits stand for.
pub open spec fn number_of(digits: Seq<char>) -> int
    decreases digits.len(),
{
    if digits.len() == 0 {
        0
    } else {
        10 * number_of(digits.drop_last()) + (digits.last() as int - '0' as int)
    }
}

/// A number in decimal is made of digits, stands for the number, and has no zero in
/// front that could be left out.
pub proof fn decimal_stands_for_its_number(n: nat)
    ensures
        number_of(decimal(n)) == n,
        decimal(n).len() > 0,
        forall|i: int| 0 <= i < decimal(n).len() ==> '0' <= #[trigger] decimal(n)[i] <= '9',
        n > 0 ==> decimal(n)[0] != '0',
    decreases n,
{
    if n < 10 {
        let digits = decimal(n);
        assert(digits.drop_last().len() == 0);
        assert(number_of(digits.drop_last()) == 0);
        assert(digits.last() == digit(n));
    } else {
        let front = decimal(n / 10);
        let last = digit(n % 10);
        decimal_stands_for_its_number(n / 10);
        assert(decimal(n).drop_last() =~= front);
        assert forall|i: int| 0 <= i < decimal(n).len() implies '0' <= #[trigger] decimal(n)[i]
            <= '9' by {
            if i < front.len() {
                assert(decimal(n)[i] == front[i]);
            }
        }
        assert(decimal(n)[0] == front[0]);
    }
}

/// A negative number in decimal is a minus sign with the number without its sign behind
/// it; no other has one.
pub proof fn negative_numbers_have_a_minus_sign(i: int)
    ensures
        i < 0 ==> int_decimal(i)[0] == '-' && number_of(int_decimal(i).skip(1)) == -i,
        i >= 0 ==> int_decimal(i)[0] != '-' && number_of(int_decimal(i)) == i,
{
    if i < 0 {
        decimal_stands_for_its_number((-i) as nat);
        assert(int_decimal(i).skip(1) =~= decimal((-i) as nat));
    } else {
        decimal_stands_for_its_number(i as nat);
        assert('0' <= decimal(i as nat)[0]);
    }
}

}
