//! Templates of the plain kind: names with attributes, texts and small numbers, a
//! few filters and tests, comparisons, conditions, and loops that are not nested.

use vstd::prelude::*;

use crate::text::{
    ascii_digit, ascii_letter, chars_of, is_ascii_digit, is_ascii_letter, same_text, text_of,
};

verus! {

broadcast use vstd::string::group_string_axioms;

/// A piece of what stands between the marks of a tag.
#[derive(Clone, Copy, PartialEq, Eq, Structural)]
pub enum Piece {
    /// A word that has none of the meanings below.
    Name,
    /// A word that names a filter other than `join`.
    Filter,
    /// The word `join`.
    Join,
    /// A word that names a test.
    Test,
    Is,
    Not,
    If,
    ElIf,
    Else,
    EndIf,
    For,
    EndFor,
    /// A text in quotes.
    Literal,
    /// An integer of at most nine digits.
    Number,
    Dot,
    Pipe,
    Open,
    Close,
    /// `==`, `!=`, `<`, `<=`, `>`, `>=` or `~`.
    Operator,
}

/// Space between pieces.
pub open spec fn space(c: char) -> bool {
    c == ' ' || c == '\t' || c == '\n' || c == '\r'
}

/// What a word begins with.
pub open spec fn word_start(c: char) -> bool {
    ascii_letter(c) || c == '_'
}

/// What a word goes on with.
pub open spec fn word_char(c: char) -> bool {
    word_start(c) || ascii_digit(c)
}

/// Where the word that goes on at a place ends.
pub open spec fn word_end(s: Seq<char>, i: int) -> int
    decreases s.len() - i,
{
    if 0 <= i < s.len() && word_char(s[i]) {
        word_end(s, i + 1)
    } else {
        i
    }
}

/// What a word is. Some words have no place in a plain template: those that name
/// functions, and the one that makes a loop call itself.
pub open spec fn word_piece(w: Seq<char>) -> Option<Piece> {
    if w == "recursive"@ || w == "range"@ || w == "dict"@ || w == "debug"@ || w
        == "namespace"@ {
        None
    } else if w == "join"@ {
        Some(Piece::Join)
    } else if w == "upper"@ || w == "lower"@ || w == "title"@ || w == "capitalize"@ || w == "trim"@
        || w == "length"@ || w == "count"@ || w == "first"@ || w == "last"@ || w == "default"@ || w
        == "d"@ {
        Some(Piece::Filter)
    } else if w == "none"@ || w == "defined"@ || w == "undefined"@ {
        Some(Piece::Test)
    } else if w == "is"@ {
        Some(Piece::Is)
    } else if w == "not"@ {
        Some(Piece::Not)
    } else if w == "if"@ {
        Some(Piece::If)
    } else if w == "elif"@ {
        Some(Piece::ElIf)
    } else if w == "else"@ {
        Some(Piece::Else)
    } else if w == "endif"@ {
        Some(Piece::EndIf)
    } else if w == "for"@ {
        Some(Piece::For)
    } else if w == "endfor"@ {
        Some(Piece::EndFor)
    } else {
        Some(Piece::Name)
    }
}

/// An integer of at most nine digits stands there.
pub open spec fn small_number(s: Seq<char>, i: int, end: int) -> bool {
    end - i <= 9 && forall|k: int| i <= k < end ==> ascii_digit(#[trigger] s[k])
}

/// Where a text in quotes ends: at the next such quote. A plain text has no
/// backslash and no brace.
pub open spec fn quote_end(s: Seq<char>, i: int, quote: char) -> Option<int>
    decreases s.len() - i,
{
    if i < 0 || i >= s.len() {
        None
    } else if s[i] == quote {
        Some(i)
    } else if s[i] == '\\' || s[i] == '{' || s[i] == '}' {
        None
    } else {
        quote_end(s, i + 1, quote)
    }
}

/// A piece before others.
pub open spec fn piece_before(p: Piece, rest: Option<Seq<Piece>>) -> Option<Seq<Piece>> {
    match rest {
        Some(ps) => Some(seq![p] + ps),
        None => None,
    }
}

/// The pieces from a place on, where all is made of them.
pub open spec fn pieces(s: Seq<char>, i: int) -> Option<Seq<Piece>>
    decreases s.len() - i,
{
    if i < 0 || i >= s.len() {
        Some(Seq::empty())
    } else if space(s[i]) {
        pieces(s, i + 1)
    } else if word_start(s[i]) {
        let end = word_end(s, i + 1);
        match word_piece(s.subrange(i, end)) {
            Some(p) if i < end <= s.len() => piece_before(p, pieces(s, end)),
            _ => None,
        }
    } else if ascii_digit(s[i]) {
        let end = word_end(s, i + 1);
        if i < end <= s.len() && small_number(s, i, end) {
            piece_before(Piece::Number, pieces(s, end))
        } else {
            None
        }
    } else if s[i] == '"' || s[i] == '\'' {
        match quote_end(s, i + 1, s[i]) {
            Some(end) if i < end < s.len() => piece_before(Piece::Literal, pieces(s, end + 1)),
            _ => None,
        }
    } else if s[i] == '.' {
        piece_before(Piece::Dot, pieces(s, i + 1))
    } else if s[i] == '|' {
        piece_before(Piece::Pipe, pieces(s, i + 1))
    } else if s[i] == '(' {
        piece_before(Piece::Open, pieces(s, i + 1))
    } else if s[i] == ')' {
        piece_before(Piece::Close, pieces(s, i + 1))
    } else if (s[i] == '=' || s[i] == '!') && i + 1 < s.len() && s[i + 1] == '=' {
        piece_before(Piece::Operator, pieces(s, i + 2))
    } else if (s[i] == '<' || s[i] == '>') && i + 1 < s.len() && s[i + 1] == '=' {
        piece_before(Piece::Operator, pieces(s, i + 2))
    } else if s[i] == '<' || s[i] == '>' || s[i] == '~' {
        piece_before(Piece::Operator, pieces(s, i + 1))
    } else {
        None
    }
}

/// A piece has its place among the others: a filter with a name of one word
/// stands behind a pipe, and such a test behind `is` or `is not`; brackets hold
/// the one literal that a filter is given; nothing is joined twice; and a number
/// stands neither before a dot nor behind one.
pub open spec fn piece_fits(ps: Seq<Piece>, k: int) -> bool {
    match ps[k] {
        Piece::Pipe => {
            &&& k + 1 < ps.len()
            &&& ps[k + 1] == Piece::Filter || ps[k + 1] == Piece::Join
            &&& k + 2 < ps.len() ==> ps[k + 2] != Piece::Dot
        },
        Piece::Open => {
            &&& 2 <= k < ps.len() - 2
            &&& ps[k - 2] == Piece::Pipe
            &&& ps[k + 1] == Piece::Literal
            &&& ps[k + 2] == Piece::Close
        },
        Piece::Close => 2 <= k && ps[k - 2] == Piece::Open,
        Piece::Join => !ps.take(k).contains(Piece::Join),
        Piece::Is => {
            let name = if k + 1 < ps.len() && ps[k + 1] == Piece::Not {
                k + 2
            } else {
                k + 1
            };
            &&& name < ps.len()
            &&& ps[name] == Piece::Test
            &&& name + 1 < ps.len() ==> ps[name + 1] != Piece::Dot
        },
        Piece::Number => k > 0 ==> ps[k - 1] != Piece::Dot,
        Piece::Dot => k > 0 ==> ps[k - 1] != Piece::Number,
        _ => true,
    }
}

/// Every piece has its place.
pub open spec fn plain_pieces(ps: Seq<Piece>) -> bool {
    forall|k: int| 0 <= k < ps.len() ==> #[trigger] piece_fits(ps, k)
}

/// What stands in a tag, without the dashes that take away the space around it.
pub open spec fn tag_inside(s: Seq<char>) -> Seq<char> {
    let rest = if s.len() > 0 && s[0] == '-' {
        s.skip(1)
    } else {
        s
    };
    if rest.len() > 0 && rest.last() == '-' {
        rest.drop_last()
    } else {
        rest
    }
}

/// The pieces of a tag, where it is a plain one, which is also a short one.
pub open spec fn tag_pieces(s: Seq<char>) -> Option<Seq<Piece>> {
    match pieces(tag_inside(s), 0) {
        Some(ps) if s.len() <= 256 && plain_pieces(ps) => Some(ps),
        _ => None,
    }
}

/// Where two characters come one after the other first, from a place on.
pub open spec fn pair_at(s: Seq<char>, i: int, a: char, b: char) -> Option<int>
    decreases s.len() - i,
{
    if i < 0 || i + 1 >= s.len() {
        None
    } else if s[i] == a && s[i + 1] == b {
        Some(i)
    } else {
        pair_at(s, i + 1, a, b)
    }
}

/// How many blocks are open, whether a loop is among them, and how often a
/// condition went on with another one.
#[derive(Clone, Copy, PartialEq, Eq, Structural)]
pub struct Nesting {
    pub blocks: u8,
    pub looping: bool,
    pub others: u8,
}

/// The nesting behind a tag that begins, divides or ends a block. Blocks nest
/// sixteen deep, and loops not at all; thirty-two times a condition may go on with
/// another one.
pub open spec fn nested(now: Nesting, ps: Seq<Piece>) -> Option<Nesting> {
    if ps.len() == 0 {
        None
    } else {
        match ps[0] {
            Piece::If if now.blocks < 16 => Some(Nesting { blocks: (now.blocks + 1) as u8, ..now }),
            Piece::For if now.blocks < 16 && !now.looping => Some(
                Nesting { blocks: (now.blocks + 1) as u8, looping: true, ..now },
            ),
            Piece::ElIf if now.others < 32 => Some(Nesting { others: (now.others + 1) as u8, ..now }),
            Piece::Else => Some(now),
            Piece::EndIf if now.blocks > 0 => Some(
                Nesting { blocks: (now.blocks - 1) as u8, ..now },
            ),
            Piece::EndFor if now.blocks > 0 => Some(
                Nesting { blocks: (now.blocks - 1) as u8, looping: false, ..now },
            ),
            _ => None,
        }
    }
}

/// A template is plain from a place on, with those blocks open there.
pub open spec fn plain_from(s: Seq<char>, i: int, now: Nesting) -> bool
    decreases s.len() - i,
{
    if i < 0 || i + 1 >= s.len() {
        true
    } else if s[i] == '{' && s[i + 1] == '#' {
        match pair_at(s, i + 2, '#', '}') {
            Some(end) => i + 2 <= end <= s.len() - 2 && plain_from(s, end + 2, now),
            None => false,
        }
    } else if s[i] == '{' && s[i + 1] == '{' {
        match pair_at(s, i + 2, '}', '}') {
            Some(end) => i + 2 <= end <= s.len() - 2 && tag_pieces(s.subrange(i + 2, end)) is Some && plain_from(
                s,
                end + 2,
                now,
            ),
            None => false,
        }
    } else if s[i] == '{' && s[i + 1] == '%' {
        match pair_at(s, i + 2, '%', '}') {
            Some(end) => i + 2 <= end <= s.len() - 2 && match tag_pieces(s.subrange(i + 2, end)) {
                Some(ps) => match nested(now, ps) {
                    Some(after) => plain_from(s, end + 2, after),
                    None => false,
                },
                None => false,
            },
            None => false,
        }
    } else {
        plain_from(s, i + 1, now)
    }
}

/// A template is plain: text, comments, and tags that are plain and short.
pub open spec fn plain_template(s: Seq<char>) -> bool {
    plain_from(s, 0, Nesting { blocks: 0, looping: false, others: 0 })
}

fn is_space(c: char) -> (r: bool)
    ensures
        r == space(c),
{
    c == ' ' || c == '\t' || c == '\n' || c == '\r'
}

fn is_word_start(c: char) -> (r: bool)
    ensures
        r == word_start(c),
{
    is_ascii_letter(c) || c == '_'
}

fn find_word_end(v: &Vec<char>, from: usize) -> (r: usize)
    requires
        from <= v@.len(),
    ensures
        from <= r <= v@.len(),
        r == word_end(v@, from as int),
{
    let mut i: usize = from;
    while i < v.len() && (is_word_start(v[i]) || is_ascii_digit(v[i]))
        invariant
            from <= i <= v@.len(),
            word_end(v@, from as int) == word_end(v@, i as int),
        decreases v@.len() - i,
    {
        i += 1;
    }
    i
}

fn find_quote_end(v: &Vec<char>, from: usize, quote: char) -> (r: Option<usize>)
    requires
        from <= v@.len(),
    ensures
        match r {
            Some(end) => from <= end < v@.len() && quote_end(v@, from as int, quote) == Some(
                end as int,
            ),
            None => quote_end(v@, from as int, quote) is None,
        },
{
    let mut i: usize = from;
    while i < v.len()
        invariant
            from <= i <= v@.len(),
            quote_end(v@, from as int, quote) == quote_end(v@, i as int, quote),
        decreases v@.len() - i,
    {
        if v[i] == quote {
            return Some(i);
        }
        if v[i] == '\\' || v[i] == '{' || v[i] == '}' {
            return None;
        }
        i += 1;
    }
    None
}

fn find_pair(v: &Vec<char>, from: usize, a: char, b: char) -> (r: Option<usize>)
    requires
        from <= v@.len(),
    ensures
        match r {
            Some(end) => from <= end < v@.len() - 1 && pair_at(v@, from as int, a, b) == Some(
                end as int,
            ),
            None => pair_at(v@, from as int, a, b) is None,
        },
{
    let mut i: usize = from;
    while i < v.len() && v.len() - i > 1
        invariant
            from <= i <= v@.len(),
            pair_at(v@, from as int, a, b) == pair_at(v@, i as int, a, b),
        decreases v@.len() - i,
    {
        if v[i] == a && v[i + 1] == b {
            return Some(i);
        }
        i += 1;
    }
    None
}

fn is_small_number(v: &Vec<char>, from: usize, to: usize) -> (r: bool)
    requires
        from <= to <= v@.len(),
    ensures
        r == small_number(v@, from as int, to as int),
{
    let mut i: usize = from;
    while i < to
        invariant
            from <= i <= to <= v@.len(),
            forall|k: int| from <= k < i ==> ascii_digit(#[trigger] v@[k]),
        decreases to - i,
    {
        if !is_ascii_digit(v[i]) {
            return false;
        }
        i += 1;
    }
    to - from <= 9
}

fn piece_of(word: &str) -> (r: Option<Piece>)
    ensures
        r == word_piece(word@),
{
    if same_text(word, "recursive") || same_text(word, "range") || same_text(word, "dict") || same_text(word, "debug") || same_text(word, "namespace") {
        None
    } else if same_text(word, "join") {
        Some(Piece::Join)
    } else if same_text(word, "upper") || same_text(word, "lower") || same_text(word, "title")
        || same_text(word, "capitalize") || same_text(word, "trim") || same_text(word, "length")
        || same_text(word, "count") || same_text(word, "first") || same_text(word, "last")
        || same_text(word, "default") || same_text(word, "d") {
        Some(Piece::Filter)
    } else if same_text(word, "none") || same_text(word, "defined") || same_text(
        word,
        "undefined",
    ) {
        Some(Piece::Test)
    } else if same_text(word, "is") {
        Some(Piece::Is)
    } else if same_text(word, "not") {
        Some(Piece::Not)
    } else if same_text(word, "if") {
        Some(Piece::If)
    } else if same_text(word, "elif") {
        Some(Piece::ElIf)
    } else if same_text(word, "else") {
        Some(Piece::Else)
    } else if same_text(word, "endif") {
        Some(Piece::EndIf)
    } else if same_text(word, "for") {
        Some(Piece::For)
    } else if same_text(word, "endfor") {
        Some(Piece::EndFor)
    } else {
        Some(Piece::Name)
    }
}

/// The pieces that were read, before those that are still to be read.
spec fn read_on(read: Seq<Piece>, rest: Option<Seq<Piece>>) -> Option<Seq<Piece>> {
    match rest {
        Some(ps) => Some(read + ps),
        None => None,
    }
}

proof fn read_on_step(read: Seq<Piece>, p: Piece, rest: Option<Seq<Piece>>)
    ensures
        read_on(read.push(p), rest) == read_on(read, piece_before(p, rest)),
{
    match rest {
        Some(ps) => {
            assert(read.push(p) + ps =~= read + (seq![p] + ps));
        },
        None => {},
    }
}

fn read_pieces(v: &Vec<char>) -> (r: Option<Vec<Piece>>)
    ensures
        match r {
            Some(ps) => pieces(v@, 0) == Some(ps@),
            None => pieces(v@, 0) is None,
        },
{
    let mut read: Vec<Piece> = Vec::new();
    let mut i: usize = 0;
    proof {
        match pieces(v@, 0) {
            Some(ps) => {
                assert(read@ + ps =~= ps);
            },
            None => {},
        }
    }
    while i < v.len()
        invariant
            i <= v@.len(),
            pieces(v@, 0) == read_on(read@, pieces(v@, i as int)),
        decreases v@.len() - i,
    {
        let c = v[i];
        if is_space(c) {
            i += 1;
            continue ;
        }
        let piece: Piece;
        let next: usize;
        if is_word_start(c) {
            let end: usize = find_word_end(v, i + 1);
            match piece_of(text_of(v, i, end).as_str()) {
                Some(p) => {
                    piece = p;
                    next = end;
                },
                None => {
                    return None;
                },
            }
        } else if is_ascii_digit(c) {
            let end: usize = find_word_end(v, i + 1);
            if !is_small_number(v, i, end) {
                return None;
            }
            piece = Piece::Number;
            next = end;
        } else if c == '"' || c == '\'' {
            match find_quote_end(v, i + 1, c) {
                Some(end) => {
                    piece = Piece::Literal;
                    next = end + 1;
                },
                None => {
                    return None;
                },
            }
        } else if c == '.' {
            piece = Piece::Dot;
            next = i + 1;
        } else if c == '|' {
            piece = Piece::Pipe;
            next = i + 1;
        } else if c == '(' {
            piece = Piece::Open;
            next = i + 1;
        } else if c == ')' {
            piece = Piece::Close;
            next = i + 1;
        } else if (c == '=' || c == '!') && v.len() - i > 1 && v[i + 1] == '=' {
            piece = Piece::Operator;
            next = i + 2;
        } else if (c == '<' || c == '>') && v.len() - i > 1 && v[i + 1] == '=' {
            piece = Piece::Operator;
            next = i + 2;
        } else if c == '<' || c == '>' || c == '~' {
            piece = Piece::Operator;
            next = i + 1;
        } else {
            return None;
        }
        proof {
            assert(pieces(v@, i as int) == piece_before(piece, pieces(v@, next as int)));
            read_on_step(read@, piece, pieces(v@, next as int));
        }
        read.push(piece);
        i = next;
    }
    assert(read@ + Seq::<Piece>::empty() =~= read@);
    Some(read)
}

fn is_plain_pieces(ps: &Vec<Piece>) -> (r: bool)
    ensures
        r == plain_pieces(ps@),
{
    let mut i: usize = 0;
    let mut joined: bool = false;
    while i < ps.len()
        invariant
            i <= ps@.len(),
            forall|k: int| 0 <= k < i ==> #[trigger] piece_fits(ps@, k),
            joined == ps@.take(i as int).contains(Piece::Join),
        decreases ps@.len() - i,
    {
        let left: usize = ps.len() - i;
        let fits = match ps[i] {
            Piece::Pipe => left > 1 && (ps[i + 1] == Piece::Filter || ps[i + 1] == Piece::Join) && (
            left <= 2 || ps[i + 2] != Piece::Dot),
            Piece::Open => i >= 2 && left > 2 && ps[i - 2] == Piece::Pipe && ps[i + 1]
                == Piece::Literal && ps[i + 2] == Piece::Close,
            Piece::Close => i >= 2 && ps[i - 2] == Piece::Open,
            Piece::Join => !joined,
            Piece::Is => {
                let skip: usize = if left > 1 && ps[i + 1] == Piece::Not {
                    2
                } else {
                    1
                };
                left > skip && ps[i + skip] == Piece::Test && (left <= skip + 1 || ps[i + skip + 1]
                    != Piece::Dot)
            },
            Piece::Number => i == 0 || ps[i - 1] != Piece::Dot,
            Piece::Dot => i == 0 || ps[i - 1] != Piece::Number,
            _ => true,
        };
        assert(fits == piece_fits(ps@, i as int));
        if !fits {
            return false;
        }
        proof {
            let before = ps@.take(i as int);
            let upto = ps@.take(i + 1);
            assert(upto =~= before.push(ps@[i as int]));
            if before.contains(Piece::Join) {
                let k = choose|k: int| 0 <= k < before.len() && before[k] == Piece::Join;
                assert(upto[k] == Piece::Join);
            }
            if ps@[i as int] == Piece::Join {
                assert(upto[i as int] == Piece::Join);
            }
            if upto.contains(Piece::Join) {
                let k = choose|k: int| 0 <= k < upto.len() && upto[k] == Piece::Join;
                if k < i {
                    assert(before[k] == Piece::Join);
                }
            }
        }
        if ps[i] == Piece::Join {
            joined = true;
        }
        i += 1;
    }
    true
}

fn read_tag(v: &Vec<char>, from: usize, to: usize) -> (r: Option<Vec<Piece>>)
    requires
        from <= to <= v@.len(),
    ensures
        match r {
            Some(ps) => tag_pieces(v@.subrange(from as int, to as int)) == Some(ps@),
            None => tag_pieces(v@.subrange(from as int, to as int)) is None,
        },
{
    let ghost tag = v@.subrange(from as int, to as int);
    let mut start: usize = from;
    let mut end: usize = to;
    if start < end && v[start] == '-' {
        start += 1;
    }
    if start < end && v[end - 1] == '-' {
        end -= 1;
    }
    let inside = chars_of(text_of(v, start, end).as_str());
    assert(inside@ =~= tag_inside(tag));
    match read_pieces(&inside) {
        Some(ps) => if to - from <= 256 && is_plain_pieces(&ps) {
            Some(ps)
        } else {
            None
        },
        None => None,
    }
}

fn nest(now: Nesting, ps: &Vec<Piece>) -> (r: Option<Nesting>)
    ensures
        r == nested(now, ps@),
{
    if ps.len() == 0 {
        return None;
    }
    match ps[0] {
        Piece::If => if now.blocks < 16 {
            Some(Nesting { blocks: now.blocks + 1, ..now })
        } else {
            None
        },
        Piece::For => if now.blocks < 16 && !now.looping {
            Some(Nesting { blocks: now.blocks + 1, looping: true, ..now })
        } else {
            None
        },
        Piece::ElIf => if now.others < 32 {
            Some(Nesting { others: now.others + 1, ..now })
        } else {
            None
        },
        Piece::Else => Some(now),
        Piece::EndIf => if now.blocks > 0 {
            Some(Nesting { blocks: now.blocks - 1, ..now })
        } else {
            None
        },
        Piece::EndFor => if now.blocks > 0 {
            Some(Nesting { blocks: now.blocks - 1, looping: false, ..now })
        } else {
            None
        },
        _ => None,
    }
}

/// A template is plain: text, comments, and tags that are plain and short.
pub fn is_plain_template(source: &str) -> (r: bool)
    ensures
        r == plain_template(source@),
{
    let v = chars_of(source);
    let mut now = Nesting { blocks: 0, looping: false, others: 0 };
    let mut i: usize = 0;
    while i < v.len() && v.len() - i > 1
        invariant
            v@ == source@,
            i <= v@.len(),
            plain_template(source@) == plain_from(v@, i as int, now),
        decreases v@.len() - i,
    {
        if v[i] != '{' || (v[i + 1] != '#' && v[i + 1] != '{' && v[i + 1] != '%') {
            i += 1;
        } else if v[i + 1] == '#' {
            match find_pair(&v, i + 2, '#', '}') {
                Some(end) => {
                    i = end + 2;
                },
                None => {
                    return false;
                },
            }
        } else if v[i + 1] == '{' {
            match find_pair(&v, i + 2, '}', '}') {
                Some(end) => match read_tag(&v, i + 2, end) {
                    Some(_) => {
                        i = end + 2;
                    },
                    None => {
                        return false;
                    },
                },
                None => {
                    return false;
                },
            }
        } else {
            match find_pair(&v, i + 2, '%', '}') {
                Some(end) => match read_tag(&v, i + 2, end) {
                    Some(ps) => match nest(now, &ps) {
                        Some(after) => {
                            now = after;
                            i = end + 2;
                        },
                        None => {
                            return false;
                        },
                    },
                    None => {
                        return false;
                    },
                },
                None => {
                    return false;
                },
            }
        }
    }
    true
}

}
