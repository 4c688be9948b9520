//! Work on text, character by character.
//!
//! Contracts speak of a text by its view, the sequence of its characters.
//! What is computed here is computed on vectors of characters and turned
//! into a `String` at the end.

use vstd::prelude::*;

verus! {

/// `String::push` appends one character.
pub assume_specification[ String::push ](s: &mut String, c: char)
    ensures
        final(s)@ == old(s)@.push(c),
;

/// The characters of `s`, one by one.
pub fn chars_of(s: &str) -> (r: Vec<char>)
    ensures
        r@ == s@,
{
    let mut r: Vec<char> = Vec::new();
    for c in it: s.chars()
        invariant
            r@ == it.seq().take(it.index() as int),
            it.seq() == s@,
    {
        r.push(c);
    }
    r
}

/// The text whose characters are `chars`.
pub fn string_of(chars: &Vec<char>) -> (r: String)
    ensures
        r@ == chars@,
{
    let mut r = String::new();
    let mut i: usize = 0;
    while i < chars.len()
        invariant
            i <= chars.len(),
            r@ == chars@.take(i as int),
        decreases chars.len() - i,
    {
        r.push(chars[i]);
        i = i + 1;
    }
    r
}

/// The text of an optional text, empty where there is none.
pub open spec fn spec_text_or_empty(text: Option<String>) -> Seq<char> {
    match text {
        Some(t) => t@,
        None => Seq::empty(),
    }
}

/// Whether two texts hold the same characters.
pub fn same(a: &str, b: &str) -> (r: bool)
    ensures
        r == (a@ == b@),
{
    let x = a.to_owned();
    let y = b.to_owned();
    x == y
}

/// The decimal digit of `d`.
pub open spec fn spec_digit(d: int) -> char {
    if d == 0 {
        '0'
    } else if d == 1 {
        '1'
    } else if d == 2 {
        '2'
    } else if d == 3 {
        '3'
    } else if d == 4 {
        '4'
    } else if d == 5 {
        '5'
    } else if d == 6 {
        '6'
    } else if d == 7 {
        '7'
    } else if d == 8 {
        '8'
    } else {
        '9'
    }
}

/// The decimal digits of `n`, without leading zeros.
pub open spec fn spec_decimal(n: nat) -> Seq<char>
    decreases n,
{
    if n < 10 {
        seq![spec_digit(n as int)]
    } else {
        spec_decimal(n / 10).push(spec_digit((n % 10) as int))
    }
}

/// The decimal digits of `n`, filled up with zeros in front to at least two.
pub open spec fn spec_decimal2(n: nat) -> Seq<char> {
    if n < 10 {
        seq!['0'] + spec_decimal(n)
    } else {
        spec_decimal(n)
    }
}

/// The decimal digit of `d`.
pub fn digit(d: u128) -> (r: char)
    requires
        d < 10,
    ensures
        r == spec_digit(d as int),
{
    if d == 0 {
        '0'
    } else if d == 1 {
        '1'
    } else if d == 2 {
        '2'
    } else if d == 3 {
        '3'
    } else if d == 4 {
        '4'
    } else if d == 5 {
        '5'
    } else if d == 6 {
        '6'
    } else if d == 7 {
        '7'
    } else if d == 8 {
        '8'
    } else {
        '9'
    }
}

/// Appends the decimal digits of `n` to `out`.
pub fn push_decimal(out: &mut Vec<char>, n: u128)
    ensures
        final(out)@ == old(out)@ + spec_decimal(n as nat),
    decreases n,
{
    if n >= 10 {
        push_decimal(out, n / 10);
    }
    out.push(digit(n % 10));
    assert(out@ =~= old(out)@ + spec_decimal(n as nat));
}

/// The decimal digits of `n`, without leading zeros.
pub fn decimal(n: u128) -> (r: String)
    ensures
        r@ == spec_decimal(n as nat),
{
    let mut out: Vec<char> = Vec::new();
    push_decimal(&mut out, n);
    assert(out@ =~= spec_decimal(n as nat));
    string_of(&out)
}

/// The decimal digits of the whole number `n`, with its sign where it is
/// negative.
pub open spec fn spec_signed(n: int) -> Seq<char> {
    if n < 0 {
        seq!['-'] + spec_decimal((-n) as nat)
    } else {
        spec_decimal(n as nat)
    }
}

/// The decimal digits of the whole number `n` in at least two places: a
/// number of one digit gets a zero in front, a negative number its sign.
pub open spec fn spec_signed2(n: int) -> Seq<char> {
    if n < 0 {
        seq!['-'] + spec_decimal((-n) as nat)
    } else {
        spec_decimal2(n as nat)
    }
}

/// The negative number `n` without its sign.
pub fn magnitude(n: i128) -> (r: u128)
    requires
        n < 0,
    ensures
        r == -n,
{
    if n == i128::MIN {
        0x8000_0000_0000_0000_0000_0000_0000_0000u128
    } else {
        (-n) as u128
    }
}

/// Appends the decimal digits of `n` to `out`, filled up with a zero in
/// front to at least two.
pub fn push_decimal2(out: &mut Vec<char>, n: u128)
    ensures
        final(out)@ == old(out)@ + spec_decimal2(n as nat),
{
    if n < 10 {
        out.push('0');
    }
    push_decimal(out, n);
    assert(out@ =~= old(out)@ + spec_decimal2(n as nat));
}

/// Appends the decimal digits of `n` to `out`, with its sign where it is
/// negative.
pub fn push_signed(out: &mut Vec<char>, n: i128)
    ensures
        final(out)@ == old(out)@ + spec_signed(n as int),
{
    if n < 0 {
        out.push('-');
        push_decimal(out, magnitude(n));
    } else {
        push_decimal(out, n as u128);
    }
    assert(out@ =~= old(out)@ + spec_signed(n as int));
}

/// Appends the decimal digits of `n` to `out` in at least two places.
pub fn push_signed2(out: &mut Vec<char>, n: i128)
    ensures
        final(out)@ == old(out)@ + spec_signed2(n as int),
{
    if n < 0 {
        out.push('-');
        push_decimal(out, magnitude(n));
    } else {
        push_decimal2(out, n as u128);
    }
    assert(out@ =~= old(out)@ + spec_signed2(n as int));
}

/// Appends the characters of `s` to `out`.
pub fn push_str(out: &mut Vec<char>, s: &str)
    ensures
        final(out)@ == old(out)@ + s@,
{
    for c in it: s.chars()
        invariant
            out@ == old(out)@ + it.seq().take(it.index() as int),
            it.seq() == s@,
    {
        out.push(c);
        assert(it.seq().take(it.index() + 1) =~= it.seq().take(it.index() as int).push(c));
    }
    assert(s@.take(s@.len() as int) =~= s@);
}

/// Appends `other` to `out`.
pub fn push_chars(out: &mut Vec<char>, other: &Vec<char>)
    ensures
        final(out)@ == old(out)@ + other@,
{
    let mut i: usize = 0;
    while i < other.len()
        invariant
            i <= other.len(),
            out@ == old(out)@ + other@.take(i as int),
        decreases other.len() - i,
    {
        out.push(other[i]);
        assert(other@.take(i + 1) =~= other@.take(i as int).push(other@[i as int]));
        i = i + 1;
    }
    assert(other@.take(other@.len() as int) =~= other@);
}

/// Whether `needle` stands in `hay` at position `i`.
pub open spec fn occurs_at(hay: Seq<char>, needle: Seq<char>, i: int) -> bool {
    0 <= i && i + needle.len() <= hay.len() && hay.subrange(i, i + needle.len()) == needle
}

/// Whether `needle` stands somewhere in `hay`.
pub open spec fn spec_contains(hay: Seq<char>, needle: Seq<char>) -> bool {
    exists|i: int| occurs_at(hay, needle, i)
}

/// Whether `needle` stands in `hay` at position `i`.
pub fn matches_at(hay: &Vec<char>, needle: &Vec<char>, i: usize) -> (r: bool)
    ensures
        r == occurs_at(hay@, needle@, i as int),
{
    if needle.len() > hay.len() || i > hay.len() - needle.len() {
        return false;
    }
    let mut k: usize = 0;
    while k < needle.len()
        invariant
            k <= needle.len(),
            i + needle.len() <= hay.len(),
            forall|j: int| 0 <= j < k ==> hay@[i + j] == needle@[j],
        decreases needle.len() - k,
    {
        if hay[i + k] != needle[k] {
            assert(hay@.subrange(i as int, i + needle.len())[k as int] != needle@[k as int]);
            return false;
        }
        k = k + 1;
    }
    assert(hay@.subrange(i as int, i + needle.len()) =~= needle@);
    true
}

/// The first position at or after `from` at which `needle` stands in `hay`.
pub fn find_from(hay: &Vec<char>, needle: &Vec<char>, from: usize) -> (r: Option<usize>)
    ensures
        match r {
            Some(i) => from <= i && occurs_at(hay@, needle@, i as int) && forall|j: int|
                from <= j < i ==> !occurs_at(hay@, needle@, j),
            None => forall|j: int| from <= j ==> !occurs_at(hay@, needle@, j),
        },
{
    if from > hay.len() {
        return None;
    }
    let mut i: usize = from;
    while i < hay.len()
        invariant
            from <= i <= hay.len(),
            forall|j: int| from <= j < i ==> !occurs_at(hay@, needle@, j),
        decreases hay.len() - i,
    {
        if matches_at(hay, needle, i) {
            return Some(i);
        }
        i = i + 1;
    }
    if matches_at(hay, needle, i) {
        Some(i)
    } else {
        None
    }
}

/// Whether `needle` stands somewhere in `hay`.
pub fn contains(hay: &str, needle: &str) -> (r: bool)
    ensures
        r == spec_contains(hay@, needle@),
{
    let h = chars_of(hay);
    let n = chars_of(needle);
    find_from(&h, &n, 0).is_some()
}

/// `text` with every occurrence of `from` replaced by `to`, going from left
/// to right and going on behind each occurrence that was replaced. An empty
/// `from` occurs nowhere.
pub open spec fn spec_replace(text: Seq<char>, from: Seq<char>, to: Seq<char>) -> Seq<char>
    decreases text.len(),
{
    if from.len() == 0 || text.len() < from.len() {
        text
    } else if text.subrange(0, from.len() as int) == from {
        to + spec_replace(text.skip(from.len() as int), from, to)
    } else {
        seq![text[0]] + spec_replace(text.skip(1), from, to)
    }
}

/// `text` with every occurrence of `from` replaced by `to`.
pub fn replace(text: &str, from: &str, to: &str) -> (r: String)
    ensures
        r@ == spec_replace(text@, from@, to@),
{
    let t = chars_of(text);
    let f = chars_of(from);
    let mut out: Vec<char> = Vec::new();
    if f.len() == 0 {
        return text.to_owned();
    }
    let mut i: usize = 0;
    assert(t@.skip(0) =~= t@);
    while i < t.len() && t.len() - i >= f.len()
        invariant
            i <= t.len(),
            f@ == from@,
            f@.len() > 0,
            t@ == text@,
            spec_replace(text@, from@, to@) == out@ + spec_replace(t@.skip(i as int), from@, to@),
        decreases t.len() - i,
    {
        let ghost rest = t@.skip(i as int);
        if matches_at(&t, &f, i) {
            assert(rest.subrange(0, f@.len() as int) =~= t@.subrange(i as int, i + f@.len()));
            assert(rest.skip(f@.len() as int) =~= t@.skip(i + f@.len()));
            push_str(&mut out, to);
            i = i + f.len();
        } else {
            assert(rest.subrange(0, f@.len() as int) =~= t@.subrange(i as int, i + f@.len()));
            assert(rest.skip(1) =~= t@.skip(i + 1));
            out.push(t[i]);
            i = i + 1;
        }
        assert(spec_replace(text@, from@, to@) =~= out@ + spec_replace(
            t@.skip(i as int),
            from@,
            to@,
        ));
    }
    let ghost done = out@;
    while i < t.len()
        invariant
            i <= t.len(),
            t@.len() - i < f@.len(),
            out@ == done + t@.subrange(i - (out@.len() - done.len()), i as int),
            out@.len() >= done.len(),
            i - (out@.len() - done.len()) >= 0,
            spec_replace(text@, from@, to@) == done + t@.skip(i - (out@.len() - done.len())),
        decreases t.len() - i,
    {
        out.push(t[i]);
        i = i + 1;
        assert(out@ =~= done + t@.subrange(i - (out@.len() - done.len()), i as int));
    }
    assert(out@ =~= spec_replace(text@, from@, to@));
    string_of(&out)
}

/// The hexadecimal digit of `d`, in lower case.
pub open spec fn spec_hex_digit(d: int) -> char {
    if d < 10 {
        spec_digit(d)
    } else if d == 10 {
        'a'
    } else if d == 11 {
        'b'
    } else if d == 12 {
        'c'
    } else if d == 13 {
        'd'
    } else if d == 14 {
        'e'
    } else {
        'f'
    }
}

/// The hexadecimal digits of `n`, in lower case and without leading zeros.
pub open spec fn spec_hex(n: nat) -> Seq<char>
    decreases n,
{
    if n < 16 {
        seq![spec_hex_digit(n as int)]
    } else {
        spec_hex(n / 16).push(spec_hex_digit((n % 16) as int))
    }
}

/// The hexadecimal digit of `d`, in lower case.
pub fn hex_digit(d: u128) -> (r: char)
    requires
        d < 16,
    ensures
        r == spec_hex_digit(d as int),
{
    if d < 10 {
        digit(d)
    } else if d == 10 {
        'a'
    } else if d == 11 {
        'b'
    } else if d == 12 {
        'c'
    } else if d == 13 {
        'd'
    } else if d == 14 {
        'e'
    } else {
        'f'
    }
}

/// Appends the hexadecimal digits of `n` to `out`.
pub fn push_hex(out: &mut Vec<char>, n: u128)
    ensures
        final(out)@ == old(out)@ + spec_hex(n as nat),
    decreases n,
{
    if n >= 16 {
        push_hex(out, n / 16);
    }
    out.push(hex_digit(n % 16));
    assert(out@ =~= old(out)@ + spec_hex(n as nat));
}

/// Whether a character cannot stand in markup as it is and has no name: a
/// control character other than tab, line feed, carriage return and next
/// line.
pub open spec fn is_markup_control(code: int) -> bool {
    (0x1 <= code <= 0x8) || (0xb <= code <= 0xc) || (0xe <= code <= 0x1f) || (0x7f <= code
        <= 0x84) || (0x86 <= code <= 0x9f)
}

/// What stands for the character `c` in markup: the name of the character
/// for `&`, `<`, `>`, `'` and `"`, its number for a control character, and
/// the character itself otherwise.
pub open spec fn spec_escape_char(c: char) -> Seq<char> {
    if c == '&' {
        seq!['&', 'a', 'm', 'p', ';']
    } else if c == '<' {
        seq!['&', 'l', 't', ';']
    } else if c == '>' {
        seq!['&', 'g', 't', ';']
    } else if c == '\'' {
        seq!['&', 'a', 'p', 'o', 's', ';']
    } else if c == '"' {
        seq!['&', 'q', 'u', 'o', 't', ';']
    } else if is_markup_control(c as u32 as int) {
        seq!['&', '#', 'x'] + spec_hex(c as u32 as nat) + seq![';']
    } else {
        seq![c]
    }
}

/// `text` made safe to stand in markup, character by character.
pub open spec fn spec_escape_markup(text: Seq<char>) -> Seq<char>
    decreases text.len(),
{
    if text.len() == 0 {
        Seq::empty()
    } else {
        spec_escape_markup(text.drop_last()) + spec_escape_char(text.last())
    }
}

/// Appends to `out` what stands for the character `c` in markup.
pub fn push_escaped_char(out: &mut Vec<char>, c: char)
    ensures
        final(out)@ == old(out)@ + spec_escape_char(c),
{
    let code = c as u32;
    if c == '&' {
        out.push('&');
        out.push('a');
        out.push('m');
        out.push('p');
        out.push(';');
    } else if c == '<' {
        out.push('&');
        out.push('l');
        out.push('t');
        out.push(';');
    } else if c == '>' {
        out.push('&');
        out.push('g');
        out.push('t');
        out.push(';');
    } else if c == '\'' {
        out.push('&');
        out.push('a');
        out.push('p');
        out.push('o');
        out.push('s');
        out.push(';');
    } else if c == '"' {
        out.push('&');
        out.push('q');
        out.push('u');
        out.push('o');
        out.push('t');
        out.push(';');
    } else if (0x1 <= code && code <= 0x8) || (0xb <= code && code <= 0xc) || (0xe <= code && code
        <= 0x1f) || (0x7f <= code && code <= 0x84) || (0x86 <= code && code <= 0x9f) {
        out.push('&');
        out.push('#');
        out.push('x');
        push_hex(out, code as u128);
        out.push(';');
    } else {
        out.push(c);
    }
    assert(out@ =~= old(out)@ + spec_escape_char(c));
}

/// Appends `text` to `out`, made safe to stand in markup.
pub fn push_escaped(out: &mut Vec<char>, text: &str)
    ensures
        final(out)@ == old(out)@ + spec_escape_markup(text@),
{
    let chars = chars_of(text);
    let mut i: usize = 0;
    assert(chars@.take(0) =~= Seq::<char>::empty());
    while i < chars.len()
        invariant
            i <= chars.len(),
            chars@ == text@,
            out@ == old(out)@ + spec_escape_markup(chars@.take(i as int)),
        decreases chars.len() - i,
    {
        proof {
            let next = chars@.take(i + 1);
            assert(next.drop_last() =~= chars@.take(i as int));
            assert(next.last() == chars@[i as int]);
        }
        push_escaped_char(out, chars[i]);
        assert(out@ =~= old(out)@ + spec_escape_markup(chars@.take(i + 1)));
        i = i + 1;
    }
    assert(chars@.take(chars@.len() as int) =~= chars@);
}

/// `text` made safe to stand in markup: `&`, `<`, `>`, `'` and `"` are
/// written by their names, control characters by their numbers.
pub fn escape_markup(text: &str) -> (r: String)
    ensures
        r@ == spec_escape_markup(text@),
{
    let mut out: Vec<char> = Vec::new();
    push_escaped(&mut out, text);
    assert(out@ =~= spec_escape_markup(text@));
    string_of(&out)
}

/// Whether `a` comes before `b` in the order of the dictionary, where a
/// character comes before another by its number and a text before every text
/// that it begins.
pub open spec fn spec_precedes(a: Seq<char>, b: Seq<char>) -> bool
    decreases a.len(),
{
    if b.len() == 0 {
        false
    } else if a.len() == 0 {
        true
    } else if a[0] != b[0] {
        (a[0] as u32) < (b[0] as u32)
    } else {
        spec_precedes(a.skip(1), b.skip(1))
    }
}

/// Two characters that differ have numbers that differ.
pub proof fn lemma_char_numbers_differ(c: char, d: char)
    requires
        c != d,
    ensures
        (c as u32) != (d as u32),
{
}

/// No text comes before itself.
pub proof fn lemma_precedes_irreflexive(a: Seq<char>)
    ensures
        !spec_precedes(a, a),
    decreases a.len(),
{
    if a.len() > 0 {
        lemma_precedes_irreflexive(a.skip(1));
    }
}

/// What comes before a text comes before all that the text comes before.
pub proof fn lemma_precedes_transitive(a: Seq<char>, b: Seq<char>, c: Seq<char>)
    requires
        spec_precedes(a, b),
        spec_precedes(b, c),
    ensures
        spec_precedes(a, c),
    decreases a.len(),
{
    if a.len() > 0 && a[0] == b[0] && b[0] == c[0] {
        lemma_precedes_transitive(a.skip(1), b.skip(1), c.skip(1));
    }
}

/// Of two texts that differ one comes before the other.
pub proof fn lemma_precedes_total(a: Seq<char>, b: Seq<char>)
    ensures
        a == b || spec_precedes(a, b) || spec_precedes(b, a),
    decreases a.len(),
{
    if a.len() > 0 && b.len() > 0 {
        if a[0] == b[0] {
            lemma_precedes_total(a.skip(1), b.skip(1));
            if a.skip(1) == b.skip(1) {
                assert(a =~= seq![a[0]] + a.skip(1));
                assert(b =~= seq![b[0]] + b.skip(1));
            }
        } else {
            lemma_char_numbers_differ(a[0], b[0]);
        }
    } else if a.len() == 0 && b.len() == 0 {
        assert(a =~= b);
    }
}

/// Whether `a` comes before `b` in the order of the dictionary.
pub fn precedes(a: &str, b: &str) -> (r: bool)
    ensures
        r == spec_precedes(a@, b@),
{
    let x = chars_of(a);
    let y = chars_of(b);
    let mut i: usize = 0;
    assert(x@.skip(0) =~= x@);
    assert(y@.skip(0) =~= y@);
    while i < x.len() && i < y.len()
        invariant
            i <= x@.len(),
            i <= y@.len(),
            x@ == a@,
            y@ == b@,
            spec_precedes(a@, b@) == spec_precedes(x@.skip(i as int), y@.skip(i as int)),
        decreases x.len() - i,
    {
        assert(x@.skip(i as int).skip(1) =~= x@.skip(i + 1));
        assert(y@.skip(i as int).skip(1) =~= y@.skip(i + 1));
        if x[i] != y[i] {
            return (x[i] as u32) < (y[i] as u32);
        }
        i = i + 1;
    }
    i < y.len()
}

} // verus!
