//! Text as a sequence of characters: the searching, splitting, trimming and
//! rendering that the rest of the crate is written in.

use vstd::prelude::*;
use vstd::string::*;
use vstd::utf8::encode_utf8;

verus! {

/// `String::push`: the character becomes the last one.
pub assume_specification[ String::push ](s: &mut String, c: char)
    ensures
        final(s)@ == old(s)@.push(c),
;

/// A set of characters that text is searched for, trimmed of or limited to.
#[derive(Clone, Copy)]
pub enum CharClass {
    /// Exactly this character.
    Is(char),
    /// Unicode white space.
    White,
    /// The two characters that surround a table cell.
    PipeOrSpace,
    /// ASCII digits.
    Digit,
    /// Everything but ASCII digits.
    NotDigit,
    /// ASCII digits and hyphens.
    DigitOrDash,
    /// ASCII letters and digits, hyphens and underscores.
    PathSegment,
    /// `PathSegment`, and dots and commas.
    QueryValue,
    /// `PathSegment`, and dots.
    Token,
    /// ASCII letters and digits, and underscores.
    Identifier,
    /// ASCII letters and digits, hyphens and dots.
    Tenant,
    /// Hyphens and colons.
    TableRule,
}

pub open spec fn is_digit(c: char) -> bool {
    '0' <= c && c <= '9'
}

/// ASCII letters and digits.
pub open spec fn is_alphanumeric(c: char) -> bool {
    is_digit(c) || ('a' <= c && c <= 'z') || ('A' <= c && c <= 'Z')
}

/// The Unicode property `White_Space`.
pub open spec fn is_white(c: char) -> bool {
    ||| '\u{9}' <= c && c <= '\u{d}'
    ||| c == ' '
    ||| c == '\u{85}'
    ||| c == '\u{a0}'
    ||| c == '\u{1680}'
    ||| '\u{2000}' <= c && c <= '\u{200a}'
    ||| c == '\u{2028}'
    ||| c == '\u{2029}'
    ||| c == '\u{202f}'
    ||| c == '\u{205f}'
    ||| c == '\u{3000}'
}

impl CharClass {
    /// Whether `c` is in the class.
    pub open spec fn holds(self, c: char) -> bool {
        match self {
            CharClass::Is(x) => c == x,
            CharClass::White => is_white(c),
            CharClass::PipeOrSpace => c == '|' || c == ' ',
            CharClass::Digit => is_digit(c),
            CharClass::NotDigit => !is_digit(c),
            CharClass::DigitOrDash => is_digit(c) || c == '-',
            CharClass::PathSegment => is_alphanumeric(c) || c == '-' || c == '_',
            CharClass::QueryValue => is_alphanumeric(c) || c == '-' || c == '_' || c == '.' || c
                == ',',
            CharClass::Token => is_alphanumeric(c) || c == '-' || c == '_' || c == '.',
            CharClass::Identifier => is_alphanumeric(c) || c == '_',
            CharClass::Tenant => is_alphanumeric(c) || c == '-' || c == '.',
            CharClass::TableRule => c == '-' || c == ':',
        }
    }

    /// Whether `c` is in the class.
    pub fn has(self, c: char) -> (r: bool)
        ensures
            r == self.holds(c),
    {
        let digit = '0' <= c && c <= '9';
        let alnum = digit || ('a' <= c && c <= 'z') || ('A' <= c && c <= 'Z');
        match self {
            CharClass::Is(x) => c == x,
            CharClass::White => ('\u{9}' <= c && c <= '\u{d}') || c == ' ' || c == '\u{85}' || c
                == '\u{a0}' || c == '\u{1680}' || ('\u{2000}' <= c && c <= '\u{200a}') || c
                == '\u{2028}' || c == '\u{2029}' || c == '\u{202f}' || c == '\u{205f}' || c
                == '\u{3000}',
            CharClass::PipeOrSpace => c == '|' || c == ' ',
            CharClass::Digit => digit,
            CharClass::NotDigit => !digit,
            CharClass::DigitOrDash => digit || c == '-',
            CharClass::PathSegment => alnum || c == '-' || c == '_',
            CharClass::QueryValue => alnum || c == '-' || c == '_' || c == '.' || c == ',',
            CharClass::Token => alnum || c == '-' || c == '_' || c == '.',
            CharClass::Identifier => alnum || c == '_',
            CharClass::Tenant => alnum || c == '-' || c == '.',
            CharClass::TableRule => c == '-' || c == ':',
        }
    }
}

/// Every character of `s` is in the class.
pub open spec fn all_in(s: Seq<char>, k: CharClass) -> bool {
    forall|i: int| 0 <= i < s.len() ==> k.holds(#[trigger] s[i])
}

/// The place of the first character of `s` that is in the class, or the
/// length of `s` where none is.
pub open spec fn first_in(s: Seq<char>, k: CharClass) -> int
    decreases s.len(),
{
    if s.len() == 0 || k.holds(s[0]) {
        0
    } else {
        1 + first_in(s.drop_first(), k)
    }
}

pub proof fn lemma_first_in(s: Seq<char>, k: CharClass)
    ensures
        0 <= first_in(s, k) <= s.len(),
        first_in(s, k) < s.len() ==> k.holds(s[first_in(s, k)]),
        forall|j: int| 0 <= j < first_in(s, k) ==> !k.holds(#[trigger] s[j]),
    decreases s.len(),
{
    if s.len() > 0 && !k.holds(s[0]) {
        lemma_first_in(s.drop_first(), k);
        assert forall|j: int| 0 <= j < first_in(s, k) implies !k.holds(#[trigger] s[j]) by {
            if j > 0 {
                assert(s.drop_first()[j - 1] == s[j]);
            }
        }
    }
}

/// The parts of `s` between the characters `sep`, which belong to no part.
pub open spec fn split(s: Seq<char>, sep: char) -> Seq<Seq<char>>
    decreases s.len(),
{
    let i = first_in(s, CharClass::Is(sep));
    if 0 <= i < s.len() {
        seq![s.take(i)] + split(s.skip(i + 1), sep)
    } else {
        seq![s]
    }
}

/// `s` around its first `sep`.
pub open spec fn split_once(s: Seq<char>, sep: char) -> Option<(Seq<char>, Seq<char>)> {
    let i = first_in(s, CharClass::Is(sep));
    if i < s.len() {
        Some((s.take(i), s.skip(i + 1)))
    } else {
        None
    }
}

/// `s` without the characters of the class at its end.
pub open spec fn trim_end(s: Seq<char>, k: CharClass) -> Seq<char>
    decreases s.len(),
{
    if s.len() > 0 && k.holds(s.last()) {
        trim_end(s.drop_last(), k)
    } else {
        s
    }
}

/// `s` without the characters of the class at its start.
pub open spec fn trim_start(s: Seq<char>, k: CharClass) -> Seq<char>
    decreases s.len(),
{
    if s.len() > 0 && k.holds(s[0]) {
        trim_start(s.drop_first(), k)
    } else {
        s
    }
}

/// `s` without the characters of the class at either end.
pub open spec fn trim(s: Seq<char>, k: CharClass) -> Seq<char> {
    trim_end(trim_start(s, k), k)
}

pub open spec fn starts_with(s: Seq<char>, p: Seq<char>) -> bool {
    p.len() <= s.len() && s.take(p.len() as int) == p
}

pub open spec fn ends_with(s: Seq<char>, p: Seq<char>) -> bool {
    p.len() <= s.len() && s.skip(s.len() - p.len()) == p
}

/// `needle` stands in `s` from place `i` on.
pub open spec fn occurs_at(s: Seq<char>, needle: Seq<char>, i: int) -> bool {
    0 <= i && i + needle.len() <= s.len() && s.subrange(i, i + needle.len()) == needle
}

/// `needle` stands somewhere in `s`.
pub open spec fn has_text(s: Seq<char>, needle: Seq<char>) -> bool {
    exists|i: int| occurs_at(s, needle, i)
}

/// The lower-case form of an ASCII letter, and any other character itself.
pub open spec fn lower_char(c: char) -> char {
    if 'A' <= c && c <= 'Z' {
        (c as u8 + 32) as char
    } else {
        c
    }
}

pub open spec fn lower(s: Seq<char>) -> Seq<char> {
    Seq::new(s.len(), |i: int| lower_char(s[i]))
}

/// Equal but for the case of ASCII letters.
pub open spec fn same_letters(a: Seq<char>, b: Seq<char>) -> bool {
    lower(a) == lower(b)
}

pub open spec fn digit(d: int) -> char {
    (48 + d) as char
}

/// `n` in decimal digits, without leading zeros.
pub open spec fn decimal(n: nat) -> Seq<char>
    decreases n,
{
    if n < 10 {
        seq![digit(n as int)]
    } else {
        decimal(n / 10).push(digit((n % 10) as int))
    }
}

/// The items of `parts` with `sep` between each two.
pub open spec fn join(parts: Seq<Seq<char>>, sep: Seq<char>) -> Seq<char>
    decreases parts.len(),
{
    if parts.len() == 0 {
        Seq::empty()
    } else if parts.len() == 1 {
        parts[0]
    } else {
        join(parts.drop_last(), sep) + sep + parts.last()
    }
}

/// The place of the last `c`, or -1.
pub open spec fn last_of(s: Seq<char>, c: char) -> int
    decreases s.len(),
{
    if s.len() == 0 {
        -1
    } else if s.last() == c {
        s.len() - 1
    } else {
        last_of(s.drop_last(), c)
    }
}

/// The strings of a list as texts.
pub open spec fn texts(v: Seq<String>) -> Seq<Seq<char>> {
    Seq::new(v.len(), |i: int| v[i]@)
}

/// The pairs of a list as pairs of texts.
pub open spec fn text_pairs(v: Seq<(String, String)>) -> Seq<(Seq<char>, Seq<char>)> {
    Seq::new(v.len(), |i: int| (v[i].0@, v[i].1@))
}

/// The text of an optional string.
pub open spec fn opt_text(v: Option<String>) -> Option<Seq<char>> {
    match v {
        Some(s) => Some(s@),
        None => None,
    }
}

/// The characters of `s`, in order.
pub fn to_chars(s: &str) -> (r: Vec<char>)
    ensures
        r@ == s@,
{
    let mut out: Vec<char> = Vec::new();
    for c in it: s.chars()
        invariant
            out@ == it.seq().take(it.index() as int),
            it.seq() == s@,
    {
        out.push(c);
    }
    out
}

/// The string made of the characters from place `from` up to place `to`.
pub fn range_of(chars: &[char], from: usize, to: usize) -> (r: String)
    requires
        from <= to <= chars@.len(),
    ensures
        r@ == chars@.subrange(from as int, to as int),
{
    let mut out: String = String::new();
    for i in from..to
        invariant
            from <= i <= to <= chars@.len(),
            out@ == chars@.subrange(from as int, i as int),
    {
        out.push(chars[i]);
    }
    out
}

/// Whether two texts are equal.
pub fn same(a: &str, b: &str) -> (r: bool)
    ensures
        r == (a@ == b@),
{
    a.to_owned() == b.to_owned()
}

/// Whether every character of `s` is in the class.
pub fn only(s: &str, k: CharClass) -> (r: bool)
    ensures
        r == all_in(s@, k),
{
    let chars = to_chars(s);
    for i in 0..chars.len()
        invariant
            chars@ == s@,
            forall|j: int| 0 <= j < i ==> k.holds(#[trigger] s@[j]),
    {
        if !k.has(chars[i]) {
            assert(!k.holds(s@[i as int]));
            return false;
        }
    }
    true
}

/// The place of the first character in the class from place `from` on, or
/// the length of the text.
pub fn find_from(chars: &[char], from: usize, k: CharClass) -> (r: usize)
    requires
        from <= chars@.len(),
    ensures
        r == from + first_in(chars@.skip(from as int), k),
        from <= r <= chars@.len(),
        r < chars@.len() ==> k.holds(chars@[r as int]),
        forall|j: int| from <= j < r ==> !k.holds(#[trigger] chars@[j]),
{
    let mut i: usize = from;
    while i < chars.len() && !k.has(chars[i])
        invariant
            from <= i <= chars@.len(),
            forall|j: int| from <= j < i ==> !k.holds(#[trigger] chars@[j]),
        decreases chars@.len() - i,
    {
        i = i + 1;
    }
    proof {
        let rest = chars@.skip(from as int);
        let n = first_in(rest, k);
        lemma_first_in(rest, k);
        if n < i - from {
            assert(rest[n] == chars@[from + n]);
        }
        if i - from < n {
            assert(rest[i - from] == chars@[i as int]);
        }
    }
    i
}

/// The parts of `s` between the characters `sep`.
pub fn split_text(s: &str, sep: char) -> (r: Vec<String>)
    ensures
        texts(r@) == split(s@, sep),
{
    let chars = to_chars(s);
    let k = CharClass::Is(sep);
    let mut out: Vec<String> = Vec::new();
    let mut from: usize = 0;
    let mut end: usize = find_from(&chars, 0, k);
    assert(chars@.skip(0) =~= s@);
    assert(texts(out@) + split(s@, sep) =~= split(s@, sep));
    while end < chars.len()
        invariant
            chars@ == s@,
            k == CharClass::Is(sep),
            from <= end <= chars@.len(),
            end == from + first_in(chars@.skip(from as int), k),
            texts(out@) + split(s@.skip(from as int), sep) == split(s@, sep),
        decreases chars@.len() - end,
    {
        let part = range_of(&chars, from, end);
        proof {
            let rest = s@.skip(from as int);
            let n = first_in(rest, k);
            assert(rest.take(n) =~= part@);
            assert(rest.skip(n + 1) =~= s@.skip(end + 1));
            let before = texts(out@);
            assert(texts(out@.push(part)) =~= before.push(part@));
            assert(before.push(part@) + split(s@.skip(end + 1), sep) =~= before + split(rest, sep));
        }
        out.push(part);
        from = end + 1;
        end = find_from(&chars, from, k);
    }
    let part = range_of(&chars, from, chars.len());
    proof {
        assert(part@ =~= s@.skip(from as int));
        assert(texts(out@.push(part)) =~= texts(out@) + seq![part@]);
    }
    out.push(part);
    out
}

/// `s` around its first `sep`.
pub fn split_at_first(s: &str, sep: char) -> (r: Option<(String, String)>)
    ensures
        match r {
            Some(p) => split_once(s@, sep) == Some((p.0@, p.1@)),
            None => split_once(s@, sep) is None,
        },
{
    let chars = to_chars(s);
    let i: usize = find_from(&chars, 0, CharClass::Is(sep));
    assert(chars@.skip(0) =~= s@);
    if i < chars.len() {
        let a = range_of(&chars, 0, i);
        let b = range_of(&chars, i + 1, chars.len());
        assert(a@ =~= s@.take(i as int));
        assert(b@ =~= s@.skip(i + 1));
        Some((a, b))
    } else {
        None
    }
}

/// `s` without the characters of the class at its end.
pub fn without_end(s: &str, k: CharClass) -> (r: String)
    ensures
        r@ == trim_end(s@, k),
{
    let chars = to_chars(s);
    let mut n: usize = chars.len();
    assert(s@.take(n as int) =~= s@);
    while n > 0 && k.has(chars[n - 1])
        invariant
            chars@ == s@,
            n <= chars@.len(),
            trim_end(s@.take(n as int), k) == trim_end(s@, k),
        decreases n,
    {
        assert(s@.take(n as int).drop_last() =~= s@.take(n - 1));
        n = n - 1;
    }
    let r = range_of(&chars, 0, n);
    assert(r@ =~= s@.take(n as int));
    r
}

/// `s` without the characters of the class at its start.
pub fn without_start(s: &str, k: CharClass) -> (r: String)
    ensures
        r@ == trim_start(s@, k),
{
    let chars = to_chars(s);
    let mut n: usize = 0;
    assert(s@.skip(0) =~= s@);
    while n < chars.len() && k.has(chars[n])
        invariant
            chars@ == s@,
            n <= chars@.len(),
            trim_start(s@.skip(n as int), k) == trim_start(s@, k),
        decreases chars@.len() - n,
    {
        assert(s@.skip(n as int).drop_first() =~= s@.skip(n + 1));
        n = n + 1;
    }
    let r = range_of(&chars, n, chars.len());
    assert(r@ =~= s@.skip(n as int));
    r
}

/// `s` without the characters of the class at either end.
pub fn trimmed(s: &str, k: CharClass) -> (r: String)
    ensures
        r@ == trim(s@, k),
{
    let t = without_start(s, k);
    without_end(t.as_str(), k)
}

/// Whether `needle` stands in `s` from place `i` on.
pub fn stands_at(s: &[char], needle: &[char], i: usize) -> (r: bool)
    ensures
        r == occurs_at(s@, needle@, i as int),
{
    if i > s.len() || s.len() - i < needle.len() {
        return false;
    }
    for j in 0..needle.len()
        invariant
            i + needle@.len() <= s.len() == s@.len(),
            forall|m: int| 0 <= m < j ==> s@[i + m] == #[trigger] needle@[m],
    {
        if s[i + j] != needle[j] {
            assert(s@.subrange(i as int, i + needle@.len())[j as int] != needle@[j as int]);
            return false;
        }
    }
    assert(s@.subrange(i as int, i + needle@.len()) =~= needle@);
    true
}

pub fn begins_with(s: &str, p: &str) -> (r: bool)
    ensures
        r == starts_with(s@, p@),
{
    let a = to_chars(s);
    let b = to_chars(p);
    assert(p@.len() <= s@.len() ==> s@.subrange(0, p@.len() as int) =~= s@.take(p@.len() as int));
    stands_at(&a, &b, 0)
}

pub fn finishes_with(s: &str, p: &str) -> (r: bool)
    ensures
        r == ends_with(s@, p@),
{
    let a = to_chars(s);
    let b = to_chars(p);
    if b.len() > a.len() {
        return false;
    }
    let i: usize = a.len() - b.len();
    assert(s@.subrange(i as int, i + p@.len()) =~= s@.skip(i as int));
    stands_at(&a, &b, i)
}

/// The last place of `c` from place `from` up to place `to`, counted from
/// `from`.
pub fn find_last(chars: &[char], from: usize, to: usize, c: char) -> (r: Option<usize>)
    requires
        from <= to <= chars@.len(),
    ensures
        match r {
            Some(i) => last_of(chars@.subrange(from as int, to as int), c) == i && i < to - from,
            None => last_of(chars@.subrange(from as int, to as int), c) == -1,
        },
{
    let ghost part = chars@.subrange(from as int, to as int);
    let mut n: usize = to - from;
    assert(part.take(n as int) =~= part);
    while n > 0
        invariant
            from <= to <= chars@.len(),
            n <= to - from,
            part == chars@.subrange(from as int, to as int),
            last_of(part, c) == last_of(part.take(n as int), c),
        decreases n,
    {
        assert(part.take(n as int).drop_last() =~= part.take(n - 1));
        if chars[from + n - 1] == c {
            return Some(n - 1);
        }
        n = n - 1;
    }
    None
}

/// The first place from `from` on at which `needle` stands in `s`.
pub fn find_text(s: &[char], needle: &[char], from: usize) -> (r: Option<usize>)
    ensures
        match r {
            Some(i) => from <= i && occurs_at(s@, needle@, i as int) && forall|j: int|
                from <= j < i ==> !#[trigger] occurs_at(s@, needle@, j),
            None => forall|j: int| from <= j ==> !#[trigger] occurs_at(s@, needle@, j),
        },
{
    if from > s.len() {
        return None;
    }
    let mut i: usize = from;
    while i < s.len()
        invariant
            from <= i <= s@.len(),
            forall|j: int| from <= j < i ==> !#[trigger] occurs_at(s@, needle@, j),
        decreases s@.len() - i,
    {
        if stands_at(s, needle, i) {
            return Some(i);
        }
        i = i + 1;
    }
    if stands_at(s, needle, i) {
        Some(i)
    } else {
        None
    }
}

/// Whether `needle` stands somewhere in `s`.
pub fn holds_text(s: &str, needle: &str) -> (r: bool)
    ensures
        r == has_text(s@, needle@),
{
    let a = to_chars(s);
    let b = to_chars(needle);
    match find_text(&a, &b, 0) {
        Some(i) => {
            assert(occurs_at(s@, needle@, i as int));
            true
        },
        None => false,
    }
}

/// Whether the character stands somewhere in `s`.
pub fn holds_char(s: &str, c: char) -> (r: bool)
    ensures
        r == s@.contains(c),
{
    let chars = to_chars(s);
    let i: usize = find_from(&chars, 0, CharClass::Is(c));
    if i < chars.len() {
        assert(s@[i as int] == c);
        true
    } else {
        false
    }
}

fn lowered_char(c: char) -> (r: char)
    ensures
        r == lower_char(c),
{
    if 'A' <= c && c <= 'Z' {
        ((c as u8) + 32) as char
    } else {
        c
    }
}

/// `s` with its ASCII letters in lower case.
pub fn lowered(s: &str) -> (r: String)
    ensures
        r@ == lower(s@),
{
    let mut out: String = String::new();
    for c in it: s.chars()
        invariant
            it.seq() == s@,
            out@ == lower(s@).take(it.index() as int),
    {
        out.push(lowered_char(c));
    }
    assert(lower(s@).take(s@.len() as int) =~= lower(s@));
    out
}

/// Whether two texts are equal but for the case of ASCII letters.
pub fn same_ignoring_case(a: &str, b: &str) -> (r: bool)
    ensures
        r == same_letters(a@, b@),
{
    lowered(a) == lowered(b)
}

/// Writes `n` in decimal at the end of `out`.
fn push_decimal(n: u128, out: &mut String)
    ensures
        final(out)@ == old(out)@ + decimal(n as nat),
    decreases n,
{
    if n >= 10 {
        push_decimal(n / 10, out);
    }
    let d: u8 = (n % 10) as u8;
    out.push((48 + d) as char);
    proof {
        if n >= 10 {
            assert(out@ =~= old(out)@ + decimal(n as nat / 10).push(digit((n % 10) as int)));
        } else {
            assert(out@ =~= old(out)@ + seq![digit(n as int)]);
        }
    }
}

/// `n` in decimal digits.
pub fn number_text(n: u128) -> (r: String)
    ensures
        r@ == decimal(n as nat),
{
    let mut out: String = String::new();
    push_decimal(n, &mut out);
    assert(out@ =~= decimal(n as nat));
    out
}

/// The items of `parts` with `sep` between each two.
pub fn joined(parts: &[String], sep: &str) -> (r: String)
    ensures
        r@ == join(texts(parts@), sep@),
{
    let mut out: String = String::new();
    let ghost all = texts(parts@);
    for i in 0..parts.len()
        invariant
            all == texts(parts@),
            out@ == join(all.take(i as int), sep@),
    {
        assert(all.take(i + 1).drop_last() =~= all.take(i as int));
        if i > 0 {
            out = out.concat(sep);
        }
        out = out.concat(parts[i].as_str());
        assert(out@ =~= join(all.take(i + 1), sep@));
    }
    assert(all.take(all.len() as int) =~= all);
    out
}

/// How many bytes the text has in UTF-8.
pub fn byte_length(s: &str) -> (r: usize)
    ensures
        r == encode_utf8(s@).len(),
{
    s.as_bytes().len()
}

/// The start of a list of lines.
pub fn no_lines() -> (r: Vec<String>)
    ensures
        texts(r@) == Seq::<Seq<char>>::empty(),
{
    let r: Vec<String> = Vec::new();
    assert(texts(r@) =~= Seq::<Seq<char>>::empty());
    r
}

/// A list of one line.
pub fn one_line(line: String) -> (r: Vec<String>)
    ensures
        texts(r@) == seq![line@],
{
    let mut r: Vec<String> = Vec::new();
    r.push(line);
    assert(texts(r@) =~= seq![line@]);
    r
}

/// Puts a line behind the others.
pub fn add_line(lines: &mut Vec<String>, line: String)
    ensures
        texts(final(lines)@) == texts(old(lines)@).push(line@),
{
    lines.push(line);
    assert(texts(lines@) =~= texts(old(lines)@).push(line@));
}

/// Splitting loses nothing: the parts with the separator between them are the
/// text again, and no part holds the separator.
pub proof fn law_split_parts(s: Seq<char>, sep: char)
    ensures
        split(s, sep).len() > 0,
        join(split(s, sep), seq![sep]) == s,
        forall|i: int| 0 <= i < split(s, sep).len() ==> !(#[trigger] split(s, sep)[i]).contains(sep),
    decreases s.len(),
{
    let i = first_in(s, CharClass::Is(sep));
    lemma_first_in(s, CharClass::Is(sep));
    if i < s.len() {
        let rest = split(s.skip(i + 1), sep);
        law_split_parts(s.skip(i + 1), sep);
        lemma_join_first(seq![s.take(i)] + rest, seq![sep]);
        assert((seq![s.take(i)] + rest).drop_first() =~= rest);
        assert(s =~= s.take(i) + seq![sep] + s.skip(i + 1));
        assert forall|j: int| 0 <= j < split(s, sep).len() implies !(#[trigger] split(
            s,
            sep,
        )[j]).contains(sep) by {
            if j > 0 {
                assert(split(s, sep)[j] == rest[j - 1]);
            }
        }
    } else {
        assert(split(s, sep) =~= seq![s]);
        assert(join(seq![s], seq![sep]) == s);
    }
}

proof fn lemma_join_first(parts: Seq<Seq<char>>, sep: Seq<char>)
    requires
        parts.len() > 1,
    ensures
        join(parts, sep) == parts[0] + sep + join(parts.drop_first(), sep),
    decreases parts.len(),
{
    let rest = parts.drop_first();
    if parts.len() == 2 {
        assert(join(parts.drop_last(), sep) == parts[0]);
        assert(join(rest, sep) == parts[1]);
    } else {
        lemma_join_first(parts.drop_last(), sep);
        assert(parts.drop_last().drop_first() =~= rest.drop_last());
        assert(join(rest, sep) == join(rest.drop_last(), sep) + sep + rest.last());
        assert(join(parts, sep) =~= parts[0] + sep + join(rest, sep));
    }
}

/// What stands before the first separator holds none, and with the separator
/// and what follows it is the whole text.
pub proof fn law_split_once(s: Seq<char>, sep: char)
    ensures
        match split_once(s, sep) {
            Some(p) => s == p.0 + seq![sep] + p.1 && !p.0.contains(sep),
            None => !s.contains(sep),
        },
{
    let i = first_in(s, CharClass::Is(sep));
    lemma_first_in(s, CharClass::Is(sep));
    if i < s.len() {
        assert(s =~= s.take(i) + seq![sep] + s.skip(i + 1));
    }
}

/// Trimming takes characters of the class away and leaves none at that end.
pub proof fn law_trimmed_ends(s: Seq<char>, k: CharClass)
    ensures
        ({
            let t = trim_end(s, k);
            &&& t.len() <= s.len() && t == s.take(t.len() as int)
            &&& all_in(s.skip(t.len() as int), k)
            &&& t.len() > 0 ==> !k.holds(t.last())
        }),
        ({
            let t = trim_start(s, k);
            &&& t.len() <= s.len() && t == s.skip(s.len() - t.len())
            &&& all_in(s.take(s.len() - t.len()), k)
            &&& t.len() > 0 ==> !k.holds(t[0])
        }),
    decreases s.len(),
{
    if s.len() > 0 && k.holds(s.last()) {
        law_trimmed_ends(s.drop_last(), k);
        let t = trim_end(s, k);
        assert(t =~= s.take(t.len() as int));
        assert forall|i: int| 0 <= i < s.skip(t.len() as int).len() implies k.holds(
            #[trigger] s.skip(t.len() as int)[i],
        ) by {
            if t.len() + i < s.len() - 1 {
                assert(s.drop_last().skip(t.len() as int)[i] == s.skip(t.len() as int)[i]);
            }
        }
    } else {
        assert(trim_end(s, k) =~= s.take(s.len() as int));
    }
    if s.len() > 0 && k.holds(s[0]) {
        law_trimmed_ends(s.drop_first(), k);
        let t = trim_start(s, k);
        let n = s.len() - t.len();
        assert(t =~= s.skip(n));
        assert forall|i: int| 0 <= i < s.take(n).len() implies k.holds(#[trigger] s.take(n)[i]) by {
            if i > 0 {
                assert(s.drop_first().take(n - 1)[i - 1] == s.take(n)[i]);
            }
        }
    } else {
        assert(trim_start(s, k) =~= s.skip(0));
    }
}

/// Trimmed at both ends, a text has no character of the class at either, and
/// what was taken away is of the class.
pub proof fn law_trimmed(s: Seq<char>, k: CharClass)
    ensures
        trim(s, k).len() > 0 ==> !k.holds(trim(s, k)[0]) && !k.holds(trim(s, k).last()),
        exists|from: int|
            0 <= from && from + trim(s, k).len() <= s.len() && #[trigger] s.skip(from).take(
                trim(s, k).len() as int,
            ) == trim(s, k) && all_in(s.take(from), k) && all_in(
                s.skip(from + trim(s, k).len()),
                k,
            ),
{
    let a = trim_start(s, k);
    let b = trim_end(a, k);
    let from = s.len() - a.len();
    law_trimmed_ends(s, k);
    law_trimmed_ends(a, k);
    assert(s.skip(from) == a);
    assert(s.skip(from).take(b.len() as int) == b);
    assert(s.skip(from + b.len()) =~= a.skip(b.len() as int));
    if b.len() > 0 {
        assert(b[0] == a[0]);
    }
}

/// What each class holds, by code point.
pub proof fn law_char_classes(c: char)
    ensures
        ({
            let n = c as int;
            let digit = 48 <= n <= 57;
            let letter = 65 <= n <= 90 || 97 <= n <= 122;
            &&& CharClass::Digit.holds(c) == digit
            &&& CharClass::NotDigit.holds(c) == !digit
            &&& CharClass::DigitOrDash.holds(c) == (digit || n == 45)
            &&& CharClass::PathSegment.holds(c) == (digit || letter || n == 45 || n == 95)
            &&& CharClass::Token.holds(c) == (digit || letter || n == 45 || n == 95 || n == 46)
            &&& CharClass::QueryValue.holds(c) == (digit || letter || n == 45 || n == 95 || n == 46
                || n == 44)
            &&& CharClass::Identifier.holds(c) == (digit || letter || n == 95)
            &&& CharClass::Tenant.holds(c) == (digit || letter || n == 45 || n == 46)
            &&& CharClass::TableRule.holds(c) == (n == 45 || n == 58)
            &&& CharClass::PipeOrSpace.holds(c) == (n == 124 || n == 32)
            &&& CharClass::Is(c).holds(c)
            &&& forall|d: char| #[trigger] CharClass::Is(d).holds(c) ==> d == c
            &&& CharClass::White.holds(c) == (9 <= n <= 13 || n == 32 || n == 0x85 || n == 0xa0 || n
                == 0x1680 || 0x2000 <= n <= 0x200a || n == 0x2028 || n == 0x2029 || n == 0x202f || n
                == 0x205f || n == 0x3000)
        }),
{
}

/// A text begins and ends with what is put before and behind it, and holds
/// what is put into it.
pub proof fn law_put_around(a: Seq<char>, b: Seq<char>, c: Seq<char>)
    ensures
        starts_with(a + b, a),
        ends_with(a + b, b),
        has_text(a + b + c, b),
{
    assert((a + b).take(a.len() as int) =~= a);
    assert((a + b).skip((a + b).len() - b.len()) =~= b);
    assert((a + b + c).subrange(a.len() as int, (a.len() + b.len()) as int) =~= b);
    assert(occurs_at(a + b + c, b, a.len() as int));
}

/// A text that begins or ends with another, or holds it, is made of it and of
/// what is left.
pub proof fn law_taken_apart(s: Seq<char>, p: Seq<char>)
    ensures
        starts_with(s, p) ==> s == p + s.skip(p.len() as int),
        ends_with(s, p) ==> s == s.take(s.len() - p.len()) + p,
        has_text(s, p) ==> exists|a: Seq<char>, b: Seq<char>| s == #[trigger] (a + p + b),
{
    if starts_with(s, p) {
        assert(s =~= s.take(p.len() as int) + s.skip(p.len() as int));
    }
    if ends_with(s, p) {
        assert(s =~= s.take(s.len() - p.len()) + s.skip(s.len() - p.len()));
    }
    if has_text(s, p) {
        let i = choose|i: int| occurs_at(s, p, i);
        let a = s.take(i);
        let b = s.skip(i + p.len());
        assert(s =~= a + p + b);
    }
}

/// Lower case: capital letters of ASCII are moved to the small ones, nothing
/// else is changed, and doing it again changes nothing.
pub proof fn law_lower_case(s: Seq<char>, i: int)
    requires
        0 <= i < s.len(),
    ensures
        lower(s).len() == s.len(),
        65 <= s[i] as int <= 90 ==> lower(s)[i] as int == s[i] as int + 32,
        !(65 <= s[i] as int <= 90) ==> lower(s)[i] == s[i],
        lower(lower(s)) == lower(s),
{
    assert forall|j: int| 0 <= j < s.len() implies lower_char(lower_char(#[trigger] s[j]))
        == lower_char(s[j]) by {}
    assert(lower(lower(s)) =~= lower(s));
}

/// What decimal digits say.
pub open spec fn digits_value(s: Seq<char>) -> int
    decreases s.len(),
{
    if s.len() == 0 {
        0
    } else {
        10 * digits_value(s.drop_last()) + (s.last() as int - 48)
    }
}

/// A number written in decimal is read back as the same number, is made of
/// digits, and does not begin with a zero unless it is zero.
pub proof fn law_decimal_reads_back(n: nat)
    ensures
        digits_value(decimal(n)) == n,
        decimal(n).len() > 0,
        all_in(decimal(n), CharClass::Digit),
        n > 0 ==> decimal(n)[0] != '0',
    decreases n,
{
    if n < 10 {
        assert(decimal(n).drop_last() =~= Seq::<char>::empty());
        assert(digits_value(decimal(n).drop_last()) == 0);
    } else {
        law_decimal_reads_back(n / 10);
        assert(decimal(n).drop_last() =~= decimal(n / 10));
    }
}

/// The last place of a character is one that has it, with none behind it.
pub proof fn law_last_place(s: Seq<char>, c: char)
    ensures
        -1 <= last_of(s, c) < s.len(),
        last_of(s, c) >= 0 ==> s[last_of(s, c)] == c,
        forall|j: int| last_of(s, c) < j < s.len() ==> #[trigger] s[j] != c,
    decreases s.len(),
{
    if s.len() > 0 && s.last() != c {
        law_last_place(s.drop_last(), c);
        assert forall|j: int| last_of(s, c) < j < s.len() implies #[trigger] s[j] != c by {
            if j < s.len() - 1 {
                assert(s.drop_last()[j] == s[j]);
            }
        }
    }
}

/// A part, a separator and the rest are split into the part and the parts of
/// the rest.
pub proof fn law_split_first(part: Seq<char>, sep: char, rest: Seq<char>)
    requires
        !part.contains(sep),
    ensures
        split(part, sep) == seq![part],
        split(part + seq![sep] + rest, sep) == seq![part] + split(rest, sep),
        split_once(part, sep) is None,
        split_once(part + seq![sep] + rest, sep) == Some((part, rest)),
{
    let k = CharClass::Is(sep);
    let s = part + seq![sep] + rest;
    lemma_first_in(part, k);
    lemma_first_in(s, k);
    let i = first_in(s, k);
    let j = first_in(part, k);
    if j < part.len() {
        assert(part.contains(part[j]));
    }
    assert(s[part.len() as int] == sep);
    if i < part.len() {
        assert(s[i] == part[i]);
        assert(part.contains(part[i]));
    }
    if i > part.len() {
        assert(!k.holds(s[part.len() as int]));
    }
    assert(i == part.len());
    assert(s.take(i) =~= part);
    assert(s.skip(i + 1) =~= rest);
}

/// Digits without a leading zero are the decimal form of what they say.
pub proof fn law_digits_are_the_decimal_form(s: Seq<char>)
    requires
        s.len() > 0,
        all_in(s, CharClass::Digit),
        s.len() == 1 || s[0] != '0',
    ensures
        digits_value(s) >= 0,
        s.len() > 1 ==> digits_value(s) >= 10,
        s[0] != '0' ==> digits_value(s) > 0,
        decimal(digits_value(s) as nat) == s,
    decreases s.len(),
{
    let c = s.last();
    let rest = s.drop_last();
    assert(CharClass::Digit.holds(s[s.len() - 1]));
    if s.len() == 1 {
        assert(digits_value(rest) == 0);
        assert(digit(c as int - 48) == c);
        assert(decimal(digits_value(s) as nat) =~= s);
    } else {
        assert forall|i: int| 0 <= i < rest.len() implies CharClass::Digit.holds(
            #[trigger] rest[i],
        ) by {
            assert(rest[i] == s[i]);
        }
        law_digits_are_the_decimal_form(rest);
        let n = digits_value(s);
        assert(n / 10 == digits_value(rest) && n % 10 == c as int - 48);
        assert(digit(c as int - 48) == c);
        assert(decimal(n as nat) =~= s);
    }
}

/// Parts are joined with the separator between each two and nowhere else.
pub proof fn law_joined_parts(parts: Seq<Seq<char>>, part: Seq<char>, sep: Seq<char>)
    ensures
        join(Seq::empty(), sep).len() == 0,
        join(seq![part], sep) == part,
        parts.len() > 0 ==> join(parts.push(part), sep) == join(parts, sep) + sep + part,
{
    assert(parts.push(part).drop_last() =~= parts);
}

} // verus!
