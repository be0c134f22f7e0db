//! Text: the operations on strings that the protocols need, stated over characters.

use vstd::prelude::*;
use vstd::utf8;

verus! {

/// The message of the error that `core::str::from_utf8` gives for bytes that are no UTF-8.
pub uninterp spec fn utf8_complaint(bytes: Seq<u8>) -> Seq<char>;

/// `core::str::from_utf8`: the text of some bytes, or the message of the error where they are no
/// UTF-8.
#[verifier::external_body]
pub(crate) fn utf8_text(bytes: &[u8]) -> (r: Result<&str, String>)
    ensures
        match r {
            Ok(s) => utf8::valid_utf8(bytes@) && utf8::encode_utf8(s@) == bytes@,
            Err(m) => !utf8::valid_utf8(bytes@) && m@ == utf8_complaint(bytes@),
        },
{
    core::str::from_utf8(bytes).map_err(|e| e.to_string())
}

/// Two texts with the same bytes are the same text.
pub proof fn lemma_bytes_determine_text(a: Seq<char>, b: Seq<char>)
    requires
        utf8::encode_utf8(a) == utf8::encode_utf8(b),
    ensures
        a == b,
{
    utf8::encode_utf8_decode_utf8(a);
    utf8::encode_utf8_decode_utf8(b);
}

fn same_bytes(a: &[u8], b: &[u8]) -> (r: bool)
    ensures
        r == (a@ == b@),
{
    if a.len() != b.len() {
        return false;
    }
    let mut i: usize = 0;
    while i < a.len()
        invariant
            i <= a@.len(),
            a@.len() == b@.len(),
            forall|k: int| 0 <= k < i ==> a@[k] == b@[k],
        decreases a@.len() - i,
    {
        if a[i] != b[i] {
            return false;
        }
        i += 1;
    }
    assert(a@ =~= b@);
    true
}

/// Whether two texts are equal.
pub fn same(a: &str, b: &str) -> (r: bool)
    ensures
        r == (a@ == b@),
{
    let r: bool = same_bytes(a.as_bytes(), b.as_bytes());
    proof {
        if r {
            lemma_bytes_determine_text(a@, b@);
        }
    }
    r
}

/// The characters of a text.
pub fn chars_of(s: &str) -> (v: Vec<char>)
    ensures
        v@ == s@,
{
    let mut v: Vec<char> = Vec::new();
    for c in it: s.chars()
        invariant
            v@ == it.seq().take(it.index()),
            it.seq() == s@,
    {
        v.push(c);
        assert(v@ =~= it.seq().take(it.index() + 1));
    }
    assert(v@ =~= s@);
    v
}

/// The characters with the Unicode property `White_Space`.
pub open spec fn is_space(c: char) -> bool {
    ||| '\u{9}' <= c <= '\u{d}'
    ||| c == ' '
    ||| c == '\u{85}'
    ||| c == '\u{a0}'
    ||| c == '\u{1680}'
    ||| '\u{2000}' <= c <= '\u{200a}'
    ||| c == '\u{2028}'
    ||| c == '\u{2029}'
    ||| c == '\u{202f}'
    ||| c == '\u{205f}'
    ||| c == '\u{3000}'
}

pub fn space(c: char) -> (r: bool)
    ensures
        r == is_space(c),
{
    ('\u{9}' <= c && c <= '\u{d}') || c == ' ' || c == '\u{85}' || c == '\u{a0}' || c == '\u{1680}'
        || ('\u{2000}' <= c && c <= '\u{200a}') || c == '\u{2028}' || c == '\u{2029}' || c
        == '\u{202f}' || c == '\u{205f}' || c == '\u{3000}'
}

/// A text without the white space in front of it.
pub open spec fn trimmed_start(s: Seq<char>) -> Seq<char>
    decreases s.len(),
{
    if s.len() > 0 && is_space(s[0]) {
        trimmed_start(s.drop_first())
    } else {
        s
    }
}

/// A text without the white space behind it.
pub open spec fn trimmed_end(s: Seq<char>) -> Seq<char>
    decreases s.len(),
{
    if s.len() > 0 && is_space(s.last()) {
        trimmed_end(s.drop_last())
    } else {
        s
    }
}

/// A text without the white space around it.
pub open spec fn trimmed(s: Seq<char>) -> Seq<char> {
    trimmed_end(trimmed_start(s))
}

/// Removes white space in front.
pub fn trim_start(s: &str) -> (r: &str)
    ensures
        r@ == trimmed_start(s@),
{
    let v: Vec<char> = chars_of(s);
    let mut i: usize = 0;
    assert(s@.skip(0) =~= s@);
    while i < v.len() && space(v[i])
        invariant
            i <= v@.len(),
            v@ == s@,
            trimmed_start(s@.skip(i as int)) == trimmed_start(s@),
        decreases v@.len() - i,
    {
        assert(s@.skip(i as int).drop_first() =~= s@.skip(i as int + 1));
        i += 1;
    }
    assert(s@.subrange(i as int, s@.len() as int) =~= s@.skip(i as int));
    s.substring_char(i, v.len())
}

/// Removes white space behind.
pub fn trim_end(s: &str) -> (r: &str)
    ensures
        r@ == trimmed_end(s@),
{
    let v: Vec<char> = chars_of(s);
    let mut n: usize = v.len();
    assert(s@.take(n as int) =~= s@);
    while n > 0 && space(v[n - 1])
        invariant
            n <= v@.len(),
            v@ == s@,
            trimmed_end(s@.take(n as int)) == trimmed_end(s@),
        decreases n,
    {
        assert(s@.take(n as int).drop_last() =~= s@.take(n - 1));
        n -= 1;
    }
    assert(s@.subrange(0, n as int) =~= s@.take(n as int));
    s.substring_char(0, n)
}

/// Removes white space on both sides.
pub fn trim(s: &str) -> (r: &str)
    ensures
        r@ == trimmed(s@),
{
    trim_end(trim_start(s))
}

/// The place of the first `c` in `s`, or the length of `s` where there is none.
pub open spec fn find_char(s: Seq<char>, c: char) -> int
    decreases s.len(),
{
    if s.len() == 0 || s[0] == c {
        0
    } else {
        1 + find_char(s.drop_first(), c)
    }
}

/// The parts of `s` between the occurrences of `c`; a text without `c` is one part.
pub open spec fn split_on(s: Seq<char>, c: char) -> Seq<Seq<char>>
    decreases s.len(),
{
    let n = find_char(s, c);
    if 0 <= n < s.len() {
        seq![s.take(n)] + split_on(s.skip(n + 1), c)
    } else {
        seq![s]
    }
}

pub proof fn lemma_find_char(s: Seq<char>, c: char, n: int)
    requires
        0 <= n <= s.len(),
        forall|k: int| 0 <= k < n ==> s[k] != c,
        n < s.len() ==> s[n] == c,
    ensures
        find_char(s, c) == n,
    decreases s.len(),
{
    if s.len() > 0 && n > 0 {
        lemma_find_char(s.drop_first(), c, n - 1);
    }
}

pub proof fn lemma_find_char_range(s: Seq<char>, c: char)
    ensures
        0 <= find_char(s, c) <= s.len(),
        find_char(s, c) < s.len() ==> s[find_char(s, c)] == c,
        forall|k: int| 0 <= k < find_char(s, c) && k < s.len() ==> s[k] != c,
    decreases s.len(),
{
    if s.len() > 0 && s[0] != c {
        let rest = s.drop_first();
        lemma_find_char_range(rest, c);
        assert forall|k: int| 0 <= k < find_char(s, c) && k < s.len() implies s[k] != c by {
            if k > 0 {
                assert(rest[k - 1] != c);
            }
        }
    }
}

/// The parts of two texts with `c` between them are the parts of the one and of the other.
pub proof fn lemma_split_joined(a: Seq<char>, b: Seq<char>, c: char)
    ensures
        split_on(a + seq![c] + b, c) == split_on(a, c) + split_on(b, c),
    decreases a.len(),
{
    let whole = a + seq![c] + b;
    let n = find_char(a, c);
    lemma_find_char_range(a, c);
    assert forall|k: int| 0 <= k < n implies whole[k] != c by {
        assert(whole[k] == a[k]);
    }
    assert(whole[n] == c);
    lemma_find_char(whole, c, n);
    if n < a.len() {
        lemma_split_joined(a.skip(n + 1), b, c);
        assert(whole.take(n) =~= a.take(n));
        assert(whole.skip(n + 1) =~= a.skip(n + 1) + seq![c] + b);
        assert(split_on(whole, c) =~= split_on(a, c) + split_on(b, c));
    } else {
        assert(whole.take(n) =~= a);
        assert(whole.skip(n + 1) =~= b);
    }
}

/// No part of a text has in it what the text is split at.
pub proof fn lemma_parts_are_whole(s: Seq<char>, c: char)
    ensures
        forall|i: int, k: int|
            0 <= i < split_on(s, c).len() && 0 <= k < split_on(s, c)[i].len()
                ==> #[trigger] split_on(s, c)[i][k] != c,
    decreases s.len(),
{
    let n = find_char(s, c);
    lemma_find_char_range(s, c);
    let parts = split_on(s, c);
    if n < s.len() {
        let rest = s.skip(n + 1);
        lemma_parts_are_whole(rest, c);
        assert forall|i: int, k: int|
            0 <= i < parts.len() && 0 <= k < parts[i].len() implies #[trigger] parts[i][k] != c by {
            if i > 0 {
                assert(parts[i] == split_on(rest, c)[i - 1]);
            }
        }
    }
}

/// The contents of a list of texts.
pub open spec fn text_views(parts: Seq<&str>) -> Seq<Seq<char>> {
    parts.map_values(|p: &str| p@)
}

/// Splits a text at every `c`.
pub fn split<'a>(s: &'a str, c: char) -> (parts: Vec<&'a str>)
    ensures
        text_views(parts@) == split_on(s@, c),
{
    let v: Vec<char> = chars_of(s);
    let mut parts: Vec<&'a str> = Vec::new();
    let mut start: usize = 0;
    let mut i: usize = 0;
    assert(s@.skip(0) =~= s@);
    assert(text_views(parts@) =~= Seq::<Seq<char>>::empty());
    assert(text_views(parts@) + split_on(s@.skip(0), c) =~= split_on(s@, c));
    while i < v.len()
        invariant
            start <= i <= v@.len(),
            v@ == s@,
            forall|k: int| start <= k < i ==> s@[k] != c,
            text_views(parts@) + split_on(s@.skip(start as int), c) == split_on(s@, c),
        decreases v@.len() - i,
    {
        if v[i] == c {
            let ghost before = parts@;
            let ghost rest = s@.skip(start as int);
            let part: &'a str = s.substring_char(start, i);
            parts.push(part);
            proof {
                lemma_find_char(rest, c, i - start);
                assert(rest.take(i - start) =~= part@);
                assert(rest.skip(i - start + 1) =~= s@.skip(i as int + 1));
                assert(text_views(parts@) =~= text_views(before).push(part@));
                assert(text_views(before) + (seq![part@] + split_on(s@.skip(i as int + 1), c))
                    =~= text_views(parts@) + split_on(s@.skip(i as int + 1), c));
            }
            start = i + 1;
        }
        i += 1;
    }
    let ghost before = parts@;
    let part: &'a str = s.substring_char(start, v.len());
    parts.push(part);
    proof {
        let rest = s@.skip(start as int);
        lemma_find_char(rest, c, rest.len() as int);
        assert(part@ =~= rest);
        assert(text_views(parts@) =~= text_views(before).push(part@));
        assert(text_views(before) + seq![rest] =~= text_views(parts@));
    }
    parts
}

/// Whether `s` starts with `p`.
pub open spec fn starts(s: Seq<char>, p: Seq<char>) -> bool {
    p.len() <= s.len() && s.take(p.len() as int) == p
}

/// The rest of `s` behind the prefix `p`, where it has that prefix.
pub fn strip_prefix<'a>(s: &'a str, p: &str) -> (r: Option<&'a str>)
    ensures
        match r {
            Some(rest) => starts(s@, p@) && rest@ == s@.skip(p@.len() as int),
            None => !starts(s@, p@),
        },
{
    let v: Vec<char> = chars_of(s);
    let w: Vec<char> = chars_of(p);
    if w.len() > v.len() {
        return None;
    }
    let mut i: usize = 0;
    while i < w.len()
        invariant
            i <= w@.len() <= v@.len(),
            v@ == s@,
            w@ == p@,
            forall|k: int| 0 <= k < i ==> s@[k] == p@[k],
        decreases w@.len() - i,
    {
        if v[i] != w[i] {
            assert(s@.take(p@.len() as int)[i as int] != p@[i as int]);
            return None;
        }
        i += 1;
    }
    assert(s@.take(p@.len() as int) =~= p@);
    assert(s@.subrange(w@.len() as int, v@.len() as int) =~= s@.skip(p@.len() as int));
    Some(s.substring_char(w.len(), v.len()))
}

/// The character of a decimal digit.
pub open spec fn digit_char(d: int) -> char {
    (d + 48) as char
}

/// A number in decimal.
pub open spec fn decimal(n: nat) -> Seq<char>
    decreases n,
{
    if n < 10 {
        seq![digit_char(n as int)]
    } else {
        decimal(n / 10).push(digit_char(n as int % 10))
    }
}

fn digit_text(d: u64) -> (s: &'static str)
    requires
        d < 10,
    ensures
        s@ == seq![digit_char(d as int)],
{
    proof {
        reveal_strlit("0");
        reveal_strlit("1");
        reveal_strlit("2");
        reveal_strlit("3");
        reveal_strlit("4");
        reveal_strlit("5");
        reveal_strlit("6");
        reveal_strlit("7");
        reveal_strlit("8");
        reveal_strlit("9");
    }
    let s: &'static str = if d == 0 {
        "0"
    } else if d == 1 {
        "1"
    } else if d == 2 {
        "2"
    } else if d == 3 {
        "3"
    } else if d == 4 {
        "4"
    } else if d == 5 {
        "5"
    } else if d == 6 {
        "6"
    } else if d == 7 {
        "7"
    } else if d == 8 {
        "8"
    } else {
        "9"
    };
    assert(s@ =~= seq![digit_char(d as int)]);
    s
}

/// The decimal text of a number.
pub fn number_text(n: u64) -> (s: String)
    ensures
        s@ == decimal(n as nat),
    decreases n,
{
    let mut s: String = if n < 10 {
        String::new()
    } else {
        number_text(n / 10)
    };
    let ghost head = s@;
    s.append(digit_text(n % 10));
    proof {
        if n < 10 {
            assert(s@ =~= decimal(n as nat));
        } else {
            assert(s@ =~= head.push(digit_char(n as int % 10)));
        }
    }
    s
}

pub open spec fn is_digit(c: char) -> bool {
    '0' <= c <= '9'
}

pub open spec fn all_digits(s: Seq<char>) -> bool {
    forall|i: int| 0 <= i < s.len() ==> is_digit(#[trigger] s[i])
}

/// The number that a row of digits writes.
pub open spec fn digits_value(s: Seq<char>) -> nat
    decreases s.len(),
{
    if s.len() == 0 {
        0
    } else {
        digits_value(s.drop_last()) * 10 + (s.last() as nat - 48) as nat
    }
}

/// The number that `digits` writes, if it consists of digits and is at most `max`.
pub fn parse_digits(digits: &[char], max: u64) -> (r: Option<u64>)
    ensures
        match r {
            Some(n) => digits@.len() > 0 && all_digits(digits@) && n == digits_value(digits@) && n
                <= max,
            None => digits@.len() == 0 || !all_digits(digits@) || digits_value(digits@) > max,
        },
{
    if digits.len() == 0 {
        return None;
    }
    let mut n: u128 = 0;
    let mut over: bool = false;
    let mut i: usize = 0;
    assert(digits@.take(0) =~= Seq::<char>::empty());
    while i < digits.len()
        invariant
            i <= digits@.len(),
            all_digits(digits@.take(i as int)),
            over ==> digits_value(digits@.take(i as int)) > max,
            !over ==> n == digits_value(digits@.take(i as int)) && n <= max,
        decreases digits@.len() - i,
    {
        let c: char = digits[i];
        if c < '0' || c > '9' {
            assert(!is_digit(digits@[i as int]));
            return None;
        }
        let ghost longer = digits@.take(i as int + 1);
        assert(longer.drop_last() =~= digits@.take(i as int));
        assert(all_digits(longer));
        if !over {
            n = n * 10 + (c as u32 - 48) as u128;
            if n > max as u128 {
                over = true;
            }
        }
        i += 1;
    }
    assert(digits@.take(i as int) =~= digits@);
    if over {
        None
    } else {
        Some(n as u64)
    }
}

/// A text without the characters of `set` in front of it.
pub open spec fn stripped_start(s: Seq<char>, set: Seq<char>) -> Seq<char>
    decreases s.len(),
{
    if s.len() > 0 && set.contains(s[0]) {
        stripped_start(s.drop_first(), set)
    } else {
        s
    }
}

/// A text without the characters of `set` behind it.
pub open spec fn stripped_end(s: Seq<char>, set: Seq<char>) -> Seq<char>
    decreases s.len(),
{
    if s.len() > 0 && set.contains(s.last()) {
        stripped_end(s.drop_last(), set)
    } else {
        s
    }
}

fn member(c: char, set: &[char]) -> (r: bool)
    ensures
        r == set@.contains(c),
{
    let mut i: usize = 0;
    while i < set.len()
        invariant
            i <= set@.len(),
            forall|k: int| 0 <= k < i ==> set@[k] != c,
        decreases set@.len() - i,
    {
        if set[i] == c {
            return true;
        }
        i += 1;
    }
    false
}

/// Removes the characters of `set` on both sides.
pub fn trim_set<'a>(s: &'a str, set: &[char]) -> (r: &'a str)
    ensures
        r@ == stripped_end(stripped_start(s@, set@), set@),
{
    let v: Vec<char> = chars_of(s);
    let mut i: usize = 0;
    assert(s@.skip(0) =~= s@);
    while i < v.len() && member(v[i], set)
        invariant
            i <= v@.len(),
            v@ == s@,
            stripped_start(s@.skip(i as int), set@) == stripped_start(s@, set@),
        decreases v@.len() - i,
    {
        assert(s@.skip(i as int).drop_first() =~= s@.skip(i as int + 1));
        i += 1;
    }
    let ghost rest = s@.skip(i as int);
    let mut n: usize = v.len();
    assert(s@.subrange(i as int, n as int) =~= rest);
    while n > i && member(v[n - 1], set)
        invariant
            i <= n <= v@.len(),
            v@ == s@,
            stripped_end(s@.subrange(i as int, n as int), set@) == stripped_end(rest, set@),
        decreases n,
    {
        assert(s@.subrange(i as int, n as int).drop_last() =~= s@.subrange(i as int, n - 1));
        n -= 1;
    }
    s.substring_char(i, n)
}

/// How many characters at the start of `s` are no white space.
pub open spec fn word_len(s: Seq<char>) -> int
    decreases s.len(),
{
    if s.len() > 0 && !is_space(s[0]) {
        1 + word_len(s.drop_first())
    } else {
        0
    }
}

/// The first word of a text; the empty text where there is none.
pub open spec fn first_word_of(s: Seq<char>) -> Seq<char> {
    let t = trimmed_start(s);
    t.take(word_len(t))
}

/// The first word of a text.
pub fn first_word(s: &str) -> (r: &str)
    ensures
        r@ == first_word_of(s@),
{
    let t: &str = trim_start(s);
    let v: Vec<char> = chars_of(t);
    let mut n: usize = 0;
    assert(t@.skip(0) =~= t@);
    while n < v.len() && !space(v[n])
        invariant
            n <= v@.len(),
            v@ == t@,
            word_len(t@) == n + word_len(t@.skip(n as int)),
        decreases v@.len() - n,
    {
        assert(t@.skip(n as int).drop_first() =~= t@.skip(n as int + 1));
        n += 1;
    }
    assert(t@.subrange(0, n as int) =~= t@.take(n as int));
    t.substring_char(0, n)
}

/// How many digits a text starts with.
pub open spec fn digits_len(s: Seq<char>) -> int
    decreases s.len(),
{
    if s.len() > 0 && is_digit(s[0]) {
        1 + digits_len(s.drop_first())
    } else {
        0
    }
}

/// How many of the characters from `from` on are digits, up to the first that is none.
pub fn count_digits(v: &[char], from: usize) -> (n: usize)
    requires
        from <= v@.len(),
    ensures
        n == digits_len(v@.skip(from as int)),
        from + n <= v@.len(),
{
    let mut n: usize = 0;
    while n < v.len() - from && '0' <= v[from + n] && v[from + n] <= '9'
        invariant
            from + n <= v@.len(),
            digits_len(v@.skip(from as int)) == n + digits_len(v@.skip(from + n)),
        decreases v@.len() - from - n,
    {
        assert(v@.skip(from + n).drop_first() =~= v@.skip(from + n + 1));
        n += 1;
    }
    n
}

/// An optional borrowed text by its contents.
pub open spec fn opt_str(o: Option<&str>) -> Option<Seq<char>> {
    match o {
        Some(s) => Some(s@),
        None => None,
    }
}

/// Joins two texts.
pub fn join(a: &str, b: &str) -> (r: String)
    ensures
        r@ == a@ + b@,
{
    let mut r: String = a.to_owned();
    r.append(b);
    r
}

/// Whether `w` stands somewhere in `s`.
pub open spec fn holds(s: Seq<char>, w: Seq<char>) -> bool {
    exists|i: int| 0 <= i <= s.len() && #[trigger] starts(s.skip(i), w)
}

/// Whether a text contains another.
pub fn contains(s: &str, w: &str) -> (r: bool)
    ensures
        r == holds(s@, w@),
{
    let v: Vec<char> = chars_of(s);
    let mut i: usize = 0;
    while i < v.len()
        invariant
            i <= v@.len(),
            v@ == s@,
            forall|k: int| 0 <= k < i ==> !#[trigger] starts(s@.skip(k), w@),
        decreases v@.len() - i,
    {
        let rest: &str = s.substring_char(i, v.len());
        assert(rest@ =~= s@.skip(i as int));
        if strip_prefix(rest, w).is_some() {
            return true;
        }
        i += 1;
    }
    let end: &str = s.substring_char(i, v.len());
    assert(end@ =~= s@.skip(i as int));
    strip_prefix(end, w).is_some()
}

/// A line without the carriage return at its end.
pub open spec fn without_return(line: Seq<char>) -> Seq<char> {
    if line.len() > 0 && line.last() == '\r' {
        line.drop_last()
    } else {
        line
    }
}

/// The lines of a text: each ends with a line feed, which a carriage return may precede; the
/// last may do without.
pub open spec fn lines_of(s: Seq<char>) -> Seq<Seq<char>> {
    let parts = split_on(s, '\n');
    let ended = parts.drop_last().map_values(|l: Seq<char>| without_return(l));
    if parts.last().len() == 0 {
        ended
    } else {
        ended.push(parts.last())
    }
}

proof fn lemma_split_has_parts(s: Seq<char>, c: char)
    ensures
        split_on(s, c).len() > 0,
{
}

fn cut_return<'a>(line: &'a str) -> (r: &'a str)
    ensures
        r@ == without_return(line@),
{
    let v: Vec<char> = chars_of(line);
    if v.len() > 0 && v[v.len() - 1] == '\r' {
        assert(line@.subrange(0, v@.len() - 1) =~= line@.drop_last());
        line.substring_char(0, v.len() - 1)
    } else {
        line
    }
}

/// The lines of a text.
pub fn lines<'a>(s: &'a str) -> (list: Vec<&'a str>)
    ensures
        text_views(list@) == lines_of(s@),
{
    proof {
        lemma_split_has_parts(s@, '\n');
    }
    let parts: Vec<&'a str> = split(s, '\n');
    let ghost views = text_views(parts@);
    let mut list: Vec<&'a str> = Vec::new();
    let mut i: usize = 0;
    while i < parts.len() - 1
        invariant
            i < parts@.len(),
            list@.len() == i,
            views == text_views(parts@),
            forall|k: int| 0 <= k < i ==> list@[k]@ == without_return(views[k]),
        decreases parts@.len() - i,
    {
        list.push(cut_return(parts[i]));
        i += 1;
    }
    let ghost ended = views.drop_last().map_values(|l: Seq<char>| without_return(l));
    assert(text_views(list@) =~= ended);
    let last: &'a str = parts[i];
    assert(last@ == views.last());
    if !last.is_empty() {
        let ghost before = list@;
        list.push(last);
        assert(text_views(list@) =~= text_views(before).push(last@));
    }
    list
}

/// Whether two characters are the same but for the case of an ASCII letter.
pub open spec fn same_letter(a: char, b: char) -> bool {
    ||| a == b
    ||| 'A' <= a <= 'Z' && b as int == a as int + 32
    ||| 'A' <= b <= 'Z' && a as int == b as int + 32
}

/// Whether two texts are the same but for the case of ASCII letters.
pub open spec fn same_letters(a: Seq<char>, b: Seq<char>) -> bool {
    &&& a.len() == b.len()
    &&& forall|i: int| 0 <= i < a.len() ==> same_letter(#[trigger] a[i], b[i])
}

fn letter_matches(a: char, b: char) -> (r: bool)
    ensures
        r == same_letter(a, b),
{
    a == b || ('A' <= a && a <= 'Z' && b as u32 == a as u32 + 32) || ('A' <= b && b <= 'Z'
        && a as u32 == b as u32 + 32)
}

/// Whether two texts are the same but for the case of ASCII letters.
pub fn same_ignoring_case(a: &str, b: &str) -> (r: bool)
    ensures
        r == same_letters(a@, b@),
{
    let v: Vec<char> = chars_of(a);
    let w: Vec<char> = chars_of(b);
    if v.len() != w.len() {
        return false;
    }
    let mut i: usize = 0;
    while i < v.len()
        invariant
            i <= v@.len(),
            v@ == a@,
            w@ == b@,
            v@.len() == w@.len(),
            forall|k: int| 0 <= k < i ==> same_letter(#[trigger] a@[k], b@[k]),
        decreases v@.len() - i,
    {
        if !letter_matches(v[i], w[i]) {
            assert(!same_letter(a@[i as int], b@[i as int]));
            return false;
        }
        i += 1;
    }
    true
}

/// The number without a sign that a text writes: digits, with a plus in front of them or none.
pub open spec fn unsigned_of(s: Seq<char>) -> Option<nat> {
    let digits = if s.len() > 0 && s[0] == '+' {
        s.drop_first()
    } else {
        s
    };
    if digits.len() > 0 && all_digits(digits) {
        Some(digits_value(digits))
    } else {
        None
    }
}

/// A number in decimal is read as that number.
pub proof fn lemma_decimal_is_read(n: nat)
    ensures
        decimal(n).len() > 0,
        all_digits(decimal(n)),
        digits_value(decimal(n)) == n,
        unsigned_of(decimal(n)) == Some(n),
    decreases n,
{
    let s = decimal(n);
    if n < 10 {
        assert(s.drop_last() =~= Seq::<char>::empty());
        assert(s.last() as nat == n + 48);
        assert(digits_value(s.drop_last()) == 0);
        assert(digits_value(s) == n);
    } else {
        lemma_decimal_is_read(n / 10);
        assert(s.drop_last() =~= decimal(n / 10));
        assert(s.last() as nat == n % 10 + 48);
        assert(digits_value(s) == (n / 10) * 10 + n % 10);
        assert forall|i: int| 0 <= i < s.len() implies is_digit(#[trigger] s[i]) by {
            if i < s.len() - 1 {
                assert(s[i] == decimal(n / 10)[i]);
            }
        }
    }
    assert(is_digit(s[0]));
}

/// The number without a sign that a text writes, if it is at most `max`.
pub fn parse_unsigned(s: &str, max: u64) -> (r: Option<u64>)
    ensures
        match r {
            Some(n) => unsigned_of(s@) == Some(n as nat) && n <= max,
            None => unsigned_of(s@) is None || unsigned_of(s@)->0 > max,
        },
{
    let v: Vec<char> = chars_of(s);
    if v.len() > 0 && v[0] == '+' {
        let digits: &[char] = vstd::slice::slice_subrange(v.as_slice(), 1, v.len());
        assert(digits@ =~= s@.drop_first());
        parse_digits(digits, max)
    } else {
        parse_digits(v.as_slice(), max)
    }
}

/// The number that a text writes: digits, with or without a sign in front of them.
pub open spec fn integer_of(s: Seq<char>) -> Option<int> {
    if s.len() > 0 && s[0] == '-' {
        let digits = s.drop_first();
        if digits.len() > 0 && all_digits(digits) {
            Some(-(digits_value(digits) as int))
        } else {
            None
        }
    } else {
        match unsigned_of(s) {
            Some(n) => Some(n as int),
            None => None,
        }
    }
}

/// The small number that a text writes, if it is one of eight bits with a sign.
pub fn parse_i8(s: &str) -> (r: Option<i8>)
    ensures
        match r {
            Some(n) => integer_of(s@) == Some(n as int),
            None => integer_of(s@) is None || integer_of(s@)->0 < -128 || integer_of(s@)->0 > 127,
        },
{
    let v: Vec<char> = chars_of(s);
    if v.len() > 0 && v[0] == '-' {
        let digits: &[char] = vstd::slice::slice_subrange(v.as_slice(), 1, v.len());
        assert(digits@ =~= s@.drop_first());
        match parse_digits(digits, 128) {
            Some(n) => Some((-(n as i16)) as i8),
            None => None,
        }
    } else {
        match parse_unsigned(s, 127) {
            Some(n) => Some(n as i8),
            None => None,
        }
    }
}

/// How many bytes a text takes in UTF-8.
pub open spec fn byte_len(s: Seq<char>) -> int {
    utf8::encode_utf8(s).len() as int
}

/// How many bytes a character takes in UTF-8.
pub open spec fn char_len(c: char) -> int {
    utf8::encode_scalar(c as u32).len() as int
}

proof fn lemma_byte_len_push(s: Seq<char>, c: char)
    ensures
        byte_len(s.push(c)) == byte_len(s) + char_len(c),
    decreases s.len(),
{
    if s.len() == 0 {
        assert(s.push(c).drop_first() =~= s);
    } else {
        lemma_byte_len_push(s.drop_first(), c);
        assert(s.push(c).drop_first() =~= s.drop_first().push(c));
    }
}

/// As much from the front of `s` as takes no more than `max` bytes.
pub open spec fn truncated(s: Seq<char>, max: int) -> Seq<char>
    decreases s.len(),
{
    if s.len() == 0 || byte_len(s) <= max {
        s
    } else {
        truncated(s.drop_last(), max)
    }
}

proof fn lemma_truncated(s: Seq<char>, n: int, max: int)
    requires
        0 <= n <= s.len(),
        byte_len(s.take(n)) <= max,
        n < s.len() ==> byte_len(s.take(n + 1)) > max,
    ensures
        truncated(s, max) == s.take(n),
    decreases s.len(),
{
    if n == s.len() {
        assert(s.take(n) =~= s);
    } else {
        lemma_byte_len_grows(s, n + 1);
        let front = s.drop_last();
        assert(front.take(n) =~= s.take(n));
        if n < front.len() {
            assert(front.take(n + 1) =~= s.take(n + 1));
        }
        lemma_truncated(front, n, max);
    }
}

proof fn lemma_byte_len_grows(s: Seq<char>, n: int)
    requires
        0 <= n <= s.len(),
    ensures
        byte_len(s.take(n)) <= byte_len(s),
    decreases s.len(),
{
    if n == s.len() {
        assert(s.take(n) =~= s);
    } else {
        let front = s.drop_last();
        lemma_byte_len_grows(front, n);
        assert(front.take(n) =~= s.take(n));
        lemma_byte_len_push(front, s.last());
        assert(front.push(s.last()) =~= s);
    }
}

fn char_width(c: char) -> (n: usize)
    ensures
        n == char_len(c),
        1 <= n <= 4,
{
    broadcast use utf8::char_is_scalar;

    let x: u32 = c as u32;
    if x <= 0x7F {
        1
    } else if x <= 0x7FF {
        2
    } else if x <= 0xFFFF {
        3
    } else {
        4
    }
}

/// As much from the front of a text as takes no more than `max` bytes; characters stay whole.
pub fn truncate(s: &str, max: usize) -> (r: &str)
    ensures
        r@ == truncated(s@, max as int),
{
    let v: Vec<char> = chars_of(s);
    let mut used: usize = 0;
    let mut n: usize = 0;
    assert(s@.take(0) =~= Seq::<char>::empty());
    while n < v.len()
        invariant
            n <= v@.len(),
            v@ == s@,
            used <= max,
            used == byte_len(s@.take(n as int)),
        decreases v@.len() - n,
    {
        let width: usize = char_width(v[n]);
        proof {
            lemma_byte_len_push(s@.take(n as int), s@[n as int]);
            assert(s@.take(n as int).push(s@[n as int]) =~= s@.take(n as int + 1));
        }
        if width > max - used {
            proof {
                lemma_truncated(s@, n as int, max as int);
                assert(s@.subrange(0, n as int) =~= s@.take(n as int));
            }
            return s.substring_char(0, n);
        }
        used = used + width;
        n += 1;
    }
    proof {
        lemma_truncated(s@, n as int, max as int);
        assert(s@.subrange(0, n as int) =~= s@.take(n as int));
    }
    s.substring_char(0, n)
}

/// What is left of a truncated text is its front, and takes no more bytes than allowed.
pub proof fn lemma_truncated_fits(s: Seq<char>, max: int)
    requires
        max >= 0,
    ensures
        byte_len(truncated(s, max)) <= max,
        starts(s, truncated(s, max)),
    decreases s.len(),
{
    if s.len() == 0 || byte_len(s) <= max {
        assert(s.take(s.len() as int) =~= s);
    } else {
        let front = s.drop_last();
        lemma_truncated_fits(front, max);
        let n = truncated(front, max).len() as int;
        assert(front.take(n) =~= s.take(n));
    }
}

/// What stands behind the `n`-th `c` in `s`, where there are that many.
pub open spec fn behind_nth(s: Seq<char>, c: char, n: nat) -> Option<Seq<char>>
    decreases n,
{
    if n == 0 {
        Some(s)
    } else {
        let k = find_char(s, c);
        if 0 <= k < s.len() {
            behind_nth(s.skip(k + 1), c, (n - 1) as nat)
        } else {
            None
        }
    }
}

/// What stands behind the `n`-th `c` in a text.
pub fn after_nth(s: &str, c: char, n: usize) -> (r: Option<&str>)
    ensures
        match r {
            Some(rest) => behind_nth(s@, c, n as nat) == Some(rest@),
            None => behind_nth(s@, c, n as nat) is None,
        },
{
    let v: Vec<char> = chars_of(s);
    let mut left: usize = n;
    let mut start: usize = 0;
    let mut i: usize = 0;
    assert(s@.skip(0) =~= s@);
    while left > 0
        invariant
            start <= i <= v@.len(),
            v@ == s@,
            forall|k: int| start <= k < i ==> s@[k] != c,
            left == 0 ==> i == start,
            behind_nth(s@, c, n as nat) == behind_nth(s@.skip(start as int), c, left as nat),
        decreases v@.len() - i + left,
    {
        let ghost rest = s@.skip(start as int);
        if i == v.len() {
            proof {
                lemma_find_char(rest, c, rest.len() as int);
            }
            return None;
        }
        if v[i] == c {
            proof {
                lemma_find_char(rest, c, i - start);
                assert(rest.skip(i - start + 1) =~= s@.skip(i as int + 1));
            }
            start = i + 1;
            left = left - 1;
        }
        i += 1;
    }
    let rest: &str = s.substring_char(start, v.len());
    assert(rest@ =~= s@.skip(start as int));
    Some(rest)
}

} // verus!
