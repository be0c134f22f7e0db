//! What reading a text finds.

use crate::blufi::codec::ScanView;
use crate::blufi::wifi;
use crate::text;
use vstd::prelude::*;

verus! {

/// White space and nothing else.
pub open spec fn blank(s: Seq<char>) -> bool {
    forall|i: int| 0 <= i < s.len() ==> text::is_space(#[trigger] s[i])
}

/// Space, tab, line feed and carriage return are white space; letters, digits and the signs that
/// texts of this client are made of are not.
pub proof fn law_white_space(c: char)
    ensures
        text::is_space(' ') && text::is_space('\t') && text::is_space('\n') && text::is_space('\r'),
        '!' <= c <= '~' ==> !text::is_space(c),
{
}

/// Trimming takes white space away in front and behind, all of it, and nothing else.
pub proof fn law_trimming(s: Seq<char>) -> (p: (Seq<char>, Seq<char>))
    ensures
        s == p.0 + text::trimmed(s) + p.1,
        blank(p.0),
        blank(p.1),
        text::trimmed(s).len() > 0 ==> !text::is_space(text::trimmed(s)[0]) && !text::is_space(
            text::trimmed(s).last(),
        ),
{
    let front = lemma_front(s);
    let t = text::trimmed_start(s);
    let back = lemma_back(t);
    assert(s =~= front + text::trimmed(s) + back);
    let r = text::trimmed(s);
    if r.len() > 0 {
        assert(r[0] == t[0]);
    }
    (front, back)
}

proof fn lemma_front(s: Seq<char>) -> (front: Seq<char>)
    ensures
        s == front + text::trimmed_start(s),
        blank(front),
        text::trimmed_start(s).len() > 0 ==> !text::is_space(text::trimmed_start(s)[0]),
    decreases s.len(),
{
    if s.len() > 0 && text::is_space(s[0]) {
        let rest = lemma_front(s.drop_first());
        let front = seq![s[0]] + rest;
        assert(s =~= front + text::trimmed_start(s)) by {
            assert(s =~= seq![s[0]] + s.drop_first());
        }
        front
    } else {
        assert(s =~= Seq::<char>::empty() + s);
        Seq::empty()
    }
}

proof fn lemma_back(s: Seq<char>) -> (back: Seq<char>)
    ensures
        s == text::trimmed_end(s) + back,
        blank(back),
        text::trimmed_end(s).len() > 0 ==> !text::is_space(text::trimmed_end(s).last()),
    decreases s.len(),
{
    if s.len() > 0 && text::is_space(s.last()) {
        let rest = lemma_back(s.drop_last());
        let back = rest.push(s.last());
        assert(s =~= text::trimmed_end(s) + back) by {
            assert(s =~= s.drop_last().push(s.last()));
        }
        back
    } else {
        assert(s =~= s + Seq::<char>::empty());
        Seq::empty()
    }
}

/// A row of digits is read as a decimal number: each digit counts ten times what the next one does.
pub proof fn law_decimal_numbers(s: Seq<char>, d: char, n: nat)
    ensures
        text::digits_value(Seq::empty()) == 0,
        '0' <= d <= '9' ==> text::digits_value(s.push(d)) == 10 * text::digits_value(s) + (d as int
            - '0' as int),
        text::digits_value(text::decimal(n)) == n,
        text::unsigned_of(text::decimal(n)) == Some(n),
{
    assert(s.push(d).drop_last() =~= s);
    text::lemma_decimal_is_read(n);
}

/// A text is split at every separator, and nowhere else.
pub proof fn law_splitting(a: Seq<char>, b: Seq<char>, c: char)
    requires
        forall|i: int| 0 <= i < a.len() ==> #[trigger] a[i] != c,
    ensures
        text::split_on(a, c) == seq![a],
        text::split_on(a + seq![c] + b, c) == seq![a] + text::split_on(b, c),
{
    text::lemma_find_char(a, c, a.len() as int);
    text::lemma_split_joined(a, b, c);
}

/// A line that ends with a line feed is a line without it, and without a carriage return in front of
/// it; what follows are the lines of the rest.
pub proof fn law_lines(a: Seq<char>, b: Seq<char>)
    requires
        forall|i: int| 0 <= i < a.len() ==> #[trigger] a[i] != '\n',
        a.len() == 0 || a.last() != '\r',
        b.len() > 0,
    ensures
        text::lines_of(Seq::empty()) == Seq::<Seq<char>>::empty(),
        a.len() > 0 ==> text::lines_of(a) == seq![a],
        text::lines_of(a + seq!['\n'] + b) == seq![a] + text::lines_of(b),
        text::lines_of(a + seq!['\r', '\n'] + b) == seq![a] + text::lines_of(b),
{
    let none = Seq::<char>::empty();
    law_splitting(none, b, '\n');
    law_splitting(a, b, '\n');
    let r = a.push('\r');
    assert forall|i: int| 0 <= i < r.len() implies #[trigger] r[i] != '\n' by {
        if i < a.len() {
            assert(r[i] == a[i]);
        }
    }
    law_splitting(r, b, '\n');
    assert(a + seq!['\r', '\n'] + b =~= r + seq!['\n'] + b);
    assert(r.drop_last() =~= a);
    let parts = text::split_on(b, '\n');
    let n = text::find_char(b, '\n');
    text::lemma_find_char_range(b, '\n');
    assert(parts.len() > 0);
    let whole = seq![a] + parts;
    let wholer = seq![r] + parts;
    assert(whole.drop_last() =~= seq![a] + parts.drop_last());
    assert(wholer.drop_last() =~= seq![r] + parts.drop_last());
    assert(whole.last() == parts.last());
    let f = |l: Seq<char>| text::without_return(l);
    assert(whole.drop_last().map_values(f) =~= seq![a] + parts.drop_last().map_values(f));
    assert(wholer.drop_last().map_values(f) =~= seq![a] + parts.drop_last().map_values(f));
    assert(text::lines_of(a + seq!['\n'] + b) =~= seq![a] + text::lines_of(b));
    assert(text::lines_of(a + seq!['\r', '\n'] + b) =~= seq![a] + text::lines_of(b));
    assert(text::lines_of(none) =~= Seq::<Seq<char>>::empty());
    if a.len() > 0 {
        assert(text::lines_of(a) =~= seq![a]);
    }
}

/// A text holds another where that stands somewhere in it.
pub proof fn law_holding(s: Seq<char>, w: Seq<char>, i: int)
    ensures
        0 <= i && i + w.len() <= s.len() && s.subrange(i, i + w.len()) == w ==> text::holds(s, w),
        text::holds(s, w) ==> exists|k: int|
            0 <= k && k + w.len() <= s.len() && #[trigger] s.subrange(k, k + w.len()) == w,
{
    if 0 <= i && i + w.len() <= s.len() && s.subrange(i, i + w.len()) == w {
        assert(s.skip(i).take(w.len() as int) =~= w);
        assert(text::starts(s.skip(i), w));
    }
    if text::holds(s, w) {
        let k = choose|k: int| 0 <= k <= s.len() && #[trigger] text::starts(s.skip(k), w);
        assert(s.subrange(k, k + w.len()) =~= s.skip(k).take(w.len() as int));
    }
}

/// A line of a scan has five columns: the third is the strength of the signal and the fifth the
/// name of the network, which may hold white space within.
pub proof fn law_line_of_a_scan(
    a: Seq<char>,
    b: Seq<char>,
    d: Seq<char>,
    strength: nat,
    name: Seq<char>,
)
    requires
        forall|i: int| 0 <= i < a.len() ==> #[trigger] a[i] != '\t',
        forall|i: int| 0 <= i < b.len() ==> #[trigger] b[i] != '\t',
        forall|i: int| 0 <= i < d.len() ==> #[trigger] d[i] != '\t',
        0 < strength <= 128,
        name.len() > 0,
        !text::is_space(name[0]),
        !text::is_space(name.last()),
    ensures
        wifi::scan_line(
            a + seq!['\t'] + (b + seq!['\t'] + ((seq!['-'] + text::decimal(strength)) + seq!['\t'] + (d
                + seq!['\t'] + name))),
        ) == Some(ScanView { ssid: name, rssi: (-strength) as i8 }),
{
    let tab = seq!['\t'];
    let c = seq!['-'] + text::decimal(strength);
    let l4 = d + tab + name;
    let l3 = c + tab + l4;
    let l2 = b + tab + l3;
    let l1 = a + tab + l2;
    text::lemma_decimal_is_read(strength);
    assert forall|i: int| 0 <= i < c.len() implies #[trigger] c[i] != '\t' && !text::is_space(c[i]) by {
        if i > 0 {
            assert(text::is_digit(text::decimal(strength)[i - 1]));
        }
    }
    law_splitting(a, l2, '\t');
    law_splitting(b, l3, '\t');
    law_splitting(c, l4, '\t');
    let cols = text::split_on(l1, '\t');
    assert(cols[2] == c) by {
        assert(text::split_on(l1, '\t') == seq![a] + text::split_on(l2, '\t'));
        assert(text::split_on(l2, '\t') == seq![b] + text::split_on(l3, '\t'));
        assert(text::split_on(l3, '\t') == seq![c] + text::split_on(l4, '\t'));
    }
    lemma_behind(a, l2);
    lemma_behind(b, l3);
    lemma_behind(c, l4);
    lemma_behind(d, name);
    reveal_with_fuel(text::behind_nth, 5);
    assert(text::behind_nth(l1, '\t', 4) == Some(name));
    assert(text::trimmed_start(name) == name);
    assert(text::trimmed(name) == name);
    assert(text::trimmed_start(c) == c);
    assert(text::trimmed(c) == c);
    assert(c.drop_first() =~= text::decimal(strength));
    assert(text::integer_of(c) == Some(-(strength as int)));
}

proof fn lemma_behind(a: Seq<char>, rest: Seq<char>)
    requires
        forall|i: int| 0 <= i < a.len() ==> #[trigger] a[i] != '\t',
    ensures
        ({
            let s = a + seq!['\t'] + rest;
            &&& text::find_char(s, '\t') == a.len()
            &&& s.skip(a.len() as int + 1) == rest
        }),
{
    let s = a + seq!['\t'] + rest;
    assert forall|k: int| 0 <= k < a.len() implies s[k] != '\t' by {
        assert(s[k] == a[k]);
    }
    text::lemma_find_char(s, '\t', a.len() as int);
    assert(s.skip(a.len() as int + 1) =~= rest);
}

/// A text that is cut to a number of bytes keeps as much of its front as fits, and is left alone
/// where all of it does.
pub proof fn law_cutting(s: Seq<char>, max: int)
    requires
        max >= 0,
    ensures
        ({
            let t = text::truncated(s, max);
            &&& t.len() <= s.len()
            &&& t == s.take(t.len() as int)
            &&& text::byte_len(t) <= max
            &&& t.len() < s.len() ==> text::byte_len(s.take(t.len() as int + 1)) > max
        }),
    decreases s.len(),
{
    text::lemma_truncated_fits(s, max);
    let t = text::truncated(s, max);
    assert(s.take(s.len() as int) =~= s);
    if s.len() > 0 && text::byte_len(s) > max {
        law_cutting(s.drop_last(), max);
        assert(t == text::truncated(s.drop_last(), max));
        if t.len() + 1 <= s.drop_last().len() {
            assert(s.drop_last().take(t.len() as int + 1) =~= s.take(t.len() as int + 1));
        } else {
            assert(s.take(t.len() as int + 1) =~= s);
        }
        assert(s.drop_last().take(t.len() as int) =~= s.take(t.len() as int));
    }
}

} // verus!
