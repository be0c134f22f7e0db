//! The name under which the device is found: where it comes from, and how the Bluetooth service's
//! configuration, `main.conf`, is kept in step with it.

use crate::text;
use vstd::prelude::*;

verus! {

/// The longest name that fits into a scan response, in bytes.
pub const NAME_MAX: usize = 29;

/// How long the server waits at most before it tries to register again, in seconds.
pub const BACKOFF_MAX_SECS: u64 = 30;

/// How long the server waits after the next failure: twice as long, up to a limit.
pub fn next_backoff(secs: u64) -> (next: u64)
    ensures
        next == if secs * 2 < BACKOFF_MAX_SECS {
            secs * 2
        } else {
            BACKOFF_MAX_SECS as int
        },
{
    if secs < BACKOFF_MAX_SECS / 2 {
        secs * 2
    } else {
        BACKOFF_MAX_SECS
    }
}

/// The name that one line of the configuration sets. The value may stand in quotes.
pub open spec fn name_in_line(line: Seq<char>) -> Option<Seq<char>> {
    let t = text::trimmed(line);
    if text::starts(t, "Name"@) {
        let rest = text::trimmed_start(t.skip(4));
        if text::starts(rest, "="@) {
            let value = text::trimmed(rest.skip(1));
            let name = text::stripped_end(text::stripped_start(value, seq!['"']), seq!['"']);
            if name.len() > 0 {
                Some(name)
            } else {
                None
            }
        } else {
            None
        }
    } else {
        None
    }
}

/// The name that the first line with one sets.
pub open spec fn name_in(lines: Seq<Seq<char>>) -> Option<Seq<char>>
    decreases lines.len(),
{
    if lines.len() == 0 {
        None
    } else if name_in_line(lines[0]) is Some {
        name_in_line(lines[0])
    } else {
        name_in(lines.drop_first())
    }
}

fn line_name(line: &str) -> (name: Option<&str>)
    ensures
        match name {
            Some(n) => name_in_line(line@) == Some(n@),
            None => name_in_line(line@) is None,
        },
{
    proof {
        reveal_strlit("Name");
        reveal_strlit("=");
    }
    let t: &str = text::trim(line);
    if let Some(rest) = text::strip_prefix(t, "Name") {
        if let Some(value) = text::strip_prefix(text::trim_start(rest), "=") {
            let mut quotes: Vec<char> = Vec::new();
            quotes.push('"');
            assert(quotes@ =~= seq!['"']);
            let name: &str = text::trim_set(text::trim(value), quotes.as_slice());
            if !name.is_empty() {
                return Some(name);
            }
        }
    }
    None
}

/// The name that the text of `main.conf` sets. Comments set none.
pub fn read_main_conf_name(content: &str) -> (name: Option<String>)
    ensures
        match name {
            Some(n) => name_in(text::lines_of(content@)) == Some(n@),
            None => name_in(text::lines_of(content@)) is None,
        },
{
    let lines: Vec<&str> = text::lines(content);
    let ghost views = text::text_views(lines@);
    let mut i: usize = 0;
    assert(views.skip(0) =~= views);
    while i < lines.len()
        invariant
            i <= lines@.len(),
            views == text::text_views(lines@),
            views == text::lines_of(content@),
            name_in(views) == name_in(views.skip(i as int)),
        decreases lines@.len() - i,
    {
        assert(views.skip(i as int)[0] == lines@[i as int]@);
        assert(views.skip(i as int).drop_first() =~= views.skip(i as int + 1));
        if let Some(name) = line_name(lines[i]) {
            return Some(name.to_owned());
        }
        i += 1;
    }
    None
}

/// The name to advertise: the adapter's alias, where it is one and is not just the host's name;
/// else the name in `main.conf`; else the configured one.
pub open spec fn best_name(
    alias: Option<Seq<char>>,
    system: Option<Seq<char>>,
    main_conf: Option<Seq<char>>,
    fallback: Seq<char>,
) -> Seq<char> {
    match alias {
        Some(a) if a.len() > 0 && system != Some(a) => a,
        _ => match main_conf {
            Some(c) => match name_in(text::lines_of(c)) {
                Some(n) => n,
                None => fallback,
            },
            None => fallback,
        },
    }
}

/// The name to advertise, cut to what fits. `main_conf` is the text of that file. What cannot be
/// read is `None`.
pub fn resolve_local_name(
    alias: Option<&str>,
    system: Option<&str>,
    main_conf: Option<&str>,
    fallback: &str,
) -> (name: String)
    ensures
        name@ == text::truncated(
            best_name(
                text::opt_str(alias),
                text::opt_str(system),
                text::opt_str(main_conf),
                fallback@,
            ),
            NAME_MAX as int,
        ),
        text::byte_len(name@) <= NAME_MAX,
{
    proof {
        text::lemma_truncated_fits(
            best_name(
                text::opt_str(alias),
                text::opt_str(system),
                text::opt_str(main_conf),
                fallback@,
            ),
            NAME_MAX as int,
        );
    }
    if let Some(a) = alias {
        if !a.is_empty() {
            let host_name: bool = match system {
                Some(s) => text::same(a, s),
                None => false,
            };
            if !host_name {
                return text::truncate(a, NAME_MAX).to_owned();
            }
        }
    }
    if let Some(c) = main_conf {
        if let Some(n) = read_main_conf_name(c) {
            return text::truncate(n.as_str(), NAME_MAX).to_owned();
        }
    }
    text::truncate(fallback, NAME_MAX).to_owned()
}

/// Whether a line sets the name, in whatever case and with whatever white space; a comment does
/// not.
pub open spec fn sets_name(line: Seq<char>) -> bool {
    let t = text::trimmed_start(line);
    &&& t.len() >= 4
    &&& text::same_letters(t.take(4), "Name"@)
    &&& text::starts(text::trimmed_start(t.skip(4)), "="@)
}

/// Whether a line sets the name.
pub fn is_name_assignment(line: &str) -> (b: bool)
    ensures
        b == sets_name(line@),
{
    let t: &str = text::trim_start(line);
    let n: usize = text::chars_of(t).len();
    if n < 4 {
        return false;
    }
    assert(t@.subrange(0, 4) =~= t@.take(4));
    assert(t@.subrange(4, n as int) =~= t@.skip(4));
    text::same_ignoring_case(t.substring_char(0, 4), "Name") && text::strip_prefix(
        text::trim_start(t.substring_char(4, n)),
        "=",
    ).is_some()
}

/// Whether a line begins the general section.
pub open spec fn begins_general(line: Seq<char>) -> bool {
    text::trimmed(line) == "[General]"@
}

/// The place of the first line that sets the name, or the number of lines.
pub open spec fn name_line(lines: Seq<Seq<char>>) -> int
    decreases lines.len(),
{
    if lines.len() == 0 || sets_name(lines[0]) {
        0
    } else {
        1 + name_line(lines.drop_first())
    }
}

/// The place of the first line that begins the general section, or the number of lines.
pub open spec fn general_line(lines: Seq<Seq<char>>) -> int
    decreases lines.len(),
{
    if lines.len() == 0 || begins_general(lines[0]) {
        0
    } else {
        1 + general_line(lines.drop_first())
    }
}

/// Lines as a text: each ends with a line feed.
pub open spec fn line_text(lines: Seq<Seq<char>>) -> Seq<char>
    decreases lines.len(),
{
    if lines.len() == 0 {
        Seq::empty()
    } else {
        line_text(lines.drop_last()) + lines.last() + "\n"@
    }
}

/// The line that sets the name.
pub open spec fn assignment(name: Seq<char>) -> Seq<char> {
    "Name = "@ + name
}

/// The configuration with the name in it: in place of the line that set it, or at the start of
/// the general section, or in a section of its own at the end.
pub open spec fn with_name(content: Seq<char>, name: Seq<char>) -> Seq<char> {
    let lines = text::lines_of(content);
    let n = name_line(lines);
    let g = general_line(lines);
    if n < lines.len() {
        line_text(lines.update(n, assignment(name)))
    } else if g < lines.len() {
        line_text(lines.take(g + 1).push(assignment(name)) + lines.skip(g + 1))
    } else {
        content + (if content.len() > 0 && content.last() == '\n' {
            Seq::empty()
        } else {
            "\n"@
        }) + "[General]\n"@ + assignment(name) + "\n"@
    }
}

fn push_line(out: &mut String, line: &str)
    ensures
        final(out)@ == old(out)@ + line@ + "\n"@,
{
    out.append(line);
    out.append("\n");
}

proof fn lemma_name_line(lines: Seq<Seq<char>>, n: int)
    requires
        0 <= n <= lines.len(),
        forall|k: int| 0 <= k < n ==> !sets_name(#[trigger] lines[k]),
        n < lines.len() ==> sets_name(lines[n]),
    ensures
        name_line(lines) == n,
    decreases lines.len(),
{
    if lines.len() > 0 && n > 0 {
        assert(!sets_name(lines[0]));
        assert forall|k: int| 0 <= k < n - 1 implies !sets_name(#[trigger] lines.drop_first()[k]) by {
            assert(!sets_name(lines[k + 1]));
        }
        lemma_name_line(lines.drop_first(), n - 1);
    }
}

proof fn lemma_general_line(lines: Seq<Seq<char>>, n: int)
    requires
        0 <= n <= lines.len(),
        forall|k: int| 0 <= k < n ==> !begins_general(#[trigger] lines[k]),
        n < lines.len() ==> begins_general(lines[n]),
    ensures
        general_line(lines) == n,
    decreases lines.len(),
{
    if lines.len() > 0 && n > 0 {
        assert(!begins_general(lines[0]));
        assert forall|k: int| 0 <= k < n - 1 implies !begins_general(
            #[trigger] lines.drop_first()[k],
        ) by {
            assert(!begins_general(lines[k + 1]));
        }
        lemma_general_line(lines.drop_first(), n - 1);
    }
}

fn find_name_line(lines: &Vec<&str>) -> (n: usize)
    ensures
        n == name_line(text::text_views(lines@)),
        n <= lines@.len(),
{
    let ghost views = text::text_views(lines@);
    let mut n: usize = 0;
    while n < lines.len() && !is_name_assignment(lines[n])
        invariant
            n <= lines@.len(),
            views == text::text_views(lines@),
            forall|k: int| 0 <= k < n ==> !sets_name(#[trigger] views[k]),
        decreases lines@.len() - n,
    {
        assert(!sets_name(views[n as int]));
        n += 1;
    }
    proof {
        lemma_name_line(views, n as int);
    }
    n
}

fn find_general_line(lines: &Vec<&str>) -> (n: usize)
    ensures
        n == general_line(text::text_views(lines@)),
        n <= lines@.len(),
{
    let ghost views = text::text_views(lines@);
    let mut n: usize = 0;
    while n < lines.len() && !text::same(text::trim(lines[n]), "[General]")
        invariant
            n <= lines@.len(),
            views == text::text_views(lines@),
            forall|k: int| 0 <= k < n ==> !begins_general(#[trigger] views[k]),
        decreases lines@.len() - n,
    {
        assert(!begins_general(views[n as int]));
        n += 1;
    }
    proof {
        lemma_general_line(views, n as int);
    }
    n
}

fn text_of_lines(lines: &Vec<&str>) -> (out: String)
    ensures
        out@ == line_text(text::text_views(lines@)),
{
    let ghost views = text::text_views(lines@);
    let mut out: String = String::new();
    let mut i: usize = 0;
    assert(views.take(0) =~= Seq::<Seq<char>>::empty());
    assert(out@ =~= Seq::<char>::empty());
    while i < lines.len()
        invariant
            i <= lines@.len(),
            views == text::text_views(lines@),
            out@ == line_text(views.take(i as int)),
        decreases lines@.len() - i,
    {
        proof {
            assert(views.take(i as int + 1).drop_last() =~= views.take(i as int));
            assert(views.take(i as int + 1).last() == lines@[i as int]@);
        }
        push_line(&mut out, lines[i]);
        i += 1;
    }
    assert(views.take(i as int) =~= views);
    out
}

/// The text of `main.conf` with the name in it.
pub fn sync_main_conf(content: &str, name: &str) -> (out: String)
    ensures
        out@ == with_name(content@, name@),
{
    let line: String = text::join("Name = ", name);
    let mut lines: Vec<&str> = text::lines(content);
    let ghost views = text::text_views(lines@);
    let n: usize = find_name_line(&lines);
    let g: usize = find_general_line(&lines);
    if n < lines.len() {
        lines.set(n, line.as_str());
        assert(text::text_views(lines@) =~= views.update(n as int, assignment(name@)));
        return text_of_lines(&lines);
    }
    if g < lines.len() {
        lines.insert(g + 1, line.as_str());
        assert(text::text_views(lines@) =~= views.take(g + 1).push(assignment(name@)) + views.skip(
            g + 1,
        ));
        return text_of_lines(&lines);
    }
    let v: Vec<char> = text::chars_of(content);
    let mut out: String = content.to_owned();
    if !(v.len() > 0 && v[v.len() - 1] == '\n') {
        out.append("\n");
    }
    assert(out@ =~= content@ + (if content@.len() > 0 && content@.last() == '\n' {
        Seq::empty()
    } else {
        "\n"@
    }));
    out.append("[General]\n");
    out.append(line.as_str());
    out.append("\n");
    out
}

proof fn lemma_trimmed_start_front(s: Seq<char>, end: Seq<char>)
    ensures
        text::trimmed_start(s).len() > 0 ==> text::trimmed_start(s + end) == text::trimmed_start(s)
            + end,
        text::trimmed_start(s).len() == 0 ==> text::trimmed_start(s + end)
            == text::trimmed_start(end),
    decreases s.len(),
{
    if s.len() == 0 {
        assert(s + end =~= end);
    } else if text::is_space(s[0]) {
        assert((s + end).drop_first() =~= s.drop_first() + end);
        lemma_trimmed_start_front(s.drop_first(), end);
    }
}

proof fn lemma_trimmed_end_is_front(s: Seq<char>)
    ensures
        s == text::trimmed_end(s) + s.skip(text::trimmed_end(s).len() as int),
        text::trimmed_end(s).len() <= s.len(),
    decreases s.len(),
{
    if s.len() > 0 && text::is_space(s.last()) {
        let front = s.drop_last();
        lemma_trimmed_end_is_front(front);
        let n = text::trimmed_end(front).len() as int;
        assert(s =~= front.push(s.last()));
        assert(s.skip(n) =~= front.skip(n).push(s.last()));
        assert(text::trimmed_end(front) + s.skip(n) =~= s);
    } else {
        assert(s + s.skip(s.len() as int) =~= s);
    }
}

proof fn lemma_named_line_sets_name(line: Seq<char>)
    requires
        name_in_line(line) is Some,
    ensures
        sets_name(line),
{
    reveal_strlit("Name");
    reveal_strlit("=");
    let whole = text::trimmed_start(line);
    let t = text::trimmed(line);
    lemma_trimmed_end_is_front(whole);
    let end = whole.skip(t.len() as int);
    assert(whole == t + end);
    assert(whole.take(4) =~= t.take(4));
    assert(whole.skip(4) =~= t.skip(4) + end);
    lemma_trimmed_start_front(t.skip(4), end);
    let rest = text::trimmed_start(t.skip(4));
    assert(rest.len() > 0);
    assert((rest + end).take(1) =~= rest.take(1));
}

proof fn lemma_return_is_no_matter(line: Seq<char>)
    ensures
        name_in_line(text::without_return(line)) == name_in_line(line),
{
    if line.len() > 0 && line.last() == '\r' {
        let front = line.drop_last();
        let end = seq!['\r'];
        assert(line =~= front + end);
        lemma_trimmed_start_front(front, end);
        assert(end.drop_first() =~= Seq::<char>::empty());
        assert(text::trimmed_start(end) =~= Seq::<char>::empty()) by {
            assert(text::trimmed_start(end.drop_first()).len() == 0);
        }
        let t = text::trimmed_start(front);
        if t.len() > 0 {
            assert((t + end).last() == '\r');
            assert((t + end).drop_last() =~= t);
            assert(text::trimmed_end(t + end) == text::trimmed_end(t));
        } else {
            assert(t =~= text::trimmed_start(line));
        }
        assert(text::trimmed(line) == text::trimmed(front));
    }
}

proof fn lemma_assignment_is_read(name: Seq<char>)
    requires
        name.len() > 0,
        !text::is_space(name[0]),
        !text::is_space(name.last()),
        name[0] != '"',
        name.last() != '"',
    ensures
        name_in_line(assignment(name)) == Some(name),
{
    reveal_strlit("Name = ");
    reveal_strlit("Name");
    reveal_strlit("=");
    let line = assignment(name);
    assert(line[0] == 'N');
    assert(line.last() == name.last());
    assert(text::trimmed(line) == line);
    assert(line.take(4) =~= "Name"@);
    let rest = line.skip(4);
    assert(rest[0] == ' ' && rest[1] == '=');
    assert(rest.drop_first()[0] == '=');
    let value = rest.drop_first();
    assert(text::trimmed_start(rest) == text::trimmed_start(value));
    assert(text::trimmed_start(value) == value);
    assert(value.take(1) =~= "="@);
    let behind = value.skip(1);
    assert(behind[0] == ' ');
    assert(behind.drop_first() =~= name);
    assert(text::trimmed_start(behind) == text::trimmed_start(name));
    assert(text::trimmed(behind) == name);
    let quotes = seq!['"'];
    assert(!quotes.contains(name[0])) by {
        assert(quotes.len() == 1 && quotes[0] == '"');
    }
    assert(!quotes.contains(name.last()));
}

proof fn lemma_name_behind(lines: Seq<Seq<char>>, n: int)
    requires
        0 <= n < lines.len(),
        forall|k: int| 0 <= k < n ==> name_in_line(#[trigger] lines[k]) is None,
        name_in_line(lines[n]) is Some,
    ensures
        name_in(lines) == name_in_line(lines[n]),
    decreases lines.len(),
{
    if n > 0 {
        assert(name_in_line(lines[0]) is None);
        assert forall|k: int| 0 <= k < n - 1 implies name_in_line(
            #[trigger] lines.drop_first()[k],
        ) is None by {
            assert(name_in_line(lines[k + 1]) is None);
        }
        lemma_name_behind(lines.drop_first(), n - 1);
    }
}

proof fn lemma_name_line_range(lines: Seq<Seq<char>>)
    ensures
        0 <= name_line(lines) <= lines.len(),
        forall|k: int|
            0 <= k < name_line(lines) && k < lines.len() ==> !sets_name(#[trigger] lines[k]),
    decreases lines.len(),
{
    if lines.len() > 0 && !sets_name(lines[0]) {
        let rest = lines.drop_first();
        lemma_name_line_range(rest);
        assert forall|k: int|
            0 <= k < name_line(lines) && k < lines.len() implies !sets_name(#[trigger] lines[k]) by {
            if k > 0 {
                assert(!sets_name(rest[k - 1]));
            }
        }
    }
}

proof fn lemma_general_line_range(lines: Seq<Seq<char>>)
    ensures
        0 <= general_line(lines) <= lines.len(),
    decreases lines.len(),
{
    if lines.len() > 0 && !begins_general(lines[0]) {
        lemma_general_line_range(lines.drop_first());
    }
}

/// Lines without a line feed in them.
spec fn whole_lines(lines: Seq<Seq<char>>) -> bool {
    forall|i: int, k: int|
        0 <= i < lines.len() && 0 <= k < lines[i].len() ==> #[trigger] lines[i][k] != '\n'
}

proof fn lemma_line_text_splits(lines: Seq<Seq<char>>)
    requires
        whole_lines(lines),
    ensures
        text::split_on(line_text(lines), '\n') == lines.push(Seq::empty()),
    decreases lines.len(),
{
    reveal_strlit("\n");
    let feed = seq!['\n'];
    let none = Seq::<char>::empty();
    assert("\n"@ =~= feed);
    text::lemma_find_char(none, '\n', 0);
    assert(text::split_on(none, '\n') =~= seq![none]);
    if lines.len() == 0 {
        assert(lines.push(none) =~= seq![none]);
    } else {
        let front = lines.drop_last();
        let last = lines.last();
        assert forall|i: int, k: int|
            0 <= i < front.len() && 0 <= k < front[i].len() implies #[trigger] front[i][k]
            != '\n' by {
            assert(lines[i][k] != '\n');
        }
        lemma_line_text_splits(front);
        assert forall|k: int| 0 <= k < last.len() implies last[k] != '\n' by {
            assert(lines[lines.len() - 1][k] != '\n');
        }
        text::lemma_find_char(last, '\n', last.len() as int);
        assert(text::split_on(last, '\n') =~= seq![last]);
        let x = line_text(front) + last;
        assert(line_text(lines) =~= x + feed + none);
        text::lemma_split_joined(x, none, '\n');
        if front.len() == 0 {
            assert(x =~= last);
            assert(lines.push(none) =~= seq![last] + seq![none]);
        } else {
            let y = line_text(front.drop_last()) + front.last();
            assert(line_text(front) =~= y + feed + none);
            text::lemma_split_joined(y, none, '\n');
            assert(text::split_on(y, '\n') =~= front) by {
                assert((text::split_on(y, '\n') + seq![none]).drop_last() =~= text::split_on(
                    y,
                    '\n',
                ));
                assert(front.push(none).drop_last() =~= front);
            }
            assert(x =~= y + feed + last);
            text::lemma_split_joined(y, last, '\n');
            assert(lines.push(none) =~= front + seq![last] + seq![none]);
        }
    }
}

proof fn lemma_lines_are_whole(s: Seq<char>)
    ensures
        whole_lines(text::lines_of(s)),
{
    text::lemma_parts_are_whole(s, '\n');
    let parts = text::split_on(s, '\n');
    let lines = text::lines_of(s);
    assert forall|i: int, k: int|
        0 <= i < lines.len() && 0 <= k < lines[i].len() implies #[trigger] lines[i][k] != '\n' by {
        assert(lines[i][k] == parts[i][k]);
    }
}

proof fn lemma_name_in_line_text(lines: Seq<Seq<char>>, n: int, name: Seq<char>)
    requires
        whole_lines(lines),
        0 <= n < lines.len(),
        forall|k: int| 0 <= k < n ==> !sets_name(#[trigger] lines[k]),
        name_in_line(lines[n]) == Some(name),
    ensures
        name_in(text::lines_of(line_text(lines))) == Some(name),
{
    lemma_line_text_splits(lines);
    let parts = lines.push(Seq::<char>::empty());
    assert(parts.drop_last() =~= lines);
    let read = text::lines_of(line_text(lines));
    assert(read =~= lines.map_values(|l: Seq<char>| text::without_return(l)));
    assert forall|k: int| 0 <= k < n implies name_in_line(#[trigger] read[k]) is None by {
        assert(!sets_name(lines[k]));
        if name_in_line(lines[k]) is Some {
            lemma_named_line_sets_name(lines[k]);
        }
        lemma_return_is_no_matter(lines[k]);
    }
    lemma_return_is_no_matter(lines[n]);
    lemma_name_behind(read, n);
}

proof fn lemma_appended_section(content: Seq<char>, a: Seq<char>, line: Seq<char>, name: Seq<char>)
    requires
        content == a || content == a + seq!['\n'],
        name_line(text::lines_of(content)) >= text::lines_of(content).len(),
        name_in_line(line) == Some(name),
        forall|k: int| 0 <= k < line.len() ==> line[k] != '\n',
    ensures
        name_in(
            text::lines_of(a + seq!['\n'] + ("[General]"@ + seq!['\n'] + (line + seq!['\n']))),
        ) == Some(name),
{
    reveal_strlit("[General]");
    let feed = seq!['\n'];
    let none = Seq::<char>::empty();
    let head = "[General]"@;
    let known = text::lines_of(content);
    let parts = text::split_on(a, '\n');
    lemma_name_line_range(known);
    text::lemma_find_char(none, '\n', 0);
    assert(text::split_on(none, '\n') =~= seq![none]);
    text::lemma_find_char(line, '\n', line.len() as int);
    assert(text::split_on(line, '\n') =~= seq![line]);
    text::lemma_find_char(head, '\n', head.len() as int);
    assert(text::split_on(head, '\n') =~= seq![head]);
    text::lemma_split_joined(line, none, '\n');
    assert(line + feed + none =~= line + feed);
    text::lemma_split_joined(head, line + feed, '\n');
    let tail = head + feed + (line + feed);
    assert(text::split_on(tail, '\n') =~= seq![head, line, none]);
    text::lemma_split_joined(a, tail, '\n');
    let all = parts + seq![head, line, none];
    assert(all.drop_last() =~= parts + seq![head, line]);
    assert(all.last() == none);
    let read = text::lines_of(a + feed + tail);
    let n = parts.len() as int + 1;
    assert(read =~= (parts + seq![head, line]).map_values(
        |l: Seq<char>| text::without_return(l),
    ));
    if content == a + feed {
        text::lemma_split_joined(a, none, '\n');
        assert(a + feed + none =~= content);
        assert((parts + seq![none]).drop_last() =~= parts);
    }
    assert forall|k: int| 0 <= k < n implies name_in_line(#[trigger] read[k]) is None by {
        if k < parts.len() {
            assert(read[k] == text::without_return(parts[k]));
            lemma_return_is_no_matter(parts[k]);
            if name_in_line(parts[k]) is Some {
                if content == a + feed || k < parts.len() - 1 {
                    assert(known[k] == text::without_return(parts[k]));
                } else {
                    assert(parts[k].len() > 0) by {
                        if parts[k].len() == 0 {
                            reveal_strlit("Name");
                        }
                    }
                    assert(known[k] == parts[k]);
                }
                lemma_named_line_sets_name(known[k]);
                assert(!sets_name(known[k]));
            }
        } else {
            assert(read[k] == head);
            reveal_strlit("Name");
            assert(head[0] == '[');
            assert(head.last() == ']');
            assert(text::trimmed(head) == head);
            assert(head.take(4)[0] == '[');
        }
    }
    assert(read[n] == text::without_return(line));
    lemma_return_is_no_matter(line);
    lemma_name_behind(read, n);
}

/// The name that is written into the configuration is the name that is read from it: whatever
/// the configuration held, for a name without white space or quotes at its ends and without a
/// line feed.
pub proof fn law_synced_name_is_read(content: Seq<char>, name: Seq<char>)
    requires
        name.len() > 0,
        !text::is_space(name[0]),
        !text::is_space(name.last()),
        name[0] != '"',
        name.last() != '"',
        forall|k: int| 0 <= k < name.len() ==> #[trigger] name[k] != '\n',
    ensures
        name_in(text::lines_of(with_name(content, name))) == Some(name),
{
    reveal_strlit("Name = ");
    let line = assignment(name);
    let lines = text::lines_of(content);
    let n = name_line(lines);
    let g = general_line(lines);
    lemma_assignment_is_read(name);
    lemma_name_line_range(lines);
    lemma_general_line_range(lines);
    lemma_lines_are_whole(content);
    assert forall|k: int| 0 <= k < line.len() implies line[k] != '\n' by {
        if k >= 7 {
            assert(line[k] == name[k - 7]);
        }
    }
    if n < lines.len() {
        let after = lines.update(n, line);
        assert(whole_lines(after)) by {
            assert forall|i: int, k: int|
                0 <= i < after.len() && 0 <= k < after[i].len() implies #[trigger] after[i][k]
                != '\n' by {
                if i != n {
                    assert(lines[i][k] != '\n');
                }
            }
        }
        lemma_name_in_line_text(after, n, name);
    } else if g < lines.len() {
        let after = lines.take(g + 1).push(line) + lines.skip(g + 1);
        assert(whole_lines(after)) by {
            assert forall|i: int, k: int|
                0 <= i < after.len() && 0 <= k < after[i].len() implies #[trigger] after[i][k]
                != '\n' by {
                if i <= g {
                    assert(lines[i][k] != '\n');
                } else if i > g + 1 {
                    assert(lines[i - 1][k] != '\n');
                }
            }
        }
        lemma_name_in_line_text(after, g + 1, name);
    } else {
        reveal_strlit("\n");
        reveal_strlit("[General]");
        reveal_strlit("[General]\n");
        let feed = seq!['\n'];
        assert("\n"@ =~= feed);
        assert("[General]\n"@ =~= "[General]"@ + feed);
        if content.len() > 0 && content.last() == '\n' {
            let a = content.drop_last();
            assert(content =~= a + feed);
            assert(with_name(content, name) =~= a + feed + ("[General]"@ + feed + (line + feed)));
            lemma_appended_section(content, a, line, name);
        } else {
            assert(with_name(content, name) =~= content + feed + ("[General]"@ + feed + (line
                + feed)));
            lemma_appended_section(content, content, line, name);
        }
    }
}

} // verus!
