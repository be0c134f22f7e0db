//! What the cloud's G-code commands do on the printer.

use crate::downlink::{gcode_step, CallView, StepView};
use crate::gcode_translator;
use crate::json::Doc;
use crate::text;
use vstd::prelude::*;

verus! {

/// A command that is an M, some digits that write `n`, and something behind them that begins with
/// no digit.
pub open spec fn m_command(cmd: Seq<char>, digits: Seq<char>, rest: Seq<char>, n: nat) -> bool {
    &&& digits.len() > 0
    &&& forall|i: int| 0 <= i < digits.len() ==> '0' <= #[trigger] digits[i] <= '9'
    &&& text::digits_value(digits) == n
    &&& n <= 0xFFFF_FFFF
    &&& rest.len() == 0 || !('0' <= rest[0] <= '9')
    &&& rest.len() == 0 || !text::is_space(rest.last())
    &&& cmd == seq!['M'] + digits + rest || cmd == seq!['m'] + digits + rest
}

/// What the command leads to.
pub open spec fn carried_out(cmd: Seq<char>) -> StepView {
    gcode_step(gcode_translator::meaning(cmd))
}

/// The method that a step calls.
pub open spec fn calls(s: StepView, method: Seq<char>) -> bool {
    s matches StepView::Call { call, .. } && call.method == method
}

/// The call of a step has no parameters.
pub open spec fn without_parameters(s: StepView) -> bool {
    s matches StepView::Call { call, .. } && call.params == Doc::Object(Seq::empty())
}

/// The call of a step has one parameter, a text.
pub open spec fn with_parameter(s: StepView, key: Seq<char>, value: Seq<char>) -> bool {
    s matches StepView::Call { call, .. } && call.params == Doc::Object(
        seq![(key, Doc::Text(value))],
    )
}

/// How long the call of a step may take, in seconds.
pub open spec fn within_secs(s: StepView, secs: u64) -> bool {
    s matches StepView::Call { call, .. } && call.timeout_secs == secs
}

/// The results that a step reports: of a call that succeeds, and in front of the error of one that
/// fails.
pub open spec fn answers(s: StepView, ok: Seq<char>, err: Seq<char>) -> bool {
    s matches StepView::Call { on_ok, on_err, .. } && on_ok == ok && on_err == err
}

proof fn lemma_m_command(cmd: Seq<char>, digits: Seq<char>, rest: Seq<char>, n: nat)
    requires
        m_command(cmd, digits, rest, n),
    ensures
        text::trimmed(cmd) == cmd,
        gcode_translator::m_code(cmd) == Some((n, text::trimmed_start(rest))),
        !gcode_translator::is_leveling(cmd),
        cmd.len() > 0,
{
    assert(text::all_digits(digits));
    assert(cmd.len() == 1 + digits.len() + rest.len());
    assert(!text::is_space(cmd[0]));
    if rest.len() > 0 {
        assert(cmd.last() == rest.last());
    } else {
        assert(cmd.last() == digits.last());
        assert('0' <= digits[digits.len() - 1] <= '9');
    }
    assert(text::trimmed_start(cmd) == cmd);
    let with_m = seq!['M'] + digits + rest;
    gcode_translator::law_m_number_takes_all_digits(digits, rest);
    assert(text::trimmed_start(with_m) == with_m);
    assert(with_m.skip(1) =~= cmd.skip(1));
}

proof fn lemma_parameters(key: Seq<char>, value: Seq<char>)
    ensures
        crate::downlink::no_fields() == Doc::Object(Seq::empty()),
        crate::downlink::one_text(key, value) == Doc::Object(seq![(key, Doc::Text(value))]),
{
    let one = seq![(key, Doc::Text(value))];
    assert(one.drop_last() =~= Seq::<(Seq<char>, Doc)>::empty());
    assert(crate::json::collected(one) =~= one);
}

proof fn lemma_methods_differ()
    ensures
        "printer.print.cancel"@ != "printer.print.resume"@,
        "printer.print.cancel"@ != "printer.print.pause"@,
        "printer.print.cancel"@ != "printer.print.start"@,
        "printer.print.cancel"@ != "printer.gcode.script"@,
        "printer.print.cancel"@ != "server.files.delete_file"@,
        "printer.print.start"@ != "printer.print.resume"@,
        "printer.print.start"@ != "printer.print.pause"@,
        "printer.print.start"@ != "printer.gcode.script"@,
        "printer.print.start"@ != "server.files.delete_file"@,
        "printer.print.pause"@ != "printer.print.resume"@,
        "printer.print.pause"@ != "printer.gcode.script"@,
        "printer.print.pause"@ != "server.files.delete_file"@,
        "printer.print.resume"@ != "printer.gcode.script"@,
        "printer.print.resume"@ != "server.files.delete_file"@,
        "printer.gcode.script"@ != "server.files.delete_file"@,
{
    reveal_strlit("printer.print.cancel");
    reveal_strlit("printer.print.resume");
    reveal_strlit("printer.print.pause");
    reveal_strlit("printer.print.start");
    reveal_strlit("printer.gcode.script");
    reveal_strlit("server.files.delete_file");
    assert("printer.print.cancel"@[0] == 'p');
    assert("printer.print.cancel"@[8] == 'p');
    assert("printer.print.cancel"@[14] == 'c');
    assert("printer.print.resume"@[0] == 'p');
    assert("printer.print.resume"@[8] == 'p');
    assert("printer.print.resume"@[14] == 'r');
    assert("printer.print.pause"@[0] == 'p');
    assert("printer.print.pause"@[8] == 'p');
    assert("printer.print.pause"@[14] == 'p');
    assert("printer.print.start"@[0] == 'p');
    assert("printer.print.start"@[8] == 'p');
    assert("printer.print.start"@[14] == 's');
    assert("printer.gcode.script"@[0] == 'p');
    assert("printer.gcode.script"@[8] == 'g');
    assert("printer.gcode.script"@[14] == 's');
    assert("server.files.delete_file"@[0] == 's');
    assert("server.files.delete_file"@[8] == 'i');
    assert("server.files.delete_file"@[14] == 'e');
}

/// M24 resumes the print, M25 pauses it and M26 cancels it, whatever stands behind the number: each
/// is one call of the printer's server, without parameters, within ten seconds.
pub proof fn law_print_control(cmd: Seq<char>, digits: Seq<char>, rest: Seq<char>, n: nat)
    requires
        m_command(cmd, digits, rest, n),
        n == 24 || n == 25 || n == 26,
    ensures
        n == 24 ==> calls(carried_out(cmd), "printer.print.resume"@),
        n == 25 ==> calls(carried_out(cmd), "printer.print.pause"@),
        n == 26 ==> calls(carried_out(cmd), "printer.print.cancel"@),
        without_parameters(carried_out(cmd)),
        within_secs(carried_out(cmd), 10),
        answers(carried_out(cmd), "OK"@, "ERR: "@),
{
    lemma_m_command(cmd, digits, rest, n);
    lemma_parameters(Seq::empty(), Seq::empty());
}

/// A print is cancelled by M26 and by no other command, resumed by M24, paused by M25 and started
/// by M32 alone; a file is deleted by M30 alone.
pub proof fn law_print_control_by_nothing_else(cmd: Seq<char>)
    ensures
        calls(carried_out(cmd), "printer.print.cancel"@) ==> numbered(cmd, 26),
        calls(carried_out(cmd), "printer.print.resume"@) ==> numbered(cmd, 24),
        calls(carried_out(cmd), "printer.print.pause"@) ==> numbered(cmd, 25),
        calls(carried_out(cmd), "printer.print.start"@) ==> numbered(cmd, 32),
        calls(carried_out(cmd), "server.files.delete_file"@) ==> numbered(cmd, 30),
        carried_out(cmd) is ListFiles ==> numbered(cmd, 20),
{
    lemma_methods_differ();
}

/// A command, but for white space in front, is an M and then digits that write `n`, and no digit
/// follows them.
pub open spec fn numbered(cmd: Seq<char>, n: nat) -> bool {
    let t = text::trimmed_start(text::trimmed(cmd));
    let k = text::digits_len(t.skip(1));
    &&& t.len() > 1
    &&& t[0] == 'M' || t[0] == 'm'
    &&& k > 0
    &&& text::digits_value(t.skip(1).take(k)) == n
}

/// M32 starts the print of the file that is named behind it, and M30 deletes it: the first word,
/// without the quotes or brackets around it.
pub proof fn law_file_commands(cmd: Seq<char>, digits: Seq<char>, rest: Seq<char>, n: nat, name: Seq<char>)
    requires
        m_command(cmd, digits, rest, n),
        n == 32 || n == 30,
        rest == seq![' '] + name,
        name.len() > 0,
        forall|i: int| 0 <= i < name.len() ==> !text::is_space(#[trigger] name[i]),
        name[0] != '"' && name[0] != '\'' && name[0] != '<' && name[0] != '>',
        name.last() != '"' && name.last() != '\'' && name.last() != '<' && name.last() != '>',
    ensures
        n == 32 ==> calls(carried_out(cmd), "printer.print.start"@) && with_parameter(
            carried_out(cmd),
            "filename"@,
            name,
        ) && within_secs(carried_out(cmd), 10) && answers(
            carried_out(cmd),
            "File selected OK"@,
            "File open failed: "@,
        ),
        n == 30 ==> calls(carried_out(cmd), "server.files.delete_file"@) && with_parameter(
            carried_out(cmd),
            "path"@,
            name,
        ) && within_secs(carried_out(cmd), 5) && answers(
            carried_out(cmd),
            "File deleted"@,
            "Deletion failed: "@,
        ),
{
    lemma_m_command(cmd, digits, rest, n);
    lemma_parameters("filename"@, name);
    lemma_parameters("path"@, name);
    assert(rest.drop_first() =~= name);
    assert(text::trimmed_start(name) == name);
    assert(text::trimmed_start(rest) == name) by {
        assert(text::is_space(rest[0]));
    }
    lemma_one_word(name);
    let quotes = gcode_translator::quotes();
    assert(!quotes.contains(name[0]));
    assert(!quotes.contains(name.last()));
    assert(text::stripped_start(name, quotes) == name);
    assert(text::stripped_end(name, quotes) == name);
    assert(gcode_translator::first_token_of(name) == name);
}

proof fn lemma_one_word(s: Seq<char>)
    requires
        forall|i: int| 0 <= i < s.len() ==> !text::is_space(#[trigger] s[i]),
    ensures
        text::word_len(s) == s.len(),
        text::trimmed_start(s) == s,
        text::first_word_of(s) == s,
    decreases s.len(),
{
    if s.len() > 0 {
        assert forall|i: int| 0 <= i < s.drop_first().len() implies !text::is_space(
            #[trigger] s.drop_first()[i],
        ) by {
            assert(!text::is_space(s[i + 1]));
        }
        lemma_one_word(s.drop_first());
    }
    assert(s.take(s.len() as int) =~= s);
}

/// M20 lists the files; M28 and M29 are refused, with the command in the answer; any other M
/// command goes to the printer as it is, as a script that may take thirty seconds.
pub proof fn law_other_commands(cmd: Seq<char>, digits: Seq<char>, rest: Seq<char>, n: nat)
    requires
        m_command(cmd, digits, rest, n),
    ensures
        n == 20 ==> carried_out(cmd) is ListFiles,
        n == 28 || n == 29 ==> carried_out(cmd) == StepView::Reply("ERR: unsupported: "@ + cmd),
        n != 20 && n != 24 && n != 25 && n != 26 && n != 28 && n != 29 && n != 30 && n != 32
            ==> calls(carried_out(cmd), "printer.gcode.script"@) && with_parameter(
            carried_out(cmd),
            "script"@,
            cmd,
        ) && within_secs(carried_out(cmd), 30) && answers(carried_out(cmd), "OK"@, "ERR: "@),
{
    lemma_m_command(cmd, digits, rest, n);
    lemma_parameters("script"@, cmd);
}

/// G29, in either case and whatever follows, measures the bed; a command that is neither that nor an
/// M command goes to the printer without the white space around it; no command at all is answered
/// at once.
pub proof fn law_commands_without_m(cmd: Seq<char>)
    ensures
        ({
            let t = text::trimmed(cmd);
            let level = t.len() >= 3 && (t[0] == 'G' || t[0] == 'g') && t[1] == '2' && t[2] == '9';
            &&& t.len() == 0 ==> carried_out(cmd) == StepView::Reply("OK"@)
            &&& level ==> calls(carried_out(cmd), "printer.gcode.script"@) && with_parameter(
                carried_out(cmd),
                "script"@,
                "BED_MESH_CALIBRATE"@,
            ) && within_secs(carried_out(cmd), 30) && answers(carried_out(cmd), "OK"@, "ERR: "@)
            &&& t.len() > 0 && !level && !text::is_space(t[0]) && t[0] != 'M' && t[0] != 'm'
                ==> calls(carried_out(cmd), "printer.gcode.script"@) && with_parameter(
                carried_out(cmd),
                "script"@,
                t,
            ) && within_secs(carried_out(cmd), 30)
        }),
{
    lemma_parameters("script"@, "BED_MESH_CALIBRATE"@);
    lemma_parameters("script"@, text::trimmed(cmd));
}

/// The calls that ask for the printer's files and for its root directories.
pub proof fn law_file_queries(c: CallView, r: CallView)
    requires
        c == crate::downlink::list_files_view(),
        r == crate::downlink::roots_view(),
    ensures
        c.method == "server.files.list"@,
        c.params == Doc::Object(seq![("root"@, Doc::Text("gcodes"@))]),
        c.timeout_secs == 5,
        r.method == "server.files.roots"@,
        r.params == Doc::Object(Seq::empty()),
        r.timeout_secs == 5,
{
    lemma_parameters("root"@, "gcodes"@);
}

/// A file that is named between quotes or brackets is the file without them, and what stands behind
/// the name does not count.
pub proof fn law_quoted_file(mark: char, close: char, name: Seq<char>, tail: Seq<char>)
    requires
        (mark == '"' && close == '"') || (mark == '\'' && close == '\'') || (mark == '<' && close
            == '>'),
        name.len() > 0,
        forall|i: int| 0 <= i < name.len() ==> !text::is_space(#[trigger] name[i]),
        name[0] != '"' && name[0] != '\'' && name[0] != '<' && name[0] != '>',
        name.last() != '"' && name.last() != '\'' && name.last() != '<' && name.last() != '>',
    ensures
        gcode_translator::first_token_of(seq![mark] + name + seq![close] + seq![' '] + tail) == name,
{
    let word = seq![mark] + name + seq![close];
    let s = word + seq![' '] + tail;
    assert(seq![mark] + name + seq![close] + seq![' '] + tail =~= s);
    assert forall|i: int| 0 <= i < word.len() implies !text::is_space(#[trigger] word[i]) by {
        if 0 < i < word.len() - 1 {
            assert(word[i] == name[i - 1]);
        }
    }
    lemma_first_word(word, tail);
    let quotes = gcode_translator::quotes();
    assert(quotes[0] == '"' && quotes[1] == '\'' && quotes[2] == '<' && quotes[3] == '>');
    assert(quotes.contains(mark) && quotes.contains(close));
    assert(!quotes.contains(name[0]));
    assert(!quotes.contains(name.last()));
    let inner = name + seq![close];
    assert(word.drop_first() =~= inner);
    assert(inner[0] == name[0]);
    assert(text::stripped_start(inner, quotes) == inner);
    assert(text::stripped_start(word, quotes) == inner);
    assert(inner.drop_last() =~= name);
    assert(text::stripped_end(name, quotes) == name);
    assert(text::stripped_end(inner, quotes) == name);
}

proof fn lemma_first_word(word: Seq<char>, tail: Seq<char>)
    requires
        word.len() > 0,
        forall|i: int| 0 <= i < word.len() ==> !text::is_space(#[trigger] word[i]),
    ensures
        text::first_word_of(word + seq![' '] + tail) == word,
{
    let s = word + seq![' '] + tail;
    assert(s[0] == word[0]);
    assert(text::trimmed_start(s) == s);
    lemma_word_len(word, tail);
    assert(s.take(word.len() as int) =~= word);
}

proof fn lemma_word_len(word: Seq<char>, tail: Seq<char>)
    requires
        forall|i: int| 0 <= i < word.len() ==> !text::is_space(#[trigger] word[i]),
    ensures
        text::word_len(word + seq![' '] + tail) == word.len(),
    decreases word.len(),
{
    let s = word + seq![' '] + tail;
    if word.len() > 0 {
        assert(s[0] == word[0]);
        assert(s.drop_first() =~= word.drop_first() + seq![' '] + tail);
        assert forall|i: int| 0 <= i < word.drop_first().len() implies !text::is_space(
            #[trigger] word.drop_first()[i],
        ) by {
            assert(!text::is_space(word[i + 1]));
        }
        lemma_word_len(word.drop_first(), tail);
    } else {
        assert(s[0] == ' ');
    }
}

/// The root directory for G-code files is the path of the first root that is called `gcodes`.
pub proof fn law_root_directory(
    before: Seq<Doc>,
    root: Seq<(Seq<char>, Doc)>,
    after: Seq<Doc>,
    path: Seq<char>,
)
    requires
        forall|i: int|
            0 <= i < before.len() ==> !((#[trigger] before[i]) matches Doc::Object(e)
                && crate::json::lookup(e, "name"@) == Some(Doc::Text("gcodes"@))),
        crate::json::lookup(root, "name"@) == Some(Doc::Text("gcodes"@)),
        crate::json::lookup(root, "path"@) == Some(Doc::Text(path)),
    ensures
        crate::downlink::gcode_root_in(before + seq![Doc::Object(root)] + after) == Some(path),
        crate::downlink::gcode_root_in(before) is None,
    decreases before.len(),
{
    let all = before + seq![Doc::Object(root)] + after;
    if before.len() == 0 {
        assert(all[0] == Doc::Object(root));
    } else {
        assert(all[0] == before[0]);
        assert(all.drop_first() =~= before.drop_first() + seq![Doc::Object(root)] + after);
        assert forall|i: int| 0 <= i < before.drop_first().len() implies !((
        #[trigger] before.drop_first()[i]) matches Doc::Object(e) && crate::json::lookup(e, "name"@)
            == Some(Doc::Text("gcodes"@))) by {
            assert(before.drop_first()[i] == before[i + 1]);
        }
        law_root_directory(before.drop_first(), root, after, path);
    }
}

/// A file of the server's list has its path as name, and its size, or 0 where that is no whole
/// number; an item without a path is no file.
pub proof fn law_listed_file(items: Seq<Doc>, item: Seq<(Seq<char>, Doc)>, name: Seq<char>, size: u64)
    ensures
        crate::json::lookup(item, "path"@) == Some(Doc::Text(name)) && name.len() > 0
            && crate::json::lookup(item, "size"@) == Some(Doc::Unsigned(size))
            ==> crate::downlink::listed_files(items.push(Doc::Object(item)))
            == crate::downlink::listed_files(items).push((name, size)),
        crate::json::lookup(item, "path"@) == Some(Doc::Text(name)) && name.len() > 0
            && crate::json::lookup(item, "size"@) is None ==> crate::downlink::listed_files(
            items.push(Doc::Object(item)),
        ) == crate::downlink::listed_files(items).push((name, 0)),
        crate::json::lookup(item, "path"@) is None ==> crate::downlink::listed_files(
            items.push(Doc::Object(item)),
        ) == crate::downlink::listed_files(items),
{
    assert(items.push(Doc::Object(item)).drop_last() =~= items);
}

/// White space around a command does not matter.
pub proof fn law_space_around_a_command(cmd: Seq<char>)
    ensures
        carried_out(text::trimmed(cmd)) == carried_out(cmd),
{
    let (_, _) = crate::laws::texts::law_trimming(cmd);
    let t = text::trimmed(cmd);
    assert(text::trimmed_start(t) == t);
    assert(text::trimmed(t) == t);
}

} // verus!
