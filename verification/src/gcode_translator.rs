//! What a G-code command from the cloud means on this printer.
//!
//! Most commands are understood by the printer as they are. Those that select, delete or list
//! files, and those that control a print, are operations of the printer's server; bed levelling
//! has a command of its own; writing to an SD card is not supported.

use crate::text;
use vstd::prelude::*;

verus! {

/// The meaning of a command.
#[derive(Debug, Clone, PartialEq, Eq)]
pub enum GcodeKind {
    /// The printer understands it as it is.
    Native(String),
    /// Bed levelling (G29).
    Leveling,
    /// Print a file (M32).
    PrintStart(String),
    /// Delete a file (M30).
    DeleteFile(String),
    /// List the files (M20).
    ListFiles,
    /// Resume the print (M24).
    Resume,
    /// Pause the print (M25).
    Pause,
    /// Cancel the print (M26).
    Cancel,
    /// Write to an SD card (M28, M29).
    Unsupported(String),
    /// No command at all.
    Empty,
}

/// The meaning of a command, with the contents of its texts.
#[verifier::ext_equal]
pub enum GcodeView {
    Native(Seq<char>),
    Leveling,
    PrintStart(Seq<char>),
    DeleteFile(Seq<char>),
    ListFiles,
    Resume,
    Pause,
    Cancel,
    Unsupported(Seq<char>),
    Empty,
}

impl View for GcodeKind {
    type V = GcodeView;

    open spec fn view(&self) -> GcodeView {
        match *self {
            GcodeKind::Native(s) => GcodeView::Native(s@),
            GcodeKind::Leveling => GcodeView::Leveling,
            GcodeKind::PrintStart(s) => GcodeView::PrintStart(s@),
            GcodeKind::DeleteFile(s) => GcodeView::DeleteFile(s@),
            GcodeKind::ListFiles => GcodeView::ListFiles,
            GcodeKind::Resume => GcodeView::Resume,
            GcodeKind::Pause => GcodeView::Pause,
            GcodeKind::Cancel => GcodeView::Cancel,
            GcodeKind::Unsupported(s) => GcodeView::Unsupported(s@),
            GcodeKind::Empty => GcodeView::Empty,
        }
    }
}

/// The number of an M command, and what stands behind it. All digits belong to the number: M300
/// is not M30. A number beyond 32 bits is none.
pub open spec fn m_code(cmd: Seq<char>) -> Option<(nat, Seq<char>)> {
    let t = text::trimmed_start(cmd);
    let rest = t.skip(1);
    let n = text::digits_len(rest);
    let number = text::digits_value(rest.take(n));
    if t.len() > 0 && (t[0] == 'M' || t[0] == 'm') && n > 0 && number <= u32::MAX {
        Some((number, text::trimmed_start(rest.skip(n))))
    } else {
        None
    }
}

proof fn lemma_digits_len(s: Seq<char>)
    ensures
        0 <= text::digits_len(s) <= s.len(),
        text::all_digits(s.take(text::digits_len(s))),
    decreases s.len(),
{
    if s.len() > 0 && text::is_digit(s[0]) {
        lemma_digits_len(s.drop_first());
        let n = text::digits_len(s);
        assert forall|i: int| 0 <= i < n implies text::is_digit(#[trigger] s.take(n)[i]) by {
            if i > 0 {
                assert(s.take(n)[i] == s.drop_first().take(n - 1)[i - 1]);
            }
        }
    }
}

fn mcode(cmd: &str) -> (r: Option<(u32, String)>)
    ensures
        match r {
            Some((code, rest)) => m_code(cmd@) == Some((code as nat, rest@)),
            None => m_code(cmd@) is None,
        },
{
    let t: &str = text::trim_start(cmd);
    let v: Vec<char> = text::chars_of(t);
    if v.len() == 0 || (v[0] != 'M' && v[0] != 'm') {
        return None;
    }
    let n: usize = text::count_digits(v.as_slice(), 1);
    let ghost rest = t@.skip(1);
    proof {
        lemma_digits_len(rest);
        assert(v@.subrange(1, 1 + n) =~= rest.take(n as int));
    }
    let digits: &[char] = vstd::slice::slice_subrange(v.as_slice(), 1, 1 + n);
    match text::parse_digits(digits, u32::MAX as u64) {
        None => None,
        Some(code) => {
            let tail: &str = t.substring_char(1 + n, v.len());
            assert(tail@ =~= rest.skip(n as int));
            Some((code as u32, text::trim_start(tail).to_owned()))
        },
    }
}

/// The quotes and brackets that may stand around a file name.
pub open spec fn quotes() -> Seq<char> {
    seq!['"', '\'', '<', '>']
}

/// The first word of an argument, without quotes or brackets.
pub open spec fn first_token_of(s: Seq<char>) -> Seq<char> {
    text::stripped_end(text::stripped_start(text::first_word_of(s), quotes()), quotes())
}

fn first_token(s: &str) -> (r: String)
    ensures
        r@ == first_token_of(s@),
{
    let mut set: Vec<char> = Vec::new();
    set.push('"');
    set.push('\'');
    set.push('<');
    set.push('>');
    assert(set@ =~= quotes());
    text::trim_set(text::first_word(s), set.as_slice()).to_owned()
}

/// Whether a command starts with `G29`, in either case.
pub open spec fn is_leveling(t: Seq<char>) -> bool {
    t.len() >= 3 && (t[0] == 'G' || t[0] == 'g') && t[1] == '2' && t[2] == '9'
}

/// What a command means.
pub open spec fn meaning(cmd: Seq<char>) -> GcodeView {
    let t = text::trimmed(cmd);
    if t.len() == 0 {
        GcodeView::Empty
    } else if is_leveling(t) {
        GcodeView::Leveling
    } else {
        match m_code(t) {
            None => GcodeView::Native(t),
            Some((code, rest)) => if code == 32 {
                GcodeView::PrintStart(first_token_of(rest))
            } else if code == 30 {
                GcodeView::DeleteFile(first_token_of(rest))
            } else if code == 20 {
                GcodeView::ListFiles
            } else if code == 24 {
                GcodeView::Resume
            } else if code == 25 {
                GcodeView::Pause
            } else if code == 26 {
                GcodeView::Cancel
            } else if code == 28 || code == 29 {
                GcodeView::Unsupported(t)
            } else {
                GcodeView::Native(t)
            },
        }
    }
}

/// Translates one command.
pub fn translate(cmd: &str) -> (k: GcodeKind)
    ensures
        k@ == meaning(cmd@),
{
    let trimmed: &str = text::trim(cmd);
    if trimmed.is_empty() {
        return GcodeKind::Empty;
    }
    let v: Vec<char> = text::chars_of(trimmed);
    if v.len() >= 3 && (v[0] == 'G' || v[0] == 'g') && v[1] == '2' && v[2] == '9' {
        return GcodeKind::Leveling;
    }
    match mcode(trimmed) {
        None => GcodeKind::Native(trimmed.to_owned()),
        Some((code, rest)) => {
            if code == 32 {
                GcodeKind::PrintStart(first_token(rest.as_str()))
            } else if code == 30 {
                GcodeKind::DeleteFile(first_token(rest.as_str()))
            } else if code == 20 {
                GcodeKind::ListFiles
            } else if code == 24 {
                GcodeKind::Resume
            } else if code == 25 {
                GcodeKind::Pause
            } else if code == 26 {
                GcodeKind::Cancel
            } else if code == 28 || code == 29 {
                GcodeKind::Unsupported(trimmed.to_owned())
            } else {
                GcodeKind::Native(trimmed.to_owned())
            }
        },
    }
}

proof fn lemma_digits_run(digits: Seq<char>, rest: Seq<char>)
    requires
        text::all_digits(digits),
        rest.len() == 0 || !text::is_digit(rest[0]),
    ensures
        text::digits_len(digits + rest) == digits.len(),
    decreases digits.len(),
{
    if digits.len() == 0 {
        assert(digits + rest =~= rest);
    } else {
        assert((digits + rest)[0] == digits[0]);
        assert((digits + rest).drop_first() =~= digits.drop_first() + rest);
        assert forall|i: int| 0 <= i < digits.drop_first().len() implies text::is_digit(
            #[trigger] digits.drop_first()[i],
        ) by {
            assert(text::is_digit(digits[i + 1]));
        }
        lemma_digits_run(digits.drop_first(), rest);
    }
}

/// The number of an M command is the whole row of digits behind the M, not the front of it: a
/// command whose number merely starts like that of another is not taken for it.
pub proof fn law_m_number_takes_all_digits(digits: Seq<char>, rest: Seq<char>)
    requires
        digits.len() > 0,
        text::all_digits(digits),
        text::digits_value(digits) <= u32::MAX,
        rest.len() == 0 || !text::is_digit(rest[0]),
    ensures
        m_code(seq!['M'] + digits + rest) == Some(
            (text::digits_value(digits), text::trimmed_start(rest)),
        ),
{
    let cmd = seq!['M'] + digits + rest;
    assert(text::trimmed_start(cmd) == cmd);
    assert(cmd.skip(1) =~= digits + rest);
    lemma_digits_run(digits, rest);
    assert((digits + rest).take(digits.len() as int) =~= digits);
    assert((digits + rest).skip(digits.len() as int) =~= rest);
}

/// Files are deleted by M30 and by nothing else, and prints are started by M32 and by nothing
/// else; what is left to the printer goes to it as it came, but for white space around it.
pub proof fn law_translation_is_cautious(cmd: Seq<char>)
    ensures
        meaning(cmd) is DeleteFile ==> (m_code(text::trimmed(cmd)) matches Some((n, _)) && n == 30),
        meaning(cmd) is PrintStart ==> (m_code(text::trimmed(cmd)) matches Some((n, _)) && n == 32),
        meaning(cmd) matches GcodeView::Native(s) ==> s == text::trimmed(cmd),
{
}

} // verus!
