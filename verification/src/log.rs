//! The lines that the runtimes log: `[Affine IO] ` and the message, with a
//! status tag at the end, in a plain form (for the debugger output and
//! redirected stderr) and a coloured form (for a console that renders ANSI
//! escapes).
use vstd::prelude::*;
use vstd::string::{StrSliceExecFns, StringExecFns};

verus! {

/// The prefix of every log line.
pub open spec fn log_prefix() -> Seq<char> {
    seq!['[', 'A', 'f', 'f', 'i', 'n', 'e', ' ', 'I', 'O', ']', ' ']
}

/// The status tag of a log line.
#[derive(Clone, Copy, PartialEq, Eq)]
pub enum LogTag {
    /// Neutral information, no tag.
    Plain,
    /// Success or a connection made: `[OK]`, green.
    Success,
    /// A problem that will be retried: `[WARN]`, yellow.
    Warn,
    /// A failure: `[FAIL]`, red.
    Fail,
    /// High-volume diagnostics: no tag, the whole line dimmed.
    Diag,
}

/// The two forms of a log line.
pub struct LogLines {
    pub plain: String,
    pub colored: String,
}

/// The plain form of a line with `tag` and message `msg`.
pub open spec fn plain_line(tag: LogTag, msg: Seq<char>) -> Seq<char> {
    let body = log_prefix() + msg;
    match tag {
        LogTag::Success => body + seq![' ', '[', 'O', 'K', ']'],
        LogTag::Warn => body + seq![' ', '[', 'W', 'A', 'R', 'N', ']'],
        LogTag::Fail => body + seq![' ', '[', 'F', 'A', 'I', 'L', ']'],
        _ => body,
    }
}

/// The ANSI escape that starts a colour, for the colour code `code`.
pub open spec fn ansi(code: Seq<char>) -> Seq<char> {
    seq!['\x1b', '['] + code + seq!['m']
}

/// The coloured form of a line with `tag` and message `msg`.
pub open spec fn colored_line(tag: LogTag, msg: Seq<char>) -> Seq<char> {
    let body = log_prefix() + msg;
    let reset = ansi(seq!['0']);
    match tag {
        LogTag::Plain => body,
        LogTag::Success => body + seq![' '] + ansi(seq!['3', '2', ';', '1']) + seq!['[', 'O', 'K', ']'] + reset,
        LogTag::Warn => body + seq![' '] + ansi(seq!['3', '3', ';', '1']) + seq!['[', 'W', 'A', 'R', 'N', ']'] + reset,
        LogTag::Fail => body + seq![' '] + ansi(seq!['3', '1', ';', '1']) + seq!['[', 'F', 'A', 'I', 'L', ']'] + reset,
        LogTag::Diag => ansi(seq!['9', '0']) + body + reset,
    }
}

/// The log line with `tag` and message `msg`, in both forms.
pub fn emit_lines(tag: LogTag, msg: &str) -> (lines: LogLines)
    ensures
        lines.plain@ == plain_line(tag, msg@),
        lines.colored@ == colored_line(tag, msg@),
{
    let mut body = String::from_str("[Affine IO] ");
    proof {
        reveal_strlit("[Affine IO] ");
    }
    assert("[Affine IO] "@ =~= log_prefix());
    body.append(msg);
    let reset = "\x1b[0m";
    proof {
        reveal_strlit("\x1b[0m");
    }
    assert(reset@ =~= ansi(seq!['0']));
    match tag {
        LogTag::Plain => {
            let colored = body.clone();
            LogLines { plain: body, colored }
        },
        LogTag::Diag => {
            let mut colored = String::from_str("\x1b[90m");
            proof {
                reveal_strlit("\x1b[90m");
            }
            assert("\x1b[90m"@ =~= ansi(seq!['9', '0']));
            colored.append(body.as_str());
            colored.append(reset);
            LogLines { plain: body, colored }
        },
        LogTag::Success => {
            let plain = body.clone().concat(" [OK]");
            let colored = body.concat(" \x1b[32;1m[OK]\x1b[0m");
            proof {
                reveal_strlit(" [OK]");
                reveal_strlit(" \x1b[32;1m[OK]\x1b[0m");
            }
            assert(" \x1b[32;1m[OK]\x1b[0m"@ =~= seq![' '] + ansi(seq!['3', '2', ';', '1']) + seq!['[', 'O', 'K', ']'] + ansi(seq!['0']));
            assert(plain@ =~= plain_line(tag, msg@));
            assert(colored@ =~= colored_line(tag, msg@));
            LogLines { plain, colored }
        },
        LogTag::Warn => {
            let plain = body.clone().concat(" [WARN]");
            let colored = body.concat(" \x1b[33;1m[WARN]\x1b[0m");
            proof {
                reveal_strlit(" [WARN]");
                reveal_strlit(" \x1b[33;1m[WARN]\x1b[0m");
            }
            assert(" \x1b[33;1m[WARN]\x1b[0m"@ =~= seq![' '] + ansi(seq!['3', '3', ';', '1']) + seq!['[', 'W', 'A', 'R', 'N', ']'] + ansi(seq!['0']));
            assert(plain@ =~= plain_line(tag, msg@));
            assert(colored@ =~= colored_line(tag, msg@));
            LogLines { plain, colored }
        },
        LogTag::Fail => {
            let plain = body.clone().concat(" [FAIL]");
            let colored = body.concat(" \x1b[31;1m[FAIL]\x1b[0m");
            proof {
                reveal_strlit(" [FAIL]");
                reveal_strlit(" \x1b[31;1m[FAIL]\x1b[0m");
            }
            assert(" \x1b[31;1m[FAIL]\x1b[0m"@ =~= seq![' '] + ansi(seq!['3', '1', ';', '1']) + seq!['[', 'F', 'A', 'I', 'L', ']'] + ansi(seq!['0']));
            assert(plain@ =~= plain_line(tag, msg@));
            assert(colored@ =~= colored_line(tag, msg@));
            LogLines { plain, colored }
        },
    }
}

/// `line` without a leading `[Affine IO] `, if it has one.
pub open spec fn strip_log_prefix(line: Seq<char>) -> Seq<char> {
    if line.len() >= 12 && line.take(12) == log_prefix() { line.skip(12) } else { line }
}

/// A neutral line given whole: an old-style leading `[Affine IO] ` is taken
/// off so that the prefix is not doubled.
pub fn log_line(line: &str) -> (lines: LogLines)
    ensures
        lines.plain@ == plain_line(LogTag::Plain, strip_log_prefix(line@)),
        lines.colored@ == colored_line(LogTag::Plain, strip_log_prefix(line@)),
{
    let prefix = "[Affine IO] ";
    proof {
        reveal_strlit("[Affine IO] ");
    }
    assert(prefix@ =~= log_prefix());
    let n = line.unicode_len();
    if n >= 12 {
        let mut i: usize = 0;
        let mut same = true;
        while i < 12
            invariant
                i <= 12,
                n == line@.len(),
                n >= 12,
                prefix@ == log_prefix(),
                same == (forall|j: int| 0 <= j < i ==> line@[j] == log_prefix()[j]),
            decreases 12 - i,
        {
            if line.get_char(i) != prefix.get_char(i) {
                same = false;
            }
            i = i + 1;
        }
        if same {
            assert(line@.take(12) =~= log_prefix());
            let rest = line.substring_char(12, n);
            assert(rest@ =~= line@.skip(12));
            return emit_lines(LogTag::Plain, rest);
        }
        assert(line@.take(12) != log_prefix()) by {
            if line@.take(12) == log_prefix() {
                assert forall|j: int| 0 <= j < 12 implies line@[j] == log_prefix()[j] by {
                    assert(line@.take(12)[j] == line@[j]);
                }
            }
        }
    }
    emit_lines(LogTag::Plain, line)
}

/// A neutral information line.
pub fn log_info(msg: &str) -> (lines: LogLines)
    ensures
        lines.plain@ == plain_line(LogTag::Plain, msg@),
        lines.colored@ == colored_line(LogTag::Plain, msg@),
{
    emit_lines(LogTag::Plain, msg)
}

/// A success line.
pub fn log_ok(msg: &str) -> (lines: LogLines)
    ensures
        lines.plain@ == plain_line(LogTag::Success, msg@),
        lines.colored@ == colored_line(LogTag::Success, msg@),
{
    emit_lines(LogTag::Success, msg)
}

/// A warning line.
pub fn log_warn(msg: &str) -> (lines: LogLines)
    ensures
        lines.plain@ == plain_line(LogTag::Warn, msg@),
        lines.colored@ == colored_line(LogTag::Warn, msg@),
{
    emit_lines(LogTag::Warn, msg)
}

/// A failure line.
pub fn log_fail(msg: &str) -> (lines: LogLines)
    ensures
        lines.plain@ == plain_line(LogTag::Fail, msg@),
        lines.colored@ == colored_line(LogTag::Fail, msg@),
{
    emit_lines(LogTag::Fail, msg)
}

/// A diagnostics line.
pub fn log_diag(msg: &str) -> (lines: LogLines)
    ensures
        lines.plain@ == plain_line(LogTag::Diag, msg@),
        lines.colored@ == colored_line(LogTag::Diag, msg@),
{
    emit_lines(LogTag::Diag, msg)
}

} // verus!
