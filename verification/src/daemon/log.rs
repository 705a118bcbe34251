//! The lines of the daemon's log.
use vstd::prelude::*;
use vstd::string::StringExecFns;

verus! {

/// A line of the log, and where it goes besides the log file.
#[derive(Debug)]
pub struct LogLine {
    pub text: String,
    /// Standard error, or else standard output.
    pub to_stderr: bool,
}

/// A line: the time in brackets, a mark, the message.
pub open spec fn stamped(time: Seq<char>, mark: Seq<char>, msg: Seq<char>) -> Seq<char> {
    "["@ + time + "] "@ + mark + msg
}

fn line(time: &str, mark: &str, msg: &str) -> (s: String)
    ensures
        s@ == stamped(time@, mark@, msg@),
{
    let mut s = "[".to_owned();
    s.append(time);
    s.append("] ");
    s.append(mark);
    s.append(msg);
    s
}

pub fn log(time: &str, msg: &str) -> (l: LogLine)
    ensures
        l.text@ == stamped(time@, ""@, msg@),
        !l.to_stderr,
{
    LogLine { text: line(time, "", msg), to_stderr: false }
}

pub fn info(time: &str, msg: &str) -> (l: LogLine)
    ensures
        l.text@ == stamped(time@, ""@, msg@),
        !l.to_stderr,
{
    log(time, msg)
}

pub fn warn(time: &str, msg: &str) -> (l: LogLine)
    ensures
        l.text@ == stamped(time@, "WARN: "@, msg@),
        l.to_stderr,
{
    LogLine { text: line(time, "WARN: ", msg), to_stderr: true }
}

pub fn error(time: &str, msg: &str) -> (l: LogLine)
    ensures
        l.text@ == stamped(time@, "ERROR: "@, msg@),
        l.to_stderr,
{
    LogLine { text: line(time, "ERROR: ", msg), to_stderr: true }
}

/// A line of the log is the time in brackets, a blank, the mark and the message, one behind the
/// other.
pub proof fn a_line_holds_its_parts(time: Seq<char>, mark: Seq<char>, msg: Seq<char>)
    ensures
        ({
            let text = stamped(time, mark, msg);
            let n = time.len() as int;
            let m = mark.len() as int;
            &&& text.len() == 3 + n + m + msg.len()
            &&& text[0] == '[' && text[n + 1] == ']' && text[n + 2] == ' '
            &&& text.subrange(1, n + 1) == time
            &&& text.subrange(n + 3, n + 3 + m) == mark
            &&& text.skip(n + 3 + m) == msg
        }),
{
    reveal_strlit("[");
    reveal_strlit("] ");
    let text = stamped(time, mark, msg);
    let n = time.len() as int;
    let m = mark.len() as int;
    assert(text.subrange(1, n + 1) =~= time);
    assert(text.subrange(n + 3, n + 3 + m) =~= mark);
    assert(text.skip(n + 3 + m) =~= msg);
}

} // verus!
