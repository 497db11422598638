//! Executable construction of the diagnostic text, proved to match the
//! rendering specification character for character.
use crate::events::{dec, digit_char, render_event, Event};
use vstd::prelude::*;
use vstd::string::StringExecFns;

verus! {

/// The one-character text of a decimal digit.
fn digit_str(d: usize) -> (s: &'static str)
    requires
        d < 10,
    ensures
        s@ == seq![digit_char(d as nat)],
{
    proof {
        reveal_strlit("0");
        reveal_strlit("1");
        reveal_strlit("2");
        reveal_strlit("3");
        reveal_strlit("4");
        reveal_strlit("5");
        reveal_strlit("6");
        reveal_strlit("7");
        reveal_strlit("8");
        reveal_strlit("9");
    }
    let s: &'static str = match d {
        0 => "0",
        1 => "1",
        2 => "2",
        3 => "3",
        4 => "4",
        5 => "5",
        6 => "6",
        7 => "7",
        8 => "8",
        _ => "9",
    };
    proof {
        assert(s@ =~= seq![digit_char(d as nat)]);
    }
    s
}

/// Format `n` in decimal.
pub fn fmt_usize(n: usize) -> (s: String)
    ensures
        s@ == dec(n as nat),
    decreases n,
{
    if n < 10 {
        String::from_str(digit_str(n))
    } else {
        let mut s = fmt_usize(n / 10);
        s.append(digit_str(n % 10));
        proof {
            assert(s@ =~= dec((n / 10) as nat).push(digit_char((n % 10) as nat)));
        }
        s
    }
}

/// The `start` hook's line.
pub fn line_start(count: usize) -> (s: String)
    ensures
        s@ == render_event(Event::Start(count as nat)),
{
    let mut s = String::from_str("running ");
    s.append(fmt_usize(count).as_str());
    s.append(" tests\n");
    s
}

/// The `before_run` hook's text (no trailing newline).
pub fn line_before_run(name: &str) -> (s: String)
    ensures
        s@ == render_event(Event::BeforeRun(name@)),
{
    let mut s = String::from_str("test ");
    s.append(name);
    s.append(" ... ");
    s
}

/// The `ignored` hook's line.
pub fn line_ignored(name: &str) -> (s: String)
    ensures
        s@ == render_event(Event::Ignored(name@)),
{
    let mut s = String::from_str("test ");
    s.append(name);
    s.append(" ... ignored\n");
    s
}

/// The `summary` hook's line.
pub fn line_summary(passed: usize, failed: usize, ignored: usize) -> (s: String)
    ensures
        s@ == render_event(Event::Summary(passed as nat, failed as nat, ignored as nat)),
{
    let mut s = String::from_str("\ntest result: ");
    if failed == 0 {
        s.append("OK");
    } else {
        s.append("FAILED");
    }
    s.append(". ");
    s.append(fmt_usize(passed).as_str());
    s.append(" passed; ");
    s.append(fmt_usize(failed).as_str());
    s.append(" failed; ");
    s.append(fmt_usize(ignored).as_str());
    s.append(" ignored\n");
    s
}

/// The panic record: message and location, led by a line break.
pub fn line_panicked(message: &str, file: &str, line: u32) -> (s: String)
    ensures
        s@ == render_event(Event::Panicked(message@, file@, line as nat)),
{
    let mut s = String::from_str("\npanicked at '");
    s.append(message);
    s.append("', ");
    s.append(file);
    s.append(":");
    s.append(fmt_usize(line as usize).as_str());
    s
}

} // verus!
