//! Reading what git, `du` and the clock answer.
use vstd::prelude::*;

use crate::text::{
    first_word, first_word_of, lossy_text, parse_u64, parsed_u64, string_chars, string_of,
    trim_chars, trimmed, utf8_lossy,
};

verus! {

/// What the audit takes from a git run: its stdout, decoded and trimmed, and
/// only when git succeeded.
pub open spec fn git_stdout_text(success: bool, stdout: Seq<u8>) -> Option<Seq<char>> {
    if success {
        Some(trimmed(utf8_lossy(stdout)))
    } else {
        None
    }
}

/// The trimmed stdout of a git run, only when it succeeded.
pub fn git_stdout(success: bool, stdout: &[u8]) -> (r: Option<String>)
    ensures
        r.deep_view() == git_stdout_text(success, stdout@),
{
    if !success {
        return None;
    }
    let t = trim_chars(&string_chars(&lossy_text(stdout)));
    Some(string_of(&t))
}

/// The size in KB that `du -sk <path>` reports: the first word of its output,
/// read as a number; nothing when `du` failed or said something else.
pub open spec fn du_size(success: bool, stdout: Seq<u8>) -> Option<u64> {
    if !success {
        None
    } else {
        match first_word(utf8_lossy(stdout)) {
            Some(w) => parsed_u64(w),
            None => None,
        }
    }
}

/// Disk usage in KB from the output of `du -sk <path>`.
pub fn du_kb(success: bool, stdout: &[u8]) -> (r: Option<u64>)
    ensures
        r == du_size(success, stdout@),
{
    if !success {
        return None;
    }
    let text = string_chars(&lossy_text(stdout));
    match first_word_of(&text) {
        Some(w) => {
            assert(w.deep_view() =~= w@);
            let ws = string_of(&w);
            parse_u64(ws.as_str())
        },
        None => None,
    }
}

#[verifier::external_type_specification]
#[verifier::external_body]
pub struct ExSystemTime(std::time::SystemTime);

/// Calls `SystemTime::now`: the machine's clock, of which nothing is stated.
#[verifier::external_body]
fn clock_now() -> std::time::SystemTime {
    std::time::SystemTime::now()
}

/// Calls `SystemTime::duration_since(UNIX_EPOCH)` and keeps the whole seconds
/// (`Duration::as_secs`); `None` for a time before the epoch. What comes back
/// depends on the time given, which Verus cannot see into: nothing is stated.
#[verifier::external_body]
fn whole_secs_since_epoch(t: &std::time::SystemTime) -> Option<u64> {
    t.duration_since(std::time::UNIX_EPOCH).ok().map(|d| d.as_secs())
}

/// Seconds since the Unix epoch as the audit counts them: `0` for a clock
/// before the epoch, else the seconds cast to `i64` as Rust's `as` does.
pub open spec fn epoch_secs(secs: Option<u64>) -> i64 {
    match secs {
        Some(s) => s as i64,
        None => 0,
    }
}

/// Seconds since the Unix epoch from what the clock answered.
pub fn epoch_seconds(secs: Option<u64>) -> (r: i64)
    ensures
        r == epoch_secs(secs),
{
    match secs {
        Some(s) => s as i64,
        None => 0,
    }
}

/// The current time in seconds since the Unix epoch (`0` if the clock is set
/// before it). It reads the clock: two calls may differ.
pub fn now_epoch() -> i64 {
    let t = clock_now();
    epoch_seconds(whole_secs_since_epoch(&t))
}

} // verus!
