//! What a finished external command yields: its trimmed standard output when it
//! succeeded, its trimmed standard error when it failed, and nothing where that
//! text is empty.
use vstd::prelude::*;
use crate::text::{trimmed, trim, text_of};

verus! {

/// The result of a command that ran to its end.
pub open spec fn probe_result(succeeded: bool, stdout: Seq<char>, stderr: Seq<char>) -> Option<
    Seq<char>,
> {
    let t = if succeeded {
        trimmed(stdout)
    } else {
        trimmed(stderr)
    };
    if t.len() > 0 {
        Some(t)
    } else {
        None
    }
}

/// Decides what a command that ran to its end yields, from its exit status and
/// its two output streams.
pub fn probe_text(succeeded: bool, stdout: &str, stderr: &str) -> (r: Option<String>)
    ensures
        text_of(r) == probe_result(succeeded, stdout@, stderr@),
{
    let t = if succeeded {
        trim(stdout)
    } else {
        trim(stderr)
    };
    if t.unicode_len() > 0 {
        Some(String::from_str(t))
    } else {
        None
    }
}

} // verus!
