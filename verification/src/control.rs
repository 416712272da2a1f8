//! Termination requests.
//!
//! A request names a process by its identifier. Whether the process is
//! there is decided by the process table of the state, as it was last read,
//! and not by asking the system again. Where the table lists the process,
//! the caller signals it once and reports whether the operating system took
//! the signal. Nothing is tried again, and a signal that was taken is an
//! acknowledgement, not a promise that the process ends.

use crate::state::AppState;
use crate::text::{decimal, law_decimal_is_injective, push_decimal};
use vstd::prelude::*;

verus! {

/// The reply to a request whose signal was taken.
pub open spec fn terminated_message(pid: u32) -> Seq<char> {
    "Process "@ + decimal(pid as nat) + " terminated successfully."@
}

/// The reply to a request whose signal the operating system refused.
pub open spec fn refused_message(pid: u32) -> Seq<char> {
    "The Machine Spirit refused to kill process "@ + decimal(pid as nat)
        + ". (Permission Denied?)"@
}

/// The reply to a request for a process that the table does not list.
pub open spec fn not_found_message(pid: u32) -> Seq<char> {
    "Process "@ + decimal(pid as nat) + " not found in the current cycle."@
}

/// What a termination request comes to before anything is signalled.
#[derive(Debug, PartialEq, Eq)]
pub enum KillStep {
    /// The table lists the process: signal it, then call `kill_reply`.
    Signal(u32),
    /// The request is settled with this reply.
    Reply(Result<String, String>),
}

/// `before`, the numeral of `pid`, then `after`.
fn quote_pid(before: &str, pid: u32, after: &str) -> (message: String)
    ensures
        message@ == before@ + decimal(pid as nat) + after@,
{
    let mut message = String::new();
    message.append(before);
    push_decimal(&mut message, pid);
    message.append(after);
    message
}

/// Decides a termination request for `pid`: to signal the process where
/// the process table of `state` lists it, and the failure that names the
/// process as not found where it does not.
pub fn kill_process(state: &AppState, pid: u32) -> (step: KillStep)
    ensures
        state.sys.has_process(pid) ==> step == KillStep::Signal(pid),
        !state.sys.has_process(pid) ==> (step matches KillStep::Reply(Err(message)) && message@
            == not_found_message(pid)),
{
    if state.sys.has_process(pid) {
        KillStep::Signal(pid)
    } else {
        KillStep::Reply(Err(quote_pid("Process ", pid, " not found in the current cycle.")))
    }
}

/// The reply once the process `pid` was signalled: success where the
/// operating system took the signal, the refusal where it did not.
pub fn kill_reply(pid: u32, accepted: bool) -> (reply: Result<String, String>)
    ensures
        accepted ==> (reply matches Ok(message) && message@ == terminated_message(pid)),
        !accepted ==> (reply matches Err(message) && message@ == refused_message(pid)),
{
    if accepted {
        Ok(quote_pid("Process ", pid, " terminated successfully."))
    } else {
        Err(
            quote_pid("The Machine Spirit refused to kill process ", pid, ". (Permission Denied?)"),
        )
    }
}

/// A refusal never reads like a process that was not found, whatever the
/// two identifiers are: the replies differ in their first character.
pub proof fn law_failures_are_distinct(refused: u32, missing: u32)
    ensures
        refused_message(refused) != not_found_message(missing),
        refused_message(refused)[0] == 'T',
        not_found_message(missing)[0] == 'P',
{
    reveal_strlit("The Machine Spirit refused to kill process ");
    reveal_strlit("Process ");
    assert(refused_message(refused)[0] == "The Machine Spirit refused to kill process "@[0]);
    assert(not_found_message(missing)[0] == "Process "@[0]);
}

/// The numeral can be read back out of a text that quotes it between two
/// fixed parts.
proof fn lemma_quoted_numeral(before: Seq<char>, numeral: Seq<char>, after: Seq<char>)
    ensures
        (before + numeral + after).len() == before.len() + numeral.len() + after.len(),
        (before + numeral + after).subrange(
            before.len() as int,
            (before.len() + numeral.len()) as int,
        ) == numeral,
{
}

/// Two texts that quote numerals between the same fixed parts are equal
/// only where the numbers are.
proof fn lemma_quotes_differ(before: Seq<char>, a: u32, b: u32, after: Seq<char>)
    requires
        a != b,
    ensures
        before + decimal(a as nat) + after != before + decimal(b as nat) + after,
{
    lemma_quoted_numeral(before, decimal(a as nat), after);
    lemma_quoted_numeral(before, decimal(b as nat), after);
    if decimal(a as nat) == decimal(b as nat) {
        law_decimal_is_injective(a as nat, b as nat);
    }
}

/// Each reply names its process: replies of one kind for different
/// identifiers differ.
pub proof fn law_replies_name_the_process(a: u32, b: u32)
    requires
        a != b,
    ensures
        terminated_message(a) != terminated_message(b),
        refused_message(a) != refused_message(b),
        not_found_message(a) != not_found_message(b),
{
    lemma_quotes_differ("Process "@, a, b, " terminated successfully."@);
    lemma_quotes_differ(
        "The Machine Spirit refused to kill process "@,
        a,
        b,
        ". (Permission Denied?)"@,
    );
    lemma_quotes_differ("Process "@, a, b, " not found in the current cycle."@);
}

} // verus!
