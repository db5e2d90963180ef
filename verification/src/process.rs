//! Waiting for a child process, but not for ever: a driver that hangs must not hold up whoever
//! asked for its data. And whether what it has printed counts.

use vstd::prelude::*;
use vstd::utf8::*;

verus! {

/// The pause between two looks at a child process, in milliseconds.
pub const POLL_INTERVAL_MS: u64 = 50;

/// What a look at a child process finds.
#[derive(Clone, Copy, Debug, PartialEq, Eq, Structural)]
pub enum ChildPoll {
    Exited,
    Running,
    Failed,
}

/// What to do next: collect the output of a process that has ended, kill one that has run out of
/// time, look again after a pause, or give up on one that cannot be looked at.
#[derive(Clone, Copy, Debug, PartialEq, Eq, Structural)]
pub enum PollStep {
    Collect,
    Kill,
    Wait { ms: u64 },
    GiveUp,
}

/// What follows a look at a child process that was started `elapsed` ago; both times count the
/// same unit.
pub open spec fn step_after(poll: ChildPoll, elapsed: u128, timeout: u128) -> PollStep {
    match poll {
        ChildPoll::Exited => PollStep::Collect,
        ChildPoll::Running => if elapsed >= timeout {
            PollStep::Kill
        } else {
            PollStep::Wait { ms: POLL_INTERVAL_MS }
        },
        ChildPoll::Failed => PollStep::GiveUp,
    }
}

/// What follows a look at a child process.
pub fn poll_step(poll: ChildPoll, elapsed: u128, timeout: u128) -> (r: PollStep)
    ensures
        r == step_after(poll, elapsed, timeout),
{
    match poll {
        ChildPoll::Exited => PollStep::Collect,
        ChildPoll::Running => if elapsed >= timeout {
            PollStep::Kill
        } else {
            PollStep::Wait { ms: POLL_INTERVAL_MS }
        },
        ChildPoll::Failed => PollStep::GiveUp,
    }
}

/// `String::from_utf8`, which takes bytes for a text exactly where they are valid UTF-8, and then
/// for the text that they encode.
#[verifier::external_body]
fn from_utf8(bytes: Vec<u8>) -> (r: Option<String>)
    ensures
        match r {
            Some(s) => valid_utf8(bytes@) && s@ == decode_utf8(bytes@),
            None => !valid_utf8(bytes@),
        },
{
    String::from_utf8(bytes).ok()
}

/// What a process has printed, where it has succeeded and has printed a text.
pub fn printed_text(success: bool, stdout: Vec<u8>) -> (r: Option<String>)
    ensures
        r.deep_view() == (if success && valid_utf8(stdout@) {
            Some(decode_utf8(stdout@))
        } else {
            None
        }),
{
    if success {
        from_utf8(stdout)
    } else {
        None
    }
}

/// A process is waited for only while its time lasts: from the timeout on, every look ends the
/// wait, whatever it finds. A process that has ended is never killed.
pub proof fn law_no_wait_beyond_the_timeout(poll: ChildPoll, elapsed: u128, timeout: u128)
    ensures
        elapsed >= timeout ==> !(step_after(poll, elapsed, timeout) is Wait),
        step_after(poll, elapsed, timeout) is Kill ==> poll == ChildPoll::Running && elapsed
            >= timeout,
        step_after(poll, elapsed, timeout) is Collect <==> poll == ChildPoll::Exited,
{
}

/// A process that is running is looked at again after fifty milliseconds while its time lasts and
/// killed from then on; one that has ended is collected, and one that cannot be looked at is
/// given up, at any time.
pub proof fn law_steps(elapsed: u128, timeout: u128)
    ensures
        elapsed < timeout ==> step_after(ChildPoll::Running, elapsed, timeout) == (PollStep::Wait {
            ms: 50,
        }),
        elapsed >= timeout ==> step_after(ChildPoll::Running, elapsed, timeout) == PollStep::Kill,
        step_after(ChildPoll::Exited, elapsed, timeout) == PollStep::Collect,
        step_after(ChildPoll::Failed, elapsed, timeout) == PollStep::GiveUp,
{
}

} // verus!
