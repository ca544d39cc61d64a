//! Readiness conditions: the closed, declarative set of signals a container
//! image may require before its handle is released to the caller.

use vstd::prelude::*;
use vstd::string::StringSliceAdditionalSpecFns;
use vstd::string::StrSliceExecFns;

verus! {

/// One declared readiness condition of an image. A descriptor carries an
/// ordered sequence of these; the orchestration core evaluates them strictly
/// in declaration order.
#[derive(Debug)]
pub enum WaitFor {
    /// A byte pattern that must appear on the container's stdout stream.
    StdOutMessage { message: Vec<u8> },
    /// A byte pattern that must appear on the container's stderr stream.
    StdErrMessage { message: Vec<u8> },
    /// An unconditional pause of this many milliseconds.
    Duration { millis: u64 },
    /// No wait: the condition advances immediately.
    Nothing,
}

/// The mathematical value of one readiness condition.
pub enum WaitForView {
    StdOutMessage { message: Seq<u8> },
    StdErrMessage { message: Seq<u8> },
    Duration { millis: u64 },
    Nothing,
}

impl View for WaitFor {
    type V = WaitForView;

    open spec fn view(&self) -> WaitForView {
        match self {
            WaitFor::StdOutMessage { message } => WaitForView::StdOutMessage {
                message: message@,
            },
            WaitFor::StdErrMessage { message } => WaitForView::StdErrMessage {
                message: message@,
            },
            WaitFor::Duration { millis } => WaitForView::Duration { millis: *millis },
            WaitFor::Nothing => WaitForView::Nothing,
        }
    }
}

impl WaitFor {
    /// A condition that waits for `message` (as UTF-8 bytes) on stdout.
    pub fn message_on_stdout(message: &str) -> (w: WaitFor)
        ensures
            w@ == (WaitForView::StdOutMessage { message: message.spec_bytes() }),
    {
        WaitFor::StdOutMessage { message: message.as_bytes_vec() }
    }

    /// A condition that waits for `message` (as UTF-8 bytes) on stderr.
    pub fn message_on_stderr(message: &str) -> (w: WaitFor)
        ensures
            w@ == (WaitForView::StdErrMessage { message: message.spec_bytes() }),
    {
        WaitFor::StdErrMessage { message: message.as_bytes_vec() }
    }

    /// A copy of this condition, equal to it.
    pub fn duplicate(&self) -> (w: WaitFor)
        ensures
            w@ == self@,
    {
        match self {
            WaitFor::StdOutMessage { message } => {
                let copy = crate::logs::copy_range(message, 0, message.len());
                proof {
                    assert(message@.subrange(0, message@.len() as int) =~= message@);
                }
                WaitFor::StdOutMessage { message: copy }
            },
            WaitFor::StdErrMessage { message } => {
                let copy = crate::logs::copy_range(message, 0, message.len());
                proof {
                    assert(message@.subrange(0, message@.len() as int) =~= message@);
                }
                WaitFor::StdErrMessage { message: copy }
            },
            WaitFor::Duration { millis } => WaitFor::Duration { millis: *millis },
            WaitFor::Nothing => WaitFor::Nothing,
        }
    }

    /// A condition that pauses for `millis` milliseconds.
    pub fn millis(millis: u64) -> (w: WaitFor)
        ensures
            w@ == (WaitForView::Duration { millis }),
    {
        WaitFor::Duration { millis }
    }
}

/// Some condition of the strategy watches the stdout stream.
pub open spec fn has_stdout_message(conds: Seq<WaitForView>) -> bool {
    exists|j: int| 0 <= j < conds.len() && (#[trigger] conds[j]) matches WaitForView::StdOutMessage { .. }
}

/// Some condition of the strategy watches the stderr stream.
pub open spec fn has_stderr_message(conds: Seq<WaitForView>) -> bool {
    exists|j: int| 0 <= j < conds.len() && (#[trigger] conds[j]) matches WaitForView::StdErrMessage { .. }
}

/// The pauses a sequence of conditions demands, in order: the durations of
/// its `Duration` members.
pub open spec fn durations_of(conds: Seq<WaitForView>) -> Seq<u64>
    decreases conds.len(),
{
    if conds.len() == 0 {
        Seq::empty()
    } else {
        durations_of(conds.drop_last()) + (match conds.last() {
            WaitForView::Duration { millis } => seq![millis],
            _ => Seq::<u64>::empty(),
        })
    }
}

/// A strategy whose every condition is `Nothing` demands nothing at all:
/// construction over it sleeps for nothing and watches neither stream, so it
/// returns as soon as the container was started.
pub proof fn lemma_no_conditions_no_delay(conds: Seq<WaitForView>)
    requires
        forall|j: int| 0 <= j < conds.len() ==> conds[j] == WaitForView::Nothing,
    ensures
        durations_of(conds) == Seq::<u64>::empty(),
        !has_stdout_message(conds),
        !has_stderr_message(conds),
    decreases conds.len(),
{
    if conds.len() > 0 {
        lemma_no_conditions_no_delay(conds.drop_last());
        assert(conds.last() == WaitForView::Nothing);
        assert(durations_of(conds) =~= Seq::<u64>::empty());
    }
}

/// A strategy containing `FixedDelay(d)` demands a pause of `d`: the sleeps
/// construction issues include it.
pub proof fn lemma_fixed_delay_demanded(conds: Seq<WaitForView>, j: int, d: u64)
    requires
        0 <= j < conds.len(),
        conds[j] == (WaitForView::Duration { millis: d }),
    ensures
        durations_of(conds).contains(d),
    decreases conds.len(),
{
    if j == conds.len() - 1 {
        assert(conds.last() == (WaitForView::Duration { millis: d }));
        let full = durations_of(conds);
        assert(full == durations_of(conds.drop_last()) + seq![d]);
        assert(full[full.len() - 1] == d);
    } else {
        lemma_fixed_delay_demanded(conds.drop_last(), j, d);
        let prev = durations_of(conds.drop_last());
        let k = choose|k: int| 0 <= k < prev.len() && prev[k] == d;
        assert(durations_of(conds)[k] == d);
    }
}

} // verus!
