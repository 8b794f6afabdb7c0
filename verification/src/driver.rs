//! The steps of a run of the solver process, and what follows from the way
//! each of them ends.
//!
//! The caller carries out one step at a time and reports how it went; the
//! rules here say what to do next. A run spawns one process, writes the model
//! to it, waits for its end and takes the report from its error channel. The
//! first step that fails decides how the run ends, and nothing is tried twice.
//! A process that was started is not left to itself: where a step fails while
//! the process may still be running, the process is ended and waited for,
//! once, and the run then gives up with the error of the step that failed.

use crate::error::ProcessError;
use vstd::prelude::*;

verus! {

/// What is to be done next in a run of the solver.
#[derive(Clone, Copy, Debug, PartialEq, Eq, Structural)]
pub enum Step {
    /// Start the solver process.
    Spawn,
    /// Take the channel on which the process reads its input.
    OpenInput,
    /// Write the whole model to the input of the process.
    WriteInput,
    /// Wait until the process has ended.
    Wait,
    /// End the process and wait for it, once. A step has failed with this
    /// error while the process may still be running; the run gives up with
    /// the error as soon as this was done, however it went.
    EndProcess(ProcessError),
    /// Take the error channel of the process, which holds the report. The
    /// process has ended, with success or without.
    OpenReport { success: bool },
    /// Hand the report to the parser. The run itself is over.
    Parse,
    /// Give up with this error. The run is over.
    Fail(ProcessError),
}

/// How the step that was to be done went.
#[derive(Clone, Copy, Debug, PartialEq, Eq, Structural)]
pub enum Event {
    /// The process was started.
    Spawned,
    /// The input channel was taken.
    InputOpened,
    /// The model was written in full.
    InputWritten,
    /// The process has ended, and said whether it succeeded.
    Exited { success: bool },
    /// The error channel was taken.
    ReportOpened,
    /// The step could not be carried out.
    Failed,
}

/// The step that follows `step` once `event` has been observed. Each step
/// goes on at one event alone; anything else fails it. A failure between the
/// start of the process and its end leads to the ending of the process, and
/// from there to the failure of the run, whatever the ending brought. A report
/// is parsed only where the process has ended with success.
pub open spec fn next_step(step: Step, event: Event) -> Step {
    match step {
        Step::Spawn => if event == Event::Spawned {
            Step::OpenInput
        } else {
            Step::Fail(ProcessError::Spawn)
        },
        Step::OpenInput => if event == Event::InputOpened {
            Step::WriteInput
        } else if event is Exited {
            Step::Fail(ProcessError::Channel)
        } else {
            Step::EndProcess(ProcessError::Channel)
        },
        Step::WriteInput => if event == Event::InputWritten {
            Step::Wait
        } else if event is Exited {
            Step::Fail(ProcessError::Channel)
        } else {
            Step::EndProcess(ProcessError::Channel)
        },
        Step::Wait => match event {
            Event::Exited { success } => Step::OpenReport { success },
            _ => Step::EndProcess(ProcessError::Failure),
        },
        Step::EndProcess(error) => Step::Fail(error),
        Step::OpenReport { success } => if event != Event::ReportOpened {
            Step::Fail(ProcessError::Channel)
        } else if success {
            Step::Parse
        } else {
            Step::Fail(ProcessError::Failure)
        },
        Step::Parse => Step::Parse,
        Step::Fail(error) => Step::Fail(error),
    }
}

/// The step that a run has come to, from `step` on, once all of `events` have
/// been observed in their order.
pub open spec fn step_after(step: Step, events: Seq<Event>) -> Step
    decreases events.len(),
{
    if events.len() == 0 {
        step
    } else {
        step_after(next_step(step, events.first()), events.drop_first())
    }
}

/// Whether a run that has come to `step` is over.
pub open spec fn over(step: Step) -> bool {
    step is Parse || step is Fail
}

/// Whether a run that has come to `step` has a process whose end it has not
/// yet observed.
pub open spec fn process_pending(step: Step) -> bool {
    step is OpenInput || step is WriteInput || step is Wait || step is EndProcess
}

/// The first step of every run.
pub fn start() -> (step: Step)
    ensures
        step == Step::Spawn,
{
    Step::Spawn
}

/// Says what to do after `step`, given how it went.
pub fn advance(step: Step, event: Event) -> (next: Step)
    ensures
        next == next_step(step, event),
{
    match step {
        Step::Spawn => match event {
            Event::Spawned => Step::OpenInput,
            _ => Step::Fail(ProcessError::Spawn),
        },
        Step::OpenInput => match event {
            Event::InputOpened => Step::WriteInput,
            Event::Exited { .. } => Step::Fail(ProcessError::Channel),
            _ => Step::EndProcess(ProcessError::Channel),
        },
        Step::WriteInput => match event {
            Event::InputWritten => Step::Wait,
            Event::Exited { .. } => Step::Fail(ProcessError::Channel),
            _ => Step::EndProcess(ProcessError::Channel),
        },
        Step::Wait => match event {
            Event::Exited { success } => Step::OpenReport { success },
            _ => Step::EndProcess(ProcessError::Failure),
        },
        Step::EndProcess(error) => Step::Fail(error),
        Step::OpenReport { success } => match event {
            Event::ReportOpened => if success {
                Step::Parse
            } else {
                Step::Fail(ProcessError::Failure)
            },
            _ => Step::Fail(ProcessError::Channel),
        },
        Step::Parse => Step::Parse,
        Step::Fail(error) => Step::Fail(error),
    }
}

/// Tells whether a run that has come to `step` is over.
pub fn is_over(step: Step) -> (r: bool)
    ensures
        r == over(step),
{
    match step {
        Step::Parse => true,
        Step::Fail(_) => true,
        _ => false,
    }
}

/// A run that is over stays as it is, whatever is observed afterwards: no
/// failure is retried, and no step follows the handing over of the report.
pub proof fn lemma_over_is_final(step: Step, events: Seq<Event>)
    requires
        over(step),
    ensures
        step_after(step, events) == step,
    decreases events.len(),
{
    if events.len() > 0 {
        lemma_over_is_final(step, events.drop_first());
    }
}

/// A run starts its process once: no event leads back to the first step.
pub proof fn lemma_spawn_happens_once(step: Step, events: Seq<Event>)
    requires
        events.len() > 0 || step != Step::Spawn,
    ensures
        step_after(step, events) != Step::Spawn,
    decreases events.len(),
{
    if events.len() > 0 {
        lemma_spawn_happens_once(next_step(step, events.first()), events.drop_first());
    }
}

/// A solver that cannot be started fails the run with a spawn error, whatever
/// is observed afterwards: no report is parsed.
pub proof fn lemma_spawn_failure_ends_run(first: Event, then: Seq<Event>)
    requires
        first != Event::Spawned,
    ensures
        step_after(Step::Spawn, seq![first] + then) == Step::Fail(ProcessError::Spawn),
{
    let events = seq![first] + then;
    assert(events.first() == first);
    assert(events.drop_first() == then);
    lemma_over_is_final(Step::Fail(ProcessError::Spawn), then);
}

/// A solver that ends without success fails the run with a process failure,
/// whatever is observed afterwards: its report is not parsed.
pub proof fn lemma_exit_failure_ends_run(then: Seq<Event>)
    ensures
        step_after(
            Step::Spawn,
            seq![
                Event::Spawned,
                Event::InputOpened,
                Event::InputWritten,
                (Event::Exited { success: false }),
                Event::ReportOpened,
            ] + then,
        ) == Step::Fail(ProcessError::Failure),
{
    let head = seq![
        Event::Spawned,
        Event::InputOpened,
        Event::InputWritten,
        (Event::Exited { success: false }),
        Event::ReportOpened,
    ];
    let e0 = head + then;
    let e1 = e0.drop_first();
    let e2 = e1.drop_first();
    let e3 = e2.drop_first();
    let e4 = e3.drop_first();
    let e5 = e4.drop_first();
    assert(e5 == then);
    assert(step_after(Step::OpenReport { success: false }, e4) == step_after(
        Step::Fail(ProcessError::Failure),
        e5,
    ));
    assert(step_after(Step::Wait, e3) == step_after(Step::OpenReport { success: false }, e4));
    assert(step_after(Step::WriteInput, e2) == step_after(Step::Wait, e3));
    assert(step_after(Step::OpenInput, e1) == step_after(Step::WriteInput, e2));
    assert(step_after(Step::Spawn, e0) == step_after(Step::OpenInput, e1));
    lemma_over_is_final(Step::Fail(ProcessError::Failure), then);
}

/// A run that has given up parses no report: from the ending of the process
/// on, and from a failure on, no events lead to the parse.
pub proof fn lemma_failure_never_parses(step: Step, events: Seq<Event>)
    requires
        step is EndProcess || step is Fail,
    ensures
        step_after(step, events) is EndProcess || step_after(step, events) is Fail,
    decreases events.len(),
{
    if events.len() > 0 {
        lemma_failure_never_parses(next_step(step, events.first()), events.drop_first());
    }
}

/// A report is parsed only after the whole exchange went well: the process
/// was started, took the model on its input, ended with success and gave its
/// error channel, in this order.
pub proof fn lemma_parse_follows_success(events: Seq<Event>)
    requires
        step_after(Step::Spawn, events) == Step::Parse,
    ensures
        events.len() >= 5,
        events[0] == Event::Spawned,
        events[1] == Event::InputOpened,
        events[2] == Event::InputWritten,
        events[3] == (Event::Exited { success: true }),
        events[4] == Event::ReportOpened,
{
    let e1 = events.drop_first();
    let e2 = e1.drop_first();
    let e3 = e2.drop_first();
    let e4 = e3.drop_first();
    let e5 = e4.drop_first();
    let s1 = next_step(Step::Spawn, events[0]);
    assert(events.len() > 0 && step_after(Step::Spawn, events) == step_after(s1, e1));
    if s1 is Fail {
        lemma_failure_never_parses(s1, e1);
    }
    let s2 = next_step(s1, e1[0]);
    assert(e1.len() > 0 && step_after(s1, e1) == step_after(s2, e2));
    if s2 is Fail || s2 is EndProcess {
        lemma_failure_never_parses(s2, e2);
    }
    let s3 = next_step(s2, e2[0]);
    assert(e2.len() > 0 && step_after(s2, e2) == step_after(s3, e3));
    if s3 is Fail || s3 is EndProcess {
        lemma_failure_never_parses(s3, e3);
    }
    let s4 = next_step(s3, e3[0]);
    assert(e3.len() > 0 && step_after(s3, e3) == step_after(s4, e4));
    if s4 is Fail || s4 is EndProcess {
        lemma_failure_never_parses(s4, e4);
    }
    let s5 = next_step(s4, e4[0]);
    assert(e4.len() > 0 && step_after(s4, e4) == step_after(s5, e5));
    if s5 is Fail {
        lemma_failure_never_parses(s5, e5);
    }
}

/// The greatest number of steps that a run at `step` has yet to carry out.
pub open spec fn steps_left(step: Step) -> nat {
    match step {
        Step::Spawn => 5,
        Step::OpenInput => 4,
        Step::WriteInput => 3,
        Step::Wait => 2,
        Step::EndProcess(_) => 1,
        Step::OpenReport { .. } => 1,
        Step::Parse => 0,
        Step::Fail(_) => 0,
    }
}

/// Nothing is tried twice: every step that is carried out brings the run
/// nearer to its end, so that a run is over once as many events were observed
/// as it had steps left; five are enough for any run.
pub proof fn lemma_run_ends(step: Step, events: Seq<Event>)
    requires
        events.len() >= steps_left(step),
    ensures
        over(step_after(step, events)),
        steps_left(step) <= 5,
        forall|event: Event| !over(step) ==> steps_left(#[trigger] next_step(step, event)) < steps_left(step),
    decreases events.len(),
{
    if over(step) {
        lemma_over_is_final(step, events);
    } else {
        lemma_run_ends(next_step(step, events.first()), events.drop_first());
    }
}

/// While the end of the process has not been observed the run is not over,
/// and one step alone does not end it unless the end of the process is
/// observed or the ending of the process was the step carried out.
pub proof fn lemma_pending_until_exit(step: Step, event: Event)
    requires
        process_pending(step),
    ensures
        !over(step),
        over(next_step(step, event)) ==> event is Exited || step is EndProcess,
        !(event is Exited || step is EndProcess) ==> process_pending(next_step(step, event)),
{
}

/// The ending of the process is carried out once: whatever it brings, the run
/// is over after it, with the error that led to it.
pub proof fn lemma_ending_is_not_repeated(error: ProcessError, event: Event, then: Seq<Event>)
    ensures
        next_step(Step::EndProcess(error), event) == Step::Fail(error),
        step_after(Step::EndProcess(error), seq![event] + then) == Step::Fail(error),
{
    let events = seq![event] + then;
    assert(events.first() == event);
    assert(events.drop_first() == then);
    lemma_over_is_final(Step::Fail(error), then);
}

/// Whether `event`, observed at `step`, shows that the process was dealt
/// with: the event says that the process has ended, or the step carried out
/// was the ending of the process.
pub open spec fn settles_process(step: Step, event: Event) -> bool {
    event is Exited || step is EndProcess
}

/// A run that holds a process whose end it has not observed is over only
/// after the process was dealt with: at one of the events the run was not yet
/// over, and that event says that the process has ended or reports on the
/// ending of the process.
pub proof fn lemma_pending_run_ends_after_exit(step: Step, events: Seq<Event>) -> (at: int)
    requires
        process_pending(step),
        over(step_after(step, events)),
    ensures
        0 <= at < events.len(),
        !over(step_after(step, events.take(at))),
        settles_process(step_after(step, events.take(at)), events[at]),
    decreases events.len(),
{
    if settles_process(step, events.first()) {
        assert(events.take(0) == Seq::<Event>::empty());
        0
    } else {
        let rest = events.drop_first();
        let at = lemma_pending_run_ends_after_exit(next_step(step, events.first()), rest);
        let head = events.take(at + 1);
        assert(head.first() == events.first());
        assert(head.drop_first() == rest.take(at));
        at + 1
    }
}

/// No process is left to itself. A run whose process was started is over only
/// after the wait or the ending of the process was carried out: among the
/// events after the start there is one up to which the run was not over, and
/// which says that the process has ended or reports on its ending.
pub proof fn lemma_process_ends_before_run(events: Seq<Event>)
    requires
        events.len() > 0,
        events[0] == Event::Spawned,
        over(step_after(Step::Spawn, events)),
    ensures
        exists|at: int|
            0 < at < events.len() && !over(step_after(Step::Spawn, events.take(at)))
                && settles_process(
                step_after(Step::Spawn, events.take(at)),
                #[trigger] events[at],
            ),
{
    let rest = events.drop_first();
    let found = lemma_pending_run_ends_after_exit(Step::OpenInput, rest);
    let at = found + 1;
    let head = events.take(at);
    assert(head.first() == events.first());
    assert(head.drop_first() == rest.take(found));
    assert(events[at] == rest[found]);
    assert(step_after(Step::Spawn, head) == step_after(Step::OpenInput, rest.take(found)));
}

} // verus!
