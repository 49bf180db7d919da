//! What holds of the waiting over any sequence of reports.

use crate::generator::{calls_since, no_end, Hook};
use crate::scanner::{
    outcomes, ready, scan_step, Attempt, Event, Phase, Poll, Stamp, Task, NO_RESPONSE_TIMEOUT,
    RETRY_TIMEOUT,
};
use crate::target::Target;
use vstd::prelude::*;

verus! {

/// The waiting for one target after the reports of `trace`, first to last.
/// The reports' `index` is not looked at.
pub open spec fn run(poll: Poll, trace: Seq<Stamp>) -> Poll
    decreases trace.len(),
{
    if trace.len() == 0 {
        poll
    } else {
        run(poll.step(trace[0].now, trace[0].event, trace[0].reported).0, trace.drop_first())
    }
}

/// The waiting for several targets after the reports of `trace`, first to
/// last.
pub open spec fn scan_run(polls: Seq<Poll>, trace: Seq<Stamp>) -> Seq<Poll>
    decreases trace.len(),
{
    if trace.len() == 0 {
        polls
    } else {
        scan_run(scan_step(polls, trace[0]), trace.drop_first())
    }
}

/// The reports of `trace` that name the target at `index`, in their order.
pub open spec fn addressed_to(trace: Seq<Stamp>, index: int) -> Seq<Stamp>
    decreases trace.len(),
{
    if trace.len() == 0 {
        Seq::empty()
    } else if trace[0].index == index {
        seq![trace[0]] + addressed_to(trace.drop_first(), index)
    } else {
        addressed_to(trace.drop_first(), index)
    }
}

/// A report changes neither the target nor the overall timeout, and once the
/// waiting has begun it does not change the start either.
pub proof fn lemma_step_keeps_target(poll: Poll, now: u64, event: Event, reported: u64)
    ensures
        poll.step(now, event, reported).0.target == poll.target,
        poll.step(now, event, reported).0.timeout == poll.timeout,
        poll.phase != Phase::Pending ==> poll.step(now, event, reported).0.started == poll.started,
{
}

/// No sequence of reports changes the target or the overall timeout.
pub proof fn lemma_run_keeps_target(poll: Poll, trace: Seq<Stamp>)
    ensures
        run(poll, trace).target == poll.target,
        run(poll, trace).timeout == poll.timeout,
    decreases trace.len(),
{
    if trace.len() > 0 {
        lemma_step_keeps_target(poll, trace[0].now, trace[0].event, trace[0].reported);
        lemma_run_keeps_target(
            poll.step(trace[0].now, trace[0].event, trace[0].reported).0,
            trace.drop_first(),
        );
    }
}

/// The turns that the waiting can take: from one phase to the next, or none.
pub open spec fn may_follow(before: Phase, after: Phase) -> bool {
    before == after || match before {
        Phase::Pending => after == Phase::Attempting || after == Phase::TimedOut,
        Phase::Attempting => after == Phase::Retrying || after == Phase::Succeeded || after
            == Phase::TimedOut,
        Phase::Retrying => after == Phase::Attempting || after == Phase::TimedOut,
        Phase::Succeeded => false,
        Phase::TimedOut => false,
    }
}

/// A report takes the waiting one turn on at most. Success comes from an
/// attempt only, and an outcome with success only.
pub proof fn lemma_step_takes_one_turn(poll: Poll, now: u64, event: Event, reported: u64)
    ensures
        may_follow(poll.phase, poll.step(now, event, reported).0.phase),
        poll.step(now, event, reported).1 is None ==> poll.step(now, event, reported).0 == poll,
        poll.step(now, event, reported).1 matches Some(Task::Done(outcome)) ==> {
            &&& poll.step(now, event, reported).0.finished()
            &&& !poll.finished()
            &&& outcome is Some <==> poll.step(now, event, reported).0.phase == Phase::Succeeded
            &&& outcome is Some ==> poll.step(now, event, reported).0.outcome == outcome
        },
        poll.step(now, event, reported).0.finished() && !poll.finished() ==> poll.step(
            now,
            event,
            reported,
        ).1 is Some && poll.step(now, event, reported).1->0 is Done,
{
}

/// The end is final: after it no report changes anything, and none is
/// answered with a task. The outcome is given once and never revised.
pub proof fn lemma_finished_stays(poll: Poll, trace: Seq<Stamp>)
    requires
        poll.finished(),
    ensures
        run(poll, trace) == poll,
        forall|now: u64, event: Event, reported: u64| #[trigger]
            poll.step(now, event, reported) == (poll, None::<Task>),
    decreases trace.len(),
{
    if trace.len() > 0 {
        lemma_finished_stays(poll, trace.drop_first());
    }
}

/// The order of the outcomes. Whatever is reported, for whichever targets
/// and in whatever order, the waiting at each place of the list is the
/// waiting for the target of that place, and it has seen the reports that
/// name it and no others. So the outcome at a place is the outcome of the
/// target at that place.
pub proof fn lemma_each_target_on_its_own(polls: Seq<Poll>, trace: Seq<Stamp>, index: int)
    requires
        0 <= index < polls.len(),
    ensures
        scan_run(polls, trace).len() == polls.len(),
        scan_run(polls, trace)[index] == run(polls[index], addressed_to(trace, index)),
        scan_run(polls, trace)[index].target == polls[index].target,
        outcomes(scan_run(polls, trace)).len() == polls.len(),
        outcomes(scan_run(polls, trace))[index] == run(
            polls[index],
            addressed_to(trace, index),
        ).outcome,
    decreases trace.len(),
{
    if trace.len() > 0 {
        let first = trace[0];
        let rest = trace.drop_first();
        lemma_each_target_on_its_own(scan_step(polls, first), rest, index);
        if first.index == index {
            let own = seq![first] + addressed_to(rest, index);
            assert(own[0] == first);
            assert(own.drop_first() =~= addressed_to(rest, index));
        }
    }
    lemma_run_keeps_target(polls[index], addressed_to(trace, index));
}

/// Independence. What is reported for the other targets, and when, makes no
/// difference to a target: a slow or failing target neither delays nor ends
/// the waiting for another.
pub proof fn lemma_other_targets_do_not_matter(
    polls: Seq<Poll>,
    one: Seq<Stamp>,
    other: Seq<Stamp>,
    index: int,
)
    requires
        0 <= index < polls.len(),
        addressed_to(one, index) == addressed_to(other, index),
    ensures
        scan_run(polls, one)[index] == scan_run(polls, other)[index],
        outcomes(scan_run(polls, one))[index] == outcomes(scan_run(polls, other))[index],
{
    lemma_each_target_on_its_own(polls, one, index);
    lemma_each_target_on_its_own(polls, other, index);
}

/// No attempt that `trace` reports has found the target ready.
pub open spec fn never_ready(target: Target, trace: Seq<Stamp>) -> bool {
    forall|k: int|
        0 <= k < trace.len() ==> match (#[trigger] trace[k]).event {
            Event::Attempted(attempt) => !ready(target, attempt),
            _ => true,
        }
}

/// The time that a task gives its caller before the next report is due.
pub open spec fn allowed(task: Task) -> nat {
    match task {
        Task::Connect { within } => within as nat,
        Task::Get { within } => within as nat,
        Task::Pause { millis } => millis as nat,
        Task::Done(_) => 0,
    }
}

/// Every report of `trace` that fits comes in time: not before the start, and
/// at most `slack` milliseconds after the task before it has ended. `due` is
/// the clock reading at which the task that is under way ends.
pub open spec fn punctual(poll: Poll, due: int, slack: nat, trace: Seq<Stamp>) -> bool
    decreases trace.len(),
{
    if trace.len() == 0 {
        true
    } else {
        let stamp = trace[0];
        let (next, task) = poll.step(stamp.now, stamp.event, stamp.reported);
        match task {
            None => punctual(poll, due, slack, trace.drop_first()),
            Some(asked) => (poll.phase != Phase::Pending ==> poll.started <= stamp.now <= due
                + slack) && punctual(next, stamp.now + allowed(asked), slack, trace.drop_first()),
        }
    }
}

/// The clock reading of the report that ended the waiting, if one of `trace`
/// did.
pub open spec fn ended_at(poll: Poll, trace: Seq<Stamp>) -> Option<u64>
    decreases trace.len(),
{
    if trace.len() == 0 {
        None
    } else {
        let next = poll.step(trace[0].now, trace[0].event, trace[0].reported).0;
        if next.finished() && !poll.finished() {
            Some(trace[0].now)
        } else {
            ended_at(next, trace.drop_first())
        }
    }
}

/// A target that is never ready, an overall timeout of `limit` milliseconds,
/// and reports that come at most `slack` milliseconds late. The waiting does
/// not succeed. Where a report ends it, it ends without an outcome, no earlier
/// than `limit` milliseconds after the start and no later than
/// `limit + slack`. With reports that are at most one attempt late, that is
/// the window from `limit` to `limit + NO_RESPONSE_TIMEOUT`; with reports on
/// time, it is `limit` exactly.
pub proof fn lemma_unready_target_times_out(
    poll: Poll,
    due: int,
    slack: nat,
    trace: Seq<Stamp>,
    limit: u64,
)
    requires
        poll.timeout == Some(limit),
        !poll.finished(),
        poll.outcome is None,
        poll.phase != Phase::Pending ==> due <= poll.started + limit,
        never_ready(poll.target, trace),
        punctual(poll, due, slack, trace),
    ensures
        run(poll, trace).phase != Phase::Succeeded,
        run(poll, trace).outcome is None,
        match ended_at(poll, trace) {
            Some(end) => {
                &&& run(poll, trace).phase == Phase::TimedOut
                &&& limit <= end - run(poll, trace).started <= limit + slack
            },
            None => !run(poll, trace).finished(),
        },
    decreases trace.len(),
{
    if trace.len() > 0 {
        let stamp = trace[0];
        let rest = trace.drop_first();
        let (next, task) = poll.step(stamp.now, stamp.event, stamp.reported);
        assert(trace[0] == stamp);
        assert forall|k: int| 0 <= k < rest.len() implies match (#[trigger] rest[k]).event {
            Event::Attempted(attempt) => !ready(poll.target, attempt),
            _ => true,
        } by {
            assert(rest[k] == trace[k + 1]);
        }
        if next.finished() {
            lemma_finished_stays(next, rest);
        } else {
            match task {
                None => {
                    lemma_unready_target_times_out(poll, due, slack, rest, limit);
                },
                Some(asked) => {
                    lemma_unready_target_times_out(
                        next,
                        stamp.now + allowed(asked),
                        slack,
                        rest,
                        limit,
                    );
                },
            }
        }
    }
}

/// A target that is never ready does not succeed, with or without an overall
/// timeout and whenever the reports come.
pub proof fn lemma_unready_target_never_succeeds(poll: Poll, trace: Seq<Stamp>)
    requires
        poll.phase != Phase::Succeeded,
        poll.outcome is None,
        never_ready(poll.target, trace),
    ensures
        run(poll, trace).phase != Phase::Succeeded,
        run(poll, trace).outcome is None,
    decreases trace.len(),
{
    if trace.len() > 0 {
        let rest = trace.drop_first();
        let next = poll.step(trace[0].now, trace[0].event, trace[0].reported).0;
        assert forall|k: int| 0 <= k < rest.len() implies match (#[trigger] rest[k]).event {
            Event::Attempted(attempt) => !ready(poll.target, attempt),
            _ => true,
        } by {
            assert(rest[k] == trace[k + 1]);
        }
        lemma_unready_target_never_succeeds(next, rest);
    }
}

/// Once the overall timeout has run out, the next report that fits ends the
/// waiting without an outcome, unless it is an attempt that found the target
/// ready.
pub proof fn lemma_deadline_ends_waiting(poll: Poll, now: u64, event: Event, reported: u64)
    requires
        poll.phase == Phase::Attempting || poll.phase == Phase::Retrying,
        poll.expired(now),
        poll.step(now, event, reported).1 is Some,
        match event {
            Event::Attempted(attempt) => !ready(poll.target, attempt),
            _ => true,
        },
    ensures
        poll.step(now, event, reported).0.phase == Phase::TimedOut,
        poll.step(now, event, reported).0.outcome == poll.outcome,
        poll.step(now, event, reported).1 == Some(Task::Done(None)),
{
}

/// Before the overall timeout has run out, no report ends the waiting in
/// vain, and every task leaves its caller some time, but never more than is
/// left of the overall timeout: an attempt at most `NO_RESPONSE_TIMEOUT`, a
/// pause at most `RETRY_TIMEOUT`. A pause follows a failed attempt only; an
/// attempt without an answer is followed by the next attempt at once.
pub proof fn lemma_tasks_keep_to_the_timeout(poll: Poll, now: u64, event: Event, reported: u64)
    requires
        poll.phase == Phase::Attempting || poll.phase == Phase::Retrying,
        !poll.expired(now),
        poll.started <= now,
    ensures
        poll.step(now, event, reported).0.phase != Phase::TimedOut,
        match poll.step(now, event, reported).1 {
            Some(Task::Connect { within }) => 0 < within <= NO_RESPONSE_TIMEOUT,
            Some(Task::Get { within }) => 0 < within <= NO_RESPONSE_TIMEOUT,
            Some(Task::Pause { millis }) => {
                &&& 0 < millis <= RETRY_TIMEOUT
                &&& event matches Event::Attempted(attempt)
                &&& attempt != Attempt::NoResponse
            },
            _ => true,
        },
        poll.step(now, event, reported).1 matches Some(asked) ==> (poll.timeout matches Some(limit)
            ==> now + allowed(asked) <= poll.step(now, event, reported).0.started + limit),
{
}

/// The clock reading from which a target that is ready from `ready_at` on
/// can be seen by a waiting: `ready_at`, or the start where that is later.
pub open spec fn seen_from(poll: Poll, ready_at: u64) -> int {
    if ready_at >= poll.started {
        ready_at as int
    } else {
        poll.started as int
    }
}

/// The reports of `trace` are those of a target that is ready from the clock
/// reading `ready_at` on. An attempt that began at or after `ready_at` finds
/// the target ready, and is answered at most `latency` milliseconds after it
/// began. An attempt that began before is refused, at most `delay`
/// milliseconds after it began. A pause ends no later than asked. `last` is
/// the clock reading of the report before: when the attempt under way began,
/// or when the pause under way was asked for.
pub open spec fn ready_from(
    poll: Poll,
    last: u64,
    ready_at: u64,
    delay: nat,
    latency: nat,
    trace: Seq<Stamp>,
) -> bool
    decreases trace.len(),
{
    if trace.len() == 0 {
        true
    } else {
        let stamp = trace[0];
        let (next, task) = poll.step(stamp.now, stamp.event, stamp.reported);
        if task is None {
            ready_from(poll, last, ready_at, delay, latency, trace.drop_first())
        } else {
            &&& match (poll.phase, stamp.event) {
                (Phase::Attempting, Event::Attempted(attempt)) => if last >= ready_at {
                    ready(poll.target, attempt) && last <= stamp.now <= last + latency
                } else {
                    attempt == Attempt::Failed && last <= stamp.now <= last + delay
                },
                (Phase::Retrying, Event::Paused) => last <= stamp.now <= last + poll.allowance(
                    last,
                    RETRY_TIMEOUT,
                ),
                _ => true,
            }
            &&& ready_from(next, stamp.now, ready_at, delay, latency, trace.drop_first())
        }
    }
}

/// A waiting that is under way, for a target that is ready from `ready_at`
/// on. Where the overall timeout leaves room for one refusal and one pause
/// after the target can be seen, the waiting does not end in vain, whatever
/// the times of the reports within their bounds. Where a report ends it, it
/// ends in success, no earlier than `ready_at` and less than `delay`, one
/// `RETRY_TIMEOUT` and `latency` after the target can be seen.
pub proof fn lemma_readiness_is_seen(
    poll: Poll,
    last: u64,
    ready_at: u64,
    delay: nat,
    latency: nat,
    trace: Seq<Stamp>,
)
    requires
        poll.phase == Phase::Attempting || poll.phase == Phase::Retrying,
        poll.outcome is None,
        poll.started <= last,
        ready_from(poll, last, ready_at, delay, latency, trace),
        poll.timeout matches Some(limit) ==> seen_from(poll, ready_at) + delay + RETRY_TIMEOUT
            <= poll.started + limit,
        poll.phase == Phase::Attempting && last >= ready_at ==> last < seen_from(poll, ready_at)
            + delay + RETRY_TIMEOUT,
        poll.phase == Phase::Retrying ==> last < ready_at + delay,
    ensures
        run(poll, trace).phase != Phase::TimedOut,
        match ended_at(poll, trace) {
            Some(end) => {
                &&& run(poll, trace).phase == Phase::Succeeded
                &&& run(poll, trace).outcome is Some
                &&& seen_from(poll, ready_at) <= end < seen_from(poll, ready_at) + delay
                    + RETRY_TIMEOUT + latency
            },
            None => !run(poll, trace).finished(),
        },
    decreases trace.len(),
{
    if trace.len() > 0 {
        let stamp = trace[0];
        let rest = trace.drop_first();
        let (next, task) = poll.step(stamp.now, stamp.event, stamp.reported);
        if task is None {
            lemma_readiness_is_seen(poll, last, ready_at, delay, latency, rest);
        } else if next.finished() {
            lemma_finished_stays(next, rest);
        } else {
            lemma_readiness_is_seen(next, stamp.now, ready_at, delay, latency, rest);
        }
    }
}

/// A target that becomes ready at the clock reading `ready_at`, and a waiting
/// that begins with the first report of `trace`. Attempts that began before
/// `ready_at` are refused within `delay` milliseconds, later ones find the
/// target ready within `latency` milliseconds, and no pause lasts longer than
/// asked. Where the overall timeout leaves room for one refusal and one pause
/// after the target can be seen, the waiting does not end in vain. Where a
/// report ends it, it ends in success, with the elapsed time that the
/// generator returns as its outcome, and that report comes no earlier than
/// the target can be seen and less than `delay`, one `RETRY_TIMEOUT` and
/// `latency` later.
pub proof fn lemma_ready_target_is_reached(
    poll: Poll,
    ready_at: u64,
    delay: nat,
    latency: nat,
    trace: Seq<Stamp>,
)
    requires
        poll.phase == Phase::Pending,
        poll.outcome is None,
        trace.len() > 0,
        trace[0].event == Event::Start,
        ready_from(poll, 0, ready_at, delay, latency, trace),
        poll.timeout matches Some(limit) ==> (if ready_at >= trace[0].now {
            ready_at - trace[0].now
        } else {
            0
        }) + delay + RETRY_TIMEOUT <= limit,
    ensures
        run(poll, trace).started == trace[0].now,
        run(poll, trace).phase != Phase::TimedOut,
        match ended_at(poll, trace) {
            Some(end) => {
                &&& run(poll, trace).phase == Phase::Succeeded
                &&& run(poll, trace).outcome is Some
                &&& seen_from(run(poll, trace), ready_at) <= end < seen_from(
                    run(poll, trace),
                    ready_at,
                ) + delay + RETRY_TIMEOUT + latency
            },
            None => !run(poll, trace).finished(),
        },
{
    let start = trace[0].now;
    let begun = poll.step(start, Event::Start, trace[0].reported).0;
    assert(begun.phase == Phase::Attempting && begun.started == start);
    lemma_readiness_is_seen(begun, start, ready_at, delay, latency, trace.drop_first());
    lemma_run_keeps_start(begun, trace.drop_first());
}

/// Among several targets, each that becomes ready in time is reached,
/// whatever is reported for the others and whenever: where the reports that
/// name the target at `index` are those of a target ready from `ready_at` on
/// and one of them ends its waiting, the outcome at `index` is `Some`, and
/// that report comes less than `delay`, one `RETRY_TIMEOUT` and `latency`
/// after the target can be seen. A slow target does not delay a fast one.
pub proof fn lemma_each_ready_target_is_reached(
    polls: Seq<Poll>,
    trace: Seq<Stamp>,
    index: int,
    ready_at: u64,
    delay: nat,
    latency: nat,
)
    requires
        0 <= index < polls.len(),
        polls[index].phase == Phase::Pending,
        polls[index].outcome is None,
        addressed_to(trace, index).len() > 0,
        addressed_to(trace, index)[0].event == Event::Start,
        ready_from(polls[index], 0, ready_at, delay, latency, addressed_to(trace, index)),
        polls[index].timeout matches Some(limit) ==> (if ready_at >= addressed_to(
            trace,
            index,
        )[0].now {
            ready_at - addressed_to(trace, index)[0].now
        } else {
            0
        }) + delay + RETRY_TIMEOUT <= limit,
        ended_at(polls[index], addressed_to(trace, index)) is Some,
    ensures
        outcomes(scan_run(polls, trace))[index] is Some,
        scan_run(polls, trace)[index].phase == Phase::Succeeded,
        scan_run(polls, trace)[index].target == polls[index].target,
        ({
            let end = ended_at(polls[index], addressed_to(trace, index))->0;
            let after = scan_run(polls, trace)[index];
            seen_from(after, ready_at) <= end < seen_from(after, ready_at) + delay + RETRY_TIMEOUT
                + latency
        }),
{
    lemma_each_target_on_its_own(polls, trace, index);
    lemma_ready_target_is_reached(
        polls[index],
        ready_at,
        delay,
        latency,
        addressed_to(trace, index),
    );
}

/// Once the waiting has begun, no sequence of reports changes its start.
pub proof fn lemma_run_keeps_start(poll: Poll, trace: Seq<Stamp>)
    requires
        poll.phase != Phase::Pending,
    ensures
        run(poll, trace).started == poll.started,
        run(poll, trace).phase != Phase::Pending,
    decreases trace.len(),
{
    if trace.len() > 0 {
        lemma_run_keeps_start(
            poll.step(trace[0].now, trace[0].event, trace[0].reported).0,
            trace.drop_first(),
        );
    }
}

/// `rounds` times: an attempt that fails at once, and the pause after it,
/// which lasts `RETRY_TIMEOUT`. The first attempt is answered at `at`.
pub open spec fn failed_rounds(at: int, rounds: nat) -> Seq<Stamp>
    decreases rounds,
{
    if rounds == 0 {
        Seq::empty()
    } else {
        seq![
            Stamp { index: 0, now: at as u64, event: Event::Attempted(Attempt::Failed), reported: 0 },
            Stamp { index: 0, now: (at + RETRY_TIMEOUT) as u64, event: Event::Paused, reported: 0 },
        ] + failed_rounds(at + RETRY_TIMEOUT, (rounds - 1) as nat)
    }
}

/// The reports of a waiting that begins at `start` and whose attempts are
/// answered at once: `rounds` of them fail, the next one ends as `last` says.
pub open spec fn prompt_trace(start: u64, rounds: nat, last: Attempt, reported: u64) -> Seq<Stamp> {
    seq![Stamp { index: 0, now: start, event: Event::Start, reported: 0 }] + failed_rounds(
        start as int,
        rounds,
    ) + seq![
        Stamp {
            index: 0,
            now: (start + rounds * RETRY_TIMEOUT) as u64,
            event: Event::Attempted(last),
            reported,
        },
    ]
}

proof fn lemma_run_one(poll: Poll, stamp: Stamp)
    ensures
        run(poll, seq![stamp]) == poll.step(stamp.now, stamp.event, stamp.reported).0,
{
    let trace = seq![stamp];
    assert(trace[0] == stamp);
    assert(trace.drop_first() =~= Seq::<Stamp>::empty());
    assert(run(poll.step(stamp.now, stamp.event, stamp.reported).0, trace.drop_first())
        == poll.step(stamp.now, stamp.event, stamp.reported).0);
}

proof fn lemma_run_concat(poll: Poll, a: Seq<Stamp>, b: Seq<Stamp>)
    ensures
        run(poll, a + b) == run(run(poll, a), b),
    decreases a.len(),
{
    if a.len() == 0 {
        assert(a + b =~= b);
    } else {
        assert((a + b)[0] == a[0]);
        assert((a + b).drop_first() =~= a.drop_first() + b);
        lemma_run_concat(poll.step(a[0].now, a[0].event, a[0].reported).0, a.drop_first(), b);
    }
}

proof fn lemma_failed_rounds(poll: Poll, at: int, rounds: nat)
    requires
        poll.phase == Phase::Attempting,
        poll.started <= at,
        at + rounds * RETRY_TIMEOUT <= u64::MAX,
        poll.timeout matches Some(limit) ==> at + rounds * RETRY_TIMEOUT - poll.started < limit,
    ensures
        run(poll, failed_rounds(at, rounds)).phase == Phase::Attempting,
        run(poll, failed_rounds(at, rounds)).started == poll.started,
        run(poll, failed_rounds(at, rounds)).outcome == poll.outcome,
    decreases rounds,
{
    if rounds > 0 {
        let trace = failed_rounds(at, rounds);
        let rest = failed_rounds(at + RETRY_TIMEOUT, (rounds - 1) as nat);
        assert(rounds * RETRY_TIMEOUT == (rounds - 1) * RETRY_TIMEOUT + RETRY_TIMEOUT)
            by (nonlinear_arith);
        assert((rounds - 1) * RETRY_TIMEOUT >= 0) by (nonlinear_arith)
            requires
                rounds >= 1,
        ;
        let fail = Stamp {
            index: 0,
            now: at as u64,
            event: Event::Attempted(Attempt::Failed),
            reported: 0,
        };
        let pause = Stamp {
            index: 0,
            now: (at + RETRY_TIMEOUT) as u64,
            event: Event::Paused,
            reported: 0,
        };
        let paused = poll.step(fail.now, fail.event, 0).0;
        assert(paused.phase == Phase::Retrying);
        let again = paused.step(pause.now, pause.event, 0).0;
        assert(again.phase == Phase::Attempting);
        assert(trace =~= seq![fail] + (seq![pause] + rest));
        lemma_run_concat(poll, seq![fail], seq![pause] + rest);
        lemma_run_one(poll, fail);
        lemma_run_concat(paused, seq![pause], rest);
        lemma_run_one(paused, pause);
        lemma_failed_rounds(again, at + RETRY_TIMEOUT, (rounds - 1) as nat);
    }
}

/// The clock reading at which the first attempt at or after `ready_at`
/// begins, where the waiting begins at `start`, every attempt before fails at
/// once and every pause lasts `RETRY_TIMEOUT`.
pub open spec fn first_attempt_from(start: u64, ready_at: u64) -> int {
    start + (ready_at - start + RETRY_TIMEOUT - 1) / (RETRY_TIMEOUT as int) * RETRY_TIMEOUT
}

/// A target that becomes ready at the clock reading `ready_at`. Where attempts
/// are answered at once, fail before `ready_at` and find the target ready from
/// then on, the waiting that begins at `start` ends in success, with the
/// elapsed time that the generator reports as its outcome. The report that
/// ends it comes less than one `RETRY_TIMEOUT` after `ready_at`. The overall
/// timeout, if there is one, must not have run out when that attempt begins.
pub proof fn lemma_ready_target_succeeds(
    poll: Poll,
    start: u64,
    ready_at: u64,
    last: Attempt,
    reported: u64,
) -> (end: u64)
    requires
        poll.phase == Phase::Pending,
        start <= ready_at,
        first_attempt_from(start, ready_at) <= u64::MAX,
        ready(poll.target, last),
        poll.timeout matches Some(limit) ==> first_attempt_from(start, ready_at) - start < limit,
    ensures
        end == first_attempt_from(start, ready_at),
        ready_at <= end < ready_at + RETRY_TIMEOUT,
        ({
            let trace = prompt_trace(
                start,
                ((end - start) / (RETRY_TIMEOUT as int)) as nat,
                last,
                reported,
            );
            &&& run(poll, trace).phase == Phase::Succeeded
            &&& run(poll, trace).outcome == Some(reported)
            &&& trace.last().now == end
            &&& ended_at(poll, trace) == Some(end)
        }),
{
    let rounds: nat = ((ready_at - start + RETRY_TIMEOUT - 1) / (RETRY_TIMEOUT as int)) as nat;
    let end: u64 = (start + rounds * RETRY_TIMEOUT) as u64;
    assert(ready_at <= start + rounds * RETRY_TIMEOUT < ready_at + RETRY_TIMEOUT);
    assert(((start + rounds * RETRY_TIMEOUT) - start) / (RETRY_TIMEOUT as int) == rounds);
    let first = seq![Stamp { index: 0, now: start, event: Event::Start, reported: 0 }];
    let middle = failed_rounds(start as int, rounds);
    let tail = seq![Stamp { index: 0, now: end, event: Event::Attempted(last), reported }];
    let trace = prompt_trace(start, rounds, last, reported);
    let begun = poll.step(start, Event::Start, 0).0;
    assert(begun.phase == Phase::Attempting && begun.started == start);
    lemma_run_one(poll, first[0]);
    assert(first =~= seq![first[0]]);
    lemma_failed_rounds(begun, start as int, rounds);
    let before = run(begun, middle);
    lemma_run_keeps_target(begun, middle);
    lemma_run_concat(poll, first, middle);
    assert(run(poll, first + middle) == before);
    assert(before.step(end, Event::Attempted(last), reported).0.phase == Phase::Succeeded);
    lemma_run_concat(poll, first + middle, tail);
    lemma_run_one(before, tail[0]);
    assert(tail =~= seq![tail[0]]);
    lemma_ended_at_last(poll, first + middle, tail[0]);
    assert(trace =~= first + middle + tail);
    assert(first + middle + tail =~= (first + middle).push(tail[0]));
    end
}

/// The reports of a waiting that begins at `start` with an overall timeout of
/// `limit` milliseconds, where every attempt is refused at once and every
/// pause lasts as long as asked.
pub open spec fn refused_trace(start: u64, limit: u64) -> Seq<Stamp> {
    let first = seq![Stamp { index: 0, now: start, event: Event::Start, reported: 0 }];
    if limit == 0 {
        first
    } else {
        let rounds = ((limit - 1) / (RETRY_TIMEOUT as int)) as nat;
        first + failed_rounds(start as int, rounds) + seq![
            Stamp {
                index: 0,
                now: (start + rounds * RETRY_TIMEOUT) as u64,
                event: Event::Attempted(Attempt::Failed),
                reported: 0,
            },
            Stamp { index: 0, now: (start + limit) as u64, event: Event::Paused, reported: 0 },
        ]
    }
}

/// A target that refuses every attempt at once. The waiting that begins at
/// `start` with an overall timeout of `limit` milliseconds does end: without
/// an outcome, and with the report that comes `limit` milliseconds after the
/// start.
pub proof fn lemma_refused_target_times_out(poll: Poll, start: u64, limit: u64)
    requires
        poll.phase == Phase::Pending,
        poll.outcome is None,
        poll.timeout == Some(limit),
        start + limit <= u64::MAX,
    ensures
        run(poll, refused_trace(start, limit)).phase == Phase::TimedOut,
        run(poll, refused_trace(start, limit)).outcome is None,
        ended_at(poll, refused_trace(start, limit)) == Some((start + limit) as u64),
{
    let first = seq![Stamp { index: 0, now: start, event: Event::Start, reported: 0 }];
    let trace = refused_trace(start, limit);
    let begun = poll.step(start, Event::Start, 0).0;
    lemma_run_one(poll, first[0]);
    assert(first =~= seq![first[0]]);
    if limit == 0 {
        assert(first =~= Seq::<Stamp>::empty().push(first[0]));
        lemma_ended_at_last(poll, Seq::empty(), first[0]);
    } else {
        let rounds = ((limit - 1) / (RETRY_TIMEOUT as int)) as nat;
        let at = start + rounds * RETRY_TIMEOUT;
        assert(rounds * RETRY_TIMEOUT < limit <= rounds * RETRY_TIMEOUT + RETRY_TIMEOUT);
        let middle = failed_rounds(start as int, rounds);
        let fail = Stamp {
            index: 0,
            now: at as u64,
            event: Event::Attempted(Attempt::Failed),
            reported: 0,
        };
        let pause = Stamp { index: 0, now: (start + limit) as u64, event: Event::Paused, reported: 0 };
        assert(begun.phase == Phase::Attempting && begun.started == start);
        lemma_failed_rounds(begun, start as int, rounds);
        lemma_run_keeps_target(begun, middle);
        lemma_run_concat(poll, first, middle);
        let before = run(begun, middle);
        assert(run(poll, first + middle) == before);
        let paused = before.step(fail.now, fail.event, 0).0;
        assert(paused.phase == Phase::Retrying);
        lemma_run_concat(poll, first + middle, seq![fail]);
        lemma_run_one(before, fail);
        assert(first + middle + seq![fail] =~= (first + middle).push(fail));
        assert(run(poll, (first + middle).push(fail)) == paused);
        assert(paused.step(pause.now, pause.event, 0).0.phase == Phase::TimedOut);
        lemma_ended_at_last(poll, (first + middle).push(fail), pause);
        lemma_run_concat(poll, (first + middle).push(fail), seq![pause]);
        lemma_run_one(paused, pause);
        assert(trace =~= (first + middle).push(fail).push(pause));
        assert((first + middle).push(fail) + seq![pause] =~= (first + middle).push(fail).push(
            pause,
        ));
    }
}

/// Where the waiting has not ended after `trace`, a further report that ends
/// it is the one that `ended_at` names.
proof fn lemma_ended_at_last(poll: Poll, trace: Seq<Stamp>, stamp: Stamp)
    requires
        !run(poll, trace).finished(),
        run(poll, trace).step(stamp.now, stamp.event, stamp.reported).0.finished(),
    ensures
        ended_at(poll, trace.push(stamp)) == Some(stamp.now),
    decreases trace.len(),
{
    let whole = trace.push(stamp);
    if trace.len() == 0 {
        assert(whole[0] == stamp);
    } else {
        assert(whole[0] == trace[0]);
        assert(whole.drop_first() =~= trace.drop_first().push(stamp));
        let next = poll.step(trace[0].now, trace[0].event, trace[0].reported).0;
        if poll.finished() {
            lemma_finished_stays(poll, trace);
        }
        if next.finished() {
            lemma_finished_stays(next, trace.drop_first());
        }
        lemma_ended_at_last(next, trace.drop_first(), stamp);
    }
}

/// The calls that the generator has had from one waiting fit where the
/// waiting stands: none before the start; then `Start` once, and `Tick` once
/// before each attempt; at the end `Success` once, with the outcome, or
/// `Error` once, and nothing after.
pub open spec fn calls_fit(calls: Seq<Hook>, phase: Phase, outcome: Option<u64>) -> bool {
    let n = calls.len() as int;
    match phase {
        Phase::Pending => n == 0 && outcome is None,
        Phase::Attempting | Phase::Retrying => {
            &&& n >= 2
            &&& calls[0] == Hook::Start
            &&& forall|i: int| 1 <= i < n ==> calls[i] == Hook::Tick
            &&& outcome is None
        },
        Phase::Succeeded => {
            &&& n >= 3
            &&& calls[0] == Hook::Start
            &&& forall|i: int| 1 <= i < n - 1 ==> calls[i] == Hook::Tick
            &&& outcome matches Some(elapsed)
            &&& calls[n - 1] == Hook::Success(elapsed)
        },
        Phase::TimedOut => {
            &&& n >= 2
            &&& calls[0] == Hook::Start
            &&& forall|i: int| 1 <= i < n - 1 ==> calls[i] == Hook::Tick
            &&& calls[n - 1] == Hook::Error
            &&& outcome is None
        },
    }
}

/// The calls of a waiting that has ended report one end, last: the success
/// with the outcome, or the failure.
pub proof fn lemma_calls_report_one_end(calls: Seq<Hook>, phase: Phase, outcome: Option<u64>)
    requires
        calls_fit(calls, phase, outcome),
        phase == Phase::Succeeded || phase == Phase::TimedOut,
    ensures
        calls.len() > 0,
        no_end(calls.drop_last()),
        phase == Phase::Succeeded ==> outcome is Some && calls.last() == Hook::Success(outcome->0),
        phase == Phase::TimedOut ==> outcome is None && calls.last() == Hook::Error,
{
    assert forall|i: int| 0 <= i < calls.drop_last().len() implies calls.drop_last()[i]
        == Hook::Start || calls.drop_last()[i] == Hook::Tick by {
        assert(calls.drop_last()[i] == calls[i]);
    }
}

/// One report keeps the generator's calls in order. `base` is the number of
/// calls that the generator had before this waiting.
pub proof fn lemma_step_keeps_calls_in_order(
    poll: Poll,
    base: nat,
    now: u64,
    event: Event,
    reported: u64,
)
    requires
        base <= poll.calls.len(),
        calls_fit(calls_since(poll.calls, base), poll.phase, poll.outcome),
    ensures
        base <= poll.step(now, event, reported).0.calls.len(),
        poll.step(now, event, reported).0.calls.subrange(0, base as int) == poll.calls.subrange(0, base as int),
        calls_fit(
            calls_since(poll.step(now, event, reported).0.calls, base),
            poll.step(now, event, reported).0.phase,
            poll.step(now, event, reported).0.outcome,
        ),
{
    let next = poll.step(now, event, reported).0;
    let before = calls_since(poll.calls, base);
    let after = calls_since(next.calls, base);
    assert(next.calls.subrange(0, base as int) =~= poll.calls.subrange(0, base as int));
    if next.calls == poll.calls {
        assert(after =~= before);
    } else if next.calls == poll.calls.push(next.calls.last()) {
        assert(after =~= before.push(next.calls.last()));
    } else {
        let started = poll.calls.push(Hook::Start);
        assert(next.calls == started.push(next.calls.last()));
        assert(after =~= before.push(Hook::Start).push(next.calls.last()));
    }
}

/// The order of the calls. From a waiting that has not begun, whatever is
/// reported: the generator is told of the start once and first, of each
/// attempt before it is made, and of the end once and last, with the outcome
/// where the end is a success. Its earlier calls stay as they were.
pub proof fn lemma_calls_in_order(poll: Poll, base: nat, trace: Seq<Stamp>)
    requires
        base <= poll.calls.len(),
        calls_fit(calls_since(poll.calls, base), poll.phase, poll.outcome),
    ensures
        base <= run(poll, trace).calls.len(),
        run(poll, trace).calls.subrange(0, base as int) == poll.calls.subrange(0, base as int),
        calls_fit(
            calls_since(run(poll, trace).calls, base),
            run(poll, trace).phase,
            run(poll, trace).outcome,
        ),
    decreases trace.len(),
{
    if trace.len() > 0 {
        lemma_step_keeps_calls_in_order(
            poll,
            base,
            trace[0].now,
            trace[0].event,
            trace[0].reported,
        );
        lemma_calls_in_order(
            poll.step(trace[0].now, trace[0].event, trace[0].reported).0,
            base,
            trace.drop_first(),
        );
    }
}

} // verus!
