//! Waiting for one target: what is tried, when, and how it ends.
//!
//! A `Wait` decides and its caller acts. The caller hands in what happened
//! and the clock's reading; the `Wait` answers with the next `Task`. A
//! `Generator` is told of each turn, so that progress can be shown.

use crate::generator::{
    calls_since, lemma_told_in_a_row, lemma_told_once, told_all, Generator, Hook, Observer,
    ProgressGenerator, SilentGenerator,
};
use crate::target::{Target, ToCheck};
use std::time::Instant;
use vstd::prelude::*;

verus! {

/// The pause after an attempt that failed, in milliseconds.
pub const RETRY_TIMEOUT: u64 = 100;

/// How long one attempt may stay without an answer, in milliseconds.
pub const NO_RESPONSE_TIMEOUT: u64 = 1000;

/// The status of an HTTP answer that makes a URL ready.
pub const STATUS_OK: u16 = 200;

/// Where the waiting for one target stands.
#[derive(Clone, Copy, Debug, PartialEq, Eq, Structural)]
pub enum Phase {
    /// Not begun.
    Pending,
    /// An attempt is under way.
    Attempting,
    /// The pause after a failed attempt is under way.
    Retrying,
    /// The target was ready. The end.
    Succeeded,
    /// The overall timeout ran out first. The end.
    TimedOut,
}

/// How one attempt ended.
#[derive(Clone, Copy, Debug, PartialEq, Eq)]
pub enum Attempt {
    /// No answer came within the time allowed.
    NoResponse,
    /// The connection or the request failed.
    Failed,
    /// The TCP connection was made.
    Connected,
    /// An HTTP answer came, with this status.
    Status(u16),
}

/// What the caller reports to a `Wait`.
#[derive(Clone, Copy, Debug, PartialEq, Eq)]
pub enum Event {
    /// The waiting may begin.
    Start,
    /// The attempt asked for has ended.
    Attempted(Attempt),
    /// The pause asked for is over.
    Paused,
}

/// What a `Wait` asks its caller to do next.
#[derive(Clone, Copy, Debug, PartialEq, Eq)]
pub enum Task {
    /// Connect to the host and port, and give up after `within`
    /// milliseconds; then report `Attempted`.
    Connect { within: u64 },
    /// Send a GET request to the URL, and give up after `within`
    /// milliseconds; then report `Attempted`.
    Get { within: u64 },
    /// Let `millis` milliseconds pass; then report `Paused`.
    Pause { millis: u64 },
    /// Nothing more: the outcome is the elapsed milliseconds at success, or
    /// `None` after the overall timeout.
    Done(Option<u64>),
}

/// The waiting for one target as a mathematical value.
pub struct Poll {
    pub target: Target,
    /// The overall timeout in milliseconds; `None` waits without end.
    pub timeout: Option<u64>,
    pub phase: Phase,
    /// The clock's reading at `Start`.
    pub started: u64,
    pub outcome: Option<u64>,
    /// The calls made to the generator, oldest first.
    pub calls: Seq<Hook>,
}

impl Poll {
    /// The waiting for `target` before it begins, with a generator that is
    /// at `calls`.
    pub open spec fn fresh(target: Target, timeout: Option<u64>, calls: Seq<Hook>) -> Poll {
        Poll { target, timeout, phase: Phase::Pending, started: 0, outcome: None, calls }
    }

    /// The waiting has ended.
    pub open spec fn finished(self) -> bool {
        self.phase == Phase::Succeeded || self.phase == Phase::TimedOut
    }

    /// The milliseconds from `Start` to `now`.
    pub open spec fn elapsed(self, now: u64) -> nat {
        if now >= self.started {
            (now - self.started) as nat
        } else {
            0
        }
    }

    /// The overall timeout has run out at `now`.
    pub open spec fn expired(self, now: u64) -> bool {
        match self.timeout {
            Some(limit) => self.elapsed(now) >= limit,
            None => false,
        }
    }

    /// The time that a wait begun at `now` may take: `most`, or what is left
    /// of the overall timeout if that is less.
    pub open spec fn allowance(self, now: u64, most: u64) -> u64 {
        match self.timeout {
            Some(limit) => if self.elapsed(now) >= limit {
                0
            } else if self.elapsed(now) + most <= limit {
                most
            } else {
                (limit - self.elapsed(now)) as u64
            },
            None => most,
        }
    }

    /// The attempt that suits the target, begun at `now`.
    pub open spec fn attempt(self, now: u64) -> Task {
        match self.target {
            Target::HostnameAndPort(_, _) => Task::Connect {
                within: self.allowance(now, NO_RESPONSE_TIMEOUT),
            },
            Target::HttpOrHttpsUrl(_) => Task::Get {
                within: self.allowance(now, NO_RESPONSE_TIMEOUT),
            },
        }
    }

    /// The waiting ends in vain.
    pub open spec fn give_up(self) -> (Poll, Option<Task>) {
        (
            Poll { phase: Phase::TimedOut, calls: self.calls.push(Hook::Error), ..self },
            Some(Task::Done(None)),
        )
    }

    /// The next attempt begins, unless the overall timeout has run out.
    pub open spec fn try_again(self, now: u64) -> (Poll, Option<Task>) {
        if self.expired(now) {
            self.give_up()
        } else {
            (
                Poll { phase: Phase::Attempting, calls: self.calls.push(Hook::Tick), ..self },
                Some(self.attempt(now)),
            )
        }
    }

    /// What `event` at `now` does: the waiting afterwards and the task asked
    /// for, or `None` where the event does not fit and changes nothing.
    /// `reported` is what the generator returns if success is reported.
    ///
    /// An attempt that made the target ready ends the waiting, even late. Any
    /// other turn ends it once the overall timeout has run out. An attempt
    /// without an answer is followed by the next at once, a failed one by a
    /// pause.
    pub open spec fn step(self, now: u64, event: Event, reported: u64) -> (Poll, Option<Task>) {
        match (self.phase, event) {
            (Phase::Pending, Event::Start) => Poll {
                started: now,
                calls: self.calls.push(Hook::Start),
                ..self
            }.try_again(now),
            (Phase::Attempting, Event::Attempted(attempt)) => if ready(self.target, attempt) {
                (
                    Poll {
                        phase: Phase::Succeeded,
                        outcome: Some(reported),
                        calls: self.calls.push(Hook::Success(reported)),
                        ..self
                    },
                    Some(Task::Done(Some(reported))),
                )
            } else if self.expired(now) {
                self.give_up()
            } else if attempt == Attempt::NoResponse {
                self.try_again(now)
            } else {
                (
                    Poll { phase: Phase::Retrying, ..self },
                    Some(Task::Pause { millis: self.allowance(now, RETRY_TIMEOUT) }),
                )
            },
            (Phase::Retrying, Event::Paused) => self.try_again(now),
            _ => (self, None),
        }
    }

    /// What the generator returned when it reported success, where it did.
    pub open spec fn reported(self) -> u64 {
        match self.outcome {
            Some(elapsed) => elapsed,
            None => 0,
        }
    }
}

/// Whether an attempt that ended so has found the target ready: a TCP
/// connection to a host and port, the status `STATUS_OK` from a URL.
pub open spec fn ready(target: Target, attempt: Attempt) -> bool {
    match target {
        Target::HostnameAndPort(_, _) => attempt == Attempt::Connected,
        Target::HttpOrHttpsUrl(_) => attempt == Attempt::Status(STATUS_OK),
    }
}

/// The waiting for one target.
pub struct Wait<G: Generator> {
    to_check: ToCheck,
    timeout: Option<u64>,
    generator: G,
    phase: Phase,
    started: u64,
    outcome: Option<u64>,
}

impl<G: Generator> View for Wait<G> {
    type V = Poll;

    closed spec fn view(&self) -> Poll {
        Poll {
            target: self.to_check@,
            timeout: self.timeout,
            phase: self.phase,
            started: self.started,
            outcome: self.outcome,
            calls: self.generator.calls(),
        }
    }
}

impl<G: Generator> Wait<G> {
    /// The waiting for `to_check`, not yet begun. `timeout` is the overall
    /// timeout in milliseconds; `None` waits without end.
    pub fn new(to_check: ToCheck, timeout: Option<u64>, generator: G) -> (r: Wait<G>)
        ensures
            r@ == Poll::fresh(to_check@, timeout, generator.calls()),
            r.observer() == generator,
    {
        Wait { to_check, timeout, generator, phase: Phase::Pending, started: 0, outcome: None }
    }

    /// The target.
    pub fn to_check(&self) -> (r: &ToCheck)
        ensures
            r@ == self@.target,
    {
        &self.to_check
    }

    /// The overall timeout in milliseconds.
    pub fn timeout(&self) -> (r: Option<u64>)
        ensures
            r == self@.timeout,
    {
        self.timeout
    }

    /// Where the waiting stands.
    pub fn phase(&self) -> (r: Phase)
        ensures
            r == self@.phase,
    {
        self.phase
    }

    /// The elapsed milliseconds at success; `None` before the end and after
    /// the overall timeout.
    pub fn outcome(&self) -> (r: Option<u64>)
        ensures
            r == self@.outcome,
    {
        self.outcome
    }

    /// The generator as it stands.
    pub closed spec fn observer(&self) -> G {
        self.generator
    }

    /// The generator.
    pub fn generator(&self) -> (r: &G)
        ensures
            *r == self.observer(),
            r.calls() == self@.calls,
    {
        &self.generator
    }

    /// Whether the waiting has ended.
    pub fn is_finished(&self) -> (r: bool)
        ensures
            r == self@.finished(),
    {
        match self.phase {
            Phase::Succeeded => true,
            Phase::TimedOut => true,
            _ => false,
        }
    }

    fn is_ready(&self, attempt: Attempt) -> (r: bool)
        ensures
            r == ready(self@.target, attempt),
    {
        match self.to_check {
            ToCheck::HostnameAndPort(_, _) => match attempt {
                Attempt::Connected => true,
                _ => false,
            },
            ToCheck::HttpOrHttpsUrl(_) => match attempt {
                Attempt::Status(status) => status == STATUS_OK,
                _ => false,
            },
        }
    }

    fn elapsed(&self, now: u64) -> (r: u64)
        ensures
            r == self@.elapsed(now),
    {
        if now >= self.started {
            now - self.started
        } else {
            0
        }
    }

    fn expired(&self, now: u64) -> (r: bool)
        ensures
            r == self@.expired(now),
    {
        match self.timeout {
            Some(limit) => self.elapsed(now) >= limit,
            None => false,
        }
    }

    fn allowance(&self, now: u64, most: u64) -> (r: u64)
        ensures
            r == self@.allowance(now, most),
    {
        match self.timeout {
            Some(limit) => {
                let elapsed: u64 = self.elapsed(now);
                if elapsed >= limit {
                    0
                } else if most <= limit - elapsed {
                    most
                } else {
                    limit - elapsed
                }
            },
            None => most,
        }
    }

    fn give_up(&mut self) -> (r: Option<Task>)
        ensures
            (final(self)@, r) == old(self)@.give_up(),
            old(self).observer().told(Hook::Error, &final(self).observer()),
    {
        self.generator.generate_error();
        self.phase = Phase::TimedOut;
        Some(Task::Done(None))
    }

    fn try_again(&mut self, now: u64) -> (r: Option<Task>)
        ensures
            (final(self)@, r) == old(self)@.try_again(now),
            old(self).observer().told(final(self)@.calls.last(), &final(self).observer()),
            final(self)@.calls == old(self)@.calls.push(final(self)@.calls.last()),
    {
        if self.expired(now) {
            self.give_up()
        } else {
            self.generator.generate_tick();
            self.phase = Phase::Attempting;
            let within: u64 = self.allowance(now, NO_RESPONSE_TIMEOUT);
            match self.to_check {
                ToCheck::HostnameAndPort(_, _) => Some(Task::Connect { within }),
                ToCheck::HttpOrHttpsUrl(_) => Some(Task::Get { within }),
            }
        }
    }

    /// Takes `event`, which the caller reports at the clock reading `now`
    /// (milliseconds, on a clock of the caller's choice), and says what to do
    /// next. `None` says that the event did not fit and changed nothing.
    ///
    /// The generator is told what the record of calls shows, in that order,
    /// and nothing else is done to it.
    pub fn step(&mut self, now: u64, event: Event) -> (r: Option<Task>)
        ensures
            (final(self)@, r) == old(self)@.step(now, event, final(self)@.reported()),
            told_all(
                old(self).observer(),
                calls_since(final(self)@.calls, old(self)@.calls.len()),
                final(self).observer(),
            ),
    {
        let ghost before = self.generator;
        let ghost since = self@.calls.len();
        let r = match self.phase {
            Phase::Pending => match event {
                Event::Start => {
                    self.generator.generate_start();
                    let ghost begun = self.generator;
                    self.started = now;
                    let r = self.try_again(now);
                    proof {
                        let last = self@.calls.last();
                        lemma_told_once(before, Hook::Start, begun);
                        lemma_told_once(begun, last, self.generator);
                        lemma_told_in_a_row(
                            before,
                            seq![Hook::Start],
                            begun,
                            seq![last],
                            self.generator,
                        );
                        assert(calls_since(self@.calls, since) =~= seq![Hook::Start] + seq![last]);
                    }
                    r
                },
                _ => None,
            },
            Phase::Attempting => match event {
                Event::Attempted(attempt) => {
                    if self.is_ready(attempt) {
                        let elapsed: u64 = self.generator.generate_success();
                        self.phase = Phase::Succeeded;
                        self.outcome = Some(elapsed);
                        proof {
                            lemma_told_once(before, Hook::Success(elapsed), self.generator);
                            assert(calls_since(self@.calls, since) =~= seq![Hook::Success(elapsed)]);
                        }
                        Some(Task::Done(Some(elapsed)))
                    } else if self.expired(now) {
                        let r = self.give_up();
                        proof {
                            lemma_told_once(before, Hook::Error, self.generator);
                            assert(calls_since(self@.calls, since) =~= seq![Hook::Error]);
                        }
                        r
                    } else {
                        match attempt {
                            Attempt::NoResponse => {
                                let r = self.try_again(now);
                                proof {
                                    lemma_told_once(before, Hook::Tick, self.generator);
                                    assert(calls_since(self@.calls, since) =~= seq![Hook::Tick]);
                                }
                                r
                            },
                            _ => {
                                self.phase = Phase::Retrying;
                                Some(Task::Pause { millis: self.allowance(now, RETRY_TIMEOUT) })
                            },
                        }
                    }
                },
                _ => None,
            },
            Phase::Retrying => match event {
                Event::Paused => {
                    let r = self.try_again(now);
                    proof {
                        let last = self@.calls.last();
                        lemma_told_once(before, last, self.generator);
                        assert(calls_since(self@.calls, since) =~= seq![last]);
                    }
                    r
                },
                _ => None,
            },
            _ => None,
        };
        proof {
            if self@.calls == old(self)@.calls {
                assert(calls_since(self@.calls, since) =~= Seq::<Hook>::empty());
            }
        }
        r
    }
}

/// The waiting for each target of a list as mathematical values, in the
/// order of the list.
pub open spec fn polls_of<G: Generator>(waits: Seq<Wait<G>>) -> Seq<Poll> {
    waits.map_values(|wait: Wait<G>| wait@)
}

/// The outcome of each waiting, in the same order.
pub open spec fn outcomes(polls: Seq<Poll>) -> Seq<Option<u64>> {
    polls.map_values(|poll: Poll| poll.outcome)
}

/// Every waiting has ended.
pub open spec fn all_finished(polls: Seq<Poll>) -> bool {
    forall|i: int| 0 <= i < polls.len() ==> (#[trigger] polls[i]).finished()
}

/// The waiting for several targets at once. Each target has a `Wait` of its
/// own, at the place that the target has in the list.
pub struct Scan<G: Generator> {
    waits: Vec<Wait<G>>,
}

impl<G: Generator> View for Scan<G> {
    type V = Seq<Poll>;

    open spec fn view(&self) -> Seq<Poll> {
        polls_of(self.waits())
    }
}

impl<G: Generator> Scan<G> {
    /// The waits, in the order of the targets.
    pub closed spec fn waits(&self) -> Seq<Wait<G>> {
        self.waits@
    }

    /// Takes the waits as they are, in their order.
    pub fn new(waits: Vec<Wait<G>>) -> (r: Scan<G>)
        ensures
            r.waits() == waits@,
    {
        Scan { waits }
    }

    /// The number of targets.
    pub fn len(&self) -> (r: usize)
        ensures
            r == self@.len(),
    {
        self.waits.len()
    }

    /// The waiting for the target at `index`.
    pub fn get(&self, index: usize) -> (r: Option<&Wait<G>>)
        ensures
            match r {
                Some(wait) => index < self@.len() && *wait == self.waits()[index as int],
                None => index >= self@.len(),
            },
    {
        if index < self.waits.len() {
            Some(&self.waits[index])
        } else {
            None
        }
    }

    /// Hands `event` to the waiting for the target at `index`, and to no
    /// other. `None` says that nothing changed: there is no such target, or
    /// the event did not fit.
    ///
    /// The waits of the other targets stay as they are, generators included.
    /// The generator of this target is told what its record of calls shows.
    pub fn step(&mut self, index: usize, now: u64, event: Event) -> (r: Option<Task>)
        ensures
            final(self)@ == scan_step(
                old(self)@,
                Stamp { index: index as int, now, event, reported: reported_at(final(self)@, index as int) },
            ),
            r == task_at(
                old(self)@,
                Stamp { index: index as int, now, event, reported: reported_at(final(self)@, index as int) },
            ),
            final(self).waits().len() == old(self).waits().len(),
            forall|other: int|
                0 <= other < old(self).waits().len() && other != index ==> final(self).waits()[other]
                    == old(self).waits()[other],
            index >= old(self).waits().len() ==> final(self).waits() == old(self).waits(),
            index < old(self).waits().len() ==> told_all(
                old(self).waits()[index as int].observer(),
                calls_since(final(self)@[index as int].calls, old(self)@[index as int].calls.len()),
                final(self).waits()[index as int].observer(),
            ),
    {
        if index >= self.waits.len() {
            return None;
        }
        let r = self.waits[index].step(now, event);
        assert(self@ =~= old(self)@.update(index as int, self@[index as int]));
        r
    }

    /// Whether every waiting has ended.
    pub fn is_done(&self) -> (r: bool)
        ensures
            r == all_finished(self@),
    {
        let n: usize = self.waits.len();
        let mut i: usize = 0;
        while i < n
            invariant
                i <= n == self.waits@.len(),
                forall|k: int| 0 <= k < i ==> (#[trigger] self@[k]).finished(),
            decreases n - i,
        {
            if !self.waits[i].is_finished() {
                assert(!self@[i as int].finished());
                return false;
            }
            i = i + 1;
        }
        true
    }

    /// The outcome of each target, at the target's place in the list: the
    /// elapsed milliseconds at success; `None` after the overall timeout, and
    /// before the end.
    pub fn results(&self) -> (r: Vec<Option<u64>>)
        ensures
            r@ == outcomes(self@),
    {
        let n: usize = self.waits.len();
        let mut r: Vec<Option<u64>> = Vec::new();
        let mut i: usize = 0;
        while i < n
            invariant
                i <= n == self.waits@.len(),
                r@.len() == i,
                forall|k: int| 0 <= k < i ==> r@[k] == self@[k].outcome,
            decreases n - i,
        {
            r.push(self.waits[i].outcome());
            i = i + 1;
        }
        assert(r@ =~= outcomes(self@));
        r
    }
}

/// One report: `event` for the target at `index`, at the clock reading `now`.
/// `reported` is what the target's generator returns if success is reported.
pub struct Stamp {
    pub index: int,
    pub now: u64,
    pub event: Event,
    pub reported: u64,
}

/// What one report does to the waiting for several targets: the target that it
/// names takes the event, and nothing else changes.
pub open spec fn scan_step(polls: Seq<Poll>, stamp: Stamp) -> Seq<Poll> {
    if 0 <= stamp.index < polls.len() {
        polls.update(
            stamp.index,
            polls[stamp.index].step(stamp.now, stamp.event, stamp.reported).0,
        )
    } else {
        polls
    }
}

/// The task that one report is answered with.
pub open spec fn task_at(polls: Seq<Poll>, stamp: Stamp) -> Option<Task> {
    if 0 <= stamp.index < polls.len() {
        polls[stamp.index].step(stamp.now, stamp.event, stamp.reported).1
    } else {
        None
    }
}

/// What the generator of the target at `index` returned when it reported
/// success, where there is such a target and it did.
pub open spec fn reported_at(polls: Seq<Poll>, index: int) -> u64 {
    if 0 <= index < polls.len() {
        polls[index].reported()
    } else {
        0
    }
}

/// The number of targets that were not reached.
pub open spec fn failures_in(results: Seq<Option<u64>>) -> nat
    decreases results.len(),
{
    if results.len() == 0 {
        0
    } else {
        failures_in(results.drop_last()) + if results.last() is None {
            1nat
        } else {
            0nat
        }
    }
}

/// Counts the targets that were not reached.
pub fn failures(results: &[Option<u64>]) -> (r: usize)
    ensures
        r == failures_in(results@),
{
    let n: usize = results.len();
    let mut count: usize = 0;
    let mut i: usize = 0;
    while i < n
        invariant
            i <= n == results@.len(),
            count <= i,
            count == failures_in(results@.subrange(0, i as int)),
        decreases n - i,
    {
        assert(results@.subrange(0, i + 1).drop_last() =~= results@.subrange(0, i as int));
        if results[i].is_none() {
            count = count + 1;
        }
        i = i + 1;
    }
    assert(results@.subrange(0, n as int) =~= results@);
    count
}

/// The waiting for each of the targets, each with a silent generator of its
/// own. All of them measure from `instant`.
pub fn wait_silent(hosts_ports_or_http_urls: &[ToCheck], timeout: Option<u64>, instant: Instant) -> (r:
    Scan<Observer>)
    ensures
        r@.len() == hosts_ports_or_http_urls@.len(),
        forall|i: int|
            #![trigger r@[i]]
            #![trigger r.waits()[i]]
            0 <= i < r@.len() ==> {
                &&& r@[i] == Poll::fresh(
                    hosts_ports_or_http_urls@[i]@,
                    timeout,
                    Seq::empty(),
                )
                &&& r.waits()[i].observer() is Silent
                &&& r.waits()[i].observer().since() == instant
            },
{
    let n: usize = hosts_ports_or_http_urls.len();
    let mut waits: Vec<Wait<Observer>> = Vec::new();
    let mut i: usize = 0;
    while i < n
        invariant
            i <= n == hosts_ports_or_http_urls@.len(),
            waits@.len() == i,
            forall|k: int|
                0 <= k < i ==> {
                    &&& (#[trigger] waits@[k])@ == Poll::fresh(
                        hosts_ports_or_http_urls@[k]@,
                        timeout,
                        Seq::empty(),
                    )
                    &&& waits@[k].observer() is Silent
                    &&& waits@[k].observer().since() == instant
                },
        decreases n - i,
    {
        let generator = Observer::Silent(SilentGenerator::new(instant));
        waits.push(Wait::new(hosts_ports_or_http_urls[i].clone(), timeout, generator));
        i = i + 1;
    }
    Scan::new(waits)
}

/// The waiting for each of the targets, each with a generator of its own that
/// reports the end in a line of text and names the target. All of them
/// measure from `instant`.
pub fn wait(hosts_ports_or_http_urls: &[ToCheck], timeout: Option<u64>, instant: Instant) -> (r:
    Scan<Observer>)
    ensures
        r@.len() == hosts_ports_or_http_urls@.len(),
        forall|i: int|
            #![trigger r@[i]]
            #![trigger r.waits()[i]]
            0 <= i < r@.len() ==> {
                &&& r@[i] == Poll::fresh(
                    hosts_ports_or_http_urls@[i]@,
                    timeout,
                    Seq::empty(),
                )
                &&& r.waits()[i].observer() matches Observer::Progress(generator)
                &&& generator.target() == hosts_ports_or_http_urls@[i]@
                &&& generator.since() == instant
                &&& generator.printed() == Seq::<Seq<char>>::empty()
            },
{
    let n: usize = hosts_ports_or_http_urls.len();
    let mut waits: Vec<Wait<Observer>> = Vec::new();
    let mut i: usize = 0;
    while i < n
        invariant
            i <= n == hosts_ports_or_http_urls@.len(),
            waits@.len() == i,
            forall|k: int|
                0 <= k < i ==> {
                    &&& (#[trigger] waits@[k])@ == Poll::fresh(
                        hosts_ports_or_http_urls@[k]@,
                        timeout,
                        Seq::empty(),
                    )
                    &&& waits@[k].observer() matches Observer::Progress(generator)
                    &&& generator.target() == hosts_ports_or_http_urls@[k]@
                    &&& generator.since() == instant
                    &&& generator.printed() == Seq::<Seq<char>>::empty()
                },
        decreases n - i,
    {
        let generator = Observer::Progress(
            ProgressGenerator::new(hosts_ports_or_http_urls[i].clone(), instant),
        );
        waits.push(Wait::new(hosts_ports_or_http_urls[i].clone(), timeout, generator));
        i = i + 1;
    }
    Scan::new(waits)
}

} // verus!
