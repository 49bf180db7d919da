//! Generators: what is told of the waiting for one target, and to whom.

use crate::callbacks::{failure_line, simple, success_line};
use crate::target::{Target, ToCheck};
use std::time::Instant;
use vstd::prelude::*;

verus! {

/// One call of a `Generator`.
pub enum Hook {
    /// `generate_start`.
    Start,
    /// `generate_tick`.
    Tick,
    /// `generate_success`, with the elapsed milliseconds that the call
    /// returned.
    Success(u64),
    /// `generate_error`.
    Error,
}

/// What is told of the waiting for one target. No call changes what the
/// `Wait` decides.
pub trait Generator {
    /// The calls made so far, oldest first. A generator that is verified
    /// keeps this record; one that is not has nothing to say here.
    open spec fn calls(&self) -> Seq<Hook> {
        Seq::empty()
    }

    /// What a call does to the generator besides the record of calls:
    /// whether the call `hook` can leave `next` behind. A generator that
    /// says nothing of itself allows everything.
    open spec fn told(&self, hook: Hook, next: &Self) -> bool {
        true
    }

    /// An attempt is about to be made.
    fn generate_tick(&mut self)
        ensures
            final(self).calls() == old(self).calls().push(Hook::Tick),
            old(self).told(Hook::Tick, final(self)),
    ;

    /// The waiting has ended in vain.
    fn generate_error(&mut self)
        ensures
            final(self).calls() == old(self).calls().push(Hook::Error),
            old(self).told(Hook::Error, final(self)),
    ;

    /// The waiting begins.
    fn generate_start(&mut self)
        ensures
            final(self).calls() == old(self).calls().push(Hook::Start),
            old(self).told(Hook::Start, final(self)),
    ;

    /// The target is ready. Returns the milliseconds that have passed since
    /// the start of the whole run.
    fn generate_success(&mut self) -> (elapsed: u64)
        ensures
            final(self).calls() == old(self).calls().push(Hook::Success(elapsed)),
            old(self).told(Hook::Success(elapsed), final(self)),
    ;
}

/// A generator goes from `from` to `to` by the calls `hooks`, in their order,
/// and by nothing else.
pub open spec fn told_all<G: Generator>(from: G, hooks: Seq<Hook>, to: G) -> bool
    decreases hooks.len(),
{
    if hooks.len() == 0 {
        from == to
    } else {
        exists|next: G| #[trigger] from.told(hooks[0], &next) && told_all(next, hooks.drop_first(), to)
    }
}

/// The calls so far without the first `from`: what has been added to a record
/// that was `from` calls long.
pub open spec fn calls_since(calls: Seq<Hook>, from: nat) -> Seq<Hook> {
    calls.subrange(from as int, calls.len() as int)
}

/// One call after another: what `first` and then `second` do, the two in a
/// row do.
pub proof fn lemma_told_in_a_row<G: Generator>(
    from: G,
    first: Seq<Hook>,
    between: G,
    second: Seq<Hook>,
    to: G,
)
    requires
        told_all(from, first, between),
        told_all(between, second, to),
    ensures
        told_all(from, first + second, to),
    decreases first.len(),
{
    if first.len() == 0 {
        assert(first + second =~= second);
    } else {
        let next = choose|next: G| #[trigger]
            from.told(first[0], &next) && told_all(next, first.drop_first(), between);
        lemma_told_in_a_row(next, first.drop_first(), between, second, to);
        assert((first + second)[0] == first[0]);
        assert((first + second).drop_first() =~= first.drop_first() + second);
    }
}

/// One call is a row of one.
pub proof fn lemma_told_once<G: Generator>(from: G, hook: Hook, to: G)
    requires
        from.told(hook, &to),
    ensures
        told_all(from, seq![hook], to),
{
    let hooks = seq![hook];
    assert(hooks[0] == hook);
    assert(hooks.drop_first() =~= Seq::<Hook>::empty());
    assert(told_all(to, hooks.drop_first(), to));
}

/// `std::time::Instant`, a reading of the clock. Nothing inside it is seen
/// here.
#[verifier::external_type_specification]
#[verifier::external_body]
pub struct ExInstant(std::time::Instant);

/// `Instant::elapsed` reads the clock: nothing is known of the result.
pub assume_specification[ std::time::Instant::elapsed ](instant: &Instant) -> (r:
    core::time::Duration)
;

/// `Instant::now` reads the clock: nothing is known of the result.
pub assume_specification[ std::time::Instant::now ]() -> (r: Instant)
;

/// `Duration::as_millis` gives the whole milliseconds of a duration that is
/// itself unknown here.
pub assume_specification[ core::time::Duration::as_millis ](duration: &core::time::Duration) -> (r:
    u128)
;

/// The low 64 bits of `millis`.
pub fn wrap_millis(millis: u128) -> (r: u64)
    ensures
        r == millis % 0x1_0000_0000_0000_0000,
{
    (millis % 0x1_0000_0000_0000_0000) as u64
}

/// The milliseconds since `instant`, as the clock has them now.
fn elapsed_millis(instant: &Instant) -> u64 {
    let duration: core::time::Duration = instant.elapsed();
    wrap_millis(duration.as_millis())
}

/// Says nothing; it only measures the time that success took.
pub struct SilentGenerator {
    instant: Instant,
    calls: Ghost<Seq<Hook>>,
}

impl SilentGenerator {
    /// A generator that measures from `instant`.
    pub fn new(instant: Instant) -> (r: SilentGenerator)
        ensures
            r.calls() == Seq::<Hook>::empty(),
            r.since() == instant,
    {
        SilentGenerator { instant, calls: Ghost(Seq::empty()) }
    }

    /// The instant from which the generator measures elapsed time.
    pub closed spec fn since(&self) -> Instant {
        self.instant
    }
}

impl Generator for SilentGenerator {
    closed spec fn calls(&self) -> Seq<Hook> {
        self.calls@
    }

    /// No call changes the instant from which the generator measures.
    open spec fn told(&self, hook: Hook, next: &Self) -> bool {
        next.since() == self.since()
    }

    fn generate_tick(&mut self) {
        self.calls = Ghost(self.calls@.push(Hook::Tick));
    }

    fn generate_error(&mut self) {
        self.calls = Ghost(self.calls@.push(Hook::Error));
    }

    fn generate_start(&mut self) {
        self.calls = Ghost(self.calls@.push(Hook::Start));
    }

    fn generate_success(&mut self) -> (elapsed: u64) {
        let elapsed: u64 = elapsed_millis(&self.instant);
        self.calls = Ghost(self.calls@.push(Hook::Success(elapsed)));
        elapsed
    }
}

/// Reports the end of the waiting in one line of text. The lines are kept
/// for the caller to print.
pub struct ProgressGenerator {
    to_check: ToCheck,
    instant: Instant,
    lines: Vec<String>,
    calls: Ghost<Seq<Hook>>,
}

impl ProgressGenerator {
    /// A generator for `to_check` that measures from `instant`.
    pub fn new(to_check: ToCheck, instant: Instant) -> (r: ProgressGenerator)
        ensures
            r.calls() == Seq::<Hook>::empty(),
            r.target() == to_check@,
            r.since() == instant,
            r.printed() == Seq::<Seq<char>>::empty(),
    {
        let r = ProgressGenerator { to_check, instant, lines: Vec::new(), calls: Ghost(Seq::empty()) };
        assert(r.printed() =~= Seq::<Seq<char>>::empty());
        r
    }

    /// The target that the lines name.
    pub closed spec fn target(&self) -> Target {
        self.to_check@
    }

    /// The instant from which the generator measures elapsed time.
    pub closed spec fn since(&self) -> Instant {
        self.instant
    }

    /// The lines so far, oldest first.
    pub closed spec fn printed(&self) -> Seq<Seq<char>> {
        self.lines@.map_values(|line: String| line@)
    }

    /// The lines so far, oldest first.
    pub fn lines(&self) -> (r: &Vec<String>)
        ensures
            r@.map_values(|line: String| line@) == self.printed(),
    {
        &self.lines
    }
}

impl Generator for ProgressGenerator {
    closed spec fn calls(&self) -> Seq<Hook> {
        self.calls@
    }

    /// The target stays, and so does the instant from which the generator
    /// measures. At the end one line is added: at success with the time that
    /// the call returns, at failure with the time that the clock shows. No
    /// other call adds a line.
    open spec fn told(&self, hook: Hook, next: &Self) -> bool {
        &&& next.target() == self.target()
        &&& next.since() == self.since()
        &&& match hook {
            Hook::Start => next.printed() == self.printed(),
            Hook::Tick => next.printed() == self.printed(),
            Hook::Success(elapsed) => next.printed() == self.printed().push(
                success_line(self.target().text(), elapsed as nat),
            ),
            Hook::Error => exists|millis: u64|
                next.printed() == self.printed().push(
                    #[trigger] failure_line(self.target().text(), millis as nat),
                ),
        }
    }

    fn generate_tick(&mut self) {
        self.calls = Ghost(self.calls@.push(Hook::Tick));
    }

    fn generate_error(&mut self) {
        let millis: u64 = elapsed_millis(&self.instant);
        let report = simple(self.to_check.to_string(), millis);
        let line: String = match report.error {
            Some(line) => line,
            None => String::new(),
        };
        let ghost before = self.lines@;
        self.lines.push(line);
        self.calls = Ghost(self.calls@.push(Hook::Error));
        proof {
            assert(self.lines@.map_values(|line: String| line@) =~= before.map_values(
                |line: String| line@,
            ).push(failure_line(self.to_check@.text(), millis as nat)));
        }
    }

    fn generate_start(&mut self) {
        self.calls = Ghost(self.calls@.push(Hook::Start));
    }

    fn generate_success(&mut self) -> (elapsed: u64) {
        let elapsed: u64 = elapsed_millis(&self.instant);
        let report = simple(self.to_check.to_string(), elapsed);
        let line: String = match report.success {
            Some(line) => line,
            None => String::new(),
        };
        let ghost before = self.lines@;
        self.lines.push(line);
        self.calls = Ghost(self.calls@.push(Hook::Success(elapsed)));
        proof {
            assert(self.lines@.map_values(|line: String| line@) =~= before.map_values(
                |line: String| line@,
            ).push(success_line(self.to_check@.text(), elapsed as nat)));
        }
        elapsed
    }
}

/// One of the generators of this library, for a list of waits that is
/// silent or not as its caller chooses.
pub enum Observer {
    Silent(SilentGenerator),
    Progress(ProgressGenerator),
}

impl Observer {
    /// The lines so far, oldest first. A silent generator has none.
    pub open spec fn printed(&self) -> Seq<Seq<char>> {
        match self {
            Observer::Silent(_) => Seq::empty(),
            Observer::Progress(generator) => generator.printed(),
        }
    }

    /// The lines so far, oldest first. A silent generator has none.
    pub fn lines(&self) -> (r: Vec<String>)
        ensures
            r@.map_values(|line: String| line@) == self.printed(),
    {
        match self {
            Observer::Silent(_) => {
                let r: Vec<String> = Vec::new();
                assert(r@.map_values(|line: String| line@) =~= Seq::<Seq<char>>::empty());
                r
            },
            Observer::Progress(generator) => {
                let lines = generator.lines();
                let n: usize = lines.len();
                let mut r: Vec<String> = Vec::new();
                let mut i: usize = 0;
                while i < n
                    invariant
                        i <= n == lines@.len(),
                        r@.len() == i,
                        forall|k: int| 0 <= k < i ==> r@[k]@ == lines@[k]@,
                    decreases n - i,
                {
                    r.push(lines[i].clone());
                    i = i + 1;
                }
                assert(r@.map_values(|line: String| line@) =~= lines@.map_values(
                    |line: String| line@,
                ));
                r
            },
        }
    }
}

impl Generator for Observer {
    open spec fn calls(&self) -> Seq<Hook> {
        match self {
            Observer::Silent(generator) => generator.calls(),
            Observer::Progress(generator) => generator.calls(),
        }
    }

    /// The kind of generator stays, and the call does what it does to that
    /// generator.
    open spec fn told(&self, hook: Hook, next: &Self) -> bool {
        match (self, next) {
            (Observer::Silent(before), Observer::Silent(after)) => before.told(hook, after),
            (Observer::Progress(before), Observer::Progress(after)) => before.told(hook, after),
            _ => false,
        }
    }

    fn generate_tick(&mut self) {
        match self {
            Observer::Silent(generator) => generator.generate_tick(),
            Observer::Progress(generator) => generator.generate_tick(),
        }
    }

    fn generate_error(&mut self) {
        match self {
            Observer::Silent(generator) => generator.generate_error(),
            Observer::Progress(generator) => generator.generate_error(),
        }
    }

    fn generate_start(&mut self) {
        match self {
            Observer::Silent(generator) => generator.generate_start(),
            Observer::Progress(generator) => generator.generate_start(),
        }
    }

    fn generate_success(&mut self) -> (elapsed: u64) {
        match self {
            Observer::Silent(generator) => generator.generate_success(),
            Observer::Progress(generator) => generator.generate_success(),
        }
    }
}

impl Observer {
    /// The instant from which the generator measures elapsed time.
    pub open spec fn since(&self) -> Instant {
        match self {
            Observer::Silent(generator) => generator.since(),
            Observer::Progress(generator) => generator.since(),
        }
    }

    /// The target that the lines name, where the generator keeps lines.
    pub open spec fn target(&self) -> Option<Target> {
        match self {
            Observer::Silent(_) => None,
            Observer::Progress(generator) => Some(generator.target()),
        }
    }
}

/// None of the calls reports an end: each is `Start` or `Tick`.
pub open spec fn no_end(hooks: Seq<Hook>) -> bool {
    forall|i: int| 0 <= i < hooks.len() ==> hooks[i] == Hook::Start || hooks[i] == Hook::Tick
}

/// A row of calls is its beginning and then its rest.
pub proof fn lemma_told_in_two<G: Generator>(from: G, first: Seq<Hook>, second: Seq<Hook>, to: G) -> (between:
    G)
    requires
        told_all(from, first + second, to),
    ensures
        told_all(from, first, between),
        told_all(between, second, to),
    decreases first.len(),
{
    if first.len() == 0 {
        assert(first + second =~= second);
        from
    } else {
        let whole = first + second;
        assert(whole[0] == first[0]);
        assert(whole.drop_first() =~= first.drop_first() + second);
        let next = choose|next: G| #[trigger]
            from.told(whole[0], &next) && told_all(next, whole.drop_first(), to);
        lemma_told_in_two(next, first.drop_first(), second, to)
    }
}

/// No call changes the instant from which a generator measures: whatever it
/// is told, and how often, the elapsed time that it returns at success is
/// counted from the instant that it was made with.
pub proof fn lemma_instant_stays(from: Observer, hooks: Seq<Hook>, to: Observer)
    requires
        told_all(from, hooks, to),
    ensures
        to.since() == from.since(),
        to.target() == from.target(),
    decreases hooks.len(),
{
    if hooks.len() > 0 {
        let next = choose|next: Observer| #[trigger]
            from.told(hooks[0], &next) && told_all(next, hooks.drop_first(), to);
        lemma_instant_stays(next, hooks.drop_first(), to);
    }
}

/// Calls that report no end add no line: a silent generator stays silent,
/// and one that keeps lines keeps its target and the lines that it had.
pub proof fn lemma_no_line_before_the_end(from: Observer, hooks: Seq<Hook>, to: Observer)
    requires
        told_all(from, hooks, to),
        no_end(hooks),
    ensures
        to.target() == from.target(),
        to.printed() == from.printed(),
    decreases hooks.len(),
{
    if hooks.len() > 0 {
        let next = choose|next: Observer| #[trigger]
            from.told(hooks[0], &next) && told_all(next, hooks.drop_first(), to);
        assert(hooks[0] == Hook::Start || hooks[0] == Hook::Tick);
        assert forall|i: int| 0 <= i < hooks.drop_first().len() implies hooks.drop_first()[i]
            == Hook::Start || hooks.drop_first()[i] == Hook::Tick by {
            assert(hooks.drop_first()[i] == hooks[i + 1]);
        }
        lemma_no_line_before_the_end(next, hooks.drop_first(), to);
    }
}

/// The lines of a waiting. Where the calls are `Start` and `Tick` and then
/// one call that reports the end, a generator that keeps lines has one line
/// more than before: at success the line that names its target and the
/// elapsed time of the outcome, at failure the line that names its target
/// and the time that its clock showed. A silent generator has no line.
pub proof fn lemma_one_line_at_the_end(from: Observer, hooks: Seq<Hook>, to: Observer)
    requires
        told_all(from, hooks, to),
        hooks.len() > 0,
        no_end(hooks.drop_last()),
    ensures
        to.target() == from.target(),
        from.target() is None ==> to.printed() == Seq::<Seq<char>>::empty(),
        from.target() matches Some(target) ==> match hooks.last() {
            Hook::Success(elapsed) => to.printed() == from.printed().push(
                success_line(target.text(), elapsed as nat),
            ),
            Hook::Error => exists|millis: u64|
                to.printed() == from.printed().push(
                    #[trigger] failure_line(target.text(), millis as nat),
                ),
            _ => to.printed() == from.printed(),
        },
{
    let last = seq![hooks.last()];
    assert(hooks =~= hooks.drop_last() + last);
    let between = lemma_told_in_two(from, hooks.drop_last(), last, to);
    lemma_no_line_before_the_end(from, hooks.drop_last(), between);
    assert(last[0] == hooks.last());
    let next = choose|next: Observer| #[trigger]
        between.told(last[0], &next) && told_all(next, last.drop_first(), to);
    assert(last.drop_first() =~= Seq::<Hook>::empty());
    assert(next == to);
}

} // verus!
