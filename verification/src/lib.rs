//! Waiting for TCP endpoints and HTTP(S) services to become ready.
//!
//! The library holds the rules and leaves the network to its caller: it
//! validates targets and command lines, and it decides, for each target, what
//! to try next and when to give up. The caller performs each attempt and
//! reports how it ended.
//!
//! ```no_run
//! use wait_for_them::{wait_for_them, Attempt, Event, Task, ToCheck};
//!
//! let targets = [ToCheck::HostnameAndPort("localhost".into(), 8080)];
//! let start = std::time::Instant::now();
//! let mut scan = wait_for_them(&targets, Some(8000), Some(start), true);
//! let mut task = scan.step(0, 0, Event::Start);
//! while let Some(Task::Connect { within }) = task {
//!     // try to connect for at most `within` milliseconds, then report
//!     let now = start.elapsed().as_millis() as u64;
//!     task = scan.step(0, now, Event::Attempted(Attempt::Connected));
//! }
//! assert!(scan.results()[0].is_some());
//! ```

pub mod callbacks;
pub mod generator;
pub mod options;
pub mod scanner;
pub mod target;
pub mod text;
pub mod trace;

pub use generator::{Generator, Observer, ProgressGenerator, SilentGenerator};
pub use scanner::{Attempt, Event, Phase, Scan, Task, Wait};
pub use target::ToCheck;

use crate::generator::Hook;
use crate::scanner::Poll;
use std::time::Instant;
use vstd::prelude::*;

verus! {

/// The waiting for each of the targets, not yet begun.
///
/// # Arguments
///
/// * `hosts_ports_or_http_urls` - the targets
/// * `timeout` - `None` waits without end, `Some(..)` is the overall timeout
///   of each target in milliseconds
/// * `start_time` - the instant from which every generator measures elapsed
///   time; with `None` the clock is read once, and all measure from then
/// * `silent` - with `true` no generator keeps lines to print
///
/// # Returns
///
/// The `Scan` to hand the reports to. Its `results` are the outcomes, each at
/// the place of its target.
pub fn wait_for_them(
    hosts_ports_or_http_urls: &[ToCheck],
    timeout: Option<u64>,
    start_time: Option<Instant>,
    silent: bool,
) -> (r: Scan<Observer>)
    ensures
        r@.len() == hosts_ports_or_http_urls@.len(),
        forall|i: int|
            #![trigger r@[i]]
            #![trigger r.waits()[i]]
            0 <= i < r@.len() ==> {
                &&& r@[i] == Poll::fresh(
                    hosts_ports_or_http_urls@[i]@,
                    timeout,
                    Seq::<Hook>::empty(),
                )
                &&& silent ==> r.waits()[i].observer() is Silent
                &&& !silent ==> {
                    &&& r.waits()[i].observer() matches Observer::Progress(generator)
                    &&& generator.target() == hosts_ports_or_http_urls@[i]@
                    &&& generator.printed() == Seq::<Seq<char>>::empty()
                }
                &&& start_time matches Some(instant) ==> r.waits()[i].observer().since() == instant
            },
        forall|i: int, j: int|
            0 <= i < r@.len() && 0 <= j < r@.len() ==> (#[trigger] r.waits()[i]).observer().since()
                == (#[trigger] r.waits()[j]).observer().since(),
{
    let start_time: Instant = match start_time {
        Some(instant) => instant,
        None => Instant::now(),
    };
    if silent {
        scanner::wait_silent(hosts_ports_or_http_urls, timeout, start_time)
    } else {
        scanner::wait(hosts_ports_or_http_urls, timeout, start_time)
    }
}

} // verus!
