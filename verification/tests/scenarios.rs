use std::cell::Cell;
use std::rc::Rc;
use std::time::Instant;
use wait_for_them::options::parse;
use wait_for_them::scanner::{failures, RETRY_TIMEOUT};
use wait_for_them::{wait_for_them, Attempt, Event, Generator, Scan, Task, ToCheck, Wait};

/// Reports the reading of a clock that the test sets.
struct Clocked {
    clock: Rc<Cell<u64>>,
    ticks: usize,
}

impl Generator for Clocked {
    fn generate_tick(&mut self) {
        self.ticks += 1;
    }

    fn generate_error(&mut self) {}

    fn generate_start(&mut self) {}

    fn generate_success(&mut self) -> u64 {
        self.clock.get()
    }
}

/// How the attempts on one target are answered.
#[derive(Clone, Copy)]
enum World {
    /// Refused at once until the clock reads this, accepted from then on.
    ReadyAt(u64),
    /// Refused `delay` milliseconds after the attempt began, where it began
    /// before `at`; accepted `latency` milliseconds after it began, from
    /// `at` on.
    Slow { at: u64, delay: u64, latency: u64 },
    /// Refused at once, always.
    Refused,
    /// Never answered.
    Dropped,
}

/// Plays the waiting through on a clock of its own: every attempt and every
/// pause takes the time that the scan allows or the world needs, and the
/// reports come in the order of their time. Returns the clock reading at
/// which each target's waiting ended.
fn play<G: Generator>(scan: &mut Scan<G>, worlds: &[World], clock: &Rc<Cell<u64>>) -> Vec<u64> {
    let count = scan.len();
    assert_eq!(count, worlds.len());
    let mut next: Vec<Option<(u64, Event)>> = vec![Some((0, Event::Start)); count];
    let mut ended: Vec<u64> = vec![0; count];
    loop {
        let mut first: Option<usize> = None;
        for place in 0..count {
            if let Some((at, _)) = next[place] {
                if first.map_or(true, |other| at < next[other].unwrap().0) {
                    first = Some(place);
                }
            }
        }
        let place = match first {
            Some(place) => place,
            None => break,
        };
        let (now, event) = next[place].unwrap();
        clock.set(now);
        let task = scan.step(place, now, event).expect("the report fits");
        next[place] = match task {
            Task::Connect { within } | Task::Get { within } => match worlds[place] {
                World::ReadyAt(at) if at <= now => {
                    let found = match scan.get(place).unwrap().to_check() {
                        ToCheck::HostnameAndPort(_, _) => Attempt::Connected,
                        ToCheck::HttpOrHttpsUrl(_) => Attempt::Status(200),
                    };
                    Some((now, Event::Attempted(found)))
                }
                World::Slow { at, latency, .. } if at <= now => {
                    let found = match scan.get(place).unwrap().to_check() {
                        ToCheck::HostnameAndPort(_, _) => Attempt::Connected,
                        ToCheck::HttpOrHttpsUrl(_) => Attempt::Status(200),
                    };
                    Some((now + latency, Event::Attempted(found)))
                }
                World::Slow { delay, .. } => Some((now + delay, Event::Attempted(Attempt::Failed))),
                World::ReadyAt(_) | World::Refused => Some((now, Event::Attempted(Attempt::Failed))),
                World::Dropped => Some((now + within, Event::Attempted(Attempt::NoResponse))),
            },
            Task::Pause { millis } => Some((now + millis, Event::Paused)),
            Task::Done(_) => {
                ended[place] = now;
                None
            }
        };
    }
    assert!(scan.is_done());
    ended
}

fn clocked(targets: &[ToCheck], timeout: Option<u64>, clock: &Rc<Cell<u64>>) -> Scan<Clocked> {
    Scan::new(
        targets
            .iter()
            .map(|target| Wait::new(target.clone(), timeout, Clocked { clock: clock.clone(), ticks: 0 }))
            .collect(),
    )
}

fn args(words: &[&str]) -> Vec<String> {
    words.iter().map(|word| word.to_string()).collect()
}

/// What the program would exit with, without a command to start: the number
/// of targets that were not reached. Checks on the way what it would print.
fn exit_code(words: &[&str], worlds: &[World]) -> usize {
    let options = parse(args(words)).unwrap();
    let clock = Rc::new(Cell::new(0));
    let mut scan =
        wait_for_them(&options.to_check, options.timeout, Some(Instant::now()), options.silent);
    play(&mut scan, worlds, &clock);
    let results = scan.results();
    for place in 0..scan.len() {
        let lines = scan.get(place).unwrap().generator().lines();
        let target = options.to_check[place].to_string();
        if options.silent {
            assert!(lines.is_empty());
        } else if results[place].is_some() {
            assert_eq!(lines.len(), 1);
            assert!(lines[0].starts_with(&format!("Successfully connected to '{}' in ", target)));
        } else {
            assert_eq!(lines.len(), 1);
            assert!(lines[0].starts_with(&format!("Failed to connect to '{}' in ", target)));
        }
    }
    failures(&results)
}

#[test]
fn basic() {
    let worlds = [World::ReadyAt(10), World::ReadyAt(10)];
    assert_eq!(exit_code(&["localhost:4000", "http://localhost:4000/"], &worlds), 0);
}

#[test]
fn basic_timeout() {
    let worlds = [World::Refused, World::Refused];
    assert_eq!(
        exit_code(&["--timeout", "1000", "localhost:4001", "http://localhost:4000/"], &worlds),
        2
    );
}

#[test]
fn multiple() {
    let worlds = [World::ReadyAt(10), World::ReadyAt(15), World::ReadyAt(10), World::ReadyAt(15)];
    assert_eq!(
        exit_code(
            &[
                "--timeout",
                "10000",
                "localhost:4002",
                "localhost:4003",
                "http://localhost:4002/",
                "http://localhost:4003/",
            ],
            &worlds
        ),
        0
    );
}

#[test]
fn multiple_fail() {
    let worlds = [World::Refused; 4];
    assert_eq!(
        exit_code(
            &[
                "--timeout",
                "10000",
                "localhost:4004",
                "localhost:4005",
                "http://localhost:4004/",
                "http://localhost:4005/",
            ],
            &worlds
        ),
        4
    );
}

#[test]
fn basic_silent() {
    let worlds = [World::ReadyAt(10), World::ReadyAt(10)];
    assert_eq!(exit_code(&["localhost:4006", "http://localhost:4006/", "-s"], &worlds), 0);
}

#[test]
fn ip_address() {
    let worlds = [World::ReadyAt(10), World::ReadyAt(10)];
    assert_eq!(exit_code(&["127.0.0.1:4007", "http://127.0.0.1:4007/"], &worlds), 0);
}

#[test]
fn two_listeners_appear() {
    let targets = [
        ToCheck::HostnameAndPort("localhost".to_string(), 4002),
        ToCheck::HostnameAndPort("localhost".to_string(), 4003),
    ];
    let clock = Rc::new(Cell::new(0));
    let mut scan = clocked(&targets, Some(10000), &clock);
    let ended = play(&mut scan, &[World::ReadyAt(10), World::ReadyAt(15)], &clock);
    assert_eq!(scan.results(), vec![Some(100), Some(100)]);
    assert_eq!(ended, vec![100, 100]);
    assert_eq!(failures(&scan.results()), 0);
}

#[test]
fn no_listener_appears() {
    let targets = [ToCheck::HostnameAndPort("localhost".to_string(), 4001)];
    for world in [World::Refused, World::Dropped, World::ReadyAt(1001), World::ReadyAt(u64::MAX)] {
        let clock = Rc::new(Cell::new(0));
        let mut scan = clocked(&targets, Some(1000), &clock);
        let ended = play(&mut scan, &[world], &clock);
        assert_eq!(scan.results(), vec![None]);
        assert_eq!(ended, vec![1000]);
    }
}

#[test]
fn a_ready_target_is_seen_within_one_pause() {
    for ready_at in [0u64, 1, 10, 15, 99, 100, 101, 250, 999, 1000, 4321] {
        let targets = [ToCheck::HostnameAndPort("localhost".to_string(), 1)];
        let clock = Rc::new(Cell::new(0));
        let mut scan = clocked(&targets, None, &clock);
        let ended = play(&mut scan, &[World::ReadyAt(ready_at)], &clock);
        let expected = (ready_at + RETRY_TIMEOUT - 1) / RETRY_TIMEOUT * RETRY_TIMEOUT;
        assert_eq!(ended, vec![expected]);
        assert_eq!(scan.results(), vec![Some(expected)]);
        assert!(ready_at <= expected && expected < ready_at + RETRY_TIMEOUT);
        assert_eq!(scan.get(0).unwrap().generator().ticks as u64, expected / RETRY_TIMEOUT + 1);
    }
}

#[test]
fn a_target_that_is_ready_too_late_is_missed() {
    let targets = [ToCheck::HostnameAndPort("localhost".to_string(), 1)];
    let clock = Rc::new(Cell::new(0));
    let mut scan = clocked(&targets, Some(150), &clock);
    let ended = play(&mut scan, &[World::ReadyAt(120)], &clock);
    assert_eq!(scan.results(), vec![None]);
    assert_eq!(ended, vec![150]);

    let clock = Rc::new(Cell::new(0));
    let mut scan = clocked(&targets, Some(150), &clock);
    let ended = play(&mut scan, &[World::ReadyAt(100)], &clock);
    assert_eq!(scan.results(), vec![Some(100)]);
    assert_eq!(ended, vec![100]);
}

#[test]
fn an_unanswered_target_is_tried_again_without_pause() {
    let targets = [ToCheck::HttpOrHttpsUrl("http://10.255.255.1/".to_string())];
    let clock = Rc::new(Cell::new(0));
    let mut scan = clocked(&targets, Some(3500), &clock);
    let ended = play(&mut scan, &[World::Dropped], &clock);
    assert_eq!(ended, vec![3500]);
    assert_eq!(scan.results(), vec![None]);
    assert_eq!(scan.get(0).unwrap().generator().ticks, 4);
}

#[test]
fn a_slow_target_does_not_delay_a_fast_one() {
    let targets = [
        ToCheck::HostnameAndPort("slow".to_string(), 1),
        ToCheck::HostnameAndPort("fast".to_string(), 1),
    ];
    let clock = Rc::new(Cell::new(0));
    let mut scan = clocked(&targets, Some(10000), &clock);
    let ended = play(&mut scan, &[World::ReadyAt(5000), World::ReadyAt(10)], &clock);
    assert_eq!(scan.results(), vec![Some(5000), Some(100)]);
    assert_eq!(ended, vec![5000, 100]);

    let clock = Rc::new(Cell::new(0));
    let mut alone = clocked(&targets[1..], Some(10000), &clock);
    let ended = play(&mut alone, &[World::ReadyAt(10)], &clock);
    assert_eq!(alone.results(), vec![Some(100)]);
    assert_eq!(ended, vec![100]);
}

#[test]
fn a_failing_target_does_not_end_the_others() {
    let targets = [
        ToCheck::HostnameAndPort("never".to_string(), 1),
        ToCheck::HostnameAndPort("late".to_string(), 1),
        ToCheck::HttpOrHttpsUrl("http://dropped/".to_string()),
    ];
    let clock = Rc::new(Cell::new(0));
    let mut scan = clocked(&targets, Some(2000), &clock);
    let ended = play(&mut scan, &[World::Refused, World::ReadyAt(1850), World::Dropped], &clock);
    assert_eq!(scan.results(), vec![None, Some(1900), None]);
    assert_eq!(ended, vec![2000, 1900, 2000]);
    assert_eq!(failures(&scan.results()), 2);
}

#[test]
fn the_outcomes_follow_the_targets_in_any_order_of_readiness() {
    let names = ["a", "b", "c", "d"];
    let targets: Vec<ToCheck> =
        names.iter().map(|name| ToCheck::HostnameAndPort(name.to_string(), 1)).collect();
    let times = [300u64, 0, 200, 100];
    let orders: [[usize; 4]; 6] =
        [[0, 1, 2, 3], [3, 2, 1, 0], [1, 0, 3, 2], [2, 3, 0, 1], [0, 2, 1, 3], [3, 0, 1, 2]];
    for order in orders {
        let worlds: Vec<World> = order.iter().map(|&place| World::ReadyAt(times[place])).collect();
        let clock = Rc::new(Cell::new(0));
        let mut scan = clocked(&targets, Some(1000), &clock);
        play(&mut scan, &worlds, &clock);
        let expected: Vec<Option<u64>> = order.iter().map(|&place| Some(times[place])).collect();
        assert_eq!(scan.results(), expected);
        for place in 0..4 {
            assert_eq!(scan.get(place).unwrap().to_check(), &targets[place]);
        }
    }
}

#[test]
fn a_ready_target_is_reached_with_slow_answers() {
    let targets = [ToCheck::HostnameAndPort("localhost".to_string(), 1)];
    for (at, delay, latency) in
        [(0u64, 0u64, 0u64), (10, 0, 7), (10, 30, 7), (250, 40, 900), (999, 99, 1), (1000, 5, 0)]
    {
        for timeout in [None, Some(at + delay + RETRY_TIMEOUT)] {
            let clock = Rc::new(Cell::new(0));
            let mut scan = clocked(&targets, timeout, &clock);
            let ended = play(&mut scan, &[World::Slow { at, delay, latency }], &clock);
            assert!(scan.results()[0].is_some(), "{:?}", (at, delay, latency, timeout));
            assert_eq!(scan.results(), vec![Some(ended[0])]);
            assert!(at <= ended[0]);
            assert!(ended[0] < at + delay + RETRY_TIMEOUT + latency.max(1));
        }
    }
}

#[test]
fn a_timeout_without_room_for_a_pause_can_miss_the_target() {
    let targets = [ToCheck::HostnameAndPort("localhost".to_string(), 1)];
    let world = World::Slow { at: 131, delay: 30, latency: 0 };
    let clock = Rc::new(Cell::new(0));
    let mut scan = clocked(&targets, Some(131 + 30 + RETRY_TIMEOUT - 1), &clock);
    let ended = play(&mut scan, &[world], &clock);
    assert_eq!(scan.results(), vec![None]);
    assert_eq!(ended, vec![260]);

    let clock = Rc::new(Cell::new(0));
    let mut scan = clocked(&targets, Some(131 + 30 + RETRY_TIMEOUT), &clock);
    let ended = play(&mut scan, &[world], &clock);
    assert_eq!(scan.results(), vec![Some(260)]);
    assert_eq!(ended, vec![260]);
}
