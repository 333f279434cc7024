use counter_bench::counter::{CounterSpec, HardwareEvent, SoftwareEvent};
use counter_bench::failure::{Failure, OpenError, RunError};
use counter_bench::kernels::bench_alu_ops;
use counter_bench::metrics::instructions_per_cycle;
use counter_bench::reading::{Counts, RawReading};
use counter_bench::report::standard_counters;
use counter_bench::session::{Action, Event, GroupSet, Phase};

/// Stands in for the operating system: hands out handles, keeps track of
/// what is open, and counts `10 * handle` events per counter and run.
struct Kernel {
    next_handle: u64,
    groups: Vec<Vec<u64>>,
    enabled: Option<usize>,
    runs: usize,
    log: Vec<Action>,
    /// Fail the action at this position of the log with this error number.
    fail_at: Option<(usize, i32)>,
    /// Leave the last counter out of every reading.
    drop_last_count: bool,
}

impl Kernel {
    fn new() -> Kernel {
        Kernel {
            next_handle: 100,
            groups: Vec::new(),
            enabled: None,
            runs: 0,
            log: Vec::new(),
            fail_at: None,
            drop_last_count: false,
        }
    }

    fn failing(position: usize, errno: i32) -> Kernel {
        let mut kernel = Kernel::new();
        kernel.fail_at = Some((position, errno));
        kernel
    }

    fn holds_nothing(&self) -> bool {
        self.groups.is_empty()
    }

    fn perform(&mut self, action: Action, workload: &dyn Fn()) -> Event {
        let position = self.log.len();
        self.log.push(action);
        if let Some((at, errno)) = self.fail_at {
            if at == position {
                return Event::Failed { errno };
            }
        }
        match action {
            Action::OpenGroup { group } => {
                assert_eq!(group, self.groups.len());
                self.groups.push(Vec::new());
                Event::Done
            }
            Action::OpenCounter { group, spec: _ } => {
                let handle = self.next_handle;
                self.next_handle += 1;
                self.groups[group].push(handle);
                Event::Opened { handle }
            }
            Action::Enable { group } => {
                assert_eq!(self.enabled, None);
                self.enabled = Some(group);
                Event::Done
            }
            Action::Invoke => {
                assert!(self.enabled.is_some());
                workload();
                self.runs += 1;
                Event::Done
            }
            Action::Disable { group } => {
                assert_eq!(self.enabled, Some(group));
                self.enabled = None;
                Event::Done
            }
            Action::Read { group } => {
                assert_eq!(self.enabled, None);
                let mut entries: Vec<(u64, u64)> =
                    self.groups[group].iter().map(|h| (*h, 10 * *h)).collect();
                if self.drop_last_count {
                    entries.pop();
                }
                Event::Read(RawReading { entries, time_enabled: 5_000, time_running: 5_000 })
            }
            Action::Release => {
                self.groups.clear();
                self.enabled = None;
                Event::Done
            }
        }
    }
}

/// Performs pending actions until none is left.
fn drive(set: &mut GroupSet, first: Option<Action>, kernel: &mut Kernel, workload: &dyn Fn()) {
    let mut pending = first;
    while let Some(action) = pending {
        assert_eq!(set.pending(), Some(action));
        let event = kernel.perform(action, workload);
        pending = set.step(event);
    }
    assert_eq!(set.pending(), None);
}

/// Opens, measures and releases, as one benchmark run does.
fn measure(specs: &Vec<CounterSpec>, kernel: &mut Kernel, workload: &dyn Fn()) -> GroupSet {
    let mut set = GroupSet::new(specs);
    let first = set.pending();
    drive(&mut set, first, kernel, workload);
    if set.phase() == Phase::Ready {
        let next = set.run();
        drive(&mut set, next, kernel, workload);
    }
    set
}

fn pairs_of(counts: &Counts) -> Vec<(CounterSpec, u64)> {
    (0..counts.len()).map(|i| counts.pair(i)).collect()
}

fn software_counters() -> Vec<CounterSpec> {
    vec![
        CounterSpec::Software(SoftwareEvent::TaskClock),
        CounterSpec::Software(SoftwareEvent::ContextSwitches),
        CounterSpec::Software(SoftwareEvent::CpuMigrations),
        CounterSpec::Software(SoftwareEvent::PageFaults),
    ]
}

#[test]
fn full_run_follows_the_protocol() {
    let specs = standard_counters();
    let mut kernel = Kernel::new();
    let set = measure(&specs, &mut kernel, &|| {});
    let mut script = vec![Action::OpenGroup { group: 0 }];
    for spec in &specs[..10] {
        script.push(Action::OpenCounter { group: 0, spec: *spec });
    }
    script.push(Action::OpenGroup { group: 1 });
    for spec in &specs[10..] {
        script.push(Action::OpenCounter { group: 1, spec: *spec });
    }
    for group in 0..2 {
        script.push(Action::Enable { group });
        script.push(Action::Invoke);
        script.push(Action::Disable { group });
        script.push(Action::Read { group });
    }
    script.push(Action::Release);
    assert_eq!(kernel.log, script);
    assert_eq!(set.phase(), Phase::Closed);
    assert_eq!(set.group_count(), 2);
    assert_eq!(set.invocations(), 2);
    assert_eq!(kernel.runs, 2);
    assert!(kernel.holds_nothing());
    let counts = set.outcome().unwrap().unwrap();
    // handles 100.. were given out in the order of the request
    let expected: Vec<(CounterSpec, u64)> =
        specs.iter().enumerate().map(|(i, s)| (*s, 10 * (100 + i as u64))).collect();
    assert_eq!(pairs_of(&counts), expected);
}

#[test]
fn merged_counts_hold_each_requested_event_once() {
    let cycles = CounterSpec::Hardware(HardwareEvent::CpuCycles);
    let clock = CounterSpec::Software(SoftwareEvent::TaskClock);
    let specs = vec![CounterSpec::Raw(7), cycles, clock, cycles, CounterSpec::Raw(7)];
    let mut kernel = Kernel::new();
    let set = measure(&specs, &mut kernel, &|| {});
    let counts = set.outcome().unwrap().unwrap();
    assert_eq!(counts.len(), 3);
    for spec in &specs {
        assert!(counts.get(*spec).is_some());
    }
    assert_eq!(
        pairs_of(&counts),
        vec![(cycles, 1_000), (clock, 1_010), (CounterSpec::Raw(7), 1_020)]
    );
    assert_eq!(counts.get(CounterSpec::Raw(8)), None);
}

#[test]
fn software_only_group_is_measured_in_one_pass() {
    let specs = software_counters();
    let mut kernel = Kernel::new();
    let iterations = std::cell::Cell::new(0u32);
    let set = measure(&specs, &mut kernel, &|| {
        for _ in 0..1_000 {
            iterations.set(iterations.get() + 1);
        }
    });
    assert_eq!(iterations.get(), 1_000);
    assert_eq!(set.group_count(), 1);
    assert_eq!(set.invocations(), 1);
    let counts = set.outcome().unwrap().unwrap();
    assert_eq!(counts.len(), 4);
    let task_clock = counts.get(CounterSpec::Software(SoftwareEvent::TaskClock));
    assert!(task_clock.unwrap() > 0);
    for spec in &specs {
        assert!(counts.get(*spec).is_some());
    }
}

#[test]
fn cycles_and_instructions_give_instructions_per_cycle() {
    let cycles = CounterSpec::Hardware(HardwareEvent::CpuCycles);
    let instructions = CounterSpec::Hardware(HardwareEvent::Instructions);
    let specs = vec![cycles, instructions];
    let mut kernel = Kernel::new();
    let sum = std::cell::Cell::new(0u64);
    let set = measure(&specs, &mut kernel, &|| {
        let units = [(); 10_000];
        sum.set(bench_alu_ops(&units));
    });
    // one addition of 3 per iteration
    assert_eq!(sum.get(), 30_000);
    let counts = set.outcome().unwrap().unwrap();
    let counted_cycles = counts.get(cycles).unwrap();
    let counted_instructions = counts.get(instructions).unwrap();
    assert_eq!((counted_cycles, counted_instructions), (1_000, 1_010));
    assert_eq!(instructions_per_cycle(counted_instructions, counted_cycles), Some(1_010));
    // at least one instruction per iteration, however many cycles that took
    assert_eq!(instructions_per_cycle(10_000, 2_500), Some(4_000));
    assert_eq!(instructions_per_cycle(10_000, 0), None);
}

#[test]
fn consecutive_runs_of_one_workload_agree() {
    let specs = standard_counters();
    let mut first_kernel = Kernel::new();
    let mut second_kernel = Kernel::new();
    let first = measure(&specs, &mut first_kernel, &|| {});
    let second = measure(&specs, &mut second_kernel, &|| {});
    assert_eq!(first_kernel.log, second_kernel.log);
    let a = first.outcome().unwrap().unwrap();
    let b = second.outcome().unwrap().unwrap();
    assert_eq!(pairs_of(&a), pairs_of(&b));
    let cycles = CounterSpec::Hardware(HardwareEvent::CpuCycles);
    let (x, y) = (a.get(cycles).unwrap(), b.get(cycles).unwrap());
    assert!(2 * x.abs_diff(y) < x.max(y));
}

#[test]
fn open_then_release_holds_nothing() {
    let specs = standard_counters();
    let mut kernel = Kernel::new();
    let mut set = GroupSet::new(&specs);
    let first = set.pending();
    drive(&mut set, first, &mut kernel, &|| {});
    assert_eq!(set.phase(), Phase::Ready);
    assert_eq!(kernel.groups.len(), 2);
    assert_eq!(kernel.groups[0].len() + kernel.groups[1].len(), 12);
    let next = set.release();
    assert_eq!(next, Some(Action::Release));
    drive(&mut set, next, &mut kernel, &|| {});
    assert_eq!(set.phase(), Phase::Closed);
    assert_eq!(set.invocations(), 0);
    assert_eq!(kernel.runs, 0);
    assert!(kernel.holds_nothing());
    assert_eq!(kernel.log.last(), Some(&Action::Release));
    let counts = set.outcome().unwrap().unwrap();
    assert_eq!(counts.len(), 0);
    // the same request can be opened again on the same kernel
    let mut again = GroupSet::new(&specs);
    let first = again.pending();
    drive(&mut again, first, &mut kernel, &|| {});
    assert_eq!(again.phase(), Phase::Ready);
    assert_eq!(kernel.groups.len(), 2);
}

#[test]
fn empty_request_is_ready_at_once() {
    let mut kernel = Kernel::new();
    let mut set = GroupSet::new(&Vec::new());
    assert_eq!(set.phase(), Phase::Ready);
    assert_eq!(set.pending(), None);
    assert_eq!(set.group_count(), 0);
    let next = set.run();
    assert_eq!(next, Some(Action::Release));
    drive(&mut set, next, &mut kernel, &|| {});
    assert_eq!(kernel.runs, 0);
    assert_eq!(set.outcome().unwrap().unwrap().len(), 0);
}

#[test]
fn failed_open_releases_what_was_opened() {
    // position 3 is the third counter of the first group
    let mut kernel = Kernel::failing(3, 2);
    let set = measure(&standard_counters(), &mut kernel, &|| {});
    assert_eq!(kernel.log.len(), 5);
    assert_eq!(kernel.log[4], Action::Release);
    assert!(kernel.holds_nothing());
    assert_eq!(kernel.runs, 0);
    assert_eq!(set.phase(), Phase::Closed);
    assert_eq!(set.outcome().unwrap().unwrap_err(), Failure::Open(OpenError::Unsupported));
}

#[test]
fn open_errors_are_told_apart_by_error_number() {
    let specs = software_counters();
    let cases = [
        (2, OpenError::Unsupported),
        (19, OpenError::Unsupported),
        (38, OpenError::Unsupported),
        (95, OpenError::Unsupported),
        (1, OpenError::PermissionDenied),
        (13, OpenError::PermissionDenied),
        (22, OpenError::Io(22)),
        (24, OpenError::Io(24)),
        (0, OpenError::Io(0)),
        (-1, OpenError::Io(-1)),
    ];
    for (errno, expected) in cases {
        // the group itself cannot be opened
        let mut kernel = Kernel::failing(0, errno);
        let set = measure(&specs, &mut kernel, &|| {});
        assert_eq!(kernel.log, vec![Action::OpenGroup { group: 0 }, Action::Release]);
        assert_eq!(set.outcome().unwrap().unwrap_err(), Failure::Open(expected));
        // the last counter cannot be opened
        let mut kernel = Kernel::failing(4, errno);
        let set = measure(&specs, &mut kernel, &|| {});
        assert_eq!(kernel.log.len(), 6);
        assert!(kernel.holds_nothing());
        assert_eq!(set.outcome().unwrap().unwrap_err(), Failure::Open(expected));
    }
}

#[test]
fn failed_enable_ends_the_run() {
    // 1 + 4 open actions, then the enable
    let mut kernel = Kernel::failing(5, 13);
    let set = measure(&software_counters(), &mut kernel, &|| {});
    assert_eq!(kernel.log[5], Action::Enable { group: 0 });
    assert_eq!(kernel.log[6], Action::Release);
    assert_eq!(kernel.log.len(), 7);
    assert_eq!(kernel.runs, 0);
    assert!(kernel.holds_nothing());
    // outside of opening, the error number is handed on as it is
    assert_eq!(set.outcome().unwrap().unwrap_err(), Failure::Run(RunError::Io(13)));
}

#[test]
fn failed_workload_disables_before_release() {
    let mut set = GroupSet::new(&software_counters());
    let mut kernel = Kernel::new();
    let first = set.pending();
    drive(&mut set, first, &mut kernel, &|| {});
    assert_eq!(set.run(), Some(Action::Enable { group: 0 }));
    assert_eq!(set.step(Event::Done), Some(Action::Invoke));
    assert_eq!(set.step(Event::Failed { errno: 4 }), Some(Action::Disable { group: 0 }));
    assert_eq!(set.phase(), Phase::Abort);
    // whatever the disable says, the release follows
    assert_eq!(set.step(Event::Failed { errno: 9 }), Some(Action::Release));
    assert_eq!(set.step(Event::Done), None);
    assert_eq!(set.phase(), Phase::Closed);
    assert_eq!(set.invocations(), 0);
    assert_eq!(set.outcome().unwrap().unwrap_err(), Failure::Run(RunError::Io(4)));
}

#[test]
fn failed_disable_and_failed_read_end_the_run() {
    let mut kernel = Kernel::failing(7, 5);
    let set = measure(&software_counters(), &mut kernel, &|| {});
    assert_eq!(kernel.log[7], Action::Disable { group: 0 });
    assert_eq!(kernel.log[8], Action::Release);
    assert_eq!(kernel.log.len(), 9);
    assert_eq!(set.invocations(), 1);
    assert_eq!(set.outcome().unwrap().unwrap_err(), Failure::Run(RunError::Io(5)));

    let mut kernel = Kernel::failing(8, 28);
    let set = measure(&software_counters(), &mut kernel, &|| {});
    assert_eq!(kernel.log[8], Action::Read { group: 0 });
    assert_eq!(kernel.log[9], Action::Release);
    assert_eq!(kernel.log.len(), 10);
    assert!(kernel.holds_nothing());
    assert_eq!(set.outcome().unwrap().unwrap_err(), Failure::Run(RunError::Io(28)));
}

#[test]
fn failure_in_the_second_group_discards_the_first() {
    // 14 open actions for the standard counters, 4 actions on the first
    // group, then the second group is enabled
    let mut kernel = Kernel::failing(14 + 4, 16);
    let set = measure(&standard_counters(), &mut kernel, &|| {});
    assert_eq!(kernel.log[18], Action::Enable { group: 1 });
    assert_eq!(kernel.log[19], Action::Release);
    assert_eq!(kernel.runs, 1);
    assert!(kernel.holds_nothing());
    assert_eq!(set.outcome().unwrap().unwrap_err(), Failure::Run(RunError::Io(16)));
}

#[test]
fn incomplete_reading_is_a_failure() {
    let mut kernel = Kernel::new();
    kernel.drop_last_count = true;
    let set = measure(&software_counters(), &mut kernel, &|| {});
    assert_eq!(kernel.log.last(), Some(&Action::Release));
    assert!(kernel.holds_nothing());
    assert_eq!(set.outcome().unwrap().unwrap_err(), Failure::Run(RunError::IncompleteReading));
}

#[test]
fn unfitting_event_ends_the_run() {
    let specs = software_counters();
    // a handle where none is expected
    let mut set = GroupSet::new(&specs);
    assert_eq!(set.pending(), Some(Action::OpenGroup { group: 0 }));
    assert_eq!(set.step(Event::Opened { handle: 1 }), Some(Action::Release));
    assert_eq!(set.step(Event::Done), None);
    assert_eq!(set.outcome().unwrap().unwrap_err(), Failure::Protocol);
    // no handle where one is expected
    let mut set = GroupSet::new(&specs);
    assert_eq!(
        set.step(Event::Done),
        Some(Action::OpenCounter { group: 0, spec: specs[0] })
    );
    assert_eq!(set.step(Event::Done), Some(Action::Release));
    assert_eq!(set.step(Event::Done), None);
    assert_eq!(set.outcome().unwrap().unwrap_err(), Failure::Protocol);
    // no reading where one is expected
    let mut set = GroupSet::new(&specs);
    let mut kernel = Kernel::new();
    let first = set.pending();
    drive(&mut set, first, &mut kernel, &|| {});
    assert_eq!(set.run(), Some(Action::Enable { group: 0 }));
    assert_eq!(set.step(Event::Done), Some(Action::Invoke));
    assert_eq!(set.step(Event::Done), Some(Action::Disable { group: 0 }));
    assert_eq!(set.step(Event::Done), Some(Action::Read { group: 0 }));
    assert_eq!(set.step(Event::Done), Some(Action::Release));
    assert_eq!(set.step(Event::Done), None);
    assert_eq!(set.outcome().unwrap().unwrap_err(), Failure::Protocol);
}

#[test]
fn nothing_is_shown_before_the_set_is_closed() {
    let set = GroupSet::new(&software_counters());
    assert!(set.outcome().is_none());
    let mut set = GroupSet::new(&software_counters());
    let mut kernel = Kernel::new();
    let first = set.pending();
    drive(&mut set, first, &mut kernel, &|| {});
    assert_eq!(set.phase(), Phase::Ready);
    assert!(set.outcome().is_none());
    let mut set = GroupSet::new(&software_counters());
    assert_eq!(set.step(Event::Failed { errno: 1 }), Some(Action::Release));
    assert_eq!(set.phase(), Phase::Release);
    assert!(set.outcome().is_none());
}

#[test]
fn requests_and_events_out_of_turn_change_nothing() {
    let mut set = GroupSet::new(&software_counters());
    // not ready yet: neither request does anything
    assert_eq!(set.run(), Some(Action::OpenGroup { group: 0 }));
    assert_eq!(set.release(), Some(Action::OpenGroup { group: 0 }));
    assert_eq!(set.phase(), Phase::OpenGroup);
    let mut kernel = Kernel::new();
    let first = set.pending();
    drive(&mut set, first, &mut kernel, &|| {});
    // ready: an event has no action to belong to
    assert_eq!(set.step(Event::Failed { errno: 1 }), None);
    assert_eq!(set.step(Event::Done), None);
    assert_eq!(set.phase(), Phase::Ready);
    let next = set.run();
    drive(&mut set, next, &mut kernel, &|| {});
    // closed: nothing moves any more
    assert_eq!(set.step(Event::Done), None);
    assert_eq!(set.run(), None);
    assert_eq!(set.release(), None);
    assert_eq!(set.phase(), Phase::Closed);
    assert_eq!(set.outcome().unwrap().unwrap().len(), 4);
}
