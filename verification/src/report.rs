//! The counters of a benchmark run, what is derived from them, and the
//! report that shows both.

use crate::counter::{CacheOp, CacheResult, CounterSpec, HardwareEvent, SoftwareEvent, WhichCache};
use crate::metrics::{frequency_ghz, instructions_per_cycle, percentage, rate_per_sec};
use crate::metrics::{nearest, ratio, ratio_value, task_clock_msec};
use crate::metrics::{NANOS_PER_CENTI_MSEC, PERCENT, PER_SECOND, THOUSANDTHS};
use crate::reading::Counts;
use crate::text::{fixed_point, grouped, pad_left, pad_right};
use crate::text::{grouped_text, push_fixed_point, push_padded_left, push_padded_right};
use vstd::prelude::*;
use vstd::string::*;

verus! {

/// Raw event code: accesses to the second-level cache caused by misses in
/// the first-level data cache.
pub const L2_ACCESSES_FROM_L1_MISSES: u64 = 0xc860;

/// Raw event code: hits in the second-level cache among those accesses.
pub const L2_HITS_FROM_L1_MISSES: u64 = 0x7064;

pub open spec fn task_clock() -> CounterSpec {
    CounterSpec::Software(SoftwareEvent::TaskClock)
}

pub open spec fn context_switches() -> CounterSpec {
    CounterSpec::Software(SoftwareEvent::ContextSwitches)
}

pub open spec fn cpu_migrations() -> CounterSpec {
    CounterSpec::Software(SoftwareEvent::CpuMigrations)
}

pub open spec fn page_faults() -> CounterSpec {
    CounterSpec::Software(SoftwareEvent::PageFaults)
}

pub open spec fn cycles() -> CounterSpec {
    CounterSpec::Hardware(HardwareEvent::CpuCycles)
}

pub open spec fn instructions() -> CounterSpec {
    CounterSpec::Hardware(HardwareEvent::Instructions)
}

pub open spec fn cache_accesses() -> CounterSpec {
    CounterSpec::Hardware(HardwareEvent::CacheReferences)
}

pub open spec fn l1_loads() -> CounterSpec {
    CounterSpec::Cache {
        which: WhichCache::L1d,
        operation: CacheOp::Read,
        result: CacheResult::Access,
    }
}

pub open spec fn l1_misses() -> CounterSpec {
    CounterSpec::Cache {
        which: WhichCache::L1d,
        operation: CacheOp::Read,
        result: CacheResult::Miss,
    }
}

pub open spec fn l1_prefetches() -> CounterSpec {
    CounterSpec::Cache {
        which: WhichCache::L1d,
        operation: CacheOp::Prefetch,
        result: CacheResult::Access,
    }
}

pub open spec fn l2_accesses() -> CounterSpec {
    CounterSpec::Raw(L2_ACCESSES_FROM_L1_MISSES)
}

pub open spec fn l2_hits() -> CounterSpec {
    CounterSpec::Raw(L2_HITS_FROM_L1_MISSES)
}

/// The events that a benchmark run counts, in the order of the report.
pub open spec fn standard_specs() -> Seq<CounterSpec> {
    seq![
        task_clock(),
        context_switches(),
        cpu_migrations(),
        page_faults(),
        cycles(),
        instructions(),
        cache_accesses(),
        l1_loads(),
        l1_misses(),
        l1_prefetches(),
        l2_accesses(),
        l2_hits(),
    ]
}

/// The events that a benchmark run counts, in the order of the report.
pub fn standard_counters() -> (specs: Vec<CounterSpec>)
    ensures
        specs@ == standard_specs(),
{
    let mut specs: Vec<CounterSpec> = Vec::new();
    specs.push(CounterSpec::Software(SoftwareEvent::TaskClock));
    specs.push(CounterSpec::Software(SoftwareEvent::ContextSwitches));
    specs.push(CounterSpec::Software(SoftwareEvent::CpuMigrations));
    specs.push(CounterSpec::Software(SoftwareEvent::PageFaults));
    specs.push(CounterSpec::Hardware(HardwareEvent::CpuCycles));
    specs.push(CounterSpec::Hardware(HardwareEvent::Instructions));
    specs.push(CounterSpec::Hardware(HardwareEvent::CacheReferences));
    specs.push(
        CounterSpec::Cache {
            which: WhichCache::L1d,
            operation: CacheOp::Read,
            result: CacheResult::Access,
        },
    );
    specs.push(
        CounterSpec::Cache {
            which: WhichCache::L1d,
            operation: CacheOp::Read,
            result: CacheResult::Miss,
        },
    );
    specs.push(
        CounterSpec::Cache {
            which: WhichCache::L1d,
            operation: CacheOp::Prefetch,
            result: CacheResult::Access,
        },
    );
    specs.push(CounterSpec::Raw(L2_ACCESSES_FROM_L1_MISSES));
    specs.push(CounterSpec::Raw(L2_HITS_FROM_L1_MISSES));
    proof {
        assert(specs@ =~= standard_specs());
    }
    specs
}

/// The raw counts of one named benchmark run.
#[derive(Debug)]
pub struct BenchmarkResult {
    pub name: String,
    pub task_clock_ns: u64,
    pub context_switches: u64,
    pub cpu_migrations: u64,
    pub page_faults: u64,
    pub cycles: u64,
    pub instructions: u64,
    pub cache_accesses: u64,
    pub l1_loads: u64,
    pub l1_misses: u64,
    pub l1_prefetches: u64,
    pub l2_accesses: u64,
    pub l2_hits: u64,
}

/// Whether `counts` has a count for every event of a benchmark run.
pub open spec fn covers_standard(counts: Map<CounterSpec, u64>) -> bool {
    forall|i: int|
        0 <= i < standard_specs().len() ==> counts.dom().contains(#[trigger] standard_specs()[i])
}

impl BenchmarkResult {
    /// The counts of a run under the names of the report, or `None` where
    /// `counts` lacks one of them.
    pub fn from_counts(name: &str, counts: &Counts) -> (result: Option<BenchmarkResult>)
        requires
            counts.wf(),
        ensures
            result is Some <==> covers_standard(counts@),
            result matches Some(r) ==> {
                &&& r.name@ == name@
                &&& r.task_clock_ns == counts@[task_clock()]
                &&& r.context_switches == counts@[context_switches()]
                &&& r.cpu_migrations == counts@[cpu_migrations()]
                &&& r.page_faults == counts@[page_faults()]
                &&& r.cycles == counts@[cycles()]
                &&& r.instructions == counts@[instructions()]
                &&& r.cache_accesses == counts@[cache_accesses()]
                &&& r.l1_loads == counts@[l1_loads()]
                &&& r.l1_misses == counts@[l1_misses()]
                &&& r.l1_prefetches == counts@[l1_prefetches()]
                &&& r.l2_accesses == counts@[l2_accesses()]
                &&& r.l2_hits == counts@[l2_hits()]
            },
    {
        let specs = standard_counters();
        let mut values: Vec<u64> = Vec::new();
        let mut i: usize = 0;
        while i < specs.len()
            invariant
                counts.wf(),
                specs@ == standard_specs(),
                i <= specs@.len(),
                values@.len() == i,
                forall|k: int|
                    0 <= k < i ==> counts@.dom().contains(#[trigger] specs@[k]) && values@[k]
                        == counts@[specs@[k]],
            decreases specs@.len() - i,
        {
            match counts.get(specs[i]) {
                Some(count) => {
                    values.push(count);
                },
                None => {
                    return None;
                },
            }
            i += 1;
        }
        proof {
            assert(specs@[0] == task_clock());
            assert(specs@[1] == context_switches());
            assert(specs@[2] == cpu_migrations());
            assert(specs@[3] == page_faults());
            assert(specs@[4] == cycles());
            assert(specs@[5] == instructions());
            assert(specs@[6] == cache_accesses());
            assert(specs@[7] == l1_loads());
            assert(specs@[8] == l1_misses());
            assert(specs@[9] == l1_prefetches());
            assert(specs@[10] == l2_accesses());
            assert(specs@[11] == l2_hits());
        }
        Some(
            BenchmarkResult {
                name: String::from_str(name),
                task_clock_ns: values[0],
                context_switches: values[1],
                cpu_migrations: values[2],
                page_faults: values[3],
                cycles: values[4],
                instructions: values[5],
                cache_accesses: values[6],
                l1_loads: values[7],
                l1_misses: values[8],
                l1_prefetches: values[9],
                l2_accesses: values[10],
                l2_hits: values[11],
            },
        )
    }

    /// Clock frequency in GHz, in thousandths; undefined where no time was
    /// counted.
    pub fn frequency_ghz(&self) -> (r: Option<u128>)
        ensures
            ratio_value(r) == ratio(
                self.cycles as int,
                THOUSANDTHS as int,
                self.task_clock_ns as int,
            ),
    {
        frequency_ghz(self.cycles, self.task_clock_ns)
    }

    /// Instructions per cycle, in thousandths; undefined where no cycle was
    /// counted.
    pub fn instructions_per_cycle(&self) -> (r: Option<u128>)
        ensures
            ratio_value(r) == ratio(
                self.instructions as int,
                THOUSANDTHS as int,
                self.cycles as int,
            ),
    {
        instructions_per_cycle(self.instructions, self.cycles)
    }

    /// Misses of the first-level data cache as a percentage of its loads,
    /// in thousandths of a percent; undefined where nothing was loaded.
    pub fn l1_miss_percentage(&self) -> (r: Option<u128>)
        ensures
            ratio_value(r) == ratio(self.l1_misses as int, PERCENT as int, self.l1_loads as int),
    {
        percentage(self.l1_misses, self.l1_loads)
    }

    /// Hits of the second-level cache as a percentage of its accesses, in
    /// thousandths of a percent; undefined where it was not accessed.
    pub fn l2_hit_percentage(&self) -> (r: Option<u128>)
        ensures
            ratio_value(r) == ratio(self.l2_hits as int, PERCENT as int, self.l2_accesses as int),
    {
        percentage(self.l2_hits, self.l2_accesses)
    }
}

/// How a derived metric is shown: with three decimals, or as `n/a` where it
/// is undefined.
pub open spec fn metric_text(metric: Option<int>) -> Seq<char> {
    match metric {
        Some(value) => fixed_point(value as nat, 3),
        None => "n/a"@,
    }
}

/// One row of the report: the count right-aligned in 16 columns, the unit
/// in 4, the name in 30, then what is derived from the count.
pub open spec fn row(
    count: Seq<char>,
    unit: Seq<char>,
    name: Seq<char>,
    info: Seq<char>,
    info_unit: Seq<char>,
) -> Seq<char> {
    pad_left(count, 16) + " "@ + pad_right(unit, 4) + " "@ + pad_right(name, 30) + " # "@ + info
        + " "@ + info_unit
}

/// The row of a count that is shown as it is.
pub open spec fn plain_row(count: u64, name: Seq<char>) -> Seq<char> {
    row(grouped(count as nat), ""@, name, ""@, ""@)
}

/// The row of a count with a metric derived from it.
pub open spec fn metric_row(
    count: u64,
    name: Seq<char>,
    metric: Option<int>,
    unit: Seq<char>,
) -> Seq<char> {
    row(grouped(count as nat), ""@, name, metric_text(metric), unit)
}

/// The rate of `count` per second of task clock.
pub open spec fn rate(count: u64, r: BenchmarkResult) -> Option<int> {
    ratio(count as int, PER_SECOND as int, r.task_clock_ns as int)
}

/// The lines of the report for `r`.
pub open spec fn report_lines(r: BenchmarkResult) -> Seq<Seq<char>> {
    seq![
        "===================================================================="@,
        "Benchmarking "@ + r.name@ + "... "@,
        row(
            fixed_point(nearest(r.task_clock_ns as int, NANOS_PER_CENTI_MSEC as int) as nat, 2),
            "msec"@,
            "task-clock"@,
            ""@,
            ""@,
        ),
        metric_row(r.context_switches, "context-switches"@, rate(r.context_switches, r), "/sec"@),
        metric_row(r.cpu_migrations, "cpu-migrations"@, rate(r.cpu_migrations, r), "/sec"@),
        metric_row(r.page_faults, "page-faults"@, rate(r.page_faults, r), "/sec"@),
        ""@,
        metric_row(
            r.cycles,
            "cycles"@,
            ratio(r.cycles as int, THOUSANDTHS as int, r.task_clock_ns as int),
            "GHz"@,
        ),
        metric_row(
            r.instructions,
            "instructions"@,
            ratio(r.instructions as int, THOUSANDTHS as int, r.cycles as int),
            "per cycle"@,
        ),
        ""@,
        plain_row(r.cache_accesses, "cache accesses"@),
        plain_row(r.l1_loads, "L1D cache loads"@),
        metric_row(
            r.l1_misses,
            "L1D cache misses"@,
            ratio(r.l1_misses as int, PERCENT as int, r.l1_loads as int),
            "% of L1D accesses"@,
        ),
        plain_row(r.l1_prefetches, "L1D cache prefetches"@),
        plain_row(r.l2_accesses, "L2 accesses from L1 misses"@),
        metric_row(
            r.l2_hits,
            "L2 hits from L1 misses"@,
            ratio(r.l2_hits as int, PERCENT as int, r.l2_accesses as int),
            "% of L2 accesses"@,
        ),
    ]
}

/// The lines as sequences of characters.
pub open spec fn texts(lines: Seq<String>) -> Seq<Seq<char>> {
    Seq::new(lines.len(), |i: int| lines[i]@)
}

/// A derived metric as text.
pub fn metric_string(metric: Option<u128>) -> (text: String)
    ensures
        text@ == metric_text(ratio_value(metric)),
{
    match metric {
        Some(value) => {
            let mut text = String::new();
            push_fixed_point(&mut text, value, 3);
            text
        },
        None => String::from_str("n/a"),
    }
}

/// One row of the report.
pub fn format_row(count: &str, unit: &str, name: &str, info: &str, info_unit: &str) -> (line:
    String)
    ensures
        line@ == row(count@, unit@, name@, info@, info_unit@),
{
    let mut line = String::new();
    push_padded_left(&mut line, count, 16);
    line.append(" ");
    push_padded_right(&mut line, unit, 4);
    line.append(" ");
    push_padded_right(&mut line, name, 30);
    line.append(" # ");
    line.append(info);
    line.append(" ");
    line.append(info_unit);
    line
}

fn format_plain_row(count: u64, name: &str) -> (line: String)
    ensures
        line@ == plain_row(count, name@),
{
    let count_text = grouped_text(count);
    format_row(count_text.as_str(), "", name, "", "")
}

fn format_metric_row(count: u64, name: &str, metric: Option<u128>, unit: &str) -> (line: String)
    ensures
        line@ == metric_row(count, name@, ratio_value(metric), unit@),
{
    let count_text = grouped_text(count);
    let info = metric_string(metric);
    format_row(count_text.as_str(), "", name, info.as_str(), unit)
}

/// The report for `r`: a header with the name of the run, then one row per
/// counter in a fixed order, each with the metric that is derived from it.
/// A metric whose denominator is zero is shown as `n/a`.
pub fn format_report(r: &BenchmarkResult) -> (lines: Vec<String>)
    ensures
        texts(lines@) == report_lines(*r),
{
    let mut lines: Vec<String> = Vec::new();
    lines.push(
        String::from_str("===================================================================="),
    );
    let mut header = String::from_str("Benchmarking ");
    header.append(r.name.as_str());
    header.append("... ");
    lines.push(header);
    let mut clock = String::new();
    push_fixed_point(&mut clock, task_clock_msec(r.task_clock_ns), 2);
    lines.push(format_row(clock.as_str(), "msec", "task-clock", "", ""));
    lines.push(
        format_metric_row(
            r.context_switches,
            "context-switches",
            rate_per_sec(r.context_switches, r.task_clock_ns),
            "/sec",
        ),
    );
    lines.push(
        format_metric_row(
            r.cpu_migrations,
            "cpu-migrations",
            rate_per_sec(r.cpu_migrations, r.task_clock_ns),
            "/sec",
        ),
    );
    lines.push(
        format_metric_row(
            r.page_faults,
            "page-faults",
            rate_per_sec(r.page_faults, r.task_clock_ns),
            "/sec",
        ),
    );
    lines.push(String::new());
    lines.push(format_metric_row(r.cycles, "cycles", r.frequency_ghz(), "GHz"));
    lines.push(
        format_metric_row(r.instructions, "instructions", r.instructions_per_cycle(), "per cycle"),
    );
    lines.push(String::new());
    lines.push(format_plain_row(r.cache_accesses, "cache accesses"));
    lines.push(format_plain_row(r.l1_loads, "L1D cache loads"));
    lines.push(
        format_metric_row(
            r.l1_misses,
            "L1D cache misses",
            r.l1_miss_percentage(),
            "% of L1D accesses",
        ),
    );
    lines.push(format_plain_row(r.l1_prefetches, "L1D cache prefetches"));
    lines.push(format_plain_row(r.l2_accesses, "L2 accesses from L1 misses"));
    lines.push(
        format_metric_row(
            r.l2_hits,
            "L2 hits from L1 misses",
            r.l2_hit_percentage(),
            "% of L2 accesses",
        ),
    );
    proof {
        reveal_strlit("");
        assert(lines@[6]@ =~= ""@);
        assert(lines@[9]@ =~= ""@);
        assert(texts(lines@) =~= report_lines(*r));
    }
    lines
}

} // verus!
