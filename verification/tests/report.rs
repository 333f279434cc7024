use counter_bench::counter::{
    CacheOp, CacheResult, CounterSpec, HardwareEvent, SoftwareEvent, WhichCache,
};
use counter_bench::reading::Counts;
use counter_bench::report::{
    format_report, format_row, metric_string, standard_counters, BenchmarkResult,
};

fn sample() -> BenchmarkResult {
    BenchmarkResult {
        name: String::from("bench_alu_ops"),
        task_clock_ns: 234_040_000,
        context_switches: 1,
        cpu_migrations: 0,
        page_faults: 72,
        cycles: 916_694_940,
        instructions: 3_768_251_802,
        cache_accesses: 1_500,
        l1_loads: 1_009_884_042,
        l1_misses: 25_093,
        l1_prefetches: 12_925,
        l2_accesses: 25_098,
        l2_hits: 13_680,
    }
}

fn idle() -> BenchmarkResult {
    BenchmarkResult {
        name: String::from("idle"),
        task_clock_ns: 0,
        context_switches: 0,
        cpu_migrations: 0,
        page_faults: 0,
        cycles: 0,
        instructions: 0,
        cache_accesses: 0,
        l1_loads: 0,
        l1_misses: 0,
        l1_prefetches: 0,
        l2_accesses: 0,
        l2_hits: 0,
    }
}

#[test]
fn standard_counters_are_those_of_the_report() {
    let specs = standard_counters();
    assert_eq!(
        specs,
        vec![
            CounterSpec::Software(SoftwareEvent::TaskClock),
            CounterSpec::Software(SoftwareEvent::ContextSwitches),
            CounterSpec::Software(SoftwareEvent::CpuMigrations),
            CounterSpec::Software(SoftwareEvent::PageFaults),
            CounterSpec::Hardware(HardwareEvent::CpuCycles),
            CounterSpec::Hardware(HardwareEvent::Instructions),
            CounterSpec::Hardware(HardwareEvent::CacheReferences),
            CounterSpec::Cache {
                which: WhichCache::L1d,
                operation: CacheOp::Read,
                result: CacheResult::Access,
            },
            CounterSpec::Cache {
                which: WhichCache::L1d,
                operation: CacheOp::Read,
                result: CacheResult::Miss,
            },
            CounterSpec::Cache {
                which: WhichCache::L1d,
                operation: CacheOp::Prefetch,
                result: CacheResult::Access,
            },
            CounterSpec::Raw(0xc860),
            CounterSpec::Raw(0x7064),
        ]
    );
}

#[test]
fn result_takes_each_count_from_its_event() {
    let mut counts = Counts::new();
    // recorded in another order than that of the report
    for (i, spec) in standard_counters().iter().rev().enumerate() {
        assert!(counts.insert(*spec, 1_000 + i as u64));
    }
    let result = BenchmarkResult::from_counts("probe", &counts).unwrap();
    assert_eq!(result.name, "probe");
    assert_eq!(result.l2_hits, 1_000);
    assert_eq!(result.l2_accesses, 1_001);
    assert_eq!(result.l1_prefetches, 1_002);
    assert_eq!(result.l1_misses, 1_003);
    assert_eq!(result.l1_loads, 1_004);
    assert_eq!(result.cache_accesses, 1_005);
    assert_eq!(result.instructions, 1_006);
    assert_eq!(result.cycles, 1_007);
    assert_eq!(result.page_faults, 1_008);
    assert_eq!(result.cpu_migrations, 1_009);
    assert_eq!(result.context_switches, 1_010);
    assert_eq!(result.task_clock_ns, 1_011);
}

#[test]
fn result_needs_every_standard_count() {
    assert!(BenchmarkResult::from_counts("none", &Counts::new()).is_none());
    let specs = standard_counters();
    for missing in 0..specs.len() {
        let mut counts = Counts::new();
        for (i, spec) in specs.iter().enumerate() {
            if i != missing {
                counts.insert(*spec, 1);
            }
        }
        assert!(BenchmarkResult::from_counts("gap", &counts).is_none());
    }
}

#[test]
fn derived_metrics_of_a_result() {
    let r = sample();
    assert_eq!(r.frequency_ghz(), Some(3_917));
    assert_eq!(r.instructions_per_cycle(), Some(4_111));
    assert_eq!(r.l1_miss_percentage(), Some(2));
    assert_eq!(r.l2_hit_percentage(), Some(54_506));
}

#[test]
fn zero_denominators_give_undefined_metrics() {
    let r = idle();
    assert_eq!(r.frequency_ghz(), None);
    assert_eq!(r.instructions_per_cycle(), None);
    assert_eq!(r.l1_miss_percentage(), None);
    assert_eq!(r.l2_hit_percentage(), None);
    let mut loads_only = sample();
    loads_only.l1_loads = 0;
    assert_eq!(loads_only.l1_miss_percentage(), None);
    assert_eq!(loads_only.instructions_per_cycle(), Some(4_111));
    let mut no_cycles = sample();
    no_cycles.cycles = 0;
    assert_eq!(no_cycles.instructions_per_cycle(), None);
    assert_eq!(no_cycles.frequency_ghz(), Some(0));
}

#[test]
fn metric_text_has_three_decimals_or_a_placeholder() {
    assert_eq!(metric_string(Some(4_111)), "4.111");
    assert_eq!(metric_string(Some(0)), "0.000");
    assert_eq!(metric_string(Some(54_506)), "54.506");
    assert_eq!(metric_string(Some(7)), "0.007");
    assert_eq!(metric_string(None), "n/a");
}

#[test]
fn row_lays_out_its_columns() {
    assert_eq!(
        format_row("72", "", "page-faults", "307.640", "/sec"),
        "              72      page-faults                    # 307.640 /sec"
    );
    assert_eq!(
        format_row("234.04", "msec", "task-clock", "", ""),
        "          234.04 msec task-clock                     #  "
    );
    assert_eq!(
        format_row("12345678901234567", "units", "a name that is longer than its column", "x", ""),
        "12345678901234567 units a name that is longer than its column # x "
    );
}

#[test]
fn report_lists_every_counter_in_order() {
    let lines = format_report(&sample());
    let expected = vec![
        "====================================================================",
        "Benchmarking bench_alu_ops... ",
        "          234.04 msec task-clock                     #  ",
        "               1      context-switches               # 4.273 /sec",
        "               0      cpu-migrations                 # 0.000 /sec",
        "              72      page-faults                    # 307.640 /sec",
        "",
        "     916_694_940      cycles                         # 3.917 GHz",
        "   3_768_251_802      instructions                   # 4.111 per cycle",
        "",
        "           1_500      cache accesses                 #  ",
        "   1_009_884_042      L1D cache loads                #  ",
        "          25_093      L1D cache misses               # 0.002 % of L1D accesses",
        "          12_925      L1D cache prefetches           #  ",
        "          25_098      L2 accesses from L1 misses     #  ",
        "          13_680      L2 hits from L1 misses         # 54.506 % of L2 accesses",
    ];
    assert_eq!(lines, expected);
}

#[test]
fn report_shows_undefined_metrics_as_placeholder() {
    let lines = format_report(&idle());
    let expected = vec![
        "====================================================================",
        "Benchmarking idle... ",
        "            0.00 msec task-clock                     #  ",
        "               0      context-switches               # n/a /sec",
        "               0      cpu-migrations                 # n/a /sec",
        "               0      page-faults                    # n/a /sec",
        "",
        "               0      cycles                         # n/a GHz",
        "               0      instructions                   # n/a per cycle",
        "",
        "               0      cache accesses                 #  ",
        "               0      L1D cache loads                #  ",
        "               0      L1D cache misses               # n/a % of L1D accesses",
        "               0      L1D cache prefetches           #  ",
        "               0      L2 accesses from L1 misses     #  ",
        "               0      L2 hits from L1 misses         # n/a % of L2 accesses",
    ];
    assert_eq!(lines, expected);
}
