//! CPU counters, the delta-rate engine, and core-count reading.

use rusted_jetsons::text::chars_of;
use rusted_jetsons::{CpuMonitor, CpuTimeValues, FsView};

fn counters(
    user: u64,
    nice: u64,
    system: u64,
    idle: u64,
    iowait: u64,
    irq: u64,
    softirq: u64,
) -> CpuTimeValues {
    CpuTimeValues { user, nice, system, idle, iowait, irq, softirq }
}

#[test]
fn test_cpu_time_values_total() {
    let values = counters(100, 10, 50, 800, 20, 5, 15);
    assert_eq!(values.total(), 1000);
}

#[test]
fn test_cpu_time_values_busy() {
    let values = counters(100, 10, 50, 800, 20, 5, 15);
    // busy = user + nice + system + irq + softirq = 100 + 10 + 50 + 5 + 15 = 180
    assert_eq!(values.busy(), 180);
}

#[test]
fn test_cpu_frequency_conversion() {
    let freq_mhz = 1500u32;
    let freq_hz = (freq_mhz as u32) * 1_000_000;
    assert_eq!(freq_hz, 1_500_000_000);
}

#[test]
fn test_format_cpu_core_frequency_mhz() {
    let freq_hz = 1_500_000_000u32; // 1.5 GHz
    let freq_mhz = freq_hz as f32 / 1_000_000.0;
    assert!((freq_mhz - 1500.0).abs() < 0.01, "Should format 1.5 GHz as 1500 MHz");
}

#[test]
fn test_format_cpu_core_frequency_ghz() {
    let freq_hz = 3_000_000_000u32; // 3.0 GHz
    let freq_ghz = freq_hz as f32 / 1_000_000_000.0;
    assert!((freq_ghz - 3.0).abs() < 0.01, "Should format 3.0 GHz correctly");
}

#[test]
fn test_format_cpu_core_utilization_percentage() {
    let utilization = 42.5;
    assert!(utilization >= 0.0, "Utilization should be >= 0");
    assert!(utilization <= 100.0, "Utilization should be <= 100");
}

#[test]
fn test_cpu_core_utilization_calculation_with_7_fields() {
    let user = 793125u64;
    let nice = 280u64;
    let system = 352516u64;
    let idle = 16192366u64;
    let iowait = 50291u64;
    let irq = 2012u64;
    let softirq = 0u64;

    let total = user + nice + system + idle + iowait + irq + softirq;
    let busy = user + nice + system;

    let expected_util = 100.0 * (busy as f32 / total as f32);
    assert!((expected_util - 6.59).abs() < 0.1, "Utilization should be ~6.59%");
}

// First observation reports zero usage for every core, and a later
// reading yields the exact busy-over-total delta percentage.
#[test]
fn test_first_observation_is_zero_then_delta() {
    let mut monitor = CpuMonitor::new();

    let first = vec![counters(100, 0, 50, 850, 0, 0, 0), counters(200, 0, 100, 700, 0, 0, 0)];
    let usage1 = monitor.observe(first);
    assert_eq!(usage1, vec![0, 0]);

    // +150 busy over +200 total on core 0 -> 75%; +50 over +200 -> 25%
    let second = vec![counters(200, 0, 100, 900, 0, 0, 0), counters(220, 0, 130, 850, 0, 0, 0)];
    let usage2 = monitor.observe(second);
    assert_eq!(usage2, vec![75, 25]);
}

// A change in core count resets to all-zero usage, and the new topology
// becomes the baseline for the following observation.
#[test]
fn test_topology_change_resets_baseline() {
    let mut monitor = CpuMonitor::new();

    let two_cores = vec![counters(100, 0, 0, 900, 0, 0, 0), counters(100, 0, 0, 900, 0, 0, 0)];
    let usage1 = monitor.observe(two_cores);
    assert_eq!(usage1, vec![0, 0]);

    let one_core = vec![counters(500, 0, 0, 500, 0, 0, 0)];
    let usage2 = monitor.observe(one_core);
    assert_eq!(usage2, vec![0], "Topology change must reset to zero");

    // +100 busy over +200 total against the new baseline -> 50%
    let next = vec![counters(600, 0, 0, 600, 0, 0, 0)];
    let usage3 = monitor.observe(next);
    assert_eq!(usage3, vec![50], "New topology must be the new baseline");
}

// Usage is clamped into [0, 100] even for anomalous counter movement.
#[test]
fn test_usage_bounds_on_anomalies() {
    let mut monitor = CpuMonitor::new();
    let _ = monitor.observe(vec![counters(100, 0, 0, 100, 0, 0, 0)]);

    // busy delta larger than total delta (idle ran backwards)
    let usage = monitor.observe(vec![counters(300, 0, 0, 0, 0, 0, 0)]);
    assert_eq!(usage, vec![100]);

    // totals running backwards report zero
    let usage = monitor.observe(vec![counters(0, 0, 0, 0, 0, 0, 0)]);
    assert_eq!(usage, vec![0]);
}

#[test]
fn test_read_cpu_time_values_from_stat() {
    let mut fs = FsView::new();
    fs.add_file(
        chars_of("/proc/stat"),
        "cpu  10 0 10 100 0 0 0 0\ncpu0 4 0 4 50 1 0 1 0\ncpu1 6 0 6 50 2 0 2 0\n".to_string(),
    );
    let values = rusted_jetsons::cpu::read_cpu_time_values(&fs);
    assert_eq!(values.len(), 2, "The aggregate line is not a core");
    assert_eq!(values[0].user, 4);
    assert_eq!(values[0].idle, 50);
    assert_eq!(values[1].system, 6);
    assert_eq!(values[1].softirq, 2);
}

#[test]
fn test_get_core_count_counts_processor_lines() {
    let mut fs = FsView::new();
    fs.add_file(
        chars_of("/proc/cpuinfo"),
        "processor : 0\nmodel name : X\n\nprocessor : 1\nmodel name : X\n".to_string(),
    );
    assert_eq!(rusted_jetsons::get_core_count(&fs), 2);
}

#[test]
fn test_get_core_count_fallback_is_positive() {
    let fs = FsView::new();
    assert!(rusted_jetsons::get_core_count(&fs) >= 1);
}

#[test]
fn test_cpu_stats_get_static_usage() {
    let mut fs = FsView::new();
    fs.add_file(
        chars_of("/proc/stat"),
        "cpu  100 0 100 200 0 0 0 0\ncpu0 25 0 25 50 0 0 0 0\ncpu1 10 0 10 80 0 0 0 0\n"
            .to_string(),
    );
    fs.add_file(chars_of("/proc/cpuinfo"), "processor : 0\nprocessor : 1\n".to_string());
    let stats = rusted_jetsons::CpuStats::get(&fs);
    assert_eq!(stats.cores.len(), 2);
    // busy share of the four classic fields: 50/100 and 20/100
    assert_eq!(stats.cores[0].usage, 50);
    assert_eq!(stats.cores[1].usage, 20);
    assert_eq!(stats.usage, 35);
    assert_eq!(stats.frequency, 0);
}

#[test]
fn test_cpu_monitor_get_stats_synthetic() {
    let mut fs = FsView::new();
    fs.add_file(chars_of("/proc/stat"), "cpu0 100 0 100 800 0 0 0 0\n".to_string());
    fs.add_file(chars_of("/proc/cpuinfo"), "processor : 0\n".to_string());
    fs.add_file(
        chars_of("/sys/devices/system/cpu/cpu0/cpufreq/scaling_cur_freq"),
        "1500000\n".to_string(),
    );
    fs.add_file(
        chars_of("/sys/devices/system/cpu/cpu0/cpufreq/scaling_governor"),
        "schedutil\n".to_string(),
    );
    let mut monitor = CpuMonitor::new();
    let stats = monitor.get_stats(&fs);
    assert_eq!(stats.cores.len(), 1);
    assert_eq!(stats.cores[0].index, 0);
    assert_eq!(stats.cores[0].frequency, 1500000);
    assert_eq!(stats.cores[0].governor, "schedutil");
    assert_eq!(stats.cores[0].usage, 0, "First observation is zero");
    assert_eq!(stats.usage, 0);
    assert_eq!(stats.frequency, 0);
}
