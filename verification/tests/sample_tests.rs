//! The aggregator, the path resolver, and whole-snapshot behaviour.

use rusted_jetsons::text::chars_of;
use rusted_jetsons::{
    AcceleratorSource, FsView, JetsonMonitor, MockData, SampleAggregator, TemperatureStats,
};

fn synthetic_board() -> FsView {
    let mut fs = FsView::new();
    fs.add_file(chars_of("/proc/stat"), "cpu0 100 0 100 800 0 0 0 0\n".to_string());
    fs.add_file(chars_of("/proc/cpuinfo"), "processor : 0\n".to_string());
    fs.add_file(
        chars_of("/sys/devices/system/cpu/cpu0/cpufreq/scaling_cur_freq"),
        "1200000\n".to_string(),
    );
    fs.add_file(
        chars_of("/proc/meminfo"),
        "MemTotal: 1000 kB\nMemFree: 400 kB\nBuffers: 100 kB\nCached: 100 kB\n".to_string(),
    );
    fs.add_listing(
        chars_of("/sys/class/thermal"),
        vec!["thermal_zone0".to_string(), "cooling_device0".to_string()],
    );
    fs.add_file(chars_of("/sys/class/thermal/thermal_zone0/type"), "CPU-therm\n".to_string());
    fs.add_file(chars_of("/sys/class/thermal/thermal_zone0/temp"), "45500\n".to_string());
    fs.add_file(chars_of("/sys/class/thermal/cooling_device0/cur_state"), "4\n".to_string());
    fs
}

#[test]
fn test_monitor_handle_default_interval() {
    let monitor = JetsonMonitor::new().unwrap();
    assert_eq!(monitor.interval_ms, 1000);
}

// The resolver returns the first candidate that exists: with only the
// second and third present, the second wins.
#[test]
fn test_path_resolver_priority() {
    let mut fs = FsView::new();
    fs.add_file(chars_of("/sys/b"), "b".to_string());
    fs.add_file(chars_of("/sys/c"), "c".to_string());
    let candidates = vec![chars_of("/sys/a"), chars_of("/sys/b"), chars_of("/sys/c")];
    assert_eq!(fs.resolve_first(&candidates), Some(1));

    let empty = FsView::new();
    assert_eq!(empty.resolve_first(&candidates), None);
}

// A collector against a root with none of its expected files returns a
// fully populated reading of zeros and empties — it never fails.
#[test]
fn test_collector_resilience_on_empty_root() {
    let fs = FsView::new();

    let temps = TemperatureStats::get(&fs);
    assert_eq!(temps.cpu, 0);
    assert_eq!(temps.gpu, 0);
    assert_eq!(temps.board, 0);
    assert_eq!(temps.pmic, 0);
    assert!(temps.thermal_zones.is_empty());

    let fans = rusted_jetsons::FanStats::get(&fs);
    assert_eq!(fans.speed, 0);
    assert_eq!(fans.rpm, 0);
    assert!(fans.fans.is_empty());
    // no thermal tree at all: the default assumption, automatic
    assert_eq!(fans.mode, rusted_jetsons::FanMode::Automatic);
    assert_eq!(fans.temperature, 0);

    let engines = rusted_jetsons::EngineStats::get(&fs);
    assert_eq!(engines.ape.name, "");
    assert!(!engines.ape.enabled);
    assert_eq!(engines.ape.usage, 0);
    assert_eq!(engines.ape.clock, 0);
    assert_eq!(engines.nvjpg.name, "");
    assert_eq!(engines.nvjpg.clock, 0);

    let power = rusted_jetsons::PowerStats::get(&fs);
    assert_eq!(power.total, 0);
    assert!(power.rails.is_empty());

    let gpu = rusted_jetsons::GpuStats::get(&fs);
    assert_eq!(gpu.usage, 0);
    assert_eq!(gpu.frequency, 0);
    assert_eq!(gpu.state, "");
}

// Two consecutive ticks against an unchanging synthetic filesystem:
// the first reports zero CPU usage (no baseline), the second derives
// usage purely from the fixed counters — here a zero delta, so zero
// again, with every other field identical.
#[test]
fn test_idempotent_sample_shape() {
    let fs = synthetic_board();
    let mut agg = SampleAggregator::new();

    let s1 = agg.tick(&fs);
    assert_eq!(s1.cpu.usage, 0, "First tick has no baseline");
    assert_eq!(s1.cpu.frequency, 1200000);
    assert_eq!(s1.memory.ram_total, 1000 * 1024);
    assert_eq!(s1.memory.ram_used, 400 * 1024);
    assert_eq!(s1.temperature.cpu, 45500);
    assert_eq!(s1.fan.speed, 100);

    let s2 = agg.tick(&fs);
    assert_eq!(s2.cpu.usage, 0, "An unchanged counter file is a zero delta");
    assert_eq!(s2.cpu.frequency, s1.cpu.frequency);
    assert_eq!(s2.memory, s1.memory);
    assert_eq!(s2.temperature, s1.temperature);
    assert_eq!(s2.fan, s1.fan);
    assert_eq!(s2.power, s1.power);
}

// A thermal tree that lists no cooling device at all reads as mode
// unknown; an absent tree reads as the automatic default.
#[test]
fn test_fan_mode_absent_vs_empty() {
    let absent = FsView::new();
    assert_eq!(rusted_jetsons::FanStats::get(&absent).mode, rusted_jetsons::FanMode::Automatic);

    let mut empty_tree = FsView::new();
    empty_tree.add_listing(chars_of("/sys/class/thermal"), vec!["thermal_zone0".to_string()]);
    assert_eq!(rusted_jetsons::FanStats::get(&empty_tree).mode, rusted_jetsons::FanMode::Unknown);
}

// The sample's overall CPU usage is the engine's delta average: zero on
// the first tick, the exact busy-over-total quotient on the second.
#[test]
fn test_aggregator_usage_from_delta() {
    let mut fs1 = FsView::new();
    fs1.add_file(chars_of("/proc/stat"), "cpu0 100 0 0 900 0 0 0 0\n".to_string());
    fs1.add_file(chars_of("/proc/cpuinfo"), "processor : 0\n".to_string());
    let mut fs2 = FsView::new();
    fs2.add_file(chars_of("/proc/stat"), "cpu0 250 0 0 950 0 0 0 0\n".to_string());
    fs2.add_file(chars_of("/proc/cpuinfo"), "processor : 0\n".to_string());

    let mut agg = SampleAggregator::new();
    let s1 = agg.tick(&fs1);
    assert_eq!(s1.cpu.usage, 0, "First tick has no baseline");
    // +150 busy over +200 total -> 75%
    let s2 = agg.tick(&fs2);
    assert_eq!(s2.cpu.usage, 75);
}

#[test]
fn test_thermal_zone_promotion() {
    let mut fs = FsView::new();
    fs.add_listing(
        chars_of("/sys/class/thermal"),
        vec!["thermal_zone0".to_string(), "thermal_zone1".to_string()],
    );
    fs.add_file(chars_of("/sys/class/thermal/thermal_zone0/type"), "CPU-therm\n".to_string());
    fs.add_file(chars_of("/sys/class/thermal/thermal_zone0/temp"), "41000\n".to_string());
    fs.add_file(chars_of("/sys/class/thermal/thermal_zone1/type"), "GPU-therm\n".to_string());
    fs.add_file(chars_of("/sys/class/thermal/thermal_zone1/temp"), "39000\n".to_string());

    let temps = TemperatureStats::get(&fs);
    assert_eq!(temps.thermal_zones.len(), 2);
    assert_eq!(temps.thermal_zones[0].name, "CPU-therm");
    assert_eq!(temps.cpu, 41000);
    assert_eq!(temps.gpu, 39000);
    assert_eq!(temps.board, 0);
}

#[test]
fn test_negative_temperature_reading() {
    let mut fs = FsView::new();
    fs.add_listing(chars_of("/sys/class/thermal"), vec!["thermal_zone0".to_string()]);
    fs.add_file(chars_of("/sys/class/thermal/thermal_zone0/type"), "Tboard\n".to_string());
    fs.add_file(chars_of("/sys/class/thermal/thermal_zone0/temp"), "-5000\n".to_string());
    let temps = TemperatureStats::get(&fs);
    assert_eq!(temps.board, -5000);
}

#[test]
fn test_gpu_devfreq_candidate_priority() {
    let mut fs = FsView::new();
    fs.add_listing(
        chars_of("/sys/class/devfreq"),
        vec!["17000000.gv11b".to_string(), "gpu".to_string()],
    );
    fs.add_file(chars_of("/sys/class/devfreq/gpu/cur_freq"), "900000000\n".to_string());
    fs.add_file(chars_of("/sys/class/devfreq/gpu/governor"), "simple_ondemand\n".to_string());
    let gpu = rusted_jetsons::GpuStats::get(&fs);
    // the known name wins over the marker-based fallback
    assert_eq!(gpu.frequency, 900000000);
    assert_eq!(gpu.governor, "simple_ondemand");
}

#[test]
fn test_gpu_load_to_percent() {
    let mut fs = FsView::new();
    fs.add_listing(chars_of("/sys/class/devfreq"), vec!["gpu".to_string()]);
    fs.add_file(chars_of("/sys/class/devfreq/gpu/device/load"), "255\n".to_string());
    let gpu = rusted_jetsons::GpuStats::get(&fs);
    assert_eq!(gpu.usage, 100);

    let mut fs2 = FsView::new();
    fs2.add_listing(chars_of("/sys/class/devfreq"), vec!["gpu".to_string()]);
    fs2.add_file(chars_of("/sys/class/devfreq/gpu/cur_freq"), "500\n".to_string());
    fs2.add_file(chars_of("/sys/class/devfreq/gpu/max_freq"), "1000\n".to_string());
    let gpu2 = rusted_jetsons::GpuStats::get(&fs2);
    assert_eq!(gpu2.usage, 50, "Without a load file the frequency ratio estimates");
}

#[test]
fn test_accelerator_source_threshold() {
    assert_eq!(rusted_jetsons::gpu::choose_source("38.2.0"), AcceleratorSource::VendorLibrary);
    assert_eq!(rusted_jetsons::gpu::choose_source("36.4.3"), AcceleratorSource::Sysfs);
    assert_eq!(rusted_jetsons::gpu::choose_source("garbage"), AcceleratorSource::Sysfs);
}

#[test]
fn test_parse_vendor_tool_usage() {
    assert_eq!(rusted_jetsons::gpu::parse_nvidia_smi_usage(" 45 %\n"), 45);
    assert_eq!(rusted_jetsons::gpu::parse_nvidia_smi_usage("100"), 100);
    assert_eq!(rusted_jetsons::gpu::parse_nvidia_smi_usage("N/A"), 0);
    assert_eq!(rusted_jetsons::gpu::parse_nvidia_smi_usage(""), 0);
    assert_eq!(rusted_jetsons::gpu::parse_nvidia_smi_usage("250"), 100);
}

#[test]
fn test_power_rails_from_iio_devices() {
    let mut fs = FsView::new();
    fs.add_listing(
        chars_of("/sys/bus/i2c/devices"),
        vec!["iio:device0".to_string(), "1-0040".to_string()],
    );
    fs.add_file(chars_of("/sys/bus/i2c/devices/iio:device0/in0_label"), "VDD_IN\n".to_string());
    fs.add_file(chars_of("/sys/bus/i2c/devices/iio:device0/curr0_input"), "2000000\n".to_string());
    fs.add_file(chars_of("/sys/bus/i2c/devices/iio:device0/in0_input"), "5000000\n".to_string());
    let power = rusted_jetsons::PowerStats::get(&fs);
    assert_eq!(power.rails.len(), 1);
    assert_eq!(power.rails[0].name, "VDD_IN");
    assert_eq!(power.rails[0].current, 2000000);
    assert_eq!(power.rails[0].voltage, 5000000);
    // the micro-scaled product of the two readings
    assert_eq!(power.rails[0].power, 10_000_000);
    assert_eq!(power.total, 10_000_000);
}

#[test]
fn test_power_hwmon_fallback() {
    // no industrial-I/O devices: the hardware-monitor class fills in
    let mut fs = FsView::new();
    fs.add_listing(
        chars_of("/sys/class/hwmon"),
        vec!["hwmon0".to_string(), "hwmon1".to_string()],
    );
    // a three-channel monitor chip with one unconnected channel
    fs.add_file(chars_of("/sys/class/hwmon/hwmon0/name"), "ina3221\n".to_string());
    fs.add_file(chars_of("/sys/class/hwmon/hwmon0/in1_label"), "VDD_IN\n".to_string());
    fs.add_file(chars_of("/sys/class/hwmon/hwmon0/curr1_input"), "1000\n".to_string());
    fs.add_file(chars_of("/sys/class/hwmon/hwmon0/in1_input"), "5000\n".to_string());
    fs.add_file(chars_of("/sys/class/hwmon/hwmon0/in2_label"), "NC\n".to_string());
    // a plain sensor with a direct microwatt reading
    fs.add_file(chars_of("/sys/class/hwmon/hwmon1/power1_input"), "2500000\n".to_string());

    let power = rusted_jetsons::PowerStats::get(&fs);
    assert_eq!(power.rails.len(), 2);
    assert_eq!(power.rails[0].name, "VDD_IN");
    // milli-scaled product of the channel readings
    assert_eq!(power.rails[0].power, 1000 * 5000 / 1000);
    assert_eq!(power.rails[1].name, "hwmon1");
    assert_eq!(power.rails[1].power, 2500000);
    assert_eq!(power.total, 5000 + 2500000);
}

#[test]
fn test_parse_export_type_values() {
    assert_eq!(rusted_jetsons::parse_export_type("otlp"), Ok("otlp".to_string()));
    assert_eq!(rusted_jetsons::parse_export_type("OTLP"), Ok("otlp".to_string()));
    let err = rusted_jetsons::parse_export_type("prometheus").unwrap_err();
    assert_eq!(err, "Invalid export type 'prometheus'. Supported types: otlp");
}

#[test]
fn test_parse_pmon_output_rows() {
    let output = "# gpu        pid  type    sm   mem   enc   dec   command\n\
# Idx          #   C/G     %     %     %     %   name\n\
    0       1216     C    45    10     0     0   python3\n\
    0          -     -     -     -     -     -   -\n";
    let procs = rusted_jetsons::parse_pmon_output(output);
    assert_eq!(procs.len(), 2);
    assert_eq!(procs[0].pid, 1216);
    assert_eq!(procs[0].name, "C");
    assert_eq!(procs[0].gpu_usage, 45);
    assert!(procs[0].command.contains("python3"));
    // the placeholder row still has five columns, each degrading to zero
    assert_eq!(procs[1].pid, 0);
    assert_eq!(procs[1].gpu_usage, 0);

    assert!(rusted_jetsons::parse_pmon_output("").is_empty());
    assert!(rusted_jetsons::parse_pmon_output("# banner\n# banner\n").is_empty());
}

#[test]
fn test_mock_data_readings() {
    let mock = MockData::new();

    let cpu = mock.cpu_stats();
    assert_eq!(cpu.cores.len(), 6);
    assert_eq!(cpu.cores[0].usage, 10);
    assert_eq!(cpu.cores[5].usage, 15);
    assert_eq!(cpu.cores[0].frequency, 1500000);
    assert_eq!(cpu.cores[5].frequency, 2000000);
    assert_eq!(cpu.usage, 12);

    let gpu = mock.gpu_stats();
    assert_eq!(gpu.usage, 30);
    assert_eq!(gpu.temperature, 40000);

    let mem = mock.memory_stats();
    assert_eq!(mem.ram_total, 8388608);
    assert_eq!(mem.ram_used, 4194304);

    let temps = mock.temperature_stats();
    assert_eq!(temps.cpu, 35000);

    let power = mock.power_stats();
    assert_eq!(power.rails.len(), 4);
    assert_eq!(power.total, 18700000);

    let fan = mock.fan_stats();
    assert_eq!(fan.speed, 60);
    assert_eq!(fan.rpm, 4200);

    let board = mock.board_info();
    assert_eq!(board.model, "Jetson Xavier NX");
    assert_eq!(board.jetpack, "5.1.2");
    assert_eq!(board.l4t, "35.3.1");
    assert_eq!(board.serial, "015000000");
}

#[test]
fn test_text_number_round_trip() {
    let digits = rusted_jetsons::text::u64_to_chars(90210);
    let s: String = digits.iter().collect();
    assert_eq!(s, "90210");
    assert_eq!(rusted_jetsons::text::u64_to_string(0), "0");
    assert_eq!(rusted_jetsons::text::u64_to_string(18446744073709551615), "18446744073709551615");

    let parsed = rusted_jetsons::text::parse_u64(&digits);
    assert_eq!(parsed, Some(90210));

    let overflow = rusted_jetsons::text::chars_of("99999999999999999999999");
    assert_eq!(rusted_jetsons::text::parse_u64(&overflow), None);
}
