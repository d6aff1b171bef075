//! Domain collectors against synthetic filesystem snapshots.

use rusted_jetsons::text::chars_of;
use rusted_jetsons::{
    ControlAction, ControlScreen, EngineStats, EngineStatus, Error, FanInfo, FanMode, FanStats,
    FsView, JetsonClocksStats, MemoryStats, NVPModel, NVPModelStats,
};

fn devfreq_fs(names: Vec<&str>) -> FsView {
    let mut fs = FsView::new();
    fs.add_listing(
        chars_of("/sys/class/devfreq"),
        names.into_iter().map(|s| s.to_string()).collect(),
    );
    fs
}

#[test]
fn test_engine_stats_default() {
    let stats = EngineStats::default();
    assert!(!stats.ape.enabled);
    assert!(!stats.dla0.enabled);
    assert!(!stats.dla1.enabled);
    assert!(!stats.nvdec.enabled);
    assert!(!stats.nvenc.enabled);
    assert!(!stats.nvjpg.enabled);
}

#[test]
fn test_engine_status_default() {
    let status = EngineStatus::default();
    assert_eq!(status.name, "");
    assert!(!status.enabled);
    assert_eq!(status.usage, 0);
    assert_eq!(status.clock, 0);
}

#[test]
fn test_engine_status_structure() {
    let status = EngineStatus {
        name: "APE".to_string(),
        enabled: true,
        usage: 75,
        clock: 500000000,
    };
    assert_eq!(status.name, "APE");
    assert!(status.enabled);
    assert_eq!(status.usage, 75);
    assert_eq!(status.clock, 500000000);
}

#[test]
fn test_engine_stats_structure() {
    let stats = EngineStats {
        ape: EngineStatus { name: "APE".to_string(), enabled: true, usage: 80, clock: 500000000 },
        dla0: EngineStatus { name: "DLA0".to_string(), enabled: true, usage: 60, clock: 300000000 },
        dla1: EngineStatus { name: "DLA1".to_string(), enabled: true, usage: 55, clock: 300000000 },
        nvdec: EngineStatus { name: "NVDEC".to_string(), enabled: true, usage: 70, clock: 0 },
        nvenc: EngineStatus { name: "NVENC".to_string(), enabled: true, usage: 65, clock: 0 },
        nvjpg: EngineStatus { name: "NVJPG".to_string(), enabled: true, usage: 50, clock: 0 },
    };
    assert!(stats.ape.enabled);
    assert!(stats.dla0.enabled);
    assert!(stats.nvdec.enabled);
}

#[test]
fn test_ape_engine_status_reading() {
    let fs = devfreq_fs(vec![]);
    let stats = EngineStats::get(&fs);
    assert_eq!(stats.ape.name, "ape");
}

#[test]
fn test_dla_engine_status_reading() {
    let fs = devfreq_fs(vec![]);
    let stats = EngineStats::get(&fs);
    assert_eq!(stats.dla0.name, "dla0");
    assert_eq!(stats.dla1.name, "dla1");
}

#[test]
fn test_nvdec_engine_status_reading() {
    let fs = devfreq_fs(vec![]);
    let stats = EngineStats::get(&fs);
    assert_eq!(stats.nvdec.name, "nvdec");
    assert!(stats.nvdec.usage <= 100);
}

#[test]
fn test_nvenc_engine_status_reading() {
    let fs = devfreq_fs(vec![]);
    let stats = EngineStats::get(&fs);
    assert_eq!(stats.nvenc.name, "nvenc");
    assert!(stats.nvenc.usage <= 100);
}

#[test]
fn test_engine_clock_detection() {
    let mut fs = devfreq_fs(vec!["ape"]);
    fs.add_file(
        chars_of("/sys/class/devfreq/ape/available_frequencies"),
        "100000 200000\n".to_string(),
    );
    fs.add_file(chars_of("/sys/class/devfreq/ape/cur_freq"), "200000\n".to_string());
    let stats = EngineStats::get(&fs);
    if stats.ape.enabled {
        assert!(stats.ape.clock > 0);
    }
    assert!(stats.ape.enabled);
    assert_eq!(stats.ape.clock, 200000);
}

#[test]
fn test_engine_usage_range() {
    let fs = devfreq_fs(vec![]);
    let stats = EngineStats::get(&fs);
    assert!(stats.ape.usage <= 100);
    assert!(stats.dla0.usage <= 100);
    assert!(stats.dla1.usage <= 100);
    assert!(stats.nvdec.usage <= 100);
    assert!(stats.nvenc.usage <= 100);
    assert!(stats.nvjpg.usage <= 100);
}

#[test]
fn test_codec_usage_counter_is_read() {
    let mut fs = devfreq_fs(vec![]);
    fs.add_file(chars_of("/sys/kernel/nvdec_usage"), "marker".to_string());
    fs.add_file(chars_of("/sys/kernel/nvdec_usage/usage"), "42\n".to_string());
    let stats = EngineStats::get(&fs);
    assert_eq!(stats.nvdec.usage, 42);
    assert!(stats.nvdec.enabled);
}

#[test]
fn test_fan_info_default() {
    let info = FanInfo::default();
    assert_eq!(info.index, 0);
    assert_eq!(info.name, "");
    assert_eq!(info.speed, 0);
    assert_eq!(info.rpm, 0);
}

#[test]
fn test_fan_info_structure() {
    let info = FanInfo {
        index: 1,
        name: "cooling_device1".to_string(),
        speed: 85,
        rpm: 2800,
    };
    assert_eq!(info.index, 1);
    assert_eq!(info.name, "cooling_device1");
    assert_eq!(info.speed, 85);
    assert_eq!(info.rpm, 2800);
}

#[test]
fn test_fan_mode_default() {
    let mode = FanMode::default();
    assert_eq!(mode, FanMode::Automatic);
}

#[test]
fn test_fan_mode_equality() {
    assert_eq!(FanMode::Automatic, FanMode::Automatic);
    assert_eq!(FanMode::Manual, FanMode::Manual);
    assert_eq!(FanMode::Off, FanMode::Off);
    assert_eq!(FanMode::Unknown, FanMode::Unknown);

    assert_ne!(FanMode::Automatic, FanMode::Manual);
    assert_ne!(FanMode::Automatic, FanMode::Off);
    assert_ne!(FanMode::Manual, FanMode::Unknown);
}

#[test]
fn test_cooling_device_sysfs_parsing() {
    let fan_info = FanInfo {
        index: 0,
        name: "cooling_device0".to_string(),
        speed: 50,
        rpm: 2500,
    };
    assert_eq!(fan_info.index, 0);
    assert!(fan_info.name.contains("cooling_device"));
    assert!(fan_info.speed <= 100);

    let fan_info_2 = FanInfo {
        index: 10,
        name: "cooling_device10".to_string(),
        speed: 75,
        rpm: 3500,
    };
    assert_eq!(fan_info_2.index, 10);
    assert!(fan_info_2.name.contains("cooling_device"));
    assert_eq!(fan_info_2.name, "cooling_device10");
}

#[test]
fn test_fan_rpm_ranges() {
    let low_rpm_fan = FanInfo { index: 0, name: "fan0".to_string(), speed: 10, rpm: 600 };
    assert!(low_rpm_fan.rpm > 0, "RPM should be positive when speed > 0");

    let high_rpm_fan = FanInfo { index: 0, name: "fan0".to_string(), speed: 90, rpm: 5400 };
    assert!(high_rpm_fan.rpm > low_rpm_fan.rpm, "Higher speed should have higher RPM");
}

#[test]
fn test_fan_collection_from_synthetic_devices() {
    let mut fs = FsView::new();
    fs.add_listing(
        chars_of("/sys/class/thermal"),
        vec!["cooling_device0".to_string(), "thermal_zone0".to_string()],
    );
    fs.add_file(
        chars_of("/sys/class/thermal/cooling_device0/cur_state"),
        "5\n".to_string(),
    );
    fs.add_file(
        chars_of("/sys/class/thermal/cooling_device0/fan1_input"),
        "3000\n".to_string(),
    );
    let stats = FanStats::get(&fs);
    assert_eq!(stats.fans.len(), 1);
    assert_eq!(stats.fans[0].index, 0);
    // the state file doubles as its own scale, so the duty reads full
    assert_eq!(stats.fans[0].speed, 100);
    assert_eq!(stats.fans[0].rpm, 3000);
    assert_eq!(stats.speed, 100);
    assert_eq!(stats.rpm, 3000);
    assert_eq!(stats.mode, FanMode::Manual);
}

#[test]
fn test_set_speed_rejects_out_of_range_before_any_write() {
    // even with a populated thermal tree, an out-of-range duty is
    // rejected first
    let mut fs = FsView::new();
    fs.add_listing(chars_of("/sys/class/thermal"), vec!["cooling_device0".to_string()]);
    let r = FanStats::set_speed_plan(&fs, 150);
    assert!(matches!(r, Err(Error::InvalidInput(_))));

    let r = FanStats::set_speed_plan(&fs, 101);
    assert!(matches!(r, Err(Error::InvalidInput(_))));
}

#[test]
fn test_set_speed_accepts_full_range() {
    let mut fs = FsView::new();
    fs.add_listing(chars_of("/sys/class/thermal"), vec!["cooling_device0".to_string()]);
    assert!(FanStats::set_speed_plan(&fs, 0).is_ok());
    assert!(FanStats::set_speed_plan(&fs, 100).is_ok());

    let plan = FanStats::set_speed_plan(&fs, 100).unwrap();
    assert_eq!(plan.len(), 2);
    let path0: String = plan[0].0.iter().collect();
    let value0: String = plan[0].1.iter().collect();
    let path1: String = plan[1].0.iter().collect();
    let value1: String = plan[1].1.iter().collect();
    assert_eq!(path0, "/sys/class/thermal/cooling_device0/cur_state");
    assert_eq!(value0, "disabled");
    assert_eq!(path1, "/sys/class/thermal/cooling_device0/cur_pwm");
    assert_eq!(value1, "255");
}

#[test]
fn test_set_speed_without_thermal_tree() {
    let fs = FsView::new();
    let r = FanStats::set_speed_plan(&fs, 50);
    assert!(matches!(r, Err(Error::HardwareNotFound(_))));
}

#[test]
fn test_jetson_clocks_stats_default() {
    let stats = JetsonClocksStats::default();
    assert!(!stats.enabled);
    assert_eq!(stats.mode, "");
}

#[test]
fn test_jetson_clocks_stats_structure() {
    let stats = JetsonClocksStats { enabled: true, mode: "1".to_string() };
    assert!(stats.enabled);
    assert_eq!(stats.mode, "1");
}

#[test]
fn test_jetson_clocks_get() {
    let fs = FsView::new();
    let stats = JetsonClocksStats::get(&fs);
    if stats.enabled {
        assert!(!stats.mode.is_empty());
    }
}

#[test]
fn test_jetson_clocks_state_reading() {
    let mut fs = FsView::new();
    fs.add_file(
        chars_of("/sys/devices/soc0/firmware/devicetree/base/nvidia,boost"),
        "1\n".to_string(),
    );
    let stats = JetsonClocksStats::get(&fs);
    if stats.enabled {
        assert!(!stats.mode.is_empty());
    }
    assert!(stats.enabled);
    assert_eq!(stats.mode, "1");
}

#[test]
fn test_jetson_clocks_mode_detection() {
    let mut fs = FsView::new();
    fs.add_file(
        chars_of("/sys/devices/soc0/firmware/devicetree/base/nvidia,boost"),
        "0\n".to_string(),
    );
    let stats = JetsonClocksStats::get(&fs);
    if stats.enabled {
        assert_ne!(stats.mode, "0");
    } else {
        assert!(stats.mode.is_empty() || stats.mode == "0");
    }
    assert!(!stats.enabled);
}

#[test]
fn test_jetson_clocks_toggle_logic() {
    // toggling the boost is the control view's second item
    let mut screen = ControlScreen::new();
    screen.select_next();
    assert_eq!(screen.handle_select(), ControlAction::ToggleBoostMode);
}

#[test]
fn test_jetson_clocks_set_mode_logic() {
    // switching the profile is the control view's third item
    let mut screen = ControlScreen::new();
    screen.select_next();
    screen.select_next();
    assert_eq!(screen.handle_select(), ControlAction::SwitchPerformanceProfile);
}

#[test]
fn test_memory_stats_default() {
    let stats = MemoryStats::default();
    assert_eq!(stats.ram_used, 0);
    assert_eq!(stats.ram_total, 0);
    assert_eq!(stats.ram_cached, 0);
    assert_eq!(stats.swap_used, 0);
    assert_eq!(stats.swap_total, 0);
    assert_eq!(stats.swap_cached, 0);
    assert_eq!(stats.iram_used, 0);
    assert_eq!(stats.iram_total, 0);
    assert_eq!(stats.iram_lfb, 0);
}

#[test]
fn test_memory_stats_structure() {
    let stats = MemoryStats {
        ram_used: 4_000_000_000,
        ram_total: 8_000_000_000,
        ram_cached: 2_000_000_000,
        swap_used: 1_000_000_000,
        swap_total: 4_000_000_000,
        swap_cached: 500_000_000,
        iram_used: 1_000_000,
        iram_total: 2_000_000,
        iram_lfb: 100_000,
    };
    assert_eq!(stats.ram_used, 4_000_000_000);
    assert_eq!(stats.ram_total, 8_000_000_000);
    assert_eq!(stats.ram_cached, 2_000_000_000);
    assert_eq!(stats.swap_used, 1_000_000_000);
    assert_eq!(stats.swap_total, 4_000_000_000);
    assert_eq!(stats.swap_cached, 500_000_000);
    assert_eq!(stats.iram_used, 1_000_000);
    assert_eq!(stats.iram_total, 2_000_000);
    assert_eq!(stats.iram_lfb, 100_000);
}

#[test]
fn test_memory_stats_get() {
    let fs = FsView::new();
    let stats = MemoryStats::get(&fs);
    if stats.ram_total > 0 {
        assert!(stats.ram_used <= stats.ram_total);
        assert!(stats.ram_cached <= stats.ram_total);
    }
    if stats.swap_total > 0 {
        assert!(stats.swap_used <= stats.swap_total);
    }
    if stats.iram_total > 0 {
        assert!(stats.iram_used <= stats.iram_total);
    }
    assert_eq!(stats, MemoryStats::default());
}

#[test]
fn test_parse_meminfo() {
    let sample_meminfo = "MemTotal:        8192000 kB
MemFree:         4096000 kB
Buffers:          512000 kB
Cached:          2048000 kB
SwapTotal:       4096000 kB
SwapFree:        3072000 kB
SwapCached:       256000 kB
IramTotal:         20480 kB
IramFree:           5120 kB
IramLfb:           2560 kB";

    let stats = rusted_jetsons::parse_meminfo(sample_meminfo);

    assert_eq!(stats.ram_total, 8192000 * 1024);
    assert_eq!(stats.ram_cached, 2048000 * 1024);

    let expected_used = 8192000 * 1024 - 4096000 * 1024 - 512000 * 1024 - 2048000 * 1024;
    assert_eq!(stats.ram_used, expected_used);

    assert_eq!(stats.swap_total, 4096000 * 1024);
    assert_eq!(stats.swap_used, 4096000 * 1024 - 3072000 * 1024);
    assert_eq!(stats.swap_cached, 256000 * 1024);

    assert_eq!(stats.iram_total, 20480 * 1024);
    assert_eq!(stats.iram_lfb, 2560 * 1024);

    let expected_iram_used = 20480 * 1024 - 5120 * 1024 - 2560 * 1024;
    assert_eq!(stats.iram_used, expected_iram_used);
}

#[test]
fn test_parse_meminfo_no_iram() {
    let sample_meminfo = "MemTotal:        8192000 kB
MemFree:         4096000 kB
Buffers:          512000 kB
Cached:          2048000 kB
SwapTotal:       4096000 kB
SwapFree:        3072000 kB
SwapCached:       256000 kB";

    let stats = rusted_jetsons::parse_meminfo(sample_meminfo);

    assert_eq!(stats.ram_total, 8192000 * 1024);
    assert_eq!(stats.swap_total, 4096000 * 1024);
    assert_eq!(stats.iram_total, 0);
    assert_eq!(stats.iram_used, 0);
    assert_eq!(stats.iram_lfb, 0);
}

#[test]
fn test_parse_meminfo_invalid_format() {
    let invalid_meminfo = "MemTotal: invalid kB
MemFree:         4096000 kB
Cached:          not a number";

    let stats = rusted_jetsons::parse_meminfo(invalid_meminfo);

    assert_eq!(stats.ram_total, 0);
    assert_eq!(stats.ram_cached, 0);
}

#[test]
fn test_read_emc_frequency_priority() {
    let mut fs = FsView::new();
    fs.add_file(
        chars_of("/sys/kernel/debug/clk/parent_emc/clk_rate"),
        "1600000000\n".to_string(),
    );
    fs.add_file(
        chars_of("/sys/devices/platform/host1x/15000000.tsec/15000000.tsec/emc_rate"),
        "800000000\n".to_string(),
    );
    // the earlier candidate in the fixed order wins
    assert_eq!(rusted_jetsons::read_emc_frequency(&fs), 1600000000);

    let empty = FsView::new();
    assert_eq!(rusted_jetsons::read_emc_frequency(&empty), 0);
}

#[test]
fn test_nvp_stats_default() {
    let stats = NVPModelStats::default();
    assert_eq!(stats.current_model, 0);
    assert!(stats.models.is_empty());
    assert!(!stats.available);
}

#[test]
fn test_nvp_model_structure() {
    let model = NVPModel {
        id: 0,
        name: "MAX N".to_string(),
        description: "Max Performance".to_string(),
    };
    assert_eq!(model.id, 0);
    assert_eq!(model.name, "MAX N");
    assert_eq!(model.description, "Max Performance");
}

#[test]
fn test_nvp_stats_structure() {
    let stats = NVPModelStats {
        current_model: 2,
        available: true,
        models: vec![
            NVPModel { id: 0, name: "MAX N".to_string(), description: "Max Performance".to_string() },
            NVPModel { id: 1, name: "MAX P".to_string(), description: "Max Power".to_string() },
            NVPModel { id: 2, name: "MAX Q".to_string(), description: "Max Quality".to_string() },
        ],
    };
    assert_eq!(stats.current_model, 2);
    assert!(stats.available);
    assert_eq!(stats.models.len(), 3);
    assert_eq!(stats.models[2].name, "MAX Q");
}

#[test]
fn test_nvp_model_id_reading() {
    let fs = FsView::new();
    let stats = NVPModelStats::get(&fs);
    if stats.available {
        assert!(stats.current_model <= 15, "Model ID should be 0-15");
    }
}

#[test]
fn test_nvp_model_list_retrieval() {
    let fs = FsView::new();
    let stats = NVPModelStats::get(&fs);
    if stats.available {
        assert!(!stats.models.is_empty());
        for model in &stats.models {
            assert!(model.id <= 15);
            assert!(!model.name.is_empty());
        }
    }
}

#[test]
fn test_nvp_model_setting_validation() {
    let result = NVPModelStats::validate_model_id(20);
    assert!(result.is_err(), "Setting model ID > 15 should fail");

    let result = NVPModelStats::validate_model_id(100);
    assert!(result.is_err(), "Setting model ID > 15 should fail");

    let result = NVPModelStats::validate_model_id(0);
    assert!(result.is_ok());
    assert_eq!(result.unwrap(), 0);

    let result = NVPModelStats::validate_model_id(15);
    assert!(result.is_ok());
}

#[test]
fn test_nvp_model_id_range() {
    let fs = FsView::new();
    let stats = NVPModelStats::get(&fs);
    for model in &stats.models {
        assert!(model.id <= 15, "Model ID should be 0-15");
    }
}

#[test]
fn test_get_models_method() {
    let mut fs = FsView::new();
    fs.add_file(chars_of("/etc/nvpmodel.conf"), "NVPMODEL=0\n# comment\n".to_string());
    let models = NVPModelStats::get_models(&fs);
    for model in &models {
        assert!(model.id <= 15);
        assert!(!model.name.is_empty());
    }
}
