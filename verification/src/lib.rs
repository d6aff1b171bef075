//! Telemetry and control core for NVIDIA Jetson boards.
//!
//! The library holds the verified sampling logic of a hardware dashboard:
//! parsers for the kernel pseudo-files each hardware domain exposes, the
//! delta-rate engine that turns cumulative CPU counters into utilization
//! percentages, the path-resolution strategy for board-dependent sysfs
//! locations, the screen state machine of the interactive view, and the
//! decision core of the sampling loop.
//!
//! All filesystem contents reach the library as plain values (see
//! [`fsview::FsView`]); the thin unverified shell around the library does the
//! actual reads and writes.

pub mod cpu;
pub mod engine;
pub mod error;
pub mod fan;
pub mod fsview;
pub mod gpu;
pub mod hardware;
pub mod jetson_clocks;
pub mod loopcore;
pub mod memory;
pub mod mock;
pub mod nvpmodel;
pub mod power;
pub mod processes;
pub mod sample;
pub mod screen;
pub mod telemetry;
pub mod temperature;
pub mod text;

pub use cpu::{get_core_count, CpuCore, CpuMonitor, CpuStats, CpuTimeValues};
pub use engine::{EngineStats, EngineStatus};
pub use error::Error;
pub use fan::{FanInfo, FanMode, FanStats};
pub use fsview::FsView;
pub use gpu::{AcceleratorSource, GpuStats};
pub use hardware::{
    derive_jetpack_from_l4t, detect_architecture, detect_board, detect_board_model,
    detect_model_from_compatible, detect_serial_number, is_jetson, parse_board_from_comment,
    parse_jetpack_from_comment, parse_jetpack_version, parse_l4t_from_comment, parse_l4t_version,
    BoardInfo,
};
pub use jetson_clocks::JetsonClocksStats;
pub use loopcore::{InputEvent, LoopCore};
pub use memory::{parse_meminfo, read_emc_frequency, MemoryStats};
pub use mock::MockData;
pub use nvpmodel::{parse_nvpmodel_conf, NVPModel, NVPModelStats};
pub use power::{read_power_rails, PowerRail, PowerStats};
pub use processes::{parse_pmon_output, ProcessInfo, ProcessStats};
pub use sample::{
    JetsonStats, SampleAggregator, SimpleBoardInfo, SimpleCpuStats, SimpleFanStats,
    SimpleGpuStats, SimpleMemoryStats, SimplePowerStats, SimpleTemperatureStats,
};
pub use screen::{
    ControlAction, ControlScreen, ControlStats, InfoScreen, InfoStats, MemoryScreen,
    MemoryScreenStats, ScreenState, StateMessage,
};
pub use telemetry::{parse_export_type, TelemetryExporter};
pub use temperature::{read_thermal_zones, TemperatureStats, ThermalZone};

use vstd::prelude::*;

verus! {

/// Top-level monitor handle: owns the sampling cadence.
pub struct JetsonMonitor {
    /// Interval between two ticks, in milliseconds.
    pub interval_ms: u64,
}

impl JetsonMonitor {
    /// Create a monitor with the default one-second cadence.
    pub fn new() -> (r: Result<Self, Error>)
        ensures
            r is Ok && r->Ok_0.interval_ms == 1000,
    {
        Ok(JetsonMonitor { interval_ms: 1000 })
    }
}

} // verus!
