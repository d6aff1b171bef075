//! The composite sample and its aggregator.
//!
//! One tick produces one immutable `JetsonStats`: a reading from every
//! hardware domain at a single instant, fully populated with zero/empty
//! defaults where a domain is unavailable, never partially constructed.

use vstd::prelude::*;

use crate::cpu::CpuMonitor;
use crate::fsview::FsView;

verus! {

/// Summary CPU reading of a sample.
#[derive(Debug, Clone, PartialEq, Eq, Structural)]
pub struct SimpleCpuStats {
    /// Overall usage percent, 0..=100.
    pub usage: u8,
    /// Frequency of the first core, Hz.
    pub frequency: u32,
}

/// Summary accelerator reading of a sample.
#[derive(Debug, Clone, PartialEq, Eq, Structural)]
pub struct SimpleGpuStats {
    /// Usage percent, 0..=100.
    pub usage: u8,
    /// Frequency, Hz.
    pub frequency: u32,
}

/// Summary memory reading of a sample, sizes in bytes.
#[derive(Debug, Clone, PartialEq, Eq, Structural)]
pub struct SimpleMemoryStats {
    pub ram_used: u64,
    pub ram_total: u64,
    pub swap_used: u64,
    pub swap_total: u64,
}

/// Summary cooling reading of a sample.
#[derive(Debug, Clone, PartialEq, Eq, Structural)]
pub struct SimpleFanStats {
    /// Duty percent, 0..=100.
    pub speed: u8,
}

/// Summary thermal reading of a sample, millidegrees Celsius.
#[derive(Debug, Clone, PartialEq, Eq, Structural)]
pub struct SimpleTemperatureStats {
    pub cpu: i64,
    pub gpu: i64,
    pub board: i64,
}

/// Summary power reading of a sample, microwatts.
#[derive(Debug, Clone, PartialEq, Eq, Structural)]
pub struct SimplePowerStats {
    pub total: u64,
}

/// Board identity of a sample.
#[derive(Debug, Clone)]
pub struct SimpleBoardInfo {
    pub model: String,
    pub jetpack: String,
    pub l4t: String,
}

/// One fully-assembled snapshot across all domains.
#[derive(Debug, Clone)]
pub struct JetsonStats {
    pub cpu: SimpleCpuStats,
    pub gpu: SimpleGpuStats,
    pub memory: SimpleMemoryStats,
    pub fan: SimpleFanStats,
    pub temperature: SimpleTemperatureStats,
    pub power: SimplePowerStats,
    pub board: SimpleBoardInfo,
}

/// The memory summary of a snapshot.
pub open spec fn simple_memory_model(fs: &FsView) -> SimpleMemoryStats {
    let m = match fs.file_at("/proc/meminfo"@) {
        Some(c) => crate::memory::meminfo_model(c),
        None => crate::memory::MemoryStats::zero_spec(),
    };
    SimpleMemoryStats {
        ram_used: m.ram_used,
        ram_total: m.ram_total,
        swap_used: m.swap_used,
        swap_total: m.swap_total,
    }
}

/// The aggregator: orchestrates every domain collector and the
/// delta-rate engine once per tick into one immutable sample.
#[derive(Debug)]
pub struct SampleAggregator {
    pub monitor: CpuMonitor,
}

impl SampleAggregator {
    /// A fresh aggregator: its engine holds no baseline, so the first
    /// tick reports zero CPU usage.
    pub fn new() -> (r: SampleAggregator)
        ensures
            r.monitor.prev_values@.len() == 0,
    {
        SampleAggregator { monitor: CpuMonitor::new() }
    }

    /// One tick: read the cumulative CPU counters and derive usage
    /// against the stored baseline (the counter read and the engine
    /// call are adjacent, with no other collector in between), then
    /// collect the remaining domains and assemble the sample. Every
    /// field is populated, with zero/empty defaults for unavailable
    /// domains — a sample is never partial.
    pub fn tick(&mut self, fs: &FsView) -> (r: JetsonStats)
        ensures
            final(self).monitor.prev_values@ == crate::cpu::current_of(fs),
            r.cpu.usage as int == crate::cpu::stats_usage_model(
                fs,
                old(self).monitor.prev_values@,
            ),
            r.cpu.usage <= 100,
            r.cpu.frequency as int == (if crate::cpu::cores_model(fs).len() > 0 {
                crate::cpu::cores_model(fs)[0].1 as int
            } else {
                0int
            }),
            r.memory == simple_memory_model(fs),
            r.fan.speed as int == crate::fan::fan_speed_model(fs),
            r.temperature.cpu == crate::temperature::promoted(
                crate::temperature::zones_model(fs),
                0,
            ),
            r.temperature.gpu == crate::temperature::promoted(
                crate::temperature::zones_model(fs),
                1,
            ),
            r.temperature.board == crate::temperature::promoted(
                crate::temperature::zones_model(fs),
                3,
            ),
            r.power.total as int == crate::power::power_total_model(fs),
            (r.board.model@, r.board.jetpack@, r.board.l4t@) == ({
                let m = crate::hardware::board_model_spec(fs);
                (m.0, m.1, m.2)
            }),
            r.gpu.usage <= 100,
            match crate::gpu::gpu_devfreq_model(fs) {
                Some(name) => r.gpu.frequency == crate::gpu::scaling_u32(fs, name, "/cur_freq"@)
                    && r.gpu.usage as int == crate::gpu::gpu_usage_model(fs, name),
                None => r.gpu.frequency == 0 && r.gpu.usage == 0,
            },
    {
        let cpu_full = self.monitor.get_stats(fs);
        let cpu_freq: u32 = if cpu_full.cores.len() > 0 {
            cpu_full.cores[0].frequency
        } else {
            0
        };
        let cpu = SimpleCpuStats { usage: cpu_full.usage, frequency: cpu_freq };
        let gpu_full = crate::gpu::GpuStats::get(fs);
        let gpu = SimpleGpuStats { usage: gpu_full.usage, frequency: gpu_full.frequency };
        let mem_full = crate::memory::MemoryStats::get(fs);
        let memory = SimpleMemoryStats {
            ram_used: mem_full.ram_used,
            ram_total: mem_full.ram_total,
            swap_used: mem_full.swap_used,
            swap_total: mem_full.swap_total,
        };
        let fan_full = crate::fan::FanStats::get(fs);
        let fan = SimpleFanStats { speed: fan_full.speed };
        let temp_full = crate::temperature::TemperatureStats::get(fs);
        let temperature = SimpleTemperatureStats {
            cpu: temp_full.cpu,
            gpu: temp_full.gpu,
            board: temp_full.board,
        };
        let power_full = crate::power::PowerStats::get(fs);
        let power = SimplePowerStats { total: power_full.total };
        let board_full = crate::hardware::detect_board(fs);
        let board = SimpleBoardInfo {
            model: board_full.model,
            jetpack: board_full.jetpack,
            l4t: board_full.l4t,
        };
        JetsonStats { cpu, gpu, memory, fan, temperature, power, board }
    }
}

} // verus!
