//! Fixed synthetic readings for demonstrations and tests that need a
//! plausible board without any hardware underneath.

use vstd::prelude::*;

use crate::cpu::{CpuCore, CpuStats};
use crate::fan::{FanInfo, FanMode, FanStats};
use crate::gpu::GpuStats;
use crate::hardware::BoardInfo;
use crate::memory::MemoryStats;
use crate::power::{PowerRail, PowerStats};
use crate::temperature::TemperatureStats;

verus! {

/// A source of fixed synthetic readings.
#[derive(Debug)]
pub struct MockData;

impl MockData {
    /// The synthetic board.
    pub fn new() -> MockData {
        MockData
    }

    /// Six cores at mild, slightly staggered load.
    pub fn cpu_stats(&self) -> (r: CpuStats)
        ensures
            r.cores@.len() == 6,
            forall|i: int|
                0 <= i < 6 ==> (#[trigger] r.cores@[i]).index == i && r.cores@[i].usage as int == 10
                    + i && r.cores@[i].frequency as int == 1500000 + i * 100000
                    && r.cores@[i].governor@ == "schedutil"@,
            r.usage == 12,
            r.frequency == 1500000,
    {
        let mut cores: Vec<CpuCore> = Vec::new();
        let mut i: usize = 0;
        while i < 6
            invariant
                i <= 6,
                cores@.len() == i,
                forall|j: int|
                    0 <= j < i ==> (#[trigger] cores@[j]).index == j && cores@[j].usage as int == 10
                        + j && cores@[j].frequency as int == 1500000 + j * 100000
                        && cores@[j].governor@ == "schedutil"@,
            decreases 6 - i,
        {
            let core = CpuCore {
                index: i,
                usage: 10 + (i as u8),
                frequency: 1500000 + (i as u32) * 100000,
                governor: "schedutil".to_owned(),
            };
            cores.push(core);
            i += 1;
        }
        CpuStats { usage: 12, frequency: 1500000, cores }
    }

    /// A lightly loaded accelerator.
    pub fn gpu_stats(&self) -> (r: GpuStats)
        ensures
            r.usage == 30,
            r.frequency == 1200000,
            r.temperature == 40000,
            r.governor@ == "performance"@,
    {
        GpuStats {
            usage: 30,
            frequency: 1200000,
            temperature: 40000,
            governor: "performance".to_owned(),
            memory_used: 0,
            memory_total: 0,
            state: "active".to_owned(),
            active_functions: Vec::new(),
        }
    }

    /// Half the memory in use, swap untouched.
    pub fn memory_stats(&self) -> (r: MemoryStats)
        ensures
            r.ram_used == 4194304 && r.ram_total == 8388608 && r.ram_cached == 1048576,
            r.swap_used == 0 && r.swap_total == 2097152 && r.swap_cached == 0,
            r.iram_used == 262144 && r.iram_total == 524288 && r.iram_lfb == 0,
    {
        MemoryStats {
            ram_used: 4194304,
            ram_total: 8388608,
            ram_cached: 1048576,
            swap_used: 0,
            swap_total: 2097152,
            swap_cached: 0,
            iram_used: 262144,
            iram_total: 524288,
            iram_lfb: 0,
        }
    }

    /// Cool running temperatures, in millidegrees.
    pub fn temperature_stats(&self) -> (r: TemperatureStats)
        ensures
            r.cpu == 35000 && r.gpu == 40000 && r.board == 30000 && r.pmic == 25000,
            r.thermal_zones@.len() == 0,
    {
        TemperatureStats {
            cpu: 35000,
            gpu: 40000,
            board: 30000,
            pmic: 25000,
            thermal_zones: Vec::new(),
        }
    }

    /// Four named rails and their microwatt total.
    pub fn power_stats(&self) -> (r: PowerStats)
        ensures
            r.rails@.len() == 4,
            r.rails@[0].name@ == "CPU"@ && r.rails@[1].name@ == "GPU"@,
            r.rails@[2].name@ == "SOC"@ && r.rails@[3].name@ == "DDR"@,
            r.total == 18700000,
    {
        let mut rails: Vec<PowerRail> = Vec::new();
        rails.push(PowerRail { name: "CPU".to_owned(), current: 5000, voltage: 1200, power: 6000000 });
        rails.push(PowerRail { name: "GPU".to_owned(), current: 3000, voltage: 1100, power: 3300000 });
        rails.push(PowerRail { name: "SOC".to_owned(), current: 8000, voltage: 900, power: 7200000 });
        rails.push(PowerRail { name: "DDR".to_owned(), current: 2000, voltage: 1100, power: 2200000 });
        PowerStats { total: 18700000, rails }
    }

    /// One fan at medium duty.
    pub fn fan_stats(&self) -> (r: FanStats)
        ensures
            r.speed == 60 && r.rpm == 4200 && r.mode == FanMode::Automatic,
            r.fans@.len() == 1,
            r.fans@[0].index == 0 && r.fans@[0].speed == 60 && r.fans@[0].rpm == 4200,
    {
        let mut fans: Vec<FanInfo> = Vec::new();
        fans.push(FanInfo { index: 0, name: "fan0".to_owned(), speed: 60, rpm: 4200 });
        FanStats { speed: 60, rpm: 4200, mode: FanMode::Automatic, fans, temperature: 37500 }
    }

    /// A fixed board identity.
    pub fn board_info(&self) -> (r: BoardInfo)
        ensures
            r.model@ == "Jetson Xavier NX"@,
            r.jetpack@ == "5.1.2"@,
            r.l4t@ == "35.3.1"@,
            r.serial@ == "015000000"@,
    {
        BoardInfo {
            model: "Jetson Xavier NX".to_owned(),
            jetpack: "5.1.2".to_owned(),
            l4t: "35.3.1".to_owned(),
            serial: "015000000".to_owned(),
        }
    }
}

} // verus!
