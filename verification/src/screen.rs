//! The screen state machine of the interactive dashboard.
//!
//! A fixed, closed, totally ordered set of views. The only transition is
//! an explicit selection; there is no automatic cycling. Views consume
//! the latest sample through their `update` methods; drawing itself is
//! the renderer's business, outside the library.

use vstd::prelude::*;

use crate::sample::{SimpleBoardInfo, SimpleMemoryStats};
use crate::memory::MemoryStats;

verus! {

/// The views of the dashboard, ordered by their one-based index.
#[derive(Debug, Clone, Copy, PartialEq, Eq, Structural)]
pub enum ScreenState {
    All,
    Cpu,
    Gpu,
    Memory,
    Power,
    Temperature,
    Control,
    Info,
}

impl ScreenState {
    /// How many views exist; the set is closed.
    pub const COUNT: usize = 8;

    /// The screen at a zero-based position, `None` out of range.
    pub fn from_index(idx: usize) -> (r: Option<ScreenState>)
        ensures
            r is Some <==> idx < 8,
            idx == 0 ==> r == Some(ScreenState::All),
            idx == 1 ==> r == Some(ScreenState::Cpu),
            idx == 2 ==> r == Some(ScreenState::Gpu),
            idx == 3 ==> r == Some(ScreenState::Memory),
            idx == 4 ==> r == Some(ScreenState::Power),
            idx == 5 ==> r == Some(ScreenState::Temperature),
            idx == 6 ==> r == Some(ScreenState::Control),
            idx == 7 ==> r == Some(ScreenState::Info),
    {
        match idx {
            0 => Some(ScreenState::All),
            1 => Some(ScreenState::Cpu),
            2 => Some(ScreenState::Gpu),
            3 => Some(ScreenState::Memory),
            4 => Some(ScreenState::Power),
            5 => Some(ScreenState::Temperature),
            6 => Some(ScreenState::Control),
            7 => Some(ScreenState::Info),
            _ => None,
        }
    }

    /// The one-based index of this screen, as the navigation keys name
    /// them.
    pub fn index(&self) -> (r: usize)
        ensures
            r == self.index_spec(),
    {
        match self {
            ScreenState::All => 1,
            ScreenState::Cpu => 2,
            ScreenState::Gpu => 3,
            ScreenState::Memory => 4,
            ScreenState::Power => 5,
            ScreenState::Temperature => 6,
            ScreenState::Control => 7,
            ScreenState::Info => 8,
        }
    }

    /// The one-based index, as a spec-level function.
    pub open spec fn index_spec(&self) -> int {
        match self {
            ScreenState::All => 1,
            ScreenState::Cpu => 2,
            ScreenState::Gpu => 3,
            ScreenState::Memory => 4,
            ScreenState::Power => 5,
            ScreenState::Temperature => 6,
            ScreenState::Control => 7,
            ScreenState::Info => 8,
        }
    }

    /// The display name of this screen.
    pub fn name(&self) -> (r: &'static str)
        ensures
            *self == ScreenState::All ==> r@ == "All"@,
            *self == ScreenState::Cpu ==> r@ == "CPU"@,
            *self == ScreenState::Gpu ==> r@ == "GPU"@,
            *self == ScreenState::Memory ==> r@ == "Memory"@,
            *self == ScreenState::Power ==> r@ == "Power"@,
            *self == ScreenState::Temperature ==> r@ == "Temperature"@,
            *self == ScreenState::Control ==> r@ == "Control"@,
            *self == ScreenState::Info ==> r@ == "Info"@,
    {
        match self {
            ScreenState::All => "All",
            ScreenState::Cpu => "CPU",
            ScreenState::Gpu => "GPU",
            ScreenState::Memory => "Memory",
            ScreenState::Power => "Power",
            ScreenState::Temperature => "Temperature",
            ScreenState::Control => "Control",
            ScreenState::Info => "Info",
        }
    }
}

/// A message of the single-consumer queue between input handling, the
/// sampler and the view; each is consumed exactly once by the loop's
/// dispatch step.
#[derive(Debug, Clone, PartialEq)]
pub enum StateMessage {
    /// Select a view.
    SetScreen(ScreenState),
    /// A new sample is ready.
    Update,
    /// Terminate the loop.
    Exit,
    /// A fatal error, with its description.
    Error(String),
}

/// What the control view does with a confirmed selection. Actions are
/// dispatched to the privileged control surface outside the library,
/// never executed inside the state machine.
#[derive(Debug, Clone, Copy, PartialEq, Eq, Structural)]
pub enum ControlAction {
    /// Change the cooling duty cycle.
    AdjustCoolingDuty,
    /// Toggle the clock-boost mode.
    ToggleBoostMode,
    /// Switch the performance profile.
    SwitchPerformanceProfile,
    /// Nothing selected.
    NoAction,
}

/// The control view's own data.
#[derive(Debug, Clone)]
pub struct ControlStats {
    pub fan_speed: u8,
    pub fan_mode: String,
    pub jetson_clocks: bool,
    pub jetson_clocks_status: String,
    pub nvpmodel_id: u8,
    pub nvpmodel_name: String,
}

/// The control view: hardware settings and a cursor over them.
#[derive(Debug)]
pub struct ControlScreen {
    pub stats: Option<ControlStats>,
    pub selected_item: usize,
}

impl ControlScreen {
    /// A control view with no data yet and the cursor on the first item.
    pub fn new() -> (r: ControlScreen)
        ensures
            r.stats is None,
            r.selected_item == 0,
    {
        ControlScreen { stats: None, selected_item: 0 }
    }

    /// Consume the latest control data.
    pub fn update(&mut self, stats: ControlStats)
        ensures
            final(self).stats == Some(stats),
            final(self).selected_item == old(self).selected_item,
    {
        self.stats = Some(stats);
    }

    /// Move the cursor one item up, stopping at the first.
    pub fn select_previous(&mut self)
        ensures
            final(self).selected_item == if old(self).selected_item > 0 {
                old(self).selected_item - 1
            } else {
                0
            },
            final(self).stats == old(self).stats,
    {
        if self.selected_item > 0 {
            self.selected_item = self.selected_item - 1;
        }
    }

    /// Move the cursor one item down, stopping at the last.
    pub fn select_next(&mut self)
        ensures
            final(self).selected_item == if old(self).selected_item < 2 {
                old(self).selected_item + 1
            } else {
                old(self).selected_item as int
            },
            final(self).stats == old(self).stats,
    {
        if self.selected_item < 2 {
            self.selected_item = self.selected_item + 1;
        }
    }

    /// The action a confirmed selection stands for: the items are, in
    /// order, cooling duty, boost mode, performance profile.
    pub fn handle_select(&self) -> (r: ControlAction)
        ensures
            self.selected_item == 0 ==> r == ControlAction::AdjustCoolingDuty,
            self.selected_item == 1 ==> r == ControlAction::ToggleBoostMode,
            self.selected_item == 2 ==> r == ControlAction::SwitchPerformanceProfile,
            self.selected_item > 2 ==> r == ControlAction::NoAction,
    {
        match self.selected_item {
            0 => ControlAction::AdjustCoolingDuty,
            1 => ControlAction::ToggleBoostMode,
            2 => ControlAction::SwitchPerformanceProfile,
            _ => ControlAction::NoAction,
        }
    }
}

/// The info view's data.
#[derive(Debug, Clone)]
pub struct InfoStats {
    pub board: SimpleBoardInfo,
    pub cpu_cores: usize,
    pub cpu_governor: String,
    pub gpu_name: String,
}

/// The info view: board identity and static hardware facts.
#[derive(Debug)]
pub struct InfoScreen {
    pub stats: Option<InfoStats>,
}

impl InfoScreen {
    /// An info view with no data yet.
    pub fn new() -> (r: InfoScreen)
        ensures
            r.stats is None,
    {
        InfoScreen { stats: None }
    }

    /// Consume the latest info data.
    pub fn update(&mut self, stats: InfoStats)
        ensures
            final(self).stats == Some(stats),
    {
        self.stats = Some(stats);
    }
}

/// The memory view's data: the summary and the full breakdown.
#[derive(Debug, Clone)]
pub struct MemoryScreenStats {
    pub memory: SimpleMemoryStats,
    pub full_memory: MemoryStats,
}

/// The memory view.
#[derive(Debug)]
pub struct MemoryScreen {
    pub stats: Option<MemoryScreenStats>,
}

impl MemoryScreen {
    /// A memory view with no data yet.
    pub fn new() -> (r: MemoryScreen)
        ensures
            r.stats is None,
    {
        MemoryScreen { stats: None }
    }

    /// Consume the latest memory data.
    pub fn update(&mut self, stats: MemoryScreenStats)
        ensures
            final(self).stats == Some(stats),
    {
        self.stats = Some(stats);
    }
}

} // verus!
