//! Cooling sampling and the cooling-duty control plan.
//!
//! Cooling devices appear under the thermal directory; their duty is a
//! state count scaled to a percent. The operating-mode classification is
//! a best-effort heuristic over the duty pattern, advisory only. Setting
//! a duty is a privileged write performed by the shell; the library
//! validates the input and computes the exact writes.

use vstd::prelude::*;

use crate::error::Error;
use crate::fsview::FsView;
use crate::temperature::{promoted, zones_model, TemperatureStats};
use crate::text::{chars_of, concat_chars, matches_at};

verus! {

/// One cooling device.
#[derive(Debug, Clone)]
pub struct FanInfo {
    pub index: usize,
    pub name: String,
    /// Duty percent, 0..=100 for sane state files.
    pub speed: u8,
    pub rpm: u32,
}

impl Default for FanInfo {
    /// An absent device.
    fn default() -> (r: FanInfo)
        ensures
            r.index == 0 && r.name@ == Seq::<char>::empty() && r.speed == 0 && r.rpm == 0,
    {
        FanInfo { index: 0, name: String::new(), speed: 0, rpm: 0 }
    }
}

/// The cooling operating mode, inferred, never authoritative.
#[derive(Debug, Clone, Copy, PartialEq, Eq, Structural)]
pub enum FanMode {
    Automatic,
    Manual,
    Off,
    Unknown,
}

impl Default for FanMode {
    /// The assumption before any device has been seen.
    fn default() -> (r: FanMode)
        ensures
            r == FanMode::Automatic,
    {
        FanMode::Automatic
    }
}

/// The cooling sample: overall duty and revolutions, the inferred mode,
/// every device, and the temperature the duty is correlated against
/// (millidegrees Celsius).
#[derive(Debug, Clone)]
pub struct FanStats {
    pub speed: u8,
    pub rpm: u32,
    pub mode: FanMode,
    pub fans: Vec<FanInfo>,
    pub temperature: i64,
}

impl Default for FanStats {
    /// No cooling exposure at all.
    fn default() -> (r: FanStats)
        ensures
            r.speed == 0 && r.rpm == 0 && r.mode == FanMode::Automatic,
            r.fans@.len() == 0 && r.temperature == 0,
    {
        FanStats { speed: 0, rpm: 0, mode: FanMode::Automatic, fans: Vec::new(), temperature: 0 }
    }
}

/// The device index a directory name announces, best-effort zero.
pub open spec fn fan_index_of(name: Seq<char>) -> int {
    let d = name.skip("cooling_device"@.len() as int);
    if d.len() > 0 && crate::text::all_dec_digits(d) && crate::text::dec_value(d) <= usize::MAX {
        crate::text::dec_value(d)
    } else {
        0
    }
}

/// The duty percent a state reading denotes: the current state over the
/// scale, as a percent, capped at the byte range. The scale defaults to
/// one where unreadable, the state to zero.
pub open spec fn duty_of(cur: int, max: int) -> int {
    if max > 0 {
        if cur * 100 / max > 255 {
            255
        } else {
            cur * 100 / max
        }
    } else {
        0
    }
}

/// The device one thermal directory entry denotes, if its name marks a
/// cooling device: (index, name, duty percent, rpm).
pub open spec fn fan_of_entry(fs: &FsView, name: Seq<char>) -> Option<(int, Seq<char>, int, u32)> {
    if matches_at(name, "cooling_device"@, 0) {
        let dir = "/sys/class/thermal/"@ + name;
        let max = match fs.file_at(dir + "/cur_state"@) {
            Some(c) => match crate::fsview::parse_u64_spec(c) {
                Some(v) => if v <= u32::MAX {
                    v as int
                } else {
                    1
                },
                None => 1,
            },
            None => 1,
        };
        let cur = crate::engine::u32_or_zero(fs, dir + "/cur_state"@) as int;
        let rpm = crate::engine::u32_or_zero(fs, dir + "/fan1_input"@);
        Some((fan_index_of(name), name, duty_of(cur, max), rpm))
    } else {
        None
    }
}

/// The cooling devices of a directory listing, in listing order.
pub open spec fn fans_of_names(fs: &FsView, names: Seq<Seq<char>>) -> Seq<(int, Seq<char>, int, u32)>
    decreases names.len(),
{
    if names.len() == 0 {
        Seq::empty()
    } else {
        match fan_of_entry(fs, names[0]) {
            Some(f) => seq![f] + fans_of_names(fs, names.drop_first()),
            None => fans_of_names(fs, names.drop_first()),
        }
    }
}

/// All cooling devices of the snapshot.
pub open spec fn fans_model(fs: &FsView) -> Seq<(int, Seq<char>, int, u32)> {
    match fs.dir_at("/sys/class/thermal"@) {
        Some(ns) => fans_of_names(fs, ns),
        None => Seq::empty(),
    }
}

/// Sum of the duty percents of the modeled devices.
pub open spec fn speed_sum_of(fs: Seq<(int, Seq<char>, int, u32)>) -> int
    decreases fs.len(),
{
    if fs.len() == 0 {
        0
    } else {
        fs[0].2 + speed_sum_of(fs.drop_first())
    }
}

/// Sum of the revolution readings of the modeled devices.
pub open spec fn rpm_sum_of(fs: Seq<(int, Seq<char>, int, u32)>) -> int
    decreases fs.len(),
{
    if fs.len() == 0 {
        0
    } else {
        fs[0].3 + rpm_sum_of(fs.drop_first())
    }
}

/// The overall duty percent: the device average, zero with none.
pub open spec fn fan_speed_model(fs: &FsView) -> int {
    let m = fans_model(fs);
    if m.len() == 0 {
        0
    } else {
        speed_sum_of(m) / m.len() as int
    }
}

/// The overall revolution reading: the device average, zero with none.
pub open spec fn fan_rpm_model(fs: &FsView) -> int {
    let m = fans_model(fs);
    if m.len() == 0 {
        0
    } else {
        rpm_sum_of(m) / m.len() as int
    }
}

/// The inferred operating mode of a device list: unknown with no
/// devices, off when every duty is zero, else assumed manual.
pub open spec fn fan_mode_model(fans: Seq<FanInfo>) -> FanMode {
    if fans.len() == 0 {
        FanMode::Unknown
    } else if forall|i: int| 0 <= i < fans.len() ==> (#[trigger] fans[i]).speed == 0 {
        FanMode::Off
    } else {
        FanMode::Manual
    }
}

/// The temperature the cooling duty is correlated against: the average
/// of the CPU and GPU readings where both exist, else whichever exists,
/// else the board reading, else zero.
pub open spec fn correlated_temp(cpu: int, gpu: int, board: int) -> int {
    if cpu > 0 && gpu > 0 {
        (cpu + gpu) / 2
    } else if cpu > 0 {
        cpu
    } else if gpu > 0 {
        gpu
    } else if board > 0 {
        board
    } else {
        0
    }
}

/// Read every cooling device the snapshot lists.
pub fn read_cooling_devices(fs: &FsView) -> (r: Vec<FanInfo>)
    ensures
        r@.len() == fans_model(fs).len(),
        forall|i: int|
            0 <= i < r@.len() ==> {
                let f = #[trigger] fans_model(fs)[i];
                r@[i].index == f.0 && r@[i].name@ == f.1 && r@[i].speed as int == f.2 && r@[i].rpm
                    == f.3
            },
{
    let dir = chars_of("/sys/class/thermal");
    let names = match fs.list(dir.as_slice()) {
        Some(ns) => ns,
        None => {
            return Vec::new();
        }
    };
    let ghost nsv = names@.map_values(|v: String| v@);
    let prefix = chars_of("cooling_device");
    let n: usize = names.len();
    let mut out: Vec<FanInfo> = Vec::new();
    let mut i: usize = 0;
    proof {
        assert(nsv.skip(0) =~= nsv);
    }
    while i < n
        invariant
            n == names@.len(),
            nsv == names@.map_values(|v: String| v@),
            fs.dir_at("/sys/class/thermal"@) == Some(nsv),
            i <= n,
            prefix@ == "cooling_device"@,
            fans_of_names(fs, nsv) =~= out@.map_values(
                |f: FanInfo| (f.index as int, f.name@, f.speed as int, f.rpm),
            ) + fans_of_names(fs, nsv.skip(i as int)),
        decreases n - i,
    {
        proof {
            assert(nsv.skip(i as int).drop_first() =~= nsv.skip(i as int + 1));
            assert(nsv.skip(i as int)[0] == nsv[i as int]);
        }
        let name = chars_of(names[i].as_str());
        if crate::text::starts_with(name.as_slice(), prefix.as_slice()) {
            let nl: usize = name.len();
            let pl: usize = prefix.len();
            let digits = &name.as_slice()[pl..nl];
            proof {
                assert(name@ == nsv[i as int]);
                assert(digits@ =~= nsv[i as int].skip("cooling_device"@.len() as int));
            }
            let index: usize = match crate::text::parse_u64(digits) {
                Some(v) => if v <= usize::MAX as u64 {
                    v as usize
                } else {
                    0
                },
                None => 0,
            };
            let fdir = concat_chars(chars_of("/sys/class/thermal/").as_slice(), name.as_slice());
            let state_path = concat_chars(fdir.as_slice(), chars_of("/cur_state").as_slice());
            let rpm_path = concat_chars(fdir.as_slice(), chars_of("/fan1_input").as_slice());
            let max_state: u32 = match fs.read_u64(state_path.as_slice()) {
                Some(v) => if v <= u32::MAX as u64 {
                    v as u32
                } else {
                    1
                },
                None => 1,
            };
            let cur_state: u32 = crate::engine::read_u32_or_zero(fs, state_path.as_slice());
            let speed: u8 = if max_state > 0 {
                let d: u64 = cur_state as u64 * 100 / max_state as u64;
                if d > 255 {
                    255
                } else {
                    d as u8
                }
            } else {
                0
            };
            let rpm = crate::engine::read_u32_or_zero(fs, rpm_path.as_slice());
            let name_str = names[i].clone();
            out.push(FanInfo { index, name: name_str, speed, rpm });
        }
        i += 1;
    }
    proof {
        assert(nsv.skip(n as int) =~= Seq::<Seq<char>>::empty());
        let m = out@.map_values(|f: FanInfo| (f.index as int, f.name@, f.speed as int, f.rpm));
        assert(fans_of_names(fs, nsv) =~= m + fans_of_names(fs, nsv.skip(n as int)));
        assert forall|j: int| 0 <= j < out@.len() implies {
            let f = #[trigger] fans_model(fs)[j];
            out@[j].index == f.0 && out@[j].name@ == f.1 && out@[j].speed as int == f.2
                && out@[j].rpm == f.3
        } by {
            assert(fans_model(fs)[j] == m[j]);
        }
    }
    out
}

/// The inferred operating mode of the given devices.
pub fn detect_fan_mode(fans: &Vec<FanInfo>) -> (r: FanMode)
    ensures
        r == fan_mode_model(fans@),
{
    let n: usize = fans.len();
    if n == 0 {
        return FanMode::Unknown;
    }
    let mut i: usize = 0;
    while i < n
        invariant
            n == fans@.len(),
            i <= n,
            forall|j: int| 0 <= j < i ==> (#[trigger] fans@[j]).speed == 0,
        decreases n - i,
    {
        if fans[i].speed != 0 {
            return FanMode::Manual;
        }
        i += 1;
    }
    FanMode::Off
}

impl FanStats {
    /// One cooling sample: every device, the duty and revolution
    /// averages, the inferred mode, and the correlated temperature.
    /// A board without the thermal tree at all reads as the default —
    /// mode assumed automatic; a tree that lists no cooling device
    /// reads as mode unknown.
    pub fn get(fs: &FsView) -> (r: FanStats)
        ensures
            r.fans@.len() == fans_model(fs).len(),
            forall|i: int|
                0 <= i < r.fans@.len() ==> {
                    let f = #[trigger] fans_model(fs)[i];
                    r.fans@[i].index == f.0 && r.fans@[i].name@ == f.1 && r.fans@[i].speed as int
                        == f.2 && r.fans@[i].rpm == f.3
                },
            fs.dir_at("/sys/class/thermal"@) is None ==> r.mode == FanMode::Automatic
                && r.temperature == 0,
            fs.dir_at("/sys/class/thermal"@) is Some ==> r.mode == fan_mode_model(r.fans@),
            r.speed as int == fan_speed_model(fs),
            r.rpm as int == fan_rpm_model(fs),
            r.temperature == correlated_temp(
                promoted(zones_model(fs), 0) as int,
                promoted(zones_model(fs), 1) as int,
                promoted(zones_model(fs), 3) as int,
            ),
    {
        let root = chars_of("/sys/class/thermal");
        if fs.list(root.as_slice()).is_none() {
            return FanStats::default();
        }
        let fans = read_cooling_devices(fs);
        let ghost fm = fans_model(fs);
        let n: usize = fans.len();
        let mut speed: u8 = 0;
        let mut rpm: u32 = 0;
        if n > 0 {
            let mut speed_sum: u128 = 0;
            let mut rpm_sum: u128 = 0;
            let mut i: usize = 0;
            proof {
                assert(fm.skip(0) =~= fm);
            }
            while i < n
                invariant
                    n == fans@.len(),
                    n == fm.len(),
                    fm == fans_model(fs),
                    i <= n,
                    forall|j: int|
                        0 <= j < n ==> (#[trigger] fans@[j]).speed as int == fm[j].2
                            && fans@[j].rpm == fm[j].3,
                    speed_sum <= 255 * (i as int),
                    rpm_sum <= u32::MAX * (i as int),
                    speed_sum_of(fm) == speed_sum + speed_sum_of(fm.skip(i as int)),
                    rpm_sum_of(fm) == rpm_sum + rpm_sum_of(fm.skip(i as int)),
                decreases n - i,
            {
                proof {
                    assert(fm.skip(i as int).drop_first() =~= fm.skip(i as int + 1));
                    assert(fm.skip(i as int)[0] == fm[i as int]);
                }
                speed_sum = speed_sum + fans[i].speed as u128;
                rpm_sum = rpm_sum + fans[i].rpm as u128;
                i += 1;
            }
            proof {
                assert(fm.skip(n as int) =~= Seq::<(int, Seq<char>, int, u32)>::empty());
                assert(speed_sum / (n as u128) <= 255) by (nonlinear_arith)
                    requires
                        speed_sum <= 255 * (n as int),
                        n > 0,
                ;
                assert(rpm_sum / (n as u128) <= u32::MAX) by (nonlinear_arith)
                    requires
                        rpm_sum <= u32::MAX * (n as int),
                        n > 0,
                ;
            }
            speed = (speed_sum / (n as u128)) as u8;
            rpm = (rpm_sum / (n as u128)) as u32;
        }
        let mode = detect_fan_mode(&fans);
        let temps = TemperatureStats::get(fs);
        let temperature = correlate_fan_temp(temps.cpu, temps.gpu, temps.board);
        FanStats { speed, rpm, mode, fans, temperature }
    }

    /// Validate a duty request and compute the privileged writes that
    /// apply it: for every cooling device, disable the automatic state
    /// and set the scaled pulse width. The input is checked before
    /// anything else — an out-of-range duty never produces a write, and
    /// a board without a thermal directory cannot be driven at all.
    pub fn set_speed_plan(fs: &FsView, speed: u8) -> (r: Result<Vec<(Vec<char>, Vec<char>)>, Error>)
        ensures
            speed > 100 <==> (r matches Err(e) && e is InvalidInput),
            speed <= 100 && fs.dir_at("/sys/class/thermal"@) is None <==> (r matches Err(e)
                && e is HardwareNotFound),
            r is Ok <==> speed <= 100 && fs.dir_at("/sys/class/thermal"@) is Some,
            r matches Ok(plan) ==> plan@.len() == 2 * fans_model(fs).len(),
            r matches Ok(plan) ==> plan_writes(plan@, fs, speed as int),
    {
        if speed > 100 {
            return Err(Error::InvalidInput("Speed must be 0-100".to_owned()));
        }
        let dir = chars_of("/sys/class/thermal");
        if fs.list(dir.as_slice()).is_none() {
            return Err(Error::HardwareNotFound("Thermal system not found".to_owned()));
        }
        let fans = read_cooling_devices(fs);
        let pwm: u64 = {
            let v: u64 = speed as u64 * 255 / 100;
            if v > 255 {
                255
            } else {
                v
            }
        };
        let pwm_chars = crate::text::u64_to_chars(pwm);
        let disabled = chars_of("disabled");
        let n: usize = fans.len();
        let mut plan: Vec<(Vec<char>, Vec<char>)> = Vec::new();
        let mut i: usize = 0;
        while i < n
            invariant
                n == fans@.len(),
                n == fans_model(fs).len(),
                i <= n,
                plan@.len() == 2 * i,
                pwm == pwm_of(speed as int),
                pwm_chars@ == crate::text::dec_chars(pwm as int),
                disabled@ == "disabled"@,
                forall|j: int|
                    0 <= j < n ==> (#[trigger] fans@[j]).index as int == fans_model(fs)[j].0,
                forall|j: int|
                    0 <= j < i ==> {
                        let f = #[trigger] fans_model(fs)[j];
                        let base = "/sys/class/thermal/cooling_device"@ + crate::text::dec_chars(
                            f.0,
                        );
                        plan@[2 * j].0@ == base + "/cur_state"@ && plan@[2 * j].1@ == "disabled"@
                            && plan@[2 * j + 1].0@ == base + "/cur_pwm"@ && plan@[2 * j + 1].1@
                            == crate::text::dec_chars(pwm_of(speed as int))
                    },
            decreases n - i,
        {
            let digits = crate::text::u64_to_chars(fans[i].index as u64);
            let base = concat_chars(
                chars_of("/sys/class/thermal/cooling_device").as_slice(),
                digits.as_slice(),
            );
            let state_path = concat_chars(base.as_slice(), chars_of("/cur_state").as_slice());
            let pwm_path = concat_chars(base.as_slice(), chars_of("/cur_pwm").as_slice());
            plan.push((state_path, vstd::slice::slice_to_vec(disabled.as_slice())));
            plan.push((pwm_path, vstd::slice::slice_to_vec(pwm_chars.as_slice())));
            i += 1;
        }
        proof {
            assert forall|j: int| 0 <= j < fans_model(fs).len() implies #[trigger] plan_entry_ok(
                plan@,
                fs,
                speed as int,
                j,
            ) by {
                let f = fans_model(fs)[j];
                let base = "/sys/class/thermal/cooling_device"@ + crate::text::dec_chars(f.0);
                assert(plan@[2 * j].0@ =~= base + "/cur_state"@);
                assert(plan@[2 * j].1@ =~= "disabled"@);
                assert(plan@[2 * j + 1].0@ =~= base + "/cur_pwm"@);
                assert(plan@[2 * j + 1].1@ =~= crate::text::dec_chars(pwm_of(speed as int)));
            }
        }
        Ok(plan)
    }
}

/// One device's pair of writes in a duty plan: disable the automatic
/// state, then set the scaled pulse width.
pub open spec fn plan_entry_ok(
    plan: Seq<(Vec<char>, Vec<char>)>,
    fs: &FsView,
    speed: int,
    i: int,
) -> bool {
    let f = fans_model(fs)[i];
    let base = "/sys/class/thermal/cooling_device"@ + crate::text::dec_chars(f.0);
    plan[2 * i].0@ == base + "/cur_state"@ && plan[2 * i].1@ == "disabled"@ && plan[2 * i
        + 1].0@ == base + "/cur_pwm"@ && plan[2 * i + 1].1@ == crate::text::dec_chars(
        pwm_of(speed),
    )
}

/// Every listed cooling device gets its pair of writes.
pub open spec fn plan_writes(plan: Seq<(Vec<char>, Vec<char>)>, fs: &FsView, speed: int) -> bool {
    forall|i: int| 0 <= i < fans_model(fs).len() ==> #[trigger] plan_entry_ok(plan, fs, speed, i)
}

/// The pulse-width value a duty percent scales to.
pub open spec fn pwm_of(speed: int) -> int {
    if speed * 255 / 100 > 255 {
        255
    } else {
        speed * 255 / 100
    }
}

/// The correlated temperature, as `correlated_temp` states it.
fn correlate_fan_temp(cpu: i64, gpu: i64, board: i64) -> (r: i64)
    ensures
        r as int == correlated_temp(cpu as int, gpu as int, board as int),
{
    if cpu > 0 && gpu > 0 {
        let s: i128 = cpu as i128 + gpu as i128;
        proof {
            assert(s / 2 <= i64::MAX);
            assert(s / 2 >= 0);
        }
        (s / 2) as i64
    } else if cpu > 0 {
        cpu
    } else if gpu > 0 {
        gpu
    } else if board > 0 {
        board
    } else {
        0
    }
}

} // verus!
