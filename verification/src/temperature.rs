//! Thermal sampling: every zone the kernel lists, plus the promotion of
//! known zones (CPU, GPU, PMIC, board) to named fields.
//!
//! All temperatures are millidegrees Celsius, exactly as the kernel
//! writes them; a missing or malformed reading is zero.

use vstd::prelude::*;

use crate::fsview::FsView;
use crate::text::{
    chars_of, contains, contains_seq, lower_seq, matches_at, parse_i64,
    signed_value_spec, trim_bounds, trim_str, trimmed,
};

verus! {

/// One thermal zone: its index, type name and trip temperatures, in
/// millidegrees Celsius.
#[derive(Debug, Clone)]
pub struct ThermalZone {
    pub index: usize,
    pub name: String,
    pub current_temp: i64,
    pub max_temp: i64,
    pub critical_temp: i64,
}

/// The thermal sample: named readings and the raw zone list. A zone that
/// matches no known name still appears in the list, just not promoted.
#[derive(Debug, Clone)]
pub struct TemperatureStats {
    pub cpu: i64,
    pub gpu: i64,
    pub board: i64,
    pub pmic: i64,
    pub thermal_zones: Vec<ThermalZone>,
}

impl Default for TemperatureStats {
    /// No thermal exposure at all: all zeros, no zones.
    fn default() -> (r: TemperatureStats)
        ensures
            r.cpu == 0 && r.gpu == 0 && r.board == 0 && r.pmic == 0,
            r.thermal_zones@.len() == 0,
    {
        TemperatureStats { cpu: 0, gpu: 0, board: 0, pmic: 0, thermal_zones: Vec::new() }
    }
}

/// A millidegree reading from one pseudo-file: trim and parse as a
/// signed decimal, zero on any failure.
pub open spec fn millideg_of(fs: &FsView, p: Seq<char>) -> i64 {
    match fs.file_at(p) {
        Some(c) => match signed_value_spec(trimmed(c)) {
            Some(v) => v,
            None => 0,
        },
        None => 0,
    }
}

/// The zone index a directory name announces, best-effort zero.
pub open spec fn zone_index_of(name: Seq<char>) -> int {
    let d = name.skip("thermal_zone"@.len() as int);
    if d.len() > 0 && crate::text::all_dec_digits(d) && crate::text::dec_value(d) <= usize::MAX {
        crate::text::dec_value(d)
    } else {
        0
    }
}

/// The zone one thermal directory entry denotes, if its name marks it
/// as a thermal zone.
pub open spec fn zone_of_entry(fs: &FsView, name: Seq<char>) -> Option<(int, Seq<char>, i64, i64, i64)> {
    if matches_at(name, "thermal_zone"@, 0) {
        let dir = "/sys/class/thermal/"@ + name;
        let zname = match fs.file_at(dir + "/type"@) {
            Some(c) => trimmed(c),
            None => "unknown"@,
        };
        Some(
            (
                zone_index_of(name),
                zname,
                millideg_of(fs, dir + "/temp"@),
                millideg_of(fs, dir + "/trip_point_0_temp"@),
                millideg_of(fs, dir + "/crit_temp"@),
            ),
        )
    } else {
        None
    }
}

/// The zones of a directory listing, in listing order.
pub open spec fn zones_of_names(fs: &FsView, names: Seq<Seq<char>>) -> Seq<
    (int, Seq<char>, i64, i64, i64),
>
    decreases names.len(),
{
    if names.len() == 0 {
        Seq::empty()
    } else {
        match zone_of_entry(fs, names[0]) {
            Some(z) => seq![z] + zones_of_names(fs, names.drop_first()),
            None => zones_of_names(fs, names.drop_first()),
        }
    }
}

/// All zones of the snapshot: none without the thermal directory.
pub open spec fn zones_model(fs: &FsView) -> Seq<(int, Seq<char>, i64, i64, i64)> {
    match fs.dir_at("/sys/class/thermal"@) {
        Some(ns) => zones_of_names(fs, ns),
        None => Seq::empty(),
    }
}

/// Does a zone name, case-insensitively, mark the CPU zone?
pub open spec fn is_cpu_zone(name: Seq<char>) -> bool {
    contains_seq(lower_seq(name), "cpu"@)
}

/// Does a zone name mark the GPU zone? Checked after CPU, as the
/// classification takes the first matching category per zone.
pub open spec fn is_gpu_zone(name: Seq<char>) -> bool {
    contains_seq(lower_seq(name), "gpu"@)
}

/// Does a zone name mark the power-management IC zone?
pub open spec fn is_pmic_zone(name: Seq<char>) -> bool {
    contains_seq(lower_seq(name), "pmic"@)
}

/// Does a zone name mark the board zone?
pub open spec fn is_board_zone(name: Seq<char>) -> bool {
    contains_seq(lower_seq(name), "board"@) || contains_seq(lower_seq(name), "tboard"@)
}

/// The promoted reading of one category: the temperature of the last
/// zone that classifies into it, zero where none does. Later zones win,
/// as each match overwrites the field.
pub open spec fn promoted(zs: Seq<(int, Seq<char>, i64, i64, i64)>, which: int) -> i64
    decreases zs.len(),
{
    if zs.len() == 0 {
        0
    } else {
        let z = zs.last();
        let hit = if which == 0 {
            is_cpu_zone(z.1)
        } else if which == 1 {
            !is_cpu_zone(z.1) && is_gpu_zone(z.1)
        } else if which == 2 {
            !is_cpu_zone(z.1) && !is_gpu_zone(z.1) && is_pmic_zone(z.1)
        } else {
            !is_cpu_zone(z.1) && !is_gpu_zone(z.1) && !is_pmic_zone(z.1) && is_board_zone(z.1)
        };
        if hit {
            z.2
        } else {
            promoted(zs.drop_last(), which)
        }
    }
}

/// Read a millidegree pseudo-file.
fn read_millideg(fs: &FsView, p: &[char]) -> (r: i64)
    ensures
        r == millideg_of(fs, p@),
{
    match fs.read(p) {
        Some(c) => {
            let cv = chars_of(c.as_str());
            let (a, b) = trim_bounds(cv.as_slice());
            match parse_i64(&cv.as_slice()[a..b]) {
                Some(v) => v,
                None => 0,
            }
        }
        None => 0,
    }
}

/// Read every thermal zone the snapshot lists.
pub fn read_thermal_zones(fs: &FsView) -> (r: Vec<ThermalZone>)
    ensures
        r@.len() == zones_model(fs).len(),
        forall|i: int|
            0 <= i < r@.len() ==> {
                let z = #[trigger] zones_model(fs)[i];
                r@[i].index == z.0 && r@[i].name@ == z.1 && r@[i].current_temp == z.2
                    && r@[i].max_temp == z.3 && r@[i].critical_temp == z.4
            },
{
    let dir = chars_of("/sys/class/thermal");
    let names = match fs.list(dir.as_slice()) {
        Some(ns) => ns,
        None => {
            return Vec::new();
        }
    };
    let ghost nsv = names@.map_values(|v: String| v@);
    let prefix = chars_of("thermal_zone");
    let n: usize = names.len();
    let mut out: Vec<ThermalZone> = Vec::new();
    let mut i: usize = 0;
    proof {
        assert(nsv.skip(0) =~= nsv);
    }
    while i < n
        invariant
            n == names@.len(),
            nsv == names@.map_values(|v: String| v@),
            fs.dir_at("/sys/class/thermal"@) == Some(nsv),
            i <= n,
            prefix@ == "thermal_zone"@,
            zones_of_names(fs, nsv) =~= out@.map_values(
                |z: ThermalZone| (z.index as int, z.name@, z.current_temp, z.max_temp, z.critical_temp),
            ) + zones_of_names(fs, nsv.skip(i as int)),
        decreases n - i,
    {
        proof {
            assert(nsv.skip(i as int).drop_first() =~= nsv.skip(i as int + 1));
            assert(nsv.skip(i as int)[0] == nsv[i as int]);
        }
        let name = chars_of(names[i].as_str());
        if crate::text::starts_with(name.as_slice(), prefix.as_slice()) {
            let nl: usize = name.len();
            let pl: usize = prefix.len();
            let digits = &name.as_slice()[pl..nl];
            proof {
                assert(name@ == nsv[i as int]);
                assert(digits@ =~= nsv[i as int].skip("thermal_zone"@.len() as int));
            }
            let index: usize = match crate::text::parse_u64(digits) {
                Some(v) => if v <= usize::MAX as u64 {
                    v as usize
                } else {
                    0
                },
                None => 0,
            };
            let zdir = crate::text::concat_chars(
                chars_of("/sys/class/thermal/").as_slice(),
                name.as_slice(),
            );
            let type_path = crate::text::concat_chars(
                zdir.as_slice(),
                chars_of("/type").as_slice(),
            );
            let zname: String = match fs.read(type_path.as_slice()) {
                Some(c) => trim_str(c.as_str()),
                None => "unknown".to_owned(),
            };
            let temp_path = crate::text::concat_chars(
                zdir.as_slice(),
                chars_of("/temp").as_slice(),
            );
            let trip_path = crate::text::concat_chars(
                zdir.as_slice(),
                chars_of("/trip_point_0_temp").as_slice(),
            );
            let crit_path = crate::text::concat_chars(
                zdir.as_slice(),
                chars_of("/crit_temp").as_slice(),
            );
            let zone = ThermalZone {
                index,
                name: zname,
                current_temp: read_millideg(fs, temp_path.as_slice()),
                max_temp: read_millideg(fs, trip_path.as_slice()),
                critical_temp: read_millideg(fs, crit_path.as_slice()),
            };
            out.push(zone);
        }
        i += 1;
    }
    proof {
        assert(nsv.skip(n as int) =~= Seq::<Seq<char>>::empty());
        let m = out@.map_values(
            |z: ThermalZone| (z.index as int, z.name@, z.current_temp, z.max_temp, z.critical_temp),
        );
        assert(zones_of_names(fs, nsv) =~= m + zones_of_names(fs, nsv.skip(n as int)));
        assert forall|j: int| 0 <= j < out@.len() implies {
            let z = #[trigger] zones_model(fs)[j];
            out@[j].index == z.0 && out@[j].name@ == z.1 && out@[j].current_temp == z.2
                && out@[j].max_temp == z.3 && out@[j].critical_temp == z.4
        } by {
            assert(zones_model(fs)[j] == m[j]);
        }
    }
    out
}

impl TemperatureStats {
    /// One thermal sample: every listed zone, with the known categories
    /// promoted to their named fields; a zone falling in no category
    /// stays in the list only.
    pub fn get(fs: &FsView) -> (r: TemperatureStats)
        ensures
            r.thermal_zones@.len() == zones_model(fs).len(),
            forall|i: int|
                0 <= i < r.thermal_zones@.len() ==> {
                    let z = #[trigger] zones_model(fs)[i];
                    r.thermal_zones@[i].index == z.0 && r.thermal_zones@[i].name@ == z.1
                        && r.thermal_zones@[i].current_temp == z.2 && r.thermal_zones@[i].max_temp
                        == z.3 && r.thermal_zones@[i].critical_temp == z.4
                },
            r.cpu == promoted(zones_model(fs), 0),
            r.gpu == promoted(zones_model(fs), 1),
            r.pmic == promoted(zones_model(fs), 2),
            r.board == promoted(zones_model(fs), 3),
    {
        let zones = read_thermal_zones(fs);
        let ghost zm = zones_model(fs);
        let cpu_pat = chars_of("cpu");
        let gpu_pat = chars_of("gpu");
        let pmic_pat = chars_of("pmic");
        let board_pat = chars_of("board");
        let tboard_pat = chars_of("tboard");
        let mut cpu: i64 = 0;
        let mut gpu: i64 = 0;
        let mut pmic: i64 = 0;
        let mut board: i64 = 0;
        let n: usize = zones.len();
        let mut i: usize = 0;
        proof {
            assert(zm.take(0) =~= Seq::<(int, Seq<char>, i64, i64, i64)>::empty());
        }
        while i < n
            invariant
                n == zones@.len(),
                n == zm.len(),
                i <= n,
                cpu_pat@ == "cpu"@ && gpu_pat@ == "gpu"@ && pmic_pat@ == "pmic"@,
                board_pat@ == "board"@ && tboard_pat@ == "tboard"@,
                forall|j: int|
                    0 <= j < n ==> {
                        let z = #[trigger] zm[j];
                        zones@[j].index == z.0 && zones@[j].name@ == z.1 && zones@[j].current_temp
                            == z.2 && zones@[j].max_temp == z.3 && zones@[j].critical_temp == z.4
                    },
                cpu == promoted(zm.take(i as int), 0),
                gpu == promoted(zm.take(i as int), 1),
                pmic == promoted(zm.take(i as int), 2),
                board == promoted(zm.take(i as int), 3),
            decreases n - i,
        {
            proof {
                assert(zm.take(i as int + 1).drop_last() =~= zm.take(i as int));
                assert(zm.take(i as int + 1).last() == zm[i as int]);
            }
            let name_chars = chars_of(zones[i].name.as_str());
            let lower = crate::text::lower_all(name_chars.as_slice());
            if contains(lower.as_slice(), cpu_pat.as_slice()) {
                cpu = zones[i].current_temp;
            } else if contains(lower.as_slice(), gpu_pat.as_slice()) {
                gpu = zones[i].current_temp;
            } else if contains(lower.as_slice(), pmic_pat.as_slice()) {
                pmic = zones[i].current_temp;
            } else if contains(lower.as_slice(), board_pat.as_slice()) || contains(
                lower.as_slice(),
                tboard_pat.as_slice(),
            ) {
                board = zones[i].current_temp;
            }
            i += 1;
        }
        proof {
            assert(zm.take(n as int) =~= zm);
        }
        TemperatureStats { cpu, gpu, board, pmic, thermal_zones: zones }
    }
}

} // verus!
