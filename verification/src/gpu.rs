//! Accelerator sampling: frequency scaling, load, thermal reading and
//! activity flags.
//!
//! Two mutually exclusive sourcing strategies exist: the legacy sysfs
//! strategy implemented here, and a vendor-management-library strategy
//! for newer firmware. Which one a process uses is decided once at
//! startup from the firmware version and never re-evaluated per tick;
//! the vendor-library calls themselves live in the unverified shell.

use vstd::prelude::*;

use crate::fsview::FsView;
use crate::temperature::{promoted, zones_model, TemperatureStats};
use crate::text::{
    chars_eq, chars_of, concat_chars, contains, contains_seq, lower_all, lower_seq,
    sep_split_spec, split_sep, trim_str, trimmed,
};

verus! {

/// The accelerator sample. Usage is a percent; the temperature is
/// millidegrees Celsius.
#[derive(Debug, Clone)]
pub struct GpuStats {
    pub usage: u8,
    pub frequency: u32,
    pub temperature: i64,
    pub governor: String,
    pub memory_used: u64,
    pub memory_total: u64,
    pub state: String,
    pub active_functions: Vec<String>,
}

impl Default for GpuStats {
    /// No accelerator exposure at all.
    fn default() -> (r: GpuStats)
        ensures
            r.usage == 0 && r.frequency == 0 && r.temperature == 0,
            r.governor@ == Seq::<char>::empty(),
            r.memory_used == 0 && r.memory_total == 0,
            r.state@ == Seq::<char>::empty(),
            r.active_functions@.len() == 0,
    {
        GpuStats {
            usage: 0,
            frequency: 0,
            temperature: 0,
            governor: String::new(),
            memory_used: 0,
            memory_total: 0,
            state: String::new(),
            active_functions: Vec::new(),
        }
    }
}

/// The sourcing strategy for accelerator data, fixed for the process
/// lifetime.
#[derive(Debug, Clone, Copy, PartialEq, Eq, Structural)]
pub enum AcceleratorSource {
    /// The legacy strategy: read the scaling and load pseudo-files.
    Sysfs,
    /// The strategy for newer firmware: query the vendor management
    /// library, which the unverified shell owns.
    VendorLibrary,
}

/// Whether a firmware version line selects the vendor-library
/// strategy: its first two dot-parts must parse, and the major release
/// must be at or past the threshold where the library became the
/// supported interface.
pub open spec fn vendor_library_selected(l4t: Seq<char>) -> bool {
    let parts = sep_split_spec(l4t, '.');
    parts.len() >= 2 && parses_u32(parts[0]) && parses_u32(parts[1]) && crate::text::dec_value(
        parts[0],
    ) >= 38
}

/// Does a piece parse as a 32-bit number?
pub open spec fn parses_u32(s: Seq<char>) -> bool {
    s.len() > 0 && crate::text::all_dec_digits(s) && crate::text::dec_value(s) <= u32::MAX
}

/// Choose the sourcing strategy once, from the firmware version probe.
pub fn choose_source(l4t: &str) -> (r: AcceleratorSource)
    ensures
        r == (if vendor_library_selected(l4t@) {
            AcceleratorSource::VendorLibrary
        } else {
            AcceleratorSource::Sysfs
        }),
{
    let cv = chars_of(l4t);
    let parts = split_sep(cv.as_slice(), '.');
    if parts.len() < 2 {
        return AcceleratorSource::Sysfs;
    }
    let major = crate::text::parse_u64(parts[0].as_slice());
    let minor = crate::text::parse_u64(parts[1].as_slice());
    proof {
        let pv = parts@.map_values(|p: Vec<char>| p@);
        assert(pv == sep_split_spec(l4t@, '.'));
        assert(parts@[0]@ == pv[0]);
        assert(parts@[1]@ == pv[1]);
    }
    match (major, minor) {
        (Some(ma), Some(mi)) => {
            if ma <= u32::MAX as u64 && mi <= u32::MAX as u64 && ma >= 38 {
                AcceleratorSource::VendorLibrary
            } else {
                AcceleratorSource::Sysfs
            }
        }
        _ => AcceleratorSource::Sysfs,
    }
}

/// The known frequency-scaling directory names, most specific first;
/// the bare name is the generic fallback.
pub open spec fn devfreq_candidates() -> Seq<Seq<char>> {
    seq!["gpu-gpc-0"@, "gpu-nvd-0"@, "gpu"@]
}

/// The accelerator's frequency-scaling entry: the first known candidate
/// listed under devfreq, else the first listed name that carries an
/// accelerator marker, else none.
pub open spec fn gpu_devfreq_model(fs: &FsView) -> Option<Seq<char>> {
    match fs.dir_at("/sys/class/devfreq"@) {
        Some(ns) => {
            match first_candidate(ns, devfreq_candidates()) {
                Some(c) => Some(c),
                None => first_marked(ns),
            }
        },
        None => None,
    }
}

/// The first candidate that occurs in the listing.
pub open spec fn first_candidate(ns: Seq<Seq<char>>, cands: Seq<Seq<char>>) -> Option<Seq<char>>
    decreases cands.len(),
{
    if cands.len() == 0 {
        None
    } else if ns.contains(cands[0]) {
        Some(cands[0])
    } else {
        first_candidate(ns, cands.drop_first())
    }
}

/// The first listed name carrying an accelerator marker.
pub open spec fn first_marked(ns: Seq<Seq<char>>) -> Option<Seq<char>>
    decreases ns.len(),
{
    if ns.len() == 0 {
        None
    } else if contains_seq(lower_seq(ns[0]), "gpu"@) || contains_seq(lower_seq(ns[0]), "gv11b"@) {
        Some(ns[0])
    } else {
        first_marked(ns.drop_first())
    }
}

/// Find the accelerator's frequency-scaling entry name.
pub fn find_gpu_devfreq(fs: &FsView) -> (r: Option<String>)
    ensures
        match gpu_devfreq_model(fs) {
            Some(m) => r matches Some(s) && s@ == m,
            None => r is None,
        },
{
    let dir = chars_of("/sys/class/devfreq");
    let names = match fs.list(dir.as_slice()) {
        Some(ns) => ns,
        None => {
            return None;
        }
    };
    let ghost nsv = names@.map_values(|v: String| v@);
    let mut cands: Vec<&str> = Vec::new();
    cands.push("gpu-gpc-0");
    cands.push("gpu-nvd-0");
    cands.push("gpu");
    let ghost cv = cands@.map_values(|c: &str| c@);
    proof {
        assert(cv =~= devfreq_candidates());
        assert(cv.skip(0) =~= cv);
    }
    let nc: usize = cands.len();
    let mut ci: usize = 0;
    while ci < nc
        invariant
            nc == cands@.len(),
            cv == cands@.map_values(|c: &str| c@),
            fs.dir_at("/sys/class/devfreq"@) == Some(nsv),
            nsv == names@.map_values(|v: String| v@),
            ci <= nc,
            cv == devfreq_candidates(),
            first_candidate(nsv, cv) == first_candidate(nsv, cv.skip(ci as int)),
        decreases nc - ci,
    {
        proof {
            assert(cv.skip(ci as int).drop_first() =~= cv.skip(ci as int + 1));
            assert(cv.skip(ci as int)[0] == cv[ci as int]);
        }
        if listed(names, cands[ci]) {
            proof {
                assert(first_candidate(nsv, cv.skip(ci as int)) == Some(cv[ci as int]));
            }
            return Some(cands[ci].to_owned());
        }
        ci += 1;
    }
    proof {
        assert(cv.skip(nc as int) =~= Seq::<Seq<char>>::empty());
        assert(first_candidate(nsv, cv) is None);
    }
    let gpu_pat = chars_of("gpu");
    let gv_pat = chars_of("gv11b");
    let n: usize = names.len();
    let mut i: usize = 0;
    proof {
        assert(nsv.skip(0) =~= nsv);
    }
    while i < n
        invariant
            n == names@.len(),
            nsv == names@.map_values(|v: String| v@),
            fs.dir_at("/sys/class/devfreq"@) == Some(nsv),
            first_candidate(nsv, devfreq_candidates()) is None,
            i <= n,
            gpu_pat@ == "gpu"@ && gv_pat@ == "gv11b"@,
            first_marked(nsv) == first_marked(nsv.skip(i as int)),
        decreases n - i,
    {
        proof {
            assert(nsv.skip(i as int).drop_first() =~= nsv.skip(i as int + 1));
            assert(nsv.skip(i as int)[0] == nsv[i as int]);
        }
        let name = chars_of(names[i].as_str());
        let l = lower_all(name.as_slice());
        if contains(l.as_slice(), gpu_pat.as_slice()) || contains(l.as_slice(), gv_pat.as_slice())
        {
            return Some(names[i].clone());
        }
        i += 1;
    }
    proof {
        assert(nsv.skip(n as int) =~= Seq::<Seq<char>>::empty());
    }
    None
}

/// Is one name among the listed ones?
fn listed(names: &Vec<String>, target: &str) -> (r: bool)
    ensures
        r == names@.map_values(|v: String| v@).contains(target@),
{
    let tc = chars_of(target);
    let n: usize = names.len();
    let mut i: usize = 0;
    while i < n
        invariant
            n == names@.len(),
            i <= n,
            tc@ == target@,
            forall|j: int| 0 <= j < i ==> #[trigger] names@[j]@ != target@,
        decreases n - i,
    {
        let entry = chars_of(names[i].as_str());
        if chars_eq(entry.as_slice(), tc.as_slice()) {
            proof {
                let m = names@.map_values(|v: String| v@);
                assert(m[i as int] == target@);
                assert(m.contains(target@));
            }
            return true;
        }
        i += 1;
    }
    proof {
        let m = names@.map_values(|v: String| v@);
        assert forall|j: int| 0 <= j < m.len() implies m[j] != target@ by {
            assert(m[j] == names@[j]@);
        }
        assert(!m.contains(target@));
    }
    false
}

/// The scaling directory of a found entry.
pub open spec fn devfreq_dir(name: Seq<char>) -> Seq<char> {
    "/sys/class/devfreq/"@ + name
}

/// A 32-bit scaling value of the entry, zero where unreadable.
pub open spec fn scaling_u32(fs: &FsView, name: Seq<char>, file: Seq<char>) -> u32 {
    crate::engine::u32_or_zero(fs, devfreq_dir(name) + file)
}

/// The governor name of the entry, "unknown" where unreadable.
pub open spec fn scaling_governor(fs: &FsView, name: Seq<char>) -> Seq<char> {
    match fs.file_at(devfreq_dir(name) + "/governor"@) {
        Some(c) => trimmed(c),
        None => "unknown"@,
    }
}

/// The usage percent of the entry: the device load (a 0..=255 scale)
/// converted to a percent; where no load is exposed, estimated from
/// the current frequency against the maximum; zero without either.
pub open spec fn gpu_usage_model(fs: &FsView, name: Seq<char>) -> int {
    match fs.file_at(devfreq_dir(name) + "/device/load"@) {
        Some(c) => match crate::fsview::parse_u64_spec(c) {
            Some(load) => {
                let p = load * 100 / 255;
                if p > 100 {
                    100
                } else {
                    p as int
                }
            },
            None => freq_estimate(fs, name),
        },
        None => freq_estimate(fs, name),
    }
}

/// The frequency-ratio usage estimate.
pub open spec fn freq_estimate(fs: &FsView, name: Seq<char>) -> int {
    let f = scaling_u32(fs, name, "/cur_freq"@) as int;
    let m = scaling_u32(fs, name, "/max_freq"@) as int;
    if f > 0 && m > 0 {
        if f * 100 / m > 100 {
            100
        } else {
            f * 100 / m
        }
    } else {
        0
    }
}

/// Read one scaling value.
fn read_scaling_u32(fs: &FsView, name: &[char], file: &str) -> (r: u32)
    ensures
        r == scaling_u32(fs, name@, file@),
{
    let dir = concat_chars(chars_of("/sys/class/devfreq/").as_slice(), name);
    let p = concat_chars(dir.as_slice(), chars_of(file).as_slice());
    crate::engine::read_u32_or_zero(fs, p.as_slice())
}

/// Read the usage percent of the entry.
fn read_gpu_usage(fs: &FsView, name: &[char]) -> (r: u8)
    ensures
        r as int == gpu_usage_model(fs, name@),
        r <= 100,
{
    let dir = concat_chars(chars_of("/sys/class/devfreq/").as_slice(), name);
    let load_path = concat_chars(dir.as_slice(), chars_of("/device/load").as_slice());
    match fs.read_u64(load_path.as_slice()) {
        Some(load) => {
            let q: u64 = (load % 255) * 100 / 255 + (load / 255) * 100;
            proof {
                assert(load * 100 / 255 == (load % 255) * 100 / 255 + (load / 255) * 100)
                    by (nonlinear_arith)
                    requires
                        load >= 0,
                ;
            }
            if q > 100 {
                100
            } else {
                q as u8
            }
        }
        None => freq_estimate_exec(fs, name),
    }
}

/// The frequency-ratio estimate.
fn freq_estimate_exec(fs: &FsView, name: &[char]) -> (r: u8)
    ensures
        r as int == freq_estimate(fs, name@),
        r <= 100,
{
    let f = read_scaling_u32(fs, name, "/cur_freq");
    let m = read_scaling_u32(fs, name, "/max_freq");
    if f > 0 && m > 0 {
        let q: u64 = f as u64 * 100 / m as u64;
        if q > 100 {
            100
        } else {
            q as u8
        }
    } else {
        0
    }
}

/// The accelerator's power state, from its runtime-status pseudo-file:
/// "active" as is, a suspended device reads as "idle", anything else is
/// unknown; a positive busy percent also counts as active.
pub open spec fn gpu_state_model(fs: &FsView) -> Seq<char> {
    match fs.file_at("/sys/class/nvrm/gpu0/power/runtime_status"@) {
        Some(c) => if trimmed(c) == "active"@ {
            "active"@
        } else if trimmed(c) == "suspended"@ {
            "idle"@
        } else {
            busy_state(fs)
        },
        None => busy_state(fs),
    }
}

/// The busy-percent fallback for the power state.
pub open spec fn busy_state(fs: &FsView) -> Seq<char> {
    if busy_percent(fs) > 0 {
        "active"@
    } else {
        Seq::empty()
    }
}

/// The busy percent of the accelerator core.
pub open spec fn busy_percent(fs: &FsView) -> u32 {
    crate::engine::u32_or_zero(fs, "/sys/class/nvrm/gpu0/device/gpu_busy_percent"@)
}

/// Read the power state.
fn read_gpu_state(fs: &FsView) -> (r: String)
    ensures
        r@ == gpu_state_model(fs),
{
    let p = chars_of("/sys/class/nvrm/gpu0/power/runtime_status");
    match fs.read(p.as_slice()) {
        Some(c) => {
            let t = trim_str(c.as_str());
            let tc = chars_of(t.as_str());
            if chars_eq(tc.as_slice(), chars_of("active").as_slice()) {
                "active".to_owned()
            } else if chars_eq(tc.as_slice(), chars_of("suspended").as_slice()) {
                "idle".to_owned()
            } else {
                read_busy_state(fs)
            }
        }
        None => read_busy_state(fs),
    }
}

fn read_busy_state(fs: &FsView) -> (r: String)
    ensures
        r@ == busy_state(fs),
{
    let p = chars_of("/sys/class/nvrm/gpu0/device/gpu_busy_percent");
    let busy = crate::engine::read_u32_or_zero(fs, p.as_slice());
    if busy > 0 {
        "active".to_owned()
    } else {
        let r = String::new();
        r
    }
}

/// The active-function flags: the compute queue counts when the core is
/// busy; each codec counts when its own usage counter exists and is
/// positive.
pub open spec fn active_functions_model(fs: &FsView) -> Seq<Seq<char>> {
    let cuda: Seq<Seq<char>> = if busy_percent(fs) > 0 {
        seq!["CUDA"@]
    } else {
        Seq::empty()
    };
    let nvdec: Seq<Seq<char>> = if fs.has("/sys/class/nvrm/gpu0/device/nvdec_usage"@)
        && crate::engine::u32_or_zero(fs, "/sys/class/nvrm/gpu0/device/nvdec_usage"@) > 0 {
        seq!["NVDEC"@]
    } else {
        Seq::empty()
    };
    let nvenc: Seq<Seq<char>> = if fs.has("/sys/class/nvrm/gpu0/device/nvenc_usage"@)
        && crate::engine::u32_or_zero(fs, "/sys/class/nvrm/gpu0/device/nvenc_usage"@) > 0 {
        seq!["NVENC"@]
    } else {
        Seq::empty()
    };
    cuda + nvdec + nvenc
}

/// Read the active-function flags.
fn read_active_functions(fs: &FsView) -> (r: Vec<String>)
    ensures
        r@.map_values(|s: String| s@) == active_functions_model(fs),
{
    let mut out: Vec<String> = Vec::new();
    let busy_path = chars_of("/sys/class/nvrm/gpu0/device/gpu_busy_percent");
    if crate::engine::read_u32_or_zero(fs, busy_path.as_slice()) > 0 {
        out.push("CUDA".to_owned());
    }
    let nvdec_path = chars_of("/sys/class/nvrm/gpu0/device/nvdec_usage");
    if fs.path_exists(nvdec_path.as_slice()) && crate::engine::read_u32_or_zero(
        fs,
        nvdec_path.as_slice(),
    ) > 0 {
        out.push("NVDEC".to_owned());
    }
    let nvenc_path = chars_of("/sys/class/nvrm/gpu0/device/nvenc_usage");
    if fs.path_exists(nvenc_path.as_slice()) && crate::engine::read_u32_or_zero(
        fs,
        nvenc_path.as_slice(),
    ) > 0 {
        out.push("NVENC".to_owned());
    }
    proof {
        assert(out@.map_values(|s: String| s@) =~= active_functions_model(fs));
    }
    out
}

impl GpuStats {
    /// One accelerator sample through the sysfs strategy: scaling data
    /// from the resolved frequency-scaling entry, the power state and
    /// activity flags from the runtime exposure, and the thermal
    /// reading from the promoted accelerator zone.
    pub fn get(fs: &FsView) -> (r: GpuStats)
        ensures
            match gpu_devfreq_model(fs) {
                Some(name) => r.frequency == scaling_u32(fs, name, "/cur_freq"@) && r.governor@
                    == scaling_governor(fs, name) && r.usage as int == gpu_usage_model(fs, name),
                None => r.frequency == 0 && r.usage == 0 && r.governor@ == Seq::<char>::empty(),
            },
            r.state@ == gpu_state_model(fs),
            r.active_functions@.map_values(|s: String| s@) == active_functions_model(fs),
            r.temperature == promoted(zones_model(fs), 1),
            r.memory_used == 0 && r.memory_total == 0,
    {
        let mut stats = GpuStats::default();
        match find_gpu_devfreq(fs) {
            Some(name) => {
                let nc = chars_of(name.as_str());
                stats.frequency = read_scaling_u32(fs, nc.as_slice(), "/cur_freq");
                let gov_dir = concat_chars(
                    chars_of("/sys/class/devfreq/").as_slice(),
                    nc.as_slice(),
                );
                let gov_path = concat_chars(gov_dir.as_slice(), chars_of("/governor").as_slice());
                stats.governor = match fs.read(gov_path.as_slice()) {
                    Some(c) => trim_str(c.as_str()),
                    None => "unknown".to_owned(),
                };
                stats.usage = read_gpu_usage(fs, nc.as_slice());
            }
            None => {}
        }
        stats.state = read_gpu_state(fs);
        stats.active_functions = read_active_functions(fs);
        let temps = TemperatureStats::get(fs);
        stats.temperature = temps.gpu;
        stats
    }
}

/// Parse the usage percent a vendor tool prints: a decimal percent,
/// possibly followed by a percent sign; anything else reads as zero,
/// and the result is clamped to a true percent.
pub fn parse_nvidia_smi_usage(output: &str) -> (r: u8)
    ensures
        r as int == ({
            let t = crate::text::strip_trailing(trimmed(output@), '%');
            match crate::fsview::parse_u64_spec(t) {
                Some(v) => if v > 100 {
                    100int
                } else {
                    v as int
                },
                None => 0int,
            }
        }),
        r <= 100,
{
    let cv = chars_of(output);
    let (a, b) = crate::text::trim_bounds(cv.as_slice());
    let t1 = &cv.as_slice()[a..b];
    let e = crate::text::strip_trailing_end(t1, '%');
    let t2 = &t1[0..e];
    let ghost t2v = t2@;
    let (c, d) = crate::text::trim_bounds(t2);
    proof {
        assert(t2v =~= crate::text::strip_trailing(trimmed(output@), '%'));
    }
    match crate::text::parse_u64(&t2[c..d]) {
        Some(v) => {
            proof {
                assert(t2@.subrange(c as int, d as int) == trimmed(t2v));
            }
            if v > 100 {
                100
            } else {
                v as u8
            }
        }
        None => 0,
    }
}

} // verus!
