//! Accelerator engine sampling (APE, DLA, NVDEC, NVENC, NVJPG).
//!
//! Frequency-scaled engines appear under the devfreq directory; the
//! fixed-function codec engines expose a usage counter of their own.
//! As everywhere, a missing exposure point degrades to zeros.

use vstd::prelude::*;

use crate::fsview::{parse_u64_spec, FsView};
use crate::text::{chars_eq, chars_of, concat_chars};

verus! {

/// One engine's reading.
#[derive(Debug, Clone)]
pub struct EngineStatus {
    pub name: String,
    pub enabled: bool,
    pub usage: u8,
    pub clock: u32,
}

impl Default for EngineStatus {
    /// An absent engine: unnamed, disabled, idle.
    fn default() -> (r: EngineStatus)
        ensures
            r.name@ == Seq::<char>::empty(),
            !r.enabled,
            r.usage == 0,
            r.clock == 0,
    {
        EngineStatus { name: String::new(), enabled: false, usage: 0, clock: 0 }
    }
}

/// An engine status equal to the default value: absent, unnamed, idle.
pub open spec fn is_default_status(s: EngineStatus) -> bool {
    s.name@ == Seq::<char>::empty() && !s.enabled && s.usage == 0 && s.clock == 0
}

/// The readings of every engine.
#[derive(Debug, Clone)]
pub struct EngineStats {
    pub ape: EngineStatus,
    pub dla0: EngineStatus,
    pub dla1: EngineStatus,
    pub nvdec: EngineStatus,
    pub nvenc: EngineStatus,
    pub nvjpg: EngineStatus,
}

impl Default for EngineStats {
    /// No engine available at all.
    fn default() -> (r: EngineStats)
        ensures
            is_default_status(r.ape) && is_default_status(r.dla0) && is_default_status(r.dla1),
            is_default_status(r.nvdec) && is_default_status(r.nvenc) && is_default_status(
                r.nvjpg,
            ),
    {
        EngineStats {
            ape: EngineStatus::default(),
            dla0: EngineStatus::default(),
            dla1: EngineStatus::default(),
            nvdec: EngineStatus::default(),
            nvenc: EngineStatus::default(),
            nvjpg: EngineStatus::default(),
        }
    }
}

/// Is `name` among the entries of the devfreq directory?
pub open spec fn devfreq_listed(fs: &FsView, name: Seq<char>) -> bool {
    match fs.dir_at("/sys/class/devfreq"@) {
        Some(ns) => ns.contains(name),
        None => false,
    }
}

/// A value parsed as the kernel writes 32-bit counters: zero where
/// missing, malformed or out of range.
pub open spec fn u32_or_zero(fs: &FsView, p: Seq<char>) -> u32 {
    match fs.file_at(p) {
        Some(c) => match parse_u64_spec(c) {
            Some(v) => if v <= u32::MAX {
                v as u32
            } else {
                0
            },
            None => 0,
        },
        None => 0,
    }
}

/// What a devfreq engine reports: enabled iff it advertises available
/// frequencies, clock from its current-frequency file.
pub open spec fn engine_model(fs: &FsView, name: Seq<char>) -> (bool, u32) {
    let dir = "/sys/class/devfreq/"@ + name;
    if devfreq_listed(fs, name) {
        (fs.has(dir + "/available_frequencies"@), u32_or_zero(fs, dir + "/cur_freq"@))
    } else {
        (false, 0)
    }
}

/// What a fixed-function codec engine reports: its usage counter,
/// truncated to a percent-sized byte, read only where its exposure
/// point exists; enabled iff busy.
pub open spec fn codec_usage_model(fs: &FsView, base: Seq<char>) -> u8 {
    if fs.has(base) {
        (u32_or_zero(fs, base + "/usage"@) % 256) as u8
    } else {
        0
    }
}

/// Is `name` among the devfreq entries of the snapshot?
fn devfreq_has(fs: &FsView, name: &[char]) -> (r: bool)
    ensures
        r == devfreq_listed(fs, name@),
{
    let dir = chars_of("/sys/class/devfreq");
    match fs.list(dir.as_slice()) {
        Some(ns) => {
            let n: usize = ns.len();
            let mut i: usize = 0;
            while i < n
                invariant
                    n == ns@.len(),
                    i <= n,
                    fs.dir_at("/sys/class/devfreq"@) == Some(ns@.map_values(|v: String| v@)),
                    forall|j: int| 0 <= j < i ==> #[trigger] ns@[j]@ != name@,
                decreases n - i,
            {
                let entry = chars_of(ns[i].as_str());
                if chars_eq(entry.as_slice(), name) {
                    proof {
                        let m = fs.dir_at("/sys/class/devfreq"@)->Some_0;
                        assert(m[i as int] == ns@[i as int]@);
                        assert(exists|j: int| 0 <= j < m.len() && m[j] == name@);
                        assert(m.contains(name@));
                    }
                    return true;
                }
                i += 1;
            }
            proof {
                let m = fs.dir_at("/sys/class/devfreq"@)->Some_0;
                assert forall|j: int| 0 <= j < m.len() implies m[j] != name@ by {
                    assert(m[j] == ns@[j]@);
                }
                assert(!m.contains(name@));
            }
            false
        }
        None => false,
    }
}

/// Read a 32-bit counter file, zero on any failure.
pub(crate) fn read_u32_or_zero(fs: &FsView, p: &[char]) -> (r: u32)
    ensures
        r == u32_or_zero(fs, p@),
{
    match fs.read_u64(p) {
        Some(v) => if v <= u32::MAX as u64 {
            v as u32
        } else {
            0
        },
        None => 0,
    }
}

/// Read one devfreq engine.
fn read_engine_status(fs: &FsView, name: &str) -> (r: EngineStatus)
    ensures
        r.name@ == name@,
        r.usage == 0,
        (r.enabled, r.clock) == engine_model(fs, name@),
{
    let name_chars = chars_of(name);
    if !devfreq_has(fs, name_chars.as_slice()) {
        return EngineStatus { name: name.to_owned(), enabled: false, usage: 0, clock: 0 };
    }
    let dir = concat_chars(chars_of("/sys/class/devfreq/").as_slice(), name_chars.as_slice());
    let avail = concat_chars(dir.as_slice(), chars_of("/available_frequencies").as_slice());
    let freq = concat_chars(dir.as_slice(), chars_of("/cur_freq").as_slice());
    let enabled = fs.path_exists(avail.as_slice());
    let clock = read_u32_or_zero(fs, freq.as_slice());
    EngineStatus { name: name.to_owned(), enabled, usage: 0, clock }
}

/// Read one fixed-function codec engine through its usage counter.
fn read_codec_status(fs: &FsView, name: &str, base: &str) -> (r: EngineStatus)
    ensures
        r.name@ == name@,
        r.clock == 0,
        r.usage == codec_usage_model(fs, base@),
        r.enabled == (r.usage > 0),
{
    let base_chars = chars_of(base);
    let usage: u8 = if fs.path_exists(base_chars.as_slice()) {
        let p = concat_chars(base_chars.as_slice(), chars_of("/usage").as_slice());
        let v = read_u32_or_zero(fs, p.as_slice());
        (v % 256) as u8
    } else {
        0
    };
    EngineStatus { name: name.to_owned(), enabled: usage > 0, usage, clock: 0 }
}

impl EngineStats {
    /// One engine sample from a snapshot. With no devfreq directory at
    /// all, every engine reads as absent.
    pub fn get(fs: &FsView) -> (r: EngineStats)
        ensures
            fs.dir_at("/sys/class/devfreq"@) is None ==> is_default_status(r.ape)
                && is_default_status(r.dla0) && is_default_status(r.dla1) && is_default_status(
                r.nvdec,
            ) && is_default_status(r.nvenc) && is_default_status(r.nvjpg),
            fs.dir_at("/sys/class/devfreq"@) is Some ==> {
                &&& r.ape.name@ == "ape"@ && (r.ape.enabled, r.ape.clock) == engine_model(
                    fs,
                    "ape"@,
                )
                &&& r.dla0.name@ == "dla0"@ && (r.dla0.enabled, r.dla0.clock) == engine_model(
                    fs,
                    "dla0"@,
                )
                &&& r.dla1.name@ == "dla1"@ && (r.dla1.enabled, r.dla1.clock) == engine_model(
                    fs,
                    "dla1"@,
                )
                &&& r.nvdec.name@ == "nvdec"@ && r.nvdec.usage == codec_usage_model(
                    fs,
                    "/sys/kernel/nvdec_usage"@,
                )
                &&& r.nvenc.name@ == "nvenc"@ && r.nvenc.usage == codec_usage_model(
                    fs,
                    "/sys/kernel/nvenc_usage"@,
                )
                &&& r.nvjpg.name@ == "nvjpg"@ && r.nvjpg.usage == codec_usage_model(
                    fs,
                    "/sys/kernel/nvjpg_usage"@,
                )
            },
    {
        let dir = chars_of("/sys/class/devfreq");
        if fs.list(dir.as_slice()).is_none() {
            return EngineStats::default();
        }
        EngineStats {
            ape: read_engine_status(fs, "ape"),
            dla0: read_engine_status(fs, "dla0"),
            dla1: read_engine_status(fs, "dla1"),
            nvdec: read_codec_status(fs, "nvdec", "/sys/kernel/nvdec_usage"),
            nvenc: read_codec_status(fs, "nvenc", "/sys/kernel/nvenc_usage"),
            nvjpg: read_codec_status(fs, "nvjpg", "/sys/kernel/nvjpg_usage"),
        }
    }
}

} // verus!
