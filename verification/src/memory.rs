//! Memory sampling: RAM, swap and on-chip IRAM from the meminfo
//! pseudo-file, and the external-memory-controller clock.

use vstd::prelude::*;

use crate::fsview::{parse_u64_spec, FsView};
use crate::text::{
    all_dec_digits, chars_of, dec_value, lines_spec, parse_u64, split_lines, trim_copy, trimmed,
};

verus! {

/// A memory sample, all sizes in bytes. Unavailable fields are zero.
#[derive(Debug, Clone, PartialEq, Eq, Structural)]
pub struct MemoryStats {
    pub ram_used: u64,
    pub ram_total: u64,
    pub ram_cached: u64,
    pub swap_used: u64,
    pub swap_total: u64,
    pub swap_cached: u64,
    pub iram_used: u64,
    pub iram_total: u64,
    pub iram_lfb: u64,
}

impl Default for MemoryStats {
    /// The all-zero sample: what a board without the pseudo-file reports.
    fn default() -> (r: MemoryStats)
        ensures
            r == MemoryStats::zero_spec(),
    {
        MemoryStats {
            ram_used: 0,
            ram_total: 0,
            ram_cached: 0,
            swap_used: 0,
            swap_total: 0,
            swap_cached: 0,
            iram_used: 0,
            iram_total: 0,
            iram_lfb: 0,
        }
    }
}

impl MemoryStats {
    /// The all-zero sample.
    pub open spec fn zero_spec() -> MemoryStats {
        MemoryStats {
            ram_used: 0,
            ram_total: 0,
            ram_cached: 0,
            swap_used: 0,
            swap_total: 0,
            swap_cached: 0,
            iram_used: 0,
            iram_total: 0,
            iram_lfb: 0,
        }
    }

    /// One memory sample from a snapshot: parse the meminfo pseudo-file,
    /// or report all zeros where it is unavailable.
    pub fn get(fs: &FsView) -> (r: MemoryStats)
        ensures
            r == match fs.file_at("/proc/meminfo"@) {
                Some(c) => meminfo_model(c),
                None => MemoryStats::zero_spec(),
            },
    {
        let path = chars_of("/proc/meminfo");
        match fs.read(path.as_slice()) {
            Some(c) => parse_meminfo(c.as_str()),
            None => MemoryStats::default(),
        }
    }
}

/// `s` with every trailing " kB" unit marker removed.
pub open spec fn strip_kb(s: Seq<char>) -> Seq<char>
    decreases s.len(),
{
    if s.len() >= 3 && s.subrange(s.len() - 3, s.len() as int) == " kB"@ {
        strip_kb(s.subrange(0, s.len() - 3))
    } else {
        s
    }
}

/// The size in bytes one meminfo value field denotes: trim, drop the
/// unit marker, trim again, read the decimal kilobyte count, scale to
/// bytes. `None` for anything malformed or too large to scale.
pub open spec fn entry_value(raw: Seq<char>) -> Option<u64> {
    let t = trimmed(strip_kb(trimmed(raw)));
    if t.len() > 0 && all_dec_digits(t) && dec_value(t) * 1024 <= u64::MAX {
        Some((dec_value(t) * 1024) as u64)
    } else {
        None
    }
}

/// The key/value pair one meminfo line carries, if well-formed.
pub open spec fn line_entry(l: Seq<char>) -> Option<(Seq<char>, u64)> {
    let ci = crate::text::first_idx_of(l, ':');
    if 0 <= ci < l.len() {
        let key = trimmed(l.subrange(0, ci));
        match entry_value(l.subrange(ci + 1, l.len() as int)) {
            Some(v) => Some((key, v)),
            None => None,
        }
    } else {
        None
    }
}

/// The value of `key` among the lines, the last well-formed occurrence
/// winning, as repeated keys overwrite one another.
pub open spec fn lines_value(ls: Seq<Seq<char>>, key: Seq<char>) -> Option<u64>
    decreases ls.len(),
{
    if ls.len() == 0 {
        None
    } else {
        match line_entry(ls.last()) {
            Some(kv) => if kv.0 == key {
                Some(kv.1)
            } else {
                lines_value(ls.drop_last(), key)
            },
            None => lines_value(ls.drop_last(), key),
        }
    }
}

/// The value of `key`, zero where absent: the best-effort default.
pub open spec fn value_or_zero(ls: Seq<Seq<char>>, key: Seq<char>) -> int {
    match lines_value(ls, key) {
        Some(v) => v as int,
        None => 0,
    }
}

/// Non-negative difference, as used-size arithmetic saturates at zero.
pub open spec fn sat_sub(a: int, b: int) -> int {
    if a >= b {
        a - b
    } else {
        0
    }
}

/// The memory sample the meminfo content denotes: totals and caches read
/// directly, used sizes derived by subtracting the free parts,
/// saturating at zero.
pub open spec fn meminfo_model(content: Seq<char>) -> MemoryStats {
    let ls = lines_spec(content);
    let ram_total = value_or_zero(ls, "MemTotal"@);
    let mem_free = value_or_zero(ls, "MemFree"@);
    let mem_buffers = value_or_zero(ls, "Buffers"@);
    let mem_cached = value_or_zero(ls, "Cached"@);
    let swap_total = value_or_zero(ls, "SwapTotal"@);
    let swap_free = value_or_zero(ls, "SwapFree"@);
    let swap_cached = value_or_zero(ls, "SwapCached"@);
    let iram_total = value_or_zero(ls, "IramTotal"@);
    let iram_free = value_or_zero(ls, "IramFree"@);
    let iram_lfb = value_or_zero(ls, "IramLfb"@);
    MemoryStats {
        ram_used: sat_sub(ram_total, mem_free + mem_buffers + mem_cached) as u64,
        ram_total: ram_total as u64,
        ram_cached: mem_cached as u64,
        swap_used: sat_sub(swap_total, swap_free) as u64,
        swap_total: swap_total as u64,
        swap_cached: swap_cached as u64,
        iram_used: sat_sub(iram_total, iram_free + iram_lfb) as u64,
        iram_total: iram_total as u64,
        iram_lfb: iram_lfb as u64,
    }
}

/// Find the value of one key over the parsed lines.
fn lookup_value(lines: &Vec<Vec<char>>, key: &[char]) -> (r: u64)
    ensures
        r == value_or_zero(lines@.map_values(|l: Vec<char>| l@), key@),
{
    let ghost lsv = lines@.map_values(|l: Vec<char>| l@);
    let n: usize = lines.len();
    let mut i: usize = n;
    proof {
        assert(lsv.take(n as int) =~= lsv);
    }
    while i > 0
        invariant
            n == lines@.len(),
            lsv == lines@.map_values(|l: Vec<char>| l@),
            i <= n,
            lines_value(lsv, key@) == lines_value(lsv.take(i as int), key@),
        decreases i,
    {
        i -= 1;
        proof {
            assert(lsv.take(i as int + 1).drop_last() =~= lsv.take(i as int));
            assert(lsv.take(i as int + 1).last() == lsv[i as int]);
        }
        let line = &lines[i];
        match crate::text::split_once_at(line.as_slice(), ':') {
            Some((ci, vi)) => {
                let k = trim_copy(&line.as_slice()[0..ci]);
                let ln: usize = line.len();
                proof {
                    assert(line@.subrange(0, ci as int) =~= lsv[i as int].subrange(0, ci as int));
                    assert(line@.subrange(vi as int, ln as int) =~= lsv[i as int].subrange(
                        ci + 1,
                        lsv[i as int].len() as int,
                    ));
                }
                match parse_entry_value(&line.as_slice()[vi..ln]) {
                    Some(v) => {
                        if crate::text::chars_eq(k.as_slice(), key) {
                            return v;
                        }
                    }
                    None => {}
                }
            }
            None => {}
        }
    }
    proof {
        assert(lsv.take(0) =~= Seq::<Seq<char>>::empty());
    }
    0
}

/// Parse one meminfo value field to bytes, as `entry_value` states.
fn parse_entry_value(raw: &[char]) -> (r: Option<u64>)
    ensures
        r == entry_value(raw@),
{
    let t1 = trim_copy(raw);
    let stripped = strip_kb_exec(t1.as_slice());
    let t2 = trim_copy(stripped.as_slice());
    match parse_u64(t2.as_slice()) {
        Some(v) => {
            if v <= u64::MAX / 1024 {
                Some(v * 1024)
            } else {
                None
            }
        }
        None => None,
    }
}

/// Remove every trailing " kB" marker.
fn strip_kb_exec(s: &[char]) -> (r: Vec<char>)
    ensures
        r@ == strip_kb(s@),
    decreases s@.len(),
{
    let n: usize = s.len();
    let marker = chars_of(" kB");
    if n >= 3 && crate::text::has_at(s, marker.as_slice(), n - 3) {
        proof {
            reveal_strlit(" kB");
            assert(s@.subrange(n - 3, n as int) =~= s@.subrange(
                n as int - 3,
                n as int - 3 + " kB"@.len() as int,
            ));
        }
        let head = &s[0..n - 3];
        let r = strip_kb_exec(head);
        r
    } else {
        proof {
            reveal_strlit(" kB");
            if n >= 3 && s@.subrange(n - 3, n as int) == " kB"@ {
                assert(crate::text::matches_at(s@, " kB"@, n - 3));
            }
        }
        vstd::slice::slice_to_vec(s)
    }
}

/// Parse the whole meminfo content.
pub fn parse_meminfo(content: &str) -> (r: MemoryStats)
    ensures
        r == meminfo_model(content@),
{
    let cv = chars_of(content);
    let lines = split_lines(cv.as_slice());
    let ram_total = lookup_value(&lines, chars_of("MemTotal").as_slice());
    let mem_free = lookup_value(&lines, chars_of("MemFree").as_slice());
    let mem_buffers = lookup_value(&lines, chars_of("Buffers").as_slice());
    let mem_cached = lookup_value(&lines, chars_of("Cached").as_slice());
    let swap_total = lookup_value(&lines, chars_of("SwapTotal").as_slice());
    let swap_free = lookup_value(&lines, chars_of("SwapFree").as_slice());
    let swap_cached = lookup_value(&lines, chars_of("SwapCached").as_slice());
    let iram_total = lookup_value(&lines, chars_of("IramTotal").as_slice());
    let iram_free = lookup_value(&lines, chars_of("IramFree").as_slice());
    let iram_lfb = lookup_value(&lines, chars_of("IramLfb").as_slice());
    let ram_free_sum: u128 = mem_free as u128 + mem_buffers as u128 + mem_cached as u128;
    let ram_used: u64 = if ram_total as u128 >= ram_free_sum {
        (ram_total as u128 - ram_free_sum) as u64
    } else {
        0
    };
    let swap_used: u64 = if swap_total >= swap_free {
        swap_total - swap_free
    } else {
        0
    };
    let iram_free_sum: u128 = iram_free as u128 + iram_lfb as u128;
    let iram_used: u64 = if iram_total as u128 >= iram_free_sum {
        (iram_total as u128 - iram_free_sum) as u64
    } else {
        0
    };
    MemoryStats {
        ram_used,
        ram_total,
        ram_cached: mem_cached,
        swap_used,
        swap_total,
        swap_cached,
        iram_used,
        iram_total,
        iram_lfb,
    }
}

/// The external-memory-controller clock rate: the first candidate
/// location whose content parses as a rate, in priority order, else 0.
pub open spec fn emc_freq_model(fs: &FsView, paths: Seq<Seq<char>>) -> u64
    decreases paths.len(),
{
    if paths.len() == 0 {
        0
    } else {
        match fs.file_at(paths[0]) {
            Some(c) => match parse_u64_spec(c) {
                Some(v) => v,
                None => emc_freq_model(fs, paths.drop_first()),
            },
            None => emc_freq_model(fs, paths.drop_first()),
        }
    }
}

/// The candidate locations of the controller clock, most specific first.
pub open spec fn emc_paths() -> Seq<Seq<char>> {
    seq![
        "/sys/kernel/debug/clk/emc/clk_rate"@,
        "/sys/kernel/debug/clk/parent_emc/clk_rate"@,
        "/sys/kernel/debug/clk/emc_clk_source/clk_rate"@,
        "/sys/devices/platform/host1x/15000000.tsec/15000000.tsec/emc_rate"@,
    ]
}

/// Read the external-memory-controller clock rate in Hz, 0 where no
/// candidate location yields one.
pub fn read_emc_frequency(fs: &FsView) -> (r: u64)
    ensures
        r == emc_freq_model(fs, emc_paths()),
{
    let mut paths: Vec<Vec<char>> = Vec::new();
    paths.push(chars_of("/sys/kernel/debug/clk/emc/clk_rate"));
    paths.push(chars_of("/sys/kernel/debug/clk/parent_emc/clk_rate"));
    paths.push(chars_of("/sys/kernel/debug/clk/emc_clk_source/clk_rate"));
    paths.push(chars_of("/sys/devices/platform/host1x/15000000.tsec/15000000.tsec/emc_rate"));
    let ghost pv = paths@.map_values(|p: Vec<char>| p@);
    proof {
        assert(pv =~= emc_paths());
        assert(pv.skip(0) =~= pv);
    }
    let n: usize = paths.len();
    let mut i: usize = 0;
    while i < n
        invariant
            n == paths@.len(),
            pv == paths@.map_values(|p: Vec<char>| p@),
            i <= n,
            emc_freq_model(fs, emc_paths()) == emc_freq_model(fs, pv.skip(i as int)),
        decreases n - i,
    {
        proof {
            assert(pv.skip(i as int).drop_first() =~= pv.skip(i as int + 1));
            assert(pv.skip(i as int)[0] == pv[i as int]);
        }
        match fs.read_u64(paths[i].as_slice()) {
            Some(v) => {
                return v;
            }
            None => {}
        }
        i += 1;
    }
    proof {
        assert(pv.skip(n as int) =~= Seq::<Seq<char>>::empty());
    }
    0
}

} // verus!
