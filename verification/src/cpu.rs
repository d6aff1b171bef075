//! CPU sampling: cumulative counters and the delta-rate engine.
//!
//! Kernel CPU counters only ever grow, so a single reading is meaningless
//! for "current" usage; only the change between two time-ordered readings
//! is. The engine here owns the previous reading and turns each new one
//! into per-core utilization percentages, treating the first observation
//! and any topology change as a hard reset.

use vstd::prelude::*;
use vstd::pervasive::VecAdditionalExecFns;

use crate::fsview::{parse_u64_spec, FsView};
use crate::text::{
    chars_of, lines_spec, matches_at, parse_u64, split_lines, split_tokens, tokens_spec,
    trim_copy, trimmed,
};

verus! {

/// Raw cumulative CPU time counters of one core, as read at one instant.
#[derive(Debug, Clone)]
pub struct CpuTimeValues {
    pub user: u64,
    pub nice: u64,
    pub system: u64,
    pub idle: u64,
    pub iowait: u64,
    pub irq: u64,
    pub softirq: u64,
}

/// The mathematical total time of a counter reading.
pub open spec fn total_spec(c: CpuTimeValues) -> int {
    c.user + c.nice + c.system + c.idle + c.iowait + c.irq + c.softirq
}

/// The mathematical busy (non-idle, non-iowait) time of a counter reading.
pub open spec fn busy_spec(c: CpuTimeValues) -> int {
    c.user + c.nice + c.system + c.irq + c.softirq
}

/// Utilization percent derived from two readings of one core: the busy
/// delta over the total delta, clamped to [0, 100]; a non-positive total
/// delta (clock anomaly or first observation) yields 0. Deltas that run
/// backwards saturate at zero, as the kernel counters never legitimately
/// decrease.
pub open spec fn core_usage(prev: CpuTimeValues, cur: CpuTimeValues) -> int {
    let dt = total_spec(cur) - total_spec(prev);
    let db = if busy_spec(cur) >= busy_spec(prev) {
        busy_spec(cur) - busy_spec(prev)
    } else {
        0
    };
    if dt <= 0 {
        0
    } else if 100 * db / dt > 100 {
        100
    } else {
        100 * db / dt
    }
}

/// What one observation reports: all zeros on a topology change (the core
/// count differs from the stored baseline, which includes the very first
/// call), else the per-core delta percentages.
pub open spec fn usage_model(prev: Seq<CpuTimeValues>, cur: Seq<CpuTimeValues>) -> Seq<int> {
    if prev.len() != cur.len() {
        Seq::new(cur.len(), |i: int| 0)
    } else {
        Seq::new(cur.len(), |i: int| core_usage(prev[i], cur[i]))
    }
}

impl CpuTimeValues {
    /// Total CPU time. The counters are kernel jiffies since boot, so
    /// their sum fitting the machine word is a physical given; the caller
    /// must not hand in values whose sum overflows.
    pub fn total(&self) -> (r: u64)
        requires
            total_spec(*self) <= u64::MAX,
        ensures
            r == total_spec(*self),
    {
        self.user + self.nice + self.system + self.idle + self.iowait + self.irq + self.softirq
    }

    /// Busy (non-idle) CPU time, under the same machine-limit bound.
    pub fn busy(&self) -> (r: u64)
        requires
            busy_spec(*self) <= u64::MAX,
        ensures
            r == busy_spec(*self),
    {
        self.user + self.nice + self.system + self.irq + self.softirq
    }

    /// Total CPU time, computed wide so that no reading can overflow it.
    fn total_wide(&self) -> (r: u128)
        ensures
            r == total_spec(*self),
    {
        self.user as u128 + self.nice as u128 + self.system as u128 + self.idle as u128
            + self.iowait as u128 + self.irq as u128 + self.softirq as u128
    }

    /// Busy CPU time, computed wide so that no reading can overflow it.
    fn busy_wide(&self) -> (r: u128)
        ensures
            r == busy_spec(*self),
    {
        self.user as u128 + self.nice as u128 + self.system as u128 + self.irq as u128
            + self.softirq as u128
    }
}

/// The delta-rate engine: owns exactly the most recent prior reading,
/// one slot per core, replaced wholesale on every observation.
#[derive(Debug)]
pub struct CpuMonitor {
    pub prev_values: Vec<CpuTimeValues>,
}

impl CpuMonitor {
    /// A fresh engine holds no baseline, so its first observation
    /// reports zero usage.
    pub fn new() -> (r: CpuMonitor)
        ensures
            r.prev_values@.len() == 0,
    {
        CpuMonitor { prev_values: Vec::new() }
    }

    /// One observation: report per-core usage derived from the stored
    /// baseline, then unconditionally replace the baseline with the
    /// current reading — even on the first call, and even on a topology
    /// change.
    pub fn observe(&mut self, current: Vec<CpuTimeValues>) -> (r: Vec<u8>)
        ensures
            final(self).prev_values@ == current@,
            r@.len() == current@.len(),
            r@.map_values(|u: u8| u as int) == usage_model(old(self).prev_values@, current@),
            forall|i: int| 0 <= i < r@.len() ==> #[trigger] r@[i] <= 100,
    {
        let n: usize = current.len();
        let mut usage: Vec<u8> = Vec::new();
        if self.prev_values.len() != n {
            let mut i: usize = 0;
            while i < n
                invariant
                    i <= n,
                    usage@.len() == i,
                    forall|j: int| 0 <= j < i ==> #[trigger] usage@[j] == 0,
                decreases n - i,
            {
                usage.push(0u8);
                i += 1;
            }
        } else {
            let mut i: usize = 0;
            while i < n
                invariant
                    n == current@.len(),
                    n == self.prev_values@.len(),
                    i <= n,
                    usage@.len() == i,
                    forall|j: int|
                        0 <= j < i ==> #[trigger] usage@[j] as int == core_usage(
                            self.prev_values@[j],
                            current@[j],
                        ),
                decreases n - i,
            {
                let prev = &self.prev_values[i];
                let cur = &current[i];
                let tp = prev.total_wide();
                let tc = cur.total_wide();
                let bp = prev.busy_wide();
                let bc = cur.busy_wide();
                let db: u128 = if bc >= bp {
                    bc - bp
                } else {
                    0
                };
                let u: u8 = if tc > tp {
                    let dt: u128 = tc - tp;
                    let q: u128 = (100 * db) / dt;
                    if q > 100 {
                        100
                    } else {
                        q as u8
                    }
                } else {
                    0
                };
                usage.push(u);
                i += 1;
            }
        }
        self.prev_values = current;
        proof {
            assert(r_matches_model(usage@, old(self).prev_values@, final(self).prev_values@));
        }
        usage
    }
}

/// Helper predicate for `observe`'s proof: the reported vector matches
/// the model.
spec fn r_matches_model(r: Seq<u8>, prev: Seq<CpuTimeValues>, cur: Seq<CpuTimeValues>) -> bool {
    r.map_values(|u: u8| u as int) =~= usage_model(prev, cur)
}

/// Value of one whitespace-free token read as a decimal number, zero on
/// any malformed or oversized value: the uniform best-effort rule.
pub open spec fn num_or_zero(t: Seq<char>) -> u64 {
    if t.len() > 0 && crate::text::all_dec_digits(t) && crate::text::dec_value(t) <= u64::MAX {
        crate::text::dec_value(t) as u64
    } else {
        0
    }
}

/// A per-core counter line of the CPU statistics pseudo-file: it names a
/// single core ("cpu" followed immediately by the core number), not the
/// aggregate ("cpu" followed by a space).
pub open spec fn is_core_stat_line(l: Seq<char>) -> bool {
    matches_at(l, "cpu"@, 0) && !matches_at(l, "cpu "@, 0)
}

/// The counter reading one stat line carries, if it is a per-core line
/// with enough fields: user, nice, system, idle, iowait, irq, softirq in
/// the fixed kernel order, each field best-effort.
pub open spec fn stat_line_values(l: Seq<char>) -> Option<CpuTimeValues> {
    if is_core_stat_line(l) {
        let ts = tokens_spec(l);
        if ts.len() >= 8 {
            Some(
                CpuTimeValues {
                    user: num_or_zero(ts[1]),
                    nice: num_or_zero(ts[2]),
                    system: num_or_zero(ts[3]),
                    idle: num_or_zero(ts[4]),
                    iowait: num_or_zero(ts[5]),
                    irq: num_or_zero(ts[6]),
                    softirq: num_or_zero(ts[7]),
                },
            )
        } else {
            None
        }
    } else {
        None
    }
}

/// The per-core counter readings of a sequence of stat lines, in order.
pub open spec fn stat_values_lines(ls: Seq<Seq<char>>) -> Seq<CpuTimeValues>
    decreases ls.len(),
{
    if ls.len() == 0 {
        Seq::empty()
    } else {
        match stat_line_values(ls[0]) {
            Some(v) => seq![v] + stat_values_lines(ls.drop_first()),
            None => stat_values_lines(ls.drop_first()),
        }
    }
}

/// The per-core counter readings of the whole stat pseudo-file.
pub open spec fn stat_values_of(content: Seq<char>) -> Seq<CpuTimeValues> {
    stat_values_lines(lines_spec(content))
}

fn token_num_or_zero(t: &[char]) -> (r: u64)
    ensures
        r == num_or_zero(t@),
{
    match parse_u64(t) {
        Some(v) => v,
        None => 0,
    }
}

/// Read the raw cumulative counters of every core from the CPU
/// statistics pseudo-file content; a missing file yields no cores.
pub fn read_cpu_time_values(fs: &FsView) -> (r: Vec<CpuTimeValues>)
    ensures
        match fs.file_at("/proc/stat"@) {
            Some(c) => r@ == stat_values_of(c),
            None => r@.len() == 0,
        },
{
    let stat_path = chars_of("/proc/stat");
    let content = match fs.read(stat_path.as_slice()) {
        Some(c) => c,
        None => {
            return Vec::new();
        }
    };
    let cv = chars_of(content.as_str());
    let lines = split_lines(cv.as_slice());
    let ghost lsv = lines@.map_values(|l: Vec<char>| l@);
    let cpu_prefix = chars_of("cpu");
    let cpu_space_prefix = chars_of("cpu ");
    let n: usize = lines.len();
    let mut out: Vec<CpuTimeValues> = Vec::new();
    let mut i: usize = 0;
    proof {
        assert(lsv.skip(0) =~= lsv);
    }
    while i < n
        invariant
            n == lines@.len(),
            lsv == lines@.map_values(|l: Vec<char>| l@),
            i <= n,
            cpu_prefix@ == "cpu"@,
            cpu_space_prefix@ == "cpu "@,
            stat_values_lines(lsv) == out@ + stat_values_lines(lsv.skip(i as int)),
        decreases n - i,
    {
        proof {
            assert(lsv.skip(i as int).drop_first() =~= lsv.skip(i as int + 1));
            assert(lsv.skip(i as int)[0] == lsv[i as int]);
        }
        let line = &lines[i];
        if crate::text::starts_with(line.as_slice(), cpu_prefix.as_slice())
            && !crate::text::starts_with(line.as_slice(), cpu_space_prefix.as_slice()) {
            let toks = split_tokens(line.as_slice());
            let ghost tsv = toks@.map_values(|t: Vec<char>| t@);
            if toks.len() >= 8 {
                let v = CpuTimeValues {
                    user: token_num_or_zero(toks[1].as_slice()),
                    nice: token_num_or_zero(toks[2].as_slice()),
                    system: token_num_or_zero(toks[3].as_slice()),
                    idle: token_num_or_zero(toks[4].as_slice()),
                    iowait: token_num_or_zero(toks[5].as_slice()),
                    irq: token_num_or_zero(toks[6].as_slice()),
                    softirq: token_num_or_zero(toks[7].as_slice()),
                };
                out.push(v);
            }
        }
        i += 1;
    }
    proof {
        assert(lsv.skip(n as int) =~= Seq::<Seq<char>>::empty());
        assert(out@ =~= stat_values_lines(lsv));
    }
    out
}

/// A line of the CPU identification pseudo-file that introduces a core.
pub open spec fn is_processor_line(l: Seq<char>) -> bool {
    matches_at(l, "processor"@, 0)
}

/// How many lines of a sequence introduce a core.
pub open spec fn processor_count_lines(ls: Seq<Seq<char>>) -> int
    decreases ls.len(),
{
    if ls.len() == 0 {
        0int
    } else if is_processor_line(ls[0]) {
        1 + processor_count_lines(ls.drop_first())
    } else {
        processor_count_lines(ls.drop_first())
    }
}

/// Relies on num_cpus::get for the number of available logical CPUs when
/// the identification pseudo-file cannot be read; its documentation
/// promises the result is always at least 1.
#[verifier::external_body]
fn available_core_count() -> (r: usize)
    ensures
        r >= 1,
{
    num_cpus::get()
}

/// The number of CPU cores: the count of core-introducing lines in the
/// identification pseudo-file, or, where that file is unavailable, the
/// runtime's own view of the machine (at least 1).
pub fn get_core_count(fs: &FsView) -> (r: usize)
    ensures
        match fs.file_at("/proc/cpuinfo"@) {
            Some(c) => r == processor_count_lines(lines_spec(c)),
            None => r >= 1,
        },
{
    let path = chars_of("/proc/cpuinfo");
    let content = match fs.read(path.as_slice()) {
        Some(c) => c,
        None => {
            return available_core_count();
        }
    };
    let cv = chars_of(content.as_str());
    let lines = split_lines(cv.as_slice());
    let ghost lsv = lines@.map_values(|l: Vec<char>| l@);
    let prefix = chars_of("processor");
    let n: usize = lines.len();
    let mut count: usize = 0;
    let mut i: usize = 0;
    proof {
        assert(lsv.skip(0) =~= lsv);
        crate::cpu::lemma_processor_count_bounds(lsv);
    }
    while i < n
        invariant
            n == lines@.len(),
            lsv == lines@.map_values(|l: Vec<char>| l@),
            i <= n,
            prefix@ == "processor"@,
            processor_count_lines(lsv) == count + processor_count_lines(lsv.skip(i as int)),
            count <= i,
        decreases n - i,
    {
        proof {
            assert(lsv.skip(i as int).drop_first() =~= lsv.skip(i as int + 1));
            assert(lsv.skip(i as int)[0] == lsv[i as int]);
        }
        if crate::text::starts_with(lines[i].as_slice(), prefix.as_slice()) {
            count += 1;
        }
        i += 1;
    }
    proof {
        assert(lsv.skip(n as int) =~= Seq::<Seq<char>>::empty());
    }
    count
}

/// A line count is never negative.
proof fn lemma_processor_count_bounds(ls: Seq<Seq<char>>)
    ensures
        0 <= processor_count_lines(ls) <= ls.len(),
    decreases ls.len(),
{
    if ls.len() > 0 {
        lemma_processor_count_bounds(ls.drop_first());
    }
}

/// A line that names a single core in its own first token, "cpu"
/// followed directly by the core number.
pub open spec fn is_counted_stat_line(l: Seq<char>) -> bool {
    let ts = tokens_spec(l);
    is_core_stat_line(l) && ts.len() > 0 && ts[0].len() > 3 && matches_at(ts[0], "cpu"@, 0)
        && crate::text::all_dec_digits(ts[0].skip(3)) && crate::text::dec_value(ts[0].skip(3))
        <= usize::MAX
}

/// How many lines of a sequence name a single core.
pub open spec fn counted_stat_lines(ls: Seq<Seq<char>>) -> int
    decreases ls.len(),
{
    if ls.len() == 0 {
        0int
    } else if is_counted_stat_line(ls[0]) {
        1 + counted_stat_lines(ls.drop_first())
    } else {
        counted_stat_lines(ls.drop_first())
    }
}

/// The single-reading usage write one stat line performs, if any: the
/// slot it names, and the busy share of the four classic time fields as
/// a percent. A line whose total is zero writes nothing.
pub open spec fn line_update(l: Seq<char>) -> Option<(int, int)> {
    let ts = tokens_spec(l);
    if is_counted_stat_line(l) && ts.len() >= 5 {
        let u = num_or_zero(ts[1]) as int;
        let ni = num_or_zero(ts[2]) as int;
        let sy = num_or_zero(ts[3]) as int;
        let idl = num_or_zero(ts[4]) as int;
        let total = u + ni + sy + idl;
        if total > 0 {
            Some((crate::text::dec_value(ts[0].skip(3)), 100 * (u + ni + sy) / total))
        } else {
            None
        }
    } else {
        None
    }
}

/// The single-reading usage of one slot over a line sequence: the last
/// write to that slot wins, zero where no line wrote it.
pub open spec fn static_usage_at(ls: Seq<Seq<char>>, idx: int) -> int
    decreases ls.len(),
{
    if ls.len() == 0 {
        0int
    } else {
        match line_update(ls.last()) {
            Some(w) => if w.0 == idx {
                w.1
            } else {
                static_usage_at(ls.drop_last(), idx)
            },
            None => static_usage_at(ls.drop_last(), idx),
        }
    }
}

/// The slot count of the stat pseudo-file, zero where unavailable.
pub open spec fn static_count_of(fs: &FsView) -> int {
    match fs.file_at("/proc/stat"@) {
        Some(c) => counted_stat_lines(lines_spec(c)),
        None => 0,
    }
}

/// The single-reading usage of one slot, zero where unavailable.
pub open spec fn static_usage_of(fs: &FsView, idx: int) -> int {
    match fs.file_at("/proc/stat"@) {
        Some(c) => static_usage_at(lines_spec(c), idx),
        None => 0,
    }
}

/// Read the single-reading usage of every slot the stat pseudo-file
/// names: the busy share of each core's four classic time fields, with
/// no baseline involved. This is usage since boot, not instantaneous;
/// the delta-rate engine is the instantaneous path.
#[verifier::rlimit(100)]
pub fn read_static_usage(fs: &FsView) -> (r: Vec<u8>)
    ensures
        r@.len() == static_count_of(fs),
        forall|t: int| 0 <= t < r@.len() ==> #[trigger] r@[t] as int == static_usage_of(fs, t),
        forall|t: int| 0 <= t < r@.len() ==> #[trigger] r@[t] <= 100,
{
    let stat_path = chars_of("/proc/stat");
    let content = match fs.read(stat_path.as_slice()) {
        Some(c) => c,
        None => {
            return Vec::new();
        }
    };
    let cv = chars_of(content.as_str());
    let lines = split_lines(cv.as_slice());
    let ghost lsv = lines@.map_values(|l: Vec<char>| l@);
    let cpu_prefix = chars_of("cpu");
    let cpu_space_prefix = chars_of("cpu ");
    let n: usize = lines.len();

    // first pass: how many lines name a core, which fixes the slot count
    let mut count: usize = 0;
    let mut i: usize = 0;
    proof {
        assert(lsv.skip(0) =~= lsv);
        lemma_counted_bounds(lsv);
    }
    while i < n
        invariant
            n == lines@.len(),
            lsv == lines@.map_values(|l: Vec<char>| l@),
            i <= n,
            cpu_prefix@ == "cpu"@,
            cpu_space_prefix@ == "cpu "@,
            counted_stat_lines(lsv) == count + counted_stat_lines(lsv.skip(i as int)),
            count <= i,
        decreases n - i,
    {
        proof {
            assert(lsv.skip(i as int).drop_first() =~= lsv.skip(i as int + 1));
            assert(lsv.skip(i as int)[0] == lsv[i as int]);
        }
        if line_names_core(lines[i].as_slice(), &cpu_prefix, &cpu_space_prefix).is_some() {
            count += 1;
        }
        i += 1;
    }
    proof {
        assert(lsv.skip(n as int) =~= Seq::<Seq<char>>::empty());
    }

    // second pass: apply every write in order, the last one per slot
    // winning
    let mut usage: Vec<u8> = Vec::new();
    let mut z: usize = 0;
    while z < count
        invariant
            z <= count,
            usage@.len() == z,
            forall|t: int| 0 <= t < z ==> #[trigger] usage@[t] == 0,
        decreases count - z,
    {
        usage.push(0u8);
        z += 1;
    }
    let mut k: usize = 0;
    proof {
        assert(lsv.take(0) =~= Seq::<Seq<char>>::empty());
    }
    while k < n
        invariant
            n == lines@.len(),
            lsv == lines@.map_values(|l: Vec<char>| l@),
            k <= n,
            cpu_prefix@ == "cpu"@,
            cpu_space_prefix@ == "cpu "@,
            usage@.len() == count,
            count == counted_stat_lines(lsv),
            forall|t: int|
                0 <= t < count ==> #[trigger] usage@[t] as int == static_usage_at(
                    lsv.take(k as int),
                    t,
                ),
            forall|t: int| 0 <= t < count ==> #[trigger] usage@[t] <= 100,
        decreases n - k,
    {
        proof {
            assert(lsv.take(k as int + 1).drop_last() =~= lsv.take(k as int));
            assert(lsv.take(k as int + 1).last() == lsv[k as int]);
        }
        match line_write(lines[k].as_slice(), &cpu_prefix, &cpu_space_prefix) {
            Some((idx, v)) => {
                if idx < count {
                    usage.set(idx, v);
                }
            }
            None => {}
        }
        k += 1;
    }
    proof {
        assert(lsv.take(n as int) =~= lsv);
    }
    usage
}

/// The slot a stat line names, where it names one.
fn line_names_core(l: &[char], cpu_prefix: &Vec<char>, cpu_space_prefix: &Vec<char>) -> (r:
    Option<usize>)
    requires
        cpu_prefix@ == "cpu"@,
        cpu_space_prefix@ == "cpu "@,
    ensures
        r is Some <==> is_counted_stat_line(l@),
        r matches Some(i) ==> {
            let ts = tokens_spec(l@);
            i as int == crate::text::dec_value(ts[0].skip(3))
        },
{
    if !crate::text::starts_with(l, cpu_prefix.as_slice()) || crate::text::starts_with(
        l,
        cpu_space_prefix.as_slice(),
    ) {
        return None;
    }
    let toks = crate::text::split_tokens(l);
    let ghost tsv = toks@.map_values(|t: Vec<char>| t@);
    if toks.len() == 0 {
        return None;
    }
    let t0 = &toks[0];
    let t0n: usize = t0.len();
    if t0n <= 3 {
        return None;
    }
    if !crate::text::starts_with(t0.as_slice(), cpu_prefix.as_slice()) {
        return None;
    }
    let digits = &t0.as_slice()[3..t0n];
    proof {
        assert(digits@ =~= tokens_spec(l@)[0].skip(3));
    }
    match crate::text::parse_u64(digits) {
        Some(v) => {
            if v <= usize::MAX as u64 {
                Some(v as usize)
            } else {
                None
            }
        }
        None => None,
    }
}

/// The write a stat line performs, where it performs one.
fn line_write(l: &[char], cpu_prefix: &Vec<char>, cpu_space_prefix: &Vec<char>) -> (r: Option<
    (usize, u8),
>)
    requires
        cpu_prefix@ == "cpu"@,
        cpu_space_prefix@ == "cpu "@,
    ensures
        match line_update(l@) {
            Some(w) => r matches Some(p) && p.0 as int == w.0 && p.1 as int == w.1 && p.1 <= 100,
            None => r is None,
        },
{
    let idx = match line_names_core(l, cpu_prefix, cpu_space_prefix) {
        Some(i) => i,
        None => {
            return None;
        }
    };
    let toks = crate::text::split_tokens(l);
    let ghost tsv = toks@.map_values(|t: Vec<char>| t@);
    if toks.len() < 5 {
        return None;
    }
    let u = token_num_or_zero(toks[1].as_slice());
    let ni = token_num_or_zero(toks[2].as_slice());
    let sy = token_num_or_zero(toks[3].as_slice());
    let idl = token_num_or_zero(toks[4].as_slice());
    let busy: u128 = u as u128 + ni as u128 + sy as u128;
    let total: u128 = busy + idl as u128;
    if total == 0 {
        return None;
    }
    proof {
        assert(100 * (busy as int) / (total as int) <= 100) by (nonlinear_arith)
            requires
                busy <= total,
                total > 0,
        ;
        assert(100 * (busy as int) / (total as int) >= 0) by (nonlinear_arith)
            requires
                busy >= 0,
                total > 0,
        ;
    }
    let q: u128 = 100 * busy / total;
    Some((idx, q as u8))
}

/// A counted-line total is bounded by the line count.
proof fn lemma_counted_bounds(ls: Seq<Seq<char>>)
    ensures
        0 <= counted_stat_lines(ls) <= ls.len(),
    decreases ls.len(),
{
    if ls.len() > 0 {
        lemma_counted_bounds(ls.drop_first());
    }
}

/// One core's view in a sample: usage is derived by the delta-rate
/// engine, never raw.
#[derive(Debug, Clone)]
pub struct CpuCore {
    pub index: usize,
    pub usage: u8,
    pub frequency: u32,
    pub governor: String,
}

/// A CPU sample: overall usage percent and the per-core readings.
#[derive(Debug, Clone)]
pub struct CpuStats {
    pub usage: u8,
    pub frequency: u32,
    pub cores: Vec<CpuCore>,
}

/// Location of one core's current-frequency pseudo-file.
pub open spec fn freq_path(i: int) -> Seq<char> {
    "/sys/devices/system/cpu/cpu"@ + crate::text::dec_chars(i) + "/cpufreq/scaling_cur_freq"@
}

/// Location of one core's frequency-governor pseudo-file.
pub open spec fn governor_path(i: int) -> Seq<char> {
    "/sys/devices/system/cpu/cpu"@ + crate::text::dec_chars(i) + "/cpufreq/scaling_governor"@
}

/// One core's current frequency: best-effort, zero when missing,
/// malformed or out of range.
pub open spec fn freq_of(fs: &FsView, i: int) -> u32 {
    match fs.file_at(freq_path(i)) {
        Some(c) => match parse_u64_spec(c) {
            Some(v) => if v <= u32::MAX {
                v as u32
            } else {
                0
            },
            None => 0,
        },
        None => 0,
    }
}

/// One core's governor name: trimmed file content, or "unknown".
pub open spec fn governor_of(fs: &FsView, i: int) -> Seq<char> {
    match fs.file_at(governor_path(i)) {
        Some(c) => trimmed(c),
        None => "unknown"@,
    }
}

/// The core index a processor line announces, best-effort zero.
pub open spec fn core_index_of(value: Seq<char>) -> int {
    let t = trimmed(value);
    if t.len() > 0 && crate::text::all_dec_digits(t) && crate::text::dec_value(t) <= usize::MAX {
        crate::text::dec_value(t)
    } else {
        0
    }
}

/// The core one identification line introduces, if it is a
/// "processor : N" line: index from the line, frequency and governor
/// from that core's own pseudo-files, usage still underived.
pub open spec fn core_from_line(l: Seq<char>, fs: &FsView) -> Option<(int, u32, Seq<char>)> {
    let ci = crate::text::first_idx_of(l, ':');
    if 0 <= ci < l.len() {
        let key = trimmed(l.subrange(0, ci));
        let value = trimmed(l.subrange(ci + 1, l.len() as int));
        if key == "processor"@ {
            let idx = core_index_of(l.subrange(ci + 1, l.len() as int));
            Some((idx, freq_of(fs, idx), governor_of(fs, idx)))
        } else {
            None
        }
    } else {
        None
    }
}

/// The cores a sequence of identification lines introduces, in order.
pub open spec fn cores_of_lines(ls: Seq<Seq<char>>, fs: &FsView) -> Seq<(int, u32, Seq<char>)>
    decreases ls.len(),
{
    if ls.len() == 0 {
        Seq::empty()
    } else {
        match core_from_line(ls[0], fs) {
            Some(c) => seq![c] + cores_of_lines(ls.drop_first(), fs),
            None => cores_of_lines(ls.drop_first(), fs),
        }
    }
}

/// The cores the identification pseudo-file announces; none when the
/// file is unavailable.
pub open spec fn cores_model(fs: &FsView) -> Seq<(int, u32, Seq<char>)> {
    match fs.file_at("/proc/cpuinfo"@) {
        Some(c) => cores_of_lines(lines_spec(c), fs),
        None => Seq::empty(),
    }
}

/// The counter reading the stat pseudo-file currently holds; none when
/// the file is unavailable.
pub open spec fn current_of(fs: &FsView) -> Seq<CpuTimeValues> {
    match fs.file_at("/proc/stat"@) {
        Some(c) => stat_values_of(c),
        None => Seq::empty(),
    }
}

/// Read core identity (index, frequency, governor) for every announced
/// core, with usage left at zero for the delta-rate engine to fill.
pub fn read_cpu_cores_info(fs: &FsView) -> (r: Vec<CpuCore>)
    ensures
        r@.len() == cores_model(fs).len(),
        forall|i: int|
            0 <= i < r@.len() ==> {
                let m = #[trigger] cores_model(fs)[i];
                r@[i].index == m.0 && r@[i].frequency == m.1 && r@[i].governor@ == m.2
                    && r@[i].usage == 0
            },
{
    let path = chars_of("/proc/cpuinfo");
    let content = match fs.read(path.as_slice()) {
        Some(c) => c,
        None => {
            return Vec::new();
        }
    };
    let cv = chars_of(content.as_str());
    let lines = split_lines(cv.as_slice());
    let ghost lsv = lines@.map_values(|l: Vec<char>| l@);
    let processor_key = chars_of("processor");
    let n: usize = lines.len();
    let mut out: Vec<CpuCore> = Vec::new();
    let mut i: usize = 0;
    let ghost model = cores_of_lines(lsv, fs);
    proof {
        assert(lsv.skip(0) =~= lsv);
    }
    while i < n
        invariant
            n == lines@.len(),
            lsv == lines@.map_values(|l: Vec<char>| l@),
            i <= n,
            processor_key@ == "processor"@,
            model == cores_of_lines(lsv, fs),
            model =~= out@.map_values(|c: CpuCore| (c.index as int, c.frequency, c.governor@))
                + cores_of_lines(lsv.skip(i as int), fs),
            forall|j: int| 0 <= j < out@.len() ==> #[trigger] out@[j].usage == 0,
        decreases n - i,
    {
        proof {
            assert(lsv.skip(i as int).drop_first() =~= lsv.skip(i as int + 1));
            assert(lsv.skip(i as int)[0] == lsv[i as int]);
        }
        let line = &lines[i];
        match crate::text::split_once_at(line.as_slice(), ':') {
            Some((ci, vi)) => {
                let key = trim_copy(&line.as_slice()[0..ci]);
                if crate::text::chars_eq(key.as_slice(), processor_key.as_slice()) {
                    let ln: usize = line.len();
                    let value = trim_copy(&line.as_slice()[vi..ln]);
                    let idx: usize = match parse_u64(value.as_slice()) {
                        Some(v) => if v <= usize::MAX as u64 {
                            v as usize
                        } else {
                            0
                        },
                        None => 0,
                    };
                    proof {
                        assert(line@.subrange(0, ci as int) =~= lsv[i as int].subrange(
                            0,
                            ci as int,
                        ));
                        assert(line@.subrange(vi as int, ln as int) =~= lsv[i as int].subrange(
                            ci + 1,
                            lsv[i as int].len() as int,
                        ));
                        assert(idx as int == core_index_of(
                            lsv[i as int].subrange(ci + 1, lsv[i as int].len() as int),
                        ));
                    }
                    let core = CpuCore {
                        index: idx,
                        usage: 0,
                        frequency: read_cpu_core_frequency(fs, idx),
                        governor: read_core_governor(fs, idx),
                    };
                    out.push(core);
                }
            }
            None => {}
        }
        i += 1;
    }
    proof {
        assert(lsv.skip(n as int) =~= Seq::<Seq<char>>::empty());
        assert(model =~= out@.map_values(|c: CpuCore| (c.index as int, c.frequency, c.governor@)));
        assert forall|j: int| 0 <= j < out@.len() implies {
            let m = #[trigger] cores_model(fs)[j];
            out@[j].index == m.0 && out@[j].frequency == m.1 && out@[j].governor@ == m.2
                && out@[j].usage == 0
        } by {
            assert(cores_model(fs)[j] == out@.map_values(
                |c: CpuCore| (c.index as int, c.frequency, c.governor@),
            )[j]);
        }
    }
    out
}

/// Read one core's current frequency from its own pseudo-file.
pub fn read_cpu_core_frequency(fs: &FsView, idx: usize) -> (r: u32)
    ensures
        r == freq_of(fs, idx as int),
{
    let digits = crate::text::u64_to_chars(idx as u64);
    let p = crate::text::concat3_chars(
        chars_of("/sys/devices/system/cpu/cpu").as_slice(),
        digits.as_slice(),
        chars_of("/cpufreq/scaling_cur_freq").as_slice(),
    );
    match fs.read_u64(p.as_slice()) {
        Some(v) => if v <= u32::MAX as u64 {
            v as u32
        } else {
            0
        },
        None => 0,
    }
}

/// Read one core's governor name, "unknown" where unavailable.
pub fn read_core_governor(fs: &FsView, idx: usize) -> (r: String)
    ensures
        r@ == governor_of(fs, idx as int),
{
    let digits = crate::text::u64_to_chars(idx as u64);
    let p = crate::text::concat3_chars(
        chars_of("/sys/devices/system/cpu/cpu").as_slice(),
        digits.as_slice(),
        chars_of("/cpufreq/scaling_governor").as_slice(),
    );
    match fs.read(p.as_slice()) {
        Some(c) => crate::text::trim_str(c.as_str()),
        None => "unknown".to_owned(),
    }
}

/// Sum of the per-core usage percentages.
pub open spec fn sum_usages(s: Seq<CpuCore>) -> int
    decreases s.len(),
{
    if s.len() == 0 {
        0int
    } else {
        s[0].usage + sum_usages(s.drop_first())
    }
}

/// The overall usage: the average of the per-core percentages, zero with
/// no cores.
pub open spec fn avg_usage(s: Seq<CpuCore>) -> int {
    if s.len() == 0 {
        0int
    } else {
        sum_usages(s) / s.len() as int
    }
}

/// The usage value slot `i` of an assembled sample carries: the
/// engine's derived percent where the counter list reaches it, zero
/// beyond.
pub open spec fn padded_usage(um: Seq<int>, i: int) -> int {
    if 0 <= i < um.len() {
        um[i]
    } else {
        0
    }
}

/// The sum of the assembled usage values over slots `i..n`.
pub open spec fn padded_sum_from(um: Seq<int>, i: int, n: int) -> int
    decreases n - i,
{
    if i >= n {
        0int
    } else {
        padded_usage(um, i) + padded_sum_from(um, i + 1, n)
    }
}

/// The overall usage a full sample reports: the average, over the
/// announced cores, of the engine's derived percentages (zero for a
/// core beyond the counter list), zero with no cores at all.
pub open spec fn stats_usage_model(fs: &FsView, prev: Seq<CpuTimeValues>) -> int {
    let um = usage_model(prev, current_of(fs));
    let n = cores_model(fs).len() as int;
    if n == 0 {
        0int
    } else {
        padded_sum_from(um, 0, n) / n
    }
}

/// A core list whose usage values are the assembled slots sums to the
/// assembled slot sum.
proof fn lemma_assembled_sum(s: Seq<CpuCore>, um: Seq<int>, i: int)
    requires
        0 <= i <= s.len(),
        forall|j: int| 0 <= j < s.len() ==> #[trigger] s[j].usage as int == padded_usage(um, j),
    ensures
        sum_usages(s.skip(i)) == padded_sum_from(um, i, s.len() as int),
    decreases s.len() - i,
{
    if i < s.len() {
        lemma_assembled_sum(s, um, i + 1);
        assert(s.skip(i)[0] == s[i]);
        assert(s.skip(i).drop_first() =~= s.skip(i + 1));
    } else {
        assert(s.skip(i) =~= Seq::<CpuCore>::empty());
    }
}

/// One assembled core matches its identity data and derived usage.
pub open spec fn core_entry_ok(
    cores: Seq<CpuCore>,
    info: Seq<CpuCore>,
    usage: Seq<u8>,
    j: int,
) -> bool {
    cores[j].index == info[j].index && cores[j].frequency == info[j].frequency && cores[j].governor@
        == info[j].governor@ && cores[j].usage as int == (if j < usage.len() {
        usage[j] as int
    } else {
        0int
    })
}

impl CpuMonitor {
    /// One full CPU sample: read the cumulative counters, derive per-core
    /// usage against the stored baseline (replacing it), attach identity
    /// data to each announced core, and average. Cores beyond the counter
    /// list keep usage zero.
    pub fn get_stats(&mut self, fs: &FsView) -> (r: CpuStats)
        ensures
            final(self).prev_values@ == current_of(fs),
            r.frequency == 0,
            r.cores@.len() == cores_model(fs).len(),
            forall|i: int|
                0 <= i < r.cores@.len() ==> {
                    let m = #[trigger] cores_model(fs)[i];
                    let um = usage_model(old(self).prev_values@, current_of(fs));
                    r.cores@[i].index == m.0 && r.cores@[i].frequency == m.1
                        && r.cores@[i].governor@ == m.2 && r.cores@[i].usage as int == (if i
                        < um.len() {
                        um[i]
                    } else {
                        0int
                    })
                },
            forall|i: int| 0 <= i < r.cores@.len() ==> #[trigger] r.cores@[i].usage <= 100,
            r.usage as int == avg_usage(r.cores@),
            r.usage as int == stats_usage_model(fs, old(self).prev_values@),
            r.usage <= 100,
    {
        let current = read_cpu_time_values(fs);
        let ghost curv = current@;
        proof {
            assert(curv =~= current_of(fs));
        }
        let usage = self.observe(current);
        proof {
            let um = usage_model(old(self).prev_values@, current_of(fs));
            assert(usage@.map_values(|u: u8| u as int) == um);
            assert forall|j: int| 0 <= j < usage@.len() implies usage@[j] as int == um[j] by {
                assert(um[j] == usage@.map_values(|u: u8| u as int)[j]);
            }
            assert(usage@.len() == um.len());
        }
        let info = read_cpu_cores_info(fs);
        let n: usize = info.len();
        let mut cores: Vec<CpuCore> = Vec::new();
        let mut i: usize = 0;
        while i < n
            invariant
                n == info@.len(),
                i <= n,
                cores@.len() == i,
                forall|j: int| 0 <= j < usage@.len() ==> #[trigger] usage@[j] <= 100,
                forall|j: int| 0 <= j < i ==> #[trigger] core_entry_ok(cores@, info@, usage@, j),
                forall|j: int| 0 <= j < i ==> #[trigger] cores@[j].usage <= 100,
            decreases n - i,
        {
            let ghost before = cores@;
            let u: u8 = if i < usage.len() {
                usage[i]
            } else {
                0
            };
            let g = info[i].governor.clone();
            proof {
                assert(g@ == info@[i as int].governor@);
            }
            let c = CpuCore { index: info[i].index, usage: u, frequency: info[i].frequency, governor: g };
            cores.push(c);
            proof {
                assert(core_entry_ok(cores@, info@, usage@, i as int));
                assert forall|j: int| 0 <= j < i + 1 implies #[trigger] core_entry_ok(
                    cores@,
                    info@,
                    usage@,
                    j,
                ) by {
                    if j < i {
                        assert(cores@[j] == before[j]);
                        assert(core_entry_ok(before, info@, usage@, j));
                    }
                }
            }
            i += 1;
        }
        let avg = average_usage(&cores);
        proof {
            let um = usage_model(old(self).prev_values@, current_of(fs));
            assert forall|k: int| 0 <= k < cores@.len() implies {
                let m = #[trigger] cores_model(fs)[k];
                cores@[k].index == m.0 && cores@[k].frequency == m.1 && cores@[k].governor@ == m.2
                    && cores@[k].usage as int == (if k < um.len() {
                    um[k]
                } else {
                    0int
                })
            } by {
                assert(core_entry_ok(cores@, info@, usage@, k));
            }
            assert forall|j: int| 0 <= j < cores@.len() implies #[trigger] cores@[j].usage as int
                == padded_usage(um, j) by {
                assert(core_entry_ok(cores@, info@, usage@, j));
            }
            lemma_assembled_sum(cores@, um, 0);
            assert(cores@.skip(0) =~= cores@);
            assert(avg as int == stats_usage_model(fs, old(self).prev_values@));
        }
        CpuStats { usage: avg, frequency: 0, cores }
    }
}

impl CpuStats {
    /// One CPU sample from a single reading: per-core identity with the
    /// busy share of each core's counters since boot. A fresh process
    /// needs no baseline for this path; for instantaneous usage the
    /// delta-rate engine is the right one.
    pub fn get(fs: &FsView) -> (r: CpuStats)
        ensures
            r.frequency == 0,
            r.cores@.len() == cores_model(fs).len(),
            forall|i: int|
                0 <= i < r.cores@.len() ==> {
                    let m = #[trigger] cores_model(fs)[i];
                    r.cores@[i].index == m.0 && r.cores@[i].frequency == m.1
                        && r.cores@[i].governor@ == m.2 && r.cores@[i].usage as int == (if i
                        < static_count_of(fs) {
                        static_usage_of(fs, i)
                    } else {
                        0int
                    })
                },
            forall|i: int| 0 <= i < r.cores@.len() ==> #[trigger] r.cores@[i].usage <= 100,
            r.usage as int == avg_usage(r.cores@),
            r.usage <= 100,
    {
        let usage = read_static_usage(fs);
        let info = read_cpu_cores_info(fs);
        let n: usize = info.len();
        let mut cores: Vec<CpuCore> = Vec::new();
        let mut i: usize = 0;
        while i < n
            invariant
                n == info@.len(),
                i <= n,
                cores@.len() == i,
                usage@.len() == static_count_of(fs),
                forall|j: int|
                    0 <= j < usage@.len() ==> #[trigger] usage@[j] as int == static_usage_of(
                        fs,
                        j,
                    ),
                forall|j: int| 0 <= j < usage@.len() ==> #[trigger] usage@[j] <= 100,
                forall|j: int| 0 <= j < i ==> #[trigger] core_entry_ok(cores@, info@, usage@, j),
                forall|j: int| 0 <= j < i ==> #[trigger] cores@[j].usage <= 100,
            decreases n - i,
        {
            let ghost before = cores@;
            let u: u8 = if i < usage.len() {
                usage[i]
            } else {
                0
            };
            let g = info[i].governor.clone();
            proof {
                assert(g@ == info@[i as int].governor@);
            }
            let c = CpuCore { index: info[i].index, usage: u, frequency: info[i].frequency, governor: g };
            cores.push(c);
            proof {
                assert(core_entry_ok(cores@, info@, usage@, i as int));
                assert forall|j: int| 0 <= j < i + 1 implies #[trigger] core_entry_ok(
                    cores@,
                    info@,
                    usage@,
                    j,
                ) by {
                    if j < i {
                        assert(cores@[j] == before[j]);
                        assert(core_entry_ok(before, info@, usage@, j));
                    }
                }
            }
            i += 1;
        }
        let avg = average_usage(&cores);
        proof {
            assert forall|k: int| 0 <= k < cores@.len() implies {
                let m = #[trigger] cores_model(fs)[k];
                cores@[k].index == m.0 && cores@[k].frequency == m.1 && cores@[k].governor@ == m.2
                    && cores@[k].usage as int == (if k < static_count_of(fs) {
                    static_usage_of(fs, k)
                } else {
                    0int
                })
            } by {
                assert(core_entry_ok(cores@, info@, usage@, k));
            }
        }
        CpuStats { usage: avg, frequency: 0, cores }
    }
}

/// The average usage of a core list, as `avg_usage` states it.
fn average_usage(cores: &Vec<CpuCore>) -> (r: u8)
    requires
        forall|j: int| 0 <= j < cores@.len() ==> #[trigger] cores@[j].usage <= 100,
    ensures
        r as int == avg_usage(cores@),
        r <= 100,
{
    let n: usize = cores.len();
    if n == 0 {
        return 0;
    }
    let mut sum: u128 = 0;
    let mut i: usize = 0;
    proof {
        assert(cores@.skip(0) =~= cores@);
    }
    while i < n
        invariant
            n == cores@.len(),
            i <= n,
            forall|j: int| 0 <= j < cores@.len() ==> #[trigger] cores@[j].usage <= 100,
            sum <= 100 * (i as int),
            sum_usages(cores@) == sum + sum_usages(cores@.skip(i as int)),
        decreases n - i,
    {
        proof {
            assert(cores@.skip(i as int).drop_first() =~= cores@.skip(i as int + 1));
            assert(cores@.skip(i as int)[0] == cores@[i as int]);
        }
        sum = sum + cores[i].usage as u128;
        i += 1;
    }
    proof {
        assert(cores@.skip(n as int) =~= Seq::<CpuCore>::empty());
        assert(sum as int / (n as int) <= 100) by (nonlinear_arith)
            requires
                sum <= 100 * (n as int),
                n > 0,
        ;
        assert(sum as int / (n as int) >= 0) by (nonlinear_arith)
            requires
                sum >= 0,
                n > 0,
        ;
    }
    let q: u128 = sum / (n as u128);
    q as u8
}

/// Exact second observation: whenever the total counter moved forward,
/// the busy counter did not run backwards, and the busy movement is
/// within the total movement (as it is for true kernel counters, where
/// busy time is part of total time), the derived usage is exactly the
/// busy delta over the total delta, as a percent.
pub proof fn lemma_exact_delta_quotient(prev: CpuTimeValues, cur: CpuTimeValues)
    requires
        total_spec(cur) > total_spec(prev),
        busy_spec(cur) >= busy_spec(prev),
        busy_spec(cur) - busy_spec(prev) <= total_spec(cur) - total_spec(prev),
    ensures
        core_usage(prev, cur) == 100 * (busy_spec(cur) - busy_spec(prev)) / (total_spec(cur)
            - total_spec(prev)),
        core_usage(prev, cur) >= 0,
{
    let db = busy_spec(cur) - busy_spec(prev);
    let dt = total_spec(cur) - total_spec(prev);
    assert(100 * db <= 100 * dt) by (nonlinear_arith)
        requires
            db <= dt,
    ;
    assert(100 * db / dt <= 100) by (nonlinear_arith)
        requires
            100 * db <= 100 * dt,
            dt > 0,
    ;
    assert(100 * db / dt >= 0) by (nonlinear_arith)
        requires
            db >= 0,
            dt > 0,
    ;
}

/// Delta-rate monotonicity: whenever the total counter moved forward and
/// the busy counter did not run backwards, the derived usage is a true
/// percentage, within [0, 100].
pub proof fn lemma_delta_rate_bounds(prev: CpuTimeValues, cur: CpuTimeValues)
    requires
        total_spec(cur) > total_spec(prev),
        busy_spec(cur) >= busy_spec(prev),
    ensures
        0 <= core_usage(prev, cur) <= 100,
{
}

/// First observation is zero: with no stored baseline, every core of any
/// reading is reported as 0.
pub proof fn lemma_first_observation_zero(cur: Seq<CpuTimeValues>)
    requires
        cur.len() > 0,
    ensures
        forall|i: int| 0 <= i < cur.len() ==> usage_model(Seq::empty(), cur)[i] == 0,
{
}

/// Topology-change reset: whenever the stored baseline has a different
/// core count than the current reading, every core is reported as 0.
pub proof fn lemma_topology_change_zero(prev: Seq<CpuTimeValues>, cur: Seq<CpuTimeValues>)
    requires
        prev.len() != cur.len(),
    ensures
        forall|i: int| 0 <= i < cur.len() ==> usage_model(prev, cur)[i] == 0,
{
}

} // verus!
