//! Accelerator process accounting: the parser for the vendor tool's
//! per-process monitor output.
//!
//! The tool itself is an outside program the unverified shell invokes;
//! the library owns the interpretation of what it prints.

use vstd::prelude::*;

use crate::text::{
    chars_of, lines_spec, matches_at, tokens_spec, trim_bounds, trimmed,
};

verus! {

/// One process as the monitor output lists it.
#[derive(Debug, Clone)]
pub struct ProcessInfo {
    pub pid: u32,
    pub name: String,
    /// Compute-unit utilization percent, best-effort.
    pub gpu_usage: u8,
    pub memory: u64,
    /// The raw line the process was listed on, trimmed.
    pub command: String,
}

/// The process sample: the accelerator's clients.
#[derive(Debug, Clone)]
pub struct ProcessStats {
    pub total_processes: usize,
    pub gpu_processes: Vec<ProcessInfo>,
}

impl Default for ProcessStats {
    /// Nothing running, or no tool to ask.
    fn default() -> (r: ProcessStats)
        ensures
            r.total_processes == 0,
            r.gpu_processes@.len() == 0,
    {
        ProcessStats { total_processes: 0, gpu_processes: Vec::new() }
    }
}

/// A numeric monitor field, zero where it holds a placeholder.
pub open spec fn field_or_zero(t: Seq<char>, max: int) -> int {
    if t.len() > 0 && crate::text::all_dec_digits(t) && crate::text::dec_value(t) <= max {
        crate::text::dec_value(t)
    } else {
        0
    }
}

/// Is this monitor line a data row at all? Header comments and the
/// column-name row are not.
pub open spec fn is_data_line(l: Seq<char>) -> bool {
    trimmed(l).len() > 0 && !matches_at(trimmed(l), "#"@, 0) && !matches_at(trimmed(l), "gpu"@, 0)
}

/// The process one monitor row announces, if it has enough columns:
/// identifier, name and utilization in the fixed column order.
pub open spec fn row_process(l: Seq<char>) -> Option<(int, Seq<char>, int, Seq<char>)> {
    let t = trimmed(l);
    let ts = tokens_spec(t);
    if is_data_line(l) && ts.len() >= 5 {
        Some((field_or_zero(ts[1], u32::MAX as int), ts[2], field_or_zero(ts[3], 100), t))
    } else {
        None
    }
}

/// The processes of a sequence of monitor lines, the first two (the
/// banner) dropped by the caller.
pub open spec fn rows_processes(ls: Seq<Seq<char>>) -> Seq<(int, Seq<char>, int, Seq<char>)>
    decreases ls.len(),
{
    if ls.len() == 0 {
        Seq::empty()
    } else {
        match row_process(ls[0]) {
            Some(p) => seq![p] + rows_processes(ls.drop_first()),
            None => rows_processes(ls.drop_first()),
        }
    }
}

/// The processes the whole monitor output announces: everything after
/// the two banner lines.
pub open spec fn pmon_model(output: Seq<char>) -> Seq<(int, Seq<char>, int, Seq<char>)> {
    let ls = lines_spec(output);
    if ls.len() >= 2 {
        rows_processes(ls.skip(2))
    } else {
        Seq::empty()
    }
}

/// Parse the vendor tool's per-process monitor output.
#[verifier::rlimit(100)]
pub fn parse_pmon_output(output: &str) -> (r: Vec<ProcessInfo>)
    ensures
        r@.len() == pmon_model(output@).len(),
        forall|i: int|
            0 <= i < r@.len() ==> {
                let m = #[trigger] pmon_model(output@)[i];
                r@[i].pid as int == m.0 && r@[i].name@ == m.1 && r@[i].gpu_usage as int == m.2
                    && r@[i].command@ == m.3 && r@[i].memory == 0
            },
{
    let cv = chars_of(output);
    let spans = crate::text::line_spans(cv.as_slice());
    let ghost lsv = lines_spec(output@);
    let hash = chars_of("#");
    let gpu_word = chars_of("gpu");
    let n: usize = spans.len();
    let mut out: Vec<ProcessInfo> = Vec::new();
    let mut k: usize = if n < 2 {
        n
    } else {
        2
    };
    let ghost banner_dropped: Seq<(int, Seq<char>, int, Seq<char>)> = pmon_model(output@);
    proof {
        if n < 2 {
            assert(lsv.skip(n as int) =~= Seq::<Seq<char>>::empty());
            assert(banner_dropped =~= rows_processes(lsv.skip(n as int)));
        }
    }
    while k < n
        invariant
            n == spans@.len(),
            cv@ == output@,
            lsv == lines_spec(output@),
            spans@.map_values(|p: (usize, usize)| cv@.subrange(p.0 as int, p.1 as int)) == lsv,
            forall|j: int|
                0 <= j < n ==> (#[trigger] spans@[j]).0 <= spans@[j].1 && spans@[j].1 <= cv@.len(),
            2 <= k || k == n,
            k <= n,
            hash@ == "#"@ && gpu_word@ == "gpu"@,
            banner_dropped == pmon_model(output@),
            banner_dropped =~= out@.map_values(
                |p: ProcessInfo| (p.pid as int, p.name@, p.gpu_usage as int, p.command@),
            ) + rows_processes(lsv.skip(k as int)),
            forall|j: int| 0 <= j < out@.len() ==> (#[trigger] out@[j]).memory == 0,
        decreases n - k,
    {
        proof {
            assert(lsv.skip(k as int).drop_first() =~= lsv.skip(k as int + 1));
            assert(lsv.skip(k as int)[0] == lsv[k as int]);
            assert(lsv[k as int] == cv@.subrange(spans@[k as int].0 as int, spans@[k as int].1 as int));
        }
        let (sa, se) = (spans[k].0, spans[k].1);
        let lv = &cv.as_slice()[sa..se];
        let (ta, tb) = trim_bounds(lv);
        let tv = &lv[ta..tb];
        let data_line = tb > ta && !crate::text::starts_with(tv, hash.as_slice())
            && !crate::text::starts_with(tv, gpu_word.as_slice());
        if data_line {
            let toks = crate::text::token_spans(tv);
            if toks.len() >= 5 {
                let ghost tvv = tv@;
                let pid: u32 = match crate::text::parse_u64(&tv[toks[1].0..toks[1].1]) {
                    Some(v) => if v <= u32::MAX as u64 {
                        v as u32
                    } else {
                        0
                    },
                    None => 0,
                };
                let name = output
                    .substring_char(sa + ta + toks[2].0, sa + ta + toks[2].1)
                    .to_owned();
                let usage: u8 = match crate::text::parse_u64(&tv[toks[3].0..toks[3].1]) {
                    Some(v) => if v <= 100 {
                        v as u8
                    } else {
                        0
                    },
                    None => 0,
                };
                let command = output.substring_char(sa + ta, sa + tb).to_owned();
                proof {
                    let l = lsv[k as int];
                    let ts = tokens_spec(trimmed(l));
                    assert(tvv == trimmed(l));
                    assert(tvv.subrange(toks@[1].0 as int, toks@[1].1 as int) == ts[1]);
                    assert(tvv.subrange(toks@[2].0 as int, toks@[2].1 as int) == ts[2]);
                    assert(tvv.subrange(toks@[3].0 as int, toks@[3].1 as int) == ts[3]);
                    assert(name@ =~= ts[2]);
                    assert(command@ =~= trimmed(l));
                }
                out.push(ProcessInfo { pid, name, gpu_usage: usage, memory: 0, command });
            }
        }
        k += 1;
    }
    proof {
        assert(lsv.skip(n as int) =~= Seq::<Seq<char>>::empty());
        let m = out@.map_values(
            |p: ProcessInfo| (p.pid as int, p.name@, p.gpu_usage as int, p.command@),
        );
        assert(pmon_model(output@) =~= m);
        assert forall|j: int| 0 <= j < out@.len() implies {
            let mm = #[trigger] pmon_model(output@)[j];
            out@[j].pid as int == mm.0 && out@[j].name@ == mm.1 && out@[j].gpu_usage as int == mm.2
                && out@[j].command@ == mm.3 && out@[j].memory == 0
        } by {
            assert(pmon_model(output@)[j] == m[j]);
        }
    }
    out
}

} // verus!
