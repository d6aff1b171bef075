//! Power-rail sampling from the current/voltage monitor chips.
//!
//! Rails are found either through the industrial-I/O devices or, as a
//! fallback, through the hardware-monitor class. All readings are kept
//! as the kernel writes them: currents and voltages raw, powers derived
//! in microwatts by the micro-scaled product of the two.

use vstd::prelude::*;

use crate::fsview::FsView;
use crate::text::{chars_of, concat_chars, matches_at, trim_str, trimmed};

verus! {

/// One power rail: raw current and voltage readings and the derived
/// power in microwatts.
#[derive(Debug, Clone)]
pub struct PowerRail {
    pub name: String,
    pub current: u64,
    pub voltage: u64,
    pub power: u64,
}

/// The power sample: every rail and the microwatt total.
#[derive(Debug, Clone)]
pub struct PowerStats {
    pub total: u64,
    pub rails: Vec<PowerRail>,
}

impl Default for PowerStats {
    /// No power monitor exposure at all.
    fn default() -> (r: PowerStats)
        ensures
            r.total == 0,
            r.rails@.len() == 0,
    {
        PowerStats { total: 0, rails: Vec::new() }
    }
}

/// The micro-scaled product of a current and a voltage reading,
/// saturating at the machine word.
pub open spec fn power_product(c: int, v: int) -> int {
    if c * v / 1000000 > u64::MAX {
        u64::MAX as int
    } else {
        c * v / 1000000
    }
}

/// A raw counter read best-effort, zero on failure.
pub open spec fn raw_of(fs: &FsView, p: Seq<char>) -> int {
    match fs.file_at(p) {
        Some(c) => match crate::fsview::parse_u64_spec(c) {
            Some(v) => v as int,
            None => 0,
        },
        None => 0,
    }
}

/// The rail one industrial-I/O device entry denotes, if its name marks
/// such a device: the label file names the rail; a device without one
/// counts only when its name file marks the monitor chip.
pub open spec fn iio_rail_of(fs: &FsView, name: Seq<char>) -> Option<(Seq<char>, int, int, int)> {
    if matches_at(name, "iio:device"@, 0) {
        let dir = "/sys/bus/i2c/devices/"@ + name;
        let label = match fs.file_at(dir + "/in0_label"@) {
            Some(c) => trimmed(c),
            None => {
                match fs.file_at(dir + "/name"@) {
                    Some(c) => if crate::text::contains_seq(c, "ina3221"@) {
                        "in0"@
                    } else {
                        Seq::empty()
                    },
                    None => Seq::empty(),
                }
            },
        };
        if label.len() == 0 {
            None
        } else {
            let c = raw_of(fs, dir + "/curr0_input"@);
            let v = raw_of(fs, dir + "/in0_input"@);
            Some((label, c, v, power_product(c, v)))
        }
    } else {
        None
    }
}

/// The rails of the industrial-I/O listing, in order.
pub open spec fn iio_rails_of(fs: &FsView, names: Seq<Seq<char>>) -> Seq<(Seq<char>, int, int, int)>
    decreases names.len(),
{
    if names.len() == 0 {
        Seq::empty()
    } else {
        match iio_rail_of(fs, names[0]) {
            Some(r) => seq![r] + iio_rails_of(fs, names.drop_first()),
            None => iio_rails_of(fs, names.drop_first()),
        }
    }
}

/// All industrial-I/O rails of the snapshot.
pub open spec fn iio_rails_model(fs: &FsView) -> Seq<(Seq<char>, int, int, int)> {
    match fs.dir_at("/sys/bus/i2c/devices"@) {
        Some(ns) => iio_rails_of(fs, ns),
        None => Seq::empty(),
    }
}

/// The microwatt total of a rail list.
pub open spec fn rails_total(rs: Seq<(Seq<char>, int, int, int)>) -> int
    decreases rs.len(),
{
    if rs.len() == 0 {
        0
    } else {
        rs[0].3 + rails_total(rs.drop_first())
    }
}

/// The microwatt total of the snapshot's rails, saturating at the
/// machine word.
pub open spec fn power_total_model(fs: &FsView) -> int {
    clamp_total(rails_total(rails_model(fs)))
}

/// The milli-scaled product of a current and a voltage reading,
/// saturating at the machine word: the hardware-monitor rails mix
/// milli and micro units, so their product scales by a thousand.
pub open spec fn power_product_milli(c: int, v: int) -> int {
    if c * v / 1000 > u64::MAX {
        u64::MAX as int
    } else {
        c * v / 1000
    }
}

/// One channel of a three-channel monitor chip under the
/// hardware-monitor class: skipped where its label marks it
/// unconnected, unlabeled channels named by number; counted only when
/// it shows a power or at least a voltage.
pub open spec fn hwmon_chan_rail(fs: &FsView, dir: Seq<char>, ch: int) -> Option<
    (Seq<char>, int, int, int),
> {
    let label = match fs.file_at(dir + "/in"@ + crate::text::dec_chars(ch) + "_label"@) {
        Some(c) => trimmed(c),
        None => "rail"@ + crate::text::dec_chars(ch),
    };
    if label == "NC"@ {
        None
    } else {
        let c = raw_of(fs, dir + "/curr"@ + crate::text::dec_chars(ch) + "_input"@);
        let v = raw_of(fs, dir + "/in"@ + crate::text::dec_chars(ch) + "_input"@);
        let p = power_product_milli(c, v);
        if p > 0 || v > 0 {
            Some((label, c, v, p))
        } else {
            None
        }
    }
}

/// The rails one hardware-monitor entry contributes: a three-channel
/// monitor chip yields its connected channels; any other entry yields
/// its plain power reading, where positive.
pub open spec fn hwmon_entry_rails(fs: &FsView, name: Seq<char>) -> Seq<
    (Seq<char>, int, int, int),
> {
    let dir = "/sys/class/hwmon/"@ + name;
    let is_monitor_chip = match fs.file_at(dir + "/name"@) {
        Some(c) => trimmed(c) == "ina3221"@,
        None => false,
    };
    if is_monitor_chip {
        opt_seq(hwmon_chan_rail(fs, dir, 1)) + opt_seq(hwmon_chan_rail(fs, dir, 2)) + opt_seq(
            hwmon_chan_rail(fs, dir, 3),
        )
    } else {
        let p = if fs.has(dir + "/power1_input"@) {
            raw_of(fs, dir + "/power1_input"@)
        } else if fs.has(dir + "/power1_average"@) {
            raw_of(fs, dir + "/power1_average"@)
        } else {
            0
        };
        if p > 0 {
            seq![(name, p, 0int, p)]
        } else {
            Seq::empty()
        }
    }
}

/// A zero-or-one-element sequence from an optional rail.
pub open spec fn opt_seq(o: Option<(Seq<char>, int, int, int)>) -> Seq<(Seq<char>, int, int, int)> {
    match o {
        Some(r) => seq![r],
        None => Seq::empty(),
    }
}

/// The rails of the hardware-monitor listing, in order.
pub open spec fn hwmon_rails_of(fs: &FsView, names: Seq<Seq<char>>) -> Seq<
    (Seq<char>, int, int, int),
>
    decreases names.len(),
{
    if names.len() == 0 {
        Seq::empty()
    } else {
        hwmon_entry_rails(fs, names[0]) + hwmon_rails_of(fs, names.drop_first())
    }
}

/// All hardware-monitor rails of the snapshot.
pub open spec fn hwmon_rails_model(fs: &FsView) -> Seq<(Seq<char>, int, int, int)> {
    match fs.dir_at("/sys/class/hwmon"@) {
        Some(ns) => hwmon_rails_of(fs, ns),
        None => Seq::empty(),
    }
}

/// The rails a power sample holds: the industrial-I/O rails where they
/// exist and show power; the hardware-monitor rails as the fallback.
pub open spec fn rails_model(fs: &FsView) -> Seq<(Seq<char>, int, int, int)> {
    let iio = iio_rails_model(fs);
    if iio.len() == 0 || rails_total(iio) == 0 {
        hwmon_rails_model(fs)
    } else {
        iio
    }
}

/// The saturating machine-word clamp of a rail total.
pub open spec fn clamp_total(t: int) -> int {
    if t > u64::MAX {
        u64::MAX as int
    } else if t < 0 {
        0
    } else {
        t
    }
}

/// Read one channel of a three-channel monitor chip.
fn read_hwmon_chan(fs: &FsView, dir: &[char], ch: u64) -> (r: Option<PowerRail>)
    requires
        1 <= ch <= 3,
    ensures
        match hwmon_chan_rail(fs, dir@, ch as int) {
            Some(m) => r matches Some(p) && p.name@ == m.0 && p.current as int == m.1
                && p.voltage as int == m.2 && p.power as int == m.3,
            None => r is None,
        },
{
    let digits = crate::text::u64_to_chars(ch);
    let label_path = concat_chars(
        concat_chars(
            concat_chars(dir, chars_of("/in").as_slice()).as_slice(),
            digits.as_slice(),
        ).as_slice(),
        chars_of("_label").as_slice(),
    );
    let label: String = match fs.read(label_path.as_slice()) {
        Some(c) => trim_str(c.as_str()),
        None => {
            let mut base = "rail".to_owned();
            base.append(crate::text::u64_to_string(ch).as_str());
            base
        }
    };
    let lc = chars_of(label.as_str());
    if crate::text::chars_eq(lc.as_slice(), chars_of("NC").as_slice()) {
        return None;
    }
    let curr_path = concat_chars(
        concat_chars(
            concat_chars(dir, chars_of("/curr").as_slice()).as_slice(),
            digits.as_slice(),
        ).as_slice(),
        chars_of("_input").as_slice(),
    );
    let volt_path = concat_chars(
        concat_chars(
            concat_chars(dir, chars_of("/in").as_slice()).as_slice(),
            digits.as_slice(),
        ).as_slice(),
        chars_of("_input").as_slice(),
    );
    let c = fs.read_u64_or(curr_path.as_slice(), 0);
    let v = fs.read_u64_or(volt_path.as_slice(), 0);
    proof {
        assert(c as int * v as int <= u64::MAX as int * u64::MAX as int) by (nonlinear_arith)
            requires
                c <= u64::MAX,
                v <= u64::MAX,
        ;
    }
    let p128: u128 = c as u128 * v as u128 / 1000;
    let power: u64 = if p128 > u64::MAX as u128 {
        u64::MAX
    } else {
        p128 as u64
    };
    proof {
        assert(power as int == power_product_milli(c as int, v as int));
    }
    if power > 0 || v > 0 {
        Some(PowerRail { name: label, current: c, voltage: v, power })
    } else {
        None
    }
}

/// Read the rails one hardware-monitor entry contributes.
fn read_hwmon_entry(fs: &FsView, name: &String) -> (r: Vec<PowerRail>)
    ensures
        r@.map_values(
            |p: PowerRail| (p.name@, p.current as int, p.voltage as int, p.power as int),
        ) == hwmon_entry_rails(fs, name@),
{
    let nc = chars_of(name.as_str());
    let hdir = concat_chars(chars_of("/sys/class/hwmon/").as_slice(), nc.as_slice());
    let name_path = concat_chars(hdir.as_slice(), chars_of("/name").as_slice());
    let is_monitor_chip = match fs.read(name_path.as_slice()) {
        Some(c) => {
            let t = trim_str(c.as_str());
            crate::text::chars_eq(chars_of(t.as_str()).as_slice(), chars_of("ina3221").as_slice())
        }
        None => false,
    };
    let mut out: Vec<PowerRail> = Vec::new();
    if is_monitor_chip {
        match read_hwmon_chan(fs, hdir.as_slice(), 1) {
            Some(rail) => out.push(rail),
            None => {}
        }
        match read_hwmon_chan(fs, hdir.as_slice(), 2) {
            Some(rail) => out.push(rail),
            None => {}
        }
        match read_hwmon_chan(fs, hdir.as_slice(), 3) {
            Some(rail) => out.push(rail),
            None => {}
        }
        proof {
            let dir = "/sys/class/hwmon/"@ + name@;
            assert(out@.map_values(
                |p: PowerRail| (p.name@, p.current as int, p.voltage as int, p.power as int),
            ) =~= opt_seq(hwmon_chan_rail(fs, dir, 1)) + opt_seq(hwmon_chan_rail(fs, dir, 2))
                + opt_seq(hwmon_chan_rail(fs, dir, 3)));
        }
    } else {
        let p1 = concat_chars(hdir.as_slice(), chars_of("/power1_input").as_slice());
        let p2 = concat_chars(hdir.as_slice(), chars_of("/power1_average").as_slice());
        let p: u64 = if fs.path_exists(p1.as_slice()) {
            fs.read_u64_or(p1.as_slice(), 0)
        } else if fs.path_exists(p2.as_slice()) {
            fs.read_u64_or(p2.as_slice(), 0)
        } else {
            0
        };
        if p > 0 {
            out.push(PowerRail { name: name.clone(), current: p, voltage: 0, power: p });
        }
        proof {
            assert(out@.map_values(
                |p: PowerRail| (p.name@, p.current as int, p.voltage as int, p.power as int),
            ) =~= hwmon_entry_rails(fs, name@));
        }
    }
    out
}

/// Read the rails the hardware-monitor class exposes.
pub fn read_hwmon_rails(fs: &FsView) -> (r: Vec<PowerRail>)
    ensures
        r@.len() == hwmon_rails_model(fs).len(),
        forall|i: int|
            0 <= i < r@.len() ==> {
                let m = #[trigger] hwmon_rails_model(fs)[i];
                r@[i].name@ == m.0 && r@[i].current as int == m.1 && r@[i].voltage as int == m.2
                    && r@[i].power as int == m.3
            },
{
    let dir = chars_of("/sys/class/hwmon");
    let names = match fs.list(dir.as_slice()) {
        Some(ns) => ns,
        None => {
            return Vec::new();
        }
    };
    let ghost nsv = names@.map_values(|v: String| v@);
    let n: usize = names.len();
    let mut out: Vec<PowerRail> = Vec::new();
    let mut i: usize = 0;
    proof {
        assert(nsv.skip(0) =~= nsv);
    }
    while i < n
        invariant
            n == names@.len(),
            nsv == names@.map_values(|v: String| v@),
            fs.dir_at("/sys/class/hwmon"@) == Some(nsv),
            i <= n,
            hwmon_rails_of(fs, nsv) =~= out@.map_values(
                |p: PowerRail| (p.name@, p.current as int, p.voltage as int, p.power as int),
            ) + hwmon_rails_of(fs, nsv.skip(i as int)),
        decreases n - i,
    {
        proof {
            assert(nsv.skip(i as int).drop_first() =~= nsv.skip(i as int + 1));
            assert(nsv.skip(i as int)[0] == nsv[i as int]);
        }
        let mut entry = read_hwmon_entry(fs, &names[i]);
        let ghost before = out@;
        out.append(&mut entry);
        proof {
            let f = |p: PowerRail| (p.name@, p.current as int, p.voltage as int, p.power as int);
            assert(out@.map_values(f) =~= before.map_values(f) + hwmon_entry_rails(
                fs,
                nsv[i as int],
            ));
        }
        i += 1;
    }
    proof {
        assert(nsv.skip(n as int) =~= Seq::<Seq<char>>::empty());
        let m = out@.map_values(
            |p: PowerRail| (p.name@, p.current as int, p.voltage as int, p.power as int),
        );
        assert(hwmon_rails_of(fs, nsv) =~= m + hwmon_rails_of(fs, nsv.skip(n as int)));
        assert forall|j: int| 0 <= j < out@.len() implies {
            let mm = #[trigger] hwmon_rails_model(fs)[j];
            out@[j].name@ == mm.0 && out@[j].current as int == mm.1 && out@[j].voltage as int
                == mm.2 && out@[j].power as int == mm.3
        } by {
            assert(hwmon_rails_model(fs)[j] == m[j]);
        }
    }
    out
}

/// Read the rails the industrial-I/O devices expose.
pub fn read_power_rails(fs: &FsView) -> (r: Vec<PowerRail>)
    ensures
        r@.len() == iio_rails_model(fs).len(),
        forall|i: int|
            0 <= i < r@.len() ==> {
                let m = #[trigger] iio_rails_model(fs)[i];
                r@[i].name@ == m.0 && r@[i].current as int == m.1 && r@[i].voltage as int == m.2
                    && r@[i].power as int == m.3
            },
{
    let dir = chars_of("/sys/bus/i2c/devices");
    let names = match fs.list(dir.as_slice()) {
        Some(ns) => ns,
        None => {
            return Vec::new();
        }
    };
    let ghost nsv = names@.map_values(|v: String| v@);
    let prefix = chars_of("iio:device");
    let n: usize = names.len();
    let mut out: Vec<PowerRail> = Vec::new();
    let mut i: usize = 0;
    proof {
        assert(nsv.skip(0) =~= nsv);
    }
    while i < n
        invariant
            n == names@.len(),
            nsv == names@.map_values(|v: String| v@),
            fs.dir_at("/sys/bus/i2c/devices"@) == Some(nsv),
            i <= n,
            prefix@ == "iio:device"@,
            iio_rails_of(fs, nsv) =~= out@.map_values(
                |p: PowerRail| (p.name@, p.current as int, p.voltage as int, p.power as int),
            ) + iio_rails_of(fs, nsv.skip(i as int)),
        decreases n - i,
    {
        proof {
            assert(nsv.skip(i as int).drop_first() =~= nsv.skip(i as int + 1));
            assert(nsv.skip(i as int)[0] == nsv[i as int]);
        }
        let name = chars_of(names[i].as_str());
        if crate::text::starts_with(name.as_slice(), prefix.as_slice()) {
            let rdir = concat_chars(chars_of("/sys/bus/i2c/devices/").as_slice(), name.as_slice());
            let label_path = concat_chars(rdir.as_slice(), chars_of("/in0_label").as_slice());
            let label: String = match fs.read(label_path.as_slice()) {
                Some(c) => trim_str(c.as_str()),
                None => {
                    let name_path = concat_chars(rdir.as_slice(), chars_of("/name").as_slice());
                    match fs.read(name_path.as_slice()) {
                        Some(c) => {
                            let cc = chars_of(c.as_str());
                            if crate::text::contains(cc.as_slice(), chars_of("ina3221").as_slice())
                            {
                                "in0".to_owned()
                            } else {
                                String::new()
                            }
                        }
                        None => String::new(),
                    }
                }
            };
            if label.as_str().unicode_len() > 0 {
                let cur_path = concat_chars(rdir.as_slice(), chars_of("/curr0_input").as_slice());
                let volt_path = concat_chars(rdir.as_slice(), chars_of("/in0_input").as_slice());
                let c = fs.read_u64_or(cur_path.as_slice(), 0);
                let v = fs.read_u64_or(volt_path.as_slice(), 0);
                proof {
                    assert(c as int * v as int <= u64::MAX as int * u64::MAX as int)
                        by (nonlinear_arith)
                        requires
                            c <= u64::MAX,
                            v <= u64::MAX,
                    ;
                }
                let p128: u128 = c as u128 * v as u128 / 1000000;
                let power: u64 = if p128 > u64::MAX as u128 {
                    u64::MAX
                } else {
                    p128 as u64
                };
                proof {
                    assert(power as int == power_product(c as int, v as int));
                }
                out.push(PowerRail { name: label, current: c, voltage: v, power });
            }
        }
        i += 1;
    }
    proof {
        assert(nsv.skip(n as int) =~= Seq::<Seq<char>>::empty());
        let m = out@.map_values(
            |p: PowerRail| (p.name@, p.current as int, p.voltage as int, p.power as int),
        );
        assert(iio_rails_of(fs, nsv) =~= m + iio_rails_of(fs, nsv.skip(n as int)));
        assert forall|j: int| 0 <= j < out@.len() implies {
            let mm = #[trigger] iio_rails_model(fs)[j];
            out@[j].name@ == mm.0 && out@[j].current as int == mm.1 && out@[j].voltage as int
                == mm.2 && out@[j].power as int == mm.3
        } by {
            assert(iio_rails_model(fs)[j] == m[j]);
        }
    }
    out
}

impl PowerStats {
    /// One power sample: the industrial-I/O rails where they exist and
    /// show power, else the hardware-monitor rails, with the microwatt
    /// total of whichever set was taken. A board exposing no monitor at
    /// all reports no rails and a zero total.
    pub fn get(fs: &FsView) -> (r: PowerStats)
        ensures
            r.rails@.len() == rails_model(fs).len(),
            forall|i: int|
                0 <= i < r.rails@.len() ==> {
                    let m = #[trigger] rails_model(fs)[i];
                    r.rails@[i].name@ == m.0 && r.rails@[i].current as int == m.1
                        && r.rails@[i].voltage as int == m.2 && r.rails@[i].power as int == m.3
                },
            r.total as int == power_total_model(fs),
    {
        let iio = read_power_rails(fs);
        let ghost im = iio_rails_model(fs);
        let iio_total = total_rails(&iio, Ghost(im));
        let (rails, total): (Vec<PowerRail>, u64) = if iio.len() == 0 || iio_total == 0 {
            let hw = read_hwmon_rails(fs);
            let ghost hm = hwmon_rails_model(fs);
            let hw_total = total_rails(&hw, Ghost(hm));
            proof {
                if im.len() == 0 {
                } else {
                    assert(clamp_total(rails_total(im)) == 0);
                    lemma_rails_total_nonneg(im);
                    assert(rails_total(im) == 0);
                }
            }
            (hw, hw_total)
        } else {
            proof {
                assert(rails_total(im) != 0);
            }
            (iio, iio_total)
        };
        PowerStats { total, rails }
    }
}

/// Sum a rail list's powers, saturating at the machine word.
fn total_rails(rails: &Vec<PowerRail>, model: Ghost<Seq<(Seq<char>, int, int, int)>>) -> (r: u64)
    requires
        rails@.len() == model@.len(),
        forall|j: int|
            0 <= j < rails@.len() ==> (#[trigger] rails@[j]).power as int == model@[j].3,
    ensures
        r as int == clamp_total(rails_total(model@)),
{
    let ghost rm = model@;
    let n: usize = rails.len();
    let mut total128: u128 = 0;
    let mut i: usize = 0;
    proof {
        assert(rm.skip(0) =~= rm);
    }
    while i < n
        invariant
            n == rails@.len(),
            n == rm.len(),
            rm == model@,
            i <= n,
            forall|j: int| 0 <= j < n ==> (#[trigger] rails@[j]).power as int == rm[j].3,
            total128 <= u64::MAX as u128 * (i as int),
            rails_total(rm) == total128 + rails_total(rm.skip(i as int)),
        decreases n - i,
    {
        proof {
            assert(rm.skip(i as int).drop_first() =~= rm.skip(i as int + 1));
            assert(rm.skip(i as int)[0] == rm[i as int]);
        }
        total128 = total128 + rails[i].power as u128;
        i += 1;
    }
    proof {
        assert(rm.skip(n as int) =~= Seq::<(Seq<char>, int, int, int)>::empty());
    }
    if total128 > u64::MAX as u128 {
        u64::MAX
    } else {
        total128 as u64
    }
}

/// A rail total is never negative: every rail's power is clamped into
/// the machine word.
proof fn lemma_rails_total_nonneg(rs: Seq<(Seq<char>, int, int, int)>)
    ensures
        rails_total(rs) >= 0 || exists|i: int| 0 <= i < rs.len() && (#[trigger] rs[i]).3 < 0,
    decreases rs.len(),
{
    if rs.len() > 0 {
        lemma_rails_total_nonneg(rs.drop_first());
        if rails_total(rs) < 0 {
            if rs[0].3 < 0 {
                assert(0 <= 0 < rs.len() && rs[0].3 < 0);
            } else {
                assert(exists|i: int|
                    0 <= i < rs.drop_first().len() && (#[trigger] rs.drop_first()[i]).3 < 0);
                let i = choose|i: int|
                    0 <= i < rs.drop_first().len() && (#[trigger] rs.drop_first()[i]).3 < 0;
                assert(rs[i + 1].3 < 0);
            }
        }
    }
}

} // verus!
