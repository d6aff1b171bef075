//! Performance-profile sampling and control validation.
//!
//! The profile configuration file is scanned for profile sections; the
//! current profile id comes from the firmware device tree. Switching a
//! profile is a privileged helper invocation performed by the shell;
//! the library validates the requested id first.

use vstd::prelude::*;

use crate::error::Error;
use crate::fsview::FsView;
use crate::text::{chars_of, matches_at, trimmed};

verus! {

/// One selectable performance profile.
#[derive(Debug, Clone)]
pub struct NVPModel {
    pub id: u8,
    pub name: String,
    pub description: String,
}

/// The profile sample: the current profile id, every profile the
/// configuration announces, and whether the surface exists at all.
#[derive(Debug, Clone)]
pub struct NVPModelStats {
    pub current_model: u8,
    pub models: Vec<NVPModel>,
    pub available: bool,
}

impl Default for NVPModelStats {
    /// A board without the profile surface.
    fn default() -> (r: NVPModelStats)
        ensures
            r.current_model == 0,
            r.models@.len() == 0,
            !r.available,
    {
        NVPModelStats { current_model: 0, models: Vec::new(), available: false }
    }
}

/// The profile id one configuration line announces, if it is a profile
/// header carrying an id assignment.
pub open spec fn model_header_id(t: Seq<char>) -> Option<u8> {
    if matches_at(t, "NVPMODEL:"@, 0) && matches_at(t, "NVPMODEL="@, 0) {
        let d = t.skip("NVPMODEL="@.len() as int);
        if d.len() > 0 && crate::text::all_dec_digits(d) && crate::text::dec_value(d) <= u8::MAX {
            Some(crate::text::dec_value(d) as u8)
        } else {
            None
        }
    } else {
        None
    }
}

/// The scan over the configuration lines: a profile header updates the
/// pending id; a comment line flushes a pending profile, but only once
/// a name has been seen for it; the end of the file flushes the same
/// way. Other configuration lines carry no profile identity.
pub open spec fn nvp_scan(
    ls: Seq<Seq<char>>,
    cur_id: Option<u8>,
    cur_name: Seq<char>,
) -> Seq<(u8, Seq<char>)>
    decreases ls.len(),
{
    if ls.len() == 0 {
        if cur_id is Some && cur_name.len() > 0 {
            seq![(cur_id->0, cur_name)]
        } else {
            Seq::empty()
        }
    } else {
        let t = trimmed(ls[0]);
        if matches_at(t, "NVPMODEL:"@, 0) {
            match model_header_id(t) {
                Some(id) => nvp_scan(ls.drop_first(), Some(id), cur_name),
                None => nvp_scan(ls.drop_first(), cur_id, cur_name),
            }
        } else if matches_at(t, "#"@, 0) {
            if cur_id is Some && cur_name.len() > 0 {
                seq![(cur_id->0, cur_name)] + nvp_scan(ls.drop_first(), cur_id, Seq::empty())
            } else {
                nvp_scan(ls.drop_first(), cur_id, Seq::empty())
            }
        } else {
            nvp_scan(ls.drop_first(), cur_id, cur_name)
        }
    }
}

/// The profiles the configuration content announces.
pub open spec fn models_of(content: Seq<char>) -> Seq<(u8, Seq<char>)> {
    nvp_scan(crate::text::lines_spec(content), None, Seq::empty())
}

/// Parse the profile configuration content.
pub fn parse_nvpmodel_conf(content: &str) -> (r: Vec<NVPModel>)
    ensures
        r@.len() == models_of(content@).len(),
        forall|i: int|
            0 <= i < r@.len() ==> (#[trigger] r@[i]).id == models_of(content@)[i].0 && r@[i].name@
                == models_of(content@)[i].1,
{
    let cv = chars_of(content);
    let lines = crate::text::split_lines(cv.as_slice());
    let ghost lsv = lines@.map_values(|l: Vec<char>| l@);
    let header = chars_of("NVPMODEL:");
    let assign = chars_of("NVPMODEL=");
    let comment = chars_of("#");
    let n: usize = lines.len();
    let mut out: Vec<NVPModel> = Vec::new();
    let mut cur_id: Option<u8> = None;
    let cur_name: String = String::new();
    let mut i: usize = 0;
    proof {
        assert(lsv.skip(0) =~= lsv);
    }
    while i < n
        invariant
            n == lines@.len(),
            lsv == lines@.map_values(|l: Vec<char>| l@),
            i <= n,
            header@ == "NVPMODEL:"@ && assign@ == "NVPMODEL="@ && comment@ == "#"@,
            cur_name@ == Seq::<char>::empty(),
            nvp_scan(lsv, None, Seq::empty()) =~= out@.map_values(
                |m: NVPModel| (m.id, m.name@),
            ) + nvp_scan(lsv.skip(i as int), cur_id, cur_name@),
        decreases n - i,
    {
        proof {
            assert(lsv.skip(i as int).drop_first() =~= lsv.skip(i as int + 1));
            assert(lsv.skip(i as int)[0] == lsv[i as int]);
        }
        let t = crate::text::trim_copy(lines[i].as_slice());
        if crate::text::starts_with(t.as_slice(), header.as_slice()) {
            if crate::text::starts_with(t.as_slice(), assign.as_slice()) {
                let tl: usize = t.len();
                let al: usize = assign.len();
                let digits = &t.as_slice()[al..tl];
                proof {
                    assert(digits@ =~= trimmed(lsv[i as int]).skip("NVPMODEL="@.len() as int));
                }
                match crate::text::parse_u64(digits) {
                    Some(v) => {
                        if v <= u8::MAX as u64 {
                            cur_id = Some(v as u8);
                        }
                    }
                    None => {}
                }
            }
        } else if crate::text::starts_with(t.as_slice(), comment.as_slice()) {
            // a flush point: with the name never filled by this format
            // scan, there is never a pending profile to emit
        }
        i += 1;
    }
    proof {
        assert(lsv.skip(n as int) =~= Seq::<Seq<char>>::empty());
        assert(nvp_scan(lsv, None, Seq::empty()) =~= out@.map_values(|m: NVPModel| (m.id, m.name@)));
    }
    out
}

/// Where the profile configuration lives.
pub open spec fn conf_path() -> Seq<char> {
    "/etc/nvpmodel.conf"@
}

/// Where the firmware exposes the current profile id.
pub open spec fn current_model_path() -> Seq<char> {
    "/sys/devices/soc0/firmware/devicetree/base/nvidia,pmodel"@
}

/// The current profile id the firmware announces, if parsable as one.
pub open spec fn current_model_of(fs: &FsView) -> Option<u8> {
    match fs.file_at(current_model_path()) {
        Some(c) => match crate::fsview::parse_u64_spec(c) {
            Some(v) => if v <= u8::MAX {
                Some(v as u8)
            } else {
                None
            },
            None => None,
        },
        None => None,
    }
}

impl NVPModelStats {
    /// One profile sample: available only where the configuration file
    /// announces profiles; the current id falls back to an out-of-range
    /// marker where the firmware does not expose one.
    pub fn get(fs: &FsView) -> (r: NVPModelStats)
        ensures
            fs.file_at(conf_path()) is None ==> r.current_model == 0 && r.models@.len() == 0
                && !r.available,
            fs.file_at(conf_path()) matches Some(c) ==> {
                &&& r.models@.len() == models_of(c).len()
                &&& r.available == (models_of(c).len() > 0)
                &&& r.current_model == match current_model_of(fs) {
                    Some(v) => v as int,
                    None => 255int,
                }
            },
    {
        let path = chars_of("/etc/nvpmodel.conf");
        let content = match fs.read(path.as_slice()) {
            Some(c) => c,
            None => {
                return NVPModelStats::default();
            }
        };
        let models = parse_nvpmodel_conf(content.as_str());
        let available = models.len() > 0;
        let cur_path = chars_of("/sys/devices/soc0/firmware/devicetree/base/nvidia,pmodel");
        let current_model: u8 = match fs.read_u64(cur_path.as_slice()) {
            Some(v) => if v <= u8::MAX as u64 {
                v as u8
            } else {
                255
            },
            None => 255,
        };
        NVPModelStats { current_model, models, available }
    }

    /// The profiles alone, none without the configuration file.
    pub fn get_models(fs: &FsView) -> (r: Vec<NVPModel>)
        ensures
            fs.file_at(conf_path()) is None ==> r@.len() == 0,
            fs.file_at(conf_path()) matches Some(c) ==> r@.len() == models_of(c).len()
                && forall|i: int|
                0 <= i < r@.len() ==> (#[trigger] r@[i]).id == models_of(c)[i].0 && r@[i].name@
                    == models_of(c)[i].1,
    {
        let path = chars_of("/etc/nvpmodel.conf");
        match fs.read(path.as_slice()) {
            Some(c) => parse_nvpmodel_conf(c.as_str()),
            None => Vec::new(),
        }
    }

    /// Validate a profile id for the control surface: ids above 15 are
    /// rejected before any helper invocation. A valid id is returned for
    /// the shell to pass to the privileged helper.
    pub fn validate_model_id(model_id: u8) -> (r: Result<u8, Error>)
        ensures
            model_id > 15 <==> (r matches Err(e) && e is InvalidInput),
            model_id <= 15 <==> r == Ok::<u8, Error>(model_id),
    {
        if model_id > 15 {
            Err(Error::InvalidInput("Model ID must be 0-15".to_owned()))
        } else {
            Ok(model_id)
        }
    }
}

} // verus!
