//! Clock-boost state, as the firmware device tree exposes it.
//!
//! Toggling the boost is a privileged helper invocation and lives in the
//! unverified shell; the library only reads and classifies the state.

use vstd::prelude::*;

use crate::fsview::FsView;
use crate::text::{chars_of, contains, contains_seq, trim_str, trimmed};

verus! {

/// The boost state: the raw mode string and whether it means enabled.
#[derive(Debug, Clone)]
pub struct JetsonClocksStats {
    pub enabled: bool,
    pub mode: String,
}

impl Default for JetsonClocksStats {
    /// No boost exposure point: disabled, empty mode.
    fn default() -> (r: JetsonClocksStats)
        ensures
            !r.enabled,
            r.mode@ == Seq::<char>::empty(),
    {
        JetsonClocksStats { enabled: false, mode: String::new() }
    }
}

/// Where the firmware exposes the boost flag.
pub open spec fn boost_path() -> Seq<char> {
    "/sys/devices/soc0/firmware/devicetree/base/nvidia,boost"@
}

impl JetsonClocksStats {
    /// One boost sample: the trimmed mode string, enabled unless it
    /// carries a zero; absent exposure reads as disabled.
    pub fn get(fs: &FsView) -> (r: JetsonClocksStats)
        ensures
            match fs.file_at(boost_path()) {
                Some(c) => r.mode@ == trimmed(c) && r.enabled == !contains_seq(trimmed(c), "0"@),
                None => !r.enabled && r.mode@ == Seq::<char>::empty(),
            },
    {
        let path = chars_of("/sys/devices/soc0/firmware/devicetree/base/nvidia,boost");
        match fs.read(path.as_slice()) {
            Some(c) => {
                let mode = trim_str(c.as_str());
                let mode_chars = chars_of(mode.as_str());
                let zero = chars_of("0");
                let has_zero = contains(mode_chars.as_slice(), zero.as_slice());
                JetsonClocksStats { enabled: !has_zero, mode }
            }
            None => JetsonClocksStats::default(),
        }
    }
}

} // verus!
