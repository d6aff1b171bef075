//! The one-shot export surface: where samples would be pushed.
//!
//! Serialization and the network push are formatting concerns outside
//! the core; the library only owns the configured endpoint.

use vstd::prelude::*;
use vstd::string::StringExecFns;

use crate::text::{chars_eq, chars_of, lower_all, lower_seq};

verus! {

/// Validate an export-type argument: only the one supported protocol
/// name is accepted, case-insensitively, and returned lower-cased; an
/// unsupported name is rejected with a message naming it.
pub fn parse_export_type(s: &str) -> (r: Result<String, String>)
    ensures
        lower_seq(s@) == "otlp"@ <==> r is Ok,
        r matches Ok(v) ==> v@ == lower_seq(s@),
        r matches Err(e) ==> e@ == "Invalid export type '"@ + s@
            + "'. Supported types: otlp"@,
{
    let cv = chars_of(s);
    let lower = lower_all(cv.as_slice());
    if chars_eq(lower.as_slice(), chars_of("otlp").as_slice()) {
        let r = "otlp".to_owned();
        proof {
            assert(r@ == lower_seq(s@));
        }
        Ok(r)
    } else {
        let mut msg: String = "Invalid export type '".to_owned();
        msg.append(s);
        msg.append("'. Supported types: otlp");
        Err(msg)
    }
}

/// A metrics exporter configured with its collector endpoint.
#[derive(Debug, Clone)]
pub struct TelemetryExporter {
    pub endpoint: String,
}

impl TelemetryExporter {
    /// An exporter for the given endpoint.
    pub fn new(endpoint: String) -> (r: TelemetryExporter)
        ensures
            r.endpoint@ == endpoint@,
    {
        TelemetryExporter { endpoint }
    }

    /// The configured endpoint.
    pub fn endpoint(&self) -> (r: &str)
        ensures
            r@ == self.endpoint@,
    {
        self.endpoint.as_str()
    }
}

} // verus!
