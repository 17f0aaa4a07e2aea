//! Status/introspection service of the control plane.

use vstd::prelude::*;

use crate::exec::AuraeMeta;

verus! {

pub const STATUS_UNKNOWN: &'static str = "Unknown";

pub const STATUS_READY: &'static str = "Ready";

pub const STATUS_ERROR: &'static str = "Error";

/// The answer to a status request: metadata entries and a state marker.
#[derive(Debug, Clone, PartialEq, Eq)]
pub struct StatusResponse {
    pub meta: Vec<AuraeMeta>,
    pub state: String,
}

/// The server-side handler of the status operation.
#[derive(Debug, Default, Clone, PartialEq, Eq, Structural)]
pub struct ObserveService {}

impl ObserveService {
    /// Answers a status request: one unknown metadata entry and the unknown
    /// state marker — this core tracks no persistent state to report.
    pub fn status(&self) -> (r: StatusResponse)
        ensures
            r.state@ == STATUS_UNKNOWN@,
            r.meta@.len() == 1,
            r.meta@[0].name@ == "unknown"@,
            r.meta@[0].message@ == "unknown"@,
    {
        let mut meta: Vec<AuraeMeta> = Vec::new();
        meta.push(
            AuraeMeta { name: String::from_str("unknown"), message: String::from_str("unknown") },
        );
        StatusResponse { meta, state: String::from_str(STATUS_UNKNOWN) }
    }
}

} // verus!
