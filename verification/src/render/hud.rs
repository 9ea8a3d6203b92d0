//! Information shown on the debug screen about the graphics adapter.

use vstd::prelude::*;

verus! {

/// Graphics adapter and device information.
#[derive(Debug, Clone)]
pub struct WebGPUInfo {
    pub adapter_name: String,
    pub backend: String,
    pub device_type: String,
    pub limits: String,
}

impl WebGPUInfo {
    /// The information shown before the adapter is known: every field reads
    /// "Unknown".
    pub fn unknown() -> (r: Self)
        ensures
            r.adapter_name@ == "Unknown"@,
            r.backend@ == "Unknown"@,
            r.device_type@ == "Unknown"@,
            r.limits@ == "Unknown"@,
    {
        WebGPUInfo {
            adapter_name: "Unknown".to_owned(),
            backend: "Unknown".to_owned(),
            device_type: "Unknown".to_owned(),
            limits: "Unknown".to_owned(),
        }
    }
}

} // verus!
