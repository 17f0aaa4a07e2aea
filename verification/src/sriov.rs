//! Virtual-function provisioning: reads a device's virtualization
//! capability and provisions up to the requested number of virtual
//! sub-interfaces, capped by what the hardware offers.
//!
//! The driver performs the two file operations; the library decides
//! whether a read is needed at all, where to read and write, and what
//! count to write.

use vstd::prelude::*;

use crate::text::dec_text;
use crate::text::dec_val;
use crate::text::is_u16_dec_text;
use crate::text::parse_u16_dec;
use crate::text::trimmed_end;
use crate::text::u16_to_string;

verus! {

/// The capability file of an interface, holding the total number of
/// virtual functions its device supports.
pub open spec fn sriov_totalvfs_path(iface: Seq<char>) -> Seq<char> {
    "/sys/class/net/"@ + iface + "/device/sriov_totalvfs"@
}

/// The control file of an interface through which virtual functions are
/// provisioned.
pub open spec fn sriov_numvfs_path(iface: Seq<char>) -> Seq<char> {
    "/sys/class/net/"@ + iface + "/device/sriov_numvfs"@
}

/// The first move of provisioning: nothing at all, or a capability read.
#[derive(Debug, Clone, PartialEq, Eq)]
pub enum SriovStep {
    /// A requested count of zero is a no-op returning success immediately:
    /// no capability file is read.
    Done,
    /// The capability file at this path must be read.
    ReadCapability(String),
}

/// Why provisioning failed.
#[derive(Debug, Clone, Copy, PartialEq, Eq, Structural)]
pub enum SriovError {
    /// The capability file could not be read.
    CapabilityRead,
    /// The capability file's content is not an unsigned integer.
    CapabilityParse,
}

/// The write that provisions the virtual functions: the control path and
/// the count, as text.
#[derive(Debug, Clone, PartialEq, Eq)]
pub struct SriovWrite {
    pub path: String,
    pub count: u16,
    pub count_text: String,
}

/// The number of virtual functions provisioned for a request against a
/// capability: the smaller of the two.
pub open spec fn provisioned_count(limit: u16, capability: u16) -> u16 {
    if limit <= capability {
        limit
    } else {
        capability
    }
}

/// Begins provisioning of virtual functions on an interface. A requested
/// count of zero asks for nothing — in particular, no capability file is
/// read; any other count asks for a read of the device's capability file.
pub fn setup_sriov_start(iface: &str, limit: u16) -> (step: SriovStep)
    ensures
        limit == 0 ==> step == SriovStep::Done,
        limit > 0 ==> (step matches SriovStep::ReadCapability(p) && p@ == sriov_totalvfs_path(
            iface@,
        )),
{
    if limit == 0 {
        return SriovStep::Done;
    }
    let mut path = String::from_str("/sys/class/net/");
    path.append(iface);
    path.append("/device/sriov_totalvfs");
    SriovStep::ReadCapability(path)
}

/// Finishes provisioning from what the capability read yielded. The write
/// provisions the smaller of the requested count and the parsed capability;
/// a failed read or unparseable content is reported, never silently
/// clamped.
pub fn setup_sriov_finish(iface: &str, limit: u16, capability: Option<&str>) -> (r: Result<
    SriovWrite,
    SriovError,
>)
    requires
        limit > 0,
    ensures
        match capability {
            None => r == Err::<SriovWrite, SriovError>(SriovError::CapabilityRead),
            Some(text) => {
                if is_u16_dec_text(text@) {
                    r matches Ok(w) && w.count == provisioned_count(
                        limit,
                        dec_val(trimmed_end(text@)) as u16,
                    ) && w.path@ == sriov_numvfs_path(iface@) && w.count_text@ == dec_text(
                        w.count as nat,
                    )
                } else {
                    r == Err::<SriovWrite, SriovError>(SriovError::CapabilityParse)
                }
            },
        },
{
    let text = match capability {
        None => {
            return Err(SriovError::CapabilityRead);
        },
        Some(text) => text,
    };
    let total = match parse_u16_dec(text) {
        None => {
            return Err(SriovError::CapabilityParse);
        },
        Some(total) => total,
    };
    let count = if limit <= total {
        limit
    } else {
        total
    };
    let mut path = String::from_str("/sys/class/net/");
    path.append(iface);
    path.append("/device/sriov_numvfs");
    Ok(SriovWrite { path, count, count_text: u16_to_string(count) })
}

} // verus!
