//! Default values for the fields a configuration may leave out.

use vstd::prelude::*;
use vstd::string::StringExecFns;

verus! {

/// The default physical address: HDMI port 1.
pub fn default_physical_address() -> (r: u16)
    ensures
        r == 0x1000u16,
{
    0x1000
}

/// The default protocol version.
pub fn default_cec_version() -> (r: String)
    ensures
        r@ == "1.4"@,
{
    String::from_str("1.4")
}

/// The default logging level.
pub fn default_log_level() -> (r: String)
    ensures
        r@ == "info"@,
{
    String::from_str("info")
}

} // verus!
