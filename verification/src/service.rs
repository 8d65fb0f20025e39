//! What the service tells its operator about itself.
use vstd::prelude::*;
use vstd::string::StringExecFns;

verus! {

/// The port that the service listens on.
pub const SERVICE_PORT: u16 = 7780;

/// The address under which the internet sees this machine, as the service
/// shows it: the address itself where one was found, and a word in its
/// place where none was.
pub fn public_network_addr_text(address: Option<String>) -> (text: String)
    ensures
        text@ == (match address {
            Some(found) => found@,
            None => "<unavailable>"@,
        }),
{
    match address {
        Some(found) => found,
        None => String::from_str("<unavailable>"),
    }
}

} // verus!
