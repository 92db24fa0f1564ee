//! UDP endpoints as plain values, and the fixed multicast mesh address.

use vstd::prelude::*;

verus! {

/// A UDP socket address: four IPv4 octets and a port.
#[derive(PartialEq, Eq, Structural, Clone, Copy, Debug)]
pub struct Endpoint {
    pub ip0: u8,
    pub ip1: u8,
    pub ip2: u8,
    pub ip3: u8,
    pub port: u16,
}

impl Endpoint {
    /// True iff the address lies in the IPv4 multicast range 224.0.0.0/4.
    pub open spec fn spec_is_multicast(self) -> bool {
        224 <= self.ip0 <= 239
    }

    /// Executable multicast test, equal to the spec-level predicate.
    pub fn is_multicast(&self) -> (r: bool)
        ensures
            r == self.spec_is_multicast(),
    {
        224 <= self.ip0 && self.ip0 <= 239
    }
}

/// The fixed mesh group address 224.0.0.250:5350.
pub open spec fn spec_mesh_endpoint() -> Endpoint {
    Endpoint { ip0: 224, ip1: 0, ip2: 0, ip3: 250, port: 5350 }
}

/// Executable constructor for the mesh group address.
pub fn mesh_endpoint() -> (e: Endpoint)
    ensures
        e == spec_mesh_endpoint(),
        e.spec_is_multicast(),
{
    Endpoint { ip0: 224, ip1: 0, ip2: 0, ip3: 250, port: 5350 }
}

} // verus!
