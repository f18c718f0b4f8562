//! Socket addresses as plain values, and the choice among resolved candidates.

use vstd::prelude::*;

verus! {

/// An IPv4 socket address. The IP is held as the integer whose big-endian
/// bytes are the address's four octets.
#[derive(Clone, Copy, Debug, PartialEq, Eq, Structural)]
pub struct AddressV4 {
    pub ip: u32,
    pub port: u16,
}

/// An IPv6 socket address. The IP is held as the integer whose big-endian
/// bytes are the address's sixteen octets.
#[derive(Clone, Copy, Debug, PartialEq, Eq, Structural)]
pub struct AddressV6 {
    pub ip: u128,
    pub port: u16,
    pub flowinfo: u32,
    pub scope_id: u32,
}

/// An IP socket address.
#[derive(Clone, Copy, Debug, PartialEq, Eq, Structural)]
pub enum Address {
    V4(AddressV4),
    V6(AddressV6),
}

/// Why a submission was turned down before it reached the reactor.
#[derive(Clone, Copy, Debug, PartialEq, Eq, Structural)]
pub enum Error {
    /// The text is not an absolute URL.
    UrlParse,
    /// Name resolution gave no address for the host.
    Resolution,
}

impl Address {
    /// The same host with another port; a V6 address keeps its flow
    /// information and scope.
    pub open spec fn spec_with_port(self, port: u16) -> Address {
        match self {
            Address::V4(a) => Address::V4(AddressV4 { ip: a.ip, port }),
            Address::V6(a) => Address::V6(
                AddressV6 { ip: a.ip, port, flowinfo: a.flowinfo, scope_id: a.scope_id },
            ),
        }
    }

    /// The port of the address.
    pub open spec fn spec_port(self) -> u16 {
        match self {
            Address::V4(a) => a.port,
            Address::V6(a) => a.port,
        }
    }

    #[verifier::when_used_as_spec(spec_with_port)]
    pub fn with_port(self, port: u16) -> (r: Address)
        ensures
            r == self.spec_with_port(port),
    {
        match self {
            Address::V4(a) => Address::V4(AddressV4 { ip: a.ip, port }),
            Address::V6(a) => Address::V6(
                AddressV6 { ip: a.ip, port, flowinfo: a.flowinfo, scope_id: a.scope_id },
            ),
        }
    }

    #[verifier::when_used_as_spec(spec_port)]
    pub fn port(self) -> (r: u16)
        ensures
            r == self.spec_port(),
    {
        match self {
            Address::V4(a) => a.port,
            Address::V6(a) => a.port,
        }
    }
}

/// The address a request is sent to, given what name resolution returned for
/// its host: the first candidate, with the request's port in place of the
/// candidate's own.
pub open spec fn chosen_address(candidates: Seq<Address>, port: u16) -> Result<Address, Error> {
    if candidates.len() == 0 {
        Err(Error::Resolution)
    } else {
        Ok(candidates[0].spec_with_port(port))
    }
}

/// Picks the address to connect to among the resolved candidates.
pub fn choose_address(candidates: &Vec<Address>, port: u16) -> (r: Result<Address, Error>)
    ensures
        r == chosen_address(candidates@, port),
{
    if candidates.len() == 0 {
        Err(Error::Resolution)
    } else {
        Ok(candidates[0].with_port(port))
    }
}

} // verus!
