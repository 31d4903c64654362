use vstd::prelude::*;

verus! {

/// An IP address as the probing engine reports it: IPv4 as its four octets,
/// IPv6 as its 128-bit value.
#[derive(Clone, Copy, Debug, PartialEq, Eq, Structural)]
pub enum IpAddress {
    V4(u8, u8, u8, u8),
    V6(u128),
}

/// The IPv4 ranges that are private or reserved, so not routable on the
/// public internet: 0.0.0.0/8, 10.0.0.0/8, 100.64.0.0/10, 127.0.0.0/8,
/// 169.254.0.0/16, 172.16.0.0/12, 192.0.0.0/24, 192.0.2.0/24,
/// 192.168.0.0/16, 198.18.0.0/15, 198.51.100.0/24, 203.0.113.0/24, and
/// everything from 224.0.0.0 up (multicast, reserved and broadcast).
pub open spec fn is_private_v4(a: u8, b: u8, c: u8) -> bool {
    ||| a == 0
    ||| a == 10
    ||| (a == 100 && 64 <= b && b <= 127)
    ||| a == 127
    ||| (a == 169 && b == 254)
    ||| (a == 172 && 16 <= b && b <= 31)
    ||| (a == 192 && b == 0 && c == 0)
    ||| (a == 192 && b == 0 && c == 2)
    ||| (a == 192 && b == 168)
    ||| (a == 198 && (b == 18 || b == 19))
    ||| (a == 198 && b == 51 && c == 100)
    ||| (a == 203 && b == 0 && c == 113)
    ||| a >= 224
}

/// An address is publicly routable when it is IPv4 and outside every private
/// or reserved range. IPv6 addresses are never classified as public.
pub open spec fn is_public_v4(addr: IpAddress) -> bool {
    match addr {
        IpAddress::V4(a, b, c, _) => !is_private_v4(a, b, c),
        IpAddress::V6(_) => false,
    }
}

/// Tests an IPv4 address against the private and reserved ranges.
pub fn ipv4_is_private(a: u8, b: u8, c: u8, d: u8) -> (r: bool)
    ensures
        r == is_private_v4(a, b, c),
{
    a == 0 || a == 10 || (a == 100 && 64 <= b && b <= 127) || a == 127 || (a == 169 && b == 254)
        || (a == 172 && 16 <= b && b <= 31) || (a == 192 && b == 0 && c == 0) || (a == 192 && b
        == 0 && c == 2) || (a == 192 && b == 168) || (a == 198 && (b == 18 || b == 19)) || (a
        == 198 && b == 51 && c == 100) || (a == 203 && b == 0 && c == 113) || a >= 224
}

/// Returns the address back when it is a publicly routable IPv4 address:
/// outside every private or reserved range. IPv6 gives `None`.
pub fn is_public_ipv4_address(addr: IpAddress) -> (r: Option<IpAddress>)
    ensures
        r == (if is_public_v4(addr) { Some(addr) } else { None::<IpAddress> }),
{
    match addr {
        IpAddress::V4(a, b, c, d) => {
            if ipv4_is_private(a, b, c, d) {
                None
            } else {
                Some(addr)
            }
        },
        IpAddress::V6(_) => None,
    }
}

/// The address that the hop search traces toward (1.1.1.1). It anchors the
/// path walk and need not be reachable.
pub fn reference_address() -> (r: IpAddress)
    ensures
        r == IpAddress::V4(1, 1, 1, 1),
{
    IpAddress::V4(1, 1, 1, 1)
}

/// Why a resolved host cannot be used as a trace target.
#[derive(Clone, Copy, Debug, PartialEq, Eq, Structural)]
pub enum LookupError {
    /// The name resolved to no address.
    InvalidTarget,
    /// The first address is IPv6, which cannot be classified as public.
    Ipv6(u128),
}

/// Takes the first resolved address of a host, which must be IPv4.
pub fn first_ipv4_target(addrs: &Vec<IpAddress>) -> (r: Result<IpAddress, LookupError>)
    ensures
        addrs@.len() == 0 ==> r == Err::<IpAddress, LookupError>(LookupError::InvalidTarget),
        addrs@.len() > 0 ==> r == match addrs@[0] {
            IpAddress::V4(..) => Ok::<IpAddress, LookupError>(addrs@[0]),
            IpAddress::V6(v) => Err(LookupError::Ipv6(v)),
        },
{
    if addrs.len() == 0 {
        return Err(LookupError::InvalidTarget);
    }
    let first = addrs[0];
    match first {
        IpAddress::V4(..) => Ok(first),
        IpAddress::V6(v) => Err(LookupError::Ipv6(v)),
    }
}

} // verus!
