use vstd::prelude::*;

verus! {

/// An IP address, held as the integer value of its octets in network order.
#[derive(Debug, Clone, Copy, PartialEq, Eq, Structural)]
pub enum IpAddr {
    V4(u32),
    V6(u128),
}

/// The position of an address in the registry's order: every IPv4 address
/// comes before every IPv6 address, and within a family addresses are
/// ordered by their numeric value.
pub open spec fn addr_rank(a: IpAddr) -> int {
    match a {
        IpAddr::V4(x) => x as int,
        IpAddr::V6(x) => 0x1_0000_0000int + x as int,
    }
}

pub open spec fn is_v4(a: IpAddr) -> bool {
    a is V4
}

impl IpAddr {
    /// The IPv4 address `a.b.c.d`.
    pub fn v4(a: u8, b: u8, c: u8, d: u8) -> (r: IpAddr)
        ensures
            r == IpAddr::V4((a as int * 0x100_0000 + b as int * 0x1_0000 + c as int * 0x100
                + d as int) as u32),
    {
        IpAddr::V4((a as u32) * 0x100_0000 + (b as u32) * 0x1_0000 + (c as u32) * 0x100 + d as u32)
    }

    pub fn is_ipv4(&self) -> (r: bool)
        ensures
            r == is_v4(*self),
    {
        match self {
            IpAddr::V4(_) => true,
            IpAddr::V6(_) => false,
        }
    }

    /// Whether `self` comes strictly before `other` in the registry's order.
    pub fn precedes(&self, other: &IpAddr) -> (r: bool)
        ensures
            r == (addr_rank(*self) < addr_rank(*other)),
    {
        match (self, other) {
            (IpAddr::V4(x), IpAddr::V4(y)) => *x < *y,
            (IpAddr::V4(_), IpAddr::V6(_)) => true,
            (IpAddr::V6(_), IpAddr::V4(_)) => false,
            (IpAddr::V6(x), IpAddr::V6(y)) => *x < *y,
        }
    }
}

/// Distinct addresses have distinct ranks.
pub proof fn lemma_rank_injective(a: IpAddr, b: IpAddr)
    ensures
        addr_rank(a) == addr_rank(b) <==> a == b,
{
}

} // verus!
