//! Routes as they are seen and requested at the kernel boundary.

use vstd::prelude::*;

verus! {

/// The two network-layer address families, handled independently.
#[derive(Clone, Copy, Debug, PartialEq, Eq, Structural)]
pub enum Family {
    V4,
    V6,
}

/// An IPv4 address block: a 32-bit address in host order and a prefix length.
#[derive(Clone, Copy, Debug, PartialEq, Eq, Structural)]
pub struct Ipv4Cidr {
    pub addr: u32,
    pub prefix_len: u8,
}

/// An IPv6 address block: a 128-bit address in host order and a prefix length.
#[derive(Clone, Copy, Debug, PartialEq, Eq, Structural)]
pub struct Ipv6Cidr {
    pub addr: u128,
    pub prefix_len: u8,
}

/// One route of a kernel table: destination block, table and output interface.
///
/// An IPv4 destination occupies the low 32 bits of `addr`.
#[derive(Clone, Copy, Debug, PartialEq, Eq, Structural)]
pub struct RouteSpec {
    pub family: Family,
    pub addr: u128,
    pub prefix_len: u8,
    pub table: u8,
    pub oif: u32,
}

impl Family {
    /// The longest prefix an address of this family can have.
    pub open spec fn max_prefix_len(self) -> nat {
        match self {
            Family::V4 => 32,
            Family::V6 => 128,
        }
    }
}

impl Ipv4Cidr {
    pub open spec fn wf(self) -> bool {
        self.prefix_len <= 32
    }

    /// The route that sends this block out of interface `oif` in table `table`.
    pub open spec fn route(self, table: u8, oif: u32) -> RouteSpec {
        RouteSpec {
            family: Family::V4,
            addr: self.addr as u128,
            prefix_len: self.prefix_len,
            table,
            oif,
        }
    }

    pub fn to_route(&self, table: u8, oif: u32) -> (r: RouteSpec)
        ensures
            r == self.route(table, oif),
    {
        RouteSpec {
            family: Family::V4,
            addr: self.addr as u128,
            prefix_len: self.prefix_len,
            table,
            oif,
        }
    }
}

impl Ipv6Cidr {
    pub open spec fn wf(self) -> bool {
        self.prefix_len <= 128
    }

    /// The route that sends this block out of interface `oif` in table `table`.
    pub open spec fn route(self, table: u8, oif: u32) -> RouteSpec {
        RouteSpec { family: Family::V6, addr: self.addr, prefix_len: self.prefix_len, table, oif }
    }

    pub fn to_route(&self, table: u8, oif: u32) -> (r: RouteSpec)
        ensures
            r == self.route(table, oif),
    {
        RouteSpec { family: Family::V6, addr: self.addr, prefix_len: self.prefix_len, table, oif }
    }
}

impl RouteSpec {
    /// The destination fits the family: an IPv4 address has 32 bits, and the
    /// prefix is no longer than the address.
    pub open spec fn wf(self) -> bool {
        &&& self.prefix_len <= self.family.max_prefix_len()
        &&& self.family == Family::V4 ==> self.addr <= u32::MAX
    }

    /// Whether this route lives in table `table` of family `family`.
    pub open spec fn managed_by(self, family: Family, table: u8) -> bool {
        self.family == family && self.table == table
    }
}

} // verus!
