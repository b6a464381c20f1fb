//! IP addresses as plain values, and the classes that they fall into.
use vstd::arithmetic::power2::pow2;
use vstd::prelude::*;

verus! {

/// An IPv4 address by its four octets, most significant first.
#[derive(Clone, Copy, Debug, PartialEq, Eq, Structural)]
pub struct Ipv4Addr {
    pub a: u8,
    pub b: u8,
    pub c: u8,
    pub d: u8,
}

/// An IPv6 address by its eight 16-bit segments, most significant first.
#[derive(Clone, Copy, Debug, PartialEq, Eq, Structural)]
pub struct Ipv6Addr {
    pub s0: u16,
    pub s1: u16,
    pub s2: u16,
    pub s3: u16,
    pub s4: u16,
    pub s5: u16,
    pub s6: u16,
    pub s7: u16,
}

/// An IP address of either family.
#[derive(Clone, Copy, Debug, PartialEq, Eq, Structural)]
pub enum IpAddr {
    V4(Ipv4Addr),
    V6(Ipv6Addr),
}

impl Ipv4Addr {
    /// The address as one number of 32 bits.
    pub open spec fn value(self) -> int {
        self.a * 0x100_0000 + self.b * 0x1_0000 + self.c * 0x100 + self.d
    }

    /// Whether the address lies in the block of `base` with a prefix of `len` bits.
    pub open spec fn in_block(self, base: Ipv4Addr, len: nat) -> bool {
        self.value() / pow2((32 - len) as nat) as int == base.value() / pow2((32 - len) as nat) as int
    }

    /// The address with these octets.
    pub fn new(a: u8, b: u8, c: u8, d: u8) -> (r: Ipv4Addr)
        ensures
            r == (Ipv4Addr { a, b, c, d }),
    {
        Ipv4Addr { a, b, c, d }
    }

    /// The address as one number.
    pub fn to_bits(&self) -> (r: u32)
        ensures
            r == self.value(),
    {
        self.a as u32 * 0x100_0000 + self.b as u32 * 0x1_0000 + self.c as u32 * 0x100
            + self.d as u32
    }

    /// 127.0.0.0/8.
    pub fn is_loopback(&self) -> (r: bool)
        ensures
            r == (self.a == 127),
            r == (0x7f00_0000 <= self.value() <= 0x7fff_ffff),
    {
        self.a == 127
    }

    /// The private blocks 10.0.0.0/8, 172.16.0.0/12 and 192.168.0.0/16.
    pub fn is_private(&self) -> (r: bool)
        ensures
            r == (self.a == 10 || (self.a == 172 && 16 <= self.b <= 31) || (self.a == 192 && self.b
                == 168)),
            r == (0x0a00_0000 <= self.value() <= 0x0aff_ffff || 0xac10_0000 <= self.value()
                <= 0xac1f_ffff || 0xc0a8_0000 <= self.value() <= 0xc0a8_ffff),
    {
        self.a == 10 || (self.a == 172 && 16 <= self.b && self.b <= 31) || (self.a == 192
            && self.b == 168)
    }

    /// 169.254.0.0/16.
    pub fn is_link_local(&self) -> (r: bool)
        ensures
            r == (self.a == 169 && self.b == 254),
            r == (0xa9fe_0000 <= self.value() <= 0xa9fe_ffff),
    {
        self.a == 169 && self.b == 254
    }

    /// 224.0.0.0/4.
    pub fn is_multicast(&self) -> (r: bool)
        ensures
            r == (224 <= self.a <= 239),
            r == (0xe000_0000 <= self.value() <= 0xefff_ffff),
    {
        224 <= self.a && self.a <= 239
    }

    /// 255.255.255.255.
    pub fn is_broadcast(&self) -> (r: bool)
        ensures
            r == (*self == Ipv4Addr { a: 255, b: 255, c: 255, d: 255 }),
            r == (self.value() == 0xffff_ffff),
    {
        *self == Ipv4Addr { a: 255, b: 255, c: 255, d: 255 }
    }

    /// 0.0.0.0.
    pub fn is_unspecified(&self) -> (r: bool)
        ensures
            r == (*self == Ipv4Addr { a: 0, b: 0, c: 0, d: 0 }),
            r == (self.value() == 0),
    {
        *self == Ipv4Addr { a: 0, b: 0, c: 0, d: 0 }
    }
}

impl Ipv6Addr {
    /// The segments in order.
    pub open spec fn segments(self) -> Seq<u16> {
        seq![self.s0, self.s1, self.s2, self.s3, self.s4, self.s5, self.s6, self.s7]
    }

    /// The address as one number of 128 bits.
    pub open spec fn value(self) -> int {
        self.s0 * 0x1_0000_0000_0000_0000_0000_0000_0000 + self.s1
            * 0x1_0000_0000_0000_0000_0000_0000 + self.s2 * 0x1_0000_0000_0000_0000_0000 + self.s3
            * 0x1_0000_0000_0000_0000 + self.s4 * 0x1_0000_0000_0000 + self.s5 * 0x1_0000_0000
            + self.s6 * 0x1_0000 + self.s7
    }

    /// Whether the address lies in the block of `base` with a prefix of `len` bits.
    pub open spec fn in_block(self, base: Ipv6Addr, len: nat) -> bool {
        self.value() / pow2((128 - len) as nat) as int == base.value() / pow2(
            (128 - len) as nat,
        ) as int
    }

    /// Whether the address is `::ffff:a.b.c.d` for some IPv4 address.
    pub open spec fn is_v4_mapped(self) -> bool {
        &&& self.s0 == 0
        &&& self.s1 == 0
        &&& self.s2 == 0
        &&& self.s3 == 0
        &&& self.s4 == 0
        &&& self.s5 == 0xffff
    }

    /// The address `::ffff:a.b.c.d` for `v4`.
    pub open spec fn mapped(v4: Ipv4Addr) -> Ipv6Addr {
        Ipv6Addr {
            s0: 0,
            s1: 0,
            s2: 0,
            s3: 0,
            s4: 0,
            s5: 0xffff,
            s6: (v4.a * 256 + v4.b) as u16,
            s7: (v4.c * 256 + v4.d) as u16,
        }
    }

    /// The address with these segments.
    pub fn new(
        s0: u16,
        s1: u16,
        s2: u16,
        s3: u16,
        s4: u16,
        s5: u16,
        s6: u16,
        s7: u16,
    ) -> (r: Ipv6Addr)
        ensures
            r == (Ipv6Addr { s0, s1, s2, s3, s4, s5, s6, s7 }),
    {
        Ipv6Addr { s0, s1, s2, s3, s4, s5, s6, s7 }
    }

    /// The address as one number.
    pub fn to_bits(&self) -> (r: u128)
        ensures
            r == self.value(),
    {
        self.s0 as u128 * 0x1_0000_0000_0000_0000_0000_0000_0000 + self.s1 as u128
            * 0x1_0000_0000_0000_0000_0000_0000 + self.s2 as u128 * 0x1_0000_0000_0000_0000_0000
            + self.s3 as u128 * 0x1_0000_0000_0000_0000 + self.s4 as u128 * 0x1_0000_0000_0000
            + self.s5 as u128 * 0x1_0000_0000 + self.s6 as u128 * 0x1_0000 + self.s7 as u128
    }

    /// The segments in order.
    pub fn to_segments(&self) -> (r: Vec<u16>)
        ensures
            r@ == self.segments(),
    {
        vec![self.s0, self.s1, self.s2, self.s3, self.s4, self.s5, self.s6, self.s7]
    }

    /// The IPv4 address inside `::ffff:a.b.c.d`, for an address of that form.
    pub fn to_ipv4_mapped(&self) -> (r: Option<Ipv4Addr>)
        ensures
            match r {
                Some(v4) => *self == Self::mapped(v4),
                None => !self.is_v4_mapped(),
            },
    {
        if self.s0 == 0 && self.s1 == 0 && self.s2 == 0 && self.s3 == 0 && self.s4 == 0 && self.s5
            == 0xffff {
            Some(
                Ipv4Addr {
                    a: (self.s6 / 256) as u8,
                    b: (self.s6 % 256) as u8,
                    c: (self.s7 / 256) as u8,
                    d: (self.s7 % 256) as u8,
                },
            )
        } else {
            None
        }
    }

    /// `::`.
    pub fn is_unspecified(&self) -> (r: bool)
        ensures
            r == (self.value() == 0),
            r == (*self == Ipv6Addr { s0: 0, s1: 0, s2: 0, s3: 0, s4: 0, s5: 0, s6: 0, s7: 0 }),
    {
        self.to_bits() == 0
    }

    /// `::1`.
    pub fn is_loopback(&self) -> (r: bool)
        ensures
            r == (self.value() == 1),
            r == (*self == Ipv6Addr { s0: 0, s1: 0, s2: 0, s3: 0, s4: 0, s5: 0, s6: 0, s7: 1 }),
    {
        self.to_bits() == 1
    }

    /// ff00::/8.
    pub fn is_multicast(&self) -> (r: bool)
        ensures
            r == (0xff00 <= self.s0),
            r == (self.value() >= 0xff00_0000_0000_0000_0000_0000_0000_0000),
    {
        0xff00 <= self.s0
    }
}

} // verus!
