//! The choice of the local address that trace spans report.
use vstd::prelude::*;

verus! {

/// An IP address: IPv4 as its 32-bit value, IPv6 as its eight 16-bit segments.
#[derive(Debug, Clone, Copy, PartialEq, Eq)]
pub enum IpAddr {
    V4(u32),
    V6([u16; 8]),
}

impl IpAddr {
    /// A loopback address: `127.0.0.0/8`, or `::1`.
    pub open spec fn spec_is_loopback(self) -> bool {
        match self {
            IpAddr::V4(a) => a / 0x100_0000 == 127,
            IpAddr::V6(s) => s@ == seq![0u16, 0, 0, 0, 0, 0, 0, 1],
        }
    }

    /// A site-local address: private IPv4 (`10.0.0.0/8`, `172.16.0.0/12`,
    /// `192.168.0.0/16`), or IPv6 in `fec0::/10`.
    pub open spec fn spec_is_site_local(self) -> bool {
        match self {
            IpAddr::V4(a) => a / 0x100_0000 == 10 || a / 0x10_0000 == 0xac1 || a / 0x1_0000 == 0xc0a8,
            IpAddr::V6(s) => s[0] / 64 == 1019,
        }
    }

    /// Whether the address is a loopback address.
    pub fn is_loopback(&self) -> (r: bool)
        ensures
            r == self.spec_is_loopback(),
    {
        match self {
            IpAddr::V4(a) => *a / 0x100_0000 == 127,
            IpAddr::V6(s) => {
                let r = s[0] == 0 && s[1] == 0 && s[2] == 0 && s[3] == 0 && s[4] == 0 && s[5] == 0
                    && s[6] == 0 && s[7] == 1;
                proof {
                    if r {
                        assert(s@ =~= seq![0u16, 0, 0, 0, 0, 0, 0, 1]);
                    } else if s@ == seq![0u16, 0, 0, 0, 0, 0, 0, 1] {
                        assert(s@[7] == 1);
                    }
                }
                r
            },
        }
    }

    /// Whether the address is site-local.
    pub fn is_site_local(&self) -> (r: bool)
        ensures
            r == self.spec_is_site_local(),
    {
        match self {
            IpAddr::V4(a) => *a / 0x100_0000 == 10 || *a / 0x10_0000 == 0xac1 || *a / 0x1_0000 == 0xc0a8,
            IpAddr::V6(s) => {
                let x: u16 = s[0];
                let r = (x & 0xffc0) == 0xfec0;
                assert(((x & 0xffc0) == 0xfec0) == (x / 64 == 1019)) by (bit_vector);
                r
            },
        }
    }
}

/// An address usable for the local endpoint: present and not loopback.
pub open spec fn usable(a: Option<IpAddr>) -> bool {
    a matches Some(ip) && !ip.spec_is_loopback()
}

/// Picks the address of the local endpoint from the interfaces' addresses, in listing order:
/// the first usable site-local address, else the first usable address, else none.
pub fn get_ip(addrs: &Vec<Option<IpAddr>>) -> (r: Option<IpAddr>)
    ensures
        r is Some && r.unwrap().spec_is_site_local() ==> exists|i: int|
            0 <= i < addrs.len() && #[trigger] addrs@[i] == r && forall|j: int|
                0 <= j < i ==> !(usable(#[trigger] addrs@[j]) && addrs@[j].unwrap().spec_is_site_local()),
        r is Some && !r.unwrap().spec_is_site_local() ==> {
            &&& forall|j: int| 0 <= j < addrs.len() ==> !(usable(#[trigger] addrs@[j]) && addrs@[j].unwrap().spec_is_site_local())
            &&& exists|i: int| 0 <= i < addrs.len() && #[trigger] addrs@[i] == r
                && forall|j: int| 0 <= j < i ==> !usable(#[trigger] addrs@[j])
        },
        r is Some ==> !r.unwrap().spec_is_loopback(),
        r is None ==> forall|j: int| 0 <= j < addrs.len() ==> !usable(#[trigger] addrs@[j]),
{
    let mut fallback: Option<IpAddr> = None;
    let ghost mut fallback_at: int = 0;
    let mut i: usize = 0;
    while i < addrs.len()
        invariant
            i <= addrs.len(),
            forall|j: int| 0 <= j < i ==> !(usable(#[trigger] addrs@[j]) && addrs@[j].unwrap().spec_is_site_local()),
            fallback is None ==> forall|j: int| 0 <= j < i ==> !usable(#[trigger] addrs@[j]),
            fallback matches Some(ip) ==> 0 <= fallback_at < i && addrs@[fallback_at] == Some(ip) && !ip.spec_is_loopback()
                && !ip.spec_is_site_local() && forall|j: int| 0 <= j < fallback_at ==> !usable(#[trigger] addrs@[j]),
        decreases addrs.len() - i,
    {
        match addrs[i] {
            Some(addr) => {
                if !addr.is_loopback() {
                    if addr.is_site_local() {
                        return Some(addr);
                    }
                    if fallback.is_none() {
                        fallback = Some(addr);
                        proof {
                            fallback_at = i as int;
                        }
                    }
                }
            },
            None => {},
        }
        i = i + 1;
    }
    fallback
}

} // verus!
