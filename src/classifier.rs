//! The egress traffic filter's decision on one outgoing frame, and the
//! layout of the subnet map it reads. The filter only observes: it never
//! changes, drops or delays a frame.
use vstd::prelude::*;

use crate::config::{
    in_used_slot, is_target_subnet, parse_cidr, parse_cidr_text, texts, CidrError, EMPTY_SENTINEL,
    MAX_SUBNETS,
};
use crate::types::TrafficEvent;

verus! {

/// Bytes of an Ethernet header.
pub const ETH_HDR_LEN: usize = 14;

/// Bytes of an IPv4 header without options.
pub const IPV4_HDR_LEN: usize = 20;

/// Bytes of a TCP header without options.
pub const TCP_HDR_LEN: usize = 20;

/// Bytes of a UDP header.
pub const UDP_HDR_LEN: usize = 8;

/// The EtherType of IPv4.
pub const ETHERTYPE_IPV4: u16 = 0x0800;

/// The IP protocol number of TCP.
pub const IPPROTO_TCP: u8 = 6;

/// The IP protocol number of UDP.
pub const IPPROTO_UDP: u8 = 17;

/// The big-endian value of two bytes from `off`.
pub open spec fn be16_at(b: Seq<u8>, off: int) -> u16 {
    (b[off] as int * 0x100 + b[off + 1] as int) as u16
}

/// The big-endian value of four bytes from `off`.
pub open spec fn be32_at(b: Seq<u8>, off: int) -> u32 {
    (b[off] as int * 0x100_0000 + b[off + 1] as int * 0x1_0000 + b[off + 2] as int * 0x100
        + b[off + 3] as int) as u32
}

/// The destination port of a frame whose IPv4 header has been read: for
/// TCP and UDP read from the transport header, which must be whole; 0 for
/// other protocols.
pub open spec fn frame_port(f: Seq<u8>, proto: u8) -> Option<u16> {
    let t = ETH_HDR_LEN + IPV4_HDR_LEN;
    if proto == IPPROTO_TCP {
        if f.len() >= t + TCP_HDR_LEN {
            Some(be16_at(f, t + 2))
        } else {
            None
        }
    } else if proto == IPPROTO_UDP {
        if f.len() >= t + UDP_HDR_LEN {
            Some(be16_at(f, t + 2))
        } else {
            None
        }
    } else {
        Some(0)
    }
}

/// The event that the filter records for a frame, if any: only a whole
/// IPv4 frame to a configured subnet is recorded.
pub open spec fn frame_event(f: Seq<u8>, slots: Seq<(u32, u32)>, timestamp: u64) -> Option<
    TrafficEvent,
> {
    if f.len() < ETH_HDR_LEN + IPV4_HDR_LEN || be16_at(f, 12) != ETHERTYPE_IPV4 {
        None
    } else {
        let dest = be32_at(f, ETH_HDR_LEN + 16);
        let proto = f[ETH_HDR_LEN + 9];
        if !in_used_slot(dest, slots) {
            None
        } else {
            match frame_port(f, proto) {
                Some(port) => Some(
                    TrafficEvent {
                        timestamp,
                        dest_ip: dest,
                        dest_port: port,
                        protocol: proto,
                        _padding: 0,
                    },
                ),
                None => None,
            }
        }
    }
}

/// Decides whether an outgoing frame is recorded, and the record.
pub fn classify_frame(frame: &[u8], slots: &[(u32, u32)], timestamp: u64) -> (r: Option<
    TrafficEvent,
>)
    ensures
        r == frame_event(frame@, slots@, timestamp),
{
    let f = frame;
    if f.len() < ETH_HDR_LEN + IPV4_HDR_LEN {
        return None;
    }
    let ether_type: u16 = (f[12] as u16) * 0x100 + f[13] as u16;
    if ether_type != ETHERTYPE_IPV4 {
        return None;
    }
    let dest: u32 = (f[30] as u32) * 0x100_0000 + (f[31] as u32) * 0x1_0000 + (f[32] as u32)
        * 0x100 + f[33] as u32;
    let proto = f[ETH_HDR_LEN + 9];
    if !is_target_subnet(dest, slots) {
        return None;
    }
    let t = ETH_HDR_LEN + IPV4_HDR_LEN;
    let port: u16 = if proto == IPPROTO_TCP || proto == IPPROTO_UDP {
        let need = if proto == IPPROTO_TCP {
            TCP_HDR_LEN
        } else {
            UDP_HDR_LEN
        };
        if f.len() < t + need {
            return None;
        }
        (f[t + 2] as u16) * 0x100 + f[t + 3] as u16
    } else {
        0
    };
    Some(TrafficEvent { timestamp, dest_ip: dest, dest_port: port, protocol: proto, _padding: 0 })
}

/// The sixteen slots of the kernel subnet map for the configured CIDRs:
/// the first sixteen subnets in order, then the sentinel in every slot
/// left. `Ok` exactly when those CIDRs parse; else the first error.
pub open spec fn slots_of(cidrs: Seq<Seq<char>>) -> Result<Seq<(u32, u32)>, CidrError> {
    let n = if cidrs.len() < MAX_SUBNETS {
        cidrs.len() as int
    } else {
        MAX_SUBNETS as int
    };
    if exists|i: int| 0 <= i < n && (#[trigger] parse_cidr_text(cidrs[i])) is Err {
        let i = choose|i: int|
            0 <= i < n && (#[trigger] parse_cidr_text(cidrs[i])) is Err && forall|j: int|
                0 <= j < i ==> (#[trigger] parse_cidr_text(cidrs[j])) is Ok;
        Err(parse_cidr_text(cidrs[i])->Err_0)
    } else {
        Ok(
            Seq::new(
                MAX_SUBNETS as nat,
                |i: int|
                    if i < n {
                        parse_cidr_text(cidrs[i])->Ok_0
                    } else {
                        (EMPTY_SENTINEL, EMPTY_SENTINEL)
                    },
            ),
        )
    }
}

/// Fills the kernel subnet map's slots from the configured CIDRs.
pub fn subnet_map_slots(subnets: &[String]) -> (r: Result<Vec<(u32, u32)>, CidrError>)
    ensures
        match (r, slots_of(texts(subnets@))) {
            (Ok(v), Ok(s)) => v@ == s,
            (Err(e), Err(f)) => e == f,
            _ => false,
        },
{
    let ghost cidrs = texts(subnets@);
    let n: usize = if subnets.len() < MAX_SUBNETS {
        subnets.len()
    } else {
        MAX_SUBNETS
    };
    let mut slots: Vec<(u32, u32)> = Vec::new();
    let mut i: usize = 0;
    while i < n
        invariant
            i <= n,
            n <= subnets@.len(),
            n == if subnets@.len() < MAX_SUBNETS { subnets@.len() } else { MAX_SUBNETS as nat },
            cidrs == texts(subnets@),
            slots@.len() == i,
            forall|j: int| 0 <= j < i ==> (#[trigger] parse_cidr_text(cidrs[j])) is Ok,
            forall|j: int| 0 <= j < i ==> #[trigger] slots@[j] == parse_cidr_text(cidrs[j])->Ok_0,
        decreases n - i,
    {
        assert(cidrs[i as int] == subnets@[i as int]@);
        match parse_cidr(subnets[i].as_str()) {
            Ok(s) => {
                slots.push(s);
            },
            Err(e) => {
                proof {
                    let k = i as int;
                    assert(0 <= k < n && parse_cidr_text(cidrs[k]) is Err);
                    let c = choose|c: int|
                        0 <= c < n && (#[trigger] parse_cidr_text(cidrs[c])) is Err && forall|j: int|
                            0 <= j < c ==> (#[trigger] parse_cidr_text(cidrs[j])) is Ok;
                    assert(forall|j: int| 0 <= j < k ==> (#[trigger] parse_cidr_text(cidrs[j])) is Ok);
                    if c < k {
                        assert(parse_cidr_text(cidrs[c]) is Ok);
                    } else if c > k {
                        assert(parse_cidr_text(cidrs[k]) is Ok);
                    }
                }
                return Err(e);
            },
        }
        i = i + 1;
    }
    while i < MAX_SUBNETS
        invariant
            n <= i <= MAX_SUBNETS,
            n <= subnets@.len(),
            n == if subnets@.len() < MAX_SUBNETS { subnets@.len() } else { MAX_SUBNETS as nat },
            cidrs == texts(subnets@),
            slots@.len() == i,
            forall|j: int| 0 <= j < n ==> (#[trigger] parse_cidr_text(cidrs[j])) is Ok,
            forall|j: int| 0 <= j < n ==> #[trigger] slots@[j] == parse_cidr_text(cidrs[j])->Ok_0,
            forall|j: int| n <= j < i ==> #[trigger] slots@[j] == (EMPTY_SENTINEL, EMPTY_SENTINEL),
        decreases MAX_SUBNETS - i,
    {
        slots.push((EMPTY_SENTINEL, EMPTY_SENTINEL));
        i = i + 1;
    }
    proof {
        let s = slots_of(cidrs);
        assert(!exists|i: int| 0 <= i < n && (#[trigger] parse_cidr_text(cidrs[i])) is Err);
        assert(slots@ =~= s->Ok_0);
    }
    Ok(slots)
}

/// Every slot after the configured subnets holds the sentinel, so the
/// filter skips them; the map always has sixteen slots.
pub proof fn lemma_unused_slots_hold_sentinel(cidrs: Seq<Seq<char>>, i: int)
    requires
        slots_of(cidrs) is Ok,
        cidrs.len() <= i < MAX_SUBNETS,
    ensures
        slots_of(cidrs)->Ok_0.len() == MAX_SUBNETS,
        slots_of(cidrs)->Ok_0[i] == (EMPTY_SENTINEL, EMPTY_SENTINEL),
{
}

} // verus!
