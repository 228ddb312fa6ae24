//! CIDR parsing and matching, and validation of the loaded configuration.
use vstd::prelude::*;

use vstd::string::StringExecFns;

use crate::text::{
    all_digits, chars_of, contains_str, contains_text, dec_value, decimal_text, is_digit,
    parse_u8, parse_u8_text, push_decimal, split, split_chars,
};
use crate::types::Config;

verus! {

/// Why a CIDR text was refused.
#[derive(Debug, Clone, Copy, PartialEq, Eq, Structural)]
pub enum CidrError {
    /// Not of the form `address/prefix`.
    Format,
    /// The address is not four dotted decimal octets.
    Octet,
    /// The prefix length is not a number from 0 to 32.
    Prefix,
}

/// Why a configuration was refused.
#[derive(Debug, Clone, Copy, PartialEq, Eq, Structural)]
pub enum ConfigError {
    /// An SSID stands both in the target list and in the exclude list.
    SsidInBothLists,
    /// The tunnel interface name is empty.
    EmptyInterface,
    /// The idle timeout is zero.
    ZeroIdleTimeout,
    /// No subnet is configured.
    NoSubnets,
    /// More subnets than the kernel map holds.
    TooManySubnets,
    /// A subnet is not valid CIDR.
    InvalidCidr(CidrError),
}

/// Slots in the kernel subnet map.
pub const MAX_SUBNETS: usize = 16;

/// The value that marks an unused slot of the kernel subnet map, in both
/// the network and the mask.
pub const EMPTY_SENTINEL: u32 = 0xFFFF_FFFF;

/// One octet as the IPv4 address parser reads it: one to three digits,
/// no leading zero, at most 255.
pub open spec fn octet_text(t: Seq<char>) -> Option<u8> {
    if 1 <= t.len() <= 3 && all_digits(t) && (t.len() > 1 ==> t[0] != '0') && dec_value(t)
        <= 255 {
        Some(dec_value(t) as u8)
    } else {
        None
    }
}

/// Four octets, first one most significant.
pub open spec fn be_u32(a: u8, b: u8, c: u8, d: u8) -> u32 {
    (a as int * 0x100_0000 + b as int * 0x1_0000 + c as int * 0x100 + d as int) as u32
}

/// A dotted-quad IPv4 address, as a number whose most significant byte is
/// the first octet.
pub open spec fn ipv4_text(s: Seq<char>) -> Option<u32> {
    let p = split(s, '.');
    if p.len() == 4 && octet_text(p[0]) is Some && octet_text(p[1]) is Some && octet_text(
        p[2],
    ) is Some && octet_text(p[3]) is Some {
        Some(
            be_u32(
                octet_text(p[0])->0,
                octet_text(p[1])->0,
                octet_text(p[2])->0,
                octet_text(p[3])->0,
            ),
        )
    } else {
        None
    }
}

/// The netmask of a prefix length: the top `p` bits set.
pub open spec fn prefix_mask(p: u32) -> u32 {
    if p == 0 {
        0
    } else {
        0xFFFF_FFFFu32 << ((32 - p) as u32)
    }
}

/// The subnet of `addr` with prefix length `p`: host bits cleared.
pub open spec fn subnet_of(addr: u32, p: u32) -> (u32, u32) {
    (addr & prefix_mask(p), prefix_mask(p))
}

/// What `parse_cidr` returns for a text.
pub open spec fn parse_cidr_text(s: Seq<char>) -> Result<(u32, u32), CidrError> {
    let parts = split(s, '/');
    if parts.len() != 2 {
        Err(CidrError::Format)
    } else if ipv4_text(parts[0]) is None {
        Err(CidrError::Octet)
    } else if parse_u8_text(parts[1]) is None || parse_u8_text(parts[1])->0 > 32 {
        Err(CidrError::Prefix)
    } else {
        Ok(subnet_of(ipv4_text(parts[0])->0, parse_u8_text(parts[1])->0 as u32))
    }
}

/// `ip` lies in the subnet `(network, mask)`.
pub open spec fn in_subnet(ip: u32, s: (u32, u32)) -> bool {
    ip & s.1 == s.0
}

/// `ip` lies in one of the subnets.
pub open spec fn in_any_subnet(ip: u32, subnets: Seq<(u32, u32)>) -> bool {
    exists|i: int| 0 <= i < subnets.len() && in_subnet(ip, #[trigger] subnets[i])
}

/// A slot of the kernel map that holds no subnet.
pub open spec fn is_sentinel(s: (u32, u32)) -> bool {
    s.0 == EMPTY_SENTINEL && s.1 == EMPTY_SENTINEL
}

/// `ip` lies in the subnet of a used slot.
pub open spec fn in_used_slot(ip: u32, slots: Seq<(u32, u32)>) -> bool {
    exists|i: int| 0 <= i < slots.len() && !is_sentinel(#[trigger] slots[i]) && in_subnet(ip, slots[i])
}

/// What `ip_in_subnets` returns: the CIDRs are read in order until one
/// holds `ip` or one fails to parse.
pub open spec fn ip_in_cidrs(ip: u32, cidrs: Seq<Seq<char>>) -> Result<bool, CidrError>
    decreases cidrs.len(),
{
    if cidrs.len() == 0 {
        Ok(false)
    } else {
        match parse_cidr_text(cidrs[0]) {
            Err(e) => Err(e),
            Ok(s) => if in_subnet(ip, s) {
                Ok(true)
            } else {
                ip_in_cidrs(ip, cidrs.drop_first())
            },
        }
    }
}

/// The texts of a list of strings.
pub open spec fn texts(v: Seq<String>) -> Seq<Seq<char>> {
    Seq::new(v.len(), |i: int| v[i]@)
}

fn parse_octet(t: &Vec<char>) -> (r: Option<u8>)
    ensures
        r == octet_text(t@),
{
    let n = t.len();
    if n < 1 || n > 3 {
        return None;
    }
    if n > 1 && t[0] == '0' {
        return None;
    }
    let mut v: u32 = 0;
    let mut i: usize = 0;
    while i < n
        invariant
            n == t@.len(),
            1 <= n <= 3,
            i <= n,
            all_digits(t@.take(i as int)),
            v as nat == dec_value(t@.take(i as int)),
            v < 1000,
            i <= 2 ==> v < 100,
            i <= 1 ==> v < 10,
            i == 0 ==> v == 0,
        decreases n - i,
    {
        let c = t[i];
        proof {
            assert(t@.take(i + 1).drop_last() =~= t@.take(i as int));
        }
        if !('0' <= c && c <= '9') {
            assert(!is_digit(t@[i as int]));
            return None;
        }
        proof {
            assert forall|j: int| 0 <= j < i + 1 implies is_digit(#[trigger] t@.take(i + 1)[j]) by {
                if j < i {
                    assert(t@.take(i + 1)[j] == t@.take(i as int)[j]);
                }
            }
            assert(dec_value(t@.take(i + 1)) == v * 10 + (c as nat - '0' as nat));
        }
        v = v * 10 + (c as u32 - '0' as u32);
        i = i + 1;
    }
    assert(t@.take(n as int) =~= t@);
    if v > 255 {
        None
    } else {
        Some(v as u8)
    }
}

/// Parses a dotted-quad IPv4 address.
pub fn parse_ipv4_chars(s: &Vec<char>) -> (r: Option<u32>)
    ensures
        r == ipv4_text(s@),
{
    let parts = split_chars(s, '.');
    if parts.len() != 4 {
        return None;
    }
    let a = parse_octet(&parts[0]);
    let b = parse_octet(&parts[1]);
    let c = parse_octet(&parts[2]);
    let d = parse_octet(&parts[3]);
    match (a, b, c, d) {
        (Some(a), Some(b), Some(c), Some(d)) => Some(
            (a as u32) * 0x100_0000 + (b as u32) * 0x1_0000 + (c as u32) * 0x100 + (d as u32),
        ),
        _ => None,
    }
}

fn mask_of_prefix(p: u32) -> (r: u32)
    requires
        p <= 32,
    ensures
        r == prefix_mask(p),
{
    if p == 0 {
        0
    } else {
        0xFFFF_FFFFu32 << (32 - p)
    }
}

/// Parses `a.b.c.d/p` into `(network, mask)` with the host bits of the
/// network cleared.
pub fn parse_cidr(cidr: &str) -> (r: Result<(u32, u32), CidrError>)
    ensures
        r == parse_cidr_text(cidr@),
{
    let s = chars_of(cidr);
    let parts = split_chars(&s, '/');
    if parts.len() != 2 {
        return Err(CidrError::Format);
    }
    let ip = match parse_ipv4_chars(&parts[0]) {
        Some(ip) => ip,
        None => return Err(CidrError::Octet),
    };
    let p = match parse_u8(&parts[1]) {
        Some(p) => p,
        None => return Err(CidrError::Prefix),
    };
    if p > 32 {
        return Err(CidrError::Prefix);
    }
    let mask = mask_of_prefix(p as u32);
    Ok((ip & mask, mask))
}

/// Whether `ip` lies in one of the subnets. Overlapping subnets are allowed.
pub fn contains(ip: u32, subnets: &[(u32, u32)]) -> (r: bool)
    ensures
        r == in_any_subnet(ip, subnets@),
{
    let mut i: usize = 0;
    while i < subnets.len()
        invariant
            i <= subnets@.len(),
            forall|j: int| 0 <= j < i ==> !in_subnet(ip, #[trigger] subnets@[j]),
        decreases subnets@.len() - i,
    {
        let (network, mask) = subnets[i];
        if ip & mask == network {
            assert(in_subnet(ip, subnets@[i as int]));
            return true;
        }
        i = i + 1;
    }
    false
}

/// Whether `ip` lies in the subnet of a used slot of the kernel map; slots
/// that hold the sentinel are skipped.
pub fn is_target_subnet(ip: u32, slots: &[(u32, u32)]) -> (r: bool)
    ensures
        r == in_used_slot(ip, slots@),
{
    let mut i: usize = 0;
    while i < slots.len()
        invariant
            i <= slots@.len(),
            forall|j: int|
                0 <= j < i ==> is_sentinel(#[trigger] slots@[j]) || !in_subnet(ip, slots@[j]),
        decreases slots@.len() - i,
    {
        let (network, mask) = slots[i];
        if !(network == EMPTY_SENTINEL && mask == EMPTY_SENTINEL) && ip & mask == network {
            assert(!is_sentinel(slots@[i as int]) && in_subnet(ip, slots@[i as int]));
            return true;
        }
        i = i + 1;
    }
    false
}

/// Whether `ip` lies in one of the subnets given as CIDR texts. They are
/// read in order; the first that fails to parse before one holds `ip` is
/// the error.
pub fn ip_in_subnets(ip: u32, subnet_cidrs: &[String]) -> (r: Result<bool, CidrError>)
    ensures
        r == ip_in_cidrs(ip, texts(subnet_cidrs@)),
{
    let ghost all = texts(subnet_cidrs@);
    assert(all.skip(0) =~= all);
    let mut i: usize = 0;
    while i < subnet_cidrs.len()
        invariant
            i <= subnet_cidrs@.len(),
            all == texts(subnet_cidrs@),
            ip_in_cidrs(ip, all) == ip_in_cidrs(ip, all.skip(i as int)),
        decreases subnet_cidrs@.len() - i,
    {
        let ghost rest = all.skip(i as int);
        assert(rest[0] == subnet_cidrs@[i as int]@);
        assert(rest.drop_first() =~= all.skip(i + 1));
        match parse_cidr(subnet_cidrs[i].as_str()) {
            Err(e) => return Err(e),
            Ok((network, mask)) => {
                if ip & mask == network {
                    return Ok(true);
                }
            },
        }
        i = i + 1;
    }
    assert(all.skip(i as int).len() == 0);
    Ok(false)
}

/// The error of the first CIDR text that fails to parse, if any.
pub open spec fn first_bad_cidr(cidrs: Seq<Seq<char>>) -> Option<CidrError>
    decreases cidrs.len(),
{
    if cidrs.len() == 0 {
        None
    } else {
        match parse_cidr_text(cidrs[0]) {
            Err(e) => Some(e),
            Ok(_) => first_bad_cidr(cidrs.drop_first()),
        }
    }
}

/// Some target SSID is also excluded.
pub open spec fn ssid_in_both_lists(c: Config) -> bool {
    exists|i: int|
        0 <= i < c.general.target_ssids.0@.len() && contains_text(
            c.general.exclude_ssids@,
            (#[trigger] c.general.target_ssids.0@[i])@,
        )
}

/// What `validate_config` returns: the first rule broken, in this order.
pub open spec fn config_check(c: Config) -> Result<(), ConfigError> {
    if ssid_in_both_lists(c) {
        Err(ConfigError::SsidInBothLists)
    } else if c.general.wg_interface@.len() == 0 {
        Err(ConfigError::EmptyInterface)
    } else if c.general.idle_timeout == 0 {
        Err(ConfigError::ZeroIdleTimeout)
    } else if c.subnets.ranges@.len() == 0 {
        Err(ConfigError::NoSubnets)
    } else if c.subnets.ranges@.len() > MAX_SUBNETS {
        Err(ConfigError::TooManySubnets)
    } else {
        match first_bad_cidr(texts(c.subnets.ranges@)) {
            Some(e) => Err(ConfigError::InvalidCidr(e)),
            None => Ok(()),
        }
    }
}

/// Parses each CIDR text in order; the error of the first that fails.
pub fn check_cidrs(cidrs: &[String]) -> (r: Option<CidrError>)
    ensures
        r == first_bad_cidr(texts(cidrs@)),
{
    let ghost all = texts(cidrs@);
    assert(all.skip(0) =~= all);
    let mut i: usize = 0;
    while i < cidrs.len()
        invariant
            i <= cidrs@.len(),
            all == texts(cidrs@),
            first_bad_cidr(all) == first_bad_cidr(all.skip(i as int)),
        decreases cidrs@.len() - i,
    {
        let ghost rest = all.skip(i as int);
        assert(rest[0] == cidrs@[i as int]@);
        assert(rest.drop_first() =~= all.skip(i + 1));
        match parse_cidr(cidrs[i].as_str()) {
            Err(e) => return Some(e),
            Ok(_) => {},
        }
        i = i + 1;
    }
    assert(all.skip(i as int).len() == 0);
    None
}

/// Checks the rules that a loaded configuration must meet.
pub fn validate_config(config: &Config) -> (r: Result<(), ConfigError>)
    ensures
        r == config_check(*config),
{
    let targets = &config.general.target_ssids.0;
    let mut i: usize = 0;
    while i < targets.len()
        invariant
            i <= targets@.len(),
            targets == &config.general.target_ssids.0,
            forall|j: int|
                0 <= j < i ==> !contains_text(
                    config.general.exclude_ssids@,
                    (#[trigger] targets@[j])@,
                ),
        decreases targets@.len() - i,
    {
        if contains_str(config.general.exclude_ssids.as_slice(), &targets[i]) {
            return Err(ConfigError::SsidInBothLists);
        }
        i = i + 1;
    }
    if config.general.wg_interface.as_str().is_empty() {
        return Err(ConfigError::EmptyInterface);
    }
    if config.general.idle_timeout == 0 {
        return Err(ConfigError::ZeroIdleTimeout);
    }
    if config.subnets.ranges.len() == 0 {
        return Err(ConfigError::NoSubnets);
    }
    if config.subnets.ranges.len() > MAX_SUBNETS {
        return Err(ConfigError::TooManySubnets);
    }
    match check_cidrs(config.subnets.ranges.as_slice()) {
        Some(e) => Err(ConfigError::InvalidCidr(e)),
        None => Ok(()),
    }
}

/// The dotted-quad text of an address.
pub open spec fn ipv4_string(ip: u32) -> Seq<char> {
    decimal_text((ip / 0x100_0000) as nat) + "."@ + decimal_text(((ip / 0x1_0000) % 0x100) as nat)
        + "."@ + decimal_text(((ip / 0x100) % 0x100) as nat) + "."@ + decimal_text(
        (ip % 0x100) as nat,
    )
}

/// Writes an address as dotted-quad text, first octet first.
pub fn format_ipv4(ip: u32) -> (r: String)
    ensures
        r@ == ipv4_string(ip),
{
    let mut out = String::new();
    push_decimal(&mut out, (ip / 0x100_0000) as u64);
    out.append(".");
    push_decimal(&mut out, ((ip / 0x1_0000) % 0x100) as u64);
    out.append(".");
    push_decimal(&mut out, ((ip / 0x100) % 0x100) as u64);
    out.append(".");
    push_decimal(&mut out, (ip % 0x100) as u64);
    assert(out@ =~= ipv4_string(ip));
    out
}

/// `ip` and `addr` agree on their top `p` bits.
pub open spec fn same_prefix(ip: u32, addr: u32, p: u32) -> bool {
    p == 0 || ip >> ((32 - p) as u32) == addr >> ((32 - p) as u32)
}

/// A parsed subnet never holds a host bit: the network has no bit outside
/// the mask.
pub proof fn lemma_parsed_network_has_no_host_bits(s: Seq<char>)
    requires
        parse_cidr_text(s) is Ok,
    ensures
        ({
            let (network, mask) = parse_cidr_text(s)->Ok_0;
            network & !mask == 0
        }),
{
    let (n, m) = parse_cidr_text(s)->Ok_0;
    let parts = split(s, '/');
    let a = ipv4_text(parts[0])->0;
    assert(n == a & m);
    assert((a & m) & !m == 0) by (bit_vector);
}

/// The subnet parsed from `a.b.c.d/p` holds exactly the addresses that
/// agree with `a.b.c.d` on the top `p` bits: an address with the same
/// prefix is in it, one that differs in a prefix bit is not.
pub proof fn lemma_parsed_subnet_holds_same_prefix(s: Seq<char>, ip: u32)
    requires
        parse_cidr_text(s) is Ok,
    ensures
        ({
            let parts = split(s, '/');
            let addr = ipv4_text(parts[0])->0;
            let p = parse_u8_text(parts[1])->0 as u32;
            in_any_subnet(ip, seq![parse_cidr_text(s)->Ok_0]) <==> same_prefix(ip, addr, p)
        }),
{
    let parts = split(s, '/');
    let addr = ipv4_text(parts[0])->0;
    let p = parse_u8_text(parts[1])->0 as u32;
    let sub = parse_cidr_text(s)->Ok_0;
    assert(sub == subnet_of(addr, p));
    let one = seq![sub];
    assert(in_any_subnet(ip, one) <==> in_subnet(ip, sub)) by {
        if in_subnet(ip, sub) {
            assert(in_subnet(ip, one[0]));
        }
    }
    if p == 0 {
        assert(ip & 0 == addr & 0) by (bit_vector);
    } else {
        let k: u32 = (32 - p) as u32;
        assert(k < 32);
        assert((ip & (0xFFFF_FFFFu32 << k)) == (addr & (0xFFFF_FFFFu32 << k)) <==> (ip >> k) == (
        addr >> k)) by (bit_vector)
            requires
                k < 32,
        ;
    }
}

} // verus!
