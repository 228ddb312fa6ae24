//! Shared data: the kernel traffic record, tunnel states, and the
//! configuration.
use vstd::prelude::*;

use vstd::arithmetic::div_mod::{lemma_fundamental_div_mod, lemma_mod_bound};

verus! {

/// Bytes in one traffic record.
pub const TRAFFIC_EVENT_SIZE: usize = 16;

/// One sampled outbound packet, as the kernel filter records it.
#[derive(Debug, Clone, Copy, PartialEq, Eq, Structural)]
pub struct TrafficEvent {
    /// Monotonic kernel time, in nanoseconds.
    pub timestamp: u64,
    /// Destination IPv4 address; the first octet is the most significant byte.
    pub dest_ip: u32,
    /// TCP or UDP destination port; 0 for other protocols.
    pub dest_port: u16,
    /// IP protocol number.
    pub protocol: u8,
    /// Reserved, zero.
    pub _padding: u8,
}

/// The little-endian value of `n` bytes of `b` from `off`.
pub open spec fn le_at(b: Seq<u8>, off: int, n: nat) -> nat
    decreases n,
{
    if n == 0 {
        0
    } else {
        b[off] as nat + 256 * le_at(b, off + 1, (n - 1) as nat)
    }
}

/// The record that the kernel filter writes: timestamp at 0 (8 bytes),
/// destination at 8 (4), port at 12 (2), protocol at 14, padding at 15,
/// all little-endian.
pub open spec fn record_event(b: Seq<u8>) -> TrafficEvent {
    TrafficEvent {
        timestamp: le_at(b, 0, 8) as u64,
        dest_ip: le_at(b, 8, 4) as u32,
        dest_port: le_at(b, 12, 2) as u16,
        protocol: b[14],
        _padding: b[15],
    }
}

/// 256 to the power `n`.
pub open spec fn pow256(n: nat) -> nat
    decreases n,
{
    if n == 0 {
        1
    } else {
        256 * pow256((n - 1) as nat)
    }
}

/// The low `n` bytes of `v`, least significant first.
pub open spec fn le_bytes(v: nat, n: nat) -> Seq<u8>
    decreases n,
{
    if n == 0 {
        Seq::empty()
    } else {
        seq![(v % 256) as u8] + le_bytes(v / 256, (n - 1) as nat)
    }
}

/// The record of an event, as the kernel filter writes it.
pub open spec fn event_record(e: TrafficEvent) -> Seq<u8> {
    le_bytes(e.timestamp as nat, 8) + le_bytes(e.dest_ip as nat, 4) + le_bytes(
        e.dest_port as nat,
        2,
    ) + seq![e.protocol, e._padding]
}

proof fn lemma_le_bytes_len(v: nat, n: nat)
    ensures
        le_bytes(v, n).len() == n,
    decreases n,
{
    if n > 0 {
        lemma_le_bytes_len(v / 256, (n - 1) as nat);
    }
}

proof fn lemma_le_at_le_bytes(s: Seq<u8>, off: int, v: nat, n: nat)
    requires
        0 <= off,
        off + n <= s.len(),
        s.subrange(off, off + n) == le_bytes(v, n),
        v < pow256(n),
    ensures
        le_at(s, off, n) == v,
    decreases n,
{
    if n > 0 {
        let m = (n - 1) as nat;
        lemma_fundamental_div_mod(v as int, 256);
        lemma_mod_bound(v as int, 256);
        lemma_le_bytes_len(v / 256, m);
        let b = le_bytes(v, n);
        assert(s[off] == b[0]);
        assert(s.subrange(off + 1, off + 1 + m) =~= b.subrange(1, n as int));
        assert(b.subrange(1, n as int) =~= le_bytes(v / 256, m));
        assert(v / 256 < pow256(m));
        lemma_le_at_le_bytes(s, off + 1, v / 256, m);
    }
}

impl TrafficEvent {
    /// Writes the 16-byte record: fields little-endian at their fixed
    /// offsets, the padding byte as held.
    pub fn to_record(&self) -> (r: Vec<u8>)
        ensures
            r@ == event_record(*self),
            r@.len() == TRAFFIC_EVENT_SIZE,
    {
        let mut r: Vec<u8> = Vec::new();
        push_le(&mut r, self.timestamp, 8);
        push_le(&mut r, self.dest_ip as u64, 4);
        push_le(&mut r, self.dest_port as u64, 2);
        r.push(self.protocol);
        r.push(self._padding);
        proof {
            lemma_le_bytes_len(self.timestamp as nat, 8);
            lemma_le_bytes_len(self.dest_ip as nat, 4);
            lemma_le_bytes_len(self.dest_port as nat, 2);
        }
        assert(r@ =~= event_record(*self));
        r
    }

    /// Reads one record from the ring. A record whose length is not 16 is
    /// dropped.
    pub fn from_record(data: &[u8]) -> (r: Option<TrafficEvent>)
        ensures
            data@.len() != TRAFFIC_EVENT_SIZE ==> r is None,
            data@.len() == TRAFFIC_EVENT_SIZE ==> r == Some(record_event(data@)),
    {
        if data.len() != TRAFFIC_EVENT_SIZE {
            return None;
        }
        let b = data;
        proof {
            reveal_with_fuel(le_at, 9);
        }
        let timestamp: u64 = b[0] as u64 + (b[1] as u64) * 0x100 + (b[2] as u64) * 0x1_0000 + (
        b[3] as u64) * 0x100_0000 + (b[4] as u64) * 0x1_0000_0000 + (b[5] as u64)
            * 0x100_0000_0000 + (b[6] as u64) * 0x1_0000_0000_0000 + (b[7] as u64)
            * 0x100_0000_0000_0000;
        let dest_ip: u32 = b[8] as u32 + (b[9] as u32) * 0x100 + (b[10] as u32) * 0x1_0000 + (
        b[11] as u32) * 0x100_0000;
        let dest_port: u16 = b[12] as u16 + (b[13] as u16) * 0x100;
        Some(TrafficEvent { timestamp, dest_ip, dest_port, protocol: b[14], _padding: b[15] })
    }
}

/// Appends the low `n` bytes of `v`, least significant first.
fn push_le(out: &mut Vec<u8>, v: u64, n: usize)
    ensures
        final(out)@ == old(out)@ + le_bytes(v as nat, n as nat),
    decreases n,
{
    if n == 0 {
        assert(out@ =~= old(out)@ + le_bytes(v as nat, 0));
        return;
    }
    out.push((v % 256) as u8);
    push_le(out, v / 256, n - 1);
    assert(out@ =~= old(out)@ + le_bytes(v as nat, n as nat));
}

/// Reading a record back gives the event that was written.
pub proof fn lemma_record_round_trip(e: TrafficEvent)
    ensures
        event_record(e).len() == TRAFFIC_EVENT_SIZE,
        record_event(event_record(e)) == e,
{
    let s = event_record(e);
    lemma_le_bytes_len(e.timestamp as nat, 8);
    lemma_le_bytes_len(e.dest_ip as nat, 4);
    lemma_le_bytes_len(e.dest_port as nat, 2);
    reveal_with_fuel(pow256, 9);
    assert(s.subrange(0, 8) =~= le_bytes(e.timestamp as nat, 8));
    assert(s.subrange(8, 12) =~= le_bytes(e.dest_ip as nat, 4));
    assert(s.subrange(12, 14) =~= le_bytes(e.dest_port as nat, 2));
    lemma_le_at_le_bytes(s, 0, e.timestamp as nat, 8);
    lemma_le_at_le_bytes(s, 8, e.dest_ip as nat, 4);
    lemma_le_at_le_bytes(s, 12, e.dest_port as nat, 2);
}

/// Lifecycle state of the managed tunnel.
#[derive(Debug, Clone, Copy, PartialEq, Eq, Structural)]
pub enum TunnelState {
    /// Tunnel down, traffic not watched.
    Inactive,
    /// Tunnel down, outbound traffic watched.
    Monitoring,
    /// Tunnel coming up.
    Activating,
    /// Tunnel up.
    Active,
    /// Tunnel going down.
    Deactivating,
}

/// Approved networks; empty means every network.
#[derive(Debug, Clone, Default)]
pub struct SsidList(pub Vec<String>);

/// The `[general]` table of the configuration.
#[derive(Debug, Clone)]
pub struct GeneralConfig {
    /// Approved SSIDs; empty approves every network.
    pub target_ssids: SsidList,
    /// SSIDs never approved; they win over the target list.
    pub exclude_ssids: Vec<String>,
    /// The WireGuard interface.
    pub wg_interface: String,
    /// The network-manager connection that drives the tunnel, if any.
    pub nm_connection: Option<String>,
    /// The interface to watch; detected when absent.
    pub monitor_interface: Option<String>,
    /// Seconds of tunnel idleness before teardown.
    pub idle_timeout: u64,
    /// Log level name.
    pub log_level: String,
}

/// The `[subnets]` table of the configuration.
#[derive(Debug, Clone)]
pub struct SubnetConfig {
    /// Target subnets in CIDR form.
    pub ranges: Vec<String>,
}

/// The whole configuration.
#[derive(Debug, Clone)]
pub struct Config {
    /// General options.
    pub general: GeneralConfig,
    /// Target subnets.
    pub subnets: SubnetConfig,
}

/// The idle timeout when none is configured: five minutes.
pub fn default_idle_timeout() -> (r: u64)
    ensures
        r == 300,
{
    300
}

/// The log level when none is configured.
pub fn default_log_level() -> (r: String)
    ensures
        r@ == "info"@,
{
    "info".to_owned()
}

} // verus!
