//! The tunnel controller's own logic: safe names, which name answers
//! statistics queries, the transfer-counter parser, and idle tracking.
//! Bringing the tunnel up or down and querying counters are done by the
//! daemon, which hands the results in.
use vstd::prelude::*;

use vstd::arithmetic::div_mod::lemma_add_mod_noop;

use crate::text::{
    chars_of, contains_chars, find_from, lines, lines_of, parse_u64, parse_u64_text, split,
    split_chars,
};

verus! {

/// Why a name was refused.
#[derive(Debug, Clone, PartialEq, Eq)]
pub enum NameError {
    /// The named field is empty.
    Empty(String),
    /// The named field holds a character other than an ASCII letter or
    /// digit, `-` or `_`.
    InvalidCharacters(String),
}

/// A character that may appear in an interface or connection name.
pub open spec fn is_name_char(c: char) -> bool {
    ('a' <= c && c <= 'z') || ('A' <= c && c <= 'Z') || ('0' <= c && c <= '9') || c == '-' || c
        == '_'
}

/// A name that is safe to hand to a shell-invoked tool: `[A-Za-z0-9_-]+`.
pub open spec fn is_safe_name(s: Seq<char>) -> bool {
    s.len() > 0 && forall|i: int| 0 <= i < s.len() ==> is_name_char(#[trigger] s[i])
}

/// Checks that `name` matches `[A-Za-z0-9_-]+`; the error names `field_name`.
pub fn validate_name(name: &str, field_name: &str) -> (r: Result<(), NameError>)
    ensures
        name@.len() == 0 ==> (r matches Err(NameError::Empty(f)) && f@ == field_name@),
        name@.len() > 0 && !is_safe_name(name@) ==> (r matches Err(
            NameError::InvalidCharacters(f),
        ) && f@ == field_name@),
        is_safe_name(name@) ==> r is Ok,
{
    let s = chars_of(name);
    if s.len() == 0 {
        return Err(NameError::Empty(field_name.to_owned()));
    }
    let mut i: usize = 0;
    while i < s.len()
        invariant
            s@ == name@,
            i <= s@.len(),
            forall|j: int| 0 <= j < i ==> is_name_char(#[trigger] s@[j]),
        decreases s@.len() - i,
    {
        let c = s[i];
        if !(('a' <= c && c <= 'z') || ('A' <= c && c <= 'Z') || ('0' <= c && c <= '9') || c
            == '-' || c == '_') {
            assert(!is_name_char(s@[i as int]));
            return Err(NameError::InvalidCharacters(field_name.to_owned()));
        }
        i = i + 1;
    }
    Ok(())
}

/// Checks an interface name.
pub fn validate_interface_name(name: &str) -> (r: Result<(), NameError>)
    ensures
        name@.len() == 0 ==> r matches Err(NameError::Empty(_)),
        name@.len() > 0 && !is_safe_name(name@) ==> r matches Err(NameError::InvalidCharacters(_)),
        is_safe_name(name@) ==> r is Ok,
{
    validate_name(name, "Interface name")
}

/// The peer transfer counters on one line of the tabular form
/// `peer<TAB>rx<TAB>tx`: none when the line has fewer than three fields or
/// its second or third field is not an unsigned 64-bit number. Fields
/// after the third are ignored.
pub open spec fn line_transfer(line: Seq<char>) -> Option<(u64, u64)> {
    let f = split(line, '\t');
    if f.len() >= 3 && parse_u64_text(f[1]) is Some && parse_u64_text(f[2]) is Some {
        Some((parse_u64_text(f[1])->0, parse_u64_text(f[2])->0))
    } else {
        None
    }
}

/// The received count of a line; zero when it is not well formed.
pub open spec fn rx_of(line: Seq<char>) -> nat {
    match line_transfer(line) {
        Some(p) => p.0 as nat,
        None => 0,
    }
}

/// The sent count of a line; zero when it is not well formed.
pub open spec fn tx_of(line: Seq<char>) -> nat {
    match line_transfer(line) {
        Some(p) => p.1 as nat,
        None => 0,
    }
}

/// The sum of the received counts of the well-formed lines.
pub open spec fn rx_sum(ls: Seq<Seq<char>>) -> nat
    decreases ls.len(),
{
    if ls.len() == 0 {
        0
    } else {
        rx_sum(ls.drop_last()) + rx_of(ls.last())
    }
}

/// The sum of the sent counts of the well-formed lines.
pub open spec fn tx_sum(ls: Seq<Seq<char>>) -> nat
    decreases ls.len(),
{
    if ls.len() == 0 {
        0
    } else {
        tx_sum(ls.drop_last()) + tx_of(ls.last())
    }
}

/// Sums, as 64-bit counters do, wrapping past the maximum.
pub open spec fn wrap64(n: nat) -> u64 {
    (n % 0x1_0000_0000_0000_0000) as u64
}

/// What the transfer parser returns for a text.
pub open spec fn transfer_totals(s: Seq<char>) -> (u64, u64) {
    (wrap64(rx_sum(lines(s))), wrap64(tx_sum(lines(s))))
}

proof fn lemma_sums_remove(ls: Seq<Seq<char>>, j: int)
    requires
        0 <= j < ls.len(),
    ensures
        rx_sum(ls) == rx_sum(ls.remove(j)) + rx_of(ls[j]),
        tx_sum(ls) == tx_sum(ls.remove(j)) + tx_of(ls[j]),
    decreases ls.len(),
{
    if j == ls.len() - 1 {
        assert(ls.remove(j) =~= ls.drop_last());
    } else {
        lemma_sums_remove(ls.drop_last(), j);
        assert(ls.remove(j).drop_last() =~= ls.drop_last().remove(j));
        assert(ls.remove(j).last() == ls.last());
        assert(ls.drop_last()[j] == ls[j]);
    }
}

proof fn lemma_sums_permutation(a: Seq<Seq<char>>, b: Seq<Seq<char>>)
    requires
        a.to_multiset() == b.to_multiset(),
    ensures
        rx_sum(a) == rx_sum(b),
        tx_sum(a) == tx_sum(b),
    decreases a.len(),
{
    broadcast use vstd::seq_lib::group_to_multiset_ensures;

    if a.len() == 0 {
        assert(a.to_multiset().len() == 0);
        assert(b.len() == 0);
    } else {
        let n = a.len() - 1;
        let x = a[n];
        assert(a.contains(x));
        assert(b.to_multiset().count(x) > 0);
        assert(b.contains(x));
        let j = choose|j: int| 0 <= j < b.len() && b[j] == x;
        assert(a.remove(n) =~= a.drop_last());
        assert(a.remove(n).to_multiset() == a.to_multiset().remove(x));
        assert(b.remove(j).to_multiset() == b.to_multiset().remove(x));
        lemma_sums_permutation(a.drop_last(), b.remove(j));
        lemma_sums_remove(b, j);
        lemma_sums_remove(a, n);
    }
}

/// The totals do not depend on the order of the lines: two texts whose
/// lines are the same up to order give the same totals.
pub proof fn lemma_transfer_totals_ignore_line_order(s1: Seq<char>, s2: Seq<char>)
    requires
        lines(s1).to_multiset() == lines(s2).to_multiset(),
    ensures
        transfer_totals(s1) == transfer_totals(s2),
{
    lemma_sums_permutation(lines(s1), lines(s2));
}

fn parse_line(line: &Vec<char>) -> (r: Option<(u64, u64)>)
    ensures
        r == line_transfer(line@),
{
    let fields = split_chars(line, '\t');
    if fields.len() < 3 {
        return None;
    }
    match (parse_u64(&fields[1]), parse_u64(&fields[2])) {
        (Some(rx), Some(tx)) => Some((rx, tx)),
        _ => None,
    }
}

proof fn lemma_wrap_step(total: u64, sum: nat, v: u64)
    requires
        total == wrap64(sum),
    ensures
        vstd::wrapping::u64_specs::wrapping_add(total, v) == wrap64((sum + v) as nat),
{
    let m: int = 0x1_0000_0000_0000_0000;
    lemma_add_mod_noop(sum as int, v as int, m);
    assert((v as int) % m == v as int);
    assert((total as int + v as int) % m == (sum + v) % m);
}

/// The sum of the received counts of the peers.
pub open spec fn peers_rx(peers: Seq<(u64, u64)>) -> nat
    decreases peers.len(),
{
    if peers.len() == 0 {
        0
    } else {
        peers_rx(peers.drop_last()) + peers.last().0 as nat
    }
}

/// The sum of the sent counts of the peers.
pub open spec fn peers_tx(peers: Seq<(u64, u64)>) -> nat
    decreases peers.len(),
{
    if peers.len() == 0 {
        0
    } else {
        peers_tx(peers.drop_last()) + peers.last().1 as nat
    }
}

/// Sums per-peer `(rx, tx)` counters as reported by the WireGuard device
/// query, wrapping as 64-bit counters do.
pub fn sum_peer_stats(peers: &[(u64, u64)]) -> (r: (u64, u64))
    ensures
        r == (wrap64(peers_rx(peers@)), wrap64(peers_tx(peers@))),
{
    let mut rx: u64 = 0;
    let mut tx: u64 = 0;
    let mut i: usize = 0;
    while i < peers.len()
        invariant
            i <= peers@.len(),
            rx == wrap64(peers_rx(peers@.take(i as int))),
            tx == wrap64(peers_tx(peers@.take(i as int))),
        decreases peers@.len() - i,
    {
        let (a, b) = peers[i];
        assert(peers@.take(i + 1).drop_last() =~= peers@.take(i as int));
        proof {
            lemma_wrap_step(rx, peers_rx(peers@.take(i as int)), a);
            lemma_wrap_step(tx, peers_tx(peers@.take(i as int)), b);
        }
        rx = rx.wrapping_add(a);
        tx = tx.wrapping_add(b);
        i = i + 1;
    }
    assert(peers@.take(i as int) =~= peers@);
    (rx, tx)
}

/// The stored counters and activity stamp `(rx, tx, stamp)` after one
/// reading `(rx, tx, now)`: a change stores the reading and stamps `now`.
pub open spec fn activity_step(s: (u64, u64, Option<u64>), r: (u64, u64, u64)) -> (
    u64,
    u64,
    Option<u64>,
) {
    if r.0 != s.0 || r.1 != s.1 {
        (r.0, r.1, Some(r.2))
    } else {
        s
    }
}

/// The stored counters and stamp after a series of readings.
pub open spec fn activity_after(s: (u64, u64, Option<u64>), readings: Seq<(u64, u64, u64)>) -> (
    u64,
    u64,
    Option<u64>,
)
    decreases readings.len(),
{
    if readings.len() == 0 {
        s
    } else {
        activity_step(activity_after(s, readings.drop_last()), readings.last())
    }
}

/// Milliseconds idle at `now` since the stamp, if any; a clock reading
/// before the stamp counts as no time.
pub open spec fn idle_since(stamp: Option<u64>, now: u64) -> Option<u64> {
    match stamp {
        Some(t) => Some(if now >= t {
            (now - t) as u64
        } else {
            0
        }),
        None => None,
    }
}

/// An external command: the program and its arguments.
pub struct ToolCommand {
    /// The program.
    pub program: String,
    /// Its arguments.
    pub args: Vec<String>,
}

/// How an attempt to bring the tunnel down ended.
#[derive(Debug, Clone, Copy, PartialEq, Eq, Structural)]
pub enum DownOutcome {
    /// The tool succeeded.
    Down,
    /// The tool failed because the tunnel was not up: no error.
    AlreadyDown,
    /// The tool failed for another reason: an error.
    Failed,
}

/// The texts of the stderr of the tools that mean the tunnel was not up.
pub open spec fn down_is_benign(via_connection: bool, stderr: Seq<char>) -> bool {
    if via_connection {
        find_from(stderr, "not an active connection"@, 0) is Some
    } else {
        find_from(stderr, "is not a WireGuard interface"@, 0) is Some
    }
}

/// The controller of one tunnel: its interface, the network-manager
/// connection that drives it if any, and the last transfer counters seen
/// with the time they last changed (milliseconds of a monotonic clock).
pub struct WgController {
    interface: String,
    nm_connection: Option<String>,
    last_rx_bytes: u64,
    last_tx_bytes: u64,
    last_activity: Option<u64>,
}

impl WgController {
    /// The interface name.
    pub closed spec fn spec_interface(&self) -> Seq<char> {
        self.interface@
    }

    /// The network-manager connection, if any.
    pub closed spec fn spec_nm_connection(&self) -> Option<Seq<char>> {
        match self.nm_connection {
            Some(c) => Some(c@),
            None => None,
        }
    }

    /// The received count last seen.
    pub closed spec fn spec_last_rx(&self) -> u64 {
        self.last_rx_bytes
    }

    /// The sent count last seen.
    pub closed spec fn spec_last_tx(&self) -> u64 {
        self.last_tx_bytes
    }

    /// When activity was last stamped, in milliseconds.
    pub closed spec fn spec_last_activity(&self) -> Option<u64> {
        self.last_activity
    }

    /// A controller with no counters seen. Both names must match
    /// `[A-Za-z0-9_-]+`.
    pub fn new(interface: String, nm_connection: Option<String>) -> (r: Result<Self, NameError>)
        ensures
            r is Ok <==> is_safe_name(interface@) && (nm_connection matches Some(c) ==> is_safe_name(
                c@,
            )),
            interface@.len() == 0 ==> (r matches Err(NameError::Empty(_))),
            interface@.len() > 0 && !is_safe_name(interface@) ==> (r matches Err(
                NameError::InvalidCharacters(_),
            )),
            is_safe_name(interface@) ==> (nm_connection matches Some(c) && c@.len() == 0 <==> (
            r matches Err(NameError::Empty(_)))),
            is_safe_name(interface@) ==> (nm_connection matches Some(c) && c@.len() > 0
                && !is_safe_name(c@) <==> (r matches Err(NameError::InvalidCharacters(_)))),
            r matches Ok(c) ==> c.spec_interface() == interface@ && c.spec_nm_connection() == (
            match nm_connection {
                Some(n) => Some(n@),
                None => None::<Seq<char>>,
            }) && c.spec_last_rx() == 0 && c.spec_last_tx() == 0
                && c.spec_last_activity() is None,
    {
        match validate_name(interface.as_str(), "Interface name") {
            Err(e) => return Err(e),
            Ok(()) => {},
        }
        match &nm_connection {
            Some(conn) => match validate_name(conn.as_str(), "NetworkManager connection name") {
                Err(e) => return Err(e),
                Ok(()) => {},
            },
            None => {},
        }
        Ok(
            WgController {
                interface,
                nm_connection,
                last_rx_bytes: 0,
                last_tx_bytes: 0,
                last_activity: None,
            },
        )
    }

    /// The interface name.
    pub fn interface(&self) -> (r: &str)
        ensures
            r@ == self.spec_interface(),
    {
        self.interface.as_str()
    }

    /// The name that answers statistics queries: the network-manager
    /// connection when one is configured, else the interface.
    pub fn wg_stats_interface(&self) -> (r: &str)
        ensures
            r@ == match self.spec_nm_connection() {
                Some(c) => c,
                None => self.spec_interface(),
            },
    {
        match &self.nm_connection {
            Some(c) => c.as_str(),
            None => self.interface.as_str(),
        }
    }

    /// Sums the counters of the tabular form `peer<TAB>rx<TAB>tx`, one
    /// line per peer; lines that are not well formed are skipped.
    pub fn parse_wg_transfer_output(output: &str) -> (r: (u64, u64))
        ensures
            r == transfer_totals(output@),
    {
        let ls = lines_of(output);
        let ghost spec_lines = lines(output@);
        let count = ls.len();
        let mut total_rx: u64 = 0;
        let mut total_tx: u64 = 0;
        let mut k: usize = 0;
        while k < count
            invariant
                count == ls@.len(),
                spec_lines == lines(output@),
                spec_lines.len() == count,
                forall|i: int| 0 <= i < count ==> #[trigger] ls@[i]@ == spec_lines[i],
                k <= count,
                total_rx == wrap64(rx_sum(spec_lines.take(k as int))),
                total_tx == wrap64(tx_sum(spec_lines.take(k as int))),
            decreases count - k,
        {
            assert(spec_lines.take(k + 1).drop_last() =~= spec_lines.take(k as int));
            match parse_line(&ls[k]) {
                Some((rx, tx)) => {
                    proof {
                        lemma_wrap_step(total_rx, rx_sum(spec_lines.take(k as int)), rx);
                        lemma_wrap_step(total_tx, tx_sum(spec_lines.take(k as int)), tx);
                    }
                    total_rx = total_rx.wrapping_add(rx);
                    total_tx = total_tx.wrapping_add(tx);
                },
                None => {},
            }
            k = k + 1;
        }
        assert(spec_lines.take(count as int) =~= spec_lines);
        (total_rx, total_tx)
    }

    /// The command that brings the tunnel up (`up`) or down: through the
    /// network-manager connection when one is configured, else `wg-quick`
    /// on the interface.
    pub fn tunnel_command(&self, up: bool) -> (r: ToolCommand)
        ensures
            match self.spec_nm_connection() {
                Some(c) => r.program@ == "nmcli"@ && r.args@.len() == 3 && r.args@[0]@
                    == "connection"@ && r.args@[1]@ == (if up {
                    "up"@
                } else {
                    "down"@
                }) && r.args@[2]@ == c,
                None => r.program@ == "wg-quick"@ && r.args@.len() == 2 && r.args@[0]@ == (if up {
                    "up"@
                } else {
                    "down"@
                }) && r.args@[1]@ == self.spec_interface(),
            },
    {
        let verb = if up {
            "up"
        } else {
            "down"
        };
        let mut args: Vec<String> = Vec::new();
        match &self.nm_connection {
            Some(c) => {
                args.push("connection".to_owned());
                args.push(verb.to_owned());
                args.push(c.as_str().to_owned());
                ToolCommand { program: "nmcli".to_owned(), args }
            },
            None => {
                args.push(verb.to_owned());
                args.push(self.interface.as_str().to_owned());
                ToolCommand { program: "wg-quick".to_owned(), args }
            },
        }
    }

    /// How bringing the tunnel down ended, from the tool's success and its
    /// stderr. A tunnel that was not up is no error; any other failure of
    /// either tool is.
    pub fn down_outcome(&self, success: bool, stderr: &str) -> (r: DownOutcome)
        ensures
            success ==> r == DownOutcome::Down,
            !success && down_is_benign(self.spec_nm_connection() is Some, stderr@) ==> r
                == DownOutcome::AlreadyDown,
            !success && !down_is_benign(self.spec_nm_connection() is Some, stderr@) ==> r
                == DownOutcome::Failed,
    {
        if success {
            return DownOutcome::Down;
        }
        let text = chars_of(stderr);
        let via_connection = self.nm_connection.is_some();
        let key = if via_connection {
            chars_of("not an active connection")
        } else {
            chars_of("is not a WireGuard interface")
        };
        proof {
            reveal_strlit("not an active connection");
            reveal_strlit("is not a WireGuard interface");
        }
        if contains_chars(&text, &key) {
            DownOutcome::AlreadyDown
        } else {
            DownOutcome::Failed
        }
    }

    /// Records counters just read at `now_ms`. When either differs from
    /// the last seen, they are stored and the activity time is stamped;
    /// returns whether they differed.
    pub fn check_activity(&mut self, rx: u64, tx: u64, now_ms: u64) -> (r: bool)
        ensures
            r == (rx != old(self).spec_last_rx() || tx != old(self).spec_last_tx()),
            (final(self).spec_last_rx(), final(self).spec_last_tx(), final(self).spec_last_activity())
                == activity_step(
                (old(self).spec_last_rx(), old(self).spec_last_tx(), old(self).spec_last_activity()),
                (rx, tx, now_ms),
            ),
            final(self).spec_interface() == old(self).spec_interface(),
            final(self).spec_nm_connection() == old(self).spec_nm_connection(),
            r ==> final(self).spec_last_rx() == rx && final(self).spec_last_tx() == tx
                && final(self).spec_last_activity() == Some(now_ms),
            !r ==> final(self).spec_last_rx() == old(self).spec_last_rx()
                && final(self).spec_last_tx() == old(self).spec_last_tx()
                && final(self).spec_last_activity() == old(self).spec_last_activity(),
    {
        let changed = rx != self.last_rx_bytes || tx != self.last_tx_bytes;
        if changed {
            self.last_activity = Some(now_ms);
            self.last_rx_bytes = rx;
            self.last_tx_bytes = tx;
        }
        changed
    }

    /// Milliseconds since the last activity at `now_ms`, or none when no
    /// activity was ever stamped. A clock reading before the stamp counts
    /// as no time.
    pub fn idle_duration(&self, now_ms: u64) -> (r: Option<u64>)
        ensures
            r == idle_since(self.spec_last_activity(), now_ms),
    {
        match self.last_activity {
            Some(t) => Some(now_ms.saturating_sub(t)),
            None => None,
        }
    }

    /// Called when the tunnel comes up: zeroes the stored counters and
    /// stamps the activity time, so that idleness is measured from now.
    pub fn reset_activity(&mut self, now_ms: u64)
        ensures
            final(self).spec_interface() == old(self).spec_interface(),
            final(self).spec_nm_connection() == old(self).spec_nm_connection(),
            final(self).spec_last_rx() == 0,
            final(self).spec_last_tx() == 0,
            final(self).spec_last_activity() == Some(now_ms),
    {
        self.last_rx_bytes = 0;
        self.last_tx_bytes = 0;
        self.last_activity = Some(now_ms);
    }

    /// The received count last seen.
    pub fn last_rx_bytes(&self) -> (r: u64)
        ensures
            r == self.spec_last_rx(),
    {
        self.last_rx_bytes
    }

    /// The sent count last seen.
    pub fn last_tx_bytes(&self) -> (r: u64)
        ensures
            r == self.spec_last_tx(),
    {
        self.last_tx_bytes
    }

    /// When activity was last stamped.
    pub fn last_activity(&self) -> (r: Option<u64>)
        ensures
            r == self.spec_last_activity(),
    {
        self.last_activity
    }
}

} // verus!
