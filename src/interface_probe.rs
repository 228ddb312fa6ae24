//! Choosing the watched interface and its address from what the system
//! reports: the device of the default route, and the first IPv4 address
//! of a named link. Listing links and running `ip route` are done by the
//! daemon.
use vstd::prelude::*;

use crate::text::{chars_of, lines, lines_of, token_after, token_after_exec};

verus! {

/// The device named on the first line of `ip route show default` that
/// has a word after ` dev `.
pub open spec fn first_dev(ls: Seq<Seq<char>>) -> Option<Seq<char>>
    decreases ls.len(),
{
    if ls.len() == 0 {
        None
    } else {
        match token_after(ls[0], " dev "@) {
            Some(t) => Some(t),
            None => first_dev(ls.drop_first()),
        }
    }
}

/// Reads the interface of the default route from the output of
/// `ip route show default`, e.g. `default via 192.168.1.1 dev eth0`.
pub fn default_route_interface(output: &str) -> (r: Option<Vec<char>>)
    ensures
        match (r, first_dev(lines(output@))) {
            (Some(v), Some(t)) => v@ == t,
            (None, None) => true,
            _ => false,
        },
{
    let ls = lines_of(output);
    let key = chars_of(" dev ");
    proof {
        reveal_strlit(" dev ");
    }
    let ghost all = lines(output@);
    assert(all.skip(0) =~= all);
    let mut i: usize = 0;
    while i < ls.len()
        invariant
            key@ == " dev "@,
            key@.len() > 0,
            all == lines(output@),
            ls@.len() == all.len(),
            forall|j: int| 0 <= j < ls@.len() ==> #[trigger] ls@[j]@ == all[j],
            i <= ls@.len(),
            first_dev(all) == first_dev(all.skip(i as int)),
        decreases ls@.len() - i,
    {
        assert(all.skip(i as int)[0] == all[i as int]);
        assert(all.skip(i as int).drop_first() =~= all.skip(i + 1));
        let line = &ls[i];
        match token_after_exec(line, &key) {
            Some((a, b)) => {
                let mut t: Vec<char> = Vec::new();
                let mut k: usize = a;
                while k < b
                    invariant
                        a <= k <= b <= line@.len(),
                        t@ =~= line@.subrange(a as int, k as int),
                    decreases b - k,
                {
                    t.push(line[k]);
                    k = k + 1;
                }
                return Some(t);
            },
            None => {},
        }
        i = i + 1;
    }
    None
}

/// The IPv4 address of the first entry for the named link that has one.
pub open spec fn first_ipv4_of(addrs: Seq<(String, Option<u32>)>, name: Seq<char>) -> Option<u32>
    decreases addrs.len(),
{
    if addrs.len() == 0 {
        None
    } else if addrs[0].0@ == name && addrs[0].1 is Some {
        addrs[0].1
    } else {
        first_ipv4_of(addrs.drop_first(), name)
    }
}

/// Picks the address of `name` from the host's address list, given as
/// (link name, IPv4 address or none for another family).
pub fn select_interface_ip(addrs: &[(String, Option<u32>)], name: &String) -> (r: Option<u32>)
    ensures
        r == first_ipv4_of(addrs@, name@),
{
    let ghost all = addrs@;
    assert(all.skip(0) =~= all);
    let mut i: usize = 0;
    while i < addrs.len()
        invariant
            all == addrs@,
            i <= all.len(),
            first_ipv4_of(all, name@) == first_ipv4_of(all.skip(i as int), name@),
        decreases all.len() - i,
    {
        assert(all.skip(i as int)[0] == all[i as int]);
        assert(all.skip(i as int).drop_first() =~= all.skip(i + 1));
        let entry = &addrs[i];
        if entry.0.eq(name) {
            match entry.1 {
                Some(ip) => return Some(ip),
                None => {},
            }
        }
        i = i + 1;
    }
    None
}

} // verus!
