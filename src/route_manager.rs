//! Bookkeeping of the temporary host routes that send the target subnets
//! through the Wi-Fi gateway while the tunnel is down, and reading the
//! gateway from the routing table's text. The route commands themselves
//! are run by the daemon.
use vstd::prelude::*;

use crate::config::{ipv4_text, parse_ipv4_chars};
use crate::text::{
    chars_of, contains_chars, contains_str, contains_text, find_from, lines, lines_of, token_after,
    token_after_exec,
};

verus! {

/// The gateway named on a line of `ip route show dev <iface>`: the word
/// after the first ` via `, when it is an IPv4 address.
pub open spec fn line_gateway(line: Seq<char>) -> Option<u32> {
    match token_after(line, " via "@) {
        Some(t) => ipv4_text(t),
        None => None,
    }
}

/// The gateway of the first line that names one.
pub open spec fn first_gateway(ls: Seq<Seq<char>>) -> Option<u32>
    decreases ls.len(),
{
    if ls.len() == 0 {
        None
    } else {
        match line_gateway(ls[0]) {
            Some(g) => Some(g),
            None => first_gateway(ls.drop_first()),
        }
    }
}

fn line_gateway_exec(line: &Vec<char>, key: &Vec<char>) -> (r: Option<u32>)
    requires
        key@ == " via "@,
    ensures
        r == line_gateway(line@),
{
    proof {
        reveal_strlit(" via ");
    }
    match token_after_exec(line, key) {
        Some((a, b)) => {
            let mut t: Vec<char> = Vec::new();
            let mut i: usize = a;
            while i < b
                invariant
                    a <= i <= b <= line@.len(),
                    t@ =~= line@.subrange(a as int, i as int),
                decreases b - i,
            {
                t.push(line[i]);
                i = i + 1;
            }
            parse_ipv4_chars(&t)
        },
        None => None,
    }
}

/// Reads the gateway from the output of `ip route show dev <iface>`: the
/// first line that has ` via ` followed by an IPv4 address.
pub fn gateway_from_routes(output: &str) -> (r: Option<u32>)
    ensures
        r == first_gateway(lines(output@)),
{
    let ls = lines_of(output);
    let key = chars_of(" via ");
    proof {
        reveal_strlit(" via ");
    }
    let ghost all = lines(output@);
    assert(all.skip(0) =~= all);
    let mut i: usize = 0;
    while i < ls.len()
        invariant
            key@ == " via "@,
            all == lines(output@),
            ls@.len() == all.len(),
            forall|j: int| 0 <= j < ls@.len() ==> #[trigger] ls@[j]@ == all[j],
            i <= ls@.len(),
            first_gateway(all) == first_gateway(all.skip(i as int)),
        decreases ls@.len() - i,
    {
        assert(all.skip(i as int)[0] == all[i as int]);
        assert(all.skip(i as int).drop_first() =~= all.skip(i + 1));
        match line_gateway_exec(&ls[i], &key) {
            Some(g) => return Some(g),
            None => {},
        }
        i = i + 1;
    }
    None
}

/// Whether `ip route show <cidr>` reports the route through `gateway` on
/// `interface`: the command succeeded and its output names both.
pub fn route_listing_matches(success: bool, output: &str, gateway: &str, interface: &str) -> (r:
    bool)
    ensures
        r == (success && find_from(output@, gateway@, 0) is Some && find_from(
            output@,
            interface@,
            0,
        ) is Some),
{
    if !success {
        return false;
    }
    let text = chars_of(output);
    let g = chars_of(gateway);
    let i = chars_of(interface);
    contains_chars(&text, &g) && contains_chars(&text, &i)
}

/// The routes added for monitoring, on one interface, with the gateway
/// once it is known.
pub struct RouteManager {
    interface: String,
    gateway: Option<u32>,
    active_routes: Vec<String>,
}

impl RouteManager {
    /// The interface name.
    pub closed spec fn spec_interface(&self) -> Seq<char> {
        self.interface@
    }

    /// The gateway, if known.
    pub closed spec fn spec_gateway(&self) -> Option<u32> {
        self.gateway
    }

    /// The active routes, by CIDR text.
    pub closed spec fn spec_routes(&self) -> Set<Seq<char>> {
        Set::new(|t: Seq<char>| contains_text(self.active_routes@, t))
    }

    /// No route is tracked twice.
    pub closed spec fn wf(&self) -> bool {
        forall|i: int, j: int|
            0 <= i < j < self.active_routes@.len() ==> (#[trigger] self.active_routes@[i])@ != (
            #[trigger] self.active_routes@[j])@
    }

    /// A manager for `interface` with no routes and no gateway known.
    pub fn new(interface: String) -> (r: Self)
        ensures
            r.wf(),
            r.spec_interface() == interface@,
            r.spec_gateway() is None,
            r.spec_routes() == Set::<Seq<char>>::empty(),
    {
        let r = RouteManager { interface, gateway: None, active_routes: Vec::new() };
        assert(r.spec_routes() =~= Set::<Seq<char>>::empty());
        r
    }

    /// The interface.
    pub fn interface(&self) -> (r: &str)
        ensures
            r@ == self.spec_interface(),
    {
        self.interface.as_str()
    }

    /// The gateway, if known.
    pub fn gateway(&self) -> (r: Option<u32>)
        ensures
            r == self.spec_gateway(),
    {
        self.gateway
    }

    /// Records the gateway that was detected.
    pub fn set_gateway(&mut self, gateway: u32)
        requires
            old(self).wf(),
        ensures
            final(self).wf(),
            final(self).spec_gateway() == Some(gateway),
            final(self).spec_interface() == old(self).spec_interface(),
            final(self).spec_routes() == old(self).spec_routes(),
    {
        self.gateway = Some(gateway);
    }

    /// Forgets the gateway, so that it is detected again.
    pub fn clear_gateway_cache(&mut self)
        requires
            old(self).wf(),
        ensures
            final(self).wf(),
            final(self).spec_gateway() is None,
            final(self).spec_interface() == old(self).spec_interface(),
            final(self).spec_routes() == old(self).spec_routes(),
    {
        self.gateway = None;
    }

    /// Whether any route is active.
    pub fn has_active_routes(&self) -> (r: bool)
        ensures
            r == (self.spec_routes() != Set::<Seq<char>>::empty()),
    {
        if self.active_routes.len() == 0 {
            assert(self.spec_routes() =~= Set::<Seq<char>>::empty());
            false
        } else {
            assert(self.spec_routes().contains(self.active_routes@[0]@));
            true
        }
    }

    /// Whether the route for `subnet` is active; an active route is not
    /// added again.
    pub fn is_active(&self, subnet: &String) -> (r: bool)
        ensures
            r == self.spec_routes().contains(subnet@),
    {
        contains_str(self.active_routes.as_slice(), subnet)
    }

    /// Records that the route for `subnet` is in place.
    pub fn mark_active(&mut self, subnet: String)
        requires
            old(self).wf(),
        ensures
            final(self).wf(),
            final(self).spec_routes() == old(self).spec_routes().insert(subnet@),
            final(self).spec_gateway() == old(self).spec_gateway(),
            final(self).spec_interface() == old(self).spec_interface(),
    {
        let ghost before = self.active_routes@;
        if !contains_str(self.active_routes.as_slice(), &subnet) {
            let ghost t = subnet@;
            self.active_routes.push(subnet);
            proof {
                assert forall|x: Seq<char>| contains_text(self.active_routes@, x) <==> (
                contains_text(before, x) || x == t) by {
                    if contains_text(self.active_routes@, x) {
                        let i = choose|i: int|
                            0 <= i < self.active_routes@.len() && (
                            #[trigger] self.active_routes@[i])@ == x;
                        if i < before.len() {
                            assert(before[i] == self.active_routes@[i]);
                        }
                    }
                    if contains_text(before, x) {
                        let i = choose|i: int| 0 <= i < before.len() && (#[trigger] before[i])@ == x;
                        assert(self.active_routes@[i] == before[i]);
                    }
                    if x == t {
                        assert(self.active_routes@[before.len() as int]@ == t);
                    }
                }
                assert(self.spec_routes() =~= Set::new(|x: Seq<char>| contains_text(before, x)).insert(t));
            }
        } else {
            assert(self.spec_routes() =~= self.spec_routes().insert(subnet@));
        }
    }

    /// Records the outcome of adding the route for `subnet`: it becomes
    /// tracked when the add succeeded or the route was found already in
    /// place; returns whether it is tracked.
    pub fn record_add(&mut self, subnet: String, added: bool, found: bool) -> (r: bool)
        requires
            old(self).wf(),
        ensures
            r == (added || found),
            final(self).wf(),
            r ==> final(self).spec_routes() == old(self).spec_routes().insert(subnet@),
            !r ==> final(self).spec_routes() == old(self).spec_routes(),
            final(self).spec_gateway() == old(self).spec_gateway(),
            final(self).spec_interface() == old(self).spec_interface(),
    {
        if added || found {
            self.mark_active(subnet);
            true
        } else {
            false
        }
    }

    /// Hands out every active route, for removal, and forgets them all.
    pub fn take_routes(&mut self) -> (r: Vec<String>)
        requires
            old(self).wf(),
        ensures
            final(self).wf(),
            final(self).spec_routes() == Set::<Seq<char>>::empty(),
            forall|t: Seq<char>| old(self).spec_routes().contains(t) <==> contains_text(r@, t),
            forall|i: int, j: int| 0 <= i < j < r@.len() ==> r@[i]@ != r@[j]@,
            final(self).spec_gateway() == old(self).spec_gateway(),
            final(self).spec_interface() == old(self).spec_interface(),
    {
        let mut r: Vec<String> = Vec::new();
        std::mem::swap(&mut r, &mut self.active_routes);
        assert(self.spec_routes() =~= Set::<Seq<char>>::empty());
        r
    }
}

} // verus!
