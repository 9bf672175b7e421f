//! The firewall engine: single-field equality filters keyed by priority,
//! a whitelist/blacklist disposition, and the packet projection they are
//! matched against.

use vstd::prelude::*;

use crate::types::{EtherType, IpAddress, IpProtocol, MacAddr};

verus! {

/// The disposition of a rule set: whitelist allows exactly the matched
/// packets, blacklist allows exactly the unmatched ones.
#[derive(Debug, Clone, Copy, PartialEq, Eq, Structural)]
pub enum Policy {
    Whitelist,
    Blacklist,
}

/// A single-field equality filter over L2, L3 or L4 headers.
#[derive(Debug, Clone, Copy)]
pub enum Filter {
    SrcMacAddress(MacAddr),
    DstMacAddress(MacAddr),
    EtherType(u16),
    SrcIpAddress(IpAddress),
    DstIpAddress(IpAddress),
    IpProtocol(u8),
    SrcPort(u16),
    DstPort(u16),
}

impl PartialEq for Filter {
    fn eq(&self, other: &Filter) -> (r: bool) {
        match (self, other) {
            (Filter::SrcMacAddress(a), Filter::SrcMacAddress(b)) => a == b,
            (Filter::DstMacAddress(a), Filter::DstMacAddress(b)) => a == b,
            (Filter::EtherType(a), Filter::EtherType(b)) => a == b,
            (Filter::SrcIpAddress(a), Filter::SrcIpAddress(b)) => a == b,
            (Filter::DstIpAddress(a), Filter::DstIpAddress(b)) => a == b,
            (Filter::IpProtocol(a), Filter::IpProtocol(b)) => a == b,
            (Filter::SrcPort(a), Filter::SrcPort(b)) => a == b,
            (Filter::DstPort(a), Filter::DstPort(b)) => a == b,
            _ => false,
        }
    }
}

impl vstd::std_specs::cmp::PartialEqSpecImpl for Filter {
    open spec fn obeys_eq_spec() -> bool {
        true
    }

    open spec fn eq_spec(&self, other: &Filter) -> bool {
        *self == *other
    }
}

/// The projection of a parsed packet that the firewall consults.
#[derive(Debug, Clone, Copy)]
pub struct FirewallPacket {
    pub src_mac: MacAddr,
    pub dst_mac: MacAddr,
    pub ether_type: EtherType,
    pub src_ip: IpAddress,
    pub dst_ip: IpAddress,
    /// 4 or 6, derived from the source address family.
    pub ip_version: u8,
    pub ip_protocol: IpProtocol,
    pub src_port: u16,
    pub dst_port: u16,
}

impl FirewallPacket {
    pub fn from_packet(
        src_mac: MacAddr,
        dst_mac: MacAddr,
        ether_type: EtherType,
        src_ip: IpAddress,
        dst_ip: IpAddress,
        ip_protocol: IpProtocol,
        src_port: u16,
        dst_port: u16,
    ) -> (r: FirewallPacket)
        ensures
            r.src_mac == src_mac,
            r.dst_mac == dst_mac,
            r.ether_type == ether_type,
            r.src_ip == src_ip,
            r.dst_ip == dst_ip,
            r.ip_version == src_ip.spec_version(),
            r.ip_protocol == ip_protocol,
            r.src_port == src_port,
            r.dst_port == dst_port,
    {
        let ip_version = src_ip.version();
        FirewallPacket {
            src_mac,
            dst_mac,
            ether_type,
            src_ip,
            dst_ip,
            ip_version,
            ip_protocol,
            src_port,
            dst_port,
        }
    }
}

/// Whether a filter's field equality holds of a packet.
pub open spec fn spec_matches(f: Filter, p: FirewallPacket) -> bool {
    match f {
        Filter::SrcMacAddress(mac) => p.src_mac == mac,
        Filter::DstMacAddress(mac) => p.dst_mac == mac,
        Filter::EtherType(ether_type) => p.ether_type.0 == ether_type,
        Filter::SrcIpAddress(ip) => p.src_ip == ip,
        Filter::DstIpAddress(ip) => p.dst_ip == ip,
        Filter::IpProtocol(protocol) => p.ip_protocol.0 == protocol,
        Filter::SrcPort(port) => p.src_port == port,
        Filter::DstPort(port) => p.dst_port == port,
    }
}

/// A filter with the priority it was registered under.
#[derive(Debug, Clone, Copy)]
pub struct FirewallRule {
    pub filter: Filter,
    pub priority: u8,
}

/// Whether some rule in the sequence matches the packet.
pub open spec fn spec_any_match(rules: Seq<FirewallRule>, p: FirewallPacket) -> bool {
    exists|i: int| 0 <= i < rules.len() && spec_matches(rules[i].filter, p)
}

/// The engine's disposition: under a whitelist a packet is allowed
/// exactly when some rule matches it; under a blacklist exactly when no
/// rule does.
pub open spec fn spec_allows(policy: Policy, rules: Seq<FirewallRule>, p: FirewallPacket) -> bool {
    match policy {
        Policy::Whitelist => spec_any_match(rules, p),
        Policy::Blacklist => !spec_any_match(rules, p),
    }
}

/// A priority-keyed rule set with one disposition policy.  Rules are
/// unique by filter; re-adding a filter overwrites its priority.
#[derive(Debug)]
pub struct IpFirewall {
    rules: Vec<FirewallRule>,
    policy: Policy,
}

impl IpFirewall {
    /// No two rules share a filter.
    pub open spec fn wf(&self) -> bool {
        forall|i: int, j: int|
            0 <= i < j < self.rules().len() ==> self.rules()[i].filter != self.rules()[j].filter
    }

    pub closed spec fn rules(&self) -> Seq<FirewallRule> {
        self.rules@
    }

    pub closed spec fn spec_policy(&self) -> Policy {
        self.policy
    }

    pub fn new(policy: Policy) -> (r: Self)
        ensures
            r.wf(),
            r.rules().len() == 0,
            r.spec_policy() == policy,
    {
        Self { rules: Vec::new(), policy }
    }

    pub fn policy(&self) -> (r: Policy)
        ensures
            r == self.spec_policy(),
    {
        self.policy
    }

    /// The number of rules held.
    pub fn rule_count(&self) -> (n: usize)
        ensures
            n == self.rules().len(),
    {
        self.rules.len()
    }

    /// Registers `filter` at `priority`.  A rule with the same filter is
    /// replaced in place; otherwise the rule is appended.  What the
    /// engine matches afterwards is what it matched before, plus
    /// whatever `filter` matches.
    pub fn add_rule(&mut self, filter: Filter, priority: u8)
        requires
            old(self).wf(),
        ensures
            final(self).wf(),
            final(self).spec_policy() == old(self).spec_policy(),
            forall|p: FirewallPacket|
                #[trigger] spec_any_match(final(self).rules(), p) == (spec_any_match(
                    old(self).rules(),
                    p,
                ) || spec_matches(filter, p)),
            final(self).rules().len() <= old(self).rules().len() + 1,
    {
        let ghost old_rules = self.rules@;
        let mut i: usize = 0;
        while i < self.rules.len()
            invariant
                old(self).wf(),
                old_rules == old(self).rules(),
                self.policy == old(self).spec_policy(),
                self.rules@ == old_rules,
                i <= old_rules.len(),
                forall|j: int| 0 <= j < i ==> old_rules[j].filter != filter,
            decreases old_rules.len() - i,
        {
            if self.rules[i].filter == filter {
                self.rules[i] = FirewallRule { filter, priority };
                proof {
                    assert(self.rules@ =~= old_rules.update(i as int, FirewallRule { filter, priority }));
                    assert forall|a: int, b: int|
                        0 <= a < b < self.rules@.len() implies self.rules@[a].filter
                        != self.rules@[b].filter by {
                        assert(self.rules@[a].filter == old_rules[a].filter);
                        assert(self.rules@[b].filter == old_rules[b].filter);
                    }
                    assert forall|p: FirewallPacket|
                        spec_any_match(self.rules@, p) == (spec_any_match(old_rules, p)
                            || spec_matches(filter, p)) by {
                        if spec_any_match(self.rules@, p) {
                            let k = choose|k: int|
                                0 <= k < self.rules@.len() && spec_matches(
                                    self.rules@[k].filter,
                                    p,
                                );
                            if k == i {
                                assert(spec_matches(filter, p));
                            } else {
                                assert(spec_matches(old_rules[k].filter, p));
                            }
                        }
                        if spec_any_match(old_rules, p) {
                            let k = choose|k: int|
                                0 <= k < old_rules.len() && spec_matches(old_rules[k].filter, p);
                            if k == i {
                                assert(old_rules[k].filter == filter);
                                assert(spec_matches(self.rules@[k].filter, p));
                            } else {
                                assert(spec_matches(self.rules@[k].filter, p));
                            }
                        }
                        if spec_matches(filter, p) {
                            assert(spec_matches(self.rules@[i as int].filter, p));
                        }
                    }
                }
                return;
            }
            i = i + 1;
        }
        self.rules.push(FirewallRule { filter, priority });
        proof {
            assert(self.rules@ =~= old_rules.push(FirewallRule { filter, priority }));
            assert forall|p: FirewallPacket|
                spec_any_match(self.rules@, p) == (spec_any_match(old_rules, p) || spec_matches(
                    filter,
                    p,
                )) by {
                if spec_any_match(self.rules@, p) {
                    let k = choose|k: int|
                        0 <= k < self.rules@.len() && spec_matches(self.rules@[k].filter, p);
                    if k < old_rules.len() {
                        assert(spec_matches(old_rules[k].filter, p));
                    } else {
                        assert(spec_matches(filter, p));
                    }
                }
                if spec_any_match(old_rules, p) {
                    let k = choose|k: int|
                        0 <= k < old_rules.len() && spec_matches(old_rules[k].filter, p);
                    assert(spec_matches(self.rules@[k].filter, p));
                }
                if spec_matches(filter, p) {
                    assert(spec_matches(self.rules@[old_rules.len() as int].filter, p));
                }
            }
        }
    }

    /// Whether a packet is allowed; see `spec_allows`.  The walk only
    /// needs to learn whether any rule matched: under the single policy
    /// the highest-priority matching rule carries the same disposition
    /// as any other match.
    pub fn check(&self, packet: &FirewallPacket) -> (allow: bool)
        ensures
            allow == spec_allows(self.spec_policy(), self.rules(), *packet),
    {
        let mut matched = false;

        let mut i: usize = 0;
        while i < self.rules.len()
            invariant
                i <= self.rules@.len(),
                matched == spec_any_match(self.rules@.take(i as int), *packet),
            decreases self.rules@.len() - i,
        {
            let rule = &self.rules[i];
            let rule_matches = match rule.filter {
                Filter::SrcMacAddress(mac) => packet.src_mac == mac,
                Filter::DstMacAddress(mac) => packet.dst_mac == mac,
                Filter::EtherType(ether_type) => packet.ether_type.value() == ether_type,
                Filter::SrcIpAddress(ip) => packet.src_ip == ip,
                Filter::DstIpAddress(ip) => packet.dst_ip == ip,
                Filter::IpProtocol(protocol) => packet.ip_protocol.value() == protocol,
                Filter::SrcPort(port) => packet.src_port == port,
                Filter::DstPort(port) => packet.dst_port == port,
            };

            proof {
                assert(self.rules@.take(i + 1).drop_last() =~= self.rules@.take(i as int));
                assert(self.rules@.take(i + 1).last() == self.rules@[i as int]);
                if rule_matches {
                    assert(spec_matches(self.rules@[i as int].filter, *packet));
                    assert(spec_any_match(self.rules@.take(i + 1), *packet));
                } else {
                    assert(!spec_matches(self.rules@[i as int].filter, *packet));
                    if spec_any_match(self.rules@.take(i + 1), *packet) {
                        let k = choose|k: int|
                            0 <= k < i + 1 && #[trigger] spec_matches(
                                self.rules@.take(i + 1)[k].filter,
                                *packet,
                            );
                        if k < i {
                            assert(spec_matches(self.rules@.take(i as int)[k].filter, *packet));
                        }
                    }
                }
            }

            if rule_matches {
                matched = true;
            }
            i = i + 1;
        }

        proof {
            assert(self.rules@.take(self.rules@.len() as int) =~= self.rules@);
        }

        match self.policy {
            Policy::Whitelist => matched,
            Policy::Blacklist => !matched,
        }
    }
}

/// The disposition never depends on the priorities: two rule sets with
/// the same policy whose filters match the same packets decide every
/// packet alike.
pub proof fn lemma_priority_irrelevant(fw1: IpFirewall, fw2: IpFirewall, p: FirewallPacket)
    requires
        fw1.spec_policy() == fw2.spec_policy(),
        fw1.rules().len() == fw2.rules().len(),
        forall|i: int|
            0 <= i < fw1.rules().len() ==> #[trigger] fw1.rules()[i].filter
                == fw2.rules()[i].filter,
    ensures
        spec_allows(fw1.spec_policy(), fw1.rules(), p) == spec_allows(
            fw2.spec_policy(),
            fw2.rules(),
            p,
        ),
{
    assert forall|k: int|
        0 <= k < fw1.rules().len() && spec_matches(fw1.rules()[k].filter, p) implies spec_matches(
        fw2.rules()[k].filter,
        p,
    ) by {
        assert(fw1.rules()[k].filter == fw2.rules()[k].filter);
    }
    assert forall|k: int|
        0 <= k < fw2.rules().len() && spec_matches(fw2.rules()[k].filter, p) implies spec_matches(
        fw1.rules()[k].filter,
        p,
    ) by {
        assert(fw1.rules()[k].filter == fw2.rules()[k].filter);
    }
    assert(spec_any_match(fw1.rules(), p) == spec_any_match(fw2.rules(), p));
}

} // verus!
