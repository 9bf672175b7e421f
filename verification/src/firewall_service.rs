//! The swappable firewall holder consulted on every captured packet.
//!
//! Until a rule set has been installed every packet is denied: the
//! service is closed on unknown, never fail-open.  The process shares one
//! instance across tasks under a many-readers lock; installation replaces
//! the whole set atomically, so a check sees either the old or the new
//! set in full.

use vstd::prelude::*;

use crate::db_service::{
    spec_policies_consistent, spec_resolved_policy, spec_rows_match, DbService,
    FirewallSettingRow,
};
use crate::errors::ServiceError;
use crate::firewall::{spec_allows, FirewallPacket, IpFirewall, Policy};

verus! {

pub struct FirewallService {
    firewall: Option<IpFirewall>,
}

impl FirewallService {
    pub closed spec fn spec_firewall(&self) -> Option<IpFirewall> {
        self.firewall
    }

    /// What `check_packet` answers: the installed engine's disposition,
    /// and a deny while nothing is installed.
    pub open spec fn spec_check(&self, p: FirewallPacket) -> bool {
        match self.spec_firewall() {
            Some(fw) => spec_allows(fw.spec_policy(), fw.rules(), p),
            None => false,
        }
    }

    /// A service with no rule set installed yet.
    pub fn new() -> (r: FirewallService)
        ensures
            r.spec_firewall() is None,
    {
        FirewallService { firewall: None }
    }

    /// Atomically replaces the rule set in use.
    pub fn install(&mut self, firewall: IpFirewall)
        ensures
            final(self).spec_firewall() == Some(firewall),
    {
        self.firewall = Some(firewall);
    }

    /// Rebuilds the rule set from the stored settings rows and installs
    /// it.  Mixed whitelist and blacklist rows fail the initialization
    /// with the policy conflict, and nothing is installed; afterwards a
    /// check answers exactly as the rows describe, under the resolved
    /// policy.
    pub fn initialize(&mut self, rows: &Vec<FirewallSettingRow>) -> (r: Result<(), ServiceError>)
        ensures
            spec_policies_consistent(rows@) <==> r is Ok,
            r matches Err(e) ==> (e is InconsistentPolicyError && *final(self) == *old(self)),
            r is Ok ==> (forall|p: FirewallPacket|
                #[trigger] final(self).spec_check(p) == (match spec_resolved_policy(rows@) {
                    Policy::Whitelist => spec_rows_match(rows@, p),
                    Policy::Blacklist => !spec_rows_match(rows@, p),
                })),
    {
        match DbService::load_firewall_settings(rows) {
            Ok(firewall) => {
                self.install(firewall);
                Ok(())
            },
            Err(e) => Err(e),
        }
    }

    /// The engine's disposition for `packet`, a deny when uninitialized.
    pub fn check_packet(&self, packet: &FirewallPacket) -> (allow: bool)
        ensures
            allow == self.spec_check(*packet),
    {
        match &self.firewall {
            Some(firewall) => firewall.check(packet),
            None => false,
        }
    }
}

} // verus!
