//! The built-in access control plugin and the state it keeps.
use vstd::prelude::*;
use std::collections::HashMap;
use crate::security::access_control::{DomainRule, PermissionsHandle, SecurityError, SecurityResult};

pub mod participant_access_control;

verus! {

broadcast use vstd::std_specs::hash::group_hash_axioms;

/// The first version of the built-in access control plugin; it carries no
/// state that its operations use.
pub struct AccessControlBuiltIn {
    state: String,
}

/// The built-in access control plugin: it hands out permissions handles and
/// keeps the domain rule under which each handle's participant stands.
pub struct AccessControlBuiltin {
    domain_rules_: HashMap<PermissionsHandle, DomainRule>,
    permissions_handle_counter_: u32,
}

impl AccessControlBuiltin {
    /// The domain rule of each permissions handle that has one.
    pub closed spec fn domain_rules(&self) -> Map<PermissionsHandle, DomainRule> {
        self.domain_rules_@
    }

    /// The last permissions handle handed out (0 before the first).
    pub closed spec fn last_handle(&self) -> u32 {
        self.permissions_handle_counter_
    }

    /// A plugin that has handed out no handle and knows no domain rule.
    pub fn new() -> (plugin: AccessControlBuiltin)
        ensures
            plugin.domain_rules() == Map::<PermissionsHandle, DomainRule>::empty(),
            plugin.last_handle() == 0,
    {
        AccessControlBuiltin { domain_rules_: HashMap::new(), permissions_handle_counter_: 0 }
    }

    /// Records the domain rule under which the participant of
    /// `permissions_handle` stands.
    pub fn insert_domain_rule(&mut self, permissions_handle: PermissionsHandle, domain_rule: DomainRule)
        ensures
            final(self).domain_rules() == old(self).domain_rules().insert(permissions_handle, domain_rule),
            final(self).last_handle() == old(self).last_handle(),
    {
        self.domain_rules_.insert(permissions_handle, domain_rule);
    }

    /// Hands out the next permissions handle.
    fn generate_permissions_handle_(&mut self) -> (handle: PermissionsHandle)
        requires
            old(self).last_handle() < u32::MAX,
        ensures
            handle == old(self).last_handle() + 1,
            final(self).last_handle() == handle,
            final(self).domain_rules() == old(self).domain_rules(),
    {
        self.permissions_handle_counter_ = self.permissions_handle_counter_ + 1;
        self.permissions_handle_counter_
    }

    /// The domain rule of `permissions_handle`, or an error if it has none.
    fn get_domain_rule_(&self, permissions_handle: &PermissionsHandle) -> (r: SecurityResult<&DomainRule>)
        ensures
            match r {
                Ok(rule) => self.domain_rules().contains_key(*permissions_handle)
                    && *rule == self.domain_rules()[*permissions_handle],
                Err(_) => !self.domain_rules().contains_key(*permissions_handle),
            },
    {
        match self.domain_rules_.get(permissions_handle) {
            Some(rule) => Ok(rule),
            None => Err(SecurityError { msg: String::from_str("Could not find a domain rule for the PermissionsHandle") }),
        }
    }
}

} // verus!
