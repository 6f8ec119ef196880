//! What the built-in plugin answers about participants: their permissions
//! handles, whether they may join, their tokens and security attributes.
use vstd::prelude::*;
use crate::security::access_control::access_control_builtin::AccessControlBuiltin;
use crate::security::access_control::{
    spec_participant_attributes, BuiltinPermissionsCredentialToken, BuiltinPermissionsToken,
    BuiltinPluginParticipantSecurityAttributes, IdentityHandle, ParticipantSecurityAttributes,
    PermissionsHandle, SecurityResult,
};

verus! {

impl AccessControlBuiltin {
    /// Whether the participant of `permissions_handle` may join domain
    /// `domain_id`: the plugin lets every participant join.
    pub fn check_participant(&self, permissions_handle: PermissionsHandle, domain_id: u16) -> (r: SecurityResult<()>)
        ensures
            r is Ok,
    {
        Ok(())
    }

    /// Validates the permissions of the local participant of
    /// `identity_handle` and hands out a new permissions handle for them.
    pub fn validate_local_permissions(
        &mut self,
        identity_handle: IdentityHandle,
        domain_id: u16,
    ) -> (r: SecurityResult<PermissionsHandle>)
        requires
            old(self).last_handle() < u32::MAX,
        ensures
            r matches Ok(handle) && handle == old(self).last_handle() + 1,
            final(self).last_handle() == old(self).last_handle() + 1,
            final(self).domain_rules() == old(self).domain_rules(),
    {
        Ok(self.generate_permissions_handle_())
    }

    /// Validates the permissions of a remote participant and hands out a new
    /// permissions handle for them.
    pub fn validate_remote_permissions(
        &mut self,
        local_identity_handle: IdentityHandle,
        remote_identity_handle: IdentityHandle,
    ) -> (r: SecurityResult<PermissionsHandle>)
        requires
            old(self).last_handle() < u32::MAX,
        ensures
            r matches Ok(handle) && handle == old(self).last_handle() + 1,
            final(self).last_handle() == old(self).last_handle() + 1,
            final(self).domain_rules() == old(self).domain_rules(),
    {
        Ok(self.generate_permissions_handle_())
    }

    /// Whether the local participant may be created: as `check_participant`.
    pub fn check_create_participant(&self, permissions_handle: PermissionsHandle, domain_id: u16) -> (r: SecurityResult<()>)
        ensures
            r is Ok,
    {
        self.check_participant(permissions_handle, domain_id)
    }

    /// Whether a remote participant may join: as `check_participant`.
    pub fn check_remote_participant(&self, permissions_handle: PermissionsHandle, domain_id: u16) -> (r: SecurityResult<()>)
        ensures
            r is Ok,
    {
        self.check_participant(permissions_handle, domain_id)
    }

    /// The permissions token of `handle`: one that names no certificate
    /// authority subject and no algorithm.
    pub fn get_permissions_token(&self, handle: PermissionsHandle) -> (r: SecurityResult<BuiltinPermissionsToken>)
        ensures
            r matches Ok(token) && token.permissions_ca_subject_name is None
                && token.permissions_ca_algorithm is None,
    {
        Ok(BuiltinPermissionsToken { permissions_ca_subject_name: None, permissions_ca_algorithm: None })
    }

    /// The permissions credential token of `handle`, whose document is a
    /// fixed placeholder text.
    pub fn get_permissions_credential_token(&self, handle: PermissionsHandle)
        -> (r: SecurityResult<BuiltinPermissionsCredentialToken>)
        ensures
            r matches Ok(token) && token.permissions_document@ == "TODO: remove after testing"@,
    {
        Ok(BuiltinPermissionsCredentialToken { permissions_document: String::from_str("TODO: remove after testing") })
    }

    /// The security attributes of the participant of `permissions_handle`,
    /// read from its domain rule; with no rule, the attributes of a
    /// participant that nothing protects.
    pub fn get_participant_sec_attributes(&self, permissions_handle: PermissionsHandle)
        -> (r: SecurityResult<ParticipantSecurityAttributes>)
        ensures
            r matches Ok(attributes) && spec_participant_attributes(
                attributes,
                if self.domain_rules().contains_key(permissions_handle) {
                    Some(self.domain_rules()[permissions_handle])
                } else {
                    None
                },
            ),
    {
        match self.get_domain_rule_(&permissions_handle) {
            Ok(rule) => {
                let (is_rtps_protected, is_rtps_encrypted, is_rtps_origin_authenticated) =
                    rule.rtps_protection_kind.to_security_attributes_format();
                let (is_discovery_protected, is_discovery_encrypted, is_discovery_origin_authenticated) =
                    rule.discovery_protection_kind.to_security_attributes_format();
                let (is_liveliness_protected, is_liveliness_encrypted, is_liveliness_origin_authenticated) =
                    rule.liveliness_protection_kind.to_security_attributes_format();
                Ok(ParticipantSecurityAttributes {
                    allow_unauthenticated_participants: rule.allow_unauthenticated_participants,
                    is_access_protected: rule.enable_join_access_control,
                    is_discovery_protected,
                    is_liveliness_protected,
                    is_rtps_protected,
                    plugin_participant_attributes: BuiltinPluginParticipantSecurityAttributes {
                        is_discovery_encrypted,
                        is_discovery_origin_authenticated,
                        is_liveliness_encrypted,
                        is_liveliness_origin_authenticated,
                        is_rtps_encrypted,
                        is_rtps_origin_authenticated,
                    },
                    ac_participant_properties: Vec::new(),
                })
            },
            Err(_) => Ok(ParticipantSecurityAttributes::empty()),
        }
    }
}


} // verus!
