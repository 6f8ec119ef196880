//! Access control: permissions handles, domain rules, and the security
//! attributes of participants.
use vstd::prelude::*;

pub mod access_control_builtin;

verus! {

/// Handle of a participant's identity.
pub type IdentityHandle = u32;

/// Handle of the permissions granted to a participant.
pub type PermissionsHandle = u32;

/// The error a security operation reports.
#[derive(Debug, Clone)]
pub struct SecurityError {
    pub msg: String,
}

/// The result of a security operation.
pub type SecurityResult<T> = Result<T, SecurityError>;

/// How a domain protects a kind of traffic.
#[derive(Clone, Copy, Debug, PartialEq, Eq, Structural)]
pub enum ProtectionKind {
    NoProtection,
    Sign,
    Encrypt,
    SignWithOriginAuthentication,
    EncryptWithOriginAuthentication,
}

/// Whether a protection kind protects, encrypts, and authenticates the origin.
pub open spec fn spec_security_attributes_format(kind: ProtectionKind) -> (bool, bool, bool) {
    match kind {
        ProtectionKind::NoProtection => (false, false, false),
        ProtectionKind::Sign => (true, false, false),
        ProtectionKind::Encrypt => (true, true, false),
        ProtectionKind::SignWithOriginAuthentication => (true, false, true),
        ProtectionKind::EncryptWithOriginAuthentication => (true, true, true),
    }
}

/// A protection kind protects exactly when it is not `NoProtection`,
/// encrypts exactly for the two `Encrypt` kinds, and authenticates the
/// origin exactly for the two `WithOriginAuthentication` kinds; a kind that
/// does not protect neither encrypts nor authenticates.
pub proof fn lemma_security_attributes_format(kind: ProtectionKind)
    ensures
        ({
            let (protected, encrypted, authenticated) = spec_security_attributes_format(kind);
            &&& protected == (kind != ProtectionKind::NoProtection)
            &&& encrypted == (kind == ProtectionKind::Encrypt || kind == ProtectionKind::EncryptWithOriginAuthentication)
            &&& authenticated == (kind == ProtectionKind::SignWithOriginAuthentication
                || kind == ProtectionKind::EncryptWithOriginAuthentication)
            &&& !protected ==> !encrypted && !authenticated
        }),
{
}

impl ProtectionKind {
    /// Whether this kind protects, encrypts, and authenticates the origin.
    pub fn to_security_attributes_format(&self) -> (r: (bool, bool, bool))
        ensures
            r == spec_security_attributes_format(*self),
    {
        match self {
            ProtectionKind::NoProtection => (false, false, false),
            ProtectionKind::Sign => (true, false, false),
            ProtectionKind::Encrypt => (true, true, false),
            ProtectionKind::SignWithOriginAuthentication => (true, false, true),
            ProtectionKind::EncryptWithOriginAuthentication => (true, true, true),
        }
    }
}

/// The rule that a domain governance document sets for a domain.
#[derive(Clone, Copy, Debug, PartialEq, Eq, Structural)]
pub struct DomainRule {
    pub allow_unauthenticated_participants: bool,
    pub enable_join_access_control: bool,
    pub discovery_protection_kind: ProtectionKind,
    pub liveliness_protection_kind: ProtectionKind,
    pub rtps_protection_kind: ProtectionKind,
}

/// Security attributes of a participant that only the built-in plugins read.
#[derive(Clone, Copy, Debug, PartialEq, Eq, Structural)]
pub struct BuiltinPluginParticipantSecurityAttributes {
    pub is_rtps_encrypted: bool,
    pub is_discovery_encrypted: bool,
    pub is_liveliness_encrypted: bool,
    pub is_rtps_origin_authenticated: bool,
    pub is_discovery_origin_authenticated: bool,
    pub is_liveliness_origin_authenticated: bool,
}

/// A name-value property.
#[derive(Clone, Debug)]
pub struct Property {
    pub name: String,
    pub value: String,
    pub propagate: bool,
}

/// The security attributes of a participant.
#[derive(Clone, Debug)]
pub struct ParticipantSecurityAttributes {
    pub allow_unauthenticated_participants: bool,
    pub is_access_protected: bool,
    pub is_rtps_protected: bool,
    pub is_discovery_protected: bool,
    pub is_liveliness_protected: bool,
    pub plugin_participant_attributes: BuiltinPluginParticipantSecurityAttributes,
    pub ac_participant_properties: Vec<Property>,
}

/// The plugin attributes with every flag cleared.
pub open spec fn spec_no_plugin_attributes() -> BuiltinPluginParticipantSecurityAttributes {
    BuiltinPluginParticipantSecurityAttributes {
        is_rtps_encrypted: false,
        is_discovery_encrypted: false,
        is_liveliness_encrypted: false,
        is_rtps_origin_authenticated: false,
        is_discovery_origin_authenticated: false,
        is_liveliness_origin_authenticated: false,
    }
}

/// The attributes that a participant under `rule` has; with no rule, none:
/// every flag cleared. Participant properties are empty either way.
pub open spec fn spec_participant_attributes(
    attributes: ParticipantSecurityAttributes,
    rule: Option<DomainRule>,
) -> bool {
    &&& attributes.ac_participant_properties@.len() == 0
    &&& match rule {
        Some(r) => {
            let (rtps_protected, rtps_encrypted, rtps_authenticated) = spec_security_attributes_format(r.rtps_protection_kind);
            let (discovery_protected, discovery_encrypted, discovery_authenticated) = spec_security_attributes_format(r.discovery_protection_kind);
            let (liveliness_protected, liveliness_encrypted, liveliness_authenticated) = spec_security_attributes_format(r.liveliness_protection_kind);
            &&& attributes.allow_unauthenticated_participants == r.allow_unauthenticated_participants
            &&& attributes.is_access_protected == r.enable_join_access_control
            &&& attributes.is_rtps_protected == rtps_protected
            &&& attributes.is_discovery_protected == discovery_protected
            &&& attributes.is_liveliness_protected == liveliness_protected
            &&& attributes.plugin_participant_attributes == BuiltinPluginParticipantSecurityAttributes {
                is_rtps_encrypted: rtps_encrypted,
                is_discovery_encrypted: discovery_encrypted,
                is_liveliness_encrypted: liveliness_encrypted,
                is_rtps_origin_authenticated: rtps_authenticated,
                is_discovery_origin_authenticated: discovery_authenticated,
                is_liveliness_origin_authenticated: liveliness_authenticated,
            }
        },
        None => {
            &&& !attributes.allow_unauthenticated_participants
            &&& !attributes.is_access_protected
            &&& !attributes.is_rtps_protected
            &&& !attributes.is_discovery_protected
            &&& !attributes.is_liveliness_protected
            &&& attributes.plugin_participant_attributes == spec_no_plugin_attributes()
        },
    }
}

impl ParticipantSecurityAttributes {
    /// The attributes of a participant that nothing protects.
    pub fn empty() -> (attributes: ParticipantSecurityAttributes)
        ensures
            spec_participant_attributes(attributes, None),
    {
        ParticipantSecurityAttributes {
            allow_unauthenticated_participants: false,
            is_access_protected: false,
            is_rtps_protected: false,
            is_discovery_protected: false,
            is_liveliness_protected: false,
            plugin_participant_attributes: BuiltinPluginParticipantSecurityAttributes {
                is_rtps_encrypted: false,
                is_discovery_encrypted: false,
                is_liveliness_encrypted: false,
                is_rtps_origin_authenticated: false,
                is_discovery_origin_authenticated: false,
                is_liveliness_origin_authenticated: false,
            },
            ac_participant_properties: Vec::new(),
        }
    }
}

/// The permissions token that the built-in plugin hands out.
#[derive(Clone, Debug)]
pub struct BuiltinPermissionsToken {
    pub permissions_ca_subject_name: Option<String>,
    pub permissions_ca_algorithm: Option<String>,
}

/// The permissions credential token that the built-in plugin hands out.
#[derive(Clone, Debug)]
pub struct BuiltinPermissionsCredentialToken {
    pub permissions_document: String,
}

} // verus!
