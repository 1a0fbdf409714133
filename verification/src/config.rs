//! Conversation configuration.
//!
//! Use [`MlsConversationConfiguration`] when creating a conversation and
//! [`MlsCustomConfiguration`] when joining one. The settings are plain
//! values; turning them into the group engine's own configuration is left to
//! the caller.

use vstd::prelude::*;
use crate::central::MlsCentral;
use crate::error::CryptoError;
use crate::x509::copy_bytes;

verus! {

/// How many past epochs a group keeps the means to decrypt messages of.
pub const MAX_PAST_EPOCHS: usize = 3;

/// Window for which decryption secrets are kept within an epoch. Use this with
/// caution since it affects forward secrecy within an epoch. It is for a
/// delivery service that cannot guarantee the order of application messages.
pub const OUT_OF_ORDER_TOLERANCE: u32 = 2;

/// How many application messages can be skipped. It is for a delivery service
/// that can drop application messages.
pub const MAXIMUM_FORWARD_DISTANCE: u32 = 1000;

/// Whether handshake messages travel encrypted.
#[derive(Debug, Clone, Copy, PartialEq, Eq, Structural)]
pub enum MlsWirePolicy {
    /// Handshake messages are never encrypted.
    Plaintext,
    /// Handshake messages are always encrypted.
    Ciphertext,
}

impl MlsWirePolicy {
    /// The number under which a policy is stored and exchanged.
    pub open spec fn tag(self) -> u8 {
        match self {
            MlsWirePolicy::Plaintext => 1,
            MlsWirePolicy::Ciphertext => 2,
        }
    }

    /// The policy's stable number: 1 or 2.
    pub fn as_u8(&self) -> (tag: u8)
        ensures
            tag == self.tag(),
    {
        match self {
            MlsWirePolicy::Plaintext => 1,
            MlsWirePolicy::Ciphertext => 2,
        }
    }

    /// The policy stored under `tag`, if `tag` is one of the two numbers.
    pub fn from_u8(tag: u8) -> (policy: Option<MlsWirePolicy>)
        ensures
            match policy {
                Some(p) => p.tag() == tag,
                None => tag != 1 && tag != 2,
            },
    {
        if tag == 1 {
            Some(MlsWirePolicy::Plaintext)
        } else if tag == 2 {
            Some(MlsWirePolicy::Ciphertext)
        } else {
            None
        }
    }
}

impl Default for MlsWirePolicy {
    fn default() -> (policy: MlsWirePolicy)
        ensures
            policy == MlsWirePolicy::Plaintext,
    {
        MlsWirePolicy::Plaintext
    }
}

/// The configuration parameters of a conversation that the group engine does
/// not handle itself.
#[derive(Debug, Clone)]
pub struct MlsCustomConfiguration {
    /// Duration after which a self-update commit is forced. Not in use yet.
    pub key_rotation_span: Option<std::time::Duration>,
    /// Defines if handshake messages are encrypted or not.
    pub wire_policy: MlsWirePolicy,
    /// Window for which decryption secrets are kept within an epoch.
    pub out_of_order_tolerance: u32,
    /// How many application messages can be skipped.
    pub maximum_forward_distance: u32,
}

impl Default for MlsCustomConfiguration {
    fn default() -> (config: MlsCustomConfiguration)
        ensures
            config.wire_policy == MlsWirePolicy::Plaintext,
            config.key_rotation_span is None,
            config.out_of_order_tolerance == OUT_OF_ORDER_TOLERANCE,
            config.maximum_forward_distance == MAXIMUM_FORWARD_DISTANCE,
    {
        MlsCustomConfiguration {
            wire_policy: MlsWirePolicy::Plaintext,
            key_rotation_span: None,
            out_of_order_tolerance: OUT_OF_ORDER_TOLERANCE,
            maximum_forward_distance: MAXIMUM_FORWARD_DISTANCE,
        }
    }
}

/// The identity under which the delivery service sends to a group.
pub const WIRE_SERVER_IDENTITY: &'static str = "wire-server";

/// The size that messages are padded to a multiple of.
pub const PADDING_SIZE: usize = 128;

/// How many resumption secrets a group keeps. Not used at the moment.
pub const NUMBER_RESUMPTION_PSK: usize = 1;

/// The versions of the group protocol.
#[derive(Debug, Clone, Copy, PartialEq, Eq, Structural)]
pub enum ProtocolVersion {
    Mls10,
}

/// The kinds of credential a group can ask its members for.
#[derive(Debug, Clone, Copy, PartialEq, Eq, Structural)]
pub enum CredentialType {
    Basic,
    X509,
}

/// The ciphersuites that conversations can use.
#[allow(non_camel_case_types)]
#[derive(Debug, Clone, Copy, PartialEq, Eq, Structural)]
pub enum Ciphersuite {
    MLS_128_DHKEMX25519_AES128GCM_SHA256_Ed25519,
    MLS_128_DHKEMP256_AES128GCM_SHA256_P256,
    MLS_128_DHKEMX25519_CHACHA20POLY1305_SHA256_Ed25519,
    MLS_256_DHKEMP384_AES256GCM_SHA384_P384,
    MLS_256_DHKEMP521_AES256GCM_SHA512_P521,
    MLS_128_X25519KYBER768DRAFT00_AES128GCM_SHA256_Ed25519,
}

/// The protocol version of every group.
pub open spec fn default_protocol_version() -> ProtocolVersion {
    ProtocolVersion::Mls10
}

/// The credential kinds that are supported: all of them, until further
/// notice.
pub open spec fn default_supported_credentials() -> Seq<CredentialType> {
    seq![CredentialType::Basic, CredentialType::X509]
}

/// The ciphersuites that are supported: conservative sensible defaults.
pub open spec fn default_supported_ciphersuites() -> Seq<Ciphersuite> {
    seq![
        Ciphersuite::MLS_128_DHKEMX25519_AES128GCM_SHA256_Ed25519,
        Ciphersuite::MLS_128_DHKEMP256_AES128GCM_SHA256_P256,
        Ciphersuite::MLS_128_DHKEMX25519_CHACHA20POLY1305_SHA256_Ed25519,
        Ciphersuite::MLS_256_DHKEMP384_AES256GCM_SHA384_P384,
        Ciphersuite::MLS_256_DHKEMP521_AES256GCM_SHA512_P521,
        Ciphersuite::MLS_128_X25519KYBER768DRAFT00_AES128GCM_SHA256_Ed25519,
    ]
}

/// What a member can do, as its leaf node announces it. An empty list of
/// extensions or proposals stands for the ones that every member knows.
#[derive(Debug)]
pub struct Capabilities {
    pub versions: Vec<ProtocolVersion>,
    pub ciphersuites: Vec<Ciphersuite>,
    pub extensions: Vec<u16>,
    pub proposals: Vec<u16>,
    pub credentials: Vec<CredentialType>,
}

/// What a group requires of every member.
#[derive(Debug)]
pub struct RequiredCapabilities {
    pub extension_types: Vec<u16>,
    pub proposal_types: Vec<u16>,
    pub credential_types: Vec<CredentialType>,
}

/// A party outside the group that may send proposals to it: its public
/// signature key and the identity of its basic credential.
#[derive(Debug)]
pub struct ExternalSender {
    pub signature_key: Vec<u8>,
    pub identity: String,
}

/// An external sender as contracts see it: its key and its identity.
pub type ExternalSenderView = (Seq<u8>, Seq<char>);

/// The external senders that a list holds.
pub open spec fn senders_of(list: Seq<ExternalSender>) -> Seq<ExternalSenderView> {
    Seq::new(list.len(), |i: int| (list[i].signature_key@, list[i].identity@))
}

/// The configuration parameters for a group.
#[derive(Debug)]
pub struct MlsConversationConfiguration {
    /// The ciphersuite used in the group.
    pub ciphersuite: Ciphersuite,
    /// Delivery service public signature key and credential.
    pub external_senders: Vec<ExternalSender>,
    /// Implementation specific configuration.
    pub custom: MlsCustomConfiguration,
}

/// The settings of a group, for the group engine to be configured with.
#[derive(Debug)]
pub struct MlsGroupConfig {
    pub version: ProtocolVersion,
    pub ciphersuite: Ciphersuite,
    pub wire_policy: MlsWirePolicy,
    pub max_past_epochs: usize,
    pub padding_size: usize,
    pub number_of_resumption_psks: usize,
    pub leaf_capabilities: Capabilities,
    pub required_capabilities: RequiredCapabilities,
    pub out_of_order_tolerance: u32,
    pub maximum_forward_distance: u32,
    pub use_ratchet_tree_extension: bool,
    pub external_senders: Vec<ExternalSender>,
}

/// The supported credential kinds as a list.
fn supported_credentials() -> (kinds: Vec<CredentialType>)
    ensures
        kinds@ == default_supported_credentials(),
{
    let mut kinds: Vec<CredentialType> = Vec::new();
    kinds.push(CredentialType::Basic);
    kinds.push(CredentialType::X509);
    assert(kinds@ =~= default_supported_credentials());
    kinds
}

/// A copy of an external sender.
fn copy_sender(sender: &ExternalSender) -> (copy: ExternalSender)
    ensures
        copy.signature_key@ == sender.signature_key@,
        copy.identity@ == sender.identity@,
{
    ExternalSender {
        signature_key: copy_bytes(&sender.signature_key),
        identity: sender.identity.clone(),
    }
}

impl MlsConversationConfiguration {
    /// The settings of a group with this configuration: the configured
    /// ciphersuite, wire policy, ratchet tolerances and external senders
    /// beside the defaults of every group.
    pub fn as_openmls_default_configuration(&self) -> (config: Result<
        MlsGroupConfig,
        CryptoError,
    >)
        ensures
            config matches Ok(c) && {
                &&& c.version == default_protocol_version()
                &&& c.ciphersuite == self.ciphersuite
                &&& c.wire_policy == self.custom.wire_policy
                &&& c.max_past_epochs == MAX_PAST_EPOCHS
                &&& c.padding_size == PADDING_SIZE
                &&& c.number_of_resumption_psks == NUMBER_RESUMPTION_PSK
                &&& c.leaf_capabilities.versions@ == seq![default_protocol_version()]
                &&& c.leaf_capabilities.ciphersuites@ == default_supported_ciphersuites()
                &&& c.leaf_capabilities.extensions@.len() == 0
                &&& c.leaf_capabilities.proposals@.len() == 0
                &&& c.leaf_capabilities.credentials@ == default_supported_credentials()
                &&& c.required_capabilities.extension_types@.len() == 0
                &&& c.required_capabilities.proposal_types@.len() == 0
                &&& c.required_capabilities.credential_types@ == default_supported_credentials()
                &&& c.out_of_order_tolerance == self.custom.out_of_order_tolerance
                &&& c.maximum_forward_distance == self.custom.maximum_forward_distance
                &&& c.use_ratchet_tree_extension
                &&& senders_of(c.external_senders@) == senders_of(self.external_senders@)
            },
    {
        let mut external_senders: Vec<ExternalSender> = Vec::new();
        let mut i: usize = 0;
        while i < self.external_senders.len()
            invariant
                i <= self.external_senders@.len(),
                senders_of(external_senders@) == senders_of(self.external_senders@).subrange(
                    0,
                    i as int,
                ),
            decreases self.external_senders@.len() - i,
        {
            let ghost copied = senders_of(external_senders@);
            let ghost wanted = senders_of(self.external_senders@);
            external_senders.push(copy_sender(&self.external_senders[i]));
            assert(senders_of(external_senders@) =~= copied.push(wanted[i as int]));
            assert(wanted.subrange(0, i + 1) =~= wanted.subrange(0, i as int).push(
                wanted[i as int],
            ));
            i += 1;
        }
        assert(senders_of(self.external_senders@).subrange(0, i as int) == senders_of(
            self.external_senders@,
        ));
        Ok(
            MlsGroupConfig {
                version: ProtocolVersion::Mls10,
                ciphersuite: self.ciphersuite,
                wire_policy: self.custom.wire_policy,
                max_past_epochs: MAX_PAST_EPOCHS,
                padding_size: PADDING_SIZE,
                number_of_resumption_psks: NUMBER_RESUMPTION_PSK,
                leaf_capabilities: Self::default_leaf_capabilities(),
                required_capabilities: self.default_required_capabilities(),
                out_of_order_tolerance: self.custom.out_of_order_tolerance,
                maximum_forward_distance: self.custom.maximum_forward_distance,
                use_ratchet_tree_extension: true,
                external_senders,
            },
        )
    }

    /// Default capabilities for every generated key package: the one
    /// protocol version, every supported ciphersuite and credential kind, and
    /// no extension or proposal beyond the ones that every member knows.
    pub fn default_leaf_capabilities() -> (capabilities: Capabilities)
        ensures
            capabilities.versions@ == seq![default_protocol_version()],
            capabilities.ciphersuites@ == default_supported_ciphersuites(),
            capabilities.extensions@.len() == 0,
            capabilities.proposals@.len() == 0,
            capabilities.credentials@ == default_supported_credentials(),
    {
        let mut versions: Vec<ProtocolVersion> = Vec::new();
        versions.push(ProtocolVersion::Mls10);
        let mut ciphersuites: Vec<Ciphersuite> = Vec::new();
        ciphersuites.push(Ciphersuite::MLS_128_DHKEMX25519_AES128GCM_SHA256_Ed25519);
        ciphersuites.push(Ciphersuite::MLS_128_DHKEMP256_AES128GCM_SHA256_P256);
        ciphersuites.push(Ciphersuite::MLS_128_DHKEMX25519_CHACHA20POLY1305_SHA256_Ed25519);
        ciphersuites.push(Ciphersuite::MLS_256_DHKEMP384_AES256GCM_SHA384_P384);
        ciphersuites.push(Ciphersuite::MLS_256_DHKEMP521_AES256GCM_SHA512_P521);
        ciphersuites.push(Ciphersuite::MLS_128_X25519KYBER768DRAFT00_AES128GCM_SHA256_Ed25519);
        assert(versions@ =~= seq![default_protocol_version()]);
        assert(ciphersuites@ =~= default_supported_ciphersuites());
        Capabilities {
            versions,
            ciphersuites,
            extensions: Vec::new(),
            proposals: Vec::new(),
            credentials: supported_credentials(),
        }
    }

    /// What a group requires of its members: every supported credential
    /// kind, and no extension or proposal.
    pub fn default_required_capabilities(&self) -> (required: RequiredCapabilities)
        ensures
            required.extension_types@.len() == 0,
            required.proposal_types@.len() == 0,
            required.credential_types@ == default_supported_credentials(),
    {
        RequiredCapabilities {
            extension_types: Vec::new(),
            proposal_types: Vec::new(),
            credential_types: supported_credentials(),
        }
    }
}

/// A key that the delivery service supplied for an external sender, with
/// what was made of it: the public key read from it as a JSON Web Key, and
/// whether it is a valid raw public key for the signature scheme of the
/// group's ciphersuite.
#[derive(Debug)]
pub struct ExternalSenderKey {
    pub key: Vec<u8>,
    pub jwk: Result<Vec<u8>, CryptoError>,
    pub raw: Result<(), CryptoError>,
}

/// The signature key that a supplied key stands for: the one read from the
/// JSON Web Key where that could be parsed, else the key as it is where it
/// is a valid raw key, else the error of the raw key.
pub open spec fn signature_key_of(supplied: ExternalSenderKey) -> Result<Seq<u8>, CryptoError> {
    match supplied.jwk {
        Ok(public_key) => Ok(public_key@),
        Err(_) => match supplied.raw {
            Ok(_) => Ok(supplied.key@),
            Err(e) => Err(e),
        },
    }
}

/// Every supplied key stands for a signature key.
pub open spec fn all_usable(supplied: Seq<ExternalSenderKey>) -> bool {
    forall|i: int| 0 <= i < supplied.len() ==> signature_key_of(#[trigger] supplied[i]) is Ok
}

/// The key in place `i` is the first that stands for no signature key.
pub open spec fn first_unusable(supplied: Seq<ExternalSenderKey>, i: int) -> bool {
    &&& 0 <= i < supplied.len()
    &&& signature_key_of(supplied[i]) is Err
    &&& forall|j: int| 0 <= j < i ==> signature_key_of(#[trigger] supplied[j]) is Ok
}

/// The external senders that the supplied keys stand for, each under the
/// identity of the delivery service.
pub open spec fn external_senders_of(supplied: Seq<ExternalSenderKey>) -> Seq<ExternalSenderView> {
    Seq::new(
        supplied.len(),
        |i: int| (signature_key_of(supplied[i]).unwrap(), WIRE_SERVER_IDENTITY@),
    )
}

impl MlsCentral {
    /// Builds the external senders of a group from the keys that the
    /// delivery service supplied. A key is read as a JSON Web Key first and
    /// as a raw public key second. The first key that is neither makes the
    /// whole call fail with the error of the raw key, and the configuration
    /// stays as it was.
    pub fn set_raw_external_senders(
        &self,
        cfg: &mut MlsConversationConfiguration,
        external_senders: Vec<ExternalSenderKey>,
    ) -> (done: Result<(), CryptoError>)
        ensures
            final(cfg).ciphersuite == old(cfg).ciphersuite,
            final(cfg).custom == old(cfg).custom,
            match done {
                Ok(_) => all_usable(external_senders@) && senders_of(final(cfg).external_senders@)
                    == external_senders_of(external_senders@),
                Err(e) => final(cfg).external_senders == old(cfg).external_senders && exists|
                    i: int,
                |
                    #[trigger] first_unusable(external_senders@, i) && signature_key_of(
                        external_senders@[i],
                    ) == Err::<Seq<u8>, CryptoError>(e),
            },
    {
        let mut senders: Vec<ExternalSender> = Vec::new();
        let mut i: usize = 0;
        while i < external_senders.len()
            invariant
                i <= external_senders@.len(),
                all_usable(external_senders@.subrange(0, i as int)),
                senders_of(senders@) == external_senders_of(
                    external_senders@.subrange(0, i as int),
                ),
            decreases external_senders@.len() - i,
        {
            let supplied = &external_senders[i];
            let ghost before = external_senders@.subrange(0, i as int);
            let ghost next = external_senders@.subrange(0, i + 1);
            let signature_key = match &supplied.jwk {
                Ok(public_key) => copy_bytes(public_key),
                Err(_) => match supplied.raw {
                    Ok(_) => copy_bytes(&supplied.key),
                    Err(e) => {
                        proof {
                            assert forall|j: int| 0 <= j < i implies signature_key_of(
                                #[trigger] external_senders@[j],
                            ) is Ok by {
                                assert(before[j] == external_senders@[j]);
                            }
                            assert(first_unusable(external_senders@, i as int));
                        }
                        return Err(e);
                    },
                },
            };
            let ghost built = senders_of(senders@);
            let ghost key_view = signature_key@;
            senders.push(
                ExternalSender { signature_key, identity: String::from_str(WIRE_SERVER_IDENTITY) },
            );
            proof {
                assert(senders_of(senders@) =~= built.push((key_view, WIRE_SERVER_IDENTITY@)));
                assert(next[i as int] == external_senders@[i as int]);
                assert(signature_key_of(next[i as int]) == Ok::<Seq<u8>, CryptoError>(key_view));
                assert forall|j: int| 0 <= j < next.len() implies signature_key_of(
                    #[trigger] next[j],
                ) is Ok by {
                    if j < i {
                        assert(before[j] == next[j]);
                    }
                }
                assert forall|j: int| 0 <= j < next.len() implies #[trigger] senders_of(senders@)[j]
                    == external_senders_of(next)[j] by {
                    if j < i {
                        assert(before[j] == next[j]);
                        assert(built[j] == external_senders_of(before)[j]);
                    }
                }
                assert(senders_of(senders@) =~= external_senders_of(next));
            }
            i += 1;
        }
        assert(external_senders@.subrange(0, i as int) == external_senders@);
        cfg.external_senders = senders;
        Ok(())
    }
}

} // verus!
