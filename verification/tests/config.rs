use e2e_trust::central::MlsCentral;
use e2e_trust::config::{
    Ciphersuite, CredentialType, ExternalSender, ExternalSenderKey, MlsConversationConfiguration,
    MlsCustomConfiguration, MlsWirePolicy, ProtocolVersion, MAXIMUM_FORWARD_DISTANCE,
    MAX_PAST_EPOCHS, NUMBER_RESUMPTION_PSK, OUT_OF_ORDER_TOLERANCE, PADDING_SIZE,
    WIRE_SERVER_IDENTITY,
};
use e2e_trust::error::CryptoError;
use e2e_trust::keystore::Keystore;

fn configuration() -> MlsConversationConfiguration {
    MlsConversationConfiguration {
        ciphersuite: Ciphersuite::MLS_128_DHKEMP256_AES128GCM_SHA256_P256,
        external_senders: vec![ExternalSender {
            signature_key: vec![1, 2, 3],
            identity: "wire-server".to_string(),
        }],
        custom: MlsCustomConfiguration {
            key_rotation_span: None,
            wire_policy: MlsWirePolicy::Ciphertext,
            out_of_order_tolerance: 5,
            maximum_forward_distance: 77,
        },
    }
}

fn jwk(key: &[u8], public_key: &[u8]) -> ExternalSenderKey {
    ExternalSenderKey {
        key: key.to_vec(),
        jwk: Ok(public_key.to_vec()),
        raw: Err(CryptoError::MalformedInput),
    }
}

fn raw(key: &[u8]) -> ExternalSenderKey {
    ExternalSenderKey { key: key.to_vec(), jwk: Err(CryptoError::MalformedInput), raw: Ok(()) }
}

fn keys_of(cfg: &MlsConversationConfiguration) -> Vec<(Vec<u8>, String)> {
    cfg.external_senders.iter().map(|s| (s.signature_key.clone(), s.identity.clone())).collect()
}

#[test]
fn default_custom_configuration() {
    let config = MlsCustomConfiguration::default();
    assert_eq!(config.wire_policy, MlsWirePolicy::Plaintext);
    assert_eq!(config.key_rotation_span, None);
    assert_eq!(config.out_of_order_tolerance, 2);
    assert_eq!(config.maximum_forward_distance, 1000);
}

#[test]
fn configuration_constants() {
    assert_eq!(MAX_PAST_EPOCHS, 3);
    assert_eq!(OUT_OF_ORDER_TOLERANCE, 2);
    assert_eq!(MAXIMUM_FORWARD_DISTANCE, 1000);
}

#[test]
fn wire_policy_defaults_to_plaintext() {
    assert_eq!(MlsWirePolicy::default(), MlsWirePolicy::Plaintext);
}

#[test]
fn wire_policy_tags_are_stable() {
    assert_eq!(MlsWirePolicy::Plaintext.as_u8(), 1);
    assert_eq!(MlsWirePolicy::Ciphertext.as_u8(), 2);
    assert_eq!(MlsWirePolicy::from_u8(1), Some(MlsWirePolicy::Plaintext));
    assert_eq!(MlsWirePolicy::from_u8(2), Some(MlsWirePolicy::Ciphertext));
    assert_eq!(MlsWirePolicy::from_u8(0), None);
    assert_eq!(MlsWirePolicy::from_u8(3), None);
}

#[test]
fn group_should_have_required_capabilities() {
    let required = configuration().default_required_capabilities();
    assert!(required.extension_types.is_empty());
    assert!(required.proposal_types.is_empty());
    assert_eq!(required.credential_types, vec![CredentialType::Basic, CredentialType::X509]);
}

#[test]
fn creator_leaf_node_should_have_default_capabilities() {
    let capabilities = MlsConversationConfiguration::default_leaf_capabilities();
    assert_eq!(capabilities.versions, vec![ProtocolVersion::Mls10]);
    assert_eq!(
        capabilities.ciphersuites,
        vec![
            Ciphersuite::MLS_128_DHKEMX25519_AES128GCM_SHA256_Ed25519,
            Ciphersuite::MLS_128_DHKEMP256_AES128GCM_SHA256_P256,
            Ciphersuite::MLS_128_DHKEMX25519_CHACHA20POLY1305_SHA256_Ed25519,
            Ciphersuite::MLS_256_DHKEMP384_AES256GCM_SHA384_P384,
            Ciphersuite::MLS_256_DHKEMP521_AES256GCM_SHA512_P521,
            Ciphersuite::MLS_128_X25519KYBER768DRAFT00_AES128GCM_SHA256_Ed25519,
        ]
    );
    assert!(capabilities.proposals.is_empty());
    assert!(capabilities.extensions.is_empty());
    assert_eq!(capabilities.credentials, vec![CredentialType::Basic, CredentialType::X509]);
}

#[test]
fn group_settings_take_the_configured_values_beside_the_defaults() {
    let settings = configuration().as_openmls_default_configuration().unwrap();
    assert_eq!(settings.version, ProtocolVersion::Mls10);
    assert_eq!(settings.ciphersuite, Ciphersuite::MLS_128_DHKEMP256_AES128GCM_SHA256_P256);
    assert_eq!(settings.wire_policy, MlsWirePolicy::Ciphertext);
    assert_eq!(settings.max_past_epochs, 3);
    assert_eq!(settings.padding_size, 128);
    assert_eq!(settings.number_of_resumption_psks, 1);
    assert_eq!(settings.out_of_order_tolerance, 5);
    assert_eq!(settings.maximum_forward_distance, 77);
    assert!(settings.use_ratchet_tree_extension);
    assert_eq!(settings.external_senders.len(), 1);
    assert_eq!(settings.external_senders[0].signature_key, vec![1, 2, 3]);
    assert_eq!(settings.external_senders[0].identity, "wire-server");
    assert_eq!(settings.leaf_capabilities.versions, vec![ProtocolVersion::Mls10]);
    assert_eq!(settings.leaf_capabilities.ciphersuites.len(), 6);
    assert_eq!(
        settings.required_capabilities.credential_types,
        vec![CredentialType::Basic, CredentialType::X509]
    );
    assert_eq!(PADDING_SIZE, 128);
    assert_eq!(NUMBER_RESUMPTION_PSK, 1);
    assert_eq!(WIRE_SERVER_IDENTITY, "wire-server");
}

#[test]
fn should_support_raw_external_sender() {
    let central = MlsCentral::new(Keystore::new());
    let mut cfg = configuration();
    let done = central.set_raw_external_senders(&mut cfg, vec![raw(&[9, 8, 7])]);
    assert_eq!(done, Ok(()));
    assert_eq!(keys_of(&cfg), vec![(vec![9, 8, 7], "wire-server".to_string())]);
}

#[test]
fn should_support_jwk_external_sender() {
    let central = MlsCentral::new(Keystore::new());
    let mut cfg = configuration();
    let done = central.set_raw_external_senders(&mut cfg, vec![jwk(b"{\"kty\":\"OKP\"}", &[4, 5])]);
    assert_eq!(done, Ok(()));
    // the key read from the JSON Web Key, not the text it came in
    assert_eq!(keys_of(&cfg), vec![(vec![4, 5], "wire-server".to_string())]);
}

#[test]
fn json_web_key_wins_over_raw_key() {
    let central = MlsCentral::new(Keystore::new());
    let mut cfg = configuration();
    let both = ExternalSenderKey { key: vec![1], jwk: Ok(vec![2]), raw: Ok(()) };
    let done = central.set_raw_external_senders(&mut cfg, vec![both, raw(&[3]), jwk(&[4], &[5])]);
    assert_eq!(done, Ok(()));
    assert_eq!(
        keys_of(&cfg),
        vec![
            (vec![2], "wire-server".to_string()),
            (vec![3], "wire-server".to_string()),
            (vec![5], "wire-server".to_string()),
        ]
    );
    assert_eq!(cfg.ciphersuite, Ciphersuite::MLS_128_DHKEMP256_AES128GCM_SHA256_P256);
    assert_eq!(cfg.custom.maximum_forward_distance, 77);
}

#[test]
fn first_unusable_key_fails_the_call_and_keeps_the_senders() {
    let central = MlsCentral::new(Keystore::new());
    let mut cfg = configuration();
    let unusable = ExternalSenderKey {
        key: vec![0],
        jwk: Err(CryptoError::MalformedInput),
        raw: Err(CryptoError::ValidationFailed),
    };
    let later = ExternalSenderKey {
        key: vec![0],
        jwk: Err(CryptoError::MalformedInput),
        raw: Err(CryptoError::ConsumerError),
    };
    let done = central.set_raw_external_senders(&mut cfg, vec![raw(&[3]), unusable, later]);
    assert_eq!(done, Err(CryptoError::ValidationFailed));
    assert_eq!(keys_of(&cfg), vec![(vec![1, 2, 3], "wire-server".to_string())]);
}

#[test]
fn no_keys_give_no_external_senders() {
    let central = MlsCentral::new(Keystore::new());
    let mut cfg = configuration();
    assert_eq!(central.set_raw_external_senders(&mut cfg, vec![]), Ok(()));
    assert!(cfg.external_senders.is_empty());
}
