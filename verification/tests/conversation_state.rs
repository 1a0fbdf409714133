use e2e_trust::central::MlsCentral;
use e2e_trust::conversation_state::{
    compute_state, compute_tree_state, Credential, E2eiConversationState, MemberCredential,
    MlsCredentialType, Node, StateScan, VERIFY_RATCHET_TREE_AS_SENDER,
};
use e2e_trust::error::CryptoError;
use e2e_trust::keystore::Keystore;
use e2e_trust::pki_env::PkiEnvironment;
use e2e_trust::x509::Validity;

const ROOT_HEX: &str = "308201403081f3a003020102020101300506032b6570303031143012060355040a0c0b4578616d706c65204f\
     72673118301606035504030c0f4578616d706c6520526f6f74204341301e170d323030313031303030303030\
     5a170d3430303130313030303030305a303031143012060355040a0c0b4578616d706c65204f726731183016\
     06035504030c0f4578616d706c6520526f6f74204341302a300506032b65700321006b671d455ee2e11983d8\
     fb2d7ed1a60cf7d8bdbac022e81a1836195e162f172ea3323030300f0603551d130101ff040530030101ff30\
     1d0603551d0e041604147abfc0243e3ef4ae875977bab40650f2a4c84bf5300506032b6570034100817d2874\
     9b2778821de7566b8b3aa92fef468934df9485c5499a8d48f4c3423be452c50cedfa3f2ed185a40b63413480\
     fb269ad1766514be78a3fa01bceac70a";

const INTERMEDIATE_HEX: &str = "3082019e30820150a003020102020102300506032b6570303031143012060355040a0c0b4578616d706c6520\
     4f72673118301606035504030c0f4578616d706c6520526f6f74204341301e170d3231303130313030303030\
     305a170d3339303130313030303030305a303831143012060355040a0c0b4578616d706c65204f7267312030\
     1e06035504030c174578616d706c6520496e7465726d656469617465204341302a300506032b657003210043\
     db90cfe49df70c9387f4688acc10506dbc6810ab040cfc74eee23c79dea95ba38186308183300f0603551d13\
     0101ff040530030101ff301d0603551d0e041604148dd5ecf06191e9f9b116400c897d1d7b74f95033301f06\
     03551d230418301680147abfc0243e3ef4ae875977bab40650f2a4c84bf530300603551d1f042930273025a0\
     23a021861f687474703a2f2f63726c2e6578616d706c652e6f72672f726f6f742e63726c300506032b657003\
     410071ea9680fc7efdbc73bb567cc20dcbf33d7357bccf0af0977159c06c7d10f4b9a64af2050d4452387d21\
     6fd2d4d13f3bde9cd459ada18dd9f36dfcf705518b0a";

const ALICE_HEX: &str = "3082019a3082014ca003020102020203e9300506032b6570303831143012060355040a0c0b4578616d706c65\
     204f72673120301e06035504030c174578616d706c6520496e7465726d656469617465204341301e170d3232\
     303130313030303030305a170d3330303130313030303030305a302631143012060355040a0c0b4578616d70\
     6c65204f7267310e300c06035504030c05616c696365302a300506032b6570032100a22e548ece38173838a8\
     3da2f80bfa48a6fb5a3e22950d5d9f5149c83b664bffa3818b308188300c0603551d130101ff04023000301d\
     0603551d0e04160414b639aeeb009a6314c33e6db42e1f8d9d03e95c1f301f0603551d230418301680148dd5\
     ecf06191e9f9b116400c897d1d7b74f9503330380603551d1f0431302f302da02ba0298627687474703a2f2f\
     63726c2e6578616d706c652e6f72672f696e7465726d6564696174652e63726c300506032b6570034100ebf4\
     23340f13b1ba27e480cd5a153c30d180671e10127b2d4a84e0a75ffb44041630abdef75f50d8abd3c934e430\
     271c8477aa69083d24c59111b0f9943dff09";

const BOB_HEX: &str = "3082015c3082010ea003020102020203ea300506032b6570303831143012060355040a0c0b4578616d706c65\
     204f72673120301e06035504030c174578616d706c6520496e7465726d656469617465204341301e170d3232\
     303130313030303030305a170d3233303130313030303030305a302431143012060355040a0c0b4578616d70\
     6c65204f7267310c300a06035504030c03626f62302a300506032b65700321006e8f5799e465eed04cf4017c\
     b0448b30fa48f6e15dadc82270857589d04ccaeba350304e300c0603551d130101ff04023000301d0603551d\
     0e04160414749461c4b936d475f31075cd74ca5fd0584cfbe2301f0603551d230418301680148dd5ecf06191\
     e9f9b116400c897d1d7b74f95033300506032b6570034100ac89e559be6faab2a828667cb00355d94155c64b\
     2b9a438bc6bb2ac73590811979b789dfc06f9fad07e3ec01bb7d78756a5734a869c548326b00cb5935761b05";

/// 2024-01-01T00:00:00Z: alice's certificate is valid, bob's has expired.
const NOW: u64 = 1704067200;
/// 2022-06-01T00:00:00Z: both certificates are valid.
const EARLIER: u64 = 1654041600;
const ALICE_NOT_BEFORE: u64 = 1640995200;
const ALICE_NOT_AFTER: u64 = 1893456000;

fn hex(text: &str) -> Vec<u8> {
    let digits: Vec<u8> = text.bytes().map(|b| (b as char).to_digit(16).unwrap() as u8).collect();
    digits.chunks(2).map(|pair| pair[0] * 16 + pair[1]).collect()
}

fn basic(identity: &str) -> MemberCredential {
    MemberCredential {
        credential: Credential::Basic(identity.as_bytes().to_vec()),
        identity_valid: true,
        chain_valid: true,
    }
}

fn x509(leaf: &str) -> MemberCredential {
    MemberCredential {
        credential: Credential::X509(vec![hex(leaf), hex(INTERMEDIATE_HEX)]),
        identity_valid: true,
        chain_valid: true,
    }
}

fn revoked(leaf: &str) -> MemberCredential {
    MemberCredential { chain_valid: false, ..x509(leaf) }
}

fn impostor(leaf: &str) -> MemberCredential {
    MemberCredential { identity_valid: false, ..x509(leaf) }
}

fn unparseable() -> MemberCredential {
    MemberCredential {
        credential: Credential::X509(vec![vec![0x30, 0x00]]),
        identity_valid: true,
        chain_valid: true,
    }
}

fn environment() -> PkiEnvironment {
    PkiEnvironment::init(hex(ROOT_HEX), vec![hex(INTERMEDIATE_HEX)], vec![], NOW)
}

fn state(members: &Vec<MemberCredential>, env: Option<&PkiEnvironment>, now: u64) -> E2eiConversationState {
    compute_state(members, MlsCredentialType::X509, env, now)
}

fn central() -> MlsCentral {
    let mut store = Keystore::new();
    store.save_acme_ca(hex(ROOT_HEX));
    let mut central = MlsCentral::new(Keystore::new());
    central.restore_from_disk(store, NOW).unwrap();
    central
}

#[test]
fn state_tags_are_stable() {
    assert_eq!(E2eiConversationState::Verified.as_u8(), 1);
    assert_eq!(E2eiConversationState::NotVerified.as_u8(), 2);
    assert_eq!(E2eiConversationState::NotEnabled.as_u8(), 3);
    assert_eq!(E2eiConversationState::from_u8(1), Some(E2eiConversationState::Verified));
    assert_eq!(E2eiConversationState::from_u8(2), Some(E2eiConversationState::NotVerified));
    assert_eq!(E2eiConversationState::from_u8(3), Some(E2eiConversationState::NotEnabled));
    assert_eq!(E2eiConversationState::from_u8(0), None);
    assert_eq!(E2eiConversationState::from_u8(4), None);
    assert_eq!(E2eiConversationState::from_u8(255), None);
}

#[test]
fn uniform_conversation_should_be_not_verified_when_basic() {
    let env = environment();
    let basics = vec![basic("alice"), basic("bob")];
    assert_eq!(state(&basics, Some(&env), NOW), E2eiConversationState::NotEnabled);
    assert_eq!(state(&basics, None, NOW), E2eiConversationState::NotEnabled);
    let certified = vec![x509(ALICE_HEX), x509(BOB_HEX)];
    assert_eq!(state(&certified, Some(&env), EARLIER), E2eiConversationState::Verified);
    assert_eq!(state(&certified, None, EARLIER), E2eiConversationState::Verified);
}

#[test]
fn heterogeneous_conversation_should_be_not_verified() {
    let env = environment();
    let creator_certified = vec![x509(ALICE_HEX), basic("bob")];
    let creator_basic = vec![basic("alice"), x509(BOB_HEX)];
    assert_eq!(state(&creator_certified, Some(&env), EARLIER), E2eiConversationState::NotVerified);
    assert_eq!(state(&creator_basic, Some(&env), EARLIER), E2eiConversationState::NotVerified);
    assert_eq!(state(&creator_basic, None, EARLIER), E2eiConversationState::NotVerified);
}

#[test]
fn should_be_not_verified_when_one_expired() {
    let env = environment();
    // bob's certificate ran out at the end of 2022
    let members = vec![x509(ALICE_HEX), x509(BOB_HEX)];
    assert_eq!(state(&members, Some(&env), EARLIER), E2eiConversationState::Verified);
    assert_eq!(state(&members, Some(&env), NOW), E2eiConversationState::NotVerified);
    let members = vec![x509(BOB_HEX), x509(ALICE_HEX)];
    assert_eq!(state(&members, Some(&env), NOW), E2eiConversationState::NotVerified);
}

#[test]
fn should_be_not_verified_when_all_expired() {
    let env = environment();
    let members = vec![x509(BOB_HEX)];
    assert_eq!(state(&members, Some(&env), NOW), E2eiConversationState::NotVerified);
    assert_eq!(state(&members, None, NOW), E2eiConversationState::NotVerified);
}

#[test]
fn empty_conversation_is_not_enabled() {
    let env = environment();
    assert_eq!(state(&vec![], Some(&env), NOW), E2eiConversationState::NotEnabled);
    assert_eq!(state(&vec![], None, NOW), E2eiConversationState::NotEnabled);
}

#[test]
fn not_enabled_exactly_without_a_certificate_that_decodes() {
    let env = environment();
    // certificates that do not decode count as none at all
    let members = vec![basic("alice"), unparseable(), basic("bob")];
    assert_eq!(state(&members, Some(&env), NOW), E2eiConversationState::NotEnabled);
    let empty_chain = MemberCredential {
        credential: Credential::X509(vec![]),
        identity_valid: true,
        chain_valid: true,
    };
    assert_eq!(state(&vec![empty_chain], Some(&env), NOW), E2eiConversationState::NotEnabled);
    // a single certificate that decodes enables it, valid or not
    let members = vec![basic("alice"), unparseable(), revoked(ALICE_HEX)];
    assert_eq!(state(&members, Some(&env), NOW), E2eiConversationState::NotVerified);
    let members = vec![x509(ALICE_HEX)];
    assert_eq!(state(&members, Some(&env), NOW), E2eiConversationState::Verified);
}

#[test]
fn one_bad_certificate_unverifies_wherever_it_stands() {
    let env = environment();
    for bad in [revoked(BOB_HEX), impostor(BOB_HEX), x509(BOB_HEX)] {
        for place in 0..3 {
            let mut members = vec![x509(ALICE_HEX), x509(ALICE_HEX)];
            let now = if bad.identity_valid && bad.chain_valid { NOW } else { EARLIER };
            members.insert(place, MemberCredential {
                credential: Credential::X509(vec![hex(BOB_HEX)]),
                identity_valid: bad.identity_valid,
                chain_valid: bad.chain_valid,
            });
            assert_eq!(state(&members, Some(&env), now), E2eiConversationState::NotVerified);
        }
    }
}

#[test]
fn mixed_membership_is_not_verified_in_any_order() {
    let env = environment();
    let orders = [
        vec![basic("carol"), x509(ALICE_HEX), x509(BOB_HEX)],
        vec![x509(ALICE_HEX), basic("carol"), x509(BOB_HEX)],
        vec![x509(ALICE_HEX), x509(BOB_HEX), basic("carol")],
        vec![basic("carol"), revoked(ALICE_HEX), x509(BOB_HEX)],
        vec![unparseable(), x509(ALICE_HEX)],
        vec![x509(ALICE_HEX), unparseable()],
    ];
    for members in orders.iter() {
        assert_eq!(state(members, Some(&env), EARLIER), E2eiConversationState::NotVerified);
        assert_eq!(state(members, None, EARLIER), E2eiConversationState::NotVerified);
    }
}

#[test]
fn chain_findings_count_only_against_a_context() {
    let env = environment();
    let members = vec![revoked(ALICE_HEX)];
    assert_eq!(state(&members, Some(&env), NOW), E2eiConversationState::NotVerified);
    // without a validation context there is nothing to chain to
    assert_eq!(state(&members, None, NOW), E2eiConversationState::Verified);
    // the identity claim counts either way
    let members = vec![impostor(ALICE_HEX)];
    assert_eq!(state(&members, Some(&env), NOW), E2eiConversationState::NotVerified);
    assert_eq!(state(&members, None, NOW), E2eiConversationState::NotVerified);
}

#[test]
fn validity_period_includes_both_ends() {
    let members = vec![x509(ALICE_HEX)];
    assert_eq!(state(&members, None, ALICE_NOT_BEFORE - 1), E2eiConversationState::NotVerified);
    assert_eq!(state(&members, None, ALICE_NOT_BEFORE), E2eiConversationState::Verified);
    assert_eq!(state(&members, None, ALICE_NOT_AFTER), E2eiConversationState::Verified);
    assert_eq!(state(&members, None, ALICE_NOT_AFTER + 1), E2eiConversationState::NotVerified);
    let window = Validity { not_before: 10, not_after: 20 };
    assert!(!window.is_time_valid(9));
    assert!(window.is_time_valid(10));
    assert!(window.is_time_valid(20));
    assert!(!window.is_time_valid(21));
    assert!(!window.is_time_valid(0));
    assert!(!window.is_time_valid(u64::MAX));
}

#[test]
fn verdict_ages_with_the_time_of_interest_alone() {
    let mut central = central();
    let members = vec![x509(BOB_HEX)];
    assert_eq!(
        central.e2ei_conversation_state(&members, EARLIER),
        Ok(E2eiConversationState::Verified)
    );
    assert_eq!(central.pki_env().unwrap().time_of_interest(), EARLIER);
    // nothing was registered, no message went by: only time has passed
    assert_eq!(
        central.e2ei_conversation_state(&members, NOW),
        Ok(E2eiConversationState::NotVerified)
    );
    assert_eq!(central.pki_env().unwrap().time_of_interest(), NOW);
}

#[test]
fn parse_leaf_cert_reads_the_first_certificate() {
    let alice = x509(ALICE_HEX);
    assert_eq!(
        alice.credential.parse_leaf_cert(),
        Ok(Some(Validity { not_before: ALICE_NOT_BEFORE, not_after: ALICE_NOT_AFTER }))
    );
    assert_eq!(alice.credential.credential_type(), MlsCredentialType::X509);
    assert_eq!(basic("bob").credential.parse_leaf_cert(), Ok(None));
    assert_eq!(basic("bob").credential.credential_type(), MlsCredentialType::Basic);
    assert_eq!(unparseable().credential.parse_leaf_cert(), Err(CryptoError::MalformedInput));
    assert_eq!(
        Credential::X509(vec![]).parse_leaf_cert(),
        Err(CryptoError::MalformedInput)
    );
    // only the leaf is read
    let odd_chain = Credential::X509(vec![hex(BOB_HEX), vec![1, 2, 3]]);
    assert_eq!(
        odd_chain.parse_leaf_cert(),
        Ok(Some(Validity { not_before: 1640995200, not_after: 1672531200 }))
    );
}

#[test]
fn scan_stops_at_the_first_bad_certificate() {
    let mut scan = StateScan::new(true, NOW);
    assert!(!scan.is_done());
    assert_eq!(scan.conclude(), E2eiConversationState::NotEnabled);
    scan.observe(&x509(ALICE_HEX));
    assert!(!scan.is_done());
    assert_eq!(scan.conclude(), E2eiConversationState::Verified);
    scan.observe(&revoked(ALICE_HEX));
    assert!(scan.is_done());
    assert_eq!(scan.conclude(), E2eiConversationState::NotVerified);
    // whatever follows changes nothing
    scan.observe(&x509(ALICE_HEX));
    assert!(scan.is_done());
    assert_eq!(scan.conclude(), E2eiConversationState::NotVerified);
}

#[test]
fn scan_goes_on_past_members_without_certificate_until_one_is_seen() {
    let mut scan = StateScan::new(false, NOW);
    scan.observe(&basic("alice"));
    assert!(!scan.is_done());
    assert_eq!(scan.conclude(), E2eiConversationState::NotEnabled);
    scan.observe(&unparseable());
    assert!(!scan.is_done());
    // a valid certificate settles that the group uses certificates, and the
    // scan still goes on
    scan.observe(&x509(ALICE_HEX));
    assert!(!scan.is_done());
    assert_eq!(scan.conclude(), E2eiConversationState::NotVerified);
    // the next member without certificate ends it
    scan.observe(&basic("bob"));
    assert!(scan.is_done());
    assert_eq!(scan.conclude(), E2eiConversationState::NotVerified);
}

#[test]
fn tree_state_reads_the_leaves_only() {
    let env = environment();
    let tree = vec![
        Some(Node::LeafNode(x509(ALICE_HEX))),
        Some(Node::ParentNode),
        None,
        None,
        Some(Node::LeafNode(x509(BOB_HEX))),
    ];
    assert_eq!(
        compute_tree_state(&tree, MlsCredentialType::X509, Some(&env), EARLIER),
        E2eiConversationState::Verified
    );
    assert_eq!(
        compute_tree_state(&tree, MlsCredentialType::X509, Some(&env), NOW),
        E2eiConversationState::NotVerified
    );
    let no_leaves = vec![Some(Node::ParentNode), None];
    assert_eq!(
        compute_tree_state(&no_leaves, MlsCredentialType::X509, Some(&env), NOW),
        E2eiConversationState::NotEnabled
    );
    let basics = vec![Some(Node::LeafNode(basic("alice"))), Some(Node::ParentNode)];
    assert_eq!(
        compute_tree_state(&basics, MlsCredentialType::Basic, None, NOW),
        E2eiConversationState::NotEnabled
    );
}

#[test]
fn best_effort_check_folds_a_bad_descriptor_into_the_verdict() {
    let mut central = central();
    assert_eq!(
        central.e2ei_verify_group_state(Err(CryptoError::InvalidGroupInfo), NOW),
        Ok(E2eiConversationState::NotVerified)
    );
    let tree = vec![Some(Node::LeafNode(x509(ALICE_HEX))), Some(Node::ParentNode), None];
    assert_eq!(
        central.e2ei_verify_group_state(Ok(tree), NOW + 7),
        Ok(E2eiConversationState::Verified)
    );
    assert_eq!(central.pki_env().unwrap().time_of_interest(), NOW + 7);
    let tree = vec![Some(Node::LeafNode(basic("alice")))];
    assert_eq!(central.e2ei_verify_group_state(Ok(tree), NOW), Ok(E2eiConversationState::NotEnabled));
}

#[test]
fn strict_check_reports_a_bad_descriptor_as_it_came() {
    let mut central = central();
    assert_eq!(
        central.get_credential_in_use(
            Err(CryptoError::InvalidGroupInfo),
            MlsCredentialType::X509,
            NOW
        ),
        Err(CryptoError::InvalidGroupInfo)
    );
    assert_eq!(
        central.get_credential_in_use(
            Err(CryptoError::MalformedInput),
            MlsCredentialType::X509,
            NOW
        ),
        Err(CryptoError::MalformedInput)
    );
    let tree = vec![Some(Node::LeafNode(x509(ALICE_HEX))), None, Some(Node::LeafNode(basic("bob")))];
    assert_eq!(
        central.get_credential_in_use(Ok(tree), MlsCredentialType::X509, NOW + 3),
        Ok(E2eiConversationState::NotVerified)
    );
    assert_eq!(central.pki_env().unwrap().time_of_interest(), NOW + 3);
    let tree = vec![Some(Node::LeafNode(x509(BOB_HEX)))];
    assert_eq!(
        central.get_credential_in_use_in_ratchet_tree(&tree, MlsCredentialType::X509, EARLIER),
        Ok(E2eiConversationState::Verified)
    );
    assert!(VERIFY_RATCHET_TREE_AS_SENDER);
}

#[test]
fn checks_work_without_a_validation_context() {
    let mut central = MlsCentral::new(Keystore::new());
    let members = vec![revoked(ALICE_HEX)];
    assert_eq!(
        central.e2ei_conversation_state(&members, NOW),
        Ok(E2eiConversationState::Verified)
    );
    assert!(central.pki_env().is_none());
}
