//! The trust verdict of a conversation.

use vstd::prelude::*;
use crate::central::MlsCentral;
use crate::error::CryptoError;
use crate::pki_env::PkiEnvironment;
use crate::x509::{certificate_validity_from_der, validity_of, Validity};

verus! {

/// State of a conversation regarding end-to-end identity.
///
/// Pending commits and proposals are not looked at, so members about to be
/// added or removed do not count.
#[derive(Debug, Clone, Copy, PartialEq, Eq, Structural)]
pub enum E2eiConversationState {
    /// Every member holds a valid certificate.
    Verified,
    /// Some member has no certificate, or one that is expired, revoked or
    /// otherwise invalid.
    NotVerified,
    /// No member holds a certificate.
    NotEnabled,
}

impl E2eiConversationState {
    /// The number under which a state is stored and exchanged.
    pub open spec fn tag(self) -> u8 {
        match self {
            E2eiConversationState::Verified => 1,
            E2eiConversationState::NotVerified => 2,
            E2eiConversationState::NotEnabled => 3,
        }
    }

    /// The state's stable number: 1, 2 or 3.
    pub fn as_u8(&self) -> (tag: u8)
        ensures
            tag == self.tag(),
    {
        match self {
            E2eiConversationState::Verified => 1,
            E2eiConversationState::NotVerified => 2,
            E2eiConversationState::NotEnabled => 3,
        }
    }

    /// The state stored under `tag`, if `tag` is one of the three numbers.
    pub fn from_u8(tag: u8) -> (state: Option<E2eiConversationState>)
        ensures
            match state {
                Some(s) => s.tag() == tag,
                None => tag < 1 || tag > 3,
            },
    {
        if tag == 1 {
            Some(E2eiConversationState::Verified)
        } else if tag == 2 {
            Some(E2eiConversationState::NotVerified)
        } else if tag == 3 {
            Some(E2eiConversationState::NotEnabled)
        } else {
            None
        }
    }
}

/// The kinds of credential a member can hold.
#[derive(Debug, Clone, Copy, PartialEq, Eq, Structural)]
pub enum MlsCredentialType {
    /// A bare identity, backed by no certificate.
    Basic,
    /// A certificate chain, leaf first.
    X509,
}

/// A member's credential.
#[derive(Debug, Clone)]
pub enum Credential {
    /// A bare identity string.
    Basic(Vec<u8>),
    /// A chain of DER certificates, the member's own (the leaf) first.
    X509(Vec<Vec<u8>>),
}

impl Credential {
    /// The validity period of the leaf certificate, where the credential is a
    /// certificate chain whose first element decodes.
    pub open spec fn leaf_validity(self) -> Option<Validity> {
        match self {
            Credential::Basic(_) => None,
            Credential::X509(chain) => if chain@.len() == 0 {
                None
            } else {
                validity_of(chain@[0]@)
            },
        }
    }

    /// What `parse_leaf_cert` returns.
    pub open spec fn parsed_leaf(self) -> Result<Option<Validity>, CryptoError> {
        match self {
            Credential::Basic(_) => Ok(None),
            Credential::X509(_) => match self.leaf_validity() {
                Some(validity) => Ok(Some(validity)),
                None => Err(CryptoError::MalformedInput),
            },
        }
    }

    /// The kind of the credential.
    pub fn credential_type(&self) -> (kind: MlsCredentialType)
        ensures
            kind == (match self {
                Credential::Basic(_) => MlsCredentialType::Basic,
                Credential::X509(_) => MlsCredentialType::X509,
            }),
    {
        match self {
            Credential::Basic(_) => MlsCredentialType::Basic,
            Credential::X509(_) => MlsCredentialType::X509,
        }
    }

    /// Decodes the leaf certificate of a certificate chain. A basic credential
    /// has none; an empty chain, or a leaf that does not decode, is an error.
    pub fn parse_leaf_cert(&self) -> (leaf: Result<Option<Validity>, CryptoError>)
        ensures
            leaf == self.parsed_leaf(),
    {
        match self {
            Credential::Basic(_) => Ok(None),
            Credential::X509(chain) => {
                if chain.len() == 0 {
                    return Err(CryptoError::MalformedInput);
                }
                match certificate_validity_from_der(&chain[0]) {
                    Some(validity) => Ok(Some(validity)),
                    None => Err(CryptoError::MalformedInput),
                }
            },
        }
    }
}

/// A member's credential with the findings of the certificate validator about
/// its leaf certificate. The findings are read only where the credential
/// carries a certificate that decodes.
#[derive(Debug, Clone)]
pub struct MemberCredential {
    pub credential: Credential,
    /// The identity claim could be extracted from the certificate and, where
    /// there is a validation context, holds against it.
    pub identity_valid: bool,
    /// The certificate chains to the trust anchor of the validation context
    /// and no registered revocation list names it.
    pub chain_valid: bool,
}

/// The member carries an X.509 certificate that decodes.
pub open spec fn carries_certificate(member: MemberCredential) -> bool {
    member.credential.leaf_validity() is Some
}

/// The member's certificate passes all checks at the time `now`: it decodes,
/// its identity claim holds, `now` lies in its validity period, and, where
/// there is a validation context, its chain validates unrevoked.
pub open spec fn is_valid_member(member: MemberCredential, env_present: bool, now: u64) -> bool {
    &&& member.credential.leaf_validity() matches Some(validity)
    &&& member.identity_valid
    &&& validity.contains(now)
    &&& (env_present ==> member.chain_valid)
}

/// Some member carries a certificate that decodes.
pub open spec fn any_certificate(members: Seq<MemberCredential>) -> bool {
    exists|i: int| 0 <= i < members.len() && carries_certificate(#[trigger] members[i])
}

/// Every member's certificate passes all checks.
pub open spec fn all_valid(members: Seq<MemberCredential>, env_present: bool, now: u64) -> bool {
    forall|i: int|
        0 <= i < members.len() ==> is_valid_member(#[trigger] members[i], env_present, now)
}

/// The verdict on a conversation with the given members: not enabled where
/// nobody carries a certificate, verified where everybody's certificate
/// passes, not verified otherwise.
pub open spec fn conversation_state(
    members: Seq<MemberCredential>,
    env_present: bool,
    now: u64,
) -> E2eiConversationState {
    if !any_certificate(members) {
        E2eiConversationState::NotEnabled
    } else if all_valid(members, env_present, now) {
        E2eiConversationState::Verified
    } else {
        E2eiConversationState::NotVerified
    }
}

/// Scanning stops at the member in place `j`: a certificate that fails a
/// check, or a member without certificate after one with.
pub open spec fn stops_at(
    members: Seq<MemberCredential>,
    env_present: bool,
    now: u64,
    j: int,
) -> bool {
    if carries_certificate(members[j]) {
        !is_valid_member(members[j], env_present, now)
    } else {
        any_certificate(members.subrange(0, j))
    }
}

/// Scanning the members in order stops before the end.
pub open spec fn scan_stops(members: Seq<MemberCredential>, env_present: bool, now: u64) -> bool {
    exists|j: int| 0 <= j < members.len() && #[trigger] stops_at(members, env_present, now, j)
}

/// A stopped scan is final: the state is `NotVerified` whatever the members
/// after the stop hold.
pub proof fn lemma_stopped_scan_is_final(
    seen: Seq<MemberCredential>,
    rest: Seq<MemberCredential>,
    env_present: bool,
    now: u64,
)
    requires
        scan_stops(seen, env_present, now),
    ensures
        conversation_state(seen + rest, env_present, now) == E2eiConversationState::NotVerified,
{
    let all = seen + rest;
    let j = choose|j: int| 0 <= j < seen.len() && #[trigger] stops_at(seen, env_present, now, j);
    assert(all[j] == seen[j]);
    assert(!is_valid_member(all[j], env_present, now));
    if carries_certificate(seen[j]) {
        assert(carries_certificate(all[j]));
    } else {
        let before = seen.subrange(0, j);
        let i = choose|i: int| 0 <= i < before.len() && carries_certificate(#[trigger] before[i]);
        assert(before[i] == all[i]);
        assert(carries_certificate(all[i]));
    }
}

/// A conversation is not enabled exactly when none of its members carries a
/// certificate that decodes.
pub proof fn lemma_not_enabled_iff_no_certificate(
    members: Seq<MemberCredential>,
    env_present: bool,
    now: u64,
)
    ensures
        (conversation_state(members, env_present, now) == E2eiConversationState::NotEnabled)
            <==> !any_certificate(members),
        (conversation_state(members, env_present, now) == E2eiConversationState::NotEnabled)
            <==> (forall|i: int| 0 <= i < members.len() ==> !carries_certificate(members[i])),
{
    if any_certificate(members) {
        let i = choose|i: int| 0 <= i < members.len() && carries_certificate(#[trigger] members[i]);
        assert(carries_certificate(members[i]));
    }
}

/// A conversation with at least one member, all of whose members hold a
/// certificate that passes every check, is verified.
pub proof fn lemma_all_valid_is_verified(
    members: Seq<MemberCredential>,
    env_present: bool,
    now: u64,
)
    requires
        members.len() > 0,
        forall|i: int| 0 <= i < members.len() ==> is_valid_member(members[i], env_present, now),
    ensures
        conversation_state(members, env_present, now) == E2eiConversationState::Verified,
{
    assert(is_valid_member(members[0], env_present, now));
    assert(carries_certificate(members[0]));
}

/// A conversation all of whose members carry a certificate is not verified as
/// soon as one of the certificates fails a check, whatever place `bad` its
/// holder has among the members.
pub proof fn lemma_one_invalid_is_not_verified(
    members: Seq<MemberCredential>,
    env_present: bool,
    now: u64,
    bad: int,
)
    requires
        forall|i: int| 0 <= i < members.len() ==> carries_certificate(members[i]),
        0 <= bad < members.len(),
        !is_valid_member(members[bad], env_present, now),
    ensures
        conversation_state(members, env_present, now) == E2eiConversationState::NotVerified,
{
    assert(carries_certificate(members[bad]));
}

/// A conversation in which one member carries no certificate and another one
/// does is not verified: neither verified nor not enabled.
pub proof fn lemma_mixed_is_not_verified(
    members: Seq<MemberCredential>,
    env_present: bool,
    now: u64,
    without: int,
    with: int,
)
    requires
        0 <= without < members.len(),
        0 <= with < members.len(),
        !carries_certificate(members[without]),
        carries_certificate(members[with]),
    ensures
        conversation_state(members, env_present, now) == E2eiConversationState::NotVerified,
{
    assert(!is_valid_member(members[without], env_present, now));
}

/// The state of a conversation does not depend on the order in which its
/// members are taken: two enumerations of the same members give the same
/// state.
pub proof fn lemma_state_ignores_order(
    a: Seq<MemberCredential>,
    b: Seq<MemberCredential>,
    env_present: bool,
    now: u64,
)
    requires
        a.to_multiset() == b.to_multiset(),
    ensures
        conversation_state(a, env_present, now) == conversation_state(b, env_present, now),
{
    a.to_multiset_ensures();
    b.to_multiset_ensures();
    assert forall|m: MemberCredential| a.contains(m) <==> b.contains(m) by {
        assert(a.contains(m) <==> a.to_multiset().count(m) > 0);
        assert(b.contains(m) <==> b.to_multiset().count(m) > 0);
    }
    lemma_state_of_same_members(a, b, env_present, now);
    lemma_state_of_same_members(b, a, env_present, now);
}

/// Where every member of `a` is among `b`, a certificate among `a` is one
/// among `b`, and a failure among `a` is one among `b`.
proof fn lemma_state_of_same_members(
    a: Seq<MemberCredential>,
    b: Seq<MemberCredential>,
    env_present: bool,
    now: u64,
)
    requires
        forall|m: MemberCredential| a.contains(m) ==> b.contains(m),
    ensures
        any_certificate(a) ==> any_certificate(b),
        all_valid(b, env_present, now) ==> all_valid(a, env_present, now),
{
    if any_certificate(a) {
        let i = choose|i: int| 0 <= i < a.len() && carries_certificate(#[trigger] a[i]);
        assert(a.contains(a[i]));
        let j = choose|j: int| 0 <= j < b.len() && b[j] == a[i];
        assert(carries_certificate(b[j]));
    }
    if all_valid(b, env_present, now) {
        assert forall|i: int| 0 <= i < a.len() implies is_valid_member(
            #[trigger] a[i],
            env_present,
            now,
        ) by {
            assert(a.contains(a[i]));
            let j = choose|j: int| 0 <= j < b.len() && b[j] == a[i];
            assert(is_valid_member(b[j], env_present, now));
        }
    }
}

/// A conversation that is verified at one time is not verified at a later
/// time at which the certificate of one of its members has expired. Nothing
/// but the time differs between the two verdicts.
pub proof fn lemma_expiry_unverifies(
    members: Seq<MemberCredential>,
    env_present: bool,
    earlier: u64,
    later: u64,
    expired: int,
)
    requires
        conversation_state(members, env_present, earlier) == E2eiConversationState::Verified,
        0 <= expired < members.len(),
        members[expired].credential.leaf_validity() matches Some(validity) && validity.not_after
            < later,
    ensures
        conversation_state(members, env_present, later) == E2eiConversationState::NotVerified,
{
    assert(carries_certificate(members[expired]));
    assert(!is_valid_member(members[expired], env_present, later));
}

/// What one more member changes: a certificate is among the members if it
/// was before or the new member carries one; all are valid if they were
/// before and the new member is; and the scan stops if it stopped before or
/// stops at the new member.
pub proof fn lemma_one_more_member(
    before: Seq<MemberCredential>,
    member: MemberCredential,
    env_present: bool,
    now: u64,
)
    ensures
        any_certificate(before.push(member)) == (any_certificate(before) || carries_certificate(
            member,
        )),
        all_valid(before.push(member), env_present, now) == (all_valid(before, env_present, now)
            && is_valid_member(member, env_present, now)),
        scan_stops(before.push(member), env_present, now) == (scan_stops(before, env_present, now)
            || stops_at(before.push(member), env_present, now, before.len() as int)),
        stops_at(before.push(member), env_present, now, before.len() as int) == (
            if carries_certificate(member) {
                !is_valid_member(member, env_present, now)
            } else {
                any_certificate(before)
            }
        ),
{
    let after = before.push(member);
    let j = before.len() as int;
    assert(after.subrange(0, j) == before);
    assert(after[j] == member);
    assert forall|i: int| 0 <= i < j implies after[i] == before[i] by {}
    if any_certificate(before) {
        let i = choose|i: int| 0 <= i < before.len() && carries_certificate(#[trigger] before[i]);
        assert(carries_certificate(after[i]));
    }
    if carries_certificate(member) {
        assert(carries_certificate(after[j]));
    }
    if any_certificate(after) && !carries_certificate(member) {
        let i = choose|i: int| 0 <= i < after.len() && carries_certificate(#[trigger] after[i]);
        assert(carries_certificate(before[i]));
    }
    if all_valid(before, env_present, now) && is_valid_member(member, env_present, now) {
        assert forall|i: int| 0 <= i < after.len() implies is_valid_member(
            #[trigger] after[i],
            env_present,
            now,
        ) by {
            if i < j {
                assert(is_valid_member(before[i], env_present, now));
            }
        }
    }
    if all_valid(after, env_present, now) {
        assert(is_valid_member(after[j], env_present, now));
        assert forall|i: int| 0 <= i < before.len() implies is_valid_member(
            #[trigger] before[i],
            env_present,
            now,
        ) by {
            assert(is_valid_member(after[i], env_present, now));
        }
    }
    if scan_stops(before, env_present, now) {
        let k = choose|k: int|
            0 <= k < before.len() && #[trigger] stops_at(before, env_present, now, k);
        assert(after.subrange(0, k) == before.subrange(0, k));
        assert(stops_at(after, env_present, now, k));
    }
    if scan_stops(after, env_present, now) && !stops_at(after, env_present, now, j) {
        let k = choose|k: int|
            0 <= k < after.len() && #[trigger] stops_at(after, env_present, now, k);
        assert(after.subrange(0, k) == before.subrange(0, k));
        assert(stops_at(before, env_present, now, k));
    }
}

/// A scan over the members of a conversation, one member at a time.
///
/// The scan is for callers that obtain the validator's findings one member at
/// a time and want to stop asking as soon as the verdict cannot change.
pub struct StateScan {
    env_present: bool,
    now: u64,
    is_e2ei: bool,
    state: E2eiConversationState,
    stopped: bool,
    seen: Ghost<Seq<MemberCredential>>,
}

impl StateScan {
    #[verifier::type_invariant]
    spec fn well_formed(self) -> bool {
        &&& self.is_e2ei == any_certificate(self.seen@)
        &&& self.state != E2eiConversationState::NotEnabled
        &&& (self.state == E2eiConversationState::Verified) == all_valid(
            self.seen@,
            self.env_present,
            self.now,
        )
        &&& self.stopped == scan_stops(self.seen@, self.env_present, self.now)
    }

    /// The members observed so far, in order.
    pub closed spec fn seen(self) -> Seq<MemberCredential> {
        self.seen@
    }

    /// Whether the scan runs against a validation context.
    pub closed spec fn env_present(self) -> bool {
        self.env_present
    }

    /// The time at which validity periods are judged.
    pub closed spec fn now(self) -> u64 {
        self.now
    }

    /// A scan that has observed nobody.
    pub fn new(env_present: bool, now: u64) -> (scan: StateScan)
        ensures
            scan.seen() == Seq::<MemberCredential>::empty(),
            scan.env_present() == env_present,
            scan.now() == now,
    {
        StateScan {
            env_present,
            now,
            is_e2ei: false,
            state: E2eiConversationState::Verified,
            stopped: false,
            seen: Ghost(Seq::empty()),
        }
    }

    /// Whether the scan has stopped: the verdict is `NotVerified` and no
    /// further member can change it.
    pub fn is_done(&self) -> (done: bool)
        ensures
            done == scan_stops(self.seen(), self.env_present(), self.now()),
    {
        proof {
            use_type_invariant(self);
        }
        self.stopped
    }

    /// Observes the next member.
    pub fn observe(&mut self, member: &MemberCredential)
        ensures
            final(self).seen() == old(self).seen().push(*member),
            final(self).env_present() == old(self).env_present(),
            final(self).now() == old(self).now(),
    {
        proof {
            use_type_invariant(&*self);
        }
        let ghost before = self.seen@;
        let env_present = self.env_present;
        let now = self.now;
        let mut is_e2ei = self.is_e2ei;
        let mut state = self.state;
        let mut stopped = self.stopped;
        proof {
            lemma_one_more_member(before, *member, env_present, now);
        }
        if !stopped {
            match member.credential.parse_leaf_cert() {
                Ok(Some(validity)) => {
                    is_e2ei = true;
                    let invalid_identity = !member.identity_valid;
                    let is_time_invalid = !validity.is_time_valid(now);
                    let is_revoked_or_invalid = env_present && !member.chain_valid;
                    if invalid_identity || is_time_invalid || is_revoked_or_invalid {
                        state = E2eiConversationState::NotVerified;
                        stopped = true;
                    }
                },
                _ => {
                    state = E2eiConversationState::NotVerified;
                    if is_e2ei {
                        stopped = true;
                    }
                },
            }
        } else {
            proof {
                // a stopped scan has seen a certificate and a failure
                lemma_stopped_scan_is_final(before, Seq::empty(), env_present, now);
                assert(before + Seq::<MemberCredential>::empty() == before);
            }
        }
        let ghost after = before.push(*member);
        *self = StateScan { env_present, now, is_e2ei, state, stopped, seen: Ghost(after) };
    }

    /// The verdict on the members observed so far.
    pub fn conclude(&self) -> (verdict: E2eiConversationState)
        ensures
            verdict == conversation_state(self.seen(), self.env_present(), self.now()),
    {
        proof {
            use_type_invariant(self);
        }
        if self.is_e2ei {
            self.state
        } else {
            E2eiConversationState::NotEnabled
        }
    }
}

/// Computes the state of a conversation from its members' credentials, taken
/// in the order given. `env` is the validation context, if one is set up, and
/// `now` the time at which validity periods are judged.
///
/// The kind of credential asked about plays no part yet: the verdict is about
/// certificates whatever it is.
pub fn compute_state(
    members: &Vec<MemberCredential>,
    _credential_type: MlsCredentialType,
    env: Option<&PkiEnvironment>,
    now: u64,
) -> (verdict: E2eiConversationState)
    ensures
        verdict == conversation_state(members@, env.is_some(), now),
{
    let env_present = env.is_some();
    let mut scan = StateScan::new(env_present, now);
    let mut i: usize = 0;
    while i < members.len() && !scan.is_done()
        invariant
            i <= members@.len(),
            scan.seen() == members@.subrange(0, i as int),
            scan.env_present() == env_present,
            scan.now() == now,
        decreases members@.len() - i,
    {
        scan.observe(&members[i]);
        proof {
            assert(members@.subrange(0, i as int).push(members@[i as int]) == members@.subrange(
                0,
                i + 1,
            ));
        }
        i += 1;
    }
    proof {
        let seen = members@.subrange(0, i as int);
        let rest = members@.subrange(i as int, members@.len() as int);
        assert(seen + rest == members@);
        if i < members.len() {
            lemma_stopped_scan_is_final(seen, rest, env_present, now);
        } else {
            assert(rest.len() == 0);
            assert(seen == members@);
        }
    }
    scan.conclude()
}

/// A node of a group's ratchet tree, as far as trust is concerned: a leaf
/// holds a member's credential, a parent holds none.
#[derive(Debug, Clone)]
pub enum Node {
    LeafNode(MemberCredential),
    ParentNode,
}

/// Ratchet trees are parsed as if by a sender, which turns on the hardened
/// checks of the parser, before either pre-join check reads them.
pub const VERIFY_RATCHET_TREE_AS_SENDER: bool = true;

/// The credentials of the leaves among `nodes`, in the order of the nodes.
/// Blank nodes and parents contribute nothing.
pub open spec fn leaf_credentials(nodes: Seq<Option<Node>>) -> Seq<MemberCredential>
    decreases nodes.len(),
{
    if nodes.len() == 0 {
        Seq::empty()
    } else {
        let before = leaf_credentials(nodes.drop_last());
        match nodes.last() {
            Some(Node::LeafNode(member)) => before.push(member),
            _ => before,
        }
    }
}

/// The leaves of two runs of nodes put together are the leaves of the one
/// followed by the leaves of the other.
pub proof fn lemma_leaf_credentials_concat(a: Seq<Option<Node>>, b: Seq<Option<Node>>)
    ensures
        leaf_credentials(a + b) == leaf_credentials(a) + leaf_credentials(b),
    decreases b.len(),
{
    if b.len() == 0 {
        assert(a + b == a);
        assert(leaf_credentials(a) + leaf_credentials(b) == leaf_credentials(a));
    } else {
        lemma_leaf_credentials_concat(a, b.drop_last());
        assert((a + b).drop_last() == a + b.drop_last());
        assert((a + b).last() == b.last());
        let shorter = leaf_credentials(a) + leaf_credentials(b.drop_last());
        match b.last() {
            Some(Node::LeafNode(member)) => {
                assert(shorter.push(member) == leaf_credentials(a) + leaf_credentials(
                    b.drop_last(),
                ).push(member));
            },
            _ => {},
        }
    }
}

/// Computes the state of the group whose ratchet tree is `ratchet_tree` from
/// the credentials of its leaves.
pub fn compute_tree_state(
    ratchet_tree: &Vec<Option<Node>>,
    _credential_type: MlsCredentialType,
    env: Option<&PkiEnvironment>,
    now: u64,
) -> (verdict: E2eiConversationState)
    ensures
        verdict == conversation_state(leaf_credentials(ratchet_tree@), env.is_some(), now),
{
    let env_present = env.is_some();
    let mut scan = StateScan::new(env_present, now);
    let mut i: usize = 0;
    assert(ratchet_tree@.subrange(0, 0) == Seq::<Option<Node>>::empty());
    while i < ratchet_tree.len() && !scan.is_done()
        invariant
            i <= ratchet_tree@.len(),
            scan.seen() == leaf_credentials(ratchet_tree@.subrange(0, i as int)),
            scan.env_present() == env_present,
            scan.now() == now,
        decreases ratchet_tree@.len() - i,
    {
        proof {
            let next = ratchet_tree@.subrange(0, i + 1);
            assert(next.drop_last() == ratchet_tree@.subrange(0, i as int));
            assert(next.last() == ratchet_tree@[i as int]);
        }
        match &ratchet_tree[i] {
            Some(Node::LeafNode(member)) => {
                scan.observe(member);
            },
            _ => {},
        }
        i += 1;
    }
    proof {
        let seen = ratchet_tree@.subrange(0, i as int);
        let rest = ratchet_tree@.subrange(i as int, ratchet_tree@.len() as int);
        assert(seen + rest == ratchet_tree@);
        lemma_leaf_credentials_concat(seen, rest);
        if i < ratchet_tree.len() {
            lemma_stopped_scan_is_final(
                leaf_credentials(seen),
                leaf_credentials(rest),
                env_present,
                now,
            );
        } else {
            assert(seen == ratchet_tree@);
        }
    }
    scan.conclude()
}

impl MlsCentral {
    /// Tells whether a conversation is verified: whether every member holds a
    /// certificate that is valid at `now`.
    ///
    /// `members` are the credentials of the conversation's current members,
    /// in the order of the roster. The time of interest of the validation
    /// context is moved to `now` before anything is judged.
    pub fn e2ei_conversation_state(&mut self, members: &Vec<MemberCredential>, now: u64) -> (state:
        Result<E2eiConversationState, CryptoError>)
        ensures
            state == Ok::<E2eiConversationState, CryptoError>(
                conversation_state(members@, old(self)@.pki_env.is_some(), now),
            ),
            final(self)@ == old(self)@.refreshed(now),
    {
        self.refresh_time_of_interest(now);
        Ok(compute_state(members, MlsCredentialType::X509, self.pki_env(), now))
    }

    /// Verifies the state of a group before joining it, as far as that can be
    /// done: a group whose descriptor could not be parsed or authenticated
    /// (`ratchet_tree` is an error) counts as not verified.
    ///
    /// The time of interest of the validation context is moved to `now`
    /// before anything is judged.
    pub fn e2ei_verify_group_state(
        &mut self,
        ratchet_tree: Result<Vec<Option<Node>>, CryptoError>,
        now: u64,
    ) -> (state: Result<E2eiConversationState, CryptoError>)
        ensures
            state == Ok::<E2eiConversationState, CryptoError>(
                match ratchet_tree {
                    Ok(tree) => conversation_state(
                        leaf_credentials(tree@),
                        old(self)@.pki_env.is_some(),
                        now,
                    ),
                    Err(_) => E2eiConversationState::NotVerified,
                },
            ),
            final(self)@ == old(self)@.refreshed(now),
    {
        self.refresh_time_of_interest(now);
        let rt = match ratchet_tree {
            Ok(rt) => rt,
            Err(_) => {
                return Ok(E2eiConversationState::NotVerified);
            },
        };
        Ok(compute_tree_state(&rt, MlsCredentialType::X509, self.pki_env(), now))
    }

    /// Tells which state a group is in before it is joined and its metadata
    /// trusted. A descriptor that could not be parsed or authenticated
    /// (`ratchet_tree` is an error) is a hard failure, reported as it came:
    /// to fold it into a verdict would let a forged descriptor pass for a
    /// group's state.
    ///
    /// The time of interest of the validation context is moved to `now`
    /// before anything is judged.
    pub fn get_credential_in_use(
        &mut self,
        ratchet_tree: Result<Vec<Option<Node>>, CryptoError>,
        credential_type: MlsCredentialType,
        now: u64,
    ) -> (state: Result<E2eiConversationState, CryptoError>)
        ensures
            state == (match ratchet_tree {
                Ok(tree) => Ok::<E2eiConversationState, CryptoError>(
                    conversation_state(
                        leaf_credentials(tree@),
                        old(self)@.pki_env.is_some(),
                        now,
                    ),
                ),
                Err(e) => Err(e),
            }),
            final(self)@ == old(self)@.refreshed(now),
    {
        self.refresh_time_of_interest(now);
        let rt = match ratchet_tree {
            Ok(rt) => rt,
            Err(e) => {
                return Err(e);
            },
        };
        self.get_credential_in_use_in_ratchet_tree(&rt, credential_type, now)
    }

    /// The state of the group with the given ratchet tree, judged at `now`
    /// against the validation context as it stands.
    pub fn get_credential_in_use_in_ratchet_tree(
        &self,
        ratchet_tree: &Vec<Option<Node>>,
        credential_type: MlsCredentialType,
        now: u64,
    ) -> (state: Result<E2eiConversationState, CryptoError>)
        ensures
            state == Ok::<E2eiConversationState, CryptoError>(
                conversation_state(leaf_credentials(ratchet_tree@), self@.pki_env.is_some(), now),
            ),
    {
        Ok(compute_tree_state(ratchet_tree, credential_type, self.pki_env(), now))
    }
}

} // verus!
