//! Registration of the trust anchor, of intermediate certificates and of
//! revocation lists, and the rebuilding of the validation context that each
//! registration ends with.
//!
//! Signature, chain and revocation checks are the work of a certificate
//! validator outside this library. Its verdict on a candidate comes in as an
//! argument; the library decides what is stored and which error wins.

use vstd::prelude::*;
use crate::central::{
    collect_certificates, collect_revocation_lists, MlsCentral, MlsCentralView,
};
use crate::conversation_state::{conversation_state, MemberCredential};
use crate::error::CryptoError;
use crate::keystore::{key_index, lemma_upsert_distinct, lookup, upsert, KeystoreView};
use crate::pki_env::{
    contents, environment_of, lemma_upsert_certificates, lemma_upsert_revocation_lists,
    PkiEnvironment, PkiEnvironmentView,
};
use crate::x509::{
    bytes_equal, bytes_of, certificate_of_pem, certificate_validity,
    certificate_from_pem, certificate_validity_from_der, copy_bytes, crl_expiration,
    pem_document, pem_encode, revocation_list, revocation_list_from_der, revoked_entries,
    texts_of, validity_of,
};

verus! {

/// The distribution points at which the revocation lists of a newly
/// registered intermediate certificate are published, for the caller to fetch
/// them. There are none where the certificate names none, or where it was the
/// trust anchor over again.
#[derive(Debug)]
pub struct NewCrlDistributionPoint {
    uris: Option<Vec<String>>,
}

/// The set of the given texts.
pub open spec fn uri_set(uris: Option<Seq<Seq<char>>>) -> Option<Set<Seq<char>>> {
    match uris {
        Some(list) => Some(list.to_set()),
        None => None,
    }
}

/// The texts of an optional list of strings.
pub open spec fn uri_texts(uris: Option<Vec<String>>) -> Option<Seq<Seq<char>>> {
    match uris {
        Some(list) => Some(texts_of(list@)),
        None => None,
    }
}

impl View for NewCrlDistributionPoint {
    type V = Option<Set<Seq<char>>>;

    closed spec fn view(&self) -> Option<Set<Seq<char>>> {
        uri_set(uri_texts(self.uris))
    }
}

/// Whether `wanted` is one of the strings of `list`.
fn contains_text(list: &Vec<String>, wanted: &String) -> (found: bool)
    ensures
        found == texts_of(list@).contains(wanted@),
{
    let mut i: usize = 0;
    while i < list.len()
        invariant
            i <= list@.len(),
            forall|j: int| 0 <= j < i ==> (#[trigger] texts_of(list@)[j]) != wanted@,
        decreases list@.len() - i,
    {
        if list[i] == *wanted {
            assert(texts_of(list@)[i as int] == wanted@);
            return true;
        }
        i += 1;
    }
    false
}

/// The strings of `list` without repetitions, each where it first occurs.
fn without_duplicates(list: Vec<String>) -> (unique: Vec<String>)
    ensures
        texts_of(unique@).no_duplicates(),
        texts_of(unique@).to_set() == texts_of(list@).to_set(),
{
    let ghost all = texts_of(list@);
    let mut unique: Vec<String> = Vec::new();
    let mut i: usize = 0;
    while i < list.len()
        invariant
            i <= list@.len(),
            all == texts_of(list@),
            texts_of(unique@).no_duplicates(),
            texts_of(unique@).to_set() == all.subrange(0, i as int).to_set(),
        decreases list@.len() - i,
    {
        let ghost before = texts_of(unique@);
        let ghost text = all[i as int];
        assert(text == list@[i as int]@);
        assert(all.subrange(0, i + 1) == all.subrange(0, i as int).push(text));
        proof {
            before.lemma_push_to_set_commute(text);
            all.subrange(0, i as int).lemma_push_to_set_commute(text);
        }
        if !contains_text(&unique, &list[i]) {
            unique.push(list[i].clone());
            assert(texts_of(unique@) == before.push(text));
        } else {
            assert(before.to_set().contains(text));
            assert(before.to_set().insert(text) == before.to_set());
        }
        i += 1;
    }
    assert(all.subrange(0, i as int) == all);
    unique
}

impl NewCrlDistributionPoint {
    #[verifier::type_invariant]
    spec fn well_formed(self) -> bool {
        self.uris matches Some(list) ==> texts_of(list@).no_duplicates()
    }

    /// The list that the distribution points are kept as.
    pub closed spec fn as_list(self) -> Option<Vec<String>> {
        self.uris
    }

    /// The distribution points named by `uris`, each once.
    pub fn new(uris: Option<Vec<String>>) -> (points: NewCrlDistributionPoint)
        ensures
            points@ == uri_set(uri_texts(uris)),
    {
        match uris {
            Some(list) => NewCrlDistributionPoint { uris: Some(without_duplicates(list)) },
            None => NewCrlDistributionPoint { uris: None },
        }
    }

    /// Whether there is a set of distribution points at all.
    pub fn is_some(&self) -> (some: bool)
        ensures
            some == self@.is_some(),
    {
        self.uris.is_some()
    }

    /// The distribution points as a list in which none occurs twice.
    pub fn into_vec(self) -> (uris: Option<Vec<String>>)
        ensures
            uris == self.as_list(),
            uri_set(uri_texts(uris)) == self@,
            uris matches Some(list) ==> texts_of(list@).no_duplicates(),
    {
        proof {
            use_type_invariant(&self);
        }
        self.uris
    }
}

impl From<NewCrlDistributionPoint> for Option<Vec<String>> {
    /// The distribution points as a list in which none occurs twice.
    fn from(dp: NewCrlDistributionPoint) -> (uris: Option<Vec<String>>) {
        dp.into_vec()
    }
}

impl vstd::std_specs::convert::FromSpecImpl<NewCrlDistributionPoint> for Option<Vec<String>> {
    open spec fn obeys_from_spec() -> bool {
        true
    }

    open spec fn from_spec(dp: NewCrlDistributionPoint) -> Option<Vec<String>> {
        dp.as_list()
    }
}

/// What the certificate validator read from a candidate intermediate
/// certificate and concluded about it. Each part is either the finding or
/// the error that the validator gave instead.
#[derive(Debug)]
pub struct IntermediateFindings {
    /// The URIs of the certificate's revocation-list distribution points, if
    /// it names any.
    pub crl_uris: Result<Option<Vec<String>>, CryptoError>,
    /// The certificate's subject key identifier and, if it has one, its
    /// authority key identifier.
    pub key_identifiers: Result<(String, Option<String>), CryptoError>,
    /// Whether the certificate chains to the trust anchor of the current
    /// validation context and is not revoked.
    pub validation: Result<(), CryptoError>,
}

/// The outcome of registering a revocation list.
#[derive(Debug, Clone, Copy, PartialEq, Eq, Structural)]
pub struct CrlRegistration {
    /// The list replaced one for the same distribution point that revoked a
    /// different set of certificates.
    pub dirty: bool,
    /// When the list expires, in seconds since the Unix epoch, if it says so.
    pub expiration: Option<u64>,
}

/// What a dump of the PKI environment holds.
pub struct E2eiDumpedPkiEnvView {
    pub root_ca: Seq<char>,
    pub intermediates: Seq<Seq<char>>,
    pub crls: Seq<Seq<char>>,
}

/// Dump of the PKI environment as PEM.
#[derive(Debug, Clone)]
pub struct E2eiDumpedPkiEnv {
    /// Root CA in use, that is the trust anchor.
    pub root_ca: String,
    /// Intermediate CAs that are loaded.
    pub intermediates: Vec<String>,
    /// CRLs registered in the PKI environment.
    pub crls: Vec<String>,
}

impl View for E2eiDumpedPkiEnv {
    type V = E2eiDumpedPkiEnvView;

    open spec fn view(&self) -> E2eiDumpedPkiEnvView {
        E2eiDumpedPkiEnvView {
            root_ca: self.root_ca@,
            intermediates: texts_of(self.intermediates@),
            crls: texts_of(self.crls@),
        }
    }
}

/// The central that registering the trust anchor held by `pem` leads to, or
/// the error that the registration fails with.
///
/// `validation` is the validator's verdict on the candidate: only its expiry
/// and its self-consistency, since a root has no chain. Whatever the
/// validator says, a candidate outside its validity period at `now` is
/// refused.
pub open spec fn acme_ca_registration(
    pre: MlsCentralView,
    pem: Seq<char>,
    validation: Result<(), CryptoError>,
    now: u64,
) -> Result<MlsCentralView, CryptoError> {
    if pre.keystore.acme_ca is Some {
        Err(CryptoError::TrustAnchorAlreadyRegistered)
    } else {
        match (certificate_of_pem(pem), validation) {
            (None, _) => Err(CryptoError::MalformedInput),
            (Some(_), Err(e)) => Err(e),
            (Some(der), Ok(_)) => {
                let keystore = KeystoreView { acme_ca: Some(der), ..pre.keystore };
                match (validity_of(der), environment_of(keystore, now)) {
                    (None, _) => Err(CryptoError::MalformedInput),
                    (Some(validity), Ok(pki_env)) => if validity.contains(now) {
                        Ok(MlsCentralView { keystore, pki_env })
                    } else {
                        Err(CryptoError::ValidationFailed)
                    },
                    (Some(validity), Err(e)) => if validity.contains(now) {
                        Err(e)
                    } else {
                        Err(CryptoError::ValidationFailed)
                    },
                }
            },
        }
    }
}

/// The key under which an intermediate certificate is stored: its subject key
/// identifier, a colon, and its authority key identifier if it has one.
pub open spec fn ski_aki_pair(ski: Seq<char>, aki: Option<Seq<char>>) -> Seq<char> {
    ski + seq![':'] + (match aki {
        Some(id) => id,
        None => Seq::empty(),
    })
}

/// The key for what the validator found.
pub open spec fn found_pair(ids: (String, Option<String>)) -> Seq<char> {
    ski_aki_pair(
        ids.0@,
        match ids.1 {
            Some(aki) => Some(aki@),
            None => None,
        },
    )
}

/// What registering the intermediate certificate `der` leads to: the
/// distribution points to hand back and the central afterwards, or the error
/// that the registration fails with.
///
/// A candidate that is byte for byte the trust anchor is not stored and yields
/// no distribution points. Whatever the validator says, a candidate outside
/// its validity period at `now` is refused.
pub open spec fn intermediate_registration(
    pre: MlsCentralView,
    der: Seq<u8>,
    findings: IntermediateFindings,
    now: u64,
) -> Result<(Option<Set<Seq<char>>>, MlsCentralView), CryptoError> {
    match pre.keystore.acme_ca {
        None => Err(CryptoError::TrustAnchorNotRegistered),
        Some(anchor) => if der == anchor {
            Ok((None, pre))
        } else {
            match (findings.crl_uris, findings.key_identifiers, findings.validation) {
                (Err(e), _, _) => Err(e),
                (Ok(_), Err(e), _) => Err(e),
                (Ok(uris), Ok(ids), validation) => if pre.pki_env is None {
                    Err(CryptoError::ConsumerError)
                } else {
                    let keystore = KeystoreView {
                        intermediates: upsert(pre.keystore.intermediates, found_pair(ids), der),
                        ..pre.keystore
                    };
                    match (validation, validity_of(der), environment_of(keystore, now)) {
                        (Err(e), _, _) => Err(e),
                        (Ok(_), None, _) => Err(CryptoError::MalformedInput),
                        (Ok(_), Some(validity), env) => if !validity.contains(now) {
                            Err(CryptoError::ValidationFailed)
                        } else {
                            match env {
                                Ok(pki_env) => Ok(
                                    (
                                        uri_set(uri_texts(uris)),
                                        MlsCentralView { keystore, pki_env },
                                    ),
                                ),
                                Err(e) => Err(e),
                            }
                        },
                    }
                },
            }
        },
    }
}

/// The same for a candidate given as PEM text.
pub open spec fn intermediate_pem_registration(
    pre: MlsCentralView,
    pem: Seq<char>,
    findings: IntermediateFindings,
    now: u64,
) -> Result<(Option<Set<Seq<char>>>, MlsCentralView), CryptoError> {
    match certificate_of_pem(pem) {
        Some(der) => intermediate_registration(pre, der, findings, now),
        None => Err(CryptoError::MalformedInput),
    }
}

/// The same for a candidate given as DER bytes.
pub open spec fn intermediate_der_registration(
    pre: MlsCentralView,
    der: Seq<u8>,
    findings: IntermediateFindings,
    now: u64,
) -> Result<(Option<Set<Seq<char>>>, MlsCentralView), CryptoError> {
    if certificate_validity(der) is Some {
        intermediate_registration(pre, der, findings, now)
    } else {
        Err(CryptoError::MalformedInput)
    }
}

/// What registering the revocation list `der` for `distribution_point` leads
/// to: the outcome to report and the central afterwards, or the error that
/// the registration fails with.
///
/// `validation` is the validator's verdict on the list against the current
/// context.
pub open spec fn crl_registration(
    pre: MlsCentralView,
    distribution_point: Seq<char>,
    der: Seq<u8>,
    validation: Result<(), CryptoError>,
    now: u64,
) -> Result<(CrlRegistration, MlsCentralView), CryptoError> {
    if pre.keystore.acme_ca is None {
        Err(CryptoError::TrustAnchorNotRegistered)
    } else if pre.pki_env is None {
        Err(CryptoError::ConsumerError)
    } else if revocation_list(der) is None {
        Err(CryptoError::MalformedInput)
    } else {
        let dirty = match lookup(pre.keystore.crls, distribution_point) {
            Some(existing) => revoked_entries(existing) != revoked_entries(der),
            None => false,
        };
        let keystore = KeystoreView {
            crls: upsert(pre.keystore.crls, distribution_point, der),
            ..pre.keystore
        };
        match (validation, environment_of(keystore, now)) {
            (Err(e), _) => Err(e),
            (Ok(_), Err(e)) => Err(e),
            (Ok(_), Ok(pki_env)) => Ok(
                (
                    CrlRegistration { dirty, expiration: crl_expiration(der) },
                    MlsCentralView { keystore, pki_env },
                ),
            ),
        }
    }
}

/// The PEM label of a certificate.
pub open spec fn certificate_label() -> Seq<char> {
    "CERTIFICATE"@
}

/// The PEM label of a revocation list.
pub open spec fn crl_label() -> Seq<char> {
    "X509 CRL"@
}

/// Every element has a PEM document under `label`.
pub open spec fn all_encodable(label: Seq<char>, ders: Seq<Seq<u8>>) -> bool {
    forall|i: int| 0 <= i < ders.len() ==> pem_document(label, #[trigger] ders[i]) is Some
}

/// The PEM documents of the elements, in their order.
pub open spec fn pem_documents(label: Seq<char>, ders: Seq<Seq<u8>>) -> Seq<Seq<char>> {
    Seq::new(ders.len(), |i: int| pem_document(label, ders[i]).unwrap())
}

/// The dump of a validation context: its three kinds of content as PEM
/// documents, in the context's order; `None` where one of them cannot be
/// encoded.
pub open spec fn dump_of(env: PkiEnvironmentView) -> Option<E2eiDumpedPkiEnvView> {
    if pem_document(certificate_label(), env.trust_anchor) is Some && all_encodable(
        certificate_label(),
        env.intermediates,
    ) && all_encodable(crl_label(), env.crls) {
        Some(
            E2eiDumpedPkiEnvView {
                root_ca: pem_document(certificate_label(), env.trust_anchor).unwrap(),
                intermediates: pem_documents(certificate_label(), env.intermediates),
                crls: pem_documents(crl_label(), env.crls),
            },
        )
    } else {
        None
    }
}

/// Encodes every element as a PEM document under `label`.
fn encode_all(label: &str, ders: &Vec<Vec<u8>>) -> (pems: Option<Vec<String>>)
    ensures
        match pems {
            Some(all) => all_encodable(label@, bytes_of(ders@)) && texts_of(all@) == pem_documents(
                label@,
                bytes_of(ders@),
            ),
            None => !all_encodable(label@, bytes_of(ders@)),
        },
{
    let ghost wanted = bytes_of(ders@);
    let mut all: Vec<String> = Vec::with_capacity(ders.len());
    let mut i: usize = 0;
    while i < ders.len()
        invariant
            i <= ders@.len(),
            wanted == bytes_of(ders@),
            all_encodable(label@, wanted.subrange(0, i as int)),
            texts_of(all@) == pem_documents(label@, wanted.subrange(0, i as int)),
        decreases ders@.len() - i,
    {
        assert(wanted[i as int] == ders@[i as int]@);
        let ghost before = texts_of(all@);
        match pem_encode(label, &ders[i]) {
            Some(pem) => {
                all.push(pem);
                proof {
                    let next = wanted.subrange(0, i + 1);
                    let prefix = wanted.subrange(0, i as int);
                    assert(texts_of(all@) =~= before.push(pem@));
                    assert forall|j: int| 0 <= j < next.len() implies #[trigger] texts_of(all@)[j]
                        == pem_documents(label@, next)[j] by {
                        if j < i {
                            assert(next[j] == prefix[j]);
                            assert(before[j] == pem_documents(label@, prefix)[j]);
                        }
                    }
                    assert(texts_of(all@) =~= pem_documents(label@, next));
                }
            },
            None => {
                return None;
            },
        }
        i += 1;
    }
    assert(wanted.subrange(0, i as int) == wanted);
    Some(all)
}

/// Builds the key of an intermediate certificate from its two identifiers.
fn make_ski_aki_pair(ski: String, aki: Option<String>) -> (pair: String)
    ensures
        pair@ == found_pair((ski, aki)),
{
    proof {
        reveal_strlit(":");
    }
    let mut pair = ski;
    pair.append(":");
    assert(":"@ == seq![':']);
    match aki {
        Some(id) => {
            pair.append(id.as_str());
        },
        None => {
            assert(pair@ + Seq::<char>::empty() == pair@);
        },
    }
    pair
}

impl MlsCentral {
    /// Whether the PKI environment is set up: a validation context is in
    /// place.
    pub fn e2ei_is_pki_env_setup(&self) -> (setup: bool)
        ensures
            setup == self@.pki_env.is_some(),
    {
        self.pki_env().is_some()
    }

    /// Rebuilds the validation context from the store, judged at `now`.
    /// Without a trust anchor in the store there is no context before and
    /// none after. Where an entity of the store does not decode, the context
    /// stays as it was.
    pub fn init_pki_env(&mut self, now: u64) -> (done: Result<(), CryptoError>)
        ensures
            final(self)@.keystore == old(self)@.keystore,
            match environment_of(old(self)@.keystore, now) {
                Ok(Some(env)) => done is Ok && final(self)@.pki_env == Some(env),
                Ok(None) => done is Ok && final(self)@.pki_env is None,
                Err(e) => done == Err::<(), CryptoError>(e) && final(self)@.pki_env == old(
                    self,
                )@.pki_env,
            },
    {
        match Self::restore_pki_env(self.keystore(), now) {
            Ok(Some(env)) => {
                self.set_pki_env(env);
                Ok(())
            },
            Ok(None) => Ok(()),
            Err(e) => Err(e),
        }
    }

    /// Registers the root certificate that every chain must end at.
    ///
    /// Fails where an anchor is registered already, where `trust_anchor_pem`
    /// does not decode, where the validator rejected the candidate
    /// (`validation`), where `now` lies outside the candidate's validity
    /// period, or where an entity already in the store does not decode. On
    /// failure nothing changes. On success the anchor is stored as DER and
    /// the validation context is rebuilt, judged at `now`.
    pub fn e2ei_register_acme_ca(
        &mut self,
        trust_anchor_pem: String,
        validation: Result<(), CryptoError>,
        now: u64,
    ) -> (done: Result<(), CryptoError>)
        ensures
            match acme_ca_registration(old(self)@, trust_anchor_pem@, validation, now) {
                Ok(post) => done is Ok && final(self)@ == post,
                Err(e) => done == Err::<(), CryptoError>(e) && final(self)@ == old(self)@,
            },
    {
        if self.keystore().find_acme_ca().is_some() {
            return Err(CryptoError::TrustAnchorAlreadyRegistered);
        }
        let cert_der = match certificate_from_pem(&trust_anchor_pem) {
            Some(der) => der,
            None => {
                return Err(CryptoError::MalformedInput);
            },
        };
        if let Err(e) = validation {
            return Err(e);
        }
        let ghost candidate = KeystoreView { acme_ca: Some(cert_der@), ..self@.keystore };
        match certificate_validity_from_der(&cert_der) {
            Some(validity) => {
                if !validity.is_time_valid(now) {
                    return Err(CryptoError::ValidationFailed);
                }
            },
            None => {
                return Err(CryptoError::MalformedInput);
            },
        }
        // Build the candidate context off to the side before anything is stored.
        let intermediates = match collect_certificates(self.keystore().intermediates()) {
            Some(all) => all,
            None => {
                return Err(CryptoError::MalformedInput);
            },
        };
        let crls = match collect_revocation_lists(self.keystore().crls()) {
            Some(all) => all,
            None => {
                return Err(CryptoError::MalformedInput);
            },
        };
        let trust_anchor = copy_bytes(&cert_der);
        let env = PkiEnvironment::init(trust_anchor, intermediates, crls, now);
        assert(environment_of(candidate, now) == Ok::<Option<PkiEnvironmentView>, CryptoError>(
            Some(env@),
        ));
        // Persist, then swap the context in.
        let mut keystore = self.take_keystore();
        keystore.save_acme_ca(cert_der);
        assert(keystore@ == candidate);
        self.install(keystore, Some(env));
        Ok(())
    }

    /// Registers an intermediate certificate given as PEM text. See
    /// [`MlsCentral::e2ei_register_intermediate_ca`].
    pub fn e2ei_register_intermediate_ca_pem(
        &mut self,
        cert_pem: String,
        findings: IntermediateFindings,
        now: u64,
    ) -> (done: Result<NewCrlDistributionPoint, CryptoError>)
        ensures
            match intermediate_pem_registration(old(self)@, cert_pem@, findings, now) {
                Ok((points, post)) => done matches Ok(new) && new@ == points && final(self)@
                    == post,
                Err(e) => done matches Err(failure) && failure == e && final(self)@ == old(self)@,
            },
    {
        match certificate_from_pem(&cert_pem) {
            Some(inter_ca) => self.e2ei_register_intermediate_ca(inter_ca, findings, now),
            None => Err(CryptoError::MalformedInput),
        }
    }

    /// Registers an intermediate certificate given as DER bytes. See
    /// [`MlsCentral::e2ei_register_intermediate_ca`].
    pub fn e2ei_register_intermediate_ca_der(
        &mut self,
        cert_der: &Vec<u8>,
        findings: IntermediateFindings,
        now: u64,
    ) -> (done: Result<NewCrlDistributionPoint, CryptoError>)
        ensures
            match intermediate_der_registration(old(self)@, cert_der@, findings, now) {
                Ok((points, post)) => done matches Ok(new) && new@ == points && final(self)@
                    == post,
                Err(e) => done matches Err(failure) && failure == e && final(self)@ == old(self)@,
            },
    {
        if certificate_validity_from_der(cert_der).is_none() {
            return Err(CryptoError::MalformedInput);
        }
        self.e2ei_register_intermediate_ca(copy_bytes(cert_der), findings, now)
    }

    /// Registers an intermediate certificate, DER encoded.
    ///
    /// A trust anchor must be registered. A candidate that is the trust anchor
    /// over again is accepted and ignored. Any other is stored under its
    /// key-identifier pair, in place of a certificate stored under the same
    /// pair, once the validator has read its distribution points and its key
    /// identifiers and has validated it against the current context, and
    /// `now` lies in its validity period; the context is then rebuilt, judged
    /// at `now`. On failure nothing changes.
    pub fn e2ei_register_intermediate_ca(
        &mut self,
        inter_ca: Vec<u8>,
        findings: IntermediateFindings,
        now: u64,
    ) -> (done: Result<NewCrlDistributionPoint, CryptoError>)
        ensures
            match intermediate_registration(old(self)@, inter_ca@, findings, now) {
                Ok((points, post)) => done matches Ok(new) && new@ == points && final(self)@
                    == post,
                Err(e) => done matches Err(failure) && failure == e && final(self)@ == old(self)@,
            },
    {
        let ghost pre = self@;
        // The trust anchor must have been registered at this point.
        let is_anchor = match self.keystore().find_acme_ca() {
            Some(anchor) => bytes_equal(&inter_ca, anchor),
            None => {
                return Err(CryptoError::TrustAnchorNotRegistered);
            },
        };
        // Some federation endpoints repeat the root among the intermediates.
        if is_anchor {
            return Ok(NewCrlDistributionPoint::new(None));
        }
        let IntermediateFindings { crl_uris, key_identifiers, validation } = findings;
        let intermediate_crl = match crl_uris {
            Ok(uris) => uris,
            Err(e) => {
                return Err(e);
            },
        };
        let (ski, aki) = match key_identifiers {
            Ok(ids) => ids,
            Err(e) => {
                return Err(e);
            },
        };
        let ski_aki_pair = make_ski_aki_pair(ski, aki);
        if self.pki_env().is_none() {
            return Err(CryptoError::ConsumerError);
        }
        if let Err(e) = validation {
            return Err(e);
        }
        let ghost candidate = KeystoreView {
            intermediates: upsert(pre.keystore.intermediates, ski_aki_pair@, inter_ca@),
            ..pre.keystore
        };
        proof {
            lemma_upsert_distinct(pre.keystore.intermediates, ski_aki_pair@, inter_ca@);
            lemma_upsert_certificates(pre.keystore.intermediates, ski_aki_pair@, inter_ca@);
        }
        match certificate_validity_from_der(&inter_ca) {
            Some(validity) => {
                if !validity.is_time_valid(now) {
                    return Err(CryptoError::ValidationFailed);
                }
            },
            None => {
                return Err(CryptoError::MalformedInput);
            },
        }
        let mut keystore = self.take_keystore();
        keystore.save_intermediate(ski_aki_pair, inter_ca);
        assert(keystore@ == candidate);
        match Self::restore_pki_env(&keystore, now) {
            Ok(env) => {
                self.install(keystore, env);
                Ok(NewCrlDistributionPoint::new(intermediate_crl))
            },
            Err(e) => {
                // Not reached: the context in place vouches for the store,
                // and the candidate decodes.
                proof {
                    assert(false);
                }
                self.install(keystore, None);
                Err(e)
            },
        }
    }

    /// Registers a revocation list, DER encoded, for the distribution point
    /// it was fetched from.
    ///
    /// A trust anchor must be registered and a validation context be in
    /// place. The list is stored in place of any other for the same
    /// distribution point once it decodes and the validator has accepted it
    /// (`validation`); the context is then rebuilt, judged at `now`. The
    /// outcome tells when the list expires and whether it revokes another set
    /// of certificates than the list it replaced. On failure nothing changes.
    pub fn e2ei_register_crl(
        &mut self,
        crl_dp: String,
        crl_der: Vec<u8>,
        validation: Result<(), CryptoError>,
        now: u64,
    ) -> (done: Result<CrlRegistration, CryptoError>)
        ensures
            match crl_registration(old(self)@, crl_dp@, crl_der@, validation, now) {
                Ok((registration, post)) => done == Ok::<CrlRegistration, CryptoError>(
                    registration,
                ) && final(self)@ == post,
                Err(e) => done == Err::<CrlRegistration, CryptoError>(e) && final(self)@ == old(
                    self,
                )@,
            },
    {
        let ghost pre = self@;
        if self.keystore().find_acme_ca().is_none() {
            return Err(CryptoError::TrustAnchorNotRegistered);
        }
        if self.pki_env().is_none() {
            return Err(CryptoError::ConsumerError);
        }
        // Parse the list; the validator has judged it.
        let crl = match revocation_list_from_der(&crl_der) {
            Some(crl) => crl,
            None => {
                return Err(CryptoError::MalformedInput);
            },
        };
        if let Err(e) = validation {
            return Err(e);
        }
        let expiration = crl.next_update;
        let dirty = match self.keystore().find_crl(&crl_dp) {
            Some(existing) => {
                proof {
                    let k = key_index(pre.keystore.crls, crl_dp@);
                    assert(contents(pre.keystore.crls)[k] == existing@);
                }
                match revocation_list_from_der(existing) {
                    Some(old_crl) => !old_crl.same_revoked(&crl),
                    None => {
                        // Not reached: the context in place vouches for
                        // every stored list.
                        proof {
                            assert(false);
                        }
                        return Err(CryptoError::MalformedInput);
                    },
                }
            },
            None => false,
        };
        proof {
            lemma_upsert_distinct(pre.keystore.crls, crl_dp@, crl_der@);
            lemma_upsert_revocation_lists(pre.keystore.crls, crl_dp@, crl_der@);
        }
        let mut keystore = self.take_keystore();
        keystore.save_crl(crl_dp, crl_der);
        match Self::restore_pki_env(&keystore, now) {
            Ok(env) => {
                self.install(keystore, env);
                Ok(CrlRegistration { dirty, expiration })
            },
            Err(e) => {
                // Not reached: the context in place vouches for the store,
                // and the list decodes.
                proof {
                    assert(false);
                }
                self.install(keystore, None);
                Err(e)
            },
        }
    }

    /// Dumps the PKI environment as PEM: nothing where no validation context
    /// is in place, an error where one of its contents cannot be encoded.
    pub fn e2ei_dump_pki_env(&self) -> (dump: Result<Option<E2eiDumpedPkiEnv>, CryptoError>)
        ensures
            match self@.pki_env {
                None => dump matches Ok(None),
                Some(env) => match dump_of(env) {
                    Some(wanted) => dump matches Ok(Some(dumped)) && dumped@ == wanted,
                    None => dump matches Err(e) && e == CryptoError::MalformedInput,
                },
            },
    {
        let pki_env = match self.pki_env() {
            Some(env) => env,
            None => {
                return Ok(None);
            },
        };
        let root_ca = match pem_encode("CERTIFICATE", pki_env.trust_anchor()) {
            Some(pem) => pem,
            None => {
                return Err(CryptoError::MalformedInput);
            },
        };
        let intermediates = match encode_all("CERTIFICATE", pki_env.intermediates()) {
            Some(all) => all,
            None => {
                return Err(CryptoError::MalformedInput);
            },
        };
        let crls = match encode_all("X509 CRL", pki_env.crls()) {
            Some(all) => all,
            None => {
                return Err(CryptoError::MalformedInput);
            },
        };
        Ok(Some(E2eiDumpedPkiEnv { root_ca, intermediates, crls }))
    }
}

/// No certificate is registered outside its validity period: where the
/// registration of a trust anchor or of an intermediate certificate that is
/// not the anchor succeeds, `now` lies in the certificate's validity period.
pub proof fn lemma_registered_is_time_valid(
    pre: MlsCentralView,
    pem: Seq<char>,
    der: Seq<u8>,
    findings: IntermediateFindings,
    validation: Result<(), CryptoError>,
    now: u64,
)
    ensures
        acme_ca_registration(pre, pem, validation, now) is Ok ==> (validity_of(
            certificate_of_pem(pem).unwrap(),
        ) matches Some(validity) && validity.contains(now)),
        intermediate_registration(pre, der, findings, now) is Ok && pre.keystore.acme_ca != Some(
            der,
        ) ==> (validity_of(der) matches Some(validity) && validity.contains(now)),
{
}

/// A registered trust anchor keeps its place: once a registration has
/// succeeded, every further one fails with `TrustAnchorAlreadyRegistered`,
/// whatever is offered, and so leaves the central, and every verdict computed
/// against it, as the first registration left them.
pub proof fn lemma_second_anchor_is_refused(
    pre: MlsCentralView,
    first_pem: Seq<char>,
    first_validation: Result<(), CryptoError>,
    first_now: u64,
    second_pem: Seq<char>,
    second_validation: Result<(), CryptoError>,
    second_now: u64,
)
    requires
        pre.valid(),
        acme_ca_registration(pre, first_pem, first_validation, first_now) is Ok,
    ensures
        ({
            let post = acme_ca_registration(pre, first_pem, first_validation, first_now).unwrap();
            &&& post.valid()
            &&& post.keystore.acme_ca == certificate_of_pem(first_pem)
            &&& post.pki_env is Some
            &&& acme_ca_registration(post, second_pem, second_validation, second_now) == Err::<
                MlsCentralView,
                CryptoError,
            >(CryptoError::TrustAnchorAlreadyRegistered)
        }),
{
}

/// Nothing but a trust anchor can be registered while no trust anchor is:
/// an intermediate certificate or a revocation list is refused with
/// `TrustAnchorNotRegistered`, whatever the validator found.
pub proof fn lemma_registration_needs_anchor(
    pre: MlsCentralView,
    key: Seq<char>,
    der: Seq<u8>,
    findings: IntermediateFindings,
    validation: Result<(), CryptoError>,
    now: u64,
)
    requires
        pre.keystore.acme_ca is None,
    ensures
        intermediate_registration(pre, der, findings, now) == Err::<
            (Option<Set<Seq<char>>>, MlsCentralView),
            CryptoError,
        >(CryptoError::TrustAnchorNotRegistered),
        crl_registration(pre, key, der, validation, now) == Err::<
            (CrlRegistration, MlsCentralView),
            CryptoError,
        >(CryptoError::TrustAnchorNotRegistered),
{
}

/// An intermediate certificate that is byte for byte the trust anchor is
/// accepted and ignored: the caller gets no distribution points and the
/// central stays as it was, with no entity added.
pub proof fn lemma_anchor_as_intermediate_is_ignored(
    pre: MlsCentralView,
    der: Seq<u8>,
    findings: IntermediateFindings,
    now: u64,
)
    requires
        pre.keystore.acme_ca == Some(der),
    ensures
        intermediate_registration(pre, der, findings, now) == Ok::<
            (Option<Set<Seq<char>>>, MlsCentralView),
            CryptoError,
        >((None, pre)),
{
}

/// A successful registration of an intermediate certificate or of a
/// revocation list leaves a valid central.
pub proof fn lemma_registration_keeps_valid(
    pre: MlsCentralView,
    key: Seq<char>,
    der: Seq<u8>,
    findings: IntermediateFindings,
    validation: Result<(), CryptoError>,
    now: u64,
)
    requires
        pre.valid(),
    ensures
        intermediate_registration(pre, der, findings, now) matches Ok((_, post)) ==> post.valid(),
        crl_registration(pre, key, der, validation, now) matches Ok((_, post)) ==> post.valid()
            && post.pki_env is Some && lookup(post.keystore.crls, key) == Some(der),
{
    if let Ok(ids) = findings.key_identifiers {
        lemma_upsert_distinct(pre.keystore.intermediates, found_pair(ids), der);
    }
    lemma_upsert_distinct(pre.keystore.crls, key, der);
}

/// Registering two revocation lists for one distribution point, one after
/// the other: the second registration is dirty exactly where the two lists
/// revoke different sets of certificates.
pub proof fn lemma_crl_dirty_iff_sets_differ(
    pre: MlsCentralView,
    distribution_point: Seq<char>,
    first: Seq<u8>,
    first_now: u64,
    second: Seq<u8>,
    second_now: u64,
)
    requires
        pre.valid(),
        crl_registration(pre, distribution_point, first, Ok(()), first_now) is Ok,
        crl_registration(
            crl_registration(pre, distribution_point, first, Ok(()), first_now).unwrap().1,
            distribution_point,
            second,
            Ok(()),
            second_now,
        ) is Ok,
    ensures
        ({
            let between = crl_registration(
                pre,
                distribution_point,
                first,
                Ok(()),
                first_now,
            ).unwrap().1;
            let outcome = crl_registration(
                between,
                distribution_point,
                second,
                Ok(()),
                second_now,
            ).unwrap().0;
            outcome.dirty == (revoked_entries(first) != revoked_entries(second))
        }),
{
    lemma_upsert_distinct(pre.keystore.crls, distribution_point, first);
}

/// A registration of a revocation list that decodes succeeds wherever a
/// validation context is in place and the validator accepts the list.
pub proof fn lemma_crl_registration_succeeds(
    pre: MlsCentralView,
    distribution_point: Seq<char>,
    der: Seq<u8>,
    now: u64,
)
    requires
        pre.valid(),
        pre.pki_env is Some,
        revocation_list(der) is Some,
    ensures
        crl_registration(pre, distribution_point, der, Ok(()), now) is Ok,
{
    lemma_upsert_distinct(pre.keystore.crls, distribution_point, der);
    lemma_upsert_revocation_lists(pre.keystore.crls, distribution_point, der);
}

/// After a restart the context is the one that was in place before: a
/// central restored from the entities of another central equals that
/// central, but for the time of interest, which is the time of the restore.
/// Verdicts on the same members at the same time are therefore the same
/// before and after.
pub proof fn lemma_restore_reproduces_context(
    central: MlsCentralView,
    members: Seq<MemberCredential>,
    now: u64,
)
    requires
        central.valid(),
        central.pki_env is Some || central.keystore.acme_ca is None,
    ensures
        environment_of(central.keystore, now) == Ok::<Option<PkiEnvironmentView>, CryptoError>(
            central.refreshed(now).pki_env,
        ),
        environment_of(central.keystore, now) matches Ok(restored) && (MlsCentralView {
            keystore: central.keystore,
            pki_env: restored,
        }) == central.refreshed(now),
        environment_of(central.keystore, now) matches Ok(restored) && conversation_state(
            members,
            restored.is_some(),
            now,
        ) == conversation_state(members, central.pki_env.is_some(), now),
{
}

} // verus!
