//! Decoding and encoding of certificates and revocation lists.
//!
//! The ASN.1 work is done by the `x509-cert` crate. This module states what the
//! rest of the library relies on: each decoder and encoder is a function of its
//! input alone, and its result has a name that contracts can speak of.

use vstd::prelude::*;
use x509_cert::der::Decode;
use x509_cert::der::DecodePem;
use x509_cert::der::Encode;

verus! {

/// The validity window of the certificate that `der` encodes, as seconds since
/// the Unix epoch (`not_before`, `not_after`); `None` where `der` is not the
/// DER encoding of a certificate.
pub uninterp spec fn certificate_validity(der: Seq<u8>) -> Option<(u64, u64)>;

/// The DER encoding of the certificate that the PEM text `pem` holds; `None`
/// where `pem` is not a PEM document labelled `CERTIFICATE` around a
/// certificate.
pub uninterp spec fn certificate_of_pem(pem: Seq<char>) -> Option<Seq<u8>>;

/// What the revocation list encoded by `der` says: its next-update time in
/// seconds since the Unix epoch, if it has one, and the DER encoding of each
/// of its revoked-certificate entries, if it has that field; `None` where
/// `der` is not the DER encoding of a revocation list.
pub uninterp spec fn revocation_list(der: Seq<u8>) -> Option<(Option<u64>, Option<Seq<Seq<u8>>>)>;

/// The PEM document with the given label around `data`, lines ended by a line
/// feed; `None` where the encoder refuses the label or the length.
pub uninterp spec fn pem_document(label: Seq<char>, data: Seq<u8>) -> Option<Seq<char>>;

/// The byte strings that a list of byte vectors holds.
pub open spec fn bytes_of(list: Seq<Vec<u8>>) -> Seq<Seq<u8>> {
    Seq::new(list.len(), |i: int| list[i]@)
}

/// The texts that a list of strings holds.
pub open spec fn texts_of(list: Seq<String>) -> Seq<Seq<char>> {
    Seq::new(list.len(), |i: int| list[i]@)
}

/// The mathematical content of a decoded revocation list.
pub open spec fn revocation_list_model(
    crl: Option<(Option<u64>, Option<Vec<Vec<u8>>>)>,
) -> Option<(Option<u64>, Option<Seq<Seq<u8>>>)> {
    match crl {
        Some((next_update, Some(revoked))) => Some((next_update, Some(bytes_of(revoked@)))),
        Some((next_update, None)) => Some((next_update, None)),
        None => None,
    }
}

/// Calls `Certificate::from_der` of `x509-cert` and reads the two ends of the
/// validity field with `Time::to_unix_duration`. Trusted: the result is a
/// function of the bytes, named [`certificate_validity`]. The decoder accepts
/// no trailing data and does not check the signature.
#[verifier::external_body]
fn decode_certificate_validity(der: &[u8]) -> (validity: Option<(u64, u64)>)
    ensures
        validity == certificate_validity(der@),
{
    match x509_cert::Certificate::from_der(der) {
        Ok(cert) => {
            let window = cert.tbs_certificate.validity;
            Some((
                window.not_before.to_unix_duration().as_secs(),
                window.not_after.to_unix_duration().as_secs(),
            ))
        },
        Err(_) => None,
    }
}

/// Calls `Certificate::from_pem` of `x509-cert` and hands the certificate back
/// as DER through `Encode::to_der`. Trusted: the result is a function of the
/// text, named [`certificate_of_pem`].
#[verifier::external_body]
fn decode_certificate_pem(pem: &str) -> (der: Option<Vec<u8>>)
    ensures
        der.is_some() == certificate_of_pem(pem@).is_some(),
        der matches Some(d) ==> certificate_of_pem(pem@) == Some(d@),
{
    match x509_cert::Certificate::from_pem(pem) {
        Ok(cert) => cert.to_der().ok(),
        Err(_) => None,
    }
}

/// Calls `CertificateList::from_der` of `x509-cert`; reads `next_update` with
/// `Time::to_unix_duration` and encodes each entry of `revoked_certificates`
/// with `Encode::to_der`. Trusted: the result is a function of the bytes, named
/// [`revocation_list`]. The signature is not checked.
#[verifier::external_body]
fn decode_revocation_list(der: &[u8]) -> (crl: Option<
    (Option<u64>, Option<Vec<Vec<u8>>>),
>)
    ensures
        revocation_list_model(crl) == revocation_list(der@),
{
    let list = x509_cert::crl::CertificateList::from_der(der).ok()?;
    let revoked = match list.tbs_cert_list.revoked_certificates {
        Some(entries) => Some(
            entries.iter().map(|e| e.to_der()).collect::<Result<Vec<_>, _>>().ok()?,
        ),
        None => None,
    };
    Some((list.tbs_cert_list.next_update.map(|t| t.to_unix_duration().as_secs()), revoked))
}

/// Calls `pem::encode_string` of the `der` crate, as re-exported by
/// `x509-cert`, with line-feed line endings. Trusted: the result is a function
/// of the label and the bytes, named [`pem_document`].
#[verifier::external_body]
fn encode_pem(label: &str, data: &[u8]) -> (pem: Option<String>)
    ensures
        pem.is_some() == pem_document(label@, data@).is_some(),
        pem matches Some(p) ==> pem_document(label@, data@) == Some(p@),
{
    x509_cert::der::pem::encode_string(label, x509_cert::der::pem::LineEnding::LF, data).ok()
}

/// The period during which a certificate is valid, both ends in seconds since
/// the Unix epoch.
#[derive(Debug, Clone, Copy, PartialEq, Eq, Structural)]
pub struct Validity {
    pub not_before: u64,
    pub not_after: u64,
}

impl Validity {
    /// The period contains the instant `time`, its two ends included.
    pub open spec fn contains(self, time: u64) -> bool {
        self.not_before <= time <= self.not_after
    }

    /// Whether the certificate is neither premature nor expired at `now`.
    pub fn is_time_valid(&self, now: u64) -> (valid: bool)
        ensures
            valid == self.contains(now),
    {
        self.not_before <= now && now <= self.not_after
    }
}

/// The validity period of the certificate that `der` encodes.
pub open spec fn validity_of(der: Seq<u8>) -> Option<Validity> {
    match certificate_validity(der) {
        Some((not_before, not_after)) => Some(Validity { not_before, not_after }),
        None => None,
    }
}

/// Decodes a DER certificate and reads its validity period. `None` where the
/// bytes are not a certificate.
pub fn certificate_validity_from_der(der: &Vec<u8>) -> (validity: Option<Validity>)
    ensures
        validity == validity_of(der@),
{
    match decode_certificate_validity(der.as_slice()) {
        Some((not_before, not_after)) => Some(Validity { not_before, not_after }),
        None => None,
    }
}

/// A decoded revocation list: when the next one is due, in seconds since the
/// Unix epoch, and the DER encoding of each revoked-certificate entry. Either
/// field is absent where the list does not have it.
#[derive(Debug, Clone)]
pub struct RevocationList {
    pub next_update: Option<u64>,
    pub revoked: Option<Vec<Vec<u8>>>,
}

/// The set of the given entries; empty where there is no list of entries.
pub open spec fn entry_set(entries: Option<Seq<Seq<u8>>>) -> Set<Seq<u8>> {
    match entries {
        Some(list) => list.to_set(),
        None => Set::empty(),
    }
}

/// The set of revoked-certificate entries of the revocation list that `der`
/// encodes; empty where `der` encodes none.
pub open spec fn revoked_entries(der: Seq<u8>) -> Set<Seq<u8>> {
    match revocation_list(der) {
        Some((_, entries)) => entry_set(entries),
        None => Set::empty(),
    }
}

/// The next-update time of the revocation list that `der` encodes.
pub open spec fn crl_expiration(der: Seq<u8>) -> Option<u64> {
    match revocation_list(der) {
        Some((next_update, _)) => next_update,
        None => None,
    }
}

impl RevocationList {
    /// The list's content as contracts see it.
    pub open spec fn model(self) -> (Option<u64>, Option<Seq<Seq<u8>>>) {
        (
            self.next_update,
            match self.revoked {
                Some(list) => Some(bytes_of(list@)),
                None => None,
            },
        )
    }

    /// The set of the list's revoked-certificate entries.
    pub open spec fn entries(self) -> Set<Seq<u8>> {
        entry_set(self.model().1)
    }

    /// Whether two lists revoke the same set of entries, whatever the order
    /// and however often an entry is repeated.
    pub fn same_revoked(&self, other: &RevocationList) -> (same: bool)
        ensures
            same == (self.entries() == other.entries()),
    {
        let none: Vec<Vec<u8>> = Vec::new();
        let mine = match &self.revoked {
            Some(list) => list,
            None => &none,
        };
        let theirs = match &other.revoked {
            Some(list) => list,
            None => &none,
        };
        assert(bytes_of(none@).to_set() =~= Set::<Seq<u8>>::empty());
        let same = is_subset(mine, theirs) && is_subset(theirs, mine);
        proof {
            if same {
                assert(self.entries() =~= other.entries());
            }
        }
        same
    }
}

/// Whether `wanted` is an element of `list`.
fn contains_bytes(list: &Vec<Vec<u8>>, wanted: &Vec<u8>) -> (found: bool)
    ensures
        found == bytes_of(list@).contains(wanted@),
{
    let mut i: usize = 0;
    while i < list.len()
        invariant
            i <= list@.len(),
            forall|j: int| 0 <= j < i ==> (#[trigger] bytes_of(list@)[j]) != wanted@,
        decreases list@.len() - i,
    {
        if bytes_equal(&list[i], wanted) {
            assert(bytes_of(list@)[i as int] == wanted@);
            return true;
        }
        i += 1;
    }
    false
}

/// Whether every element of `a` is an element of `b`.
fn is_subset(a: &Vec<Vec<u8>>, b: &Vec<Vec<u8>>) -> (subset: bool)
    ensures
        subset == bytes_of(a@).to_set().subset_of(bytes_of(b@).to_set()),
{
    let mut i: usize = 0;
    while i < a.len()
        invariant
            i <= a@.len(),
            forall|j: int| 0 <= j < i ==> bytes_of(b@).contains(#[trigger] bytes_of(a@)[j]),
        decreases a@.len() - i,
    {
        if !contains_bytes(b, &a[i]) {
            assert(bytes_of(a@).to_set().contains(bytes_of(a@)[i as int]));
            return false;
        }
        i += 1;
    }
    let ghost (ours, theirs) = (bytes_of(a@), bytes_of(b@));
    assert forall|x: Seq<u8>| ours.to_set().contains(x) implies theirs.to_set().contains(x) by {
        let j = choose|j: int| 0 <= j < ours.len() && ours[j] == x;
        assert(theirs.contains(ours[j]));
    }
    true
}

/// Decodes a DER revocation list. `None` where the bytes are not one.
pub fn revocation_list_from_der(der: &Vec<u8>) -> (crl: Option<RevocationList>)
    ensures
        match crl {
            Some(list) => revocation_list(der@) == Some(list.model()),
            None => revocation_list(der@) is None,
        },
{
    match decode_revocation_list(der.as_slice()) {
        Some((next_update, revoked)) => Some(RevocationList { next_update, revoked }),
        None => None,
    }
}

/// Decodes a PEM certificate and gives it back as DER. `None` where the text
/// is not a PEM document labelled `CERTIFICATE` around a certificate.
pub fn certificate_from_pem(pem: &String) -> (der: Option<Vec<u8>>)
    ensures
        der.is_some() == certificate_of_pem(pem@).is_some(),
        der matches Some(d) ==> certificate_of_pem(pem@) == Some(d@),
{
    decode_certificate_pem(pem.as_str())
}

/// Encodes `data` as a PEM document under `label`, with line-feed line ends.
/// `None` where the encoder refuses the label or the length.
pub fn pem_encode(label: &str, data: &Vec<u8>) -> (pem: Option<String>)
    ensures
        pem.is_some() == pem_document(label@, data@).is_some(),
        pem matches Some(p) ==> pem_document(label@, data@) == Some(p@),
{
    encode_pem(label, data.as_slice())
}

/// Whether `der` decodes as a revocation list.
pub fn is_revocation_list(der: &Vec<u8>) -> (yes: bool)
    ensures
        yes == revocation_list(der@).is_some(),
{
    decode_revocation_list(der.as_slice()).is_some()
}

/// Whether two byte vectors hold the same bytes.
pub fn bytes_equal(a: &Vec<u8>, b: &Vec<u8>) -> (same: bool)
    ensures
        same == (a@ == b@),
{
    if a.len() != b.len() {
        return false;
    }
    let mut i: usize = 0;
    while i < a.len()
        invariant
            i <= a@.len(),
            a@.len() == b@.len(),
            forall|j: int| 0 <= j < i ==> a@[j] == b@[j],
        decreases a@.len() - i,
    {
        if a[i] != b[i] {
            return false;
        }
        i += 1;
    }
    assert(a@ =~= b@);
    true
}

/// A copy of `bytes`.
pub fn copy_bytes(bytes: &Vec<u8>) -> (copy: Vec<u8>)
    ensures
        copy@ == bytes@,
{
    bytes.clone()
}

} // verus!
