//! The validation context: the trust anchor, the intermediate certificates
//! and the revocation lists that certificates are validated against, with the
//! time of interest at which expiry and revocation are judged.
//!
//! A context is never edited. It is built anew from the store after every
//! registration, and only its time of interest moves.

use vstd::prelude::*;
use crate::error::CryptoError;
use crate::keystore::{distinct_keys, has_key, key_index, upsert, Entry, KeystoreView};
use crate::x509::{bytes_of, certificate_validity, revocation_list};

verus! {

/// What a validation context holds.
pub struct PkiEnvironmentView {
    pub trust_anchor: Seq<u8>,
    pub intermediates: Seq<Seq<u8>>,
    pub crls: Seq<Seq<u8>>,
    pub time_of_interest: u64,
}

/// The validation context. All three kinds of content are DER encoded.
pub struct PkiEnvironment {
    trust_anchor: Vec<u8>,
    intermediates: Vec<Vec<u8>>,
    crls: Vec<Vec<u8>>,
    time_of_interest: u64,
}

impl View for PkiEnvironment {
    type V = PkiEnvironmentView;

    closed spec fn view(&self) -> PkiEnvironmentView {
        PkiEnvironmentView {
            trust_anchor: self.trust_anchor@,
            intermediates: bytes_of(self.intermediates@),
            crls: bytes_of(self.crls@),
            time_of_interest: self.time_of_interest,
        }
    }
}

/// The contents of keyed entries, in their order.
pub open spec fn contents(entries: Seq<Entry>) -> Seq<Seq<u8>> {
    Seq::new(entries.len(), |i: int| entries[i].1)
}

/// Every element decodes as a certificate.
pub open spec fn all_certificates(ders: Seq<Seq<u8>>) -> bool {
    forall|i: int| 0 <= i < ders.len() ==> certificate_validity(#[trigger] ders[i]) is Some
}

/// Every element decodes as a revocation list.
pub open spec fn all_revocation_lists(ders: Seq<Seq<u8>>) -> bool {
    forall|i: int| 0 <= i < ders.len() ==> revocation_list(#[trigger] ders[i]) is Some
}

/// Every entity of the store decodes as what it is stored as.
pub open spec fn decodable(store: KeystoreView) -> bool {
    &&& store.acme_ca matches Some(anchor) ==> certificate_validity(anchor) is Some
    &&& all_certificates(contents(store.intermediates))
    &&& all_revocation_lists(contents(store.crls))
}

/// The context that a store gives rise to at the time `now`: none without a
/// trust anchor; an error where a stored entity does not decode; otherwise the
/// anchor with every intermediate certificate and every revocation list, in
/// the store's order.
pub open spec fn environment_of(store: KeystoreView, now: u64) -> Result<
    Option<PkiEnvironmentView>,
    CryptoError,
> {
    match store.acme_ca {
        None => Ok(None),
        Some(anchor) => if decodable(store) {
            Ok(
                Some(
                    PkiEnvironmentView {
                        trust_anchor: anchor,
                        intermediates: contents(store.intermediates),
                        crls: contents(store.crls),
                        time_of_interest: now,
                    },
                ),
            )
        } else {
            Err(CryptoError::MalformedInput)
        },
    }
}

/// Replacing or appending one content keeps the others as they were.
pub proof fn lemma_upsert_contents(entries: Seq<Entry>, key: Seq<char>, content: Seq<u8>)
    requires
        distinct_keys(entries),
    ensures
        contents(upsert(entries, key, content)) == (if has_key(entries, key) {
            contents(entries).update(key_index(entries, key), content)
        } else {
            contents(entries).push(content)
        }),
{
    if has_key(entries, key) {
        let k = key_index(entries, key);
        assert(contents(upsert(entries, key, content)) =~= contents(entries).update(k, content));
    } else {
        assert(contents(upsert(entries, key, content)) =~= contents(entries).push(content));
    }
}

/// Saving a content that decodes as a certificate among contents that all do
/// leaves contents that all do; saving one that does not decode leaves one
/// that does not.
pub proof fn lemma_upsert_certificates(entries: Seq<Entry>, key: Seq<char>, content: Seq<u8>)
    requires
        distinct_keys(entries),
        all_certificates(contents(entries)),
    ensures
        all_certificates(contents(upsert(entries, key, content))) == certificate_validity(
            content,
        ).is_some(),
{
    lemma_upsert_contents(entries, key, content);
    let after = contents(upsert(entries, key, content));
    let k = if has_key(entries, key) {
        key_index(entries, key)
    } else {
        entries.len() as int
    };
    assert(after[k] == content);
    if certificate_validity(content).is_some() {
        assert forall|i: int| 0 <= i < after.len() implies certificate_validity(
            #[trigger] after[i],
        ) is Some by {
            if i != k {
                assert(after[i] == contents(entries)[i]);
            }
        }
    }
}

/// The same for revocation lists.
pub proof fn lemma_upsert_revocation_lists(entries: Seq<Entry>, key: Seq<char>, content: Seq<u8>)
    requires
        distinct_keys(entries),
        all_revocation_lists(contents(entries)),
    ensures
        all_revocation_lists(contents(upsert(entries, key, content))) == revocation_list(
            content,
        ).is_some(),
{
    lemma_upsert_contents(entries, key, content);
    let after = contents(upsert(entries, key, content));
    let k = if has_key(entries, key) {
        key_index(entries, key)
    } else {
        entries.len() as int
    };
    assert(after[k] == content);
    if revocation_list(content).is_some() {
        assert forall|i: int| 0 <= i < after.len() implies revocation_list(
            #[trigger] after[i],
        ) is Some by {
            if i != k {
                assert(after[i] == contents(entries)[i]);
            }
        }
    }
}

impl PkiEnvironment {
    /// A context of the given contents, judged at `time_of_interest`.
    pub fn init(
        trust_anchor: Vec<u8>,
        intermediates: Vec<Vec<u8>>,
        crls: Vec<Vec<u8>>,
        time_of_interest: u64,
    ) -> (env: PkiEnvironment)
        ensures
            env@ == (PkiEnvironmentView {
                trust_anchor: trust_anchor@,
                intermediates: bytes_of(intermediates@),
                crls: bytes_of(crls@),
                time_of_interest,
            }),
    {
        PkiEnvironment { trust_anchor, intermediates, crls, time_of_interest }
    }

    /// The trust anchor.
    pub fn trust_anchor(&self) -> (der: &Vec<u8>)
        ensures
            der@ == self@.trust_anchor,
    {
        &self.trust_anchor
    }

    /// The intermediate certificates.
    pub fn intermediates(&self) -> (ders: &Vec<Vec<u8>>)
        ensures
            bytes_of(ders@) == self@.intermediates,
    {
        &self.intermediates
    }

    /// The revocation lists.
    pub fn crls(&self) -> (ders: &Vec<Vec<u8>>)
        ensures
            bytes_of(ders@) == self@.crls,
    {
        &self.crls
    }

    /// The time at which expiry and revocation are judged, in seconds since
    /// the Unix epoch.
    pub fn time_of_interest(&self) -> (time: u64)
        ensures
            time == self@.time_of_interest,
    {
        self.time_of_interest
    }

    /// Moves the time of interest to `now`; the contents stay.
    pub fn refresh_time_of_interest(&mut self, now: u64)
        ensures
            final(self)@ == (PkiEnvironmentView { time_of_interest: now, ..old(self)@ }),
    {
        self.time_of_interest = now;
    }
}

} // verus!
