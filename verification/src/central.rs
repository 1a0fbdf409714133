//! The owner of the PKI state: the store of durable entities and the
//! validation context that is built from it.

use vstd::prelude::*;
use crate::error::CryptoError;
use crate::keystore::{entries_of, Keystore, KeystoreView, Stored};
use crate::pki_env::{
    all_certificates, all_revocation_lists, contents, environment_of, PkiEnvironment,
    PkiEnvironmentView,
};
use crate::x509::{bytes_of, certificate_validity_from_der, copy_bytes, is_revocation_list};

verus! {

/// What a central holds: the store, and the validation context if one is set
/// up.
pub struct MlsCentralView {
    pub keystore: KeystoreView,
    pub pki_env: Option<PkiEnvironmentView>,
}

impl MlsCentralView {
    /// The same central with the time of interest of its validation context,
    /// if it has one, moved to `now`.
    pub open spec fn refreshed(self, now: u64) -> MlsCentralView {
        MlsCentralView {
            pki_env: match self.pki_env {
                Some(env) => Some(PkiEnvironmentView { time_of_interest: now, ..env }),
                None => None,
            },
            ..self
        }
    }

    /// The store is valid and the validation context, if there is one, is the
    /// one that the store gives rise to at the context's time of interest.
    pub open spec fn valid(self) -> bool {
        &&& self.keystore.valid()
        &&& self.pki_env matches Some(env) ==> environment_of(
            self.keystore,
            env.time_of_interest,
        ) == Ok::<Option<PkiEnvironmentView>, CryptoError>(Some(env))
    }
}

/// The owner of the PKI state. Every registration goes through it, and every
/// verdict is computed against its validation context.
pub struct MlsCentral {
    keystore: Keystore,
    pki_env: Option<PkiEnvironment>,
}

/// What an optional validation context holds.
pub open spec fn env_view(env: Option<PkiEnvironment>) -> Option<PkiEnvironmentView> {
    match env {
        Some(e) => Some(e@),
        None => None,
    }
}

impl View for MlsCentral {
    type V = MlsCentralView;

    closed spec fn view(&self) -> MlsCentralView {
        MlsCentralView {
            keystore: self.keystore@,
            pki_env: env_view(self.pki_env),
        }
    }
}

/// The DER contents of the stored certificates, if every one of them decodes.
pub(crate) fn collect_certificates(stored: &Vec<Stored>) -> (ders: Option<Vec<Vec<u8>>>)
    ensures
        match ders {
            Some(all) => all_certificates(contents(entries_of(stored@))) && bytes_of(all@)
                == contents(entries_of(stored@)),
            None => !all_certificates(contents(entries_of(stored@))),
        },
{
    let ghost wanted = contents(entries_of(stored@));
    let mut all: Vec<Vec<u8>> = Vec::new();
    let mut i: usize = 0;
    while i < stored.len()
        invariant
            i <= stored@.len(),
            wanted == contents(entries_of(stored@)),
            bytes_of(all@) == wanted.subrange(0, i as int),
            all_certificates(wanted.subrange(0, i as int)),
        decreases stored@.len() - i,
    {
        assert(wanted[i as int] == stored@[i as int].1@);
        if certificate_validity_from_der(&stored[i].1).is_none() {
            return None;
        }
        let ghost before = bytes_of(all@);
        all.push(copy_bytes(&stored[i].1));
        proof {
            assert(bytes_of(all@) =~= before.push(wanted[i as int]));
            assert(wanted.subrange(0, i + 1) =~= wanted.subrange(0, i as int).push(
                wanted[i as int],
            ));
        }
        i += 1;
    }
    proof {
        assert(wanted.subrange(0, i as int) == wanted);
    }
    Some(all)
}

/// The DER contents of the stored revocation lists, if every one of them
/// decodes.
pub(crate) fn collect_revocation_lists(stored: &Vec<Stored>) -> (ders: Option<Vec<Vec<u8>>>)
    ensures
        match ders {
            Some(all) => all_revocation_lists(contents(entries_of(stored@))) && bytes_of(all@)
                == contents(entries_of(stored@)),
            None => !all_revocation_lists(contents(entries_of(stored@))),
        },
{
    let ghost wanted = contents(entries_of(stored@));
    let mut all: Vec<Vec<u8>> = Vec::new();
    let mut i: usize = 0;
    while i < stored.len()
        invariant
            i <= stored@.len(),
            wanted == contents(entries_of(stored@)),
            bytes_of(all@) == wanted.subrange(0, i as int),
            all_revocation_lists(wanted.subrange(0, i as int)),
        decreases stored@.len() - i,
    {
        assert(wanted[i as int] == stored@[i as int].1@);
        if !is_revocation_list(&stored[i].1) {
            return None;
        }
        let ghost before = bytes_of(all@);
        all.push(copy_bytes(&stored[i].1));
        proof {
            assert(bytes_of(all@) =~= before.push(wanted[i as int]));
            assert(wanted.subrange(0, i + 1) =~= wanted.subrange(0, i as int).push(
                wanted[i as int],
            ));
        }
        i += 1;
    }
    proof {
        assert(wanted.subrange(0, i as int) == wanted);
    }
    Some(all)
}

impl MlsCentral {
    /// The invariant of every central: its view is valid.
    #[verifier::type_invariant]
    pub open spec fn well_formed(self) -> bool {
        self@.valid()
    }

    /// A central over the given store, with no validation context yet.
    pub fn new(keystore: Keystore) -> (central: MlsCentral)
        ensures
            central@.keystore == keystore@,
            central@.pki_env is None,
            central@.valid(),
    {
        proof {
            use_type_invariant(&keystore);
        }
        MlsCentral { keystore, pki_env: None }
    }

    /// The store, for whoever persists it.
    pub fn keystore(&self) -> (store: &Keystore)
        ensures
            store@ == self@.keystore,
            self@.valid(),
    {
        proof {
            use_type_invariant(self);
        }
        &self.keystore
    }

    /// The validation context, if one is set up.
    pub fn pki_env(&self) -> (env: Option<&PkiEnvironment>)
        ensures
            self@.valid(),
            match env {
                Some(e) => self@.pki_env == Some(e@),
                None => self@.pki_env is None,
            },
    {
        proof {
            use_type_invariant(self);
        }
        self.pki_env.as_ref()
    }

    /// Moves the time of interest of the validation context, if there is one,
    /// to `now`. Expiry and revocation are judged at that time from then on.
    pub fn refresh_time_of_interest(&mut self, now: u64)
        ensures
            final(self)@ == old(self)@.refreshed(now),
            final(self)@.valid(),
    {
        proof {
            use_type_invariant(&*self);
        }
        let mut current: Option<PkiEnvironment> = None;
        std::mem::swap(&mut self.pki_env, &mut current);
        if let Some(mut env) = current {
            env.refresh_time_of_interest(now);
            self.pki_env = Some(env);
        }
    }

    /// Takes the store out, leaving an empty central behind. What is taken
    /// goes back in through `install`.
    pub(crate) fn take_keystore(&mut self) -> (keystore: Keystore)
        ensures
            keystore@ == old(self)@.keystore,
            keystore@.valid(),
            final(self)@.pki_env is None,
    {
        proof {
            use_type_invariant(&*self);
        }
        self.pki_env = None;
        let mut keystore = Keystore::new();
        std::mem::swap(&mut self.keystore, &mut keystore);
        keystore
    }

    /// Puts a store and the validation context built from it in place, as one
    /// step.
    pub(crate) fn install(&mut self, keystore: Keystore, pki_env: Option<PkiEnvironment>)
        requires
            (MlsCentralView { keystore: keystore@, pki_env: env_view(pki_env) }).valid(),
        ensures
            final(self)@ == (MlsCentralView { keystore: keystore@, pki_env: env_view(pki_env) }),
    {
        proof {
            use_type_invariant(&*self);
        }
        self.pki_env = None;
        self.keystore = keystore;
        self.pki_env = pki_env;
    }

    /// Puts a validation context in place that was built from the store in
    /// place.
    pub(crate) fn set_pki_env(&mut self, env: PkiEnvironment)
        requires
            environment_of(old(self)@.keystore, env@.time_of_interest) == Ok::<
                Option<PkiEnvironmentView>,
                CryptoError,
            >(Some(env@)),
        ensures
            final(self)@ == (MlsCentralView { pki_env: Some(env@), ..old(self)@ }),
    {
        proof {
            use_type_invariant(&*self);
        }
        self.pki_env = Some(env);
    }

    /// Builds a validation context from the store, judged at `now`: none where
    /// no trust anchor is stored, an error where a stored entity does not
    /// decode.
    pub fn restore_pki_env(keystore: &Keystore, now: u64) -> (restored: Result<
        Option<PkiEnvironment>,
        CryptoError,
    >)
        ensures
            match environment_of(keystore@, now) {
                Ok(Some(env)) => restored matches Ok(Some(built)) && built@ == env,
                Ok(None) => restored matches Ok(None),
                Err(e) => restored matches Err(failure) && failure == e,
            },
    {
        let anchor = match keystore.find_acme_ca() {
            Some(anchor) => anchor,
            None => {
                return Ok(None);
            },
        };
        if certificate_validity_from_der(anchor).is_none() {
            return Err(CryptoError::MalformedInput);
        }
        let intermediates = match collect_certificates(keystore.intermediates()) {
            Some(all) => all,
            None => {
                return Err(CryptoError::MalformedInput);
            },
        };
        let crls = match collect_revocation_lists(keystore.crls()) {
            Some(all) => all,
            None => {
                return Err(CryptoError::MalformedInput);
            },
        };
        Ok(Some(PkiEnvironment::init(copy_bytes(anchor), intermediates, crls, now)))
    }
}

} // verus!
