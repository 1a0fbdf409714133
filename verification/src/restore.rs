//! Bringing a central in line with the entities that were persisted.

use vstd::prelude::*;
use crate::central::{MlsCentral, MlsCentralView};
use crate::error::CryptoError;
use crate::keystore::Keystore;
use crate::pki_env::environment_of;

verus! {

impl MlsCentral {
    /// Takes over the entities that were loaded from disk and builds the
    /// validation context from them, judged at `now`. It is for a central
    /// that starts up, or that runs beside another instance which has written
    /// to the same disk.
    ///
    /// Without a trust anchor among the entities there is no context
    /// afterwards. Where an entity does not decode, the call fails and the
    /// central stays as it was.
    pub fn restore_from_disk(&mut self, keystore: Keystore, now: u64) -> (done: Result<
        (),
        CryptoError,
    >)
        ensures
            match environment_of(keystore@, now) {
                Ok(pki_env) => done is Ok && final(self)@ == (MlsCentralView {
                    keystore: keystore@,
                    pki_env,
                }),
                Err(e) => done == Err::<(), CryptoError>(e) && final(self)@ == old(self)@,
            },
    {
        proof {
            use_type_invariant(&keystore);
        }
        match Self::restore_pki_env(&keystore, now) {
            Ok(pki_env) => {
                self.install(keystore, pki_env);
                Ok(())
            },
            Err(e) => Err(e),
        }
    }
}

} // verus!
