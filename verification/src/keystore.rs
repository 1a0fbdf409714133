//! The durable entities of the PKI environment: one trust anchor, the
//! intermediate certificates and the revocation lists.
//!
//! The store is an in-memory value. Whoever persists it writes and reads the
//! entities through the functions below; the library never touches a disk.

use vstd::prelude::*;

verus! {

/// A keyed entity as contracts see it: its key and its DER content.
pub type Entry = (Seq<char>, Seq<u8>);

/// What a store holds.
pub struct KeystoreView {
    pub acme_ca: Option<Seq<u8>>,
    pub intermediates: Seq<Entry>,
    pub crls: Seq<Entry>,
}

/// Some entry of `entries` has the key `key`.
pub open spec fn has_key(entries: Seq<Entry>, key: Seq<char>) -> bool {
    exists|i: int| 0 <= i < entries.len() && (#[trigger] entries[i]).0 == key
}

/// The place of an entry with the key `key`; meaningful where there is one.
pub open spec fn key_index(entries: Seq<Entry>, key: Seq<char>) -> int {
    choose|i: int| 0 <= i < entries.len() && (#[trigger] entries[i]).0 == key
}

/// No two entries share a key.
pub open spec fn distinct_keys(entries: Seq<Entry>) -> bool {
    forall|i: int, j: int|
        0 <= i < entries.len() && 0 <= j < entries.len() && i != j ==> (#[trigger] entries[i]).0
            != (#[trigger] entries[j]).0
}

/// The content stored under `key`, if any.
pub open spec fn lookup(entries: Seq<Entry>, key: Seq<char>) -> Option<Seq<u8>> {
    if has_key(entries, key) {
        Some(entries[key_index(entries, key)].1)
    } else {
        None
    }
}

/// `entries` after saving `content` under `key`: an entry with that key is
/// replaced where it stands, otherwise the new entry goes to the end.
pub open spec fn upsert(entries: Seq<Entry>, key: Seq<char>, content: Seq<u8>) -> Seq<Entry> {
    if has_key(entries, key) {
        entries.update(key_index(entries, key), (key, content))
    } else {
        entries.push((key, content))
    }
}

/// With distinct keys, the only place an entry with `key` can have is the one
/// where it was found.
pub proof fn lemma_key_index_unique(entries: Seq<Entry>, key: Seq<char>, i: int)
    requires
        distinct_keys(entries),
        0 <= i < entries.len(),
        entries[i].0 == key,
    ensures
        has_key(entries, key),
        key_index(entries, key) == i,
{
    let j = key_index(entries, key);
    assert(0 <= j < entries.len() && entries[j].0 == key);
}

/// Saving keeps the keys distinct.
pub proof fn lemma_upsert_distinct(entries: Seq<Entry>, key: Seq<char>, content: Seq<u8>)
    requires
        distinct_keys(entries),
    ensures
        distinct_keys(upsert(entries, key, content)),
        has_key(upsert(entries, key, content), key),
        lookup(upsert(entries, key, content), key) == Some(content),
{
    let after = upsert(entries, key, content);
    if has_key(entries, key) {
        let k = key_index(entries, key);
        assert(0 <= k < entries.len() && entries[k].0 == key);
        assert(after[k].0 == key);
        assert forall|i: int, j: int|
            0 <= i < after.len() && 0 <= j < after.len() && i != j implies (#[trigger] after[i]).0
            != (#[trigger] after[j]).0 by {
            assert(entries[i].0 != entries[j].0);
        }
        lemma_key_index_unique(after, key, k);
    } else {
        let k = entries.len() as int;
        assert(after[k].0 == key);
        assert forall|i: int, j: int|
            0 <= i < after.len() && 0 <= j < after.len() && i != j implies (#[trigger] after[i]).0
            != (#[trigger] after[j]).0 by {
            if i < k {
                assert(after[i] == entries[i]);
            }
            if j < k {
                assert(after[j] == entries[j]);
            }
        }
        lemma_key_index_unique(after, key, k);
    }
}

/// Saving leaves the entities under other keys as they were.
pub proof fn lemma_upsert_keeps_others(
    entries: Seq<Entry>,
    key: Seq<char>,
    content: Seq<u8>,
    other: Seq<char>,
)
    requires
        distinct_keys(entries),
        other != key,
    ensures
        lookup(upsert(entries, key, content), other) == lookup(entries, other),
{
    let after = upsert(entries, key, content);
    lemma_upsert_distinct(entries, key, content);
    if has_key(entries, other) {
        let i = key_index(entries, other);
        assert(after[i] == entries[i]);
        lemma_key_index_unique(after, other, i);
    } else if has_key(after, other) {
        let i = key_index(after, other);
        if i < entries.len() {
            assert(entries[i].0 == other);
        }
    }
}

/// Saving the same content under the same key a second time changes nothing:
/// an entity can be registered over again.
pub proof fn lemma_upsert_idempotent(entries: Seq<Entry>, key: Seq<char>, content: Seq<u8>)
    requires
        distinct_keys(entries),
    ensures
        upsert(upsert(entries, key, content), key, content) == upsert(entries, key, content),
{
    let once = upsert(entries, key, content);
    lemma_upsert_distinct(entries, key, content);
    let k = key_index(once, key);
    assert(0 <= k < once.len() && once[k].0 == key);
    assert(once[k].1 == content);
    assert(once.update(k, (key, content)) =~= once);
}

/// A stored entity: its key and its DER content.
pub type Stored = (String, Vec<u8>);

/// The entries that a list of stored entities stands for.
pub open spec fn entries_of(stored: Seq<Stored>) -> Seq<Entry> {
    Seq::new(stored.len(), |i: int| (stored[i].0@, stored[i].1@))
}

/// The place of the entity stored under `key`, if there is one.
fn position(stored: &Vec<Stored>, key: &String) -> (found: Option<usize>)
    ensures
        match found {
            Some(i) => i < stored@.len() && entries_of(stored@)[i as int].0 == key@,
            None => !has_key(entries_of(stored@), key@),
        },
{
    let mut i: usize = 0;
    while i < stored.len()
        invariant
            i <= stored@.len(),
            forall|j: int| 0 <= j < i ==> (#[trigger] entries_of(stored@)[j]).0 != key@,
        decreases stored@.len() - i,
    {
        if stored[i].0 == *key {
            return Some(i);
        }
        i += 1;
    }
    None
}

/// Saves `content` under `key`, replacing what was stored under it.
fn save(stored: &mut Vec<Stored>, key: String, content: Vec<u8>)
    requires
        distinct_keys(entries_of(old(stored)@)),
    ensures
        entries_of(final(stored)@) == upsert(entries_of(old(stored)@), key@, content@),
        distinct_keys(entries_of(final(stored)@)),
{
    let ghost before = entries_of(stored@);
    proof {
        lemma_upsert_distinct(before, key@, content@);
    }
    match position(stored, &key) {
        Some(i) => {
            proof {
                lemma_key_index_unique(before, key@, i as int);
            }
            stored.set(i, (key, content));
            assert(entries_of(stored@) =~= upsert(before, key@, content@));
        },
        None => {
            stored.push((key, content));
            assert(entries_of(stored@) =~= upsert(before, key@, content@));
        },
    }
}

/// The store of the three entity kinds: the trust anchor, the intermediate
/// certificates under their key-identifier pair, and the revocation lists
/// under their distribution point.
pub struct Keystore {
    acme_ca: Option<Vec<u8>>,
    intermediates: Vec<Stored>,
    crls: Vec<Stored>,
}

impl View for Keystore {
    type V = KeystoreView;

    closed spec fn view(&self) -> KeystoreView {
        KeystoreView {
            acme_ca: match self.acme_ca {
                Some(content) => Some(content@),
                None => None,
            },
            intermediates: entries_of(self.intermediates@),
            crls: entries_of(self.crls@),
        }
    }
}

impl KeystoreView {
    /// No key is used twice.
    pub open spec fn valid(self) -> bool {
        &&& distinct_keys(self.intermediates)
        &&& distinct_keys(self.crls)
    }
}

impl Keystore {
    /// The invariant of every store: its view is valid.
    #[verifier::type_invariant]
    pub open spec fn well_formed(self) -> bool {
        self@.valid()
    }

    /// A store without entities.
    pub fn new() -> (store: Keystore)
        ensures
            store@.acme_ca is None,
            store@.intermediates.len() == 0,
            store@.crls.len() == 0,
            store@.valid(),
    {
        Keystore { acme_ca: None, intermediates: Vec::new(), crls: Vec::new() }
    }

    /// The trust anchor, if one is stored.
    pub fn find_acme_ca(&self) -> (found: Option<&Vec<u8>>)
        ensures
            self@.valid(),
            match found {
                Some(content) => self@.acme_ca == Some(content@),
                None => self@.acme_ca is None,
            },
    {
        proof {
            use_type_invariant(self);
        }
        self.acme_ca.as_ref()
    }

    /// The intermediate certificates, in the order in which their keys were
    /// first saved.
    pub fn intermediates(&self) -> (all: &Vec<Stored>)
        ensures
            self@.valid(),
            entries_of(all@) == self@.intermediates,
    {
        proof {
            use_type_invariant(self);
        }
        &self.intermediates
    }

    /// The revocation lists, in the order in which their distribution points
    /// were first saved.
    pub fn crls(&self) -> (all: &Vec<Stored>)
        ensures
            self@.valid(),
            entries_of(all@) == self@.crls,
    {
        proof {
            use_type_invariant(self);
        }
        &self.crls
    }

    /// The revocation list stored for `distribution_point`, if there is one.
    pub fn find_crl(&self, distribution_point: &String) -> (found: Option<&Vec<u8>>)
        ensures
            match found {
                Some(content) => lookup(self@.crls, distribution_point@) == Some(content@),
                None => lookup(self@.crls, distribution_point@) is None,
            },
    {
        proof {
            use_type_invariant(self);
        }
        match position(&self.crls, distribution_point) {
            Some(i) => {
                proof {
                    lemma_key_index_unique(self@.crls, distribution_point@, i as int);
                }
                Some(&self.crls[i].1)
            },
            None => None,
        }
    }

    /// Stores `content` as the trust anchor, in place of any other.
    pub fn save_acme_ca(&mut self, content: Vec<u8>)
        ensures
            final(self)@.acme_ca == Some(content@),
            final(self)@.intermediates == old(self)@.intermediates,
            final(self)@.crls == old(self)@.crls,
            final(self)@.valid(),
    {
        proof {
            use_type_invariant(&*self);
        }
        self.acme_ca = Some(content);
    }

    /// Stores an intermediate certificate under its key-identifier pair. A
    /// certificate stored under the same pair is replaced.
    pub fn save_intermediate(&mut self, ski_aki_pair: String, content: Vec<u8>)
        ensures
            final(self)@.acme_ca == old(self)@.acme_ca,
            final(self)@.intermediates == upsert(
                old(self)@.intermediates,
                ski_aki_pair@,
                content@,
            ),
            final(self)@.crls == old(self)@.crls,
            final(self)@.valid(),
    {
        proof {
            use_type_invariant(&*self);
        }
        let mut list: Vec<Stored> = Vec::new();
        std::mem::swap(&mut self.intermediates, &mut list);
        save(&mut list, ski_aki_pair, content);
        self.intermediates = list;
    }

    /// Stores a revocation list under its distribution point. A list stored
    /// under the same distribution point is replaced.
    pub fn save_crl(&mut self, distribution_point: String, content: Vec<u8>)
        ensures
            final(self)@.acme_ca == old(self)@.acme_ca,
            final(self)@.intermediates == old(self)@.intermediates,
            final(self)@.crls == upsert(old(self)@.crls, distribution_point@, content@),
            final(self)@.valid(),
    {
        proof {
            use_type_invariant(&*self);
        }
        let mut list: Vec<Stored> = Vec::new();
        std::mem::swap(&mut self.crls, &mut list);
        save(&mut list, distribution_point, content);
        self.crls = list;
    }
}

} // verus!
