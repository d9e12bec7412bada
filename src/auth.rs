//! The authenticator: the policy that decides which long-term client keys
//! are welcome.
use vstd::prelude::*;

use crate::crypto::PublicKey;
use crate::session::bytes_eq;

verus! {

/// Authenticates a client by its long-term public key.
pub trait Authenticator {
    /// Whether the key is welcome.
    spec fn accepts(&self, key: Seq<u8>) -> bool;

    /// Whether `key` is welcome.
    fn is_valid(&self, key: &PublicKey) -> (r: bool)
        ensures
            r == self.accepts(key@),
    ;
}

/// An authenticator that welcomes the keys of a fixed list.
#[derive(Clone, Debug)]
pub struct DumbAuthenticator {
    white_list: Vec<PublicKey>,
}

impl DumbAuthenticator {
    /// The keys that are welcome.
    pub closed spec fn keys(&self) -> Seq<PublicKey> {
        self.white_list@
    }

    /// An authenticator that welcomes exactly `keys`.
    pub fn new(keys: Vec<PublicKey>) -> (r: DumbAuthenticator)
        ensures
            r.keys() == keys@,
    {
        DumbAuthenticator { white_list: keys }
    }
}

impl Authenticator for DumbAuthenticator {
    closed spec fn accepts(&self, key: Seq<u8>) -> bool {
        exists|i: int| 0 <= i < self.white_list@.len() && (#[trigger] self.white_list@[i])@ == key
    }

    fn is_valid(&self, key: &PublicKey) -> (r: bool) {
        let mut i: usize = 0;
        while i < self.white_list.len()
            invariant
                i <= self.white_list@.len(),
                forall|j: int| 0 <= j < i ==> (#[trigger] self.white_list@[j])@ != key@,
            decreases self.white_list@.len() - i,
        {
            if bytes_eq(&self.white_list[i].0, &key.0) {
                return true;
            }
            i = i + 1;
        }
        false
    }
}

impl DumbAuthenticator {
    /// Whether a key is welcome: it is on the list.
    pub proof fn lemma_accepts(&self, key: Seq<u8>)
        ensures
            self.accepts(key) <==> exists|i: int| 0 <= i < self.keys().len() && (#[trigger] self.keys()[i])@ == key,
    {
        if self.accepts(key) {
            let i = choose|i: int| 0 <= i < self.white_list@.len() && (#[trigger] self.white_list@[i])@ == key;
            assert(self.keys()[i]@ == key);
        }
        if exists|i: int| 0 <= i < self.keys().len() && (#[trigger] self.keys()[i])@ == key {
            let i = choose|i: int| 0 <= i < self.keys().len() && (#[trigger] self.keys()[i])@ == key;
            assert(self.white_list@[i]@ == key);
        }
    }
}

} // verus!
