//! The session registry: server sessions keyed by the client's short-term
//! public key, each key at most once.
use vstd::prelude::*;

use crate::clock::now_millis;
use crate::crypto::PublicKey;
use crate::server::{ServerView, Session};
use crate::session::{bytes_eq, SessionState};

verus! {

/// Server sessions keyed by the client's short-term public key.
pub struct SessionStore {
    sessions: Vec<Session>,
}

/// Whether a session is kept by the reaper at time `now`: it has not
/// expired and has not failed.
pub open spec fn kept_at(s: ServerView, now: i64) -> bool {
    s.valid_at(now) && s.state != SessionState::Error
}

/// Sessions `t` are what the reaper keeps of `s` at time `now`: exactly
/// those that are still valid and have not failed, unchanged.
pub open spec fn reaped(s: Map<Seq<u8>, ServerView>, t: Map<Seq<u8>, ServerView>, now: i64) -> bool {
    &&& forall|k: Seq<u8>| #[trigger] t.contains_key(k) <==> s.contains_key(k) && kept_at(s[k], now)
    &&& forall|k: Seq<u8>| #[trigger] t.contains_key(k) ==> t[k] == s[k]
}

/// Whether `s` can join sessions `m` at time `now`: its key is not held
/// and it has not expired.
pub open spec fn insertable(m: Map<Seq<u8>, ServerView>, s: ServerView, now: i64) -> bool {
    !m.contains_key(s.client_pk) && s.valid_at(now)
}

impl View for SessionStore {
    type V = Map<Seq<u8>, ServerView>;

    closed spec fn view(&self) -> Map<Seq<u8>, ServerView> {
        Map::new(
            |k: Seq<u8>| self.has_at(k),
            |k: Seq<u8>| self.sessions@[self.index_of(k)]@,
        )
    }
}

impl SessionStore {
    spec fn has_at(&self, k: Seq<u8>) -> bool {
        exists|i: int| 0 <= i < self.sessions@.len() && (#[trigger] self.sessions@[i])@.client_pk == k
    }

    spec fn index_of(&self, k: Seq<u8>) -> int {
        choose|i: int| 0 <= i < self.sessions@.len() && (#[trigger] self.sessions@[i])@.client_pk == k
    }

    /// Each key is held by at most one session.
    pub closed spec fn wf(&self) -> bool {
        forall|i: int, j: int|
            0 <= i < self.sessions@.len() && 0 <= j < self.sessions@.len() && i != j
                ==> (#[trigger] self.sessions@[i])@.client_pk != (#[trigger] self.sessions@[j])@.client_pk
    }

    proof fn lemma_entry(&self, i: int)
        requires
            self.wf(),
            0 <= i < self.sessions@.len(),
        ensures
            self@.contains_key(self.sessions@[i]@.client_pk),
            self@[self.sessions@[i]@.client_pk] == self.sessions@[i]@,
    {
        let k = self.sessions@[i]@.client_pk;
        assert(self.has_at(k));
        let j = self.index_of(k);
        assert(self.sessions@[j]@.client_pk == k);
    }

    /// An empty store.
    pub fn new() -> (r: SessionStore)
        ensures
            r.wf(),
            r@ == Map::<Seq<u8>, ServerView>::empty(),
    {
        let r = SessionStore { sessions: Vec::new() };
        assert(r@ =~= Map::<Seq<u8>, ServerView>::empty());
        r
    }

    /// Number of sessions held.
    pub fn len(&self) -> (r: usize)
        requires
            self.wf(),
        ensures
            r == self@.len(),
    {
        proof {
            self.lemma_len();
        }
        self.sessions.len()
    }

    proof fn lemma_len(&self)
        requires
            self.wf(),
        ensures
            self@.len() == self.sessions@.len(),
        decreases self.sessions@.len(),
    {
        let ks = self.sessions@.map_values(|s: Session| s@.client_pk);
        assert forall|i: int, j: int| 0 <= i < j < ks.len() implies ks[i] != ks[j] by {
            assert(self.sessions@[i]@.client_pk != self.sessions@[j]@.client_pk);
        }
        assert(ks.no_duplicates());
        ks.unique_seq_to_set();
        assert(self@.dom() =~= ks.to_set()) by {
            assert forall|k: Seq<u8>| self@.dom().contains(k) implies ks.to_set().contains(k) by {
                let i = self.index_of(k);
                assert(ks[i] == k);
            }
            assert forall|k: Seq<u8>| ks.to_set().contains(k) implies self@.dom().contains(k) by {
                let i = choose|i: int| 0 <= i < ks.len() && ks[i] == k;
                assert(self.sessions@[i]@.client_pk == k);
            }
        }
    }

    /// Where the session with key `key` stands, if there is one.
    fn position(&self, key: &PublicKey) -> (r: Option<usize>)
        requires
            self.wf(),
        ensures
            r matches Some(i) ==> i < self.sessions@.len() && self.sessions@[i as int]@.client_pk == key@,
            r is None ==> !self@.contains_key(key@),
    {
        let mut i: usize = 0;
        while i < self.sessions.len()
            invariant
                i <= self.sessions@.len(),
                forall|j: int| 0 <= j < i ==> (#[trigger] self.sessions@[j])@.client_pk != key@,
            decreases self.sessions@.len() - i,
        {
            let id = self.sessions[i].id();
            if bytes_eq(&id.0, &key.0) {
                return Some(i);
            }
            i = i + 1;
        }
        None
    }

    /// The session with key `key`, if there is one.
    pub fn find_by_pk(&self, key: &PublicKey) -> (r: Option<&Session>)
        requires
            self.wf(),
        ensures
            r is None <==> !self@.contains_key(key@),
            r matches Some(s) ==> s@ == self@[key@] && s@.client_pk == key@,
    {
        match self.position(key) {
            None => None,
            Some(i) => {
                proof {
                    self.lemma_entry(i as int);
                }
                Some(&self.sessions[i])
            },
        }
    }

    /// The session whose key is held in `bytes`, if `bytes` is a key and
    /// there is one.
    pub fn find(&self, bytes: &[u8]) -> (r: Option<&Session>)
        requires
            self.wf(),
        ensures
            r is None <==> bytes@.len() != 32 || !self@.contains_key(bytes@),
            r matches Some(s) ==> s@ == self@[bytes@],
    {
        if bytes.len() != 32 {
            return None;
        }
        let key = crate::frame::key_from_slice(bytes, 0);
        assert(key@ =~= bytes@);
        self.find_by_pk(&key)
    }

    /// Whether a session with key `key` is held.
    pub fn contains(&self, key: &PublicKey) -> (r: bool)
        requires
            self.wf(),
        ensures
            r == self@.contains_key(key@),
    {
        match self.position(key) {
            None => false,
            Some(i) => {
                proof {
                    self.lemma_entry(i as int);
                }
                true
            },
        }
    }

    /// Inserts `session` unless its key is already held or it has expired
    /// now; `Some(())` when it was inserted.
    pub fn insert(&mut self, session: Session) -> (r: Option<()>)
        requires
            old(self).wf(),
        ensures
            final(self).wf(),
            exists|now: i64| (r is Some <==> #[trigger] insertable(old(self)@, session@, now)),
            r is Some ==> final(self)@ == old(self)@.insert(session@.client_pk, session@),
            r is None ==> final(self)@ == old(self)@,
    {
        let now = now_millis();
        let r = self.insert_at(session, now);
        assert(r is Some <==> insertable(old(self)@, session@, now));
        r
    }

    /// `insert` at time `now`.
    pub fn insert_at(&mut self, session: Session, now: i64) -> (r: Option<()>)
        requires
            old(self).wf(),
        ensures
            final(self).wf(),
            r is Some <==> insertable(old(self)@, session@, now),
            r is Some ==> final(self)@ == old(self)@.insert(session@.client_pk, session@),
            r is None ==> final(self)@ == old(self)@,
    {
        let id = session.id();
        if !session.is_valid_at(now) || self.contains(&id) {
            return None;
        }
        let ghost old_store = *self;
        self.sessions.push(session);
        let ghost k = session@.client_pk;
        assert(self.wf()) by {
            assert forall|i: int, j: int|
                0 <= i < self.sessions@.len() && 0 <= j < self.sessions@.len() && i != j
                    implies (#[trigger] self.sessions@[i])@.client_pk != (#[trigger] self.sessions@[j])@.client_pk by {
                if i < old_store.sessions@.len() && j < old_store.sessions@.len() {
                    assert(old_store.sessions@[i] == self.sessions@[i]);
                    assert(old_store.sessions@[j] == self.sessions@[j]);
                } else if i < old_store.sessions@.len() {
                    assert(old_store.sessions@[i] == self.sessions@[i]);
                    assert(old_store.has_at(self.sessions@[i]@.client_pk));
                } else {
                    assert(old_store.sessions@[j] == self.sessions@[j]);
                    assert(old_store.has_at(self.sessions@[j]@.client_pk));
                }
            }
        }
        assert(self@ =~= old_store@.insert(k, session@)) by {
            assert forall|key: Seq<u8>| #[trigger] self@.contains_key(key) <==> old_store@.insert(k, session@).contains_key(key) by {
                if self.has_at(key) && key != k {
                    let i = self.index_of(key);
                    assert(old_store.sessions@[i] == self.sessions@[i]);
                    assert(old_store.has_at(key));
                }
                if old_store.has_at(key) {
                    let i = old_store.index_of(key);
                    assert(old_store.sessions@[i] == self.sessions@[i]);
                }
                if key == k {
                    assert(self.sessions@[old_store.sessions@.len() as int] == session);
                }
            }
            assert forall|key: Seq<u8>| #[trigger] self@.contains_key(key) implies self@[key] == old_store@.insert(k, session@)[key] by {
                let i = self.index_of(key);
                self.lemma_entry(i);
                if key != k {
                    let j = old_store.index_of(key);
                    assert(old_store.sessions@[j] == self.sessions@[j]);
                    old_store.lemma_entry(j);
                    self.lemma_entry(j);
                } else {
                    self.lemma_entry(old_store.sessions@.len() as int);
                }
            }
        }
        Some(())
    }

    /// Replaces the session that has the same key as `session`; `false`,
    /// and no change, where there is none.
    pub fn update(&mut self, session: Session) -> (r: bool)
        requires
            old(self).wf(),
        ensures
            final(self).wf(),
            r == old(self)@.contains_key(session@.client_pk),
            r ==> final(self)@ == old(self)@.insert(session@.client_pk, session@),
            !r ==> final(self)@ == old(self)@,
    {
        let id = session.id();
        match self.position(&id) {
            None => false,
            Some(i) => {
                let ghost old_store = *self;
                let ghost k = session@.client_pk;
                proof {
                    old_store.lemma_entry(i as int);
                }
                self.sessions.set(i, session);
                assert(self.wf()) by {
                    assert forall|a: int, b: int|
                        0 <= a < self.sessions@.len() && 0 <= b < self.sessions@.len() && a != b
                            implies (#[trigger] self.sessions@[a])@.client_pk != (#[trigger] self.sessions@[b])@.client_pk by {
                        assert(old_store.sessions@[i as int]@.client_pk == k);
                        if a != i && b != i {
                            assert(old_store.sessions@[a] == self.sessions@[a]);
                            assert(old_store.sessions@[b] == self.sessions@[b]);
                        } else if a != i {
                            assert(old_store.sessions@[a] == self.sessions@[a]);
                        } else {
                            assert(old_store.sessions@[b] == self.sessions@[b]);
                        }
                    }
                }
                assert(self@ =~= old_store@.insert(k, session@)) by {
                    assert forall|key: Seq<u8>| #[trigger] self@.contains_key(key) <==> old_store@.insert(k, session@).contains_key(key) by {
                        if self.has_at(key) {
                            let a = self.index_of(key);
                            if a != i {
                                assert(old_store.sessions@[a] == self.sessions@[a]);
                            }
                        }
                        if old_store.has_at(key) {
                            let a = old_store.index_of(key);
                            if a != i {
                                assert(old_store.sessions@[a] == self.sessions@[a]);
                            }
                        }
                        if key == k {
                            assert(self.sessions@[i as int] == session);
                        }
                    }
                    assert forall|key: Seq<u8>| #[trigger] self@.contains_key(key) implies self@[key] == old_store@.insert(k, session@)[key] by {
                        let a = self.index_of(key);
                        self.lemma_entry(a);
                        if a != i {
                            assert(old_store.sessions@[a] == self.sessions@[a]);
                            old_store.lemma_entry(a);
                        }
                    }
                }
                true
            },
        }
    }

    /// Removes the session with key `key`, if there is one.
    pub fn destroy(&mut self, key: &PublicKey)
        requires
            old(self).wf(),
        ensures
            final(self).wf(),
            final(self)@ == old(self)@.remove(key@),
    {
        match self.position(key) {
            None => {
                assert(self@ =~= self@.remove(key@));
            },
            Some(i) => {
                let ghost old_store = *self;
                self.sessions.remove(i);
                assert(forall|a: int| 0 <= a < i ==> self.sessions@[a] == old_store.sessions@[a]);
                assert(forall|a: int| i <= a < self.sessions@.len() ==> self.sessions@[a] == old_store.sessions@[a + 1]);
                assert(self.wf()) by {
                    assert forall|a: int, b: int|
                        0 <= a < self.sessions@.len() && 0 <= b < self.sessions@.len() && a != b
                            implies (#[trigger] self.sessions@[a])@.client_pk != (#[trigger] self.sessions@[b])@.client_pk by {
                        let a2 = if a < i { a } else { a + 1 };
                        let b2 = if b < i { b } else { b + 1 };
                        assert(old_store.sessions@[a2]@.client_pk != old_store.sessions@[b2]@.client_pk);
                    }
                }
                assert(self@ =~= old_store@.remove(key@)) by {
                    assert forall|k: Seq<u8>| #[trigger] self@.contains_key(k) <==> old_store@.remove(key@).contains_key(k) by {
                        if self.has_at(k) {
                            let a = self.index_of(k);
                            let a2 = if a < i { a } else { a + 1 };
                            assert(old_store.sessions@[a2]@.client_pk == k);
                            assert(a2 != i);
                            assert(old_store.sessions@[i as int]@.client_pk != k);
                        }
                        if old_store.has_at(k) && k != key@ {
                            let a = old_store.index_of(k);
                            assert(a != i);
                            let a1 = if a < i { a } else { a - 1 };
                            assert(self.sessions@[a1]@.client_pk == k);
                        }
                    }
                    assert forall|k: Seq<u8>| #[trigger] self@.contains_key(k) implies self@[k] == old_store@.remove(key@)[k] by {
                        let a = self.index_of(k);
                        self.lemma_entry(a);
                        let a2 = if a < i { a } else { a + 1 };
                        old_store.lemma_entry(a2);
                    }
                }
            },
        }
    }

    /// Drops every session that has expired or failed by now.
    pub fn reap(&mut self)
        requires
            old(self).wf(),
        ensures
            final(self).wf(),
            exists|now: i64| #[trigger] reaped(old(self)@, final(self)@, now),
    {
        let now = now_millis();
        self.reap_at(now);
        assert(reaped(old(self)@, self@, now));
    }

    /// `reap` at time `now`: keeps exactly the sessions that are still
    /// valid at `now` and have not failed.
    pub fn reap_at(&mut self, now: i64)
        requires
            old(self).wf(),
        ensures
            final(self).wf(),
            forall|k: Seq<u8>|
                #[trigger] final(self)@.contains_key(k) <==> old(self)@.contains_key(k) && kept_at(old(self)@[k], now),
            forall|k: Seq<u8>| #[trigger] final(self)@.contains_key(k) ==> final(self)@[k] == old(self)@[k],
    {
        let ghost old_store = *self;
        let mut kept: Vec<Session> = Vec::new();
        let ghost mut idx: Seq<int> = Seq::empty();
        let mut i: usize = 0;
        while i < self.sessions.len()
            invariant
                *self == old_store,
                old_store.wf(),
                i <= self.sessions@.len(),
                idx.len() == kept@.len(),
                forall|a: int|
                    0 <= a < kept@.len() ==> 0 <= #[trigger] idx[a] < i && kept@[a] == self.sessions@[idx[a]]
                        && kept_at(self.sessions@[idx[a]]@, now),
                forall|a: int, b: int| 0 <= a < b < kept@.len() ==> #[trigger] idx[a] < #[trigger] idx[b],
                forall|j: int|
                    0 <= j < i && kept_at((#[trigger] self.sessions@[j])@, now)
                        ==> exists|a: int| 0 <= a < idx.len() && idx[a] == j,
            decreases self.sessions@.len() - i,
        {
            let s = self.sessions[i];
            let ghost prev = idx;
            if s.is_valid_at(now) && s.state() != SessionState::Error {
                kept.push(s);
                proof {
                    idx = idx.push(i as int);
                    assert(idx[idx.len() - 1] == i as int);
                }
            }
            proof {
                assert forall|j: int|
                    0 <= j < i + 1 && kept_at((#[trigger] self.sessions@[j])@, now)
                        implies exists|a: int| 0 <= a < idx.len() && idx[a] == j by {
                    if j < i {
                        let a = choose|a: int| 0 <= a < prev.len() && prev[a] == j;
                        assert(idx[a] == prev[a]);
                    } else {
                        assert(idx[idx.len() - 1] == j);
                    }
                }
            }
            i = i + 1;
        }
        self.sessions = kept;
        assert(self.wf()) by {
            assert forall|a: int, b: int|
                0 <= a < self.sessions@.len() && 0 <= b < self.sessions@.len() && a != b
                    implies (#[trigger] self.sessions@[a])@.client_pk != (#[trigger] self.sessions@[b])@.client_pk by {
                if a < b {
                    assert(idx[a] < idx[b]);
                } else {
                    assert(idx[b] < idx[a]);
                }
                assert(old_store.sessions@[idx[a]]@.client_pk != old_store.sessions@[idx[b]]@.client_pk);
            }
        }
        assert forall|k: Seq<u8>|
            #[trigger] self@.contains_key(k) <==> old_store@.contains_key(k) && kept_at(old_store@[k], now) by {
            if self.has_at(k) {
                let a = self.index_of(k);
                old_store.lemma_entry(idx[a]);
            }
            if old_store.has_at(k) && kept_at(old_store@[k], now) {
                let j = old_store.index_of(k);
                old_store.lemma_entry(j);
                let a = choose|a: int| 0 <= a < idx.len() && idx[a] == j;
                assert(self.sessions@[a]@.client_pk == k);
            }
        }
        assert forall|k: Seq<u8>| #[trigger] self@.contains_key(k) implies self@[k] == old_store@[k] by {
            let a = self.index_of(k);
            self.lemma_entry(a);
            old_store.lemma_entry(idx[a]);
        }
    }
}

} // verus!
