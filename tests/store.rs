use angel_whisper::crypto::gen_keypair;
use angel_whisper::session::SessionState;
use angel_whisper::store::SessionStore;
use angel_whisper::ServerSession;

fn make_store() -> SessionStore {
    SessionStore::new()
}

#[test]
fn session_not_found() {
    let store = make_store();

    let pair = gen_keypair();
    assert!(store.find_by_pk(&pair.0).is_none())
}

#[test]
fn create_and_read() {
    let mut store = make_store();
    let session = ServerSession::new(gen_keypair().0);
    let id = session.id().clone();

    assert_eq!(store.insert(session.clone()), Some(()));
    let subject1 = store.find_by_pk(&id).unwrap();
    assert_eq!(*subject1, session);
    let subject2 = store.find(&id.0).unwrap();
    assert_eq!(subject2.id(), session.id());
}

#[test]
fn insert_twice() {
    let mut store = make_store();
    let session = ServerSession::new(gen_keypair().0);

    assert_eq!(store.insert(session.clone()), Some(()));
    assert_eq!(store.insert(session.clone()), None);
}

#[test]
fn remove() {
    let mut store = make_store();
    let session = ServerSession::new(gen_keypair().0);

    assert_eq!(store.insert(session.clone()), Some(()));
    store.destroy(&session.id());
    let subject = store.find_by_pk(&session.id());
    assert!(subject.is_none());
}

#[test]
fn expired_session_is_not_inserted() {
    let mut store = make_store();
    let session = ServerSession::new_at(gen_keypair().0, 1000);
    assert_eq!(store.insert_at(session, 1000 + 2_040_000), None);
    assert_eq!(store.len(), 0);
    assert_eq!(store.insert_at(session, 1000 + 2_039_999), Some(()));
    assert_eq!(store.len(), 1);
}

#[test]
fn update_replaces_only_a_held_session() {
    let mut store = make_store();
    let mut session = ServerSession::new(gen_keypair().0);
    assert!(!store.update(session));
    store.insert(session).unwrap();
    session.abandon();
    assert!(store.update(session));
    assert_eq!(store.find_by_pk(&session.id()).unwrap().state(), SessionState::Error);
    assert_eq!(store.len(), 1);
}

#[test]
fn find_with_wrong_length_is_none() {
    let mut store = make_store();
    let session = ServerSession::new(gen_keypair().0);
    store.insert(session).unwrap();
    assert!(store.find(&session.id().0[..31]).is_none());
    assert!(store.contains(&session.id()));
}

#[test]
fn reaper_drops_expired_and_failed_sessions() {
    let mut store = make_store();
    let old = ServerSession::new_at(gen_keypair().0, 0);
    let young = ServerSession::new_at(gen_keypair().0, 1_000_000);
    let mut failed = ServerSession::new_at(gen_keypair().0, 1_000_000);
    failed.abandon();
    for s in [old, young, failed] {
        assert_eq!(store.insert_at(s, 1_000_000), Some(()));
    }
    assert_eq!(store.len(), 3);
    store.reap_at(2_040_000);
    assert_eq!(store.len(), 1);
    assert!(store.contains(&young.id()));
    assert!(!store.contains(&old.id()));
    assert!(!store.contains(&failed.id()));
    store.reap_at(3_040_000);
    assert_eq!(store.len(), 0);
}
