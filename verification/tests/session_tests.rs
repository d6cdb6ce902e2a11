use screensaver_bridge::identity::CallerIdentity;
use screensaver_bridge::session::report_destroy;
use screensaver_bridge::session::Refusal;
use screensaver_bridge::session::SessionError;
use screensaver_bridge::session::SessionManager;
use screensaver_bridge::store::InhibitionRecord;
use screensaver_bridge::store::MAX_COOKIE_DRAWS;

fn caller(name: &str) -> CallerIdentity {
    CallerIdentity::new(name.to_string())
}

#[test]
fn new_session_is_idle_and_accepting() {
    let session: SessionManager<u32> = SessionManager::new();
    assert!(session.is_accepting());
    assert!(session.is_idle());
    assert_eq!(session.active_count(), 0);
    assert_eq!(session.owner_of(0), None);
}

#[test]
fn inhibit_and_un_inhibit_between_two_peers() {
    let peer_a = caller(":1.10");
    let peer_b = caller(":1.11");
    let mut session: SessionManager<&str> = SessionManager::new();

    let c1 = session.inhibit(peer_a.duplicate(), Ok("lock-a")).expect("first inhibition");
    let c2 = session.inhibit(peer_b.duplicate(), Ok("lock-b")).expect("second inhibition");
    assert_ne!(c1, c2);
    assert_eq!(session.active_count(), 2);
    assert_eq!(session.owner_of(c1), Some(&peer_a));
    assert_eq!(session.owner_of(c2), Some(&peer_b));

    assert_eq!(session.un_inhibit(c1, &peer_b), Err(SessionError::Unauthorized(c1)));
    assert_eq!(session.active_count(), 2);
    assert_eq!(session.owner_of(c1), Some(&peer_a));

    assert_eq!(
        session.un_inhibit(c1, &peer_a),
        Ok(InhibitionRecord { cookie: c1, owner: peer_a.duplicate(), handle: "lock-a" })
    );
    assert_eq!(session.active_count(), 1);

    assert_eq!(session.un_inhibit(c1, &peer_a), Err(SessionError::NotFound(c1)));
    assert_eq!(session.owner_of(c2), Some(&peer_b));
}

#[test]
fn inhibit_drawn_grants_the_first_free_draw() {
    let mut session: SessionManager<&str> = SessionManager::new();
    assert_eq!(session.inhibit_drawn(caller(":1.10"), Ok("lock-a"), &vec![7]), Ok(7));
    assert_eq!(session.inhibit_drawn(caller(":1.11"), Ok("lock-b"), &vec![7, 7, 8, 9]), Ok(8));
    assert_eq!(session.active_count(), 2);
    assert_eq!(session.owner_of(7), Some(&caller(":1.10")));
    assert_eq!(session.owner_of(8), Some(&caller(":1.11")));
    assert_eq!(session.owner_of(9), None);
}

#[test]
fn the_same_caller_holds_two_inhibitions() {
    let peer = caller(":1.10");
    let mut session: SessionManager<&str> = SessionManager::new();
    assert_eq!(session.inhibit_drawn(peer.duplicate(), Ok("first"), &vec![3, 4]), Ok(3));
    assert_eq!(session.inhibit_drawn(peer.duplicate(), Ok("second"), &vec![3, 4]), Ok(4));
    assert_eq!(session.active_count(), 2);
    assert_eq!(
        session.un_inhibit(3, &peer),
        Ok(InhibitionRecord { cookie: 3, owner: peer.duplicate(), handle: "first" })
    );
    assert_eq!(
        session.un_inhibit(4, &peer),
        Ok(InhibitionRecord { cookie: 4, owner: peer.duplicate(), handle: "second" })
    );

    let c1 = session.inhibit(peer.duplicate(), Ok("third")).expect("inhibition");
    let c2 = session.inhibit(peer.duplicate(), Ok("fourth")).expect("inhibition");
    assert_ne!(c1, c2);
    assert_eq!(session.active_count(), 2);
}

#[test]
fn inhibit_drawn_refuses_when_every_draw_is_taken() {
    let mut session: SessionManager<u32> = SessionManager::new();
    assert_eq!(session.inhibit_drawn(caller(":1.1"), Ok(10), &vec![5]), Ok(5));
    assert_eq!(
        session.inhibit_drawn(caller(":1.2"), Ok(20), &vec![5, 5, 5]),
        Err(Refusal { error: SessionError::StoreFailure, unused: Some(20) })
    );
    assert_eq!(
        session.inhibit_drawn(caller(":1.2"), Ok(20), &Vec::new()),
        Err(Refusal { error: SessionError::StoreFailure, unused: Some(20) })
    );
    assert_eq!(session.active_count(), 1);
    assert_eq!(session.owner_of(5), Some(&caller(":1.1")));
}

#[test]
fn inhibit_drawn_answers_before_it_looks_at_the_draws() {
    let mut session: SessionManager<u32> = SessionManager::new();
    assert_eq!(
        session.inhibit_drawn(caller(":1.1"), Err("no compositor".to_string()), &vec![1, 2]),
        Err(Refusal {
            error: SessionError::BackendUnavailable("no compositor".to_string()),
            unused: None
        })
    );
    assert!(session.is_idle());
    assert!(session.shutdown().is_empty());
    assert_eq!(
        session.inhibit_drawn(caller(":1.1"), Ok(10), &vec![1, 2]),
        Err(Refusal { error: SessionError::Closed, unused: Some(10) })
    );
    assert!(session.is_idle());
}

#[test]
fn inhibit_is_granted_beside_other_inhibitions() {
    let mut session: SessionManager<u32> = SessionManager::new();
    let mut cookies: Vec<u32> = Vec::new();
    for i in 0..500u32 {
        let cookie = session.inhibit(caller(":1.1"), Ok(i)).expect("a free cookie is drawn");
        assert!(!cookies.contains(&cookie));
        cookies.push(cookie);
        assert_eq!(session.active_count(), cookies.len());
    }
}

#[test]
fn un_inhibit_of_an_unused_cookie_is_not_found() {
    let mut session: SessionManager<u32> = SessionManager::new();
    assert_eq!(session.un_inhibit(77, &caller(":1.1")), Err(SessionError::NotFound(77)));
    let cookie = session.inhibit(caller(":1.1"), Ok(1)).expect("inhibition");
    let other = cookie.wrapping_add(1);
    assert_eq!(session.un_inhibit(other, &caller(":1.1")), Err(SessionError::NotFound(other)));
    assert_eq!(session.active_count(), 1);
}

#[test]
fn inhibit_without_a_lock_changes_nothing() {
    let mut session: SessionManager<u32> = SessionManager::new();
    let kept = session.inhibit(caller(":1.1"), Ok(1)).expect("inhibition");
    assert_eq!(
        session.inhibit(caller(":1.2"), Err("compositor gone".to_string())),
        Err(Refusal {
            error: SessionError::BackendUnavailable("compositor gone".to_string()),
            unused: None
        })
    );
    assert_eq!(session.active_count(), 1);
    assert_eq!(session.owner_of(kept), Some(&caller(":1.1")));
    assert!(session.is_accepting());
}

#[test]
fn inhibit_hands_the_lock_back_when_no_cookie_is_free() {
    let mut session: SessionManager<u32> = SessionManager::new();
    fastrand::seed(3);
    for i in 0..MAX_COOKIE_DRAWS {
        let draw = fastrand::u32(..);
        let _ = session.inhibit_drawn(caller(":1.1"), Ok(i), &vec![draw]);
    }
    let before = session.active_count();
    assert!(before >= 1);

    fastrand::seed(3);
    assert_eq!(
        session.inhibit(caller(":1.2"), Ok(1000)),
        Err(Refusal { error: SessionError::StoreFailure, unused: Some(1000) })
    );
    assert_eq!(session.active_count(), before);
}

#[test]
fn shutdown_drains_and_closes() {
    let mut session: SessionManager<u32> = SessionManager::new();
    let c1 = session.inhibit(caller(":1.1"), Ok(10)).expect("inhibition");
    let c2 = session.inhibit(caller(":1.2"), Ok(20)).expect("inhibition");
    let c3 = session.inhibit(caller(":1.1"), Ok(30)).expect("inhibition");

    let mut drained = session.shutdown();
    drained.sort_by_key(|r| r.handle);
    assert_eq!(
        drained,
        vec![
            InhibitionRecord { cookie: c1, owner: caller(":1.1"), handle: 10 },
            InhibitionRecord { cookie: c2, owner: caller(":1.2"), handle: 20 },
            InhibitionRecord { cookie: c3, owner: caller(":1.1"), handle: 30 },
        ]
    );
    assert!(!session.is_accepting());
    assert!(session.is_idle());

    assert_eq!(
        session.inhibit(caller(":1.1"), Ok(40)),
        Err(Refusal { error: SessionError::Closed, unused: Some(40) })
    );
    assert_eq!(
        session.inhibit(caller(":1.1"), Err("down".to_string())),
        Err(Refusal { error: SessionError::BackendUnavailable("down".to_string()), unused: None })
    );
    assert!(session.is_idle());
    assert_eq!(session.un_inhibit(c1, &caller(":1.1")), Err(SessionError::NotFound(c1)));
    assert!(session.shutdown().is_empty());
    assert!(!session.is_accepting());
}

#[test]
fn evict_disconnected_keeps_the_connected() {
    let mut session: SessionManager<u32> = SessionManager::new();
    let c1 = session.inhibit(caller(":1.1"), Ok(10)).expect("inhibition");
    let c2 = session.inhibit(caller(":1.2"), Ok(20)).expect("inhibition");
    let c3 = session.inhibit(caller(":1.3"), Ok(30)).expect("inhibition");
    let c4 = session.inhibit(caller(":1.1"), Ok(40)).expect("inhibition");

    let live = vec![caller(":1.3"), caller(":1.9"), caller(":1.1"), caller(":1.2")];
    assert!(session.evict_disconnected(&live).is_empty());
    assert_eq!(session.active_count(), 4);

    let live = vec![caller(":1.2")];
    let mut evicted = session.evict_disconnected(&live);
    evicted.sort_by_key(|r| r.handle);
    assert_eq!(
        evicted,
        vec![
            InhibitionRecord { cookie: c1, owner: caller(":1.1"), handle: 10 },
            InhibitionRecord { cookie: c3, owner: caller(":1.3"), handle: 30 },
            InhibitionRecord { cookie: c4, owner: caller(":1.1"), handle: 40 },
        ]
    );
    assert_eq!(session.active_count(), 1);
    assert_eq!(session.owner_of(c2), Some(&caller(":1.2")));
    assert_eq!(session.un_inhibit(c1, &caller(":1.1")), Err(SessionError::NotFound(c1)));

    let evicted = session.evict_disconnected(&Vec::new());
    assert_eq!(evicted, vec![InhibitionRecord { cookie: c2, owner: caller(":1.2"), handle: 20 }]);
    assert!(session.is_idle());
    assert!(session.is_accepting());
}

#[test]
fn report_destroy_passes_the_backend_answer_on() {
    assert_eq!(report_destroy(Ok(())), Ok(()));
    assert_eq!(
        report_destroy(Err("protocol error".to_string())),
        Err(SessionError::BackendDestroyFailure("protocol error".to_string()))
    );
}

#[test]
fn a_failed_destroy_does_not_bring_the_inhibition_back() {
    let mut session: SessionManager<u32> = SessionManager::new();
    let cookie = session.inhibit(caller(":1.1"), Ok(10)).expect("inhibition");
    let released = session.un_inhibit(cookie, &caller(":1.1")).expect("the owner releases");
    assert_eq!(released.handle, 10);
    assert_eq!(
        report_destroy(Err("busy".to_string())),
        Err(SessionError::BackendDestroyFailure("busy".to_string()))
    );
    assert!(session.is_idle());
    assert_eq!(session.un_inhibit(cookie, &caller(":1.1")), Err(SessionError::NotFound(cookie)));
}
