use crate::identity::connected;
use crate::identity::is_connected;
use crate::identity::CallerIdentity;
use crate::store::after_release;
use crate::store::all_taken;
use crate::store::draw_cookies;
use crate::store::is_first_free;
use crate::store::lists_exactly;
use crate::store::release_outcome;
use crate::store::CookieStore;
use crate::store::InhibitionRecord;
use crate::store::RemoveOutcome;
use crate::store::MAX_COOKIE_DRAWS;
use vstd::prelude::*;

verus! {

/// Why a request was refused.
#[derive(Debug, PartialEq, Eq)]
pub enum SessionError {
    /// The backend could not create a lock; the text is what it reported.
    BackendUnavailable(String),
    /// The lock was created but no cookie could be found for it.
    StoreFailure,
    /// The session has been shut down and takes no new inhibitions.
    Closed,
    /// No active inhibition has this cookie.
    NotFound(u32),
    /// The inhibition with this cookie belongs to another caller.
    Unauthorized(u32),
    /// The inhibition was removed, but the backend failed to release its
    /// lock; the text is what it reported.
    BackendDestroyFailure(String),
}

/// A refused inhibit request. Where the backend had created a lock that the
/// session did not keep, `unused` holds it, and it has to be released.
#[derive(Debug, PartialEq, Eq)]
pub struct Refusal<H> {
    pub error: SessionError,
    pub unused: Option<H>,
}

/// The active inhibitions that survive a reconciliation against the clients
/// in `live`: those whose owner is connected.
pub open spec fn surviving<H>(
    active: Map<u32, InhibitionRecord<H>>,
    live: Set<Seq<char>>,
) -> Map<u32, InhibitionRecord<H>> {
    Map::new(
        |c: u32| active.contains_key(c) && live.contains(active[c].owner@),
        |c: u32| active[c],
    )
}

/// The active inhibitions that a reconciliation against the clients in `live`
/// evicts: those whose owner is no longer connected.
pub open spec fn orphaned<H>(
    active: Map<u32, InhibitionRecord<H>>,
    live: Set<Seq<char>>,
) -> Map<u32, InhibitionRecord<H>> {
    Map::new(
        |c: u32| active.contains_key(c) && !live.contains(active[c].owner@),
        |c: u32| active[c],
    )
}

/// An inhibition whose owner is not connected does not survive a
/// reconciliation, and it is among the evicted records exactly once: at one
/// index, with its record as it was, and at no other.
pub proof fn lemma_orphan_evicted_once<H>(
    active: Map<u32, InhibitionRecord<H>>,
    live: Set<Seq<char>>,
    evicted: Seq<InhibitionRecord<H>>,
    cookie: u32,
)
    requires
        active.contains_key(cookie),
        !live.contains(active[cookie].owner@),
        lists_exactly(evicted, orphaned(active, live)),
    ensures
        !surviving(active, live).contains_key(cookie),
        exists|i: int|
            0 <= i < evicted.len() && #[trigger] evicted[i] == active[cookie] && forall|j: int|
                0 <= j < evicted.len() && j != i ==> (#[trigger] evicted[j]).cookie != cookie,
{
    assert(orphaned(active, live).contains_key(cookie));
    crate::store::lemma_listed_once(evicted, orphaned(active, live), cookie);
}

/// An inhibition whose owner is connected survives a reconciliation as it
/// was, and no evicted record carries its cookie.
pub proof fn lemma_connected_owner_keeps<H>(
    active: Map<u32, InhibitionRecord<H>>,
    live: Set<Seq<char>>,
    evicted: Seq<InhibitionRecord<H>>,
    cookie: u32,
)
    requires
        active.contains_key(cookie),
        live.contains(active[cookie].owner@),
        lists_exactly(evicted, orphaned(active, live)),
    ensures
        surviving(active, live).contains_key(cookie),
        surviving(active, live)[cookie] == active[cookie],
        !crate::store::holds_cookie(evicted, cookie),
{
    if crate::store::holds_cookie(evicted, cookie) {
        let i = choose|i: int| 0 <= i < evicted.len() && (#[trigger] evicted[i]).cookie == cookie;
        assert(orphaned(active, live).contains_key(evicted[i].cookie));
    }
}

/// Whether `res`, together with the active inhibitions `after`, is a correct
/// answer to an inhibit request of `owner`, for which the backend answered
/// `created`, in a session with the active inhibitions `before` that takes
/// new ones or not (`accepting`).
///
/// Without a lock the answer is `BackendUnavailable`. With a lock, a cookie
/// is granted only by a session that takes requests, it is a cookie that no
/// active inhibition has, and the new record is stored under it; a refusal
/// hands the lock back and says `StoreFailure`, or `Closed` where the session
/// takes no requests. Every answer but a grant leaves the inhibitions as they
/// were.
pub open spec fn answers_inhibit<H>(
    accepting: bool,
    before: Map<u32, InhibitionRecord<H>>,
    owner: CallerIdentity,
    created: Result<H, String>,
    res: Result<u32, Refusal<H>>,
    after: Map<u32, InhibitionRecord<H>>,
) -> bool {
    match created {
        Err(detail) => res == Err::<u32, Refusal<H>>(
            Refusal { error: SessionError::BackendUnavailable(detail), unused: None },
        ) && after == before,
        Ok(handle) => match res {
            Ok(cookie) => accepting && !before.contains_key(cookie) && after == before.insert(
                cookie,
                InhibitionRecord { cookie, owner, handle },
            ),
            Err(refusal) => after == before && refusal.unused == Some(handle) && refusal.error == (
            if accepting {
                SessionError::StoreFailure
            } else {
                SessionError::Closed
            }),
        },
    }
}

/// Whether `res`, together with the active inhibitions `after`, is the answer
/// to an inhibit request of `owner` when the cookies `draws` were drawn for
/// it, in this order: a correct answer by `answers_inhibit`, and, where the
/// backend created a lock and the session takes requests, the one that the
/// draws decide. The request is then granted the first draw that no active
/// inhibition has, and it is refused with `StoreFailure` only where every
/// draw is taken.
pub open spec fn answers_inhibit_drawn<H>(
    accepting: bool,
    before: Map<u32, InhibitionRecord<H>>,
    owner: CallerIdentity,
    created: Result<H, String>,
    draws: Seq<u32>,
    res: Result<u32, Refusal<H>>,
    after: Map<u32, InhibitionRecord<H>>,
) -> bool {
    &&& answers_inhibit(accepting, before, owner, created, res, after)
    &&& created is Ok && accepting ==> match res {
        Ok(cookie) => is_first_free(before, draws, cookie),
        Err(_) => all_taken(before, draws),
    }
}

/// A request is granted exactly when the backend created the lock, the
/// session takes requests, and one of the cookies drawn for it is free.
pub proof fn lemma_grant_is_decided<H>(
    accepting: bool,
    before: Map<u32, InhibitionRecord<H>>,
    owner: CallerIdentity,
    created: Result<H, String>,
    draws: Seq<u32>,
    res: Result<u32, Refusal<H>>,
    after: Map<u32, InhibitionRecord<H>>,
)
    requires
        answers_inhibit_drawn(accepting, before, owner, created, draws, res, after),
    ensures
        res is Ok <==> created is Ok && accepting && !all_taken(before, draws),
{
    if res is Ok {
        crate::store::lemma_first_free_is_decided(before, draws, res->Ok_0, res->Ok_0);
    }
}

/// The cookie that a request is granted differs from the cookie of every
/// inhibition that is active at that moment, and granting it leaves each of
/// those as it was.
pub proof fn lemma_granted_cookie_is_new<H>(
    accepting: bool,
    before: Map<u32, InhibitionRecord<H>>,
    owner: CallerIdentity,
    created: Result<H, String>,
    res: Result<u32, Refusal<H>>,
    after: Map<u32, InhibitionRecord<H>>,
    active: u32,
)
    requires
        answers_inhibit(accepting, before, owner, created, res, after),
        res is Ok,
        before.contains_key(active),
    ensures
        res->Ok_0 != active,
        after.contains_key(active),
        after[active] == before[active],
        after.contains_key(res->Ok_0),
        after[res->Ok_0].owner == owner,
{
}

/// After a shutdown nothing is left behind and nothing new is taken: every
/// inhibition that was active is among the drained records exactly once, and
/// a later inhibit request is refused, whatever the backend answered, and
/// leaves the session empty.
pub proof fn lemma_shutdown_is_final<H>(
    before: Map<u32, InhibitionRecord<H>>,
    drained: Seq<InhibitionRecord<H>>,
    cookie: u32,
    owner: CallerIdentity,
    created: Result<H, String>,
    res: Result<u32, Refusal<H>>,
    after: Map<u32, InhibitionRecord<H>>,
)
    requires
        lists_exactly(drained, before),
        before.contains_key(cookie),
        answers_inhibit(false, Map::<u32, InhibitionRecord<H>>::empty(), owner, created, res, after),
    ensures
        exists|i: int|
            0 <= i < drained.len() && #[trigger] drained[i] == before[cookie] && forall|j: int|
                0 <= j < drained.len() && j != i ==> (#[trigger] drained[j]).cookie != cookie,
        res is Err,
        after == Map::<u32, InhibitionRecord<H>>::empty(),
{
    crate::store::lemma_listed_once(drained, before, cookie);
}

/// The bookkeeping behind the two public operations: which caller holds
/// which inhibition, and whether new ones are still taken. All backend work
/// happens outside: a lock is created before `inhibit` is told of it, and
/// every record that leaves the session is handed to the caller, who releases
/// its lock.
pub struct SessionManager<H> {
    store: CookieStore<H>,
    accepting: bool,
}

impl<H> SessionManager<H> {
    /// The active inhibitions, by cookie.
    pub closed spec fn active(&self) -> Map<u32, InhibitionRecord<H>> {
        self.store@
    }

    /// Whether new inhibitions are taken.
    pub closed spec fn accepting(&self) -> bool {
        self.accepting
    }

    /// The active inhibitions of a session are finitely many.
    pub proof fn lemma_finite(&self)
        ensures
            self.active().dom().finite(),
    {
        self.store.lemma_finite();
    }

    /// A session without inhibitions that takes requests.
    pub fn new() -> (session: Self)
        ensures
            session.active() == Map::<u32, InhibitionRecord<H>>::empty(),
            session.accepting(),
    {
        SessionManager { store: CookieStore::new(), accepting: true }
    }

    /// Whether new inhibitions are taken.
    pub fn is_accepting(&self) -> (accepting: bool)
        ensures
            accepting == self.accepting(),
    {
        self.accepting
    }

    /// Whether no inhibition is active.
    pub fn is_idle(&self) -> (idle: bool)
        ensures
            idle == (self.active().len() == 0),
            self.active().dom().finite(),
    {
        self.store.is_empty()
    }

    /// How many inhibitions are active.
    pub fn active_count(&self) -> (n: usize)
        ensures
            n == self.active().len(),
            self.active().dom().finite(),
    {
        self.store.len()
    }

    /// The caller that holds `cookie`, if it is active.
    pub fn owner_of(&self, cookie: u32) -> (owner: Option<&CallerIdentity>)
        ensures
            match owner {
                Some(id) => self.active().contains_key(cookie) && *id == self.active()[cookie].owner,
                None => !self.active().contains_key(cookie),
            },
    {
        match self.store.get(cookie) {
            Some(record) => Some(&record.owner),
            None => None,
        }
    }

    /// Completes an inhibit request of `owner`, given what the backend
    /// answered to the request for a lock and the cookies `draws` that were
    /// drawn for it.
    ///
    /// Where the backend failed, the request fails with `BackendUnavailable`.
    /// Where it created a lock, a session that was shut down refuses with
    /// `Closed`; a session that takes requests stores the lock under the first
    /// draw that no active inhibition has and returns that cookie, and refuses
    /// with `StoreFailure` where every draw is taken. A refusal changes
    /// nothing and hands the lock back.
    pub fn inhibit_drawn(
        &mut self,
        owner: CallerIdentity,
        created: Result<H, String>,
        draws: &Vec<u32>,
    ) -> (res: Result<u32, Refusal<H>>)
        ensures
            final(self).accepting() == old(self).accepting(),
            answers_inhibit_drawn(
                old(self).accepting(),
                old(self).active(),
                owner,
                created,
                draws@,
                res,
                final(self).active(),
            ),
    {
        match created {
            Err(detail) => Err(
                Refusal { error: SessionError::BackendUnavailable(detail), unused: None },
            ),
            Ok(handle) => {
                if !self.accepting {
                    return Err(Refusal { error: SessionError::Closed, unused: Some(handle) });
                }
                match self.store.insert_drawn(owner, handle, draws) {
                    Ok(cookie) => Ok(cookie),
                    Err(rejected) => Err(
                        Refusal { error: SessionError::StoreFailure, unused: Some(rejected.handle) },
                    ),
                }
            },
        }
    }

    /// Completes an inhibit request of `owner`, given what the backend
    /// answered to the request for a lock. Where a cookie is needed,
    /// `MAX_COOKIE_DRAWS` cookies are drawn at random over the whole 32-bit
    /// range, and the request is answered as `inhibit_drawn` answers it for
    /// those draws.
    ///
    /// Where the backend failed, the request fails with `BackendUnavailable`
    /// and nothing changes. Where it created a lock, a session that still
    /// takes requests stores it under a cookie that no active inhibition has
    /// and returns that cookie; only if every draw was taken the request
    /// fails with `StoreFailure`. A session that was shut down refuses with
    /// `Closed`. A refusal changes nothing and hands the lock back.
    pub fn inhibit(&mut self, owner: CallerIdentity, created: Result<H, String>) -> (res: Result<
        u32,
        Refusal<H>,
    >)
        ensures
            final(self).accepting() == old(self).accepting(),
            exists|draws: Seq<u32>|
                draws.len() == MAX_COOKIE_DRAWS && #[trigger] answers_inhibit_drawn(
                    old(self).accepting(),
                    old(self).active(),
                    owner,
                    created,
                    draws,
                    res,
                    final(self).active(),
                ),
            answers_inhibit(
                old(self).accepting(),
                old(self).active(),
                owner,
                created,
                res,
                final(self).active(),
            ),
            created is Ok && old(self).accepting() && old(self).active().len() == 0 ==> res is Ok,
    {
        if created.is_ok() && self.accepting {
            let draws = draw_cookies();
            let res = self.inhibit_drawn(owner, created, &draws);
            proof {
                old(self).lemma_finite();
                if old(self).active().len() == 0 {
                    assert(!old(self).active().contains_key(draws@[0]));
                }
            }
            res
        } else {
            let none: Vec<u32> = Vec::new();
            let res = self.inhibit_drawn(owner, created, &none);
            proof {
                let unused = Seq::new(MAX_COOKIE_DRAWS as nat, |i: int| 0u32);
                assert(answers_inhibit_drawn(
                    old(self).accepting(),
                    old(self).active(),
                    owner,
                    created,
                    unused,
                    res,
                    final(self).active(),
                ));
            }
            res
        }
    }

    /// Handles a request of `caller` to release `cookie`. Only the caller that
    /// created the inhibition may release it: then the record leaves the
    /// session and is returned, so that its lock can be released. A cookie
    /// that is not active gives `NotFound`, the cookie of another caller
    /// `Unauthorized`; both leave the session as it was.
    pub fn un_inhibit(&mut self, cookie: u32, caller: &CallerIdentity) -> (res: Result<
        InhibitionRecord<H>,
        SessionError,
    >)
        ensures
            final(self).accepting() == old(self).accepting(),
            final(self).active() == after_release(old(self).active(), cookie, caller@),
            res == (match release_outcome(old(self).active(), cookie, caller@) {
                RemoveOutcome::Removed(record) => Ok::<InhibitionRecord<H>, SessionError>(record),
                RemoveOutcome::NotFound => Err(SessionError::NotFound(cookie)),
                RemoveOutcome::Unauthorized => Err(SessionError::Unauthorized(cookie)),
            }),
            res matches Ok(record) ==> record.cookie == cookie,
    {
        match self.store.remove_if_owner(cookie, caller) {
            RemoveOutcome::Removed(record) => Ok(record),
            RemoveOutcome::NotFound => Err(SessionError::NotFound(cookie)),
            RemoveOutcome::Unauthorized => Err(SessionError::Unauthorized(cookie)),
        }
    }

    /// Evicts every inhibition whose owner is not among the connected callers
    /// `live`, and returns the evicted records, each exactly once, so that
    /// their locks can be released. The inhibitions of connected callers stay
    /// as they were.
    pub fn evict_disconnected(&mut self, live: &Vec<CallerIdentity>) -> (evicted: Vec<
        InhibitionRecord<H>,
    >)
        ensures
            final(self).accepting() == old(self).accepting(),
            final(self).active() == surviving(old(self).active(), connected(live@)),
            lists_exactly(evicted@, orphaned(old(self).active(), connected(live@))),
    {
        let owner_connected = |record: &InhibitionRecord<H>| -> (keep: bool)
            ensures
                keep == connected(live@).contains(record.owner@),
            { is_connected(live, &record.owner) };
        let evicted = self.store.retain_matching(owner_connected);
        proof {
            let before = old(self).active();
            let after = final(self).active();
            assert(after =~= surviving(before, connected(live@))) by {
                assert forall|c: u32| #[trigger]
                    before.contains_key(c) && connected(live@).contains(
                        before[c].owner@,
                    ) implies after.contains_key(c) by {
                    if !after.contains_key(c) {
                        let gone = before.remove_keys(after.dom());
                        assert(gone.contains_key(c));
                        let i = choose|i: int|
                            0 <= i < evicted@.len() && (#[trigger] evicted@[i]).cookie == c;
                        assert(gone[evicted@[i].cookie] == evicted@[i]);
                    }
                }
                assert forall|c: u32| #[trigger] after.contains_key(c) implies before.contains_key(
                    c,
                ) && after[c] == before[c] && connected(live@).contains(before[c].owner@) by {
                    assert(after.dom().contains(c));
                }
            }
            assert(before.remove_keys(after.dom()) =~= orphaned(before, connected(live@)));
        }
        evicted
    }

    /// Shuts the session down: from now on it takes no new inhibitions, and
    /// every inhibition that was still active leaves it and is returned,
    /// each exactly once, so that its lock can be released.
    pub fn shutdown(&mut self) -> (drained: Vec<InhibitionRecord<H>>)
        ensures
            !final(self).accepting(),
            final(self).active() == Map::<u32, InhibitionRecord<H>>::empty(),
            lists_exactly(drained@, old(self).active()),
            drained@.len() == old(self).active().len(),
    {
        self.accepting = false;
        self.store.drain()
    }
}

/// What the caller of a release is told once the backend was asked to give up
/// the lock: success, or `BackendDestroyFailure` with what the backend
/// reported. The inhibition is gone from the session either way.
pub fn report_destroy(destroyed: Result<(), String>) -> (res: Result<(), SessionError>)
    ensures
        res == (match destroyed {
            Ok(()) => Ok::<(), SessionError>(()),
            Err(detail) => Err(SessionError::BackendDestroyFailure(detail)),
        }),
{
    match destroyed {
        Ok(()) => Ok(()),
        Err(detail) => Err(SessionError::BackendDestroyFailure(detail)),
    }
}

} // verus!
