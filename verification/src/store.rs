use crate::identity::CallerIdentity;
use std::collections::HashMap;
use vstd::prelude::*;
use vstd::std_specs::iter::IteratorSpec;

verus! {

/// One active inhibition: the cookie handed to the caller, the caller that
/// created it, and the backend resource that keeps the screen awake.
#[derive(Debug, PartialEq, Eq)]
pub struct InhibitionRecord<H> {
    pub cookie: u32,
    pub owner: CallerIdentity,
    pub handle: H,
}

/// What an insertion hands back when every cookie drawn for it was taken: the
/// caller and the backend resource, which still has to be released.
#[derive(Debug, PartialEq, Eq)]
pub struct Rejected<H> {
    pub owner: CallerIdentity,
    pub handle: H,
}

/// The answer to a request to release a cookie.
#[derive(Debug, PartialEq, Eq)]
pub enum RemoveOutcome<H> {
    /// The caller owned the inhibition; it has left the store and is handed
    /// over for backend cleanup.
    Removed(InhibitionRecord<H>),
    /// No active inhibition has that cookie.
    NotFound,
    /// The inhibition belongs to another caller.
    Unauthorized,
}

/// How many cookies are drawn for one insertion.
pub const MAX_COOKIE_DRAWS: u32 = 64;

/// The answer that a request by `caller` to release `cookie` gets while
/// `active` are the active inhibitions.
pub open spec fn release_outcome<H>(
    active: Map<u32, InhibitionRecord<H>>,
    cookie: u32,
    caller: Seq<char>,
) -> RemoveOutcome<H> {
    if !active.contains_key(cookie) {
        RemoveOutcome::NotFound
    } else if active[cookie].owner@ == caller {
        RemoveOutcome::Removed(active[cookie])
    } else {
        RemoveOutcome::Unauthorized
    }
}

/// The active inhibitions after a request by `caller` to release `cookie`:
/// without that cookie where the caller owned it, unchanged otherwise.
pub open spec fn after_release<H>(
    active: Map<u32, InhibitionRecord<H>>,
    cookie: u32,
    caller: Seq<char>,
) -> Map<u32, InhibitionRecord<H>> {
    if release_outcome(active, cookie, caller) is Removed {
        active.remove(cookie)
    } else {
        active
    }
}

/// Whether `cookie` is the first of `draws` that no inhibition of `active`
/// has: it was drawn, it is free, and every draw before it was taken.
pub open spec fn is_first_free<H>(
    active: Map<u32, InhibitionRecord<H>>,
    draws: Seq<u32>,
    cookie: u32,
) -> bool {
    exists|i: int|
        0 <= i < draws.len() && #[trigger] draws[i] == cookie && !active.contains_key(cookie)
            && forall|j: int| 0 <= j < i ==> active.contains_key(#[trigger] draws[j])
}

/// Whether every one of `draws` is the cookie of an inhibition of `active`.
pub open spec fn all_taken<H>(active: Map<u32, InhibitionRecord<H>>, draws: Seq<u32>) -> bool {
    forall|j: int| 0 <= j < draws.len() ==> active.contains_key(#[trigger] draws[j])
}

/// Whether `res`, together with the active inhibitions `after`, is what
/// storing a new inhibition of `owner` with the lock `handle` comes to when
/// the cookies `draws` were drawn for it, in this order, while `before` were
/// the active inhibitions.
///
/// The first draw that no active inhibition has becomes the cookie, and the
/// new record is stored under it; the draws after it play no part. Where
/// every draw is taken, and so where there is none, nothing is stored and
/// `owner` and `handle` come back.
pub open spec fn places_drawn<H>(
    before: Map<u32, InhibitionRecord<H>>,
    owner: CallerIdentity,
    handle: H,
    draws: Seq<u32>,
    res: Result<u32, Rejected<H>>,
    after: Map<u32, InhibitionRecord<H>>,
) -> bool {
    match res {
        Ok(cookie) => is_first_free(before, draws, cookie) && after == before.insert(
            cookie,
            InhibitionRecord { cookie, owner, handle },
        ),
        Err(rejected) => all_taken(before, draws) && after == before && rejected.owner == owner
            && rejected.handle == handle,
    }
}

/// The draws decide alone: the same draws over the same inhibitions never
/// give two different cookies, and they give a cookie exactly when one of
/// them is free.
pub proof fn lemma_first_free_is_decided<H>(
    active: Map<u32, InhibitionRecord<H>>,
    draws: Seq<u32>,
    cookie: u32,
    other: u32,
)
    requires
        is_first_free(active, draws, cookie),
    ensures
        !all_taken(active, draws),
        is_first_free(active, draws, other) ==> other == cookie,
{
    let i = choose|i: int|
        0 <= i < draws.len() && #[trigger] draws[i] == cookie && !active.contains_key(cookie)
            && forall|j: int| 0 <= j < i ==> active.contains_key(#[trigger] draws[j]);
    assert(!active.contains_key(draws[i]));
    if is_first_free(active, draws, other) {
        let k = choose|k: int|
            0 <= k < draws.len() && #[trigger] draws[k] == other && !active.contains_key(other)
                && forall|j: int| 0 <= j < k ==> active.contains_key(#[trigger] draws[j]);
        if i < k {
            assert(active.contains_key(draws[i]));
        } else if k < i {
            assert(active.contains_key(draws[k]));
        }
    }
}

/// Whether some record in `records` carries `cookie`.
pub open spec fn holds_cookie<H>(records: Seq<InhibitionRecord<H>>, cookie: u32) -> bool {
    exists|i: int| 0 <= i < records.len() && (#[trigger] records[i]).cookie == cookie
}

/// Whether `records` lists the inhibitions of `active`, each of them exactly
/// once and nothing else.
pub open spec fn lists_exactly<H>(
    records: Seq<InhibitionRecord<H>>,
    active: Map<u32, InhibitionRecord<H>>,
) -> bool {
    &&& forall|i: int|
        0 <= i < records.len() ==> active.contains_key((#[trigger] records[i]).cookie)
            && active[records[i].cookie] == records[i]
    &&& forall|i: int, j: int|
        0 <= i < j < records.len() ==> (#[trigger] records[i]).cookie != (
        #[trigger] records[j]).cookie
    &&& forall|c: u32| #[trigger] active.contains_key(c) ==> holds_cookie(records, c)
}

/// Only its creator releases an inhibition: a request by anyone else is
/// answered `Unauthorized` and leaves every record as it was.
pub proof fn lemma_release_by_stranger<H>(
    active: Map<u32, InhibitionRecord<H>>,
    cookie: u32,
    caller: Seq<char>,
)
    requires
        active.contains_key(cookie),
        active[cookie].owner@ != caller,
    ensures
        release_outcome(active, cookie, caller) == RemoveOutcome::<H>::Unauthorized,
        after_release(active, cookie, caller) == active,
{
}

/// A request to release a cookie that is not active is answered `NotFound`,
/// whoever asks, and changes nothing.
pub proof fn lemma_release_of_inactive<H>(
    active: Map<u32, InhibitionRecord<H>>,
    cookie: u32,
    caller: Seq<char>,
)
    requires
        !active.contains_key(cookie),
    ensures
        release_outcome(active, cookie, caller) == RemoveOutcome::<H>::NotFound,
        after_release(active, cookie, caller) == active,
{
}

/// A release succeeds once: after a cookie was released, a second request for
/// it is answered `NotFound`, whoever asks, and every other inhibition is
/// still what it was.
pub proof fn lemma_release_twice<H>(
    active: Map<u32, InhibitionRecord<H>>,
    cookie: u32,
    caller: Seq<char>,
    again: Seq<char>,
)
    requires
        release_outcome(active, cookie, caller) is Removed,
    ensures
        release_outcome(after_release(active, cookie, caller), cookie, again)
            == RemoveOutcome::<H>::NotFound,
        forall|other: u32|
            other != cookie && #[trigger] active.contains_key(other) ==> after_release(
                active,
                cookie,
                caller,
            ).contains_key(other) && after_release(active, cookie, caller)[other] == active[other],
{
}

/// What is listed exactly once is found at one place and nowhere else: for
/// each inhibition of `active` there is one index in `records` that holds its
/// record, and no other index holds its cookie.
pub proof fn lemma_listed_once<H>(
    records: Seq<InhibitionRecord<H>>,
    active: Map<u32, InhibitionRecord<H>>,
    cookie: u32,
)
    requires
        lists_exactly(records, active),
        active.contains_key(cookie),
    ensures
        exists|i: int|
            0 <= i < records.len() && #[trigger] records[i] == active[cookie] && forall|j: int|
                0 <= j < records.len() && j != i ==> (#[trigger] records[j]).cookie != cookie,
{
    let i = choose|i: int| 0 <= i < records.len() && (#[trigger] records[i]).cookie == cookie;
    assert(records[i] == active[cookie]);
    assert forall|j: int| 0 <= j < records.len() && j != i implies (
    #[trigger] records[j]).cookie != cookie by {
        if j < i {
            assert(records[j].cookie != records[i].cookie);
        } else {
            assert(records[i].cookie != records[j].cookie);
        }
    }
}

/// What is listed exactly once is counted once: a listing has as many records
/// as there are inhibitions.
pub proof fn lemma_listing_len<H>(
    records: Seq<InhibitionRecord<H>>,
    active: Map<u32, InhibitionRecord<H>>,
)
    requires
        lists_exactly(records, active),
        active.dom().finite(),
    ensures
        records.len() == active.len(),
    decreases records.len(),
{
    if records.len() == 0 {
        assert forall|c: u32| !active.dom().contains(c) by {
            if active.contains_key(c) {
                assert(holds_cookie(records, c));
            }
        }
        assert(active.dom() =~= Set::<u32>::empty());
    } else {
        let last = records.last();
        let rest = records.drop_last();
        let fewer = active.remove(last.cookie);
        assert(active.contains_key(records[records.len() - 1].cookie));
        assert forall|i: int| 0 <= i < rest.len() implies fewer.contains_key(
            (#[trigger] rest[i]).cookie,
        ) && fewer[rest[i].cookie] == rest[i] by {
            assert(rest[i] == records[i]);
            assert(records[i].cookie != records[records.len() - 1].cookie);
        }
        assert forall|i: int, j: int| 0 <= i < j < rest.len() implies (#[trigger] rest[i]).cookie
            != (#[trigger] rest[j]).cookie by {
            assert(rest[i] == records[i]);
            assert(rest[j] == records[j]);
        }
        assert forall|c: u32| #[trigger] fewer.contains_key(c) implies holds_cookie(rest, c) by {
            assert(active.contains_key(c));
            let i = choose|i: int| 0 <= i < records.len() && (#[trigger] records[i]).cookie == c;
            assert(rest[i].cookie == c);
        }
        lemma_listing_len(rest, fewer);
    }
}

/// Draws a cookie from the thread's random number generator, by
/// `fastrand::u32` over the full range. The full range is never empty, so the
/// call does not panic; nothing is claimed of the number that comes back.
#[verifier::external_body]
fn draw_cookie() -> (cookie: u32) {
    fastrand::u32(..)
}

/// Draws the cookies for one insertion: `MAX_COOKIE_DRAWS` of them, one
/// after the other.
pub(crate) fn draw_cookies() -> (draws: Vec<u32>)
    ensures
        draws@.len() == MAX_COOKIE_DRAWS,
{
    let mut draws: Vec<u32> = Vec::new();
    let mut made: u32 = 0;
    while made < MAX_COOKIE_DRAWS
        invariant
            made <= MAX_COOKIE_DRAWS,
            draws@.len() == made,
        decreases MAX_COOKIE_DRAWS - made,
    {
        draws.push(draw_cookie());
        made = made + 1;
    }
    draws
}

/// The active inhibitions, keyed by cookie. The view is the map from each
/// active cookie to its record.
pub struct CookieStore<H> {
    records: HashMap<u32, InhibitionRecord<H>>,
}

impl<H> View for CookieStore<H> {
    type V = Map<u32, InhibitionRecord<H>>;

    closed spec fn view(&self) -> Map<u32, InhibitionRecord<H>> {
        self.records@
    }
}

impl<H> CookieStore<H> {
    /// Every record is stored under its own cookie.
    #[verifier::type_invariant]
    spec fn keyed_by_cookie(self) -> bool {
        forall|c: u32| #[trigger] self.records@.contains_key(c) ==> self.records@[c].cookie == c
    }

    /// The active inhibitions of a store are finitely many.
    pub proof fn lemma_finite(&self)
        ensures
            self@.dom().finite(),
    {
        broadcast use vstd::std_specs::hash::group_hash_axioms;

    }

    /// A store without inhibitions.
    pub fn new() -> (store: Self)
        ensures
            store@ == Map::<u32, InhibitionRecord<H>>::empty(),
    {
        CookieStore { records: HashMap::new() }
    }

    /// Moves the table out, so that it can be changed while the store holds an
    /// empty one.
    fn take_records(&mut self) -> (records: HashMap<u32, InhibitionRecord<H>>)
        ensures
            records@ == old(self)@,
            final(self)@ == Map::<u32, InhibitionRecord<H>>::empty(),
            forall|c: u32| #[trigger] records@.contains_key(c) ==> records@[c].cookie == c,
    {
        proof {
            use_type_invariant(&*self);
        }
        let mut records = HashMap::new();
        std::mem::swap(&mut records, &mut self.records);
        records
    }

    /// The active cookies, each once, in the order in which the table walks
    /// them.
    fn cookies(&self) -> (cookies: Vec<u32>)
        ensures
            cookies@.no_duplicates(),
            cookies@.to_set() == self@.dom(),
    {
        broadcast use vstd::std_specs::hash::group_hash_axioms;

        let mut cookies: Vec<u32> = Vec::new();
        for cookie in iter: self.records.keys()
            invariant
                iter.seq() == self.records.keys().remaining(),
                cookies@.len() == iter.index(),
                forall|i: int| 0 <= i < cookies@.len() ==> cookies@[i] == *iter.seq()[i],
        {
            cookies.push(*cookie);
        }
        assert(cookies@ =~= self.records.keys().remaining().unref());
        cookies
    }

    /// Stores `record` under its own cookie unless an active inhibition has
    /// that cookie already; in that case the store stays as it was and the
    /// record comes back.
    pub fn try_insert(&mut self, record: InhibitionRecord<H>) -> (res: Result<
        (),
        InhibitionRecord<H>,
    >)
        ensures
            match res {
                Ok(()) => !old(self)@.contains_key(record.cookie) && final(self)@ == old(
                    self,
                )@.insert(record.cookie, record),
                Err(back) => old(self)@.contains_key(record.cookie) && final(self)@ == old(self)@
                    && back == record,
            },
    {
        broadcast use vstd::std_specs::hash::group_hash_axioms;

        if self.records.contains_key(&record.cookie) {
            Err(record)
        } else {
            let mut records = self.take_records();
            records.insert(record.cookie, record);
            self.records = records;
            Ok(())
        }
    }

    /// Stores a new inhibition for `owner` under the first of the cookies
    /// `draws` that no active inhibition has, and returns that cookie. A draw
    /// that collides with an active cookie is passed over and the next one is
    /// tried. Where every draw collides the store stays as it was and `owner`
    /// and `handle` come back.
    pub fn insert_drawn(&mut self, owner: CallerIdentity, handle: H, draws: &Vec<u32>) -> (res:
        Result<u32, Rejected<H>>)
        ensures
            places_drawn(old(self)@, owner, handle, draws@, res, final(self)@),
    {
        let mut pending = Rejected { owner, handle };
        for i in 0..draws.len()
            invariant
                self@ == old(self)@,
                pending.owner == owner,
                pending.handle == handle,
                forall|j: int| 0 <= j < i ==> old(self)@.contains_key(#[trigger] draws@[j]),
        {
            let cookie = draws[i];
            let record = InhibitionRecord { cookie, owner: pending.owner, handle: pending.handle };
            match self.try_insert(record) {
                Ok(()) => {
                    assert(draws@[i as int] == cookie);
                    return Ok(cookie);
                },
                Err(back) => {
                    pending = Rejected { owner: back.owner, handle: back.handle };
                },
            }
        }
        Err(pending)
    }

    /// Stores a new inhibition for `owner` under a cookie drawn at random over
    /// the whole 32-bit range, and returns that cookie. `MAX_COOKIE_DRAWS`
    /// cookies are drawn, and `insert_drawn` places the inhibition under the
    /// first of them that is free: a draw that collides with an active cookie
    /// is followed by the next one, and only when all of them collided the
    /// store stays as it was and `owner` and `handle` come back. In an empty
    /// store no draw can collide.
    pub fn insert(&mut self, owner: CallerIdentity, handle: H) -> (res: Result<u32, Rejected<H>>)
        ensures
            exists|draws: Seq<u32>|
                draws.len() == MAX_COOKIE_DRAWS && #[trigger] places_drawn(
                    old(self)@,
                    owner,
                    handle,
                    draws,
                    res,
                    final(self)@,
                ),
            match res {
                Ok(cookie) => !old(self)@.contains_key(cookie) && final(self)@ == old(
                    self,
                )@.insert(cookie, (InhibitionRecord { cookie, owner, handle })),
                Err(rejected) => final(self)@ == old(self)@ && rejected.owner == owner
                    && rejected.handle == handle,
            },
            old(self)@.len() == 0 ==> res is Ok,
    {
        let draws = draw_cookies();
        let res = self.insert_drawn(owner, handle, &draws);
        proof {
            old(self).lemma_finite();
            if old(self)@.len() == 0 {
                assert(!old(self)@.contains_key(draws@[0]));
            }
        }
        res
    }

    /// Releases the inhibition that `cookie` names if `caller` created it: the
    /// record leaves the store and is returned. Only the creator may release
    /// an inhibition; for anyone else, and for a cookie that is not active,
    /// the store stays as it was and the outcome says which of the two it was.
    pub fn remove_if_owner(&mut self, cookie: u32, caller: &CallerIdentity) -> (outcome:
        RemoveOutcome<H>)
        ensures
            outcome == release_outcome(old(self)@, cookie, caller@),
            final(self)@ == after_release(old(self)@, cookie, caller@),
            outcome matches RemoveOutcome::Removed(record) ==> record.cookie == cookie,
    {
        broadcast use vstd::std_specs::hash::group_hash_axioms;

        let authorized = match self.records.get(&cookie) {
            None => {
                return RemoveOutcome::NotFound;
            },
            Some(record) => record.owner.same_as(caller),
        };
        if !authorized {
            return RemoveOutcome::Unauthorized;
        }
        let mut records = self.take_records();
        let removed = records.remove(&cookie);
        self.records = records;
        RemoveOutcome::Removed(removed.unwrap())
    }

    /// Removes every inhibition that `keep` answers `false` for and returns
    /// the removed records, each exactly once, for backend cleanup. Those that
    /// `keep` answers `true` for stay as they were. `keep` is asked once for
    /// each active inhibition.
    pub fn retain_matching<F: Fn(&InhibitionRecord<H>) -> bool>(&mut self, keep: F) -> (evicted:
        Vec<InhibitionRecord<H>>)
        requires
            forall|c: u32| #[trigger]
                old(self)@.contains_key(c) ==> call_requires(keep, (&old(self)@[c],)),
        ensures
            final(self)@.submap_of(old(self)@),
            forall|c: u32| #[trigger]
                final(self)@.contains_key(c) ==> call_ensures(keep, (&old(self)@[c],), true),
            lists_exactly(evicted@, old(self)@.remove_keys(final(self)@.dom())),
            forall|i: int|
                0 <= i < evicted@.len() ==> call_ensures(keep, (&#[trigger] evicted@[i],), false),
    {
        broadcast use vstd::std_specs::hash::group_hash_axioms;

        let cookies = self.cookies();
        let mut doomed: Vec<u32> = Vec::new();
        let ghost mut picks: Seq<int> = Seq::empty();
        for i in 0..cookies.len()
            invariant
                cookies@.to_set() == self@.dom(),
                forall|c: u32| #[trigger] self@.contains_key(c) ==> call_requires(keep, (&self@[c],)),
                picks.len() == doomed@.len(),
                forall|k: int|
                    0 <= k < picks.len() ==> 0 <= #[trigger] picks[k] < i && doomed@[k]
                        == cookies@[picks[k]],
                forall|k: int, l: int| 0 <= k < l < picks.len() ==> picks[k] < picks[l],
                forall|k: int|
                    0 <= k < doomed@.len() ==> self@.contains_key(#[trigger] doomed@[k])
                        && call_ensures(keep, (&self@[doomed@[k]],), false),
                forall|j: int|
                    0 <= j < i ==> picks.contains(j) || call_ensures(
                        keep,
                        (&self@[#[trigger] cookies@[j]],),
                        true,
                    ),
        {
            let cookie = cookies[i];
            assert(cookies@.to_set().contains(cookies@[i as int]));
            let keep_it = match self.records.get(&cookie) {
                Some(record) => keep(record),
                None => true,
            };
            if !keep_it {
                doomed.push(cookie);
                proof {
                    let earlier = picks;
                    picks = picks.push(i as int);
                    assert forall|j: int| 0 <= j < i + 1 implies picks.contains(j) || call_ensures(
                        keep,
                        (&self@[#[trigger] cookies@[j]],),
                        true,
                    ) by {
                        if j == i {
                            assert(picks[earlier.len() as int] == j);
                        } else if earlier.contains(j) {
                            let k = choose|k: int| 0 <= k < earlier.len() && earlier[k] == j;
                            assert(picks[k] == j);
                        }
                    }
                }
            }
        }
        proof {
            assert forall|l: int, m: int| 0 <= l < m < doomed@.len() implies #[trigger] doomed@[l]
                != #[trigger] doomed@[m] by {
                assert(picks[l] < picks[m]);
                assert(cookies@[picks[l]] != cookies@[picks[m]]);
            }
        }
        let mut records = self.take_records();
        let mut evicted: Vec<InhibitionRecord<H>> = Vec::new();
        let ghost before = records@;
        for k in 0..doomed.len()
            invariant
                before == old(self)@,
                forall|l: int| 0 <= l < doomed@.len() ==> before.contains_key(#[trigger] doomed@[l]),
                forall|l: int, m: int|
                    0 <= l < m < doomed@.len() ==> #[trigger] doomed@[l] != #[trigger] doomed@[m],
                records@.submap_of(before),
                forall|c: u32| #[trigger]
                    before.contains_key(c) ==> (records@.contains_key(c) <==> !doomed@.take(
                        k as int,
                    ).contains(c)),
                evicted@.len() == k,
                forall|l: int| 0 <= l < k ==> #[trigger] evicted@[l] == before[doomed@[l]],
        {
            let cookie = doomed[k];
            let ghost done = doomed@.take(k as int);
            assert(!done.contains(cookie)) by {
                if done.contains(cookie) {
                    let l = choose|l: int| 0 <= l < done.len() && done[l] == cookie;
                    assert(doomed@[l] == doomed@[k as int]);
                }
            }
            let removed = records.remove(&cookie);
            evicted.push(removed.unwrap());
            proof {
                let next = doomed@.take(k + 1);
                assert(next =~= done.push(cookie));
                assert forall|c: u32| #[trigger] before.contains_key(c) implies (
                records@.contains_key(c) <==> !next.contains(c)) by {
                    if done.contains(c) {
                        let l = choose|l: int| 0 <= l < done.len() && done[l] == c;
                        assert(next[l] == c);
                    }
                    if c == cookie {
                        assert(next[k as int] == c);
                    }
                }
            }
        }
        proof {
            assert(doomed@.take(doomed@.len() as int) =~= doomed@);
            let gone = before.remove_keys(records@.dom());
            assert forall|l: int| 0 <= l < evicted@.len() implies gone.contains_key(
                (#[trigger] evicted@[l]).cookie,
            ) && gone[evicted@[l].cookie] == evicted@[l] by {
                assert(before.contains_key(doomed@[l]));
                assert(doomed@.contains(doomed@[l]));
            }
            assert forall|l: int, m: int| 0 <= l < m < evicted@.len() implies (
            #[trigger] evicted@[l]).cookie != (#[trigger] evicted@[m]).cookie by {
                assert(before.contains_key(doomed@[l]));
                assert(before.contains_key(doomed@[m]));
            }
            assert forall|c: u32| #[trigger] gone.contains_key(c) implies holds_cookie(
                evicted@,
                c,
            ) by {
                assert(before.contains_key(c));
                assert(doomed@.contains(c));
                let l = choose|l: int| 0 <= l < doomed@.len() && doomed@[l] == c;
                assert(evicted@[l].cookie == c);
            }
            assert forall|c: u32| #[trigger] records@.contains_key(c) implies call_ensures(
                keep,
                (&before[c],),
                true,
            ) by {
                assert(records@.dom().contains(c));
                assert(before.contains_key(c));
                assert(cookies@.to_set().contains(c));
                let j = choose|j: int| 0 <= j < cookies@.len() && cookies@[j] == c;
                if picks.contains(j) {
                    let k = choose|k: int| 0 <= k < picks.len() && picks[k] == j;
                    assert(doomed@[k] == c);
                    assert(doomed@.contains(c));
                }
            }
            assert forall|l: int| 0 <= l < evicted@.len() implies call_ensures(
                keep,
                (&#[trigger] evicted@[l],),
                false,
            ) by {
                assert(evicted@[l] == before[doomed@[l]]);
            }
            assert forall|c: u32| #[trigger] records@.contains_key(c) implies records@[c].cookie
                == c by {
                assert(records@.dom().contains(c));
                assert(before.contains_key(c));
            }
        }
        self.records = records;
        evicted
    }

    /// Empties the store and returns every record that was active, each
    /// exactly once, for backend cleanup.
    pub fn drain(&mut self) -> (drained: Vec<InhibitionRecord<H>>)
        ensures
            final(self)@ == Map::<u32, InhibitionRecord<H>>::empty(),
            lists_exactly(drained@, old(self)@),
            drained@.len() == old(self)@.len(),
    {
        broadcast use vstd::std_specs::hash::group_hash_axioms;

        let keep_none = |record: &InhibitionRecord<H>| -> (keep: bool)
            ensures
                !keep,
            { false };
        let drained = self.retain_matching(keep_none);
        assert(final(self)@ =~= Map::<u32, InhibitionRecord<H>>::empty());
        assert(old(self)@.remove_keys(final(self)@.dom()) =~= old(self)@);
        proof {
            lemma_listing_len(drained@, old(self)@);
        }
        drained
    }

    /// Whether no inhibition is active.
    pub fn is_empty(&self) -> (empty: bool)
        ensures
            empty == (self@.len() == 0),
            self@.dom().finite(),
    {
        broadcast use vstd::std_specs::hash::group_hash_axioms;

        self.records.is_empty()
    }

    /// How many inhibitions are active.
    pub fn len(&self) -> (n: usize)
        ensures
            n == self@.len(),
            self@.dom().finite(),
    {
        broadcast use vstd::std_specs::hash::group_hash_axioms;

        self.records.len()
    }

    /// Whether `cookie` names an active inhibition.
    pub fn contains(&self, cookie: u32) -> (active: bool)
        ensures
            active == self@.contains_key(cookie),
    {
        broadcast use vstd::std_specs::hash::group_hash_axioms;

        self.records.contains_key(&cookie)
    }

    /// The record that `cookie` names, if it is active.
    pub fn get(&self, cookie: u32) -> (found: Option<&InhibitionRecord<H>>)
        ensures
            match found {
                Some(record) => self@.contains_key(cookie) && *record == self@[cookie]
                    && record.cookie == cookie,
                None => !self@.contains_key(cookie),
            },
    {
        broadcast use vstd::std_specs::hash::group_hash_axioms;

        proof {
            use_type_invariant(self);
        }
        self.records.get(&cookie)
    }
}

} // verus!
