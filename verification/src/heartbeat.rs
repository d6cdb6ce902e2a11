use crate::identity::listed_callers;
use crate::identity::live_callers;
use crate::identity::BusName;
use crate::session::orphaned;
use crate::session::surviving;
use crate::session::SessionManager;
use crate::store::lists_exactly;
use crate::store::InhibitionRecord;
use vstd::prelude::*;

verus! {

/// The period of the heartbeat, in seconds, where none is configured.
pub const DEFAULT_INTERVAL_SECS: u64 = 10;

/// How the reconciler ended.
#[derive(Clone, Copy, Debug, PartialEq, Eq, Structural)]
pub enum Exit {
    /// The termination signal arrived.
    Cancelled,
    /// The transport could not list the connected callers.
    QueryFailed,
    /// The session could not be accessed any more.
    LockFailed,
}

/// Where the reconciler stands between two events.
#[derive(Clone, Copy, Debug, PartialEq, Eq, Structural)]
pub enum Phase {
    /// Waiting for the timer or for the termination signal.
    Idle,
    /// Waiting for the transport to list the connected callers.
    Polling,
    /// Waiting for exclusive access to the session, to evict orphans.
    Applying,
    /// The reconciler has ended, in the way given, and takes no further
    /// event.
    Stopped(Exit),
}

/// What a look at the session found when the timer fired.
#[derive(Clone, Copy, Debug, PartialEq, Eq, Structural)]
pub enum StoreProbe {
    /// The session was in use by a request; it could not be looked at.
    Contended,
    /// No inhibition is active.
    Empty,
    /// At least one inhibition is active.
    Occupied,
}

/// What the driver of the reconciler reports back to it.
#[derive(Clone, Copy, Debug, PartialEq, Eq, Structural)]
pub enum Event {
    /// The wait ended. `cancelled` tells whether the termination signal has
    /// arrived; `tick` holds what the probe found if the timer fired.
    Wakeup { cancelled: bool, tick: Option<StoreProbe> },
    /// The transport listed the connected callers.
    CallersListed,
    /// The transport failed to list the connected callers.
    QueryFailed,
    /// The orphans were evicted.
    Applied,
    /// The session was in use by a request when access was sought.
    LockContended,
    /// Access to the session failed for good.
    LockFailed,
}

/// What the driver of the reconciler has to do next.
#[derive(Clone, Copy, Debug, PartialEq, Eq, Structural)]
pub enum Action {
    /// Wait for the termination signal or the timer, the signal first, and
    /// report a `Wakeup`.
    Wait,
    /// Ask the transport for the connected callers, without holding the
    /// session, and report `CallersListed` or `QueryFailed`.
    QueryCallers,
    /// Seek exclusive access to the session without waiting for it; with it,
    /// evict the orphans and release their locks; report `Applied`,
    /// `LockContended` or `LockFailed`.
    Apply,
    /// End the reconciler.
    Stop(Exit),
}

/// The action that a phase is waiting on.
pub open spec fn pending(phase: Phase) -> Action {
    match phase {
        Phase::Idle => Action::Wait,
        Phase::Polling => Action::QueryCallers,
        Phase::Applying => Action::Apply,
        Phase::Stopped(exit) => Action::Stop(exit),
    }
}

/// The reconciler's rule: the phase and the action that follow `event` in
/// `phase`.
///
/// A pending termination signal ends the reconciler whatever else the wakeup
/// brought. A tick starts a poll only when the probe found an inhibition; over
/// an empty session, or one that is in use, the tick is skipped. After a poll
/// the orphans are evicted, unless the session is in use: then the tick is
/// abandoned and the next one tries again. A failed query or failed access
/// ends the reconciler. An event that the phase does not wait for changes
/// nothing.
pub open spec fn transition(phase: Phase, event: Event) -> (Phase, Action) {
    match (phase, event) {
        (Phase::Stopped(exit), _) => (Phase::Stopped(exit), Action::Stop(exit)),
        (_, Event::Wakeup { cancelled: true, tick: _ }) => (
            Phase::Stopped(Exit::Cancelled),
            Action::Stop(Exit::Cancelled),
        ),
        (Phase::Idle, Event::Wakeup { cancelled: false, tick: Some(StoreProbe::Occupied) }) => (
            Phase::Polling,
            Action::QueryCallers,
        ),
        (Phase::Polling, Event::CallersListed) => (Phase::Applying, Action::Apply),
        (Phase::Polling, Event::QueryFailed) => (
            Phase::Stopped(Exit::QueryFailed),
            Action::Stop(Exit::QueryFailed),
        ),
        (Phase::Applying, Event::Applied) => (Phase::Idle, Action::Wait),
        (Phase::Applying, Event::LockContended) => (Phase::Idle, Action::Wait),
        (Phase::Applying, Event::LockFailed) => (
            Phase::Stopped(Exit::LockFailed),
            Action::Stop(Exit::LockFailed),
        ),
        _ => (phase, pending(phase)),
    }
}

/// What a look at the session finds when the timer fires. `session` is `None`
/// where the session is in use and cannot be looked at.
pub open spec fn sighting<H>(session: Option<&SessionManager<H>>) -> StoreProbe {
    match session {
        None => StoreProbe::Contended,
        Some(s) => if s.active().len() == 0 {
            StoreProbe::Empty
        } else {
            StoreProbe::Occupied
        },
    }
}

/// A tick over an empty session is skipped: the reconciler goes on waiting
/// (or ends, where the termination signal is pending), and no query for the
/// connected callers is made.
pub proof fn lemma_empty_tick_skipped<H>(session: &SessionManager<H>, cancelled: bool)
    requires
        session.active().len() == 0,
    ensures
        transition(Phase::Idle, Event::Wakeup { cancelled, tick: Some(sighting(Some(session))) })
            == (if cancelled {
            (Phase::Stopped(Exit::Cancelled), Action::Stop(Exit::Cancelled))
        } else {
            (Phase::Idle, Action::Wait)
        }),
{
}

/// A tick over a session that is in use is skipped in the same way: the
/// reconciler never waits for the session.
pub proof fn lemma_contended_tick_skipped(cancelled: bool)
    ensures
        transition(Phase::Idle, Event::Wakeup { cancelled, tick: Some(sighting::<()>(None)) }) == (
            if cancelled {
                (Phase::Stopped(Exit::Cancelled), Action::Stop(Exit::Cancelled))
            } else {
                (Phase::Idle, Action::Wait)
            }
        ),
{
}

/// A poll starts in one way only: the reconciler enters `Polling`, or asks
/// for the connected callers without being in `Polling` already, only when
/// it was idle, no termination signal was pending, and the timer's probe
/// found an inhibition.
pub proof fn lemma_poll_needs_occupied_tick(phase: Phase, event: Event)
    requires
        phase != Phase::Polling,
        transition(phase, event).0 == Phase::Polling || transition(phase, event).1
            == Action::QueryCallers,
    ensures
        phase == Phase::Idle,
        event == (Event::Wakeup { cancelled: false, tick: Some(StoreProbe::Occupied) }),
{
}

/// The termination signal has priority: a wakeup with the signal pending
/// ends the reconciler in every phase, whether or not the timer fired too.
pub proof fn lemma_cancel_first(phase: Phase, tick: Option<StoreProbe>)
    ensures
        transition(phase, Event::Wakeup { cancelled: true, tick }).0 is Stopped,
        transition(phase, Event::Wakeup { cancelled: true, tick }).1 is Stop,
{
}

/// Once stopped, the reconciler stays stopped and asks for nothing more.
pub proof fn lemma_stopped_for_good(exit: Exit, event: Event)
    ensures
        transition(Phase::Stopped(exit), event) == (Phase::Stopped(exit), Action::Stop(exit)),
{
}

/// Takes one step of the reconciler: from the phase it is in and the event
/// that the driver reports to the phase it enters and the action that the
/// driver performs next.
pub fn step(phase: Phase, event: Event) -> (next: (Phase, Action))
    ensures
        next == transition(phase, event),
{
    if let Phase::Stopped(exit) = phase {
        return (Phase::Stopped(exit), Action::Stop(exit));
    }
    if let Event::Wakeup { cancelled: true, tick: _ } = event {
        return (Phase::Stopped(Exit::Cancelled), Action::Stop(Exit::Cancelled));
    }
    match phase {
        Phase::Idle => match event {
            Event::Wakeup { cancelled: _, tick: Some(StoreProbe::Occupied) } => (
                Phase::Polling,
                Action::QueryCallers,
            ),
            _ => (Phase::Idle, Action::Wait),
        },
        Phase::Polling => match event {
            Event::CallersListed => (Phase::Applying, Action::Apply),
            Event::QueryFailed => (
                Phase::Stopped(Exit::QueryFailed),
                Action::Stop(Exit::QueryFailed),
            ),
            _ => (Phase::Polling, Action::QueryCallers),
        },
        Phase::Applying => match event {
            Event::Applied => (Phase::Idle, Action::Wait),
            Event::LockContended => (Phase::Idle, Action::Wait),
            Event::LockFailed => (Phase::Stopped(Exit::LockFailed), Action::Stop(Exit::LockFailed)),
            _ => (Phase::Applying, Action::Apply),
        },
        Phase::Stopped(exit) => (Phase::Stopped(exit), Action::Stop(exit)),
    }
}

/// Looks at the session when the timer fired. `session` is `None` where the
/// session was in use and could not be looked at.
pub fn probe<H>(session: Option<&SessionManager<H>>) -> (found: StoreProbe)
    ensures
        found == sighting(session),
{
    match session {
        None => StoreProbe::Contended,
        Some(s) => if s.is_idle() {
            StoreProbe::Empty
        } else {
            StoreProbe::Occupied
        },
    }
}

/// Applies one poll to the session: evicts every inhibition whose owner has
/// no unique address among `names`, the names that the transport listed, and
/// returns the evicted records, each exactly once, so that their locks can be
/// released. The inhibitions of connected callers stay as they were.
pub fn reconcile<H>(session: &mut SessionManager<H>, names: &Vec<BusName>) -> (evicted: Vec<
    InhibitionRecord<H>,
>)
    ensures
        final(session).accepting() == old(session).accepting(),
        final(session).active() == surviving(old(session).active(), listed_callers(names@)),
        lists_exactly(evicted@, orphaned(old(session).active(), listed_callers(names@))),
{
    let live = live_callers(names);
    session.evict_disconnected(&live)
}

} // verus!
