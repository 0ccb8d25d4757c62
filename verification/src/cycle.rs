//! The refresh cycle: listing the displays, fetching the state of each,
//! and putting the states into the registry.
//!
//! A cycle goes through four phases. The caller does the outside work of
//! each phase (the call of the control utility, the fetch tasks, the
//! pause) and reports its end as an event; [`step`] decides what the event
//! does to the registry, which phase follows, and what the caller is to
//! do next. Cycles follow one another and never overlap.

use crate::ddcutil::{detect_args, detect_command, texts, ProcessError};
use crate::detect::{parse_detect, parse_detect_text, views, DisplayInfo};
use crate::registry::{ids_of, Registry};
use crate::state::{DisplayState, DisplayStateView};
use crate::textmap::TextMap;
use vstd::prelude::*;

verus! {

/// The pause between two cycles, in seconds.
pub const REFRESH_INTERVAL_SECS: u64 = 5;

/// Where a cycle stands.
#[derive(Clone, Copy, Debug, PartialEq, Eq, Structural)]
pub enum Phase {
    /// The listing call is under way.
    Enumerating,
    /// The displays are listed; the fetch tasks are being started.
    FanOutPrefetch,
    /// The fetch tasks run; their ends are awaited.
    Aggregating,
    /// No cycle is under way.
    Idle,
}

/// What the caller reports.
#[derive(Debug)]
pub enum CycleEvent {
    /// The pause is over, or the process has just started.
    Wake,
    /// The listing call has ended, with its output or its failure.
    Enumerated(Result<String, ProcessError>),
    /// A fetch task has been started for every display.
    Launched,
    /// Every fetch task has ended. Each task gives the identity of its
    /// display and the state it fetched; a task that was lost gives
    /// nothing.
    Joined(Vec<Option<(String, DisplayState)>>),
}

/// What the caller is to do next.
#[derive(Debug)]
pub enum CycleAction {
    /// Call the control utility with these arguments and report
    /// [`CycleEvent::Enumerated`].
    Enumerate(Vec<String>),
    /// Announce each of these displays, start a fetch task for each, and
    /// report [`CycleEvent::Launched`].
    Launch(Vec<DisplayInfo>),
    /// Await the end of every fetch task and report [`CycleEvent::Joined`].
    Join,
    /// Pause for this many seconds and report [`CycleEvent::Wake`].
    Sleep(u64),
    /// The event did not fit the phase; nothing has changed.
    Nothing,
}

/// The outcomes of the fetch tasks, as plain values.
pub open spec fn outcome_views(outcomes: Seq<Option<(String, DisplayState)>>) -> Seq<
    Option<(Seq<char>, DisplayStateView)>,
> {
    outcomes.map_values(
        |o: Option<(String, DisplayState)>|
            match o {
                Some(e) => Some((e.0@, e.1@)),
                None => None,
            },
    )
}

/// The states that the outcomes of the fetch tasks bring: for each display
/// among `listed` the state of the last task that fetched it. Lost tasks
/// bring nothing, and neither do tasks for displays outside `listed`.
pub open spec fn batch_of(
    outcomes: Seq<Option<(Seq<char>, DisplayStateView)>>,
    listed: Set<Seq<char>>,
) -> Map<Seq<char>, DisplayStateView>
    decreases outcomes.len(),
{
    if outcomes.len() == 0 {
        Map::empty()
    } else {
        let before = batch_of(outcomes.drop_last(), listed);
        match outcomes.last() {
            Some(e) => if listed.contains(e.0) {
                before.insert(e.0, e.1)
            } else {
                before
            },
            None => before,
        }
    }
}

/// Whether two registries hold the same.
pub open spec fn same_registry(a: &Registry, b: &Registry) -> bool {
    &&& a.identities() == b.identities()
    &&& a.states() == b.states()
    &&& a.known() == b.known()
}

/// Gathers the states that the outcomes of the fetch tasks bring.
fn gather(registry: &Registry, outcomes: Vec<Option<(String, DisplayState)>>) -> (batch: TextMap<
    DisplayState,
>)
    ensures
        batch@ == batch_of(outcome_views(outcomes@), ids_of(registry.identities())),
        forall|id: Seq<char>| #[trigger]
            batch@.contains_key(id) ==> ids_of(registry.identities()).contains(id),
{
    let ghost all = outcome_views(outcomes@);
    let ghost listed = ids_of(registry.identities());
    let mut batch: TextMap<DisplayState> = TextMap::new();
    proof {
        assert(all.take(0) =~= Seq::empty());
    }
    for outcome in it: outcomes
        invariant
            all == outcome_views(it.seq()),
            listed == ids_of(registry.identities()),
            batch@ == batch_of(all.take(it.index() as int), listed),
            forall|id: Seq<char>| #[trigger] batch@.contains_key(id) ==> listed.contains(id),
    {
        proof {
            assert(all.take(it.index() + 1).drop_last() =~= all.take(it.index() as int));
            assert(all.take(it.index() + 1).last() == all[it.index() as int]);
        }
        match outcome {
            Some(entry) => {
                if registry.has_identity(entry.0.as_str()) {
                    batch.insert(entry.0, entry.1);
                }
            },
            None => {},
        }
    }
    proof {
        assert(all.take(all.len() as int) =~= all);
    }
    batch
}

/// Takes one event of the refresh cycle.
///
/// Returns the phase that follows and what the caller is to do next.
/// - A wake-up while idle starts a cycle: the displays are to be listed.
/// - A failed listing ends the cycle and leaves the registry as it was:
///   what is known of the displays stays, and the next cycle comes after
///   the pause.
/// - A listing that was read replaces the identities of the registry, as
///   a whole and before any fetch is started.
/// - When the tasks have ended, the states they bring are put into the
///   registry as one batch, and the cycle ends.
/// - An event that does not fit the phase changes nothing.
///
/// A registry that is well formed stays so: the states of a batch are
/// taken only for displays of the list, and an outcome for any other
/// display is dropped.
pub fn step(registry: &mut Registry, phase: Phase, event: CycleEvent) -> (r: (Phase, CycleAction))
    ensures
        old(registry).wf() ==> final(registry).wf(),
        match (phase, event) {
            (Phase::Idle, CycleEvent::Wake) => {
                &&& r.0 == Phase::Enumerating
                &&& r.1 matches CycleAction::Enumerate(args) && texts(args@) == detect_args()
                &&& same_registry(final(registry), old(registry))
            },
            (Phase::Enumerating, CycleEvent::Enumerated(Err(_))) => {
                &&& r.0 == Phase::Idle
                &&& r.1 matches CycleAction::Sleep(secs) && secs == REFRESH_INTERVAL_SECS
                &&& same_registry(final(registry), old(registry))
            },
            (Phase::Enumerating, CycleEvent::Enumerated(Ok(text))) => {
                &&& r.0 == Phase::FanOutPrefetch
                &&& r.1 matches CycleAction::Launch(list) && views(list@) == parse_detect(text@)
                &&& final(registry).identities() == parse_detect(text@)
                &&& final(registry).states() == old(registry).states()
                &&& final(registry).known() == old(registry).known().union(
                    ids_of(parse_detect(text@)),
                )
            },
            (Phase::FanOutPrefetch, CycleEvent::Launched) => {
                &&& r.0 == Phase::Aggregating
                &&& r.1 is Join
                &&& same_registry(final(registry), old(registry))
            },
            (Phase::Aggregating, CycleEvent::Joined(outcomes)) => {
                &&& r.0 == Phase::Idle
                &&& r.1 matches CycleAction::Sleep(secs) && secs == REFRESH_INTERVAL_SECS
                &&& final(registry).identities() == old(registry).identities()
                &&& final(registry).known() == old(registry).known()
                &&& final(registry).states() == old(registry).states().union_prefer_right(
                    batch_of(outcome_views(outcomes@), ids_of(old(registry).identities())),
                )
            },
            _ => {
                &&& r.0 == phase
                &&& r.1 is Nothing
                &&& same_registry(final(registry), old(registry))
            },
        },
{
    match (phase, event) {
        (Phase::Idle, CycleEvent::Wake) => (Phase::Enumerating, CycleAction::Enumerate(detect_command())),
        (Phase::Enumerating, CycleEvent::Enumerated(Err(_))) => (
            Phase::Idle,
            CycleAction::Sleep(REFRESH_INTERVAL_SECS),
        ),
        (Phase::Enumerating, CycleEvent::Enumerated(Ok(text))) => {
            let list = parse_detect_text(text.as_str());
            registry.replace_identities(list);
            (Phase::FanOutPrefetch, CycleAction::Launch(registry.read_identities()))
        },
        (Phase::FanOutPrefetch, CycleEvent::Launched) => (Phase::Aggregating, CycleAction::Join),
        (Phase::Aggregating, CycleEvent::Joined(outcomes)) => {
            let batch = gather(registry, outcomes);
            registry.merge_states(batch);
            (Phase::Idle, CycleAction::Sleep(REFRESH_INTERVAL_SECS))
        },
        _ => (phase, CycleAction::Nothing),
    }
}

} // verus!
