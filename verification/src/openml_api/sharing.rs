//! What the protocol of the cache achieves when callers share one directory.
//!
//! The file system and the network are modelled as far as the protocol sees
//! them: the cached file is there in full or not at all, at most one caller at
//! a time holds the file that is being filled, and the network serves the
//! resource. Each thing that a caller is asked to do happens at once, and
//! callers take turns in any order. Nothing fails in this model.

use vstd::prelude::*;

use crate::error::Error;
use crate::openml_api::web_access::{
    cache_next, cache_start, holds_file, CacheAction, CacheEvent, CacheState, RetryPolicy,
};

verus! {

/// A cache directory with the file of one resource in it.
pub struct SharedCache<B> {
    /// What the cached file holds, where there is one.
    pub file: Option<B>,
    /// Which caller holds the file that is being filled, where one does.
    pub holder: Option<int>,
    /// What the network serves for the resource.
    pub origin: B,
    /// How often the resource was fetched.
    pub fetches: nat,
}

/// A caller between two steps: where it stands, and what it does next.
pub struct Caller<B> {
    pub state: CacheState<B>,
    pub action: CacheAction<B>,
}

/// A caller that has not done anything yet.
pub open spec fn fresh_caller<B>() -> Caller<B> {
    Caller { state: cache_start::<B>().0, action: cache_start::<B>().1 }
}

/// What caller `who` is told of what it does next, and what the cache is like
/// afterwards.
pub open spec fn cache_reply<B>(cache: SharedCache<B>, who: int, caller: Caller<B>) -> (
    SharedCache<B>,
    CacheEvent<B>,
) {
    match caller.action {
        CacheAction::Read => match cache.file {
            Some(body) => (cache, CacheEvent::Hit(body)),
            None => (cache, CacheEvent::Missing),
        },
        CacheAction::Create => if cache.holder is None {
            (SharedCache { holder: Some(who), ..cache }, CacheEvent::Created)
        } else {
            (cache, CacheEvent::Exists)
        },
        CacheAction::Fetch => (
            SharedCache { fetches: cache.fetches + 1, ..cache },
            CacheEvent::Fetched(cache.origin),
        ),
        CacheAction::Store => match caller.state {
            CacheState::Storing { body } => (
                SharedCache { file: Some(body), holder: None, ..cache },
                CacheEvent::Stored,
            ),
            _ => (cache, CacheEvent::IoFailed),
        },
        CacheAction::Discard => (
            SharedCache {
                holder: if cache.holder == Some(who) {
                    None
                } else {
                    cache.holder
                },
                ..cache
            },
            CacheEvent::Discarded,
        ),
        CacheAction::Wait(_) => (cache, CacheEvent::Waited),
        CacheAction::Return(_) => (cache, CacheEvent::Waited),
    }
}

/// One step of caller `who`: it does what it was asked to do, and is told
/// what to do next. A caller that has returned does nothing any more.
pub open spec fn fleet_step<B>(
    policy: RetryPolicy,
    fleet: (SharedCache<B>, Seq<Caller<B>>),
    who: int,
) -> (SharedCache<B>, Seq<Caller<B>>) {
    if 0 <= who < fleet.1.len() && !(fleet.1[who].action is Return) {
        let (cache, event) = cache_reply(fleet.0, who, fleet.1[who]);
        let (state, action) = cache_next(policy, fleet.1[who].state, event);
        (cache, fleet.1.update(who, Caller { state, action }))
    } else {
        fleet
    }
}

/// The cache and the callers after the callers have taken their turns in the
/// order of `schedule`.
pub open spec fn fleet_run<B>(
    policy: RetryPolicy,
    fleet: (SharedCache<B>, Seq<Caller<B>>),
    schedule: Seq<int>,
) -> (SharedCache<B>, Seq<Caller<B>>)
    decreases schedule.len(),
{
    if schedule.len() == 0 {
        fleet
    } else {
        fleet_step(policy, fleet_run(policy, fleet, schedule.drop_last()), schedule.last())
    }
}

/// Whether what a caller does next is what its state calls for, and what it
/// carries is what the network serves.
pub open spec fn caller_ok<B>(origin: B, caller: Caller<B>) -> bool {
    match caller.state {
        CacheState::Reading { .. } => caller.action is Read,
        CacheState::Creating { .. } => caller.action is Create,
        CacheState::Waiting { .. } => caller.action is Wait,
        CacheState::Confirming => caller.action is Read,
        CacheState::Yielding { body } => caller.action is Discard && body == origin,
        CacheState::Fetching => caller.action is Fetch,
        CacheState::Storing { body } => caller.action is Store && body == origin,
        CacheState::Discarding { .. } => false,
        CacheState::Done => caller.action == CacheAction::Return(Ok::<B, Error>(origin))
            || caller.action == CacheAction::Return(Err::<B, Error>(Error::LockTimeout)),
    }
}

/// Whether the resource has been fetched: the cache is filled, or the caller
/// that holds the file is about to store what it fetched.
pub open spec fn fetched<B>(fleet: (SharedCache<B>, Seq<Caller<B>>)) -> bool {
    fleet.0.file is Some || (fleet.0.holder matches Some(who) && 0 <= who < fleet.1.len()
        && fleet.1[who].state is Storing)
}

/// What holds of a cache that was empty and of its callers, whatever turns
/// they have taken, where `before` fetches had been made when they started.
pub open spec fn fleet_ok<B>(fleet: (SharedCache<B>, Seq<Caller<B>>), before: nat) -> bool {
    let (cache, callers) = fleet;
    &&& forall|i: int| 0 <= i < callers.len() ==> caller_ok(cache.origin, #[trigger] callers[i])
    &&& forall|i: int|
        0 <= i < callers.len() ==> (holds_file((#[trigger] callers[i]).state) <==> cache.holder
            == Some(i))
    &&& cache.holder matches Some(who) ==> 0 <= who < callers.len()
    &&& cache.file matches Some(body) ==> body == cache.origin
    &&& forall|i: int|
        0 <= i < callers.len() && ((#[trigger] callers[i]).state is Fetching || callers[i].state
            is Storing) ==> cache.file is None
    &&& forall|i: int|
        0 <= i < callers.len() && ((#[trigger] callers[i]).state is Yielding || callers[i].action
            == CacheAction::Return(Ok::<B, Error>(cache.origin))) ==> cache.file is Some
    &&& cache.fetches == before + if fetched(fleet) {
        1nat
    } else {
        0nat
    }
}

/// A step of any caller keeps what holds of a cache and its callers.
pub proof fn lemma_fleet_step_ok<B>(
    policy: RetryPolicy,
    fleet: (SharedCache<B>, Seq<Caller<B>>),
    who: int,
    before: nat,
)
    requires
        fleet_ok(fleet, before),
    ensures
        fleet_ok(fleet_step(policy, fleet, who), before),
        fleet_step(policy, fleet, who).0.origin == fleet.0.origin,
        fleet_step(policy, fleet, who).1.len() == fleet.1.len(),
{
}

/// Any number of callers that start on an empty cache and take their turns in
/// any order fetch the resource at most once between them. Whoever has
/// returned has returned what the network serves, or has given up waiting for
/// the caller that holds the file; and as soon as one caller has the content,
/// the resource has been fetched exactly once.
pub proof fn lemma_callers_fetch_once<B>(
    policy: RetryPolicy,
    cache: SharedCache<B>,
    n: nat,
    schedule: Seq<int>,
)
    requires
        cache.file is None,
        cache.holder is None,
    ensures
        ({
            let start = (cache, Seq::new(n, |i: int| fresh_caller::<B>()));
            let (end, callers) = fleet_run(policy, start, schedule);
            &&& callers.len() == n
            &&& end.fetches <= cache.fetches + 1
            &&& forall|i: int|
                0 <= i < n ==> ((#[trigger] callers[i]).action matches CacheAction::Return(outcome)
                    ==> outcome == Ok::<B, Error>(cache.origin) || outcome == Err::<B, Error>(
                    Error::LockTimeout,
                ))
            &&& (exists|i: int|
                0 <= i < n && (#[trigger] callers[i]).action == CacheAction::Return(
                    Ok::<B, Error>(cache.origin),
                )) ==> end.fetches == cache.fetches + 1
        }),
{
    let start = (cache, Seq::new(n, |i: int| fresh_caller::<B>()));
    lemma_fleet_run_ok(policy, start, schedule, cache.fetches);
    let (end, callers) = fleet_run(policy, start, schedule);
}

/// Whatever turns the callers take, what holds of a cache and its callers
/// goes on holding.
pub proof fn lemma_fleet_run_ok<B>(
    policy: RetryPolicy,
    fleet: (SharedCache<B>, Seq<Caller<B>>),
    schedule: Seq<int>,
    before: nat,
)
    requires
        fleet_ok(fleet, before),
    ensures
        fleet_ok(fleet_run(policy, fleet, schedule), before),
        fleet_run(policy, fleet, schedule).0.origin == fleet.0.origin,
        fleet_run(policy, fleet, schedule).1.len() == fleet.1.len(),
    decreases schedule.len(),
{
    if schedule.len() > 0 {
        lemma_fleet_run_ok(policy, fleet, schedule.drop_last(), before);
        lemma_fleet_step_ok(
            policy,
            fleet_run(policy, fleet, schedule.drop_last()),
            schedule.last(),
            before,
        );
    }
}

/// The turns that one caller takes when it is alone with the cache: as many
/// as `fuel` allows, or as it needs to return.
pub open spec fn alone<B>(policy: RetryPolicy, cache: SharedCache<B>, caller: Caller<B>, fuel: nat) -> (
    SharedCache<B>,
    Caller<B>,
)
    decreases fuel,
{
    if fuel == 0 || caller.action is Return {
        (cache, caller)
    } else {
        let (replied, event) = cache_reply(cache, 0, caller);
        let (state, action) = cache_next(policy, caller.state, event);
        alone(policy, replied, Caller { state, action }, (fuel - 1) as nat)
    }
}

/// One whole request of a caller that is alone with the cache: the cache
/// afterwards, and what the caller is about to do after five turns, which is
/// to return.
pub open spec fn request<B>(policy: RetryPolicy, cache: SharedCache<B>) -> (
    SharedCache<B>,
    CacheAction<B>,
) {
    let (after, caller) = alone(policy, cache, fresh_caller::<B>(), 5);
    (after, caller.action)
}

/// Two requests for one resource, one after the other and with nothing else
/// going on, return the same content, which is what the network serves, and
/// fetch it exactly once: the first request fetches and fills the cache, the
/// second one reads the cache and changes nothing.
pub proof fn lemma_second_request_is_served_from_cache<B>(policy: RetryPolicy, cache: SharedCache<B>)
    requires
        cache.file is None,
        cache.holder is None,
    ensures
        request(policy, cache).1 == CacheAction::Return(Ok::<B, Error>(cache.origin)),
        request(policy, cache).0.file == Some(cache.origin),
        request(policy, cache).0.fetches == cache.fetches + 1,
        request(policy, request(policy, cache).0).1 == request(policy, cache).1,
        request(policy, request(policy, cache).0).0 == request(policy, cache).0,
{
    reveal_with_fuel(alone, 7);
}

/// A request for a resource that is cached returns what the file holds, and
/// neither fetches nor changes anything.
pub proof fn lemma_cached_content_is_returned<B>(policy: RetryPolicy, cache: SharedCache<B>)
    requires
        cache.file is Some,
    ensures
        request(policy, cache).1 == CacheAction::Return(Ok::<B, Error>(cache.file->0)),
        request(policy, cache).0 == cache,
{
    reveal_with_fuel(alone, 3);
}

} // verus!
