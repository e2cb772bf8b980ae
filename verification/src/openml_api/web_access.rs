//! A cache on disk for what the platform serves, safe for several processes.
//!
//! Each resource has a cached file, which is there in full or not at all.
//! Whoever needs a resource walks a small protocol: try to read the cached
//! file; where there is none, try to create, beside it, the file that is to be
//! filled. Whoever succeeds in that looks once more for the cached file,
//! fetches the resource if it is still missing, fills the new file and puts it
//! in the place of the cached file in one move, while the others wait and read
//! again. The decisions of that protocol are made here. Opening, locking,
//! fetching and writing are done by the caller, who reports back what
//! happened.

use vstd::prelude::*;

use crate::error::Error;

verus! {

/// `String::push` appends one character to the end of the string.
pub assume_specification[ String::push ](s: &mut String, c: char)
    ensures
        final(s)@ == old(s)@.push(c),
;

/// The character of a file name that stands for `c` of a URL: the separators
/// of paths and of drives give way to an underscore.
pub open spec fn file_char(c: char) -> char {
    if c == '/' || c == ':' {
        '_'
    } else {
        c
    }
}

/// The name of the file that caches `url`.
pub open spec fn file_name(url: Seq<char>) -> Seq<char> {
    Seq::new(url.len(), |i: int| file_char(url[i]))
}

/// Convert a URL to the name of the file that caches it.
pub fn url_to_file(s: &str) -> (name: String)
    ensures
        name@ == file_name(s@),
{
    let mut name = String::new();
    let n = s.unicode_len();
    let mut i: usize = 0;
    while i < n
        invariant
            i <= n,
            n == s@.len(),
            name@ == file_name(s@).take(i as int),
        decreases n - i,
    {
        let c = s.get_char(i);
        if c == '/' || c == ':' {
            name.push('_');
        } else {
            name.push(c);
        }
        i = i + 1;
    }
    name
}

/// How long a caller keeps trying while another one holds the file.
#[derive(Clone, Copy, Debug, PartialEq, Eq, Structural)]
pub struct RetryPolicy {
    /// How often the creation of the file may be lost to another caller.
    pub max_attempts: u32,
    /// The first wait, in milliseconds.
    pub base_delay_ms: u64,
    /// The longest wait, in milliseconds.
    pub max_delay_ms: u64,
}

/// The wait before the read that follows `lost` lost creations and one more:
/// the first wait doubled once for each earlier loss, and never more than `cap`.
pub open spec fn backoff(base: u64, cap: u64, lost: nat) -> u64
    decreases lost,
{
    if lost == 0 {
        if base <= cap {
            base
        } else {
            cap
        }
    } else {
        let before = backoff(base, cap, (lost - 1) as nat);
        if 2 * before <= cap {
            (2 * before) as u64
        } else {
            cap
        }
    }
}

/// No wait is longer than the cap, and a later wait is no shorter than an earlier one.
pub proof fn lemma_backoff_grows(base: u64, cap: u64, lost: nat)
    ensures
        backoff(base, cap, lost) <= cap,
        backoff(base, cap, lost) <= backoff(base, cap, lost + 1),
    decreases lost,
{
    if lost > 0 {
        lemma_backoff_grows(base, cap, (lost - 1) as nat);
    }
}

impl RetryPolicy {
    /// The wait after `lost` earlier losses.
    pub fn delay(&self, lost: u32) -> (ms: u64)
        ensures
            ms == backoff(self.base_delay_ms, self.max_delay_ms, lost as nat),
    {
        let cap = self.max_delay_ms;
        let mut ms = if self.base_delay_ms <= cap {
            self.base_delay_ms
        } else {
            cap
        };
        let mut k: u32 = 0;
        while k < lost
            invariant
                k <= lost,
                cap == self.max_delay_ms,
                ms == backoff(self.base_delay_ms, cap, k as nat),
            decreases lost - k,
        {
            ms = if ms <= cap / 2 {
                2 * ms
            } else {
                cap
            };
            k = k + 1;
        }
        ms
    }
}

/// Where a caller stands in the protocol. `B` is the body of a resource.
#[derive(Debug)]
pub enum CacheState<B> {
    /// The cached file is being opened and read; `lost` creations were lost so far.
    Reading { lost: u32 },
    /// There was no cached file, and the creation of the file that is to be
    /// filled is being tried.
    Creating { lost: u32 },
    /// The creation was lost to another caller, who is given time.
    Waiting { lost: u32 },
    /// This caller created the file that is to be filled, and looks once more
    /// whether another caller has filled the cache in the meantime.
    Confirming,
    /// Another caller has filled the cache: what this caller created is being
    /// removed, and `body` is what the cache holds.
    Yielding { body: B },
    /// This caller holds the file and fetches the resource.
    Fetching,
    /// The body is being written into the file.
    Storing { body: B },
    /// What was created is being removed again, because of `error`.
    Discarding { error: Error },
    /// The protocol has ended.
    Done,
}

/// What the caller reports of the last thing it was asked to do.
#[derive(Debug)]
pub enum CacheEvent<B> {
    /// The cached file was there, and this is all of it.
    Hit(B),
    /// There is no cached file.
    Missing,
    /// The file that is to be filled was created, and this caller holds it alone.
    Created,
    /// The file could not be created because it is there already: another
    /// caller is filling it.
    Exists,
    /// The file could not be created because another caller holds it.
    Denied,
    /// The file system failed in any other way.
    IoFailed,
    /// The resource was fetched, and this is its body.
    Fetched(B),
    /// The transport failed.
    FetchFailed,
    /// What was read or fetched is not text.
    Undecodable,
    /// The body was written and flushed, and the file was put in the place of
    /// the cached file.
    Stored,
    /// What was created has been removed.
    Discarded,
    /// The wait is over.
    Waited,
}

/// What the caller is asked to do next.
#[derive(Debug)]
pub enum CacheAction<B> {
    /// Open the cached file, lock it for reading, and read all of it.
    Read,
    /// Create the file that is to be filled, failing where it exists, and lock
    /// it for writing.
    Create,
    /// Fetch the resource from the network.
    Fetch,
    /// Write the body that the state holds, flush it, put the file in the
    /// place of the cached file, and release the lock.
    Store,
    /// Remove what was created, and release the lock.
    Discard,
    /// Wait for so many milliseconds.
    Wait(u64),
    /// Hand this to whoever asked for the resource.
    Return(Result<B, Error>),
}

/// The state in which a caller starts, and what it does first.
pub open spec fn cache_start<B>() -> (CacheState<B>, CacheAction<B>) {
    (CacheState::Reading { lost: 0 }, CacheAction::Read)
}

/// The protocol: what follows on `event` in `state`.
///
/// Only the loss of a creation is tried again, a bounded number of times and
/// after a wait that grows. Every other failure ends the protocol at once, and
/// so does an event that the state does not call for. Whoever has created the
/// file reads the cache once more before fetching, and fetches only where it
/// is still empty. Whoever created the file and did not fill it removes it
/// before anything is reported.
pub open spec fn cache_next<B>(policy: RetryPolicy, state: CacheState<B>, event: CacheEvent<B>) -> (
    CacheState<B>,
    CacheAction<B>,
) {
    match (state, event) {
        (CacheState::Reading { lost }, CacheEvent::Hit(body)) => (
            CacheState::Done,
            CacheAction::Return(Ok(body)),
        ),
        (CacheState::Reading { lost }, CacheEvent::Missing) => (
            CacheState::Creating { lost },
            CacheAction::Create,
        ),
        (CacheState::Reading { lost }, CacheEvent::Undecodable) => (
            CacheState::Done,
            CacheAction::Return(Err(Error::DecodeError)),
        ),
        (CacheState::Creating { lost }, CacheEvent::Created) => (
            CacheState::Confirming,
            CacheAction::Read,
        ),
        (CacheState::Confirming, CacheEvent::Missing) => (CacheState::Fetching, CacheAction::Fetch),
        (CacheState::Confirming, CacheEvent::Hit(body)) => (
            CacheState::Yielding { body },
            CacheAction::Discard,
        ),
        (CacheState::Confirming, CacheEvent::Undecodable) => (
            CacheState::Discarding { error: Error::DecodeError },
            CacheAction::Discard,
        ),
        (CacheState::Confirming, _) => (
            CacheState::Discarding { error: Error::IoError },
            CacheAction::Discard,
        ),
        (CacheState::Yielding { body }, CacheEvent::Discarded) => (
            CacheState::Done,
            CacheAction::Return(Ok(body)),
        ),
        (CacheState::Yielding { body }, _) => (
            CacheState::Done,
            CacheAction::Return(Err(Error::IoError)),
        ),
        (CacheState::Creating { lost }, CacheEvent::Exists)
        | (CacheState::Creating { lost }, CacheEvent::Denied) => if lost < policy.max_attempts {
            (
                CacheState::Waiting { lost: (lost + 1) as u32 },
                CacheAction::Wait(backoff(policy.base_delay_ms, policy.max_delay_ms, lost as nat)),
            )
        } else {
            (CacheState::Done, CacheAction::Return(Err(Error::LockTimeout)))
        },
        (CacheState::Waiting { lost }, CacheEvent::Waited) => (
            CacheState::Reading { lost },
            CacheAction::Read,
        ),
        (CacheState::Fetching, CacheEvent::Fetched(body)) => (
            CacheState::Storing { body },
            CacheAction::Store,
        ),
        (CacheState::Fetching, CacheEvent::FetchFailed) => (
            CacheState::Discarding { error: Error::NetworkError },
            CacheAction::Discard,
        ),
        (CacheState::Fetching, CacheEvent::Undecodable) => (
            CacheState::Discarding { error: Error::DecodeError },
            CacheAction::Discard,
        ),
        (CacheState::Fetching, _) => (
            CacheState::Discarding { error: Error::IoError },
            CacheAction::Discard,
        ),
        (CacheState::Storing { body }, CacheEvent::Stored) => (
            CacheState::Done,
            CacheAction::Return(Ok(body)),
        ),
        (CacheState::Storing { body }, _) => (
            CacheState::Discarding { error: Error::IoError },
            CacheAction::Discard,
        ),
        (CacheState::Discarding { error }, _) => (
            CacheState::Done,
            CacheAction::Return(Err(error)),
        ),
        _ => (CacheState::Done, CacheAction::Return(Err(Error::IoError))),
    }
}

/// The state in which a caller starts, and what it does first.
pub fn start<B>() -> (first: (CacheState<B>, CacheAction<B>))
    ensures
        first == cache_start::<B>(),
{
    (CacheState::Reading { lost: 0 }, CacheAction::Read)
}

/// What follows on `event` in `state`.
pub fn step<B>(policy: &RetryPolicy, state: CacheState<B>, event: CacheEvent<B>) -> (next: (
    CacheState<B>,
    CacheAction<B>,
))
    ensures
        next == cache_next(*policy, state, event),
{
    match state {
        CacheState::Reading { lost } => match event {
            CacheEvent::Hit(body) => (CacheState::Done, CacheAction::Return(Ok(body))),
            CacheEvent::Missing => (CacheState::Creating { lost }, CacheAction::Create),
            CacheEvent::Undecodable => (
                CacheState::Done,
                CacheAction::Return(Err(Error::DecodeError)),
            ),
            _ => (CacheState::Done, CacheAction::Return(Err(Error::IoError))),
        },
        CacheState::Creating { lost } => match event {
            CacheEvent::Created => (CacheState::Confirming, CacheAction::Read),
            CacheEvent::Exists | CacheEvent::Denied => {
                if lost < policy.max_attempts {
                    (CacheState::Waiting { lost: lost + 1 }, CacheAction::Wait(policy.delay(lost)))
                } else {
                    (CacheState::Done, CacheAction::Return(Err(Error::LockTimeout)))
                }
            },
            _ => (CacheState::Done, CacheAction::Return(Err(Error::IoError))),
        },
        CacheState::Waiting { lost } => match event {
            CacheEvent::Waited => (CacheState::Reading { lost }, CacheAction::Read),
            _ => (CacheState::Done, CacheAction::Return(Err(Error::IoError))),
        },
        CacheState::Confirming => match event {
            CacheEvent::Missing => (CacheState::Fetching, CacheAction::Fetch),
            CacheEvent::Hit(body) => (CacheState::Yielding { body }, CacheAction::Discard),
            CacheEvent::Undecodable => (
                CacheState::Discarding { error: Error::DecodeError },
                CacheAction::Discard,
            ),
            _ => (CacheState::Discarding { error: Error::IoError }, CacheAction::Discard),
        },
        CacheState::Yielding { body } => match event {
            CacheEvent::Discarded => (CacheState::Done, CacheAction::Return(Ok(body))),
            _ => (CacheState::Done, CacheAction::Return(Err(Error::IoError))),
        },
        CacheState::Fetching => match event {
            CacheEvent::Fetched(body) => (CacheState::Storing { body }, CacheAction::Store),
            CacheEvent::FetchFailed => (
                CacheState::Discarding { error: Error::NetworkError },
                CacheAction::Discard,
            ),
            CacheEvent::Undecodable => (
                CacheState::Discarding { error: Error::DecodeError },
                CacheAction::Discard,
            ),
            _ => (CacheState::Discarding { error: Error::IoError }, CacheAction::Discard),
        },
        CacheState::Storing { body } => match event {
            CacheEvent::Stored => (CacheState::Done, CacheAction::Return(Ok(body))),
            _ => (CacheState::Discarding { error: Error::IoError }, CacheAction::Discard),
        },
        CacheState::Discarding { error } => (CacheState::Done, CacheAction::Return(Err(error))),
        CacheState::Done => (CacheState::Done, CacheAction::Return(Err(Error::IoError))),
    }
}

/// An upper bound on the number of reports after which a caller in `state` is done.
pub open spec fn reports_left<B>(policy: RetryPolicy, state: CacheState<B>) -> nat {
    match state {
        CacheState::Done => 0,
        CacheState::Discarding { .. } => 1,
        CacheState::Yielding { .. } => 1,
        CacheState::Storing { .. } => 2,
        CacheState::Fetching => 3,
        CacheState::Confirming => 4,
        CacheState::Creating { lost } => (5 + 3 * tries_left(policy, lost)) as nat,
        CacheState::Reading { lost } => (6 + 3 * tries_left(policy, lost)) as nat,
        CacheState::Waiting { lost } => (7 + 3 * tries_left(policy, lost)) as nat,
    }
}

/// How many more creations may be lost after `lost` of them.
pub open spec fn tries_left(policy: RetryPolicy, lost: u32) -> nat {
    if lost < policy.max_attempts {
        (policy.max_attempts - lost) as nat
    } else {
        0
    }
}

/// Whether the caller in `state` has created the file that is to be filled and
/// has not yet let go of it.
pub open spec fn holds_file<B>(state: CacheState<B>) -> bool {
    state is Confirming || state is Yielding || state is Fetching || state is Storing
        || state is Discarding
}

/// Every report brings a caller closer to its end, so no caller goes on for
/// ever: one that starts is done after at most `6 + 3 * max_attempts` reports.
/// It is done exactly when it is told to return, and it is never told to wait
/// longer than the policy allows.
pub proof fn lemma_protocol_ends<B>(policy: RetryPolicy, state: CacheState<B>, event: CacheEvent<B>)
    requires
        !(state is Done),
    ensures
        reports_left(policy, cache_next(policy, state, event).0) < reports_left(policy, state),
        cache_next(policy, state, event).0 is Done <==> cache_next(policy, state, event).1 is Return,
        reports_left(policy, cache_start::<B>().0) == 6 + 3 * policy.max_attempts,
        cache_next(policy, state, event).1 matches CacheAction::Wait(ms) ==> ms
            <= policy.max_delay_ms,
{
    match state {
        CacheState::Creating { lost } => {
            lemma_backoff_grows(policy.base_delay_ms, policy.max_delay_ms, lost as nat);
        },
        _ => {},
    }
}

/// Only who has created the file and found the cache still empty is told to
/// fetch, and who has fetched is never told to fetch again: a caller fetches at
/// most once, and no caller fetches what it found cached. Who holds the file
/// keeps holding it until it is done.
pub proof fn lemma_only_the_creator_fetches<B>(
    policy: RetryPolicy,
    state: CacheState<B>,
    event: CacheEvent<B>,
)
    ensures
        cache_next(policy, state, event).1 is Fetch <==> state is Confirming && event is Missing,
        cache_next(policy, state, event).0 is Confirming <==> state is Creating && event is Created,
        cache_next(policy, state, event).1 is Fetch ==> cache_next(policy, state, event).0
            is Fetching,
        holds_file(state) ==> holds_file(cache_next(policy, state, event).0) || cache_next(
            policy,
            state,
            event,
        ).0 is Done,
        cache_next(policy, state, event).1 is Store ==> state is Fetching && event is Fetched,
{
}

} // verus!
