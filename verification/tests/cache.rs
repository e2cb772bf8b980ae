use openml::error::Error;
use openml::openml_api::web_access::{
    start, step, url_to_file, CacheAction, CacheEvent, CacheState, RetryPolicy,
};

const POLICY: RetryPolicy = RetryPolicy { max_attempts: 3, base_delay_ms: 50, max_delay_ms: 120 };

fn is_return_of(action: &CacheAction<String>, expected: Result<&str, Error>) -> bool {
    match (action, expected) {
        (CacheAction::Return(Ok(body)), Ok(text)) => body == text,
        (CacheAction::Return(Err(e)), Err(wanted)) => *e == wanted,
        _ => false,
    }
}

#[test]
fn url_becomes_a_file_name() {
    assert_eq!(
        url_to_file("https://www.openml.org/api/v1/json/task/59"),
        "https___www.openml.org_api_v1_json_task_59"
    );
    assert_eq!(url_to_file(""), "");
    assert_eq!(url_to_file("plain"), "plain");
    assert_eq!(url_to_file("a:b/c"), "a_b_c");
}

#[test]
fn delays_double_up_to_the_cap() {
    assert_eq!(POLICY.delay(0), 50);
    assert_eq!(POLICY.delay(1), 100);
    assert_eq!(POLICY.delay(2), 120);
    assert_eq!(POLICY.delay(30), 120);
    let tight = RetryPolicy { max_attempts: 1, base_delay_ms: 500, max_delay_ms: 10 };
    assert_eq!(tight.delay(0), 10);
    let wide = RetryPolicy { max_attempts: 1, base_delay_ms: 1, max_delay_ms: u64::MAX };
    assert_eq!(wide.delay(63), 1 << 63);
    assert_eq!(wide.delay(64), u64::MAX);
}

#[test]
fn a_cached_resource_is_returned_without_fetching() {
    let (state, action) = start::<String>();
    assert!(matches!(action, CacheAction::Read));
    let (state, action) = step(&POLICY, state, CacheEvent::Hit("cached".to_string()));
    assert!(matches!(state, CacheState::Done));
    assert!(is_return_of(&action, Ok("cached")));
}

#[test]
fn a_missing_resource_is_fetched_once_and_stored() {
    let (state, _) = start::<String>();
    let (state, action) = step(&POLICY, state, CacheEvent::Missing);
    assert!(matches!(action, CacheAction::Create));
    let (state, action) = step(&POLICY, state, CacheEvent::Created);
    assert!(matches!(action, CacheAction::Read));
    let (state, action) = step(&POLICY, state, CacheEvent::Missing);
    assert!(matches!(action, CacheAction::Fetch));
    let (state, action) = step(&POLICY, state, CacheEvent::Fetched("body".to_string()));
    assert!(matches!(action, CacheAction::Store));
    assert!(matches!(&state, CacheState::Storing { body } if body == "body"));
    let (state, action) = step(&POLICY, state, CacheEvent::Stored);
    assert!(matches!(state, CacheState::Done));
    assert!(is_return_of(&action, Ok("body")));
}

#[test]
fn a_lost_creation_waits_and_reads_again() {
    let (state, _) = start::<String>();
    let (state, _) = step(&POLICY, state, CacheEvent::Missing);
    let (state, action) = step(&POLICY, state, CacheEvent::Exists);
    assert!(matches!(action, CacheAction::Wait(50)));
    let (state, action) = step(&POLICY, state, CacheEvent::Waited);
    assert!(matches!(action, CacheAction::Read));
    let (state, _) = step(&POLICY, state, CacheEvent::Missing);
    let (state, action) = step(&POLICY, state, CacheEvent::Denied);
    assert!(matches!(action, CacheAction::Wait(100)));
    let (state, _) = step(&POLICY, state, CacheEvent::Waited);
    let (_, action) = step(&POLICY, state, CacheEvent::Hit("late".to_string()));
    assert!(is_return_of(&action, Ok("late")));
}

#[test]
fn too_many_lost_creations_time_out() {
    let (mut state, _) = start::<String>();
    for lost in 0..3u32 {
        let (creating, action) = step(&POLICY, state, CacheEvent::Missing);
        assert!(matches!(action, CacheAction::Create));
        let (waiting, action) = step(&POLICY, creating, CacheEvent::Denied);
        assert!(matches!(action, CacheAction::Wait(ms) if ms == POLICY.delay(lost)));
        let (reading, action) = step(&POLICY, waiting, CacheEvent::Waited);
        assert!(matches!(action, CacheAction::Read));
        state = reading;
    }
    let (state, _) = step(&POLICY, state, CacheEvent::Missing);
    let (state, action) = step(&POLICY, state, CacheEvent::Denied);
    assert!(matches!(state, CacheState::Done));
    assert!(is_return_of(&action, Err(Error::LockTimeout)));
}

#[test]
fn a_failed_fetch_leaves_no_file() {
    let (state, _) = start::<String>();
    let (state, _) = step(&POLICY, state, CacheEvent::Missing);
    let (state, _) = step(&POLICY, state, CacheEvent::Created);
    let (state, _) = step(&POLICY, state, CacheEvent::Missing);
    let (state, action) = step(&POLICY, state, CacheEvent::FetchFailed);
    assert!(matches!(action, CacheAction::Discard));
    let (state, action) = step(&POLICY, state, CacheEvent::Discarded);
    assert!(matches!(state, CacheState::Done));
    assert!(is_return_of(&action, Err(Error::NetworkError)));
}

#[test]
fn a_body_that_is_not_text_is_a_decode_error() {
    let (state, _) = start::<String>();
    let (_, action) = step(&POLICY, state, CacheEvent::Undecodable);
    assert!(is_return_of(&action, Err(Error::DecodeError)));
    let (state, _) = start::<String>();
    let (state, _) = step(&POLICY, state, CacheEvent::Missing);
    let (state, _) = step(&POLICY, state, CacheEvent::Created);
    let (state, _) = step(&POLICY, state, CacheEvent::Missing);
    let (state, action) = step(&POLICY, state, CacheEvent::Undecodable);
    assert!(matches!(action, CacheAction::Discard));
    let (_, action) = step(&POLICY, state, CacheEvent::Discarded);
    assert!(is_return_of(&action, Err(Error::DecodeError)));
}

#[test]
fn other_failures_of_the_file_system_are_fatal_at_once() {
    let (state, _) = start::<String>();
    let (state, action) = step(&POLICY, state, CacheEvent::IoFailed);
    assert!(matches!(state, CacheState::Done));
    assert!(is_return_of(&action, Err(Error::IoError)));
    let (state, _) = start::<String>();
    let (state, _) = step(&POLICY, state, CacheEvent::Missing);
    let (_, action) = step(&POLICY, state, CacheEvent::IoFailed);
    assert!(is_return_of(&action, Err(Error::IoError)));
}

#[test]
fn a_cache_filled_in_the_meantime_is_not_fetched_again() {
    let (state, _) = start::<String>();
    let (state, _) = step(&POLICY, state, CacheEvent::Missing);
    let (state, action) = step(&POLICY, state, CacheEvent::Created);
    assert!(matches!(action, CacheAction::Read));
    let (state, action) = step(&POLICY, state, CacheEvent::Hit("theirs".to_string()));
    assert!(matches!(action, CacheAction::Discard));
    let (state, action) = step(&POLICY, state, CacheEvent::Discarded);
    assert!(matches!(state, CacheState::Done));
    assert!(is_return_of(&action, Ok("theirs")));
}

#[test]
fn a_failed_write_discards_the_file() {
    let (state, _) = start::<String>();
    let (state, _) = step(&POLICY, state, CacheEvent::Missing);
    let (state, _) = step(&POLICY, state, CacheEvent::Created);
    let (state, _) = step(&POLICY, state, CacheEvent::Missing);
    let (state, _) = step(&POLICY, state, CacheEvent::Fetched("body".to_string()));
    let (state, action) = step(&POLICY, state, CacheEvent::IoFailed);
    assert!(matches!(action, CacheAction::Discard));
    let (_, action) = step(&POLICY, state, CacheEvent::Discarded);
    assert!(is_return_of(&action, Err(Error::IoError)));
}

#[test]
fn two_requests_in_a_row_fetch_once() {
    // a double for the file system and the network, counting the fetches
    let mut file: Option<String> = None;
    let mut fetches = 0;
    let mut results = Vec::new();
    for _ in 0..2 {
        let (mut state, mut action) = start::<String>();
        let outcome = loop {
            let event = match action {
                CacheAction::Read => match &file {
                    Some(body) => CacheEvent::Hit(body.clone()),
                    None => CacheEvent::Missing,
                },
                CacheAction::Create => CacheEvent::Created,
                CacheAction::Fetch => {
                    fetches += 1;
                    CacheEvent::Fetched("content".to_string())
                }
                CacheAction::Store => {
                    if let CacheState::Storing { body } = &state {
                        file = Some(body.clone());
                    }
                    CacheEvent::Stored
                }
                CacheAction::Discard => CacheEvent::Discarded,
                CacheAction::Wait(_) => CacheEvent::Waited,
                CacheAction::Return(outcome) => break outcome,
            };
            let next = step(&POLICY, state, event);
            state = next.0;
            action = next.1;
        };
        results.push(outcome);
    }
    assert_eq!(fetches, 1);
    assert_eq!(results[0], Ok("content".to_string()));
    assert_eq!(results[0], results[1]);
}

#[test]
fn callers_that_take_turns_fetch_once() {
    // three callers against one double for the file system and the network
    let mut file: Option<String> = None;
    let mut holder: Option<usize> = None;
    let mut fetches = 0;
    let mut callers: Vec<Option<(CacheState<String>, CacheAction<String>)>> =
        (0..3).map(|_| Some(start::<String>())).collect();
    let mut outcomes: Vec<Option<Result<String, Error>>> = vec![None, None, None];
    let mut turn = 0;
    while outcomes.iter().any(|outcome| outcome.is_none()) {
        let who = turn % 3;
        turn += 1;
        // the first caller is slow: it moves only every other round
        if who == 0 && (turn / 3) % 2 == 0 {
            continue;
        }
        let (state, action) = match callers[who].take() {
            Some(caller) => caller,
            None => continue,
        };
        let event = match action {
            CacheAction::Read => match &file {
                Some(body) => CacheEvent::Hit(body.clone()),
                None => CacheEvent::Missing,
            },
            CacheAction::Create => {
                if holder.is_none() {
                    holder = Some(who);
                    CacheEvent::Created
                } else {
                    CacheEvent::Exists
                }
            }
            CacheAction::Fetch => {
                fetches += 1;
                CacheEvent::Fetched("content".to_string())
            }
            CacheAction::Store => {
                if let CacheState::Storing { body } = &state {
                    file = Some(body.clone());
                }
                holder = None;
                CacheEvent::Stored
            }
            CacheAction::Discard => {
                holder = None;
                CacheEvent::Discarded
            }
            CacheAction::Wait(_) => CacheEvent::Waited,
            CacheAction::Return(outcome) => {
                outcomes[who] = Some(outcome);
                continue;
            }
        };
        callers[who] = Some(step(&POLICY, state, event));
    }
    assert_eq!(fetches, 1);
    for outcome in outcomes {
        assert_eq!(outcome, Some(Ok("content".to_string())));
    }
}
