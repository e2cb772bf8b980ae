//! Where the platform serves what a task needs.

use vstd::prelude::*;
use vstd::string::StringExecFns;

use crate::openml_api::web_access::RetryPolicy;
use crate::openml_api::Id;

verus! {

/// Where the platform serves the description of the task `id`.
pub open spec fn task_location(id: Seq<char>) -> Seq<char> {
    "https://www.openml.org/api/v1/json/task/"@ + id
}

/// Where the platform serves the description of the data set `id`.
pub open spec fn data_set_location(id: Seq<char>) -> Seq<char> {
    "https://www.openml.org/api/v1/json/data/"@ + id
}

/// The platform, as this library reaches it.
#[derive(Clone, Copy, Debug, PartialEq, Eq, Structural)]
pub struct OpenML {
    /// How long a request keeps trying while another one fills the cache.
    pub policy: RetryPolicy,
}

impl OpenML {
    /// The platform, reached with patience for ten lost creations of a cached
    /// file, waiting 50 milliseconds at first and never more than 5 seconds.
    pub fn new() -> (api: Self)
        ensures
            api.policy == (RetryPolicy { max_attempts: 10, base_delay_ms: 50, max_delay_ms: 5000 }),
    {
        OpenML { policy: RetryPolicy { max_attempts: 10, base_delay_ms: 50, max_delay_ms: 5000 } }
    }

    /// Where the description of the task `id` is served.
    pub fn task_url<T: Id>(&self, id: T) -> (url: String)
        ensures
            url@ == task_location(id.text()),
    {
        let mut url = String::from_str("https://www.openml.org/api/v1/json/task/");
        let text = id.as_string();
        url.append(text.as_str());
        url
    }

    /// Where the description of the data set `id` is served.
    pub fn data_set_url(&self, id: &str) -> (url: String)
        ensures
            url@ == data_set_location(id@),
    {
        let mut url = String::from_str("https://www.openml.org/api/v1/json/data/");
        url.append(id);
        url
    }
}

} // verus!
