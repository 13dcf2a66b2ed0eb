//! What a load test is made of: its requests, its users and its settings.
use std::collections::BTreeMap;
use std::collections::HashMap;

use vstd::prelude::*;

use crate::configuration::GooseConfiguration;
use crate::requests::RequestTable;
use crate::stats::counts;

verus! {

/// The statistics of one kind of request.
#[derive(Debug)]
pub struct GooseRequest {
    /// How many responses took how many milliseconds.
    pub response_times: BTreeMap<usize, usize>,
    /// The fastest response time, 0 as long as there was none.
    pub min_response_time: usize,
    /// The slowest response time.
    pub max_response_time: usize,
    /// The sum of all response times.
    pub total_response_time: usize,
    /// How many response times were counted.
    pub response_time_counter: usize,
    /// How many responses came with which status code.
    pub status_code_counts: HashMap<u16, usize>,
    /// How many requests succeeded.
    pub success_count: usize,
    /// How many requests failed.
    pub fail_count: usize,
    /// Identifies the load test that the request belongs to.
    pub load_test_hash: u64,
}

/// What a `GooseRequest` stands for.
#[verifier::ext_equal]
pub struct RequestView {
    pub response_times: Map<usize, nat>,
    pub min_response_time: nat,
    pub max_response_time: nat,
    pub total_response_time: nat,
    pub response_time_counter: nat,
    pub status_code_counts: Map<u16, nat>,
    pub success_count: nat,
    pub fail_count: nat,
    pub load_test_hash: u64,
}

impl View for GooseRequest {
    type V = RequestView;

    open spec fn view(&self) -> RequestView {
        RequestView {
            response_times: counts(self.response_times@),
            min_response_time: self.min_response_time as nat,
            max_response_time: self.max_response_time as nat,
            total_response_time: self.total_response_time as nat,
            response_time_counter: self.response_time_counter as nat,
            status_code_counts: counts(self.status_code_counts@),
            success_count: self.success_count as nat,
            fail_count: self.fail_count as nat,
            load_test_hash: self.load_test_hash,
        }
    }
}

impl Clone for GooseRequest {
    fn clone(&self) -> (copy: Self)
        ensures
            copy@ == self@,
    {
        GooseRequest {
            response_times: self.response_times.clone(),
            min_response_time: self.min_response_time,
            max_response_time: self.max_response_time,
            total_response_time: self.total_response_time,
            response_time_counter: self.response_time_counter,
            status_code_counts: self.status_code_counts.clone(),
            success_count: self.success_count,
            fail_count: self.fail_count,
            load_test_hash: self.load_test_hash,
        }
    }
}

impl Default for GooseRequest {
    fn default() -> (request: Self)
        ensures
            request@ == (RequestView {
                response_times: Map::empty(),
                min_response_time: 0,
                max_response_time: 0,
                total_response_time: 0,
                response_time_counter: 0,
                status_code_counts: Map::empty(),
                success_count: 0,
                fail_count: 0,
                load_test_hash: 0,
            }),
    {
        let request = GooseRequest {
            response_times: BTreeMap::new(),
            min_response_time: 0,
            max_response_time: 0,
            total_response_time: 0,
            response_time_counter: 0,
            status_code_counts: HashMap::new(),
            success_count: 0,
            fail_count: 0,
            load_test_hash: 0,
        };
        assert(counts(request.response_times@) =~= Map::<usize, nat>::empty());
        assert(counts(request.status_code_counts@) =~= Map::<u16, nat>::empty());
        request
    }
}

/// A user to be simulated by a worker.
#[derive(Debug)]
pub struct GooseUser {
    /// Which task set the user runs.
    pub task_sets_index: usize,
    /// The base URL of the user's requests.
    pub base_url: String,
    /// Minimum amount of time to sleep after running a task.
    pub min_wait: usize,
    /// Maximum amount of time to sleep after running a task.
    pub max_wait: usize,
    /// The user's copy of the configuration.
    pub config: GooseConfiguration,
}

impl Clone for GooseUser {
    fn clone(&self) -> (copy: Self)
        ensures
            copy == *self,
    {
        GooseUser {
            task_sets_index: self.task_sets_index,
            base_url: self.base_url.clone(),
            min_wait: self.min_wait,
            max_wait: self.max_wait,
            config: self.config.clone(),
        }
    }
}

/// What the manager tells a worker.
#[derive(Debug, Clone, Copy, PartialEq, Eq, Structural)]
pub enum GooseUserCommand {
    /// The load test has not started yet.
    WAIT,
    /// The load test is running.
    RUN,
    /// The load test is over.
    EXIT,
}

/// A load test.
#[derive(Debug)]
pub struct GooseAttack {
    /// The options of the load test.
    pub configuration: GooseConfiguration,
    /// How many users to simulate.
    pub users: usize,
    /// The users to simulate.
    pub weighted_users: Vec<GooseUser>,
    /// How many seconds the load test runs, 0 for as long as it is not canceled.
    pub run_time: usize,
    /// Identifies the load test.
    pub task_sets_hash: u64,
    /// The statistics of all workers, by request.
    pub merged_requests: RequestTable,
}

impl GooseAttack {
    /// A load test with the given options and nothing else set.
    pub fn initialize_with_config(configuration: GooseConfiguration) -> (attack: GooseAttack)
        ensures
            attack.configuration == configuration,
            attack.users == 0,
            attack.weighted_users@ == Seq::<GooseUser>::empty(),
            attack.run_time == 0,
            attack.task_sets_hash == 0,
            attack.merged_requests.wf(),
            attack.merged_requests@ == Map::<Seq<char>, RequestView>::empty(),
    {
        GooseAttack {
            configuration,
            users: 0,
            weighted_users: Vec::new(),
            run_time: 0,
            task_sets_hash: 0,
            merged_requests: RequestTable::new(),
        }
    }
}

} // verus!
