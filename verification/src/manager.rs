//! The manager of a distributed load test.
use std::collections::HashSet;

use vstd::prelude::*;
use vstd::string::StringExecFns;

use crate::configuration::GooseConfiguration;
use crate::goose::GooseAttack;
use crate::goose::GooseRequest;
use crate::goose::GooseUser;
use crate::goose::GooseUserCommand;
use crate::goose::RequestView;
use crate::model::AbortReason;
use crate::model::GRACEFUL_SHUTDOWN_TIMEOUT;
use crate::model::IDLE_SLEEP_MILLIS;
use crate::model::ManagerState;
use crate::model::RUNNING_STATS_EVERY;
use crate::model::Reply;
use crate::model::Step;
use crate::model::StopReason;
use crate::model::TransportError;
use crate::model::batch_size;
use crate::model::handed_out;
use crate::model::initializers;
use crate::model::merged_request;
use crate::model::merged_table;
use crate::model::request_fits;
use crate::model::table_fits;
use crate::requests::RequestTable;
use crate::stats;
use crate::util;
use crate::util::seconds_between;

verus! {

/// All elements required to initialize a user in a worker process.
#[derive(Debug)]
pub struct GooseUserInitializer {
    /// Which task set the user runs.
    pub task_sets_index: usize,
    /// The base URL of the user's requests.
    pub base_url: String,
    /// Minimum amount of time to sleep after running a task.
    pub min_wait: usize,
    /// Maximum amount of time to sleep after running a task.
    pub max_wait: usize,
    /// The user's copy of the configuration.
    pub config: GooseConfiguration,
    /// Numerical identifier for worker.
    pub worker_id: usize,
}

impl Clone for GooseUserInitializer {
    fn clone(&self) -> (copy: Self)
        ensures
            copy == *self,
    {
        GooseUserInitializer {
            task_sets_index: self.task_sets_index,
            base_url: self.base_url.clone(),
            min_wait: self.min_wait,
            max_wait: self.max_wait,
            config: self.config.clone(),
            worker_id: self.worker_id,
        }
    }
}

/// How many users each worker gets, and how many workers get one more.
pub fn distribute_users(goose_attack: &GooseAttack) -> (shares: (usize, usize))
    requires
        goose_attack.configuration.expect_workers > 0,
    ensures
        shares.0 == goose_attack.users as int / goose_attack.configuration.expect_workers as int,
        shares.1 == goose_attack.users as int % goose_attack.configuration.expect_workers as int,
        forall|k: nat| #[trigger]
            batch_size(
                goose_attack.users as nat,
                goose_attack.configuration.expect_workers as nat,
                k,
            ) == shares.0 + if k < shares.1 {
                1int
            } else {
                0
            },
{
    let workers = goose_attack.configuration.expect_workers as usize;
    (goose_attack.users / workers, goose_attack.users % workers)
}

/// What happens to the connection of a worker.
#[derive(Debug, Clone, Copy, PartialEq, Eq, Structural)]
pub enum PipeEvent {
    /// The connection is about to be added.
    AddPre,
    /// The connection was added.
    AddPost,
    /// The connection was removed.
    RemovePost,
    /// Anything else.
    Unknown,
}

/// How many workers are connected after `event`, where `active` were before it. The counter wraps
/// around.
pub open spec fn connected(active: usize, event: PipeEvent) -> usize {
    match event {
        PipeEvent::AddPost => if active == usize::MAX {
            0
        } else {
            (active + 1) as usize
        },
        PipeEvent::RemovePost => if active == 0 {
            usize::MAX
        } else {
            (active - 1) as usize
        },
        _ => active,
    }
}

/// Counts the workers that are connected.
pub fn pipe_closed(active_workers: usize, event: PipeEvent) -> (active: usize)
    ensures
        active == connected(active_workers, event),
{
    match event {
        PipeEvent::AddPost => active_workers.wrapping_add(1),
        PipeEvent::RemovePost => active_workers.wrapping_sub(1),
        _ => active_workers,
    }
}

/// Merges what a worker reports of a request into what is known of it.
pub fn merge_from_worker(
    parent_request: &GooseRequest,
    user_request: &GooseRequest,
    config: &GooseConfiguration,
) -> (merged: GooseRequest)
    requires
        request_fits(parent_request@, user_request@, config.status_codes),
    ensures
        merged@ == merged_request(parent_request@, user_request@, config.status_codes),
        merged.success_count == parent_request.success_count + user_request.success_count,
        merged.fail_count == parent_request.fail_count + user_request.fail_count,
        merged.total_response_time == parent_request.total_response_time
            + user_request.total_response_time,
        merged.response_time_counter == parent_request.response_time_counter
            + user_request.response_time_counter,
        merged.load_test_hash == parent_request.load_test_hash,
        merged.response_times@.dom() == parent_request.response_times@.dom().union(
            user_request.response_times@.dom(),
        ),
        merged.status_code_counts@.dom() == if config.status_codes {
            parent_request.status_code_counts@.dom().union(user_request.status_code_counts@.dom())
        } else {
            parent_request.status_code_counts@.dom()
        },
{
    let parent = parent_request.clone();
    // Only accrue the overhead of merging status codes if they are going to be displayed.
    let status_code_counts = if config.status_codes {
        stats::merge_status_code_counts(
            parent.status_code_counts,
            &user_request.status_code_counts,
        )
    } else {
        parent.status_code_counts
    };
    let merged = GooseRequest {
        response_times: stats::merge_response_times(
            parent.response_times,
            user_request.response_times.clone(),
        ),
        min_response_time: stats::update_min_response_time(
            parent.min_response_time,
            user_request.min_response_time,
        ),
        max_response_time: stats::update_max_response_time(
            parent.max_response_time,
            user_request.max_response_time,
        ),
        total_response_time: parent.total_response_time + user_request.total_response_time,
        response_time_counter: parent.response_time_counter + user_request.response_time_counter,
        status_code_counts,
        success_count: parent.success_count + user_request.success_count,
        fail_count: parent.fail_count + user_request.fail_count,
        load_test_hash: parent.load_test_hash,
    };
    proof {
        let wanted = merged_request(parent_request@, user_request@, config.status_codes);
        assert(merged@ == wanted);
        assert(merged.response_times@.dom() =~= wanted.response_times.dom());
        assert(parent_request.response_times@.dom() =~= parent_request@.response_times.dom());
        assert(user_request.response_times@.dom() =~= user_request@.response_times.dom());
        assert(merged.status_code_counts@.dom() =~= wanted.status_code_counts.dom());
        assert(parent_request.status_code_counts@.dom()
            =~= parent_request@.status_code_counts.dom());
        assert(user_request.status_code_counts@.dom() =~= user_request@.status_code_counts.dom());
    }
    merged
}

/// Whether merging what a worker reports of a request keeps every counter within a `usize`.
pub fn merge_fits(
    parent_request: &GooseRequest,
    user_request: &GooseRequest,
    config: &GooseConfiguration,
) -> (fits: bool)
    ensures
        fits == request_fits(parent_request@, user_request@, config.status_codes),
{
    user_request.total_response_time <= usize::MAX - parent_request.total_response_time
        && user_request.response_time_counter <= usize::MAX - parent_request.response_time_counter
        && user_request.success_count <= usize::MAX - parent_request.success_count
        && user_request.fail_count <= usize::MAX - parent_request.fail_count
        && stats::response_times_fit(&parent_request.response_times, &user_request.response_times)
        && (!config.status_codes || stats::status_code_counts_fit(
        &parent_request.status_code_counts,
        &user_request.status_code_counts,
    ))
}

/// The requests of `requests` whose names are among the first `n` of `names`.
spec fn first_requests(
    requests: Map<Seq<char>, RequestView>,
    names: Seq<Seq<char>>,
    n: int,
) -> Map<Seq<char>, RequestView> {
    requests.restrict(names.take(n).to_set())
}

/// Merges what a worker reports into what is known of all requests.
pub fn merge_requests(
    merged_requests: &mut RequestTable,
    requests: &RequestTable,
    config: &GooseConfiguration,
)
    requires
        old(merged_requests).wf(),
        requests.wf(),
        table_fits(old(merged_requests)@, requests@, config.status_codes),
    ensures
        final(merged_requests).wf(),
        final(merged_requests)@ == merged_table(
            old(merged_requests)@,
            requests@,
            config.status_codes,
        ),
{
    let ghost before = merged_requests@;
    let ghost names = requests.names();
    proof {
        requests.lemma_names();
        assert(before =~= merged_table(
            before,
            first_requests(requests@, names, 0),
            config.status_codes,
        ));
    }
    let mut i: usize = 0;
    while i < requests.len()
        invariant
            i <= names.len(),
            names == requests.names(),
            names.no_duplicates(),
            requests.wf(),
            merged_requests.wf(),
            table_fits(before, requests@, config.status_codes),
            merged_requests@ == merged_table(
                before,
                first_requests(requests@, names, i as int),
                config.status_codes,
            ),
        decreases names.len() - i,
    {
        let (name, request) = requests.at(i);
        let ghost seen = first_requests(requests@, names, i as int);
        let ghost next = first_requests(requests@, names, i + 1);
        proof {
            lemma_name_is_new(names, i as int);
            assert(!seen.contains_key(name@));
            assert(next =~= seen.insert(name@, request@));
        }
        let merged_request = match merged_requests.get(name) {
            Some(parent_request) => merge_from_worker(parent_request, request, config),
            // First time seeing this request, simply insert it.
            None => request.clone(),
        };
        merged_requests.insert(name.clone(), merged_request);
        assert(merged_requests@ =~= merged_table(before, next, config.status_codes));
        i += 1;
    }
    proof {
        requests.lemma_names();
        assert(names.take(names.len() as int) =~= names);
        assert(first_requests(requests@, names, names.len() as int) =~= requests@);
    }
}

/// Whether merging what a worker reports keeps every counter within a `usize`.
pub fn requests_fit(
    merged_requests: &RequestTable,
    requests: &RequestTable,
    config: &GooseConfiguration,
) -> (fit: bool)
    requires
        merged_requests.wf(),
        requests.wf(),
    ensures
        fit == table_fits(merged_requests@, requests@, config.status_codes),
{
    let ghost names = requests.names();
    let mut i: usize = 0;
    while i < requests.len()
        invariant
            i <= names.len(),
            names == requests.names(),
            requests.wf(),
            merged_requests.wf(),
            forall|j: int|
                0 <= j < i && merged_requests@.contains_key(#[trigger] names[j]) ==> request_fits(
                    merged_requests@[names[j]],
                    requests@[names[j]],
                    config.status_codes,
                ),
        decreases names.len() - i,
    {
        let (name, request) = requests.at(i);
        if let Some(parent_request) = merged_requests.get(name) {
            if !merge_fits(parent_request, request, config) {
                return false;
            }
        }
        i += 1;
    }
    proof {
        requests.lemma_names();
        assert forall|name: Seq<char>|
            merged_requests@.contains_key(name) && #[trigger] requests@.contains_key(
                name,
            ) implies request_fits(
            merged_requests@[name],
            requests@[name],
            config.status_codes,
        ) by {
            let j = choose|j: int| 0 <= j < names.len() && names[j] == name;
            assert(names[j] == name);
        }
    }
    true
}

/// A name in a sequence without duplicates is not among those before it.
proof fn lemma_name_is_new(names: Seq<Seq<char>>, i: int)
    requires
        names.no_duplicates(),
        0 <= i < names.len(),
    ensures
        !names.take(i).to_set().contains(names[i]),
        names.take(i + 1).to_set() == names.take(i).to_set().insert(names[i]),
{
    let longer = names.take(i + 1);
    assert forall|name: Seq<char>| #[trigger]
        longer.to_set().contains(name) == names.take(i).to_set().insert(
            names[i],
        ).contains(name) by {
        if longer.contains(name) {
            let j = choose|j: int| 0 <= j < longer.len() && longer[j] == name;
            if j < i {
                assert(names.take(i)[j] == name);
            }
        }
        if names.take(i).contains(name) {
            let j = choose|j: int| 0 <= j < i && names.take(i)[j] == name;
            assert(longer[j] == name);
        }
        assert(longer[i] == names[i]);
    }
    assert(longer.to_set() =~= names.take(i).to_set().insert(names[i]));
}

/// Takes the last `batch` users off `available_users` for the worker with the given number.
pub fn take_users(
    available_users: &mut Vec<GooseUser>,
    batch: usize,
    worker_id: usize,
) -> (users: Vec<GooseUserInitializer>)
    requires
        batch <= old(available_users)@.len(),
    ensures
        final(available_users)@ == old(available_users)@.take(
            old(available_users)@.len() - batch,
        ),
        users@ == initializers(old(available_users)@, batch as nat, worker_id),
{
    let ghost available = available_users@;
    let mut users: Vec<GooseUserInitializer> = Vec::new();
    let mut taken: usize = 0;
    while taken < batch
        invariant
            taken <= batch <= available.len(),
            available_users@ == available.take(available.len() - taken),
            users@ == initializers(available, taken as nat, worker_id),
        decreases batch - taken,
    {
        if let Some(user) = available_users.pop() {
            users.push(
                GooseUserInitializer {
                    task_sets_index: user.task_sets_index,
                    base_url: user.base_url,
                    min_wait: user.min_wait,
                    max_wait: user.max_wait,
                    config: user.config,
                    worker_id,
                },
            );
        }
        taken += 1;
        assert(available_users@ =~= available.take(available.len() - taken));
        assert(users@ =~= initializers(available, taken as nat, worker_id));
    }
    users
}

/// The manager of a distributed load test: it hands the users out to the workers, has them run the
/// load test, and gathers what they report.
#[derive(Debug)]
pub struct Manager {
    goose_attack: GooseAttack,
    /// How many users each worker gets.
    users_per_worker: usize,
    /// How many more workers get one more.
    users_remainder: usize,
    /// The users that no worker simulates yet.
    available_users: Vec<GooseUser>,
    /// The workers that have joined.
    workers: HashSet<u64>,
    started: u64,
    running_statistics_timer: u64,
    exit_timer: u64,
    load_test_running: bool,
    load_test_finished: bool,
}

impl View for Manager {
    type V = ManagerState;

    closed spec fn view(&self) -> ManagerState {
        ManagerState {
            config: self.goose_attack.configuration,
            users: self.goose_attack.users as nat,
            run_time: self.goose_attack.run_time as nat,
            task_sets_hash: self.goose_attack.task_sets_hash,
            weighted_users: self.goose_attack.weighted_users@,
            available_users: self.available_users@,
            workers: self.workers@,
            running: self.load_test_running,
            finished: self.load_test_finished,
            started: self.started as nat,
            statistics_timer: self.running_statistics_timer as nat,
            exit_timer: self.exit_timer as nat,
            merged_requests: self.goose_attack.merged_requests@,
        }
    }
}

impl Manager {
    /// What holds of every manager.
    pub closed spec fn wf(&self) -> bool {
        let users = self@.users as int;
        let expected = self@.expected() as int;
        let joined = self@.workers.len() as int;
        &&& self@.valid()
        &&& self.goose_attack.merged_requests.wf()
        &&& self.users_per_worker == users / expected
        &&& self.users_remainder == if joined < users % expected {
            users % expected - joined
        } else {
            0
        }
    }

    /// A manager is always in a valid state.
    pub proof fn law_state_is_valid(&self)
        requires
            self.wf(),
        ensures
            self@.valid(),
    {
    }

    /// A manager that no worker has joined yet.
    pub fn new(goose_attack: GooseAttack, now: u64) -> (manager: Manager)
        requires
            goose_attack.configuration.expect_workers > 0,
            goose_attack.merged_requests.wf(),
        ensures
            manager.wf(),
            manager@ == (ManagerState {
                config: goose_attack.configuration,
                users: goose_attack.users as nat,
                run_time: goose_attack.run_time as nat,
                task_sets_hash: goose_attack.task_sets_hash,
                weighted_users: goose_attack.weighted_users@,
                available_users: goose_attack.weighted_users@,
                workers: Set::empty(),
                running: false,
                finished: false,
                started: now as nat,
                statistics_timer: now as nat,
                exit_timer: now as nat,
                merged_requests: goose_attack.merged_requests@,
            }),
    {
        // Calculate how many users each worker will be responsible for.
        let (users_per_worker, users_remainder) = distribute_users(&goose_attack);
        // A bucket of users to be assigned to workers.
        let available_users = goose_attack.weighted_users.clone();
        assert(available_users@ =~= goose_attack.weighted_users@);
        assert(available_users@.take(available_users@.len() as int) =~= available_users@);
        Manager {
            goose_attack,
            users_per_worker,
            users_remainder,
            available_users,
            workers: HashSet::new(),
            started: now,
            running_statistics_timer: now,
            exit_timer: now,
            load_test_running: false,
            load_test_finished: false,
        }
    }

    /// The load test, with what the workers have reported so far.
    pub fn goose_attack(&self) -> (goose_attack: &GooseAttack)
        requires
            self.wf(),
        ensures
            goose_attack.configuration == self@.config,
            goose_attack.users == self@.users,
            goose_attack.weighted_users@ == self@.weighted_users,
            goose_attack.run_time == self@.run_time,
            goose_attack.task_sets_hash == self@.task_sets_hash,
            goose_attack.merged_requests.wf(),
            goose_attack.merged_requests@ == self@.merged_requests,
    {
        &self.goose_attack
    }

    /// The load test, with what the workers have reported.
    pub fn into_goose_attack(self) -> (goose_attack: GooseAttack)
        requires
            self.wf(),
        ensures
            goose_attack.configuration == self@.config,
            goose_attack.users == self@.users,
            goose_attack.weighted_users@ == self@.weighted_users,
            goose_attack.run_time == self@.run_time,
            goose_attack.task_sets_hash == self@.task_sets_hash,
            goose_attack.merged_requests.wf(),
            goose_attack.merged_requests@ == self@.merged_requests,
    {
        self.goose_attack
    }

    /// How many workers have joined.
    pub fn worker_count(&self) -> (count: usize)
        requires
            self.wf(),
        ensures
            count == self@.workers.len(),
    {
        self.workers.len()
    }

    /// Whether the load test has started.
    pub fn is_running(&self) -> (running: bool)
        ensures
            running == self@.running,
    {
        self.load_test_running
    }

    /// Whether the load test has ended.
    pub fn is_finished(&self) -> (finished: bool)
        ensures
            finished == self@.finished,
    {
        self.load_test_finished
    }

    /// How many whole seconds the load test has run.
    pub fn elapsed_seconds(&self, now: u64) -> (seconds: u64)
        ensures
            seconds == seconds_between(self@.started, now as nat),
    {
        util::elapsed_seconds(self.started, now)
    }

    /// Looks at the workers that are connected, at the timers, and at whether the load test was
    /// canceled.
    pub fn supervise(&mut self, active_workers: usize, canceled: bool, now: u64) -> (step: Step<
        Option<u64>,
    >)
        requires
            old(self).wf(),
        ensures
            final(self).wf(),
            step.number() == old(self)@.supervision(active_workers as nat, canceled, now as nat),
            final(self)@ == old(self)@.supervised(active_workers as nat, canceled, now as nat),
    {
        // While running the load test, check if any workers go away.
        if !self.load_test_finished && active_workers < self.workers.len() {
            if self.load_test_running {
                // If a worker goes away during the load test, exit gracefully.
                self.load_test_finished = true;
                self.exit_timer = now;
            } else {
                // If a worker goes away during start up, exit immediately.
                return Step::Stop(StopReason::WorkerLost);
            }
        }
        if self.load_test_running {
            if !self.load_test_finished {
                // The test ran to completion or was canceled.
                if util::timer_expired(self.started, self.goose_attack.run_time, now) || canceled {
                    self.load_test_finished = true;
                    self.exit_timer = now;
                }
            }
            // Aborting graceful shutdown, workers took too long to shut down.
            if self.load_test_finished && util::timer_expired(
                self.exit_timer,
                GRACEFUL_SHUTDOWN_TIMEOUT,
                now,
            ) {
                return Step::Stop(StopReason::ShutdownTimeout);
            }
            if !self.goose_attack.configuration.only_summary && util::timer_expired(
                self.running_statistics_timer,
                RUNNING_STATS_EVERY,
                now,
            ) {
                // Reset the timer each time statistics are displayed.
                self.running_statistics_timer = now;
                return Step::Go(Some(util::elapsed_seconds(self.started, now)));
            }
        } else if canceled {
            return Step::Abort(AbortReason::Canceled);
        }
        Step::Go(None)
    }

    /// Whether a message can be answered without a counter that leaves the range of a `usize`.
    pub fn message_fits(&self, worker: u64, requests: &RequestTable) -> (fits: bool)
        requires
            self.wf(),
            requests.wf(),
        ensures
            fits == self@.fits(worker, requests@),
    {
        let expected = self.goose_attack.configuration.expect_workers as usize;
        !self.workers.contains(&worker) || self.workers.len() != expected || requests_fit(
            &self.goose_attack.merged_requests,
            requests,
            &self.goose_attack.configuration,
        )
    }

    /// Whether a worker that reports `requests` runs this load test.
    pub fn runs_same_load_test(&self, requests: &RequestTable) -> (same: bool)
        requires
            self.wf(),
            requests.wf(),
        ensures
            same == self@.same_load_test(requests@),
    {
        match requests.get(&String::from_str("load_test_hash")) {
            Some(request) => request.load_test_hash == self.goose_attack.task_sets_hash,
            None => false,
        }
    }

    /// Answers a message from a worker.
    pub fn answer(&mut self, worker: u64, requests: &RequestTable) -> (step: Step<Reply>)
        requires
            old(self).wf(),
            requests.wf(),
            old(self)@.fits(worker, requests@),
        ensures
            final(self).wf(),
            step.reply() == old(self)@.answer(worker, requests@),
            final(self)@ == old(self)@.answered(worker, requests@),
    {
        let expected = self.goose_attack.configuration.expect_workers as usize;
        // A worker that has been seen before.
        if self.workers.contains(&worker) {
            if self.workers.len() == expected {
                // All workers are running the load test, and sending statistics.
                merge_requests(
                    &mut self.goose_attack.merged_requests,
                    requests,
                    &self.goose_attack.configuration,
                );
                if self.load_test_finished {
                    Step::Go(Reply::Command(GooseUserCommand::EXIT))
                } else {
                    Step::Go(Reply::Command(GooseUserCommand::RUN))
                }
            } else {
                // Not all workers are running yet.
                Step::Go(Reply::Command(GooseUserCommand::WAIT))
            }
        } else if self.workers.len() >= expected {
            // There are enough workers, tell this extra one to exit.
            Step::Go(Reply::Command(GooseUserCommand::EXIT))
        } else {
            self.join(worker, requests)
        }
    }

    /// Lets another worker join.
    fn join(&mut self, worker: u64, requests: &RequestTable) -> (step: Step<Reply>)
        requires
            old(self).wf(),
            requests.wf(),
            !old(self)@.workers.contains(worker),
            old(self)@.workers.len() < old(self)@.expected(),
        ensures
            final(self).wf(),
            step.reply() == old(self)@.answer(worker, requests@),
            final(self)@ == old(self)@.answered(worker, requests@),
    {
        let ghost before = self@;
        // Validate the load test hash of the worker.
        if !self.runs_same_load_test(requests) && !self.goose_attack.configuration.no_hash_check {
            return Step::Abort(AbortReason::DifferentLoadTest);
        }
        // If there is a remainder, put an extra user in this batch.
        let extra: usize = if self.users_remainder > 0 {
            1
        } else {
            0
        };
        proof {
            lemma_extra_user_fits(before.users as int, before.expected() as int);
        }
        let user_batch: usize = self.users_per_worker + extra;
        assert(user_batch == before.next_batch());
        if self.available_users.len() < user_batch {
            return Step::Abort(AbortReason::NotEnoughUsers);
        }
        self.users_remainder = self.users_remainder - extra;
        self.workers.insert(worker);
        let worker_id: usize = self.workers.len();
        let users = take_users(&mut self.available_users, user_batch, worker_id);
        proof {
            let joined = before.workers.len();
            let handed = handed_out(before.users, before.expected(), joined);
            assert(handed_out(before.users, before.expected(), joined + 1) == handed + user_batch);
            assert(self@.available_users =~= before.weighted_users.take(
                before.weighted_users.len() - handed - user_batch,
            ));
        }
        Step::Go(Reply::Users(users))
    }

    /// Takes note of whether a reply could be sent.
    pub fn deliver(
        &mut self,
        reply: &Reply,
        sent: Result<(), TransportError>,
        active_workers: usize,
        now: u64,
    ) -> (step: Step<()>)
        requires
            old(self).wf(),
        ensures
            final(self).wf(),
            step == old(self)@.delivery(sent, active_workers as nat),
            final(self)@ == old(self)@.delivered(reply@, sent, active_workers as nat, now as nat),
    {
        match sent {
            Ok(_) => (),
            Err(TransportError::TryAgain) => {
                // A worker went away, this happens during shutdown.
                if active_workers == 0 {
                    return Step::Stop(StopReason::AllWorkersExited);
                }
            },
            Err(TransportError::Other) => {
                return Step::Abort(AbortReason::SendFailed);
            },
        }
        if let Reply::Users(_) = reply {
            if self.workers.len() == self.goose_attack.configuration.expect_workers as usize {
                // Reset the start time, the distributed load test is truly starting now.
                self.started = now;
                self.running_statistics_timer = now;
                self.load_test_running = true;
            }
        }
        Step::Go(())
    }

    /// Takes note of why no message could be received.
    pub fn receive_failed(&self, error: TransportError, active_workers: usize) -> (step: Step<
        Option<u64>,
    >)
        requires
            self.wf(),
        ensures
            step.number() == self@.silence(error, active_workers as nat),
    {
        match error {
            TransportError::TryAgain => {
                if self.workers.len() > 0 && active_workers == 0 {
                    Step::Stop(StopReason::AllWorkersExited)
                } else if self.load_test_finished {
                    Step::Go(None)
                } else {
                    // Sleep, then return to the loop.
                    Step::Go(Some(IDLE_SLEEP_MILLIS))
                }
            },
            TransportError::Other => Step::Abort(AbortReason::ReceiveFailed),
        }
    }
}

/// Where users remain after each worker got its share, a share is not all of them.
proof fn lemma_extra_user_fits(users: int, workers: int)
    by (nonlinear_arith)
    requires
        users >= 0,
        workers > 0,
    ensures
        0 <= users / workers <= users,
        users % workers > 0 ==> users / workers < users,
{
}

} // verus!
