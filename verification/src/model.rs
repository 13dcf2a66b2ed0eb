//! What the manager of a distributed load test knows, and what it makes of what happens.
use vstd::prelude::*;

use crate::configuration::GooseConfiguration;
use crate::goose::GooseUser;
use crate::goose::GooseUserCommand;
use crate::goose::RequestView;
use crate::manager::GooseUserInitializer;
use crate::stats::counts_fit;
use crate::stats::fastest;
use crate::stats::merge_counts;
use crate::stats::slowest;
use crate::util::expired;
use crate::util::seconds_between;

verus! {

/// How many seconds the manager waits for all workers to stop after the load test ends.
pub const GRACEFUL_SHUTDOWN_TIMEOUT: usize = 30;

/// How many seconds lie between two displays of running statistics.
pub const RUNNING_STATS_EVERY: usize = 15;

/// How many milliseconds the manager sleeps when no worker has sent anything.
pub const IDLE_SLEEP_MILLIS: u64 = 500;

/// Why the manager is done.
#[derive(Debug, Clone, Copy, PartialEq, Eq, Structural)]
pub enum StopReason {
    /// A worker went away before the load test started.
    WorkerLost,
    /// The workers took too long to shut down.
    ShutdownTimeout,
    /// No worker is left.
    AllWorkersExited,
}

/// Why the manager cannot go on.
#[derive(Debug, Clone, Copy, PartialEq, Eq, Structural)]
pub enum AbortReason {
    /// The load test was canceled before it started.
    Canceled,
    /// A worker runs a different load test.
    DifferentLoadTest,
    /// There are fewer users than the workers are to simulate.
    NotEnoughUsers,
    /// Receiving a message failed.
    ReceiveFailed,
    /// Sending a message failed.
    SendFailed,
}

/// How the manager goes on.
#[derive(Debug)]
pub enum Step<T> {
    /// The manager goes on with this.
    Go(T),
    /// The manager returns.
    Stop(StopReason),
    /// The process exits with an error.
    Abort(AbortReason),
}

/// Why a message could not be received or sent.
#[derive(Debug, Clone, Copy, PartialEq, Eq, Structural)]
pub enum TransportError {
    /// There is nothing to receive, or nobody to send to, right now.
    TryAgain,
    /// Anything else.
    Other,
}

/// What the manager answers a worker.
#[derive(Debug)]
pub enum Reply {
    /// What the worker is to do.
    Command(GooseUserCommand),
    /// The users that a worker which has just joined is to simulate.
    Users(Vec<GooseUserInitializer>),
}

/// What a `Reply` stands for.
pub enum ReplyView {
    Command(GooseUserCommand),
    Users(Seq<GooseUserInitializer>),
}

impl View for Reply {
    type V = ReplyView;

    open spec fn view(&self) -> ReplyView {
        match self {
            Reply::Command(command) => ReplyView::Command(*command),
            Reply::Users(users) => ReplyView::Users(users@),
        }
    }
}

impl Step<Reply> {
    /// The step, with what the reply stands for.
    pub open spec fn reply(self) -> Step<ReplyView> {
        match self {
            Step::Go(reply) => Step::Go(reply@),
            Step::Stop(reason) => Step::Stop(reason),
            Step::Abort(reason) => Step::Abort(reason),
        }
    }
}

impl Step<Option<u64>> {
    /// The step, with a natural number.
    pub open spec fn number(self) -> Step<Option<nat>> {
        match self {
            Step::Go(Some(n)) => Step::Go(Some(n as nat)),
            Step::Go(None) => Step::Go(None),
            Step::Stop(reason) => Step::Stop(reason),
            Step::Abort(reason) => Step::Abort(reason),
        }
    }
}

/// How many of `users` users the worker gets that joins after `k` others, where `workers` workers
/// share them.
pub open spec fn batch_size(users: nat, workers: nat, k: nat) -> nat {
    if k < users % workers {
        users / workers + 1
    } else {
        users / workers
    }
}

/// How many of `users` users the first `k` of `workers` workers get together.
pub open spec fn handed_out(users: nat, workers: nat, k: nat) -> nat
    decreases k,
{
    if k == 0 {
        0
    } else {
        handed_out(users, workers, (k - 1) as nat) + batch_size(users, workers, (k - 1) as nat)
    }
}

/// What the worker with the given number needs to simulate `user`.
pub open spec fn initializer(user: GooseUser, worker_id: usize) -> GooseUserInitializer {
    GooseUserInitializer {
        task_sets_index: user.task_sets_index,
        base_url: user.base_url,
        min_wait: user.min_wait,
        max_wait: user.max_wait,
        config: user.config,
        worker_id,
    }
}

/// What the worker with the given number needs to simulate the last `batch` users of `available`,
/// the last one first.
pub open spec fn initializers(available: Seq<GooseUser>, batch: nat, worker_id: usize) -> Seq<
    GooseUserInitializer,
> {
    Seq::new(batch, |i: int| initializer(available[available.len() - 1 - i], worker_id))
}

/// What is known of a request after a worker reported `user` on top of `parent`.
pub open spec fn merged_request(
    parent: RequestView,
    user: RequestView,
    status_codes: bool,
) -> RequestView {
    RequestView {
        response_times: merge_counts(parent.response_times, user.response_times),
        min_response_time: fastest(parent.min_response_time, user.min_response_time),
        max_response_time: slowest(parent.max_response_time, user.max_response_time),
        total_response_time: parent.total_response_time + user.total_response_time,
        response_time_counter: parent.response_time_counter + user.response_time_counter,
        status_code_counts: if status_codes {
            merge_counts(parent.status_code_counts, user.status_code_counts)
        } else {
            parent.status_code_counts
        },
        success_count: parent.success_count + user.success_count,
        fail_count: parent.fail_count + user.fail_count,
        load_test_hash: parent.load_test_hash,
    }
}

/// Whether every counter of `merged_request(parent, user, status_codes)` fits in a `usize`.
pub open spec fn request_fits(
    parent: RequestView,
    user: RequestView,
    status_codes: bool,
) -> bool {
    &&& counts_fit(parent.response_times, user.response_times)
    &&& parent.total_response_time + user.total_response_time <= usize::MAX
    &&& parent.response_time_counter + user.response_time_counter <= usize::MAX
    &&& status_codes ==> counts_fit(parent.status_code_counts, user.status_code_counts)
    &&& parent.success_count + user.success_count <= usize::MAX
    &&& parent.fail_count + user.fail_count <= usize::MAX
}

/// What is known of all requests after a worker reported `requests` on top of `merged`.
pub open spec fn merged_table(
    merged: Map<Seq<char>, RequestView>,
    requests: Map<Seq<char>, RequestView>,
    status_codes: bool,
) -> Map<Seq<char>, RequestView> {
    Map::new(
        |name: Seq<char>| merged.contains_key(name) || requests.contains_key(name),
        |name: Seq<char>|
            if merged.contains_key(name) && requests.contains_key(name) {
                merged_request(merged[name], requests[name], status_codes)
            } else if merged.contains_key(name) {
                merged[name]
            } else {
                requests[name]
            },
    )
}

/// Whether every counter of `merged_table(merged, requests, status_codes)` fits in a `usize`.
pub open spec fn table_fits(
    merged: Map<Seq<char>, RequestView>,
    requests: Map<Seq<char>, RequestView>,
    status_codes: bool,
) -> bool {
    forall|name: Seq<char>|
        merged.contains_key(name) && #[trigger] requests.contains_key(name) ==> request_fits(
            merged[name],
            requests[name],
            status_codes,
        )
}

/// What the manager knows.
#[verifier::ext_equal]
pub struct ManagerState {
    /// The options of the load test.
    pub config: GooseConfiguration,
    /// How many users are to be simulated.
    pub users: nat,
    /// How many seconds the load test runs, 0 for as long as it is not canceled.
    pub run_time: nat,
    /// Identifies the load test.
    pub task_sets_hash: u64,
    /// The users to simulate.
    pub weighted_users: Seq<GooseUser>,
    /// The users that no worker simulates yet.
    pub available_users: Seq<GooseUser>,
    /// The workers that have joined.
    pub workers: Set<u64>,
    /// Whether the load test has started.
    pub running: bool,
    /// Whether the load test has ended.
    pub finished: bool,
    /// When the load test started.
    pub started: nat,
    /// When running statistics were displayed last.
    pub statistics_timer: nat,
    /// When the load test ended.
    pub exit_timer: nat,
    /// What the workers have reported.
    pub merged_requests: Map<Seq<char>, RequestView>,
}

impl ManagerState {
    /// How many workers are to join.
    pub open spec fn expected(self) -> nat {
        self.config.expect_workers as nat
    }

    /// Whether all workers have joined.
    pub open spec fn complete(self) -> bool {
        self.workers.len() == self.expected()
    }

    /// How many users the next worker gets.
    pub open spec fn next_batch(self) -> nat {
        batch_size(self.users, self.expected(), self.workers.len())
    }

    /// What holds in every state of the manager: no more workers than expected have joined, the
    /// load test runs only with all of them, and those who have joined share what is missing from
    /// the available users.
    pub open spec fn valid(self) -> bool {
        let handed = handed_out(self.users, self.expected(), self.workers.len());
        &&& self.expected() > 0
        &&& self.workers.finite()
        &&& self.workers.len() <= self.expected()
        &&& self.running ==> self.complete()
        &&& self.finished ==> self.running
        &&& handed <= self.weighted_users.len()
        &&& self.available_users == self.weighted_users.take(self.weighted_users.len() - handed)
    }

    /// Before any worker has joined.
    pub open spec fn initial(self) -> bool {
        &&& self.expected() > 0
        &&& self.workers == Set::<u64>::empty()
        &&& !self.running
        &&& !self.finished
        &&& self.available_users == self.weighted_users
    }

    /// Whether one of the workers that had joined is gone before the load test ended.
    pub open spec fn worker_lost(self, active_workers: nat) -> bool {
        !self.finished && active_workers < self.workers.len()
    }

    /// Whether the load test ends: a worker went away, its time is over, or it was canceled.
    pub open spec fn ends(self, active_workers: nat, canceled: bool, now: nat) -> bool {
        self.running && !self.finished && (self.worker_lost(active_workers) || expired(
            self.started,
            self.run_time,
            now,
        ) || canceled)
    }

    /// The state in which the end of the load test, if it has come, is noted.
    pub open spec fn noted(self, active_workers: nat, canceled: bool, now: nat) -> ManagerState {
        if self.ends(active_workers, canceled, now) {
            ManagerState { finished: true, exit_timer: now, ..self }
        } else {
            self
        }
    }

    /// How the manager goes on after a look at its workers, its timers and whether it was canceled:
    /// where it displays statistics, with the seconds for which the load test has run.
    pub open spec fn supervision(self, active_workers: nat, canceled: bool, now: nat) -> Step<
        Option<nat>,
    > {
        let noted = self.noted(active_workers, canceled, now);
        if !self.running {
            if self.worker_lost(active_workers) {
                Step::Stop(StopReason::WorkerLost)
            } else if canceled {
                Step::Abort(AbortReason::Canceled)
            } else {
                Step::Go(None)
            }
        } else if noted.finished && expired(
            noted.exit_timer,
            GRACEFUL_SHUTDOWN_TIMEOUT as nat,
            now,
        ) {
            Step::Stop(StopReason::ShutdownTimeout)
        } else if !self.config.only_summary && expired(
            self.statistics_timer,
            RUNNING_STATS_EVERY as nat,
            now,
        ) {
            Step::Go(Some(seconds_between(self.started, now)))
        } else {
            Step::Go(None)
        }
    }

    /// The state after that look.
    pub open spec fn supervised(
        self,
        active_workers: nat,
        canceled: bool,
        now: nat,
    ) -> ManagerState {
        let noted = self.noted(active_workers, canceled, now);
        match self.supervision(active_workers, canceled, now) {
            Step::Go(Some(_)) => ManagerState { statistics_timer: now, ..noted },
            _ => noted,
        }
    }

    /// Whether what `worker` reports is merged.
    pub open spec fn merges(self, worker: u64) -> bool {
        self.workers.contains(worker) && self.complete()
    }

    /// Whether merging what `worker` reports keeps every counter within a `usize`.
    pub open spec fn fits(self, worker: u64, requests: Map<Seq<char>, RequestView>) -> bool {
        self.merges(worker) ==> table_fits(
            self.merged_requests,
            requests,
            self.config.status_codes,
        )
    }

    /// Whether a worker that reports `requests` runs this load test.
    pub open spec fn same_load_test(self, requests: Map<Seq<char>, RequestView>) -> bool {
        requests.contains_key("load_test_hash"@) && requests["load_test_hash"@].load_test_hash
            == self.task_sets_hash
    }

    /// How the manager answers a message: whoever has joined waits until all have, then runs until
    /// the load test ends; whoever comes once all have joined is sent away; and whoever is needed
    /// gets the next batch of users, if it runs the same load test and there are users enough.
    pub open spec fn answer(self, worker: u64, requests: Map<Seq<char>, RequestView>) -> Step<
        ReplyView,
    > {
        if self.workers.contains(worker) {
            if !self.complete() {
                Step::Go(ReplyView::Command(GooseUserCommand::WAIT))
            } else if self.finished {
                Step::Go(ReplyView::Command(GooseUserCommand::EXIT))
            } else {
                Step::Go(ReplyView::Command(GooseUserCommand::RUN))
            }
        } else if self.workers.len() >= self.expected() {
            Step::Go(ReplyView::Command(GooseUserCommand::EXIT))
        } else if !self.same_load_test(requests) && !self.config.no_hash_check {
            Step::Abort(AbortReason::DifferentLoadTest)
        } else if self.available_users.len() < self.next_batch() {
            Step::Abort(AbortReason::NotEnoughUsers)
        } else {
            Step::Go(
                ReplyView::Users(
                    initializers(
                        self.available_users,
                        self.next_batch(),
                        (self.workers.len() + 1) as usize,
                    ),
                ),
            )
        }
    }

    /// The state after a message.
    pub open spec fn answered(
        self,
        worker: u64,
        requests: Map<Seq<char>, RequestView>,
    ) -> ManagerState {
        match self.answer(worker, requests) {
            Step::Go(ReplyView::Users(_)) => ManagerState {
                workers: self.workers.insert(worker),
                available_users: self.available_users.take(
                    self.available_users.len() - self.next_batch(),
                ),
                ..self
            },
            _ => if self.merges(worker) {
                ManagerState {
                    merged_requests: merged_table(
                        self.merged_requests,
                        requests,
                        self.config.status_codes,
                    ),
                    ..self
                }
            } else {
                self
            },
        }
    }

    /// How the manager goes on after it has tried to send.
    pub open spec fn delivery(
        self,
        sent: Result<(), TransportError>,
        active_workers: nat,
    ) -> Step<()> {
        match sent {
            Ok(_) => Step::Go(()),
            Err(TransportError::TryAgain) => if active_workers == 0 {
                Step::Stop(StopReason::AllWorkersExited)
            } else {
                Step::Go(())
            },
            Err(TransportError::Other) => Step::Abort(AbortReason::SendFailed),
        }
    }

    /// The state after the manager has tried to send: the load test starts with the last worker
    /// that gets its users.
    pub open spec fn delivered(
        self,
        reply: ReplyView,
        sent: Result<(), TransportError>,
        active_workers: nat,
        now: nat,
    ) -> ManagerState {
        if self.delivery(sent, active_workers) is Go && reply is Users && self.complete() {
            ManagerState { running: true, started: now, statistics_timer: now, ..self }
        } else {
            self
        }
    }

    /// How the manager goes on when it could not receive a message: where it sleeps, with the
    /// milliseconds.
    pub open spec fn silence(self, error: TransportError, active_workers: nat) -> Step<
        Option<nat>,
    > {
        match error {
            TransportError::Other => Step::Abort(AbortReason::ReceiveFailed),
            TransportError::TryAgain => if self.workers.len() > 0 && active_workers == 0 {
                Step::Stop(StopReason::AllWorkersExited)
            } else if self.finished {
                Step::Go(None)
            } else {
                Step::Go(Some(IDLE_SLEEP_MILLIS as nat))
            },
        }
    }
}

} // verus!
