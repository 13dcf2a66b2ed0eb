//! What holds of a distributed load test as a whole.
use vstd::prelude::*;

use crate::configuration::decimal;
use crate::configuration::tcp_address;
use crate::goose::GooseRequest;
use crate::goose::GooseUser;
use crate::goose::GooseUserCommand;
use crate::goose::RequestView;
use crate::manager::GooseUserInitializer;
use crate::manager::PipeEvent;
use crate::manager::connected;
use crate::model::AbortReason;
use crate::model::GRACEFUL_SHUTDOWN_TIMEOUT;
use crate::model::ManagerState;
use crate::model::RUNNING_STATS_EVERY;
use crate::model::Reply;
use crate::model::ReplyView;
use crate::model::Step;
use crate::model::StopReason;
use crate::model::TransportError;
use crate::model::batch_size;
use crate::model::handed_out;
use crate::model::initializer;
use crate::model::initializers;
use crate::model::merged_request;
use crate::model::merged_table;
use crate::model::request_fits;
use crate::model::table_fits;
use crate::stats::count_of;
use crate::stats::counts;
use crate::stats::counts_fit;
use crate::stats::fastest;
use crate::stats::merge_counts;
use crate::stats::slowest;
use crate::util::NANOS_PER_SEC;
use crate::util::expired;
use crate::util::seconds_between;

verus! {

// Handing out users.

/// How many users the first `k` workers get together: an equal share each, and of the users that
/// cannot be shared equally one each, as long as there are any.
pub proof fn law_share_of_the_first_workers(users: nat, workers: nat, k: nat)
    requires
        workers > 0,
        k <= workers,
    ensures
        handed_out(users, workers, k) == k * (users / workers) + if k < users % workers {
            k
        } else {
            users % workers
        },
    decreases k,
{
    let share = users / workers;
    if k > 0 {
        law_share_of_the_first_workers(users, workers, (k - 1) as nat);
        assert(k * share == (k - 1) * share + share) by (nonlinear_arith);
    } else {
        assert(0 * share == 0) by (nonlinear_arith);
    }
}

/// The first workers never get more than all workers.
proof fn lemma_handed_out_grows(users: nat, workers: nat, j: nat, k: nat)
    requires
        j <= k,
    ensures
        handed_out(users, workers, j) <= handed_out(users, workers, k),
    decreases k,
{
    if j < k {
        lemma_handed_out_grows(users, workers, j, (k - 1) as nat);
    }
}

/// All workers together get all users.
pub proof fn law_all_users_are_handed_out(users: nat, workers: nat)
    requires
        workers > 0,
    ensures
        handed_out(users, workers, workers) == users,
{
    law_share_of_the_first_workers(users, workers, workers);
    vstd::arithmetic::div_mod::lemma_fundamental_div_mod(users as int, workers as int);
    assert(users % workers < workers) by (nonlinear_arith)
        requires
            workers > 0,
    ;
}

/// No worker gets fewer users than one that joins later, nor more than one user more.
pub proof fn law_batches_are_balanced(users: nat, workers: nat, j: nat, k: nat)
    requires
        workers > 0,
        j <= k,
    ensures
        batch_size(users, workers, k) <= batch_size(users, workers, j) <= batch_size(
            users,
            workers,
            k,
        ) + 1,
{
}

/// Every user is handed out, to one worker and once: the user `p` places from the end of the list
/// is in the batch of exactly one worker.
pub proof fn law_each_user_goes_to_one_worker(users: nat, workers: nat, p: nat)
    requires
        workers > 0,
        p < users,
    ensures
        exists|k: nat|
            k < workers && #[trigger] handed_out(users, workers, k) <= p && p < handed_out(
                users,
                workers,
                k,
            ) + batch_size(users, workers, k),
        forall|j: nat, k: nat|
            j < workers && k < workers && #[trigger] handed_out(users, workers, j) <= p && p
                < handed_out(users, workers, j) + batch_size(users, workers, j)
                && #[trigger] handed_out(users, workers, k) <= p && p < handed_out(
                users,
                workers,
                k,
            ) + batch_size(users, workers, k) ==> j == k,
{
    law_all_users_are_handed_out(users, workers);
    lemma_some_batch_holds(users, workers, workers, p);
    assert forall|j: nat, k: nat|
        j < workers && k < workers && #[trigger] handed_out(users, workers, j) <= p && p
            < handed_out(users, workers, j) + batch_size(users, workers, j)
            && #[trigger] handed_out(users, workers, k) <= p && p < handed_out(users, workers, k)
            + batch_size(users, workers, k) implies j == k by {
        if j < k {
            lemma_handed_out_grows(users, workers, (j + 1) as nat, k);
        }
        if k < j {
            lemma_handed_out_grows(users, workers, (k + 1) as nat, j);
        }
    }
}

/// A user that the first `n` workers get is in the batch of one of them.
proof fn lemma_some_batch_holds(users: nat, workers: nat, n: nat, p: nat)
    requires
        p < handed_out(users, workers, n),
    ensures
        exists|k: nat|
            k < n && #[trigger] handed_out(users, workers, k) <= p && p < handed_out(
                users,
                workers,
                k,
            ) + batch_size(users, workers, k),
    decreases n,
{
    let k = (n - 1) as nat;
    if p < handed_out(users, workers, k) {
        lemma_some_batch_holds(users, workers, k, p);
    } else {
        assert(handed_out(users, workers, k) <= p);
    }
}

/// Which users a worker gets depends only on how many joined before it: those that come next from
/// the end of the list, numbered by the worker's place among those that joined.
pub proof fn law_batch_of_a_worker(
    s: ManagerState,
    worker: u64,
    requests: Map<Seq<char>, RequestView>,
)
    requires
        s.valid(),
        s.answer(worker, requests) is Go,
        s.answer(worker, requests)->Go_0 is Users,
    ensures
        ({
            let users = s.answer(worker, requests)->Go_0->Users_0;
            let joined = s.workers.len();
            let handed = handed_out(s.users, s.expected(), joined);
            &&& users.len() == batch_size(s.users, s.expected(), joined)
            &&& forall|i: int|
                0 <= i < users.len() ==> #[trigger] users[i] == initializer(
                    s.weighted_users[s.weighted_users.len() - 1 - handed - i],
                    (joined + 1) as usize,
                )
        }),
{
}

/// As long as there are as many users in the list as are to be simulated, no worker is turned away
/// for want of users.
pub proof fn law_users_suffice(
    s: ManagerState,
    worker: u64,
    requests: Map<Seq<char>, RequestView>,
)
    requires
        s.valid(),
        s.weighted_users.len() >= s.users,
    ensures
        s.answer(worker, requests) != Step::<ReplyView>::Abort(AbortReason::NotEnoughUsers),
        s.complete() ==> s.available_users.len() == s.weighted_users.len() - s.users,
{
    law_all_users_are_handed_out(s.users, s.expected());
    if s.workers.len() < s.expected() {
        lemma_handed_out_grows(
            s.users,
            s.expected(),
            (s.workers.len() + 1) as nat,
            s.expected(),
        );
    }
}

// Merging what workers report.

/// Counters can be merged in any order.
proof fn lemma_counts_commute<K>(a: Map<K, nat>, b: Map<K, nat>)
    ensures
        merge_counts(a, b) == merge_counts(b, a),
{
    assert(merge_counts(a, b) =~= merge_counts(b, a));
}

/// Counters can be merged in any grouping.
proof fn lemma_counts_associate<K>(a: Map<K, nat>, b: Map<K, nat>, c: Map<K, nat>)
    ensures
        merge_counts(merge_counts(a, b), c) == merge_counts(a, merge_counts(b, c)),
{
    assert(merge_counts(merge_counts(a, b), c) =~= merge_counts(a, merge_counts(b, c)));
}

/// Two reports on a request can be merged one after the other, or first into each other.
pub proof fn law_reports_associate(
    parent: RequestView,
    a: RequestView,
    b: RequestView,
    status_codes: bool,
)
    ensures
        merged_request(merged_request(parent, a, status_codes), b, status_codes)
            == merged_request(parent, merged_request(a, b, status_codes), status_codes),
{
    lemma_counts_associate(parent.response_times, a.response_times, b.response_times);
    lemma_counts_associate(parent.status_code_counts, a.status_code_counts, b.status_code_counts);
}

/// The order in which two reports on a known request come in does not matter.
pub proof fn law_reports_commute(
    parent: RequestView,
    a: RequestView,
    b: RequestView,
    status_codes: bool,
)
    ensures
        merged_request(merged_request(parent, a, status_codes), b, status_codes)
            == merged_request(merged_request(parent, b, status_codes), a, status_codes),
{
    law_reports_associate(parent, a, b, status_codes);
    law_reports_associate(parent, b, a, status_codes);
    lemma_counts_commute(a.response_times, b.response_times);
    lemma_counts_commute(a.status_code_counts, b.status_code_counts);
}

/// Whether two reports agree on a request that neither has been merged with before: the first of
/// them decides which load test it belongs to and, where status codes are not merged, which status
/// codes it has.
pub open spec fn agree(a: RequestView, b: RequestView, status_codes: bool) -> bool {
    &&& a.load_test_hash == b.load_test_hash
    &&& status_codes || a.status_code_counts == b.status_code_counts
}

/// The order in which two workers report does not matter, if they agree on what is new.
pub proof fn law_workers_report_in_any_order(
    merged: Map<Seq<char>, RequestView>,
    a: Map<Seq<char>, RequestView>,
    b: Map<Seq<char>, RequestView>,
    status_codes: bool,
)
    requires
        forall|name: Seq<char>|
            !merged.contains_key(name) && #[trigger] a.contains_key(name) && b.contains_key(name)
                ==> agree(a[name], b[name], status_codes),
    ensures
        merged_table(merged_table(merged, a, status_codes), b, status_codes) == merged_table(
            merged_table(merged, b, status_codes),
            a,
            status_codes,
        ),
{
    let ab = merged_table(merged_table(merged, a, status_codes), b, status_codes);
    let ba = merged_table(merged_table(merged, b, status_codes), a, status_codes);
    assert forall|name: Seq<char>| #[trigger] ab.contains_key(name) implies ab[name]
        == ba[name] by {
        if a.contains_key(name) && b.contains_key(name) {
            if merged.contains_key(name) {
                law_reports_commute(merged[name], a[name], b[name], status_codes);
            } else {
                lemma_counts_commute(a[name].response_times, b[name].response_times);
                lemma_counts_commute(a[name].status_code_counts, b[name].status_code_counts);
            }
        }
    }
    assert(ab =~= ba);
}

/// A report on nothing changes nothing.
pub proof fn law_empty_report(merged: Map<Seq<char>, RequestView>, status_codes: bool)
    ensures
        merged_table(merged, Map::empty(), status_codes) == merged,
{
    assert(merged_table(merged, Map::empty(), status_codes) =~= merged);
}

/// What is known after some reports, one after the other.
pub open spec fn after_reports(
    merged: Map<Seq<char>, RequestView>,
    reports: Seq<Map<Seq<char>, RequestView>>,
    status_codes: bool,
) -> Map<Seq<char>, RequestView>
    decreases reports.len(),
{
    if reports.len() == 0 {
        merged
    } else {
        merged_table(
            after_reports(merged, reports.drop_last(), status_codes),
            reports.last(),
            status_codes,
        )
    }
}

/// A number that a table gives for a request, 0 where it does not have it.
pub open spec fn tally(
    table: Map<Seq<char>, RequestView>,
    name: Seq<char>,
    figure: spec_fn(RequestView) -> nat,
) -> nat {
    if table.contains_key(name) {
        figure(table[name])
    } else {
        0
    }
}

/// The sum of what some reports give for a request.
pub open spec fn total(
    reports: Seq<Map<Seq<char>, RequestView>>,
    name: Seq<char>,
    figure: spec_fn(RequestView) -> nat,
) -> nat
    decreases reports.len(),
{
    if reports.len() == 0 {
        0
    } else {
        total(reports.drop_last(), name, figure) + tally(reports.last(), name, figure)
    }
}

/// Whether merging adds a figure up.
pub open spec fn adds_up(figure: spec_fn(RequestView) -> nat, status_codes: bool) -> bool {
    forall|parent: RequestView, user: RequestView|
        figure(#[trigger] merged_request(parent, user, status_codes)) == figure(parent) + figure(
            user,
        )
}

/// The figures that add up: successes, failures, responses counted, the time they took, the
/// responses that took `t` milliseconds and, where they are merged, those with the status code `c`.
pub proof fn law_figures_add_up(t: usize, c: u16, status_codes: bool)
    ensures
        adds_up(|r: RequestView| r.success_count, status_codes),
        adds_up(|r: RequestView| r.fail_count, status_codes),
        adds_up(|r: RequestView| r.response_time_counter, status_codes),
        adds_up(|r: RequestView| r.total_response_time, status_codes),
        adds_up(|r: RequestView| count_of(r.response_times, t), status_codes),
        status_codes ==> adds_up(
            |r: RequestView| count_of(r.status_code_counts, c),
            status_codes,
        ),
{
}

/// No report is lost and none is counted twice: a figure that adds up is, after any reports, what
/// it was before plus the sum of what was reported.
pub proof fn law_reports_add_up(
    merged: Map<Seq<char>, RequestView>,
    reports: Seq<Map<Seq<char>, RequestView>>,
    name: Seq<char>,
    figure: spec_fn(RequestView) -> nat,
    status_codes: bool,
)
    requires
        adds_up(figure, status_codes),
    ensures
        tally(after_reports(merged, reports, status_codes), name, figure) == tally(
            merged,
            name,
            figure,
        ) + total(reports, name, figure),
    decreases reports.len(),
{
    if reports.len() > 0 {
        law_reports_add_up(merged, reports.drop_last(), name, figure, status_codes);
    }
}

/// Whether all response times that `reports` give for a request lie between `t` and `u`. A fastest
/// response time of 0 stands for no response, so `t` may be 0 only where all of them are.
pub open spec fn within(
    reports: Seq<Map<Seq<char>, RequestView>>,
    name: Seq<char>,
    t: nat,
    u: nat,
) -> bool {
    forall|i: int|
        0 <= i < reports.len() && (#[trigger] reports[i]).contains_key(name) ==> {
            let r = reports[i][name];
            (r.min_response_time > 0 ==> 0 < t <= r.min_response_time) && r.max_response_time <= u
        }
}

/// The fastest and the slowest response time of a request are bounds for all that was reported, and
/// were themselves reported.
pub proof fn law_extremes_are_reported(
    reports: Seq<Map<Seq<char>, RequestView>>,
    name: Seq<char>,
    status_codes: bool,
)
    ensures
        ({
            let known = after_reports(Map::empty(), reports, status_codes);
            let r = known[name];
            &&& known.contains_key(name) <==> exists|i: int|
                0 <= i < reports.len() && (#[trigger] reports[i]).contains_key(name)
            &&& known.contains_key(name) ==> {
                &&& within(reports, name, r.min_response_time, r.max_response_time)
                &&& exists|i: int|
                    0 <= i < reports.len() && (#[trigger] reports[i]).contains_key(name)
                        && reports[i][name].min_response_time == r.min_response_time
                &&& exists|i: int|
                    0 <= i < reports.len() && (#[trigger] reports[i]).contains_key(name)
                        && reports[i][name].max_response_time == r.max_response_time
            }
        }),
    decreases reports.len(),
{
    if reports.len() > 0 {
        let before = reports.drop_last();
        let last = reports.last();
        let old_known = after_reports(Map::empty(), before, status_codes);
        let known = after_reports(Map::empty(), reports, status_codes);
        law_extremes_are_reported(before, name, status_codes);
        assert(reports[reports.len() - 1] == last);
        assert forall|i: int| 0 <= i < before.len() implies #[trigger] before[i] == reports[i] by {}
        assert forall|i: int| 0 <= i < reports.len() - 1 implies #[trigger] reports[i]
            == before[i] by {}
        if old_known.contains_key(name) {
            let i = choose|i: int|
                0 <= i < before.len() && (#[trigger] before[i]).contains_key(name)
                    && before[i][name].min_response_time == old_known[name].min_response_time;
            let j = choose|j: int|
                0 <= j < before.len() && (#[trigger] before[j]).contains_key(name)
                    && before[j][name].max_response_time == old_known[name].max_response_time;
            assert(reports[i] == before[i]);
            assert(reports[j] == before[j]);
        }
        assert(known == merged_table(old_known, last, status_codes));
    }
}

// The course of a load test.

/// What can happen to a manager.
pub enum Event {
    /// It looks at its workers, its timers and whether it was canceled.
    Supervise { active_workers: nat, canceled: bool, now: nat },
    /// A worker sends a message.
    Message { worker: u64, requests: Map<Seq<char>, RequestView> },
    /// It has tried to send a reply.
    Delivery {
        reply: ReplyView,
        sent: Result<(), TransportError>,
        active_workers: nat,
        now: nat,
    },
    /// It could not receive a message.
    Silence { error: TransportError, active_workers: nat },
}

impl ManagerState {
    /// The state after an event.
    pub open spec fn after(self, event: Event) -> ManagerState {
        match event {
            Event::Supervise { active_workers, canceled, now } => self.supervised(
                active_workers,
                canceled,
                now,
            ),
            Event::Message { worker, requests } => self.answered(worker, requests),
            Event::Delivery { reply, sent, active_workers, now } => self.delivered(
                reply,
                sent,
                active_workers,
                now,
            ),
            Event::Silence { .. } => self,
        }
    }

    /// The state after some events, one after the other.
    pub open spec fn after_all(self, events: Seq<Event>) -> ManagerState
        decreases events.len(),
    {
        if events.len() == 0 {
            self
        } else {
            self.after_all(events.drop_last()).after(events.last())
        }
    }

    /// What was reported, in the order in which it was merged, in the course of some events.
    pub open spec fn reports(self, events: Seq<Event>) -> Seq<Map<Seq<char>, RequestView>>
        decreases events.len(),
    {
        if events.len() == 0 {
            Seq::empty()
        } else {
            let before = self.reports(events.drop_last());
            match events.last() {
                Event::Message { worker, requests } => {
                    let s = self.after_all(events.drop_last());
                    if s.workers.contains(worker) && s.workers.len() == s.config.expect_workers {
                        before.push(requests)
                    } else {
                        before
                    }
                },
                _ => before,
            }
        }
    }
}

/// A manager that no worker has joined yet is in a valid state.
pub proof fn law_initial_state_is_valid(s: ManagerState)
    requires
        s.initial(),
    ensures
        s.valid(),
{
    assert(s.weighted_users.take(s.weighted_users.len() as int) =~= s.weighted_users);
}

/// Whatever happens, a valid state is followed by a valid state: at no time have more workers than
/// expected joined, does the load test run without one of them, or do the users that were handed
/// out and those that are available differ from the users there are.
pub proof fn law_states_stay_valid(s: ManagerState, event: Event)
    requires
        s.valid(),
    ensures
        s.after(event).valid(),
{
    if let Event::Message { worker, requests } = event {
        let next = s.answered(worker, requests);
        let joined = s.workers.len();
        if next.workers != s.workers {
            let handed = handed_out(s.users, s.expected(), joined);
            assert(handed_out(s.users, s.expected(), (joined + 1) as nat) == handed
                + s.next_batch());
            assert(next.available_users =~= s.weighted_users.take(
                s.weighted_users.len() - handed - s.next_batch(),
            ));
        }
    }
}

/// Every state that a manager reaches is valid.
pub proof fn law_reached_states_are_valid(s: ManagerState, events: Seq<Event>)
    requires
        s.initial(),
    ensures
        s.after_all(events).valid(),
    decreases events.len(),
{
    if events.len() == 0 {
        law_initial_state_is_valid(s);
    } else {
        law_reached_states_are_valid(s, events.drop_last());
        law_states_stay_valid(s.after_all(events.drop_last()), events.last());
    }
}

/// Whether `s` can have come before `t`: the settings are the same, and no worker that has joined,
/// no request that was reported, and neither the start nor the end of the load test is forgotten.
pub open spec fn leads_to(s: ManagerState, t: ManagerState) -> bool {
    &&& t.config == s.config
    &&& t.users == s.users
    &&& t.run_time == s.run_time
    &&& t.task_sets_hash == s.task_sets_hash
    &&& t.weighted_users == s.weighted_users
    &&& s.workers.subset_of(t.workers)
    &&& t.available_users.len() <= s.available_users.len()
    &&& s.running ==> t.running
    &&& s.finished ==> t.finished && t.exit_timer == s.exit_timer
    &&& forall|name: Seq<char>| #[trigger]
        s.merged_requests.contains_key(name) ==> t.merged_requests.contains_key(name)
}

/// Nothing is forgotten, and a load test that has ended neither starts again nor has its shutdown
/// put off.
pub proof fn law_nothing_is_forgotten(s: ManagerState, events: Seq<Event>)
    ensures
        leads_to(s, s.after_all(events)),
    decreases events.len(),
{
    if events.len() > 0 {
        law_nothing_is_forgotten(s, events.drop_last());
        let t = s.after_all(events.drop_last());
        assert(leads_to(t, t.after(events.last())));
    }
}

/// What a manager has gathered is what it started from and what its workers have reported since,
/// once all of them had joined.
pub proof fn law_reports_are_gathered(s: ManagerState, events: Seq<Event>)
    ensures
        s.after_all(events).merged_requests == after_reports(
            s.merged_requests,
            s.reports(events),
            s.config.status_codes,
        ),
    decreases events.len(),
{
    if events.len() > 0 {
        let before = events.drop_last();
        law_reports_are_gathered(s, before);
        law_nothing_is_forgotten(s, before);
        let t = s.after_all(before);
        if let Event::Message { worker, requests } = events.last() {
            if t.workers.contains(worker) && t.workers.len() == t.config.expect_workers {
                assert(s.reports(events).drop_last() =~= s.reports(before));
            }
        }
    }
}

/// A worker that has joined waits until all have, runs until the load test ends, and exits then.
pub proof fn law_worker_that_has_joined(
    s: ManagerState,
    worker: u64,
    requests: Map<Seq<char>, RequestView>,
)
    requires
        s.valid(),
        s.workers.contains(worker),
    ensures
        s.workers.len() < s.expected() ==> s.answer(worker, requests) == Step::Go(
            ReplyView::Command(GooseUserCommand::WAIT),
        ),
        s.workers.len() == s.expected() && !s.finished ==> s.answer(worker, requests) == Step::Go(
            ReplyView::Command(GooseUserCommand::RUN),
        ),
        s.finished ==> s.answer(worker, requests) == Step::Go(
            ReplyView::Command(GooseUserCommand::EXIT),
        ),
{
}

/// Once all workers have joined, any other is told to exit and changes nothing.
pub proof fn law_surplus_worker(
    s: ManagerState,
    worker: u64,
    requests: Map<Seq<char>, RequestView>,
)
    requires
        s.valid(),
        s.complete(),
        !s.workers.contains(worker),
    ensures
        s.answer(worker, requests) == Step::Go(ReplyView::Command(GooseUserCommand::EXIT)),
        s.answered(worker, requests) == s,
{
}

/// A worker that runs a different load test does not join, unless hashes are not checked.
pub proof fn law_different_load_test(
    s: ManagerState,
    worker: u64,
    requests: Map<Seq<char>, RequestView>,
)
    requires
        s.valid(),
        !s.workers.contains(worker),
        !s.same_load_test(requests),
        !s.config.no_hash_check,
    ensures
        s.answered(worker, requests) == s,
        !s.complete() ==> s.answer(worker, requests) == Step::<ReplyView>::Abort(
            AbortReason::DifferentLoadTest,
        ),
{
}

/// A worker joins once: after it has, its next message is that of a worker that has joined.
pub proof fn law_worker_joins_once(
    s: ManagerState,
    worker: u64,
    requests: Map<Seq<char>, RequestView>,
    events: Seq<Event>,
    later: Map<Seq<char>, RequestView>,
)
    requires
        s.valid(),
        s.answer(worker, requests) is Go,
        s.answer(worker, requests)->Go_0 is Users,
    ensures
        !s.workers.contains(worker),
        s.answered(worker, requests).workers.len() == s.workers.len() + 1,
        ({
            let t = s.answered(worker, requests).after_all(events);
            t.workers.contains(worker) && t.answer(worker, later)->Go_0 is Command
        }),
{
    law_nothing_is_forgotten(s.answered(worker, requests), events);
}

/// A load test whose run time is 0 ends only when a worker is lost or it is canceled.
pub proof fn law_endless_load_test(s: ManagerState, active_workers: nat, canceled: bool, now: nat)
    requires
        s.run_time == 0,
    ensures
        s.ends(active_workers, canceled, now) <==> s.running && !s.finished && (active_workers
            < s.workers.len() || canceled),
{
}

/// A load test ends at the first look at its timers after its run time is over.
pub proof fn law_run_time(s: ManagerState, active_workers: nat, canceled: bool, now: nat)
    requires
        s.running,
        s.run_time > 0,
        now >= s.started + s.run_time * NANOS_PER_SEC,
    ensures
        s.supervised(active_workers, canceled, now).finished,
{
    let n = NANOS_PER_SEC as int;
    let run_time = s.run_time as int;
    let spent = now - s.started;
    assert(spent / n >= run_time) by (nonlinear_arith)
        requires
            spent >= run_time * n,
            n > 0,
    ;
}

/// The shutdown is bounded: at the first look at its timers half a minute after the end of the load
/// test the manager stops, whatever its workers do in between.
pub proof fn law_shutdown_is_bounded(
    s: ManagerState,
    events: Seq<Event>,
    active_workers: nat,
    canceled: bool,
    now: nat,
)
    requires
        s.valid(),
        s.finished,
        now >= s.exit_timer + GRACEFUL_SHUTDOWN_TIMEOUT * NANOS_PER_SEC,
    ensures
        s.after_all(events).supervision(active_workers, canceled, now) == Step::<
            Option<nat>,
        >::Stop(StopReason::ShutdownTimeout),
{
    law_nothing_is_forgotten(s, events);
}

/// The manager gives its workers time to shut down: it does not time out on them sooner.
pub proof fn law_shutdown_is_graceful(
    s: ManagerState,
    active_workers: nat,
    canceled: bool,
    now: nat,
)
    requires
        s.valid(),
        s.finished ==> now < s.exit_timer + GRACEFUL_SHUTDOWN_TIMEOUT * NANOS_PER_SEC,
    ensures
        s.supervision(active_workers, canceled, now) != Step::<Option<nat>>::Stop(
            StopReason::ShutdownTimeout,
        ),
{
}

/// A worker that goes away stops the manager before the load test, and ends the load test once it
/// runs.
pub proof fn law_lost_worker(s: ManagerState, active_workers: nat, canceled: bool, now: nat)
    requires
        s.valid(),
        active_workers < s.workers.len(),
    ensures
        !s.running ==> s.supervision(active_workers, canceled, now) == Step::<Option<nat>>::Stop(
            StopReason::WorkerLost,
        ),
        s.running ==> s.supervised(active_workers, canceled, now).finished,
{
}

/// Running statistics are displayed only during the load test, only if they are wanted, and no
/// sooner than a quarter of a minute after they were displayed last.
pub proof fn law_running_statistics(
    s: ManagerState,
    active_workers: nat,
    canceled: bool,
    now: nat,
    later_workers: nat,
    later_canceled: bool,
    later: nat,
)
    requires
        s.supervision(active_workers, canceled, now) is Go,
        s.supervision(active_workers, canceled, now)->Go_0 is Some,
    ensures
        s.running && !s.config.only_summary,
        ({
            let t = s.supervised(active_workers, canceled, now);
            let again = t.supervision(later_workers, later_canceled, later);
            again is Go && again->Go_0 is Some ==> later >= now + RUNNING_STATS_EVERY
                * NANOS_PER_SEC
        }),
{
}

/// What a manager goes through again and again: it looks at its workers and timers, then it
/// receives a message and sends the answer, or it receives nothing.
pub enum Round {
    /// A round with a message.
    Message {
        active_workers: nat,
        canceled: bool,
        now: nat,
        worker: u64,
        requests: Map<Seq<char>, RequestView>,
        sent: Result<(), TransportError>,
        workers_left: nat,
        sent_at: nat,
    },
    /// A round without one.
    Silence {
        active_workers: nat,
        canceled: bool,
        now: nat,
        error: TransportError,
        workers_left: nat,
    },
}

impl ManagerState {
    /// The state after a round, if there is another round after it.
    pub open spec fn after_round(self, round: Round) -> Option<ManagerState> {
        match round {
            Round::Message {
                active_workers,
                canceled,
                now,
                worker,
                requests,
                sent,
                workers_left,
                sent_at,
            } => {
                let s = self.supervised(active_workers, canceled, now);
                let t = s.answered(worker, requests);
                match s.answer(worker, requests) {
                    Step::Go(reply) => if self.supervision(active_workers, canceled, now) is Go
                        && t.delivery(sent, workers_left) is Go {
                        Some(t.delivered(reply, sent, workers_left, sent_at))
                    } else {
                        None
                    },
                    _ => None,
                }
            },
            Round::Silence { active_workers, canceled, now, error, workers_left } => {
                let s = self.supervised(active_workers, canceled, now);
                if self.supervision(active_workers, canceled, now) is Go && s.silence(
                    error,
                    workers_left,
                ) is Go {
                    Some(s)
                } else {
                    None
                }
            },
        }
    }

    /// The state after some rounds, if there is another round after them.
    pub open spec fn after_rounds(self, rounds: Seq<Round>) -> Option<ManagerState>
        decreases rounds.len(),
    {
        if rounds.len() == 0 {
            Some(self)
        } else {
            match self.after_rounds(rounds.drop_last()) {
                Some(s) => s.after_round(rounds.last()),
                None => None,
            }
        }
    }
}

/// The load test starts with the round in which the last of the expected workers joins, and its
/// clock is set then and never again.
pub proof fn law_load_test_starts_when_complete(s: ManagerState, rounds: Seq<Round>, round: Round)
    requires
        s.initial(),
        s.after_rounds(rounds) is Some,
    ensures
        ({
            let t = s.after_rounds(rounds)->0;
            &&& t.valid()
            &&& t.running <==> t.complete()
            &&& t.running && t.after_round(round) is Some ==> t.after_round(round)->0.started
                == t.started
            &&& !t.running && t.after_round(round) is Some && t.after_round(round)->0.running
                ==> round is Message && t.after_round(round)->0.started == round->sent_at
        }),
    decreases rounds.len(),
{
    if rounds.len() == 0 {
        law_initial_state_is_valid(s);
    } else {
        let before = s.after_rounds(rounds.drop_last())->0;
        law_load_test_starts_when_complete(s, rounds.drop_last(), rounds.last());
        lemma_round_keeps(before, rounds.last());
    }
    let t = s.after_rounds(rounds)->0;
    if t.after_round(round) is Some {
        lemma_round_keeps(t, round);
    }
}

impl Round {
    /// How many workers are connected, whether the load test was canceled, and what time it is,
    /// when the manager looks.
    pub open spec fn look(self) -> (nat, bool, nat) {
        match self {
            Round::Message { active_workers, canceled, now, .. } => (active_workers, canceled, now),
            Round::Silence { active_workers, canceled, now, .. } => (active_workers, canceled, now),
        }
    }
}

impl ManagerState {
    /// Whether all workers have joined and the look of a round finds that one of them is gone, that
    /// the run time is over, or that the load test was canceled.
    pub open spec fn finds_end(self, round: Round) -> bool {
        let (active_workers, canceled, now) = round.look();
        self.complete() && (active_workers < self.workers.len() || expired(
            self.started,
            self.run_time,
            now,
        ) || canceled)
    }

    /// Whether the look of the round `i` finds that.
    pub open spec fn finds_end_at(self, rounds: Seq<Round>, i: int) -> bool {
        self.after_rounds(rounds.take(i))->0.finds_end(rounds[i])
    }
}

/// The load test is over if and only if some round found that, once all workers had joined, one of
/// them was gone, the run time was over, or the load test was canceled; and the shutdown counts
/// from the first such round.
pub proof fn law_when_the_load_test_is_over(s: ManagerState, rounds: Seq<Round>)
    requires
        s.initial(),
        s.after_rounds(rounds) is Some,
    ensures
        ({
            let t = s.after_rounds(rounds)->0;
            &&& t.finished <==> exists|i: int|
                0 <= i < rounds.len() && #[trigger] s.finds_end_at(rounds, i)
            &&& forall|i: int|
                0 <= i < rounds.len() && #[trigger] s.finds_end_at(rounds, i) && (forall|j: int|
                    0 <= j < i ==> !#[trigger] s.finds_end_at(rounds, j)) ==> t.exit_timer
                    == rounds[i].look().2
        }),
    decreases rounds.len(),
{
    if rounds.len() > 0 {
        let before = rounds.drop_last();
        let last = rounds.len() - 1;
        let u = s.after_rounds(before)->0;
        let t = s.after_rounds(rounds)->0;
        law_when_the_load_test_is_over(s, before);
        law_load_test_starts_when_complete(s, before, rounds.last());
        assert forall|i: int| 0 <= i < last implies #[trigger] s.finds_end_at(rounds, i)
            == s.finds_end_at(before, i) by {
            assert(rounds.take(i) =~= before.take(i));
        }
        assert(rounds.take(last) =~= before);
        assert(s.finds_end_at(rounds, last) == u.finds_end(rounds.last()));
        assert(t.finished == (u.finished || u.finds_end(rounds.last())));
        if u.finished {
            assert(t.exit_timer == u.exit_timer);
            let i = choose|i: int| 0 <= i < before.len() && #[trigger] s.finds_end_at(before, i);
            assert(s.finds_end_at(rounds, i));
        }
        assert forall|i: int|
            0 <= i < rounds.len() && #[trigger] s.finds_end_at(rounds, i) && (forall|j: int|
                0 <= j < i ==> !#[trigger] s.finds_end_at(rounds, j)) implies t.exit_timer
            == rounds[i].look().2 by {
            if i < last {
                assert(s.finds_end_at(before, i));
                assert forall|j: int| 0 <= j < i implies !#[trigger] s.finds_end_at(before, j) by {
                    assert(!s.finds_end_at(rounds, j));
                }
                assert(rounds[i] == before[i]);
            } else if u.finished {
                let k = choose|k: int|
                    0 <= k < before.len() && #[trigger] s.finds_end_at(before, k);
                assert(s.finds_end_at(rounds, k));
            }
        }
    }
}

/// What a round keeps.
proof fn lemma_round_keeps(s: ManagerState, round: Round)
    requires
        s.valid(),
        s.running <==> s.complete(),
        s.after_round(round) is Some,
    ensures
        ({
            let t = s.after_round(round)->0;
            &&& t.valid()
            &&& t.running <==> t.complete()
            &&& s.running ==> t.started == s.started
        }),
{
    match round {
        Round::Message {
            active_workers,
            canceled,
            now,
            worker,
            requests,
            sent,
            workers_left,
            sent_at,
        } => {
            let looked = s.supervised(active_workers, canceled, now);
            law_states_stay_valid(s, Event::Supervise { active_workers, canceled, now });
            law_states_stay_valid(looked, Event::Message { worker, requests });
        },
        Round::Silence { active_workers, canceled, now, error, workers_left } => {
            law_states_stay_valid(s, Event::Supervise { active_workers, canceled, now });
        },
    }
}

// Counting connections.

/// How many workers are connected after some events.
pub open spec fn connected_after(active: usize, events: Seq<PipeEvent>) -> usize
    decreases events.len(),
{
    if events.len() == 0 {
        active
    } else {
        connected(connected_after(active, events.drop_last()), events.last())
    }
}

/// How often `event` occurs.
pub open spec fn occurrences(events: Seq<PipeEvent>, event: PipeEvent) -> int
    decreases events.len(),
{
    if events.len() == 0 {
        0
    } else {
        occurrences(events.drop_last(), event) + if events.last() == event {
            1int
        } else {
            0
        }
    }
}

/// The workers that are connected are those that were added and not removed: the counter is exact
/// up to multiples of its range, and exact where the number itself is in range.
pub proof fn law_connections_are_counted(active: usize, events: Seq<PipeEvent>)
    ensures
        ({
            let number = active + occurrences(events, PipeEvent::AddPost) - occurrences(
                events,
                PipeEvent::RemovePost,
            );
            &&& connected_after(active, events) == number % (usize::MAX + 1)
            &&& 0 <= number <= usize::MAX ==> connected_after(active, events) == number
        }),
    decreases events.len(),
{
    let range = usize::MAX + 1;
    let number = active + occurrences(events, PipeEvent::AddPost) - occurrences(
        events,
        PipeEvent::RemovePost,
    );
    if events.len() > 0 {
        let before = events.drop_last();
        law_connections_are_counted(active, before);
        lemma_neighbours(
            active + occurrences(before, PipeEvent::AddPost) - occurrences(
                before,
                PipeEvent::RemovePost,
            ),
            range,
        );
    }
    if 0 <= number <= usize::MAX {
        vstd::arithmetic::div_mod::lemma_small_mod(number as nat, range as nat);
    }
}

/// The remainders next to that of `n`.
proof fn lemma_neighbours(n: int, range: int)
    requires
        range > 1,
    ensures
        (n + 1) % range == if n % range == range - 1 {
            0
        } else {
            n % range + 1
        },
        (n - 1) % range == if n % range == 0 {
            range - 1
        } else {
            n % range - 1
        },
{
    let q = n / range;
    let r = n % range;
    vstd::arithmetic::div_mod::lemma_fundamental_div_mod(n, range);
    assert(0 <= r < range) by (nonlinear_arith)
        requires
            range > 1,
            r == n % range,
    ;
    assert((q + 1) * range == range * q + range) by (nonlinear_arith);
    assert((q - 1) * range == range * q - range) by (nonlinear_arith);
    assert(q * range == range * q) by (nonlinear_arith);
    if r == range - 1 {
        vstd::arithmetic::div_mod::lemma_fundamental_div_mod_converse(n + 1, range, q + 1, 0);
    } else {
        vstd::arithmetic::div_mod::lemma_fundamental_div_mod_converse(n + 1, range, q, r + 1);
    }
    if r == 0 {
        vstd::arithmetic::div_mod::lemma_fundamental_div_mod_converse(
            n - 1,
            range,
            q - 1,
            range - 1,
        );
    } else {
        vstd::arithmetic::div_mod::lemma_fundamental_div_mod_converse(n - 1, range, q, r - 1);
    }
}

// What a request, a table and a step are read as.

/// The figures of a request are those of its fields.
pub proof fn law_request_is_read_as_it_is(r: GooseRequest)
    ensures
        r@.min_response_time == r.min_response_time,
        r@.max_response_time == r.max_response_time,
        r@.total_response_time == r.total_response_time,
        r@.response_time_counter == r.response_time_counter,
        r@.success_count == r.success_count,
        r@.fail_count == r.fail_count,
        r@.load_test_hash == r.load_test_hash,
        r@.response_times.dom() == r.response_times@.dom(),
        r@.status_code_counts.dom() == r.status_code_counts@.dom(),
        forall|t: usize| #[trigger]
            r.response_times@.contains_key(t) ==> r@.response_times[t] == r.response_times@[t],
        forall|c: u16| #[trigger]
            r.status_code_counts@.contains_key(c) ==> r@.status_code_counts[c]
                == r.status_code_counts@[c],
{
    assert(r@.response_times.dom() =~= r.response_times@.dom());
    assert(r@.status_code_counts.dom() =~= r.status_code_counts@.dom());
}

/// A step keeps its kind, its reason and its number.
pub proof fn law_number_of_a_step(
    step: Step<Option<u64>>,
    n: u64,
    stop: StopReason,
    abort: AbortReason,
)
    ensures
        step.number() == Step::Go(Some(n as nat)) <==> step == Step::Go(Some(n)),
        step.number() == Step::<Option<nat>>::Go(None) <==> step == Step::<Option<u64>>::Go(None),
        step.number() == Step::<Option<nat>>::Stop(stop) <==> step == Step::<Option<u64>>::Stop(
            stop,
        ),
        step.number() == Step::<Option<nat>>::Abort(abort) <==> step == Step::<Option<u64>>::Abort(
            abort,
        ),
{
}

/// A step keeps its kind, its reason and its reply.
pub proof fn law_reply_of_a_step(
    step: Step<Reply>,
    command: GooseUserCommand,
    users: Seq<GooseUserInitializer>,
    stop: StopReason,
    abort: AbortReason,
)
    ensures
        step.reply() == Step::Go(ReplyView::Command(command)) <==> step == Step::Go(
            Reply::Command(command),
        ),
        step.reply() == Step::Go(ReplyView::Users(users)) <==> step is Go && step->Go_0 is Users
            && step->Go_0->Users_0@ == users,
        step.reply() == Step::<ReplyView>::Stop(stop) <==> step == Step::<Reply>::Stop(stop),
        step.reply() == Step::<ReplyView>::Abort(abort) <==> step == Step::<Reply>::Abort(abort),
{
}

// What timers do.

/// The seconds between two points in time are the whole ones that fit between them.
pub proof fn law_whole_seconds(started: nat, now: nat)
    ensures
        started <= now ==> started + seconds_between(started, now) * 1_000_000_000 <= now < started
            + (seconds_between(started, now) + 1) * 1_000_000_000,
        now < started ==> seconds_between(started, now) == 0,
{
}

/// A timer runs out when its seconds have passed, not before and not later; one set to 0 never
/// does.
pub proof fn law_timer(started: nat, run_time: nat, now: nat)
    ensures
        expired(started, run_time, now) <==> run_time > 0 && now >= started + run_time
            * 1_000_000_000,
{
    law_whole_seconds(started, now);
}

// What merging does.

/// The shorter of two fastest times is one of them, is no longer than any that is known, and is
/// unknown only where both are.
pub proof fn law_fastest(a: nat, b: nat)
    ensures
        fastest(a, b) == a || fastest(a, b) == b,
        a > 0 ==> 0 < fastest(a, b) <= a,
        b > 0 ==> 0 < fastest(a, b) <= b,
{
}

/// The longer of two slowest times is one of them, and no shorter than either.
pub proof fn law_slowest(a: nat, b: nat)
    ensures
        slowest(a, b) == a || slowest(a, b) == b,
        slowest(a, b) >= a,
        slowest(a, b) >= b,
{
}

/// Merged counters have the keys of both sides, with the sum where both have a key and what is
/// there where one has.
pub proof fn law_merged_counters<K>(a: Map<K, nat>, b: Map<K, nat>, k: K)
    ensures
        merge_counts(a, b).contains_key(k) <==> a.contains_key(k) || b.contains_key(k),
        a.contains_key(k) && b.contains_key(k) ==> merge_counts(a, b)[k] == a[k] + b[k],
        a.contains_key(k) && !b.contains_key(k) ==> merge_counts(a, b)[k] == a[k],
        !a.contains_key(k) && b.contains_key(k) ==> merge_counts(a, b)[k] == b[k],
{
}

/// The counters of a map are its entries.
pub proof fn law_counters<K>(m: Map<K, usize>, k: K)
    ensures
        counts(m).contains_key(k) <==> m.contains_key(k),
        m.contains_key(k) ==> counts(m)[k] == m[k],
{
}

/// Counters fit if and only if the merged counters are all in the range of a `usize`.
pub proof fn law_counters_fit<K>(a: Map<K, usize>, b: Map<K, usize>)
    ensures
        counts_fit(counts(a), counts(b)) <==> forall|k: K| #[trigger]
            merge_counts(counts(a), counts(b)).contains_key(k) ==> merge_counts(
                counts(a),
                counts(b),
            )[k] <= usize::MAX,
{
    let merged = merge_counts(counts(a), counts(b));
    if forall|k: K| #[trigger] merged.contains_key(k) ==> merged[k] <= usize::MAX {
        assert forall|k: K|
            counts(a).contains_key(k) && #[trigger] counts(b).contains_key(k) implies counts(a)[k]
            + counts(b)[k] <= usize::MAX by {
            assert(merged.contains_key(k));
        }
    }
    if counts_fit(counts(a), counts(b)) {
        assert forall|k: K| #[trigger] merged.contains_key(k) implies merged[k] <= usize::MAX by {
            if counts(b).contains_key(k) && counts(a).contains_key(k) {
                assert(counts(a)[k] + counts(b)[k] <= usize::MAX);
            }
        }
    }
}

/// A report is added to what is known of a request, figure by figure; the request stays in its load
/// test; and where status codes do not count, its status codes stay as they are.
pub proof fn law_merged_request(
    parent: RequestView,
    user: RequestView,
    status_codes: bool,
    t: usize,
    c: u16,
)
    ensures
        ({
            let r = merged_request(parent, user, status_codes);
            let (p, u) = (parent.response_times, user.response_times);
            let (q, v) = (parent.status_code_counts, user.status_code_counts);
            &&& r.success_count == parent.success_count + user.success_count
            &&& r.fail_count == parent.fail_count + user.fail_count
            &&& r.total_response_time == parent.total_response_time + user.total_response_time
            &&& r.response_time_counter == parent.response_time_counter
                + user.response_time_counter
            &&& r.load_test_hash == parent.load_test_hash
            &&& r.max_response_time == parent.max_response_time || r.max_response_time
                == user.max_response_time
            &&& r.max_response_time >= parent.max_response_time
            &&& r.max_response_time >= user.max_response_time
            &&& r.min_response_time == parent.min_response_time || r.min_response_time
                == user.min_response_time
            &&& parent.min_response_time > 0 ==> 0 < r.min_response_time
                <= parent.min_response_time
            &&& user.min_response_time > 0 ==> 0 < r.min_response_time <= user.min_response_time
            &&& r.response_times.contains_key(t) <==> p.contains_key(t) || u.contains_key(t)
            &&& p.contains_key(t) && u.contains_key(t) ==> r.response_times[t] == p[t] + u[t]
            &&& p.contains_key(t) && !u.contains_key(t) ==> r.response_times[t] == p[t]
            &&& !p.contains_key(t) && u.contains_key(t) ==> r.response_times[t] == u[t]
            &&& !status_codes ==> r.status_code_counts == q
            &&& status_codes ==> {
                &&& r.status_code_counts.contains_key(c) <==> q.contains_key(c) || v.contains_key(
                    c,
                )
                &&& q.contains_key(c) && v.contains_key(c) ==> r.status_code_counts[c] == q[c]
                    + v[c]
                &&& q.contains_key(c) && !v.contains_key(c) ==> r.status_code_counts[c] == q[c]
                &&& !q.contains_key(c) && v.contains_key(c) ==> r.status_code_counts[c] == v[c]
            }
        }),
{
}

/// A report on a request fits if and only if every counter that merging gives is in the range of a
/// `usize`.
pub proof fn law_request_fits(parent: GooseRequest, user: GooseRequest, status_codes: bool)
    ensures
        request_fits(parent@, user@, status_codes) <==> {
            let r = merged_request(parent@, user@, status_codes);
            &&& r.success_count <= usize::MAX
            &&& r.fail_count <= usize::MAX
            &&& r.total_response_time <= usize::MAX
            &&& r.response_time_counter <= usize::MAX
            &&& forall|t: usize| #[trigger]
                r.response_times.contains_key(t) ==> r.response_times[t] <= usize::MAX
            &&& forall|c: u16| #[trigger]
                r.status_code_counts.contains_key(c) ==> r.status_code_counts[c] <= usize::MAX
        },
{
    let r = merged_request(parent@, user@, status_codes);
    law_counters_fit(parent.response_times@, user.response_times@);
    law_counters_fit(parent.status_code_counts@, user.status_code_counts@);
    assert(r.response_times == merge_counts(
        counts(parent.response_times@),
        counts(user.response_times@),
    ));
    if status_codes {
        assert(r.status_code_counts == merge_counts(
            counts(parent.status_code_counts@),
            counts(user.status_code_counts@),
        ));
    } else {
        assert(r.status_code_counts == counts(parent.status_code_counts@));
    }
}

/// A report is merged name by name: what is new is taken over, what is known and reported on is
/// merged, and what is not reported on stays.
pub proof fn law_merged_table(
    merged: Map<Seq<char>, RequestView>,
    requests: Map<Seq<char>, RequestView>,
    status_codes: bool,
    name: Seq<char>,
)
    ensures
        ({
            let t = merged_table(merged, requests, status_codes);
            &&& t.contains_key(name) <==> merged.contains_key(name) || requests.contains_key(name)
            &&& merged.contains_key(name) && requests.contains_key(name) ==> t[name]
                == merged_request(merged[name], requests[name], status_codes)
            &&& merged.contains_key(name) && !requests.contains_key(name) ==> t[name]
                == merged[name]
            &&& !merged.contains_key(name) && requests.contains_key(name) ==> t[name]
                == requests[name]
        }),
{
}

/// A report fits if and only if it fits for each request that it shares with what is known.
pub proof fn law_table_fits(
    merged: Map<Seq<char>, RequestView>,
    requests: Map<Seq<char>, RequestView>,
    status_codes: bool,
)
    ensures
        table_fits(merged, requests, status_codes) <==> forall|name: Seq<char>|
            #![trigger merged.contains_key(name)]
            #![trigger requests.contains_key(name)]
            merged.contains_key(name) && requests.contains_key(name) ==> request_fits(
                merged[name],
                requests[name],
                status_codes,
            ),
{
}

// What the manager does.

/// What holds in a valid state, and all that does: some worker is expected, no more have joined, the
/// load test runs only with all of them and is over only after it ran, and the available users are
/// those that are left at the front of the list.
pub proof fn law_valid_states(s: ManagerState)
    ensures
        s.valid() <==> {
            let expected = s.config.expect_workers as nat;
            let joined = s.workers.len();
            let share = if expected > 0 {
                joined * (s.users / expected) + if joined < s.users % expected {
                    joined
                } else {
                    s.users % expected
                }
            } else {
                0
            };
            &&& expected > 0
            &&& s.workers.finite()
            &&& joined <= expected
            &&& s.running ==> joined == expected
            &&& s.finished ==> s.running
            &&& s.available_users.len() + share == s.weighted_users.len()
            &&& forall|i: int|
                0 <= i < s.available_users.len() ==> #[trigger] s.available_users[i]
                    == s.weighted_users[i]
        },
{
    let expected = s.config.expect_workers as nat;
    let joined = s.workers.len();
    if expected > 0 && joined <= expected {
        law_share_of_the_first_workers(s.users, expected, joined);
        let handed = handed_out(s.users, expected, joined);
        if s.available_users.len() + handed == s.weighted_users.len() && (forall|i: int|
            0 <= i < s.available_users.len() ==> #[trigger] s.available_users[i]
                == s.weighted_users[i]) {
            assert(s.available_users =~= s.weighted_users.take(s.weighted_users.len() - handed));
        }
    }
}

/// A manager with nobody joined, nothing started and all users available is in a valid state, and
/// is where every course begins.
pub proof fn law_beginning(s: ManagerState)
    requires
        s.config.expect_workers > 0,
        s.workers == Set::<u64>::empty(),
        !s.running,
        !s.finished,
        s.available_users == s.weighted_users,
    ensures
        s.initial(),
        s.valid(),
{
    law_initial_state_is_valid(s);
}

/// When a look ends the load test: only while it runs, and then exactly when one of the workers
/// that joined is gone, its run time is over, or it was canceled. The shutdown counts from there.
/// Nothing else changes but the time of the last display.
pub proof fn law_look_ends_the_load_test(
    s: ManagerState,
    active_workers: nat,
    canceled: bool,
    now: nat,
)
    ensures
        ({
            let t = s.supervised(active_workers, canceled, now);
            let lost = active_workers < s.workers.len();
            let over = s.run_time > 0 && now >= s.started + s.run_time * 1_000_000_000;
            &&& t.finished <==> s.finished || (s.running && (lost || over || canceled))
            &&& s.finished || !t.finished ==> t.exit_timer == s.exit_timer
            &&& !s.finished && t.finished ==> t.exit_timer == now
            &&& t.config == s.config
            &&& t.users == s.users
            &&& t.run_time == s.run_time
            &&& t.task_sets_hash == s.task_sets_hash
            &&& t.weighted_users == s.weighted_users
            &&& t.available_users == s.available_users
            &&& t.workers == s.workers
            &&& t.running == s.running
            &&& t.started == s.started
            &&& t.merged_requests == s.merged_requests
        }),
{
    law_timer(s.started, s.run_time, now);
}

/// A load test is not ended early.
pub proof fn law_load_test_is_not_ended_early(
    s: ManagerState,
    active_workers: nat,
    canceled: bool,
    now: nat,
)
    requires
        !s.finished,
        !canceled,
        active_workers >= s.workers.len(),
        s.run_time == 0 || now < s.started + s.run_time * 1_000_000_000,
    ensures
        !s.supervised(active_workers, canceled, now).finished,
{
    law_timer(s.started, s.run_time, now);
}

/// How the manager goes on after a look. Before the load test it stops if a worker is gone, and
/// otherwise aborts if it was canceled. Afterwards it stops if half a minute has passed since the
/// end of the load test. Else it goes on, and displays statistics exactly if the load test has
/// started, they are wanted, and a quarter of a minute has passed since they were displayed last.
pub proof fn law_look(s: ManagerState, active_workers: nat, canceled: bool, now: nat)
    ensures
        ({
            let step = s.supervision(active_workers, canceled, now);
            let t = s.supervised(active_workers, canceled, now);
            let lost = !s.running && !s.finished && active_workers < s.workers.len();
            let timeout = s.running && t.finished && now >= t.exit_timer + 30_000_000_000;
            let display = s.running && !timeout && !s.config.only_summary && now
                >= s.statistics_timer + 15_000_000_000;
            &&& step == Step::<Option<nat>>::Stop(StopReason::WorkerLost) <==> lost
            &&& step == Step::<Option<nat>>::Abort(AbortReason::Canceled) <==> !s.running && !lost
                && canceled
            &&& step == Step::<Option<nat>>::Stop(StopReason::ShutdownTimeout) <==> timeout
            &&& step is Stop <==> lost || timeout
            &&& step is Abort <==> !s.running && !lost && canceled
            &&& step is Go && step->Go_0 is Some <==> display
            &&& display && s.started <= now ==> {
                let seconds = step->Go_0->0;
                s.started + seconds * 1_000_000_000 <= now < s.started + (seconds + 1)
                    * 1_000_000_000
            }
            &&& display && now < s.started ==> step->Go_0->0 == 0
            &&& display ==> t.statistics_timer == now
            &&& !display ==> t.statistics_timer == s.statistics_timer
        }),
{
    let t = s.noted(active_workers, canceled, now);
    law_timer(s.started, s.run_time, now);
    law_timer(t.exit_timer, 30, now);
    law_timer(s.statistics_timer, 15, now);
    law_whole_seconds(s.started, now);
}

/// The batch of a worker is the least number with which the workers up to it, each with as many,
/// leave no more than the workers after it can share.
proof fn lemma_batch_bounds(users: nat, workers: nat, k: nat)
    requires
        k < workers,
    ensures
        users <= batch_size(users, workers, k) * workers + k < users + workers,
{
    let q = users / workers;
    let r = users % workers;
    vstd::arithmetic::div_mod::lemma_fundamental_div_mod(users as int, workers as int);
    assert(r < workers) by (nonlinear_arith)
        requires
            workers > 0,
            r == users % workers,
    ;
    assert((q + 1) * workers == workers * q + workers) by (nonlinear_arith);
    assert(q * workers == workers * q) by (nonlinear_arith);
}

/// How many users a worker gets is fixed by how many are to be shared, by how many workers share
/// them, and by how many joined before it.
pub proof fn law_batch_size(users: nat, workers: nat, k: nat, batch: nat)
    requires
        k < workers,
    ensures
        batch == batch_size(users, workers, k) <==> users <= batch * workers + k < users + workers,
        batch < batch_size(users, workers, k) <==> batch * workers + k < users,
{
    let b = batch_size(users, workers, k);
    lemma_batch_bounds(users, workers, k);
    if batch < b {
        assert(batch * workers + workers <= b * workers) by (nonlinear_arith)
            requires
                batch + 1 <= b,
        ;
    } else {
        assert(batch * workers >= b * workers) by (nonlinear_arith)
            requires
                batch >= b,
        ;
        if batch > b {
            assert(batch * workers >= b * workers + workers) by (nonlinear_arith)
                requires
                    batch >= b + 1,
            ;
        }
    }
}

/// How a message is answered. Whoever has joined waits while some have not, then runs until the load
/// test is over, and exits then. Whoever has not joined is told to exit if all have. Else it is
/// refused if it does not report the hash of this load test and hashes are checked; then if there
/// are not users enough for it; and otherwise it gets users.
pub proof fn law_answer(s: ManagerState, worker: u64, requests: Map<Seq<char>, RequestView>)
    ensures
        ({
            let answer = s.answer(worker, requests);
            let expected = s.config.expect_workers as nat;
            let joined = s.workers.len();
            let known = s.workers.contains(worker);
            let needed = !known && joined < expected;
            let same_hash = requests.contains_key("load_test_hash"@)
                && requests["load_test_hash"@].load_test_hash == s.task_sets_hash;
            let accepted = needed && (same_hash || s.config.no_hash_check);
            let too_few = s.available_users.len() * expected + joined < s.users;
            &&& answer == Step::Go(ReplyView::Command(GooseUserCommand::WAIT)) <==> known && joined
                != expected
            &&& answer == Step::Go(ReplyView::Command(GooseUserCommand::RUN)) <==> known && joined
                == expected && !s.finished
            &&& answer == Step::Go(ReplyView::Command(GooseUserCommand::EXIT)) <==> (known && joined
                == expected && s.finished) || (!known && joined >= expected)
            &&& answer == Step::<ReplyView>::Abort(AbortReason::DifferentLoadTest) <==> needed
                && !same_hash && !s.config.no_hash_check
            &&& answer == Step::<ReplyView>::Abort(AbortReason::NotEnoughUsers) <==> accepted
                && too_few
            &&& answer is Go && answer->Go_0 is Users <==> accepted && !too_few
            &&& answer !is Stop
        }),
{
    let expected = s.config.expect_workers as nat;
    let joined = s.workers.len();
    if joined < expected {
        law_batch_size(s.users, expected, joined, s.available_users.len());
    }
}

/// What a worker has to report to be given users where hashes are checked.
pub proof fn law_hash_check(s: ManagerState, worker: u64, requests: Map<Seq<char>, RequestView>)
    requires
        !s.workers.contains(worker),
        s.workers.len() < s.config.expect_workers,
        !s.config.no_hash_check,
    ensures
        s.same_load_test(requests) <==> requests.contains_key("load_test_hash"@)
            && requests["load_test_hash"@].load_test_hash == s.task_sets_hash,
        !(requests.contains_key("load_test_hash"@) && requests["load_test_hash"@].load_test_hash
            == s.task_sets_hash) ==> s.answer(worker, requests) == Step::<ReplyView>::Abort(
            AbortReason::DifferentLoadTest,
        ) && s.answered(worker, requests) == s,
{
}

/// Whether a worker runs this load test is whether it reports the hash of this load test.
pub proof fn law_same_load_test(s: ManagerState, requests: Map<Seq<char>, RequestView>)
    ensures
        s.same_load_test(requests) <==> requests.contains_key("load_test_hash"@)
            && requests["load_test_hash"@].load_test_hash == s.task_sets_hash,
{
}

/// Once all workers have joined, whatever one of them reports is merged, whatever the settings and
/// whether or not the load test is over; and nothing else changes.
pub proof fn law_every_report_is_merged(
    s: ManagerState,
    worker: u64,
    requests: Map<Seq<char>, RequestView>,
)
    requires
        s.workers.contains(worker),
        s.workers.len() == s.config.expect_workers,
    ensures
        s.answered(worker, requests) == (ManagerState {
            merged_requests: merged_table(s.merged_requests, requests, s.config.status_codes),
            ..s
        }),
{
}

/// Whatever else is sent leaves all as it was, unless a worker joins by it.
pub proof fn law_nothing_else_is_merged(
    s: ManagerState,
    worker: u64,
    requests: Map<Seq<char>, RequestView>,
)
    requires
        !s.workers.contains(worker) || s.workers.len() != s.config.expect_workers,
        !(s.answer(worker, requests) is Go && s.answer(worker, requests)->Go_0 is Users),
    ensures
        s.answered(worker, requests) == s,
{
}

/// A report has to fit exactly where it is merged.
pub proof fn law_which_reports_have_to_fit(
    s: ManagerState,
    worker: u64,
    requests: Map<Seq<char>, RequestView>,
)
    ensures
        s.fits(worker, requests) <==> !s.workers.contains(worker) || s.workers.len()
            != s.config.expect_workers || table_fits(
            s.merged_requests,
            requests,
            s.config.status_codes,
        ),
{
}

/// A worker that joins gets users one by one from the end of those available, each with all that is
/// to be known of the user and with the place of the worker among those that joined; they are no
/// longer available then, and nothing else changes.
pub proof fn law_joining_worker_gets_its_users(
    s: ManagerState,
    worker: u64,
    requests: Map<Seq<char>, RequestView>,
)
    requires
        s.valid(),
        s.answer(worker, requests) is Go,
        s.answer(worker, requests)->Go_0 is Users,
    ensures
        ({
            let users = s.answer(worker, requests)->Go_0->Users_0;
            let t = s.answered(worker, requests);
            let expected = s.config.expect_workers as nat;
            let joined = s.workers.len();
            let left = s.available_users.len();
            let handed = handed_out(s.users, expected, joined);
            &&& s.users <= users.len() * expected + joined < s.users + expected
            &&& users.len() <= left
            &&& left == s.weighted_users.len() - handed
            &&& forall|i: int|
                0 <= i < users.len() ==> {
                    let user = s.weighted_users[s.weighted_users.len() - 1 - handed - i];
                    &&& user == s.available_users[left - 1 - i]
                    &&& (#[trigger] users[i]).task_sets_index == user.task_sets_index
                    &&& users[i].base_url == user.base_url
                    &&& users[i].min_wait == user.min_wait
                    &&& users[i].max_wait == user.max_wait
                    &&& users[i].config == user.config
                    &&& users[i].worker_id == joined + 1
                }
            &&& t == (ManagerState {
                workers: s.workers.insert(worker),
                available_users: s.available_users.take(left - users.len()),
                ..s
            })
        }),
{
    let expected = s.config.expect_workers as nat;
    let joined = s.workers.len();
    lemma_batch_bounds(s.users, expected, joined);
}

/// What is made of users that are taken: one initializer each, from the last one on, with all that
/// is to be known of the user.
pub proof fn law_users_are_handed_over_whole(
    available: Seq<GooseUser>,
    batch: nat,
    worker_id: usize,
    i: int,
)
    requires
        0 <= i < batch <= available.len(),
    ensures
        initializers(available, batch, worker_id).len() == batch,
        ({
            let user = available[available.len() - 1 - i];
            let made = initializers(available, batch, worker_id)[i];
            &&& made.task_sets_index == user.task_sets_index
            &&& made.base_url == user.base_url
            &&& made.min_wait == user.min_wait
            &&& made.max_wait == user.max_wait
            &&& made.config == user.config
            &&& made.worker_id == worker_id
        }),
{
}

/// How the manager goes on after it has tried to send, and that the load test starts then exactly if
/// it goes on, users were sent, and all workers have joined: its clock and the time of the last
/// display are set, and nothing else changes.
pub proof fn law_delivery(
    s: ManagerState,
    reply: ReplyView,
    sent: Result<(), TransportError>,
    active_workers: nat,
    now: nat,
)
    ensures
        ({
            let step = s.delivery(sent, active_workers);
            let t = s.delivered(reply, sent, active_workers, now);
            let again = sent == Err::<(), TransportError>(TransportError::TryAgain);
            let goes_on = sent is Ok || (again && active_workers > 0);
            let starts = goes_on && reply is Users && s.workers.len() == s.config.expect_workers;
            &&& step == Step::Go(()) <==> goes_on
            &&& step == Step::<()>::Stop(StopReason::AllWorkersExited) <==> again && active_workers
                == 0
            &&& step == Step::<()>::Abort(AbortReason::SendFailed) <==> sent == Err::<
                (),
                TransportError,
            >(TransportError::Other)
            &&& starts ==> t == (ManagerState {
                running: true,
                started: now,
                statistics_timer: now,
                ..s
            })
            &&& !starts ==> t == s
        }),
{
}

/// Without a message the manager stops for want of workers only if some have joined and none is
/// connected; as long as one is, it goes on, without sleep once the load test is over and with half
/// a second of it before; and it aborts on any other failure.
pub proof fn law_silence(s: ManagerState, active_workers: nat)
    ensures
        ({
            let step = s.silence(TransportError::TryAgain, active_workers);
            &&& step is Stop <==> s.workers.len() > 0 && active_workers == 0
            &&& step == Step::<Option<nat>>::Stop(StopReason::AllWorkersExited) <==> s.workers.len()
                > 0 && active_workers == 0
            &&& active_workers > 0 || s.workers.len() == 0 ==> step is Go
            &&& step is Go && s.finished ==> step->Go_0 is None
            &&& step is Go && !s.finished ==> step->Go_0 == Some(500nat)
            &&& step !is Abort
        }),
        s.silence(TransportError::Other, active_workers) == Step::<Option<nat>>::Abort(
            AbortReason::ReceiveFailed,
        ),
{
}

// What the address is.

/// The number that a text of decimal digits stands for.
pub open spec fn number(text: Seq<char>) -> int
    decreases text.len(),
{
    if text.len() == 0 {
        0
    } else {
        number(text.drop_last()) * 10 + (text.last() as int - '0' as int)
    }
}

/// A number in decimal is made of digits, stands for the number, and has no leading zero.
pub proof fn law_decimal(n: nat)
    ensures
        number(decimal(n)) == n,
        decimal(n).len() > 0,
        forall|i: int| 0 <= i < decimal(n).len() ==> '0' <= #[trigger] decimal(n)[i] <= '9',
        decimal(n).len() > 1 ==> decimal(n)[0] != '0',
    decreases n,
{
    let text = decimal(n);
    if n < 10 {
        assert(text.drop_last() =~= Seq::<char>::empty());
        assert(number(text.drop_last()) == 0);
        assert(text.last() as int == '0' as int + n);
    } else {
        law_decimal(n / 10);
        assert(text.drop_last() =~= decimal(n / 10));
        assert(text.last() as int == '0' as int + n % 10);
        assert(number(text) == number(text.drop_last()) * 10 + n % 10);
        if decimal(n / 10).len() == 1 {
            assert(number(decimal(n / 10).drop_last()) == 0);
        }
    }
}

/// The address is made of the scheme, the host, a colon and the port.
pub proof fn law_address(host: Seq<char>, port: nat)
    ensures
        tcp_address(host, port) == seq!['t', 'c', 'p', ':', '/', '/'] + host + seq![':'] + decimal(
            port,
        ),
{
    reveal_strlit("tcp://");
    reveal_strlit(":");
    assert("tcp://"@ =~= seq!['t', 'c', 'p', ':', '/', '/']);
    assert(":"@ =~= seq![':']);
}

} // verus!
