use gaggle::configuration::GooseConfiguration;
use gaggle::goose::GooseAttack;
use gaggle::goose::GooseRequest;
use gaggle::goose::GooseUser;
use gaggle::goose::GooseUserCommand;
use gaggle::manager::GooseUserInitializer;
use gaggle::manager::Manager;
use gaggle::manager::PipeEvent;
use gaggle::manager::distribute_users;
use gaggle::manager::pipe_closed;
use gaggle::model::AbortReason;
use gaggle::model::Reply;
use gaggle::model::Step;
use gaggle::model::StopReason;
use gaggle::model::TransportError;
use gaggle::requests::RequestTable;
use gaggle::util::elapsed_seconds;
use gaggle::util::timer_expired;

const SECOND: u64 = 1_000_000_000;
const HASH: u64 = 42;

fn attack(users: usize, workers: u16, run_time: usize) -> GooseAttack {
    let mut config = GooseConfiguration::default();
    config.expect_workers = workers;
    config.manager_bind_host = "0.0.0.0".to_string();
    let mut attack = GooseAttack::initialize_with_config(config.clone());
    attack.users = users;
    attack.run_time = run_time;
    attack.task_sets_hash = HASH;
    for i in 0..users {
        attack.weighted_users.push(GooseUser {
            task_sets_index: i,
            base_url: format!("http://host/{}", i),
            min_wait: i + 1,
            max_wait: i + 2,
            config: config.clone(),
        });
    }
    attack
}

fn hello(hash: u64) -> RequestTable {
    let mut request = GooseRequest::default();
    request.load_test_hash = hash;
    let mut table = RequestTable::new();
    table.insert("load_test_hash".to_string(), request);
    table
}

fn statistics(successes: usize) -> RequestTable {
    let mut request = GooseRequest::default();
    request.success_count = successes;
    let mut table = RequestTable::new();
    table.insert("GET /".to_string(), request);
    table
}

fn users_of(step: &Step<Reply>) -> &Vec<GooseUserInitializer> {
    match step {
        Step::Go(Reply::Users(users)) => users,
        other => panic!("expected users, got {:?}", other),
    }
}

fn command_of(step: &Step<Reply>) -> GooseUserCommand {
    match step {
        Step::Go(Reply::Command(command)) => *command,
        other => panic!("expected a command, got {:?}", other),
    }
}

/// Lets a worker join and its users be sent.
fn join(manager: &mut Manager, worker: u64, now: u64) -> Vec<GooseUserInitializer> {
    let step = manager.answer(worker, &hello(HASH));
    let users = users_of(&step).clone();
    let reply = Reply::Users(users.clone());
    let active = manager.worker_count();
    assert!(matches!(manager.deliver(&reply, Ok(()), active, now), Step::Go(())));
    users
}

/// A manager whose load test has started at `now`.
fn running(workers: u16, run_time: usize, now: u64) -> Manager {
    let mut manager = Manager::new(attack(workers as usize, workers, run_time), 0);
    for worker in 0..workers {
        assert!(!manager.is_running());
        join(&mut manager, worker as u64, now);
    }
    assert!(manager.is_running());
    manager
}

#[test]
fn test_distribute_users() {
    let config = GooseConfiguration::default();
    let mut goose_attack = GooseAttack::initialize_with_config(config);

    goose_attack.users = 10;
    goose_attack.configuration.expect_workers = 2;
    let (users_per_process, users_remainder) = distribute_users(&goose_attack);
    assert_eq!(users_per_process, 5);
    assert_eq!(users_remainder, 0);

    goose_attack.users = 1;
    goose_attack.configuration.expect_workers = 1;
    let (users_per_process, users_remainder) = distribute_users(&goose_attack);
    assert_eq!(users_per_process, 1);
    assert_eq!(users_remainder, 0);

    goose_attack.users = 100;
    goose_attack.configuration.expect_workers = 21;
    let (users_per_process, users_remainder) = distribute_users(&goose_attack);
    assert_eq!(users_per_process, 4);
    assert_eq!(users_remainder, 16);
}

#[test]
fn every_user_goes_to_one_worker() {
    let mut manager = Manager::new(attack(11, 3, 0), 0);
    let mut seen = Vec::new();
    for (worker, batch) in [(30, 4), (10, 4), (20, 3)] {
        let users = join(&mut manager, worker, 5);
        assert_eq!(users.len(), batch);
        for user in &users {
            assert_eq!(user.worker_id, manager.worker_count());
            assert_eq!(user.base_url, format!("http://host/{}", user.task_sets_index));
            assert_eq!(user.min_wait, user.task_sets_index + 1);
            assert_eq!(user.max_wait, user.task_sets_index + 2);
            assert_eq!(user.config.manager_bind_host, "0.0.0.0");
            assert_eq!(user.config.expect_workers, 3);
            seen.push(user.task_sets_index);
        }
    }
    assert_eq!(seen, vec![10, 9, 8, 7, 6, 5, 4, 3, 2, 1, 0]);
    assert_eq!(manager.worker_count(), 3);
    // The list of users itself stays as it is.
    assert_eq!(manager.goose_attack().weighted_users.len(), 11);
}

#[test]
fn course_of_a_load_test() {
    let mut manager = Manager::new(attack(3, 2, 60), 0);
    assert!(matches!(manager.supervise(0, false, SECOND), Step::Go(None)));

    // The first worker joins and waits for the second.
    assert_eq!(join(&mut manager, 1, SECOND).len(), 2);
    assert!(!manager.is_running());
    assert_eq!(command_of(&manager.answer(1, &statistics(9))), GooseUserCommand::WAIT);
    assert_eq!(manager.goose_attack().merged_requests.len(), 0);

    // The second worker joins and the load test starts.
    assert_eq!(join(&mut manager, 2, 10 * SECOND).len(), 1);
    assert!(manager.is_running());
    assert!(!manager.is_finished());

    // A surplus worker is sent away, whatever it runs.
    assert_eq!(command_of(&manager.answer(3, &hello(HASH + 1))), GooseUserCommand::EXIT);
    assert_eq!(manager.worker_count(), 2);

    // What the workers report is merged.
    assert_eq!(command_of(&manager.answer(1, &statistics(5))), GooseUserCommand::RUN);
    assert_eq!(command_of(&manager.answer(2, &statistics(6))), GooseUserCommand::RUN);
    assert_eq!(command_of(&manager.answer(2, &RequestTable::new())), GooseUserCommand::RUN);
    let name = "GET /".to_string();
    assert_eq!(manager.goose_attack().merged_requests.get(&name).unwrap().success_count, 11);

    // The load test runs for a minute after it has started.
    assert!(matches!(manager.supervise(2, false, 70 * SECOND - 1), Step::Go(Some(59))));
    assert!(!manager.is_finished());
    assert!(matches!(manager.supervise(2, false, 70 * SECOND), Step::Go(None)));
    assert!(manager.is_finished());

    // The workers report once more and are told to exit.
    assert_eq!(command_of(&manager.answer(1, &statistics(1))), GooseUserCommand::EXIT);
    assert_eq!(command_of(&manager.answer(2, &statistics(1))), GooseUserCommand::EXIT);
    assert!(matches!(manager.receive_failed(TransportError::TryAgain, 1), Step::Go(None)));
    assert!(matches!(
        manager.receive_failed(TransportError::TryAgain, 0),
        Step::Stop(StopReason::AllWorkersExited)
    ));
    let attack = manager.into_goose_attack();
    assert_eq!(attack.merged_requests.get(&name).unwrap().success_count, 13);
    assert_eq!(attack.users, 3);
    assert_eq!(attack.task_sets_hash, HASH);
    assert_eq!(attack.run_time, 60);
}

#[test]
fn worker_lost_during_start_up() {
    let mut manager = Manager::new(attack(2, 2, 0), 0);
    join(&mut manager, 1, 0);
    assert!(matches!(manager.supervise(1, false, 1), Step::Go(None)));
    assert!(matches!(manager.supervise(0, true, 1), Step::Stop(StopReason::WorkerLost)));
    assert!(!manager.is_finished());
}

#[test]
fn worker_lost_during_the_load_test() {
    let mut manager = running(2, 0, 0);
    assert!(matches!(manager.supervise(2, false, SECOND), Step::Go(None)));
    assert!(!manager.is_finished());
    assert!(matches!(manager.supervise(1, false, 2 * SECOND), Step::Go(None)));
    assert!(manager.is_finished());
}

#[test]
fn canceled_before_the_load_test() {
    let mut manager = Manager::new(attack(2, 2, 0), 0);
    assert!(matches!(manager.supervise(0, true, 1), Step::Abort(AbortReason::Canceled)));
    assert!(!manager.is_finished());
}

#[test]
fn canceled_during_the_load_test() {
    let mut manager = running(1, 0, 0);
    assert!(matches!(manager.supervise(1, true, 1), Step::Go(None)));
    assert!(manager.is_finished());
}

#[test]
fn run_time_of_zero_never_ends() {
    let mut manager = running(1, 0, 0);
    assert!(matches!(manager.supervise(1, false, u64::MAX), Step::Go(Some(18_446_744_073))));
    assert!(!manager.is_finished());
}

#[test]
fn shutdown_is_bounded_and_graceful() {
    let mut manager = running(1, 0, 0);
    assert!(matches!(manager.supervise(1, true, SECOND), Step::Go(None)));
    // Nothing puts the shutdown off.
    assert!(matches!(manager.supervise(0, true, 2 * SECOND), Step::Go(None)));
    assert!(matches!(manager.supervise(1, false, 31 * SECOND - 1), Step::Go(Some(30))));
    assert!(matches!(
        manager.supervise(1, false, 31 * SECOND),
        Step::Stop(StopReason::ShutdownTimeout)
    ));
}

#[test]
fn running_statistics_every_fifteen_seconds() {
    let mut manager = running(1, 0, SECOND);
    assert!(matches!(manager.supervise(1, false, 16 * SECOND - 1), Step::Go(None)));
    assert!(matches!(manager.supervise(1, false, 17 * SECOND), Step::Go(Some(16))));
    assert!(matches!(manager.supervise(1, false, 32 * SECOND - 1), Step::Go(None)));
    assert!(matches!(manager.supervise(1, false, 32 * SECOND), Step::Go(Some(31))));
}

#[test]
fn load_test_is_over_from_the_first_round_that_finds_its_end() {
    let mut manager = Manager::new(attack(2, 2, 5), 0);
    join(&mut manager, 1, SECOND);
    // The run time counts from the start, which is set when the last worker joins.
    assert!(matches!(manager.supervise(1, false, 9 * SECOND), Step::Go(None)));
    assert!(!manager.is_finished());
    join(&mut manager, 2, 10 * SECOND);
    assert_eq!(manager.elapsed_seconds(14 * SECOND), 4);
    assert!(matches!(manager.supervise(2, false, 15 * SECOND - 1), Step::Go(None)));
    assert!(!manager.is_finished());
    assert!(matches!(manager.supervise(2, false, 15 * SECOND), Step::Go(None)));
    assert!(manager.is_finished());
    // A later reason to end does not count.
    assert!(matches!(manager.supervise(1, true, 20 * SECOND), Step::Go(None)));
    assert!(matches!(
        manager.supervise(1, true, 45 * SECOND),
        Step::Stop(StopReason::ShutdownTimeout)
    ));
}

#[test]
fn no_running_statistics_with_only_summary() {
    let mut attack = attack(1, 1, 0);
    attack.configuration.only_summary = true;
    let mut manager = Manager::new(attack, 0);
    join(&mut manager, 1, 0);
    assert!(matches!(manager.supervise(1, false, 100 * SECOND), Step::Go(None)));
}

#[test]
fn different_load_test() {
    let mut manager = Manager::new(attack(2, 2, 0), 0);
    assert!(matches!(
        manager.answer(1, &hello(HASH + 1)),
        Step::Abort(AbortReason::DifferentLoadTest)
    ));
    assert!(matches!(
        manager.answer(1, &RequestTable::new()),
        Step::Abort(AbortReason::DifferentLoadTest)
    ));
    assert_eq!(manager.worker_count(), 0);
    assert!(manager.runs_same_load_test(&hello(HASH)));
    assert!(!manager.runs_same_load_test(&hello(HASH + 1)));
    assert!(!manager.runs_same_load_test(&RequestTable::new()));

    let mut attack = attack(2, 2, 0);
    attack.configuration.no_hash_check = true;
    let mut manager = Manager::new(attack, 0);
    assert_eq!(users_of(&manager.answer(1, &hello(HASH + 1))).len(), 1);
    assert_eq!(users_of(&manager.answer(2, &RequestTable::new())).len(), 1);
}

#[test]
fn not_enough_users() {
    let mut attack = attack(5, 2, 0);
    attack.weighted_users.truncate(4);
    let mut manager = Manager::new(attack, 0);
    assert_eq!(join(&mut manager, 1, 0).len(), 3);
    assert!(matches!(
        manager.answer(2, &hello(HASH)),
        Step::Abort(AbortReason::NotEnoughUsers)
    ));
}

#[test]
fn sending_fails() {
    let mut manager = running(1, 0, 0);
    let reply = Reply::Command(GooseUserCommand::RUN);
    assert!(matches!(manager.deliver(&reply, Err(TransportError::TryAgain), 1, 0), Step::Go(())));
    assert!(matches!(
        manager.deliver(&reply, Err(TransportError::TryAgain), 0, 0),
        Step::Stop(StopReason::AllWorkersExited)
    ));
    assert!(matches!(
        manager.deliver(&reply, Err(TransportError::Other), 1, 0),
        Step::Abort(AbortReason::SendFailed)
    ));
}

#[test]
fn load_test_starts_even_if_the_last_send_is_to_be_tried_again() {
    let mut manager = Manager::new(attack(1, 1, 0), 0);
    let reply = match manager.answer(1, &hello(HASH)) {
        Step::Go(reply) => reply,
        other => panic!("expected a reply, got {:?}", other),
    };
    assert!(matches!(
        manager.deliver(&reply, Err(TransportError::TryAgain), 0, 7),
        Step::Stop(StopReason::AllWorkersExited)
    ));
    assert!(!manager.is_running());
    assert!(matches!(manager.deliver(&reply, Err(TransportError::TryAgain), 1, 7), Step::Go(())));
    assert!(manager.is_running());
}

#[test]
fn receiving_fails() {
    let mut manager = Manager::new(attack(2, 2, 0), 0);
    // Nobody has joined, so nobody can have left.
    assert!(matches!(manager.receive_failed(TransportError::TryAgain, 0), Step::Go(Some(500))));
    join(&mut manager, 1, 0);
    assert!(matches!(manager.receive_failed(TransportError::TryAgain, 1), Step::Go(Some(500))));
    assert!(matches!(
        manager.receive_failed(TransportError::TryAgain, 0),
        Step::Stop(StopReason::AllWorkersExited)
    ));
    assert!(matches!(
        manager.receive_failed(TransportError::Other, 1),
        Step::Abort(AbortReason::ReceiveFailed)
    ));
}

#[test]
fn message_that_would_overflow_is_found() {
    let mut manager = running(1, 0, 0);
    assert!(manager.message_fits(0, &statistics(usize::MAX)));
    manager.answer(0, &statistics(1));
    assert!(manager.message_fits(0, &statistics(usize::MAX - 1)));
    assert!(!manager.message_fits(0, &statistics(usize::MAX)));
    // What a surplus worker reports is not merged.
    assert!(manager.message_fits(9, &statistics(usize::MAX)));
}

#[test]
fn connections_are_counted() {
    assert_eq!(pipe_closed(0, PipeEvent::AddPre), 0);
    assert_eq!(pipe_closed(0, PipeEvent::AddPost), 1);
    assert_eq!(pipe_closed(1, PipeEvent::RemovePost), 0);
    assert_eq!(pipe_closed(1, PipeEvent::Unknown), 1);
    assert_eq!(pipe_closed(0, PipeEvent::RemovePost), usize::MAX);
    assert_eq!(pipe_closed(usize::MAX, PipeEvent::AddPost), 0);
    let events = [
        PipeEvent::AddPre,
        PipeEvent::AddPost,
        PipeEvent::AddPost,
        PipeEvent::RemovePost,
        PipeEvent::AddPost,
    ];
    assert_eq!(events.iter().fold(0, |active, event| pipe_closed(active, *event)), 2);
}

#[test]
fn timers() {
    assert_eq!(elapsed_seconds(5, 5 + 2 * SECOND), 2);
    assert_eq!(elapsed_seconds(6, 5 + 2 * SECOND), 1);
    assert_eq!(elapsed_seconds(9, 5), 0);
    assert!(timer_expired(0, 2, 2 * SECOND));
    assert!(!timer_expired(0, 2, 2 * SECOND - 1));
    assert!(!timer_expired(0, 0, 2 * SECOND));
}

#[test]
fn address_of_the_manager() {
    let mut config = GooseConfiguration::default();
    config.manager_bind_host = "0.0.0.0".to_string();
    config.manager_bind_port = 5115;
    assert_eq!(config.manager_address(), "tcp://0.0.0.0:5115");
    config.manager_bind_host = "localhost".to_string();
    config.manager_bind_port = 0;
    assert_eq!(config.manager_address(), "tcp://localhost:0");
    config.manager_bind_port = 60789;
    assert_eq!(config.manager_address(), "tcp://localhost:60789");
    config.manager_bind_port = 1234;
    assert_eq!(config.manager_address(), "tcp://localhost:1234");
}
