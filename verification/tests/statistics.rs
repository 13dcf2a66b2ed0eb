use std::collections::BTreeMap;
use std::collections::HashMap;

use gaggle::configuration::GooseConfiguration;
use gaggle::goose::GooseRequest;
use gaggle::manager::merge_fits;
use gaggle::manager::merge_from_worker;
use gaggle::manager::merge_requests;
use gaggle::manager::requests_fit;
use gaggle::requests::RequestTable;
use gaggle::stats::merge_response_times;
use gaggle::stats::merge_status_code_counts;
use gaggle::stats::response_times_fit;
use gaggle::stats::status_code_counts_fit;
use gaggle::stats::update_max_response_time;
use gaggle::stats::update_min_response_time;

fn times(pairs: &[(usize, usize)]) -> BTreeMap<usize, usize> {
    pairs.iter().cloned().collect()
}

fn codes(pairs: &[(u16, usize)]) -> HashMap<u16, usize> {
    pairs.iter().cloned().collect()
}

fn config(status_codes: bool) -> GooseConfiguration {
    let mut config = GooseConfiguration::default();
    config.status_codes = status_codes;
    config
}

fn parent() -> GooseRequest {
    GooseRequest {
        response_times: times(&[(10, 2), (20, 1)]),
        min_response_time: 10,
        max_response_time: 20,
        total_response_time: 40,
        response_time_counter: 3,
        status_code_counts: codes(&[(200, 2), (404, 1)]),
        success_count: 2,
        fail_count: 1,
        load_test_hash: 7,
    }
}

fn report() -> GooseRequest {
    GooseRequest {
        response_times: times(&[(5, 1), (20, 4)]),
        min_response_time: 5,
        max_response_time: 20,
        total_response_time: 85,
        response_time_counter: 5,
        status_code_counts: codes(&[(200, 4), (500, 1)]),
        success_count: 4,
        fail_count: 1,
        load_test_hash: 8,
    }
}

fn assert_same(a: &GooseRequest, b: &GooseRequest) {
    assert_eq!(a.response_times, b.response_times);
    assert_eq!(a.min_response_time, b.min_response_time);
    assert_eq!(a.max_response_time, b.max_response_time);
    assert_eq!(a.total_response_time, b.total_response_time);
    assert_eq!(a.response_time_counter, b.response_time_counter);
    assert_eq!(a.status_code_counts, b.status_code_counts);
    assert_eq!(a.success_count, b.success_count);
    assert_eq!(a.fail_count, b.fail_count);
    assert_eq!(a.load_test_hash, b.load_test_hash);
}

#[test]
fn response_times_are_added_key_by_key() {
    let merged = merge_response_times(times(&[(10, 2), (20, 1)]), times(&[(5, 1), (20, 4)]));
    assert_eq!(merged, times(&[(5, 1), (10, 2), (20, 5)]));
    assert_eq!(merge_response_times(times(&[]), times(&[(3, 0)])), times(&[(3, 0)]));
    assert_eq!(merge_response_times(times(&[(3, 1)]), times(&[])), times(&[(3, 1)]));
}

#[test]
fn status_codes_are_added_key_by_key() {
    let merged = merge_status_code_counts(codes(&[(200, 2), (404, 1)]), &codes(&[(200, 4), (500, 1)]));
    assert_eq!(merged, codes(&[(200, 6), (404, 1), (500, 1)]));
}

#[test]
fn counters_that_would_overflow_are_found() {
    assert!(response_times_fit(&times(&[(1, usize::MAX)]), &times(&[(1, 0), (2, usize::MAX)])));
    assert!(!response_times_fit(&times(&[(1, usize::MAX)]), &times(&[(1, 1)])));
    assert!(status_code_counts_fit(&codes(&[(200, usize::MAX - 1)]), &codes(&[(200, 1)])));
    assert!(!status_code_counts_fit(&codes(&[(200, usize::MAX - 1)]), &codes(&[(200, 2)])));
}

#[test]
fn fastest_response_time() {
    assert_eq!(update_min_response_time(0, 5), 5);
    assert_eq!(update_min_response_time(5, 0), 5);
    assert_eq!(update_min_response_time(0, 0), 0);
    assert_eq!(update_min_response_time(5, 3), 3);
    assert_eq!(update_min_response_time(3, 5), 3);
}

#[test]
fn slowest_response_time() {
    assert_eq!(update_max_response_time(0, 5), 5);
    assert_eq!(update_max_response_time(5, 0), 5);
    assert_eq!(update_max_response_time(5, 5), 5);
}

#[test]
fn report_is_merged_with_status_codes() {
    let merged = merge_from_worker(&parent(), &report(), &config(true));
    let expected = GooseRequest {
        response_times: times(&[(5, 1), (10, 2), (20, 5)]),
        min_response_time: 5,
        max_response_time: 20,
        total_response_time: 125,
        response_time_counter: 8,
        status_code_counts: codes(&[(200, 6), (404, 1), (500, 1)]),
        success_count: 6,
        fail_count: 2,
        load_test_hash: 7,
    };
    assert_same(&merged, &expected);
}

#[test]
fn report_is_merged_without_status_codes() {
    let merged = merge_from_worker(&parent(), &report(), &config(false));
    assert_eq!(merged.status_code_counts, codes(&[(200, 2), (404, 1)]));
    assert_eq!(merged.success_count, 6);
}

#[test]
fn merge_that_would_overflow_is_found() {
    assert!(merge_fits(&parent(), &report(), &config(true)));
    let mut full = report();
    full.status_code_counts = codes(&[(200, usize::MAX)]);
    assert!(merge_fits(&parent(), &full, &config(false)));
    assert!(!merge_fits(&parent(), &full, &config(true)));
    let mut full = report();
    full.total_response_time = usize::MAX;
    assert!(!merge_fits(&parent(), &full, &config(false)));
    let mut full = report();
    full.response_time_counter = usize::MAX;
    assert!(!merge_fits(&parent(), &full, &config(false)));
    let mut full = report();
    full.success_count = usize::MAX;
    assert!(!merge_fits(&parent(), &full, &config(false)));
    let mut full = report();
    full.fail_count = usize::MAX;
    assert!(!merge_fits(&parent(), &full, &config(false)));
    let mut full = report();
    full.response_times = times(&[(10, usize::MAX)]);
    assert!(!merge_fits(&parent(), &full, &config(false)));
}

#[test]
fn reports_commute_and_associate() {
    for status_codes in [false, true] {
        let config = config(status_codes);
        let mut other = report();
        other.min_response_time = 0;
        other.max_response_time = 99;
        other.response_times = times(&[(7, 7)]);
        let one = merge_from_worker(&merge_from_worker(&parent(), &report(), &config), &other, &config);
        let two = merge_from_worker(&merge_from_worker(&parent(), &other, &config), &report(), &config);
        let three = merge_from_worker(&parent(), &merge_from_worker(&report(), &other, &config), &config);
        assert_same(&one, &two);
        assert_same(&one, &three);
    }
}

fn table(entries: Vec<(&str, GooseRequest)>) -> RequestTable {
    let mut table = RequestTable::new();
    for (name, request) in entries {
        table.insert(name.to_string(), request);
    }
    table
}

#[test]
fn names_occur_once() {
    let mut table = table(vec![("GET /", parent()), ("GET /a", report()), ("GET /", report())]);
    assert_eq!(table.len(), 2);
    assert_eq!(table.at(0).0, "GET /");
    assert_eq!(table.at(0).1.success_count, 4);
    assert_eq!(table.at(1).0, "GET /a");
    assert!(table.get(&"GET /b".to_string()).is_none());
    assert_eq!(table.get(&"GET /a".to_string()).unwrap().load_test_hash, 8);
    table.insert("GET /b".to_string(), parent());
    assert_eq!(table.get(&"GET /b".to_string()).unwrap().load_test_hash, 7);
}

#[test]
fn new_requests_are_taken_over_and_known_ones_merged() {
    let mut merged = table(vec![("GET /", parent()), ("GET /old", parent())]);
    let requests = table(vec![("GET /", report()), ("GET /new", report())]);
    assert!(requests_fit(&merged, &requests, &config(true)));
    merge_requests(&mut merged, &requests, &config(true));
    assert_eq!(merged.len(), 3);
    assert_same(
        merged.get(&"GET /".to_string()).unwrap(),
        &merge_from_worker(&parent(), &report(), &config(true)),
    );
    assert_same(merged.get(&"GET /old".to_string()).unwrap(), &parent());
    assert_same(merged.get(&"GET /new".to_string()).unwrap(), &report());
    // A report on nothing changes nothing.
    merge_requests(&mut merged, &RequestTable::new(), &config(true));
    assert_eq!(merged.len(), 3);
    assert_same(merged.get(&"GET /old".to_string()).unwrap(), &parent());
}

#[test]
fn table_that_would_overflow_is_found() {
    let merged = table(vec![("GET /", parent())]);
    let mut full = report();
    full.fail_count = usize::MAX;
    assert!(!requests_fit(&merged, &table(vec![("GET /a", report()), ("GET /", full.clone())]), &config(true)));
    assert!(requests_fit(&merged, &table(vec![("GET /a", full)]), &config(true)));
}

#[test]
fn reports_add_up_in_any_order() {
    let mut second = report();
    second.load_test_hash = 7;
    let a = table(vec![("GET /", parent()), ("GET /a", parent())]);
    let b = table(vec![("GET /a", second), ("GET /b", report())]);
    let mut ab = RequestTable::new();
    merge_requests(&mut ab, &a, &config(true));
    merge_requests(&mut ab, &b, &config(true));
    let mut ba = RequestTable::new();
    merge_requests(&mut ba, &b, &config(true));
    merge_requests(&mut ba, &a, &config(true));
    assert_eq!(ab.len(), 3);
    assert_eq!(ba.len(), 3);
    for name in ["GET /", "GET /a", "GET /b"] {
        let name = name.to_string();
        assert_same(ab.get(&name).unwrap(), ba.get(&name).unwrap());
    }
    let name = "GET /a".to_string();
    assert_eq!(ab.get(&name).unwrap().success_count, 2 + 4);
    assert_eq!(ab.get(&name).unwrap().fail_count, 1 + 1);
    assert_eq!(ab.get(&name).unwrap().min_response_time, 5);
    assert_eq!(ab.get(&name).unwrap().max_response_time, 20);
}
