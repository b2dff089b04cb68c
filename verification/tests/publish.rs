use testrunner::model::{Event, Test, TestRun};
use testrunner::publish::{aggregate, batches, single_batch, BusConfig, PublishError, BATCH_LIMIT};
use testrunner::string_map::StringMap;

#[derive(Debug, PartialEq)]
enum TransportError {
    Timeout,
    Throttled(u32),
}

fn run(id: &str) -> TestRun {
    let mut files = StringMap::new();
    files.insert("main.py".to_string(), "print(1)".to_string());
    TestRun {
        id: id.to_string(),
        files,
        language: "python".to_string(),
        status: "queued".to_string(),
        tests: vec![Test {
            message: "m".to_string(),
            name: "n".to_string(),
            status: "s".to_string(),
            actual_output: "a".to_string(),
            expected_output: "e".to_string(),
        }],
    }
}

fn events(n: usize) -> Vec<Event> {
    (0..n).map(|i| Event::Created { testrun: run(&format!("run-{}", i)) }).collect()
}

fn config() -> BusConfig {
    BusConfig::new("test-bus".to_string())
}

#[test]
fn twenty_five_events_go_in_three_batches() {
    let plan = batches(&events(25), &config());
    let sizes: Vec<usize> = plan.iter().map(|b| b.len()).collect();
    assert_eq!(sizes, vec![10, 10, 5]);
    let keys: Vec<String> = plan.iter().flatten().map(|e| e.resource_key.clone()).collect();
    let expected: Vec<String> = (0..25).map(|i| format!("run-{}", i)).collect();
    assert_eq!(keys, expected);
}

#[test]
fn batch_sizes_follow_the_limit() {
    assert_eq!(BATCH_LIMIT, 10);
    for (n, expected) in [
        (0usize, vec![]),
        (1, vec![1usize]),
        (9, vec![9]),
        (10, vec![10]),
        (11, vec![10, 1]),
        (20, vec![10, 10]),
        (21, vec![10, 10, 1]),
        (100, vec![10; 10]),
    ] {
        let plan = batches(&events(n), &config());
        let sizes: Vec<usize> = plan.iter().map(|b| b.len()).collect();
        assert_eq!(sizes, expected, "{}", n);
        assert_eq!(plan.len(), (n + 9) / 10);
    }
}

#[test]
fn an_entry_carries_the_routing_data_and_the_event() {
    let entry = Event::Created { testrun: run("abc") }.to_eventbridge(&config());
    assert_eq!(entry.bus_name, "test-bus");
    assert_eq!(entry.source, "preprocess-test-runs");
    assert_eq!(entry.detail_type, "TestRunCreated");
    assert_eq!(entry.resource_key, "abc");
    assert_eq!(
        entry.detail_json,
        "{\"type\":\"Created\",\"testrun\":{\"id\":\"abc\",\"files\":{\"main.py\":\"print(1)\"},\"language\":\"python\",\"status\":\"queued\",\"tests\":[{\"message\":\"m\",\"name\":\"n\",\"status\":\"s\",\"actualOutput\":\"a\",\"expectedOutput\":\"e\"}]}}"
    );
}

#[test]
fn the_detail_type_follows_the_variant() {
    let custom = BusConfig { bus_name: "b".to_string(), source: "elsewhere".to_string() };
    let updated = Event::Updated { old: run("old"), new: run("new") };
    let entry = updated.to_eventbridge(&custom);
    assert_eq!(entry.source, "elsewhere");
    assert_eq!(entry.detail_type, "TestRunUpdated");
    assert_eq!(entry.resource_key, "new");
    assert!(entry.detail_json.starts_with("{\"type\":\"Updated\",\"old\":{\"id\":\"old\","));
    assert!(entry.detail_json.contains("},\"new\":{\"id\":\"new\","));
    let deleted = Event::Deleted { testrun: run("gone") };
    assert_eq!(deleted.detail_type(), "TestRunDeleted");
    let entry = deleted.to_eventbridge(&custom);
    assert_eq!(entry.resource_key, "gone");
    assert!(entry.detail_json.starts_with("{\"type\":\"Deleted\",\"testrun\":{"));
}

#[test]
fn event_id_is_that_of_the_new_image() {
    assert_eq!(Event::Created { testrun: run("a") }.id(), "a");
    assert_eq!(Event::Updated { old: run("a"), new: run("b") }.id(), "b");
    assert_eq!(Event::Deleted { testrun: run("c") }.id(), "c");
}

#[test]
fn a_single_event_is_one_batch_of_one() {
    let plan = single_batch(&Event::Deleted { testrun: run("abc") }, &config());
    assert_eq!(plan.len(), 1);
    assert_eq!(plan[0].len(), 1);
    assert_eq!(plan[0][0].detail_type, "TestRunDeleted");
    assert_eq!(plan[0][0].resource_key, "abc");
}

#[test]
fn a_failing_batch_is_reported_alone() {
    let outcomes: Vec<Result<(), TransportError>> =
        vec![Ok(()), Err(TransportError::Timeout), Ok(())];
    match aggregate(outcomes) {
        Err(PublishError::Partial(errors)) => assert_eq!(errors, vec![TransportError::Timeout]),
        Ok(()) => panic!("a failure was lost"),
    }
}

#[test]
fn failures_keep_their_order_and_their_number() {
    let outcomes: Vec<Result<(), TransportError>> = vec![
        Err(TransportError::Throttled(1)),
        Ok(()),
        Err(TransportError::Timeout),
        Err(TransportError::Timeout),
        Ok(()),
        Err(TransportError::Throttled(2)),
    ];
    match aggregate(outcomes) {
        Err(PublishError::Partial(errors)) => assert_eq!(
            errors,
            vec![
                TransportError::Throttled(1),
                TransportError::Timeout,
                TransportError::Timeout,
                TransportError::Throttled(2),
            ]
        ),
        Ok(()) => panic!("failures were lost"),
    }
}

#[test]
fn success_needs_every_batch() {
    let none: Vec<Result<(), TransportError>> = Vec::new();
    assert!(aggregate(none).is_ok());
    let all: Vec<Result<(), TransportError>> = vec![Ok(()), Ok(()), Ok(())];
    assert!(aggregate(all).is_ok());
    let one: Vec<Result<(), TransportError>> = vec![Err(TransportError::Timeout)];
    assert!(aggregate(one).is_err());
}

#[test]
fn a_failing_second_batch_of_three_is_the_only_error() {
    let plan = batches(&events(25), &config());
    let mut calls: Vec<usize> = Vec::new();
    let mut outcomes: Vec<Result<(), TransportError>> = Vec::new();
    for (i, batch) in plan.iter().enumerate() {
        calls.push(batch.len());
        outcomes.push(if i == 1 { Err(TransportError::Timeout) } else { Ok(()) });
    }
    assert_eq!(calls, vec![10, 10, 5]);
    match aggregate(outcomes) {
        Err(PublishError::Partial(errors)) => assert_eq!(errors, vec![TransportError::Timeout]),
        Ok(()) => panic!("a failure was lost"),
    }
}
