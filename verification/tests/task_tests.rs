use spot::task::{
    broker_id_of, create_beam_task, proxy_id_of, qualify_site, retain_valid_recipients,
    submission_step, BeamTask, BrokerReply, SubmitStep,
};

fn s(v: &str) -> String {
    v.to_string()
}

fn sample_task() -> BeamTask {
    create_beam_task(
        s("task-1"),
        vec![s("berlin"), s("munich"), s("aachen")],
        s("SELECT *"),
        "spot.gateway.broker.example",
        "focus",
        "broker.example",
        &Some(s("bbmri")),
    )
}

#[test]
fn task_builder_qualifies_every_site() {
    let task = sample_task();
    assert_eq!(task.to.len(), 3);
    assert_eq!(task.to[0], "focus.berlin.broker.example");
    assert_eq!(task.to[1], "focus.munich.broker.example");
    assert_eq!(task.to[2], "focus.aachen.broker.example");
    for rec in &task.to {
        assert!(rec.ends_with(".broker.example"));
    }
    assert_eq!(task.body, "SELECT *");
    assert_eq!(task.id, "task-1");
    assert_eq!(task.from, "spot.gateway.broker.example");
    assert_eq!(task.metadata_project, Some(s("bbmri")));
    assert_eq!(task.retry_backoff_ms, 1000);
    assert_eq!(task.retry_max_tries, 5);
    assert_eq!(task.ttl, "360s");
}

#[test]
fn task_builder_without_sites_or_project() {
    let task = create_beam_task(
        s("task-2"),
        vec![],
        s("q"),
        "spot.gateway.broker.example",
        "focus",
        "broker.example",
        &None,
    );
    assert_eq!(task.to.len(), 0);
    assert_eq!(task.metadata_project, None);
}

#[test]
fn qualify_builds_app_site_broker() {
    assert_eq!(qualify_site("focus", "berlin", "broker.example"), "focus.berlin.broker.example");
}

#[test]
fn broker_id_is_everything_after_the_second_dot() {
    assert_eq!(broker_id_of("spot.gateway.broker.example"), Some(s("broker.example")));
    assert_eq!(broker_id_of("spot.gateway"), None);
    assert_eq!(broker_id_of("spot"), None);
}

#[test]
fn proxy_id_is_everything_after_the_first_dot() {
    assert_eq!(proxy_id_of("focus.berlin.broker.example"), "berlin.broker.example");
    assert_eq!(proxy_id_of("nodots"), "");
}

#[test]
fn retain_drops_exactly_the_rejected_recipients() {
    let task = sample_task();
    let invalid = vec![s("munich.broker.example")];
    let remaining = retain_valid_recipients(&task.to, &invalid);
    assert_eq!(
        remaining,
        vec![s("focus.berlin.broker.example"), s("focus.aachen.broker.example")]
    );
}

#[test]
fn partial_rejection_resubmits_once_with_remaining_recipients() {
    let task = sample_task();
    let reply = BrokerReply::InvalidReceivers(vec![s("munich.broker.example")]);
    let step = submission_step(&task, &reply, false);
    match step {
        SubmitStep::Resubmit(t2) => {
            assert_eq!(
                t2.to,
                vec![s("focus.berlin.broker.example"), s("focus.aachen.broker.example")]
            );
            assert_eq!(t2.id, task.id);
            assert_eq!(t2.body, task.body);
            assert_eq!(t2.metadata_project, task.metadata_project);
            // acceptance of the resubmission creates the task
            let second = submission_step(&t2, &BrokerReply::Accepted, true);
            assert_eq!(second, SubmitStep::Created);
        }
        other => panic!("expected a resubmission, got {:?}", other),
    }
}

#[test]
fn all_invalid_rejection_is_terminal_without_resubmission() {
    let task = sample_task();
    let reply = BrokerReply::InvalidReceivers(vec![
        s("berlin.broker.example"),
        s("munich.broker.example"),
        s("aachen.broker.example"),
    ]);
    assert_eq!(submission_step(&task, &reply, false), SubmitStep::BadGateway);
}

#[test]
fn unspecific_error_is_terminal_without_resubmission() {
    let task = sample_task();
    assert_eq!(
        submission_step(&task, &BrokerReply::OtherError, false),
        SubmitStep::BadGateway
    );
}

#[test]
fn any_failure_after_the_one_resubmission_is_terminal() {
    let task = sample_task();
    assert_eq!(
        submission_step(&task, &BrokerReply::OtherError, true),
        SubmitStep::BadGateway
    );
    assert_eq!(
        submission_step(
            &task,
            &BrokerReply::InvalidReceivers(vec![s("berlin.broker.example")]),
            true
        ),
        SubmitStep::BadGateway
    );
}

#[test]
fn acceptance_creates_at_once() {
    let task = sample_task();
    assert_eq!(submission_step(&task, &BrokerReply::Accepted, false), SubmitStep::Created);
}

#[test]
fn registry_hands_each_sender_out_at_most_once() {
    let mut reg: spot::registry::Registry<u32> = spot::registry::Registry::new();
    reg.insert("task-1".to_string(), 11);
    reg.insert("task-2".to_string(), 22);
    // the entry leaves the registry with the first removal
    assert_eq!(reg.remove("task-1"), Some(11));
    assert_eq!(reg.remove("task-1"), None);
    // other entries are untouched
    assert_eq!(reg.remove("task-2"), Some(22));
    assert_eq!(reg.remove("missing"), None);
}

#[test]
fn registry_insert_replaces_under_the_same_id() {
    let mut reg: spot::registry::Registry<u32> = spot::registry::Registry::new();
    reg.insert("task-1".to_string(), 11);
    reg.insert("task-1".to_string(), 99);
    assert_eq!(reg.remove("task-1"), Some(99));
    assert_eq!(reg.remove("task-1"), None);
}
