use bitte::error::{Error, Malformed, Query, Remote};
use bitte::nomad::events::{EventsSortedEvent, NomadEvent, NomadEventType, Payload, Topic};

fn payload(allocation: Option<&str>, evaluation: Option<&str>, job: Option<&str>, deployment: Option<&str>) -> Payload {
    Payload {
        allocation: allocation.map(|s| s.to_string()),
        evaluation: evaluation.map(|s| s.to_string()),
        job: job.map(|s| s.to_string()),
        deployment: deployment.map(|s| s.to_string()),
    }
}

fn event(topic: Topic, kind: NomadEventType, key: &str, payload: Payload) -> EventsSortedEvent {
    EventsSortedEvent {
        topic,
        event_type: kind,
        key: key.to_string(),
        namespace: "default".to_string(),
        filter_keys: None,
        index: 12,
        payload,
    }
}

#[test]
fn topics_and_kinds_are_named_as_written() {
    assert_eq!(Topic::Allocation.name(), "Allocation");
    assert_eq!(Topic::Deployment.name(), "Deployment");
    assert_eq!(Topic::Evaluation.name(), "Evaluation");
    assert_eq!(Topic::Job.name(), "Job");
    assert_eq!(format!("{:?}", Topic::Job), Topic::Job.name());
    for kind in [
        NomadEventType::AllocationUpdateDesiredStatus,
        NomadEventType::AllocationUpdated,
        NomadEventType::DeploymentStatusUpdate,
        NomadEventType::EvaluationUpdated,
        NomadEventType::JobRegistered,
        NomadEventType::PlanResult,
    ] {
        assert_eq!(format!("{:?}", kind), kind.name());
    }
}

#[test]
fn payload_has_a_line_for_each_subject() {
    assert_eq!(payload(None, None, None, None).text(), "");
    assert_eq!(payload(Some("api"), None, None, None).text(), "\n    JobID: api\n");
    assert_eq!(payload(None, None, Some("api"), None).text(), "\n    Name: api\n");
    assert_eq!(
        payload(Some("a"), Some("b"), Some("c"), Some("d")).text(),
        "\n    JobID: a\n\n    JobID: b\n\n    Name: c\n\n    JobID: d\n"
    );
}

#[test]
fn event_is_put_into_words() {
    let one = event(Topic::Job, NomadEventType::JobRegistered, "api", payload(None, None, Some("api"), None));
    assert_eq!(
        one.text(),
        "Topic: Job\n  Namespace: default\n  Key: api\n  Type: JobRegistered\n  Payload: \n    Name: api\n\n"
    );
}

#[test]
fn batch_is_its_events_one_after_the_other() {
    let first = event(Topic::Job, NomadEventType::JobRegistered, "api", payload(None, None, None, None));
    let second = event(
        Topic::Allocation,
        NomadEventType::AllocationUpdated,
        "0af",
        payload(Some("api"), None, None, None),
    );
    let expected = format!("{}{}", first.text(), second.text());
    let batch = NomadEvent { index: Some(3), events: Some(vec![first, second]) };
    assert_eq!(batch.text(), expected);
    assert_eq!(NomadEvent { index: None, events: None }.text(), "");
    assert_eq!(NomadEvent { index: None, events: Some(Vec::new()) }.text(), "");
}

#[test]
fn every_error_has_its_sentence() {
    let cases = vec![
        (Error::NetworkFailure(Remote::Region("eu-west-1".to_string())), "failed to connect to ec2.eu-west-1.amazonaws.com"),
        (Error::NetworkFailure(Remote::Endpoint("https://n/v1/nodes".to_string())), "failed to query: https://n/v1/nodes"),
        (Error::DecodeFailure(Malformed::Response("https://n/v1/nodes".to_string())), "failed to decode response from: https://n/v1/nodes"),
        (Error::DecodeFailure(Malformed::Index("web".to_string())), "web does not end in a bracketed index"),
        (Error::ConfigInvalid("gcp".to_string()), "current BITTE_PROVIDER is not valid: gcp"),
        (Error::JoinFailure("task 3 was cancelled".to_string()), "task 3 was cancelled"),
        (Error::NoMatch(Query::Needle("core-9".to_string())), "core-9 does not match any nodes"),
        (
            Error::NoMatch(Query::Placement {
                job: "api".to_string(),
                group: "web".to_string(),
                index: "2".to_string(),
                namespace: "default".to_string(),
            }),
            "api, web, 2 does not match any running nomad allocations in namespace default",
        ),
        (Error::Usage("first arg must be a host".to_string()), "first arg must be a host"),
    ];
    for (error, sentence) in cases {
        assert_eq!(error.message(), sentence);
    }
}
