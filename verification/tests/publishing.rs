use freemdu_gateway::device::{
    Action, ActionKind, Device, Outcome, Property, PropertyKind, Value,
};
use freemdu_gateway::failure::{Failure, Stage};
use freemdu_gateway::messages::{availability_after, Availability};
use freemdu_gateway::publish::{publish_device, Announcement, Run};

fn property(kind: PropertyKind, id: &'static str) -> Property {
    Property { kind, id, name: "P", unit: None }
}

fn action(kind: ActionKind, id: &'static str, has_params: bool) -> Action {
    Action { kind, id, name: "A", has_params }
}

fn appliance() -> Device {
    Device {
        kind: "Washing Machine".to_string(),
        properties: vec![
            property(PropertyKind::Other, "rom_code"),
            property(PropertyKind::Operation, "state"),
            property(PropertyKind::Operation, "load"),
            property(PropertyKind::Other, "fault"),
            property(PropertyKind::Operation, "rest"),
        ],
        actions: vec![
            action(ActionKind::Operation, "start", false),
            action(ActionKind::Operation, "program", true),
            action(ActionKind::Other, "calibrate", false),
            action(ActionKind::Operation, "stop", false),
        ],
    }
}

fn values() -> Vec<Value> {
    vec![Value::Number(3), Value::Sensor(1, 2), Value::Duration(7260)]
}

fn label(item: &Announcement) -> String {
    match item {
        Announcement::Property(entity) => format!("sensor {}", entity.unique_id),
        Announcement::Value(message) => format!("value {}", message.payload),
        Announcement::Action(entity) => format!("button {}", entity.unique_id),
    }
}

/// Runs until the end, or until the step at `fails_at`, and gives what was done.
fn drive(device: Device, fails_at: usize) -> (Vec<String>, Result<(), Failure>) {
    let mut done = vec![];
    let mut answers = values().into_iter();
    let start = publish_device("host");
    let mut run = if fails_at == 0 {
        start.resume(Outcome::TimedOut("TimeoutError".to_string()))
    } else {
        start.resume(Outcome::Done(device))
    };
    let mut step = 1;
    loop {
        run = match run {
            Run::Query(querying) => {
                if step == fails_at {
                    querying.resume(Outcome::TimedOut("TimeoutError".to_string()))
                } else {
                    done.push(format!("query {}", querying.property()));
                    querying.resume(Outcome::Done(answers.next().unwrap()))
                }
            }
            Run::Announce(announcing) => {
                if step == fails_at {
                    announcing.resume(Err("TooLarge".to_string()))
                } else {
                    done.push(label(announcing.announcement()));
                    announcing.resume(Ok(()))
                }
            }
            Run::Finished(result) => return (done, result),
        };
        step += 1;
    }
}

const ALL: [&str; 10] = [
    "query 1",
    "query 2",
    "query 4",
    "sensor host_state",
    "value 3",
    "sensor host_load",
    "sensor host_rest",
    "value 2h 1min",
    "button host_start",
    "button host_stop",
];

#[test]
fn everything_is_published_in_order() {
    let (done, result) = drive(appliance(), usize::MAX);
    assert_eq!(done, ALL);
    assert!(result.is_ok());
    assert_eq!(availability_after(&result), Availability::Online);
}

#[test]
fn the_device_names_the_entities() {
    let device = Device {
        kind: "Dryer".to_string(),
        properties: vec![],
        actions: vec![action(ActionKind::Operation, "start", false)],
    };
    match publish_device("host").resume(Outcome::Done(device)) {
        Run::Announce(run) => match run.announcement() {
            Announcement::Action(entity) => assert_eq!(entity.device, "Dryer"),
            _ => panic!("expected a button"),
        },
        _ => panic!("expected an announcement"),
    }
}

#[test]
fn a_failure_stops_the_run() {
    let stages = [
        Stage::Connect,
        Stage::Query,
        Stage::Query,
        Stage::Query,
        Stage::PublishSensor,
        Stage::PublishValue,
        Stage::PublishSensor,
        Stage::PublishSensor,
        Stage::PublishValue,
        Stage::PublishButton,
        Stage::PublishButton,
    ];
    for (at, stage) in stages.iter().enumerate() {
        let (done, result) = drive(appliance(), at);
        let expected = if at == 0 { &ALL[..0] } else { &ALL[..at - 1] };
        assert_eq!(done, expected);
        assert_eq!(availability_after(&result), Availability::Offline);
        assert_eq!(result.unwrap_err().stage, *stage);
    }
}

#[test]
fn errors_of_the_appliance_stop_the_run() {
    match publish_device("h").resume(Outcome::Failed("bad checksum".to_string())) {
        Run::Finished(Err(failure)) => {
            assert_eq!(failure.stage, Stage::Device);
            assert_eq!(failure.message(), "bad checksum");
        }
        _ => panic!("expected a failure"),
    }
    match publish_device("h").resume(Outcome::Done(appliance())) {
        Run::Query(run) => match run.resume(Outcome::Failed("no reply".to_string())) {
            Run::Finished(Err(failure)) => assert_eq!(failure.stage, Stage::Device),
            _ => panic!("expected a failure"),
        },
        _ => panic!("expected a query"),
    }
}

#[test]
fn an_appliance_without_anything_to_publish() {
    let device = Device {
        kind: "Oven".to_string(),
        properties: vec![property(PropertyKind::Other, "id")],
        actions: vec![action(ActionKind::Operation, "set", true)],
    };
    let run = publish_device("h").resume(Outcome::Done(device));
    assert!(matches!(run, Run::Finished(Ok(()))));
}
