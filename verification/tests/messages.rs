use freemdu_gateway::device::{Action, ActionKind, Outcome, Value};
use freemdu_gateway::discovery::publish_action;
use freemdu_gateway::failure::{Failure, Stage};
use freemdu_gateway::invocation::{trigger_action, trigger_result};
use freemdu_gateway::messages::{
    availability_after, session, status_message, Availability, Event, MessageLoop, Work,
};
use freemdu_gateway::topic::Topic;

fn work_on(path: &str, payload: &[u8]) -> Option<(String, String)> {
    let mut state = MessageLoop::new();
    match state.handle(Event::Publish { topic: Topic::Device(path), payload }) {
        Work::TriggerAction { id, param } => Some((id.to_string(), param.to_string())),
        Work::Nothing => None,
        _ => panic!("unexpected work"),
    }
}

#[test]
fn triggers_are_understood() {
    assert_eq!(
        work_on("start/trigger", b"PRESS"),
        Some(("start".to_string(), "PRESS".to_string()))
    );
    assert_eq!(work_on("start/trigger", b""), Some(("start".to_string(), String::new())));
    assert_eq!(work_on("/trigger", b"x"), Some((String::new(), "x".to_string())));
    assert_eq!(
        work_on("w\u{e4}sche/trigger", "\u{20ac}\u{1f600}".as_bytes()),
        Some(("w\u{e4}sche".to_string(), "\u{20ac}\u{1f600}".to_string()))
    );
}

#[test]
fn other_messages_are_ignored() {
    for path in ["", "trigger", "start", "start/", "start/value", "start/triggers", "start/trigge",
        "start/Trigger", "a/b/trigger", "start//trigger", "start/trigger/", "status"]
    {
        assert_eq!(work_on(path, b"PRESS"), None);
    }
    let mut state = MessageLoop::new();
    for topic in [Topic::DeviceType("start/trigger"), Topic::General("start/trigger")] {
        assert!(matches!(state.handle(Event::Publish { topic, payload: b"" }), Work::Nothing));
    }
}

#[test]
fn payloads_have_to_be_utf8() {
    for payload in [&[0xff][..], &[0xc0, 0x80], &[0xed, 0xa0, 0x80], &[0xe2, 0x82], b"ok\x80"] {
        assert_eq!(work_on("start/trigger", payload), None);
    }
}

#[test]
fn ticks_count_while_connected() {
    let mut state = MessageLoop::new();
    assert!(!state.led_connected());
    assert!(matches!(state.handle(Event::Tick), Work::Nothing));
    assert!(matches!(state.handle(Event::Connected), Work::ResetTicker));
    assert!(state.led_connected());
    assert!(matches!(state.handle(Event::Tick), Work::PublishDevice));
    assert!(matches!(state.handle(Event::HomeAssistantOnline), Work::Nothing));
    assert!(state.led_connected());
    assert!(matches!(state.handle(Event::Tick), Work::PublishDevice));
    assert!(matches!(state.handle(Event::Disconnected), Work::Nothing));
    assert!(!state.led_connected());
    assert!(matches!(state.handle(Event::Tick), Work::Nothing));
}

#[test]
fn triggers_count_without_a_connection_too() {
    let mut state = MessageLoop::new();
    let event = Event::Publish { topic: Topic::Device("a/trigger"), payload: b"1" };
    assert!(matches!(state.handle(event), Work::TriggerAction { id: "a", param: "1" }));
    assert!(!state.led_connected());
}

#[test]
fn status_messages() {
    let online = status_message(Availability::Online);
    assert!(matches!(online.topic, Topic::Device("status")));
    assert_eq!(online.payload, b"online");
    let offline = status_message(Availability::Offline);
    assert!(matches!(offline.topic, Topic::Device("status")));
    assert_eq!(offline.payload, b"offline");
}

#[test]
fn a_failure_is_reported_like_the_last_will() {
    let failed = Err(Failure::new(Stage::Query, "TimeoutError".to_string()));
    let status = status_message(availability_after(&failed));
    assert_eq!(status.payload, session().last_will.payload);
    assert_eq!(availability_after(&Ok(())), Availability::Online);
}

#[test]
fn session_with_the_broker() {
    let session = session();
    assert_eq!(session.device_type, "freemdu_home");
    assert!(matches!(session.subscription, Topic::Device("+/trigger")));
    assert!(matches!(session.last_will.topic, Topic::Device("status")));
    assert_eq!(session.last_will.payload, b"offline");
}

fn actions() -> Vec<Action> {
    let action = |id, has_params| Action {
        kind: ActionKind::Operation,
        id,
        name: "A",
        has_params,
    };
    vec![action("start", false), action("program", true), action("stop", false), action("start", true)]
}

#[test]
fn actions_are_found_by_identifier() {
    let invocation = trigger_action(Outcome::Done(actions()), "stop", "PRESS").unwrap();
    assert_eq!(invocation.action, 2);
    assert!(invocation.param.is_none());
}

#[test]
fn the_first_of_equal_identifiers_is_taken() {
    let invocation = trigger_action(Outcome::Done(actions()), "start", "PRESS").unwrap();
    assert_eq!(invocation.action, 0);
    assert!(invocation.param.is_none());
}

#[test]
fn parameters_are_passed_where_they_are_taken() {
    let invocation = trigger_action(Outcome::Done(actions()), "program", "cotton").unwrap();
    assert_eq!(invocation.action, 1);
    assert!(matches!(invocation.param, Some(Value::String(s)) if s == "cotton"));
}

#[test]
fn unknown_actions_fail() {
    for id in ["", "star", "starts", "Start"] {
        let failure = trigger_action(Outcome::Done(actions()), id, "").unwrap_err();
        assert_eq!(failure.stage, Stage::FindAction);
        assert_eq!(failure.message(), format!("Failed to find action with id {id}"));
    }
}

#[test]
fn connections_for_a_trigger_can_fail() {
    let failure =
        trigger_action(Outcome::TimedOut("TimeoutError".to_string()), "start", "").unwrap_err();
    assert_eq!(failure.message(), "Failed to connect to device: TimeoutError");
    let failure = trigger_action(Outcome::Failed("io".to_string()), "start", "").unwrap_err();
    assert_eq!(failure.stage, Stage::Device);
}

#[test]
fn results_of_a_trigger() {
    assert!(trigger_result(Outcome::Done(())).is_ok());
    let failure = trigger_result(Outcome::TimedOut("TimeoutError".to_string())).unwrap_err();
    assert_eq!(failure.message(), "Failed to trigger action: TimeoutError");
    let failure = trigger_result(Outcome::Failed("refused".to_string())).unwrap_err();
    assert_eq!(failure.message(), "refused");
}

#[test]
fn a_button_triggers_its_action() {
    let all = actions();
    let entity = publish_action(&all[2], "d", "h");
    let path = match entity.command_topic {
        Some(Topic::Device(path)) => path,
        _ => panic!("expected a topic of the device"),
    };
    let (id, param) = work_on(&path, b"PRESS").unwrap();
    let invocation = trigger_action(Outcome::Done(all), &id, &param).unwrap();
    assert_eq!(invocation.action, 2);
    assert!(invocation.param.is_none());
}

#[test]
fn messages_of_failures() {
    let message = |stage| Failure::new(stage, "X".to_string()).message();
    assert_eq!(message(Stage::Connect), "Failed to connect to device: X");
    assert_eq!(message(Stage::Query), "Failed to query property: X");
    assert_eq!(message(Stage::Trigger), "Failed to trigger action: X");
    assert_eq!(message(Stage::Device), "X");
    assert_eq!(message(Stage::FindAction), "Failed to find action with id X");
    assert_eq!(message(Stage::PublishSensor), "Failed to publish HA sensor: X");
    assert_eq!(message(Stage::PublishButton), "Failed to publish HA button: X");
    assert_eq!(message(Stage::PublishValue), "Failed to publish property value: X");
    assert_eq!(message(Stage::InitRadio), "Failed to initialize radio: X");
    assert_eq!(message(Stage::CreateWifi), "Failed to create Wi-Fi controller: X");
    assert_eq!(message(Stage::ConfigureWifi), "Failed to set Wi-Fi configuration: X");
    assert_eq!(message(Stage::StartWifi), "Failed to start Wi-Fi controller: X");
    assert_eq!(message(Stage::DhcpHostname), "Failed to set DHCP hostname: X");
}
