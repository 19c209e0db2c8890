use freemdu_gateway::device::{Action, ActionKind, Date, Property, PropertyKind, Value};
use freemdu_gateway::discovery::{
    publish_action, publish_property, publish_property_value, status_topic, Component,
};
use freemdu_gateway::topic::Topic;

fn property() -> Property {
    Property {
        kind: PropertyKind::Operation,
        id: "operating_state",
        name: "Operating State",
        unit: None,
    }
}

fn device_path(topic: &Topic<String>) -> &str {
    match topic {
        Topic::Device(path) => path,
        _ => panic!("not a topic of the device"),
    }
}

fn payload(val: Value) -> Option<String> {
    publish_property_value(&property(), &val).map(|message| {
        assert_eq!(device_path(&message.topic), "operating_state/value");
        message.payload
    })
}

#[test]
fn status_topic_is_of_the_device() {
    assert!(matches!(status_topic(), Topic::Device("status")));
}

#[test]
fn sensor_of_a_property() {
    let prop = Property {
        kind: PropertyKind::Operation,
        id: "water_temp",
        name: "Water Temperature",
        unit: Some("\u{b0}C"),
    };
    let entity = publish_property(&prop, "Washing Machine", "freemdu_home_0123456789ab");
    assert_eq!(entity.device, "Washing Machine");
    assert_eq!(entity.object_id, "freemdu_home_0123456789ab_water_temp");
    assert_eq!(entity.unique_id, "freemdu_home_0123456789ab_water_temp");
    assert_eq!(entity.name, "Water Temperature");
    assert!(matches!(entity.availability, Topic::Device("status")));
    assert_eq!(device_path(entity.state_topic.as_ref().unwrap()), "water_temp/value");
    assert!(entity.command_topic.is_none());
    assert!(matches!(entity.component, Component::Sensor { unit: Some("\u{b0}C") }));
}

#[test]
fn button_of_an_action() {
    let action = Action {
        kind: ActionKind::Operation,
        id: "start_program",
        name: "Start Program",
        has_params: false,
    };
    let entity = publish_action(&action, "Dishwasher", "host");
    assert_eq!(entity.device, "Dishwasher");
    assert_eq!(entity.object_id, "host_start_program");
    assert_eq!(entity.unique_id, "host_start_program");
    assert_eq!(entity.name, "Start Program");
    assert!(matches!(entity.availability, Topic::Device("status")));
    assert!(entity.state_topic.is_none());
    assert_eq!(device_path(entity.command_topic.as_ref().unwrap()), "start_program/trigger");
    assert!(matches!(entity.component, Component::Button));
}

#[test]
fn numbers_are_decimal() {
    for num in [0, 7, 10, 99, 100, 4096, 65535, u32::MAX] {
        assert_eq!(payload(Value::Number(num)).unwrap(), format!("{num}"));
    }
}

#[test]
fn truth_values_are_yes_and_no() {
    assert_eq!(payload(Value::Bool(true)).unwrap(), "Yes");
    assert_eq!(payload(Value::Bool(false)).unwrap(), "No");
}

#[test]
fn texts_are_kept() {
    assert_eq!(payload(Value::String("Spin \u{2713}".to_string())).unwrap(), "Spin \u{2713}");
    assert_eq!(payload(Value::String(String::new())).unwrap(), "");
}

#[test]
fn durations_are_hours_and_minutes() {
    assert_eq!(payload(Value::Duration(0)).unwrap(), "0h 0min");
    assert_eq!(payload(Value::Duration(59)).unwrap(), "0h 0min");
    assert_eq!(payload(Value::Duration(60)).unwrap(), "0h 1min");
    assert_eq!(payload(Value::Duration(3599)).unwrap(), "0h 59min");
    assert_eq!(payload(Value::Duration(3600)).unwrap(), "1h 0min");
    assert_eq!(payload(Value::Duration(36 * 3600 + 5 * 60 + 59)).unwrap(), "36h 5min");
    assert_eq!(payload(Value::Duration(u64::MAX)).unwrap(), "5124095576030431h 0min");
}

#[test]
fn dates_are_padded() {
    let date = |year, month, day| payload(Value::Date(Date { year, month, day })).unwrap();
    assert_eq!(date(2024, 3, 9), "2024-03-09");
    assert_eq!(date(1999, 12, 31), "1999-12-31");
    assert_eq!(date(7, 0, 255), "7-00-255");
}

#[test]
fn sensor_readings_are_not_published() {
    assert!(payload(Value::Sensor(20, 60)).is_none());
}

#[test]
fn values_go_where_the_sensor_listens() {
    let entity = publish_property(&property(), "d", "h");
    let message = publish_property_value(&property(), &Value::Number(1)).unwrap();
    assert_eq!(
        device_path(entity.state_topic.as_ref().unwrap()),
        device_path(&message.topic)
    );
}
