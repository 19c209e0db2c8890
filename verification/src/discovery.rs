//! What Home Assistant is told of an appliance: its entities and their values.
use crate::device::{Action, Date, Property, Value};
use crate::text;
use crate::topic::Topic;
use vstd::prelude::*;
use vstd::string::StringExecFns;

verus! {

/// The topic on which the availability of the appliance is reported.
pub open spec fn spec_status_topic() -> Topic<Seq<char>> {
    Topic::Device("status"@)
}

/// The topic on which the availability of the appliance is reported.
pub fn status_topic() -> (res: Topic<&'static str>)
    ensures
        res@ == spec_status_topic(),
{
    Topic::Device("status")
}

/// The part of an entity that depends on its platform.
#[derive(Clone, Copy, Debug)]
pub enum Component {
    /// A sensor, whose values have this unit. It has no device class and no
    /// state class.
    Sensor { unit: Option<&'static str> },
    /// A button. It has no device class.
    Button,
}

/// An entity of Home Assistant. Its origin is the default one, and so is all of
/// its device but the name.
#[derive(Debug)]
pub struct Entity {
    /// The name of the device that the entity is a part of.
    pub device: String,
    pub object_id: String,
    pub unique_id: String,
    /// The name for people.
    pub name: &'static str,
    /// The one topic that tells whether the entity is available.
    pub availability: Topic<&'static str>,
    /// Where the state of the entity is published.
    pub state_topic: Option<Topic<String>>,
    /// Where the entity takes commands.
    pub command_topic: Option<Topic<String>>,
    pub component: Component,
}

/// The view of a [`Component`].
pub enum ComponentView {
    Sensor { unit: Option<Seq<char>> },
    Button,
}

/// The view of an [`Entity`].
pub struct EntityView {
    pub device: Seq<char>,
    pub object_id: Seq<char>,
    pub unique_id: Seq<char>,
    pub name: Seq<char>,
    pub availability: Topic<Seq<char>>,
    pub state_topic: Option<Topic<Seq<char>>>,
    pub command_topic: Option<Topic<Seq<char>>>,
    pub component: ComponentView,
}

/// The view of an optional text.
pub open spec fn text_view(s: Option<&'static str>) -> Option<Seq<char>> {
    match s {
        Some(s) => Some(s@),
        None => None,
    }
}

/// The view of an optional topic.
pub open spec fn topic_view(topic: Option<Topic<String>>) -> Option<Topic<Seq<char>>> {
    match topic {
        Some(topic) => Some(topic@),
        None => None,
    }
}

impl View for Component {
    type V = ComponentView;

    open spec fn view(&self) -> ComponentView {
        match self {
            Component::Sensor { unit } => ComponentView::Sensor { unit: text_view(*unit) },
            Component::Button => ComponentView::Button,
        }
    }
}

impl View for Entity {
    type V = EntityView;

    open spec fn view(&self) -> EntityView {
        EntityView {
            device: self.device@,
            object_id: self.object_id@,
            unique_id: self.unique_id@,
            name: self.name@,
            availability: self.availability@,
            state_topic: topic_view(self.state_topic),
            command_topic: topic_view(self.command_topic),
            component: self.component@,
        }
    }
}

/// A message with a text for payload.
#[derive(Debug)]
pub struct Message {
    pub topic: Topic<String>,
    pub payload: String,
}

/// The view of a [`Message`].
pub struct MessageView {
    pub topic: Topic<Seq<char>>,
    pub payload: Seq<char>,
}

impl View for Message {
    type V = MessageView;

    open spec fn view(&self) -> MessageView {
        MessageView { topic: self.topic@, payload: self.payload@ }
    }
}

/// The identifier of an entity: that of the property or action, below the
/// hostname.
pub open spec fn unique_id(hostname: Seq<char>, id: Seq<char>) -> Seq<char> {
    hostname + "_"@ + id
}

/// Where the values of the property `id` are published.
pub open spec fn value_topic(id: Seq<char>) -> Topic<Seq<char>> {
    Topic::Device(id + "/value"@)
}

/// Where the action `id` is triggered.
pub open spec fn trigger_topic(id: Seq<char>) -> Topic<Seq<char>> {
    Topic::Device(id + "/trigger"@)
}

/// The sensor that stands for a property.
pub open spec fn property_sensor(
    prop: Property,
    device: Seq<char>,
    hostname: Seq<char>,
) -> EntityView {
    EntityView {
        device,
        object_id: unique_id(hostname, prop.id@),
        unique_id: unique_id(hostname, prop.id@),
        name: prop.name@,
        availability: spec_status_topic(),
        state_topic: Some(value_topic(prop.id@)),
        command_topic: None,
        component: ComponentView::Sensor { unit: text_view(prop.unit) },
    }
}

/// The button that stands for an action.
pub open spec fn action_button(
    action: Action,
    device: Seq<char>,
    hostname: Seq<char>,
) -> EntityView {
    EntityView {
        device,
        object_id: unique_id(hostname, action.id@),
        unique_id: unique_id(hostname, action.id@),
        name: action.name@,
        availability: spec_status_topic(),
        state_topic: None,
        command_topic: Some(trigger_topic(action.id@)),
        component: ComponentView::Button,
    }
}

/// The decimal numeral of `n`.
pub open spec fn decimal(n: nat) -> Seq<char> {
    text::numeral(n, 10)
}

/// A duration in hours and minutes; what is left of a minute does not count.
pub open spec fn duration_text(secs: nat) -> Seq<char> {
    decimal(secs / 3600) + "h "@ + decimal(secs / 60 % 60) + "min"@
}

/// A date as year, month and day; month and day have two digits at least.
pub open spec fn date_text(date: Date) -> Seq<char> {
    decimal(date.year as nat) + "-"@ + text::zero_padded(decimal(date.month as nat), 2) + "-"@
        + text::zero_padded(decimal(date.day as nat), 2)
}

/// How a value is written. Sensor readings are not published.
pub open spec fn value_text(val: Value) -> Option<Seq<char>> {
    match val {
        Value::Number(num) => Some(decimal(num as nat)),
        Value::Bool(flag) => Some(
            if flag {
                "Yes"@
            } else {
                "No"@
            },
        ),
        Value::String(s) => Some(s@),
        Value::Duration(secs) => Some(duration_text(secs as nat)),
        Value::Sensor(_, _) => None,
        Value::Date(date) => Some(date_text(date)),
    }
}

/// The message that publishes the value of a property.
pub open spec fn value_message(prop: Property, val: Value) -> Option<MessageView> {
    match value_text(val) {
        Some(payload) => Some(MessageView { topic: value_topic(prop.id@), payload }),
        None => None,
    }
}

/// Appends the decimal numeral of `n`, padded with zeros to `width` characters.
fn push_decimal(out: &mut String, n: u64, width: u8)
    ensures
        final(out)@ == old(out)@ + text::zero_padded(decimal(n as nat), width as int),
        width <= 1 ==> final(out)@ == old(out)@ + decimal(n as nat),
{
    text::push_numeral(out, n, 10, width);
    proof {
        if width <= 1 {
            assert(text::zero_padded(decimal(n as nat), width as int) =~= decimal(n as nat));
        }
    }
}

fn join_id(hostname: &str, id: &str) -> (res: String)
    ensures
        res@ == unique_id(hostname@, id@),
{
    String::from_str(hostname).concat("_").concat(id)
}

/// The sensor to announce for a property of the device called `dev`.
pub fn publish_property(prop: &Property, dev: &str, hostname: &str) -> (res: Entity)
    ensures
        res@ == property_sensor(*prop, dev@, hostname@),
        res.device@ == dev@,
        res.object_id@ == hostname@ + "_"@ + prop.id@,
        res.unique_id@ == hostname@ + "_"@ + prop.id@,
        res.name@ == prop.name@,
        res.availability matches Topic::Device(path) && path@ == "status"@,
        res.state_topic matches Some(Topic::Device(path)) && path@ == prop.id@ + "/value"@,
        res.command_topic is None,
        res.component matches Component::Sensor { unit } && unit == prop.unit,
{
    Entity {
        device: String::from_str(dev),
        object_id: join_id(hostname, prop.id),
        unique_id: join_id(hostname, prop.id),
        name: prop.name,
        availability: status_topic(),
        state_topic: Some(Topic::Device(String::from_str(prop.id).concat("/value"))),
        command_topic: None,
        component: Component::Sensor { unit: prop.unit },
    }
}

/// The button to announce for an action of the device called `dev`.
pub fn publish_action(action: &Action, dev: &str, hostname: &str) -> (res: Entity)
    ensures
        res@ == action_button(*action, dev@, hostname@),
        res.device@ == dev@,
        res.object_id@ == hostname@ + "_"@ + action.id@,
        res.unique_id@ == hostname@ + "_"@ + action.id@,
        res.name@ == action.name@,
        res.availability matches Topic::Device(path) && path@ == "status"@,
        res.state_topic is None,
        res.command_topic matches Some(Topic::Device(path)) && path@ == action.id@ + "/trigger"@,
        res.component is Button,
{
    Entity {
        device: String::from_str(dev),
        object_id: join_id(hostname, action.id),
        unique_id: join_id(hostname, action.id),
        name: action.name,
        availability: status_topic(),
        state_topic: None,
        command_topic: Some(Topic::Device(String::from_str(action.id).concat("/trigger"))),
        component: Component::Button,
    }
}

/// How a value is written, if it is published at all.
fn write_value(val: &Value) -> (res: Option<String>)
    ensures
        match res {
            Some(s) => value_text(*val) == Some(s@),
            None => value_text(*val) is None,
        },
{
    match val {
        Value::Number(num) => {
            let mut out = String::new();
            push_decimal(&mut out, *num as u64, 0);
            assert(out@ =~= decimal(*num as nat));
            Some(out)
        },
        Value::Bool(flag) => Some(
            String::from_str(
                if *flag {
                    "Yes"
                } else {
                    "No"
                },
            ),
        ),
        Value::String(s) => Some(s.clone()),
        Value::Duration(secs) => {
            let total_mins: u64 = *secs / 60;
            let hours: u64 = total_mins / 60;
            let mins: u64 = total_mins % 60;
            let mut out = String::new();
            push_decimal(&mut out, hours, 0);
            out.append("h ");
            push_decimal(&mut out, mins, 0);
            out.append("min");
            assert(out@ =~= duration_text(*secs as nat));
            Some(out)
        },
        Value::Sensor(_, _) => None,
        Value::Date(date) => {
            let mut out = String::new();
            push_decimal(&mut out, date.year as u64, 0);
            out.append("-");
            push_decimal(&mut out, date.month as u64, 2);
            out.append("-");
            push_decimal(&mut out, date.day as u64, 2);
            assert(out@ =~= date_text(*date));
            Some(out)
        },
    }
}

/// The message that publishes the value of a property, if the value is of a
/// kind that is published.
pub fn publish_property_value(prop: &Property, val: &Value) -> (res: Option<Message>)
    ensures
        match res {
            Some(message) => value_message(*prop, *val) == Some(message@),
            None => value_message(*prop, *val) is None,
        },
        res is None <==> val is Sensor,
        res matches Some(message) ==> {
            &&& message.topic matches Topic::Device(path)
            &&& path@ == prop.id@ + "/value"@
        },
        res matches Some(message) ==> (val matches Value::String(s) ==> message.payload@ == s@),
{
    match write_value(val) {
        Some(payload) => Some(
            Message {
                topic: Topic::Device(String::from_str(prop.id).concat("/value")),
                payload,
            },
        ),
        None => None,
    }
}

/// A sensor takes its state from where the values of its property go.
pub proof fn law_values_reach_their_sensor(
    prop: Property,
    val: Value,
    device: Seq<char>,
    hostname: Seq<char>,
)
    ensures
        value_message(prop, val) matches Some(message) ==> property_sensor(
            prop,
            device,
            hostname,
        ).state_topic == Some(message.topic),
{
}

/// Different identifiers have different topics, and under one hostname they have
/// different entities.
pub proof fn law_identifiers_keep_apart(hostname: Seq<char>, a: Seq<char>, b: Seq<char>)
    requires
        a != b,
    ensures
        unique_id(hostname, a) != unique_id(hostname, b),
        value_topic(a) != value_topic(b),
        trigger_topic(a) != trigger_topic(b),
{
    let prefix = hostname + "_"@;
    if unique_id(hostname, a) == unique_id(hostname, b) {
        assert(a =~= unique_id(hostname, a).skip(prefix.len() as int));
        assert(b =~= unique_id(hostname, b).skip(prefix.len() as int));
    }
    if value_topic(a) == value_topic(b) {
        let whole = a + "/value"@;
        assert(whole == b + "/value"@);
        assert(a.len() == b.len());
        assert(a =~= whole.take(a.len() as int));
        assert(b =~= whole.take(b.len() as int));
    }
    if trigger_topic(a) == trigger_topic(b) {
        let whole = a + "/trigger"@;
        assert(whole == b + "/trigger"@);
        assert(a.len() == b.len());
        assert(a =~= whole.take(a.len() as int));
        assert(b =~= whole.take(b.len() as int));
    }
}

/// The hours and minutes of a duration are its whole minutes, and the minutes
/// are fewer than an hour has.
pub proof fn law_duration_adds_up(secs: nat)
    ensures
        duration_text(secs) == decimal(secs / 3600) + "h "@ + decimal(secs / 60 % 60) + "min"@,
        secs / 3600 * 60 + secs / 60 % 60 == secs / 60,
        secs / 60 % 60 < 60,
{
}

/// A sensor is that of its property: it has the name of the property, and its
/// unit, which is absent exactly when the property has none. It belongs to the
/// device, is identified below the hostname, is available with the appliance,
/// listens for the values of the property and takes no commands.
pub proof fn law_sensor_shows_its_property(prop: Property, device: Seq<char>, hostname: Seq<char>)
    ensures
        ({
            let sensor = property_sensor(prop, device, hostname);
            let id = sensor.unique_id;
            &&& sensor.name == prop.name@
            &&& sensor.device == device
            &&& sensor.component matches ComponentView::Sensor { unit }
            &&& unit is None <==> prop.unit is None
            &&& prop.unit matches Some(text) ==> unit == Some(text@)
            &&& sensor.object_id == id
            &&& id.len() == hostname.len() + 1 + prop.id@.len()
            &&& id.take(hostname.len() as int) == hostname
            &&& id[hostname.len() as int] == '_'
            &&& id.skip(hostname.len() as int + 1) == prop.id@
            &&& sensor.availability == Topic::Device("status"@)
            &&& sensor.state_topic matches Some(Topic::Device(path))
            &&& path.take(prop.id@.len() as int) == prop.id@
            &&& path.skip(prop.id@.len() as int) == "/value"@
            &&& sensor.command_topic is None
        }),
{
    reveal_strlit("_");
    let sensor = property_sensor(prop, device, hostname);
    let id = sensor.unique_id;
    assert(id.take(hostname.len() as int) =~= hostname);
    assert(id.skip(hostname.len() as int + 1) =~= prop.id@);
    let path = prop.id@ + "/value"@;
    assert(path.take(prop.id@.len() as int) =~= prop.id@);
    assert(path.skip(prop.id@.len() as int) =~= "/value"@);
}

/// Properties that differ in name, unit or identifier have sensors that differ
/// in it.
pub proof fn law_sensors_tell_properties_apart(
    a: Property,
    b: Property,
    device: Seq<char>,
    hostname: Seq<char>,
)
    ensures
        ({
            let left = property_sensor(a, device, hostname);
            let right = property_sensor(b, device, hostname);
            &&& left.name == right.name <==> a.name@ == b.name@
            &&& left.unique_id == right.unique_id <==> a.id@ == b.id@
            &&& left.object_id == right.object_id <==> a.id@ == b.id@
            &&& left.state_topic == right.state_topic <==> a.id@ == b.id@
            &&& a.unit is Some && b.unit is Some ==> (left.component == right.component
                <==> a.unit->0@ == b.unit->0@)
            &&& a.unit is Some && b.unit is None ==> left.component != right.component
        }),
{
    law_sensor_shows_its_property(a, device, hostname);
    law_sensor_shows_its_property(b, device, hostname);
}

/// A button is that of its action: it has the name of the action, belongs to the
/// device, is identified below the hostname, is available with the appliance,
/// triggers the action on its command topic and has no state.
pub proof fn law_button_shows_its_action(action: Action, device: Seq<char>, hostname: Seq<char>)
    ensures
        ({
            let button = action_button(action, device, hostname);
            let id = button.unique_id;
            &&& button.name == action.name@
            &&& button.device == device
            &&& button.component is Button
            &&& button.object_id == id
            &&& id.len() == hostname.len() + 1 + action.id@.len()
            &&& id.take(hostname.len() as int) == hostname
            &&& id[hostname.len() as int] == '_'
            &&& id.skip(hostname.len() as int + 1) == action.id@
            &&& button.availability == Topic::Device("status"@)
            &&& button.state_topic is None
            &&& button.command_topic matches Some(Topic::Device(path))
            &&& path.take(action.id@.len() as int) == action.id@
            &&& path.skip(action.id@.len() as int) == "/trigger"@
        }),
{
    reveal_strlit("_");
    let id = action_button(action, device, hostname).unique_id;
    assert(id.take(hostname.len() as int) =~= hostname);
    assert(id.skip(hostname.len() as int + 1) =~= action.id@);
    let path = action.id@ + "/trigger"@;
    assert(path.take(action.id@.len() as int) =~= action.id@);
    assert(path.skip(action.id@.len() as int) =~= "/trigger"@);
}

/// Whether a value is published depends on its kind alone: all but sensor
/// readings are. Where it goes depends on the property alone, and what is said
/// on the value alone.
pub proof fn law_value_goes_to_its_property(prop: Property, other: Property, val: Value)
    ensures
        value_message(prop, val) is Some <==> !(val is Sensor),
        value_message(prop, val) matches Some(message) ==> {
            &&& message.topic == Topic::Device(prop.id@ + "/value"@)
            &&& value_message(other, val)->0.payload == message.payload
        },
{
}

/// A text is published as it is, so that different texts have different
/// payloads.
pub proof fn law_texts_are_published_unchanged(prop: Property, a: String, b: String)
    ensures
        value_message(prop, Value::String(a)) matches Some(message) && message.payload == a@,
        a@ != b@ ==> value_message(prop, Value::String(a)) != value_message(prop, Value::String(b)),
{
}

/// A number is published in decimal digits that read as the number, without
/// leading zeros.
pub proof fn law_numbers_read_back(prop: Property, num: u32)
    ensures
        value_message(prop, Value::Number(num)) matches Some(message) && {
            &&& text::reads_as(message.payload, 10, num as int)
            &&& message.payload.len() > 1 ==> message.payload[0] != '0'
        },
{
    text::law_numeral_is_plain(num as nat, 10);
}

/// A truth value is published as one of two words.
pub proof fn law_truth_values(prop: Property, flag: bool)
    ensures
        value_message(prop, Value::Bool(flag)) matches Some(message) && message.payload == (
        if flag {
            "Yes"@
        } else {
            "No"@
        }),
{
}

/// Whether `payload` tells of so many hours and minutes.
pub open spec fn tells_duration(
    payload: Seq<char>,
    hours_text: Seq<char>,
    mins_text: Seq<char>,
    hours: int,
    mins: int,
) -> bool {
    &&& payload == hours_text + "h "@ + mins_text + "min"@
    &&& text::reads_as(hours_text, 10, hours)
    &&& text::reads_as(mins_text, 10, mins)
    &&& hours_text.len() > 1 ==> hours_text[0] != '0'
    &&& mins_text.len() > 1 ==> mins_text[0] != '0'
}

/// The hours and minutes that are published of a duration are less than a minute
/// short of it, and the minutes are fewer than an hour has.
pub proof fn law_durations_read_back(prop: Property, secs: u64)
    ensures
        value_message(prop, Value::Duration(secs)) matches Some(message) && exists|
            hours_text: Seq<char>,
            mins_text: Seq<char>,
            hours: int,
            mins: int,
        |
            {
                &&& #[trigger] tells_duration(message.payload, hours_text, mins_text, hours, mins)
                &&& 0 <= mins < 60
                &&& hours * 3600 + mins * 60 <= secs < hours * 3600 + mins * 60 + 60
            },
{
    let hours = secs as nat / 3600;
    let mins = secs as nat / 60 % 60;
    text::law_numeral_is_plain(hours, 10);
    text::law_numeral_is_plain(mins, 10);
    let payload = value_message(prop, Value::Duration(secs))->0.payload;
    assert(tells_duration(payload, decimal(hours), decimal(mins), hours as int, mins as int));
}

/// Whether `payload` is made of these three parts of a date.
pub open spec fn tells_date(
    payload: Seq<char>,
    year: Seq<char>,
    month: Seq<char>,
    day: Seq<char>,
) -> bool {
    payload == year + "-"@ + month + "-"@ + day
}

/// The parts of a date that is published read as its year, month and day. The
/// year has no leading zero; month and day have two digits, or more where two
/// are not enough.
pub proof fn law_dates_read_back(prop: Property, date: Date)
    ensures
        value_message(prop, Value::Date(date)) matches Some(message) && exists|
            year: Seq<char>,
            month: Seq<char>,
            day: Seq<char>,
        |
            {
                &&& #[trigger] tells_date(message.payload, year, month, day)
                &&& text::reads_as(year, 10, date.year as int)
                &&& year.len() > 1 ==> year[0] != '0'
                &&& text::reads_as(month, 10, date.month as int)
                &&& month.len() >= 2
                &&& month.len() > 2 ==> month[0] != '0'
                &&& text::reads_as(day, 10, date.day as int)
                &&& day.len() >= 2
                &&& day.len() > 2 ==> day[0] != '0'
            },
{
    text::law_numeral_is_plain(date.year as nat, 10);
    text::law_numeral_is_plain(date.month as nat, 10);
    text::law_numeral_is_plain(date.day as nat, 10);
    text::law_padded_numeral_is_plain(date.month as nat, 10, 2);
    text::law_padded_numeral_is_plain(date.day as nat, 10, 2);
    let payload = value_message(prop, Value::Date(date))->0.payload;
    let month = text::zero_padded(decimal(date.month as nat), 2);
    let day = text::zero_padded(decimal(date.day as nat), 2);
    assert(tells_date(payload, decimal(date.year as nat), month, day));
}

/// The views of an entity and of a message show all of them.
pub proof fn law_discovery_views(entity: Entity, message: Message)
    ensures
        entity@.device == entity.device@,
        entity@.object_id == entity.object_id@,
        entity@.unique_id == entity.unique_id@,
        entity@.name == entity.name@,
        entity@.availability == entity.availability@,
        entity.state_topic is None <==> entity@.state_topic is None,
        entity.state_topic matches Some(topic) ==> entity@.state_topic == Some(topic@),
        entity.command_topic is None <==> entity@.command_topic is None,
        entity.command_topic matches Some(topic) ==> entity@.command_topic == Some(topic@),
        entity.component is Button <==> entity@.component is Button,
        entity.component matches Component::Sensor { unit } ==> {
            &&& unit is None <==> entity@.component->unit is None
            &&& unit matches Some(text) ==> entity@.component->unit == Some(text@)
        },
        message@.topic == message.topic@,
        message@.payload == message.payload@,
{
}

} // verus!
