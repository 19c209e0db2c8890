//! What an appliance offers: properties to read and actions to trigger.
use vstd::prelude::*;

verus! {

/// What a property is about.
#[derive(Clone, Copy, Debug, PartialEq, Eq, Structural)]
pub enum PropertyKind {
    /// The state of operation, which is published.
    Operation,
    /// Anything else.
    Other,
}

/// What an action is for.
#[derive(Clone, Copy, Debug, PartialEq, Eq, Structural)]
pub enum ActionKind {
    /// Everyday operation, which is published.
    Operation,
    /// Anything else.
    Other,
}

/// A property of an appliance.
#[derive(Clone, Copy, Debug)]
pub struct Property {
    /// What the property is about.
    pub kind: PropertyKind,
    /// Its identifier, unique among the properties of the appliance.
    pub id: &'static str,
    /// Its name for people.
    pub name: &'static str,
    /// The unit of its values.
    pub unit: Option<&'static str>,
}

/// An action of an appliance.
#[derive(Clone, Copy, Debug)]
pub struct Action {
    /// What the action is for.
    pub kind: ActionKind,
    /// Its identifier, unique among the actions of the appliance.
    pub id: &'static str,
    /// Its name for people.
    pub name: &'static str,
    /// Whether the action takes parameters.
    pub has_params: bool,
}

/// A calendar date.
#[derive(Clone, Copy, Debug)]
pub struct Date {
    pub year: u16,
    pub month: u8,
    pub day: u8,
}

/// The value of a property, or the parameter of an action.
#[derive(Debug)]
pub enum Value {
    /// A number.
    Number(u32),
    /// A truth value.
    Bool(bool),
    /// A text.
    String(String),
    /// A duration, in whole seconds.
    Duration(u64),
    /// The current and the target reading of a sensor.
    Sensor(u32, u32),
    /// A date.
    Date(Date),
}

/// A connected appliance.
#[derive(Debug)]
pub struct Device {
    /// The kind of appliance, by name.
    pub kind: String,
    pub properties: Vec<Property>,
    pub actions: Vec<Action>,
}

/// The view of a [`Device`].
pub struct DeviceView {
    pub kind: Seq<char>,
    pub properties: Seq<Property>,
    pub actions: Seq<Action>,
}

impl View for Device {
    type V = DeviceView;

    open spec fn view(&self) -> DeviceView {
        DeviceView { kind: self.kind@, properties: self.properties@, actions: self.actions@ }
    }
}

/// How an operation on the appliance ended.
#[derive(Debug)]
pub enum Outcome<T> {
    /// It gave this result.
    Done(T),
    /// It did not end in time; the error is given as text.
    TimedOut(String),
    /// The appliance or the port failed; the error is given as text.
    Failed(String),
}

/// How long an operation on the appliance may take, in seconds.
pub const DEVICE_TIMEOUT_SECS: u64 = 1;

/// The view of a device shows all of it.
pub proof fn law_device_view(device: Device)
    ensures
        device@.kind == device.kind@,
        device@.properties == device.properties@,
        device@.actions == device.actions@,
{
}

} // verus!
