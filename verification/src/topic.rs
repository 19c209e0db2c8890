//! MQTT topics.
use vstd::prelude::*;

verus! {

/// An MQTT topic, relative to the scope that its variant names.
#[derive(Debug)]
pub enum Topic<T> {
    /// Below the prefix of this type of device.
    DeviceType(T),
    /// Below the prefix of this very device.
    Device(T),
    /// Without a prefix.
    General(T),
}

impl View for Topic<String> {
    type V = Topic<Seq<char>>;

    open spec fn view(&self) -> Topic<Seq<char>> {
        match self {
            Topic::DeviceType(path) => Topic::DeviceType(path@),
            Topic::Device(path) => Topic::Device(path@),
            Topic::General(path) => Topic::General(path@),
        }
    }
}

impl<'a> View for Topic<&'a str> {
    type V = Topic<Seq<char>>;

    open spec fn view(&self) -> Topic<Seq<char>> {
        match self {
            Topic::DeviceType(path) => Topic::DeviceType(path@),
            Topic::Device(path) => Topic::Device(path@),
            Topic::General(path) => Topic::General(path@),
        }
    }
}

/// The view of a topic has its scope and its path.
pub proof fn law_topic_view(owned: Topic<String>, borrowed: Topic<&str>)
    ensures
        owned is Device <==> owned@ is Device,
        owned is DeviceType <==> owned@ is DeviceType,
        owned is General <==> owned@ is General,
        owned matches Topic::Device(path) ==> owned@->Device_0 == path@,
        owned matches Topic::DeviceType(path) ==> owned@->DeviceType_0 == path@,
        owned matches Topic::General(path) ==> owned@->General_0 == path@,
        borrowed is Device <==> borrowed@ is Device,
        borrowed is DeviceType <==> borrowed@ is DeviceType,
        borrowed is General <==> borrowed@ is General,
        borrowed matches Topic::Device(path) ==> borrowed@->Device_0 == path@,
        borrowed matches Topic::DeviceType(path) ==> borrowed@->DeviceType_0 == path@,
        borrowed matches Topic::General(path) ==> borrowed@->General_0 == path@,
{
}

} // verus!
