//! The message loop: what the gateway does on messages from the broker and on
//! the ticks of its clock.
use crate::discovery;
use crate::failure::Failure;
use crate::text;
use crate::topic::Topic;
use vstd::prelude::*;

verus! {

/// What the loop waits for.
#[derive(Debug)]
pub enum Event<'a> {
    /// The connection to the broker is up.
    Connected,
    /// The connection to the broker is down.
    Disconnected,
    /// A message has come in.
    Publish { topic: Topic<&'a str>, payload: &'a [u8] },
    /// Home Assistant has come online.
    HomeAssistantOnline,
    /// It is time to publish the appliance.
    Tick,
}

/// What the loop does.
#[derive(Debug)]
pub enum Work<'a> {
    Nothing,
    /// Start the interval between two ticks over.
    ResetTicker,
    /// Trigger the action `id` with this parameter.
    TriggerAction { id: &'a str, param: &'a str },
    /// Publish the appliance, then its availability.
    PublishDevice,
}

/// The view of an [`Event`].
pub enum EventView {
    Connected,
    Disconnected,
    Publish { topic: Topic<Seq<char>>, payload: Seq<u8> },
    HomeAssistantOnline,
    Tick,
}

/// The view of a [`Work`].
pub enum WorkView {
    Nothing,
    ResetTicker,
    TriggerAction { id: Seq<char>, param: Seq<char> },
    PublishDevice,
}

impl<'a> View for Event<'a> {
    type V = EventView;

    open spec fn view(&self) -> EventView {
        match self {
            Event::Connected => EventView::Connected,
            Event::Disconnected => EventView::Disconnected,
            Event::Publish { topic, payload } => EventView::Publish {
                topic: topic@,
                payload: payload@,
            },
            Event::HomeAssistantOnline => EventView::HomeAssistantOnline,
            Event::Tick => EventView::Tick,
        }
    }
}

impl<'a> View for Work<'a> {
    type V = WorkView;

    open spec fn view(&self) -> WorkView {
        match self {
            Work::Nothing => WorkView::Nothing,
            Work::ResetTicker => WorkView::ResetTicker,
            Work::TriggerAction { id, param } => WorkView::TriggerAction { id: id@, param: param@ },
            Work::PublishDevice => WorkView::PublishDevice,
        }
    }
}

/// The identifier and the parameter that a message asks to trigger: a message to
/// this device whose topic, up to the first slash, is the identifier, and after
/// it the word `trigger`. Its payload has to be UTF-8.
pub open spec fn trigger_request(topic: Topic<Seq<char>>, payload: Seq<u8>) -> Option<
    (Seq<char>, Seq<char>),
> {
    match topic {
        Topic::Device(path) => match text::split_at_first(path, '/') {
            Some((id, command)) => if command == "trigger"@ && vstd::utf8::valid_utf8(payload) {
                Some((id, vstd::utf8::decode_utf8(payload)))
            } else {
                None
            },
            None => None,
        },
        _ => None,
    }
}

/// Whether the broker is connected after an event.
pub open spec fn connected_after(connected: bool, event: EventView) -> bool {
    match event {
        EventView::Connected => true,
        EventView::Disconnected => false,
        _ => connected,
    }
}

/// What is done on an event.
pub open spec fn work_on(connected: bool, event: EventView) -> WorkView {
    match event {
        EventView::Connected => WorkView::ResetTicker,
        EventView::Publish { topic, payload } => match trigger_request(topic, payload) {
            Some((id, param)) => WorkView::TriggerAction { id, param },
            None => WorkView::Nothing,
        },
        EventView::Tick => if connected {
            WorkView::PublishDevice
        } else {
            WorkView::Nothing
        },
        _ => WorkView::Nothing,
    }
}

fn parse_trigger<'a>(topic: Topic<&'a str>, payload: &'a [u8]) -> (res: Option<
    (&'a str, &'a str),
>)
    ensures
        match res {
            Some((id, param)) => trigger_request(topic@, payload@) == Some((id@, param@)),
            None => trigger_request(topic@, payload@) is None,
        },
{
    if let Topic::Device(path) = topic {
        if let Some(param) = text::from_utf8(payload) {
            proof {
                vstd::utf8::encode_utf8_decode_utf8(param@);
            }
            if let Some((id, command)) = text::split_once(path, '/') {
                if text::str_eq(command, "trigger") {
                    return Some((id, param));
                }
            }
        }
    }
    None
}

/// The state of the loop.
#[derive(Debug)]
pub struct MessageLoop {
    connected: bool,
}

impl View for MessageLoop {
    type V = bool;

    /// Whether the broker is connected.
    closed spec fn view(&self) -> bool {
        self.connected
    }
}

impl MessageLoop {
    /// A loop that has not seen a connection yet.
    pub fn new() -> (res: MessageLoop)
        ensures
            !res@,
    {
        MessageLoop { connected: false }
    }

    /// Decides what to do on an event.
    pub fn handle<'a>(&mut self, event: Event<'a>) -> (res: Work<'a>)
        ensures
            final(self)@ == connected_after(old(self)@, event@),
            res@ == work_on(old(self)@, event@),
            event is Connected ==> final(self)@ && res is ResetTicker,
            event is Disconnected ==> !final(self)@ && res is Nothing,
            !(event is Connected || event is Disconnected) ==> final(self)@ == old(self)@,
            event is HomeAssistantOnline ==> res is Nothing,
            event is Tick ==> (res is PublishDevice <==> old(self)@) && (res is Nothing <==> !old(
                self,
            )@),
            event is Publish ==> res is TriggerAction || res is Nothing,
            res matches Work::TriggerAction { id, param } ==> {
                &&& event matches Event::Publish { topic: Topic::Device(path), payload }
                &&& path@ == id@ + "/trigger"@
                &&& !id@.contains('/')
                &&& payload@ == vstd::utf8::encode_utf8(param@)
            },
            event matches Event::Publish { topic: Topic::Device(path), payload } ==> forall|
                id: Seq<char>,
                param: Seq<char>,
            |
                #![trigger id + "/trigger"@, vstd::utf8::encode_utf8(param)]
                path@ == id + "/trigger"@ && !id.contains('/') && payload@
                    == vstd::utf8::encode_utf8(param) ==> {
                    &&& res matches Work::TriggerAction { id: i, param: p }
                    &&& i@ == id
                    &&& p@ == param
                },
    {
        proof {
            if event is Publish {
                lemma_publish_is_a_trigger(event->topic@, event->payload@);
            }
        }
        match event {
            Event::Connected => {
                self.connected = true;
                Work::ResetTicker
            },
            Event::Disconnected => {
                self.connected = false;
                Work::Nothing
            },
            Event::Publish { topic, payload } => match parse_trigger(topic, payload) {
                Some((id, param)) => Work::TriggerAction { id, param },
                None => Work::Nothing,
            },
            Event::HomeAssistantOnline => Work::Nothing,
            Event::Tick => if self.connected {
                Work::PublishDevice
            } else {
                Work::Nothing
            },
        }
    }

    /// Whether the status LED shows a connection.
    pub fn led_connected(&self) -> (res: bool)
        ensures
            res == self@,
    {
        self.connected
    }
}

/// Whether the appliance can be reached.
#[derive(Clone, Copy, Debug, PartialEq, Eq, Structural)]
pub enum Availability {
    Online,
    Offline,
}

/// A message about the availability.
#[derive(Debug)]
pub struct StatusMessage {
    pub topic: Topic<&'static str>,
    pub payload: Vec<u8>,
}

/// The payload that says so.
pub open spec fn availability_text(availability: Availability) -> Seq<char> {
    match availability {
        Availability::Online => "online"@,
        Availability::Offline => "offline"@,
    }
}

/// Whether `message` reports this availability.
pub open spec fn reports(message: StatusMessage, availability: Availability) -> bool {
    &&& message.topic@ == discovery::spec_status_topic()
    &&& message.payload@ == vstd::utf8::encode_utf8(availability_text(availability))
}

/// The payload of Home Assistant for an availability.
///
/// Calls `AsRef::as_ref` of `mcutie::homeassistant::AvailabilityState`, and takes
/// from it that the two states give the bytes of `online` and `offline`.
#[verifier::external_body]
fn availability_payload(availability: Availability) -> (res: Vec<u8>)
    ensures
        res@ == vstd::utf8::encode_utf8(availability_text(availability)),
{
    let state = match availability {
        Availability::Online => mcutie::homeassistant::AvailabilityState::Online,
        Availability::Offline => mcutie::homeassistant::AvailabilityState::Offline,
    };
    let bytes: &[u8] = state.as_ref();
    bytes.to_vec()
}

/// The message that reports an availability.
pub fn status_message(availability: Availability) -> (res: StatusMessage)
    ensures
        reports(res, availability),
        res.topic matches Topic::Device(path) && path@ == "status"@,
        availability == Availability::Online ==> res.payload@ == vstd::utf8::encode_utf8("online"@),
        availability == Availability::Offline ==> res.payload@ == vstd::utf8::encode_utf8(
            "offline"@,
        ),
{
    StatusMessage {
        topic: discovery::status_topic(),
        payload: availability_payload(availability),
    }
}

/// The availability that follows from how publishing the appliance ended.
pub open spec fn spec_availability(result: Result<(), Failure>) -> Availability {
    match result {
        Ok(_) => Availability::Online,
        Err(_) => Availability::Offline,
    }
}

/// The availability that follows from how publishing the appliance ended.
pub fn availability_after(result: &Result<(), Failure>) -> (res: Availability)
    ensures
        res == spec_availability(*result),
{
    match result {
        Ok(()) => Availability::Online,
        Err(_) => Availability::Offline,
    }
}

/// What the gateway registers with the broker.
#[derive(Debug)]
pub struct Session {
    /// The type of the device, the same for all gateways.
    pub device_type: &'static str,
    /// The topics it subscribes to.
    pub subscription: Topic<&'static str>,
    /// What the broker publishes when it loses the gateway.
    pub last_will: StatusMessage,
}

/// The topics that the gateway subscribes to, as a filter.
pub open spec fn spec_subscription() -> Topic<Seq<char>> {
    Topic::Device("+/trigger"@)
}

/// What the gateway registers with the broker: it takes triggers of any one
/// identifier, and is offline when it is lost.
pub fn session() -> (res: Session)
    ensures
        res.device_type@ == "freemdu_home"@,
        res.subscription@ == spec_subscription(),
        reports(res.last_will, Availability::Offline),
{
    Session {
        device_type: "freemdu_home",
        subscription: Topic::Device("+/trigger"),
        last_will: status_message(Availability::Offline),
    }
}

proof fn lemma_split_before_suffix(id: Seq<char>, suffix: Seq<char>)
    requires
        suffix.len() > 0,
        suffix[0] == '/',
    ensures
        text::split_at_first(id + suffix, '/') is Some,
        !id.contains('/') ==> text::split_at_first(id + suffix, '/') == Some(
            (id, suffix.drop_first()),
        ),
        id.contains('/') ==> (text::split_at_first(id + suffix, '/')->0).1.len() > suffix.len() - 1,
        suffix.len() > 1 ==> {
            let tail = (text::split_at_first(id + suffix, '/')->0).1;
            tail.len() > 0 && tail.last() == suffix.last()
        },
{
    let path = id + suffix;
    path.index_of_first_ensures('/');
    assert(path[id.len() as int] == '/');
    assert(path.contains('/'));
    let i = path.index_of_first('/')->0;
    if id.contains('/') {
        let k = choose|k: int| 0 <= k < id.len() && id[k] == '/';
        assert(path[k] == '/');
        assert(i <= k);
    } else {
        assert(i == id.len()) by {
            if i < id.len() {
                assert(id[i] == path[i]);
            }
        }
        assert(path.take(i) =~= id);
        assert(path.skip(i + 1) =~= suffix.drop_first());
    }
}

/// A message to the trigger topic of an action is understood as a request for
/// that action with the payload for parameter. This holds of every identifier
/// without a slash and every payload that is UTF-8, and of no other.
pub proof fn law_trigger_topic_is_understood(id: Seq<char>, payload: Seq<u8>)
    ensures
        trigger_request(Topic::Device(id + "/trigger"@), payload) == (if !id.contains('/')
            && vstd::utf8::valid_utf8(payload) {
            Some((id, vstd::utf8::decode_utf8(payload)))
        } else {
            None
        }),
        discovery::trigger_topic(id) == Topic::Device(id + "/trigger"@),
{
    reveal_strlit("/trigger");
    reveal_strlit("trigger");
    lemma_split_before_suffix(id, "/trigger"@);
    assert("/trigger"@.drop_first() =~= "trigger"@);
}

/// Whether a filter that begins with a `+` takes in a path: the `+` stands for
/// any text without a slash.
pub open spec fn takes_in(filter: Seq<char>, path: Seq<char>) -> bool {
    exists|level: Seq<char>|
        !level.contains('/') && path == #[trigger] (level + filter.drop_first())
}

/// The gateway subscribes to the trigger topics of all identifiers without a
/// slash, and of no other.
pub proof fn law_triggers_are_subscribed_to(id: Seq<char>)
    ensures
        takes_in(
            spec_subscription()->Device_0,
            discovery::trigger_topic(id)->Device_0,
        ) <==> !id.contains('/'),
{
    reveal_strlit("+/trigger");
    reveal_strlit("/trigger");
    let rest = "+/trigger"@.drop_first();
    assert(rest =~= "/trigger"@);
    let path = id + "/trigger"@;
    if takes_in("+/trigger"@, path) {
        let level = choose|level: Seq<char>|
            !level.contains('/') && path == #[trigger] (level + "+/trigger"@.drop_first());
        assert(path == level + rest);
        assert(path.len() == level.len() + rest.len());
        assert(level =~= path.take(level.len() as int));
        assert(id =~= path.take(id.len() as int));
    } else {
        assert(path == id + rest);
    }
}

/// What the gateway itself publishes never triggers anything.
pub proof fn law_own_messages_trigger_nothing(id: Seq<char>, payload: Seq<u8>)
    ensures
        trigger_request(discovery::value_topic(id), payload) is None,
        trigger_request(discovery::spec_status_topic(), payload) is None,
{
    reveal_strlit("/value");
    reveal_strlit("trigger");
    reveal_strlit("status");
    lemma_split_before_suffix(id, "/value"@);
    let tail = (text::split_at_first(id + "/value"@, '/')->0).1;
    assert("/value"@.last() == 'e');
    assert("trigger"@.last() == 'r');
    "status"@.index_of_first_ensures('/');
}

/// Whether the broker is connected after these events.
pub open spec fn connected_at_last(events: Seq<EventView>) -> bool
    decreases events.len(),
{
    if events.len() == 0 {
        false
    } else {
        connected_after(connected_at_last(events.drop_last()), events.last())
    }
}

/// The broker counts as connected, and the LED shows it, exactly when a
/// connection has come up and none has gone down since.
pub proof fn law_last_word_on_connection(events: Seq<EventView>)
    ensures
        connected_at_last(events) <==> exists|i: int|
            0 <= i < events.len() && #[trigger] events[i] is Connected && forall|j: int|
                i < j < events.len() ==> !(#[trigger] events[j] is Disconnected),
    decreases events.len(),
{
    if events.len() > 0 {
        let before = events.drop_last();
        law_last_word_on_connection(before);
        let n = events.len() - 1;
        if connected_at_last(events) {
            if events.last() is Connected {
                assert(events[n] is Connected);
            } else {
                let i = choose|i: int|
                    0 <= i < before.len() && #[trigger] before[i] is Connected && forall|j: int|
                        i < j < before.len() ==> !(#[trigger] before[j] is Disconnected);
                assert(events[i] is Connected);
                assert forall|j: int| i < j < events.len() implies !(
                #[trigger] events[j] is Disconnected) by {
                    if j < n {
                        assert(events[j] == before[j]);
                    }
                }
            }
        } else if exists|i: int|
            0 <= i < events.len() && #[trigger] events[i] is Connected && forall|j: int|
                i < j < events.len() ==> !(#[trigger] events[j] is Disconnected) {
            let i = choose|i: int|
                0 <= i < events.len() && #[trigger] events[i] is Connected && forall|j: int|
                    i < j < events.len() ==> !(#[trigger] events[j] is Disconnected);
            assert(events[n] == events.last());
            if i < n {
                assert(before[i] is Connected);
                assert forall|j: int| i < j < before.len() implies !(
                #[trigger] before[j] is Disconnected) by {
                    assert(before[j] == events[j]);
                }
            }
        }
    }
}

/// When the appliance could not be published, the message about it is the very
/// one that the broker publishes when it loses the gateway.
pub proof fn law_failure_reads_like_loss(
    result: Result<(), Failure>,
    status: StatusMessage,
    will: StatusMessage,
)
    requires
        result is Err,
        reports(status, spec_availability(result)),
        reports(will, Availability::Offline),
    ensures
        status.topic@ == will.topic@,
        status.payload@ == will.payload@,
{
}

/// The payloads of the two availabilities differ.
pub proof fn law_availabilities_differ(online: StatusMessage, offline: StatusMessage)
    requires
        reports(online, Availability::Online),
        reports(offline, Availability::Offline),
    ensures
        online.payload@ != offline.payload@,
{
    reveal_strlit("online");
    reveal_strlit("offline");
    vstd::utf8::encode_utf8_decode_utf8("online"@);
    vstd::utf8::encode_utf8_decode_utf8("offline"@);
    assert("online"@.len() != "offline"@.len());
}

/// What a message asks to trigger can be read off its topic and its payload.
proof fn lemma_publish_is_a_trigger(topic: Topic<Seq<char>>, payload: Seq<u8>)
    ensures
        trigger_request(topic, payload) matches Some((id, param)) ==> {
            &&& topic == Topic::Device(id + "/trigger"@)
            &&& !id.contains('/')
            &&& payload == vstd::utf8::encode_utf8(param)
        },
        topic matches Topic::Device(path) ==> forall|id: Seq<char>, param: Seq<char>|
            #![trigger id + "/trigger"@, vstd::utf8::encode_utf8(param)]
            path == id + "/trigger"@ && !id.contains('/') && payload == vstd::utf8::encode_utf8(
                param,
            ) ==> trigger_request(topic, payload) == Some((id, param)),
{
    reveal_strlit("/trigger");
    reveal_strlit("trigger");
    if let Some((id, param)) = trigger_request(topic, payload) {
        let path = topic->Device_0;
        text::law_split(path, '/');
        vstd::utf8::decode_utf8_encode_utf8(payload);
        assert(id.push('/') + "trigger"@ =~= id + "/trigger"@);
    }
    if let Topic::Device(path) = topic {
        assert forall|id: Seq<char>, param: Seq<char>|
            #![trigger id + "/trigger"@, vstd::utf8::encode_utf8(param)]
            path == id + "/trigger"@ && !id.contains('/') && payload == vstd::utf8::encode_utf8(
                param,
            ) implies trigger_request(topic, payload) == Some((id, param)) by {
            vstd::utf8::encode_utf8_valid_utf8(param);
            vstd::utf8::encode_utf8_decode_utf8(param);
            law_trigger_topic_is_understood(id, payload);
        }
    }
}

/// Whatever happened before, connected or not, a message to the trigger topic of
/// an identifier is worked on as a trigger of that identifier, with the text of
/// the message for parameter. It does not change whether the broker counts as
/// connected. An identifier with a slash would end early.
pub proof fn law_triggers_are_worked_on_at_any_time(
    events: Seq<EventView>,
    id: Seq<char>,
    param: Seq<char>,
)
    requires
        !id.contains('/'),
    ensures
        ({
            let message = EventView::Publish {
                topic: Topic::Device(id + "/trigger"@),
                payload: vstd::utf8::encode_utf8(param),
            };
            &&& work_on(connected_at_last(events), message) == WorkView::TriggerAction { id, param }
            &&& connected_at_last(events.push(message)) == connected_at_last(events)
        }),
{
    let payload = vstd::utf8::encode_utf8(param);
    lemma_publish_is_a_trigger(Topic::Device(id + "/trigger"@), payload);
    assert(vstd::utf8::encode_utf8(param) == payload);
    let message = EventView::Publish { topic: Topic::Device(id + "/trigger"@), payload };
    assert(events.push(message).drop_last() =~= events);
}

/// An action is triggered only by a message to this device on the trigger topic
/// of its identifier, and the parameter is the text of that message.
pub proof fn law_only_trigger_messages_trigger(connected: bool, event: EventView)
    ensures
        work_on(connected, event) matches WorkView::TriggerAction { id, param } ==> {
            &&& !id.contains('/')
            &&& event == EventView::Publish {
                topic: Topic::Device(id + "/trigger"@),
                payload: vstd::utf8::encode_utf8(param),
            }
        },
{
    if let EventView::Publish { topic, payload } = event {
        lemma_publish_is_a_trigger(topic, payload);
    }
}

/// Only the work on a tick depends on the connection.
pub proof fn law_only_ticks_need_the_connection(event: EventView)
    requires
        !(event is Tick),
    ensures
        work_on(true, event) == work_on(false, event),
        !(work_on(true, event) is PublishDevice),
        work_on(true, event) is ResetTicker <==> event is Connected,
{
}

/// The appliance is published on a tick exactly when a connection to the broker
/// has come up and none has gone down since. A tick does nothing else.
pub proof fn law_ticks_publish_while_connected(events: Seq<EventView>)
    ensures
        work_on(connected_at_last(events), EventView::Tick) is PublishDevice <==> exists|i: int|
            0 <= i < events.len() && #[trigger] events[i] is Connected && forall|j: int|
                i < j < events.len() ==> !(#[trigger] events[j] is Disconnected),
        work_on(connected_at_last(events), EventView::Tick) is PublishDevice || work_on(
            connected_at_last(events),
            EventView::Tick,
        ) is Nothing,
{
    law_last_word_on_connection(events);
}

/// The appliance counts as online exactly when all of it was published.
pub proof fn law_online_means_published(result: Result<(), Failure>)
    ensures
        spec_availability(result) == Availability::Online <==> result is Ok,
        spec_availability(result) == Availability::Offline <==> result is Err,
{
}

/// The views of events and of work show all of them.
pub proof fn law_message_views(event: Event<'_>, work: Work<'_>)
    ensures
        event is Connected <==> event@ is Connected,
        event is Disconnected <==> event@ is Disconnected,
        event is HomeAssistantOnline <==> event@ is HomeAssistantOnline,
        event is Tick <==> event@ is Tick,
        event matches Event::Publish { topic, payload } ==> event@ == (EventView::Publish {
            topic: topic@,
            payload: payload@,
        }),
        work is Nothing <==> work@ is Nothing,
        work is ResetTicker <==> work@ is ResetTicker,
        work is PublishDevice <==> work@ is PublishDevice,
        work matches Work::TriggerAction { id, param } ==> work@ == (WorkView::TriggerAction {
            id: id@,
            param: param@,
        }),
{
}

} // verus!
