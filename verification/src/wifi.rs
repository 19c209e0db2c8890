//! Setting Wi-Fi up, and keeping the connection up.
use vstd::prelude::*;

verus! {

/// How the radio is set up.
#[derive(Clone, Copy)]
pub struct WifiSettings {
    /// The country code; `01` is the world-wide safe one.
    pub country: [u8; 2],
    /// Whether the gateway operates indoors.
    pub indoors: bool,
    /// The network to join as a client.
    pub ssid: &'static str,
    pub password: &'static str,
}

/// The settings for a client of the network `ssid`.
pub fn wifi_settings(ssid: &'static str, password: &'static str) -> (res: WifiSettings)
    ensures
        res.country@ == seq!['0' as u8, '1' as u8],
        res.indoors,
        res.ssid@ == ssid@,
        res.password@ == password@,
{
    let country: [u8; 2] = [0x30, 0x31];
    assert(country@ =~= seq!['0' as u8, '1' as u8]);
    WifiSettings { country, indoors: true, ssid, password }
}

/// How long to wait before another attempt to connect, in seconds.
pub const WIFI_RETRY_DELAY_SECS: u64 = 5;

/// What the connection task does.
#[derive(Clone, Copy, Debug, PartialEq, Eq, Structural)]
pub enum WifiStep {
    /// Try to connect.
    Connect,
    /// Wait until the connection is lost.
    AwaitDisconnect,
    /// Wait this many seconds.
    Delay(u64),
}

/// How a step ended.
#[derive(Clone, Copy, Debug, PartialEq, Eq, Structural)]
pub enum WifiEvent {
    /// The attempt to connect succeeded.
    Connected,
    /// The attempt to connect failed.
    ConnectFailed,
    /// The connection was lost.
    Disconnected,
    /// The delay is over.
    DelayElapsed,
}

/// Whether a step can end so.
pub open spec fn can_end(step: WifiStep, event: WifiEvent) -> bool {
    match step {
        WifiStep::Connect => event == WifiEvent::Connected || event == WifiEvent::ConnectFailed,
        WifiStep::AwaitDisconnect => event == WifiEvent::Disconnected,
        WifiStep::Delay(_) => event == WifiEvent::DelayElapsed,
    }
}

/// The step after an event.
pub open spec fn spec_next_step(event: WifiEvent) -> WifiStep {
    match event {
        WifiEvent::Connected => WifiStep::AwaitDisconnect,
        WifiEvent::ConnectFailed => WifiStep::Delay(WIFI_RETRY_DELAY_SECS),
        WifiEvent::Disconnected => WifiStep::Connect,
        WifiEvent::DelayElapsed => WifiStep::Connect,
    }
}

/// The first step.
pub fn first_step() -> (res: WifiStep)
    ensures
        res == WifiStep::Connect,
{
    WifiStep::Connect
}

/// The step after an event.
pub fn next_step(event: WifiEvent) -> (res: WifiStep)
    ensures
        res == spec_next_step(event),
{
    match event {
        WifiEvent::Connected => WifiStep::AwaitDisconnect,
        WifiEvent::ConnectFailed => WifiStep::Delay(WIFI_RETRY_DELAY_SECS),
        WifiEvent::Disconnected => WifiStep::Connect,
        WifiEvent::DelayElapsed => WifiStep::Connect,
    }
}

/// The step that is taken after these events.
pub open spec fn step_after(events: Seq<WifiEvent>) -> WifiStep {
    if events.len() == 0 {
        WifiStep::Connect
    } else {
        spec_next_step(events.last())
    }
}

/// Whether these events can happen one after the other.
pub open spec fn possible(events: Seq<WifiEvent>) -> bool {
    forall|i: int|
        #![trigger events[i]]
        0 <= i < events.len() ==> can_end(step_after(events.take(i)), events[i])
}

/// After the first attempt, the gateway tries to connect only when a connection
/// was lost or when the delay after a failed attempt is over.
pub proof fn law_no_hasty_reconnect(events: Seq<WifiEvent>)
    requires
        possible(events),
        events.len() > 0,
        step_after(events) == WifiStep::Connect,
    ensures
        events.len() >= 2,
        events.last() == WifiEvent::Disconnected ==> events[events.len() - 2]
            == WifiEvent::Connected,
        events.last() == WifiEvent::DelayElapsed ==> {
            &&& events[events.len() - 2] == WifiEvent::ConnectFailed
            &&& step_after(events.drop_last()) == WifiStep::Delay(WIFI_RETRY_DELAY_SECS)
        },
        events.last() == WifiEvent::Disconnected || events.last() == WifiEvent::DelayElapsed,
{
    let n = events.len() - 1;
    assert(can_end(step_after(events.take(n)), events[n]));
    assert(events.take(n) =~= events.drop_last());
    if n > 0 {
        assert(events.take(n).last() == events[n - 1]);
    }
}

} // verus!
