//! Failures and their messages.
use crate::device::Outcome;
use vstd::prelude::*;
use vstd::string::StringExecFns;

verus! {

/// What the gateway was doing when it failed.
#[derive(Clone, Copy, Debug, PartialEq, Eq, Structural)]
pub enum Stage {
    /// Connecting to the appliance, when time ran out.
    Connect,
    /// Querying a property, when time ran out.
    Query,
    /// Triggering an action, when time ran out.
    Trigger,
    /// Any operation that the appliance refused or that the port broke.
    Device,
    /// Looking for an action.
    FindAction,
    /// Publishing the discovery message of a sensor.
    PublishSensor,
    /// Publishing the discovery message of a button.
    PublishButton,
    /// Publishing the value of a property.
    PublishValue,
    /// Initializing the radio.
    InitRadio,
    /// Creating the Wi-Fi controller.
    CreateWifi,
    /// Setting the Wi-Fi configuration.
    ConfigureWifi,
    /// Starting the Wi-Fi controller.
    StartWifi,
    /// Setting the DHCP hostname.
    DhcpHostname,
}

impl Stage {
    /// What stands before the cause in the message of a failure.
    pub open spec fn spec_prefix(self) -> Seq<char> {
        match self {
            Stage::Connect => "Failed to connect to device: "@,
            Stage::Query => "Failed to query property: "@,
            Stage::Trigger => "Failed to trigger action: "@,
            Stage::Device => ""@,
            Stage::FindAction => "Failed to find action with id "@,
            Stage::PublishSensor => "Failed to publish HA sensor: "@,
            Stage::PublishButton => "Failed to publish HA button: "@,
            Stage::PublishValue => "Failed to publish property value: "@,
            Stage::InitRadio => "Failed to initialize radio: "@,
            Stage::CreateWifi => "Failed to create Wi-Fi controller: "@,
            Stage::ConfigureWifi => "Failed to set Wi-Fi configuration: "@,
            Stage::StartWifi => "Failed to start Wi-Fi controller: "@,
            Stage::DhcpHostname => "Failed to set DHCP hostname: "@,
        }
    }

    /// What stands before the cause in the message of a failure.
    fn prefix(self) -> (res: &'static str)
        ensures
            res@ == self.spec_prefix(),
    {
        match self {
            Stage::Connect => "Failed to connect to device: ",
            Stage::Query => "Failed to query property: ",
            Stage::Trigger => "Failed to trigger action: ",
            Stage::Device => "",
            Stage::FindAction => "Failed to find action with id ",
            Stage::PublishSensor => "Failed to publish HA sensor: ",
            Stage::PublishButton => "Failed to publish HA button: ",
            Stage::PublishValue => "Failed to publish property value: ",
            Stage::InitRadio => "Failed to initialize radio: ",
            Stage::CreateWifi => "Failed to create Wi-Fi controller: ",
            Stage::ConfigureWifi => "Failed to set Wi-Fi configuration: ",
            Stage::StartWifi => "Failed to start Wi-Fi controller: ",
            Stage::DhcpHostname => "Failed to set DHCP hostname: ",
        }
    }
}

/// A failure: what was being done, and why it failed.
#[derive(Debug)]
pub struct Failure {
    pub stage: Stage,
    /// The text of the underlying error. For [`Stage::FindAction`], the
    /// identifier that was looked for.
    pub cause: String,
}

/// The view of a [`Failure`].
pub struct FailureView {
    pub stage: Stage,
    pub cause: Seq<char>,
}

impl View for Failure {
    type V = FailureView;

    open spec fn view(&self) -> FailureView {
        FailureView { stage: self.stage, cause: self.cause@ }
    }
}

/// The message of a failure.
pub open spec fn message_text(stage: Stage, cause: Seq<char>) -> Seq<char> {
    stage.spec_prefix() + cause
}

impl Failure {
    /// The failure of `stage` by `cause`.
    pub fn new(stage: Stage, cause: String) -> (res: Failure)
        ensures
            res@ == (FailureView { stage, cause: cause@ }),
            res.stage == stage,
            res.cause@ == cause@,
    {
        Failure { stage, cause }
    }

    /// The message for people.
    pub fn message(&self) -> (res: String)
        ensures
            res@ == message_text(self.stage, self.cause@),
            res@ == self@.stage.spec_prefix() + self@.cause,
    {
        String::from_str(self.stage.prefix()).concat(self.cause.as_str())
    }
}

/// The view of a result that carries nothing but its failure.
pub open spec fn result_view(result: Result<(), Failure>) -> Option<FailureView> {
    match result {
        Ok(()) => None,
        Err(failure) => Some(failure@),
    }
}

/// The failure of an operation on the appliance that is at `stage` when time
/// runs out.
pub open spec fn outcome_failure<T>(outcome: Outcome<T>, stage: Stage) -> Option<FailureView> {
    match outcome {
        Outcome::Done(_) => None,
        Outcome::TimedOut(cause) => Some(FailureView { stage, cause: cause@ }),
        Outcome::Failed(cause) => Some(FailureView { stage: Stage::Device, cause: cause@ }),
    }
}

/// The result of an operation on the appliance that is at `stage` when time
/// runs out.
pub fn settle<T>(outcome: Outcome<T>, stage: Stage) -> (res: Result<T, Failure>)
    ensures
        match res {
            Ok(val) => outcome == Outcome::Done(val),
            Err(failure) => outcome_failure(outcome, stage) == Some(failure@),
        },
{
    match outcome {
        Outcome::Done(val) => Ok(val),
        Outcome::TimedOut(cause) => Err(Failure::new(stage, cause)),
        Outcome::Failed(cause) => Err(Failure::new(Stage::Device, cause)),
    }
}

/// The connection to the appliance, by how the attempt ended.
pub fn connect_to_device<T>(outcome: Outcome<T>) -> (res: Result<T, Failure>)
    ensures
        match res {
            Ok(val) => outcome == Outcome::Done(val),
            Err(failure) => outcome_failure(outcome, Stage::Connect) == Some(failure@),
        },
{
    settle(outcome, Stage::Connect)
}

/// The message of a failure ends with its whole cause, and before it stands what
/// depends on the stage alone. An error of the appliance is told as it is.
pub proof fn law_message_tells_the_cause(stage: Stage, cause: Seq<char>, other: Seq<char>)
    ensures
        ({
            let message = message_text(stage, cause);
            let start = message.len() - cause.len();
            &&& start >= 0
            &&& message.skip(start) == cause
            &&& message.take(start) == message_text(stage, seq![])
            &&& stage == Stage::Device ==> message == cause
        }),
        cause != other ==> message_text(stage, cause) != message_text(stage, other),
{
    reveal_strlit("");
    let message = message_text(stage, cause);
    let start = message.len() - cause.len();
    assert(message.skip(start) =~= cause);
    assert(message.take(start) =~= message_text(stage, seq![]));
    assert(message_text(stage, other).skip(start) =~= other);
    if stage == Stage::Device {
        assert(message =~= cause);
    }
}

/// An operation fails when it runs out of time, at its own stage, and when the
/// appliance or the port fails, at any stage. Either way the cause is kept.
pub proof fn law_failures_keep_the_cause<T>(outcome: Outcome<T>, stage: Stage)
    ensures
        outcome_failure(outcome, stage) is None <==> outcome is Done,
        outcome matches Outcome::TimedOut(cause) ==> {
            &&& outcome_failure(outcome, stage)->0.stage == stage
            &&& outcome_failure(outcome, stage)->0.cause == cause@
        },
        outcome matches Outcome::Failed(cause) ==> {
            &&& outcome_failure(outcome, stage)->0.stage == Stage::Device
            &&& outcome_failure(outcome, stage)->0.cause == cause@
        },
{
}

/// The view of a failure shows all of it.
pub proof fn law_failure_view(failure: Failure)
    ensures
        failure@.stage == failure.stage,
        failure@.cause == failure.cause@,
        result_view(Err(failure)) == Some(failure@),
        result_view(Ok(())) is None,
{
}

} // verus!
