//! Triggering an action: connect to the appliance, find the action, trigger it.
use crate::device::{Action, ActionKind, Outcome, Value};
use crate::discovery;
use crate::failure;
use crate::failure::{Failure, FailureView, Stage};
use crate::messages;
use crate::text;
use crate::topic::Topic;
use vstd::prelude::*;

verus! {

/// The place of the first action with this identifier.
pub open spec fn first_with_id(actions: Seq<Action>, id: Seq<char>) -> Option<int> {
    actions.map_values(|action: Action| action.id@).index_of_first(id)
}

/// What to trigger on the appliance.
#[derive(Debug)]
pub struct Invocation {
    /// The place of the action among those of the appliance.
    pub action: usize,
    /// The parameter to pass along.
    pub param: Option<Value>,
}

/// The view of an [`Invocation`]; a parameter is always a text.
pub struct InvocationView {
    pub action: int,
    pub param: Option<Seq<char>>,
}

/// Whether `invocation` is what the view says.
pub open spec fn invokes(invocation: Invocation, view: InvocationView) -> bool {
    &&& invocation.action as int == view.action
    &&& match view.param {
        Some(param) => invocation.param matches Some(Value::String(s)) && s@ == param,
        None => invocation.param is None,
    }
}

/// What to trigger for the action `id`: the first one with this identifier, with
/// the parameter if it takes one.
pub open spec fn invocation_of(
    actions: Seq<Action>,
    id: Seq<char>,
    param: Seq<char>,
) -> Option<InvocationView> {
    match first_with_id(actions, id) {
        Some(i) => Some(
            InvocationView {
                action: i,
                param: if actions[i].has_params {
                    Some(param)
                } else {
                    None
                },
            },
        ),
        None => None,
    }
}

fn find_action(actions: &Vec<Action>, id: &str) -> (res: Option<usize>)
    ensures
        match res {
            Some(i) => first_with_id(actions@, id@) == Some(i as int) && i < actions@.len(),
            None => first_with_id(actions@, id@) is None,
        },
{
    let ghost ids = actions@.map_values(|action: Action| action.id@);
    let mut i: usize = 0;
    while i < actions.len()
        invariant
            i <= actions@.len(),
            ids == actions@.map_values(|action: Action| action.id@),
            forall|j: int| 0 <= j < i ==> ids[j] != id@,
        decreases actions@.len() - i,
    {
        assert(ids[i as int] == actions@[i as int].id@);
        if text::str_eq(actions[i].id, id) {
            proof {
                ids.index_of_first_ensures(id@);
            }
            return Some(i);
        }
        i = i + 1;
    }
    proof {
        ids.index_of_first_ensures(id@);
    }
    None
}

/// Decides what to trigger for the action `id` with this parameter, once it is
/// known how connecting to the appliance went and which actions it has.
pub fn trigger_action(connection: Outcome<Vec<Action>>, id: &str, param: &str) -> (res: Result<
    Invocation,
    Failure,
>)
    ensures
        match res {
            Ok(invocation) => {
                &&& connection matches Outcome::Done(actions)
                &&& invocation_of(actions@, id@, param@) matches Some(view)
                &&& invokes(invocation, view)
                &&& invocation.action < actions@.len()
            },
            Err(failure) => match connection {
                Outcome::Done(actions) => {
                    &&& first_with_id(actions@, id@) is None
                    &&& failure@ == (FailureView { stage: Stage::FindAction, cause: id@ })
                },
                _ => failure::outcome_failure(connection, Stage::Connect) == Some(failure@),
            },
        },
        connection matches Outcome::Done(actions) ==> (res is Ok <==> exists|i: int|
            0 <= i < actions@.len() && (#[trigger] actions@[i]).id@ == id@),
        connection matches Outcome::Done(actions) ==> (res matches Ok(invocation) ==> {
            let i = invocation.action as int;
            &&& i < actions@.len()
            &&& actions@[i].id@ == id@
            &&& forall|j: int| 0 <= j < i ==> (#[trigger] actions@[j]).id@ != id@
            &&& invocation.param is Some <==> actions@[i].has_params
            &&& invocation.param matches Some(val) ==> val matches Value::String(s) && s@ == param@
        }),
        connection matches Outcome::Done(actions) ==> (res matches Err(failure) ==> failure.stage
            == Stage::FindAction && failure.cause@ == id@),
        connection matches Outcome::TimedOut(cause) ==> res matches Err(failure) && failure.stage
            == Stage::Connect && failure.cause@ == cause@,
        connection matches Outcome::Failed(cause) ==> res matches Err(failure) && failure.stage
            == Stage::Device && failure.cause@ == cause@,
{
    proof {
        if connection is Done {
            law_first_action_is_found(connection->Done_0@, id@);
        }
    }
    match failure::connect_to_device(connection) {
        Ok(actions) => match find_action(&actions, id) {
            Some(i) => {
                let param = if actions[i].has_params {
                    Some(Value::String(param.to_owned()))
                } else {
                    None
                };
                Ok(Invocation { action: i, param })
            },
            None => Err(Failure::new(Stage::FindAction, id.to_owned())),
        },
        Err(failure) => Err(failure),
    }
}

/// The result of triggering an action, by how the appliance took it.
pub fn trigger_result(outcome: Outcome<()>) -> (res: Result<(), Failure>)
    ensures
        failure::result_view(res) == failure::outcome_failure(outcome, Stage::Trigger),
        res is Ok <==> outcome is Done,
        outcome matches Outcome::TimedOut(cause) ==> res matches Err(failure) && failure.stage
            == Stage::Trigger && failure.cause@ == cause@,
        outcome matches Outcome::Failed(cause) ==> res matches Err(failure) && failure.stage
            == Stage::Device && failure.cause@ == cause@,
{
    failure::settle(outcome, Stage::Trigger)
}

/// Pressing the button of an action triggers that action, without a parameter:
/// whatever text is sent to the command topic of the button is a request for
/// which the appliance is told to do just that. No action before it may have
/// the same identifier, and a slash in the identifier would end it early.
pub proof fn law_button_triggers_its_action(
    actions: Seq<Action>,
    i: int,
    device: Seq<char>,
    hostname: Seq<char>,
    payload: Seq<u8>,
)
    requires
        0 <= i < actions.len(),
        actions[i].kind == ActionKind::Operation,
        !actions[i].has_params,
        forall|j: int| 0 <= j < i ==> #[trigger] actions[j].id@ != actions[i].id@,
        !actions[i].id@.contains('/'),
        vstd::utf8::valid_utf8(payload),
    ensures
        ({
            let topic = discovery::action_button(actions[i], device, hostname).command_topic->0;
            &&& messages::trigger_request(topic, payload) matches Some((id, param))
            &&& invocation_of(actions, id, param) == Some(
                InvocationView { action: i, param: None },
            )
        }),
{
    let id = actions[i].id@;
    messages::law_trigger_topic_is_understood(id, payload);
    let ids = actions.map_values(|action: Action| action.id@);
    ids.index_of_first_ensures(id);
    assert(ids[i] == id);
    assert(ids.contains(id));
    let k = ids.index_of_first(id)->0;
    assert(ids[k] == actions[k].id@);
}

/// An action is found exactly when one has the identifier, and then it is the
/// first one that has it.
pub proof fn law_first_action_is_found(actions: Seq<Action>, id: Seq<char>)
    ensures
        first_with_id(actions, id) is Some <==> exists|i: int|
            0 <= i < actions.len() && (#[trigger] actions[i]).id@ == id,
        first_with_id(actions, id) matches Some(i) ==> {
            &&& 0 <= i < actions.len()
            &&& actions[i].id@ == id
            &&& forall|j: int| 0 <= j < i ==> (#[trigger] actions[j]).id@ != id
        },
{
    let ids = actions.map_values(|action: Action| action.id@);
    ids.index_of_first_ensures(id);
    if let Some(i) = first_with_id(actions, id) {
        assert(ids[i] == actions[i].id@);
        assert forall|j: int| 0 <= j < i implies (#[trigger] actions[j]).id@ != id by {
            assert(ids[j] == actions[j].id@);
        }
    } else {
        assert forall|i: int| 0 <= i < actions.len() implies (#[trigger] actions[i]).id@ != id by {
            assert(ids[i] == actions[i].id@);
            assert(ids.contains(ids[i]));
        }
    }
}

/// What is triggered is the first action with the identifier. It is given the
/// parameter exactly when it takes one, and then the very text.
pub proof fn law_invocation_passes_the_parameter(
    actions: Seq<Action>,
    id: Seq<char>,
    param: Seq<char>,
    other: Seq<char>,
)
    ensures
        invocation_of(actions, id, param) is Some <==> exists|i: int|
            0 <= i < actions.len() && (#[trigger] actions[i]).id@ == id,
        invocation_of(actions, id, param) matches Some(view) ==> {
            &&& 0 <= view.action < actions.len()
            &&& actions[view.action].id@ == id
            &&& forall|j: int| 0 <= j < view.action ==> (#[trigger] actions[j]).id@ != id
            &&& view.param is Some <==> actions[view.action].has_params
            &&& view.param is Some ==> view.param->0 == param
            &&& actions[view.action].has_params && param != other ==> invocation_of(
                actions,
                id,
                other,
            ) != Some(view)
            &&& !actions[view.action].has_params ==> invocation_of(actions, id, other) == Some(view)
        },
{
    law_first_action_is_found(actions, id);
}

/// An invocation does what its view says: the same action, and a parameter
/// exactly when there is one to pass, which is the same text.
pub proof fn law_invocation_view(invocation: Invocation, view: InvocationView)
    requires
        invokes(invocation, view),
    ensures
        invocation.action as int == view.action,
        invocation.param is Some <==> view.param is Some,
        invocation.param matches Some(val) ==> val is String && val->String_0@ == view.param->0,
{
}

/// A message to the trigger topic of an action that takes parameters triggers
/// that action, with a text for parameter whose bytes are those of the message.
/// No action before it may have the same identifier, and a slash in the
/// identifier would end it early.
pub proof fn law_message_is_the_parameter(
    actions: Seq<Action>,
    i: int,
    payload: Seq<u8>,
    connected: bool,
    invocation: Invocation,
)
    requires
        0 <= i < actions.len(),
        actions[i].has_params,
        forall|j: int| 0 <= j < i ==> #[trigger] actions[j].id@ != actions[i].id@,
        !actions[i].id@.contains('/'),
        vstd::utf8::valid_utf8(payload),
    ensures
        ({
            let message = messages::EventView::Publish {
                topic: Topic::Device(actions[i].id@ + "/trigger"@),
                payload,
            };
            &&& messages::work_on(
                connected,
                message,
            ) matches messages::WorkView::TriggerAction { id, param }
            &&& invocation_of(actions, id, param) matches Some(view)
            &&& invokes(invocation, view) ==> {
                &&& invocation.action == i
                &&& invocation.param matches Some(Value::String(s))
                &&& vstd::utf8::encode_utf8(s@) == payload
            }
        }),
{
    let id = actions[i].id@;
    messages::law_trigger_topic_is_understood(id, payload);
    law_first_action_is_found(actions, id);
    vstd::utf8::decode_utf8_encode_utf8(payload);
}

} // verus!
