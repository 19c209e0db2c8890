//! Publishing an appliance: connect to it, query what is of interest, then
//! announce the entities and their values.
//!
//! All properties are queried before anything is announced, since announcing
//! takes long enough for the appliance to drop the connection.
//!
//! A run is a value that says what to do next. Its `resume` takes how that
//! went and gives the rest of the run.
use crate::device::{Action, ActionKind, Device, DeviceView, Outcome, Property, PropertyKind, Value};
use crate::discovery;
use crate::discovery::{Entity, EntityView, Message, MessageView};
use crate::failure;
use crate::failure::{Failure, FailureView, Stage};
use crate::topic::Topic;
use vstd::prelude::*;

verus! {

/// Something to publish.
#[derive(Debug)]
pub enum Announcement {
    /// The sensor that stands for a property.
    Property(Entity),
    /// The value of a property.
    Value(Message),
    /// The button that stands for an action.
    Action(Entity),
}

/// The view of an [`Announcement`].
pub enum AnnouncementView {
    Property(EntityView),
    Value(MessageView),
    Action(EntityView),
}

impl View for Announcement {
    type V = AnnouncementView;

    open spec fn view(&self) -> AnnouncementView {
        match self {
            Announcement::Property(entity) => AnnouncementView::Property(entity@),
            Announcement::Value(message) => AnnouncementView::Value(message@),
            Announcement::Action(entity) => AnnouncementView::Action(entity@),
        }
    }
}

impl AnnouncementView {
    /// The stage that fails when this cannot be published.
    pub open spec fn stage(self) -> Stage {
        match self {
            AnnouncementView::Property(_) => Stage::PublishSensor,
            AnnouncementView::Value(_) => Stage::PublishValue,
            AnnouncementView::Action(_) => Stage::PublishButton,
        }
    }
}

/// The places of the properties to query: those of operation, in order.
pub open spec fn queries(properties: Seq<Property>) -> Seq<int>
    decreases properties.len(),
{
    if properties.len() == 0 {
        seq![]
    } else {
        let rest = queries(properties.drop_last());
        if properties.last().kind == PropertyKind::Operation {
            rest.push(properties.len() - 1)
        } else {
            rest
        }
    }
}

/// What is announced of one property: its sensor, then its value unless it is
/// of a kind that is not published.
pub open spec fn reading(
    prop: Property,
    val: Value,
    device: Seq<char>,
    hostname: Seq<char>,
) -> Seq<AnnouncementView> {
    let sensor = seq![
        AnnouncementView::Property(discovery::property_sensor(prop, device, hostname)),
    ];
    match discovery::value_message(prop, val) {
        Some(message) => sensor.push(AnnouncementView::Value(message)),
        None => sensor,
    }
}

/// What is announced of the first `count` queried properties.
pub open spec fn readings(
    device: DeviceView,
    values: Seq<Value>,
    hostname: Seq<char>,
    count: nat,
) -> Seq<AnnouncementView>
    decreases count,
{
    if count == 0 {
        seq![]
    } else {
        let k = count - 1;
        readings(device, values, hostname, k as nat) + reading(
            device.properties[queries(device.properties)[k]],
            values[k],
            device.kind,
            hostname,
        )
    }
}

/// Whether an action is announced. Home Assistant has no component for actions
/// that take parameters.
pub open spec fn is_button(action: Action) -> bool {
    action.kind == ActionKind::Operation && !action.has_params
}

/// What is announced of the actions, in order.
pub open spec fn buttons(
    actions: Seq<Action>,
    device: Seq<char>,
    hostname: Seq<char>,
) -> Seq<AnnouncementView>
    decreases actions.len(),
{
    if actions.len() == 0 {
        seq![]
    } else {
        let rest = buttons(actions.drop_last(), device, hostname);
        if is_button(actions.last()) {
            rest.push(
                AnnouncementView::Action(
                    discovery::action_button(actions.last(), device, hostname),
                ),
            )
        } else {
            rest
        }
    }
}

/// All that is announced of a device whose queries gave `values`.
pub open spec fn outbox(device: DeviceView, values: Seq<Value>, hostname: Seq<char>) -> Seq<
    AnnouncementView,
> {
    readings(device, values, hostname, queries(device.properties).len()) + buttons(
        device.actions,
        device.kind,
        hostname,
    )
}

/// The state of a run.
pub enum RunView {
    /// Connecting to the appliance.
    Connecting,
    /// Querying the property that comes after those which gave `values`.
    Querying { device: DeviceView, values: Seq<Value> },
    /// Publishing the announcement that comes after the first `sent`.
    Announcing { outbox: Seq<AnnouncementView>, sent: int },
    /// Ended, with or without a failure.
    Finished(Option<FailureView>),
}

/// How the last step of a run went.
pub enum ReplyView {
    /// The appliance is connected.
    Connected(DeviceView),
    /// The property has this value.
    Answered(Value),
    /// The announcement is published.
    Sent,
    /// Time ran out.
    TimedOut(Seq<char>),
    /// It failed.
    Failed(Seq<char>),
}

/// The state after `values` have been queried.
pub open spec fn query_phase(
    device: DeviceView,
    values: Seq<Value>,
    hostname: Seq<char>,
) -> RunView {
    if values.len() < queries(device.properties).len() {
        RunView::Querying { device, values }
    } else {
        announce_phase(outbox(device, values, hostname), 0)
    }
}

/// The state after `sent` announcements.
pub open spec fn announce_phase(outbox: Seq<AnnouncementView>, sent: int) -> RunView {
    if sent < outbox.len() {
        RunView::Announcing { outbox, sent }
    } else {
        RunView::Finished(None)
    }
}

/// The state of a run that fails.
pub open spec fn failed(stage: Stage, cause: Seq<char>) -> RunView {
    RunView::Finished(Some(FailureView { stage, cause }))
}

/// Whether a reply is one to the step that the state asks for.
pub open spec fn answers(state: RunView, reply: ReplyView) -> bool {
    match state {
        RunView::Connecting => reply is Connected || reply is TimedOut || reply is Failed,
        RunView::Querying { .. } => reply is Answered || reply is TimedOut || reply is Failed,
        RunView::Announcing { .. } => reply is Sent || reply is Failed,
        RunView::Finished(_) => false,
    }
}

/// The state that follows on a reply to an announcement.
pub open spec fn announce_next(
    outbox: Seq<AnnouncementView>,
    sent: int,
    reply: ReplyView,
) -> RunView {
    match reply {
        ReplyView::Sent => announce_phase(outbox, sent + 1),
        ReplyView::Failed(cause) => failed(outbox[sent].stage(), cause),
        _ => RunView::Announcing { outbox, sent },
    }
}

/// The state that follows on a reply.
pub open spec fn run_next(hostname: Seq<char>, state: RunView, reply: ReplyView) -> RunView {
    match (state, reply) {
        (RunView::Connecting, ReplyView::Connected(device)) => query_phase(
            device,
            seq![],
            hostname,
        ),
        (RunView::Connecting, ReplyView::TimedOut(cause)) => failed(Stage::Connect, cause),
        (RunView::Connecting, ReplyView::Failed(cause)) => failed(Stage::Device, cause),
        (RunView::Querying { device, values }, ReplyView::Answered(value)) => query_phase(
            device,
            values.push(value),
            hostname,
        ),
        (RunView::Querying { .. }, ReplyView::TimedOut(cause)) => failed(Stage::Query, cause),
        (RunView::Querying { .. }, ReplyView::Failed(cause)) => failed(Stage::Device, cause),
        (RunView::Announcing { outbox, sent }, _) => announce_next(outbox, sent, reply),
        _ => state,
    }
}

/// How connecting went.
pub open spec fn connect_reply(outcome: Outcome<Device>) -> ReplyView {
    match outcome {
        Outcome::Done(device) => ReplyView::Connected(device@),
        Outcome::TimedOut(cause) => ReplyView::TimedOut(cause@),
        Outcome::Failed(cause) => ReplyView::Failed(cause@),
    }
}

/// How a query went.
pub open spec fn query_reply(outcome: Outcome<Value>) -> ReplyView {
    match outcome {
        Outcome::Done(value) => ReplyView::Answered(value),
        Outcome::TimedOut(cause) => ReplyView::TimedOut(cause@),
        Outcome::Failed(cause) => ReplyView::Failed(cause@),
    }
}

/// How publishing an announcement went.
pub open spec fn publish_reply(result: Result<(), String>) -> ReplyView {
    match result {
        Ok(()) => ReplyView::Sent,
        Err(cause) => ReplyView::Failed(cause@),
    }
}

/// The views of a list of announcements.
pub open spec fn announcement_views(list: Seq<Announcement>) -> Seq<AnnouncementView> {
    list.map_values(|a: Announcement| a@)
}

/// A run that connects to the appliance.
#[derive(Debug)]
pub struct Connecting {
    hostname: String,
}

/// A run that queries a property.
#[derive(Debug)]
pub struct Querying {
    hostname: String,
    device: Device,
    queries: Vec<usize>,
    values: Vec<Value>,
}

/// A run that publishes an announcement.
#[derive(Debug)]
pub struct Announcing {
    outbox: Vec<Announcement>,
    sent: usize,
}

/// A run after its first step.
#[derive(Debug)]
pub enum Run {
    /// Query a property.
    Query(Querying),
    /// Publish an announcement.
    Announce(Announcing),
    /// Nothing more to do.
    Finished(Result<(), Failure>),
}

impl View for Run {
    type V = RunView;

    open spec fn view(&self) -> RunView {
        match self {
            Run::Query(run) => run@,
            Run::Announce(run) => run@,
            Run::Finished(result) => RunView::Finished(failure::result_view(*result)),
        }
    }
}

impl Run {
    /// What holds of every run.
    pub open spec fn wf(self) -> bool {
        match self {
            Run::Query(run) => run.wf(),
            Run::Announce(run) => run.wf(),
            Run::Finished(_) => true,
        }
    }

    /// Whether the run, if it still needs the hostname, has this one.
    pub open spec fn has_hostname(self, hostname: Seq<char>) -> bool {
        self matches Run::Query(run) ==> run.hostname() == hostname
    }
}

proof fn lemma_queries_of_operation(properties: Seq<Property>)
    ensures
        forall|k: int|
            #![trigger queries(properties)[k]]
            0 <= k < queries(properties).len() ==> {
                &&& 0 <= queries(properties)[k] < properties.len()
                &&& properties[queries(properties)[k]].kind == PropertyKind::Operation
            },
    decreases properties.len(),
{
    if properties.len() > 0 {
        lemma_queries_of_operation(properties.drop_last());
    }
}

/// The places of the properties to query.
fn find_queries(properties: &Vec<Property>) -> (res: Vec<usize>)
    ensures
        res@.map_values(|i: usize| i as int) == queries(properties@),
{
    let mut found: Vec<usize> = Vec::new();
    let mut i: usize = 0;
    assert(found@.map_values(|i: usize| i as int) =~= queries(properties@.take(0)));
    while i < properties.len()
        invariant
            i <= properties@.len(),
            found@.map_values(|i: usize| i as int) == queries(properties@.take(i as int)),
        decreases properties@.len() - i,
    {
        let ghost before = found@;
        proof {
            assert(properties@.take(i + 1).drop_last() =~= properties@.take(i as int));
        }
        if properties[i].kind == PropertyKind::Operation {
            found.push(i);
            assert(found@.map_values(|i: usize| i as int) =~= before.map_values(
                |i: usize| i as int,
            ).push(i as int));
        }
        i = i + 1;
    }
    assert(properties@.take(i as int) =~= properties@);
    found
}

fn push_announcement(out: &mut Vec<Announcement>, item: Announcement)
    ensures
        announcement_views(final(out)@) == announcement_views(old(out)@).push(item@),
{
    out.push(item);
    assert(announcement_views(out@) =~= announcement_views(old(out)@).push(item@));
}

/// Announces the queried properties, then the actions.
fn fill_outbox(
    hostname: &str,
    device: &Device,
    places: &Vec<usize>,
    values: &Vec<Value>,
) -> (res: Vec<Announcement>)
    requires
        places@.map_values(|i: usize| i as int) == queries(device@.properties),
        values@.len() == places@.len(),
    ensures
        announcement_views(res@) == outbox(device@, values@, hostname@),
{
    let mut out: Vec<Announcement> = Vec::new();
    let mut k: usize = 0;
    proof {
        lemma_queries_of_operation(device@.properties);
        assert(announcement_views(out@) =~= seq![]);
    }
    let ghost asked = queries(device@.properties);
    assert(asked.len() == places@.len());
    while k < places.len()
        invariant
            k <= places@.len(),
            values@.len() == places@.len(),
            asked == queries(device@.properties),
            asked.len() == places@.len(),
            places@.map_values(|i: usize| i as int) == asked,
            forall|j: int|
                #![trigger asked[j]]
                0 <= j < asked.len() ==> 0 <= asked[j] < device@.properties.len(),
            announcement_views(out@) == readings(device@, values@, hostname@, k as nat),
        decreases places@.len() - k,
    {
        let ghost before = announcement_views(out@);
        assert(asked[k as int] == places@[k as int] as int);
        let prop = &device.properties[places[k]];
        let val = &values[k];
        let entity = discovery::publish_property(prop, device.kind.as_str(), hostname);
        push_announcement(&mut out, Announcement::Property(entity));
        if let Some(message) = discovery::publish_property_value(prop, val) {
            push_announcement(&mut out, Announcement::Value(message));
        }
        assert(announcement_views(out@) =~= before + reading(
            *prop,
            *val,
            device@.kind,
            hostname@,
        ));
        k = k + 1;
    }
    let ghost read = announcement_views(out@);
    let mut i: usize = 0;
    assert(announcement_views(out@) =~= read + buttons(
        device@.actions.take(0),
        device@.kind,
        hostname@,
    ));
    while i < device.actions.len()
        invariant
            i <= device@.actions.len(),
            announcement_views(out@) == read + buttons(
                device@.actions.take(i as int),
                device@.kind,
                hostname@,
            ),
        decreases device@.actions.len() - i,
    {
        proof {
            assert(device@.actions.take(i + 1).drop_last() =~= device@.actions.take(i as int));
        }
        let action = &device.actions[i];
        if action.kind == ActionKind::Operation && !action.has_params {
            let entity = discovery::publish_action(action, device.kind.as_str(), hostname);
            push_announcement(&mut out, Announcement::Action(entity));
        }
        assert(announcement_views(out@) =~= read + buttons(
            device@.actions.take(i + 1),
            device@.kind,
            hostname@,
        ));
        i = i + 1;
    }
    assert(device@.actions.take(i as int) =~= device@.actions);
    out
}

/// Starts to publish the appliance under `hostname`.
pub fn publish_device(hostname: &str) -> (res: Connecting)
    ensures
        res.hostname() == hostname@,
        res@ == RunView::Connecting,
{
    Connecting { hostname: hostname.to_owned() }
}

impl View for Connecting {
    type V = RunView;

    open spec fn view(&self) -> RunView {
        RunView::Connecting
    }
}

impl Connecting {
    /// The hostname under which the appliance is published.
    pub closed spec fn hostname(self) -> Seq<char> {
        self.hostname@
    }

    /// Goes on with how connecting to the appliance went.
    pub fn resume(self, outcome: Outcome<Device>) -> (res: Run)
        ensures
            res@ == run_next(self.hostname(), self@, connect_reply(outcome)),
            outcome matches Outcome::TimedOut(cause) ==> res matches Run::Finished(Err(failure))
                && failure.stage == Stage::Connect && failure.cause@ == cause@,
            outcome matches Outcome::Failed(cause) ==> res matches Run::Finished(Err(failure))
                && failure.stage == Stage::Device && failure.cause@ == cause@,
            res matches Run::Query(run) ==> outcome matches Outcome::Done(device)
                && run.device().kind == device.kind@ && run.device().properties
                == device.properties@ && run.device().actions == device.actions@
                && run.values().len() == 0,
            res.wf(),
            res.has_hostname(self.hostname()),
    {
        match failure::connect_to_device(outcome) {
            Ok(device) => {
                let places = find_queries(&device.properties);
                let run = Querying {
                    hostname: self.hostname,
                    device,
                    queries: places,
                    values: Vec::new(),
                };
                run.settle()
            },
            Err(failure) => Run::Finished(Err(failure)),
        }
    }
}

impl View for Querying {
    type V = RunView;

    open spec fn view(&self) -> RunView {
        RunView::Querying { device: self.device(), values: self.values() }
    }
}

impl Querying {
    /// The appliance.
    pub closed spec fn device(self) -> DeviceView {
        self.device@
    }

    /// The values that have been queried so far.
    pub closed spec fn values(self) -> Seq<Value> {
        self.values@
    }

    /// The hostname under which the appliance is published.
    pub closed spec fn hostname(self) -> Seq<char> {
        self.hostname@
    }

    spec fn coherent(self) -> bool {
        &&& self.queries@.map_values(|i: usize| i as int) == queries(self.device@.properties)
        &&& self.values@.len() <= self.queries@.len()
    }

    /// What holds of every such run: a property is left to query.
    pub closed spec fn wf(self) -> bool {
        self.coherent() && self.values@.len() < self.queries@.len()
    }

    /// Queries on, or turns to the announcements when nothing is left to query.
    fn settle(self) -> (res: Run)
        requires
            self.coherent(),
        ensures
            res@ == query_phase(self.device@, self.values@, self.hostname@),
            res.wf(),
            res.has_hostname(self.hostname@),
    {
        assert(self.queries@.len() == queries(self.device@.properties).len());
        if self.values.len() < self.queries.len() {
            Run::Query(self)
        } else {
            let run = Announcing {
                outbox: fill_outbox(
                    self.hostname.as_str(),
                    &self.device,
                    &self.queries,
                    &self.values,
                ),
                sent: 0,
            };
            run.settle()
        }
    }

    /// The place of the property to query among those of the appliance.
    pub fn property(&self) -> (res: usize)
        requires
            self.wf(),
        ensures
            self.values().len() < queries(self.device().properties).len(),
            res as int == queries(self.device().properties)[self.values().len() as int],
            res < self.device().properties.len(),
            self.device().properties[res as int].kind == PropertyKind::Operation,
    {
        let k: usize = self.values.len();
        proof {
            lemma_queries_of_operation(self.device@.properties);
            assert(queries(self.device@.properties)[k as int] == self.queries@[k as int] as int);
        }
        self.queries[k]
    }

    /// Goes on with how the query went.
    pub fn resume(self, outcome: Outcome<Value>) -> (res: Run)
        requires
            self.wf(),
        ensures
            res@ == run_next(self.hostname(), self@, query_reply(outcome)),
            outcome matches Outcome::TimedOut(cause) ==> res matches Run::Finished(Err(failure))
                && failure.stage == Stage::Query && failure.cause@ == cause@,
            outcome matches Outcome::Failed(cause) ==> res matches Run::Finished(Err(failure))
                && failure.stage == Stage::Device && failure.cause@ == cause@,
            res matches Run::Query(run) ==> outcome matches Outcome::Done(value) && run.device()
                == self.device() && run.values() == self.values().push(value),
            res.wf(),
            res.has_hostname(self.hostname()),
    {
        match failure::settle(outcome, Stage::Query) {
            Ok(value) => {
                let mut run = self;
                run.values.push(value);
                run.settle()
            },
            Err(failure) => Run::Finished(Err(failure)),
        }
    }
}

impl View for Announcing {
    type V = RunView;

    open spec fn view(&self) -> RunView {
        RunView::Announcing { outbox: self.outbox(), sent: self.sent() }
    }
}

impl Announcing {
    /// All there is to announce.
    pub closed spec fn outbox(self) -> Seq<AnnouncementView> {
        announcement_views(self.outbox@)
    }

    /// How many announcements are published.
    pub closed spec fn sent(self) -> int {
        self.sent as int
    }

    /// What holds of every such run: an announcement is left to publish.
    pub closed spec fn wf(self) -> bool {
        self.sent < self.outbox@.len()
    }

    /// Announces on, or ends when nothing is left to announce.
    fn settle(self) -> (res: Run)
        requires
            self.sent <= self.outbox@.len(),
        ensures
            res@ == announce_phase(announcement_views(self.outbox@), self.sent as int),
            res.wf(),
            !(res is Query),
    {
        if self.sent < self.outbox.len() {
            Run::Announce(self)
        } else {
            Run::Finished(Ok(()))
        }
    }

    /// The announcement to publish.
    pub fn announcement(&self) -> (res: &Announcement)
        requires
            self.wf(),
        ensures
            0 <= self.sent() < self.outbox().len(),
            res@ == self.outbox()[self.sent()],
    {
        &self.outbox[self.sent]
    }

    /// Goes on with how publishing the announcement went.
    pub fn resume(self, result: Result<(), String>) -> (res: Run)
        requires
            self.wf(),
        ensures
            res@ == announce_next(self.outbox(), self.sent(), publish_reply(result)),
            result matches Err(cause) ==> res matches Run::Finished(Err(failure)) && failure.cause@
                == cause@,
            res matches Run::Announce(run) ==> result is Ok && run.outbox() == self.outbox()
                && run.sent() == self.sent() + 1,
            res.wf(),
            !(res is Query),
    {
        match result {
            Ok(()) => {
                let mut run = self;
                assert(run.sent < run.outbox.len());
                run.sent = run.sent + 1;
                run.settle()
            },
            Err(cause) => {
                let stage = match &self.outbox[self.sent] {
                    Announcement::Property(_) => Stage::PublishSensor,
                    Announcement::Value(_) => Stage::PublishValue,
                    Announcement::Action(_) => Stage::PublishButton,
                };
                Run::Finished(Err(Failure::new(stage, cause)))
            },
        }
    }
}

/// The state of a run after these replies.
pub open spec fn run(hostname: Seq<char>, replies: Seq<ReplyView>) -> RunView
    decreases replies.len(),
{
    if replies.len() == 0 {
        RunView::Connecting
    } else {
        run_next(hostname, run(hostname, replies.drop_last()), replies.last())
    }
}

/// Whether each reply is one to the step that the run asked for.
pub open spec fn apt(hostname: Seq<char>, replies: Seq<ReplyView>) -> bool
    decreases replies.len(),
{
    replies.len() > 0 ==> {
        &&& apt(hostname, replies.drop_last())
        &&& answers(run(hostname, replies.drop_last()), replies.last())
    }
}

/// The replies of a run in which all goes well: the appliance is connected, its
/// properties have these values, and `sent` announcements are published.
pub open spec fn script(device: DeviceView, values: Seq<Value>, sent: int) -> Seq<ReplyView> {
    seq![ReplyView::Connected(device)] + values.map_values(|v: Value| ReplyView::Answered(v))
        + Seq::new(sent as nat, |i: int| ReplyView::Sent)
}

proof fn lemma_script_steps(device: DeviceView, values: Seq<Value>, sent: int)
    requires
        sent >= 0,
    ensures
        sent > 0 ==> script(device, values, sent).drop_last() == script(device, values, sent - 1),
        sent > 0 ==> script(device, values, sent).last() == ReplyView::Sent,
        values.len() > 0 ==> script(device, values, 0).drop_last() == script(
            device,
            values.drop_last(),
            0,
        ),
        values.len() > 0 ==> script(device, values, 0).last() == ReplyView::Answered(values.last()),
        script(device, seq![], 0) == seq![ReplyView::Connected(device)],
{
    if sent > 0 {
        assert(script(device, values, sent).drop_last() =~= script(device, values, sent - 1));
    }
    if values.len() > 0 {
        assert(script(device, values, 0).drop_last() =~= script(device, values.drop_last(), 0));
    }
    assert(script(device, seq![], 0) =~= seq![ReplyView::Connected(device)]);
}

/// While all goes well, a run queries the properties of operation one after the
/// other, and keeps what they gave.
pub proof fn law_queries_one_by_one(hostname: Seq<char>, device: DeviceView, values: Seq<Value>)
    requires
        values.len() <= queries(device.properties).len(),
    ensures
        run(hostname, script(device, values, 0)) == query_phase(device, values, hostname),
        values.len() < queries(device.properties).len() ==> run(hostname, script(device, values, 0))
            == (RunView::Querying { device, values }),
    decreases values.len(),
{
    lemma_script_steps(device, values, 0);
    if values.len() > 0 {
        law_queries_one_by_one(hostname, device, values.drop_last());
        assert(values.drop_last().push(values.last()) =~= values);
    } else {
        assert(values =~= seq![]);
        assert(script(device, values, 0).drop_last() =~= seq![]);
        assert(script(device, values, 0).last() == ReplyView::Connected(device));
        assert(run(hostname, seq![]) == RunView::Connecting);
    }
}

/// When all properties of operation have been queried, a run announces them and
/// the buttons one after the other, and succeeds after the last one.
pub proof fn law_announces_one_by_one(
    hostname: Seq<char>,
    device: DeviceView,
    values: Seq<Value>,
    sent: int,
)
    requires
        values.len() == queries(device.properties).len(),
        0 <= sent <= outbox(device, values, hostname).len(),
    ensures
        run(hostname, script(device, values, sent)) == announce_phase(
            outbox(device, values, hostname),
            sent,
        ),
        sent < outbox(device, values, hostname).len() ==> run(
            hostname,
            script(device, values, sent),
        ) == (RunView::Announcing { outbox: outbox(device, values, hostname), sent }),
        sent == outbox(device, values, hostname).len() ==> run(
            hostname,
            script(device, values, sent),
        ) == RunView::Finished(None),
    decreases sent,
{
    if sent == 0 {
        law_queries_one_by_one(hostname, device, values);
    } else {
        lemma_script_steps(device, values, sent);
        law_announces_one_by_one(hostname, device, values, sent - 1);
    }
}

/// Whether these are the replies of a run in which all went well: `list` is what
/// there is to announce of this device and these values, and `sent` of it are
/// published.
pub open spec fn went_well(
    hostname: Seq<char>,
    replies: Seq<ReplyView>,
    device: DeviceView,
    values: Seq<Value>,
    list: Seq<AnnouncementView>,
    sent: int,
) -> bool {
    &&& values.len() == queries(device.properties).len()
    &&& list == outbox(device, values, hostname)
    &&& 0 <= sent <= list.len()
    &&& replies == script(device, values, sent)
}

proof fn lemma_went_well(
    hostname: Seq<char>,
    replies: Seq<ReplyView>,
    device: DeviceView,
    values: Seq<Value>,
    list: Seq<AnnouncementView>,
    sent: int,
)
    requires
        went_well(hostname, replies, device, values, list, sent),
        run(hostname, replies) == announce_phase(list, sent),
    ensures
        run(hostname, replies) matches RunView::Announcing { outbox: list, sent } ==> {
            &&& sent < list.len()
            &&& exists|device: DeviceView, values: Seq<Value>| #[trigger]
                went_well(hostname, replies, device, values, list, sent)
        },
        run(hostname, replies) == RunView::Finished(None) ==> exists|
            device: DeviceView,
            values: Seq<Value>,
            list: Seq<AnnouncementView>,
            sent: int,
        | #[trigger]
            went_well(hostname, replies, device, values, list, sent) && sent == list.len(),
{
}

/// A run is in the middle of its queries only after a connection and the values
/// that it keeps, announces only after every property of operation has given
/// its value, succeeds only after all announcements were published, and fails
/// only on a reply that is a failure.
pub proof fn law_nothing_is_skipped(hostname: Seq<char>, replies: Seq<ReplyView>)
    requires
        apt(hostname, replies),
    ensures
        run(hostname, replies) is Connecting ==> replies.len() == 0,
        run(hostname, replies) matches RunView::Querying { device, values } ==> {
            &&& values.len() < queries(device.properties).len()
            &&& replies == script(device, values, 0)
        },
        run(hostname, replies) matches RunView::Announcing { outbox: list, sent } ==> {
            &&& sent < list.len()
            &&& exists|device: DeviceView, values: Seq<Value>| #[trigger]
                went_well(hostname, replies, device, values, list, sent)
        },
        run(hostname, replies) == RunView::Finished(None) ==> exists|
            device: DeviceView,
            values: Seq<Value>,
            list: Seq<AnnouncementView>,
            sent: int,
        | #[trigger]
            went_well(hostname, replies, device, values, list, sent) && sent == list.len(),
        run(hostname, replies) matches RunView::Finished(Some(_)) ==> replies.len() > 0 && (
        replies.last() is TimedOut || replies.last() is Failed),
    decreases replies.len(),
{
    if replies.len() > 0 {
        let before = replies.drop_last();
        law_nothing_is_skipped(hostname, before);
        assert(replies =~= before.push(replies.last()));
        match (run(hostname, before), replies.last()) {
            (RunView::Connecting, ReplyView::Connected(device)) => {
                let none: Seq<Value> = seq![];
                assert(replies =~= script(device, none, 0));
                if queries(device.properties).len() == 0 {
                    let list = outbox(device, none, hostname);
                    lemma_went_well(hostname, replies, device, none, list, 0);
                }
            },
            (RunView::Querying { device, values }, ReplyView::Answered(value)) => {
                let all = values.push(value);
                assert(replies =~= script(device, all, 0));
                if queries(device.properties).len() == all.len() {
                    let list = outbox(device, all, hostname);
                    lemma_went_well(hostname, replies, device, all, list, 0);
                }
            },
            (RunView::Announcing { outbox: list, sent }, ReplyView::Sent) => {
                let (device, values) = choose|device: DeviceView, values: Seq<Value>| #[trigger]
                    went_well(hostname, before, device, values, list, sent);
                assert(replies =~= script(device, values, sent + 1));
                lemma_went_well(hostname, replies, device, values, list, sent + 1);
            },
            _ => {},
        }
    }
}

/// A run that has ended stays as it is.
pub proof fn law_the_end_is_final(hostname: Seq<char>, state: RunView, reply: ReplyView)
    requires
        state is Finished,
    ensures
        run_next(hostname, state, reply) == state,
{
}

/// The properties that are queried are those of operation, in order.
pub proof fn law_queries_are_of_operation(properties: Seq<Property>)
    ensures
        queries(properties).map_values(|i: int| properties[i]) == properties.filter(
            |prop: Property| prop.kind == PropertyKind::Operation,
        ),
        forall|k: int|
            #![trigger queries(properties)[k]]
            0 <= k < queries(properties).len() ==> 0 <= queries(properties)[k] < properties.len(),
        forall|k: int, l: int|
            #![trigger queries(properties)[k], queries(properties)[l]]
            0 <= k < l < queries(properties).len() ==> queries(properties)[k] < queries(
                properties,
            )[l],
        forall|i: int|
            #![trigger properties[i]]
            0 <= i < properties.len() ==> (properties[i].kind == PropertyKind::Operation <==> queries(
                properties,
            ).contains(i)),
    decreases properties.len(),
{
    let keep = |prop: Property| prop.kind == PropertyKind::Operation;
    reveal(Seq::filter);
    if properties.len() > 0 {
        let rest = properties.drop_last();
        law_queries_are_of_operation(rest);
        lemma_queries_of_operation(rest);
        assert(queries(rest).map_values(|i: int| properties[i]) =~= queries(rest).map_values(
            |i: int| rest[i],
        ));
        if keep(properties.last()) {
            assert(queries(properties).map_values(|i: int| properties[i]) =~= queries(
                rest,
            ).map_values(|i: int| properties[i]).push(properties.last()));
        }
        lemma_queries_of_operation(properties);
        assert forall|i: int|
            #![trigger properties[i]]
            0 <= i < properties.len() implies (properties[i].kind == PropertyKind::Operation
            <==> queries(properties).contains(i)) by {
            if properties[i].kind == PropertyKind::Operation {
                if i < rest.len() {
                    assert(rest[i] == properties[i]);
                    let k = choose|k: int| 0 <= k < queries(rest).len() && queries(rest)[k] == i;
                    assert(queries(properties)[k] == i);
                } else {
                    assert(queries(properties)[queries(rest).len() as int] == i);
                }
            }
        }
    } else {
        assert(queries(properties).map_values(|i: int| properties[i]) =~= properties.filter(keep));
    }
}

/// The buttons are those of the actions of operation that take no parameters, in
/// order.
pub proof fn law_buttons_take_no_parameters(
    actions: Seq<Action>,
    device: Seq<char>,
    hostname: Seq<char>,
)
    ensures
        buttons(actions, device, hostname) == actions.filter(
            |action: Action| action.kind == ActionKind::Operation && !action.has_params,
        ).map_values(
            |action: Action|
                AnnouncementView::Action(discovery::action_button(action, device, hostname)),
        ),
    decreases actions.len(),
{
    let keep = |action: Action| action.kind == ActionKind::Operation && !action.has_params;
    let show = |action: Action|
        AnnouncementView::Action(discovery::action_button(action, device, hostname));
    reveal(Seq::filter);
    if actions.len() > 0 {
        let rest = actions.drop_last();
        law_buttons_take_no_parameters(rest, device, hostname);
        if keep(actions.last()) {
            assert(actions.filter(keep).map_values(show) =~= rest.filter(keep).map_values(
                show,
            ).push(show(actions.last())));
        }
    } else {
        assert(buttons(actions, device, hostname) =~= actions.filter(keep).map_values(show));
    }
}

/// A run that fails tells what it was doing when it failed, and why.
pub proof fn law_failures_name_their_stage(
    hostname: Seq<char>,
    device: DeviceView,
    values: Seq<Value>,
    list: Seq<AnnouncementView>,
    sent: int,
    cause: Seq<char>,
)
    requires
        0 <= sent < list.len(),
    ensures
        run_next(hostname, RunView::Connecting, ReplyView::TimedOut(cause)) == RunView::Finished(
            Some(FailureView { stage: Stage::Connect, cause }),
        ),
        run_next(hostname, RunView::Connecting, ReplyView::Failed(cause)) == RunView::Finished(
            Some(FailureView { stage: Stage::Device, cause }),
        ),
        ({
            let querying = RunView::Querying { device, values };
            &&& run_next(hostname, querying, ReplyView::TimedOut(cause)) == RunView::Finished(
                Some(FailureView { stage: Stage::Query, cause }),
            )
            &&& run_next(hostname, querying, ReplyView::Failed(cause)) == RunView::Finished(
                Some(FailureView { stage: Stage::Device, cause }),
            )
        }),
        ({
            let announcing = RunView::Announcing { outbox: list, sent };
            &&& run_next(hostname, announcing, ReplyView::Failed(cause)) matches RunView::Finished(
                Some(failure),
            )
            &&& failure.cause == cause
            &&& list[sent] is Property <==> failure.stage == Stage::PublishSensor
            &&& list[sent] is Value <==> failure.stage == Stage::PublishValue
            &&& list[sent] is Action <==> failure.stage == Stage::PublishButton
        }),
{
}

/// The replies to a run tell how its steps went, with the cause of a failure.
pub proof fn law_replies_tell_the_outcome(
    connection: Outcome<Device>,
    query: Outcome<Value>,
    result: Result<(), String>,
)
    ensures
        connection matches Outcome::Done(device) ==> connect_reply(connection)
            == ReplyView::Connected(device@),
        connection matches Outcome::TimedOut(cause) ==> connect_reply(connection)
            == ReplyView::TimedOut(cause@),
        connection matches Outcome::Failed(cause) ==> connect_reply(connection)
            == ReplyView::Failed(cause@),
        query matches Outcome::Done(value) ==> query_reply(query) == ReplyView::Answered(value),
        query matches Outcome::TimedOut(cause) ==> query_reply(query) == ReplyView::TimedOut(cause@),
        query matches Outcome::Failed(cause) ==> query_reply(query) == ReplyView::Failed(cause@),
        result is Ok ==> publish_reply(result) == ReplyView::Sent,
        result matches Err(cause) ==> publish_reply(result) == ReplyView::Failed(cause@),
{
}

/// The view of an announcement shows all of it.
pub proof fn law_announcement_view(item: Announcement)
    ensures
        item matches Announcement::Property(entity) ==> item@ == AnnouncementView::Property(entity@),
        item matches Announcement::Value(message) ==> item@ == AnnouncementView::Value(message@),
        item matches Announcement::Action(entity) ==> item@ == AnnouncementView::Action(entity@),
{
}

proof fn lemma_reading(prop: Property, val: Value, device: Seq<char>, hostname: Seq<char>)
    ensures
        ({
            let list = reading(prop, val, device, hostname);
            let sensor = AnnouncementView::Property(
                discovery::property_sensor(prop, device, hostname),
            );
            let message = AnnouncementView::Value(
                MessageView {
                    topic: Topic::Device(prop.id@ + "/value"@),
                    payload: discovery::value_text(val)->0,
                },
            );
            &&& list == if val is Sensor {
                seq![sensor]
            } else {
                seq![sensor, message]
            }
            &&& list.filter(|item: AnnouncementView| item is Property) == seq![sensor]
            &&& list.filter(|item: AnnouncementView| item is Value) == if val is Sensor {
                seq![]
            } else {
                seq![message]
            }
        }),
{
    let list = reading(prop, val, device, hostname);
    let sensor = AnnouncementView::Property(discovery::property_sensor(prop, device, hostname));
    let message = AnnouncementView::Value(
        MessageView {
            topic: Topic::Device(prop.id@ + "/value"@),
            payload: discovery::value_text(val)->0,
        },
    );
    if val is Sensor {
        assert(list =~= seq![sensor]);
    } else {
        assert(list =~= seq![sensor, message]);
        assert(list.drop_last() =~= seq![sensor]);
    }
    assert(seq![sensor].drop_last() =~= seq![]);
    reveal_with_fuel(Seq::filter, 3);
    assert(list.filter(|item: AnnouncementView| item is Property) =~= seq![sensor]);
    assert(list.filter(|item: AnnouncementView| item is Value) =~= if val is Sensor {
        seq![]
    } else {
        seq![message]
    });
}

#[verifier::spinoff_prover]
proof fn lemma_readings_show_sensors(
    device: DeviceView,
    values: Seq<Value>,
    hostname: Seq<char>,
    count: nat,
)
    requires
        count <= queries(device.properties).len(),
    ensures
        readings(device, values, hostname, count).filter(|item: AnnouncementView| item is Property)
            == queries(device.properties).map_values(|i: int| device.properties[i]).take(
            count as int,
        ).map_values(
            |prop: Property|
                AnnouncementView::Property(discovery::property_sensor(prop, device.kind, hostname)),
        ),
    decreases count,
{
    let props = queries(device.properties).map_values(|i: int| device.properties[i]);
    let keep = |item: AnnouncementView| item is Property;
    let sensor = |prop: Property|
        AnnouncementView::Property(discovery::property_sensor(prop, device.kind, hostname));
    let list = readings(device, values, hostname, count);
    if count == 0 {
        assert(list.filter(keep) =~= seq![]) by {
            reveal(Seq::filter);
        }
        assert(props.take(0).map_values(sensor) =~= seq![]);
    } else {
        let k = count - 1;
        lemma_readings_show_sensors(device, values, hostname, k as nat);
        let before = readings(device, values, hostname, k as nat);
        let added = reading(props[k], values[k], device.kind, hostname);
        assert(list == before + added);
        assert(list.filter(keep) == before.filter(keep) + added.filter(keep)) by {
            Seq::filter_distributes_over_add(before, added, keep);
        }
        assert(added.filter(keep) == seq![sensor(props[k])]) by {
            lemma_reading(props[k], values[k], device.kind, hostname);
        }
        assert(props.take(count as int).map_values(sensor) =~= props.take(k).map_values(sensor)
            + seq![sensor(props[k])]);
    }
}

#[verifier::spinoff_prover]
proof fn lemma_readings_tell_values(
    device: DeviceView,
    values: Seq<Value>,
    hostname: Seq<char>,
    count: nat,
)
    requires
        count <= queries(device.properties).len(),
        values.len() == queries(device.properties).len(),
    ensures
        readings(device, values, hostname, count).filter(|item: AnnouncementView| item is Value)
            == queries(device.properties).map_values(|i: int| device.properties[i]).zip_with(
            values,
        ).take(count as int).filter(|pair: (Property, Value)| !(pair.1 is Sensor)).map_values(
            |pair: (Property, Value)|
                AnnouncementView::Value(
                    MessageView {
                        topic: Topic::Device(pair.0.id@ + "/value"@),
                        payload: discovery::value_text(pair.1)->0,
                    },
                ),
        ),
    decreases count,
{
    let props = queries(device.properties).map_values(|i: int| device.properties[i]);
    let pairs = props.zip_with(values);
    let keep = |item: AnnouncementView| item is Value;
    let published = |pair: (Property, Value)| !(pair.1 is Sensor);
    let message = |pair: (Property, Value)|
        AnnouncementView::Value(
            MessageView {
                topic: Topic::Device(pair.0.id@ + "/value"@),
                payload: discovery::value_text(pair.1)->0,
            },
        );
    let list = readings(device, values, hostname, count);
    if count == 0 {
        assert(list.filter(keep) =~= seq![]) by {
            reveal(Seq::filter);
        }
        assert(pairs.take(0).filter(published) =~= seq![]) by {
            reveal(Seq::filter);
        }
        assert(pairs.take(0).filter(published).map_values(message) =~= seq![]);
    } else {
        let k = count - 1;
        lemma_readings_tell_values(device, values, hostname, k as nat);
        let before = readings(device, values, hostname, k as nat);
        let added = reading(props[k], values[k], device.kind, hostname);
        assert(list == before + added);
        assert(pairs[k] == (props[k], values[k]));
        assert(list.filter(keep) == before.filter(keep) + added.filter(keep)) by {
            Seq::filter_distributes_over_add(before, added, keep);
        }
        assert(added.filter(keep) == if published(pairs[k]) {
            seq![message(pairs[k])]
        } else {
            seq![]
        }) by {
            lemma_reading(props[k], values[k], device.kind, hostname);
        }
        let kept = pairs.take(k).filter(published);
        assert(pairs.take(count as int).filter(published) == if published(pairs[k]) {
            kept.push(pairs[k])
        } else {
            kept
        }) by {
            reveal(Seq::filter);
            assert(pairs.take(count as int).drop_last() =~= pairs.take(k));
        }
        if published(pairs[k]) {
            assert(kept.push(pairs[k]).map_values(message) =~= kept.map_values(message)
                + seq![message(pairs[k])]);
        } else {
            assert(before.filter(keep) + Seq::<AnnouncementView>::empty() =~= before.filter(keep));
        }
    }
}

#[verifier::spinoff_prover]
proof fn lemma_readings_order(
    device: DeviceView,
    values: Seq<Value>,
    hostname: Seq<char>,
    count: nat,
)
    requires
        count <= queries(device.properties).len(),
    ensures
        ({
            let list = readings(device, values, hostname, count);
            &&& list.len() > 0 ==> list[0] is Property
            &&& forall|i: int| 0 <= i < list.len() ==> !(#[trigger] list[i] is Action)
            &&& forall|i: int, j: int|
                #![trigger list[i], list[j]]
                0 <= i && j == i + 1 && j < list.len() && list[j] is Value ==> list[i] is Property
                    && list[i]->Property_0.state_topic == Some(list[j]->Value_0.topic)
        }),
    decreases count,
{
    let list = readings(device, values, hostname, count);
    if count > 0 {
        let k = count - 1;
        lemma_readings_order(device, values, hostname, k as nat);
        let before = readings(device, values, hostname, k as nat);
        let prop = device.properties[queries(device.properties)[k]];
        let added = reading(prop, values[k], device.kind, hostname);
        assert(list == before + added);
        lemma_reading(prop, values[k], device.kind, hostname);
        assert forall|i: int| 0 <= i < list.len() implies !(#[trigger] list[i] is Action) by {
            if i < before.len() {
                assert(list[i] == before[i]);
            } else {
                assert(list[i] == added[i - before.len()]);
            }
        }
        assert forall|i: int, j: int|
            #![trigger list[i], list[j]]
            0 <= i && j == i + 1 && j < list.len() && list[j] is Value implies list[i] is Property
            && list[i]->Property_0.state_topic == Some(list[j]->Value_0.topic) by {
            if j < before.len() {
                assert(list[i] == before[i] && list[j] == before[j]);
            } else {
                assert(list[j] == added[j - before.len()]);
                assert(j - before.len() == 1);
                assert(list[i] == added[0]);
            }
        }
        if before.len() > 0 {
            assert(list[0] == before[0]);
        } else {
            assert(list[0] == added[0]);
        }
    }
}

proof fn lemma_readings_hold_no_button(
    device: DeviceView,
    values: Seq<Value>,
    hostname: Seq<char>,
    count: nat,
)
    requires
        count <= queries(device.properties).len(),
    ensures
        forall|i: int|
            0 <= i < readings(device, values, hostname, count).len() ==> !(#[trigger] readings(
                device,
                values,
                hostname,
                count,
            )[i] is Action),
{
    lemma_readings_order(device, values, hostname, count);
}

proof fn lemma_button_list(actions: Seq<Action>, device: Seq<char>, hostname: Seq<char>)
    ensures
        forall|i: int|
            0 <= i < buttons(actions, device, hostname).len() ==> #[trigger] buttons(
                actions,
                device,
                hostname,
            )[i] is Action,
    decreases actions.len(),
{
    if actions.len() > 0 {
        lemma_button_list(actions.drop_last(), device, hostname);
    }
}

proof fn lemma_filter_all<A>(list: Seq<A>, keep: spec_fn(A) -> bool, kept: bool)
    requires
        forall|i: int| 0 <= i < list.len() ==> keep(#[trigger] list[i]) == kept,
    ensures
        list.filter(keep) == if kept {
            list
        } else {
            seq![]
        },
    decreases list.len(),
{
    reveal(Seq::filter);
    if list.len() > 0 {
        lemma_filter_all(list.drop_last(), keep, kept);
        assert(list.drop_last().push(list.last()) =~= list);
    }
}

/// The sensors that are announced are those of the properties of operation, in
/// order.
#[verifier::spinoff_prover]
pub proof fn law_each_property_is_announced(
    device: DeviceView,
    values: Seq<Value>,
    hostname: Seq<char>,
)
    requires
        values.len() == device.properties.filter(
            |prop: Property| prop.kind == PropertyKind::Operation,
        ).len(),
    ensures
        outbox(device, values, hostname).filter(|item: AnnouncementView| item is Property)
            == device.properties.filter(
            |prop: Property| prop.kind == PropertyKind::Operation,
        ).map_values(
            |prop: Property|
                AnnouncementView::Property(discovery::property_sensor(prop, device.kind, hostname)),
        ),
{
    let props = queries(device.properties).map_values(|i: int| device.properties[i]);
    let n = queries(device.properties).len();
    let read = readings(device, values, hostname, n);
    let pressed = buttons(device.actions, device.kind, hostname);
    let keep = |item: AnnouncementView| item is Property;
    assert(pressed.filter(keep) == Seq::<AnnouncementView>::empty()) by {
        lemma_button_list(device.actions, device.kind, hostname);
        lemma_filter_all(pressed, keep, false);
    }
    assert(outbox(device, values, hostname).filter(keep) == read.filter(keep)) by {
        Seq::filter_distributes_over_add(read, pressed, keep);
        assert(read.filter(keep) + Seq::<AnnouncementView>::empty() =~= read.filter(keep));
    }
    lemma_readings_show_sensors(device, values, hostname, n);
    assert(props.take(n as int) =~= props);
    law_queries_are_of_operation(device.properties);
}

/// The values that are announced are those that the properties of operation gave,
/// in order, but for sensor readings. Each goes to the topic of the property that
/// gave it.
#[verifier::spinoff_prover]
pub proof fn law_each_property_is_announced_with_its_own_value(
    device: DeviceView,
    values: Seq<Value>,
    hostname: Seq<char>,
)
    requires
        values.len() == device.properties.filter(
            |prop: Property| prop.kind == PropertyKind::Operation,
        ).len(),
    ensures
        outbox(device, values, hostname).filter(|item: AnnouncementView| item is Value)
            == device.properties.filter(
            |prop: Property| prop.kind == PropertyKind::Operation,
        ).zip_with(values).filter(|pair: (Property, Value)| !(pair.1 is Sensor)).map_values(
            |pair: (Property, Value)|
                AnnouncementView::Value(
                    MessageView {
                        topic: Topic::Device(pair.0.id@ + "/value"@),
                        payload: discovery::value_text(pair.1)->0,
                    },
                ),
        ),
{
    let props = queries(device.properties).map_values(|i: int| device.properties[i]);
    let n = queries(device.properties).len();
    let read = readings(device, values, hostname, n);
    let pressed = buttons(device.actions, device.kind, hostname);
    let keep = |item: AnnouncementView| item is Value;
    assert(pressed.filter(keep) == Seq::<AnnouncementView>::empty()) by {
        lemma_button_list(device.actions, device.kind, hostname);
        lemma_filter_all(pressed, keep, false);
    }
    assert(outbox(device, values, hostname).filter(keep) == read.filter(keep)) by {
        Seq::filter_distributes_over_add(read, pressed, keep);
        assert(read.filter(keep) + Seq::<AnnouncementView>::empty() =~= read.filter(keep));
    }
    law_queries_are_of_operation(device.properties);
    assert(props.len() == n);
    lemma_readings_tell_values(device, values, hostname, n);
    assert(props.zip_with(values).take(n as int) =~= props.zip_with(values));
}

/// The buttons that are announced are those of the actions of operation that
/// take no parameters, in order.
#[verifier::spinoff_prover]
pub proof fn law_each_action_without_parameters_is_announced(
    device: DeviceView,
    values: Seq<Value>,
    hostname: Seq<char>,
)
    requires
        values.len() == device.properties.filter(
            |prop: Property| prop.kind == PropertyKind::Operation,
        ).len(),
    ensures
        outbox(device, values, hostname).filter(|item: AnnouncementView| item is Action)
            == device.actions.filter(
            |action: Action| action.kind == ActionKind::Operation && !action.has_params,
        ).map_values(
            |action: Action|
                AnnouncementView::Action(discovery::action_button(action, device.kind, hostname)),
        ),
{
    let n = queries(device.properties).len();
    let read = readings(device, values, hostname, n);
    let pressed = buttons(device.actions, device.kind, hostname);
    let keep = |item: AnnouncementView| item is Action;
    assert(read.filter(keep) == Seq::<AnnouncementView>::empty()) by {
        lemma_readings_hold_no_button(device, values, hostname, n);
        lemma_filter_all(read, keep, false);
    }
    assert(pressed.filter(keep) == pressed) by {
        lemma_button_list(device.actions, device.kind, hostname);
        lemma_filter_all(pressed, keep, true);
    }
    assert(outbox(device, values, hostname).filter(keep) == pressed) by {
        Seq::filter_distributes_over_add(read, pressed, keep);
        assert(Seq::<AnnouncementView>::empty() + pressed =~= pressed);
    }
    law_buttons_take_no_parameters(device.actions, device.kind, hostname);
}

/// Once each property of operation has been queried, a run announces the value
/// that each of them gave under that property, and ends at once only if there is
/// nothing to announce.
#[verifier::spinoff_prover]
pub proof fn law_a_run_announces_what_was_read(
    device: DeviceView,
    values: Seq<Value>,
    hostname: Seq<char>,
)
    requires
        values.len() == device.properties.filter(
            |prop: Property| prop.kind == PropertyKind::Operation,
        ).len(),
    ensures
        match run(hostname, script(device, values, 0)) {
            RunView::Announcing { outbox: list, sent } => {
                &&& sent == 0
                &&& list.filter(|item: AnnouncementView| item is Value)
                    == device.properties.filter(
                    |prop: Property| prop.kind == PropertyKind::Operation,
                ).zip_with(values).filter(
                    |pair: (Property, Value)| !(pair.1 is Sensor),
                ).map_values(
                    |pair: (Property, Value)|
                        AnnouncementView::Value(
                            MessageView {
                                topic: Topic::Device(pair.0.id@ + "/value"@),
                                payload: discovery::value_text(pair.1)->0,
                            },
                        ),
                )
            },
            RunView::Finished(end) => {
                &&& end is None
                &&& values.len() == 0
            },
            _ => false,
        },
{
    law_each_property_is_announced_with_its_own_value(device, values, hostname);
    law_queries_are_of_operation(device.properties);
    assert(queries(device.properties).map_values(|i: int| device.properties[i]).len() == queries(
        device.properties,
    ).len());
    law_announces_one_by_one(hostname, device, values, 0);
    let n = queries(device.properties).len();
    if n > 0 {
        lemma_reading(
            device.properties[queries(device.properties)[n - 1]],
            values[n - 1],
            device.kind,
            hostname,
        );
    }
}

/// A value is announced right after the sensor that takes its state from where
/// the value goes, and the buttons come after all sensors and values.
#[verifier::spinoff_prover]
pub proof fn law_announcements_are_in_order(
    device: DeviceView,
    values: Seq<Value>,
    hostname: Seq<char>,
)
    requires
        values.len() == device.properties.filter(
            |prop: Property| prop.kind == PropertyKind::Operation,
        ).len(),
    ensures
        ({
            let list = outbox(device, values, hostname);
            &&& list.len() > 0 ==> !(list[0] is Value)
            &&& forall|i: int, j: int|
                #![trigger list[i], list[j]]
                0 <= i && j == i + 1 && j < list.len() && list[j] is Value ==> list[i] is Property
                    && list[i]->Property_0.state_topic == Some(list[j]->Value_0.topic)
            &&& forall|i: int, j: int|
                0 <= i < j < list.len() && #[trigger] list[i] is Action ==> #[trigger] list[j]
                    is Action
        }),
{
    let n = queries(device.properties).len();
    lemma_readings_order(device, values, hostname, n);
    lemma_button_list(device.actions, device.kind, hostname);
    let read = readings(device, values, hostname, n);
    let pressed = buttons(device.actions, device.kind, hostname);
    let list = outbox(device, values, hostname);
    assert(list == read + pressed);
    assert forall|i: int| 0 <= i < list.len() implies #[trigger] list[i] == (if i < read.len() {
        read[i]
    } else {
        pressed[i - read.len()]
    }) by {}
    assert forall|i: int, j: int|
        0 <= i < j < list.len() && #[trigger] list[i] is Action implies #[trigger] list[j]
        is Action by {
        if i < read.len() {
            assert(!(read[i] is Action));
        }
        assert(pressed[j - read.len()] is Action);
    }
}

/// The views of a list of announcements are those of its items, in order.
pub proof fn law_announcement_views(list: Seq<Announcement>, i: int)
    requires
        0 <= i < list.len(),
    ensures
        announcement_views(list).len() == list.len(),
        announcement_views(list)[i] == list[i]@,
{
}

/// The view of a run shows where it stands.
pub proof fn law_run_view(run: Run)
    ensures
        run matches Run::Query(query) ==> run@ == (RunView::Querying {
            device: query.device(),
            values: query.values(),
        }),
        run matches Run::Announce(publish) ==> run@ == (RunView::Announcing {
            outbox: publish.outbox(),
            sent: publish.sent(),
        }),
        run matches Run::Finished(Ok(_)) ==> run@ == RunView::Finished(None),
        run matches Run::Finished(Err(failure)) ==> run@ == RunView::Finished(
            Some(FailureView { stage: failure.stage, cause: failure.cause@ }),
        ),
{
}

} // verus!
