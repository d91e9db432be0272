//! Middleware for model switching.
//!
//! A request names its model in its JSON body. The middleware has the model made ready (which may
//! take a switch), acquires a place in flight, and forwards the request to the backend of the
//! model; the place is held until the response is fully streamed.
//!
//! Reading, switching and forwarding happen outside; what is decided here is what comes next.
//! [`RequestFlow::step`] takes the flow of a request from one event to the next action.

use crate::config::ModelConfig;
use crate::json::parse_json;
use crate::proxy::ProxyTarget;
use crate::reply::{error_response, not_found_message, switch_error_response, ErrorReply};
use crate::switcher::ModelSwitcher;
use crate::text::natural;
use crate::types::SwitchError;
use vstd::prelude::*;

verus! {

/// Layer that adds model switching to a service.
pub struct ModelSwitcherLayer {
    switcher: ModelSwitcher,
}

/// Service that wraps requests with model switching.
pub struct ModelSwitcherService<S> {
    pub switcher: ModelSwitcher,
    pub inner: S,
}

impl View for ModelSwitcherLayer {
    type V = Map<Seq<char>, ModelConfig>;

    closed spec fn view(&self) -> Map<Seq<char>, ModelConfig> {
        self.switcher@
    }
}

impl Clone for ModelSwitcherLayer {
    fn clone(&self) -> (layer: ModelSwitcherLayer)
        ensures
            layer@ == self@,
    {
        ModelSwitcherLayer { switcher: self.switcher.clone() }
    }
}

impl ModelSwitcherLayer {
    /// A layer over a switcher.
    pub fn new(switcher: ModelSwitcher) -> (layer: ModelSwitcherLayer)
        ensures
            layer@ == switcher@,
    {
        ModelSwitcherLayer { switcher }
    }

    /// Wraps a service.
    pub fn layer<S>(&self, inner: S) -> (service: ModelSwitcherService<S>)
        ensures
            service.switcher@ == self@,
            service.inner == inner,
    {
        ModelSwitcherService { switcher: self.switcher.clone(), inner }
    }
}

impl<S: Clone> Clone for ModelSwitcherService<S> {
    fn clone(&self) -> (service: ModelSwitcherService<S>)
        ensures
            service.switcher@ == self.switcher@,
            cloned(self.inner, service.inner),
    {
        ModelSwitcherService { switcher: self.switcher.clone(), inner: self.inner.clone() }
    }
}

/// The model that a request body names: the string under `model` in a JSON object.
pub open spec fn named_model(body: Seq<u8>) -> Option<Seq<char>> {
    match crate::json::json_document(body) {
        Some(document) => crate::json::document_text(document, "model"@),
        None => None,
    }
}

/// A body names a model exactly if it is a JSON object with a member `model` that is a string, and
/// the model is that string, whatever it is.
pub proof fn law_named_model(body: Seq<u8>, text: Seq<char>)
    ensures
        crate::json::json_document(body) matches Some(Some(members))
            ==> crate::json::has_distinct_names(members) ==> (named_model(body) == Some(text)
            <==> members.contains(("model"@, Some(text)))),
        !(crate::json::json_document(body) matches Some(Some(_))) ==> named_model(body) is None,
{
    if let Some(Some(members)) = crate::json::json_document(body) {
        if crate::json::has_distinct_names(members) {
            crate::json::law_member_text_is_unique(members, "model"@, text);
        }
    }
}

/// The model that a request body names.
pub fn extract_model(body: &[u8]) -> (model: Option<String>)
    ensures
        (match model {
            Some(model) => Some(model@),
            None => None,
        }) == named_model(body@),
        !(crate::json::json_document(body@) matches Some(Some(_))) ==> model is None,
        crate::json::json_document(body@) matches Some(Some(members))
            ==> crate::json::has_distinct_names(members),
        crate::json::json_document(body@) matches Some(Some(members)) ==> match model {
            Some(model) => members.contains(("model"@, Some(model@))),
            None => forall|text: Seq<char>|
                !(#[trigger] members.contains(("model"@, Some(text)))),
        },
{
    match parse_json(body) {
        Some(document) => {
            let model = document.text_of("model");
            proof {
                if let Some(members) = document@ {
                    assert forall|text: Seq<char>|
                        #[trigger] members.contains(("model"@, Some(text)))
                            <==> crate::json::member_text(members, "model"@) == Some(text) by {
                        crate::json::law_member_text_is_unique(members, "model"@, text);
                    }
                }
            }
            model
        },
        None => None,
    }
}

/// The request count entry of an answered request: its model and the status of the answer.
#[derive(Debug)]
pub struct RequestRecord {
    pub model: String,
    pub status: u16,
}

impl RequestRecord {
    /// The labels under which the request is counted: its model and the status of its answer.
    pub fn labels(&self) -> (labels: Vec<(String, String)>)
        ensures
            labels@.len() == 2,
            labels@[0].0@ == "model"@,
            labels@[0].1@ == self.model@,
            labels@[1].0@ == "status"@,
            labels@[1].1@ == crate::text::natural_text(self.status as nat),
    {
        let mut labels: Vec<(String, String)> = Vec::new();
        labels.push(("model".to_owned(), self.model.clone()));
        labels.push(("status".to_owned(), natural(self.status as u64)));
        labels
    }
}

/// Where the handling of a request stands.
#[derive(Debug)]
pub enum RequestFlow {
    /// The body is being read.
    CollectingBody,
    /// The model is being made ready.
    EnsuringReady { model: String },
    /// The model is ready; a place in flight is asked for. `settle`: the switch waits to be told
    /// that the request has its place.
    AcquiringGuard { model: String, settle: bool },
    /// The request has its place in flight and is with the backend.
    Forwarding { model: String },
    /// The request is answered.
    Finished,
}

/// What happened outside.
#[derive(Debug)]
pub enum FlowEvent {
    /// The body could not be read.
    BodyFailed,
    /// The body was read, and names a model or none.
    BodyRead { model: Option<String> },
    /// The model is ready.
    Ready { settle: bool },
    /// The model cannot be made ready.
    SwitchFailed(SwitchError),
    /// A place in flight was acquired.
    InFlight,
    /// The model started draining before a place could be acquired.
    Draining,
    /// The backend answered.
    Responded { status: u16 },
    /// The wrapped service failed.
    ForwardFailed,
}

/// What is to be done next.
#[derive(Debug)]
pub enum FlowAction {
    /// Hand the request to the wrapped service as it came.
    PassThrough,
    /// Answer the request, and count it where it named a model.
    Reply { reply: ErrorReply, record: Option<RequestRecord> },
    /// Make the model ready.
    EnsureReady { model: String },
    /// Acquire a place in flight for the model.
    AcquireInFlight { model: String },
    /// Tell the switch, if it waits for that, that the request has its place; then forward it.
    Forward { model: String, target: ProxyTarget, settle: bool },
    /// Pass the response of the backend on, holding the place until its body ends, and count it.
    Respond { served: RequestRecord },
    /// Pass the failure of the wrapped service on.
    Fail,
}

/// The state of a flow.
pub enum FlowState {
    CollectingBody,
    EnsuringReady { model: Seq<char> },
    AcquiringGuard { model: Seq<char>, settle: bool },
    Forwarding { model: Seq<char> },
    Finished,
}

/// An event, as far as the flow depends on it.
pub enum FlowInput {
    BodyFailed,
    BodyRead { model: Option<Seq<char>> },
    Ready { settle: bool },
    SwitchFailed { status: u16, message: Seq<char> },
    InFlight,
    Draining,
    Responded { status: u16 },
    ForwardFailed,
}

/// An action by its contents.
pub enum FlowOutput {
    PassThrough,
    Reply { status: u16, message: Seq<char>, record: Option<(Seq<char>, u16)> },
    EnsureReady { model: Seq<char> },
    AcquireInFlight { model: Seq<char> },
    Forward { model: Seq<char>, host: Seq<char>, port: u16, settle: bool },
    Respond { served: (Seq<char>, u16) },
    Fail,
}

impl View for RequestFlow {
    type V = FlowState;

    open spec fn view(&self) -> FlowState {
        match self {
            RequestFlow::CollectingBody => FlowState::CollectingBody,
            RequestFlow::EnsuringReady { model } => FlowState::EnsuringReady { model: model@ },
            RequestFlow::AcquiringGuard { model, settle } => FlowState::AcquiringGuard {
                model: model@,
                settle: *settle,
            },
            RequestFlow::Forwarding { model } => FlowState::Forwarding { model: model@ },
            RequestFlow::Finished => FlowState::Finished,
        }
    }
}

impl View for FlowEvent {
    type V = FlowInput;

    open spec fn view(&self) -> FlowInput {
        match self {
            FlowEvent::BodyFailed => FlowInput::BodyFailed,
            FlowEvent::BodyRead { model } => FlowInput::BodyRead {
                model: match model {
                    Some(model) => Some(model@),
                    None => None,
                },
            },
            FlowEvent::Ready { settle } => FlowInput::Ready { settle: *settle },
            FlowEvent::SwitchFailed(error) => FlowInput::SwitchFailed {
                status: crate::reply::switch_error_status(*error),
                message: crate::reply::switch_error_message(*error),
            },
            FlowEvent::InFlight => FlowInput::InFlight,
            FlowEvent::Draining => FlowInput::Draining,
            FlowEvent::Responded { status } => FlowInput::Responded { status: *status },
            FlowEvent::ForwardFailed => FlowInput::ForwardFailed,
        }
    }
}

impl FlowEvent {
    /// The event that a body was read, from the bytes of the body.
    pub fn body_read(body: &[u8]) -> (event: FlowEvent)
        ensures
            event@ == (FlowInput::BodyRead { model: named_model(body@) }),
    {
        FlowEvent::BodyRead { model: extract_model(body) }
    }
}

impl FlowAction {
    /// The action does what an output says.
    pub open spec fn performs(self, output: FlowOutput) -> bool {
        match (self, output) {
            (FlowAction::PassThrough, FlowOutput::PassThrough) => true,
            (
                FlowAction::Reply { reply, record },
                FlowOutput::Reply { status, message, record: recorded },
            ) => reply.reports(status, message) && recorded == (match record {
                Some(record) => Some((record.model@, record.status)),
                None => None,
            }),
            (FlowAction::EnsureReady { model }, FlowOutput::EnsureReady { model: m }) => model@
                == m,
            (FlowAction::AcquireInFlight { model }, FlowOutput::AcquireInFlight { model: m }) =>
            model@ == m,
            (
                FlowAction::Forward { model, target, settle },
                FlowOutput::Forward { model: m, host, port, settle: s },
            ) => model@ == m && target.host@ == host && target.port == port && settle == s,
            (FlowAction::Respond { served }, FlowOutput::Respond { served: answered }) => answered
                == (served.model@, served.status),
            (FlowAction::Fail, FlowOutput::Fail) => true,
            _ => false,
        }
    }
}

/// Whether an event can happen to a flow in a state.
pub open spec fn awaits(state: FlowState, input: FlowInput) -> bool {
    match state {
        FlowState::CollectingBody => input is BodyFailed || input is BodyRead,
        FlowState::EnsuringReady { .. } => input is Ready || input is SwitchFailed,
        FlowState::AcquiringGuard { .. } => input is InFlight || input is Draining,
        FlowState::Forwarding { .. } => input is Responded || input is ForwardFailed,
        FlowState::Finished => false,
    }
}

/// The model of a flow, once it is known, is a configured one.
pub open spec fn is_routable(models: Map<Seq<char>, ModelConfig>, state: FlowState) -> bool {
    match state {
        FlowState::EnsuringReady { model } => models.contains_key(model),
        FlowState::AcquiringGuard { model, .. } => models.contains_key(model),
        FlowState::Forwarding { model } => models.contains_key(model),
        _ => true,
    }
}

/// The state that follows, and the action that is due.
pub open spec fn transition(
    models: Map<Seq<char>, ModelConfig>,
    state: FlowState,
    input: FlowInput,
) -> (FlowState, FlowOutput) {
    match (state, input) {
        (FlowState::CollectingBody, FlowInput::BodyFailed) => (
            FlowState::Finished,
            FlowOutput::Reply {
                status: 400,
                message: "Failed to read request body"@,
                record: None,
            },
        ),
        (FlowState::CollectingBody, FlowInput::BodyRead { model: None }) => (
            FlowState::Finished,
            FlowOutput::PassThrough,
        ),
        (FlowState::CollectingBody, FlowInput::BodyRead { model: Some(model) }) =>
        if models.contains_key(model) {
            (FlowState::EnsuringReady { model }, FlowOutput::EnsureReady { model })
        } else {
            (
                FlowState::Finished,
                FlowOutput::Reply {
                    status: 404,
                    message: "Model not found: "@ + model,
                    record: Some((model, 404u16)),
                },
            )
        },
        (FlowState::EnsuringReady { model }, FlowInput::Ready { settle }) => (
            FlowState::AcquiringGuard { model, settle },
            FlowOutput::AcquireInFlight { model },
        ),
        (FlowState::EnsuringReady { model }, FlowInput::SwitchFailed { status, message }) => (
            FlowState::Finished,
            FlowOutput::Reply { status, message, record: Some((model, status)) },
        ),
        (FlowState::AcquiringGuard { model, settle }, FlowInput::InFlight) => (
            FlowState::Forwarding { model },
            FlowOutput::Forward {
                model,
                host: models[model].host@,
                port: models[model].port,
                settle,
            },
        ),
        (FlowState::AcquiringGuard { model, .. }, FlowInput::Draining) => (
            FlowState::EnsuringReady { model },
            FlowOutput::EnsureReady { model },
        ),
        (FlowState::Forwarding { model }, FlowInput::Responded { status }) => (
            FlowState::Finished,
            FlowOutput::Respond { served: (model, status) },
        ),
        (FlowState::Forwarding { .. }, FlowInput::ForwardFailed) => (
            FlowState::Finished,
            FlowOutput::Fail,
        ),
        // No other event is awaited in any state.
        _ => (FlowState::Finished, FlowOutput::Fail),
    }
}

impl RequestFlow {
    /// The flow of a request that just came in.
    pub fn new() -> (flow: RequestFlow)
        ensures
            flow@ == FlowState::CollectingBody,
    {
        RequestFlow::CollectingBody
    }

    /// Takes the flow past an event to the next action.
    pub fn step(self, switcher: &ModelSwitcher, event: FlowEvent) -> (next: (
        RequestFlow,
        FlowAction,
    ))
        requires
            awaits(self@, event@),
            is_routable(switcher@, self@),
        ensures
            next.0@ == transition(switcher@, self@, event@).0,
            next.1.performs(transition(switcher@, self@, event@).1),
            is_routable(switcher@, next.0@),
    {
        match (self, event) {
            (RequestFlow::CollectingBody, FlowEvent::BodyFailed) => {
                (
                    RequestFlow::Finished,
                    FlowAction::Reply {
                        reply: error_response(400, "Failed to read request body"),
                        record: None,
                    },
                )
            },
            (RequestFlow::CollectingBody, FlowEvent::BodyRead { model: None }) => {
                (RequestFlow::Finished, FlowAction::PassThrough)
            },
            (RequestFlow::CollectingBody, FlowEvent::BodyRead { model: Some(model) }) => {
                if switcher.is_registered(model.as_str()) {
                    (
                        RequestFlow::EnsuringReady { model: model.clone() },
                        FlowAction::EnsureReady { model },
                    )
                } else {
                    let reply = error_response(404, not_found_message(model.as_str()).as_str());
                    (
                        RequestFlow::Finished,
                        FlowAction::Reply {
                            reply,
                            record: Some(RequestRecord { model, status: 404 }),
                        },
                    )
                }
            },
            (RequestFlow::EnsuringReady { model }, FlowEvent::Ready { settle }) => {
                (
                    RequestFlow::AcquiringGuard { model: model.clone(), settle },
                    FlowAction::AcquireInFlight { model },
                )
            },
            (RequestFlow::EnsuringReady { model }, FlowEvent::SwitchFailed(error)) => {
                let reply = switch_error_response(&error);
                let status = reply.status;
                (
                    RequestFlow::Finished,
                    FlowAction::Reply { reply, record: Some(RequestRecord { model, status }) },
                )
            },
            (RequestFlow::AcquiringGuard { model, settle }, FlowEvent::InFlight) => {
                match switcher.model_dest(model.as_str()) {
                    Some((host, port)) => (
                        RequestFlow::Forwarding { model: model.clone() },
                        FlowAction::Forward { model, target: ProxyTarget { port, host }, settle },
                    ),
                    None => (RequestFlow::Finished, FlowAction::Fail),
                }
            },
            (RequestFlow::AcquiringGuard { model, .. }, FlowEvent::Draining) => {
                (
                    RequestFlow::EnsuringReady { model: model.clone() },
                    FlowAction::EnsureReady { model },
                )
            },
            (RequestFlow::Forwarding { model }, FlowEvent::Responded { status }) => {
                (
                    RequestFlow::Finished,
                    FlowAction::Respond { served: RequestRecord { model, status } },
                )
            },
            (RequestFlow::Forwarding { .. }, FlowEvent::ForwardFailed) => {
                (RequestFlow::Finished, FlowAction::Fail)
            },
            _ => { (RequestFlow::Finished, FlowAction::Fail) },
        }
    }
}

/// A flow stands where its state says, under the model that it holds.
pub proof fn law_flow_view(flow: RequestFlow)
    ensures
        flow is CollectingBody <==> flow@ is CollectingBody,
        flow is Finished <==> flow@ is Finished,
        flow matches RequestFlow::EnsuringReady { model } ==> flow@ == (FlowState::EnsuringReady {
            model: model@,
        }),
        flow matches RequestFlow::AcquiringGuard { model, settle } ==> flow@ == (
        FlowState::AcquiringGuard { model: model@, settle }),
        flow matches RequestFlow::Forwarding { model } ==> flow@ == (FlowState::Forwarding {
            model: model@,
        }),
{
}

/// A flow depends on all that an event holds; of a switch error, on its status and its words.
pub proof fn law_event_view(event: FlowEvent)
    ensures
        event is BodyFailed <==> event@ is BodyFailed,
        event is InFlight <==> event@ is InFlight,
        event is Draining <==> event@ is Draining,
        event is ForwardFailed <==> event@ is ForwardFailed,
        event matches FlowEvent::BodyRead { model: None } ==> event@ == (FlowInput::BodyRead {
            model: None,
        }),
        event matches FlowEvent::BodyRead { model: Some(model) } ==> event@ == (
        FlowInput::BodyRead { model: Some(model@) }),
        event matches FlowEvent::Ready { settle } ==> event@ == (FlowInput::Ready { settle }),
        event matches FlowEvent::Responded { status } ==> event@ == (FlowInput::Responded {
            status,
        }),
        event matches FlowEvent::SwitchFailed(error) ==> event@ == (FlowInput::SwitchFailed {
            status: crate::reply::switch_error_status(error),
            message: crate::reply::switch_error_message(error),
        }),
{
}

/// An action holds all that it is to do: the model, the backend, the signal, the reply and what is
/// counted.
pub proof fn law_action_performs(action: FlowAction, output: FlowOutput)
    requires
        action.performs(output),
    ensures
        match output {
            FlowOutput::PassThrough => action is PassThrough,
            FlowOutput::Fail => action is Fail,
            FlowOutput::EnsureReady { model } => action matches FlowAction::EnsureReady { model: m }
                && m@ == model,
            FlowOutput::AcquireInFlight { model } => action matches FlowAction::AcquireInFlight {
                model: m,
            } && m@ == model,
            FlowOutput::Forward { model, host, port, settle } => {
                &&& action matches FlowAction::Forward { model: m, target, settle: s }
                &&& m@ == model
                &&& target.host@ == host
                &&& target.port == port
                &&& s == settle
            },
            FlowOutput::Respond { served } => {
                &&& action matches FlowAction::Respond { served: record }
                &&& record.model@ == served.0
                &&& record.status == served.1
            },
            FlowOutput::Reply { status, message, record } => {
                &&& action matches FlowAction::Reply { reply, record: counted }
                &&& reply.status == status
                &&& reply.content_type@ == "application/json"@
                &&& reply.body@ == crate::reply::error_body(message)
                &&& record is Some <==> counted is Some
                &&& record matches Some((model, answered)) ==> counted->0.model@ == model
                    && counted->0.status == answered
            },
        },
{
}

/// What follows the reading of a body: a body that cannot be read is a bad request, one that
/// names no model is passed through, and one that names a model has that model made ready if it is
/// configured, and is refused if it is not.
pub proof fn law_step_from_body(models: Map<Seq<char>, ModelConfig>, model: Seq<char>)
    ensures
        awaits(FlowState::CollectingBody, FlowInput::BodyFailed),
        awaits(FlowState::CollectingBody, FlowInput::BodyRead { model: None }),
        awaits(FlowState::CollectingBody, FlowInput::BodyRead { model: Some(model) }),
        is_routable(models, FlowState::CollectingBody),
        transition(models, FlowState::CollectingBody, FlowInput::BodyFailed) == (
            FlowState::Finished,
            FlowOutput::Reply {
                status: 400,
                message: "Failed to read request body"@,
                record: None,
            },
        ),
        transition(models, FlowState::CollectingBody, FlowInput::BodyRead { model: None }) == (
            FlowState::Finished,
            FlowOutput::PassThrough,
        ),
        models.contains_key(model) ==> transition(
            models,
            FlowState::CollectingBody,
            FlowInput::BodyRead { model: Some(model) },
        ) == (FlowState::EnsuringReady { model }, FlowOutput::EnsureReady { model }),
        !models.contains_key(model) ==> transition(
            models,
            FlowState::CollectingBody,
            FlowInput::BodyRead { model: Some(model) },
        ) == (
            FlowState::Finished,
            FlowOutput::Reply {
                status: 404,
                message: "Model not found: "@ + model,
                record: Some((model, 404u16)),
            },
        ),
{
}

/// What follows for a request that waits for its configured model, for its place in flight, or
/// for its backend.
pub proof fn law_step_with_model(
    models: Map<Seq<char>, ModelConfig>,
    model: Seq<char>,
    settle: bool,
    status: u16,
    message: Seq<char>,
)
    requires
        models.contains_key(model),
    ensures
        ({
            let waiting = FlowState::EnsuringReady { model };
            let acquiring = FlowState::AcquiringGuard { model, settle };
            let forwarding = FlowState::Forwarding { model };
            &&& is_routable(models, waiting)
            &&& is_routable(models, acquiring)
            &&& is_routable(models, forwarding)
            &&& awaits(waiting, FlowInput::Ready { settle })
            &&& awaits(waiting, FlowInput::SwitchFailed { status, message })
            &&& awaits(acquiring, FlowInput::InFlight)
            &&& awaits(acquiring, FlowInput::Draining)
            &&& awaits(forwarding, FlowInput::Responded { status })
            &&& awaits(forwarding, FlowInput::ForwardFailed)
            &&& transition(models, waiting, FlowInput::Ready { settle }) == (
                acquiring,
                FlowOutput::AcquireInFlight { model },
            )
            &&& transition(models, waiting, FlowInput::SwitchFailed { status, message }) == (
                FlowState::Finished,
                FlowOutput::Reply { status, message, record: Some((model, status)) },
            )
            &&& transition(models, acquiring, FlowInput::InFlight) == (
                forwarding,
                FlowOutput::Forward {
                    model,
                    host: models[model].host@,
                    port: models[model].port,
                    settle,
                },
            )
            &&& transition(models, acquiring, FlowInput::Draining) == (
                waiting,
                FlowOutput::EnsureReady { model },
            )
            &&& transition(models, forwarding, FlowInput::Responded { status }) == (
                FlowState::Finished,
                FlowOutput::Respond { served: (model, status) },
            )
            &&& transition(models, forwarding, FlowInput::ForwardFailed) == (
                FlowState::Finished,
                FlowOutput::Fail,
            )
        }),
{
}

/// Nothing happens to a flow that is over, and to any other only what it waits for.
pub proof fn law_only_awaited_events(state: FlowState, input: FlowInput)
    requires
        awaits(state, input),
    ensures
        !(state is Finished),
        state is CollectingBody <==> input is BodyFailed || input is BodyRead,
        state is EnsuringReady <==> input is Ready || input is SwitchFailed,
        state is AcquiringGuard <==> input is InFlight || input is Draining,
        state is Forwarding <==> input is Responded || input is ForwardFailed,
{
}

} // verus!
