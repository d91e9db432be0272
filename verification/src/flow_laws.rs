//! What holds of the handling of a request from its first event to its last.

use crate::config::ModelConfig;
use crate::middleware::{FlowInput, FlowOutput, FlowState};
use vstd::prelude::*;

verus! {

/// What came of a run of events: the state that was reached and the actions on the way.
pub struct FlowRun {
    pub reached: FlowState,
    pub outputs: Seq<FlowOutput>,
}

/// Where a run of events takes a flow, and the actions on the way; `None` where one of the
/// events is not awaited.
pub open spec fn run(
    models: Map<Seq<char>, ModelConfig>,
    state: FlowState,
    inputs: Seq<FlowInput>,
) -> Option<FlowRun>
    decreases inputs.len(),
{
    if inputs.len() == 0 {
        Some(FlowRun { reached: state, outputs: Seq::empty() })
    } else {
        match run(models, state, inputs.drop_last()) {
            Some(FlowRun { reached, outputs }) => if crate::middleware::awaits(
                reached,
                inputs.last(),
            ) {
                let (next, output) = crate::middleware::transition(models, reached, inputs.last());
                Some(FlowRun { reached: next, outputs: outputs.push(output) })
            } else {
                None
            },
            None => None,
        }
    }
}

/// The action ends the handling of the request.
pub open spec fn is_answer(output: FlowOutput) -> bool {
    output is PassThrough || output is Reply || output is Respond || output is Fail
}

/// The model and status under which an action counts the request.
pub open spec fn counted(output: FlowOutput) -> Option<(Seq<char>, u16)> {
    match output {
        FlowOutput::Reply { record, .. } => record,
        FlowOutput::Respond { served } => Some(served),
        _ => None,
    }
}

/// The action concerns a model and no other.
pub open spec fn concerns(
    output: FlowOutput,
    models: Map<Seq<char>, ModelConfig>,
    model: Seq<char>,
) -> bool {
    match output {
        FlowOutput::PassThrough => false,
        FlowOutput::Reply { status, record, .. } => record == Some((model, status)),
        FlowOutput::EnsureReady { model: m } => m == model,
        FlowOutput::AcquireInFlight { model: m } => m == model,
        FlowOutput::Forward { model: m, host, port, .. } => m == model && host
            == models[model].host@ && port == models[model].port,
        FlowOutput::Respond { served } => served.0 == model,
        FlowOutput::Fail => true,
    }
}

/// The flow is with a model, or over.
pub open spec fn is_with(state: FlowState, model: Seq<char>) -> bool {
    match state {
        FlowState::CollectingBody => false,
        FlowState::EnsuringReady { model: m } => m == model,
        FlowState::AcquiringGuard { model: m, .. } => m == model,
        FlowState::Forwarding { model: m } => m == model,
        FlowState::Finished => true,
    }
}

/// The first events of a run are a run, with the first of the actions.
proof fn lemma_run_prefix(
    models: Map<Seq<char>, ModelConfig>,
    state: FlowState,
    inputs: Seq<FlowInput>,
    n: int,
)
    requires
        run(models, state, inputs) is Some,
        0 <= n <= inputs.len(),
    ensures
        run(models, state, inputs)->0.outputs.len() == inputs.len(),
        run(models, state, inputs.take(n)) is Some,
        run(models, state, inputs.take(n))->0.outputs == run(models, state, inputs)->0.outputs.take(
            n,
        ),
    decreases inputs.len(),
{
    if inputs.len() > 0 {
        if n < inputs.len() {
            lemma_run_prefix(models, state, inputs.drop_last(), n);
            assert(inputs.drop_last().take(n) == inputs.take(n));
        } else {
            lemma_run_prefix(models, state, inputs.drop_last(), n - 1);
            assert(inputs.take(n) == inputs);
        }
    } else {
        assert(inputs.take(n) == inputs);
    }
}

/// Once a request names a configured model, everything that is done for it concerns that model:
/// it is made ready, forwarded to the host and the port that are configured for it, and counted
/// under its name with the status of the answer.
pub proof fn law_flow_stays_with_its_model(
    models: Map<Seq<char>, ModelConfig>,
    model: Seq<char>,
    inputs: Seq<FlowInput>,
)
    requires
        models.contains_key(model),
        run(models, FlowState::EnsuringReady { model }, inputs) is Some,
    ensures
        ({
            let FlowRun { reached, outputs } = run(
                models,
                FlowState::EnsuringReady { model },
                inputs,
            )->0;
            &&& is_with(reached, model)
            &&& forall|i: int|
                0 <= i < outputs.len() ==> concerns(#[trigger] outputs[i], models, model)
        }),
    decreases inputs.len(),
{
    if inputs.len() > 0 {
        law_flow_stays_with_its_model(models, model, inputs.drop_last());
    }
}

/// Under a validated configuration a request is only ever forwarded to the backend that is
/// configured for its model, on a valid host and a port that can be listened on.
pub proof fn law_forward_goes_to_a_valid_backend(
    config: crate::config::Config,
    inputs: Seq<FlowInput>,
)
    requires
        config.is_valid(),
        run(config.models@, FlowState::CollectingBody, inputs) is Some,
    ensures
        ({
            let FlowRun { reached, outputs } = run(
                config.models@,
                FlowState::CollectingBody,
                inputs,
            )->0;
            &&& crate::middleware::is_routable(config.models@, reached)
            &&& forall|i: int|
                0 <= i < outputs.len() ==> (#[trigger] outputs[i] matches FlowOutput::Forward {
                    model,
                    host,
                    port,
                    ..
                } ==> {
                    &&& crate::hooks::dest_of(config.models@, model) == Some((host, port))
                    &&& crate::host::is_valid_host(host)
                    &&& port != 0
                })
        }),
    decreases inputs.len(),
{
    if inputs.len() > 0 {
        law_forward_goes_to_a_valid_backend(config, inputs.drop_last());
    }
}

/// A request is forwarded only when it has its place in flight, acquired right after its model
/// was ready; and the switch is told so exactly where it waits for that.
pub proof fn law_forward_holds_a_place(
    models: Map<Seq<char>, ModelConfig>,
    inputs: Seq<FlowInput>,
    i: int,
)
    requires
        run(models, FlowState::CollectingBody, inputs) is Some,
        0 <= i < inputs.len(),
    ensures
        run(models, FlowState::CollectingBody, inputs)->0.outputs.len() == inputs.len(),
        run(models, FlowState::CollectingBody, inputs)->0.outputs[i] matches FlowOutput::Forward {
            settle,
            ..
        } ==> {
            &&& i >= 2
            &&& inputs[i] is InFlight
            &&& inputs[i - 1] == FlowInput::Ready { settle }
        },
{
    let start = FlowState::CollectingBody;
    lemma_run_prefix(models, start, inputs, i + 1);
    let upto = inputs.take(i + 1);
    assert(upto.drop_last() == inputs.take(i));
    assert(run(models, start, upto)->0.outputs.last() == run(models, start, inputs)->0.outputs[i]);
    lemma_run_prefix(models, start, inputs, i);
    if run(models, start, inputs)->0.outputs[i] is Forward {
        assert(i >= 1);
        lemma_run_prefix(models, start, inputs, i - 1);
        assert(inputs.take(i).drop_last() == inputs.take(i - 1));
        assert(i >= 2);
    }
}

/// The action hands the request to the wrapped service.
pub open spec fn calls_service(output: FlowOutput) -> bool {
    output is Forward || output is PassThrough
}

/// The wrapped service is called at most once for a request. Its failure is passed on, exactly
/// where it failed, and like its response only right after the request was forwarded to it.
pub proof fn law_forwarded_once(models: Map<Seq<char>, ModelConfig>, inputs: Seq<FlowInput>)
    requires
        run(models, FlowState::CollectingBody, inputs) is Some,
    ensures
        ({
            let FlowRun { reached, outputs } = run(models, FlowState::CollectingBody, inputs)->0;
            &&& outputs.len() == inputs.len()
            &&& forall|i: int, j: int|
                0 <= i < j < outputs.len() ==> !(calls_service(#[trigger] outputs[i])
                    && calls_service(#[trigger] outputs[j]))
            &&& forall|i: int|
                0 <= i < outputs.len() ==> (#[trigger] outputs[i] is Fail
                    <==> inputs[i] is ForwardFailed)
            &&& forall|i: int|
                0 <= i < outputs.len() && (#[trigger] outputs[i] is Fail || outputs[i] is Respond)
                    ==> i > 0 && outputs[i - 1] is Forward
            &&& reached is Forwarding <==> outputs.len() > 0 && outputs.last() is Forward
            &&& !(reached is Forwarding || reached is Finished) ==> forall|i: int|
                0 <= i < outputs.len() ==> !calls_service(#[trigger] outputs[i])
        }),
    decreases inputs.len(),
{
    let FlowRun { reached, outputs } = run(models, FlowState::CollectingBody, inputs)->0;
    if inputs.len() > 0 {
        law_forwarded_once(models, inputs.drop_last());
        let before = run(models, FlowState::CollectingBody, inputs.drop_last())->0;
        assert forall|i: int| 0 <= i < outputs.len() implies (#[trigger] outputs[i] is Fail
            <==> inputs[i] is ForwardFailed) by {
            if i < outputs.len() - 1 {
                assert(outputs[i] == before.outputs[i]);
                assert(inputs.drop_last()[i] == inputs[i]);
            }
        }
        assert forall|i: int|
            0 <= i < outputs.len() && (#[trigger] outputs[i] is Fail
                || outputs[i] is Respond) implies i > 0 && outputs[i - 1] is Forward by {
            if i < outputs.len() - 1 {
                assert(outputs[i] == before.outputs[i]);
                assert(outputs[i - 1] == before.outputs[i - 1]);
            } else {
                assert(outputs[i - 1] == before.outputs.last());
            }
        }
    }
}

/// The events of a request whose model keeps draining before the request gets a place.
pub open spec fn draining_rounds(signals: Seq<bool>) -> Seq<FlowInput> {
    Seq::new(
        2 * signals.len(),
        |k: int|
            if k % 2 == 0 {
                FlowInput::Ready { settle: signals[k / 2] }
            } else {
                FlowInput::Draining
            },
    )
}

/// A request is not refused because its model drains: however often that happens, the request is
/// back where it waits for its model, with no answer given.
pub proof fn law_draining_is_retried(
    models: Map<Seq<char>, ModelConfig>,
    model: Seq<char>,
    signals: Seq<bool>,
)
    ensures
        ({
            let waiting = FlowState::EnsuringReady { model };
            &&& run(models, waiting, draining_rounds(signals)) matches Some(
                FlowRun { reached, outputs },
            )
            &&& reached == waiting
            &&& forall|i: int| 0 <= i < outputs.len() ==> !is_answer(#[trigger] outputs[i])
            &&& draining_rounds(signals).len() == 2 * signals.len()
            &&& forall|i: int|
                #![trigger signals[i]]
                0 <= i < signals.len() ==> draining_rounds(signals)[2 * i] == (FlowInput::Ready {
                    settle: signals[i],
                }) && draining_rounds(signals)[2 * i + 1] == FlowInput::Draining
        }),
    decreases signals.len(),
{
    let waiting = FlowState::EnsuringReady { model };
    let inputs = draining_rounds(signals);
    if signals.len() > 0 {
        reveal_with_fuel(run, 3);
        law_draining_is_retried(models, model, signals.drop_last());
        assert(inputs.drop_last().drop_last() == draining_rounds(signals.drop_last()));
        assert(inputs.last() == FlowInput::Draining);
        assert(inputs.drop_last().last() is Ready);
    } else {
        assert(inputs.len() == 0);
    }
}

/// A request is answered at most once, and nothing is done for it after the answer: the flow is
/// over exactly when the last action was an answer, and no earlier one was.
pub proof fn law_answered_once(models: Map<Seq<char>, ModelConfig>, inputs: Seq<FlowInput>)
    requires
        run(models, FlowState::CollectingBody, inputs) is Some,
    ensures
        ({
            let FlowRun { reached, outputs } = run(models, FlowState::CollectingBody, inputs)->0;
            &&& outputs.len() == inputs.len()
            &&& reached is Finished <==> outputs.len() > 0 && is_answer(outputs.last())
            &&& forall|i: int| 0 <= i < outputs.len() - 1 ==> !is_answer(#[trigger] outputs[i])
        }),
    decreases inputs.len(),
{
    if inputs.len() > 0 {
        law_answered_once(models, inputs.drop_last());
    }
}

/// A request that names a model is counted once, under that model and with the status of its
/// answer, unless the wrapped service failed on it; a request that names none is not counted.
pub proof fn law_counted_once(models: Map<Seq<char>, ModelConfig>, inputs: Seq<FlowInput>)
    requires
        run(models, FlowState::CollectingBody, inputs) is Some,
        inputs.len() > 0,
    ensures
        ({
            let FlowRun { reached, outputs } = run(models, FlowState::CollectingBody, inputs)->0;
            &&& outputs.len() == inputs.len()
            &&& forall|i: int|
                0 <= i < outputs.len() - 1 ==> counted(#[trigger] outputs[i]) is None
            &&& match inputs[0] {
                FlowInput::BodyRead { model: Some(model) } => {
                    &&& is_with(reached, model)
                    &&& reached is Finished && !(outputs.last() is Fail) ==> match outputs.last() {
                        FlowOutput::Reply { status, .. } => counted(outputs.last()) == Some(
                            (model, status),
                        ),
                        FlowOutput::Respond { served } => {
                            &&& served.0 == model
                            &&& inputs.last() == FlowInput::Responded { status: served.1 }
                        },
                        _ => false,
                    }
                },
                _ => reached is Finished && counted(outputs.last()) is None,
            }
        }),
    decreases inputs.len(),
{
    let start = FlowState::CollectingBody;
    if inputs.len() == 1 {
        assert(inputs.drop_last().len() == 0);
        assert(run(models, start, inputs.drop_last()) == Some(
            FlowRun { reached: start, outputs: Seq::empty() },
        ));
    } else {
        law_counted_once(models, inputs.drop_last());
        law_answered_once(models, inputs.drop_last());
        assert(inputs.drop_last()[0] == inputs[0]);
    }
}

/// A request for a model that is not configured is answered at once with 404, and no model is
/// switched for it.
pub proof fn law_unknown_model_is_refused(
    models: Map<Seq<char>, ModelConfig>,
    model: Seq<char>,
    inputs: Seq<FlowInput>,
)
    requires
        !models.contains_key(model),
        inputs.len() > 0,
        inputs[0] == (FlowInput::BodyRead { model: Some(model) }),
        run(models, FlowState::CollectingBody, inputs) is Some,
    ensures
        run(models, FlowState::CollectingBody, inputs)->0.outputs == seq![
            FlowOutput::Reply {
                status: 404,
                message: "Model not found: "@ + model,
                record: Some((model, 404u16)),
            },
        ],
    decreases inputs.len(),
{
    let start = FlowState::CollectingBody;
    if inputs.len() == 1 {
        assert(inputs.drop_last().len() == 0);
        assert(run(models, start, inputs.drop_last()) == Some(
            FlowRun { reached: start, outputs: Seq::empty() },
        ));
    } else {
        law_unknown_model_is_refused(models, model, inputs.drop_last());
        law_answered_once(models, inputs.drop_last());
    }
}

/// A run of events goes on from where the events before it led.
proof fn lemma_run_concat(
    models: Map<Seq<char>, ModelConfig>,
    state: FlowState,
    first: Seq<FlowInput>,
    second: Seq<FlowInput>,
)
    requires
        run(models, state, first) is Some,
        run(models, run(models, state, first)->0.reached, second) is Some,
    ensures
        run(models, state, first + second) == Some(
            FlowRun {
                reached: run(models, run(models, state, first)->0.reached, second)->0.reached,
                outputs: run(models, state, first)->0.outputs + run(
                    models,
                    run(models, state, first)->0.reached,
                    second,
                )->0.outputs,
            },
        ),
    decreases second.len(),
{
    if second.len() == 0 {
        assert(first + second == first);
        let outputs = run(models, state, first)->0.outputs;
        assert(outputs + Seq::<FlowOutput>::empty() == outputs);
    } else {
        lemma_run_concat(models, state, first, second.drop_last());
        assert((first + second).drop_last() == first + second.drop_last());
        assert((first + second).last() == second.last());
        let middle = run(models, state, first)->0.reached;
        let front = run(models, state, first)->0.outputs;
        let back = run(models, middle, second.drop_last())->0.outputs;
        let last = run(models, middle, second)->0.outputs.last();
        assert(front + back.push(last) == (front + back).push(last));
    }
}

/// A request that names a configured model, whatever its name is, has that model made ready: this
/// is the first thing that is done for it, and the request waits for the model then.
pub proof fn law_configured_model_is_made_ready(
    models: Map<Seq<char>, ModelConfig>,
    model: Seq<char>,
    inputs: Seq<FlowInput>,
)
    requires
        models.contains_key(model),
        inputs.len() > 0,
        inputs[0] == (FlowInput::BodyRead { model: Some(model) }),
    ensures
        run(models, FlowState::CollectingBody, seq![inputs[0]]) == Some(
            FlowRun {
                reached: FlowState::EnsuringReady { model },
                outputs: seq![FlowOutput::EnsureReady { model }],
            },
        ),
        run(models, FlowState::CollectingBody, inputs) matches Some(FlowRun { outputs, .. })
            ==> outputs.len() == inputs.len() && outputs[0] == (FlowOutput::EnsureReady { model }),
{
    let start = FlowState::CollectingBody;
    let one = seq![inputs[0]];
    assert(one.drop_last().len() == 0);
    assert(run(models, start, one.drop_last()) == Some(
        FlowRun { reached: start, outputs: Seq::empty() },
    ));
    assert(run(models, start, one)->0.outputs == seq![FlowOutput::EnsureReady { model }]);
    if run(models, start, inputs) is Some {
        lemma_run_prefix(models, start, inputs, 1);
        assert(inputs.take(1) == one);
        assert(run(models, start, inputs)->0.outputs.take(1)[0] == run(
            models,
            start,
            inputs,
        )->0.outputs[0]);
    }
}

/// A request for a configured model is served: however often the model drains first, once it is
/// ready and the request has its place the request is forwarded to the backend that is configured
/// for the model, the signal of the switch with it, and the response is passed on and counted with
/// its own status.
pub proof fn law_request_is_served(
    models: Map<Seq<char>, ModelConfig>,
    model: Seq<char>,
    signals: Seq<bool>,
    settle: bool,
    status: u16,
)
    requires
        models.contains_key(model),
    ensures
        ({
            let asked = seq![FlowInput::BodyRead { model: Some(model) }];
            let served = seq![
                FlowInput::Ready { settle },
                FlowInput::InFlight,
                FlowInput::Responded { status },
            ];
            let inputs = asked + draining_rounds(signals) + served;
            let n = 2 * signals.len() as int;
            &&& run(models, FlowState::CollectingBody, inputs) matches Some(
                FlowRun { reached, outputs },
            )
            &&& reached is Finished
            &&& outputs.len() == n + 4
            &&& outputs[0] == (FlowOutput::EnsureReady { model })
            &&& forall|i: int| 0 <= i < n + 2 ==> !is_answer(#[trigger] outputs[i])
            &&& outputs[n + 1] == (FlowOutput::AcquireInFlight { model })
            &&& outputs[n + 2] == (FlowOutput::Forward {
                model,
                host: models[model].host@,
                port: models[model].port,
                settle,
            })
            &&& outputs[n + 3] == (FlowOutput::Respond { served: (model, status) })
        }),
{
    let start = FlowState::CollectingBody;
    let waiting = FlowState::EnsuringReady { model };
    let asked = seq![FlowInput::BodyRead { model: Some(model) }];
    let rounds = draining_rounds(signals);
    let served = seq![
        FlowInput::Ready { settle },
        FlowInput::InFlight,
        FlowInput::Responded { status },
    ];
    law_configured_model_is_made_ready(models, model, asked);
    assert(seq![asked[0]] == asked);
    law_draining_is_retried(models, model, signals);
    lemma_run_concat(models, start, asked, rounds);
    lemma_run_served(models, model, settle, status);
    lemma_run_concat(models, start, asked + rounds, served);
    lemma_run_prefix(models, waiting, rounds, 0);
}

proof fn lemma_run_served(
    models: Map<Seq<char>, ModelConfig>,
    model: Seq<char>,
    settle: bool,
    status: u16,
)
    requires
        models.contains_key(model),
    ensures
        run(
            models,
            FlowState::EnsuringReady { model },
            seq![
                FlowInput::Ready { settle },
                FlowInput::InFlight,
                FlowInput::Responded { status },
            ],
        ) == Some(
            FlowRun {
                reached: FlowState::Finished,
                outputs: seq![
                    FlowOutput::AcquireInFlight { model },
                    FlowOutput::Forward {
                        model,
                        host: models[model].host@,
                        port: models[model].port,
                        settle,
                    },
                    FlowOutput::Respond { served: (model, status) },
                ],
            },
        ),
{
    let inputs = seq![
        FlowInput::Ready { settle },
        FlowInput::InFlight,
        FlowInput::Responded { status },
    ];
    let two = inputs.drop_last();
    let one = two.drop_last();
    let waiting = FlowState::EnsuringReady { model };
    assert(one.drop_last().len() == 0);
    assert(run(models, waiting, one.drop_last()) == Some(
        FlowRun { reached: waiting, outputs: Seq::empty() },
    ));
    assert(one.last() == inputs[0]);
    assert(two.last() == inputs[1]);
    assert(run(models, waiting, one)->0.outputs == seq![FlowOutput::AcquireInFlight { model }]);
    assert(run(models, waiting, two)->0.outputs.len() == 2);
    assert(run(models, waiting, inputs)->0.reached is Finished);
    assert(run(models, waiting, inputs)->0.outputs == seq![
        FlowOutput::AcquireInFlight { model },
        FlowOutput::Forward {
            model,
            host: models[model].host@,
            port: models[model].port,
            settle,
        },
        FlowOutput::Respond { served: (model, status) },
    ]);
}

/// A request whose model cannot be made ready, at once or after the model drained, is answered
/// with the status and the words of the error, and counted with them.
pub proof fn law_switch_failure_is_answered(
    models: Map<Seq<char>, ModelConfig>,
    model: Seq<char>,
    signals: Seq<bool>,
    status: u16,
    message: Seq<char>,
)
    requires
        models.contains_key(model),
    ensures
        ({
            let inputs = draining_rounds(signals).push(FlowInput::SwitchFailed { status, message });
            &&& run(models, FlowState::EnsuringReady { model }, inputs) matches Some(
                FlowRun { reached, outputs },
            )
            &&& reached is Finished
            &&& outputs.last() == (FlowOutput::Reply {
                status,
                message,
                record: Some((model, status)),
            })
        }),
{
    let rounds = draining_rounds(signals);
    let failure = FlowInput::SwitchFailed { status, message };
    law_draining_is_retried(models, model, signals);
    assert(rounds.push(failure).drop_last() == rounds);
    assert(rounds.push(failure).last() == failure);
}

} // verus!
