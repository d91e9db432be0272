//! Script-based lifecycle hooks for model management.
//!
//! All model lifecycle operations (wake, sleep, liveness) are delegated to user-provided scripts.
//! How models are started, stopped or health-checked is entirely up to the scripts.
//!
//! A hook is run through `sh -c`, so it can be the path of an executable or an inline shell
//! script. This module says which command runs a hook, and what the outcome of the command means.

use crate::config::ModelConfig;
use crate::models::ModelMap;
use crate::text::{decimal, lossy_text, natural};
use vstd::prelude::*;

verus! {

/// Errors from hook script execution.
#[derive(Debug)]
pub enum HookError {
    /// The script ran and did not succeed.
    Failed { model: String, hook: String, code: i32, stderr: String },
    /// The script could not be run; with the message of the system.
    Io(String),
    /// The model is not configured.
    ModelNotFound(String),
}

/// The lifecycle hooks of a model.
#[derive(Debug, Clone, Copy, PartialEq, Eq, Structural)]
pub enum HookKind {
    /// Brings the model to a running state, whatever state it is in.
    Wake,
    /// Puts the model to sleep.
    Sleep,
    /// Checks whether the model is healthy.
    Alive,
}

/// A command to run: the program, its arguments, and the variables that are set in its
/// environment besides those inherited.
#[derive(Debug)]
pub struct HookCommand {
    pub program: String,
    pub args: Vec<String>,
    pub env: Vec<(String, String)>,
}

/// How a command ended.
#[derive(Debug)]
pub enum HookCompletion {
    /// It could not be run; with the message of the system.
    NotRun(String),
    /// It ran to its end.
    Exited(HookOutput),
}

/// What a finished command reports.
#[derive(Debug)]
pub struct HookOutput {
    /// Whether the command reports success.
    pub success: bool,
    /// The exit code; none where a signal ended the command.
    pub code: Option<i32>,
    /// What it wrote to its standard error.
    pub stderr: Vec<u8>,
}

/// Knows the lifecycle scripts of the configured models.
pub struct HookRunner {
    configs: ModelMap,
}

impl HookError {
    pub open spec fn message_text(self) -> Seq<char> {
        match self {
            HookError::Failed { model, hook, code, stderr } => "hook "@ + hook@
                + " failed for model "@ + model@ + " (exit code "@ + crate::text::decimal_text(
                code as int,
            ) + "): "@ + stderr@,
            HookError::Io(detail) => "hook execution error: "@ + detail@,
            HookError::ModelNotFound(model) => "model not found: "@ + model@,
        }
    }

    /// The error in words.
    pub fn message(&self) -> (message: String)
        ensures
            message@ == self.message_text(),
    {
        match self {
            HookError::Failed { model, hook, code, stderr } => "hook ".to_owned().concat(
                hook.as_str(),
            ).concat(" failed for model ").concat(model.as_str()).concat(" (exit code ").concat(
                decimal(*code).as_str(),
            ).concat("): ").concat(stderr.as_str()),
            HookError::Io(detail) => "hook execution error: ".to_owned().concat(detail.as_str()),
            HookError::ModelNotFound(model) => "model not found: ".to_owned().concat(
                model.as_str(),
            ),
        }
    }
}

impl HookKind {
    pub open spec fn name_text(self) -> Seq<char> {
        match self {
            HookKind::Wake => "wake"@,
            HookKind::Sleep => "sleep"@,
            HookKind::Alive => "alive"@,
        }
    }

    /// The name of the hook.
    pub fn name(self) -> (name: &'static str)
        ensures
            name@ == self.name_text(),
    {
        match self {
            HookKind::Wake => "wake",
            HookKind::Sleep => "sleep",
            HookKind::Alive => "alive",
        }
    }

    /// The script of the hook in the configuration of a model.
    pub open spec fn script_text(self, config: ModelConfig) -> Seq<char> {
        match self {
            HookKind::Wake => config.wake@,
            HookKind::Sleep => config.sleep@,
            HookKind::Alive => config.alive@,
        }
    }
}

impl HookCommand {
    /// The command runs a script through the shell and tells it the model and its port.
    pub open spec fn runs(self, script: Seq<char>, model: Seq<char>, port: u16) -> bool {
        &&& self.program@ == "sh"@
        &&& self.args@.len() == 2
        &&& self.args@[0]@ == "-c"@
        &&& self.args@[1]@ == script
        &&& self.env@.len() == 2
        &&& self.env@[0].0@ == "LLMUX_MODEL"@
        &&& self.env@[0].1@ == model
        &&& self.env@[1].0@ == "LLMUX_DEST_PORT"@
        &&& self.env@[1].1@ == crate::text::natural_text(port as nat)
    }

    /// The command that runs a hook script of a model.
    pub fn for_script(script: &str, model: &str, port: u16) -> (command: HookCommand)
        ensures
            command.runs(script@, model@, port),
            command.program@ == "sh"@,
            command.args@.len() == 2,
            command.args@[0]@ == "-c"@,
            command.args@[1]@ == script@,
            command.env@.len() == 2,
            command.env@[0].0@ == "LLMUX_MODEL"@,
            command.env@[0].1@ == model@,
            command.env@[1].0@ == "LLMUX_DEST_PORT"@,
            command.env@[1].1@ == crate::text::natural_text(port as nat),
    {
        let mut args: Vec<String> = Vec::new();
        args.push("-c".to_owned());
        args.push(script.to_owned());
        let mut env: Vec<(String, String)> = Vec::new();
        env.push(("LLMUX_MODEL".to_owned(), model.to_owned()));
        env.push(("LLMUX_DEST_PORT".to_owned(), natural(port as u64)));
        HookCommand { program: "sh".to_owned(), args, env }
    }
}

/// What the end of a hook command means for a model.
pub open spec fn is_hook_result(
    result: Result<(), HookError>,
    model: Seq<char>,
    hook: Seq<char>,
    completion: HookCompletion,
) -> bool {
    match completion {
        HookCompletion::NotRun(detail) => result matches Err(HookError::Io(reported)) && reported@
            == detail@,
        HookCompletion::Exited(output) => if output.success {
            result is Ok
        } else {
            result matches Err(HookError::Failed { model: m, hook: h, code, stderr }) && {
                &&& m@ == model
                &&& h@ == hook
                &&& code == (match output.code {
                    Some(code) => code as int,
                    None => -1,
                })
                &&& stderr@ == crate::text::lossy_utf8(output.stderr@)
                &&& vstd::utf8::valid_utf8(output.stderr@) ==> stderr@ == vstd::utf8::decode_utf8(
                    output.stderr@,
                )
            }
        },
    }
}

/// The result of a hook of a model, from the end of its command. A failure carries the exit code
/// (-1 where there is none) and the standard error, with U+FFFD for what is not UTF-8 in it.
pub fn hook_result(model: &str, hook: &str, completion: HookCompletion) -> (result: Result<
    (),
    HookError,
>)
    ensures
        is_hook_result(result, model@, hook@, completion),
        result is Ok <==> (completion matches HookCompletion::Exited(output) && output.success),
        completion matches HookCompletion::Exited(output) ==> !output.success ==> (
        result matches Err(HookError::Failed { model: m, hook: h, code, .. }) && m@ == model@ && h@
            == hook@ && code == (if output.code is Some {
            output.code->0 as int
        } else {
            -1
        })),
{
    match completion {
        HookCompletion::NotRun(detail) => Err(HookError::Io(detail)),
        HookCompletion::Exited(output) => if output.success {
            Ok(())
        } else {
            let code: i32 = match output.code {
                Some(code) => code,
                None => -1,
            };
            Err(
                HookError::Failed {
                    model: model.to_owned(),
                    hook: hook.to_owned(),
                    code,
                    stderr: lossy_text(output.stderr.as_slice()),
                },
            )
        },
    }
}

/// The result of a lifecycle hook of a model, under the name of the hook.
pub fn hook_outcome(hook: HookKind, model: &str, completion: HookCompletion) -> (result: Result<
    (),
    HookError,
>)
    ensures
        is_hook_result(result, model@, hook.name_text(), completion),
        result is Ok <==> (completion matches HookCompletion::Exited(output) && output.success),
{
    hook_result(model, hook.name(), completion)
}

/// The command of a script runs that script, all of it, and tells it the model and the port. So
/// two commands are the same only where the scripts, the models and the ports are.
pub proof fn law_command_runs_the_script(
    command: HookCommand,
    script: Seq<char>,
    model: Seq<char>,
    port: u16,
    other: HookCommand,
    other_script: Seq<char>,
    other_model: Seq<char>,
    other_port: u16,
)
    requires
        command.runs(script, model, port),
        other.runs(other_script, other_model, other_port),
    ensures
        command.program@ == seq!['s', 'h'],
        command.args@.len() == 2,
        command.args@[0]@ == seq!['-', 'c'],
        command.args@[1]@ == script,
        command.env@.len() == 2,
        command.env@[0].0@ == "LLMUX_MODEL"@,
        command.env@[0].1@ == model,
        command.env@[1].0@ == "LLMUX_DEST_PORT"@,
        crate::text::digits_value(command.env@[1].1@) == port,
        command.args@[1]@ == other.args@[1]@ <==> script == other_script,
        command.env@[0].1@ == other.env@[0].1@ <==> model == other_model,
        command.env@[1].1@ == other.env@[1].1@ <==> port == other_port,
{
    reveal_strlit("sh");
    reveal_strlit("-c");
    assert("sh"@ == seq!['s', 'h']);
    assert("-c"@ == seq!['-', 'c']);
    crate::text::law_natural_text_reads_back(port as nat);
    crate::text::law_natural_text_reads_back(other_port as nat);
}

/// Each hook has a script and a name of its own.
pub proof fn law_hooks(config: ModelConfig)
    ensures
        HookKind::Wake.script_text(config) == config.wake@,
        HookKind::Sleep.script_text(config) == config.sleep@,
        HookKind::Alive.script_text(config) == config.alive@,
        HookKind::Wake.name_text() == "wake"@,
        HookKind::Sleep.name_text() == "sleep"@,
        HookKind::Alive.name_text() == "alive"@,
{
}

/// The words of each error, with what it is about in full.
pub proof fn law_hook_error_words(error: HookError)
    ensures
        error matches HookError::Failed { model, hook, code, stderr } ==> error.message_text()
            == "hook "@ + hook@ + " failed for model "@ + model@ + " (exit code "@
            + crate::text::decimal_text(code as int) + "): "@ + stderr@,
        error matches HookError::Io(detail) ==> error.message_text() == "hook execution error: "@
            + detail@,
        error matches HookError::ModelNotFound(model) ==> error.message_text()
            == "model not found: "@ + model@,
{
}

/// What the result of an alive hook says of a model: a script that ran and failed says that it is
/// not healthy.
pub open spec fn is_alive_result(
    result: Result<(), HookError>,
    healthy: Result<bool, HookError>,
) -> bool {
    match result {
        Ok(()) => healthy == Ok::<bool, HookError>(true),
        Err(HookError::Failed { .. }) => healthy == Ok::<bool, HookError>(false),
        Err(error) => healthy == Err::<bool, HookError>(error),
    }
}

/// A hook succeeds exactly if its command ran and reports success, whatever its exit code, and a
/// model is healthy exactly if its alive hook does. A command that does not report success is a
/// failure of the hook of the model, with the exit code or -1; one that was not run is an error of
/// another kind.
pub proof fn law_success_is_what_the_command_reports(
    result: Result<(), HookError>,
    healthy: Result<bool, HookError>,
    model: Seq<char>,
    hook: Seq<char>,
    completion: HookCompletion,
)
    requires
        is_hook_result(result, model, hook, completion),
        is_alive_result(result, healthy),
    ensures
        result is Ok <==> (completion matches HookCompletion::Exited(output) && output.success),
        completion matches HookCompletion::Exited(output) ==> healthy == Ok::<bool, HookError>(
            output.success,
        ),
        completion matches HookCompletion::Exited(output) ==> !output.success ==> {
            &&& result matches Err(HookError::Failed { model: m, hook: h, code, stderr })
            &&& m@ == model
            &&& h@ == hook
            &&& output.code is Some ==> code == output.code->0
            &&& output.code is None ==> code == -1
            &&& stderr@ == crate::text::lossy_utf8(output.stderr@)
            &&& vstd::utf8::valid_utf8(output.stderr@) ==> stderr@ == vstd::utf8::decode_utf8(
                output.stderr@,
            )
        },
        completion matches HookCompletion::NotRun(detail) ==> {
            &&& result matches Err(HookError::Io(reported))
            &&& reported@ == detail@
            &&& healthy matches Err(HookError::Io(passed))
            &&& passed@ == detail@
        },
{
}

/// Whether a model is healthy, from the result of its alive hook. A script that ran and failed
/// says that it is not; only a hook that was not run is an error.
pub fn alive_result(result: Result<(), HookError>) -> (healthy: Result<bool, HookError>)
    ensures
        match result {
            Ok(()) => healthy == Ok::<bool, HookError>(true),
            Err(HookError::Failed { .. }) => healthy == Ok::<bool, HookError>(false),
            Err(error) => healthy == Err::<bool, HookError>(error),
        },
        is_alive_result(result, healthy),
        !(healthy matches Err(HookError::Failed { .. })),
{
    match result {
        Ok(()) => Ok(true),
        Err(HookError::Failed { .. }) => Ok(false),
        Err(error) => Err(error),
    }
}

/// The labels under which the run of a hook is measured: the model and the hook.
pub fn hook_labels(model: &str, hook: &str) -> (labels: Vec<(String, String)>)
    ensures
        labels@.len() == 2,
        labels@[0].0@ == "model"@,
        labels@[0].1@ == model@,
        labels@[1].0@ == "hook"@,
        labels@[1].1@ == hook@,
{
    let mut labels: Vec<(String, String)> = Vec::new();
    labels.push(("model".to_owned(), model.to_owned()));
    labels.push(("hook".to_owned(), hook.to_owned()));
    labels
}

/// What is measured of a hook once its command has ended: whether its duration is recorded, and
/// whether it counts as a failure. A command that could not be run is not measured at all.
pub fn hook_metrics(completion: &HookCompletion) -> (measured: (bool, bool))
    ensures
        measured.0 == (completion is Exited),
        measured.1 == (completion matches HookCompletion::Exited(output) && !output.success),
{
    match completion {
        HookCompletion::NotRun(_) => (false, false),
        HookCompletion::Exited(output) => (true, !output.success),
    }
}

/// The port of a model, if it is configured.
pub open spec fn port_of(models: Map<Seq<char>, ModelConfig>, model: Seq<char>) -> Option<u16> {
    if models.contains_key(model) {
        Some(models[model].port)
    } else {
        None
    }
}

/// The host and the port of a model, if it is configured.
pub open spec fn dest_of(models: Map<Seq<char>, ModelConfig>, model: Seq<char>) -> Option<
    (Seq<char>, u16),
> {
    if models.contains_key(model) {
        Some((models[model].host@, models[model].port))
    } else {
        None
    }
}

/// A model is registered exactly if it has a port and a destination, and they agree.
pub proof fn law_registered_models_have_a_destination(
    models: Map<Seq<char>, ModelConfig>,
    model: Seq<char>,
)
    ensures
        models.contains_key(model) <==> port_of(models, model) is Some,
        models.contains_key(model) <==> dest_of(models, model) is Some,
        dest_of(models, model) matches Some((_, port)) ==> port_of(models, model) == Some(port),
        models.contains_key(model) ==> dest_of(models, model) == Some(
            (models[model].host@, models[model].port),
        ),
{
}

impl View for HookRunner {
    type V = Map<Seq<char>, ModelConfig>;

    closed spec fn view(&self) -> Map<Seq<char>, ModelConfig> {
        self.configs@
    }
}

impl HookRunner {
    /// A runner for the given models.
    pub fn new(configs: ModelMap) -> (runner: HookRunner)
        ensures
            runner@ == configs@,
    {
        HookRunner { configs }
    }

    /// The names of the configured models, each of them once.
    pub fn registered_models(&self) -> (models: Vec<String>)
        ensures
            models@.map_values(|model: String| model@).no_duplicates(),
            models@.map_values(|model: String| model@).to_set() == self@.dom(),
    {
        let count = self.configs.len();
        let mut models: Vec<String> = Vec::new();
        for i in 0..count
            invariant
                count == self.configs.names().len(),
                models@.map_values(|model: String| model@) == self.configs.names().take(i as int),
        {
            let ghost before = models@;
            let model = self.configs.entry(i).0.clone();
            models.push(model);
            assert(models@.map_values(|model: String| model@) == before.map_values(
                |model: String| model@,
            ).push(model@));
            assert(self.configs.names().take(i + 1) == self.configs.names().take(i as int).push(
                model@,
            ));
        }
        assert(self.configs.names().take(count as int) == self.configs.names());
        models
    }

    /// The port of a configured model.
    pub fn model_port(&self, model: &str) -> (port: Option<u16>)
        ensures
            port == port_of(self@, model@),
    {
        match self.configs.get(model) {
            Some(config) => Some(config.port),
            None => None,
        }
    }

    /// The host and the port of a configured model.
    pub fn model_dest(&self, model: &str) -> (dest: Option<(String, u16)>)
        ensures
            (match dest {
                Some((host, port)) => Some((host@, port)),
                None => None,
            }) == dest_of(self@, model@),
    {
        match self.configs.get(model) {
            Some(config) => Some((config.host.clone(), config.port)),
            None => None,
        }
    }

    /// Whether a model is configured.
    pub fn is_registered(&self, model: &str) -> (registered: bool)
        ensures
            registered == self@.contains_key(model@),
    {
        self.configs.contains_key(model)
    }

    /// The command that runs a hook of a configured model.
    pub fn hook_command(&self, model: &str, hook: HookKind) -> (command: Result<
        HookCommand,
        HookError,
    >)
        ensures
            match command {
                Ok(command) => {
                    &&& self@.contains_key(model@)
                    &&& command.runs(
                        hook.script_text(self@[model@]),
                        model@,
                        self@[model@].port,
                    )
                    &&& command.args@.len() == 2
                    &&& command.args@[1]@ == (match hook {
                        HookKind::Wake => self@[model@].wake@,
                        HookKind::Sleep => self@[model@].sleep@,
                        HookKind::Alive => self@[model@].alive@,
                    })
                },
                Err(HookError::ModelNotFound(name)) => !self@.contains_key(model@) && name@
                    == model@,
                Err(_) => false,
            },
    {
        match self.configs.get(model) {
            Some(config) => {
                let script: &String = match hook {
                    HookKind::Wake => &config.wake,
                    HookKind::Sleep => &config.sleep,
                    HookKind::Alive => &config.alive,
                };
                Ok(HookCommand::for_script(script.as_str(), model, config.port))
            },
            None => Err(HookError::ModelNotFound(model.to_owned())),
        }
    }
}

} // verus!
