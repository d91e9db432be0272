use llmux::config::ModelConfig;
use llmux::hooks::{
    alive_result, hook_labels, hook_metrics, hook_outcome, hook_result, HookCommand, HookCompletion, HookError, HookKind,
    HookOutput, HookRunner,
};
use llmux::models::ModelMap;

fn exited(success: bool, code: Option<i32>, stderr: &[u8]) -> HookCompletion {
    HookCompletion::Exited(HookOutput {
        success,
        code,
        stderr: stderr.to_vec(),
    })
}

fn runner() -> HookRunner {
    let mut models = ModelMap::new();
    for (name, host, port) in [("llama", "localhost", 8001), ("mistral", "10.0.0.2", 8002)] {
        models.insert(
            name.to_string(),
            ModelConfig {
                port,
                host: host.to_string(),
                wake: format!("wake-{name}"),
                sleep: format!("sleep-{name}"),
                alive: format!("alive-{name}"),
            },
        );
    }
    HookRunner::new(models)
}

fn runtime() -> tokio::runtime::Runtime {
    tokio::runtime::Builder::new_current_thread()
        .enable_all()
        .build()
        .expect("a runtime")
}

/// The variables in the environment of this process.
fn parent_environment() -> Vec<String> {
    let output = runtime()
        .block_on(async { tokio::process::Command::new("printenv").output().await })
        .expect("the environment");
    String::from_utf8_lossy(&output.stdout)
        .lines()
        .map(String::from)
        .collect()
}

/// Runs a script as the command for it says, in the environment of this process.
fn run_hook(script: &str, model: &str, port: u16, hook: &str) -> Result<(), HookError> {
    let command = HookCommand::for_script(script, model, port);
    let output = runtime().block_on(async move {
        tokio::process::Command::new(&command.program)
            .args(&command.args)
            .envs(command.env)
            .output()
            .await
    });
    let completion = match output {
        Ok(output) => exited(output.status.success(), output.status.code(), &output.stderr),
        Err(error) => HookCompletion::NotRun(error.to_string()),
    };
    hook_result(model, hook, completion)
}

#[test]
fn hook_scripts_receive_environment() {
    let res = run_hook("printenv >&2; exit 300", "dummy-1B", 1999u16, "testhook")
        .expect_err("should fail");

    let env_str = match res {
        HookError::Failed {
            model,
            hook,
            code,
            stderr,
        } => {
            assert_eq!(model, "dummy-1B");
            assert_eq!(hook, "testhook");
            assert_eq!(code, 300 % 256);
            stderr
        }
        x => {
            panic!("expected HookError::Failed but got {x:?}");
        }
    };

    let lines: Vec<String> = env_str.split("\n").map(String::from).collect();

    for inherited in parent_environment() {
        lines
            .iter()
            .find(|v| **v == inherited)
            .expect("parent environment should be passed down.");
    }

    lines
        .iter()
        .find(|v| *v == "LLMUX_MODEL=dummy-1B")
        .expect("llmux must set LLMUX_MODEL to the model name");

    lines
        .iter()
        .find(|v| *v == "LLMUX_DEST_PORT=1999")
        .expect("llmux must set LLMUX_DEST_PORT to the port onto which the model is served");
}

#[test]
fn hook_script_tolerates_garbage_output() {
    // \200 is octal sequence for 0x80, which should be part of a 2-byte codepoint
    run_hook("echo 'not utf\\200-8$'; exit 0", "model", 10u16, "testhook")
        .expect("non-utf8 output should be parsed gracefully");

    run_hook(
        "echo 'not utf\\200-8$' >&2; exit 0",
        "model",
        10u16,
        "testhook",
    )
    .expect("non-utf8 output should be parsed gracefully");

    // the stderr returned on a failure is lossy when error is not utf-8
    let out = run_hook(
        "echo 'not utf\\200-8' >&2; exit 3",
        "model",
        10u16,
        "testhook",
    )
    .expect_err("exit 1 should trigger error");

    match out {
        HookError::Failed {
            model: _,
            hook: _,
            code,
            stderr,
        } => {
            assert_eq!(code, 3);
            // bad codes replaced with U+FFFD
            assert_eq!("not utf\u{fffd}-8\n", stderr);
        }
        err => panic!("unexpected error: {err:?}"),
    };
}

#[test]
fn hook_script_omits_stdout_on_error() {
    let out = run_hook("echo out; echo err >&2; exit 1", "model", 10u16, "testhook")
        .expect_err("exit 1 should trigger a failure");

    match out {
        HookError::Failed {
            model: _,
            hook: _,
            code,
            stderr,
        } => {
            assert_eq!(code, 1);
            // stdout is not part of the mix
            assert_eq!("err\n", stderr);
        }
        err => panic!("unexpected error: {err:?}"),
    };
}

#[test]
fn a_script_is_told_its_model_and_port() {
    let command = HookCommand::for_script("printenv >&2", "dummy-1B", 1999u16);
    assert_eq!(command.program, "sh");
    assert_eq!(command.args, vec!["-c", "printenv >&2"]);
    assert_eq!(
        command.env,
        vec![
            ("LLMUX_MODEL".to_string(), "dummy-1B".to_string()),
            ("LLMUX_DEST_PORT".to_string(), "1999".to_string())
        ]
    );
}

#[test]
fn stderr_that_is_not_utf8_is_decoded_lossily() {
    let out = hook_result("m", "wake", exited(false, Some(3), b"not utf\x80-8\n"));
    assert!(matches!(
        out,
        Err(HookError::Failed { code: 3, stderr, .. }) if stderr == "not utf\u{fffd}-8\n"
    ));
    assert!(hook_result("m", "wake", exited(true, Some(0), b"\x80")).is_ok());
}

#[test]
fn utf8_stderr_is_kept() {
    let out = hook_result("m", "wake", exited(false, Some(2), "schl\u{fc}ssel".as_bytes()));
    assert!(matches!(out, Err(HookError::Failed { stderr, .. }) if stderr == "schl\u{fc}ssel"));
}

#[test]
fn a_killed_hook_has_exit_code_minus_one() {
    let out = hook_result("m", "sleep", exited(false, None, b"")).unwrap_err();
    assert_eq!(
        out.message(),
        "hook sleep failed for model m (exit code -1): "
    );
}

#[test]
fn hook_errors_in_words() {
    let out = hook_result("m", "wake", exited(false, Some(127), b"sh: x: not found"));
    assert_eq!(
        out.unwrap_err().message(),
        "hook wake failed for model m (exit code 127): sh: x: not found"
    );
    let out = hook_result("m", "wake", HookCompletion::NotRun("no such file".to_string()));
    assert_eq!(out.unwrap_err().message(), "hook execution error: no such file");
    let out = runner().hook_command("qwen", HookKind::Wake).unwrap_err();
    assert_eq!(out.message(), "model not found: qwen");
}

#[test]
fn an_unhealthy_model_is_no_error() {
    assert!(matches!(alive_result(Ok(())), Ok(true)));
    let failed = hook_result("m", "alive", exited(false, Some(1), b""));
    assert!(matches!(alive_result(failed), Ok(false)));
    let not_run = hook_result("m", "alive", HookCompletion::NotRun("denied".to_string()));
    assert!(matches!(alive_result(not_run), Err(HookError::Io(detail)) if detail == "denied"));
    let unknown = Err(HookError::ModelNotFound("m".to_string()));
    assert!(matches!(alive_result(unknown), Err(HookError::ModelNotFound(_))));
}

#[test]
fn each_hook_runs_its_own_script() {
    let runner = runner();
    for (hook, script) in [
        (HookKind::Wake, "wake-mistral"),
        (HookKind::Sleep, "sleep-mistral"),
        (HookKind::Alive, "alive-mistral"),
    ] {
        let command = runner.hook_command("mistral", hook).unwrap();
        assert_eq!(command.args, vec!["-c", script]);
        assert_eq!(command.env[0].1, "mistral");
        assert_eq!(command.env[1].1, "8002");
    }
    assert_eq!(HookKind::Wake.name(), "wake");
    assert_eq!(HookKind::Sleep.name(), "sleep");
    assert_eq!(HookKind::Alive.name(), "alive");
}

#[test]
fn registered_models_have_a_port_and_a_destination() {
    let runner = runner();
    let mut names = runner.registered_models();
    names.sort();
    assert_eq!(names, vec!["llama", "mistral"]);
    assert_eq!(runner.model_port("llama"), Some(8001));
    assert_eq!(
        runner.model_dest("mistral"),
        Some(("10.0.0.2".to_string(), 8002))
    );
    assert!(runner.is_registered("llama"));
    assert!(!runner.is_registered("Llama"));
    assert_eq!(runner.model_port("qwen"), None);
    assert_eq!(runner.model_dest("qwen"), None);
}

#[test]
fn hooks_are_measured_by_model_and_hook() {
    assert_eq!(
        hook_labels("llama", "wake"),
        vec![
            ("model".to_string(), "llama".to_string()),
            ("hook".to_string(), "wake".to_string())
        ]
    );
}

#[test]
fn only_a_command_that_ran_is_measured() {
    let not_run = HookCompletion::NotRun("denied".to_string());
    assert_eq!(hook_metrics(&not_run), (false, false));
    assert_eq!(hook_metrics(&exited(true, Some(0), b"")), (true, false));
    assert_eq!(hook_metrics(&exited(false, Some(1), b"")), (true, true));
    assert_eq!(hook_metrics(&exited(false, None, b"")), (true, true));
}

#[test]
fn a_failure_carries_the_name_of_its_hook() {
    for (kind, name) in [
        (HookKind::Wake, "wake"),
        (HookKind::Sleep, "sleep"),
        (HookKind::Alive, "alive"),
    ] {
        match hook_outcome(kind, "llama", exited(false, Some(2), b"no")) {
            Err(HookError::Failed { model, hook, code, stderr }) => {
                assert_eq!((model.as_str(), hook.as_str()), ("llama", name));
                assert_eq!((code, stderr.as_str()), (2, "no"));
            }
            other => panic!("unexpected: {other:?}"),
        }
        assert!(hook_outcome(kind, "llama", exited(true, Some(0), b"")).is_ok());
    }
}
