//! Tests of the process-execution service: command-line parsing, status
//! assembly, and real child processes driven the way the daemon drives them.

use auraed::exec::CommandLine;
use auraed::exec::ExecStep;
use auraed::exec::RuntimeService;
use auraed::exec::SpawnOutcome;
use auraed::exec::Status;
use auraed::exec::command_from_string;
use auraed::exec::split_whitespace;

fn spawn_command(cl: &CommandLine) -> Result<(), String> {
    let rt = tokio::runtime::Runtime::new().unwrap();
    rt.block_on(async {
        match tokio::process::Command::new(&cl.program).args(&cl.args).spawn() {
            Ok(mut child) => {
                let _ = child.wait().await;
                Ok(())
            }
            Err(e) => Err(format!("{:?}", e)),
        }
    })
}

fn run_command(cl: &CommandLine) -> SpawnOutcome {
    let rt = tokio::runtime::Runtime::new().unwrap();
    rt.block_on(async {
        match tokio::process::Command::new(&cl.program)
            .args(&cl.args)
            .output()
            .await
        {
            Ok(output) => SpawnOutcome::Completed {
                stdout: output.stdout,
                stderr: output.stderr,
                exit_code: output.status.to_string(),
            },
            Err(e) => SpawnOutcome::SpawnFailed {
                message: format!("{:?}", e),
            },
        }
    })
}

fn exec(cmd: &str) -> Result<(), String> {
    let service = RuntimeService::default();
    match service.exec_start(cmd) {
        ExecStep::Spawn(cl) => spawn_command(&cl),
        ExecStep::Done(_) => Err("empty command string".to_string()),
    }
}

#[test]
fn test_commands_exec() {
    // test_exec will test "concurrent" processes
    // each of these spawn and return before exiting
    let spawn1 = exec("touch /tmp/.aurae.testfile");
    assert!(spawn1.is_ok());

    let spawn2 = exec("cat /tmp/.aurae.testfile");
    assert!(spawn2.is_ok());

    let spawn3 = exec("this-is-a-known-bad-command-executable");
    assert!(spawn3.is_err());

    let spawn4 = exec(""); // empty arguments should fail
    assert!(spawn4.is_err());
}

#[test]
fn split_whitespace_drops_empty_tokens() {
    let toks = split_whitespace("  echo  hello world ");
    assert_eq!(toks, vec!["echo", "hello", "world"]);
    let toks = split_whitespace("");
    assert!(toks.is_empty());
    let toks = split_whitespace("   ");
    assert!(toks.is_empty());
}

#[test]
fn command_from_string_parses_program_and_args() {
    let cl = command_from_string("echo hello world").unwrap();
    assert_eq!(cl.program, "echo");
    assert_eq!(cl.args, vec!["hello", "world"]);
}

#[test]
fn command_from_string_skips_tokens_equal_to_program() {
    let cl = command_from_string("echo echo twice").unwrap();
    assert_eq!(cl.program, "echo");
    assert_eq!(cl.args, vec!["twice"]);
}

#[test]
fn execute_completes_with_captured_output() {
    let service = RuntimeService::default();
    let command = "echo hello";
    let step = service.exec_start(command);
    let cl = match step {
        ExecStep::Spawn(cl) => cl,
        ExecStep::Done(_) => panic!("a command with tokens must be spawned"),
    };
    let outcome = run_command(&cl);
    match &outcome {
        SpawnOutcome::Completed { exit_code, .. } => {
            assert!(exit_code.contains("0"));
        }
        SpawnOutcome::SpawnFailed { message } => panic!("echo failed to spawn: {message}"),
    }
    let status = service.exec_finish(command, outcome);
    assert_eq!(status.status, Status::Complete);
    assert_eq!(status.meta.name, "echo hello");
    assert_eq!(status.meta.message, "-");
    assert_eq!(status.proc.pid, -1);
    assert_eq!(status.stdout, "hello\n");
    assert_eq!(status.stderr, "");
    assert!(status.exit_code.contains("0"));
}

#[test]
fn execute_empty_command_returns_error_status() {
    let service = RuntimeService::default();
    for command in ["", "   "] {
        let step = service.exec_start(command);
        let status = match step {
            ExecStep::Done(status) => status,
            ExecStep::Spawn(_) => panic!("an empty command must not be spawned"),
        };
        assert_eq!(status.status, Status::Error);
        assert_eq!(status.meta.name, "-");
        assert_eq!(status.meta.message, "empty command string");
        assert_eq!(status.proc.pid, -1);
        assert_eq!(status.stdout, "-");
        assert_eq!(status.stderr, "-");
        assert_eq!(status.exit_code, "-");
    }
}

#[test]
fn execute_bad_command_returns_error_status() {
    let service = RuntimeService::default();
    let command = "this-is-a-known-bad-command-executable";
    let step = service.exec_start(command);
    let cl = match step {
        ExecStep::Spawn(cl) => cl,
        ExecStep::Done(_) => panic!("a command with tokens must be spawned"),
    };
    let outcome = run_command(&cl);
    assert!(matches!(outcome, SpawnOutcome::SpawnFailed { .. }));
    let status = service.exec_finish(command, outcome);
    assert_eq!(status.status, Status::Error);
    assert_eq!(status.meta.name, "-");
    assert!(!status.meta.message.is_empty());
    assert_eq!(status.proc.pid, -1);
    assert_eq!(status.stdout, "-");
    assert_eq!(status.stderr, "-");
    assert_eq!(status.exit_code, "-");
}

#[test]
fn execute_decodes_output_bytes() {
    let service = RuntimeService::default();
    let outcome = SpawnOutcome::Completed {
        stdout: b"hello".to_vec(),
        stderr: b"warn".to_vec(),
        exit_code: "exit status: 0".to_string(),
    };
    let status = service.exec_finish("echo hello", outcome);
    assert_eq!(status.status, Status::Complete);
    assert_eq!(status.stdout, "hello");
    assert_eq!(status.stderr, "warn");
    assert_eq!(status.exit_code, "exit status: 0");
}

#[test]
fn execute_reports_undecodable_output() {
    let service = RuntimeService::default();
    let outcome = SpawnOutcome::Completed {
        stdout: vec![0xff, 0xfe, 0x80],
        stderr: Vec::new(),
        exit_code: "exit status: 0".to_string(),
    };
    let status = service.exec_finish("badbytes", outcome);
    assert_eq!(status.status, Status::Error);
    assert_eq!(status.meta.message, "failed to decode process output");
    assert_eq!(status.stdout, "-");
}
