use execute::Execute;
use remote_agent::command::Command;
use remote_agent::executor::Action;
use remote_agent::executor::Event;
use remote_agent::executor::Executor;

#[test]
fn exit_code_of_a_real_shell_is_reported() {
    let (executor, action) = Executor::begin(Command::Run { command: "exit 3".to_string() });
    let line = match action {
        Action::Shell { command } => command,
        other => panic!("expected a shell action, got {:?}", other),
    };
    let event = match execute::shell(&line).execute_output() {
        Ok(output) => {
            Event::Ran { stdout: output.stdout, stderr: output.stderr, code: output.status.code() }
        }
        Err(e) => Event::NotRun { reason: e.to_string() },
    };
    let (_, action) = executor.step(event);
    assert_eq!(
        action,
        Action::Reply {
            text: "Command: exit 3 (executed)\nStandard output:\n\nStandard error:\n\nExit code:3\n"
                .to_string()
        }
    );
}
