use iws::cli::{Cli, Command, Invocation};

#[test]
fn no_command_browses() {
    assert!(matches!(Cli { command: None }.run(), Invocation::Browse));
}

#[test]
fn a_command_runs() {
    let cli = Cli { command: Some(Command::Status { name: "auth".to_string() }) };
    assert!(matches!(cli.run(), Invocation::Run(Command::Status { name }) if name == "auth"));
    let cli = Cli { command: Some(Command::Done { name: "x".to_string(), force: true }) };
    assert!(matches!(cli.run(), Invocation::Run(Command::Done { force: true, .. })));
}
