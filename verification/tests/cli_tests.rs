use kokoro_sapi::cli::{
    elevated_outcome, machine_register_params, machine_step, parse_command, Command, ElevatedOutcome, MachineStep,
    DEFAULT_TOKEN,
};

fn args(list: &[&str]) -> Vec<String> {
    list.iter().map(|s| s.to_string()).collect()
}

#[test]
fn install_flags() {
    assert!(matches!(parse_command(&args(&["install"])), Command::Install { user_only: false, quantized: false }));
    assert!(matches!(
        parse_command(&args(&["install", "--quantized", "--user-only"])),
        Command::Install { user_only: true, quantized: true }
    ));
    assert!(matches!(parse_command(&args(&["install", "--user"])), Command::Install { user_only: false, quantized: false }));
}

#[test]
fn uninstall_purge() {
    assert!(matches!(parse_command(&args(&["uninstall"])), Command::Uninstall { purge: false }));
    assert!(matches!(parse_command(&args(&["uninstall", "--purge"])), Command::Uninstall { purge: true }));
}

#[test]
fn token_argument() {
    assert_eq!(DEFAULT_TOKEN, "KokoroHeart");
    match parse_command(&args(&["default-voice", "KokoroEmma"])) {
        Command::DefaultVoice { token } => assert_eq!(token, "KokoroEmma"),
        other => panic!("{other:?}"),
    }
    match parse_command(&args(&["default-voice"])) {
        Command::DefaultVoice { token } => assert_eq!(token, "KokoroHeart"),
        other => panic!("{other:?}"),
    }
    match parse_command(&args(&["test", "--loud"])) {
        Command::Test { token } => assert_eq!(token, "KokoroHeart"),
        other => panic!("{other:?}"),
    }
    match parse_command(&args(&["test", "KokoroBella", "extra"])) {
        Command::Test { token } => assert_eq!(token, "KokoroBella"),
        other => panic!("{other:?}"),
    }
}

#[test]
fn internal_commands() {
    match parse_command(&args(&["machine-register", "C:\\a b"])) {
        Command::MachineRegister { assets } => assert_eq!(assets, "C:\\a b"),
        other => panic!("{other:?}"),
    }
    match parse_command(&args(&["machine-register"])) {
        Command::MachineRegister { assets } => assert_eq!(assets, ""),
        other => panic!("{other:?}"),
    }
    assert!(matches!(parse_command(&args(&["machine-unregister"])), Command::MachineUnregister));
}

#[test]
fn unknown_commands() {
    assert!(matches!(parse_command(&args(&[])), Command::Usage));
    assert!(matches!(parse_command(&args(&["Install"])), Command::Usage));
    assert!(matches!(parse_command(&args(&["--user-only", "install"])), Command::Usage));
}

#[test]
fn machine_steps() {
    assert_eq!(machine_step(true, true), MachineStep::Skip);
    assert_eq!(machine_step(true, false), MachineStep::Skip);
    assert_eq!(machine_step(false, true), MachineStep::Direct);
    assert_eq!(machine_step(false, false), MachineStep::Elevate);
    assert_eq!(machine_register_params("C:\\Users\\me\\KokoroSapi"), "machine-register \"C:\\Users\\me\\KokoroSapi\"");
}

#[test]
fn elevated_child_outcomes() {
    assert_eq!(elevated_outcome(Some(0)), ElevatedOutcome::Registered);
    assert_eq!(elevated_outcome(Some(1)), ElevatedOutcome::Failed { code: 1 });
    assert_eq!(elevated_outcome(Some(1223)), ElevatedOutcome::Failed { code: 1223 });
    assert_eq!(elevated_outcome(None), ElevatedOutcome::Skipped);
}
