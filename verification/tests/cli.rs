use jlpkg::{invocation, parse_command, wants_command_help, Command, Invocation};

fn strings(v: &[&str]) -> Vec<String> {
    v.iter().map(|s| s.to_string()).collect()
}

#[test]
fn aliases_name_the_same_commands() {
    let pairs = [
        ("init", "i"),
        ("add", "a"),
        ("remove", "rm"),
        ("update", "up"),
        ("status", "st"),
        ("build", "b"),
        ("test", "t"),
        ("run", "r"),
        ("fetch", "sync"),
        ("help", "--help"),
        ("help", "-h"),
        ("version", "-V"),
        ("version", "--version"),
    ];
    for (full, alias) in pairs {
        assert_eq!(parse_command(full), parse_command(alias));
        assert!(parse_command(full).is_some());
    }
    assert_eq!(parse_command("compat"), Some(Command::Compat));
    assert_eq!(parse_command("nope"), None);
}

#[test]
fn help_flags() {
    assert!(wants_command_help("add", &strings(&["X", "--help"])));
    assert!(!wants_command_help("run", &strings(&["fit.jl", "-h"])));
    assert!(wants_command_help("r", &strings(&["-h"])));
    assert!(wants_command_help("repl", &strings(&["--help", "x"])));
    assert!(!wants_command_help("add", &strings(&["X"])));
}

#[test]
fn invocations() {
    assert!(matches!(invocation(&[]), Invocation::Summary));
    assert!(matches!(invocation(&strings(&["add", "-h"])), Invocation::CommandHelp(Command::Add)));
    assert!(matches!(invocation(&strings(&["help", "-h"])), Invocation::Run(Command::Help)));
    assert!(matches!(invocation(&strings(&["run", "x.jl", "--help"])), Invocation::Run(Command::Run)));
    assert!(matches!(invocation(&strings(&["st"])), Invocation::Run(Command::Status)));
    assert!(matches!(invocation(&strings(&["frobnicate"])), Invocation::Unknown(n) if n == "frobnicate"));
}
