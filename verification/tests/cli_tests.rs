use crow_core::cli::{parse_chat_args, parse_command, Command, OutputMode};

fn args(v: &[&str]) -> Vec<String> {
    v.iter().map(|s| s.to_string()).collect()
}

#[test]
fn chat_args_are_parsed() {
    let (s, m, mode) = parse_chat_args(&args(&["--session", "abc", "hello", "world", "-q"]));
    assert_eq!(s, Some("abc".to_string()));
    assert_eq!(m, "hello world");
    assert_eq!(mode, OutputMode::Quiet);
    let (s, m, mode) = parse_chat_args(&args(&["hi", "--json", "--session"]));
    assert_eq!(s, None);
    assert_eq!(m, "hi");
    assert_eq!(mode, OutputMode::Json);
    let (_, m, mode) = parse_chat_args(&args(&[]));
    assert_eq!(m, "");
    assert_eq!(mode, OutputMode::Verbose);
}

#[test]
fn commands_are_recognised() {
    assert_eq!(parse_command(&args(&["crow"])), Command::Usage);
    assert_eq!(parse_command(&args(&["crow", "sessions"])), Command::Sessions);
    assert_eq!(parse_command(&args(&["crow", "list"])), Command::Sessions);
    assert_eq!(parse_command(&args(&["crow", "paths"])), Command::Paths);
    assert_eq!(parse_command(&args(&["crow", "help"])), Command::Usage);
    assert_eq!(parse_command(&args(&["crow", "messages"])), Command::MessagesUsage);
    assert_eq!(parse_command(&args(&["crow", "messages", "s1"])), Command::Messages { session_id: "s1".to_string() });
    assert_eq!(parse_command(&args(&["crow", "new"])), Command::New { title: None });
    assert_eq!(parse_command(&args(&["crow", "logs", "5"])), Command::Logs { count: 5 });
    assert_eq!(parse_command(&args(&["crow", "logs", "x"])), Command::Logs { count: 20 });
    assert_eq!(parse_command(&args(&["crow", "prompt"])), Command::Prompt { agent: "build".to_string() });
    assert_eq!(
        parse_command(&args(&["crow", "chat", "-j", "do", "it"])),
        Command::Chat { session_id: None, message: "do it".to_string(), mode: OutputMode::Json }
    );
    assert_eq!(
        parse_command(&args(&["crow", "fix", "the", "bug"])),
        Command::Chat { session_id: None, message: "fix the bug".to_string(), mode: OutputMode::Verbose }
    );
}
