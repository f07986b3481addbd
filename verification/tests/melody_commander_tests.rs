use melody::console::{InputAgentOutput, LogLevel};
use melody::console_step::{console_step, input_error_message, ConsoleEffect};
use melody::input_agent::{console_commands, help_message, plugin_list_message, plugin_toggle, ConsoleAction};
use melody::persist::Persist;
use melody::melody_commander::{
    apply, command_names, find_command, find_command_in_list, resolve_args, split_args, Command, CommandError, CommandNode, Parsed,
};

const SAMPLES: &[(&str, Option<&[&str]>)] = &[
    ("", Some(&[])),
    ("arg1", Some(&["arg1"])),
    ("arg1 arg2", Some(&["arg1", "arg2"])),
    (" arg1  \t arg2 \r\n ", Some(&["arg1", "arg2"])),
    ("'arg1'", Some(&["arg1"])),
    ("'arg1' 'arg2'", Some(&["arg1", "arg2"])),
    ("'arg1' 'arg2' arg3", Some(&["arg1", "arg2", "arg3"])),
    ("arg1 'arg2'", Some(&["arg1", "arg2"])),
    ("arg1 'arg2' 'arg3'", Some(&["arg1", "arg2", "arg3"])),
    ("''", Some(&[""])),
    ("'' ''", Some(&["", ""])),
    (r"'\''", Some(&["\'"])),
    (r"'", None),
    (r"a'", None),
];

#[test]
fn lib_test_split_args() {
    for (i, &(sample_input, sample_output)) in SAMPLES.iter().enumerate() {
        let output = split_args(sample_input).ok();
        let sample_output: Option<Vec<String>> = sample_output.map(|so| so.iter().copied().map(str::to_owned).collect());
        assert_eq!(sample_output, output, "{sample_input:?} ({i})");
    }
}

fn tree() -> Vec<Command<u32, &'static str>> {
    vec![
        Command::new_target("help", "help text", 1),
        Command::new_group(
            "plugin",
            "plugin group",
            vec![Command::new_target("list", "list plugins", 2), Command::new_target("enable", "enable one", 3)],
        ),
    ]
}

#[test]
fn melody_commander_apply() {
    let commands = tree();
    let out = apply("plugin list 99", &commands).ok().unwrap();
    assert_eq!(*out.target, 2);
    assert_eq!(*out.help, "list plugins");
    assert_eq!(out.remaining_args, vec!["99".to_owned()]);
    match apply("plugin", &commands) {
        Err(CommandError::InsufficientArgsCommand(names)) => assert_eq!(names, vec!["list", "enable"]),
        other => panic!("unexpected {:?}", other.is_ok()),
    }
    assert!(matches!(apply("plug", &commands), Err(CommandError::CommandNotFound(ref s)) if s == "plug"));
}

#[test]
fn melody_commander_find_command() {
    let commands = tree();
    let args = vec!["Plugin".to_owned(), "ENABLE".to_owned()];
    let command = find_command(&args, &commands).ok().unwrap();
    assert_eq!(command.name, "enable");
    let group = find_command(&args[..1], &commands).ok().unwrap();
    assert_eq!(group.name, "plugin");
    assert_eq!(group.subcommands().map(|s| s.len()), Some(2));
    assert!(find_command(&["nope".to_owned()], &commands).is_err());
    assert_eq!(find_command_in_list("HELP", &commands).map(|c| c.name), Some("help"));
    assert!(find_command_in_list("list", &commands).is_none());
    assert_eq!(command_names(&commands), vec!["help", "plugin"]);
}

#[test]
fn melody_commander_traverse() {
    let commands = tree();
    let args = vec!["plugin".to_owned(), "list".to_owned()];
    let result = CommandNode::Commands(&commands).traverse(&args);
    assert_eq!(result.command().map(|c| c.name), Some("list"));
    let bad = vec!["plugin".to_owned(), "x".to_owned()];
    let result = CommandNode::Commands(&commands).traverse(&bad);
    assert_eq!(result.command().map(|c| c.name), Some("plugin"));
}

#[test]
fn melody_commander_resolve_args() {
    let args = vec!["7".to_owned(), "name".to_owned()];
    let (n, s) = resolve_args::<(Parsed<u64>, String)>(&args).ok().unwrap();
    assert_eq!(n, 7);
    assert_eq!(s, "name");
    let () = resolve_args::<()>(&args).ok().unwrap();
    assert!(matches!(resolve_args::<(String,)>(&[]), Err(CommandError::InsufficientArgs(_))));
    match resolve_args::<(Parsed<u64>,)>(&["x1".to_owned()]) {
        Err(CommandError::ArgsFromStrError(m)) => assert_eq!(m, "invalid digit found in string"),
        _ => panic!("expected a parse error"),
    }
    match resolve_args::<(Parsed<u64>,)>(&["".to_owned()]) {
        Err(CommandError::ArgsFromStrError(m)) => assert_eq!(m, "cannot parse integer from empty string"),
        _ => panic!("expected a parse error"),
    }
    match resolve_args::<(Parsed<u64>,)>(&["99999999999999999999".to_owned()]) {
        Err(CommandError::ArgsFromStrError(m)) => assert_eq!(m, "number too large to fit in target type"),
        _ => panic!("expected a parse error"),
    }
    assert_eq!(Parsed(5u8).into_inner(), 5);
}

#[test]
fn console_help_messages() {
    let commands = console_commands();
    assert_eq!(
        help_message(&[], &commands).ok().unwrap(),
        "Available commands: [\"help\", \"stop\", \"halt\", \"restart\", \"plugin\", \"inspect\", \"reload\", \"update-yt-dlp\", \"feeds\"]"
    );
    assert_eq!(
        help_message(&["plugin".to_owned()], &commands).ok().unwrap(),
        "Command plugin\n\t- Description: Command group for plugin utilities\n\t- Subcommands: [\"list\", \"enable\", \"disable\"]"
    );
    assert_eq!(
        help_message(&["PLUGIN".to_owned(), "enable".to_owned()], &commands).ok().unwrap(),
        "Command enable\n\t- Description: Enables a plugin in the given guild\n\t- Usage: plugin enable <plugin: string> <guild_id: u64>"
    );
    assert!(matches!(help_message(&["nope".to_owned()], &commands), Err(CommandError::CommandNotFound(ref s)) if s == "nope"));
    let out = apply("plugin enable feeds 42", &commands).ok().unwrap();
    assert_eq!(*out.target, ConsoleAction::PluginEnable);
    assert_eq!(*apply("HALT", &commands).ok().unwrap().target, ConsoleAction::Stop);
}

#[test]
fn console_plugin_commands() {
    let mut p = Persist::new();
    let allowed = vec!["feeds".to_owned(), "music".to_owned()];
    assert_eq!(plugin_toggle(&mut p, &allowed, "feeds", 42, true), "Enabled plugin feeds for guild (42)");
    assert_eq!(plugin_toggle(&mut p, &allowed, "chess", 42, true), "No such plugin chess");
    assert_eq!(plugin_list_message(42, &p.get_guild_plugins(42)), "Plugins for guild (42): feeds");
    assert_eq!(plugin_toggle(&mut p, &allowed, "feeds", 42, false), "Disabled plugin feeds for guild (42)");
    assert_eq!(plugin_list_message(42, &p.get_guild_plugins(42)), "Plugins for guild (42): ");
}

fn run(line: &str, persist: &mut Persist) -> (Result<ConsoleEffect, CommandError>, Vec<(LogLevel, String)>) {
    let commands = console_commands();
    let allowed = vec!["feed".to_owned()];
    let mut output = InputAgentOutput::new();
    let r = match apply(line, &commands) {
        Ok(out) => console_step(*out.target, &out.remaining_args, &commands, persist, &allowed, &mut output),
        Err(e) => Err(e),
    };
    (r, output.into_messages())
}

#[test]
fn readme_terminal_commands() {
    let mut p = Persist::new();
    let (r, out) = run("stop", &mut p);
    assert_eq!(r.ok(), Some(ConsoleEffect::Shutdown));
    assert_eq!(out, vec![(LogLevel::Info, "Shutdown triggered".to_owned())]);
    let (r, out) = run("restart", &mut p);
    assert_eq!(r.ok(), Some(ConsoleEffect::Restart));
    assert_eq!(out, vec![(LogLevel::Info, "Restart triggered".to_owned())]);
    let (r, out) = run("plugin enable feed 1", &mut p);
    assert_eq!(r.ok(), Some(ConsoleEffect::Nothing));
    assert_eq!(out, vec![(LogLevel::Info, "Enabled plugin feed for guild (1)".to_owned())]);
    let (_, out) = run("plugin list 1", &mut p);
    assert_eq!(out, vec![(LogLevel::Info, "Plugins for guild (1): feed".to_owned())]);
    let (_, out) = run("plugin disable feed 1", &mut p);
    assert_eq!(out, vec![(LogLevel::Info, "Disabled plugin feed for guild (1)".to_owned())]);
    assert_eq!(run("feeds respawn-all", &mut p).0.ok(), Some(ConsoleEffect::RespawnFeeds));
    assert_eq!(run("feeds abort-all", &mut p).0.ok(), Some(ConsoleEffect::AbortFeeds));
    assert_eq!(run("feeds list-tasks", &mut p).0.ok(), Some(ConsoleEffect::ListFeedTasks));
    assert_eq!(run("update-yt-dlp", &mut p).0.ok(), Some(ConsoleEffect::UpdateYtDlp("latest".to_owned())));
    assert_eq!(run("inspect persist-guild 7", &mut p).0.ok(), Some(ConsoleEffect::InspectPersistGuild(7)));
}

#[test]
fn console_input_errors() {
    let mut p = Persist::new();
    let e = run("frobnicate", &mut p).0.err().unwrap();
    assert_eq!(input_error_message(&e), "Input Error: command \"frobnicate\" not found");
    let e = run("plugin list", &mut p).0.err().unwrap();
    assert_eq!(input_error_message(&e), "Input Error: insufficient arguments, expected u64");
    let e = run("feeds", &mut p).0.err().unwrap();
    assert_eq!(
        input_error_message(&e),
        "Input Error: insufficient arguments, expected one of [\"respawn-all\", \"abort-all\", \"list-tasks\"]"
    );
    let e = run("plugin list x", &mut p).0.err().unwrap();
    assert_eq!(input_error_message(&e), "Input Error: failed to parse argument: invalid digit found in string");
    let e = run("a'b", &mut p).0.err().unwrap();
    assert!(input_error_message(&e).starts_with("Input Error: "));
}

#[test]
fn quote_free_lines_split_on_whitespace() {
    for line in ["", "a", "  plugin  list\t42 \r\n", "back\\slash words", "x-y z"] {
        let expected: Vec<String> = line.split_ascii_whitespace().map(String::from).collect();
        assert_eq!(melody::melody_commander::split_args(line).ok(), Some(expected));
    }
    assert!(matches!(
        melody::melody_commander::split_args("ok \u{1}bad \u{2}"),
        Err(CommandError::IllegalCharacter('\u{1}'))
    ));
}

#[test]
fn missing_argument_type_names() {
    assert_eq!(
        resolve_args::<(String, Parsed<u64>, Option<String>)>(&["a".to_owned(), "7".to_owned()]).ok(),
        Some(("a".to_owned(), 7, None))
    );
    assert!(matches!(
        resolve_args::<(String, Parsed<u64>)>(&["a".to_owned()]),
        Err(CommandError::InsufficientArgs(t)) if t == "u64"
    ));
    assert!(matches!(
        resolve_args::<(String,)>(&[]),
        Err(CommandError::InsufficientArgs(t)) if t == "alloc::string::String"
    ));
    assert!(matches!(resolve_args::<Option<Parsed<u64>>>(&["x".to_owned()]), Err(CommandError::ArgsFromStrError(_))));
    assert_eq!(resolve_args::<String>(&["a".to_owned(), "b".to_owned()]).ok(), Some("a".to_owned()));
}
