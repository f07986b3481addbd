use melody::commander::{apply, resolve_args, split_args, Command, CommandError, Parsed};

const SAMPLES: &[(&str, Option<&[&str]>)] = &[
    ("", Some(&[])),
    ("arg1", Some(&["arg1"])),
    ("arg1 arg2", Some(&["arg1", "arg2"])),
    (" arg1  \t arg2 \r\n ", Some(&["arg1", "arg2"])),
    ("'arg1'", Some(&["arg1"])),
    ("'arg1' 'arg2'", Some(&["arg1", "arg2"])),
    ("'arg1' 'arg2' arg3", Some(&["arg1", "arg2", "arg3"])),
    ("arg1 'arg2'", Some(&["arg1", "arg2"])),
    ("arg1 'arg2' 'arg3'", Some(&["arg1", "arg2", "arg3"])),
    ("''", Some(&[""])),
    ("'' ''", Some(&["", ""])),
    (r"'\''", Some(&["\'"])),
    (r"'", None),
    (r"a'", None),
];

#[test]
fn test_split_args() {
    for (i, &(sample_input, sample_output)) in SAMPLES.iter().enumerate() {
        let output = split_args(sample_input).ok();
        let sample_output: Option<Vec<String>> = sample_output.map(|so| so.iter().copied().map(str::to_owned).collect());
        assert_eq!(sample_output, output, "{sample_input:?} ({i})");
    }
}

fn tree() -> Vec<Command<u32>> {
    vec![
        Command::new_target("stop", 1),
        Command::new_group("plugin", vec![Command::new_target("list", 2), Command::new_target("enable", 3)]),
        Command::new_group("empty", vec![]),
    ]
}

#[test]
fn commander_apply_finds_target_and_rest() {
    let commands = tree();
    let out = apply("plugin enable feed 123", &commands).ok().unwrap();
    assert_eq!(*out.target, 3);
    assert_eq!(out.remaining_args, vec!["feed".to_owned(), "123".to_owned()]);
}

#[test]
fn commander_apply_ignores_case() {
    let commands = tree();
    let out = apply("STOP", &commands).ok().unwrap();
    assert_eq!(*out.target, 1);
    assert!(out.remaining_args.is_empty());
}

#[test]
fn commander_apply_errors() {
    let commands = tree();
    assert!(matches!(apply("nothing", &commands), Err(CommandError::CommandNotFound(ref s)) if s == "nothing"));
    assert!(matches!(apply("", &commands), Err(CommandError::InsufficientArgs)));
    assert!(matches!(apply("plugin", &commands), Err(CommandError::InsufficientArgs)));
    assert!(matches!(apply("'", &commands), Err(CommandError::UnexpectedEndOfLineInQuote)));
}

#[test]
fn commander_resolve_args() {
    let args = vec!["42".to_owned(), "x".to_owned()];
    let (a, b): (Parsed<u64>, String) = resolve_args(&args).ok().unwrap();
    assert_eq!(a.0, 42);
    assert_eq!(b, "x");
    let one: (Option<String>,) = resolve_args(&[]).ok().unwrap();
    assert_eq!(one.0, None);
    assert!(matches!(resolve_args::<(Parsed<u64>,)>(&["abc".to_owned()]), Err(CommandError::ArgsFromStrError(_))));
    assert!(matches!(resolve_args::<(String,)>(&[]), Err(CommandError::InsufficientArgs)));
}

#[test]
fn number_parse_messages() {
    for (word, message) in [
        ("", "cannot parse integer from empty string"),
        ("+", "invalid digit found in string"),
        ("12x", "invalid digit found in string"),
        ("99999999999999999999", "number too large to fit in target type"),
    ] {
        match resolve_args::<(Parsed<u64>,)>(&[word.to_owned()]) {
            Err(CommandError::ArgsFromStrError(m)) => assert_eq!(m, message, "{word:?}"),
            _ => panic!("expected a parse error for {word:?}"),
        }
        assert_eq!(word.parse::<u64>().err().map(|e| e.to_string()).as_deref(), Some(message));
    }
}
