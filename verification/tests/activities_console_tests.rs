use melody::activities::{parse_template, ActivityMode, TemplateError, TemplatePiece};
use melody::console::{InputAgentOutput, LogLevel, MelodyCommandError};
use melody::console_reply::console_reply;

fn show(pieces: &[TemplatePiece]) -> String {
    pieces
        .iter()
        .map(|p| match p {
            TemplatePiece::Literal(c) => c.to_string(),
            TemplatePiece::Argument(a) => format!("<{a}>"),
        })
        .collect()
}

#[test]
fn activity_modes() {
    assert_eq!(ActivityMode::Playing.to_str(), Some("Playing"));
    assert_eq!(ActivityMode::Listening.to_str(), Some("Listening to"));
    assert_eq!(ActivityMode::Competing.to_str(), Some("Competing in"));
    assert_eq!(ActivityMode::Custom.to_str(), None);
}

#[test]
fn templates_with_arguments() {
    let pieces = parse_template("Hello {name}!").unwrap();
    assert_eq!(show(&pieces), "Hello <name>!");
    assert_eq!(pieces.len(), 8);
    assert_eq!(show(&parse_template("{a}{b}").unwrap()), "<a><b>");
    assert_eq!(show(&parse_template("{}").unwrap()), "<>");
    assert!(parse_template("").unwrap().is_empty());
}

#[test]
fn templates_with_escaped_braces() {
    assert_eq!(show(&parse_template("{{x").unwrap()), "{x");
    // a doubled closing brace inside an argument is a literal brace
    assert_eq!(show(&parse_template("{a}}b}").unwrap()), "}<ab>");
}

#[test]
fn malformed_templates() {
    for t in ["{", "}", "{a{b}}", "x}}", "{open"] {
        assert_eq!(parse_template(t).unwrap_err(), TemplateError, "{t:?}");
    }
}

#[test]
fn console_output_collects_messages() {
    let mut out = InputAgentOutput::new();
    out.info("one".to_owned());
    out.error("two".to_owned());
    out.log(LogLevel::Trace, "three".to_owned());
    out.warn("four".to_owned());
    out.debug("five".to_owned());
    out.trace("six".to_owned());
    let levels: Vec<LogLevel> = out.messages().iter().map(|m| m.0).collect();
    assert_eq!(
        levels,
        [LogLevel::Info, LogLevel::Error, LogLevel::Trace, LogLevel::Warn, LogLevel::Debug, LogLevel::Trace]
    );
    let messages = out.into_messages();
    assert_eq!(messages[1], (LogLevel::Error, "two".to_owned()));
    assert!(InputAgentOutput::default().messages().is_empty());
}

#[test]
fn command_error_texts() {
    assert_eq!(MelodyCommandError::NotInGuild.to_text(), "not in a guild");
    assert_eq!(MelodyCommandError::cache_failure("guild").to_text(), "data not cached: guild");
    assert_eq!(
        MelodyCommandError::precondition_violation("no queue").to_text(),
        "precondition violated: no queue"
    );
    assert_eq!(MelodyCommandError::cache_failure("x"), MelodyCommandError::CacheFailure("x"));
}

#[test]
fn console_replies() {
    assert_eq!(console_reply(InputAgentOutput::new(), None), "```\n[TRACE]: (no output)\n```");
    let mut out = InputAgentOutput::new();
    out.info("hi".to_owned());
    out.debug("there".to_owned());
    assert_eq!(
        console_reply(out.clone(), Some("boom".to_owned())),
        "```\n[INFO]: hi\n[DEBUG]: there\n[ERROR]: boom\n```"
    );
    assert_eq!(console_reply(out, None), "```\n[INFO]: hi\n[DEBUG]: there\n```");
}

#[test]
fn long_console_replies_are_cut() {
    let mut out = InputAgentOutput::new();
    for _ in 0..30 {
        out.info("x".repeat(92));
    }
    let reply = console_reply(out, None);
    let lines: Vec<&str> = reply.lines().collect();
    // the fence, 19 kept lines, the ellipsis, the fence
    assert_eq!(lines.len(), 22);
    assert_eq!(lines[20], "...");
    assert!(lines[1..20].iter().all(|l| l.len() == 100));
    assert!(reply.len() <= 2000);
}

#[test]
fn template_arguments_resolve() {
    use_resolve();
}

fn use_resolve() {
    let pieces = melody::activities::parse_template("hi {game}!").ok().unwrap();
    let names = vec!["other".to_owned(), "game".to_owned()];
    let resolved = melody::activities::resolve_template(&pieces, &names).ok().unwrap();
    assert_eq!(
        resolved,
        vec![
            melody::activities::ResolvedPiece::Literal('h'),
            melody::activities::ResolvedPiece::Literal('i'),
            melody::activities::ResolvedPiece::Literal(' '),
            melody::activities::ResolvedPiece::Argument(1),
            melody::activities::ResolvedPiece::Literal('!'),
        ]
    );
    assert!(melody::activities::resolve_template(&pieces, &vec!["other".to_owned()]).is_err());
}

#[test]
fn templates_assemble() {
    let pieces = parse_template("{who} plays {{{game}}}").ok().unwrap();
    let names = vec!["game".to_owned(), "who".to_owned()];
    let resolved = melody::activities::resolve_template(&pieces, &names).ok().unwrap();
    let printed = vec!["chess".to_owned(), "Ann".to_owned()];
    // `}}` inside an argument is a literal brace too, so the brace lands before the value
    assert_eq!(melody::activities::assemble_pieces(&resolved, &printed), "Ann plays {}chess");
    // a `}` outside an argument is refused, even doubled
    assert!(parse_template("{who}: {{x}}").is_err());
    let plain = melody::activities::resolve_template(&parse_template("{who}: {{x").ok().unwrap(), &names).ok().unwrap();
    assert_eq!(melody::activities::assemble_pieces(&plain, &printed), "Ann: {x");
}
