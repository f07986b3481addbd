use melody::help::{capitalize, is_whitespace, join_strings, split_whitespace, to_words, CommandMetaData, HelpLocalization};
use melody::help_reply::{
    build_command_help_embed, build_command_list_help_embed, build_help_reply, find_command, str_le, HelpCommand,
    HelpReply,
};

fn s(x: &str) -> String {
    x.to_owned()
}

fn cmd(name: &str, description: Option<&str>) -> HelpCommand {
    HelpCommand {
        name: s(name),
        name_localizations: vec![],
        description: description.map(s),
        description_localizations: vec![],
        category: None,
        required_permissions: 0,
        default_member_permissions: 0,
        required_bot_permissions: 0,
        dm_only: false,
        guild_only: false,
        meta: Some(CommandMetaData::new()),
        subcommands: vec![],
    }
}

#[test]
fn words_and_names() {
    assert_eq!(split_whitespace("  a b\t\ncd  "), ["a", "b", "cd"]);
    assert!(split_whitespace(" \u{3000} ").is_empty());
    assert!(is_whitespace('\u{a0}') && !is_whitespace('x'));
    assert_eq!(capitalize("hELLO"), "Hello");
    assert_eq!(capitalize(""), "");
    assert_eq!(capitalize("ßa"), "SSa");
    assert_eq!(to_words("grant-roles"), "Grant Roles");
    assert_eq!(to_words("join_roles-list"), "Join Roles List");
    assert_eq!(to_words("a--b"), "A  B");
    assert_eq!(join_strings(&vec![s("x"), s("y"), s("z")], ", "), "x, y, z");
    assert_eq!(join_strings(&vec![], ", "), "");
}

#[test]
fn metadata_per_locale() {
    let m = CommandMetaData::new()
        .info_localized(s("en-US"), s("Rolls dice"))
        .usage_localized(s("en-US"), vec![s("/roll 2d6")])
        .examples_localized(s("en-US"), vec![s("/roll coin"), s("/roll d20")])
        .info_localized_concat(s("fr"), vec![s("Lance"), s("des"), s("dés")]);
    assert_eq!(m.info_for("en-US").map(String::as_str), Some("Rolls dice"));
    assert_eq!(m.info_for("fr").map(String::as_str), Some("Lance des dés"));
    assert!(m.info_for("de").is_none());
    assert_eq!(m.usage_for("en-US").unwrap(), &vec![s("/roll 2d6")]);
    assert_eq!(m.examples_for("en-US").unwrap().len(), 2);
    assert!(m.usage_for("fr").is_none());
    // writing a locale again replaces its value
    let m = m.info_localized(s("en-US"), s("Rolls"));
    assert_eq!(m.info_for("en-US").map(String::as_str), Some("Rolls"));
    assert_eq!(m.get_info_localizations().as_ref().unwrap().len(), 2);
    assert!(CommandMetaData::default().get_info_localizations().is_none());
    assert!(CommandMetaData::new().get_usage_localizations().is_empty());
}

#[test]
fn finding_help_commands() {
    let mut roles = cmd("roles", None);
    roles.subcommands = vec![cmd("grant", Some("Grants")), cmd("join", None)];
    let mut ping = cmd("ping", Some("Pong"));
    ping.name_localizations = vec![(s("fr"), s("ping-fr"))];
    let commands = vec![ping, roles];
    assert_eq!(find_command(&commands, "en-US", "PING").map(|c| c.name.as_str()), Some("ping"));
    assert_eq!(find_command(&commands, "fr", "ping-fr").map(|c| c.name.as_str()), Some("ping"));
    assert!(find_command(&commands, "fr", "ping").is_none());
    assert_eq!(find_command(&commands, "en-US", " roles  grant ").map(|c| c.name.as_str()), Some("grant"));
    assert!(find_command(&commands, "en-US", "roles nope").is_none());
    assert!(find_command(&commands, "en-US", "").is_none());
    assert_eq!(commands[0].localized_name("fr"), "ping-fr");
    assert_eq!(commands[0].localized_description("fr").map(String::as_str), Some("Pong"));
}

#[test]
fn one_command_help() {
    let text = HelpLocalization::default();
    let mut c = cmd("grant-roles", Some("Grants roles"));
    c.meta = Some(CommandMetaData::new()
        .info_localized(s("en"), s("Some info"))
        .usage_localized(s("en"), vec![s("/grant-roles add"), s("/grant-roles list")]));
    c.required_permissions = 8;
    c.guild_only = true;
    let e = build_command_help_embed(&c, "en", &text, "Administrator", "none").unwrap();
    assert_eq!(e.title, "Grant Roles");
    assert_eq!(e.description, "Grants roles");
    assert_eq!(
        e.fields,
        vec![
            (s("Info"), s("Some info")),
            (s("Usage"), s("`/grant-roles add`\n`/grant-roles list`")),
            (s("Examples"), s("(none)")),
            (s("Required User Permissions"), s("Administrator")),
            (s("Allowable Where?"), s("Only in Guilds")),
        ]
    );
    c.meta = None;
    assert!(build_command_help_embed(&c, "en", &text, "", "").is_none());
}

#[test]
fn command_list_help() {
    let text = HelpLocalization::default();
    let mut feed = cmd("feed", Some("Feeds"));
    feed.category = Some(s("feeds"));
    let mut admin = cmd("admin", None);
    admin.default_member_permissions = 8;
    let commands = vec![cmd("roll", Some("Rolls dice")), feed, admin, cmd("echo", None)];
    let e = build_command_list_help_embed(&commands, &vec![], 0, "en", &text).unwrap();
    assert_eq!(e.title, "Command Help");
    assert_eq!(e.fields, vec![(s("Command List"), s("/`echo`\n/`roll`: *Rolls dice*"))]);
    let e = build_command_list_help_embed(&commands, &vec![s("feeds")], 8 | 16, "en", &text).unwrap();
    assert_eq!(e.fields[0].1, "/`admin`\n/`echo`\n/`feed`: *Feeds*\n/`roll`: *Rolls dice*");
    assert!(str_le("abc", "abd") && str_le("ab", "abc") && !str_le("b", "a") && str_le("", ""));
}

#[test]
fn help_replies() {
    let mut text = HelpLocalization::default();
    text.footer = Some("footer");
    let mut secret = cmd("secret", Some("Hidden"));
    secret.required_permissions = 4;
    let commands = vec![cmd("roll", Some("Rolls")), secret];
    let perm = |b: u64| format!("bits {b}");
    match build_help_reply(None, &commands, &vec![], 0, "en", &text, perm) {
        Some(HelpReply::Embed(e)) => {
            assert_eq!(e.fields[0].1, "/`roll`: *Rolls*");
            assert_eq!(e.footer.as_deref(), Some("footer"));
        },
        other => panic!("unexpected {other:?}"),
    }
    match build_help_reply(Some("secret"), &commands, &vec![], 0, "en", &text, perm) {
        Some(HelpReply::Message(m)) => assert_eq!(m, "That command does not exist"),
        other => panic!("unexpected {other:?}"),
    }
    match build_help_reply(Some("secret"), &commands, &vec![], 4, "en", &text, perm) {
        Some(HelpReply::Embed(e)) => {
            assert_eq!(e.title, "Secret");
            assert!(e.fields.contains(&(s("Required User Permissions"), s("bits 4"))));
            assert_eq!(e.footer.as_deref(), Some("footer"));
        },
        other => panic!("unexpected {other:?}"),
    }
    let mut bare = cmd("bare", None);
    bare.meta = None;
    assert!(build_help_reply(Some("bare"), &vec![bare], &vec![], 0, "en", &text, perm).is_none());
}

#[test]
fn info_last_write_wins() {
    let m = melody::help::CommandMetaData::new()
        .info_localized("en-US".to_string(), "first".to_string())
        .info_localized("de".to_string(), "erste".to_string())
        .info_localized("en-US".to_string(), "second".to_string());
    assert_eq!(m.info_for("en-US").map(|s| s.as_str()), Some("second"));
    assert_eq!(m.info_for("de").map(|s| s.as_str()), Some("erste"));
    assert_eq!(m.info_for("fr"), None);
}

#[test]
fn names_as_words() {
    assert_eq!(to_words("feeds-remove_all"), "Feeds Remove All");
    assert_eq!(to_words("HELP"), "Help");
    assert_eq!(to_words("a--b"), "A  B");
    assert_eq!(to_words(""), "");
}
