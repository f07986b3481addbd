use melody::persist::Persist;
use melody::blueprint::{
    find_command, iter_default_commands, iter_exclusive_commands, parse_command, BlueprintCommand,
    BlueprintCommandContext, BlueprintOption, BlueprintOptionValue, BlueprintOptionVariant, BlueprintRoot,
    BlueprintSubcommand, CommandData, DataOption, DataOptionValue, InteractionContext, MelodyParseCommandError,
};

fn text_variant() -> BlueprintOptionVariant {
    BlueprintOptionVariant::String { min_length: None, max_length: None, choices: vec![] }
}

fn option(name: &'static str, variant: BlueprintOptionVariant) -> BlueprintOption {
    BlueprintOption { name, description: "", required: true, variant }
}

fn command(name: &'static str, plugin: Option<&'static str>, root: BlueprintRoot<u32>) -> BlueprintCommand<u32> {
    BlueprintCommand {
        name,
        description: "",
        info: None,
        usage: None,
        examples: None,
        plugin,
        context: BlueprintCommandContext::default(),
        default_permissions: None,
        root,
    }
}

fn commands() -> Vec<BlueprintCommand<u32>> {
    vec![
        command("ping", None, BlueprintRoot::Command { function: 1, options: vec![] }),
        command("feed", Some("feeds"), BlueprintRoot::CommandContainer {
            subcommands: vec![
                BlueprintSubcommand {
                    name: "add",
                    description: "",
                    root: BlueprintRoot::Command { function: 2, options: vec![option("channel", text_variant())] },
                },
                BlueprintSubcommand {
                    name: "list",
                    description: "",
                    root: BlueprintRoot::Command { function: 3, options: vec![] },
                },
            ],
        }),
        command("grant", None, BlueprintRoot::Command {
            function: 4,
            options: vec![option("who", BlueprintOptionVariant::Mentionable), option("count", BlueprintOptionVariant::Integer { min_value: None, max_value: None, choices: vec![] })],
        }),
    ]
}

fn data(name: &str, options: Vec<DataOption>) -> CommandData {
    CommandData { name: name.to_owned(), options, resolved_users: vec![100], resolved_roles: vec![200] }
}

fn opt(name: &str, value: DataOptionValue) -> DataOption {
    DataOption { name: name.to_owned(), value }
}

#[test]
fn contexts_and_texts() {
    assert_eq!(BlueprintCommandContext::OnlyInGuild.contexts(), vec![InteractionContext::Guild]);
    assert_eq!(
        BlueprintCommandContext::OnlyInDm.contexts(),
        vec![InteractionContext::BotDm, InteractionContext::PrivateChannel]
    );
    assert_eq!(BlueprintCommandContext::Anywhere.contexts().len(), 3);
    assert_eq!(BlueprintCommandContext::Anywhere.to_text(), "Anywhere");
    assert_eq!(BlueprintCommandContext::OnlyInGuild.to_text(), "Only in Guilds");
    assert_eq!(BlueprintCommandContext::OnlyInDm.to_text(), "Only in DMs");
    assert_eq!(BlueprintCommandContext::default(), BlueprintCommandContext::Anywhere);
}

#[test]
fn option_kinds() {
    assert!(BlueprintOptionVariant::Mentionable.is_same_type(&BlueprintOptionValue::Role(1)));
    assert!(BlueprintOptionVariant::Mentionable.is_same_type(&BlueprintOptionValue::User(1)));
    assert!(!BlueprintOptionVariant::User.is_same_type(&BlueprintOptionValue::Role(1)));
    assert!(text_variant().is_same_type(&BlueprintOptionValue::String("x".to_owned())));
    assert!(!BlueprintOptionVariant::Number { min_value: None, max_value: None, choices: vec![] }.is_same_type(&BlueprintOptionValue::Integer(1)));
}

#[test]
fn finding_commands_and_subcommands() {
    let cmds = commands();
    assert_eq!(find_command(&cmds, "grant").map(|c| c.name), Some("grant"));
    assert!(find_command(&cmds, "Grant").is_none());
    let feed = find_command(&cmds, "feed").unwrap();
    let names = vec!["list".to_owned()];
    assert_eq!(feed.root.get(&names).map(|(o, f)| (o.len(), f)), Some((0, 3)));
    assert!(feed.root.get(&[]).is_none());
    assert!(feed.root.get(&["remove".to_owned()]).is_none());
    assert!(cmds[0].root.get(&["x".to_owned()]).is_none());
}

#[test]
fn plugins_split_commands() {
    let cmds = commands();
    let defaults: Vec<&str> = iter_default_commands(&cmds).iter().map(|c| c.name).collect();
    let exclusive: Vec<&str> = iter_exclusive_commands(&cmds).iter().map(|c| c.name).collect();
    assert_eq!(defaults, ["ping", "grant"]);
    assert_eq!(exclusive, ["feed"]);
    assert!(cmds[1].is_exclusive() && !cmds[0].is_exclusive());
    assert!(cmds[0].is_enabled(&vec![]));
    assert!(!cmds[1].is_enabled(&vec!["music".to_owned()]));
    assert!(cmds[1].is_enabled(&vec!["music".to_owned(), "feeds".to_owned()]));
}

#[test]
fn command_texts() {
    let mut c = command("x", None, BlueprintRoot::Command { function: 0, options: vec![] });
    assert_eq!(c.stringify_info(), "(none)");
    assert_eq!(c.stringify_usage(), "(none)");
    c.info = Some(vec!["Rolls", "dice."]);
    c.usage = Some(vec!["/roll 2d6", "/roll d20"]);
    c.examples = Some(vec!["/roll coin"]);
    assert_eq!(c.stringify_info(), "Rolls dice.");
    assert_eq!(c.stringify_usage(), "`/roll 2d6`\n`/roll d20`");
    assert_eq!(c.stringify_examples(), "`/roll coin`");
}

#[test]
fn parsing_interactions() {
    let cmds = commands();
    let (name, subs, vals, f) = parse_command(&data("ping", vec![]), &cmds).unwrap();
    assert_eq!((name.as_str(), subs.len(), vals.len(), f), ("ping", 0, 0, 1));

    let d = data("feed", vec![opt("add", DataOptionValue::SubCommand(vec![opt("channel", DataOptionValue::String("UCx".to_owned()))]))]);
    let (name, subs, vals, f) = parse_command(&d, &cmds).unwrap();
    assert_eq!(name, "feed");
    assert_eq!(subs, ["add"]);
    assert_eq!(vals, [BlueprintOptionValue::String("UCx".to_owned())]);
    assert_eq!(f, 2);

    let d = data("grant", vec![opt("who", DataOptionValue::Mentionable(200)), opt("count", DataOptionValue::Integer(3))]);
    let (_, _, vals, f) = parse_command(&d, &cmds).unwrap();
    assert_eq!(vals, [BlueprintOptionValue::Role(200), BlueprintOptionValue::Integer(3)]);
    assert_eq!(f, 4);
}

#[test]
fn interaction_errors() {
    let cmds = commands();
    assert_eq!(parse_command(&data("nope", vec![]), &cmds).unwrap_err(), MelodyParseCommandError::NoCommandFound);
    let d = data("grant", vec![opt("who", DataOptionValue::Mentionable(999))]);
    assert_eq!(parse_command(&d, &cmds).unwrap_err(), MelodyParseCommandError::UnresolvedGenericId(999));
    let d = data("grant", vec![opt("who", DataOptionValue::Integer(1))]);
    assert_eq!(parse_command(&d, &cmds).unwrap_err(), MelodyParseCommandError::InvalidStructure);
    let d = data("ping", vec![opt("x", DataOptionValue::Unknown)]);
    assert_eq!(parse_command(&d, &cmds).unwrap_err(), MelodyParseCommandError::InvalidStructure);
    let d = data("feed", vec![opt("remove", DataOptionValue::SubCommand(vec![]))]);
    assert_eq!(parse_command(&d, &cmds).unwrap_err(), MelodyParseCommandError::NoCommandFound);
}

#[test]
fn plugin_gates_commands() {
    let feeds = command("feeds", Some("feed"), BlueprintRoot::Command { function: 1, options: vec![] });
    let ping = command("ping", None, BlueprintRoot::Command { function: 2, options: vec![] });
    let mut persist = Persist::new();
    assert!(!feeds.is_enabled(&persist.get_guild_plugins(7)));
    assert!(ping.is_enabled(&persist.get_guild_plugins(7)));
    persist.enable_plugin(7, "feed");
    assert!(feeds.is_enabled(&persist.get_guild_plugins(7)));
    assert!(!feeds.is_enabled(&persist.get_guild_plugins(8)));
    persist.disable_plugin(7, "feed");
    assert!(!feeds.is_enabled(&persist.get_guild_plugins(7)));
}
