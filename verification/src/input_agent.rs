//! The commands typed at the bot's console: their tree, the help they give,
//! and the plugin commands, which change the persisted plugins of a guild.
use vstd::prelude::*;
use crate::console::CommandHelp;
use crate::help::{join_strings, join_with, strings_view};
use crate::melody_commander::{
    command_names, find_command, find_path, names_of, Command, CommandBody, CommandError, Commands, FindSpec,
};
use crate::num::{decimal, push_decimal};
use crate::persist::Persist;
use crate::text::{push_str, str_eq};

verus! {

broadcast use vstd::string::group_string_axioms;

/// What a console command does.
#[derive(Debug, Clone, Copy, PartialEq, Eq, Structural)]
pub enum ConsoleAction {
    Help,
    Stop,
    Restart,
    PluginList,
    PluginEnable,
    PluginDisable,
    InspectActivities,
    InspectConfig,
    InspectPersist,
    InspectPersistGuild,
    ReloadActivities,
    UpdateYtDlp,
    FeedsRespawnAll,
    FeedsAbortAll,
    FeedsListTasks,
}

fn target(name: &'static str, description: &'static str, usage: &'static str, action: ConsoleAction)
    -> (r: Command<ConsoleAction, CommandHelp>)
    ensures
        r.name == name,
        r.help == (CommandHelp { description, usage }),
        r.body == (CommandBody::Target::<ConsoleAction, CommandHelp> { target: action }),
{
    Command::new_target(name, CommandHelp { description, usage }, action)
}

/// `c` is the command `name` that runs `action`.
pub open spec fn is_target(c: Command<ConsoleAction, CommandHelp>, name: Seq<char>, action: ConsoleAction) -> bool {
    c.name@ == name && c.body == (CommandBody::Target::<ConsoleAction, CommandHelp> { target: action })
}

/// `c` is the group `name` whose subcommands are, in order, the names and
/// actions of `subs`.
pub open spec fn is_group(
    c: Command<ConsoleAction, CommandHelp>,
    name: Seq<char>,
    subs: Seq<(Seq<char>, ConsoleAction)>,
) -> bool {
    &&& c.name@ == name
    &&& c.body matches CommandBody::Group { commands }
    &&& commands@.len() == subs.len()
    &&& forall|i: int| 0 <= i < subs.len() ==> #[trigger] is_target(commands@[i], subs[i].0, subs[i].1)
}

/// The console's commands: `help`; `stop` and `halt`, which shut the bot
/// down; `restart`; the `plugin` group (`list`, `enable`, `disable`); the
/// `inspect` group (`activities`, `config`, `persist`, `persist-guild`); the
/// `reload` group (`activities`); `update-yt-dlp`; and the `feeds` group
/// (`respawn-all`, `abort-all`, `list-tasks`).
pub fn console_commands() -> (r: Commands<ConsoleAction, CommandHelp>)
    ensures
        names_of(r@) == seq!["help"@, "stop"@, "halt"@, "restart"@, "plugin"@, "inspect"@, "reload"@,
            "update-yt-dlp"@, "feeds"@],
        is_target(r@[0], "help"@, ConsoleAction::Help),
        is_target(r@[1], "stop"@, ConsoleAction::Stop),
        is_target(r@[2], "halt"@, ConsoleAction::Stop),
        is_target(r@[3], "restart"@, ConsoleAction::Restart),
        is_group(r@[4], "plugin"@, seq![("list"@, ConsoleAction::PluginList), ("enable"@, ConsoleAction::PluginEnable),
            ("disable"@, ConsoleAction::PluginDisable)]),
        is_group(r@[5], "inspect"@, seq![("activities"@, ConsoleAction::InspectActivities),
            ("config"@, ConsoleAction::InspectConfig), ("persist"@, ConsoleAction::InspectPersist),
            ("persist-guild"@, ConsoleAction::InspectPersistGuild)]),
        is_group(r@[6], "reload"@, seq![("activities"@, ConsoleAction::ReloadActivities)]),
        is_target(r@[7], "update-yt-dlp"@, ConsoleAction::UpdateYtDlp),
        is_group(r@[8], "feeds"@, seq![("respawn-all"@, ConsoleAction::FeedsRespawnAll),
            ("abort-all"@, ConsoleAction::FeedsAbortAll), ("list-tasks"@, ConsoleAction::FeedsListTasks)]),
{
    let plugin = vec![
        target("list", "Lists the plugins that are enabled for the given guild", "plugin list <guild_id: u64>",
            ConsoleAction::PluginList),
        target("enable", "Enables a plugin in the given guild", "plugin enable <plugin: string> <guild_id: u64>",
            ConsoleAction::PluginEnable),
        target("disable", "Disables a plugin in the given guild", "plugin disable <plugin: string> <guild_id: u64>",
            ConsoleAction::PluginDisable),
    ];
    let inspect = vec![
        target("activities", "Inspects the current state of the global 'activities' data store", "inspect activities",
            ConsoleAction::InspectActivities),
        target("config", "Inspects the current state of the global 'config' data store", "inspect config",
            ConsoleAction::InspectConfig),
        target("persist", "Inspects the current state of the global 'persist' data store", "inspect persist",
            ConsoleAction::InspectPersist),
        target("persist-guild",
            "Inspects the current state of a guild's 'persist-guild' data store, given its respective guild-id",
            "inspect persist-guild <guild_id: u64>", ConsoleAction::InspectPersistGuild),
    ];
    let reload = vec![
        target("activities", "Reloads the global 'activities' data store from disk", "reload activities",
            ConsoleAction::ReloadActivities),
    ];
    let feeds = vec![
        target("respawn-all", "Respawns all feed tasks that may have terminated after too many failures",
            "feeds respawn-all", ConsoleAction::FeedsRespawnAll),
        target("abort-all", "Aborts all feed tasks", "feeds abort-all", ConsoleAction::FeedsAbortAll),
        target("list-tasks", "Lists all feed tasks and whether they are running", "feeds list-tasks",
            ConsoleAction::FeedsListTasks),
    ];
    let ghost pv = plugin@;
    let ghost iv = inspect@;
    let ghost rv = reload@;
    let ghost fv = feeds@;
    let r = vec![
        target("help", "Retrieves help for the given command or subcommand", "help <command-path>...", ConsoleAction::Help),
        target("stop", "Stops the bot", "stop", ConsoleAction::Stop),
        target("halt", "Stops the bot", "halt", ConsoleAction::Stop),
        target("restart", "Restarts the bot", "restart", ConsoleAction::Restart),
        Command::new_group("plugin",
            CommandHelp { description: "Command group for plugin utilities", usage: "plugin <list|enable|disable>" }, plugin),
        Command::new_group("inspect",
            CommandHelp { description: "Command group for data store inspection utilities",
                usage: "inspect <activities|config|persist|persist-guild>" }, inspect),
        Command::new_group("reload",
            CommandHelp { description: "Command group for data store reloading utilities", usage: "reload <activities>" },
            reload),
        target("update-yt-dlp", "Updates the version of yt-dlp used by the bot", "update-yt-dlp", ConsoleAction::UpdateYtDlp),
        Command::new_group("feeds",
            CommandHelp { description: "Command group for feed task utilities",
                usage: "feeds <respawn-all|abort-all|list-tasks>" }, feeds),
    ];
    assert(names_of(r@) =~= seq!["help"@, "stop"@, "halt"@, "restart"@, "plugin"@, "inspect"@, "reload"@,
        "update-yt-dlp"@, "feeds"@]);
    assert(is_group(r@[4], "plugin"@, seq![("list"@, ConsoleAction::PluginList), ("enable"@, ConsoleAction::PluginEnable),
        ("disable"@, ConsoleAction::PluginDisable)])) by {
        assert(is_target(pv[0], "list"@, ConsoleAction::PluginList));
        assert(is_target(pv[1], "enable"@, ConsoleAction::PluginEnable));
        assert(is_target(pv[2], "disable"@, ConsoleAction::PluginDisable));
    }
    assert(is_group(r@[5], "inspect"@, seq![("activities"@, ConsoleAction::InspectActivities),
        ("config"@, ConsoleAction::InspectConfig), ("persist"@, ConsoleAction::InspectPersist),
        ("persist-guild"@, ConsoleAction::InspectPersistGuild)])) by {
        assert(is_target(iv[0], "activities"@, ConsoleAction::InspectActivities));
        assert(is_target(iv[1], "config"@, ConsoleAction::InspectConfig));
        assert(is_target(iv[2], "persist"@, ConsoleAction::InspectPersist));
        assert(is_target(iv[3], "persist-guild"@, ConsoleAction::InspectPersistGuild));
    }
    assert(is_group(r@[6], "reload"@, seq![("activities"@, ConsoleAction::ReloadActivities)])) by {
        assert(is_target(rv[0], "activities"@, ConsoleAction::ReloadActivities));
    }
    assert(is_group(r@[8], "feeds"@, seq![("respawn-all"@, ConsoleAction::FeedsRespawnAll),
        ("abort-all"@, ConsoleAction::FeedsAbortAll), ("list-tasks"@, ConsoleAction::FeedsListTasks)])) by {
        assert(is_target(fv[0], "respawn-all"@, ConsoleAction::FeedsRespawnAll));
        assert(is_target(fv[1], "abort-all"@, ConsoleAction::FeedsAbortAll));
        assert(is_target(fv[2], "list-tasks"@, ConsoleAction::FeedsListTasks));
    }
    r
}

/// A list of names as its debug form shows them: each quoted, separated by commas, in brackets.
pub open spec fn quoted_list(names: Seq<Seq<char>>) -> Seq<char> {
    "["@ + join_with(names.map_values(|n: Seq<char>| "\""@ + n + "\""@), ", "@) + "]"@
}

fn quote_names(names: &Vec<&'static str>) -> (r: String)
    ensures r@ == quoted_list(names@.map_values(|s: &'static str| s@)),
{
    let ghost ns = names@.map_values(|s: &'static str| s@);
    let mut quoted: Vec<String> = Vec::new();
    let mut i: usize = 0;
    while i < names.len()
        invariant
            i <= names@.len(),
            ns == names@.map_values(|s: &'static str| s@),
            strings_view(quoted@) == ns.take(i as int).map_values(|n: Seq<char>| "\""@ + n + "\""@),
        decreases names.len() - i,
    {
        let mut q = String::from_str("\"");
        push_str(&mut q, names[i]);
        push_str(&mut q, "\"");
        let ghost before = strings_view(quoted@);
        let ghost qv = q@;
        quoted.push(q);
        assert(strings_view(quoted@) =~= before.push(qv));
        assert(ns.take(i + 1).map_values(|n: Seq<char>| "\""@ + n + "\""@)
            =~= ns.take(i as int).map_values(|n: Seq<char>| "\""@ + n + "\""@).push(qv));
        i = i + 1;
    }
    assert(ns.take(i as int) =~= ns);
    let joined = join_strings(&quoted, ", ");
    let mut r = String::from_str("[");
    push_str(&mut r, joined.as_str());
    push_str(&mut r, "]");
    r
}

/// The help the console gives for a command path: the list of commands for
/// no path; else the command's name and description, then its subcommands
/// (for a group) or its usage.
pub open spec fn help_text(args: Seq<Seq<char>>, commands: Seq<Command<ConsoleAction, CommandHelp>>) -> Option<Seq<char>> {
    if args.len() == 0 {
        Some("Available commands: "@ + quoted_list(names_of(commands)))
    } else {
        match find_path(args, commands) {
            FindSpec::Found(c) => Some("Command "@ + c.name@ + "\n\t- Description: "@ + c.help.description@
                + match c.body {
                    CommandBody::Group { commands: sub } => "\n\t- Subcommands: "@ + quoted_list(names_of(sub@)),
                    CommandBody::Target { .. } => "\n\t- Usage: "@ + c.help.usage@,
                }),
            _ => None,
        }
    }
}

/// The console's help for the words after `help`; an error when they name no command.
pub fn help_message(args: &[String], commands: &Commands<ConsoleAction, CommandHelp>) -> (r: Result<String, CommandError>)
    ensures
        match help_text(strings_view(args@), commands@) {
            Some(t) => r matches Ok(s) && s@ == t,
            None => r is Err && match find_path(strings_view(args@), commands@) {
                FindSpec::Missing(group) => r matches Err(CommandError::InsufficientArgsCommand(names))
                    && names@.map_values(|s: &'static str| s@) == names_of(group),
                FindSpec::NotFound(name) => r matches Err(CommandError::CommandNotFound(s)) && s@ == name,
                FindSpec::Found(_) => false,
            },
        },
{
    if args.len() == 0 {
        let names = command_names(commands);
        let mut s = String::from_str("Available commands: ");
        let list = quote_names(&names);
        push_str(&mut s, list.as_str());
        return Ok(s);
    }
    let command = match find_command(args, commands) {
        Ok(c) => c,
        Err(e) => {
            return Err(e);
        },
    };
    let mut s = String::from_str("Command ");
    push_str(&mut s, command.name);
    push_str(&mut s, "\n\t- Description: ");
    push_str(&mut s, command.help.description);
    match command.subcommands() {
        Some(sub) => {
            push_str(&mut s, "\n\t- Subcommands: ");
            let names = command_names(sub);
            let list = quote_names(&names);
            push_str(&mut s, list.as_str());
        },
        None => {
            push_str(&mut s, "\n\t- Usage: ");
            push_str(&mut s, command.help.usage);
        },
    }
    Ok(s)
}

/// The plugins of a guild, as the console lists them.
pub open spec fn plugin_list_text(guild: u64, plugins: Seq<Seq<char>>) -> Seq<char> {
    "Plugins for guild ("@ + decimal(guild as nat) + "): "@ + join_with(plugins, ", "@)
}

pub fn plugin_list_message(guild: u64, plugins: &Vec<String>) -> (r: String)
    ensures r@ == plugin_list_text(guild, strings_view(plugins@)),
{
    let mut s = String::from_str("Plugins for guild (");
    push_decimal(&mut s, guild);
    push_str(&mut s, "): ");
    let list = join_strings(plugins, ", ");
    push_str(&mut s, list.as_str());
    s
}

fn has_name(v: &Vec<String>, name: &str) -> (r: bool)
    ensures r == strings_view(v@).contains(name@),
{
    let mut i: usize = 0;
    while i < v.len()
        invariant
            i <= v@.len(),
            forall|k: int| 0 <= k < i ==> v@[k]@ != name@,
        decreases v.len() - i,
    {
        if str_eq(v[i].as_str(), name) {
            assert(strings_view(v@)[i as int] == name@);
            return true;
        }
        i = i + 1;
    }
    proof {
        if strings_view(v@).contains(name@) {
            let k = choose|k: int| 0 <= k < strings_view(v@).len() && strings_view(v@)[k] == name@;
        }
    }
    false
}

/// Enables (or disables) `plugin` in `guild` when it is one of the plugins
/// that exist (`allowed`), and says what was done.
pub fn plugin_toggle(persist: &mut Persist, allowed: &Vec<String>, plugin: &str, guild: u64, enable: bool) -> (r: String)
    requires old(persist).wf(),
    ensures
        final(persist).wf(),
        final(persist).build() == old(persist).build(),
        final(persist).notified() == old(persist).notified(),
        forall|g: u64| g != guild ==> #[trigger] final(persist).plugins(g) == old(persist).plugins(g),
        if strings_view(allowed@).contains(plugin@) {
            &&& final(persist).plugins(guild) == if enable {
                old(persist).plugins(guild).insert(plugin@)
            } else {
                old(persist).plugins(guild).remove(plugin@)
            }
            &&& r@ == (if enable { "Enabled plugin "@ } else { "Disabled plugin "@ }) + plugin@ + " for guild ("@
                + decimal(guild as nat) + ")"@
        } else {
            &&& final(persist).plugins(guild) == old(persist).plugins(guild)
            &&& r@ == "No such plugin "@ + plugin@
        },
{
    if has_name(allowed, plugin) {
        let mut s = if enable {
            persist.enable_plugin(guild, plugin);
            String::from_str("Enabled plugin ")
        } else {
            persist.disable_plugin(guild, plugin);
            String::from_str("Disabled plugin ")
        };
        push_str(&mut s, plugin);
        push_str(&mut s, " for guild (");
        push_decimal(&mut s, guild);
        push_str(&mut s, ")");
        s
    } else {
        let mut s = String::from_str("No such plugin ");
        push_str(&mut s, plugin);
        s
    }
}

} // verus!
