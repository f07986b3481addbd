//! One step of the operator console: from a resolved console command, its
//! words and the persisted plugins, to the messages it answers with, the
//! change to the plugins, and the outside work it leaves to the caller.
use vstd::prelude::*;
use crate::console::{CommandHelp, InputAgentOutput, LogLevel};
use crate::help::strings_view;
use crate::input_agent::{help_message, help_text, plugin_list_message, plugin_list_text, plugin_toggle, ConsoleAction};
use crate::melody_commander::{arg_at, resolve_args, CommandError, Commands, Parsed};
use crate::num::{decimal, parse_u64_spec};
use crate::persist::{distinct_names, name_set, Persist};

verus! {

/// Outside work a console command leaves to the one who runs the console.
#[derive(Debug, Clone, PartialEq, Eq)]
pub enum ConsoleEffect {
    Nothing,
    Shutdown,
    Restart,
    InspectActivities,
    InspectConfig,
    InspectPersist,
    InspectPersistGuild(u64),
    ReloadActivities,
    /// Update yt-dlp to this version (`latest` when none was given).
    UpdateYtDlp(String),
    RespawnFeeds,
    AbortFeeds,
    ListFeedTasks,
}

/// The guild ID given as the `i`th word, where it is one.
pub open spec fn guild_word(words: Seq<Seq<char>>, i: int) -> Option<u64> {
    match arg_at(words, i) {
        Some(w) => parse_u64_spec(w),
        None => None,
    }
}

/// The error for a missing or malformed guild ID word.
pub open spec fn guild_error(word: Option<Seq<char>>, e: CommandError) -> bool {
    match word {
        None => e is InsufficientArgs,
        Some(_) => e is ArgsFromStrError,
    }
}

/// What enabling or disabling `plugin` answers.
pub open spec fn toggle_reply(allowed: Seq<Seq<char>>, plugin: Seq<char>, guild: u64, enable: bool) -> Seq<char> {
    if allowed.contains(plugin) {
        (if enable { "Enabled plugin "@ } else { "Disabled plugin "@ }) + plugin + " for guild ("@
            + decimal(guild as nat) + ")"@
    } else {
        "No such plugin "@ + plugin
    }
}

/// A guild's plugins after enabling or disabling `plugin`, which changes
/// them only when it is one of the plugins that exist.
pub open spec fn toggled(before: Set<Seq<char>>, allowed: Seq<Seq<char>>, plugin: Seq<char>, enable: bool) -> Set<Seq<char>> {
    if allowed.contains(plugin) {
        if enable { before.insert(plugin) } else { before.remove(plugin) }
    } else {
        before
    }
}

/// `after` is `before` with only the plugins of `guild` set to `plugins`.
pub open spec fn plugins_set(before: Persist, after: Persist, guild: u64, plugins: Set<Seq<char>>) -> bool {
    &&& after.wf()
    &&& after.build() == before.build()
    &&& after.notified() == before.notified()
    &&& after.plugins(guild) == plugins
    &&& forall|g: u64| g != guild ==> #[trigger] after.plugins(g) == before.plugins(g)
}

/// The effect of the commands that only hand work to the caller.
pub open spec fn plain_effect(action: ConsoleAction) -> Option<ConsoleEffect> {
    match action {
        ConsoleAction::InspectActivities => Some(ConsoleEffect::InspectActivities),
        ConsoleAction::InspectConfig => Some(ConsoleEffect::InspectConfig),
        ConsoleAction::InspectPersist => Some(ConsoleEffect::InspectPersist),
        ConsoleAction::ReloadActivities => Some(ConsoleEffect::ReloadActivities),
        ConsoleAction::FeedsRespawnAll => Some(ConsoleEffect::RespawnFeeds),
        ConsoleAction::FeedsAbortAll => Some(ConsoleEffect::AbortFeeds),
        ConsoleAction::FeedsListTasks => Some(ConsoleEffect::ListFeedTasks),
        _ => None,
    }
}

fn info(output: &mut InputAgentOutput, text: String)
    ensures final(output).view_messages() == old(output).view_messages().push((LogLevel::Info, text@)),
{
    output.info(text);
}

/// Runs a console command: `action` with the words after its path, against
/// the plugins in `persist` (`allowed` are the plugins that exist).
/// - `help` answers with the help of the path in its words, or fails as
///   `help_message` does;
/// - `stop` (and `halt`) answers "Shutdown triggered" and asks for a
///   shutdown; `restart` answers "Restart triggered" and asks for a restart;
/// - `plugin list <guild>` answers with the guild's plugins;
/// - `plugin enable|disable <plugin> <guild>` changes the guild's plugins
///   when the plugin exists, and says what it did;
/// - `inspect persist-guild <guild>` asks for that guild's data;
/// - `update-yt-dlp [version]` asks for an update to the version (`latest`
///   when none is given);
/// - the other commands ask for their work and answer nothing.
/// A missing or malformed guild ID (or plugin name) fails with the error of
/// its word. Only `plugin enable` and `plugin disable` change `persist`.
pub fn console_step(
    action: ConsoleAction,
    args: &Vec<String>,
    commands: &Commands<ConsoleAction, CommandHelp>,
    persist: &mut Persist,
    allowed: &Vec<String>,
    output: &mut InputAgentOutput,
) -> (r: Result<ConsoleEffect, CommandError>)
    requires old(persist).wf(),
    ensures
        final(persist).wf(),
        !(action is PluginEnable || action is PluginDisable) ==> *final(persist) == *old(persist),
        r is Err ==> *final(persist) == *old(persist) && final(output).view_messages() == old(output).view_messages(),
        match action {
            ConsoleAction::Help => match help_text(strings_view(args@), commands@) {
                Some(t) => r == Ok::<ConsoleEffect, CommandError>(ConsoleEffect::Nothing)
                    && final(output).view_messages() == old(output).view_messages().push((LogLevel::Info, t)),
                None => r is Err,
            },
            ConsoleAction::Stop => r == Ok::<ConsoleEffect, CommandError>(ConsoleEffect::Shutdown)
                && final(output).view_messages() == old(output).view_messages().push((LogLevel::Info, "Shutdown triggered"@)),
            ConsoleAction::Restart => r == Ok::<ConsoleEffect, CommandError>(ConsoleEffect::Restart)
                && final(output).view_messages() == old(output).view_messages().push((LogLevel::Info, "Restart triggered"@)),
            ConsoleAction::PluginList => match guild_word(strings_view(args@), 0) {
                Some(g) => r == Ok::<ConsoleEffect, CommandError>(ConsoleEffect::Nothing)
                    && exists|v: Seq<String>| distinct_names(v) && name_set(v) == old(persist).plugins(g)
                        && final(output).view_messages() == old(output).view_messages().push(
                            (LogLevel::Info, #[trigger] plugin_list_text(g, strings_view(v)))),
                None => r matches Err(e) && guild_error(arg_at(strings_view(args@), 0), e),
            },
            ConsoleAction::PluginEnable | ConsoleAction::PluginDisable => {
                let enable = action is PluginEnable;
                match (arg_at(strings_view(args@), 0), guild_word(strings_view(args@), 1)) {
                    (Some(p), Some(g)) => r == Ok::<ConsoleEffect, CommandError>(ConsoleEffect::Nothing)
                        && plugins_set(*old(persist), *final(persist), g,
                            toggled(old(persist).plugins(g), strings_view(allowed@), p, enable))
                        && final(output).view_messages() == old(output).view_messages().push(
                            (LogLevel::Info, toggle_reply(strings_view(allowed@), p, g, enable))),
                    (None, _) => r matches Err(e) && e is InsufficientArgs,
                    (Some(_), None) => r matches Err(e) && guild_error(arg_at(strings_view(args@), 1), e),
                }
            },
            ConsoleAction::InspectPersistGuild => match guild_word(strings_view(args@), 0) {
                Some(g) => r == Ok::<ConsoleEffect, CommandError>(ConsoleEffect::InspectPersistGuild(g))
                    && final(output).view_messages() == old(output).view_messages(),
                None => r matches Err(e) && guild_error(arg_at(strings_view(args@), 0), e),
            },
            ConsoleAction::UpdateYtDlp => r matches Ok(ConsoleEffect::UpdateYtDlp(v))
                && v@ == match arg_at(strings_view(args@), 0) {
                    Some(w) => w,
                    None => "latest"@,
                }
                && final(output).view_messages() == old(output).view_messages(),
            _ => r == Ok::<ConsoleEffect, CommandError>(plain_effect(action)->0)
                && final(output).view_messages() == old(output).view_messages(),
        },
{
    match action {
        ConsoleAction::Help => {
            match help_message(args.as_slice(), commands) {
                Ok(t) => {
                    info(output, t);
                    Ok(ConsoleEffect::Nothing)
                },
                Err(e) => Err(e),
            }
        },
        ConsoleAction::Stop => {
            info(output, String::from_str("Shutdown triggered"));
            Ok(ConsoleEffect::Shutdown)
        },
        ConsoleAction::Restart => {
            info(output, String::from_str("Restart triggered"));
            Ok(ConsoleEffect::Restart)
        },
        ConsoleAction::PluginList => {
            match resolve_args::<Parsed<u64>>(args.as_slice()) {
                Ok(guild) => {
                    let plugins = persist.get_guild_plugins(guild);
                    let text = plugin_list_message(guild, &plugins);
                    info(output, text);
                    assert(plugin_list_text(guild, strings_view(plugins@)) == text@);
                    Ok(ConsoleEffect::Nothing)
                },
                Err(e) => Err(e),
            }
        },
        ConsoleAction::PluginEnable | ConsoleAction::PluginDisable => {
            let enable = match action {
                ConsoleAction::PluginEnable => true,
                _ => false,
            };
            match resolve_args::<(String, Parsed<u64>)>(args.as_slice()) {
                Ok((plugin, guild)) => {
                    let text = plugin_toggle(persist, allowed, plugin.as_str(), guild, enable);
                    info(output, text);
                    Ok(ConsoleEffect::Nothing)
                },
                Err(e) => Err(e),
            }
        },
        ConsoleAction::InspectPersistGuild => {
            match resolve_args::<Parsed<u64>>(args.as_slice()) {
                Ok(guild) => Ok(ConsoleEffect::InspectPersistGuild(guild)),
                Err(e) => Err(e),
            }
        },
        ConsoleAction::UpdateYtDlp => {
            if args.len() > 0 {
                Ok(ConsoleEffect::UpdateYtDlp(args[0].clone()))
            } else {
                Ok(ConsoleEffect::UpdateYtDlp(String::from_str("latest")))
            }
        },
        ConsoleAction::InspectActivities => Ok(ConsoleEffect::InspectActivities),
        ConsoleAction::InspectConfig => Ok(ConsoleEffect::InspectConfig),
        ConsoleAction::InspectPersist => Ok(ConsoleEffect::InspectPersist),
        ConsoleAction::ReloadActivities => Ok(ConsoleEffect::ReloadActivities),
        ConsoleAction::FeedsRespawnAll => Ok(ConsoleEffect::RespawnFeeds),
        ConsoleAction::FeedsAbortAll => Ok(ConsoleEffect::AbortFeeds),
        ConsoleAction::FeedsListTasks => Ok(ConsoleEffect::ListFeedTasks),
    }
}


/// What `{:?}` writes for a string: it quoted, with `str::escape_debug`'s escapes.
pub uninterp spec fn debug_str_text(s: Seq<char>) -> Seq<char>;

/// `format!("{:?}", s)` for a string; its result is named by
/// `debug_str_text`.
#[verifier::external_body]
fn debug_str(s: &str) -> (r: String)
    ensures r@ == debug_str_text(s@),
{
    format!("{s:?}")
}

/// What `{:?}` writes for a character: it in single quotes, escaped.
pub uninterp spec fn debug_char_text(c: char) -> Seq<char>;

/// `format!("{:?}", c)` for a character; its result is named by
/// `debug_char_text`.
#[verifier::external_body]
fn debug_char(c: char) -> (r: String)
    ensures r@ == debug_char_text(c),
{
    format!("{c:?}")
}

/// The `{:?}` form of a list of names: each as `{:?}` writes it, separated
/// by `", "`, in brackets.
pub open spec fn debug_list_text(names: Seq<Seq<char>>) -> Seq<char> {
    "["@ + crate::help::join_with(names.map_values(|n: Seq<char>| debug_str_text(n)), ", "@) + "]"@
}

fn debug_list(names: &Vec<&'static str>) -> (r: String)
    ensures r@ == debug_list_text(names@.map_values(|s: &'static str| s@)),
{
    let ghost ns = names@.map_values(|s: &'static str| s@);
    let mut parts: Vec<String> = Vec::new();
    let mut i: usize = 0;
    while i < names.len()
        invariant
            i <= names@.len(),
            ns == names@.map_values(|s: &'static str| s@),
            strings_view(parts@) == ns.take(i as int).map_values(|n: Seq<char>| debug_str_text(n)),
        decreases names.len() - i,
    {
        let d = debug_str(names[i]);
        let ghost before = strings_view(parts@);
        let ghost dv = d@;
        parts.push(d);
        assert(strings_view(parts@) =~= before.push(dv));
        assert(ns.take(i + 1).map_values(|n: Seq<char>| debug_str_text(n))
            =~= ns.take(i as int).map_values(|n: Seq<char>| debug_str_text(n)).push(dv));
        i = i + 1;
    }
    assert(ns.take(i as int) =~= ns);
    let joined = crate::help::join_strings(&parts, ", ");
    let mut r = String::from_str("[");
    crate::text::push_str(&mut r, joined.as_str());
    crate::text::push_str(&mut r, "]");
    r
}

/// The text of a console input error, as the console reports it.
pub open spec fn input_error_text(e: CommandError) -> Seq<char> {
    "Input Error: "@ + match e {
        CommandError::InsufficientArgsCommand(names) =>
            "insufficient arguments, expected one of "@ + debug_list_text(names@.map_values(|s: &'static str| s@)),
        CommandError::InsufficientArgs(what) => "insufficient arguments, expected "@ + what@,
        CommandError::CommandNotFound(name) => "command "@ + debug_str_text(name@) + " not found"@,
        CommandError::IllegalCharacter(c) => "illegal character "@ + debug_char_text(c),
        CommandError::IllegalEscapeCodeSequence(c) => "illegal escape code sequence "@ + debug_char_text(c),
        CommandError::UnexpectedQuote => "unexpected quote"@,
        CommandError::UnexpectedEndOfLineInEscapeSequence => "unexpected end of line in escape sequence"@,
        CommandError::UnexpectedEndOfLineInQuote => "unexpected end of line in quote"@,
        CommandError::ArgsFromStrError(m) => "failed to parse argument: "@ + m@,
    }
}

/// The text the console reports a failed command line with.
pub fn input_error_message(e: &CommandError) -> (r: String)
    ensures r@ == input_error_text(*e),
{
    let mut s = String::from_str("Input Error: ");
    match e {
        CommandError::InsufficientArgsCommand(names) => {
            crate::text::push_str(&mut s, "insufficient arguments, expected one of ");
            let list = debug_list(names);
            crate::text::push_str(&mut s, list.as_str());
        },
        CommandError::InsufficientArgs(what) => {
            crate::text::push_str(&mut s, "insufficient arguments, expected ");
            crate::text::push_str(&mut s, what);
        },
        CommandError::CommandNotFound(name) => {
            crate::text::push_str(&mut s, "command ");
            let d = debug_str(name.as_str());
            crate::text::push_str(&mut s, d.as_str());
            crate::text::push_str(&mut s, " not found");
        },
        CommandError::IllegalCharacter(c) => {
            crate::text::push_str(&mut s, "illegal character ");
            let d = debug_char(*c);
            crate::text::push_str(&mut s, d.as_str());
        },
        CommandError::IllegalEscapeCodeSequence(c) => {
            crate::text::push_str(&mut s, "illegal escape code sequence ");
            let d = debug_char(*c);
            crate::text::push_str(&mut s, d.as_str());
        },
        CommandError::UnexpectedQuote => {
            crate::text::push_str(&mut s, "unexpected quote");
        },
        CommandError::UnexpectedEndOfLineInEscapeSequence => {
            crate::text::push_str(&mut s, "unexpected end of line in escape sequence");
        },
        CommandError::UnexpectedEndOfLineInQuote => {
            crate::text::push_str(&mut s, "unexpected end of line in quote");
        },
        CommandError::ArgsFromStrError(m) => {
            crate::text::push_str(&mut s, "failed to parse argument: ");
            crate::text::push_str(&mut s, m.as_str());
        },
    }
    s
}

} // verus!
