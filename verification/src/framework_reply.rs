//! What a user is told when the command framework refuses or fails a command.
//! Permission sets come in already written out as text; how long a cooldown
//! still runs is told by the caller, who formats the seconds.
use vstd::prelude::*;
use crate::text::push_str;

verus! {

/// Why the framework did not run a command to its end.
#[derive(Debug, Clone, PartialEq, Eq)]
pub enum FrameworkFailure {
    /// The command returned an error.
    Command,
    /// The command panicked.
    CommandPanic,
    /// The registered command does not match the one invoked.
    CommandStructureMismatch,
    /// An argument could not be parsed.
    ArgumentParse,
    /// The bot lacks the permissions written out here.
    MissingBotPermissions(String),
    /// The user lacks permissions, written out here where known.
    MissingUserPermissions(Option<String>),
    NotAnOwner,
    GuildOnly,
    DmOnly,
    NsfwOnly,
}

pub open spec fn failure_text(failure: FrameworkFailure) -> Seq<char> {
    match failure {
        FrameworkFailure::MissingBotPermissions(p) => "I am missing '"@ + p@ + "' permissions"@,
        FrameworkFailure::MissingUserPermissions(Some(p)) =>
            "You do not have permission to do that (missing '"@ + p@ + "' permissions)"@,
        FrameworkFailure::MissingUserPermissions(None) => "You do not have permission to do that"@,
        FrameworkFailure::NotAnOwner => "You do not have permission to do that (you are not a bot owner)"@,
        FrameworkFailure::GuildOnly => "This command cannot be used in DM channels"@,
        FrameworkFailure::DmOnly => "This command cannot be used in guild channels"@,
        FrameworkFailure::NsfwOnly => "This command cannot be used in NSFW channels"@,
        _ => "An unexpected internal error has occurred"@,
    }
}

/// The reply to a command the framework refused or that failed: internal
/// failures all read the same, refusals say why.
pub fn framework_failure_reply(failure: &FrameworkFailure) -> (r: String)
    ensures r@ == failure_text(*failure),
{
    let mut s = String::new();
    match failure {
        FrameworkFailure::MissingBotPermissions(p) => {
            push_str(&mut s, "I am missing '");
            push_str(&mut s, p.as_str());
            push_str(&mut s, "' permissions");
        },
        FrameworkFailure::MissingUserPermissions(Some(p)) => {
            push_str(&mut s, "You do not have permission to do that (missing '");
            push_str(&mut s, p.as_str());
            push_str(&mut s, "' permissions)");
        },
        FrameworkFailure::MissingUserPermissions(None) => {
            push_str(&mut s, "You do not have permission to do that");
        },
        FrameworkFailure::NotAnOwner => {
            push_str(&mut s, "You do not have permission to do that (you are not a bot owner)");
        },
        FrameworkFailure::GuildOnly => {
            push_str(&mut s, "This command cannot be used in DM channels");
        },
        FrameworkFailure::DmOnly => {
            push_str(&mut s, "This command cannot be used in guild channels");
        },
        FrameworkFailure::NsfwOnly => {
            push_str(&mut s, "This command cannot be used in NSFW channels");
        },
        _ => {
            push_str(&mut s, "An unexpected internal error has occurred");
        },
    }
    s
}

/// The reply to a command refused for its cooldown, given the remaining
/// seconds already written with two decimals.
pub fn cooldown_reply(seconds: &str) -> (r: String)
    ensures r@ == "Please wait "@ + seconds@ + " seconds before using that action again"@,
{
    let mut s = String::new();
    push_str(&mut s, "Please wait ");
    push_str(&mut s, seconds);
    push_str(&mut s, " seconds before using that action again");
    s
}

} // verus!
