//! The first version of the command tree: commands carry no help text, and
//! argument resolution yields the argument types themselves.
use vstd::prelude::*;
use crate::split::{split_command_line, split_spec, strings_view, SplitError};
use crate::text::{eq_ignore_ascii_case, eq_ignore_case, copy_string};
use crate::num::{parse_u64, parse_u64_spec};
use crate::melody_commander::{parse_u64_message, u64_error_text};

verus! {

pub struct Command<T> {
    pub name: &'static str,
    pub body: CommandBody<T>,
}

pub enum CommandBody<T> {
    Group { commands: Vec<Command<T>> },
    Target { target: T },
}

pub struct CommandOutput<'a, T> {
    pub target: &'a T,
    pub remaining_args: Vec<String>,
}

#[derive(Debug)]
pub enum CommandError {
    EmptyCommandGroup,
    InsufficientArgs,
    CommandNotFound(String),
    IllegalCharacter(char),
    IllegalEscapeCodeSequence(char),
    UnexpectedQuote,
    UnexpectedEndOfLineInEscapeSequence,
    UnexpectedEndOfLineInQuote,
    /// An argument could not be parsed; the message says why.
    ArgsFromStrError(String),
}

impl<T> Command<T> {
    pub fn new_group(name: &'static str, commands: Vec<Command<T>>) -> (r: Self)
        ensures
            r.name == name,
            r.body == (CommandBody::Group { commands }),
    {
        Command { name, body: CommandBody::Group { commands } }
    }

    pub fn new_target(name: &'static str, target: T) -> (r: Self)
        ensures
            r.name == name,
            r.body == (CommandBody::Target::<T> { target }),
    {
        Command { name, body: CommandBody::Target { target } }
    }
}

/// The index of the first command at or after `i` whose name matches `name`.
pub open spec fn first_match_from<T>(name: Seq<char>, cmds: Seq<Command<T>>, i: int) -> Option<int>
    decreases cmds.len() - i,
{
    if 0 <= i < cmds.len() {
        if eq_ignore_case(cmds[i].name@, name) {
            Some(i)
        } else {
            first_match_from(name, cmds, i + 1)
        }
    } else {
        None
    }
}

/// How a sequence of words resolves against a command list.
pub enum TargetLookup<T> {
    Target { target: T, used: nat },
    Missing,
    NotFound { name: Seq<char> },
}

pub open spec fn lookup_target<T>(args: Seq<Seq<char>>, cmds: Seq<Command<T>>) -> TargetLookup<T>
    decreases args.len(),
{
    if args.len() == 0 {
        TargetLookup::Missing
    } else {
        match first_match_from(args[0], cmds, 0) {
            None => TargetLookup::NotFound { name: args[0] },
            Some(k) => match cmds[k].body {
                CommandBody::Target { target } => TargetLookup::Target { target, used: 1 },
                CommandBody::Group { commands } => match lookup_target(args.drop_first(), commands@) {
                    TargetLookup::Target { target, used } => TargetLookup::Target { target, used: used + 1 },
                    other => other,
                },
            },
        }
    }
}

pub open spec fn lookup_error_matches<T>(l: TargetLookup<T>, e: CommandError) -> bool {
    match l {
        TargetLookup::Missing => e matches CommandError::InsufficientArgs,
        TargetLookup::NotFound { name } => e matches CommandError::CommandNotFound(s) && s@ == name,
        TargetLookup::Target { .. } => false,
    }
}

fn find_in_list<'a, T>(name: &str, commands: &'a Vec<Command<T>>) -> (r: Option<&'a Command<T>>)
    ensures
        match first_match_from(name@, commands@, 0) {
            Some(k) => r == Some(&commands@[k]),
            None => r is None,
        },
{
    let mut i: usize = 0;
    while i < commands.len()
        invariant
            i <= commands@.len(),
            first_match_from(name@, commands@, 0) == first_match_from(name@, commands@, i as int),
        decreases commands.len() - i,
    {
        if eq_ignore_ascii_case(commands[i].name, name) {
            return Some(&commands[i]);
        }
        i = i + 1;
    }
    None
}

/// Resolves `args[start..]` to a target, returning it and the number of words used.
fn find_target_args<'a, T>(args: &Vec<String>, start: usize, commands: &'a Vec<Command<T>>)
    -> (r: Result<(&'a T, usize), CommandError>)
    requires start <= args@.len(),
    ensures
        match r {
            Ok((t, used)) => match lookup_target(strings_view(args@).skip(start as int), commands@) {
                TargetLookup::Target { target, used: u } => target == *t && used == u
                    && 1 <= used <= args@.len() - start,
                _ => false,
            },
            Err(e) => lookup_error_matches(lookup_target(strings_view(args@).skip(start as int), commands@), e),
        },
    decreases args@.len() - start,
{
    let ghost words = strings_view(args@).skip(start as int);
    if start >= args.len() {
        return Err(CommandError::InsufficientArgs);
    }
    assert(words[0] == args@[start as int]@);
    let first_arg = &args[start];
    match find_in_list(first_arg.as_str(), commands) {
        None => Err(CommandError::CommandNotFound(copy_string(first_arg))),
        Some(command) => match &command.body {
            CommandBody::Group { commands: sub } => {
                assert(words.drop_first() =~= strings_view(args@).skip(start + 1));
                match find_target_args(args, start + 1, sub) {
                    Ok((t, used)) => Ok((t, used + 1)),
                    Err(e) => Err(e),
                }
            },
            CommandBody::Target { target } => Ok((target, 1)),
        },
    }
}

pub open spec fn split_error_matches(se: SplitError, e: CommandError) -> bool {
    match se {
        SplitError::IllegalCharacter(c) => e == CommandError::IllegalCharacter(c),
        SplitError::IllegalEscapeCodeSequence(c) => e == CommandError::IllegalEscapeCodeSequence(c),
        SplitError::UnexpectedQuote => e == CommandError::UnexpectedQuote,
        SplitError::UnexpectedEndOfLineInEscapeSequence => e == CommandError::UnexpectedEndOfLineInEscapeSequence,
        SplitError::UnexpectedEndOfLineInQuote => e == CommandError::UnexpectedEndOfLineInQuote,
    }
}

/// Splits a command line into words (see `split_spec`).
pub fn split_args(input: &str) -> (r: Result<Vec<String>, CommandError>)
    ensures
        match split_spec(input@) {
            Ok(words) => r matches Ok(args) && strings_view(args@) == words,
            Err(se) => r matches Err(e) && split_error_matches(se, e),
        },
{
    match split_command_line(input) {
        Ok(args) => Ok(args),
        Err(se) => Err(match se {
            SplitError::IllegalCharacter(c) => CommandError::IllegalCharacter(c),
            SplitError::IllegalEscapeCodeSequence(c) => CommandError::IllegalEscapeCodeSequence(c),
            SplitError::UnexpectedQuote => CommandError::UnexpectedQuote,
            SplitError::UnexpectedEndOfLineInEscapeSequence => CommandError::UnexpectedEndOfLineInEscapeSequence,
            SplitError::UnexpectedEndOfLineInQuote => CommandError::UnexpectedEndOfLineInQuote,
        }),
    }
}

/// Splits `input` and follows its words down `commands` to a target; the
/// words after the target are handed back.
pub fn apply<'a, T>(input: &str, commands: &'a Vec<Command<T>>) -> (r: Result<CommandOutput<'a, T>, CommandError>)
    ensures
        match split_spec(input@) {
            Err(se) => r matches Err(e) && split_error_matches(se, e),
            Ok(words) => match lookup_target(words, commands@) {
                TargetLookup::Target { target, used } => r matches Ok(out)
                    && *out.target == target
                    && strings_view(out.remaining_args@) == words.skip(used as int),
                other => r matches Err(e) && lookup_error_matches(other, e),
            },
        },
{
    let args = split_args(input)?;
    assert(strings_view(args@).skip(0) =~= strings_view(args@));
    let (target, used) = find_target_args(&args, 0, commands)?;
    let mut remaining_args: Vec<String> = Vec::new();
    let mut i = used;
    while i < args.len()
        invariant
            used <= i <= args@.len(),
            remaining_args@.len() == i - used,
            forall|k: int| 0 <= k < remaining_args@.len() ==> (#[trigger] remaining_args@[k])@ == args@[used + k]@,
        decreases args.len() - i,
    {
        remaining_args.push(copy_string(&args[i]));
        i = i + 1;
    }
    assert(strings_view(remaining_args@) =~= strings_view(args@).skip(used as int));
    Ok(CommandOutput { target, remaining_args })
}

/// An argument that is parsed from its text.
#[derive(Debug, Clone, Copy, PartialEq, Eq, PartialOrd, Ord, Hash)]
pub struct Parsed<T>(pub T);

pub open spec fn opt_str_view(o: Option<&str>) -> Option<Seq<char>> {
    match o {
        Some(s) => Some(s@),
        None => None,
    }
}

pub open spec fn arg_at(args: Seq<Seq<char>>, i: int) -> Option<Seq<char>> {
    if 0 <= i < args.len() { Some(args[i]) } else { None }
}

/// A type whose value can be read from one command-line word (or its absence).
pub trait ResolveArg: Sized {
    /// Whether `r` is what resolving the word `arg` gives.
    spec fn resolves(arg: Option<Seq<char>>, r: Result<Self, CommandError>) -> bool;

    fn resolve_arg(arg: Option<&str>) -> (r: Result<Self, CommandError>)
        ensures Self::resolves(opt_str_view(arg), r);
}

impl ResolveArg for String {
    open spec fn resolves(arg: Option<Seq<char>>, r: Result<String, CommandError>) -> bool {
        match arg {
            Some(s) => r matches Ok(v) && v@ == s,
            None => r matches Err(CommandError::InsufficientArgs),
        }
    }

    fn resolve_arg(arg: Option<&str>) -> (r: Result<String, CommandError>) {
        match arg {
            Some(s) => Ok(s.to_owned()),
            None => Err(CommandError::InsufficientArgs),
        }
    }
}

impl<T: ResolveArg> ResolveArg for Option<T> {
    open spec fn resolves(arg: Option<Seq<char>>, r: Result<Option<T>, CommandError>) -> bool {
        match arg {
            None => r matches Ok(None),
            Some(s) => match r {
                Ok(Some(v)) => T::resolves(Some(s), Ok(v)),
                Ok(None) => false,
                Err(e) => T::resolves(Some(s), Err(e)),
            },
        }
    }

    fn resolve_arg(arg: Option<&str>) -> (r: Result<Option<T>, CommandError>) {
        match arg {
            None => Ok(None),
            Some(a) => match T::resolve_arg(Some(a)) {
                Ok(v) => Ok(Some(v)),
                Err(e) => Err(e),
            },
        }
    }
}

impl ResolveArg for Parsed<u64> {
    open spec fn resolves(arg: Option<Seq<char>>, r: Result<Parsed<u64>, CommandError>) -> bool {
        match arg {
            Some(s) => match parse_u64_spec(s) {
                Some(n) => r == Ok::<Parsed<u64>, CommandError>(Parsed(n)),
                None => r matches Err(CommandError::ArgsFromStrError(m)) && m@ == u64_error_text(s),
            },
            None => r matches Err(CommandError::InsufficientArgs),
        }
    }

    fn resolve_arg(arg: Option<&str>) -> (r: Result<Parsed<u64>, CommandError>) {
        match arg {
            Some(s) => match parse_u64(s) {
                Some(n) => Ok(Parsed(n)),
                None => Err(CommandError::ArgsFromStrError(parse_u64_message(s).to_owned())),
            },
            None => Err(CommandError::InsufficientArgs),
        }
    }
}

/// A group of arguments read from the leading words of a command line.
pub trait ResolveArgs: Sized {
    spec fn resolves_all(args: Seq<Seq<char>>, r: Result<Self, CommandError>) -> bool;

    fn resolve_args(args: &[String]) -> (r: Result<Self, CommandError>)
        ensures Self::resolves_all(strings_view(args@), r);
}

fn word_at(args: &[String], i: usize) -> (r: Option<&str>)
    ensures opt_str_view(r) == arg_at(strings_view(args@), i as int),
{
    if i < args.len() { Some(args[i].as_str()) } else { None }
}

impl<A: ResolveArg> ResolveArgs for (A,) {
    open spec fn resolves_all(args: Seq<Seq<char>>, r: Result<(A,), CommandError>) -> bool {
        match r {
            Ok((a,)) => A::resolves(arg_at(args, 0), Ok(a)),
            Err(e) => A::resolves(arg_at(args, 0), Err(e)),
        }
    }

    fn resolve_args(args: &[String]) -> (r: Result<(A,), CommandError>) {
        let a = A::resolve_arg(word_at(args, 0))?;
        Ok((a,))
    }
}

impl<A: ResolveArg, B: ResolveArg> ResolveArgs for (A, B) {
    open spec fn resolves_all(args: Seq<Seq<char>>, r: Result<(A, B), CommandError>) -> bool {
        match r {
            Ok((a, b)) => A::resolves(arg_at(args, 0), Ok(a)) && B::resolves(arg_at(args, 1), Ok(b)),
            Err(e) => A::resolves(arg_at(args, 0), Err(e)) || (
                (exists|a: A| A::resolves(arg_at(args, 0), Ok(a)))
                && B::resolves(arg_at(args, 1), Err(e))),
        }
    }

    fn resolve_args(args: &[String]) -> (r: Result<(A, B), CommandError>) {
        let a = A::resolve_arg(word_at(args, 0))?;
        let b = B::resolve_arg(word_at(args, 1))?;
        Ok((a, b))
    }
}

/// Reads a group of arguments from `args`.
pub fn resolve_args<R: ResolveArgs>(args: &[String]) -> (r: Result<R, CommandError>)
    ensures R::resolves_all(strings_view(args@), r),
{
    R::resolve_args(args)
}

} // verus!
