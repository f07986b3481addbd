//! A tree of named commands, looked up from the words of a command line.
//!
//! A command is either a group of subcommands or a target carrying a value.
//! Names are matched without regard to ASCII case; the first match wins.
use vstd::prelude::*;
use crate::split::{split_command_line, split_spec, strings_view, SplitError};
use crate::text::{eq_ignore_ascii_case, eq_ignore_case, copy_string};
use crate::num::{parse_u64, parse_u64_spec};

verus! {

pub struct Command<T, H> {
    pub name: &'static str,
    pub help: H,
    pub body: CommandBody<T, H>,
}

pub enum CommandBody<T, H> {
    Group { commands: Vec<Command<T, H>> },
    Target { target: T },
}

pub type Commands<T, H> = Vec<Command<T, H>>;

/// What a command line resolved to: the target, its help, and the words after it.
pub struct CommandOutput<'a, T, H> {
    pub target: &'a T,
    pub help: &'a H,
    pub remaining_args: Vec<String>,
}

#[derive(Debug)]
pub enum CommandError {
    /// No word was left where one of these command names was expected.
    InsufficientArgsCommand(Vec<&'static str>),
    /// No word was left for an argument of the named type.
    InsufficientArgs(&'static str),
    CommandNotFound(String),
    IllegalCharacter(char),
    IllegalEscapeCodeSequence(char),
    UnexpectedQuote,
    UnexpectedEndOfLineInEscapeSequence,
    UnexpectedEndOfLineInQuote,
    /// An argument could not be parsed; the message says why.
    ArgsFromStrError(String),
}

impl<T, H> Command<T, H> {
    pub fn new_group(name: &'static str, help: H, commands: Commands<T, H>) -> (r: Self)
        ensures
            r.name == name,
            r.help == help,
            r.body == (CommandBody::Group { commands }),
    {
        Command { name, help, body: CommandBody::Group { commands } }
    }

    pub fn new_target(name: &'static str, help: H, target: T) -> (r: Self)
        ensures
            r.name == name,
            r.help == help,
            r.body == (CommandBody::Target::<T, H> { target }),
    {
        Command { name, help, body: CommandBody::Target { target } }
    }

    /// The subcommands of a group; `None` for a target.
    pub fn subcommands(&self) -> (r: Option<&Commands<T, H>>)
        ensures
            match self.body {
                CommandBody::Group { commands } => r == Some(&commands),
                CommandBody::Target { .. } => r is None,
            },
    {
        match &self.body {
            CommandBody::Group { commands } => Some(commands),
            CommandBody::Target { .. } => None,
        }
    }
}

/// The names of a list of commands, in order.
pub open spec fn names_of<T, H>(cmds: Seq<Command<T, H>>) -> Seq<Seq<char>> {
    cmds.map_values(|c: Command<T, H>| c.name@)
}

/// The index of the first command at or after `i` whose name matches `name`.
pub open spec fn first_match_from<T, H>(name: Seq<char>, cmds: Seq<Command<T, H>>, i: int) -> Option<int>
    decreases cmds.len() - i,
{
    if 0 <= i < cmds.len() {
        if eq_ignore_case(cmds[i].name@, name) {
            Some(i)
        } else {
            first_match_from(name, cmds, i + 1)
        }
    } else {
        None
    }
}

pub open spec fn first_match<T, H>(name: Seq<char>, cmds: Seq<Command<T, H>>) -> Option<int> {
    first_match_from(name, cmds, 0)
}

proof fn lemma_first_match_from<T, H>(name: Seq<char>, cmds: Seq<Command<T, H>>, i: int)
    requires 0 <= i,
    ensures
        match first_match_from(name, cmds, i) {
            Some(k) => i <= k < cmds.len() && eq_ignore_case(cmds[k].name@, name)
                && forall|j: int| i <= j < k ==> !eq_ignore_case(#[trigger] cmds[j].name@, name),
            None => forall|j: int| i <= j < cmds.len() ==> !eq_ignore_case(#[trigger] cmds[j].name@, name),
        },
    decreases cmds.len() - i,
{
    if i < cmds.len() {
        lemma_first_match_from(name, cmds, i + 1);
    }
}

/// The first match is the earliest command whose name matches.
pub proof fn lemma_first_match<T, H>(name: Seq<char>, cmds: Seq<Command<T, H>>)
    ensures
        match first_match(name, cmds) {
            Some(k) => 0 <= k < cmds.len() && eq_ignore_case(cmds[k].name@, name)
                && forall|j: int| 0 <= j < k ==> !eq_ignore_case(#[trigger] cmds[j].name@, name),
            None => forall|j: int| 0 <= j < cmds.len() ==> !eq_ignore_case(#[trigger] cmds[j].name@, name),
        },
{
    lemma_first_match_from(name, cmds, 0);
}

/// Finds the first command in `commands` named `name`, ignoring ASCII case.
pub fn find_command_in_list<'a, T, H>(name: &str, commands: &'a Commands<T, H>) -> (r: Option<&'a Command<T, H>>)
    ensures
        match first_match(name@, commands@) {
            Some(k) => r == Some(&commands@[k]),
            None => r is None,
        },
{
    let mut i: usize = 0;
    while i < commands.len()
        invariant
            i <= commands@.len(),
            first_match(name@, commands@) == first_match_from(name@, commands@, i as int),
        decreases commands.len() - i,
    {
        if eq_ignore_ascii_case(commands[i].name, name) {
            return Some(&commands[i]);
        }
        i = i + 1;
    }
    None
}

/// The names of `commands`, in order.
pub fn command_names<T, H>(commands: &Commands<T, H>) -> (r: Vec<&'static str>)
    ensures r@.map_values(|s: &'static str| s@) == names_of(commands@),
{
    let mut out: Vec<&'static str> = Vec::new();
    let mut i: usize = 0;
    while i < commands.len()
        invariant
            i <= commands@.len(),
            out@.len() == i,
            forall|k: int| 0 <= k < i ==> (#[trigger] out@[k])@ == commands@[k].name@,
        decreases commands.len() - i,
    {
        out.push(commands[i].name);
        i = i + 1;
    }
    assert(out@.map_values(|s: &'static str| s@) =~= names_of(commands@));
    out
}

/// How a sequence of words resolves against a command list when looking for a target.
pub enum TargetLookup<T, H> {
    /// The words lead to this target command, using this many words.
    Target { command: Command<T, H>, used: nat },
    /// The words ran out where one of these commands was expected.
    Missing { group: Seq<Command<T, H>> },
    /// This word names no command of the list it was looked up in.
    NotFound { name: Seq<char> },
}

/// Follows the words down the tree until a target is reached.
pub open spec fn lookup_target<T, H>(args: Seq<Seq<char>>, cmds: Seq<Command<T, H>>) -> TargetLookup<T, H>
    decreases args.len(),
{
    if args.len() == 0 {
        TargetLookup::Missing { group: cmds }
    } else {
        match first_match(args[0], cmds) {
            None => TargetLookup::NotFound { name: args[0] },
            Some(k) => match cmds[k].body {
                CommandBody::Target { .. } => TargetLookup::Target { command: cmds[k], used: 1 },
                CommandBody::Group { commands } => match lookup_target(args.drop_first(), commands@) {
                    TargetLookup::Target { command, used } => TargetLookup::Target { command, used: used + 1 },
                    other => other,
                },
            },
        }
    }
}

/// The error that a failed lookup is reported as.
pub open spec fn lookup_error_matches<T, H>(l: TargetLookup<T, H>, e: CommandError) -> bool {
    match l {
        TargetLookup::Missing { group } => e matches CommandError::InsufficientArgsCommand(names)
            && names@.map_values(|s: &'static str| s@) == names_of(group),
        TargetLookup::NotFound { name } => e matches CommandError::CommandNotFound(s) && s@ == name,
        TargetLookup::Target { .. } => false,
    }
}

/// Resolves `args[start..]` to a target, returning it, its help and the number of words used.
fn find_target_args<'a, T, H>(args: &Vec<String>, start: usize, commands: &'a Commands<T, H>)
    -> (r: Result<(&'a T, &'a H, usize), CommandError>)
    requires start <= args@.len(),
    ensures
        match r {
            Ok((t, h, used)) => match lookup_target(strings_view(args@).skip(start as int), commands@) {
                TargetLookup::Target { command, used: u } => command.body == (CommandBody::Target::<T, H> { target: *t })
                    && command.help == *h && used == u && 1 <= used <= args@.len() - start,
                _ => false,
            },
            Err(e) => lookup_error_matches(lookup_target(strings_view(args@).skip(start as int), commands@), e),
        },
    decreases args@.len() - start,
{
    let ghost words = strings_view(args@).skip(start as int);
    if start >= args.len() {
        assert(words.len() == 0);
        return Err(CommandError::InsufficientArgsCommand(command_names(commands)));
    }
    assert(words[0] == args@[start as int]@);
    let first_arg = &args[start];
    match find_command_in_list(first_arg.as_str(), commands) {
        None => Err(CommandError::CommandNotFound(copy_string(first_arg))),
        Some(command) => {
            match &command.body {
                CommandBody::Group { commands: sub } => {
                    assert(words.drop_first() =~= strings_view(args@).skip(start + 1));
                    match find_target_args(args, start + 1, sub) {
                        Ok((t, h, used)) => Ok((t, h, used + 1)),
                        Err(e) => Err(e),
                    }
                },
                CommandBody::Target { target } => Ok((target, &command.help, 1)),
            }
        },
    }
}


/// The error a splitting failure is reported as.
pub open spec fn split_error_matches(se: SplitError, e: CommandError) -> bool {
    match se {
        SplitError::IllegalCharacter(c) => e == CommandError::IllegalCharacter(c),
        SplitError::IllegalEscapeCodeSequence(c) => e == CommandError::IllegalEscapeCodeSequence(c),
        SplitError::UnexpectedQuote => e == CommandError::UnexpectedQuote,
        SplitError::UnexpectedEndOfLineInEscapeSequence => e == CommandError::UnexpectedEndOfLineInEscapeSequence,
        SplitError::UnexpectedEndOfLineInQuote => e == CommandError::UnexpectedEndOfLineInQuote,
    }
}

/// Splits a command line into words (see `split_spec`).
pub fn split_args(input: &str) -> (r: Result<Vec<String>, CommandError>)
    ensures
        match split_spec(input@) {
            Ok(words) => r matches Ok(args) && strings_view(args@) == words,
            Err(se) => r matches Err(e) && split_error_matches(se, e),
        },
{
    match split_command_line(input) {
        Ok(args) => Ok(args),
        Err(se) => Err(match se {
            SplitError::IllegalCharacter(c) => CommandError::IllegalCharacter(c),
            SplitError::IllegalEscapeCodeSequence(c) => CommandError::IllegalEscapeCodeSequence(c),
            SplitError::UnexpectedQuote => CommandError::UnexpectedQuote,
            SplitError::UnexpectedEndOfLineInEscapeSequence => CommandError::UnexpectedEndOfLineInEscapeSequence,
            SplitError::UnexpectedEndOfLineInQuote => CommandError::UnexpectedEndOfLineInQuote,
        }),
    }
}

/// Copies `args[from..]`.
fn copy_tail(args: &Vec<String>, from: usize) -> (r: Vec<String>)
    requires from <= args@.len(),
    ensures strings_view(r@) == strings_view(args@).skip(from as int),
{
    let mut out: Vec<String> = Vec::new();
    let mut i = from;
    while i < args.len()
        invariant
            from <= i <= args@.len(),
            out@.len() == i - from,
            forall|k: int| 0 <= k < out@.len() ==> (#[trigger] out@[k])@ == args@[from + k]@,
        decreases args.len() - i,
    {
        out.push(copy_string(&args[i]));
        i = i + 1;
    }
    assert(strings_view(out@) =~= strings_view(args@).skip(from as int));
    out
}

/// Splits `input` and follows its words down `commands` to a target; the
/// words after the target are handed back.
pub fn apply<'a, T, H>(input: &str, commands: &'a Commands<T, H>) -> (r: Result<CommandOutput<'a, T, H>, CommandError>)
    ensures
        match split_spec(input@) {
            Err(se) => r matches Err(e) && split_error_matches(se, e),
            Ok(words) => match lookup_target(words, commands@) {
                TargetLookup::Target { command, used } => r matches Ok(out)
                    && command.body == (CommandBody::Target::<T, H> { target: *out.target })
                    && command.help == *out.help
                    && strings_view(out.remaining_args@) == words.skip(used as int),
                other => r matches Err(e) && lookup_error_matches(other, e),
            },
        },
{
    let args = split_args(input)?;
    assert(strings_view(args@).skip(0) =~= strings_view(args@));
    let (target, help, used) = find_target_args(&args, 0, commands)?;
    let remaining_args = copy_tail(&args, used);
    Ok(CommandOutput { target, help, remaining_args })
}

/// Where a search for a command by its path ends.
pub enum FindSpec<T, H> {
    Found(Command<T, H>),
    /// There was no word at all; one of these top-level commands was expected.
    Missing(Seq<Command<T, H>>),
    /// This word names no subcommand where it stands.
    NotFound(Seq<char>),
}

/// Follows the remaining words from `cmd` through its subcommands.
pub open spec fn descend<T, H>(cmd: Command<T, H>, args: Seq<Seq<char>>) -> FindSpec<T, H>
    decreases args.len(),
{
    if args.len() == 0 {
        FindSpec::Found(cmd)
    } else {
        match cmd.body {
            CommandBody::Group { commands } => match first_match(args[0], commands@) {
                Some(k) => descend(commands@[k], args.drop_first()),
                None => FindSpec::NotFound(args[0]),
            },
            CommandBody::Target { .. } => FindSpec::NotFound(args[0]),
        }
    }
}

pub open spec fn find_path<T, H>(args: Seq<Seq<char>>, cmds: Seq<Command<T, H>>) -> FindSpec<T, H> {
    if args.len() == 0 {
        FindSpec::Missing(cmds)
    } else {
        match first_match(args[0], cmds) {
            Some(k) => descend(cmds[k], args.drop_first()),
            None => FindSpec::NotFound(args[0]),
        }
    }
}

/// Finds the command (group or target) whose path is exactly `args`.
pub fn find_command<'a, T, H>(args: &[String], commands: &'a Commands<T, H>) -> (r: Result<&'a Command<T, H>, CommandError>)
    ensures
        match find_path(strings_view(args@), commands@) {
            FindSpec::Found(c) => r == Ok::<&Command<T, H>, CommandError>(&c),
            FindSpec::Missing(group) => r matches Err(CommandError::InsufficientArgsCommand(names))
                && names@.map_values(|s: &'static str| s@) == names_of(group),
            FindSpec::NotFound(name) => r matches Err(CommandError::CommandNotFound(s)) && s@ == name,
        },
{
    let ghost words = strings_view(args@);
    if args.len() == 0 {
        return Err(CommandError::InsufficientArgsCommand(command_names(commands)));
    }
    assert(words[0] == args@[0]@);
    let mut command = match find_command_in_list(args[0].as_str(), commands) {
        Some(c) => c,
        None => return Err(CommandError::CommandNotFound(copy_string(&args[0]))),
    };
    let mut i: usize = 1;
    while i < args.len()
        invariant
            1 <= i <= args@.len(),
            words == strings_view(args@),
            find_path(words, commands@) == descend(*command, words.skip(i as int)),
        decreases args.len() - i,
    {
        let ghost rest = words.skip(i as int);
        assert(rest[0] == args@[i as int]@);
        assert(rest.drop_first() =~= words.skip(i + 1));
        match &command.body {
            CommandBody::Group { commands: sub } => {
                match find_command_in_list(args[i].as_str(), sub) {
                    Some(c) => command = c,
                    None => return Err(CommandError::CommandNotFound(copy_string(&args[i]))),
                }
            },
            CommandBody::Target { .. } => {
                return Err(CommandError::CommandNotFound(copy_string(&args[i])));
            },
        }
        i = i + 1;
    }
    assert(words.skip(i as int).len() == 0);
    Ok(command)
}


/// A position in a command tree: a single command, or a list of commands.
pub enum CommandNode<'a, T, H> {
    Command(&'a Command<T, H>),
    Commands(&'a Commands<T, H>),
}

/// The outcome of walking a command tree along some words.
pub enum TraverseResult<'a, 'b, T, H> {
    /// Every word was consumed; this is where the walk ended.
    Found { node: CommandNode<'a, T, H> },
    /// The word `arg` could not be followed; `args` are the words after it.
    NotFound {
        commands: Option<&'a Commands<T, H>>,
        command: Option<&'a Command<T, H>>,
        arg: &'b String,
        args: &'b [String],
    },
}

/// A tree position by value.
pub enum NodeSpec<T, H> {
    Cmd(Command<T, H>),
    Cmds(Seq<Command<T, H>>),
}

pub open spec fn node_spec<'a, T, H>(n: CommandNode<'a, T, H>) -> NodeSpec<T, H> {
    match n {
        CommandNode::Command(c) => NodeSpec::Cmd(*c),
        CommandNode::Commands(cs) => NodeSpec::Cmds(cs@),
    }
}

/// Where a walk ends, by value: the node reached, or the list and command
/// in force when the word at `index` could not be followed.
pub enum WalkSpec<T, H> {
    Found(NodeSpec<T, H>),
    NotFound { commands: Option<Seq<Command<T, H>>>, command: Option<Command<T, H>>, index: int },
}

/// The subcommand list and the command in force at a node.
pub open spec fn node_parts<T, H>(n: NodeSpec<T, H>) -> (Option<Seq<Command<T, H>>>, Option<Command<T, H>>) {
    match n {
        NodeSpec::Cmds(cs) => (Some(cs), None),
        NodeSpec::Cmd(c) => match c.body {
            CommandBody::Target { .. } => (None, Some(c)),
            CommandBody::Group { commands } => (Some(commands@), Some(c)),
        },
    }
}

pub open spec fn walk_from<T, H>(node: NodeSpec<T, H>, args: Seq<Seq<char>>, i: int) -> WalkSpec<T, H>
    decreases args.len() - i,
{
    if 0 <= i < args.len() {
        let (commands, command) = node_parts(node);
        match commands {
            None => WalkSpec::NotFound { commands, command, index: i },
            Some(cs) => match first_match(args[i], cs) {
                Some(k) => walk_from(NodeSpec::Cmd(cs[k]), args, i + 1),
                None => WalkSpec::NotFound { commands, command, index: i },
            },
        }
    } else {
        WalkSpec::Found(node)
    }
}

pub open spec fn opt_cmds_view<'a, T, H>(o: Option<&'a Commands<T, H>>) -> Option<Seq<Command<T, H>>> {
    match o {
        Some(cs) => Some(cs@),
        None => None,
    }
}

pub open spec fn opt_cmd_view<'a, T, H>(o: Option<&'a Command<T, H>>) -> Option<Command<T, H>> {
    match o {
        Some(c) => Some(*c),
        None => None,
    }
}

impl<'a, T, H> CommandNode<'a, T, H> {
    /// Walks down from this node, one word at a time.
    pub fn traverse<'b>(self, args: &'b [String]) -> (r: TraverseResult<'a, 'b, T, H>)
        ensures
            match (r, walk_from(node_spec(self), strings_view(args@), 0)) {
                (TraverseResult::Found { node }, WalkSpec::Found(n)) => node_spec(node) == n,
                (TraverseResult::NotFound { commands, command, arg, args: rest },
                    WalkSpec::NotFound { commands: cs, command: c, index }) =>
                    opt_cmds_view(commands) == cs && opt_cmd_view(command) == c
                        && 0 <= index < args@.len() && arg@ == args@[index]@
                        && rest@ == args@.skip(index + 1),
                _ => false,
            },
    {
        let ghost words = strings_view(args@);
        let mut node = self;
        let mut i: usize = 0;
        while i < args.len()
            invariant
                i <= args@.len(),
                words == strings_view(args@),
                walk_from(node_spec(self), words, 0) == walk_from(node_spec(node), words, i as int),
            decreases args.len() - i,
        {
            let arg = &args[i];
            let (_, rest) = args.split_at(i + 1);
            assert(words[i as int] == arg@);
            let (commands, command): (Option<&'a Commands<T, H>>, Option<&'a Command<T, H>>) = match node {
                CommandNode::Commands(cs) => (Some(cs), None),
                CommandNode::Command(c) => match &c.body {
                    CommandBody::Target { .. } => (None, Some(c)),
                    CommandBody::Group { commands } => (Some(commands), Some(c)),
                },
            };
            match commands {
                None => {
                    return TraverseResult::NotFound { commands, command, arg, args: rest };
                },
                Some(cs) => match find_command_in_list(arg.as_str(), cs) {
                    Some(c) => {
                        node = CommandNode::Command(c);
                    },
                    None => {
                        return TraverseResult::NotFound { commands, command, arg, args: rest };
                    },
                },
            }
            i = i + 1;
        }
        TraverseResult::Found { node }
    }
}

impl<'a, 'b, T, H> TraverseResult<'a, 'b, T, H> {
    /// The command the walk ended at or failed under, if there is one.
    pub fn command(self) -> (r: Option<&'a Command<T, H>>)
        ensures
            match self {
                TraverseResult::Found { node: CommandNode::Command(c) } => r == Some(c),
                TraverseResult::Found { node: CommandNode::Commands(..) } => r is None,
                TraverseResult::NotFound { command, .. } => r == command,
            },
    {
        match self {
            TraverseResult::Found { node: CommandNode::Command(command) } => Some(command),
            TraverseResult::Found { node: CommandNode::Commands(..) } => None,
            TraverseResult::NotFound { command, .. } => command,
        }
    }
}


/// An argument that is parsed from its text.
#[derive(Debug, Clone, Copy, PartialEq, Eq, PartialOrd, Ord, Hash)]
pub struct Parsed<T>(pub T);

impl<T> Parsed<T> {
    pub fn into_inner(self) -> (r: T)
        ensures r == self.0,
    {
        let Parsed(inner) = self;
        inner
    }
}

pub open spec fn opt_str_view(o: Option<&str>) -> Option<Seq<char>> {
    match o {
        Some(s) => Some(s@),
        None => None,
    }
}

/// The word at position `i`, if there is one.
pub open spec fn arg_at(args: Seq<Seq<char>>, i: int) -> Option<Seq<char>> {
    if 0 <= i < args.len() { Some(args[i]) } else { None }
}

/// A type whose value can be read from one command-line word (or its absence).
pub trait ResolveArg: Sized {
    type Resolved;

    /// Whether `r` is what resolving the word `arg` gives.
    spec fn resolves(arg: Option<Seq<char>>, r: Result<Self::Resolved, CommandError>) -> bool;

    fn resolve_arg(arg: Option<&str>) -> (r: Result<Self::Resolved, CommandError>)
        ensures Self::resolves(opt_str_view(arg), r);
}

impl ResolveArg for String {
    type Resolved = String;

    open spec fn resolves(arg: Option<Seq<char>>, r: Result<String, CommandError>) -> bool {
        match arg {
            Some(s) => r matches Ok(v) && v@ == s,
            None => r matches Err(CommandError::InsufficientArgs(n)) && n@ == "alloc::string::String"@,
        }
    }

    fn resolve_arg(arg: Option<&str>) -> (r: Result<String, CommandError>) {
        match arg {
            Some(s) => Ok(s.to_owned()),
            None => Err(CommandError::InsufficientArgs("alloc::string::String")),
        }
    }
}

impl<T: ResolveArg> ResolveArg for Option<T> {
    type Resolved = Option<T::Resolved>;

    open spec fn resolves(arg: Option<Seq<char>>, r: Result<Option<T::Resolved>, CommandError>) -> bool {
        match arg {
            None => r matches Ok(None),
            Some(s) => match r {
                Ok(Some(v)) => T::resolves(Some(s), Ok(v)),
                Ok(None) => false,
                Err(e) => T::resolves(Some(s), Err(e)),
            },
        }
    }

    fn resolve_arg(arg: Option<&str>) -> (r: Result<Option<T::Resolved>, CommandError>) {
        match arg {
            None => Ok(None),
            Some(a) => match T::resolve_arg(Some(a)) {
                Ok(v) => Ok(Some(v)),
                Err(e) => Err(e),
            },
        }
    }
}

/// Whether every character of `s` from `start` on is an ASCII digit.
pub open spec fn digits_from(s: Seq<char>, start: int) -> bool {
    forall|k: int| start <= k < s.len() ==> '0' <= #[trigger] s[k] <= '9'
}

/// The message `ParseIntError` gives for a word that is not a `u64`: empty,
/// a sign alone or a non-digit after the optional `+`, or else too large.
pub open spec fn u64_error_text(s: Seq<char>) -> Seq<char> {
    if s.len() == 0 {
        "cannot parse integer from empty string"@
    } else {
        let start: int = if s[0] == '+' { 1 } else { 0 };
        if start == s.len() || !digits_from(s, start) {
            "invalid digit found in string"@
        } else {
            "number too large to fit in target type"@
        }
    }
}

/// Why a word is not a `u64`, in the words of `ParseIntError`.
pub(crate) fn parse_u64_message(s: &str) -> (r: &'static str)
    ensures r@ == u64_error_text(s@),
{
    let chars = crate::text::chars_of(s);
    if chars.len() == 0 {
        "cannot parse integer from empty string"
    } else {
        let start: usize = if chars[0] == '+' { 1 } else { 0 };
        let mut i: usize = start;
        if i == chars.len() {
            return "invalid digit found in string";
        }
        while i < chars.len()
            invariant
                chars@ == s@,
                start <= i <= chars@.len(),
                start == (if s@[0] == '+' { 1int } else { 0int }),
                s@.len() > 0,
                forall|k: int| start <= k < i ==> '0' <= #[trigger] s@[k] <= '9',
            decreases chars.len() - i,
        {
            if !('0' <= chars[i] && chars[i] <= '9') {
                return "invalid digit found in string";
            }
            i = i + 1;
        }
        "number too large to fit in target type"
    }
}

impl ResolveArg for Parsed<u64> {
    type Resolved = u64;

    open spec fn resolves(arg: Option<Seq<char>>, r: Result<u64, CommandError>) -> bool {
        match arg {
            Some(s) => match parse_u64_spec(s) {
                Some(n) => r == Ok::<u64, CommandError>(n),
                None => r matches Err(CommandError::ArgsFromStrError(m)) && m@ == u64_error_text(s),
            },
            None => r matches Err(CommandError::InsufficientArgs(n)) && n@ == "u64"@,
        }
    }

    fn resolve_arg(arg: Option<&str>) -> (r: Result<u64, CommandError>) {
        match arg {
            Some(s) => match parse_u64(s) {
                Some(n) => Ok(n),
                None => Err(CommandError::ArgsFromStrError(parse_u64_message(s).to_owned())),
            },
            None => Err(CommandError::InsufficientArgs("u64")),
        }
    }
}

/// A group of arguments read from the leading words of a command line.
pub trait ResolveArgs: Sized {
    type Resolved;

    /// Whether `r` is what resolving the words `args` gives.
    spec fn resolves_all(args: Seq<Seq<char>>, r: Result<Self::Resolved, CommandError>) -> bool;

    fn resolve_args(args: &[String]) -> (r: Result<Self::Resolved, CommandError>)
        ensures Self::resolves_all(strings_view(args@), r);
}

fn word_at(args: &[String], i: usize) -> (r: Option<&str>)
    ensures opt_str_view(r) == arg_at(strings_view(args@), i as int),
{
    if i < args.len() { Some(args[i].as_str()) } else { None }
}

impl ResolveArgs for () {
    type Resolved = ();

    open spec fn resolves_all(args: Seq<Seq<char>>, r: Result<(), CommandError>) -> bool {
        r == Ok::<(), CommandError>(())
    }

    fn resolve_args(args: &[String]) -> (r: Result<(), CommandError>) {
        Ok(())
    }
}

impl<A: ResolveArg> ResolveArgs for (A,) {
    type Resolved = (A::Resolved,);

    open spec fn resolves_all(args: Seq<Seq<char>>, r: Result<(A::Resolved,), CommandError>) -> bool {
        match r {
            Ok((a,)) => A::resolves(arg_at(args, 0), Ok(a)),
            Err(e) => A::resolves(arg_at(args, 0), Err(e)),
        }
    }

    fn resolve_args(args: &[String]) -> (r: Result<(A::Resolved,), CommandError>) {
        let a = A::resolve_arg(word_at(args, 0))?;
        Ok((a,))
    }
}

impl<A: ResolveArg, B: ResolveArg> ResolveArgs for (A, B) {
    type Resolved = (A::Resolved, B::Resolved);

    open spec fn resolves_all(args: Seq<Seq<char>>, r: Result<(A::Resolved, B::Resolved), CommandError>) -> bool {
        match r {
            Ok((a, b)) => A::resolves(arg_at(args, 0), Ok(a)) && B::resolves(arg_at(args, 1), Ok(b)),
            Err(e) => A::resolves(arg_at(args, 0), Err(e)) || (
                (exists|a: A::Resolved| A::resolves(arg_at(args, 0), Ok(a)))
                && B::resolves(arg_at(args, 1), Err(e))),
        }
    }

    fn resolve_args(args: &[String]) -> (r: Result<(A::Resolved, B::Resolved), CommandError>) {
        let a = A::resolve_arg(word_at(args, 0))?;
        let b = B::resolve_arg(word_at(args, 1))?;
        Ok((a, b))
    }
}

impl<A: ResolveArg, B: ResolveArg, C: ResolveArg> ResolveArgs for (A, B, C) {
    type Resolved = (A::Resolved, B::Resolved, C::Resolved);

    open spec fn resolves_all(args: Seq<Seq<char>>, r: Result<(A::Resolved, B::Resolved, C::Resolved), CommandError>) -> bool {
        match r {
            Ok((a, b, c)) => A::resolves(arg_at(args, 0), Ok(a)) && B::resolves(arg_at(args, 1), Ok(b))
                && C::resolves(arg_at(args, 2), Ok(c)),
            Err(e) => A::resolves(arg_at(args, 0), Err(e)) || (
                (exists|a: A::Resolved| A::resolves(arg_at(args, 0), Ok(a)))
                && B::resolves(arg_at(args, 1), Err(e))) || (
                (exists|a: A::Resolved| A::resolves(arg_at(args, 0), Ok(a)))
                && (exists|b: B::Resolved| B::resolves(arg_at(args, 1), Ok(b)))
                && C::resolves(arg_at(args, 2), Err(e))),
        }
    }

    fn resolve_args(args: &[String]) -> (r: Result<(A::Resolved, B::Resolved, C::Resolved), CommandError>) {
        let a = A::resolve_arg(word_at(args, 0))?;
        let b = B::resolve_arg(word_at(args, 1))?;
        let c = C::resolve_arg(word_at(args, 2))?;
        Ok((a, b, c))
    }
}

impl<T: ResolveArg> ResolveArgs for T {
    type Resolved = T::Resolved;

    open spec fn resolves_all(args: Seq<Seq<char>>, r: Result<T::Resolved, CommandError>) -> bool {
        T::resolves(arg_at(args, 0), r)
    }

    fn resolve_args(args: &[String]) -> (r: Result<T::Resolved, CommandError>) {
        T::resolve_arg(word_at(args, 0))
    }
}

/// Reads a group of arguments from `args`.
pub fn resolve_args<R: ResolveArgs>(args: &[String]) -> (r: Result<R::Resolved, CommandError>)
    ensures R::resolves_all(strings_view(args@), r),
{
    R::resolve_args(args)
}

} // verus!
