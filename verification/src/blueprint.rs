//! Slash-command blueprints: the declared tree of commands, subcommands and
//! options, and how an incoming interaction is matched against it.
use vstd::prelude::*;
use crate::text::{str_eq, push_str, copy_string};

verus! {

broadcast use vstd::string::group_string_axioms;

/// Where a command may be used.
#[derive(Debug, Clone, Copy, PartialEq, Eq, Structural)]
pub enum BlueprintCommandContext {
    Anywhere,
    OnlyInGuild,
    OnlyInDm,
}

/// A place an interaction can come from.
#[derive(Debug, Clone, Copy, PartialEq, Eq, Structural)]
pub enum InteractionContext {
    Guild,
    BotDm,
    PrivateChannel,
}

pub open spec fn contexts_spec(c: BlueprintCommandContext) -> Seq<InteractionContext> {
    match c {
        BlueprintCommandContext::Anywhere => seq![InteractionContext::Guild, InteractionContext::BotDm, InteractionContext::PrivateChannel],
        BlueprintCommandContext::OnlyInGuild => seq![InteractionContext::Guild],
        BlueprintCommandContext::OnlyInDm => seq![InteractionContext::BotDm, InteractionContext::PrivateChannel],
    }
}

pub open spec fn context_text(c: BlueprintCommandContext) -> Seq<char> {
    match c {
        BlueprintCommandContext::Anywhere => "Anywhere"@,
        BlueprintCommandContext::OnlyInGuild => "Only in Guilds"@,
        BlueprintCommandContext::OnlyInDm => "Only in DMs"@,
    }
}

impl BlueprintCommandContext {
    /// The interaction contexts the command is registered for.
    pub fn contexts(self) -> (r: Vec<InteractionContext>)
        ensures r@ == contexts_spec(self),
    {
        match self {
            BlueprintCommandContext::Anywhere => vec![InteractionContext::Guild, InteractionContext::BotDm, InteractionContext::PrivateChannel],
            BlueprintCommandContext::OnlyInGuild => vec![InteractionContext::Guild],
            BlueprintCommandContext::OnlyInDm => vec![InteractionContext::BotDm, InteractionContext::PrivateChannel],
        }
    }

    /// How the context is shown to users.
    pub fn to_text(self) -> (r: &'static str)
        ensures r@ == context_text(self),
    {
        match self {
            BlueprintCommandContext::Anywhere => "Anywhere",
            BlueprintCommandContext::OnlyInGuild => "Only in Guilds",
            BlueprintCommandContext::OnlyInDm => "Only in DMs",
        }
    }
}

impl Default for BlueprintCommandContext {
    fn default() -> (r: Self)
        ensures r == BlueprintCommandContext::Anywhere,
    {
        BlueprintCommandContext::Anywhere
    }
}

/// The kind of value an option takes, with its limits and fixed choices.
/// Number bounds and choices are held as the bits of their `f64`; channel
/// types as Discord numbers them.
#[derive(Debug, Clone)]
pub enum BlueprintOptionVariant {
    String { min_length: Option<u16>, max_length: Option<u16>, choices: Vec<(&'static str, &'static str)> },
    Integer { min_value: Option<i64>, max_value: Option<i64>, choices: Vec<(&'static str, i64)> },
    Number { min_value: Option<u64>, max_value: Option<u64>, choices: Vec<(&'static str, u64)> },
    Boolean,
    User,
    Role,
    Mentionable,
    Channel { channel_types: Vec<u8> },
    Attachment,
}

/// One declared option of a command.
#[derive(Debug, Clone)]
pub struct BlueprintOption {
    pub name: &'static str,
    pub description: &'static str,
    pub required: bool,
    pub variant: BlueprintOptionVariant,
}

/// A value given for an option. A number is held as the bits of its `f64`;
/// users, roles, channels and attachments by their IDs.
#[derive(Debug, Clone, PartialEq, Eq)]
pub enum BlueprintOptionValue {
    String(String),
    Integer(i64),
    Number(u64),
    Boolean(bool),
    User(u64),
    Role(u64),
    Channel(u64),
    Attachment(u64),
}

/// An option value by value.
pub enum ValueView {
    String(Seq<char>),
    Integer(i64),
    Number(u64),
    Boolean(bool),
    User(u64),
    Role(u64),
    Channel(u64),
    Attachment(u64),
}

pub open spec fn value_view(v: BlueprintOptionValue) -> ValueView {
    match v {
        BlueprintOptionValue::String(s) => ValueView::String(s@),
        BlueprintOptionValue::Integer(i) => ValueView::Integer(i),
        BlueprintOptionValue::Number(n) => ValueView::Number(n),
        BlueprintOptionValue::Boolean(b) => ValueView::Boolean(b),
        BlueprintOptionValue::User(u) => ValueView::User(u),
        BlueprintOptionValue::Role(r) => ValueView::Role(r),
        BlueprintOptionValue::Channel(c) => ValueView::Channel(c),
        BlueprintOptionValue::Attachment(a) => ValueView::Attachment(a),
    }
}

pub open spec fn values_view(v: Seq<BlueprintOptionValue>) -> Seq<ValueView> {
    v.map_values(|x: BlueprintOptionValue| value_view(x))
}

/// Whether a value fits an option of the given kind; a mentionable option takes a user or a role.
pub open spec fn same_type(variant: BlueprintOptionVariant, value: ValueView) -> bool {
    match (variant, value) {
        (BlueprintOptionVariant::String { .. }, ValueView::String(..)) => true,
        (BlueprintOptionVariant::Integer { .. }, ValueView::Integer(..)) => true,
        (BlueprintOptionVariant::Number { .. }, ValueView::Number(..)) => true,
        (BlueprintOptionVariant::Boolean, ValueView::Boolean(..)) => true,
        (BlueprintOptionVariant::User, ValueView::User(..)) => true,
        (BlueprintOptionVariant::Role, ValueView::Role(..)) => true,
        (BlueprintOptionVariant::Mentionable, ValueView::User(..)) => true,
        (BlueprintOptionVariant::Mentionable, ValueView::Role(..)) => true,
        (BlueprintOptionVariant::Channel { .. }, ValueView::Channel(..)) => true,
        (BlueprintOptionVariant::Attachment, ValueView::Attachment(..)) => true,
        _ => false,
    }
}

impl BlueprintOptionVariant {
    pub fn is_same_type(&self, value: &BlueprintOptionValue) -> (r: bool)
        ensures r == same_type(*self, value_view(*value)),
    {
        match (self, value) {
            (BlueprintOptionVariant::String { .. }, BlueprintOptionValue::String(..)) => true,
            (BlueprintOptionVariant::Integer { .. }, BlueprintOptionValue::Integer(..)) => true,
            (BlueprintOptionVariant::Number { .. }, BlueprintOptionValue::Number(..)) => true,
            (BlueprintOptionVariant::Boolean, BlueprintOptionValue::Boolean(..)) => true,
            (BlueprintOptionVariant::User, BlueprintOptionValue::User(..)) => true,
            (BlueprintOptionVariant::Role, BlueprintOptionValue::Role(..)) => true,
            (BlueprintOptionVariant::Mentionable, BlueprintOptionValue::User(..)) => true,
            (BlueprintOptionVariant::Mentionable, BlueprintOptionValue::Role(..)) => true,
            (BlueprintOptionVariant::Channel { .. }, BlueprintOptionValue::Channel(..)) => true,
            (BlueprintOptionVariant::Attachment, BlueprintOptionValue::Attachment(..)) => true,
            _ => false,
        }
    }
}

/// The body of a command or subcommand: a function with its options, or a
/// container of further subcommands.
#[derive(Debug)]
pub enum BlueprintRoot<F> {
    Command { function: F, options: Vec<BlueprintOption> },
    CommandContainer { subcommands: Vec<BlueprintSubcommand<F>> },
}

#[derive(Debug)]
pub struct BlueprintSubcommand<F> {
    pub name: &'static str,
    pub description: &'static str,
    pub root: BlueprintRoot<F>,
}

#[derive(Debug)]
pub struct BlueprintCommand<F> {
    pub name: &'static str,
    pub description: &'static str,
    pub info: Option<Vec<&'static str>>,
    pub usage: Option<Vec<&'static str>>,
    pub examples: Option<Vec<&'static str>>,
    /// The plugin that enables the command; `None` for a command every guild has.
    pub plugin: Option<&'static str>,
    pub context: BlueprintCommandContext,
    /// The permission bits a member needs by default.
    pub default_permissions: Option<u64>,
    pub root: BlueprintRoot<F>,
}

/// The index of the first subcommand named exactly `name`.
pub open spec fn first_subcommand<F>(subs: Seq<BlueprintSubcommand<F>>, name: Seq<char>) -> Option<int>
    decreases subs.len(),
{
    if subs.len() == 0 {
        None
    } else if subs[0].name@ == name {
        Some(0)
    } else {
        match first_subcommand(subs.drop_first(), name) {
            Some(k) => Some(k + 1),
            None => None,
        }
    }
}

/// The index of the first command named exactly `name`.
pub open spec fn first_command<F>(cmds: Seq<BlueprintCommand<F>>, name: Seq<char>) -> Option<int>
    decreases cmds.len(),
{
    if cmds.len() == 0 {
        None
    } else if cmds[0].name@ == name {
        Some(0)
    } else {
        match first_command(cmds.drop_first(), name) {
            Some(k) => Some(k + 1),
            None => None,
        }
    }
}

proof fn lemma_first_subcommand<F>(subs: Seq<BlueprintSubcommand<F>>, name: Seq<char>)
    ensures
        match first_subcommand(subs, name) {
            Some(k) => 0 <= k < subs.len() && subs[k].name@ == name
                && forall|j: int| 0 <= j < k ==> (#[trigger] subs[j]).name@ != name,
            None => forall|j: int| 0 <= j < subs.len() ==> (#[trigger] subs[j]).name@ != name,
        },
    decreases subs.len(),
{
    if subs.len() > 0 {
        lemma_first_subcommand(subs.drop_first(), name);
        assert forall|j: int| 1 <= j < subs.len() implies #[trigger] subs[j] == subs.drop_first()[j - 1] by {}
    }
}

proof fn lemma_first_command<F>(cmds: Seq<BlueprintCommand<F>>, name: Seq<char>)
    ensures
        match first_command(cmds, name) {
            Some(k) => 0 <= k < cmds.len() && cmds[k].name@ == name
                && forall|j: int| 0 <= j < k ==> (#[trigger] cmds[j]).name@ != name,
            None => forall|j: int| 0 <= j < cmds.len() ==> (#[trigger] cmds[j]).name@ != name,
        },
    decreases cmds.len(),
{
    if cmds.len() > 0 {
        lemma_first_command(cmds.drop_first(), name);
        assert forall|j: int| 1 <= j < cmds.len() implies #[trigger] cmds[j] == cmds.drop_first()[j - 1] by {}
    }
}

/// The first command named exactly `name`.
pub fn find_command<'a, F>(commands: &'a Vec<BlueprintCommand<F>>, name: &str) -> (r: Option<&'a BlueprintCommand<F>>)
    ensures
        match first_command(commands@, name@) {
            Some(k) => r == Some(&commands@[k]),
            None => r is None,
        },
{
    let mut i: usize = 0;
    while i < commands.len()
        invariant
            i <= commands@.len(),
            forall|j: int| 0 <= j < i ==> (#[trigger] commands@[j]).name@ != name@,
        decreases commands.len() - i,
    {
        if str_eq(commands[i].name, name) {
            proof { lemma_first_command(commands@, name@); }
            return Some(&commands[i]);
        }
        i = i + 1;
    }
    proof { lemma_first_command(commands@, name@); }
    None
}

/// The first subcommand named exactly `name`.
pub fn find_subcommand<'a, F>(subcommands: &'a Vec<BlueprintSubcommand<F>>, name: &str) -> (r: Option<&'a BlueprintSubcommand<F>>)
    ensures
        match first_subcommand(subcommands@, name@) {
            Some(k) => r == Some(&subcommands@[k]),
            None => r is None,
        },
{
    let mut i: usize = 0;
    while i < subcommands.len()
        invariant
            i <= subcommands@.len(),
            forall|j: int| 0 <= j < i ==> (#[trigger] subcommands@[j]).name@ != name@,
        decreases subcommands.len() - i,
    {
        if str_eq(subcommands[i].name, name) {
            proof { lemma_first_subcommand(subcommands@, name@); }
            return Some(&subcommands[i]);
        }
        i = i + 1;
    }
    proof { lemma_first_subcommand(subcommands@, name@); }
    None
}

/// Follows the subcommand names down a root: the options and function of the
/// command reached, which must take no further name.
pub open spec fn root_get<F>(root: BlueprintRoot<F>, names: Seq<Seq<char>>) -> Option<(Seq<BlueprintOption>, F)>
    decreases names.len(),
{
    match root {
        BlueprintRoot::Command { function, options } => if names.len() == 0 { Some((options@, function)) } else { None },
        BlueprintRoot::CommandContainer { subcommands } => {
            if names.len() == 0 {
                None
            } else {
                match first_subcommand(subcommands@, names[0]) {
                    Some(k) => root_get(subcommands@[k].root, names.drop_first()),
                    None => None,
                }
            }
        },
    }
}

pub open spec fn strings_view(v: Seq<String>) -> Seq<Seq<char>> {
    v.map_values(|s: String| s@)
}

impl<F: Copy> BlueprintRoot<F> {
    /// The options and function reached by following `names` from this root.
    pub fn get<'a>(&'a self, names: &[String]) -> (r: Option<(&'a Vec<BlueprintOption>, F)>)
        ensures
            match root_get(*self, strings_view(names@)) {
                Some((opts, f)) => r matches Some(x) && x.0@ == opts && x.1 == f,
                None => r is None,
            },
        decreases names@.len(),
    {
        match self {
            BlueprintRoot::Command { function, options } => {
                if names.len() == 0 { Some((options, *function)) } else { None }
            },
            BlueprintRoot::CommandContainer { subcommands } => {
                if names.len() == 0 {
                    return None;
                }
                let ghost v = strings_view(names@);
                assert(v[0] == names@[0]@);
                let rest = slice_tail(names);
                assert(strings_view(rest@) =~= v.drop_first());
                match find_subcommand(subcommands, names[0].as_str()) {
                    Some(sub) => sub.root.get(rest),
                    None => None,
                }
            },
        }
    }
}

/// Every element of a slice but the first.
fn slice_tail(s: &[String]) -> (r: &[String])
    requires s@.len() > 0,
    ensures r@ == s@.drop_first(),
{
    let (_, tail) = s.split_at(1);
    assert(tail@ =~= s@.drop_first());
    tail
}

impl<F> BlueprintCommand<F> {
    /// A command belongs to a plugin when it names one.
    pub fn is_exclusive(&self) -> (r: bool)
        ensures r == self.plugin is Some,
    {
        self.plugin.is_some()
    }

    /// Whether the command is available given the enabled plugins: always, for
    /// a command of no plugin; otherwise when its plugin is among them.
    pub fn is_enabled(&self, plugins: &Vec<String>) -> (r: bool)
        ensures
            r == match self.plugin {
                Some(p) => strings_view(plugins@).contains(p@),
                None => true,
            },
    {
        match self.plugin {
            None => true,
            Some(p) => {
                let mut i: usize = 0;
                while i < plugins.len()
                    invariant
                        self.plugin == Some(p),
                        i <= plugins@.len(),
                        forall|j: int| 0 <= j < i ==> (#[trigger] plugins@[j])@ != p@,
                    decreases plugins.len() - i,
                {
                    if str_eq(plugins[i].as_str(), p) {
                        assert(strings_view(plugins@).len() == plugins@.len());
                        assert(strings_view(plugins@)[i as int] == p@);
                        assert(strings_view(plugins@).contains(p@));
                        return true;
                    }
                    i = i + 1;
                }
                proof {
                    if strings_view(plugins@).contains(p@) {
                        let k = choose|k: int| 0 <= k < strings_view(plugins@).len() && strings_view(plugins@)[k] == p@;
                        assert(plugins@[k]@ == p@);
                    }
                }
                false
            },
        }
    }
}

/// The commands whose plugin presence is `exclusive`, in order.
pub open spec fn commands_with<F>(cmds: Seq<BlueprintCommand<F>>, exclusive: bool) -> Seq<BlueprintCommand<F>>
    decreases cmds.len(),
{
    if cmds.len() == 0 {
        seq![]
    } else {
        let rest = commands_with(cmds.drop_last(), exclusive);
        if (cmds.last().plugin is Some) == exclusive { rest.push(cmds.last()) } else { rest }
    }
}

fn select_commands<'a, F>(commands: &'a Vec<BlueprintCommand<F>>, exclusive: bool) -> (r: Vec<&'a BlueprintCommand<F>>)
    ensures r@.map_values(|c: &BlueprintCommand<F>| *c) == commands_with(commands@, exclusive),
{
    let mut out: Vec<&'a BlueprintCommand<F>> = Vec::new();
    let mut i: usize = 0;
    while i < commands.len()
        invariant
            i <= commands@.len(),
            out@.map_values(|c: &BlueprintCommand<F>| *c) == commands_with(commands@.take(i as int), exclusive),
        decreases commands.len() - i,
    {
        let ghost before = out@;
        assert(commands@.take(i + 1).drop_last() =~= commands@.take(i as int));
        assert(commands@.take(i + 1).last() == commands@[i as int]);
        if commands[i].plugin.is_some() == exclusive {
            out.push(&commands[i]);
            assert(out@.map_values(|c: &BlueprintCommand<F>| *c) =~= before.map_values(|c: &BlueprintCommand<F>| *c).push(commands@[i as int]));
        }
        i = i + 1;
    }
    assert(commands@.take(commands@.len() as int) =~= commands@);
    out
}

/// Every command is listed either among the commands every guild has or
/// among those of a plugin, never both: the two lists split the commands by
/// whether they name a plugin.
pub proof fn law_commands_split_by_plugin<F>(cmds: Seq<BlueprintCommand<F>>)
    ensures
        commands_with(cmds, false).len() + commands_with(cmds, true).len() == cmds.len(),
        forall|c: BlueprintCommand<F>, e: bool| #[trigger] commands_with(cmds, e).contains(c)
            <==> (cmds.contains(c) && (c.plugin is Some) == e),
    decreases cmds.len(),
{
    if cmds.len() > 0 {
        let d = cmds.drop_last();
        let l = cmds.last();
        law_commands_split_by_plugin(d);
        lemma_push_contains(d, l);
        assert(cmds =~= d.push(l));
        assert forall|c: BlueprintCommand<F>, e: bool| #[trigger] commands_with(cmds, e).contains(c)
            <==> (cmds.contains(c) && (c.plugin is Some) == e) by {
            lemma_push_contains(commands_with(d, e), l);
        }
    } else {
        assert forall|c: BlueprintCommand<F>, e: bool| #[trigger] commands_with(cmds, e).contains(c)
            <==> (cmds.contains(c) && (c.plugin is Some) == e) by {
            assert(commands_with(cmds, e) =~= Seq::<BlueprintCommand<F>>::empty());
        }
    }
}

proof fn lemma_push_contains<T>(s: Seq<T>, x: T)
    ensures forall|c: T| #[trigger] s.push(x).contains(c) <==> (s.contains(c) || c == x),
{
    assert forall|c: T| #[trigger] s.push(x).contains(c) <==> (s.contains(c) || c == x) by {
        if s.push(x).contains(c) {
            let k = choose|k: int| 0 <= k < s.push(x).len() && s.push(x)[k] == c;
            if k < s.len() {
                assert(s[k] == c);
            }
        }
        if s.contains(c) {
            let k = choose|k: int| 0 <= k < s.len() && s[k] == c;
            assert(s.push(x)[k] == c);
        }
        if c == x {
            assert(s.push(x)[s.len() as int] == c);
        }
    }
}

/// The commands that every guild has, in order.
pub fn iter_default_commands<'a, F>(commands: &'a Vec<BlueprintCommand<F>>) -> (r: Vec<&'a BlueprintCommand<F>>)
    ensures r@.map_values(|c: &BlueprintCommand<F>| *c) == commands_with(commands@, false),
{
    select_commands(commands, false)
}

/// The commands that belong to a plugin, in order.
pub fn iter_exclusive_commands<'a, F>(commands: &'a Vec<BlueprintCommand<F>>) -> (r: Vec<&'a BlueprintCommand<F>>)
    ensures r@.map_values(|c: &BlueprintCommand<F>| *c) == commands_with(commands@, true),
{
    select_commands(commands, true)
}

/// `items` joined by `sep`, each wrapped in backticks when `block` holds.
pub open spec fn joined(items: Seq<&'static str>, sep: Seq<char>, block: bool) -> Seq<char>
    decreases items.len(),
{
    if items.len() == 0 {
        seq![]
    } else {
        let item = if block { "`"@ + items.last()@ + "`"@ } else { items.last()@ };
        if items.len() == 1 { item } else { joined(items.drop_last(), sep, block) + sep + item }
    }
}

fn join_items(items: &Vec<&'static str>, sep: &str, block: bool) -> (r: String)
    ensures r@ == joined(items@, sep@, block),
{
    let mut s = String::new();
    let mut i: usize = 0;
    while i < items.len()
        invariant
            i <= items@.len(),
            s@ == joined(items@.take(i as int), sep@, block),
        decreases items.len() - i,
    {
        let ghost t = items@.take(i + 1);
        assert(t.drop_last() =~= items@.take(i as int));
        assert(t.last() == items@[i as int]);
        if i > 0 {
            push_str(&mut s, sep);
        }
        if block {
            push_str(&mut s, "`");
            push_str(&mut s, items[i]);
            push_str(&mut s, "`");
        } else {
            push_str(&mut s, items[i]);
        }
        proof {
            if i == 0 {
                assert(items@.take(0) =~= Seq::<&'static str>::empty());
            }
        }
        i = i + 1;
    }
    assert(items@.take(items@.len() as int) =~= items@);
    s
}

pub open spec fn or_none(o: Option<Vec<&'static str>>, sep: Seq<char>, block: bool) -> Seq<char> {
    match o {
        Some(v) => joined(v@, sep, block),
        None => "(none)"@,
    }
}

fn stringify(o: &Option<Vec<&'static str>>, sep: &str, block: bool) -> (r: String)
    ensures r@ == or_none(*o, sep@, block),
{
    match o {
        Some(v) => join_items(v, sep, block),
        None => String::from_str("(none)"),
    }
}

impl<F> BlueprintCommand<F> {
    /// The info lines joined by spaces, or `(none)`.
    pub fn stringify_info(&self) -> (r: String)
        ensures r@ == or_none(self.info, " "@, false),
    {
        stringify(&self.info, " ", false)
    }

    /// Each usage line in backticks, one per line, or `(none)`.
    pub fn stringify_usage(&self) -> (r: String)
        ensures r@ == or_none(self.usage, "\n"@, true),
    {
        stringify(&self.usage, "\n", true)
    }

    /// Each example in backticks, one per line, or `(none)`.
    pub fn stringify_examples(&self) -> (r: String)
        ensures r@ == or_none(self.examples, "\n"@, true),
    {
        stringify(&self.examples, "\n", true)
    }
}

/// Why an interaction did not match the blueprints.
#[derive(Debug, Clone, Copy, PartialEq, Eq, Structural)]
pub enum MelodyParseCommandError {
    /// A mentionable ID was resolved neither as a user nor as a role.
    UnresolvedGenericId(u64),
    /// The options are not shaped as the command declares.
    InvalidStructure,
    NoCommandFound,
}

/// The value of one option of an interaction, as the interaction carries it.
#[derive(Debug)]
pub enum DataOptionValue {
    SubCommand(Vec<DataOption>),
    SubCommandGroup(Vec<DataOption>),
    String(String),
    Integer(i64),
    /// The bits of an `f64`.
    Number(u64),
    Boolean(bool),
    User(u64),
    Role(u64),
    Channel(u64),
    Attachment(u64),
    /// An ID that may be a user or a role.
    Mentionable(u64),
    /// Any other kind of value.
    Unknown,
}

#[derive(Debug)]
pub struct DataOption {
    pub name: String,
    pub value: DataOptionValue,
}

/// An invoked slash command: its name, its options, and the IDs of the users
/// and roles the interaction resolved.
#[derive(Debug)]
pub struct CommandData {
    pub name: String,
    pub options: Vec<DataOption>,
    pub resolved_users: Vec<u64>,
    pub resolved_roles: Vec<u64>,
}

/// The value a plain (non-subcommand) option gives.
pub open spec fn option_value(users: Seq<u64>, roles: Seq<u64>, v: DataOptionValue) -> Result<ValueView, MelodyParseCommandError> {
    match v {
        DataOptionValue::String(s) => Ok(ValueView::String(s@)),
        DataOptionValue::Integer(i) => Ok(ValueView::Integer(i)),
        DataOptionValue::Number(n) => Ok(ValueView::Number(n)),
        DataOptionValue::Boolean(b) => Ok(ValueView::Boolean(b)),
        DataOptionValue::User(u) => Ok(ValueView::User(u)),
        DataOptionValue::Role(r) => Ok(ValueView::Role(r)),
        DataOptionValue::Channel(c) => Ok(ValueView::Channel(c)),
        DataOptionValue::Attachment(a) => Ok(ValueView::Attachment(a)),
        DataOptionValue::Mentionable(id) => {
            if users.contains(id) {
                Ok(ValueView::User(id))
            } else if roles.contains(id) {
                Ok(ValueView::Role(id))
            } else {
                Err(MelodyParseCommandError::UnresolvedGenericId(id))
            }
        },
        _ => Err(MelodyParseCommandError::InvalidStructure),
    }
}

/// The values of a list of plain options, in order; the first failure wins.
pub open spec fn option_values(users: Seq<u64>, roles: Seq<u64>, opts: Seq<DataOption>) -> Result<Seq<ValueView>, MelodyParseCommandError>
    decreases opts.len(),
{
    if opts.len() == 0 {
        Ok(seq![])
    } else {
        match option_values(users, roles, opts.drop_last()) {
            Err(e) => Err(e),
            Ok(vs) => match option_value(users, roles, opts.last().value) {
                Err(e) => Err(e),
                Ok(v) => Ok(vs.push(v)),
            },
        }
    }
}

/// The subcommands named along a single chain of (group) subcommand options.
pub open spec fn nested_options(o: DataOption) -> Option<Seq<DataOption>> {
    match o.value {
        DataOptionValue::SubCommand(v) => Some(v@),
        DataOptionValue::SubCommandGroup(v) => Some(v@),
        _ => None,
    }
}

/// The subcommand names and the option values of an interaction's options:
/// a lone (group) subcommand option names a subcommand and holds the rest;
/// anything else is a list of plain options.
pub open spec fn extract(users: Seq<u64>, roles: Seq<u64>, opts: Seq<DataOption>)
    -> Result<(Seq<Seq<char>>, Seq<ValueView>), MelodyParseCommandError>
    decreases opts,
{
    if opts.len() == 1 && nested_options(opts[0]) is Some {
        let inner = match opts[0].value {
            DataOptionValue::SubCommand(v) => v,
            DataOptionValue::SubCommandGroup(v) => v,
            _ => opts[0].value->SubCommand_0,
        };
        match extract(users, roles, inner@) {
            Ok((subs, vals)) => Ok((seq![opts[0].name@] + subs, vals)),
            Err(e) => Err(e),
        }
    } else {
        match option_values(users, roles, opts) {
            Ok(vals) => Ok((seq![], vals)),
            Err(e) => Err(e),
        }
    }
}

fn value_of(users: &Vec<u64>, roles: &Vec<u64>, v: &DataOptionValue) -> (r: Result<BlueprintOptionValue, MelodyParseCommandError>)
    ensures
        match option_value(users@, roles@, *v) {
            Ok(x) => r matches Ok(y) && value_view(y) == x,
            Err(e) => r == Err::<BlueprintOptionValue, MelodyParseCommandError>(e),
        },
{
    match v {
        DataOptionValue::String(s) => Ok(BlueprintOptionValue::String(copy_string(s))),
        DataOptionValue::Integer(i) => Ok(BlueprintOptionValue::Integer(*i)),
        DataOptionValue::Number(n) => Ok(BlueprintOptionValue::Number(*n)),
        DataOptionValue::Boolean(b) => Ok(BlueprintOptionValue::Boolean(*b)),
        DataOptionValue::User(u) => Ok(BlueprintOptionValue::User(*u)),
        DataOptionValue::Role(x) => Ok(BlueprintOptionValue::Role(*x)),
        DataOptionValue::Channel(c) => Ok(BlueprintOptionValue::Channel(*c)),
        DataOptionValue::Attachment(a) => Ok(BlueprintOptionValue::Attachment(*a)),
        DataOptionValue::Mentionable(id) => {
            if vec_contains(users, *id) {
                Ok(BlueprintOptionValue::User(*id))
            } else if vec_contains(roles, *id) {
                Ok(BlueprintOptionValue::Role(*id))
            } else {
                Err(MelodyParseCommandError::UnresolvedGenericId(*id))
            }
        },
        _ => Err(MelodyParseCommandError::InvalidStructure),
    }
}

fn vec_contains(v: &Vec<u64>, x: u64) -> (r: bool)
    ensures r == v@.contains(x),
{
    let mut i: usize = 0;
    while i < v.len()
        invariant
            i <= v@.len(),
            forall|j: int| 0 <= j < i ==> v@[j] != x,
        decreases v.len() - i,
    {
        if v[i] == x {
            return true;
        }
        i = i + 1;
    }
    false
}

/// Appends the values of plain options.
fn push_values(users: &Vec<u64>, roles: &Vec<u64>, opts: &Vec<DataOption>, vals: &mut Vec<BlueprintOptionValue>)
    -> (r: Result<(), MelodyParseCommandError>)
    ensures
        match option_values(users@, roles@, opts@) {
            Ok(vs) => r is Ok && values_view(final(vals)@) == values_view(old(vals)@) + vs,
            Err(e) => r == Err::<(), MelodyParseCommandError>(e),
        },
{
    let ghost start = values_view(vals@);
    let mut i: usize = 0;
    assert(opts@.take(0) =~= Seq::<DataOption>::empty());
    assert(start + Seq::<ValueView>::empty() =~= start);
    while i < opts.len()
        invariant
            i <= opts@.len(),
            option_values(users@, roles@, opts@.take(i as int)) matches Ok(vs) && values_view(vals@) == start + vs,
        decreases opts.len() - i,
    {
        let ghost t = opts@.take(i + 1);
        assert(t.drop_last() =~= opts@.take(i as int));
        assert(t.last() == opts@[i as int]);
        let ghost before = vals@;
        match value_of(users, roles, &opts[i].value) {
            Ok(v) => {
                vals.push(v);
                proof {
                    let vs = option_values(users@, roles@, opts@.take(i as int))->Ok_0;
                    assert(values_view(vals@) =~= values_view(before).push(value_view(v)));
                    assert(start + vs.push(value_view(v)) =~= (start + vs).push(value_view(v)));
                }
            },
            Err(e) => {
                proof { lemma_values_err(users@, roles@, opts@, i as int, e); }
                return Err(e);
            },
        }
        i = i + 1;
    }
    assert(opts@.take(opts@.len() as int) =~= opts@);
    Ok(())
}

/// A failure on a prefix is the failure of the whole list.
proof fn lemma_values_err(users: Seq<u64>, roles: Seq<u64>, opts: Seq<DataOption>, i: int, e: MelodyParseCommandError)
    requires
        0 <= i < opts.len(),
        option_values(users, roles, opts.take(i + 1)) == Err::<Seq<ValueView>, MelodyParseCommandError>(e),
    ensures
        option_values(users, roles, opts) == Err::<Seq<ValueView>, MelodyParseCommandError>(e),
    decreases opts.len() - i,
{
    if i + 1 < opts.len() {
        let t = opts.take(i + 2);
        assert(t.drop_last() =~= opts.take(i + 1));
        lemma_values_err(users, roles, opts, i + 1, e);
    } else {
        assert(opts.take(i + 1) =~= opts);
    }
}

/// Reads the subcommand names and option values of `opts`, appending them.
fn extract_arguments(users: &Vec<u64>, roles: &Vec<u64>, opts: &Vec<DataOption>,
    subs: &mut Vec<String>, vals: &mut Vec<BlueprintOptionValue>) -> (r: Result<(), MelodyParseCommandError>)
    ensures
        match extract(users@, roles@, opts@) {
            Ok((s, v)) => r is Ok && strings_view(final(subs)@) == strings_view(old(subs)@) + s
                && values_view(final(vals)@) == values_view(old(vals)@) + v,
            Err(e) => r == Err::<(), MelodyParseCommandError>(e),
        },
    decreases opts@,
{
    if opts.len() == 1 {
        let first = &opts[0];
        let inner = match &first.value {
            DataOptionValue::SubCommand(v) => Some(v),
            DataOptionValue::SubCommandGroup(v) => Some(v),
            _ => None,
        };
        if let Some(inner) = inner {
            let ghost before = subs@;
            subs.push(copy_string(&first.name));
            assert(strings_view(subs@) =~= strings_view(before).push(first.name@));
            let ghost mid = subs@;
            assert(decreases_to!(opts@ => inner@)) by {
                assert(decreases_to!(opts@ => opts@[0]));
                assert(decreases_to!(opts@[0] => opts@[0].value));
            }
            let res = extract_arguments(users, roles, inner, subs, vals);
            proof {
                if let Ok((s, v)) = extract(users@, roles@, inner@) {
                    assert(strings_view(before) + (seq![first.name@] + s) =~= strings_view(before).push(first.name@) + s);
                }
            }
            return res;
        }
    }
    let ghost subs0 = subs@;
    let res = push_values(users, roles, opts, vals);
    proof {
        assert(strings_view(subs0) + Seq::<Seq<char>>::empty() =~= strings_view(subs0));
    }
    res
}

/// Whether each given value fits the option declared at its place (as far as both lists go).
pub open spec fn all_same_type(opts: Seq<BlueprintOption>, vals: Seq<ValueView>) -> bool {
    forall|i: int| 0 <= i < opts.len() && i < vals.len() ==> #[trigger] same_type(opts[i].variant, vals[i])
}

/// What an interaction resolves to: its command name, subcommand names,
/// option values and the function to run.
pub open spec fn parse_spec<F>(data: CommandData, commands: Seq<BlueprintCommand<F>>)
    -> Result<(Seq<char>, Seq<Seq<char>>, Seq<ValueView>, F), MelodyParseCommandError>
{
    match extract(data.resolved_users@, data.resolved_roles@, data.options@) {
        Err(e) => Err(e),
        Ok((subs, vals)) => match first_command(commands, data.name@) {
            None => Err(MelodyParseCommandError::NoCommandFound),
            Some(k) => match root_get(commands[k].root, subs) {
                None => Err(MelodyParseCommandError::NoCommandFound),
                Some((opts, f)) => if all_same_type(opts, vals) {
                    Ok((data.name@, subs, vals, f))
                } else {
                    Err(MelodyParseCommandError::InvalidStructure)
                },
            },
        },
    }
}

fn check_types(opts: &Vec<BlueprintOption>, vals: &Vec<BlueprintOptionValue>) -> (r: bool)
    ensures r == all_same_type(opts@, values_view(vals@)),
{
    let mut i: usize = 0;
    while i < opts.len() && i < vals.len()
        invariant
            i <= opts@.len(),
            forall|j: int| 0 <= j < i && j < vals@.len() ==> #[trigger] same_type(opts@[j].variant, values_view(vals@)[j]),
        decreases opts.len() - i,
    {
        if !opts[i].variant.is_same_type(&vals[i]) {
            assert(values_view(vals@)[i as int] == value_view(vals@[i as int]));
            return false;
        }
        i = i + 1;
    }
    true
}

/// Matches an interaction against the blueprints: the command name, the
/// subcommand names, the option values and the function to run.
pub fn parse_command<F: Copy>(data: &CommandData, commands: &Vec<BlueprintCommand<F>>)
    -> (r: Result<(String, Vec<String>, Vec<BlueprintOptionValue>, F), MelodyParseCommandError>)
    ensures
        match parse_spec(*data, commands@) {
            Ok((name, subs, vals, f)) => r matches Ok(x) && x.0@ == name && strings_view(x.1@) == subs
                && values_view(x.2@) == vals && x.3 == f,
            Err(e) => r == Err::<(String, Vec<String>, Vec<BlueprintOptionValue>, F), MelodyParseCommandError>(e),
        },
{
    let mut subs: Vec<String> = Vec::new();
    let mut vals: Vec<BlueprintOptionValue> = Vec::new();
    let res = extract_arguments(&data.resolved_users, &data.resolved_roles, &data.options, &mut subs, &mut vals);
    assert(strings_view(Seq::<String>::empty()) =~= Seq::<Seq<char>>::empty());
    assert(values_view(Seq::<BlueprintOptionValue>::empty()) =~= Seq::<ValueView>::empty());
    match res {
        Err(e) => {
            return Err(e);
        },
        Ok(()) => {},
    }
    proof {
        if let Ok((s, v)) = extract(data.resolved_users@, data.resolved_roles@, data.options@) {
            assert(Seq::<Seq<char>>::empty() + s =~= s);
            assert(Seq::<ValueView>::empty() + v =~= v);
        }
    }
    let command = match find_command(commands, data.name.as_str()) {
        Some(c) => c,
        None => {
            return Err(MelodyParseCommandError::NoCommandFound);
        },
    };
    let (options, function) = match command.root.get(subs.as_slice()) {
        Some(x) => x,
        None => {
            return Err(MelodyParseCommandError::NoCommandFound);
        },
    };
    if check_types(options, &vals) {
        Ok((copy_string(&data.name), subs, vals, function))
    } else {
        Err(MelodyParseCommandError::InvalidStructure)
    }
}

} // verus!
