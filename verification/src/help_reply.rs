//! Answering a help request: finding the command asked about, and writing the
//! help shown for one command or the list of all commands.
use vstd::prelude::*;
use crate::help::{CommandMetaData, HelpLocalization, split_whitespace, split_ws, strings_view, to_words, to_words_spec};
use crate::text::{copy_string, eq_ignore_ascii_case, eq_ignore_case, str_eq, push_str, chars_of};

verus! {

broadcast use vstd::string::group_string_axioms;

/// What the help reads of a registered command.
#[derive(Debug)]
pub struct HelpCommand {
    pub name: String,
    pub name_localizations: Vec<(String, String)>,
    pub description: Option<String>,
    pub description_localizations: Vec<(String, String)>,
    /// The plugin category that enables the command; `None` for one every guild has.
    pub category: Option<String>,
    pub required_permissions: u64,
    pub default_member_permissions: u64,
    pub required_bot_permissions: u64,
    pub dm_only: bool,
    pub guild_only: bool,
    pub meta: Option<CommandMetaData>,
    pub subcommands: Vec<HelpCommand>,
}

/// The value of the first entry whose key is `k`.
pub open spec fn first_entry(s: Seq<(String, String)>, k: Seq<char>) -> Option<Seq<char>>
    decreases s.len(),
{
    if s.len() == 0 {
        None
    } else if s[0].0@ == k {
        Some(s[0].1@)
    } else {
        first_entry(s.drop_first(), k)
    }
}

fn entry_for<'a>(s: &'a Vec<(String, String)>, k: &str) -> (r: Option<&'a String>)
    ensures
        match first_entry(s@, k@) {
            Some(v) => r matches Some(x) && x@ == v,
            None => r is None,
        },
{
    let mut i: usize = 0;
    assert(s@.skip(0) =~= s@);
    while i < s.len()
        invariant
            i <= s@.len(),
            first_entry(s@, k@) == first_entry(s@.skip(i as int), k@),
        decreases s.len() - i,
    {
        let ghost rest = s@.skip(i as int);
        assert(rest[0] == s@[i as int]);
        assert(rest.drop_first() =~= s@.skip(i + 1));
        if str_eq(s[i].0.as_str(), k) {
            return Some(&s[i].1);
        }
        i = i + 1;
    }
    None
}

impl HelpCommand {
    /// The command's name in a locale.
    pub open spec fn name_in(&self, locale: Seq<char>) -> Seq<char> {
        match first_entry(self.name_localizations@, locale) {
            Some(n) => n,
            None => self.name@,
        }
    }

    /// The command's description in a locale, if it has one.
    pub open spec fn description_in(&self, locale: Seq<char>) -> Option<Seq<char>> {
        match first_entry(self.description_localizations@, locale) {
            Some(d) => Some(d),
            None => match self.description {
                Some(d) => Some(d@),
                None => None,
            },
        }
    }

    pub fn localized_name(&self, locale: &str) -> (r: &String)
        ensures r@ == self.name_in(locale@),
    {
        match entry_for(&self.name_localizations, locale) {
            Some(n) => n,
            None => &self.name,
        }
    }

    pub fn localized_description(&self, locale: &str) -> (r: Option<&String>)
        ensures
            match self.description_in(locale@) {
                Some(d) => r matches Some(x) && x@ == d,
                None => r is None,
            },
    {
        match entry_for(&self.description_localizations, locale) {
            Some(d) => Some(d),
            None => match &self.description {
                Some(d) => Some(d),
                None => None,
            },
        }
    }
}

/// The index of the first command whose name in `locale` matches `word`, ignoring ASCII case.
pub open spec fn first_named(cmds: Seq<HelpCommand>, locale: Seq<char>, word: Seq<char>) -> Option<int>
    decreases cmds.len(),
{
    if cmds.len() == 0 {
        None
    } else if eq_ignore_case(cmds[0].name_in(locale), word) {
        Some(0)
    } else {
        match first_named(cmds.drop_first(), locale, word) {
            Some(k) => Some(k + 1),
            None => None,
        }
    }
}

proof fn lemma_first_named(cmds: Seq<HelpCommand>, locale: Seq<char>, word: Seq<char>)
    ensures
        match first_named(cmds, locale, word) {
            Some(k) => 0 <= k < cmds.len() && eq_ignore_case(cmds[k].name_in(locale), word)
                && forall|j: int| 0 <= j < k ==> !eq_ignore_case((#[trigger] cmds[j]).name_in(locale), word),
            None => forall|j: int| 0 <= j < cmds.len() ==> !eq_ignore_case((#[trigger] cmds[j]).name_in(locale), word),
        },
    decreases cmds.len(),
{
    if cmds.len() > 0 {
        lemma_first_named(cmds.drop_first(), locale, word);
        assert forall|j: int| 1 <= j < cmds.len() implies #[trigger] cmds[j] == cmds.drop_first()[j - 1] by {}
    }
}

fn find_named<'a>(cmds: &'a Vec<HelpCommand>, locale: &str, word: &str) -> (r: Option<&'a HelpCommand>)
    ensures
        match first_named(cmds@, locale@, word@) {
            Some(k) => r == Some(&cmds@[k]),
            None => r is None,
        },
{
    let mut i: usize = 0;
    while i < cmds.len()
        invariant
            i <= cmds@.len(),
            forall|j: int| 0 <= j < i ==> !eq_ignore_case((#[trigger] cmds@[j]).name_in(locale@), word@),
        decreases cmds.len() - i,
    {
        if eq_ignore_ascii_case(cmds[i].localized_name(locale).as_str(), word) {
            proof { lemma_first_named(cmds@, locale@, word@); }
            return Some(&cmds[i]);
        }
        i = i + 1;
    }
    proof { lemma_first_named(cmds@, locale@, word@); }
    None
}

/// Follows the words down the command tree; the command reached by the last
/// word, or `current` when no word is left; `None` once a word names nothing.
pub open spec fn walk(cmds: Seq<HelpCommand>, locale: Seq<char>, words: Seq<Seq<char>>, current: Option<HelpCommand>) -> Option<HelpCommand>
    decreases words.len(),
{
    if words.len() == 0 {
        current
    } else {
        match first_named(cmds, locale, words[0]) {
            None => None,
            Some(k) => walk(cmds[k].subcommands@, locale, words.drop_first(), Some(cmds[k])),
        }
    }
}

/// The command that the whitespace-separated words of `argument` name, each
/// word a subcommand of the one before.
pub fn find_command<'a>(commands: &'a Vec<HelpCommand>, locale: &str, argument: &str) -> (r: Option<&'a HelpCommand>)
    ensures
        match walk(commands@, locale@, split_ws(argument@), None) {
            Some(c) => r matches Some(x) && *x == c,
            None => r is None,
        },
{
    let words = split_whitespace(argument);
    let ghost all = strings_view(words@);
    let mut cmds: &'a Vec<HelpCommand> = commands;
    let mut current: Option<&'a HelpCommand> = None;
    let mut i: usize = 0;
    assert(all.skip(0) =~= all);
    while i < words.len()
        invariant
            all == strings_view(words@),
            all == split_ws(argument@),
            i <= words@.len(),
            walk(commands@, locale@, all, None) == walk(cmds@, locale@, all.skip(i as int), match current { Some(c) => Some(*c), None => None }),
        decreases words.len() - i,
    {
        let ghost rest = all.skip(i as int);
        assert(rest[0] == words@[i as int]@);
        assert(rest.drop_first() =~= all.skip(i + 1));
        match find_named(cmds, locale, words[i].as_str()) {
            None => {
                return None;
            },
            Some(c) => {
                cmds = &c.subcommands;
                current = Some(c);
            },
        }
        i = i + 1;
    }
    assert(all.skip(i as int) =~= Seq::<Seq<char>>::empty());
    current
}

/// An embed of the help: a title, a description, fields and a footer.
#[derive(Debug, Clone)]
pub struct HelpEmbed {
    pub title: String,
    pub description: String,
    pub fields: Vec<(String, String)>,
    pub footer: Option<String>,
}

pub open spec fn fields_view(f: Seq<(String, String)>) -> Seq<(Seq<char>, Seq<char>)> {
    f.map_values(|p: (String, String)| (p.0@, p.1@))
}

/// Lines each wrapped in backticks and joined by line breaks.
pub open spec fn blocks(lines: Seq<Seq<char>>) -> Seq<char>
    decreases lines.len(),
{
    if lines.len() == 0 {
        seq![]
    } else if lines.len() == 1 {
        "`"@ + lines[0] + "`"@
    } else {
        blocks(lines.drop_last()) + "\n"@ + ("`"@ + lines.last() + "`"@)
    }
}

fn blocks_of(lines: &Vec<String>) -> (r: String)
    ensures r@ == blocks(strings_view(lines@)),
{
    let mut s = String::new();
    let mut i: usize = 0;
    while i < lines.len()
        invariant
            i <= lines@.len(),
            s@ == blocks(strings_view(lines@.take(i as int))),
        decreases lines.len() - i,
    {
        let ghost t = strings_view(lines@.take(i + 1));
        assert(t.drop_last() =~= strings_view(lines@.take(i as int)));
        assert(t.last() == lines@[i as int]@);
        if i > 0 {
            push_str(&mut s, "\n");
        }
        push_str(&mut s, "`");
        push_str(&mut s, lines[i].as_str());
        push_str(&mut s, "`");
        proof {
            if i == 0 {
                assert(strings_view(lines@.take(0)) =~= Seq::<Seq<char>>::empty());
                assert(t.len() == 1);
            }
        }
        i = i + 1;
    }
    assert(lines@.take(lines@.len() as int) =~= lines@);
    s
}

/// Where a command may be used, in the help's words.
pub open spec fn where_text(text: HelpLocalization, dm_only: bool, guild_only: bool) -> Seq<char> {
    if dm_only && guild_only {
        text.content_allowable_where_nowhere@
    } else if dm_only {
        text.content_allowable_where_dm_only@
    } else if guild_only {
        text.content_allowable_where_guild_only@
    } else {
        text.content_allowable_where_anywhere@
    }
}

pub open spec fn lines_or_none(lines: Option<Seq<Seq<char>>>, none: Seq<char>) -> Seq<char> {
    match lines {
        Some(l) => blocks(l),
        None => none,
    }
}

/// The fields of a command's help: its info (if any), usage, examples, the
/// permissions it needs (each only if there are any) and where it may be used.
pub open spec fn help_fields(c: HelpCommand, m: CommandMetaData, locale: Seq<char>, text: HelpLocalization,
    user_text: Seq<char>, bot_text: Seq<char>) -> Seq<(Seq<char>, Seq<char>)>
{
    let info = match m.info_of(locale) {
        Some(i) => seq![(text.heading_info@, i)],
        None => seq![],
    };
    let user = if c.required_permissions | c.default_member_permissions != 0 {
        seq![(text.heading_required_user_permissions@, user_text)]
    } else {
        seq![]
    };
    let bot = if c.required_bot_permissions != 0 {
        seq![(text.heading_required_bot_permissions@, bot_text)]
    } else {
        seq![]
    };
    info
        + seq![(text.heading_usage@, lines_or_none(m.usage_of(locale), text.none@)),
               (text.heading_examples@, lines_or_none(m.examples_of(locale), text.none@))]
        + user + bot
        + seq![(text.heading_allowable_where@, where_text(text, c.dm_only, c.guild_only))]
}

fn push_field(fields: &mut Vec<(String, String)>, heading: &str, value: String)
    ensures fields_view(final(fields)@) == fields_view(old(fields)@).push((heading@, value@)),
{
    let ghost before = fields@;
    fields.push((heading.to_owned(), value));
    assert(fields_view(fields@) =~= fields_view(before).push((heading@, value@)));
}

/// The help of one command, in a locale. `user_permissions_text` and
/// `bot_permissions_text` name the permissions the command needs (of its
/// user, and of the bot). `None` when the command carries no metadata.
pub fn build_command_help_embed(command: &HelpCommand, locale: &str, text: &HelpLocalization,
    user_permissions_text: &str, bot_permissions_text: &str) -> (r: Option<HelpEmbed>)
    ensures
        match command.meta {
            None => r is None,
            Some(m) => r matches Some(e)
                && e.title@ == to_words_spec(command.name_in(locale@))
                && e.description@ == (match command.description_in(locale@) { Some(d) => d, None => text.none@ })
                && fields_view(e.fields@) == help_fields(*command, m, locale@, *text, user_permissions_text@, bot_permissions_text@)
                && e.footer is None,
        },
{
    let meta = match &command.meta {
        Some(m) => m,
        None => {
            return None;
        },
    };
    let name = command.localized_name(locale);
    let description = match command.localized_description(locale) {
        Some(d) => copy_string(d),
        None => text.none.to_owned(),
    };
    let usage = match meta.usage_for(locale) {
        Some(u) => blocks_of(u),
        None => text.none.to_owned(),
    };
    let examples = match meta.examples_for(locale) {
        Some(x) => blocks_of(x),
        None => text.none.to_owned(),
    };
    let mut fields: Vec<(String, String)> = Vec::new();
    if let Some(info) = meta.info_for(locale) {
        push_field(&mut fields, text.heading_info, copy_string(info));
    }
    push_field(&mut fields, text.heading_usage, usage);
    push_field(&mut fields, text.heading_examples, examples);
    if command.required_permissions | command.default_member_permissions != 0 {
        push_field(&mut fields, text.heading_required_user_permissions, user_permissions_text.to_owned());
    }
    if command.required_bot_permissions != 0 {
        push_field(&mut fields, text.heading_required_bot_permissions, bot_permissions_text.to_owned());
    }
    let allowable = if command.dm_only && command.guild_only {
        text.content_allowable_where_nowhere
    } else if command.dm_only {
        text.content_allowable_where_dm_only
    } else if command.guild_only {
        text.content_allowable_where_guild_only
    } else {
        text.content_allowable_where_anywhere
    };
    push_field(&mut fields, text.heading_allowable_where, allowable.to_owned());
    proof {
        let m = command.meta->0;
        let info = match m.info_of(locale@) {
            Some(i) => seq![(text.heading_info@, i)],
            None => Seq::<(Seq<char>, Seq<char>)>::empty(),
        };
        assert(fields_view(fields@) =~= help_fields(*command, m, locale@, *text, user_permissions_text@, bot_permissions_text@));
    }
    Some(HelpEmbed { title: to_words(name.as_str()), description, fields, footer: None })
}

/// Whether `a` comes no later than `b` in the order of strings (by code point, as UTF-8 bytes compare).
pub open spec fn lex_le(a: Seq<char>, b: Seq<char>) -> bool
    decreases a.len(),
{
    if a.len() == 0 {
        true
    } else if b.len() == 0 {
        false
    } else if a[0] != b[0] {
        (a[0] as u32) < (b[0] as u32)
    } else {
        lex_le(a.drop_first(), b.drop_first())
    }
}

/// Whether `a <= b` as strings.
pub fn str_le(a: &str, b: &str) -> (r: bool)
    ensures r == lex_le(a@, b@),
{
    let x = chars_of(a);
    let y = chars_of(b);
    let mut i: usize = 0;
    assert(a@.skip(0) =~= a@);
    assert(b@.skip(0) =~= b@);
    while i < x.len() && i < y.len()
        invariant
            x@ == a@,
            y@ == b@,
            i <= x@.len(),
            i <= y@.len(),
            lex_le(a@, b@) == lex_le(a@.skip(i as int), b@.skip(i as int)),
        decreases x.len() - i,
    {
        let ghost sa = a@.skip(i as int);
        let ghost sb = b@.skip(i as int);
        assert(sa[0] == x@[i as int]);
        assert(sb[0] == y@[i as int]);
        assert(sa.drop_first() =~= a@.skip(i + 1));
        assert(sb.drop_first() =~= b@.skip(i + 1));
        if x[i] != y[i] {
            return (x[i] as u32) < (y[i] as u32);
        }
        i = i + 1;
    }
    if i == x.len() {
        assert(a@.skip(i as int).len() == 0);
        true
    } else {
        assert(b@.skip(i as int).len() == 0);
        assert(a@.skip(i as int).len() > 0);
        false
    }
}

/// Inserts `x` after every command whose name in `locale` is no later than its own.
pub open spec fn ins(s: Seq<HelpCommand>, x: HelpCommand, locale: Seq<char>) -> Seq<HelpCommand>
    decreases s.len(),
{
    if s.len() == 0 {
        seq![x]
    } else if lex_le(s.last().name_in(locale), x.name_in(locale)) {
        s.push(x)
    } else {
        ins(s.drop_last(), x, locale).push(s.last())
    }
}

/// The commands in the order of their names in `locale`; commands of equal
/// names keep their order (a stable insertion sort).
pub open spec fn sorted_by_name(s: Seq<HelpCommand>, locale: Seq<char>) -> Seq<HelpCommand>
    decreases s.len(),
{
    if s.len() == 0 {
        seq![]
    } else {
        ins(sorted_by_name(s.drop_last(), locale), s.last(), locale)
    }
}

proof fn lemma_ins_at(s: Seq<HelpCommand>, x: HelpCommand, locale: Seq<char>, j: int)
    requires
        0 <= j <= s.len(),
        forall|k: int| j <= k < s.len() ==> !lex_le((#[trigger] s[k]).name_in(locale), x.name_in(locale)),
        j > 0 ==> lex_le(s[j - 1].name_in(locale), x.name_in(locale)),
    ensures
        ins(s, x, locale) == s.insert(j, x),
    decreases s.len(),
{
    if s.len() == j {
        assert(s.insert(j, x) =~= s.push(x));
    } else {
        let d = s.drop_last();
        assert forall|k: int| j <= k < d.len() implies !lex_le((#[trigger] d[k]).name_in(locale), x.name_in(locale)) by {
            assert(d[k] == s[k]);
        }
        if j > 0 {
            assert(d[j - 1] == s[j - 1]);
        }
        lemma_ins_at(d, x, locale, j);
        assert(s.last() == s[s.len() - 1]);
        assert(d.insert(j, x).push(s.last()) =~= s.insert(j, x));
    }
}

/// Whether a member with `permissions` may see the command, given the enabled categories.
pub open spec fn visible(c: HelpCommand, permissions: u64, categories: Seq<Seq<char>>) -> bool {
    let need = c.required_permissions | c.default_member_permissions;
    &&& permissions & need == need
    &&& match c.category {
        Some(cat) => categories.contains(cat@),
        None => true,
    }
}

fn is_visible(c: &HelpCommand, permissions: u64, categories: &Vec<String>) -> (r: bool)
    ensures r == visible(*c, permissions, strings_view(categories@)),
{
    let need = c.required_permissions | c.default_member_permissions;
    if permissions & need != need {
        return false;
    }
    match &c.category {
        None => true,
        Some(cat) => {
            let mut i: usize = 0;
            while i < categories.len()
                invariant
                    c.category == Some(*cat),
                    permissions & (c.required_permissions | c.default_member_permissions) == c.required_permissions | c.default_member_permissions,
                    i <= categories@.len(),
                    forall|j: int| 0 <= j < i ==> (#[trigger] categories@[j])@ != cat@,
                decreases categories.len() - i,
            {
                if str_eq(categories[i].as_str(), cat.as_str()) {
                    assert(strings_view(categories@).len() == categories@.len());
                    assert(strings_view(categories@)[i as int] == cat@);
                    assert(strings_view(categories@).contains(cat@));
                    return true;
                }
                i = i + 1;
            }
            proof {
                if strings_view(categories@).contains(cat@) {
                    let k = choose|k: int| 0 <= k < strings_view(categories@).len() && strings_view(categories@)[k] == cat@;
                    assert(categories@[k]@ == cat@);
                }
            }
            false
        },
    }
}

/// The visible commands, in order.
pub open spec fn visible_commands(s: Seq<HelpCommand>, permissions: u64, categories: Seq<Seq<char>>) -> Seq<HelpCommand>
    decreases s.len(),
{
    if s.len() == 0 {
        seq![]
    } else {
        let rest = visible_commands(s.drop_last(), permissions, categories);
        if visible(s.last(), permissions, categories) { rest.push(s.last()) } else { rest }
    }
}

/// One line of the command list: the name in backticks, and its description in italics when it has one.
pub open spec fn commandify(c: HelpCommand, locale: Seq<char>) -> Seq<char> {
    match c.description_in(locale) {
        Some(d) => "/`"@ + c.name_in(locale) + "`: *"@ + d + "*"@,
        None => "/`"@ + c.name_in(locale) + "`"@,
    }
}

/// The lines of the command list, joined by line breaks.
pub open spec fn list_body(s: Seq<HelpCommand>, locale: Seq<char>) -> Seq<char>
    decreases s.len(),
{
    if s.len() == 0 {
        seq![]
    } else if s.len() == 1 {
        commandify(s[0], locale)
    } else {
        list_body(s.drop_last(), locale) + "\n"@ + commandify(s.last(), locale)
    }
}

pub open spec fn refs_view(v: Seq<&HelpCommand>) -> Seq<HelpCommand> {
    v.map_values(|c: &HelpCommand| *c)
}

fn commandify_line(c: &HelpCommand, locale: &str) -> (r: String)
    ensures r@ == commandify(*c, locale@),
{
    let mut s = String::from_str("/`");
    push_str(&mut s, c.localized_name(locale).as_str());
    match c.localized_description(locale) {
        Some(d) => {
            push_str(&mut s, "`: *");
            push_str(&mut s, d.as_str());
            push_str(&mut s, "*");
        },
        None => {
            push_str(&mut s, "`");
        },
    }
    s
}

fn sort_by_name<'a>(items: Vec<&'a HelpCommand>, locale: &str) -> (r: Vec<&'a HelpCommand>)
    ensures refs_view(r@) == sorted_by_name(refs_view(items@), locale@),
{
    let mut out: Vec<&'a HelpCommand> = Vec::new();
    let mut i: usize = 0;
    while i < items.len()
        invariant
            i <= items@.len(),
            refs_view(out@) == sorted_by_name(refs_view(items@.take(i as int)), locale@),
        decreases items.len() - i,
    {
        let x = items[i];
        let key = x.localized_name(locale);
        let mut j = out.len();
        while j > 0 && !str_le(out[j - 1].localized_name(locale).as_str(), key.as_str())
            invariant
                j <= out@.len(),
                key@ == x.name_in(locale@),
                forall|k: int| j <= k < out@.len() ==> !lex_le((#[trigger] refs_view(out@)[k]).name_in(locale@), x.name_in(locale@)),
            decreases j,
        {
            j = j - 1;
        }
        let ghost before = refs_view(out@);
        proof {
            lemma_ins_at(before, *x, locale@, j as int);
            let t = refs_view(items@.take(i + 1));
            assert(t.drop_last() =~= refs_view(items@.take(i as int)));
            assert(t.last() == *x);
        }
        out.insert(j, x);
        assert(refs_view(out@) =~= before.insert(j as int, *x));
        i = i + 1;
    }
    assert(items@.take(items@.len() as int) =~= items@);
    out
}

/// The list of the commands a member may see, sorted by name.
pub fn build_command_list_help_embed(commands: &Vec<HelpCommand>, categories: &Vec<String>, permissions: u64,
    locale: &str, text: &HelpLocalization) -> (r: Option<HelpEmbed>)
    ensures
        r matches Some(e)
            && e.title@ == text.title_command_list@
            && e.description@ == text.description_command_list@
            && fields_view(e.fields@) == seq![(text.heading_command_list@,
                list_body(sorted_by_name(visible_commands(commands@, permissions, strings_view(categories@)), locale@), locale@))]
            && e.footer is None,
{
    let mut items: Vec<&HelpCommand> = Vec::new();
    let mut i: usize = 0;
    while i < commands.len()
        invariant
            i <= commands@.len(),
            refs_view(items@) == visible_commands(commands@.take(i as int), permissions, strings_view(categories@)),
        decreases commands.len() - i,
    {
        let ghost before = refs_view(items@);
        let ghost t = commands@.take(i + 1);
        assert(t.drop_last() =~= commands@.take(i as int));
        assert(t.last() == commands@[i as int]);
        if is_visible(&commands[i], permissions, categories) {
            items.push(&commands[i]);
            assert(refs_view(items@) =~= before.push(commands@[i as int]));
        }
        i = i + 1;
    }
    assert(commands@.take(commands@.len() as int) =~= commands@);
    let sorted = sort_by_name(items, locale);
    let mut body = String::new();
    let mut k: usize = 0;
    while k < sorted.len()
        invariant
            k <= sorted@.len(),
            body@ == list_body(refs_view(sorted@).take(k as int), locale@),
        decreases sorted.len() - k,
    {
        let ghost t = refs_view(sorted@).take(k + 1);
        assert(t.drop_last() =~= refs_view(sorted@).take(k as int));
        assert(t.last() == *sorted@[k as int]);
        if k > 0 {
            push_str(&mut body, "\n");
        }
        let line = commandify_line(sorted[k], locale);
        push_str(&mut body, line.as_str());
        proof {
            if k == 0 {
                assert(refs_view(sorted@).take(0) =~= Seq::<HelpCommand>::empty());
                assert(t.len() == 1);
            }
        }
        k = k + 1;
    }
    assert(refs_view(sorted@).take(sorted@.len() as int) =~= refs_view(sorted@));
    let mut fields: Vec<(String, String)> = Vec::new();
    push_field(&mut fields, text.heading_command_list, body);
    assert(fields_view(fields@) =~= seq![(text.heading_command_list@, list_body(refs_view(sorted@), locale@))]);
    Some(HelpEmbed {
        title: text.title_command_list.to_owned(),
        description: text.description_command_list.to_owned(),
        fields,
        footer: None,
    })
}

/// A help answer: an embed, or a plain message.
#[derive(Debug, Clone)]
pub enum HelpReply {
    Embed(HelpEmbed),
    Message(String),
}

/// The command a help request with `argument` asks about, if the member may see it.
pub open spec fn requested(commands: Seq<HelpCommand>, categories: Seq<Seq<char>>, permissions: u64,
    locale: Seq<char>, argument: Seq<char>) -> Option<HelpCommand>
{
    match walk(commands, locale, split_ws(argument), None) {
        Some(c) => if visible(c, permissions, categories) { Some(c) } else { None },
        None => None,
    }
}

/// Answers a help request. Without an argument: the list of the commands the
/// member may see. With one: the help of the command it names, or the
/// fallback message when it names none the member may see; `None` when the
/// command carries no metadata. `permission_text` names a set of permission
/// bits; the text's footer, if any, is set on the embed.
pub fn build_help_reply(argument: Option<&str>, commands: &Vec<HelpCommand>, categories: &Vec<String>,
    permissions: u64, locale: &str, text: &HelpLocalization, permission_text: impl Fn(u64) -> String) -> (r: Option<HelpReply>)
    requires
        forall|b: u64| permission_text.requires((b,)),
    ensures
        match argument {
            None => r matches Some(HelpReply::Embed(e))
                && e.title@ == text.title_command_list@
                && fields_view(e.fields@) == seq![(text.heading_command_list@,
                    list_body(sorted_by_name(visible_commands(commands@, permissions, strings_view(categories@)), locale@), locale@))]
                && e.description@ == text.description_command_list@,
            Some(a) => match requested(commands@, strings_view(categories@), permissions, locale@, a@) {
                None => r matches Some(HelpReply::Message(m)) && m@ == text.fallback_message@,
                Some(c) => match c.meta {
                    None => r is None,
                    Some(m) => r matches Some(HelpReply::Embed(e))
                        && e.title@ == to_words_spec(c.name_in(locale@))
                        && e.description@ == (match c.description_in(locale@) { Some(d) => d, None => text.none@ })
                        && exists|ut: String, bt: String|
                            permission_text.ensures((c.required_permissions | c.default_member_permissions,), ut)
                            && permission_text.ensures((c.required_bot_permissions,), bt)
                            && fields_view(e.fields@) == help_fields(c, m, locale@, *text, ut@, bt@),
                },
            },
        },
        r matches Some(HelpReply::Embed(e)) ==> match text.footer {
            Some(f) => e.footer matches Some(x) && x@ == f@,
            None => e.footer is None,
        },
{
    let footer = match text.footer {
        Some(f) => Some(f.to_owned()),
        None => None,
    };
    match argument {
        None => {
            let mut e = match build_command_list_help_embed(commands, categories, permissions, locale, text) {
                Some(e) => e,
                None => { return None; },
            };
            e.footer = footer;
            Some(HelpReply::Embed(e))
        },
        Some(a) => {
            let found = match find_command(commands, locale, a) {
                Some(c) => if is_visible(c, permissions, categories) { Some(c) } else { None },
                None => None,
            };
            match found {
                None => Some(HelpReply::Message(text.fallback_message.to_owned())),
                Some(c) => {
                    let ut = permission_text(c.required_permissions | c.default_member_permissions);
                    let bt = permission_text(c.required_bot_permissions);
                    match build_command_help_embed(c, locale, text, ut.as_str(), bt.as_str()) {
                        None => None,
                        Some(e) => {
                            let mut e = e;
                            e.footer = footer;
                            Some(HelpReply::Embed(e))
                        },
                    }
                },
            }
        },
    }
}

} // verus!
