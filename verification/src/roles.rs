//! Which members a join role is given to.
use vstd::prelude::*;
use crate::text::{str_eq, push_str};
use crate::num::{decimal, push_decimal};
use crate::blueprint_args::{RoleOrUser, RoleId, UserId};

verus! {

broadcast use vstd::string::group_string_axioms;

#[derive(Debug, Clone, Copy, PartialEq, Eq, Structural)]
pub enum JoinRoleFilter {
    All,
    Bots,
    Humans,
}

/// The name under which each filter is written.
pub open spec fn filter_name(f: JoinRoleFilter) -> Seq<char> {
    match f {
        JoinRoleFilter::All => "all"@,
        JoinRoleFilter::Bots => "bots"@,
        JoinRoleFilter::Humans => "humans"@,
    }
}

impl JoinRoleFilter {
    /// Whether a member (a bot or not) is one the filter takes.
    pub open spec fn applies_spec(self, is_bot: bool) -> bool {
        match self {
            JoinRoleFilter::All => true,
            JoinRoleFilter::Bots => is_bot,
            JoinRoleFilter::Humans => !is_bot,
        }
    }

    pub fn applies(self, is_bot: bool) -> (r: bool)
        ensures r == self.applies_spec(is_bot),
    {
        match self {
            JoinRoleFilter::All => true,
            JoinRoleFilter::Bots => is_bot,
            JoinRoleFilter::Humans => !is_bot,
        }
    }

    /// The filter whose name is exactly `s`.
    pub fn from_str(s: &str) -> (r: Option<JoinRoleFilter>)
        ensures
            match r {
                Some(f) => filter_name(f) == s@,
                None => forall|f: JoinRoleFilter| filter_name(f) != s@,
            },
    {
        proof {
            reveal_strlit("all");
            reveal_strlit("bots");
            reveal_strlit("humans");
        }
        if str_eq(s, "all") {
            Some(JoinRoleFilter::All)
        } else if str_eq(s, "bots") {
            Some(JoinRoleFilter::Bots)
        } else if str_eq(s, "humans") {
            Some(JoinRoleFilter::Humans)
        } else {
            proof {
                assert forall|f: JoinRoleFilter| filter_name(f) != s@ by {
                    match f {
                        JoinRoleFilter::All => {},
                        JoinRoleFilter::Bots => {},
                        JoinRoleFilter::Humans => {},
                    }
                }
            }
            None
        }
    }

    pub fn to_str(self) -> (r: &'static str)
        ensures r@ == filter_name(self),
    {
        match self {
            JoinRoleFilter::All => "all",
            JoinRoleFilter::Bots => "bots",
            JoinRoleFilter::Humans => "humans",
        }
    }
}

/// Reading back the name of a filter gives the filter.
pub proof fn law_filter_name_round_trip(f: JoinRoleFilter, g: JoinRoleFilter)
    ensures filter_name(f) == filter_name(g) ==> f == g,
{
    reveal_strlit("all");
    reveal_strlit("bots");
    reveal_strlit("humans");
    if filter_name(f) == filter_name(g) {
        assert(filter_name(f).len() == filter_name(g).len());
        match (f, g) {
            (JoinRoleFilter::All, JoinRoleFilter::Bots) => {},
            (JoinRoleFilter::Bots, JoinRoleFilter::All) => {},
            _ => {},
        }
    }
}

/// Who may grant a role: the members of a role, or one user.
#[derive(Debug, Clone, Copy, PartialEq, Eq, Structural)]
pub enum Granter {
    Role(RoleId),
    User(UserId),
}

impl Granter {
    pub fn type_str(self) -> (r: &'static str)
        ensures r@ == match self { Granter::Role(..) => "role"@, Granter::User(..) => "user"@ },
    {
        match self {
            Granter::Role(..) => "role",
            Granter::User(..) => "user",
        }
    }

    pub fn from_role_or_user(v: RoleOrUser) -> (r: Granter)
        ensures
            r == match v { RoleOrUser::Role(x) => Granter::Role(x), RoleOrUser::User(u) => Granter::User(u) },
    {
        match v {
            RoleOrUser::Role(x) => Granter::Role(x),
            RoleOrUser::User(u) => Granter::User(u),
        }
    }
}

/// Whether a granter covers a member: the member is the granting user, or has the granting role.
pub open spec fn grants(g: Granter, user: u64, roles: Seq<u64>) -> bool {
    match g {
        Granter::User(u) => u.0 == user,
        Granter::Role(r) => roles.contains(r.0),
    }
}

/// Whether any of the granters covers the member.
pub fn is_granter(granters: &Vec<Granter>, user: u64, member_roles: &Vec<u64>) -> (r: bool)
    ensures r == exists|i: int| 0 <= i < granters@.len() && grants(#[trigger] granters@[i], user, member_roles@),
{
    let mut i: usize = 0;
    while i < granters.len()
        invariant
            i <= granters@.len(),
            forall|j: int| 0 <= j < i ==> !grants(#[trigger] granters@[j], user, member_roles@),
        decreases granters.len() - i,
    {
        let covered = match granters[i] {
            Granter::User(u) => u.0 == user,
            Granter::Role(x) => {
                let mut k: usize = 0;
                let mut found = false;
                while k < member_roles.len()
                    invariant
                        k <= member_roles@.len(),
                        found == exists|q: int| 0 <= q < k && member_roles@[q] == x.0,
                    decreases member_roles.len() - k,
                {
                    if member_roles[k] == x.0 {
                        found = true;
                    }
                    k = k + 1;
                }
                found
            },
        };
        if covered {
            assert(grants(granters@[i as int], user, member_roles@));
            return true;
        }
        i = i + 1;
    }
    false
}

/// How a role is named: by its name when it is known, else by its ID.
pub open spec fn role_text(id: u64, name: Option<Seq<char>>) -> Seq<char> {
    match name {
        Some(n) => "role `@"@ + n + "`"@,
        None => "role `"@ + decimal(id as nat) + "`"@,
    }
}

/// How a user is named: by their name when it is known, else by their ID.
pub open spec fn user_text(id: u64, name: Option<Seq<char>>) -> Seq<char> {
    match name {
        Some(n) => "user `@"@ + n + "`"@,
        None => "user `"@ + decimal(id as nat) + "`"@,
    }
}

pub open spec fn opt_str(o: Option<&str>) -> Option<Seq<char>> {
    match o {
        Some(s) => Some(s@),
        None => None,
    }
}

pub fn role_description(role_id: u64, name: Option<&str>) -> (r: String)
    ensures r@ == role_text(role_id, opt_str(name)),
{
    match name {
        Some(n) => {
            let mut s = String::from_str("role `@");
            push_str(&mut s, n);
            push_str(&mut s, "`");
            s
        },
        None => {
            let mut s = String::from_str("role `");
            push_decimal(&mut s, role_id);
            push_str(&mut s, "`");
            s
        },
    }
}

pub fn user_description(user_id: u64, name: Option<&str>) -> (r: String)
    ensures r@ == user_text(user_id, opt_str(name)),
{
    match name {
        Some(n) => {
            let mut s = String::from_str("user `@");
            push_str(&mut s, n);
            push_str(&mut s, "`");
            s
        },
        None => {
            let mut s = String::from_str("user `");
            push_decimal(&mut s, user_id);
            push_str(&mut s, "`");
            s
        },
    }
}

pub open spec fn strs(v: Seq<String>) -> Seq<Seq<char>> {
    v.map_values(|s: String| s@)
}

/// The items joined by `sep`.
pub open spec fn joined(v: Seq<Seq<char>>, sep: Seq<char>) -> Seq<char>
    decreases v.len(),
{
    if v.len() == 0 {
        seq![]
    } else if v.len() == 1 {
        v[0]
    } else {
        joined(v.drop_last(), sep) + sep + v.last()
    }
}

/// The granters of a role, by their descriptions: joined by commas, or `none`.
pub fn stringify_granters_list(descriptions: &Vec<String>) -> (r: String)
    ensures r@ == if descriptions@.len() == 0 { "none"@ } else { joined(strs(descriptions@), ", "@) },
{
    if descriptions.len() == 0 {
        return String::from_str("none");
    }
    let r = crate::help::join_strings(descriptions, ", ");
    assert(crate::help::strings_view(descriptions@) =~= strs(descriptions@));
    proof { lemma_joined_same(strs(descriptions@), ", "@); }
    r
}

/// The heading of a list of `n` registered roles of a kind (`grantable` or `join`),
/// then one line per role.
pub open spec fn role_list(kind: Seq<char>, lines: Seq<Seq<char>>) -> Seq<char> {
    if lines.len() == 0 {
        "There are no "@ + kind + " roles registered"@
    } else {
        joined(seq!["There are "@ + decimal(lines.len() as nat) + " "@ + kind + " roles:"@] + lines, "\n"@)
    }
}

fn role_list_text(kind: &str, lines: Vec<String>) -> (r: String)
    ensures r@ == role_list(kind@, strs(lines@)),
{
    if lines.len() == 0 {
        let mut s = String::from_str("There are no ");
        push_str(&mut s, kind);
        push_str(&mut s, " roles registered");
        return s;
    }
    let mut head = String::from_str("There are ");
    push_decimal(&mut head, lines.len() as u64);
    push_str(&mut head, " ");
    push_str(&mut head, kind);
    push_str(&mut head, " roles:");
    let ghost h = head@;
    let mut all: Vec<String> = Vec::new();
    all.push(head);
    let mut i: usize = 0;
    while i < lines.len()
        invariant
            i <= lines@.len(),
            strs(all@) == seq![h] + strs(lines@).take(i as int),
        decreases lines.len() - i,
    {
        let ghost before = strs(all@);
        all.push(crate::text::copy_string(&lines[i]));
        assert(strs(all@) =~= before.push(lines@[i as int]@));
        assert(strs(lines@).take(i + 1) =~= strs(lines@).take(i as int).push(lines@[i as int]@));
        i = i + 1;
    }
    assert(strs(lines@).take(lines@.len() as int) =~= strs(lines@));
    let r = crate::help::join_strings(&all, "\n");
    assert(crate::help::strings_view(all@) =~= strs(all@));
    proof { lemma_joined_same(strs(all@), "\n"@); }
    r
}

proof fn lemma_joined_same(v: Seq<Seq<char>>, sep: Seq<char>)
    ensures crate::help::join_with(v, sep) == joined(v, sep),
    decreases v.len(),
{
    if v.len() > 1 {
        lemma_joined_same(v.drop_last(), sep);
    }
}

/// The grantable roles: for each, its description and its granters' list.
pub fn stringify_grant_roles(entries: &Vec<(String, String)>) -> (r: String)
    ensures
        r@ == role_list("grantable"@, entries@.map_values(|e: (String, String)| "- "@ + e.0@ + ": "@ + e.1@)),
{
    let mut lines: Vec<String> = Vec::new();
    let mut i: usize = 0;
    while i < entries.len()
        invariant
            i <= entries@.len(),
            strs(lines@) == entries@.take(i as int).map_values(|e: (String, String)| "- "@ + e.0@ + ": "@ + e.1@),
        decreases entries.len() - i,
    {
        let mut line = String::from_str("- ");
        push_str(&mut line, entries[i].0.as_str());
        push_str(&mut line, ": ");
        push_str(&mut line, entries[i].1.as_str());
        let ghost before = strs(lines@);
        let ghost lv = line@;
        lines.push(line);
        assert(strs(lines@) =~= before.push(lv));
        assert(entries@.take(i + 1) =~= entries@.take(i as int).push(entries@[i as int]));
        assert(entries@.take(i as int).push(entries@[i as int]).map_values(|e: (String, String)| "- "@ + e.0@ + ": "@ + e.1@)
            =~= entries@.take(i as int).map_values(|e: (String, String)| "- "@ + e.0@ + ": "@ + e.1@).push(lv));
        i = i + 1;
    }
    assert(entries@.take(entries@.len() as int) =~= entries@);
    role_list_text("grantable", lines)
}

/// The join roles: for each, its description and its filter.
pub fn stringify_join_roles(entries: &Vec<(String, JoinRoleFilter)>) -> (r: String)
    ensures
        r@ == role_list("join"@, entries@.map_values(|e: (String, JoinRoleFilter)| "- "@ + e.0@ + ": `"@ + filter_name(e.1) + "`"@)),
{
    let mut lines: Vec<String> = Vec::new();
    let mut i: usize = 0;
    while i < entries.len()
        invariant
            i <= entries@.len(),
            strs(lines@) == entries@.take(i as int).map_values(|e: (String, JoinRoleFilter)| "- "@ + e.0@ + ": `"@ + filter_name(e.1) + "`"@),
        decreases entries.len() - i,
    {
        let mut line = String::from_str("- ");
        push_str(&mut line, entries[i].0.as_str());
        push_str(&mut line, ": `");
        push_str(&mut line, entries[i].1.to_str());
        push_str(&mut line, "`");
        let ghost before = strs(lines@);
        let ghost lv = line@;
        lines.push(line);
        assert(strs(lines@) =~= before.push(lv));
        assert(entries@.take(i + 1) =~= entries@.take(i as int).push(entries@[i as int]));
        assert(entries@.take(i as int).push(entries@[i as int]).map_values(|e: (String, JoinRoleFilter)| "- "@ + e.0@ + ": `"@ + filter_name(e.1) + "`"@)
            =~= entries@.take(i as int).map_values(|e: (String, JoinRoleFilter)| "- "@ + e.0@ + ": `"@ + filter_name(e.1) + "`"@).push(lv));
        i = i + 1;
    }
    assert(entries@.take(entries@.len() as int) =~= entries@);
    role_list_text("join", lines)
}

/// The highest position among a member's roles (0 when none is known).
pub fn member_role_position(positions: &Vec<u16>) -> (r: u16)
    ensures
        forall|i: int| 0 <= i < positions@.len() ==> positions@[i] <= r,
        positions@.len() == 0 ==> r == 0,
        positions@.len() > 0 ==> positions@.contains(r),
{
    let mut best: u16 = 0;
    let mut i: usize = 0;
    while i < positions.len()
        invariant
            i <= positions@.len(),
            forall|j: int| 0 <= j < i ==> positions@[j] <= best,
            i == 0 ==> best == 0,
            i > 0 ==> positions@.take(i as int).contains(best),
        decreases positions.len() - i,
    {
        if i == 0 || positions[i] > best {
            best = positions[i];
            assert(positions@.take(i + 1)[i as int] == best);
        } else {
            let ghost k = choose|k: int| 0 <= k < i && positions@.take(i as int)[k] == best;
            assert(positions@.take(i + 1)[k] == best);
        }
        i = i + 1;
    }
    proof {
        if positions@.len() > 0 {
            let k = choose|k: int| 0 <= k < positions@.len() && positions@.take(positions@.len() as int)[k] == best;
            assert(positions@[k] == best);
        }
    }
    best
}

} // verus!
