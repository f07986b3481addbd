//! A guild's registered roles: grantable roles with the users and roles that
//! may grant them, and join roles given to members when they join.
use vstd::prelude::*;
use std::collections::HashMap;
use vstd::std_specs::iter::IteratorSpec;
use crate::roles::{grants, JoinRoleFilter, Granter, filter_name};
use crate::text::push_str;

verus! {

broadcast use {vstd::std_specs::hash::group_hash_axioms, vstd::string::group_string_axioms};

/// The grantable and join roles of a guild, by role ID.
#[derive(Debug)]
pub struct GuildRoles {
    grant_roles: HashMap<u64, Vec<Granter>>,
    join_roles: HashMap<u64, JoinRoleFilter>,
}

/// Whether `g` is in `v`.
pub open spec fn has_granter(v: Seq<Granter>, g: Granter) -> bool {
    v.contains(g)
}

fn index_of(v: &Vec<Granter>, g: Granter) -> (r: Option<usize>)
    ensures
        match r {
            Some(i) => i < v@.len() && v@[i as int] == g,
            None => !v@.contains(g),
        },
{
    let mut i: usize = 0;
    while i < v.len()
        invariant
            i <= v@.len(),
            forall|k: int| 0 <= k < i ==> v@[k] != g,
        decreases v.len() - i,
    {
        if v[i] == g {
            return Some(i);
        }
        i = i + 1;
    }
    None
}

/// The text of a role named in a reply: `` `@name` ``.
pub open spec fn at_name(name: Seq<char>) -> Seq<char> {
    "`@"@ + name + "`"@
}

fn push_at_name(s: &mut String, name: &str)
    ensures final(s)@ == old(s)@ + at_name(name@),
{
    let ghost start = s@;
    push_str(s, "`@");
    push_str(s, name);
    push_str(s, "`");
    assert(s@ =~= start + at_name(name@));
}

fn not_grantable(name: &str) -> (r: String)
    ensures r@ == not_grantable_text(name@),
{
    let mut s = String::from_str("The role ");
    push_at_name(&mut s, name);
    push_str(&mut s, " is not a grantable role");
    s
}

pub open spec fn not_grantable_text(name: Seq<char>) -> Seq<char> {
    "The role "@ + at_name(name) + " is not a grantable role"@
}

pub open spec fn granter_kind(g: Granter) -> Seq<char> {
    match g {
        Granter::Role(..) => "role"@,
        Granter::User(..) => "user"@,
    }
}

impl GuildRoles {
    /// The grantable roles, each with its granters.
    pub closed spec fn grants(&self) -> Map<u64, Set<Granter>> {
        self.grant_roles@.map_values(|v: Vec<Granter>| v@.to_set())
    }

    /// The join roles, each with the members it is given to.
    pub closed spec fn joins(&self) -> Map<u64, JoinRoleFilter> {
        self.join_roles@
    }

    /// No granter is listed twice for a role.
    pub closed spec fn wf(&self) -> bool {
        forall|k: u64| #[trigger] self.grant_roles@.contains_key(k) ==> self.grant_roles@[k]@.no_duplicates()
    }

    pub fn new() -> (r: Self)
        ensures
            r.wf(),
            r.grants() == Map::<u64, Set<Granter>>::empty(),
            r.joins() == Map::<u64, JoinRoleFilter>::empty(),
    {
        let r = GuildRoles { grant_roles: HashMap::new(), join_roles: HashMap::new() };
        assert(r.grants() =~= Map::<u64, Set<Granter>>::empty());
        r
    }

    /// Registers `role` (named `name`) as grantable, with no granters; a role
    /// already registered loses its granters.
    pub fn add_grant_role(&mut self, role: u64, name: &str) -> (r: String)
        requires old(self).wf(),
        ensures
            final(self).wf(),
            final(self).grants() == old(self).grants().insert(role, Set::empty()),
            final(self).joins() == old(self).joins(),
            r@ == if old(self).grants().contains_key(role) {
                "Reset granters for existing grant role "@ + at_name(name@)
            } else {
                "Created new grant role for "@ + at_name(name@) + " (Add granters with the `/grant-roles add-granter`)"@
            },
    {
        let existed = self.grant_roles.contains_key(&role);
        self.grant_roles.insert(role, Vec::new());
        proof {
            assert(Seq::<Granter>::empty().to_set() =~= Set::<Granter>::empty());
            assert(self.grants() =~= old(self).grants().insert(role, Set::empty()));
        }
        if existed {
            let mut s = String::from_str("Reset granters for existing grant role ");
            push_at_name(&mut s, name);
            s
        } else {
            let mut s = String::from_str("Created new grant role for ");
            push_at_name(&mut s, name);
            push_str(&mut s, " (Add granters with the `/grant-roles add-granter`)");
            s
        }
    }

    /// Removes `role` from the grantable roles.
    pub fn remove_grant_role(&mut self, role: u64, name: &str) -> (r: String)
        requires old(self).wf(),
        ensures
            final(self).wf(),
            final(self).grants() == old(self).grants().remove(role),
            final(self).joins() == old(self).joins(),
            r@ == if old(self).grants().contains_key(role) {
                "Removed existing grant role "@ + at_name(name@)
            } else {
                "No grant role for "@ + at_name(name@) + " was found"@
            },
    {
        let removed = self.grant_roles.remove(&role);
        assert(self.grants() =~= old(self).grants().remove(role));
        match removed {
            Some(_) => {
                let mut s = String::from_str("Removed existing grant role ");
                push_at_name(&mut s, name);
                s
            },
            None => {
                let mut s = String::from_str("No grant role for ");
                push_at_name(&mut s, name);
                push_str(&mut s, " was found");
                s
            },
        }
    }

    /// Adds `granter` (described as `description`) to those who may grant
    /// `role`, when `role` is grantable.
    pub fn add_granter(&mut self, role: u64, name: &str, granter: Granter, description: &str) -> (r: String)
        requires old(self).wf(),
        ensures
            final(self).wf(),
            final(self).joins() == old(self).joins(),
            if old(self).grants().contains_key(role) {
                &&& final(self).grants() == old(self).grants().insert(role, old(self).grants()[role].insert(granter))
                &&& r@ == if old(self).grants()[role].contains(granter) {
                    "That "@ + granter_kind(granter) + " is already a granter for grantable role "@ + at_name(name@)
                } else {
                    "Added "@ + description@ + " as a granter for grantable role "@ + at_name(name@)
                }
            } else {
                &&& final(self).grants() == old(self).grants()
                &&& r@ == not_grantable_text(name@)
            },
    {
        let mut list = match self.grant_roles.remove(&role) {
            Some(v) => v,
            None => {
                return not_grantable(name);
            },
        };
        let ghost before = list@;
        let present = match index_of(&list, granter) {
            Some(i) => {
                assert(before.contains(before[i as int]));
                true
            },
            None => false,
        };
        if !present {
            list.push(granter);
        }
        proof {
            assert(before.no_duplicates());
            if present {
                assert(list@.to_set() =~= before.to_set().insert(granter));
            } else {
                assert(list@ == before.push(granter));
                before.lemma_push_to_set_commute(granter);
                assert forall|a: int, b: int| 0 <= a < b < list@.len() implies list@[a] != list@[b] by {
                    if b == before.len() {
                        assert(before.contains(before[a]));
                    }
                }
            }
        }
        self.grant_roles.insert(role, list);
        assert(self.grants() =~= old(self).grants().insert(role, old(self).grants()[role].insert(granter)));
        proof {
            assert(old(self).grants()[role] == before.to_set());
            assert(before.to_set().contains(granter) == present);
        }
        if present {
            let mut t = String::from_str("That ");
            push_str(&mut t, granter.type_str());
            push_str(&mut t, " is already a granter for grantable role ");
            push_at_name(&mut t, name);
            t
        } else {
            let mut t = String::from_str("Added ");
            push_str(&mut t, description);
            push_str(&mut t, " as a granter for grantable role ");
            push_at_name(&mut t, name);
            t
        }
    }

    /// Removes `granter` (described as `description`) from those who may
    /// grant `role`, when `role` is grantable.
    pub fn remove_granter(&mut self, role: u64, name: &str, granter: Granter, description: &str) -> (r: String)
        requires old(self).wf(),
        ensures
            final(self).wf(),
            final(self).joins() == old(self).joins(),
            if old(self).grants().contains_key(role) {
                &&& final(self).grants() == old(self).grants().insert(role, old(self).grants()[role].remove(granter))
                &&& r@ == if old(self).grants()[role].contains(granter) {
                    "Removed "@ + description@ + " as a granter for grantable role "@ + at_name(name@)
                } else {
                    "That "@ + granter_kind(granter) + " is not a granter for grantable role "@ + at_name(name@)
                }
            } else {
                &&& final(self).grants() == old(self).grants()
                &&& r@ == not_grantable_text(name@)
            },
    {
        let mut list = match self.grant_roles.remove(&role) {
            Some(v) => v,
            None => {
                return not_grantable(name);
            },
        };
        let ghost before = list@;
        let found = index_of(&list, granter);
        match found {
            Some(i) => {
                list.remove(i);
                proof {
                    assert(before.no_duplicates());
                    assert(list@ == before.remove(i as int));
                    assert forall|x: Granter| list@.to_set().contains(x) == before.to_set().remove(granter).contains(x) by {
                        if x == granter {
                            if list@.contains(x) {
                                let k = choose|k: int| 0 <= k < list@.len() && list@[k] == x;
                                if k < i { assert(before[k] == x); } else { assert(before[k + 1] == x); }
                            }
                        } else if before.contains(x) {
                            let k = choose|k: int| 0 <= k < before.len() && before[k] == x;
                            if k < i { assert(list@[k] == x); } else { assert(list@[k - 1] == x); }
                        } else if list@.contains(x) {
                            let k = choose|k: int| 0 <= k < list@.len() && list@[k] == x;
                            if k < i { assert(before[k] == x); } else { assert(before[k + 1] == x); }
                        }
                    }
                    assert(list@.to_set() =~= before.to_set().remove(granter));
                    assert forall|a: int, b: int| 0 <= a < b < list@.len() implies list@[a] != list@[b] by {
                        let a0 = if a < i { a } else { a + 1 };
                        let b0 = if b < i { b } else { b + 1 };
                        assert(list@[a] == before[a0] && list@[b] == before[b0]);
                    }
                }
            },
            None => {
                proof {
                    assert(before.to_set() =~= before.to_set().remove(granter));
                }
            },
        }
        self.grant_roles.insert(role, list);
        assert(self.grants() =~= old(self).grants().insert(role, old(self).grants()[role].remove(granter)));
        let present = found.is_some();
        proof {
            assert(old(self).grants()[role] == before.to_set());
            if present {
                let i = found->0;
                assert(before.contains(before[i as int]));
            }
            assert(before.to_set().contains(granter) == present);
        }
        if present {
            let mut t = String::from_str("Removed ");
            push_str(&mut t, description);
            push_str(&mut t, " as a granter for grantable role ");
            push_at_name(&mut t, name);
            t
        } else {
            let mut t = String::from_str("That ");
            push_str(&mut t, granter.type_str());
            push_str(&mut t, " is not a granter for grantable role ");
            push_at_name(&mut t, name);
            t
        }
    }

    /// The granters of `role`, when it is grantable.
    pub fn granters_of(&self, role: u64) -> (r: Option<Vec<Granter>>)
        requires self.wf(),
        ensures
            match r {
                Some(v) => self.grants().contains_key(role) && v@.to_set() == self.grants()[role] && v@.no_duplicates(),
                None => !self.grants().contains_key(role),
            },
    {
        match self.grant_roles.get(&role) {
            Some(v) => {
                let mut out: Vec<Granter> = Vec::new();
                let mut i: usize = 0;
                while i < v.len()
                    invariant
                        i <= v@.len(),
                        out@ == v@.take(i as int),
                    decreases v.len() - i,
                {
                    out.push(v[i]);
                    assert(v@.take(i + 1) =~= v@.take(i as int).push(v@[i as int]));
                    i = i + 1;
                }
                assert(v@.take(i as int) =~= v@);
                Some(out)
            },
            None => None,
        }
    }

    /// Whether a member (a user with these roles) may grant `role`.
    pub fn may_grant(&self, role: u64, user: u64, member_roles: &Vec<u64>) -> (r: bool)
        ensures
            r == (self.grants().contains_key(role)
                && exists|g: Granter| #[trigger] self.grants()[role].contains(g) && grants(g, user, member_roles@)),
    {
        match self.grant_roles.get(&role) {
            Some(v) => {
                let r = crate::roles::is_granter(v, user, member_roles);
                proof {
                    assert(self.grants()[role] == v@.to_set());
                    if r {
                        let i = choose|i: int| 0 <= i < v@.len() && grants(#[trigger] v@[i], user, member_roles@);
                        assert(v@.contains(v@[i]));
                        assert(self.grants()[role].contains(v@[i]));
                    } else {
                        assert forall|g: Granter| #[trigger] self.grants()[role].contains(g) implies !grants(g, user, member_roles@) by {
                            assert(v@.contains(g));
                            let k = choose|k: int| 0 <= k < v@.len() && v@[k] == g;
                        }
                    }
                }
                r
            },
            None => false,
        }
    }

    /// Makes `role` a join role for the members `filter` takes.
    pub fn add_join_role(&mut self, role: u64, name: &str, filter: JoinRoleFilter) -> (r: String)
        requires old(self).wf(),
        ensures
            final(self).wf(),
            final(self).joins() == old(self).joins().insert(role, filter),
            final(self).grants() == old(self).grants(),
            r@ == if !old(self).joins().contains_key(role) {
                "Created new join role for "@ + at_name(name@) + " with filter `"@ + filter_name(filter) + "`"@
            } else if old(self).joins()[role] == filter {
                "A join role already exists for "@ + at_name(name@) + " with filter `"@ + filter_name(filter) + "`"@
            } else {
                "Replaced existing join role for "@ + at_name(name@) + " with filter `"@ + filter_name(filter) + "`"@
            },
    {
        let previous = self.join_roles.insert(role, filter);
        let mut s = match previous {
            None => String::from_str("Created new join role for "),
            Some(p) => if p == filter {
                String::from_str("A join role already exists for ")
            } else {
                String::from_str("Replaced existing join role for ")
            },
        };
        push_at_name(&mut s, name);
        push_str(&mut s, " with filter `");
        push_str(&mut s, filter.to_str());
        push_str(&mut s, "`");
        s
    }

    /// Stops giving `role` to members who join.
    pub fn remove_join_role(&mut self, role: u64, name: &str) -> (r: String)
        requires old(self).wf(),
        ensures
            final(self).wf(),
            final(self).joins() == old(self).joins().remove(role),
            final(self).grants() == old(self).grants(),
            r@ == if old(self).joins().contains_key(role) {
                "Removed existing join role for "@ + at_name(name@) + " with filter `"@ + filter_name(old(self).joins()[role]) + "`"@
            } else {
                "No join role for "@ + at_name(name@) + " was found"@
            },
    {
        let removed = self.join_roles.remove(&role);
        match removed {
            Some(f) => {
                let mut s = String::from_str("Removed existing join role for ");
                push_at_name(&mut s, name);
                push_str(&mut s, " with filter `");
                push_str(&mut s, f.to_str());
                push_str(&mut s, "`");
                s
            },
            None => {
                let mut s = String::from_str("No join role for ");
                push_at_name(&mut s, name);
                push_str(&mut s, " was found");
                s
            },
        }
    }

    /// The join roles with their filters, each once, in no particular order.
    pub fn join_role_entries(&self) -> (r: Vec<(u64, JoinRoleFilter)>)
        ensures
            forall|i: int| 0 <= i < r@.len() ==> self.joins().contains_key((#[trigger] r@[i]).0)
                && self.joins()[r@[i].0] == r@[i].1,
            forall|k: u64| #[trigger] self.joins().contains_key(k) ==> exists|i: int| 0 <= i < r@.len() && r@[i].0 == k,
            forall|i: int, j: int| 0 <= i < j < r@.len() ==> (#[trigger] r@[i]).0 != (#[trigger] r@[j]).0,
    {
        let mut out: Vec<(u64, JoinRoleFilter)> = Vec::new();
        let ghost all = vstd::std_specs::hash::spec_hash_map_iter(&self.join_roles).remaining();
        proof {
            broadcast use vstd::std_specs::hash::axiom_spec_hash_map_iter;
        }
        for (k, v) in it: self.join_roles.iter()
            invariant
                it.seq() == all,
                all == vstd::std_specs::hash::spec_hash_map_iter(&self.join_roles).remaining(),
                all.no_duplicates(),
                forall|n: int| 0 <= n < all.len() ==> self.join_roles@.contains_key(*(#[trigger] all[n]).0)
                    && self.join_roles@[*all[n].0] == *all[n].1,
                out@.len() == it.index(),
                forall|n: int| 0 <= n < out@.len() ==> (#[trigger] out@[n]) == (*all[n].0, *all[n].1),
        {
            out.push((*k, *v));
        }
        proof {
            broadcast use vstd::std_specs::hash::axiom_spec_hash_map_iter;
            assert forall|key: u64| #[trigger] self.joins().contains_key(key) implies
                exists|i: int| 0 <= i < out@.len() && out@[i].0 == key by {
                assert(all.contains((&key, &self.join_roles@[key])));
                let n = choose|n: int| 0 <= n < all.len() && all[n] == (&key, &self.join_roles@[key]);
                assert(out@[n].0 == key);
            }
            assert forall|i: int, j: int| 0 <= i < j < out@.len() implies (#[trigger] out@[i]).0 != (#[trigger] out@[j]).0 by {
                if out@[i].0 == out@[j].0 {
                    assert(*all[i].1 == self.join_roles@[*all[i].0]);
                    assert(*all[j].1 == self.join_roles@[*all[j].0]);
                    assert(all[i] == all[j]);
                }
            }
        }
        out
    }

    /// The join roles a joining member (a bot or not) is given, among the
    /// roles the guild still has (`existing`), and the join roles the guild
    /// no longer has, which its records keep no longer.
    pub fn take_join_roles(&mut self, is_bot: bool, existing: &Vec<u64>) -> (r: (Vec<u64>, Vec<u64>))
        requires old(self).wf(),
        ensures
            final(self).wf(),
            final(self).grants() == old(self).grants(),
            forall|k: u64| #[trigger] r.0@.contains(k) <==> (old(self).joins().contains_key(k)
                && old(self).joins()[k].applies_spec(is_bot) && existing@.contains(k)),
            forall|k: u64| #[trigger] r.1@.contains(k) <==> (old(self).joins().contains_key(k)
                && old(self).joins()[k].applies_spec(is_bot) && !existing@.contains(k)),
            final(self).joins() == old(self).joins().remove_keys(r.1@.to_set()),
    {
        let entries = self.join_role_entries();
        let mut give: Vec<u64> = Vec::new();
        let mut missing: Vec<u64> = Vec::new();
        let mut i: usize = 0;
        while i < entries.len()
            invariant
                *self == *old(self),
                i <= entries@.len(),
                forall|n: int| 0 <= n < entries@.len() ==> self.joins().contains_key((#[trigger] entries@[n]).0)
                    && self.joins()[entries@[n].0] == entries@[n].1,
                forall|k: u64| #[trigger] give@.contains(k) <==> picks(entries@, i as int, k, is_bot, existing@, true),
                forall|k: u64| #[trigger] missing@.contains(k) <==> picks(entries@, i as int, k, is_bot, existing@, false),
            decreases entries.len() - i,
        {
            let (k, f) = entries[i];
            let ghost give0 = give@;
            let ghost missing0 = missing@;
            if f.applies(is_bot) {
                if vec_has(existing, k) {
                    give.push(k);
                } else {
                    missing.push(k);
                }
            }
            proof {
                assert forall|x: u64| #[trigger] give@.contains(x) <==> picks(entries@, i + 1, x, is_bot, existing@, true) by {
                    lemma_picks_step(entries@, i as int, x, is_bot, existing@, true);
                    if give@.contains(x) && give@ != give0 {
                        if x != k {
                            let q = choose|q: int| 0 <= q < give@.len() && give@[q] == x;
                            assert(give0[q] == x);
                        }
                    }
                    if give0.contains(x) {
                        let q = choose|q: int| 0 <= q < give0.len() && give0[q] == x;
                        assert(give@[q] == x);
                    }
                    if give@ != give0 {
                        assert(give@[give0.len() as int] == k);
                    }
                }
                assert forall|x: u64| #[trigger] missing@.contains(x) <==> picks(entries@, i + 1, x, is_bot, existing@, false) by {
                    lemma_picks_step(entries@, i as int, x, is_bot, existing@, false);
                    if missing@.contains(x) && missing@ != missing0 {
                        if x != k {
                            let q = choose|q: int| 0 <= q < missing@.len() && missing@[q] == x;
                            assert(missing0[q] == x);
                        }
                    }
                    if missing0.contains(x) {
                        let q = choose|q: int| 0 <= q < missing0.len() && missing0[q] == x;
                        assert(missing@[q] == x);
                    }
                    if missing@ != missing0 {
                        assert(missing@[missing0.len() as int] == k);
                    }
                }
            }
            i = i + 1;
        }
        let ghost joins0 = self.joins();
        proof {
            assert forall|k: u64| #[trigger] give@.contains(k) <==> (joins0.contains_key(k)
                && joins0[k].applies_spec(is_bot) && existing@.contains(k)) by {
                if joins0.contains_key(k) {
                    let n = choose|n: int| 0 <= n < entries@.len() && entries@[n].0 == k;
                    assert(entries@[n].1 == joins0[k]);
                }
                if give@.contains(k) {
                    let n = choose|n: int| 0 <= n < entries@.len() && #[trigger] entries@[n].0 == k
                        && entries@[n].1.applies_spec(is_bot) && existing@.contains(k) == true;
                }
            }
            assert forall|k: u64| #[trigger] missing@.contains(k) <==> (joins0.contains_key(k)
                && joins0[k].applies_spec(is_bot) && !existing@.contains(k)) by {
                if joins0.contains_key(k) {
                    let n = choose|n: int| 0 <= n < entries@.len() && entries@[n].0 == k;
                    assert(entries@[n].1 == joins0[k]);
                }
                if missing@.contains(k) {
                    let n = choose|n: int| 0 <= n < entries@.len() && #[trigger] entries@[n].0 == k
                        && entries@[n].1.applies_spec(is_bot) && existing@.contains(k) == false;
                }
            }
        }
        let mut j: usize = 0;
        while j < missing.len()
            invariant
                j <= missing@.len(),
                self.grants() == old(self).grants(),
                self.wf(),
                self.joins() == joins0.remove_keys(missing@.take(j as int).to_set()),
            decreases missing.len() - j,
        {
            let k = missing[j];
            self.join_roles.remove(&k);
            assert(missing@.take(j + 1) =~= missing@.take(j as int).push(k));
            proof { missing@.take(j as int).lemma_push_to_set_commute(k); }
            assert(self.joins() =~= joins0.remove_keys(missing@.take(j + 1).to_set()));
            j = j + 1;
        }
        assert(missing@.take(j as int) =~= missing@);
        (give, missing)
    }
}

/// Whether one of the first `upto` entries is the join role `x`, given to
/// this member, and among the existing roles or not (as `present` says).
pub open spec fn picks(entries: Seq<(u64, JoinRoleFilter)>, upto: int, x: u64, is_bot: bool, existing: Seq<u64>, present: bool) -> bool {
    exists|n: int| 0 <= n < upto && #[trigger] entries[n].0 == x && entries[n].1.applies_spec(is_bot)
        && existing.contains(x) == present
}

proof fn lemma_picks_step(entries: Seq<(u64, JoinRoleFilter)>, i: int, x: u64, is_bot: bool, existing: Seq<u64>, present: bool)
    requires 0 <= i < entries.len(),
    ensures
        picks(entries, i + 1, x, is_bot, existing, present) == (picks(entries, i, x, is_bot, existing, present)
            || (entries[i].0 == x && entries[i].1.applies_spec(is_bot) && existing.contains(x) == present)),
{
    if picks(entries, i + 1, x, is_bot, existing, present) {
        let n = choose|n: int| 0 <= n < i + 1 && #[trigger] entries[n].0 == x && entries[n].1.applies_spec(is_bot)
            && existing.contains(x) == present;
        if n < i {
            assert(picks(entries, i, x, is_bot, existing, present));
        }
    }
    if picks(entries, i, x, is_bot, existing, present) {
        let n = choose|n: int| 0 <= n < i && #[trigger] entries[n].0 == x && entries[n].1.applies_spec(is_bot)
            && existing.contains(x) == present;
        assert(picks(entries, i + 1, x, is_bot, existing, present));
    }
    if entries[i].0 == x && entries[i].1.applies_spec(is_bot) && existing.contains(x) == present {
        assert(picks(entries, i + 1, x, is_bot, existing, present));
    }
}

fn vec_has(v: &Vec<u64>, x: u64) -> (r: bool)
    ensures r == v@.contains(x),
{
    let mut i: usize = 0;
    while i < v.len()
        invariant
            i <= v@.len(),
            forall|k: int| 0 <= k < i ==> v@[k] != x,
        decreases v.len() - i,
    {
        if v[i] == x {
            return true;
        }
        i = i + 1;
    }
    false
}

/// Whether a member may change a role through the role commands.
#[derive(Debug, Clone, Copy, PartialEq, Eq, Structural)]
pub enum RoleGate {
    /// The role is managed by an integration and may not be used.
    Managed,
    /// The role is not below the member's highest role (and they do not own the bot).
    UserTooLow,
    Proceed,
}

pub open spec fn role_gate_spec(managed: bool, role_position: u16, user_position: u16, is_owner: bool) -> RoleGate {
    if managed {
        RoleGate::Managed
    } else if role_position >= user_position && !is_owner {
        RoleGate::UserTooLow
    } else {
        RoleGate::Proceed
    }
}

pub fn role_gate(managed: bool, role_position: u16, user_position: u16, is_owner: bool) -> (r: RoleGate)
    ensures r == role_gate_spec(managed, role_position, user_position, is_owner),
{
    if managed {
        RoleGate::Managed
    } else if role_position >= user_position && !is_owner {
        RoleGate::UserTooLow
    } else {
        RoleGate::Proceed
    }
}

pub open spec fn gate_refusal(g: RoleGate) -> Option<Seq<char>> {
    match g {
        RoleGate::Managed => Some("The role you have specified is a managed role and may not be used"@),
        RoleGate::UserTooLow => Some("The role you have specified is above your highest role and not modifiable by you"@),
        RoleGate::Proceed => None,
    }
}

/// What a member is told when the role may not be changed.
pub fn gate_refusal_text(g: RoleGate) -> (r: Option<String>)
    ensures
        match gate_refusal(g) {
            Some(t) => r matches Some(x) && x@ == t,
            None => r is None,
        },
{
    match g {
        RoleGate::Managed => Some(String::from_str("The role you have specified is a managed role and may not be used")),
        RoleGate::UserTooLow => Some(String::from_str("The role you have specified is above your highest role and not modifiable by you")),
        RoleGate::Proceed => None,
    }
}

pub open spec fn bot_too_low_text() -> Seq<char> {
    "The role you have specified is above my highest role and inaccessible to me"@
}

/// A reply, with a warning added when the role is not below the bot's highest role.
pub fn with_bot_position_note(response: String, role_position: u16, bot_position: u16) -> (r: String)
    ensures
        r@ == if role_position >= bot_position { response@ + "\n"@ + bot_too_low_text() } else { response@ },
{
    let mut r = response;
    if role_position >= bot_position {
        push_str(&mut r, "\n");
        push_str(&mut r, "The role you have specified is above my highest role and inaccessible to me");
    }
    r
}

pub open spec fn role_change_text(granting: bool, allowed: bool, done: bool, role: Seq<char>, user: Seq<char>) -> Seq<char> {
    if !allowed {
        if granting { "You cannot grant this role"@ } else { "You cannot revoke this role"@ }
    } else if granting {
        (if done { "Granted role "@ } else { "Failed to grant role "@ }) + at_name(role) + " to user "@ + at_name(user)
    } else {
        (if done { "Revoked role "@ } else { "Failed to revoke role "@ }) + at_name(role) + " from user "@ + at_name(user)
    }
}

/// The reply to granting (or revoking) role `role` to (from) user `user`:
/// whether the member may do it, and whether it was done.
pub fn role_change_reply(granting: bool, allowed: bool, done: bool, role: &str, user: &str) -> (r: String)
    ensures r@ == role_change_text(granting, allowed, done, role@, user@),
{
    if !allowed {
        return if granting { String::from_str("You cannot grant this role") } else { String::from_str("You cannot revoke this role") };
    }
    let mut s = if granting {
        if done { String::from_str("Granted role ") } else { String::from_str("Failed to grant role ") }
    } else {
        if done { String::from_str("Revoked role ") } else { String::from_str("Failed to revoke role ") }
    };
    push_at_name(&mut s, role);
    if granting {
        push_str(&mut s, " to user ");
    } else {
        push_str(&mut s, " from user ");
    }
    push_at_name(&mut s, user);
    s
}

/// The granters of one role: the list, or that the role is not grantable.
pub open spec fn role_granters_text(name: Seq<char>, granters_list: Option<Seq<char>>) -> Seq<char> {
    match granters_list {
        Some(l) => "The role "@ + at_name(name) + " has the following granters:\n"@ + l,
        None => not_grantable_text(name),
    }
}

pub fn role_granters_reply(name: &str, granters_list: Option<&str>) -> (r: String)
    ensures r@ == role_granters_text(name@, crate::roles::opt_str(granters_list)),
{
    match granters_list {
        Some(l) => {
            let mut s = String::from_str("The role ");
            push_at_name(&mut s, name);
            push_str(&mut s, " has the following granters:\n");
            push_str(&mut s, l);
            s
        },
        None => not_grantable(name),
    }
}

/// Adding a granter to a grantable role and then removing it leaves the role
/// without that granter and with every other granter it had.
pub proof fn law_granter_round_trip(a: GuildRoles, b: GuildRoles, c: GuildRoles, role: u64, g: Granter)
    requires
        a.grants().contains_key(role),
        b.grants() == a.grants().insert(role, a.grants()[role].insert(g)),
        c.grants() == b.grants().insert(role, b.grants()[role].remove(g)),
    ensures
        c.grants() == a.grants().insert(role, a.grants()[role].remove(g)),
        !c.grants()[role].contains(g),
{
    assert(a.grants()[role].insert(g).remove(g) =~= a.grants()[role].remove(g));
    assert(c.grants() =~= a.grants().insert(role, a.grants()[role].remove(g)));
}

/// Adding a join role and then removing it leaves the other join roles as they were.
pub proof fn law_join_role_round_trip(a: GuildRoles, b: GuildRoles, c: GuildRoles, role: u64, f: JoinRoleFilter)
    requires
        b.joins() == a.joins().insert(role, f),
        c.joins() == b.joins().remove(role),
    ensures
        c.joins() == a.joins().remove(role),
        !c.joins().contains_key(role),
{
    assert(c.joins() =~= a.joins().remove(role));
}

} // verus!
