//! The bot's persisted state: the build it last ran, the plugins each guild
//! enabled, and the users told where chatbot replies come from.
use vstd::prelude::*;
use crate::blueprint::strings_view;
use std::collections::{HashMap, HashSet};
use crate::text::{chars_of, substring, str_eq, copy_string};
use crate::num::{parse_u64, parse_u64_spec};

verus! {

broadcast use vstd::std_specs::hash::group_hash_axioms;

/// The guild ID that a guild's data file is named after: `<id>.bin`.
pub open spec fn guild_file_id(name: Seq<char>) -> Option<u64> {
    if name.len() >= 4 && name.skip(name.len() - 4) == ".bin"@ {
        parse_u64_spec(name.take(name.len() - 4))
    } else {
        None
    }
}

pub fn parse_file_name(name: &str) -> (r: Option<u64>)
    ensures r == guild_file_id(name@),
{
    let chars = chars_of(name);
    let n = chars.len();
    proof { reveal_strlit(".bin"); }
    if n < 4 || chars[n - 4] != '.' || chars[n - 3] != 'b' || chars[n - 2] != 'i' || chars[n - 1] != 'n' {
        proof {
            if n >= 4 && name@.skip(n - 4) == ".bin"@ {
                assert(name@.skip(n - 4)[0] == chars@[n - 4]);
                assert(name@.skip(n - 4)[1] == chars@[n - 3]);
                assert(name@.skip(n - 4)[2] == chars@[n - 2]);
                assert(name@.skip(n - 4)[3] == chars@[n - 1]);
            }
        }
        return None;
    }
    assert(name@.skip(n - 4) =~= ".bin"@);
    let stem = substring(&chars, 0, n - 4);
    assert(stem@ =~= name@.take(n - 4));
    parse_u64(stem.as_str())
}

/// A set of plugin names, without repeats.
pub open spec fn distinct_names(v: Seq<String>) -> bool {
    forall|i: int, j: int| 0 <= i < j < v.len() ==> (#[trigger] v[i])@ != (#[trigger] v[j])@
}

pub open spec fn name_set(v: Seq<String>) -> Set<Seq<char>> {
    Set::new(|n: Seq<char>| exists|i: int| 0 <= i < v.len() && (#[trigger] v[i])@ == n)
}

#[derive(Debug)]
pub struct Persist {
    build_id: u64,
    guild_plugins: HashMap<u64, Vec<String>>,
    /// The users who have been told that chatbot messages come from CleverBot.
    cleverbot_notified_users: HashSet<u64>,
}

impl Persist {
    /// The plugins of each guild are kept without repeats.
    pub closed spec fn wf(&self) -> bool {
        forall|g: u64| #[trigger] self.guild_plugins@.contains_key(g) ==> distinct_names(self.guild_plugins@[g]@)
    }

    /// The plugins each guild enabled.
    pub closed spec fn plugins(&self, guild: u64) -> Set<Seq<char>> {
        if self.guild_plugins@.contains_key(guild) { name_set(self.guild_plugins@[guild]@) } else { Set::empty() }
    }

    pub closed spec fn build(&self) -> u64 {
        self.build_id
    }

    pub fn build_id(&self) -> (r: u64)
        ensures r == self.build(),
    {
        self.build_id
    }

    pub closed spec fn notified(&self) -> Set<u64> {
        self.cleverbot_notified_users@
    }

    pub fn new() -> (r: Self)
        ensures
            r.wf(),
            r.build() == 0,
            r.notified() == Set::<u64>::empty(),
            forall|g: u64| #[trigger] r.plugins(g) == Set::<Seq<char>>::empty(),
    {
        let r = Persist { build_id: 0, guild_plugins: HashMap::new(), cleverbot_notified_users: HashSet::new() };
        assert forall|g: u64| #[trigger] r.plugins(g) == Set::<Seq<char>>::empty() by {
            assert(!r.guild_plugins@.contains_key(g));
        }
        r
    }

    /// Records the running build, returning the one recorded before.
    pub fn swap_build_id(&mut self, build_id: u64) -> (r: u64)
        requires old(self).wf(),
        ensures
            final(self).wf(),
            r == old(self).build(),
            final(self).build() == build_id,
            final(self).notified() == old(self).notified(),
            forall|g: u64| #[trigger] final(self).plugins(g) == old(self).plugins(g),
    {
        let previous = self.build_id;
        self.build_id = build_id;
        previous
    }

    /// Marks a user as told; whether they had not been told before.
    pub fn cleverbot_notify(&mut self, user_id: u64) -> (r: bool)
        requires old(self).wf(),
        ensures
            final(self).wf(),
            r == !old(self).notified().contains(user_id),
            final(self).notified() == old(self).notified().insert(user_id),
            final(self).build() == old(self).build(),
            forall|g: u64| #[trigger] final(self).plugins(g) == old(self).plugins(g),
    {
        self.cleverbot_notified_users.insert(user_id)
    }

    /// The plugins a guild enabled.
    pub fn get_guild_plugins(&self, guild: u64) -> (r: Vec<String>)
        requires self.wf(),
        ensures
            distinct_names(r@),
            name_set(r@) == self.plugins(guild),
    {
        match self.guild_plugins.get(&guild) {
            Some(v) => {
                let mut out: Vec<String> = Vec::new();
                let mut i: usize = 0;
                while i < v.len()
                    invariant
                        i <= v@.len(),
                        distinct_names(v@),
                        out@.len() == i,
                        forall|j: int| 0 <= j < i ==> (#[trigger] out@[j])@ == v@[j]@,
                    decreases v.len() - i,
                {
                    out.push(copy_string(&v[i]));
                    i = i + 1;
                }
                assert(name_set(out@) =~= name_set(v@)) by {
                    assert forall|n: Seq<char>| name_set(out@).contains(n) implies name_set(v@).contains(n) by {
                        let k = choose|k: int| 0 <= k < out@.len() && (#[trigger] out@[k])@ == n;
                        assert(v@[k]@ == n);
                    }
                    assert forall|n: Seq<char>| name_set(v@).contains(n) implies name_set(out@).contains(n) by {
                        let k = choose|k: int| 0 <= k < v@.len() && (#[trigger] v@[k])@ == n;
                        assert(out@[k]@ == n);
                    }
                }
                out
            },
            None => {
                assert(name_set(Seq::<String>::empty()) =~= Set::<Seq<char>>::empty());
                Vec::new()
            },
        }
    }

    /// Enables a plugin in a guild.
    pub fn enable_plugin(&mut self, guild: u64, plugin: &str)
        requires old(self).wf(),
        ensures
            final(self).wf(),
            final(self).plugins(guild) == old(self).plugins(guild).insert(plugin@),
            forall|g: u64| g != guild ==> #[trigger] final(self).plugins(g) == old(self).plugins(g),
            final(self).build() == old(self).build(),
            final(self).notified() == old(self).notified(),
    {
        let mut list = self.get_guild_plugins(guild);
        let ghost before = list@;
        let mut i: usize = 0;
        while i < list.len()
            invariant
                *self == *old(self),
                self.wf(),
                list@ == before,
                distinct_names(before),
                name_set(before) == old(self).plugins(guild),
                i <= list@.len(),
                forall|j: int| 0 <= j < i ==> (#[trigger] list@[j])@ != plugin@,
            decreases list.len() - i,
        {
            if str_eq(list[i].as_str(), plugin) {
                assert(name_set(list@).contains(plugin@));
                assert(name_set(list@).insert(plugin@) =~= name_set(list@));
                self.store(guild, list);
                return;
            }
            i = i + 1;
        }
        list.push(plugin.to_owned());
        assert forall|a: int, b: int| 0 <= a < b < list@.len() implies (#[trigger] list@[a])@ != (#[trigger] list@[b])@ by {
            if b < before.len() {
                assert(before[a]@ != before[b]@);
            }
        }
        assert(name_set(list@) =~= name_set(before).insert(plugin@)) by {
            assert forall|n: Seq<char>| name_set(list@).contains(n) implies name_set(before).insert(plugin@).contains(n) by {
                let k = choose|k: int| 0 <= k < list@.len() && (#[trigger] list@[k])@ == n;
                if k < before.len() { assert(before[k]@ == n); }
            }
            assert forall|n: Seq<char>| name_set(before).insert(plugin@).contains(n) implies name_set(list@).contains(n) by {
                if n == plugin@ {
                    assert(list@[before.len() as int]@ == n);
                } else {
                    let k = choose|k: int| 0 <= k < before.len() && (#[trigger] before[k])@ == n;
                    assert(list@[k]@ == n);
                }
            }
        }
        self.store(guild, list);
    }

    /// Disables a plugin in a guild.
    pub fn disable_plugin(&mut self, guild: u64, plugin: &str)
        requires old(self).wf(),
        ensures
            final(self).wf(),
            final(self).plugins(guild) == old(self).plugins(guild).remove(plugin@),
            forall|g: u64| g != guild ==> #[trigger] final(self).plugins(g) == old(self).plugins(g),
            final(self).build() == old(self).build(),
            final(self).notified() == old(self).notified(),
    {
        let list = self.get_guild_plugins(guild);
        let ghost before = list@;
        let mut kept: Vec<String> = Vec::new();
        let mut i: usize = 0;
        while i < list.len()
            invariant
                *self == *old(self),
                self.wf(),
                list@ == before,
                distinct_names(before),
                name_set(before) == old(self).plugins(guild),
                i <= list@.len(),
                distinct_names(kept@),
                forall|j: int| 0 <= j < kept@.len() ==> (#[trigger] kept@[j])@ != plugin@,
                name_set(kept@) == name_set(before.take(i as int)).remove(plugin@),
            decreases list.len() - i,
        {
            let ghost old_kept = kept@;
            if !str_eq(list[i].as_str(), plugin) {
                kept.push(copy_string(&list[i]));
                assert forall|a: int, b: int| 0 <= a < b < kept@.len() implies (#[trigger] kept@[a])@ != (#[trigger] kept@[b])@ by {
                    if b == old_kept.len() {
                        assert(name_set(old_kept).contains(kept@[a]@));
                        let k = choose|k: int| 0 <= k < i && (#[trigger] before.take(i as int)[k])@ == kept@[a]@;
                        assert(before[k]@ != before[i as int]@);
                    } else {
                        assert(old_kept[a]@ != old_kept[b]@);
                    }
                }
            }
            assert(name_set(kept@) =~= name_set(before.take(i + 1)).remove(plugin@)) by {
                assert forall|n: Seq<char>| name_set(kept@).contains(n) implies name_set(before.take(i + 1)).remove(plugin@).contains(n) by {
                    let k = choose|k: int| 0 <= k < kept@.len() && (#[trigger] kept@[k])@ == n;
                    if k < old_kept.len() {
                        assert(name_set(old_kept).contains(n));
                        let q = choose|q: int| 0 <= q < i && (#[trigger] before.take(i as int)[q])@ == n;
                        assert(before.take(i + 1)[q]@ == n);
                    } else {
                        assert(before.take(i + 1)[i as int]@ == n);
                    }
                }
                assert forall|n: Seq<char>| name_set(before.take(i + 1)).remove(plugin@).contains(n) implies name_set(kept@).contains(n) by {
                    let q = choose|q: int| 0 <= q < i + 1 && (#[trigger] before.take(i + 1)[q])@ == n;
                    if q < i {
                        assert(before.take(i as int)[q]@ == n);
                        assert(name_set(old_kept).contains(n));
                        let k = choose|k: int| 0 <= k < old_kept.len() && (#[trigger] old_kept[k])@ == n;
                        assert(kept@[k]@ == n);
                    } else {
                        assert(kept@[old_kept.len() as int]@ == n);
                    }
                }
            }
            i = i + 1;
        }
        assert(before.take(before.len() as int) =~= before);
        self.store(guild, kept);
    }

    fn store(&mut self, guild: u64, list: Vec<String>)
        requires old(self).wf(), distinct_names(list@),
        ensures
            final(self).wf(),
            final(self).plugins(guild) == name_set(list@),
            forall|g: u64| g != guild ==> #[trigger] final(self).plugins(g) == old(self).plugins(g),
            final(self).build() == old(self).build(),
            final(self).notified() == old(self).notified(),
    {
        self.guild_plugins.insert(guild, list);
    }
}

/// Enabling a plugin and then disabling it leaves the guild without it, and
/// with the other plugins it had.
pub proof fn law_enable_then_disable(before: Persist, enabled: Persist, disabled: Persist, guild: u64, plugin: Seq<char>)
    requires
        enabled.plugins(guild) == before.plugins(guild).insert(plugin),
        disabled.plugins(guild) == enabled.plugins(guild).remove(plugin),
    ensures
        !disabled.plugins(guild).contains(plugin),
        disabled.plugins(guild) == before.plugins(guild).remove(plugin),
{
    assert(disabled.plugins(guild) =~= before.plugins(guild).remove(plugin));
}

/// A plugin once enabled is listed among the guild's plugins, however often it is enabled.
pub proof fn law_enable_is_idempotent(before: Persist, once: Persist, twice: Persist, guild: u64, plugin: Seq<char>)
    requires
        once.plugins(guild) == before.plugins(guild).insert(plugin),
        twice.plugins(guild) == once.plugins(guild).insert(plugin),
    ensures
        twice.plugins(guild) == once.plugins(guild),
        once.plugins(guild).contains(plugin),
{
    assert(twice.plugins(guild) =~= once.plugins(guild));
}


/// A command of plugin `p` is available in a guild exactly when `p` is
/// enabled there: the plugin list handed out for the guild holds `p` exactly
/// when the guild's plugin set does.
pub proof fn law_plugin_gate(persist: Persist, guild: u64, listed: Seq<String>, p: Seq<char>)
    requires name_set(listed) == persist.plugins(guild),
    ensures strings_view(listed).contains(p) <==> persist.plugins(guild).contains(p),
{
    if strings_view(listed).contains(p) {
        let k = choose|k: int| 0 <= k < strings_view(listed).len() && strings_view(listed)[k] == p;
        assert(listed[k]@ == p);
        assert(name_set(listed).contains(p));
    }
    if persist.plugins(guild).contains(p) {
        assert(name_set(listed).contains(p));
        let k = choose|k: int| 0 <= k < listed.len() && (#[trigger] listed[k])@ == p;
        assert(strings_view(listed)[k] == p);
    }
}

/// Once a plugin is enabled in a guild, its commands are available there;
/// once it is disabled, they are not.
pub proof fn law_plugin_toggles_commands(
    before: Persist,
    after: Persist,
    guild: u64,
    listed: Seq<String>,
    p: Seq<char>,
    enabled: bool,
)
    requires
        after.plugins(guild) == (if enabled { before.plugins(guild).insert(p) } else { before.plugins(guild).remove(p) }),
        name_set(listed) == after.plugins(guild),
    ensures strings_view(listed).contains(p) == enabled,
{
    law_plugin_gate(after, guild, listed, p);
}

} // verus!
