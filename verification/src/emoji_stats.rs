//! How often each custom emoji of a guild is used.
use vstd::prelude::*;
use std::collections::HashMap;
use crate::clock::now_precise;
use vstd::std_specs::iter::IteratorSpec;

verus! {

broadcast use vstd::std_specs::hash::group_hash_axioms;

/// Hashes an emoji, a user and whether the emoji was added, with `ahash`'s
/// `AHasher::default()`, whose keys are drawn at random once per process:
/// nothing is claimed of the value.
#[verifier::external_body]
fn hash_interaction(emoji_id: u64, user_id: u64, state: bool) -> u64 {
    let mut hasher = ahash::AHasher::default();
    std::hash::Hash::hash(&emoji_id, &mut hasher);
    std::hash::Hash::hash(&user_id, &mut hasher);
    std::hash::Hash::hash(&state, &mut hasher);
    std::hash::Hasher::finish(&hasher)
}

/// The whole seconds in `d` nanoseconds, rounded toward zero.
pub open spec fn whole_seconds(d: int) -> int {
    if d >= 0 { d / 1_000_000_000 } else { -((-d) / 1_000_000_000) }
}

/// The last counted interaction: its hash and when it came, in nanoseconds since the epoch.
#[derive(Debug, Clone, Copy, PartialEq, Eq, Structural)]
pub struct EmojiInteraction {
    pub hash: u64,
    pub time: i128,
}

impl EmojiInteraction {
    /// A new interaction counts unless it repeats this one within five whole seconds.
    pub open spec fn allows(self, hash: u64, now: i128) -> bool {
        self.hash != hash || whole_seconds(now - self.time) > 5
    }

    pub fn is_valid(self, hash: u64, now: i128) -> (r: bool)
        requires
            -0x10_0000_0000_0000_0000_0000_0000 <= self.time <= 0x10_0000_0000_0000_0000_0000_0000,
            -0x10_0000_0000_0000_0000_0000_0000 <= now <= 0x10_0000_0000_0000_0000_0000_0000,
        ensures r == self.allows(hash, now),
    {
        self.hash != hash || now - self.time >= 6_000_000_000
    }
}

/// The uses of each emoji, and the last interaction that was counted.
#[derive(Debug)]
pub struct EmojiStats {
    uses: HashMap<u64, usize>,
    last_interaction: Option<EmojiInteraction>,
}

/// The time of a clock reading, in nanoseconds since the epoch.
pub open spec fn nanos_of(secs: i64, nanos: u32) -> int {
    secs * 1_000_000_000 + nanos
}

/// Whether `before` counted a new interaction `hash` at `now`: always when
/// there was none, else unless it repeats the last one within five seconds.
pub open spec fn counts(before: EmojiStats, hash: u64, now: i128) -> bool {
    match before.last() {
        Some(i) => i.allows(hash, now),
        None => true,
    }
}

/// `after` is `before` once the interaction `hash` at `now` added a use of
/// `emoji_id`.
pub open spec fn incremented(before: EmojiStats, after: EmojiStats, emoji_id: u64, hash: u64, now: i128) -> bool {
    &&& after.last() == Some(EmojiInteraction { hash, time: now })
    &&& after.uses() == if counts(before, hash, now) {
        before.uses().insert(emoji_id,
            if before.uses().contains_key(emoji_id) { sat_inc(before.uses()[emoji_id]) } else { 1 })
    } else {
        before.uses()
    }
}

/// `after` is `before` once the interaction `hash` at `now` took back a use
/// of `emoji_id`.
pub open spec fn decremented(before: EmojiStats, after: EmojiStats, emoji_id: u64, hash: u64, now: i128) -> bool {
    &&& after.last() == Some(EmojiInteraction { hash, time: now })
    &&& after.uses() == if counts(before, hash, now) && before.uses().contains_key(emoji_id) {
        before.uses().insert(emoji_id, sat_dec(before.uses()[emoji_id]))
    } else {
        before.uses()
    }
}

impl EmojiStats {
    pub closed spec fn uses(&self) -> Map<u64, usize> {
        self.uses@
    }

    pub closed spec fn last(&self) -> Option<EmojiInteraction> {
        self.last_interaction
    }

    pub closed spec fn wf(&self) -> bool {
        self.last_interaction matches Some(i) ==>
            -0x10_0000_0000_0000_0000_0000_0000 <= i.time <= 0x10_0000_0000_0000_0000_0000_0000
    }

    pub fn new() -> (r: Self)
        ensures r.wf(), r.uses() == Map::<u64, usize>::empty(), r.last() is None,
    {
        EmojiStats { uses: HashMap::new(), last_interaction: None }
    }

    /// The uses of one emoji (0 if it was never counted).
    pub fn uses_of(&self, emoji_id: u64) -> (r: usize)
        ensures r == if self.uses().contains_key(emoji_id) { self.uses()[emoji_id] } else { 0 },
    {
        match self.uses.get(&emoji_id) {
            Some(c) => *c,
            None => 0,
        }
    }

    /// Records the interaction `hash` at `now`; whether it counts: always, but
    /// for a repeat of the last one within five seconds.
    pub fn try_interact_at(&mut self, hash: u64, now: i128) -> (r: bool)
        requires
            old(self).wf(),
            -0x10_0000_0000_0000_0000_0000_0000 <= now <= 0x10_0000_0000_0000_0000_0000_0000,
        ensures
            final(self).wf(),
            r == match old(self).last() { Some(i) => i.allows(hash, now), None => true },
            final(self).last() == Some(EmojiInteraction { hash, time: now }),
            final(self).uses() == old(self).uses(),
    {
        let previous = self.last_interaction;
        self.last_interaction = Some(EmojiInteraction { hash, time: now });
        match previous {
            Some(i) => i.is_valid(hash, now),
            None => true,
        }
    }

    /// Counts one more use of an emoji, unless the interaction repeats the last one too soon.
    pub fn increment_emoji_uses_at(&mut self, emoji_id: u64, hash: u64, now: i128)
        requires
            old(self).wf(),
            -0x10_0000_0000_0000_0000_0000_0000 <= now <= 0x10_0000_0000_0000_0000_0000_0000,
        ensures
            final(self).wf(),
            final(self).last() == Some(EmojiInteraction { hash, time: now }),
            final(self).uses() == if (match old(self).last() { Some(i) => i.allows(hash, now), None => true }) {
                old(self).uses().insert(emoji_id,
                    if old(self).uses().contains_key(emoji_id) { sat_inc(old(self).uses()[emoji_id]) } else { 1 })
            } else {
                old(self).uses()
            },
    {
        if self.try_interact_at(hash, now) {
            let count = match self.uses.get(&emoji_id) {
                Some(c) => c.saturating_add(1),
                None => 1,
            };
            self.uses.insert(emoji_id, count);
        }
    }

    /// Counts one use less of an emoji that has been counted, unless the
    /// interaction repeats the last one too soon.
    pub fn decrement_emoji_uses_at(&mut self, emoji_id: u64, hash: u64, now: i128)
        requires
            old(self).wf(),
            -0x10_0000_0000_0000_0000_0000_0000 <= now <= 0x10_0000_0000_0000_0000_0000_0000,
        ensures
            final(self).wf(),
            final(self).last() == Some(EmojiInteraction { hash, time: now }),
            final(self).uses() == if (match old(self).last() { Some(i) => i.allows(hash, now), None => true })
                && old(self).uses().contains_key(emoji_id) {
                old(self).uses().insert(emoji_id, sat_dec(old(self).uses()[emoji_id]))
            } else {
                old(self).uses()
            },
    {
        if self.try_interact_at(hash, now) {
            match self.uses.get(&emoji_id) {
                Some(c) => {
                    let count = c.saturating_sub(1);
                    self.uses.insert(emoji_id, count);
                },
                None => {},
            }
        }
    }

    /// Counts a use of `emoji_id` by `user_id` now. The interaction is known
    /// by a hash drawn afresh in each process and by the clock's time, so the
    /// contract holds for some such hash and time: the interaction becomes the
    /// last one, and the use counts unless it repeats the previous one within
    /// five seconds.
    pub fn increment_emoji_uses(&mut self, emoji_id: u64, user_id: u64)
        requires old(self).wf(),
        ensures
            final(self).wf(),
            exists|hash: u64, now: i128| #[trigger] incremented(*old(self), *final(self), emoji_id, hash, now),
    {
        let (secs, nanos) = now_precise();
        let now = secs as i128 * 1_000_000_000 + nanos as i128;
        let hash = hash_interaction(emoji_id, user_id, true);
        self.increment_emoji_uses_at(emoji_id, hash, now);
        assert(incremented(*old(self), *self, emoji_id, hash, now));
    }

    /// Takes back a use of `emoji_id` by `user_id` now; as for
    /// `increment_emoji_uses`, the contract holds for some hash and time of
    /// the interaction.
    pub fn decrement_emoji_uses(&mut self, emoji_id: u64, user_id: u64)
        requires old(self).wf(),
        ensures
            final(self).wf(),
            exists|hash: u64, now: i128| #[trigger] decremented(*old(self), *final(self), emoji_id, hash, now),
    {
        let (secs, nanos) = now_precise();
        let now = secs as i128 * 1_000_000_000 + nanos as i128;
        let hash = hash_interaction(emoji_id, user_id, false);
        self.decrement_emoji_uses_at(emoji_id, hash, now);
        assert(decremented(*old(self), *self, emoji_id, hash, now));
    }

    /// The emojis used at least once with their counts, most used first.
    pub fn get_emoji_uses(&self) -> (r: Vec<(u64, usize)>)
        ensures
            forall|i: int| 0 <= i < r@.len() ==> self.uses().contains_key((#[trigger] r@[i]).0)
                && self.uses()[r@[i].0] == r@[i].1 && r@[i].1 > 0,
            forall|k: u64| #[trigger] self.uses().contains_key(k) && self.uses()[k] > 0 ==>
                exists|i: int| 0 <= i < r@.len() && r@[i] == (k, self.uses()[k]),
            sorted_distinct(r@),
    {
        let mut out: Vec<(u64, usize)> = Vec::new();
        let ghost mut src: Seq<int> = Seq::empty();
        let ghost all = vstd::std_specs::hash::spec_hash_map_iter(&self.uses).remaining();
        proof {
            broadcast use vstd::std_specs::hash::axiom_spec_hash_map_iter;
            assert(all.len() == self.uses@.dom().len());
        }
        for (k, v) in it: self.uses.iter()
            invariant
                it.seq() == all,
                all == vstd::std_specs::hash::spec_hash_map_iter(&self.uses).remaining(),
                all.no_duplicates(),
                forall|n: int| 0 <= n < all.len() ==> self.uses@.contains_key(*(#[trigger] all[n]).0)
                    && self.uses@[*all[n].0] == *all[n].1,
                forall|i: int| 0 <= i < out@.len() ==> self.uses@.contains_key((#[trigger] out@[i]).0)
                    && self.uses@[out@[i].0] == out@[i].1 && out@[i].1 > 0,
                sorted_distinct(out@),
                src.len() == out@.len(),
                forall|i: int| 0 <= i < out@.len() ==> 0 <= #[trigger] src[i] < it.index() && key_at(all, src[i]) == out@[i].0,
                forall|n: int| 0 <= n < it.index() && *(#[trigger] all[n]).1 > 0 ==>
                    exists|i: int| 0 <= i < out@.len() && out@[i] == (*all[n].0, *all[n].1),
        {
            let ghost idx = it.index();
            assert((k, v) == all[idx]);
            if *v > 0 {
                let mut j = out.len();
                while j > 0 && out[j - 1].1 < *v
                    invariant
                        j <= out@.len(),
                        forall|q: int| j <= q < out@.len() ==> (#[trigger] out@[q]).1 < *v,
                    decreases j,
                {
                    j = j - 1;
                }
                let ghost before = out@;
                proof {
                    assert forall|i: int| 0 <= i < before.len() implies (#[trigger] before[i]).0 != *k by {
                        let n = src[i];
                        if before[i].0 == *k {
                            assert(all[n] == all[idx]);
                        }
                    }
                    lemma_insert_sorted(before, j as int, (*k, *v));
                }
                out.insert(j, (*k, *v));
                proof {
                    let old_src = src;
                    src = src.insert(j as int, idx);
                    assert forall|i: int| 0 <= i < out@.len() implies 0 <= #[trigger] src[i] < idx + 1 && key_at(all, src[i]) == out@[i].0 by {
                        if i < j {
                            assert(out@[i] == before[i] && src[i] == old_src[i]);
                        } else if i > j {
                            assert(out@[i] == before[i - 1] && src[i] == old_src[i - 1]);
                        }
                    }
                    assert forall|n: int| 0 <= n < idx + 1 && *(#[trigger] all[n]).1 > 0 implies
                        exists|i: int| 0 <= i < out@.len() && out@[i] == (*all[n].0, *all[n].1) by {
                        if n == idx {
                            assert(out@[j as int] == (*all[n].0, *all[n].1));
                        } else {
                            let i0 = choose|i: int| 0 <= i < before.len() && before[i] == (*all[n].0, *all[n].1);
                            if i0 < j { assert(out@[i0] == before[i0]); } else { assert(out@[i0 + 1] == before[i0]); }
                        }
                    }
                }
            }
        }
        proof {
            assert forall|key: u64| #[trigger] self.uses@.contains_key(key) && self.uses@[key] > 0 implies
                exists|i: int| 0 <= i < out@.len() && out@[i] == (key, self.uses@[key]) by {
                broadcast use vstd::std_specs::hash::axiom_spec_hash_map_iter;
                assert(all.contains((&key, &self.uses@[key])));
                let n = choose|n: int| 0 <= n < all.len() && all[n] == (&key, &self.uses@[key]);
                assert(*all[n].1 > 0);
            }
        }
        out
    }
}

pub open spec fn key_at(s: Seq<(&u64, &usize)>, n: int) -> u64 {
    *s[n].0
}

/// Keys are distinct and counts do not increase.
pub open spec fn sorted_distinct(s: Seq<(u64, usize)>) -> bool {
    forall|i: int, j: int| 0 <= i < j < s.len() ==> (#[trigger] s[i]).0 != (#[trigger] s[j]).0 && s[i].1 >= s[j].1
}

proof fn lemma_insert_sorted(s: Seq<(u64, usize)>, j: int, x: (u64, usize))
    requires
        sorted_distinct(s),
        0 <= j <= s.len(),
        j > 0 ==> s[j - 1].1 >= x.1,
        forall|q: int| j <= q < s.len() ==> (#[trigger] s[q]).1 < x.1,
        forall|i: int| 0 <= i < s.len() ==> (#[trigger] s[i]).0 != x.0,
    ensures
        sorted_distinct(s.insert(j, x)),
{
    let t = s.insert(j, x);
    assert forall|a: int, b: int| 0 <= a < b < t.len() implies (#[trigger] t[a]).0 != (#[trigger] t[b]).0 && t[a].1 >= t[b].1 by {
        if a < j && b < j {
            assert(t[a] == s[a] && t[b] == s[b]);
        } else if a < j && b == j {
            assert(t[a] == s[a]);
            if a < j - 1 { assert(s[a].1 >= s[j - 1].1); }
        } else if a < j && b > j {
            assert(t[a] == s[a] && t[b] == s[b - 1]);
        } else if a == j {
            assert(t[b] == s[b - 1]);
        } else {
            assert(t[a] == s[a - 1] && t[b] == s[b - 1]);
        }
    }
}

pub open spec fn sat_inc(c: usize) -> usize {
    if c < usize::MAX { (c + 1) as usize } else { c }
}

pub open spec fn sat_dec(c: usize) -> usize {
    if c > 0 { (c - 1) as usize } else { 0 }
}

} // verus!
