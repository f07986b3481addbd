//! Message chains: when several people in a row post the same message in a
//! channel, the bot may join in.
use vstd::prelude::*;
use std::collections::HashMap;
use crate::text::chars_of;
use crate::help::{is_unicode_ws, is_whitespace};

verus! {

broadcast use vstd::std_specs::hash::group_hash_axioms;

/// Hashes a message text with `ahash`'s `AHasher::default()`, whose keys are
/// drawn at random once per process: nothing is claimed of the value.
#[verifier::external_body]
fn hash_text(text: &str) -> u64 {
    let mut hasher = ahash::AHasher::default();
    std::hash::Hash::hash(text, &mut hasher);
    std::hash::Hasher::finish(&hasher)
}

/// What `str::to_lowercase` (Unicode lower-casing) gives for a text.
pub uninterp spec fn lowercase_of(text: Seq<char>) -> Seq<char>;

/// `str::to_lowercase`; its result is named by `lowercase_of`.
#[verifier::external_body]
fn to_lowercase(text: &str) -> (r: String)
    ensures r@ == lowercase_of(text@),
{
    text.to_lowercase()
}

/// Whether the text is empty once Unicode whitespace is trimmed from both ends.
pub open spec fn blank(s: Seq<char>) -> bool {
    forall|i: int| 0 <= i < s.len() ==> is_unicode_ws(#[trigger] s[i])
}

/// `str::trim`: the text without Unicode whitespace at either end.
pub fn trim(s: &str) -> (r: String)
    ensures
        blank(s@) ==> r@.len() == 0,
        !blank(s@) ==> exists|a: int, b: int| 0 <= a < b <= s@.len() && r@ == s@.subrange(a, b)
            && !is_unicode_ws(s@[a]) && !is_unicode_ws(s@[b - 1])
            && (forall|i: int| 0 <= i < a ==> is_unicode_ws(#[trigger] s@[i]))
            && (forall|i: int| b <= i < s@.len() ==> is_unicode_ws(#[trigger] s@[i])),
{
    let chars = chars_of(s);
    let mut a: usize = 0;
    while a < chars.len() && is_whitespace(chars[a])
        invariant
            chars@ == s@,
            a <= chars@.len(),
            forall|i: int| 0 <= i < a ==> is_unicode_ws(#[trigger] s@[i]),
        decreases chars.len() - a,
    {
        a = a + 1;
    }
    if a == chars.len() {
        return String::new();
    }
    let mut b: usize = chars.len();
    while b > a && is_whitespace(chars[b - 1])
        invariant
            chars@ == s@,
            a < chars@.len(),
            !is_unicode_ws(s@[a as int]),
            a <= b <= chars@.len(),
            forall|i: int| b <= i < s@.len() ==> is_unicode_ws(#[trigger] s@[i]),
        decreases b,
    {
        b = b - 1;
    }
    crate::text::substring(&chars, a, b)
}

/// Whether the text is blank.
pub fn is_blank(s: &str) -> (r: bool)
    ensures r == blank(s@),
{
    let chars = chars_of(s);
    let mut i: usize = 0;
    while i < chars.len()
        invariant
            chars@ == s@,
            i <= chars@.len(),
            forall|k: int| 0 <= k < i ==> is_unicode_ws(#[trigger] s@[k]),
        decreases chars.len() - i,
    {
        if !is_whitespace(chars[i]) {
            return false;
        }
        i = i + 1;
    }
    true
}

/// A run of equal messages in one channel: the text's hash, who posted last, and how many in a row.
#[derive(Debug, Clone, Copy, PartialEq, Eq, Structural)]
pub struct MessageChain {
    pub hash: u64,
    pub user: u64,
    pub len: usize,
}

/// The chain after a message: one longer when it repeats the chain's text
/// from a different user; otherwise a new chain of one. (A chain of
/// `usize::MAX` messages stays at that length.)
pub open spec fn next_chain(hash: u64, user: u64, previous: Option<MessageChain>) -> MessageChain {
    match previous {
        Some(p) if p.hash == hash && p.user != user =>
            MessageChain { hash, user, len: if p.len < usize::MAX { (p.len + 1) as usize } else { p.len } },
        _ => MessageChain { hash, user, len: 1 },
    }
}

impl MessageChain {
    /// Whether a message (by its hash and author) continues the chain.
    pub fn continues(self, hash: u64, user: u64) -> (r: bool)
        ensures r == (self.hash == hash && self.user != user),
    {
        self.hash == hash && self.user != user
    }

    pub fn new(hash: u64, user: u64, previous: Option<MessageChain>) -> (r: MessageChain)
        ensures r == next_chain(hash, user, previous),
    {
        match previous {
            Some(prev) if prev.continues(hash, user) => MessageChain { hash, user, len: prev.len.saturating_add(1) },
            _ => MessageChain { hash, user, len: 1 },
        }
    }
}

/// A chain only grows on a repeat of its own message by another user: the new
/// chain is always that of the new message and its author; it is longer than
/// one only when the previous chain had the same hash and another author, and
/// then it is one longer than that chain (kept at `usize::MAX` there). A
/// message with another hash, or from the chain's last author, or in a channel
/// with no chain, starts a chain of one.
pub proof fn law_chain_grows_only_on_repeat(hash: u64, user: u64, previous: Option<MessageChain>)
    ensures
        next_chain(hash, user, previous).hash == hash,
        next_chain(hash, user, previous).user == user,
        next_chain(hash, user, previous).len >= 1,
        next_chain(hash, user, previous).len > 1 ==> (previous matches Some(p) && p.hash == hash && p.user != user),
        (previous matches Some(p) && p.hash == hash && p.user != user && p.len < usize::MAX)
            ==> next_chain(hash, user, previous).len == previous.unwrap().len + 1,
        (previous matches Some(p) && p.hash != hash) ==> next_chain(hash, user, previous).len == 1,
        (previous matches Some(p) && p.user == user) ==> next_chain(hash, user, previous).len == 1,
        previous is None ==> next_chain(hash, user, previous).len == 1,
{
}

/// How many equal messages in a row make the bot consider joining in.
pub const ACTIVATION_THRESHOLD: usize = 3;

/// The message chain of each channel.
#[derive(Debug)]
pub struct MessageChains {
    chains: HashMap<u64, MessageChain>,
}

/// The chain of `channel` after a message with this hash and author.
pub open spec fn chain_after(chains: Map<u64, MessageChain>, channel: u64, hash: u64, user: u64) -> MessageChain {
    next_chain(hash, user, if chains.contains_key(channel) { Some(chains[channel]) } else { None })
}

impl MessageChains {
    pub closed spec fn chains(&self) -> Map<u64, MessageChain> {
        self.chains@
    }

    pub fn new() -> (r: Self)
        ensures r.chains() == Map::<u64, MessageChain>::empty(),
    {
        MessageChains { chains: HashMap::new() }
    }

    /// Records a message of `user` in `channel`, whose (trimmed, lower-cased)
    /// text hashes to `hash`; the length of the channel's chain after it.
    /// A blank message records nothing and gives 0.
    pub fn observe_message_hashed(&mut self, channel: u64, user: u64, content: &str, hash: u64) -> (r: usize)
        ensures
            blank(content@) ==> r == 0 && final(self).chains() == old(self).chains(),
            !blank(content@) ==> r == chain_after(old(self).chains(), channel, hash, user).len
                && final(self).chains() == old(self).chains().insert(channel, chain_after(old(self).chains(), channel, hash, user)),
    {
        if is_blank(content) {
            return 0;
        }
        let previous = match self.chains.get(&channel) {
            Some(p) => Some(*p),
            None => None,
        };
        let chain = MessageChain::new(hash, user, previous);
        self.chains.insert(channel, chain);
        chain.len
    }

    /// Forgets the chain of a channel.
    pub fn reset_message_chain(&mut self, channel: u64)
        ensures final(self).chains() == old(self).chains().remove(channel),
    {
        self.chains.remove(&channel);
    }

    /// Records a message, then decides whether the bot joins the chain: when
    /// the chain is at least `ACTIVATION_THRESHOLD` long and the draw `lucky`
    /// came out true; the chain is then forgotten.
    pub fn should_contribute_hashed(&mut self, channel: u64, user: u64, content: &str, hash: u64, lucky: bool) -> (r: bool)
        ensures
            r == (!blank(content@) && chain_after(old(self).chains(), channel, hash, user).len >= ACTIVATION_THRESHOLD && lucky),
            blank(content@) ==> final(self).chains() == old(self).chains(),
            !blank(content@) ==> final(self).chains() == if r {
                old(self).chains().insert(channel, chain_after(old(self).chains(), channel, hash, user)).remove(channel)
            } else {
                old(self).chains().insert(channel, chain_after(old(self).chains(), channel, hash, user))
            },
    {
        let len = self.observe_message_hashed(channel, user, content, hash);
        if len >= ACTIVATION_THRESHOLD && lucky {
            self.reset_message_chain(channel);
            true
        } else {
            false
        }
    }

    /// Records a message, hashing its trimmed and lower-cased text, then
    /// decides as `should_contribute_hashed` does with the draw `lucky`.
    /// The hash is drawn afresh in each process, so the contract holds for
    /// some hash: the one the text got.
    pub fn should_contribute(&mut self, channel: u64, user: u64, content: &str, lucky: bool) -> (r: bool)
        ensures
            exists|hash: u64| #[trigger] contributed(old(self).chains(), final(self).chains(), channel, user, content@, hash, lucky, r),
    {
        let trimmed = trim(content);
        let lowered = to_lowercase(trimmed.as_str());
        let hash = hash_text(lowered.as_str());
        let r = self.should_contribute_hashed(channel, user, content, hash, lucky);
        assert(contributed(old(self).chains(), self.chains(), channel, user, content@, hash, lucky, r));
        r
    }
}

/// The outcome of `should_contribute_hashed` for a message whose text hashes
/// to `hash`: whether the bot joins in, and the chains before and after.
pub open spec fn contributed(
    before: Map<u64, MessageChain>,
    after: Map<u64, MessageChain>,
    channel: u64,
    user: u64,
    content: Seq<char>,
    hash: u64,
    lucky: bool,
    r: bool,
) -> bool {
    let chain = chain_after(before, channel, hash, user);
    &&& r == (!blank(content) && chain.len >= ACTIVATION_THRESHOLD && lucky)
    &&& after == if blank(content) {
        before
    } else if r {
        before.insert(channel, chain).remove(channel)
    } else {
        before.insert(channel, chain)
    }
}

/// A run of equal messages as the chatbot's memory tracks it: the
/// lower-cased text, who posted last, and the run's length.
#[derive(Debug)]
pub struct BrainChain {
    pub content: String,
    pub user: u64,
    pub len: usize,
}

/// A chain by value.
pub struct BrainChainView {
    pub content: Seq<char>,
    pub user: u64,
    pub len: usize,
}

impl BrainChain {
    pub open spec fn chain_view(&self) -> BrainChainView {
        BrainChainView { content: self.content@, user: self.user, len: self.len }
    }

    pub fn new(content: &str, user: u64) -> (r: Self)
        ensures r.chain_view() == (BrainChainView { content: content@, user, len: 1 }),
    {
        BrainChain { content: content.to_owned(), user, len: 1 }
    }

    /// The same text from another user lengthens the run; anything else
    /// starts the run over from this message, at length 0.
    pub fn advance(&mut self, content: &str, user: u64)
        ensures
            final(self).chain_view() == advanced(old(self).chain_view(), content@, user),
    {
        if crate::text::str_eq(self.content.as_str(), content) && self.user != user {
            self.user = user;
            self.len = self.len.saturating_add(1);
        } else {
            self.content = content.to_owned();
            self.user = user;
            self.len = 0;
        }
    }
}

/// A run after a message (a run of `usize::MAX` stays at that length).
pub open spec fn advanced(c: BrainChainView, content: Seq<char>, user: u64) -> BrainChainView {
    if c.content == content && c.user != user {
        BrainChainView { content: c.content, user, len: if c.len < usize::MAX { (c.len + 1) as usize } else { c.len } }
    } else {
        BrainChainView { content, user, len: 0 }
    }
}

/// The chatbot's memory of the message runs in each channel.
#[derive(Debug)]
pub struct Brain {
    chains: HashMap<u64, BrainChain>,
}

impl Brain {
    pub closed spec fn runs(&self) -> Map<u64, BrainChainView> {
        self.chains@.map_values(|c: BrainChain| c.chain_view())
    }

    pub fn new() -> (r: Self)
        ensures r.runs() == Map::<u64, BrainChainView>::empty(),
    {
        let r = Brain { chains: HashMap::new() };
        assert(r.runs() =~= Map::<u64, BrainChainView>::empty());
        r
    }

    /// Records a message; the length of its channel's run after it. An empty
    /// message records nothing and gives 0. Texts are compared lower-cased.
    pub fn observe_message(&mut self, channel: u64, user: u64, content: &str) -> (r: usize)
        ensures
            content@.len() == 0 ==> r == 0 && final(self).runs() == old(self).runs(),
            content@.len() > 0 ==> {
                let next = if old(self).runs().contains_key(channel) {
                    advanced(old(self).runs()[channel], lowercase_of(content@), user)
                } else {
                    BrainChainView { content: lowercase_of(content@), user, len: 1 }
                };
                &&& final(self).runs() == old(self).runs().insert(channel, next)
                &&& r == next.len
            },
    {
        if content.is_empty() {
            return 0;
        }
        let lowered = to_lowercase(content);
        let ghost before = self.chains@;
        let chain = match self.chains.remove(&channel) {
            Some(mut c) => {
                c.advance(lowered.as_str(), user);
                c
            },
            None => BrainChain::new(lowered.as_str(), user),
        };
        let len = chain.len;
        let ghost cv = chain.chain_view();
        self.chains.insert(channel, chain);
        assert(self.runs() =~= before.map_values(|c: BrainChain| c.chain_view()).insert(channel, cv));
        len
    }

    /// Forgets the run of a channel.
    pub fn reset_message_chain(&mut self, channel: u64)
        ensures final(self).runs() == old(self).runs().remove(channel),
    {
        let ghost before = self.chains@;
        self.chains.remove(&channel);
        assert(self.runs() =~= before.map_values(|c: BrainChain| c.chain_view()).remove(channel));
    }
}

} // verus!
