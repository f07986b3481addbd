//! Where the feed tasks fetch their feeds: the configured YouTube base
//! address and the Nitter instances that serve Twitter feeds.
use vstd::prelude::*;
use crate::chance::random_below;
use crate::text::{chars_of, push_char, push_str};

verus! {

broadcast use vstd::string::group_string_axioms;

/// `s` without every leading copy of `p` (`str::trim_start_matches`).
pub open spec fn trim_start_all(s: Seq<char>, p: Seq<char>) -> Seq<char>
    decreases s.len(),
{
    if p.len() > 0 && s.len() >= p.len() && s.take(p.len() as int) == p {
        trim_start_all(s.skip(p.len() as int), p)
    } else {
        s
    }
}

/// `s` without every trailing `c` (`str::trim_end_matches` on a character).
pub open spec fn trim_end_char(s: Seq<char>, c: char) -> Seq<char>
    decreases s.len(),
{
    if s.len() > 0 && s.last() == c { trim_end_char(s.drop_last(), c) } else { s }
}

pub(crate) fn starts_at(chars: &Vec<char>, from: usize, p: &Vec<char>) -> (r: bool)
    requires from <= chars@.len(),
    ensures r == (chars@.len() - from >= p@.len() && chars@.skip(from as int).take(p@.len() as int) == p@),
{
    if chars.len() - from < p.len() {
        return false;
    }
    let mut i: usize = 0;
    while i < p.len()
        invariant
            chars@.len() <= usize::MAX,
            from <= chars@.len(),
            chars@.len() - from >= p@.len(),
            i <= p@.len(),
            forall|k: int| 0 <= k < i ==> chars@[from + k] == p@[k],
        decreases p.len() - i,
    {
        if chars[from + i] != p[i] {
            assert(chars@.skip(from as int).take(p@.len() as int)[i as int] != p@[i as int]);
            return false;
        }
        i = i + 1;
    }
    assert(chars@.skip(from as int).take(p@.len() as int) =~= p@);
    true
}

/// The position after every leading copy of `p` in `chars`.
fn skip_prefixes(chars: &Vec<char>, p: &Vec<char>) -> (from: usize)
    ensures
        from <= chars@.len(),
        trim_start_all(chars@, p@) == chars@.skip(from as int),
{
    let n = chars.len();
    let mut from: usize = 0;
    assert(chars@.skip(0) =~= chars@);
    if p.len() == 0 {
        return 0;
    }
    while starts_at(chars, from, p)
        invariant
            n == chars@.len(),
            p@.len() > 0,
            from <= chars@.len(),
            trim_start_all(chars@, p@) == trim_start_all(chars@.skip(from as int), p@),
        decreases chars@.len() - from,
    {
        assert(chars@.skip(from as int).skip(p@.len() as int) =~= chars@.skip(from + p@.len()));
        from = from + p.len();
    }
    from
}

/// The end of `chars[from..]` once every trailing `c` is dropped.
fn drop_trailing(chars: &Vec<char>, from: usize, c: char) -> (to: usize)
    requires from <= chars@.len(),
    ensures
        from <= to <= chars@.len(),
        trim_end_char(chars@.skip(from as int), c) == chars@.subrange(from as int, to as int),
{
    let mut to: usize = chars.len();
    assert(chars@.skip(from as int) =~= chars@.subrange(from as int, to as int));
    while to > from && chars[to - 1] == c
        invariant
            from <= to <= chars@.len(),
            trim_end_char(chars@.skip(from as int), c) == trim_end_char(chars@.subrange(from as int, to as int), c),
        decreases to,
    {
        assert(chars@.subrange(from as int, to as int).drop_last() =~= chars@.subrange(from as int, to - 1));
        to = to - 1;
    }
    to
}

/// The characters `chars[from..to]` as a string.
fn collect(chars: &Vec<char>, from: usize, to: usize) -> (r: String)
    requires from <= to <= chars@.len(),
    ensures r@ == chars@.subrange(from as int, to as int),
{
    let mut r = String::new();
    let mut i = from;
    while i < to
        invariant
            from <= i <= to <= chars@.len(),
            r@ == chars@.subrange(from as int, i as int),
        decreases to - i,
    {
        push_char(&mut r, chars[i]);
        assert(chars@.subrange(from as int, i + 1) =~= chars@.subrange(from as int, i as int).push(chars@[i as int]));
        i = i + 1;
    }
    r
}

/// `s` with every leading `prefix` and (when `end` is given) every trailing
/// `end` character removed.
pub(crate) fn trimmed(s: &str, prefix: &str, end: Option<char>) -> (r: String)
    ensures
        r@ == match end {
            Some(c) => trim_end_char(trim_start_all(s@, prefix@), c),
            None => trim_start_all(s@, prefix@),
        },
{
    let chars = chars_of(s);
    let p = chars_of(prefix);
    let from = skip_prefixes(&chars, &p);
    match end {
        Some(c) => {
            let to = drop_trailing(&chars, from, c);
            collect(&chars, from, to)
        },
        None => {
            assert(chars@.skip(from as int) =~= chars@.subrange(from as int, chars@.len() as int));
            collect(&chars, from, chars.len())
        },
    }
}

/// Where the YouTube feeds are fetched.
#[derive(Debug, Clone)]
pub struct ConfigRssYouTube {
    /// The domain and path of YouTube's channel feeds, such as
    /// `www.youtube.com/feeds/videos.xml?channel_id=`.
    pub base_url: String,
    /// The domain shown in the links the bot posts, such as `www.youtube.com`.
    pub display_domain: String,
}

pub open spec fn youtube_feed_url(base_url: Seq<char>, channel: Seq<char>) -> Seq<char> {
    "https://"@ + trim_start_all(base_url, "https://"@) + channel
}

impl ConfigRssYouTube {
    /// The feed address of a channel: the base address (without any leading
    /// `https://`) over HTTPS, then the channel ID.
    pub fn url(&self, channel: &str) -> (r: String)
        ensures r@ == youtube_feed_url(self.base_url@, channel@),
    {
        let base = trimmed(self.base_url.as_str(), "https://", None);
        let mut s = String::from_str("https://");
        push_str(&mut s, base.as_str());
        push_str(&mut s, channel);
        s
    }
}

/// Where the Twitter feeds are fetched.
#[derive(Debug, Clone)]
pub struct ConfigRssTwitter {
    /// The Nitter instances that serve feeds, by domain.
    pub nitter_instances: Vec<String>,
    /// The domain shown in the links the bot posts, such as `twitter.com`.
    pub display_domain: String,
}

pub open spec fn nitter_feed_url(domain: Seq<char>, handle: Seq<char>) -> Seq<char> {
    "https://"@ + trim_end_char(trim_start_all(domain, "https://"@), '/') + "/"@ + handle + "/rss"@
}

impl ConfigRssTwitter {
    /// The feed address of a handle on the instance at `index`.
    pub fn url_on(&self, index: usize, handle: &str) -> (r: String)
        requires index < self.nitter_instances@.len(),
        ensures r@ == nitter_feed_url(self.nitter_instances@[index as int]@, handle@),
    {
        let domain = trimmed(self.nitter_instances[index].as_str(), "https://", Some('/'));
        let mut s = String::from_str("https://");
        push_str(&mut s, domain.as_str());
        push_str(&mut s, "/");
        push_str(&mut s, handle);
        push_str(&mut s, "/rss");
        s
    }

    /// The feed address of a handle on an instance drawn at random; there
    /// must be one.
    pub fn url(&self, handle: &str) -> (r: String)
        requires self.nitter_instances@.len() > 0,
        ensures
            exists|i: int| 0 <= i < self.nitter_instances@.len()
                && r@ == nitter_feed_url(#[trigger] self.nitter_instances@[i]@, handle@),
    {
        let i = random_below(self.nitter_instances.len() as u64) as usize;
        self.url_on(i, handle)
    }
}

} // verus!
