//! The replies of the feed commands.
use vstd::prelude::*;
use crate::feeds::FeedIdentifier;
use crate::help::{join_strings, join_with, strings_view};
use crate::markup::{channel_mention_spec, push_channel_mention, timestamp_spec, timestamp_text, TimestampFormat};
use crate::num::{decimal, push_decimal};
use crate::text::push_str;

verus! {

broadcast use vstd::string::group_string_axioms;

/// What registering a feed in a channel came to.
#[derive(Debug, Clone, Copy, PartialEq, Eq, Structural)]
pub enum RegisterFeedResult {
    FeedChannelRegistered,
    /// The guild's feed moved from this channel.
    FeedChannelReplaced(u64),
    FeedNotEnabled,
}

/// What unregistering a feed from a guild came to.
#[derive(Debug, Clone, Copy, PartialEq, Eq, Structural)]
pub enum UnregisterFeedResult {
    /// The feed was removed from the channel, and no guild follows it any more.
    FeedUnregistered(u64),
    /// The feed was removed from the channel; other guilds still follow it.
    FeedChannelUnregistered(u64),
    FeedNotRegistered,
    FeedChannelNotRegistered,
}

/// A feed's address as a link that the chat does not embed.
pub open spec fn feed_link(feed: FeedIdentifier) -> Seq<char> {
    "<https://"@ + feed.display_spec() + ">"@
}

fn push_feed_link(s: &mut String, feed: &FeedIdentifier)
    ensures final(s)@ == old(s)@ + feed_link(*feed),
{
    let ghost start = s@;
    push_str(s, "<https://");
    let shown = feed.to_display();
    push_str(s, shown.as_str());
    push_str(s, ">");
    assert(s@ =~= start + feed_link(*feed));
}

pub open spec fn parse_failure_text() -> Seq<char> {
    "Failed to parse feed source"@
}

pub fn parse_failure_reply() -> (r: String)
    ensures r@ == parse_failure_text(),
{
    String::from_str("Failed to parse feed source")
}

pub open spec fn not_text_based_text(channel: u64) -> Seq<char> {
    "Channel "@ + channel_mention_spec(channel) + " is not text-based"@
}

pub fn not_text_based_reply(channel: u64) -> (r: String)
    ensures r@ == not_text_based_text(channel),
{
    let mut s = String::from_str("Channel ");
    push_channel_mention(&mut s, channel);
    push_str(&mut s, " is not text-based");
    s
}

pub open spec fn register_text(feed: FeedIdentifier, channel: u64, result: RegisterFeedResult) -> Seq<char> {
    match result {
        RegisterFeedResult::FeedChannelRegistered =>
            "Successfully added feed for "@ + feed_link(feed) + " in "@ + channel_mention_spec(channel),
        RegisterFeedResult::FeedChannelReplaced(old) =>
            "Successfully updated feed channel for "@ + feed_link(feed) + " from "@ + channel_mention_spec(old)
                + " to "@ + channel_mention_spec(channel),
        RegisterFeedResult::FeedNotEnabled => "Feeds of this type are disabled"@,
    }
}

/// The reply once `feed` was registered for `channel`.
pub fn register_reply(feed: &FeedIdentifier, channel: u64, result: RegisterFeedResult) -> (r: String)
    ensures r@ == register_text(*feed, channel, result),
{
    match result {
        RegisterFeedResult::FeedChannelRegistered => {
            let mut s = String::from_str("Successfully added feed for ");
            push_feed_link(&mut s, feed);
            push_str(&mut s, " in ");
            push_channel_mention(&mut s, channel);
            s
        },
        RegisterFeedResult::FeedChannelReplaced(old) => {
            let mut s = String::from_str("Successfully updated feed channel for ");
            push_feed_link(&mut s, feed);
            push_str(&mut s, " from ");
            push_channel_mention(&mut s, old);
            push_str(&mut s, " to ");
            push_channel_mention(&mut s, channel);
            s
        },
        RegisterFeedResult::FeedNotEnabled => String::from_str("Feeds of this type are disabled"),
    }
}

pub open spec fn unregister_text(feed: FeedIdentifier, result: UnregisterFeedResult) -> Seq<char> {
    match result {
        UnregisterFeedResult::FeedUnregistered(c) =>
            "Successfully removed feed for "@ + feed_link(feed) + " in "@ + channel_mention_spec(c),
        UnregisterFeedResult::FeedChannelUnregistered(c) =>
            "Successfully removed feed for "@ + feed_link(feed) + " in "@ + channel_mention_spec(c),
        _ => "Found no such feed for this server"@,
    }
}

/// The reply once `feed` was unregistered from a guild.
pub fn unregister_reply(feed: &FeedIdentifier, result: UnregisterFeedResult) -> (r: String)
    ensures r@ == unregister_text(*feed, result),
{
    match result {
        UnregisterFeedResult::FeedUnregistered(c) | UnregisterFeedResult::FeedChannelUnregistered(c) => {
            let mut s = String::from_str("Successfully removed feed for ");
            push_feed_link(&mut s, feed);
            push_str(&mut s, " in ");
            push_channel_mention(&mut s, c);
            s
        },
        _ => String::from_str("Found no such feed for this server"),
    }
}

pub open spec fn remove_all_text(count: usize) -> Seq<char> {
    if count == 0 { "No feeds to remove"@ } else { "Successfully removed "@ + decimal(count as nat) + " feeds"@ }
}

/// The reply once all of a guild's feeds (`count` of them) were removed.
pub fn remove_all_reply(count: usize) -> (r: String)
    ensures r@ == remove_all_text(count),
{
    if count == 0 {
        String::from_str("No feeds to remove")
    } else {
        let mut s = String::from_str("Successfully removed ");
        push_decimal(&mut s, count as u64);
        push_str(&mut s, " feeds");
        s
    }
}

/// One line of a guild's feeds: the feed, its channel, and when its last
/// entry came (milliseconds since the epoch).
pub open spec fn feed_line(feed: FeedIdentifier, channel: u64, last_update: i64) -> Seq<char> {
    feed_link(feed) + " for "@ + channel_mention_spec(channel) + ", last entry "@
        + timestamp_spec(last_update as int, TimestampFormat::ShortDateTime)
}

pub open spec fn feed_list_text(feeds: Seq<(FeedIdentifier, u64, i64)>) -> Seq<char> {
    if feeds.len() == 0 {
        "No feeds to show"@
    } else {
        join_with(feeds.map_values(|f: (FeedIdentifier, u64, i64)| feed_line(f.0, f.1, f.2)), "\n"@)
    }
}

/// The list of a guild's feeds.
pub fn feed_list_reply(feeds: &Vec<(FeedIdentifier, u64, i64)>) -> (r: String)
    ensures r@ == feed_list_text(feeds@),
{
    if feeds.len() == 0 {
        return String::from_str("No feeds to show");
    }
    let ghost all = feeds@.map_values(|f: (FeedIdentifier, u64, i64)| feed_line(f.0, f.1, f.2));
    let mut lines: Vec<String> = Vec::new();
    let mut i: usize = 0;
    while i < feeds.len()
        invariant
            i <= feeds@.len(),
            all == feeds@.map_values(|f: (FeedIdentifier, u64, i64)| feed_line(f.0, f.1, f.2)),
            strings_view(lines@) == all.take(i as int),
        decreases feeds.len() - i,
    {
        let mut line = String::new();
        push_feed_link(&mut line, &feeds[i].0);
        push_str(&mut line, " for ");
        push_channel_mention(&mut line, feeds[i].1);
        push_str(&mut line, ", last entry ");
        let t = timestamp_text(feeds[i].2, TimestampFormat::ShortDateTime);
        push_str(&mut line, t.as_str());
        let ghost before = strings_view(lines@);
        let ghost lv = line@;
        lines.push(line);
        assert(lv == all[i as int]);
        assert(strings_view(lines@) =~= before.push(lv));
        assert(all.take(i + 1) =~= all.take(i as int).push(all[i as int]));
        i = i + 1;
    }
    assert(all.take(i as int) =~= all);
    join_strings(&lines, "\n")
}

} // verus!
