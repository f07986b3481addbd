//! The replies of the music player commands: whether the member may use the
//! player from where they are, and what each command answers.
use vstd::prelude::*;
use crate::console::MelodyCommandError;
use crate::markup::{channel_mention_spec, push_channel_mention};
use crate::music::{Queue, QueueItem, YouTubeItem};
use crate::num::{decimal, push_decimal};
use crate::text::push_str;

verus! {

broadcast use vstd::string::group_string_axioms;

/// Where the member must be: in a voice channel, and for most commands in
/// the bot's voice channel too. The channel to use, or why the member may
/// not use the player.
pub open spec fn voice_check_spec(enabled: bool, user_channel: Option<u64>, bot_channel: Option<u64>, same: bool)
    -> Result<u64, Seq<char>>
{
    if !enabled {
        Err("Music player is not enabled"@)
    } else {
        match user_channel {
            None => Err("You are not in a voice channel"@),
            Some(u) => if !same {
                Ok(u)
            } else {
                match bot_channel {
                    None => Err("I am not in a voice channel"@),
                    Some(b) => if u == b { Ok(u) } else { Err("We are not in the same voice channel"@) },
                }
            },
        }
    }
}

pub fn voice_check(enabled: bool, user_channel: Option<u64>, bot_channel: Option<u64>, same: bool) -> (r: Result<u64, String>)
    ensures
        match voice_check_spec(enabled, user_channel, bot_channel, same) {
            Ok(c) => r == Ok::<u64, String>(c),
            Err(t) => r matches Err(s) && s@ == t,
        },
{
    if !enabled {
        return Err(String::from_str("Music player is not enabled"));
    }
    match user_channel {
        None => Err(String::from_str("You are not in a voice channel")),
        Some(u) => {
            if !same {
                return Ok(u);
            }
            match bot_channel {
                None => Err(String::from_str("I am not in a voice channel")),
                Some(b) => if u == b { Ok(u) } else { Err(String::from_str("We are not in the same voice channel")) },
            }
        },
    }
}

/// A player command that acts on the voice connection or the queue, with
/// what came of it.
#[derive(Debug, Clone, Copy, PartialEq, Eq, Structural)]
pub enum PlayerAction {
    /// Joining the channel, and whether it worked.
    Join(bool),
    /// Leaving the channel, and whether it worked.
    Leave(bool),
    /// Pausing (`true`) or resuming the track.
    Pause(bool),
    /// Turning queue looping on or off.
    Loop(bool),
    Skip,
    Stop,
    /// Leaving and clearing the queue, and whether it worked.
    Kill(bool),
    Clear,
    Shuffle,
}

pub open spec fn action_text(action: PlayerAction, channel: u64) -> Seq<char> {
    match action {
        PlayerAction::Join(ok) => if ok { "Joined channel "@ + channel_mention_spec(channel) } else { "Failed to join channel"@ },
        PlayerAction::Leave(ok) => if ok { "Left channel "@ + channel_mention_spec(channel) } else { "Failed to leave channel"@ },
        PlayerAction::Pause(state) => if state { "Paused the current track"@ } else { "Unpaused the current track"@ },
        PlayerAction::Loop(state) => if state { "Enabled queue looping"@ } else { "Disabled queue looping"@ },
        PlayerAction::Skip => "Skipped currently playing track"@,
        PlayerAction::Stop => "Stopped the player and cleared the queue"@,
        PlayerAction::Kill(ok) => if ok {
            "Left channel "@ + channel_mention_spec(channel) + " and cleared the queue"@
        } else {
            "Failed to leave channel"@
        },
        PlayerAction::Clear => "Cleared the queue"@,
        PlayerAction::Shuffle => "Shuffled the queue"@,
    }
}

/// What a player command answers once it has acted in `channel`.
pub fn action_reply(action: PlayerAction, channel: u64) -> (r: String)
    ensures r@ == action_text(action, channel),
{
    match action {
        PlayerAction::Join(ok) => if ok {
            let mut s = String::from_str("Joined channel ");
            push_channel_mention(&mut s, channel);
            s
        } else {
            String::from_str("Failed to join channel")
        },
        PlayerAction::Leave(ok) => if ok {
            let mut s = String::from_str("Left channel ");
            push_channel_mention(&mut s, channel);
            s
        } else {
            String::from_str("Failed to leave channel")
        },
        PlayerAction::Pause(state) => if state {
            String::from_str("Paused the current track")
        } else {
            String::from_str("Unpaused the current track")
        },
        PlayerAction::Loop(state) => if state {
            String::from_str("Enabled queue looping")
        } else {
            String::from_str("Disabled queue looping")
        },
        PlayerAction::Skip => String::from_str("Skipped currently playing track"),
        PlayerAction::Stop => String::from_str("Stopped the player and cleared the queue"),
        PlayerAction::Kill(ok) => if ok {
            let mut s = String::from_str("Left channel ");
            push_channel_mention(&mut s, channel);
            push_str(&mut s, " and cleared the queue");
            s
        } else {
            String::from_str("Failed to leave channel")
        },
        PlayerAction::Clear => String::from_str("Cleared the queue"),
        PlayerAction::Shuffle => String::from_str("Shuffled the queue"),
    }
}

/// What was put in the queue: one video, one attachment, or a playlist of some videos.
#[derive(Debug, Clone, Copy, PartialEq, Eq, Structural)]
pub enum Queued {
    Video,
    Attachment,
    Playlist(usize),
}

/// The answer once items were queued (`connected` whether the player could
/// join the channel); `item` is how the single item queued is shown.
pub open spec fn queued_text(what: Queued, item: Seq<char>, connected: bool) -> Seq<char> {
    if !connected {
        "Failed to connect to channel"@
    } else {
        match what {
            Queued::Video => "Added video "@ + item + " to queue"@,
            Queued::Attachment => "Added attachment "@ + item + " to queue"@,
            Queued::Playlist(n) => "Added playlist of "@ + decimal(n as nat) + " videos to queue"@,
        }
    }
}

pub fn queued_reply(what: Queued, item: &str, connected: bool) -> (r: String)
    ensures r@ == queued_text(what, item@, connected),
{
    if !connected {
        return String::from_str("Failed to connect to channel");
    }
    match what {
        Queued::Video => {
            let mut s = String::from_str("Added video ");
            push_str(&mut s, item);
            push_str(&mut s, " to queue");
            s
        },
        Queued::Attachment => {
            let mut s = String::from_str("Added attachment ");
            push_str(&mut s, item);
            push_str(&mut s, " to queue");
            s
        },
        Queued::Playlist(n) => {
            let mut s = String::from_str("Added playlist of ");
            push_decimal(&mut s, n as u64);
            push_str(&mut s, " videos to queue");
            s
        },
    }
}

/// The queue items of a playlist's videos, in order.
pub fn playlist_items(ids: Vec<String>) -> (r: Vec<QueueItem>)
    ensures
        r@.len() == ids@.len(),
        forall|i: int| 0 <= i < r@.len() ==> ((#[trigger] r@[i]) matches QueueItem::YouTube(y) && y.id@ == ids@[i]@),
{
    let mut out: Vec<QueueItem> = Vec::new();
    let mut i: usize = 0;
    while i < ids.len()
        invariant
            i <= ids@.len(),
            out@.len() == i,
            forall|k: int| 0 <= k < i ==> ((#[trigger] out@[k]) matches QueueItem::YouTube(y) && y.id@ == ids@[k]@),
        decreases ids.len() - i,
    {
        out.push(QueueItem::YouTube(YouTubeItem { id: crate::text::copy_string(&ids[i]) }));
        i = i + 1;
    }
    out
}

/// Removes the item at `index` (counted from the item playing, at 0) from
/// the queue; position 0 may not be removed.
pub fn queue_remove_reply(queue: &mut Queue, index: usize) -> (r: Result<String, MelodyCommandError>)
    ensures
        final(queue).is_looped() == old(queue).is_looped(),
        index == 0 ==> (r matches Err(MelodyCommandError::PreconditionViolation(e)) && e@ == "arguments"@)
            && final(queue).items() == old(queue).items(),
        1 <= index < old(queue).items().len() ==> final(queue).items() == old(queue).items().remove(index as int)
            && (r matches Ok(t) && t@ == "Removed item "@ + old(queue).items()[index as int].display_spec()
                + " from position "@ + decimal(index as nat) + " in queue"@),
        index >= 1 && index >= old(queue).items().len() ==> final(queue).items() == old(queue).items()
            && (r matches Ok(t) && t@ == "No item at position "@ + decimal(index as nat) + " in queue"@),
{
    if index == 0 {
        return Err(MelodyCommandError::precondition_violation("arguments"));
    }
    match queue.remove(index) {
        Some(item) => {
            let mut s = String::from_str("Removed item ");
            let shown = item.to_display();
            push_str(&mut s, shown.as_str());
            push_str(&mut s, " from position ");
            push_decimal(&mut s, index as u64);
            push_str(&mut s, " in queue");
            Ok(s)
        },
        None => {
            let mut s = String::from_str("No item at position ");
            push_decimal(&mut s, index as u64);
            push_str(&mut s, " in queue");
            Ok(s)
        },
    }
}

} // verus!
