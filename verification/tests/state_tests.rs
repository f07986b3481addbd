use melody::cacheable::{Cache, CacheAsync};
use melody::chains::{is_blank, trim, Brain, BrainChain, MessageChain, MessageChains, ACTIVATION_THRESHOLD};
use melody::emoji_stats::{EmojiInteraction, EmojiStats};
use melody::feed_queue::{handle_fetch, FetchOutcome, fresh_entries, remove_by_in_queue, rotate_queue, FeedQueue, QueueAction};
use melody::flag::Flag;
use melody::music::{AttachmentItem, Queue, QueueItem, YouTubeItem};
use melody::music_replies::{action_reply, playlist_items, queue_remove_reply, queued_reply, voice_check, PlayerAction, Queued};
use melody::persist::{parse_file_name, Persist};
use melody::timer::TimerQueue;
use std::collections::VecDeque;
use melody::pages::emoji_page_text;
use melody::pages::queue_page_text;

fn yt(id: &str) -> QueueItem {
    QueueItem::YouTube(YouTubeItem { id: id.to_owned() })
}

fn ids(q: &Queue) -> Vec<String> {
    q.to_vec().iter().map(|i| i.to_display()).collect()
}

#[test]
fn rotating_and_removing_in_queues() {
    let mut q: VecDeque<u32> = VecDeque::from(vec![1, 2, 3]);
    assert_eq!(rotate_queue(&mut q), Some(1));
    assert_eq!(q, [2, 3, 1]);
    let mut e: VecDeque<u32> = VecDeque::new();
    assert_eq!(rotate_queue(&mut e), None);
    let mut q: VecDeque<u32> = VecDeque::from(vec![5, 6, 5]);
    assert_eq!(remove_by_in_queue(&mut q, &5), Some(5));
    assert_eq!(q, [6, 5]);
    assert_eq!(remove_by_in_queue(&mut q, &9), None);
    assert_eq!(q, [6, 5]);
}

#[test]
fn feed_queue_actions() {
    let mut f: FeedQueue<u32> = FeedQueue::new();
    assert!(!f.is_running() && f.is_queue_empty());
    assert_eq!(f.push_queue(1), QueueAction::Spawn);
    assert!(f.is_running());
    assert_eq!(f.push_queue(2), QueueAction::Continue);
    assert_eq!(f.extend_queue(vec![3, 4]), QueueAction::Continue);
    assert_eq!(f.queue_len(), 4);
    assert_eq!(f.rotate(), Some(1));
    assert_eq!(f.get_queue(), &VecDeque::from(vec![2, 3, 4, 1]));
    assert_eq!(f.remove_queue(&3), QueueAction::Continue);
    assert_eq!(f.get_queue(), &VecDeque::from(vec![2, 4, 1]));
    assert_eq!(f.clear_queue(), QueueAction::Interrupt);
    assert!(f.is_running());
    f.task_finished();
    assert!(!f.is_running());
    assert_eq!(f.replace_queue(vec![]), QueueAction::Interrupt);
    assert_eq!(f.replace_queue(vec![7]), QueueAction::Spawn);
    assert_eq!(f.get_queue(), &VecDeque::from(vec![7]));
}

#[test]
fn feed_rotation_returns_to_start() {
    let mut f: FeedQueue<u32> = FeedQueue::new();
    f.extend_queue(vec![1, 2, 3]);
    let polled: Vec<u32> = (0..3).map(|_| f.rotate().unwrap()).collect();
    assert_eq!(polled, [1, 2, 3]);
    assert_eq!(f.get_queue(), &VecDeque::from(vec![1, 2, 3]));
}

#[test]
fn fresh_feed_entries() {
    let entries = vec![(30, "c"), (10, "a"), (25, "skip"), (20, "b"), (5, "old")];
    let (fresh, latest) = fresh_entries(entries, 9, |e: &&str| *e != "skip");
    assert_eq!(fresh, [(10, "a"), (20, "b"), (30, "c")]);
    assert_eq!(latest, Some(30));
    let (fresh, latest) = fresh_entries(vec![(1, "x")], 1, |_: &&str| true);
    assert!(fresh.is_empty());
    assert_eq!(latest, None);
}

#[test]
fn music_queue() {
    let mut q = Queue::new();
    assert_eq!(q.len(), 0);
    assert!(q.get_current().is_none());
    q.append(vec![yt("a"), yt("b"), QueueItem::Attachment(AttachmentItem {
        id: 1, filename: "song.mp3".to_owned(), filesize: 10, url: "https://x/song.mp3".to_owned(),
    })]);
    assert_eq!(ids(&q), ["<https://www.youtube.com/watch?v=a>", "<https://www.youtube.com/watch?v=b>", "`song.mp3`"]);
    q.advance();
    assert_eq!(q.len(), 2);
    q.set_looped(true);
    assert!(q.looped());
    q.advance();
    assert_eq!(ids(&q), ["`song.mp3`", "<https://www.youtube.com/watch?v=b>"]);
    assert!(q.remove(5).is_none());
    assert!(q.remove(1).is_some());
    assert_eq!(q.len(), 1);
    q.append(vec![yt("c"), yt("d")]);
    q.clear_keep_one();
    assert_eq!(ids(&q), ["`song.mp3`"]);
    q.clear();
    assert_eq!(q.len(), 0);
}

#[test]
fn shuffling_keeps_the_current_item_and_the_items() {
    let mut q = Queue::new();
    q.append((0..20).map(|i| yt(&i.to_string())).collect());
    q.shuffle();
    let mut shown = ids(&q);
    assert_eq!(shown[0], "<https://www.youtube.com/watch?v=0>");
    shown.sort();
    let mut expected: Vec<String> = (0..20).map(|i| format!("<https://www.youtube.com/watch?v={i}>")).collect();
    expected.sort();
    assert_eq!(shown, expected);
    let copy = q.get_current().unwrap().duplicate();
    assert_eq!(copy.to_display(), "<https://www.youtube.com/watch?v=0>");
}

#[test]
fn text_trimming() {
    assert_eq!(trim("  hi there \n"), "hi there");
    assert_eq!(trim(" \t "), "");
    assert!(is_blank(" \u{3000}\n"));
    assert!(!is_blank(" x "));
}

#[test]
fn message_chains() {
    let c = MessageChain::new(7, 1, None);
    assert_eq!(c, MessageChain { hash: 7, user: 1, len: 1 });
    let c = MessageChain::new(7, 2, Some(c));
    assert_eq!(c.len, 2);
    // the same user again starts over
    assert_eq!(MessageChain::new(7, 2, Some(c)).len, 1);
    assert!(c.continues(7, 3) && !c.continues(8, 3));

    let mut chains = MessageChains::new();
    assert_eq!(chains.observe_message_hashed(1, 10, "lol", 5), 1);
    assert_eq!(chains.observe_message_hashed(1, 11, "lol", 5), 2);
    assert_eq!(chains.observe_message_hashed(1, 11, "   ", 9), 0);
    assert!(!chains.should_contribute_hashed(1, 12, "lol", 5, false));
    assert!(chains.should_contribute_hashed(1, 13, "lol", 5, true));
    // the chain was forgotten once the bot joined in
    assert_eq!(chains.observe_message_hashed(1, 14, "lol", 5), 1);
    chains.reset_message_chain(1);
    assert_eq!(chains.observe_message_hashed(1, 15, "lol", 5), 1);
    assert_eq!(ACTIVATION_THRESHOLD, 3);
}

#[test]
fn message_chains_with_real_hashes() {
    let mut chains = MessageChains::new();
    assert!(!chains.should_contribute(1, 1, "Hey", true));
    assert!(!chains.should_contribute(1, 2, " hey ", true));
    assert!(chains.should_contribute(1, 3, "HEY", true));
    assert!(!chains.should_contribute(2, 1, "", true));
    assert!(!chains.should_contribute(3, 1, "a", false));
}

#[test]
fn brain_runs() {
    let mut b = Brain::new();
    assert_eq!(b.observe_message(1, 10, "Hi"), 1);
    assert_eq!(b.observe_message(1, 11, "hi"), 2);
    assert_eq!(b.observe_message(1, 11, "hi"), 0);
    assert_eq!(b.observe_message(1, 12, ""), 0);
    b.reset_message_chain(1);
    assert_eq!(b.observe_message(1, 12, "x"), 1);
    let mut c = BrainChain::new("x", 1);
    c.advance("x", 2);
    assert_eq!((c.content.as_str(), c.user, c.len), ("x", 2, 2));
    c.advance("y", 3);
    assert_eq!((c.content.as_str(), c.user, c.len), ("y", 3, 0));
}

#[test]
fn emoji_counts() {
    let second: i128 = 1_000_000_000;
    let mut s = EmojiStats::new();
    s.increment_emoji_uses_at(100, 1, 0);
    assert_eq!(s.uses_of(100), 1);
    // the same interaction within five whole seconds is not counted again
    s.increment_emoji_uses_at(100, 1, 5 * second);
    assert_eq!(s.uses_of(100), 1);
    s.increment_emoji_uses_at(100, 1, 11 * second + 1);
    assert_eq!(s.uses_of(100), 2);
    s.increment_emoji_uses_at(200, 2, 11 * second + 2);
    s.increment_emoji_uses_at(200, 3, 11 * second + 3);
    s.increment_emoji_uses_at(200, 4, 11 * second + 4);
    assert_eq!(s.get_emoji_uses(), [(200, 3), (100, 2)]);
    s.decrement_emoji_uses_at(100, 5, 20 * second);
    s.decrement_emoji_uses_at(100, 6, 20 * second);
    s.decrement_emoji_uses_at(300, 7, 20 * second);
    assert_eq!(s.uses_of(100), 0);
    assert_eq!(s.uses_of(300), 0);
    assert_eq!(s.get_emoji_uses(), [(200, 3)]);
    let i = EmojiInteraction { hash: 1, time: 0 };
    assert!(!i.is_valid(1, 6 * second - 1));
    assert!(i.is_valid(1, 6 * second));
    assert!(i.is_valid(2, 0));
    let mut live = EmojiStats::new();
    live.increment_emoji_uses(9, 1);
    assert_eq!(live.uses_of(9), 1);
}

#[test]
fn persisted_state() {
    assert_eq!(parse_file_name("1234.bin"), Some(1234));
    assert_eq!(parse_file_name("1234.txt"), None);
    assert_eq!(parse_file_name(".bin"), None);
    assert_eq!(parse_file_name("x1.bin"), None);
    let mut p = Persist::new();
    assert_eq!(p.swap_build_id(42), 0);
    assert_eq!(p.build_id(), 42);
    assert!(p.cleverbot_notify(5));
    assert!(!p.cleverbot_notify(5));
    p.enable_plugin(1, "feeds");
    p.enable_plugin(1, "music");
    p.enable_plugin(1, "feeds");
    let mut plugins = p.get_guild_plugins(1);
    plugins.sort();
    assert_eq!(plugins, ["feeds", "music"]);
    assert!(p.get_guild_plugins(2).is_empty());
    p.disable_plugin(1, "feeds");
    p.disable_plugin(1, "absent");
    assert_eq!(p.get_guild_plugins(1), ["music"]);
}

#[test]
fn timers_come_out_earliest_first() {
    let mut t = TimerQueue::new();
    assert_eq!(t.next_deadline(), None);
    assert_eq!(t.pop(), None);
    t.push(1, 300);
    t.push(2, 100);
    t.push(3, 200);
    assert_eq!(t.len(), 3);
    assert_eq!(t.next_deadline(), Some(100));
    assert_eq!(t.pop(), Some((100, 2)));
    assert_eq!(t.pop(), Some((200, 3)));
    assert_eq!(t.pop(), Some((300, 1)));
    assert_eq!(t.len(), 0);
}

#[test]
fn caches_and_flags() {
    let c: Cache<u32> = Cache::new();
    assert!(c.get_state().is_none());
    let mut a: CacheAsync<u32> = CacheAsync::new();
    assert!(a.get_state().is_none());
    *a.store(5) += 1;
    assert_eq!(a.get_state(), Some(&6));
    *a.get_state_mut().unwrap() = 9;
    assert_eq!(a.get_state(), Some(&9));
    a.clear();
    assert!(a.get_state_mut().is_none());

    let f = Flag::new(false);
    let g = f.clone();
    g.set(true);
    assert!(f.get());
    assert!(f.swap(false));
    assert!(!g.get());
    let k = melody::terminal::Flag::new();
    let k2 = k.clone();
    assert!(!k.get());
    k2.set();
    assert!(k.get());
}

#[test]
fn queue_pages() {
    let items: Vec<QueueItem> = (0..12).map(|i| yt(&format!("v{i}"))).collect();
    let first = queue_page_text(&items, false, 0);
    let lines: Vec<&str> = first.lines().collect();
    assert_eq!(lines.len(), 10);
    assert_eq!(lines[0], "Now Playing <https://www.youtube.com/watch?v=v0>");
    assert_eq!(lines[9], "`#9` <https://www.youtube.com/watch?v=v9>");
    assert_eq!(
        queue_page_text(&items, true, 1),
        "`#10` <https://www.youtube.com/watch?v=v10>\n`#11` <https://www.youtube.com/watch?v=v11>\n(The queue will automatically loop)"
    );
    assert_eq!(queue_page_text(&items, true, 2), "(Nothing is playing)");
    assert_eq!(queue_page_text(&vec![], false, 0), "(Nothing is playing)");
}

#[test]
fn emoji_pages() {
    let uses = vec![(1u64, 9usize), (2, 5), (3, 4)];
    let emojis = vec![(3u64, "<:c:3>".to_owned()), (1, "<:a:1>".to_owned())];
    assert_eq!(emoji_page_text(&uses, &emojis, 0), "`#1` <:a:1> (9 times)\n`#2` <:c:3> (4 times)");
    assert_eq!(emoji_page_text(&uses, &emojis, 1), "(No results)");
    assert_eq!(emoji_page_text(&vec![], &emojis, 0), "(No results)");
    let many: Vec<(u64, usize)> = (0..25).map(|i| (i, 100 - i as usize)).collect();
    let all: Vec<(u64, String)> = (0..25).map(|i| (i, format!("e{i}"))).collect();
    assert_eq!(emoji_page_text(&many, &all, 1), "`#21` e20 (80 times)\n`#22` e21 (79 times)\n`#23` e22 (78 times)\n`#24` e23 (77 times)\n`#25` e24 (76 times)");
}

#[test]
fn music_player_replies() {
    assert_eq!(voice_check(false, Some(1), Some(1), true), Err("Music player is not enabled".to_owned()));
    assert_eq!(voice_check(true, None, Some(1), false), Err("You are not in a voice channel".to_owned()));
    assert_eq!(voice_check(true, Some(5), None, false), Ok(5));
    assert_eq!(voice_check(true, Some(5), None, true), Err("I am not in a voice channel".to_owned()));
    assert_eq!(voice_check(true, Some(5), Some(6), true), Err("We are not in the same voice channel".to_owned()));
    assert_eq!(voice_check(true, Some(5), Some(5), true), Ok(5));
    assert_eq!(action_reply(PlayerAction::Join(true), 77), "Joined channel <#77>");
    assert_eq!(action_reply(PlayerAction::Kill(true), 77), "Left channel <#77> and cleared the queue");
    assert_eq!(action_reply(PlayerAction::Kill(false), 77), "Failed to leave channel");
    assert_eq!(action_reply(PlayerAction::Pause(false), 77), "Unpaused the current track");
    assert_eq!(action_reply(PlayerAction::Loop(true), 77), "Enabled queue looping");
    assert_eq!(action_reply(PlayerAction::Stop, 77), "Stopped the player and cleared the queue");
    assert_eq!(queued_reply(Queued::Video, "<https://www.youtube.com/watch?v=a>", true), "Added video <https://www.youtube.com/watch?v=a> to queue");
    assert_eq!(queued_reply(Queued::Playlist(12), "", true), "Added playlist of 12 videos to queue");
    assert_eq!(queued_reply(Queued::Attachment, "`x.mp3`", false), "Failed to connect to channel");
    let items = playlist_items(vec!["a".to_owned(), "b".to_owned()]);
    assert_eq!(items.len(), 2);
    assert_eq!(items[1].to_display(), "<https://www.youtube.com/watch?v=b>");
    let mut q = Queue::new();
    q.append(items);
    assert!(matches!(queue_remove_reply(&mut q, 0), Err(melody::console::MelodyCommandError::PreconditionViolation("arguments"))));
    assert_eq!(queue_remove_reply(&mut q, 3).ok().unwrap(), "No item at position 3 in queue");
    assert_eq!(
        queue_remove_reply(&mut q, 1).ok().unwrap(),
        "Removed item <https://www.youtube.com/watch?v=b> from position 1 in queue"
    );
    assert_eq!(q.len(), 1);
}

#[test]
fn timer_wakeups() {
    let mut t = TimerQueue::new();
    assert_eq!(t.take_due(1_000), None);
    t.push(7, 500);
    t.push(8, 200);
    assert_eq!(t.take_due(100), None);
    assert_eq!(t.len(), 2);
    assert_eq!(t.take_due(200), Some(8));
    assert_eq!(t.take_due(400), None);
    assert_eq!(t.take_due(600), Some(7));
    assert_eq!(t.len(), 0);
}

#[test]
fn rate_windows() {
    let mut w = melody::rate_window::RateWindow::new(1_000, 3_000);
    assert_eq!(w.ready_at(), 1_000);
    assert!(w.try_ready(900));
    assert!(w.try_ready(1_000));
    assert!(!w.try_ready(1_001));
    w.release(2_000);
    assert_eq!(w.ready_at(), 5_000);
    assert_eq!(w.delay, 3_000);
}

#[derive(Debug, PartialEq)]
struct Stamp(u32);

impl melody::cacheable::Cacheable for Stamp {
    type Args<'a> = u32;
    type Error = String;

    fn stale_for(&self, args: &u32) -> bool {
        self.0 != *args
    }

    fn built(args: u32, result: Result<Stamp, String>) -> bool {
        result == Stamp::operation(args)
    }

    fn operation(args: u32) -> Result<Stamp, String> {
        if args == 0 { Err("zero".to_owned()) } else { Ok(Stamp(args)) }
    }

    fn is_invalid(&self, args: &u32) -> bool {
        self.0 != *args
    }
}

#[test]
fn cache_rebuilds_stale_values() {
    let mut cache: Cache<Stamp> = Cache::new();
    assert_eq!(cache.try_get_or_init(3).map(|s| s.0), Ok(3));
    assert_eq!(cache.get_state(), Some(&Stamp(3)));
    assert_eq!(cache.try_get_or_init(3).map(|s| s.0), Ok(3));
    assert_eq!(cache.try_get_or_init(5).map(|s| s.0), Ok(5));
    assert_eq!(cache.get_state(), Some(&Stamp(5)));
    assert_eq!(cache.try_get_or_init(0).map(|s| s.0), Err("zero".to_owned()));
    assert_eq!(cache.get_state(), None);
}

#[test]
fn fetch_outcomes() {
    match handle_fetch(vec![(5, "old"), (30, "b"), (20, "a")], Some(10), |_: &&str| true) {
        FetchOutcome::Deliver { last_update, entries } => {
            assert_eq!(last_update, 30);
            assert_eq!(entries, vec![(20, "a"), (30, "b")]);
        },
        FetchOutcome::Nothing => panic!("expected new entries"),
    }
    assert!(matches!(handle_fetch(vec![(5, "old")], Some(10), |_: &&str| true), FetchOutcome::Nothing));
    assert!(matches!(handle_fetch(vec![(5, "x")], None, |_: &&str| true), FetchOutcome::Deliver { last_update: 5, .. }));
}

#[derive(Debug, PartialEq)]
struct Doubled(u32);

impl melody::cacheable::Cacheable for Doubled {
    type Args<'a> = u32;
    type Error = std::convert::Infallible;

    fn stale_for(&self, args: &u32) -> bool {
        self.0 != *args * 2
    }

    fn built(args: u32, result: Result<Doubled, std::convert::Infallible>) -> bool {
        result == Ok(Doubled(args * 2))
    }

    fn operation(args: u32) -> Result<Doubled, std::convert::Infallible> {
        Ok(Doubled(args * 2))
    }

    fn is_invalid(&self, args: &u32) -> bool {
        self.0 != *args * 2
    }
}

#[test]
fn cache_infallible() {
    let mut cache: Cache<Doubled> = Cache::new();
    assert_eq!(cache.get_or_init(2).0, 4);
    assert_eq!(cache.get_or_init(2).0, 4);
    assert_eq!(cache.get_or_init(5).0, 10);
    assert_eq!(cache.get_state(), Some(&Doubled(10)));
}

#[test]
fn build_ids() {
    let a = melody::build_id::build_id_of(&vec![b"abc".to_vec(), b"def".to_vec()]);
    let b = melody::build_id::build_id_of(&vec![b"abc".to_vec(), b"def".to_vec()]);
    let c = melody::build_id::build_id_of(&vec![b"abc".to_vec(), b"deg".to_vec()]);
    assert_eq!(a, b);
    assert_ne!(a, c);
}
