use melody::feed_config::{ConfigRssTwitter, ConfigRssYouTube};
use melody::feeds_replies::{
    feed_list_reply, not_text_based_reply, parse_failure_reply, register_reply, remove_all_reply, unregister_reply,
    RegisterFeedResult, UnregisterFeedResult,
};
use melody::feeds::{
    convert_feed_entries, parse_twitter_handle, parse_youtube_channel, ContentType, FeedContentType, FeedIdentifier,
    FeedIdentifierTwitter, FeedIdentifierYouTube, FeedType, SchemaError,
};

#[test]
fn youtube_channel_ids() {
    assert!(parse_youtube_channel("UC7_YxT-KID8kRbqZo7MyscQ"));
    assert!(!parse_youtube_channel("UC7_YxT-KID8kRbqZo7MyscX"));
    assert!(!parse_youtube_channel("UX7_YxT-KID8kRbqZo7MyscQ"));
    assert!(!parse_youtube_channel("UC7_YxT-KID8kRbqZo7Mysc"));
    assert!(!parse_youtube_channel("UC7_YxT KID8kRbqZo7MyscQ"));
}

#[test]
fn twitter_handles() {
    assert_eq!(parse_twitter_handle("markiplier"), Some("markiplier".to_owned()));
    assert_eq!(parse_twitter_handle("@jack_1"), Some("jack_1".to_owned()));
    assert_eq!(parse_twitter_handle("@"), None);
    assert_eq!(parse_twitter_handle(""), None);
    assert_eq!(parse_twitter_handle("this_is_sixteen_"), None);
    assert_eq!(parse_twitter_handle("fifteen_chars__"), Some("fifteen_chars__".to_owned()));
    assert_eq!(parse_twitter_handle("bad-handle"), None);
}

#[test]
fn feed_sources() {
    match FeedType::YouTube.with_source("UC7_YxT-KID8kRbqZo7MyscQ") {
        Some(FeedIdentifier::YouTube(y)) => assert_eq!(y.channel, "UC7_YxT-KID8kRbqZo7MyscQ"),
        other => panic!("unexpected {other:?}"),
    }
    match FeedType::Twitter.with_source("@Someone") {
        Some(FeedIdentifier::Twitter(t)) => assert_eq!(t.handle, "Someone"),
        other => panic!("unexpected {other:?}"),
    }
    assert!(FeedType::YouTube.with_source("@Someone").is_none());
    assert!(FeedType::Twitter.with_source("UC7_YxT-KID8kRbqZo7MyscQ").is_none());
}

#[test]
fn feed_display_and_sameness() {
    let y = FeedIdentifier::YouTube(FeedIdentifierYouTube { channel: "UCabc".to_owned() });
    assert_eq!(y.to_display(), "www.youtube.com/channel/UCabc");
    let t1 = FeedIdentifier::Twitter(FeedIdentifierTwitter { handle: "Jack".to_owned() });
    let t2 = FeedIdentifier::Twitter(FeedIdentifierTwitter { handle: "jACK".to_owned() });
    assert_eq!(t1.to_display(), "twitter.com/Jack");
    assert!(t1.same_as(&t2));
    assert!(!t1.same_as(&y));
    let y2 = FeedIdentifier::YouTube(FeedIdentifierYouTube { channel: "UCABC".to_owned() });
    assert!(!y.same_as(&y2));
    assert!(y.same_as(&y.clone()));
}

#[test]
fn media_kinds() {
    assert_eq!(FeedContentType::from_mime_type("image"), Some(FeedContentType::Image));
    assert_eq!(FeedContentType::from_mime_type("Image"), None);
    assert_eq!(FeedContentType::Application.into_str(), "application");
    assert_eq!(ContentType::try_from_media_type("video"), Ok(ContentType::Video));
    assert_eq!(ContentType::try_from_media_type("model"), Err(SchemaError));
    assert_eq!(ContentType::Font.to_str(), "font");
    assert_eq!(SchemaError.message(), "failed to perform a conversion");
}

#[test]
fn converting_entries_stops_at_first_failure() {
    let ok: Result<Vec<u32>, String> = convert_feed_entries(vec![1u32, 2, 3], |x| Ok(x * 10));
    assert_eq!(ok, Ok(vec![10, 20, 30]));
    let err: Result<Vec<u32>, u32> = convert_feed_entries(vec![1u32, 2, 3, 4], |x| if x % 2 == 0 { Err(x) } else { Ok(x) });
    assert_eq!(err, Err(2));
    let empty: Result<Vec<u32>, u32> = convert_feed_entries(Vec::new(), |x: u32| Ok(x));
    assert_eq!(empty, Ok(vec![]));
}

#[test]
fn feed_command_replies() {
    let y = FeedIdentifier::YouTube(FeedIdentifierYouTube { channel: "UCabc".to_owned() });
    let t = FeedIdentifier::Twitter(FeedIdentifierTwitter { handle: "jack".to_owned() });
    assert_eq!(parse_failure_reply(), "Failed to parse feed source");
    assert_eq!(not_text_based_reply(5), "Channel <#5> is not text-based");
    assert_eq!(
        register_reply(&y, 5, RegisterFeedResult::FeedChannelRegistered),
        "Successfully added feed for <https://www.youtube.com/channel/UCabc> in <#5>"
    );
    assert_eq!(
        register_reply(&t, 6, RegisterFeedResult::FeedChannelReplaced(5)),
        "Successfully updated feed channel for <https://twitter.com/jack> from <#5> to <#6>"
    );
    assert_eq!(register_reply(&t, 6, RegisterFeedResult::FeedNotEnabled), "Feeds of this type are disabled");
    assert_eq!(
        unregister_reply(&t, UnregisterFeedResult::FeedChannelUnregistered(6)),
        "Successfully removed feed for <https://twitter.com/jack> in <#6>"
    );
    assert_eq!(unregister_reply(&t, UnregisterFeedResult::FeedNotRegistered), "Found no such feed for this server");
    assert_eq!(remove_all_reply(0), "No feeds to remove");
    assert_eq!(remove_all_reply(3), "Successfully removed 3 feeds");
    assert_eq!(feed_list_reply(&vec![]), "No feeds to show");
    assert_eq!(
        feed_list_reply(&vec![(y, 5, 1_000_000), (t, 6, 2_500)]),
        "<https://www.youtube.com/channel/UCabc> for <#5>, last entry <t:1000:f>\n<https://twitter.com/jack> for <#6>, last entry <t:2:f>"
    );
}

#[test]
fn youtube_feed_urls() {
    let config = ConfigRssYouTube {
        base_url: "www.youtube.com/feeds/videos.xml?channel_id=".to_string(),
        display_domain: "www.youtube.com".to_string(),
    };
    assert_eq!(
        config.url("UC7_YxT-KID8kRbqZo7MyscQ"),
        "https://www.youtube.com/feeds/videos.xml?channel_id=UC7_YxT-KID8kRbqZo7MyscQ"
    );
    let prefixed = ConfigRssYouTube {
        base_url: "https://https://yt.example/feed?c=".to_string(),
        display_domain: "yt.example".to_string(),
    };
    assert_eq!(prefixed.url("abc"), "https://yt.example/feed?c=abc");
}

#[test]
fn nitter_feed_urls() {
    let config = ConfigRssTwitter {
        nitter_instances: vec!["https://nitter.net//".to_string(), "nitter.example".to_string()],
        display_domain: "twitter.com".to_string(),
    };
    assert_eq!(config.url_on(0, "markiplier"), "https://nitter.net/markiplier/rss");
    assert_eq!(config.url_on(1, "markiplier"), "https://nitter.example/markiplier/rss");
    let drawn = config.url("jack");
    assert!(drawn == "https://nitter.net/jack/rss" || drawn == "https://nitter.example/jack/rss");
}
