use melody::feed_entries::{
    decompose_feed, decompose_posts, decompose_videos,
    with_domain, EntryMinimal, FeedEntry, FeedMedia, MediaMinimal, RawEntry, RawMedia, RawMediaContent,
    TwitterPost, YouTubeVideo,
};
use melody::feeds::{ContentType, FeedContentType, SchemaError};

fn s(x: &str) -> String {
    x.to_string()
}

fn media(description: Option<&str>, contents: Vec<(Option<&str>, Option<&str>)>, thumbs: Vec<&str>) -> RawMedia {
    RawMedia {
        title: Some(s("media title")),
        description: description.map(s),
        contents: contents
            .into_iter()
            .map(|(t, u)| RawMediaContent { content_type: t.map(s), url: u.map(s) })
            .collect(),
        thumbnail_uris: thumbs.into_iter().map(s).collect(),
    }
}

fn video_entry() -> RawEntry {
    RawEntry {
        id: s("yt:video:abc"),
        title: Some(s("A video")),
        content_body: None,
        summary: Some(s("summary")),
        authors: vec![s("Ann"), s("Bo")],
        link_hrefs: vec![s("not a url"), s("https://www.youtube.com/watch?v=abc")],
        published: Some(1_700_000_000_000),
        categories: vec![s("music"), s("other")],
        media: vec![media(
            Some("about it"),
            vec![(Some("video"), Some("https://www.youtube.com/v/abc"))],
            vec!["::bad::", "https://i.ytimg.com/vi/abc/hqdefault.jpg"],
        )],
    }
}

#[test]
fn youtube_video_from_raw_entry() {
    let v = YouTubeVideo::try_from_entry(&video_entry()).unwrap();
    assert_eq!(v.id, "abc");
    assert_eq!(v.title, "A video");
    assert_eq!(v.author, "Ann, Bo");
    assert_eq!(v.description, "about it");
    assert_eq!(v.link, "https://www.youtube.com/watch?v=abc");
    assert_eq!(v.time, 1_700_000_000_000);
    assert_eq!(v.thumbnail, "https://i.ytimg.com/vi/abc/hqdefault.jpg");

    let mut wrong_id = video_entry();
    wrong_id.id = s("abc");
    assert!(matches!(YouTubeVideo::try_from_entry(&wrong_id), Err(SchemaError)));
    let mut no_media = video_entry();
    no_media.media.clear();
    assert!(matches!(YouTubeVideo::try_from_entry(&no_media), Err(SchemaError)));
    let mut no_time = video_entry();
    no_time.published = None;
    assert!(matches!(YouTubeVideo::try_from_entry(&no_time), Err(SchemaError)));
}

#[test]
fn general_entries() {
    let mut e = video_entry();
    e.link_hrefs = vec![s("https://yt.example.com/watch?v=abc")];
    let f = FeedEntry::from_entry(&e).unwrap();
    assert_eq!(f.id, "yt:video:abc");
    assert_eq!(f.author.as_deref(), Some("Ann"));
    assert_eq!(f.category.as_deref(), Some("music"));
    assert_eq!(f.link.as_deref(), Some("https://yt.example.com/watch?v=abc"));
    assert_eq!(f.media.len(), 1);
    assert_eq!(f.media[0].thumbnails, vec![s("https://i.ytimg.com/vi/abc/hqdefault.jpg")]);
    let v = YouTubeVideo::from_feed_entry(&f).unwrap();
    assert_eq!(v.link, "https://www.youtube.com/watch?v=abc");
    assert_eq!(v.author, "Ann");

    let mut undated = video_entry();
    undated.published = None;
    assert!(FeedEntry::from_entry(&undated).is_none());
}

#[test]
fn media_objects() {
    let m = media(None, vec![(Some("video"), None), (Some("image"), Some("https://img.example/x.png"))], vec![]);
    let f = FeedMedia::from_media_object(&m).unwrap();
    assert_eq!(f.content_type, FeedContentType::Image);
    assert_eq!(f.link.as_deref(), Some("https://img.example/x.png"));
    let g = MediaMinimal::try_from_media(&m).unwrap();
    assert_eq!(g.content_type, ContentType::Video);
    assert_eq!(g.link, None);
    let unknown = media(None, vec![(Some("model"), Some("https://x.example/"))], vec![]);
    assert!(FeedMedia::from_media_object(&unknown).is_none());
    assert!(matches!(MediaMinimal::try_from_media(&unknown), Err(SchemaError)));
}

#[test]
fn minimal_entries() {
    let mut e = video_entry();
    e.authors.clear();
    let m = EntryMinimal::try_from_entry(&e).unwrap();
    assert_eq!(m.author, None);
    assert_eq!(m.media.len(), 1);
    assert_eq!(m.media[0].content_type, ContentType::Video);
    e.media.push(media(None, vec![(Some("model"), None)], vec![]));
    assert!(matches!(EntryMinimal::try_from_entry(&e), Err(SchemaError)));
    let with_authors = EntryMinimal::try_from_entry(&video_entry()).unwrap();
    assert_eq!(with_authors.author.as_deref(), Some("Ann, Bo"));
}

#[test]
fn twitter_posts() {
    let e = RawEntry {
        id: s("1"),
        title: Some(s("hello")),
        content_body: None,
        summary: None,
        authors: vec![s("@jack")],
        link_hrefs: vec![s("https://nitter.net/jack/status/1#m")],
        published: Some(5),
        categories: vec![],
        media: vec![],
    };
    let p = TwitterPost::try_from_entry(&e).unwrap();
    assert_eq!(p.title, "hello");
    assert_eq!(p.author, "@jack");
    assert_eq!(p.link, "https://twitter.com/jack/status/1");
    assert_eq!(p.time, 5);
    let f = FeedEntry::from_entry(&e).unwrap();
    let q = TwitterPost::from_feed_entry(&f).unwrap();
    assert_eq!(q.author, "jack");
    assert_eq!(q.link, "https://twitter.com/jack/status/1");
    let mut untitled = e.clone();
    untitled.title = None;
    assert!(matches!(TwitterPost::try_from_entry(&untitled), Err(SchemaError)));
}

#[test]
fn display_domains() {
    assert_eq!(with_domain("https://www.youtube.com/watch?v=abc", "yt.example"), "https://yt.example/watch?v=abc");
    assert_eq!(with_domain("not a url", "yt.example"), "not a url");
}

#[test]
fn whole_feeds() {
    let ok = video_entry();
    let mut undated = video_entry();
    undated.published = None;
    let mut wrong_id = video_entry();
    wrong_id.id = s("x");
    let feed = decompose_feed(&vec![ok.clone(), ok.clone()]).ok().unwrap();
    assert_eq!(feed.len(), 2);
    assert_eq!(decompose_feed(&vec![ok.clone(), undated.clone(), ok.clone()]).err(), Some(1));
    let videos = decompose_videos(&vec![ok.clone()]).ok().unwrap();
    assert_eq!(videos[0].id, "abc");
    assert_eq!(decompose_videos(&vec![ok.clone(), ok.clone(), wrong_id.clone()]).err(), Some(2));
    assert!(YouTubeVideo::from_entry(&ok).is_some());
    let mut post = video_entry();
    post.link_hrefs = vec![s("https://nitter.net/jack/status/1#m")];
    let posts = decompose_posts(&vec![post.clone()]).ok().unwrap();
    assert_eq!(posts[0].link, "https://twitter.com/jack/status/1");
    assert_eq!(posts[0].author, "Ann");
    assert_eq!(decompose_posts(&vec![undated]).err(), Some(0));
    assert!(TwitterPost::from_entry(&post).is_some());
}
