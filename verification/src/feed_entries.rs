//! Turning the entries of a parsed RSS or Atom feed into the shapes the feed
//! tasks post: general entries and media, YouTube videos and Twitter posts.
//! An entry comes in as plain values (`RawEntry`); links are read with the
//! `url` crate, and a time is milliseconds since the Unix epoch.
use vstd::prelude::*;
use crate::feed_config::{starts_at, trim_start_all, trimmed};
use crate::feeds::{media_kind_of, ContentType, FeedContentType, SchemaError};
use crate::split::strings_view;
use crate::text::{chars_of, copy_string, push_str, substring};
use crate::youtube::{opt_view, parse_url, parsed_url};

verus! {

/// One `media:content` of a media object: the top-level type of its media
/// type (`video` of `video/mp4`) and its URL, where given.
#[derive(Debug, Clone)]
pub struct RawMediaContent {
    pub content_type: Option<String>,
    pub url: Option<String>,
}

/// A `media:group` of a feed entry.
#[derive(Debug, Clone)]
pub struct RawMedia {
    pub title: Option<String>,
    pub description: Option<String>,
    pub contents: Vec<RawMediaContent>,
    /// The URIs of the thumbnails, as written in the feed.
    pub thumbnail_uris: Vec<String>,
}

/// A feed entry as the feed parser hands it over.
#[derive(Debug, Clone)]
pub struct RawEntry {
    pub id: String,
    pub title: Option<String>,
    /// The body of the entry's content, where it has one.
    pub content_body: Option<String>,
    pub summary: Option<String>,
    /// The authors' names, in order.
    pub authors: Vec<String>,
    /// The `href` of each link, in order.
    pub link_hrefs: Vec<String>,
    /// When the entry was published, in milliseconds since the Unix epoch.
    pub published: Option<i64>,
    /// The terms of the entry's categories, in order.
    pub categories: Vec<String>,
    pub media: Vec<RawMedia>,
}

// ---------------------------------------------------------------------------
// Links.

/// What `url::Url::set_host` makes of the URL written out as `url` when the
/// host becomes `host`: `None` where the URL does not parse or takes no host.
pub uninterp spec fn url_with_host(url: Seq<char>, host: Seq<char>) -> Option<Seq<char>>;

/// `url::Url::parse` of a URL as the crate wrote it out, then
/// `Url::set_host(Some(host))`, then the URL written out again. Its result is
/// named by `url_with_host`; nothing more of it is stated.
#[verifier::external_body]
fn set_url_host(url: &str, host: &str) -> (r: Option<String>)
    ensures
        match url_with_host(url@, host@) {
            Some(u) => r matches Some(s) && s@ == u,
            None => r is None,
        },
{
    let mut u = url::Url::parse(url).ok()?;
    u.set_host(Some(host)).ok()?;
    Some(u.as_str().to_owned())
}

/// What `url::Url::set_fragment(None)` makes of the URL written out as `url`:
/// `None` where `url` does not parse.
pub uninterp spec fn url_without_fragment(url: Seq<char>) -> Option<Seq<char>>;

/// `url::Url::parse` of a URL as the crate wrote it out, then
/// `Url::set_fragment(None)`, then the URL written out again. Its result is
/// named by `url_without_fragment`; nothing more of it is stated.
#[verifier::external_body]
fn clear_url_fragment(url: &str) -> (r: Option<String>)
    ensures
        match url_without_fragment(url@) {
            Some(u) => r matches Some(s) && s@ == u,
            None => r is None,
        },
{
    let mut u = url::Url::parse(url).ok()?;
    u.set_fragment(None);
    Some(u.as_str().to_owned())
}

/// A link without its fragment; a link that does not parse (which a link
/// the crate wrote out always does) is kept as it is.
pub open spec fn unfragmented(url: Seq<char>) -> Seq<char> {
    match url_without_fragment(url) {
        Some(u) => u,
        None => url,
    }
}

fn drop_fragment(url: String) -> (r: String)
    ensures r@ == unfragmented(url@),
{
    match clear_url_fragment(url.as_str()) {
        Some(u) => u,
        None => url,
    }
}

/// `url` moved to `domain`: the URL with its host replaced, or `url` itself
/// where the host cannot be set.
pub open spec fn with_domain_spec(url: Seq<char>, domain: Seq<char>) -> Seq<char> {
    match url_with_host(url, domain) {
        Some(u) => u,
        None => url,
    }
}

/// The link to post for a feed item, shown on `domain` in place of the
/// domain the feed gave; where that host cannot be set, the link as it was.
pub fn with_domain(url: &str, domain: &str) -> (r: String)
    ensures r@ == with_domain_spec(url@, domain@),
{
    match set_url_host(url, domain) {
        Some(u) => u,
        None => url.to_owned(),
    }
}

/// The first of `hrefs` that parses as a URL, written out as the crate does.
pub open spec fn first_url(hrefs: Seq<Seq<char>>) -> Option<Seq<char>>
    decreases hrefs.len(),
{
    if hrefs.len() == 0 {
        None
    } else {
        match parsed_url(hrefs[0]) {
            Some(p) => Some(p.0),
            None => first_url(hrefs.drop_first()),
        }
    }
}

/// Every one of `uris` that parses as a URL, written out, in order.
pub open spec fn parsed_urls(uris: Seq<Seq<char>>) -> Seq<Seq<char>>
    decreases uris.len(),
{
    if uris.len() == 0 {
        Seq::empty()
    } else {
        parsed_urls(uris.drop_last()) + match parsed_url(uris.last()) {
            Some(p) => seq![p.0],
            None => Seq::empty(),
        }
    }
}

fn first_url_of(hrefs: &Vec<String>) -> (r: Option<String>)
    ensures opt_view(r) == first_url(strings_view(hrefs@)),
{
    let mut i: usize = 0;
    assert(strings_view(hrefs@).skip(0) =~= strings_view(hrefs@));
    while i < hrefs.len()
        invariant
            i <= hrefs@.len(),
            first_url(strings_view(hrefs@)) == first_url(strings_view(hrefs@).skip(i as int)),
        decreases hrefs@.len() - i,
    {
        assert(strings_view(hrefs@).skip(i as int).drop_first() =~= strings_view(hrefs@).skip(i + 1));
        assert(strings_view(hrefs@).skip(i as int)[0] == hrefs@[i as int]@);
        match parse_url(hrefs[i].as_str()) {
            Some(u) => return Some(u.serialized),
            None => {},
        }
        i = i + 1;
    }
    assert(strings_view(hrefs@).skip(i as int) =~= Seq::<Seq<char>>::empty());
    None
}

fn parsed_urls_of(uris: &Vec<String>) -> (r: Vec<String>)
    ensures strings_view(r@) == parsed_urls(strings_view(uris@)),
{
    let mut out: Vec<String> = Vec::new();
    let mut i: usize = 0;
    while i < uris.len()
        invariant
            i <= uris@.len(),
            strings_view(out@) == parsed_urls(strings_view(uris@).take(i as int)),
        decreases uris@.len() - i,
    {
        let ghost before = out@;
        assert(strings_view(uris@).take(i + 1).drop_last() =~= strings_view(uris@).take(i as int));
        assert(strings_view(uris@).take(i + 1).last() == uris@[i as int]@);
        match parse_url(uris[i].as_str()) {
            Some(u) => {
                out.push(u.serialized);
                assert(strings_view(out@) =~= strings_view(before).push(u.serialized@));
            },
            None => {},
        }
        i = i + 1;
    }
    assert(strings_view(uris@).take(uris@.len() as int) =~= strings_view(uris@));
    out
}

/// The names joined by `", "`.
pub open spec fn join_names(names: Seq<Seq<char>>) -> Seq<char>
    decreases names.len(),
{
    if names.len() == 0 {
        Seq::empty()
    } else if names.len() == 1 {
        names[0]
    } else {
        join_names(names.drop_last()) + ", "@ + names.last()
    }
}

fn join_all(names: &Vec<String>) -> (r: String)
    ensures r@ == join_names(strings_view(names@)),
{
    let mut s = String::new();
    let mut i: usize = 0;
    while i < names.len()
        invariant
            i <= names@.len(),
            s@ == join_names(strings_view(names@).take(i as int)),
        decreases names@.len() - i,
    {
        assert(strings_view(names@).take(i + 1).drop_last() =~= strings_view(names@).take(i as int));
        assert(strings_view(names@).take(i + 1).last() == names@[i as int]@);
        if i > 0 {
            push_str(&mut s, ", ");
        }
        push_str(&mut s, names[i].as_str());
        i = i + 1;
    }
    assert(strings_view(names@).take(names@.len() as int) =~= strings_view(names@));
    s
}

/// The first of a list of strings.
fn first_of(v: &Vec<String>) -> (r: Option<String>)
    ensures
        opt_view(r) == (if v@.len() > 0 { Some(v@[0]@) } else { None::<Seq<char>> }),
{
    if v.len() > 0 { Some(copy_string(&v[0])) } else { None }
}

fn copy_opt(o: &Option<String>) -> (r: Option<String>)
    ensures opt_view(r) == opt_view(*o),
{
    match o {
        Some(s) => Some(copy_string(s)),
        None => None,
    }
}

/// `s` without the prefix `p`, where it starts with it.
pub open spec fn strip_prefix_spec(s: Seq<char>, p: Seq<char>) -> Option<Seq<char>> {
    if s.len() >= p.len() && s.take(p.len() as int) == p { Some(s.skip(p.len() as int)) } else { None }
}

fn strip_prefix(s: &str, p: &str) -> (r: Option<String>)
    ensures opt_view(r) == strip_prefix_spec(s@, p@),
{
    let chars = chars_of(s);
    let pc = chars_of(p);
    assert(chars@.skip(0) =~= chars@);
    if starts_at(&chars, 0, &pc) {
        let rest = substring(&chars, pc.len(), chars.len());
        assert(chars@.subrange(pc@.len() as int, chars@.len() as int) =~= chars@.skip(pc@.len() as int));
        Some(rest)
    } else {
        None
    }
}


// ---------------------------------------------------------------------------
// Media.

/// The kind and link of the first content of a known kind that has a link.
pub open spec fn first_typed_link(cs: Seq<RawMediaContent>) -> Option<(FeedContentType, Seq<char>)>
    decreases cs.len(),
{
    if cs.len() == 0 {
        None
    } else {
        match (cs[0].content_type, cs[0].url) {
            (Some(t), Some(u)) => match media_kind_of(t@) {
                Some(k) => Some((k, u@)),
                None => first_typed_link(cs.drop_first()),
            },
            _ => first_typed_link(cs.drop_first()),
        }
    }
}

/// The kind of the first content of a known kind, and its link if it has one.
pub open spec fn first_typed(cs: Seq<RawMediaContent>) -> Option<(FeedContentType, Option<Seq<char>>)>
    decreases cs.len(),
{
    if cs.len() == 0 {
        None
    } else {
        match cs[0].content_type {
            Some(t) => match media_kind_of(t@) {
                Some(k) => Some((k, opt_view(cs[0].url))),
                None => first_typed(cs.drop_first()),
            },
            None => first_typed(cs.drop_first()),
        }
    }
}

fn kind_of(t: &Option<String>) -> (r: Option<FeedContentType>)
    ensures
        r == match *t {
            Some(s) => media_kind_of(s@),
            None => None,
        },
{
    match t {
        Some(s) => FeedContentType::from_mime_type(s.as_str()),
        None => None,
    }
}

fn find_typed_link(cs: &Vec<RawMediaContent>) -> (r: Option<(FeedContentType, String)>)
    ensures
        match first_typed_link(cs@) {
            Some((k, u)) => r matches Some((k2, u2)) && k2 == k && u2@ == u,
            None => r is None,
        },
{
    let mut i: usize = 0;
    assert(cs@.skip(0) =~= cs@);
    while i < cs.len()
        invariant
            i <= cs@.len(),
            first_typed_link(cs@) == first_typed_link(cs@.skip(i as int)),
        decreases cs@.len() - i,
    {
        assert(cs@.skip(i as int).drop_first() =~= cs@.skip(i + 1));
        assert(cs@.skip(i as int)[0] == cs@[i as int]);
        match kind_of(&cs[i].content_type) {
            Some(k) => match &cs[i].url {
                Some(u) => return Some((k, copy_string(u))),
                None => {},
            },
            None => {},
        }
        i = i + 1;
    }
    assert(cs@.skip(i as int) =~= Seq::<RawMediaContent>::empty());
    None
}

fn find_typed(cs: &Vec<RawMediaContent>) -> (r: Option<(FeedContentType, Option<String>)>)
    ensures
        match first_typed(cs@) {
            Some((k, u)) => r matches Some((k2, u2)) && k2 == k && opt_view(u2) == u,
            None => r is None,
        },
{
    let mut i: usize = 0;
    assert(cs@.skip(0) =~= cs@);
    while i < cs.len()
        invariant
            i <= cs@.len(),
            first_typed(cs@) == first_typed(cs@.skip(i as int)),
        decreases cs@.len() - i,
    {
        assert(cs@.skip(i as int).drop_first() =~= cs@.skip(i + 1));
        assert(cs@.skip(i as int)[0] == cs@[i as int]);
        match kind_of(&cs[i].content_type) {
            Some(k) => return Some((k, copy_opt(&cs[i].url))),
            None => {},
        }
        i = i + 1;
    }
    assert(cs@.skip(i as int) =~= Seq::<RawMediaContent>::empty());
    None
}

/// A media object of a general feed entry.
#[derive(Debug, Clone)]
pub struct FeedMedia {
    pub title: Option<String>,
    pub description: Option<String>,
    pub content_type: FeedContentType,
    pub link: Option<String>,
    /// The thumbnails that parse as URLs, written out.
    pub thumbnails: Vec<String>,
}

/// `f` is what `m` becomes: its title and description, the kind and link of
/// its first content of a known kind that has a link, and the thumbnails that
/// parse as URLs.
pub open spec fn feed_media_of(f: FeedMedia, m: RawMedia) -> bool {
    match first_typed_link(m.contents@) {
        Some((k, u)) => {
            &&& opt_view(f.title) == opt_view(m.title)
            &&& opt_view(f.description) == opt_view(m.description)
            &&& f.content_type == k
            &&& opt_view(f.link) == Some(u)
            &&& strings_view(f.thumbnails@) == parsed_urls(strings_view(m.thumbnail_uris@))
        },
        None => false,
    }
}

impl FeedMedia {
    /// The media object, or `None` where no content of a known kind has a link.
    pub fn from_media_object(m: &RawMedia) -> (r: Option<FeedMedia>)
        ensures
            match first_typed_link(m.contents@) {
                Some(_) => r matches Some(f) && feed_media_of(f, *m),
                None => r is None,
            },
    {
        match find_typed_link(&m.contents) {
            Some((k, u)) => Some(FeedMedia {
                title: copy_opt(&m.title),
                description: copy_opt(&m.description),
                content_type: k,
                link: Some(u),
                thumbnails: parsed_urls_of(&m.thumbnail_uris),
            }),
            None => None,
        }
    }
}

/// A media object of an entry, as the feed model keeps it.
#[derive(Debug, Clone)]
pub struct MediaMinimal {
    pub title: Option<String>,
    pub description: Option<String>,
    pub content_type: ContentType,
    pub link: Option<String>,
    pub thumbnails: Vec<String>,
}

/// `f` is what `m` becomes: its title and description, the kind of its first
/// content of a known kind and that content's link, and the thumbnails that
/// parse as URLs.
pub open spec fn media_minimal_of(f: MediaMinimal, m: RawMedia) -> bool {
    match first_typed(m.contents@) {
        Some((k, u)) => {
            &&& opt_view(f.title) == opt_view(m.title)
            &&& opt_view(f.description) == opt_view(m.description)
            &&& f.content_type.kind() == k
            &&& opt_view(f.link) == u
            &&& strings_view(f.thumbnails@) == parsed_urls(strings_view(m.thumbnail_uris@))
        },
        None => false,
    }
}

fn content_type_of(k: FeedContentType) -> (r: ContentType)
    ensures r.kind() == k,
{
    match k {
        FeedContentType::Audio => ContentType::Audio,
        FeedContentType::Video => ContentType::Video,
        FeedContentType::Image => ContentType::Image,
        FeedContentType::Application => ContentType::Application,
        FeedContentType::Text => ContentType::Text,
        FeedContentType::Font => ContentType::Font,
    }
}

impl MediaMinimal {
    /// The media object, or `SchemaError` where no content is of a known kind.
    pub fn try_from_media(m: &RawMedia) -> (r: Result<MediaMinimal, SchemaError>)
        ensures
            match first_typed(m.contents@) {
                Some(_) => r matches Ok(f) && media_minimal_of(f, *m),
                None => r == Err::<MediaMinimal, SchemaError>(SchemaError),
            },
    {
        match find_typed(&m.contents) {
            Some((k, u)) => Ok(MediaMinimal {
                title: copy_opt(&m.title),
                description: copy_opt(&m.description),
                content_type: content_type_of(k),
                link: u,
                thumbnails: parsed_urls_of(&m.thumbnail_uris),
            }),
            None => Err(SchemaError),
        }
    }
}


// ---------------------------------------------------------------------------
// Entries.

/// The first of a list of names, where there is one.
pub open spec fn first_name(v: Seq<String>) -> Option<Seq<char>> {
    if v.len() > 0 { Some(v[0]@) } else { None }
}

/// A general feed entry.
#[derive(Debug, Clone)]
pub struct FeedEntry {
    pub id: String,
    pub title: Option<String>,
    pub content: Option<String>,
    pub summary: Option<String>,
    /// The first author.
    pub author: Option<String>,
    /// The first link that parses as a URL, written out.
    pub link: Option<String>,
    /// When it was published, in milliseconds since the Unix epoch.
    pub time: i64,
    /// The first category.
    pub category: Option<String>,
    pub media: Vec<FeedMedia>,
}

/// `out` holds, in order, what becomes of each of `ms` that has a content of
/// a known kind with a link; the others are left out.
pub open spec fn kept_media(out: Seq<FeedMedia>, ms: Seq<RawMedia>) -> bool
    decreases ms.len(),
{
    if ms.len() == 0 {
        out.len() == 0
    } else {
        match first_typed_link(ms.last().contents@) {
            Some(_) => out.len() > 0 && feed_media_of(out.last(), ms.last()) && kept_media(out.drop_last(), ms.drop_last()),
            None => kept_media(out, ms.drop_last()),
        }
    }
}

/// `f` holds the fields of `e` that a general entry keeps.
pub open spec fn feed_entry_of(f: FeedEntry, e: RawEntry) -> bool {
    &&& e.published == Some(f.time)
    &&& f.id@ == e.id@
    &&& opt_view(f.title) == opt_view(e.title)
    &&& opt_view(f.content) == opt_view(e.content_body)
    &&& opt_view(f.summary) == opt_view(e.summary)
    &&& opt_view(f.author) == first_name(e.authors@)
    &&& opt_view(f.link) == first_url(strings_view(e.link_hrefs@))
    &&& opt_view(f.category) == first_name(e.categories@)
    &&& kept_media(f.media@, e.media@)
}

fn collect_feed_media(ms: &Vec<RawMedia>) -> (r: Vec<FeedMedia>)
    ensures kept_media(r@, ms@),
{
    let mut out: Vec<FeedMedia> = Vec::new();
    let mut i: usize = 0;
    while i < ms.len()
        invariant
            i <= ms@.len(),
            kept_media(out@, ms@.take(i as int)),
        decreases ms@.len() - i,
    {
        let ghost before = out@;
        assert(ms@.take(i + 1).drop_last() =~= ms@.take(i as int));
        assert(ms@.take(i + 1).last() == ms@[i as int]);
        match FeedMedia::from_media_object(&ms[i]) {
            Some(f) => {
                out.push(f);
                assert(out@.drop_last() =~= before);
            },
            None => {},
        }
        i = i + 1;
    }
    assert(ms@.take(ms@.len() as int) =~= ms@);
    out
}

impl FeedEntry {
    /// The entry, or `None` where it has no publication time.
    pub fn from_entry(e: &RawEntry) -> (r: Option<FeedEntry>)
        ensures
            match e.published {
                Some(_) => r matches Some(f) && feed_entry_of(f, *e),
                None => r is None,
            },
    {
        let time = match e.published {
            Some(t) => t,
            None => return None,
        };
        Some(FeedEntry {
            id: copy_string(&e.id),
            title: copy_opt(&e.title),
            content: copy_opt(&e.content_body),
            summary: copy_opt(&e.summary),
            author: first_of(&e.authors),
            link: first_url_of(&e.link_hrefs),
            time,
            category: first_of(&e.categories),
            media: collect_feed_media(&e.media),
        })
    }
}

/// An entry, as the feed model keeps it.
#[derive(Debug, Clone)]
pub struct EntryMinimal {
    pub id: String,
    pub title: Option<String>,
    pub content: Option<String>,
    pub summary: Option<String>,
    /// The authors joined by `", "`, where that is not empty.
    pub author: Option<String>,
    pub link: Option<String>,
    pub time: i64,
    pub category: Option<String>,
    pub media: Vec<MediaMinimal>,
}

/// The authors joined by `", "`, or `None` where that comes out empty.
pub open spec fn joined_authors(v: Seq<String>) -> Option<Seq<char>> {
    let j = join_names(strings_view(v));
    if j.len() == 0 { None } else { Some(j) }
}

/// Whether every media object has a content of a known kind.
pub open spec fn all_media_typed(ms: Seq<RawMedia>) -> bool {
    forall|i: int| 0 <= i < ms.len() ==> (#[trigger] first_typed(ms[i].contents@)) is Some
}

/// `f` holds the fields of `e` that the feed model keeps.
pub open spec fn entry_minimal_of(f: EntryMinimal, e: RawEntry) -> bool {
    &&& e.published == Some(f.time)
    &&& f.id@ == e.id@
    &&& opt_view(f.title) == opt_view(e.title)
    &&& opt_view(f.content) == opt_view(e.content_body)
    &&& opt_view(f.summary) == opt_view(e.summary)
    &&& opt_view(f.author) == joined_authors(e.authors@)
    &&& opt_view(f.link) == first_url(strings_view(e.link_hrefs@))
    &&& opt_view(f.category) == first_name(e.categories@)
    &&& f.media@.len() == e.media@.len()
    &&& forall|i: int| 0 <= i < e.media@.len() ==> media_minimal_of(#[trigger] f.media@[i], e.media@[i])
}

impl EntryMinimal {
    /// The entry, or `SchemaError` where it has no publication time or a media
    /// object has no content of a known kind.
    pub fn try_from_entry(e: &RawEntry) -> (r: Result<EntryMinimal, SchemaError>)
        ensures
            match r {
                Ok(f) => entry_minimal_of(f, *e),
                Err(err) => err == SchemaError,
            },
            r is Ok <==> (e.published is Some && all_media_typed(e.media@)),
    {
        let time = match e.published {
            Some(t) => t,
            None => return Err(SchemaError),
        };
        let mut media: Vec<MediaMinimal> = Vec::new();
        let mut i: usize = 0;
        while i < e.media.len()
            invariant
                i <= e.media@.len(),
                media@.len() == i,
                forall|j: int| 0 <= j < i ==> (#[trigger] first_typed(e.media@[j].contents@)) is Some,
                forall|j: int| 0 <= j < i ==> media_minimal_of(#[trigger] media@[j], e.media@[j]),
            decreases e.media@.len() - i,
        {
            match MediaMinimal::try_from_media(&e.media[i]) {
                Ok(m) => media.push(m),
                Err(err) => {
                    assert(!all_media_typed(e.media@)) by {
                        assert(first_typed(e.media@[i as int].contents@) is None);
                    }
                    return Err(err);
                },
            }
            i = i + 1;
        }
        let author = join_all(&e.authors);
        let author = if chars_of(author.as_str()).len() == 0 { None } else { Some(author) };
        Ok(EntryMinimal {
            id: copy_string(&e.id),
            title: copy_opt(&e.title),
            content: copy_opt(&e.content_body),
            summary: copy_opt(&e.summary),
            author,
            link: first_url_of(&e.link_hrefs),
            time,
            category: first_of(&e.categories),
            media,
        })
    }
}


// ---------------------------------------------------------------------------
// YouTube videos and Twitter posts.

/// A video of a YouTube channel feed.
#[derive(Debug, Clone)]
pub struct YouTubeVideo {
    /// The video ID, without the `yt:video:` of the entry ID.
    pub id: String,
    pub title: String,
    pub author: String,
    pub description: String,
    pub link: String,
    /// When it was published, in milliseconds since the Unix epoch.
    pub time: i64,
    pub thumbnail: String,
}

impl YouTubeVideo {
    pub open spec fn view_video(&self) -> (Seq<char>, Seq<char>, Seq<char>, Seq<char>, Seq<char>, i64, Seq<char>) {
        (self.id@, self.title@, self.author@, self.description@, self.link@, self.time, self.thumbnail@)
    }
}

/// The video a raw entry makes: its ID must start with `yt:video:`, and it
/// must have a title, a link that parses, a publication time and a first
/// media object with a description and a thumbnail that parses. The authors
/// are joined by `", "`.
pub open spec fn video_of_entry(e: RawEntry) -> Option<(Seq<char>, Seq<char>, Seq<char>, Seq<char>, Seq<char>, i64, Seq<char>)> {
    match (strip_prefix_spec(e.id@, "yt:video:"@), opt_view(e.title), first_url(strings_view(e.link_hrefs@)), e.published) {
        (Some(id), Some(title), Some(link), Some(time)) => if e.media@.len() > 0 {
            match (opt_view(e.media@[0].description), first_url(strings_view(e.media@[0].thumbnail_uris@))) {
                (Some(d), Some(th)) => Some((id, title, join_names(strings_view(e.authors@)), d, link, time, th)),
                _ => None,
            }
        } else {
            None
        },
        _ => None,
    }
}

/// The video a general entry makes: its ID must start with `yt:video:`, and
/// it must have a title, an author, a link whose host can become
/// `www.youtube.com`, and a first media object with a description and a
/// thumbnail.
pub open spec fn video_of_feed_entry(f: FeedEntry) -> Option<(Seq<char>, Seq<char>, Seq<char>, Seq<char>, Seq<char>, i64, Seq<char>)> {
    match (strip_prefix_spec(f.id@, "yt:video:"@), opt_view(f.title), opt_view(f.author), opt_view(f.link)) {
        (Some(id), Some(title), Some(author), Some(link)) => match url_with_host(link, "www.youtube.com"@) {
            Some(l) => if f.media@.len() > 0 && f.media@[0].thumbnails@.len() > 0 {
                match opt_view(f.media@[0].description) {
                    Some(d) => Some((id, title, author, d, l, f.time, f.media@[0].thumbnails@[0]@)),
                    None => None,
                }
            } else {
                None
            },
            None => None,
        },
        _ => None,
    }
}

impl YouTubeVideo {
    /// The video of a raw feed entry, or `SchemaError`.
    pub fn try_from_entry(e: &RawEntry) -> (r: Result<YouTubeVideo, SchemaError>)
        ensures
            match video_of_entry(*e) {
                Some(v) => r matches Ok(y) && y.view_video() == v,
                None => r == Err::<YouTubeVideo, SchemaError>(SchemaError),
            },
    {
        let id = match strip_prefix(e.id.as_str(), "yt:video:") {
            Some(id) => id,
            None => return Err(SchemaError),
        };
        let title = match copy_opt(&e.title) {
            Some(t) => t,
            None => return Err(SchemaError),
        };
        let author = join_all(&e.authors);
        let link = match first_url_of(&e.link_hrefs) {
            Some(l) => l,
            None => return Err(SchemaError),
        };
        let time = match e.published {
            Some(t) => t,
            None => return Err(SchemaError),
        };
        if e.media.len() == 0 {
            return Err(SchemaError);
        }
        let description = match copy_opt(&e.media[0].description) {
            Some(d) => d,
            None => return Err(SchemaError),
        };
        let thumbnail = match first_url_of(&e.media[0].thumbnail_uris) {
            Some(t) => t,
            None => return Err(SchemaError),
        };
        Ok(YouTubeVideo { id, title, author, description, link, time, thumbnail })
    }

    /// The video of a general feed entry, or `None`.
    pub fn from_feed_entry(f: &FeedEntry) -> (r: Option<YouTubeVideo>)
        ensures
            match video_of_feed_entry(*f) {
                Some(v) => r matches Some(y) && y.view_video() == v,
                None => r is None,
            },
    {
        let id = match strip_prefix(f.id.as_str(), "yt:video:") {
            Some(id) => id,
            None => return None,
        };
        let title = match copy_opt(&f.title) {
            Some(t) => t,
            None => return None,
        };
        let author = match copy_opt(&f.author) {
            Some(a) => a,
            None => return None,
        };
        let link = match &f.link {
            Some(l) => match set_url_host(l.as_str(), "www.youtube.com") {
                Some(l) => l,
                None => return None,
            },
            None => return None,
        };
        if f.media.len() == 0 || f.media[0].thumbnails.len() == 0 {
            return None;
        }
        let description = match copy_opt(&f.media[0].description) {
            Some(d) => d,
            None => return None,
        };
        let thumbnail = copy_string(&f.media[0].thumbnails[0]);
        Some(YouTubeVideo { id, title, author, description, link, time: f.time, thumbnail })
    }
}

/// A post of a Twitter feed.
#[derive(Debug, Clone)]
pub struct TwitterPost {
    pub title: String,
    pub author: String,
    pub link: String,
    pub time: i64,
}

impl TwitterPost {
    pub open spec fn view_post(&self) -> (Seq<char>, Seq<char>, Seq<char>, i64) {
        (self.title@, self.author@, self.link@, self.time)
    }
}

/// The post a raw entry makes: it must have a title, a link that parses and
/// whose host can become `twitter.com` (the fragment is dropped), and a
/// publication time. The authors are joined by `", "`.
pub open spec fn post_of_entry(e: RawEntry) -> Option<(Seq<char>, Seq<char>, Seq<char>, i64)> {
    match (opt_view(e.title), first_url(strings_view(e.link_hrefs@)), e.published) {
        (Some(title), Some(link), Some(time)) => match url_with_host(link, "twitter.com"@) {
            Some(l) => Some((title, join_names(strings_view(e.authors@)), unfragmented(l), time)),
            None => None,
        },
        _ => None,
    }
}

/// The post a general entry makes: it must have a title, an author (leading
/// `@`s are dropped) and a link whose host can become `twitter.com` (the
/// fragment is dropped).
pub open spec fn post_of_feed_entry(f: FeedEntry) -> Option<(Seq<char>, Seq<char>, Seq<char>, i64)> {
    match (opt_view(f.title), opt_view(f.author), opt_view(f.link)) {
        (Some(title), Some(author), Some(link)) => match url_with_host(link, "twitter.com"@) {
            Some(l) => Some((title, trim_start_all(author, "@"@), unfragmented(l), f.time)),
            None => None,
        },
        _ => None,
    }
}

impl TwitterPost {
    /// The post of a raw feed entry, or `SchemaError`.
    pub fn try_from_entry(e: &RawEntry) -> (r: Result<TwitterPost, SchemaError>)
        ensures
            match post_of_entry(*e) {
                Some(v) => r matches Ok(p) && p.view_post() == v,
                None => r == Err::<TwitterPost, SchemaError>(SchemaError),
            },
    {
        let title = match copy_opt(&e.title) {
            Some(t) => t,
            None => return Err(SchemaError),
        };
        let author = join_all(&e.authors);
        let link = match first_url_of(&e.link_hrefs) {
            Some(l) => l,
            None => return Err(SchemaError),
        };
        let link = match set_url_host(link.as_str(), "twitter.com") {
            Some(l) => l,
            None => return Err(SchemaError),
        };
        let link = drop_fragment(link);
        let time = match e.published {
            Some(t) => t,
            None => return Err(SchemaError),
        };
        Ok(TwitterPost { title, author, link, time })
    }

    /// The post of a general feed entry, or `None`.
    pub fn from_feed_entry(f: &FeedEntry) -> (r: Option<TwitterPost>)
        ensures
            match post_of_feed_entry(*f) {
                Some(v) => r matches Some(p) && p.view_post() == v,
                None => r is None,
            },
    {
        let title = match copy_opt(&f.title) {
            Some(t) => t,
            None => return None,
        };
        let author = match &f.author {
            Some(a) => trimmed(a.as_str(), "@", None),
            None => return None,
        };
        let link = match &f.link {
            Some(l) => match set_url_host(l.as_str(), "twitter.com") {
                Some(l) => l,
                None => return None,
            },
            None => return None,
        };
        let link = drop_fragment(link);
        Some(TwitterPost { title, author, link, time: f.time })
    }
}


// ---------------------------------------------------------------------------
// Whole feeds.

/// What `YouTubeVideo::from_entry` may give for a raw entry: the general
/// entry made of it, then the video of that.
pub open spec fn video_from_raw(e: RawEntry, r: Option<YouTubeVideo>) -> bool {
    match e.published {
        None => r is None,
        Some(_) => exists|f: FeedEntry| #[trigger] feed_entry_of(f, e) && match video_of_feed_entry(f) {
            Some(v) => r matches Some(y) && y.view_video() == v,
            None => r is None,
        },
    }
}

/// What `TwitterPost::from_entry` may give for a raw entry.
pub open spec fn post_from_raw(e: RawEntry, r: Option<TwitterPost>) -> bool {
    match e.published {
        None => r is None,
        Some(_) => exists|f: FeedEntry| #[trigger] feed_entry_of(f, e) && match post_of_feed_entry(f) {
            Some(v) => r matches Some(p) && p.view_post() == v,
            None => r is None,
        },
    }
}

impl YouTubeVideo {
    /// The video of a raw entry, through the general entry made of it.
    pub fn from_entry(e: &RawEntry) -> (r: Option<YouTubeVideo>)
        ensures video_from_raw(*e, r),
    {
        match FeedEntry::from_entry(e) {
            Some(f) => {
                let r = YouTubeVideo::from_feed_entry(&f);
                assert(feed_entry_of(f, *e));
                r
            },
            None => None,
        }
    }
}

impl TwitterPost {
    /// The post of a raw entry, through the general entry made of it.
    pub fn from_entry(e: &RawEntry) -> (r: Option<TwitterPost>)
        ensures post_from_raw(*e, r),
    {
        match FeedEntry::from_entry(e) {
            Some(f) => {
                let r = TwitterPost::from_feed_entry(&f);
                assert(feed_entry_of(f, *e));
                r
            },
            None => None,
        }
    }
}

/// Every entry of a feed as a general entry, or the index of the first
/// entry that cannot be one (it has no publication time).
pub fn decompose_feed(entries: &Vec<RawEntry>) -> (r: Result<Vec<FeedEntry>, usize>)
    ensures
        match r {
            Ok(v) => v@.len() == entries@.len()
                && forall|i: int| 0 <= i < v@.len() ==> feed_entry_of(#[trigger] v@[i], entries@[i]),
            Err(k) => k < entries@.len() && entries@[k as int].published is None
                && forall|j: int| 0 <= j < k ==> (#[trigger] entries@[j]).published is Some,
        },
{
    let mut out: Vec<FeedEntry> = Vec::new();
    let mut i: usize = 0;
    while i < entries.len()
        invariant
            i <= entries@.len(),
            out@.len() == i,
            forall|j: int| 0 <= j < i ==> feed_entry_of(#[trigger] out@[j], entries@[j]),
        decreases entries@.len() - i,
    {
        match FeedEntry::from_entry(&entries[i]) {
            Some(f) => out.push(f),
            None => {
                assert forall|j: int| 0 <= j < i implies (#[trigger] entries@[j]).published is Some by {
                    assert(feed_entry_of(out@[j], entries@[j]));
                }
                return Err(i);
            },
        }
        i = i + 1;
    }
    Ok(out)
}

/// Whether some video comes of a raw entry.
pub open spec fn video_converts(e: RawEntry) -> bool {
    exists|y: YouTubeVideo| #[trigger] video_from_raw(e, Some(y))
}

/// Whether some post comes of a raw entry.
pub open spec fn post_converts(e: RawEntry) -> bool {
    exists|p: TwitterPost| #[trigger] post_from_raw(e, Some(p))
}

/// Every entry of a YouTube feed as a video, or the index of the first that
/// gives none.
pub fn decompose_videos(entries: &Vec<RawEntry>) -> (r: Result<Vec<YouTubeVideo>, usize>)
    ensures
        match r {
            Ok(v) => v@.len() == entries@.len()
                && forall|i: int| 0 <= i < v@.len() ==> video_from_raw(entries@[i], Some(#[trigger] v@[i])),
            Err(k) => k < entries@.len() && video_from_raw(entries@[k as int], None)
                && forall|j: int| 0 <= j < k ==> video_converts(#[trigger] entries@[j]),
        },
{
    let mut out: Vec<YouTubeVideo> = Vec::new();
    let mut i: usize = 0;
    while i < entries.len()
        invariant
            i <= entries@.len(),
            out@.len() == i,
            forall|j: int| 0 <= j < i ==> video_from_raw(entries@[j], Some(#[trigger] out@[j])),
        decreases entries@.len() - i,
    {
        match YouTubeVideo::from_entry(&entries[i]) {
            Some(y) => out.push(y),
            None => {
                assert forall|j: int| 0 <= j < i implies video_converts(#[trigger] entries@[j]) by {
                    assert(video_from_raw(entries@[j], Some(out@[j])));
                }
                return Err(i);
            },
        }
        i = i + 1;
    }
    Ok(out)
}

/// Every entry of a Twitter feed as a post, or the index of the first that
/// gives none.
pub fn decompose_posts(entries: &Vec<RawEntry>) -> (r: Result<Vec<TwitterPost>, usize>)
    ensures
        match r {
            Ok(v) => v@.len() == entries@.len()
                && forall|i: int| 0 <= i < v@.len() ==> post_from_raw(entries@[i], Some(#[trigger] v@[i])),
            Err(k) => k < entries@.len() && post_from_raw(entries@[k as int], None)
                && forall|j: int| 0 <= j < k ==> post_converts(#[trigger] entries@[j]),
        },
{
    let mut out: Vec<TwitterPost> = Vec::new();
    let mut i: usize = 0;
    while i < entries.len()
        invariant
            i <= entries@.len(),
            out@.len() == i,
            forall|j: int| 0 <= j < i ==> post_from_raw(entries@[j], Some(#[trigger] out@[j])),
        decreases entries@.len() - i,
    {
        match TwitterPost::from_entry(&entries[i]) {
            Some(p) => out.push(p),
            None => {
                assert forall|j: int| 0 <= j < i implies post_converts(#[trigger] entries@[j]) by {
                    assert(post_from_raw(entries@[j], Some(out@[j])));
                }
                return Err(i);
            },
        }
        i = i + 1;
    }
    Ok(out)
}

} // verus!
