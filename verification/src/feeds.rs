//! Feed sources: which YouTube channel or Twitter account a feed follows,
//! and the content types that feed media may carry.
use vstd::prelude::*;
use crate::text::{chars_of, substring, str_eq, push_str, eq_ignore_case, eq_ignore_ascii_case, copy_string};

verus! {

broadcast use vstd::string::group_string_axioms;

#[derive(Debug, Clone, Copy, PartialEq, Eq, Structural)]
pub enum FeedType {
    YouTube,
    Twitter,
}

/// Identifies one feed: a YouTube channel or a Twitter account.
#[derive(Debug, Clone)]
pub enum FeedIdentifier {
    YouTube(FeedIdentifierYouTube),
    Twitter(FeedIdentifierTwitter),
}

#[derive(Debug, Clone)]
pub struct FeedIdentifierYouTube {
    /// Channel ID, for example `UC7_YxT-KID8kRbqZo7MyscQ`.
    pub channel: String,
}

#[derive(Debug, Clone)]
pub struct FeedIdentifierTwitter {
    /// Twitter handle, for example `markiplier`.
    pub handle: String,
}

/// A character allowed in the body of a YouTube channel ID: `[0-9A-Za-z_-]`.
pub open spec fn is_channel_char(c: char) -> bool {
    ('0' <= c && c <= '9') || ('A' <= c && c <= 'Z') || ('a' <= c && c <= 'z') || c == '_' || c == '-'
}

/// A character allowed in a Twitter handle: `[A-Za-z0-9_]`.
pub open spec fn is_handle_char(c: char) -> bool {
    ('0' <= c && c <= '9') || ('A' <= c && c <= 'Z') || ('a' <= c && c <= 'z') || c == '_'
}

/// `UC`, 21 characters of `[0-9A-Za-z_-]`, then one of `A`, `Q`, `g`, `w`.
pub open spec fn is_youtube_channel_id(s: Seq<char>) -> bool {
    &&& s.len() == 24
    &&& s[0] == 'U' && s[1] == 'C'
    &&& forall|i: int| 2 <= i < 23 ==> is_channel_char(#[trigger] s[i])
    &&& (s[23] == 'A' || s[23] == 'Q' || s[23] == 'g' || s[23] == 'w')
}

/// The handle named by `s`: an optional leading `@`, then 1 to 15 characters of `[A-Za-z0-9_]`.
pub open spec fn twitter_handle(s: Seq<char>) -> Option<Seq<char>> {
    let h = handle_part(s);
    if 1 <= h.len() <= 15 && all_handle_chars(h) {
        Some(h)
    } else {
        None
    }
}

/// `s` without one leading `@`.
pub open spec fn handle_part(s: Seq<char>) -> Seq<char> {
    if s.len() > 0 && s[0] == '@' { s.drop_first() } else { s }
}

pub open spec fn all_handle_chars(h: Seq<char>) -> bool {
    forall|i: int| 0 <= i < h.len() ==> is_handle_char(#[trigger] h[i])
}

fn is_channel_char_exec(c: char) -> (r: bool)
    ensures r == is_channel_char(c),
{
    ('0' <= c && c <= '9') || ('A' <= c && c <= 'Z') || ('a' <= c && c <= 'z') || c == '_' || c == '-'
}

fn is_handle_char_exec(c: char) -> (r: bool)
    ensures r == is_handle_char(c),
{
    ('0' <= c && c <= '9') || ('A' <= c && c <= 'Z') || ('a' <= c && c <= 'z') || c == '_'
}

/// Whether `source` is a YouTube channel ID.
pub fn parse_youtube_channel(source: &str) -> (r: bool)
    ensures r == is_youtube_channel_id(source@),
{
    let chars = chars_of(source);
    if chars.len() != 24 || chars[0] != 'U' || chars[1] != 'C' {
        return false;
    }
    let mut i: usize = 2;
    while i < 23
        invariant
            chars@ == source@,
            chars@.len() == 24,
            2 <= i <= 23,
            forall|k: int| 2 <= k < i ==> is_channel_char(#[trigger] chars@[k]),
        decreases 23 - i,
    {
        if !is_channel_char_exec(chars[i]) {
            return false;
        }
        i = i + 1;
    }
    let last = chars[23];
    last == 'A' || last == 'Q' || last == 'g' || last == 'w'
}

/// The Twitter handle named by `source`, without its leading `@`.
pub fn parse_twitter_handle(source: &str) -> (r: Option<String>)
    ensures
        match twitter_handle(source@) {
            Some(h) => r matches Some(s) && s@ == h,
            None => r is None,
        },
{
    let chars = chars_of(source);
    let start: usize = if chars.len() > 0 && chars[0] == '@' { 1 } else { 0 };
    let ghost h = chars@.subrange(start as int, chars@.len() as int);
    proof {
        if start == 1 {
            assert(h =~= source@.drop_first());
        } else {
            assert(h =~= source@);
        }
    }
    let n = chars.len() - start;
    assert(h.len() == n as int);
    if n < 1 || n > 15 {
        return None;
    }
    let mut i = start;
    while i < chars.len()
        invariant
            chars@ == source@,
            start <= i <= chars@.len(),
            h == chars@.subrange(start as int, chars@.len() as int),
            h == handle_part(source@),
            1 <= h.len() <= 15,
            forall|k: int| 0 <= k < i - start ==> is_handle_char(#[trigger] h[k]),
        decreases chars.len() - i,
    {
        if !is_handle_char_exec(chars[i]) {
            assert(h[i - start] == chars@[i as int]);
            assert(!is_handle_char(h[i - start]));
            assert(!(forall|k: int| 0 <= k < h.len() ==> is_handle_char(#[trigger] h[k])));
            assert(twitter_handle(source@) is None);
            return None;
        }
        assert(h[i - start] == chars@[i as int]);
        i = i + 1;
    }
    Some(substring(&chars, start, chars.len()))
}

/// What `with_source` gives back, as a kind and its text.
pub open spec fn with_source_spec(ty: FeedType, source: Seq<char>) -> Option<(FeedType, Seq<char>)> {
    match ty {
        FeedType::YouTube => if is_youtube_channel_id(source) { Some((FeedType::YouTube, source)) } else { None },
        FeedType::Twitter => match twitter_handle(source) {
            Some(h) => Some((FeedType::Twitter, h)),
            None => None,
        },
    }
}

impl FeedIdentifier {
    /// The kind of the feed and its channel ID or handle.
    pub open spec fn view_parts(&self) -> (FeedType, Seq<char>) {
        match self {
            FeedIdentifier::YouTube(y) => (FeedType::YouTube, y.channel@),
            FeedIdentifier::Twitter(t) => (FeedType::Twitter, t.handle@),
        }
    }

    /// The address the feed follows, without its scheme.
    pub open spec fn display_spec(&self) -> Seq<char> {
        match self {
            FeedIdentifier::YouTube(y) => y.display_spec(),
            FeedIdentifier::Twitter(t) => t.display_spec(),
        }
    }

    pub fn to_display(&self) -> (r: String)
        ensures r@ == self.display_spec(),
    {
        match self {
            FeedIdentifier::YouTube(y) => y.to_display(),
            FeedIdentifier::Twitter(t) => t.to_display(),
        }
    }

    /// Two identifiers name the same feed: YouTube channels compare exactly,
    /// Twitter handles without regard to ASCII case.
    pub open spec fn same_spec(&self, other: &FeedIdentifier) -> bool {
        match (self, other) {
            (FeedIdentifier::YouTube(a), FeedIdentifier::YouTube(b)) => a.channel@ == b.channel@,
            (FeedIdentifier::Twitter(a), FeedIdentifier::Twitter(b)) => eq_ignore_case(a.handle@, b.handle@),
            _ => false,
        }
    }

    pub fn same_as(&self, other: &FeedIdentifier) -> (r: bool)
        ensures r == self.same_spec(other),
    {
        match (self, other) {
            (FeedIdentifier::YouTube(a), FeedIdentifier::YouTube(b)) => a.channel == b.channel,
            (FeedIdentifier::Twitter(a), FeedIdentifier::Twitter(b)) => a.same_as(b),
            _ => false,
        }
    }
}

impl FeedIdentifierYouTube {
    pub open spec fn display_spec(&self) -> Seq<char> {
        "www.youtube.com/channel/"@ + self.channel@
    }

    pub fn to_display(&self) -> (r: String)
        ensures r@ == self.display_spec(),
    {
        let mut s = String::from_str("www.youtube.com/channel/");
        push_str(&mut s, self.channel.as_str());
        s
    }
}

impl FeedIdentifierTwitter {
    pub open spec fn display_spec(&self) -> Seq<char> {
        "twitter.com/"@ + self.handle@
    }

    pub fn to_display(&self) -> (r: String)
        ensures r@ == self.display_spec(),
    {
        let mut s = String::from_str("twitter.com/");
        push_str(&mut s, self.handle.as_str());
        s
    }

    /// Handles are compared without regard to ASCII case.
    pub fn same_as(&self, other: &FeedIdentifierTwitter) -> (r: bool)
        ensures r == eq_ignore_case(self.handle@, other.handle@),
    {
        eq_ignore_ascii_case(self.handle.as_str(), other.handle.as_str())
    }
}

impl FeedType {
    /// The feed that `source` names for this kind of feed: a YouTube channel ID,
    /// or a Twitter handle with an optional leading `@`; `None` if it names none.
    pub fn with_source(self, source: &str) -> (r: Option<FeedIdentifier>)
        ensures
            match with_source_spec(self, source@) {
                Some(parts) => r matches Some(id) && id.view_parts() == parts,
                None => r is None,
            },
    {
        match self {
            FeedType::YouTube => {
                if parse_youtube_channel(source) {
                    Some(FeedIdentifier::YouTube(FeedIdentifierYouTube { channel: source.to_owned() }))
                } else {
                    None
                }
            },
            FeedType::Twitter => {
                match parse_twitter_handle(source) {
                    Some(handle) => Some(FeedIdentifier::Twitter(FeedIdentifierTwitter { handle })),
                    None => None,
                }
            },
        }
    }
}

/// The top-level kind of a media type.
#[derive(Debug, Clone, Copy, PartialEq, Eq, Structural)]
pub enum FeedContentType {
    Audio,
    Video,
    Image,
    Application,
    Text,
    Font,
}

/// The name of each media kind, as it stands before the `/` of a media type.
pub open spec fn media_kind_name(k: FeedContentType) -> Seq<char> {
    match k {
        FeedContentType::Audio => "audio"@,
        FeedContentType::Video => "video"@,
        FeedContentType::Image => "image"@,
        FeedContentType::Application => "application"@,
        FeedContentType::Text => "text"@,
        FeedContentType::Font => "font"@,
    }
}

/// The media kind named exactly by `t`, if any.
pub open spec fn media_kind_of(t: Seq<char>) -> Option<FeedContentType> {
    if t == "audio"@ { Some(FeedContentType::Audio) }
    else if t == "video"@ { Some(FeedContentType::Video) }
    else if t == "image"@ { Some(FeedContentType::Image) }
    else if t == "application"@ { Some(FeedContentType::Application) }
    else if t == "text"@ { Some(FeedContentType::Text) }
    else if t == "font"@ { Some(FeedContentType::Font) }
    else { None }
}

/// Exact comparison against each kind's name, in the order the kinds are declared.
fn media_kind_from_name(t: &str) -> (r: Option<FeedContentType>)
    ensures r == media_kind_of(t@),
{
    if str_eq(t, "audio") { Some(FeedContentType::Audio) }
    else if str_eq(t, "video") { Some(FeedContentType::Video) }
    else if str_eq(t, "image") { Some(FeedContentType::Image) }
    else if str_eq(t, "application") { Some(FeedContentType::Application) }
    else if str_eq(t, "text") { Some(FeedContentType::Text) }
    else if str_eq(t, "font") { Some(FeedContentType::Font) }
    else { None }
}

impl FeedContentType {
    pub fn into_str(self) -> (r: &'static str)
        ensures r@ == media_kind_name(self),
    {
        match self {
            FeedContentType::Audio => "audio",
            FeedContentType::Video => "video",
            FeedContentType::Image => "image",
            FeedContentType::Application => "application",
            FeedContentType::Text => "text",
            FeedContentType::Font => "font",
        }
    }

    /// The kind named by the top-level type of a MIME type (the part before `/`).
    pub fn from_mime_type(t: &str) -> (r: Option<FeedContentType>)
        ensures r == media_kind_of(t@),
    {
        media_kind_from_name(t)
    }
}

#[derive(Debug, Clone, Copy, PartialEq, Eq, Structural)]
pub enum TwitterPostType {
    Original,
    Retweet,
}

/// A feed entry could not be converted into the shape a model expects.
#[derive(Debug, Clone, Copy, PartialEq, Eq, Structural, Default)]
pub struct SchemaError;

impl SchemaError {
    pub fn message(&self) -> (r: &'static str)
        ensures r@ == "failed to perform a conversion"@,
    {
        "failed to perform a conversion"
    }
}

/// The top-level kind of a media type, as the feed model keeps it.
#[derive(Debug, Clone, Copy, PartialEq, Eq, Structural)]
pub enum ContentType {
    Audio,
    Video,
    Image,
    Application,
    Text,
    Font,
}

impl ContentType {
    pub open spec fn kind(self) -> FeedContentType {
        match self {
            ContentType::Audio => FeedContentType::Audio,
            ContentType::Video => FeedContentType::Video,
            ContentType::Image => FeedContentType::Image,
            ContentType::Application => FeedContentType::Application,
            ContentType::Text => FeedContentType::Text,
            ContentType::Font => FeedContentType::Font,
        }
    }

    pub fn to_str(self) -> (r: &'static str)
        ensures r@ == media_kind_name(self.kind()),
    {
        match self {
            ContentType::Audio => "audio",
            ContentType::Video => "video",
            ContentType::Image => "image",
            ContentType::Application => "application",
            ContentType::Text => "text",
            ContentType::Font => "font",
        }
    }

    /// The content type whose name is the top-level type `t` of a media type,
    /// or `SchemaError` when none is.
    pub fn try_from_media_type(t: &str) -> (r: Result<ContentType, SchemaError>)
        ensures
            match media_kind_of(t@) {
                Some(k) => r matches Ok(c) && c.kind() == k,
                None => r == Err::<ContentType, SchemaError>(SchemaError),
            },
    {
        match media_kind_from_name(t) {
            Some(FeedContentType::Audio) => Ok(ContentType::Audio),
            Some(FeedContentType::Video) => Ok(ContentType::Video),
            Some(FeedContentType::Image) => Ok(ContentType::Image),
            Some(FeedContentType::Application) => Ok(ContentType::Application),
            Some(FeedContentType::Text) => Ok(ContentType::Text),
            Some(FeedContentType::Font) => Ok(ContentType::Font),
            None => Err(SchemaError),
        }
    }
}

/// Entry `k` is the first whose conversion failed, with `e`: every entry
/// before it converted, to `prior`.
pub open spec fn first_failure<T, U, E, F: Fn(T) -> Result<U, E>>(f: F, entries: Seq<T>, k: int, prior: Seq<U>, e: E) -> bool {
    &&& 0 <= k < entries.len()
    &&& prior.len() == k
    &&& forall|j: int| 0 <= j < k ==> f.ensures((entries[j],), Ok::<U, E>(#[trigger] prior[j]))
    &&& f.ensures((entries[k],), Err::<U, E>(e))
}

/// Converts every entry in order, stopping at the first failure, whose error is returned.
pub fn convert_feed_entries<T, E, U>(entries: Vec<T>, convert: impl Fn(T) -> Result<U, E>) -> (r: Result<Vec<U>, E>)
    requires
        forall|i: int| 0 <= i < entries@.len() ==> convert.requires((#[trigger] entries@[i],)),
    ensures
        match r {
            Ok(v) => v@.len() == entries@.len()
                && forall|i: int| 0 <= i < entries@.len() ==> convert.ensures((entries@[i],), Ok::<U, E>(#[trigger] v@[i])),
            Err(e) => exists|k: int, prior: Seq<U>| #[trigger] first_failure(convert, entries@, k, prior, e),
        },
{
    let ghost all = entries@;
    let mut rest = entries;
    let mut out: Vec<U> = Vec::new();
    while rest.len() > 0
        invariant
            all == entries@,
            out@.len() + rest@.len() == all.len(),
            forall|j: int| 0 <= j < rest@.len() ==> #[trigger] rest@[j] == all[out@.len() + j],
            forall|i: int| 0 <= i < out@.len() ==> convert.ensures((all[i],), Ok::<U, E>(#[trigger] out@[i])),
            forall|i: int| 0 <= i < all.len() ==> convert.requires((#[trigger] all[i],)),
        decreases rest@.len(),
    {
        let ghost k = out@.len() as int;
        let ghost before = rest@;
        let item = rest.remove(0);
        assert(item == all[k]);
        match convert(item) {
            Ok(u) => {
                out.push(u);
                assert forall|j: int| 0 <= j < rest@.len() implies #[trigger] rest@[j] == all[out@.len() + j] by {
                    assert(rest@[j] == before[j + 1]);
                }
            },
            Err(e) => {
                assert(convert.ensures((all[k],), Err::<U, E>(e)));
                assert(all[k] == entries@[k]);
                assert(convert.ensures((entries@[k],), Err::<U, E>(e)));
                assert(0 <= k < entries@.len());
                assert(out@.len() == k);
                assert forall|j: int| 0 <= j < k implies convert.ensures((entries@[j],), Ok::<U, E>(#[trigger] out@[j])) by {
                    assert(all[j] == entries@[j]);
                }
                assert(first_failure(convert, entries@, k, out@, e));
                assert(exists|k2: int, prior: Seq<U>| #[trigger] first_failure(convert, entries@, k2, prior, e));
                let r: Result<Vec<U>, E> = Err(e);
                assert(r is Err);
                assert(r->Err_0 == e);
                return r;
            },
        }
    }
    Ok(out)
}

} // verus!
