//! YouTube addresses: video and playlist IDs, the URLs built from them and
//! read back out of links, and the arguments handed to `yt-dlp`.
use vstd::prelude::*;
use crate::text::{chars_of, substring, push_str, str_eq, copy_string};

verus! {

broadcast use vstd::string::group_string_axioms;

/// A character allowed in a video or playlist ID: ASCII letters and digits, `_` and `-`.
pub open spec fn is_id_char(c: char) -> bool {
    ('0' <= c && c <= '9') || ('A' <= c && c <= 'Z') || ('a' <= c && c <= 'z') || c == '_' || c == '-'
}

/// An ID of fewer than `l` characters, each an ID character.
pub open spec fn is_id(s: Seq<char>, l: nat) -> bool {
    s.len() < l && forall|i: int| 0 <= i < s.len() ==> is_id_char(#[trigger] s[i])
}

/// Whether `s` is an ID shorter than `l`.
pub fn is_id_str(s: &str, l: usize) -> (r: bool)
    ensures r == is_id(s@, l as nat),
{
    let chars = chars_of(s);
    let mut i: usize = 0;
    while i < chars.len()
        invariant
            chars@ == s@,
            i <= chars@.len(),
            forall|k: int| 0 <= k < i ==> is_id_char(#[trigger] chars@[k]),
        decreases chars.len() - i,
    {
        let c = chars[i];
        if !(('0' <= c && c <= '9') || ('A' <= c && c <= 'Z') || ('a' <= c && c <= 'z') || c == '_' || c == '-') {
            return false;
        }
        i = i + 1;
    }
    chars.len() < l
}

/// The watch page of a video.
#[derive(Debug, Clone, Copy, PartialEq, Eq)]
pub struct DisplayVideoUrl<'a>(pub &'a str);

/// The page of a playlist.
#[derive(Debug, Clone, Copy, PartialEq, Eq)]
pub struct DisplayPlaylistUrl<'a>(pub &'a str);

pub open spec fn video_url(id: Seq<char>) -> Seq<char> {
    "https://www.youtube.com/watch?v="@ + id
}

pub open spec fn playlist_url(id: Seq<char>) -> Seq<char> {
    "https://www.youtube.com/playlist?list="@ + id
}

pub fn display_video_url(id: &str) -> (r: DisplayVideoUrl<'_>)
    ensures r.0 == id,
{
    DisplayVideoUrl(id)
}

pub fn display_playlist_url(id: &str) -> (r: DisplayPlaylistUrl<'_>)
    ensures r.0 == id,
{
    DisplayPlaylistUrl(id)
}

impl<'a> DisplayVideoUrl<'a> {
    pub fn to_url(&self) -> (r: String)
        ensures r@ == video_url(self.0@),
    {
        let mut s = String::from_str("https://www.youtube.com/watch?v=");
        push_str(&mut s, self.0);
        s
    }
}

impl<'a> DisplayPlaylistUrl<'a> {
    pub fn to_url(&self) -> (r: String)
        ensures r@ == playlist_url(self.0@),
    {
        let mut s = String::from_str("https://www.youtube.com/playlist?list=");
        push_str(&mut s, self.0);
        s
    }
}

/// The `yt-dlp` program that videos and playlists are looked up with.
#[derive(Debug, Clone)]
pub struct YtDlp {
    pub program: String,
}

impl YtDlp {
    pub fn new(program: String) -> (r: Self)
        ensures r.program@ == program@,
    {
        YtDlp { program }
    }

    /// The arguments that ask `yt-dlp` for the JSON description of one video.
    pub fn video_info_args(&self, video_id: &str) -> (r: Vec<String>)
        requires is_id(video_id@, 16),
        ensures
            r@.len() == 5,
            r@[0]@ == "-J"@,
            r@[1]@ == video_url(video_id@),
            r@[2]@ == "-f"@,
            r@[3]@ == "ba[abr>0][vcodec=none]/best"@,
            r@[4]@ == "--no-playlist"@,
    {
        let mut v: Vec<String> = Vec::new();
        v.push(String::from_str("-J"));
        v.push(display_video_url(video_id).to_url());
        v.push(String::from_str("-f"));
        v.push(String::from_str("ba[abr>0][vcodec=none]/best"));
        v.push(String::from_str("--no-playlist"));
        v
    }

    /// The arguments that ask `yt-dlp` for the JSON description of one playlist.
    pub fn playlist_info_args(&self, playlist_id: &str) -> (r: Vec<String>)
        requires is_id(playlist_id@, 40),
        ensures
            r@.len() == 5,
            r@[0]@ == "-J"@,
            r@[1]@ == playlist_url(playlist_id@),
            r@[2]@ == "--compat-options"@,
            r@[3]@ == "no-youtube-unavailable-videos"@,
            r@[4]@ == "--yes-playlist"@,
    {
        let mut v: Vec<String> = Vec::new();
        v.push(String::from_str("-J"));
        v.push(display_playlist_url(playlist_id).to_url());
        v.push(String::from_str("--compat-options"));
        v.push(String::from_str("no-youtube-unavailable-videos"));
        v.push(String::from_str("--yes-playlist"));
        v
    }

    /// The arguments that ask `yt-dlp` to update itself to a version.
    pub fn update_args(&self, update_to: &str) -> (r: Vec<String>)
        ensures
            r@.len() == 2,
            r@[0]@ == "--update-to"@,
            r@[1]@ == update_to@,
    {
        let mut v: Vec<String> = Vec::new();
        v.push(String::from_str("--update-to"));
        v.push(update_to.to_owned());
        v
    }
}

/// One entry of a playlist, as `yt-dlp` describes it.
#[derive(Debug, Clone)]
pub struct PlaylistVideoInfo {
    pub id: String,
}

/// A playlist, as `yt-dlp` describes it.
#[derive(Debug, Clone)]
pub struct PlaylistInfo {
    pub id: String,
    pub title: Option<String>,
    pub channel: Option<String>,
    pub uploader: Option<String>,
    pub entries: Vec<PlaylistVideoInfo>,
    pub webpage_url: Option<String>,
}

/// The parts of a parsed URL that links are read by.
#[derive(Debug, Clone)]
pub struct UrlParts {
    /// The whole URL, written out as the crate serialises it.
    pub serialized: String,
    pub scheme: String,
    /// The host, when it is a domain (not an IP address).
    pub domain: Option<String>,
    pub path: String,
    /// The query, split into decoded key/value pairs in order.
    pub query: Vec<(String, String)>,
}

pub open spec fn opt_view(o: Option<String>) -> Option<Seq<char>> {
    match o {
        Some(s) => Some(s@),
        None => None,
    }
}

pub open spec fn pairs_view(q: Seq<(String, String)>) -> Seq<(Seq<char>, Seq<char>)> {
    q.map_values(|p: (String, String)| (p.0@, p.1@))
}

impl UrlParts {
    pub open spec fn view_parts(&self) -> (Seq<char>, Option<Seq<char>>, Seq<char>, Seq<(Seq<char>, Seq<char>)>) {
        (self.scheme@, opt_view(self.domain), self.path@, pairs_view(self.query@))
    }

    pub open spec fn view_url(&self) -> (Seq<char>, (Seq<char>, Option<Seq<char>>, Seq<char>, Seq<(Seq<char>, Seq<char>)>)) {
        (self.serialized@, self.view_parts())
    }
}

/// What the `url` crate parses a string into: `None` where it is no absolute
/// URL, else the URL written out and its scheme, domain, path and query pairs.
pub uninterp spec fn parsed_url(input: Seq<char>) -> Option<(Seq<char>, (Seq<char>, Option<Seq<char>>, Seq<char>, Seq<(Seq<char>, Seq<char>)>))>;

/// `url::Url::parse`, then the URL's serialisation (`as_str`), scheme,
/// domain, path and query pairs. Its result is named by `parsed_url`; nothing
/// more of it is stated.
#[verifier::external_body]
pub(crate) fn parse_url(input: &str) -> (r: Option<UrlParts>)
    ensures
        match parsed_url(input@) {
            Some(parts) => r matches Some(u) && u.view_url() == parts,
            None => r is None,
        },
{
    match url::Url::parse(input) {
        Ok(u) => Some(UrlParts {
            serialized: u.as_str().to_owned(),
            scheme: u.scheme().to_owned(),
            domain: u.domain().map(str::to_owned),
            path: u.path().to_owned(),
            query: u.query_pairs().map(|(k, v)| (k.into_owned(), v.into_owned())).collect(),
        }),
        Err(_) => None,
    }
}

pub open spec fn is_web_scheme(s: Seq<char>) -> bool {
    s == "http"@ || s == "https"@
}

pub open spec fn ends_with(s: Seq<char>, suffix: Seq<char>) -> bool {
    s.len() >= suffix.len() && s.skip(s.len() - suffix.len()) == suffix
}

pub open spec fn strip_prefix(s: Seq<char>, p: Seq<char>) -> Option<Seq<char>> {
    if s.len() >= p.len() && s.take(p.len() as int) == p { Some(s.skip(p.len() as int)) } else { None }
}

/// The value of the first pair whose key is `key` and whose value is an ID shorter than `l`.
pub open spec fn first_id_value(q: Seq<(Seq<char>, Seq<char>)>, key: Seq<char>, l: nat) -> Option<Seq<char>>
    decreases q.len(),
{
    if q.len() == 0 {
        None
    } else if q[0].0 == key && is_id(q[0].1, l) {
        Some(q[0].1)
    } else {
        first_id_value(q.drop_first(), key, l)
    }
}

/// The first of `/v/`, `/embed/`, `/` that the path starts with and whose rest is a video ID.
pub open spec fn video_id_in_path(path: Seq<char>) -> Option<Seq<char>> {
    match strip_prefix(path, "/v/"@) {
        Some(p) if is_id(p, 16) => Some(p),
        _ => match strip_prefix(path, "/embed/"@) {
            Some(p) if is_id(p, 16) => Some(p),
            _ => match strip_prefix(path, "/"@) {
                Some(p) if is_id(p, 16) => Some(p),
                _ => None,
            },
        },
    }
}

/// The video a parsed link points to.
pub open spec fn video_id_of(parts: (Seq<char>, Option<Seq<char>>, Seq<char>, Seq<(Seq<char>, Seq<char>)>)) -> Option<Seq<char>> {
    let (scheme, domain, path, query) = parts;
    if !is_web_scheme(scheme) {
        None
    } else {
        match domain {
            None => None,
            Some(d) => if ends_with(d, "youtube.com"@) {
                match first_id_value(query, "v"@, 16) {
                    Some(v) => Some(v),
                    None => video_id_in_path(path),
                }
            } else if d == "youtu.be"@ {
                match strip_prefix(path, "/"@) {
                    Some(p) if is_id(p, 16) => Some(p),
                    _ => None,
                }
            } else {
                None
            },
        }
    }
}

/// The playlist a parsed link points to.
pub open spec fn playlist_id_of(parts: (Seq<char>, Option<Seq<char>>, Seq<char>, Seq<(Seq<char>, Seq<char>)>)) -> Option<Seq<char>> {
    let (scheme, domain, path, query) = parts;
    if !is_web_scheme(scheme) {
        None
    } else {
        match domain {
            None => None,
            Some(d) => if ends_with(d, "youtube.com"@) || d == "youtu.be"@ {
                first_id_value(query, "list"@, 40)
            } else {
                None
            },
        }
    }
}

/// A playlist is read from every web (`http` or `https`) link to YouTube,
/// whether its host is `youtu.be` or ends in `youtube.com`: it is the first
/// `list` query value that is an ID shorter than 40 characters. No other link
/// gives one.
pub proof fn law_playlist_hosts(
    scheme: Seq<char>,
    domain: Option<Seq<char>>,
    path: Seq<char>,
    query: Seq<(Seq<char>, Seq<char>)>,
)
    ensures
        is_web_scheme(scheme) && domain == Some("youtu.be"@)
            ==> playlist_id_of((scheme, domain, path, query)) == first_id_value(query, "list"@, 40),
        is_web_scheme(scheme) && (domain matches Some(d) && ends_with(d, "youtube.com"@))
            ==> playlist_id_of((scheme, domain, path, query)) == first_id_value(query, "list"@, 40),
        playlist_id_of((scheme, domain, path, query)) is Some ==> is_web_scheme(scheme)
            && (domain matches Some(d) && (d == "youtu.be"@ || ends_with(d, "youtube.com"@))),
{
}

/// Every link that a video is read from is one that a playlist is read from
/// too, where its query holds a `list` value that is an ID shorter than 40.
pub proof fn law_video_links_carry_playlists(
    parts: (Seq<char>, Option<Seq<char>>, Seq<char>, Seq<(Seq<char>, Seq<char>)>),
)
    ensures
        video_id_of(parts) is Some ==> playlist_id_of(parts) == first_id_value(parts.3, "list"@, 40),
{
}

fn ends_with_str(s: &str, suffix: &str) -> (r: bool)
    ensures r == ends_with(s@, suffix@),
{
    let a = chars_of(s);
    let b = chars_of(suffix);
    if a.len() < b.len() {
        return false;
    }
    let off = a.len() - b.len();
    let mut i: usize = 0;
    while i < b.len()
        invariant
            a@ == s@,
            b@ == suffix@,
            off == a@.len() - b@.len(),
            a@.len() <= usize::MAX,
            i <= b@.len(),
            forall|k: int| 0 <= k < i ==> #[trigger] b@[k] == a@[off + k],
        decreases b.len() - i,
    {
        if a[off + i] != b[i] {
            assert(s@.skip(off as int)[i as int] == a@[off + i]);
            return false;
        }
        i = i + 1;
    }
    assert(s@.skip(off as int) =~= suffix@);
    true
}

/// The rest of `s` after the prefix `p`, if `s` starts with it.
fn strip_prefix_str(s: &str, p: &str) -> (r: Option<String>)
    ensures
        match strip_prefix(s@, p@) {
            Some(t) => r matches Some(x) && x@ == t,
            None => r is None,
        },
{
    let a = chars_of(s);
    let b = chars_of(p);
    if a.len() < b.len() {
        return None;
    }
    let mut i: usize = 0;
    while i < b.len()
        invariant
            a@ == s@,
            b@ == p@,
            b@.len() <= a@.len(),
            i <= b@.len(),
            forall|k: int| 0 <= k < i ==> #[trigger] b@[k] == a@[k],
        decreases b.len() - i,
    {
        if a[i] != b[i] {
            assert(s@.take(p@.len() as int)[i as int] == a@[i as int]);
            return None;
        }
        i = i + 1;
    }
    assert(s@.take(p@.len() as int) =~= p@);
    Some(substring(&a, b.len(), a.len()))
}

fn first_id_value_in(query: &Vec<(String, String)>, key: &str, l: usize) -> (r: Option<String>)
    ensures
        match first_id_value(pairs_view(query@), key@, l as nat) {
            Some(v) => r matches Some(x) && x@ == v,
            None => r is None,
        },
{
    let ghost q = pairs_view(query@);
    let mut i: usize = 0;
    assert(q.skip(0) =~= q);
    while i < query.len()
        invariant
            q == pairs_view(query@),
            i <= query@.len(),
            first_id_value(q, key@, l as nat) == first_id_value(q.skip(i as int), key@, l as nat),
        decreases query.len() - i,
    {
        let ghost rest = q.skip(i as int);
        assert(rest[0] == (query@[i as int].0@, query@[i as int].1@));
        assert(rest.drop_first() =~= q.skip(i + 1));
        let k = &query[i].0;
        let v = &query[i].1;
        if str_eq(k.as_str(), key) && is_id_str(v.as_str(), l) {
            return Some(copy_string(v));
        }
        i = i + 1;
    }
    assert(q.skip(i as int) =~= Seq::<(Seq<char>, Seq<char>)>::empty());
    None
}

fn id_after(path: &str, prefix: &str, l: usize) -> (r: Option<String>)
    ensures
        match strip_prefix(path@, prefix@) {
            Some(p) if is_id(p, l as nat) => r matches Some(x) && x@ == p,
            _ => r is None,
        },
{
    match strip_prefix_str(path, prefix) {
        Some(p) => if is_id_str(p.as_str(), l) { Some(p) } else { None },
        None => None,
    }
}

/// The video that parsed link parts point to.
pub fn video_id_from_parts(parts: &UrlParts) -> (r: Option<String>)
    ensures
        match video_id_of(parts.view_parts()) {
            Some(v) => r matches Some(x) && x@ == v,
            None => r is None,
        },
{
    if !(str_eq(parts.scheme.as_str(), "http") || str_eq(parts.scheme.as_str(), "https")) {
        return None;
    }
    match &parts.domain {
        None => None,
        Some(d) => {
            if ends_with_str(d.as_str(), "youtube.com") {
                match first_id_value_in(&parts.query, "v", 16) {
                    Some(v) => Some(v),
                    None => match id_after(parts.path.as_str(), "/v/", 16) {
                        Some(p) => Some(p),
                        None => match id_after(parts.path.as_str(), "/embed/", 16) {
                            Some(p) => Some(p),
                            None => id_after(parts.path.as_str(), "/", 16),
                        },
                    },
                }
            } else if str_eq(d.as_str(), "youtu.be") {
                id_after(parts.path.as_str(), "/", 16)
            } else {
                None
            }
        },
    }
}

/// The playlist that parsed link parts point to.
pub fn playlist_id_from_parts(parts: &UrlParts) -> (r: Option<String>)
    ensures
        match playlist_id_of(parts.view_parts()) {
            Some(v) => r matches Some(x) && x@ == v,
            None => r is None,
        },
{
    if !(str_eq(parts.scheme.as_str(), "http") || str_eq(parts.scheme.as_str(), "https")) {
        return None;
    }
    match &parts.domain {
        None => None,
        Some(d) => {
            if ends_with_str(d.as_str(), "youtube.com") || str_eq(d.as_str(), "youtu.be") {
                first_id_value_in(&parts.query, "list", 40)
            } else {
                None
            }
        },
    }
}

/// The video ID in a YouTube link (`youtube.com` with a `v` query or an ID
/// path, or `youtu.be/<id>`), if the link has one.
pub fn parse_video_url(url: &str) -> (r: Option<String>)
    ensures
        match parsed_url(url@) {
            Some(parts) => match video_id_of(parts.1) {
                Some(v) => r matches Some(x) && x@ == v,
                None => r is None,
            },
            None => r is None,
        },
{
    match parse_url(url) {
        Some(parts) => video_id_from_parts(&parts),
        None => None,
    }
}

/// The playlist ID in a YouTube link's `list` query, if the link has one.
pub fn parse_playlist_url(url: &str) -> (r: Option<String>)
    ensures
        match parsed_url(url@) {
            Some(parts) => match playlist_id_of(parts.1) {
                Some(v) => r matches Some(x) && x@ == v,
                None => r is None,
            },
            None => r is None,
        },
{
    match parse_url(url) {
        Some(parts) => playlist_id_from_parts(&parts),
        None => None,
    }
}

} // verus!
