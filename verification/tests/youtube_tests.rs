use melody::youtube::{
    display_playlist_url, display_video_url, is_id_str, parse_playlist_url, parse_video_url, playlist_id_from_parts,
    video_id_from_parts, UrlParts, YtDlp,
};

fn parts(scheme: &str, domain: Option<&str>, path: &str, query: &[(&str, &str)]) -> UrlParts {
    UrlParts {
        serialized: String::new(),
        scheme: scheme.to_owned(),
        domain: domain.map(str::to_owned),
        path: path.to_owned(),
        query: query.iter().map(|(k, v)| (k.to_string(), v.to_string())).collect(),
    }
}

#[test]
fn ids() {
    assert!(is_id_str("dQw4w9WgXcQ", 16));
    assert!(!is_id_str("dQw4w9WgXcQ", 11));
    assert!(is_id_str("a_b-C", 6));
    assert!(!is_id_str("a b", 16));
    assert!(!is_id_str("é", 16));
    assert!(is_id_str("", 1));
}

#[test]
fn display_urls() {
    assert_eq!(display_video_url("abc").to_url(), "https://www.youtube.com/watch?v=abc");
    assert_eq!(display_playlist_url("PL1").to_url(), "https://www.youtube.com/playlist?list=PL1");
}

#[test]
fn yt_dlp_arguments() {
    let y = YtDlp::new("yt-dlp".to_owned());
    assert_eq!(
        y.video_info_args("abc"),
        ["-J", "https://www.youtube.com/watch?v=abc", "-f", "ba[abr>0][vcodec=none]/best", "--no-playlist"]
    );
    assert_eq!(
        y.playlist_info_args("PL1"),
        ["-J", "https://www.youtube.com/playlist?list=PL1", "--compat-options", "no-youtube-unavailable-videos", "--yes-playlist"]
    );
    assert_eq!(y.update_args("nightly"), ["--update-to", "nightly"]);
}

#[test]
fn video_ids_from_link_parts() {
    let q = parts("https", Some("www.youtube.com"), "/watch", &[("t", "5"), ("v", "dQw4w9WgXcQ")]);
    assert_eq!(video_id_from_parts(&q), Some("dQw4w9WgXcQ".to_owned()));
    let embed = parts("https", Some("youtube.com"), "/embed/abc_D-1", &[]);
    assert_eq!(video_id_from_parts(&embed), Some("abc_D-1".to_owned()));
    let short = parts("http", Some("youtu.be"), "/xyz", &[]);
    assert_eq!(video_id_from_parts(&short), Some("xyz".to_owned()));
    let other = parts("https", Some("vimeo.com"), "/xyz", &[]);
    assert_eq!(video_id_from_parts(&other), None);
    let ftp = parts("ftp", Some("youtube.com"), "/xyz", &[]);
    assert_eq!(video_id_from_parts(&ftp), None);
    let ip = parts("https", None, "/xyz", &[]);
    assert_eq!(video_id_from_parts(&ip), None);
}

#[test]
fn playlist_ids_from_link_parts() {
    let q = parts("https", Some("music.youtube.com"), "/playlist", &[("list", "PLx"), ("list", "PLy")]);
    assert_eq!(playlist_id_from_parts(&q), Some("PLx".to_owned()));
    let bad = parts("https", Some("youtube.com"), "/playlist", &[("list", "bad id")]);
    assert_eq!(playlist_id_from_parts(&bad), None);
}

#[test]
fn parsing_links() {
    assert_eq!(parse_video_url("https://www.youtube.com/watch?v=dQw4w9WgXcQ"), Some("dQw4w9WgXcQ".to_owned()));
    assert_eq!(parse_video_url("https://youtu.be/dQw4w9WgXcQ?t=3"), Some("dQw4w9WgXcQ".to_owned()));
    assert_eq!(parse_video_url("https://www.youtube.com/v/abc"), Some("abc".to_owned()));
    assert_eq!(parse_video_url("not a url"), None);
    assert_eq!(parse_video_url("https://example.com/watch?v=abc"), None);
    assert_eq!(
        parse_playlist_url("https://www.youtube.com/playlist?list=PLabc123"),
        Some("PLabc123".to_owned())
    );
    assert_eq!(parse_playlist_url("https://www.youtube.com/watch?v=abc"), None);
}
