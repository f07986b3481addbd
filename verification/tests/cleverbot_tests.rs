use melody::cleverbot::{
    accept_response, build_payload, build_url, encode_uri_component, escape, parse_max_age, session_from_cookie,
    CleverBotContext, CleverBotData, CleverBotError, CleverBotPreviousData, DEFAULT_MAX_AGE,
};

fn previous(reply: &str, cbsid: &str, xai: &str) -> CleverBotPreviousData {
    CleverBotPreviousData { cbsid: cbsid.to_owned(), xai: xai.to_owned(), last_reply: reply.to_owned() }
}

#[test]
fn reads_previous_data_from_a_response() {
    let p = CleverBotPreviousData::new("hello\rABCDEF\rxyz\rrest").unwrap();
    assert_eq!(p.last_reply, "hello");
    assert_eq!(p.cbsid, "ABCDEF");
    assert_eq!(p.xai, "ABC,xyz");
    assert!(CleverBotPreviousData::new("only\rtwo pieces").is_none());
    assert!(CleverBotPreviousData::new("nothing").is_none());
    assert!(CleverBotPreviousData::is_readable("a\rABCD\rc"));
    assert!(!CleverBotPreviousData::is_readable("a\rab\rc"));
    assert!(CleverBotPreviousData::is_readable("no separator"));
}

#[test]
fn max_age_attribute() {
    assert_eq!(parse_max_age("Max-Age=3600"), Some(3600));
    assert_eq!(parse_max_age("Max-Age=-5"), Some(-5));
    assert_eq!(parse_max_age("Max-Age=x"), None);
    assert_eq!(parse_max_age("max-age=5"), None);
    assert_eq!(parse_max_age(""), None);
}

#[test]
fn session_cookie() {
    let d = CleverBotData::new("XVIS=abc;path=/;Max-Age=100", 5).unwrap();
    assert_eq!(d.xvis, "XVIS=abc");
    assert_eq!(d.max_age, 100);
    assert_eq!(d.last_update, 5);
    assert!(d.previous.is_none());
    // the attribute must follow the separator directly
    let d = CleverBotData::new("XVIS=abc; path=/; Max-Age=100", 5).unwrap();
    assert_eq!(d.max_age, DEFAULT_MAX_AGE);
    let d = CleverBotData::new("XVIS", 0).unwrap();
    assert_eq!(d.xvis, "XVIS");
    assert_eq!(d.max_age, 86_400_000);
    assert!(!d.is_expired(86_400_000));
    assert!(d.is_expired(86_400_001));
}

#[test]
fn session_from_headers() {
    assert_eq!(session_from_cookie(None, 0).unwrap_err(), CleverBotError::MissingCookie);
    let d = session_from_cookie(Some("A=1;b;Max-Age=7"), 3).unwrap();
    assert_eq!((d.xvis.as_str(), d.max_age, d.last_update), ("A=1", 7, 3));
}

#[test]
fn percent_encodings() {
    assert_eq!(escape("a b+c/d@e_f*g.h-i"), "a%20b+c/d@e_f*g.h-i");
    assert_eq!(escape("é!"), "%C3%A9%21");
    assert_eq!(encode_uri_component("a b!'()*-._~"), "a%20b!'()*-._~");
    assert_eq!(encode_uri_component("+/&="), "%2B%2F%26%3D");
    assert_eq!(escape(""), "");
}

fn md5_hex(bytes: &[u8]) -> String {
    format!("{:x}", md5::compute(bytes))
}

#[test]
fn payload_without_history() {
    let body = "stimulus=hi&cb_settings_scripting=no&islearning=1&icognoid=wsf&icognocheck=";
    let expected = format!("{body}{}", md5_hex(&body.as_bytes()[7..33]));
    assert_eq!(build_payload(&[], "hi"), expected);
}

#[test]
fn payload_with_history() {
    let history = vec!["one".to_owned(), "t w o".to_owned()];
    let body = "stimulus=hey%20there&vText2=t%20w%20ovText3=onecb_settings_scripting=no&islearning=1&icognoid=wsf&icognocheck=";
    let expected = format!("{body}{}", md5_hex(&body.as_bytes()[7..33]));
    assert_eq!(build_payload(&history, "hey there"), expected);
}

#[test]
fn request_urls() {
    let base = "https://www.cleverbot.com/webservicemin?uc=UseOfficialCleverbotAPI";
    assert_eq!(build_url(&None, "hi"), base);
    let p = Some(previous("Hi there!", "ABCDEF", "ABC,xyz"));
    assert_eq!(
        build_url(&p, "how are you"),
        format!("{base}&out=Hi%20there!&in=how%20are%20you&bot=c&cbsid=ABCDEF&xai=ABC,xyz\
            &ns=2&al=&dl=&flag=&user=&mode=1&alt=0&reac=&emo=&sou=website&xed=&")
    );
}

#[test]
fn responses_to_a_message() {
    let mut d = CleverBotData::new("X", 0).unwrap();
    assert_eq!(
        accept_response(&mut d, 503, "busy"),
        Err(CleverBotError::ResponseError(503, "busy".to_owned()))
    );
    assert!(d.previous.is_none());
    assert_eq!(accept_response(&mut d, 200, "garbage"), Err(CleverBotError::InvalidResponse("garbage".to_owned())));
    assert!(d.previous.is_none());
    assert_eq!(accept_response(&mut d, 200, "hello\rABCDEF\rxyz"), Ok("hello".to_owned()));
    let p = d.previous.clone().unwrap();
    assert_eq!((p.cbsid.as_str(), p.xai.as_str(), p.last_reply.as_str()), ("ABCDEF", "ABC,xyz", "hello"));
    assert_eq!(d.xvis, "X");
}

#[test]
fn history_is_trimmed_to_its_limit() {
    let mut c = CleverBotContext::with_size_limit(3);
    c.record_exchange("m1", "r1");
    assert_eq!(c.history, ["m1", "r1"]);
    c.record_exchange("m2", "r2");
    assert_eq!(c.history, ["r1", "m2", "r2"]);
    let c = CleverBotContext::new();
    assert_eq!(c.history_size_limit, 32);
    assert!(c.history.is_empty());
}
