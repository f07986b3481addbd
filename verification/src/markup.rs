//! Chat markup: code spans, mentions, timestamps, and the custom emojis
//! that a message uses.
use vstd::prelude::*;
use crate::help::strings_view;
use crate::num::{decimal, parse_u64, parse_u64_spec, push_decimal, push_signed_decimal, signed_decimal};
use crate::text::{chars_of, push_str, substring};

verus! {

broadcast use vstd::string::group_string_axioms;

pub open spec fn blockify_spec(s: Seq<char>) -> Seq<char> {
    "`"@ + s + "`"@
}

/// Text set in a code span.
pub fn blockify(s: &str) -> (r: String)
    ensures r@ == blockify_spec(s@),
{
    let mut r = String::from_str("`");
    push_str(&mut r, s);
    push_str(&mut r, "`");
    r
}

/// How a user is mentioned.
pub open spec fn mention_spec(user: u64) -> Seq<char> {
    "<@"@ + decimal(user as nat) + ">"@
}

pub fn push_mention(s: &mut String, user: u64)
    ensures final(s)@ == old(s)@ + mention_spec(user),
{
    let ghost start = s@;
    push_str(s, "<@");
    push_decimal(s, user);
    push_str(s, ">");
    assert(s@ =~= start + mention_spec(user));
}

pub fn mention(user: u64) -> (r: String)
    ensures r@ == mention_spec(user),
{
    let mut s = String::new();
    push_mention(&mut s, user);
    assert(s@ =~= mention_spec(user));
    s
}

/// How a channel is mentioned.
pub open spec fn channel_mention_spec(channel: u64) -> Seq<char> {
    "<#"@ + decimal(channel as nat) + ">"@
}

pub fn push_channel_mention(s: &mut String, channel: u64)
    ensures final(s)@ == old(s)@ + channel_mention_spec(channel),
{
    let ghost start = s@;
    push_str(s, "<#");
    push_decimal(s, channel);
    push_str(s, ">");
    assert(s@ =~= start + channel_mention_spec(channel));
}

/// How the chat shows a timestamp.
#[derive(Debug, Clone, Copy, PartialEq, Eq, Structural)]
pub enum TimestampFormat {
    /// `8:17 PM`
    ShortTime,
    /// `8:17:00 PM`
    LongTime,
    /// `7/20/69`
    ShortDate,
    /// `July 20, 1969`
    LongDate,
    /// `July 20, 1969 at 8:17 PM`
    ShortDateTime,
    /// `Sunday, July 20, 1969 at 8:17 PM`
    LongDateTime,
    /// `55 years ago`
    Relative,
}

pub open spec fn format_letter(f: TimestampFormat) -> char {
    match f {
        TimestampFormat::ShortTime => 't',
        TimestampFormat::LongTime => 'T',
        TimestampFormat::ShortDate => 'd',
        TimestampFormat::LongDate => 'D',
        TimestampFormat::ShortDateTime => 'f',
        TimestampFormat::LongDateTime => 'F',
        TimestampFormat::Relative => 'R',
    }
}

impl TimestampFormat {
    pub fn to_str(self) -> (r: &'static str)
        ensures r@ == seq![format_letter(self)],
    {
        proof {
            reveal_strlit("t");
            reveal_strlit("T");
            reveal_strlit("d");
            reveal_strlit("D");
            reveal_strlit("f");
            reveal_strlit("F");
            reveal_strlit("R");
        }
        match self {
            TimestampFormat::ShortTime => "t",
            TimestampFormat::LongTime => "T",
            TimestampFormat::ShortDate => "d",
            TimestampFormat::LongDate => "D",
            TimestampFormat::ShortDateTime => "f",
            TimestampFormat::LongDateTime => "F",
            TimestampFormat::Relative => "R",
        }
    }
}

/// The seconds since the epoch of a time given in milliseconds (rounded down).
pub open spec fn seconds_of_millis(millis: int) -> int {
    millis / 1000
}

/// A timestamp the chat shows in the reader's time zone: `<t:seconds:format>`.
pub open spec fn timestamp_secs_spec(seconds: int, format: TimestampFormat) -> Seq<char> {
    "<t:"@ + signed_decimal(seconds) + ":"@ + seq![format_letter(format)] + ">"@
}

/// The timestamp of a time given in milliseconds.
pub open spec fn timestamp_spec(millis: int, format: TimestampFormat) -> Seq<char> {
    timestamp_secs_spec(seconds_of_millis(millis), format)
}

/// The timestamp of a time given in whole seconds since the epoch.
pub fn timestamp_secs_text(seconds: i64, format: TimestampFormat) -> (r: String)
    ensures r@ == timestamp_secs_spec(seconds as int, format),
{
    let mut s = String::from_str("<t:");
    push_signed_decimal(&mut s, seconds);
    push_str(&mut s, ":");
    push_str(&mut s, format.to_str());
    push_str(&mut s, ">");
    s
}

pub fn timestamp_text(millis: i64, format: TimestampFormat) -> (r: String)
    ensures r@ == timestamp_spec(millis as int, format),
{
    let seconds: i64 = if millis >= 0 { millis / 1000 } else { -((-(millis as i128) + 999) / 1000) as i64 };
    assert(seconds == seconds_of_millis(millis as int)) by (nonlinear_arith)
        requires
            seconds == (if millis >= 0 { millis / 1000 } else { -((-(millis as int) + 999) / 1000) }),
    {
    }
    timestamp_secs_text(seconds, format)
}

/// The pattern of a custom emoji in a message, such as `<:name:123>` or
/// `<a:name:123>` for an animated one; its group is the emoji's ID.
pub const EMOJI_PATTERN: &'static str = "<a?:[\\d\\w]+:(\\d+)>";

/// What `regex` makes of `pattern` over `text`: `None` where the pattern does
/// not compile, else for each match in order the text of its first group, or
/// `None` where that group took no part.
pub uninterp spec fn regex_group_captures(pattern: Seq<char>, text: Seq<char>) -> Option<Seq<Option<Seq<char>>>>;

pub open spec fn opt_strings_view(v: Seq<Option<String>>) -> Seq<Option<Seq<char>>> {
    v.map_values(|o: Option<String>| match o {
        Some(s) => Some(s@),
        None => None,
    })
}

/// `regex::Regex::new(pattern)`, then `Regex::captures_iter` over `text` and
/// `Captures::get(1)` of each match. Its result is named by
/// `regex_group_captures`; no more of it is stated.
#[verifier::external_body]
fn group_captures(pattern: &str, text: &str) -> (r: Option<Vec<Option<String>>>)
    ensures
        match regex_group_captures(pattern@, text@) {
            Some(c) => r matches Some(v) && opt_strings_view(v@) == c,
            None => r is None,
        },
{
    let rx = regex::Regex::new(pattern).ok()?;
    Some(rx.captures_iter(text).map(|c| c.get(1).map(|m| m.as_str().to_owned())).collect())
}

/// The groups that took part, in order.
pub open spec fn present(caps: Seq<Option<Seq<char>>>) -> Seq<Seq<char>>
    decreases caps.len(),
{
    if caps.len() == 0 {
        seq![]
    } else {
        present(caps.drop_last()) + match caps.last() {
            Some(c) => seq![c],
            None => seq![],
        }
    }
}

/// The ID texts of the custom emojis in a message: the groups of the
/// emoji pattern's matches (none, should the pattern not compile).
pub open spec fn emoji_captures(message: Seq<char>) -> Seq<Seq<char>> {
    match regex_group_captures(EMOJI_PATTERN@, message) {
        Some(c) => present(c),
        None => seq![],
    }
}

fn present_groups(caps: Vec<Option<String>>) -> (r: Vec<String>)
    ensures strings_view(r@) == present(opt_strings_view(caps@)),
{
    let ghost cs = opt_strings_view(caps@);
    let mut out: Vec<String> = Vec::new();
    let mut i: usize = 0;
    while i < caps.len()
        invariant
            i <= caps@.len(),
            cs == opt_strings_view(caps@),
            strings_view(out@) == present(cs.take(i as int)),
        decreases caps.len() - i,
    {
        let ghost t = cs.take(i + 1);
        assert(t.drop_last() =~= cs.take(i as int));
        assert(t.last() == cs[i as int]);
        let ghost before = out@;
        match &caps[i] {
            Some(c) => {
                out.push(c.clone());
                assert(strings_view(out@) =~= strings_view(before) + seq![c@]);
            },
            None => {
                assert(strings_view(out@) =~= strings_view(before) + Seq::<Seq<char>>::empty());
            },
        }
        i = i + 1;
    }
    assert(cs.take(i as int) =~= cs);
    out
}

/// The captured IDs that read as numbers, in order.
pub open spec fn parsed_ids(caps: Seq<Seq<char>>) -> Seq<u64>
    decreases caps.len(),
{
    if caps.len() == 0 {
        seq![]
    } else {
        let rest = parsed_ids(caps.drop_last());
        match parse_u64_spec(caps.last()) {
            Some(v) => rest.push(v),
            None => rest,
        }
    }
}

/// The emoji IDs among captured texts.
pub fn emoji_ids_from_captures(caps: &Vec<String>) -> (r: Vec<u64>)
    ensures r@ == parsed_ids(strings_view(caps@)),
{
    let ghost cs = strings_view(caps@);
    let mut out: Vec<u64> = Vec::new();
    let mut i: usize = 0;
    while i < caps.len()
        invariant
            i <= caps@.len(),
            cs == strings_view(caps@),
            out@ == parsed_ids(cs.take(i as int)),
        decreases caps.len() - i,
    {
        let ghost t = cs.take(i + 1);
        assert(t.drop_last() =~= cs.take(i as int));
        assert(t.last() == caps@[i as int]@);
        match parse_u64(caps[i].as_str()) {
            Some(v) => out.push(v),
            None => {},
        }
        i = i + 1;
    }
    assert(cs.take(i as int) =~= cs);
    out
}

/// The custom emojis a message uses, by ID, in order.
pub fn parse_emojis(message: &str) -> (r: Vec<u64>)
    ensures r@ == parsed_ids(emoji_captures(message@)),
{
    let caps = match group_captures(EMOJI_PATTERN, message) {
        Some(c) => present_groups(c),
        None => Vec::new(),
    };
    emoji_ids_from_captures(&caps)
}


// ---------------------------------------------------------------------------
// User mentions in a message.

/// The pattern of a user mention, `<@id>` or `<@!id>`; its group is the ID
/// (up to thirty digits).
pub const MENTION_PATTERN: &'static str = "<@\\!?([\\d]{0,30})>";

/// What `regex` makes of `pattern` over `text`: `None` where the pattern does
/// not compile, else each match in order as the character positions where it
/// starts and ends and the text of its first group (`None` where that group
/// took no part).
pub uninterp spec fn regex_spans(pattern: Seq<char>, text: Seq<char>) -> Option<Seq<(int, int, Option<Seq<char>>)>>;

/// Spans that lie in a text of `len` characters, in order, without overlap.
pub open spec fn spans_in_order(spans: Seq<(int, int)>, len: int) -> bool {
    &&& forall|i: int| 0 <= i < spans.len() ==> 0 <= (#[trigger] spans[i]).0 <= spans[i].1 <= len
    &&& forall|i: int| 0 < i < spans.len() ==> spans[i - 1].1 <= (#[trigger] spans[i]).0
}

pub open spec fn spans_of(v: Seq<(usize, usize, Option<String>)>) -> Seq<(int, int, Option<Seq<char>>)> {
    v.map_values(|m: (usize, usize, Option<String>)| (m.0 as int, m.1 as int, match m.2 {
        Some(g) => Some(g@),
        None => None,
    }))
}

/// `regex::Regex::new(pattern)`, then `Regex::captures_iter` over `text`:
/// for each match, its start and end (the byte offsets of `Match::start` and
/// `Match::end` given as character positions) and `Captures::get(1)`. The
/// result is named by `regex_spans`; of it only what the crate documents is
/// stated: the matches come in order and do not overlap.
#[verifier::external_body]
fn match_spans(pattern: &str, text: &str) -> (r: Option<Vec<(usize, usize, Option<String>)>>)
    ensures
        match regex_spans(pattern@, text@) {
            Some(sp) => r matches Some(v) && spans_of(v@) == sp
                && spans_in_order(sp.map_values(|m: (int, int, Option<Seq<char>>)| (m.0, m.1)), text@.len() as int),
            None => r is None,
        },
{
    let rx = regex::Regex::new(pattern).ok()?;
    let at = |b: usize| text[..b].chars().count();
    Some(rx.captures_iter(text).map(|c| {
        let m = c.get(0).unwrap();
        (at(m.start()), at(m.end()), c.get(1).map(|g| g.as_str().to_owned()))
    }).collect())
}

/// A user mention found in a message: where it starts and ends (character
/// positions) and the mentioned user, where the ID reads as a `u64`.
#[derive(Debug, Clone, Copy, PartialEq, Eq, Structural)]
pub struct Mention {
    pub start: usize,
    pub end: usize,
    pub user_id: Option<u64>,
}

pub open spec fn mention_spans(ms: Seq<Mention>) -> Seq<(int, int)> {
    ms.map_values(|m: Mention| (m.start as int, m.end as int))
}

/// The mentions of a message: one for each match of the mention pattern, in
/// order (none, should the pattern not compile).
pub open spec fn mentions_of(ms: Seq<Mention>, content: Seq<char>) -> bool {
    match regex_spans(MENTION_PATTERN@, content) {
        Some(sp) => ms.len() == sp.len() && forall|i: int| 0 <= i < ms.len() ==> {
            &&& (#[trigger] ms[i]).start == sp[i].0
            &&& ms[i].end == sp[i].1
            &&& ms[i].user_id == match sp[i].2 {
                Some(g) => parse_u64_spec(g),
                None => None,
            }
        },
        None => ms.len() == 0,
    }
}

/// The user mentions in a message, in order, with their IDs read as `u64`
/// (`None` for an empty ID or one too large).
pub fn user_mentions(content: &str) -> (r: Vec<Mention>)
    ensures
        mentions_of(r@, content@),
        spans_in_order(mention_spans(r@), content@.len() as int),
{
    match match_spans(MENTION_PATTERN, content) {
        None => Vec::new(),
        Some(v) => {
            let ghost sp = spans_of(v@);
            let mut out: Vec<Mention> = Vec::new();
            let mut i: usize = 0;
            while i < v.len()
                invariant
                    i <= v@.len(),
                    sp == spans_of(v@),
                    out@.len() == i,
                    forall|j: int| 0 <= j < i ==> {
                        &&& (#[trigger] out@[j]).start == sp[j].0
                        &&& out@[j].end == sp[j].1
                        &&& out@[j].user_id == match sp[j].2 {
                            Some(g) => parse_u64_spec(g),
                            None => None,
                        }
                    },
                decreases v.len() - i,
            {
                let user_id = match &v[i].2 {
                    Some(g) => parse_u64(g.as_str()),
                    None => None,
                };
                out.push(Mention { start: v[i].0, end: v[i].1, user_id });
                i = i + 1;
            }
            assert(mention_spans(out@) =~= sp.map_values(|m: (int, int, Option<Seq<char>>)| (m.0, m.1)));
            out
        },
    }
}

/// Where the text after the first `k` mentions resumes.
pub open spec fn resume_at(ms: Seq<Mention>, k: int) -> int {
    if k <= 0 { 0 } else { ms[k - 1].end as int }
}

/// The message up to the end of its `k`th mention, with the first `k`
/// mentions replaced where a replacement is given and kept otherwise.
pub open spec fn spliced_upto(content: Seq<char>, ms: Seq<Mention>, rs: Seq<Option<Seq<char>>>, k: int) -> Seq<char>
    decreases k,
{
    if k <= 0 {
        seq![]
    } else {
        let m = ms[k - 1];
        spliced_upto(content, ms, rs, k - 1) + content.subrange(resume_at(ms, k - 1), m.start as int)
            + match rs[k - 1] {
                Some(t) => t,
                None => content.subrange(m.start as int, m.end as int),
            }
    }
}

/// The whole message with its mentions replaced.
pub open spec fn spliced(content: Seq<char>, ms: Seq<Mention>, rs: Seq<Option<Seq<char>>>) -> Seq<char> {
    spliced_upto(content, ms, rs, ms.len() as int) + content.subrange(resume_at(ms, ms.len() as int), content.len() as int)
}

pub open spec fn opt_texts(v: Seq<Option<String>>) -> Seq<Option<Seq<char>>> {
    v.map_values(|o: Option<String>| match o {
        Some(s) => Some(s@),
        None => None,
    })
}

/// The message with each mention replaced by the text given for it, or kept
/// as it is where none is given.
pub fn splice_mentions(content: &str, mentions: &Vec<Mention>, replacements: &Vec<Option<String>>) -> (r: String)
    requires
        replacements@.len() == mentions@.len(),
        spans_in_order(mention_spans(mentions@), content@.len() as int),
    ensures r@ == spliced(content@, mentions@, opt_texts(replacements@)),
{
    let chars = chars_of(content);
    let ghost rs = opt_texts(replacements@);
    let mut out = String::new();
    let mut at: usize = 0;
    let mut k: usize = 0;
    while k < mentions.len()
        invariant
            chars@ == content@,
            k <= mentions@.len(),
            replacements@.len() == mentions@.len(),
            rs == opt_texts(replacements@),
            spans_in_order(mention_spans(mentions@), content@.len() as int),
            at == resume_at(mentions@, k as int),
            at <= chars@.len(),
            out@ == spliced_upto(content@, mentions@, rs, k as int),
        decreases mentions.len() - k,
    {
        let m = mentions[k];
        assert(mention_spans(mentions@)[k as int] == (m.start as int, m.end as int));
        if k > 0 {
            assert(mention_spans(mentions@)[k - 1] == (mentions@[k - 1].start as int, mentions@[k - 1].end as int));
        }
        let before = substring(&chars, at, m.start);
        push_str(&mut out, before.as_str());
        match &replacements[k] {
            Some(t) => push_str(&mut out, t.as_str()),
            None => {
                let kept = substring(&chars, m.start, m.end);
                push_str(&mut out, kept.as_str());
            },
        }
        at = m.end;
        k = k + 1;
    }
    let rest = substring(&chars, at, chars.len());
    push_str(&mut out, rest.as_str());
    out
}

} // verus!
