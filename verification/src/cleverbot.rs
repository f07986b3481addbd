//! The CleverBot web protocol: reading its cookie and replies, building the
//! request payload and URL, and keeping a conversation's history.
use vstd::prelude::*;
use vstd::utf8::encode_utf8;
use std::collections::VecDeque;
use crate::text::{chars_of, push_char, substring};
use crate::num::{decimal, push_decimal, parse_i64, parse_i64_spec};

verus! {

broadcast use vstd::string::group_string_axioms;

/// `str::split` on one character: the pieces between separators (always at least one).
pub open spec fn split_on(s: Seq<char>, sep: char) -> Seq<Seq<char>>
    decreases s.len(),
{
    if s.len() == 0 {
        seq![seq![]]
    } else {
        let rest = split_on(s.drop_first(), sep);
        if s[0] == sep {
            seq![seq![]] + rest
        } else {
            rest.update(0, seq![s[0]] + rest[0])
        }
    }
}

proof fn lemma_split_on_len(s: Seq<char>, sep: char)
    ensures split_on(s, sep).len() >= 1,
    decreases s.len(),
{
    if s.len() > 0 {
        lemma_split_on_len(s.drop_first(), sep);
    }
}

/// Splitting at the first separator.
proof fn lemma_split_on_at(s: Seq<char>, sep: char, a: int)
    requires
        0 <= a <= s.len(),
        forall|k: int| 0 <= k < a ==> s[k] != sep,
        a < s.len() ==> s[a] == sep,
    ensures
        a == s.len() ==> split_on(s, sep) == seq![s],
        a < s.len() ==> split_on(s, sep) == seq![s.take(a)] + split_on(s.skip(a + 1), sep),
    decreases a,
{
    if a == 0 {
        if s.len() == 0 {
            assert(s =~= Seq::<char>::empty());
        } else {
            assert(s.take(0) =~= Seq::<char>::empty());
            assert(s.skip(1) =~= s.drop_first());
        }
    } else {
        let t = s.drop_first();
        assert forall|k: int| 0 <= k < a - 1 implies t[k] != sep by {
            assert(t[k] == s[k + 1]);
        }
        lemma_split_on_at(t, sep, a - 1);
        lemma_split_on_len(t, sep);
        assert(s[0] != sep);
        let r = split_on(t, sep);
        assert(split_on(s, sep) == r.update(0, seq![s[0]] + r[0]));
        if a == s.len() {
            assert(r =~= seq![t]);
            assert(seq![s[0]] + t =~= s);
            assert(r.update(0, seq![s[0]] + r[0]) =~= seq![s]);
        } else {
            let tail = split_on(t.skip(a), sep);
            assert(r =~= seq![t.take(a - 1)] + tail);
            assert(seq![s[0]] + t.take(a - 1) =~= s.take(a));
            assert(t.skip(a) =~= s.skip(a + 1));
            assert(r.update(0, seq![s[0]] + r[0]) =~= seq![s.take(a)] + tail);
        }
    }
}

/// The first position at or after `from` holding `sep` (or the end).
fn find_from(chars: &Vec<char>, from: usize, sep: char) -> (r: usize)
    requires from <= chars@.len(),
    ensures
        from <= r <= chars@.len(),
        forall|k: int| from <= k < r ==> chars@[k] != sep,
        r < chars@.len() ==> chars@[r as int] == sep,
{
    let mut i = from;
    while i < chars.len()
        invariant
            from <= i <= chars@.len(),
            forall|k: int| from <= k < i ==> chars@[k] != sep,
        decreases chars.len() - i,
    {
        if chars[i] == sep {
            return i;
        }
        i = i + 1;
    }
    i
}

/// The number of bytes `c` takes in UTF-8.
pub open spec fn utf8_width(c: char) -> nat {
    if (c as u32) < 0x80 { 1 } else if (c as u32) < 0x800 { 2 } else if (c as u32) < 0x10000 { 3 } else { 4 }
}

/// The number of leading characters of `cs` (from `i` on, `acc` bytes so
/// far) that take exactly `n` bytes, if such a prefix exists.
pub open spec fn prefix_of_bytes(cs: Seq<char>, i: int, acc: nat, n: nat) -> Option<int>
    decreases cs.len() - i,
{
    if acc == n {
        Some(i)
    } else if acc > n || i < 0 || i >= cs.len() {
        None
    } else {
        prefix_of_bytes(cs, i + 1, acc + utf8_width(cs[i]), n)
    }
}

fn width_of(c: char) -> (r: u64)
    ensures r == utf8_width(c),
{
    let u = c as u32;
    if u < 0x80 { 1 } else if u < 0x800 { 2 } else if u < 0x10000 { 3 } else { 4 }
}

fn prefix_bytes(chars: &Vec<char>, from: usize, to: usize, n: u64) -> (r: Option<usize>)
    requires
        from <= to <= chars@.len(),
        n <= 16,
    ensures
        match prefix_of_bytes(chars@.subrange(from as int, to as int), 0, 0, n as nat) {
            Some(k) => r == Some((from + k) as usize) && 0 <= k <= to - from,
            None => r is None,
        },
{
    let ghost cs = chars@.subrange(from as int, to as int);
    let mut i = from;
    let mut acc: u64 = 0;
    while acc < n && i < to
        invariant
            from <= i <= to <= chars@.len(),
            acc <= n + 4,
            n <= 16,
            cs == chars@.subrange(from as int, to as int),
            prefix_of_bytes(cs, 0, 0, n as nat) == prefix_of_bytes(cs, i - from, acc as nat, n as nat),
        decreases to - i,
    {
        assert(cs[i - from] == chars@[i as int]);
        acc = acc + width_of(chars[i]);
        i = i + 1;
    }
    if acc == n { Some(i) } else { None }
}

/// What the previous reply established for the next request.
#[derive(Debug, Clone)]
pub struct CleverBotPreviousData {
    pub cbsid: String,
    pub xai: String,
    pub last_reply: String,
}

/// The reply, the session id and the `xai` value a response carries, when
/// it has at least three `\r`-separated pieces. `xai` is the first three
/// bytes of the session id, a comma, and the third piece.
pub open spec fn previous_spec(response: Seq<char>) -> Option<(Seq<char>, Seq<char>, Seq<char>)> {
    let pieces = split_on(response, '\r');
    if pieces.len() < 3 {
        None
    } else {
        match prefix_of_bytes(pieces[1], 0, 0, 3) {
            Some(k) => Some((pieces[0], pieces[1], pieces[1].take(k) + seq![','] + pieces[2])),
            None => None,
        }
    }
}

/// A response whose session id can be cut after three bytes (reading one
/// that cannot is a failure of the original protocol code).
pub open spec fn previous_readable(response: Seq<char>) -> bool {
    let pieces = split_on(response, '\r');
    pieces.len() >= 2 ==> prefix_of_bytes(pieces[1], 0, 0, 3) is Some
}

impl CleverBotPreviousData {
    /// Whether `new` can read `response` (see `previous_readable`).
    pub fn is_readable(response: &str) -> (r: bool)
        ensures r == previous_readable(response@),
    {
        let chars = chars_of(response);
        let a = find_from(&chars, 0, '\r');
        proof { lemma_split_on_at(chars@, '\r', a as int); }
        if a == chars.len() {
            return true;
        }
        let b = find_from(&chars, a + 1, '\r');
        let ghost rest = chars@.skip(a + 1);
        proof {
            assert forall|k: int| 0 <= k < b - (a + 1) implies rest[k] != '\r' by {
                assert(rest[k] == chars@[k + a + 1]);
            }
            lemma_split_on_at(rest, '\r', b - (a + 1));
            lemma_split_on_len(rest, '\r');
            if b < chars.len() {
                assert(rest.take(b - (a + 1)) =~= chars@.subrange(a + 1, b as int));
            } else {
                assert(rest =~= chars@.subrange(a + 1, b as int));
            }
        }
        prefix_bytes(&chars, a + 1, b, 3).is_some()
    }

    /// Reads the reply, session id and `xai` from a response (see `previous_spec`).
    pub fn new(response: &str) -> (r: Option<Self>)
        requires previous_readable(response@),
        ensures
            match previous_spec(response@) {
                Some((reply, cbsid, xai)) => r matches Some(d)
                    && d.last_reply@ == reply && d.cbsid@ == cbsid && d.xai@ == xai,
                None => r is None,
            },
    {
        let chars = chars_of(response);
        let a = find_from(&chars, 0, '\r');
        proof { lemma_split_on_at(chars@, '\r', a as int); }
        if a == chars.len() {
            return None;
        }
        let reply = substring(&chars, 0, a);
        let b = find_from(&chars, a + 1, '\r');
        let ghost rest = chars@.skip(a + 1);
        proof {
            assert forall|k: int| 0 <= k < b - (a + 1) implies rest[k] != '\r' by {
                assert(rest[k] == chars@[k + a + 1]);
            }
            lemma_split_on_at(rest, '\r', b - (a + 1));
            lemma_split_on_len(rest, '\r');
            if b < chars.len() {
                assert(rest.take(b - (a + 1)) =~= chars@.subrange(a + 1, b as int));
            } else {
                assert(rest =~= chars@.subrange(a + 1, b as int));
            }
            assert(chars@.take(a as int) =~= chars@.subrange(0, a as int));
        }
        let cbsid = substring(&chars, a + 1, b);
        let k = match prefix_bytes(&chars, a + 1, b, 3) {
            Some(k) => k,
            None => {
                return None;
            },
        };
        if b == chars.len() {
            return None;
        }
        let c = find_from(&chars, b + 1, '\r');
        let ghost rest2 = chars@.skip(b + 1);
        proof {
            assert forall|m: int| 0 <= m < c - (b + 1) implies rest2[m] != '\r' by {
                assert(rest2[m] == chars@[m + b + 1]);
            }
            lemma_split_on_at(rest2, '\r', c - (b + 1));
            lemma_split_on_len(rest2, '\r');
            assert(rest.skip(b - (a + 1) + 1) =~= rest2);
            if c < chars.len() {
                assert(rest2.take(c - (b + 1)) =~= chars@.subrange(b + 1, c as int));
            } else {
                assert(rest2 =~= chars@.subrange(b + 1, c as int));
            }
        }
        let mut xai = substring(&chars, a + 1, k);
        push_char(&mut xai, ',');
        let third = substring(&chars, b + 1, c);
        xai.append(third.as_str());
        proof {
            assert(chars@.subrange(a + 1, k as int) =~= chars@.subrange(a + 1, b as int).take(k - (a + 1)));
        }
        Some(CleverBotPreviousData { cbsid, xai, last_reply: reply })
    }
}

/// How long a session lasts when the cookie does not say: one day, in milliseconds.
pub const DEFAULT_MAX_AGE: i64 = 86400000;

/// `Max-Age=<n>` gives `n`.
pub open spec fn max_age_spec(s: Seq<char>) -> Option<i64> {
    let key = "Max-Age="@;
    if s.len() >= key.len() && s.take(key.len() as int) == key {
        parse_i64_spec(s.skip(key.len() as int))
    } else {
        None
    }
}

/// Reads a `Max-Age=<n>` cookie attribute.
pub fn parse_max_age(max_age: &str) -> (r: Option<i64>)
    ensures r == max_age_spec(max_age@),
{
    let key = chars_of("Max-Age=");
    let chars = chars_of(max_age);
    if chars.len() < key.len() {
        return None;
    }
    let mut i: usize = 0;
    while i < key.len()
        invariant
            key@ == "Max-Age="@,
            chars@ == max_age@,
            key@.len() <= chars@.len(),
            i <= key@.len(),
            forall|k: int| 0 <= k < i ==> chars@[k] == key@[k],
        decreases key.len() - i,
    {
        if chars[i] != key[i] {
            assert(chars@.take(key@.len() as int)[i as int] != key@[i as int]);
            return None;
        }
        i = i + 1;
    }
    assert(chars@.take(key@.len() as int) =~= key@);
    let rest = substring(&chars, key.len(), chars.len());
    assert(rest@ =~= max_age@.skip(key@.len() as int));
    parse_i64(rest.as_str())
}

/// A CleverBot session: its cookie value, what the last reply established,
/// and how long it lives from its last update (in milliseconds).
#[derive(Debug, Clone)]
pub struct CleverBotData {
    pub xvis: String,
    pub previous: Option<CleverBotPreviousData>,
    pub max_age: i64,
    pub last_update: i64,
}

impl CleverBotData {
    /// Reads a `set-cookie` header: the first `;`-separated piece is the
    /// session cookie and a third piece may give the `Max-Age`.
    pub fn new(cookie: &str, last_update: i64) -> (r: Option<Self>)
        ensures
            ({
                let pieces = split_on(cookie@, ';');
                r matches Some(d) && d.xvis@ == pieces[0] && d.previous is None && d.last_update == last_update
                    && d.max_age == (if pieces.len() >= 3 {
                        match max_age_spec(pieces[2]) { Some(v) => v, None => DEFAULT_MAX_AGE }
                    } else { DEFAULT_MAX_AGE })
            }),
    {
        let chars = chars_of(cookie);
        let a = find_from(&chars, 0, ';');
        proof {
            lemma_split_on_at(chars@, ';', a as int);
            assert(chars@.take(a as int) =~= chars@.subrange(0, a as int));
            assert(chars@ =~= chars@.subrange(0, a as int) || a < chars@.len());
        }
        let xvis = substring(&chars, 0, a);
        let mut max_age = DEFAULT_MAX_AGE;
        if a < chars.len() {
            let b = find_from(&chars, a + 1, ';');
            let ghost rest = chars@.skip(a + 1);
            proof {
                assert forall|k: int| 0 <= k < b - (a + 1) implies rest[k] != ';' by {
                    assert(rest[k] == chars@[k + a + 1]);
                }
                lemma_split_on_at(rest, ';', b - (a + 1));
                lemma_split_on_len(rest, ';');
            }
            if b < chars.len() {
                let c = find_from(&chars, b + 1, ';');
                let ghost rest2 = chars@.skip(b + 1);
                proof {
                    assert forall|m: int| 0 <= m < c - (b + 1) implies rest2[m] != ';' by {
                        assert(rest2[m] == chars@[m + b + 1]);
                    }
                    lemma_split_on_at(rest2, ';', c - (b + 1));
                    lemma_split_on_len(rest2, ';');
                    assert(rest.skip(b - (a + 1) + 1) =~= rest2);
                    if c < chars.len() {
                        assert(rest2.take(c - (b + 1)) =~= chars@.subrange(b + 1, c as int));
                    } else {
                        assert(rest2 =~= chars@.subrange(b + 1, c as int));
                    }
                }
                let third = substring(&chars, b + 1, c);
                match parse_max_age(third.as_str()) {
                    Some(v) => max_age = v,
                    None => {},
                }
            }
        } else {
            assert(chars@ =~= chars@.subrange(0, a as int));
        }
        Some(CleverBotData { xvis, previous: None, max_age, last_update })
    }

    /// Whether the session has outlived its `max_age` at time `now` (milliseconds).
    pub fn is_expired(&self, now: i64) -> (r: bool)
        ensures r == (now - self.last_update > self.max_age),
    {
        (now as i128) - (self.last_update as i128) > (self.max_age as i128)
    }
}

// ---------------------------------------------------------------------------
// Percent-encoding, as the website's scripts do it.

pub open spec fn is_alnum_byte(b: u8) -> bool {
    (0x30 <= b <= 0x39) || (0x41 <= b <= 0x5a) || (0x61 <= b <= 0x7a)
}

/// Bytes left as they are by the site's `escape`.
pub open spec fn escape_keeps(b: u8) -> bool {
    is_alnum_byte(b) || b == 0x2a || b == 0x2b || b == 0x2d || b == 0x2e || b == 0x2f || b == 0x40 || b == 0x5f
}

/// Bytes left as they are by `encodeURIComponent`.
pub open spec fn uri_keeps(b: u8) -> bool {
    is_alnum_byte(b) || b == 0x21 || b == 0x27 || b == 0x28 || b == 0x29 || b == 0x2a || b == 0x2d
        || b == 0x2e || b == 0x5f || b == 0x7e
}

pub open spec fn hex_upper(d: nat) -> char {
    if d < 10 { (d + 0x30) as char } else { (d - 10 + 0x41) as char }
}

/// One byte: itself, or `%` and two upper-case hex digits.
pub open spec fn encode_byte(b: u8, keep: bool) -> Seq<char> {
    if keep { seq![b as char] } else { seq!['%', hex_upper((b / 16) as nat), hex_upper((b % 16) as nat)] }
}

/// Percent-encodes `bytes`, keeping the bytes `escape` (or, with `uri`,
/// `encodeURIComponent`) keeps.
pub open spec fn percent_encoded(bytes: Seq<u8>, uri: bool) -> Seq<char>
    decreases bytes.len(),
{
    if bytes.len() == 0 {
        seq![]
    } else {
        percent_encoded(bytes.drop_last(), uri)
            + encode_byte(bytes.last(), if uri { uri_keeps(bytes.last()) } else { escape_keeps(bytes.last()) })
    }
}

fn hex_digit(d: u8) -> (r: char)
    requires d < 16,
    ensures r == hex_upper(d as nat),
{
    if d < 10 { (d + 0x30) as char } else { (d - 10 + 0x41) as char }
}

/// Percent-encodes the UTF-8 bytes of `input` onto `out`.
fn push_percent_encoded(out: &mut String, input: &str, uri: bool)
    ensures final(out)@ == old(out)@ + percent_encoded(encode_utf8(input@), uri),
{
    let bytes = input.as_bytes();
    let ghost bs = encode_utf8(input@);
    let ghost start = out@;
    let mut i: usize = 0;
    assert(bs.take(0) =~= Seq::<u8>::empty());
    while i < bytes.len()
        invariant
            bytes@ == bs,
            i <= bs.len(),
            out@ == start + percent_encoded(bs.take(i as int), uri),
        decreases bytes.len() - i,
    {
        let b = bytes[i];
        let keep = if uri {
            (0x30 <= b && b <= 0x39) || (0x41 <= b && b <= 0x5a) || (0x61 <= b && b <= 0x7a) || b == 0x21 || b == 0x27
                || b == 0x28 || b == 0x29 || b == 0x2a || b == 0x2d || b == 0x2e || b == 0x5f || b == 0x7e
        } else {
            (0x30 <= b && b <= 0x39) || (0x41 <= b && b <= 0x5a) || (0x61 <= b && b <= 0x7a) || b == 0x2a || b == 0x2b
                || b == 0x2d || b == 0x2e || b == 0x2f || b == 0x40 || b == 0x5f
        };
        if keep {
            push_char(out, b as char);
        } else {
            push_char(out, '%');
            push_char(out, hex_digit(b / 16));
            push_char(out, hex_digit(b % 16));
        }
        proof {
            assert(bs.take(i + 1).drop_last() =~= bs.take(i as int));
            assert(bs.take(i + 1).last() == b);
        }
        i = i + 1;
        assert(out@ =~= start + percent_encoded(bs.take(i as int), uri));
    }
    assert(bs.take(i as int) =~= bs);
}

/// The site's `escape` of a string.
pub fn escape(input: &str) -> (r: String)
    ensures r@ == percent_encoded(encode_utf8(input@), false),
{
    let mut out = String::new();
    push_percent_encoded(&mut out, input, false);
    assert(Seq::<char>::empty() + percent_encoded(encode_utf8(input@), false) =~= percent_encoded(encode_utf8(input@), false));
    out
}

/// JavaScript's `encodeURIComponent` of a string.
pub fn encode_uri_component(input: &str) -> (r: String)
    ensures r@ == percent_encoded(encode_utf8(input@), true),
{
    let mut out = String::new();
    push_percent_encoded(&mut out, input, true);
    assert(Seq::<char>::empty() + percent_encoded(encode_utf8(input@), true) =~= percent_encoded(encode_utf8(input@), true));
    out
}

// ---------------------------------------------------------------------------
// The request.

/// The MD5 digest of some bytes, as 32 lower-case hex digits.
pub uninterp spec fn md5_hex_of(data: Seq<u8>) -> Seq<char>;

/// `md5::compute`, formatted with `{:x}`: the digest of `data` in lower-case
/// hex. Only that the result is the named digest of exactly these bytes is
/// claimed; MD5 itself is not stated.
#[verifier::external_body]
fn md5_hex(data: &[u8]) -> (r: String)
    ensures r@ == md5_hex_of(data@),
{
    format!("{:x}", md5::compute(data))
}

/// `vText<n>=<escaped message>` for each history message, newest first, `n` counting from 2.
pub open spec fn history_fields(history: Seq<Seq<char>>, i: int) -> Seq<char>
    decreases history.len() - i,
{
    if 0 <= i < history.len() {
        "vText"@ + decimal((i + 2) as nat) + "="@ + percent_encoded(encode_utf8(history[history.len() - 1 - i]), false)
            + history_fields(history, i + 1)
    } else {
        seq![]
    }
}

/// The payload up to the checksum.
pub open spec fn payload_body(history: Seq<Seq<char>>, message: Seq<char>) -> Seq<char> {
    "stimulus="@ + percent_encoded(encode_utf8(message), false) + "&"@ + history_fields(history, 0)
        + "cb_settings_scripting=no&islearning=1&icognoid=wsf&icognocheck="@
}

/// The request body: the fields, then the MD5 of bytes 7 to 33 of them.
pub open spec fn payload_spec(history: Seq<Seq<char>>, message: Seq<char>) -> Seq<char> {
    payload_body(history, message) + md5_hex_of(encode_utf8(payload_body(history, message)).subrange(7, 33))
}

proof fn lemma_encode_utf8_len(s: Seq<char>)
    ensures encode_utf8(s).len() >= s.len(),
    decreases s.len(),
{
    if s.len() > 0 {
        lemma_encode_utf8_len(s.drop_first());
        vstd::utf8::encode_utf8_first_scalar(s);
    }
}

proof fn lemma_encode_utf8_concat(a: Seq<char>, b: Seq<char>)
    ensures encode_utf8(a + b) == encode_utf8(a) + encode_utf8(b),
    decreases a.len(),
{
    if a.len() == 0 {
        assert(a + b =~= b);
        assert(Seq::<u8>::empty() + encode_utf8(b) =~= encode_utf8(b));
    } else {
        lemma_encode_utf8_concat(a.drop_first(), b);
        assert((a + b).drop_first() =~= a.drop_first() + b);
        assert((a + b)[0] == a[0]);
    }
}

/// Builds the request body for `message` given the conversation so far.
pub fn build_payload(history: &[String], message: &str) -> (r: String)
    requires history@.len() <= usize::MAX - 2,
    ensures r@ == payload_spec(history@.map_values(|h: String| h@), message@),
{
    let ghost hs = history@.map_values(|h: String| h@);
    let mut payload = String::from_str("stimulus=");
    push_percent_encoded(&mut payload, message, false);
    payload.append("&");
    let ghost start = payload@;
    let mut i: usize = 0;
    assert(history_fields(hs, 0) =~= history_fields(hs, 0).subrange(0, history_fields(hs, 0).len() as int));
    while i < history.len()
        invariant
            i <= history@.len(),
            history@.len() <= usize::MAX - 2,
            hs == history@.map_values(|h: String| h@),
            payload@ + history_fields(hs, i as int) == start + history_fields(hs, 0),
        decreases history.len() - i,
    {
        let h = &history[history.len() - 1 - i];
        assert(h@ == hs[hs.len() - 1 - i]);
        let ghost before = payload@;
        payload.append("vText");
        push_decimal(&mut payload, (i + 2) as u64);
        payload.append("=");
        push_percent_encoded(&mut payload, h.as_str(), false);
        assert(payload@ + history_fields(hs, i + 1) =~= before + history_fields(hs, i as int));
        i = i + 1;
    }
    assert(history_fields(hs, i as int) =~= Seq::<char>::empty());
    assert(payload@ =~= start + history_fields(hs, 0));
    payload.append("cb_settings_scripting=no&islearning=1&icognoid=wsf&icognocheck=");
    let ghost body = payload@;
    assert(body =~= payload_body(hs, message@));
    proof {
        reveal_strlit("cb_settings_scripting=no&islearning=1&icognoid=wsf&icognocheck=");
        lemma_encode_utf8_len(body);
    }
    let bytes = payload.as_str().as_bytes();
    let checksum = md5_hex(&bytes[7..33]);
    payload.append(checksum.as_str());
    payload
}

/// The request URL: the fixed service address, and when there was a previous
/// reply, that reply, the new message, and the session's identifiers.
pub open spec fn url_spec(previous: Option<(Seq<char>, Seq<char>, Seq<char>)>, message: Seq<char>) -> Seq<char> {
    "https://www.cleverbot.com/webservicemin?uc=UseOfficialCleverbotAPI"@ + match previous {
        Some((cbsid, xai, last_reply)) =>
            "&out="@ + percent_encoded(encode_utf8(last_reply), true) + "&in="@ + percent_encoded(encode_utf8(message), true)
                + "&bot=c&cbsid="@ + cbsid + "&xai="@ + xai
                + "&ns=2&al=&dl=&flag=&user=&mode=1&alt=0&reac=&emo=&sou=website&xed=&"@,
        None => seq![],
    }
}

pub open spec fn previous_view(p: Option<CleverBotPreviousData>) -> Option<(Seq<char>, Seq<char>, Seq<char>)> {
    match p {
        Some(d) => Some((d.cbsid@, d.xai@, d.last_reply@)),
        None => None,
    }
}

/// Builds the request URL for `message`.
pub fn build_url(previous: &Option<CleverBotPreviousData>, message: &str) -> (r: String)
    ensures r@ == url_spec(previous_view(*previous), message@),
{
    let mut url = String::from_str("https://www.cleverbot.com/webservicemin?uc=UseOfficialCleverbotAPI");
    match previous {
        Some(d) => {
            let ghost start = url@;
            url.append("&out=");
            push_percent_encoded(&mut url, d.last_reply.as_str(), true);
            url.append("&in=");
            push_percent_encoded(&mut url, message, true);
            url.append("&bot=c&cbsid=");
            url.append(d.cbsid.as_str());
            url.append("&xai=");
            url.append(d.xai.as_str());
            url.append("&ns=2&al=&dl=&flag=&user=&mode=1&alt=0&reac=&emo=&sou=website&xed=&");
            assert(url@ =~= url_spec(previous_view(*previous), message@));
        },
        None => {
            assert(url@ =~= url_spec(previous_view(*previous), message@));
        },
    }
    url
}

// ---------------------------------------------------------------------------
// The conversation.

/// A user's conversation history, newest last, kept to a size limit.
#[derive(Debug, Clone)]
pub struct CleverBotContext {
    pub history: VecDeque<String>,
    pub history_size_limit: usize,
}

pub open spec fn history_view(h: Seq<String>) -> Seq<Seq<char>> {
    h.map_values(|s: String| s@)
}

/// The history after one exchange: the message and the reply appended, then
/// the oldest entries dropped beyond the limit.
pub open spec fn after_exchange(history: Seq<Seq<char>>, message: Seq<char>, reply: Seq<char>, limit: nat) -> Seq<Seq<char>> {
    let h = history.push(message).push(reply);
    if h.len() > limit { h.skip(h.len() - limit) } else { h }
}

impl CleverBotContext {
    /// An empty history keeping up to 32 messages.
    pub fn new() -> (r: Self)
        ensures r.history@.len() == 0, r.history_size_limit == 32,
    {
        Self::with_size_limit(32)
    }

    pub fn with_size_limit(history_size_limit: usize) -> (r: Self)
        ensures r.history@.len() == 0, r.history_size_limit == history_size_limit,
    {
        CleverBotContext { history: VecDeque::new(), history_size_limit }
    }

    /// Records a message and its reply (see `after_exchange`).
    pub fn record_exchange(&mut self, message: &str, reply: &str)
        ensures
            final(self).history_size_limit == old(self).history_size_limit,
            history_view(final(self).history@)
                == after_exchange(history_view(old(self).history@), message@, reply@, old(self).history_size_limit as nat),
    {
        let ghost h = history_view(old(self).history@).push(message@).push(reply@);
        self.history.push_back(message.to_owned());
        self.history.push_back(reply.to_owned());
        assert(history_view(self.history@) =~= h);
        while self.history.len() > self.history_size_limit
            invariant
                self.history_size_limit == old(self).history_size_limit,
                h.len() > self.history_size_limit ==> history_view(self.history@)
                    == h.skip(h.len() - history_view(self.history@).len()),
                h.len() <= self.history_size_limit ==> history_view(self.history@) == h,
                history_view(self.history@).len() >= self.history_size_limit || history_view(self.history@) == h,
                h.len() >= history_view(self.history@).len(),
            decreases self.history@.len(),
        {
            let ghost before = history_view(self.history@);
            let _ = self.history.pop_front();
            assert(history_view(self.history@) =~= before.drop_first());
            assert(h.skip(h.len() - history_view(self.history@).len()) =~= before.drop_first()) by {
                if before != h {
                    assert(before =~= h.skip(h.len() - before.len()));
                } else {
                    assert(h.skip(1) =~= h.drop_first());
                }
            }
        }
        assert(h.skip(0) =~= h);
    }
}

/// However many exchanges are recorded, the history never grows beyond its
/// limit once it is within it.
pub proof fn law_history_bounded(history: Seq<Seq<char>>, message: Seq<char>, reply: Seq<char>, limit: nat)
    requires history.len() <= limit,
    ensures after_exchange(history, message, reply, limit).len() <= limit,
{
}

// ---------------------------------------------------------------------------
// What the replies of the service decide.

/// Why talking to the service failed (network failures aside).
#[derive(Debug, Clone, PartialEq, Eq)]
pub enum CleverBotError {
    /// The service answered with an HTTP error status; the status and the body.
    ResponseError(u16, String),
    InvalidCookie(String),
    MissingCookie,
    InvalidResponse(String),
}

/// Statuses 400 to 599 are client and server errors.
pub open spec fn is_error_status(status: u16) -> bool {
    400 <= status <= 599
}

/// A session from the `set-cookie` header of the session request, taken at
/// time `now`: without a header there is no session.
pub fn session_from_cookie(cookie: Option<&str>, now: i64) -> (r: Result<CleverBotData, CleverBotError>)
    ensures
        match cookie {
            None => r == Err::<CleverBotData, CleverBotError>(CleverBotError::MissingCookie),
            Some(c) => {
                let pieces = split_on(c@, ';');
                r matches Ok(d) && d.xvis@ == pieces[0] && d.previous is None && d.last_update == now
                    && d.max_age == (if pieces.len() >= 3 {
                        match max_age_spec(pieces[2]) { Some(v) => v, None => DEFAULT_MAX_AGE }
                    } else { DEFAULT_MAX_AGE })
            },
        },
{
    match cookie {
        None => Err(CleverBotError::MissingCookie),
        Some(c) => match CleverBotData::new(c, now) {
            Some(d) => Ok(d),
            None => Err(CleverBotError::InvalidCookie(c.to_owned())),
        },
    }
}

/// Reads the service's answer to a message: an error status is an error;
/// otherwise the body must carry a reply, which becomes the session's
/// previous exchange and is returned. A body whose session id cannot be cut
/// after three bytes is left out (reading it fails in the original protocol
/// code).
pub fn accept_response(data: &mut CleverBotData, status: u16, text: &str) -> (r: Result<String, CleverBotError>)
    requires !is_error_status(status) ==> previous_readable(text@),
    ensures
        final(data).xvis == old(data).xvis,
        final(data).max_age == old(data).max_age,
        final(data).last_update == old(data).last_update,
        if is_error_status(status) {
            &&& r matches Err(CleverBotError::ResponseError(s, t)) && s == status && t@ == text@
            &&& previous_view(final(data).previous) == previous_view(old(data).previous)
        } else {
            match previous_spec(text@) {
                None => {
                    &&& r matches Err(CleverBotError::InvalidResponse(t)) && t@ == text@
                    &&& previous_view(final(data).previous) == previous_view(old(data).previous)
                },
                Some((reply, cbsid, xai)) => {
                    &&& r matches Ok(s) && s@ == reply
                    &&& previous_view(final(data).previous) == Some((cbsid, xai, reply))
                },
            }
        },
{
    if 400 <= status && status <= 599 {
        return Err(CleverBotError::ResponseError(status, text.to_owned()));
    }
    match CleverBotPreviousData::new(text) {
        Some(p) => {
            let reply = p.last_reply.clone();
            data.previous = Some(p);
            Ok(reply)
        },
        None => Err(CleverBotError::InvalidResponse(text.to_owned())),
    }
}

} // verus!
