//! Help for slash commands: per-locale metadata of each command, the words
//! the help is written in, and the text of the help shown for a command.
use vstd::prelude::*;
use crate::text::{chars_of, push_char, push_str, copy_string, eq_ignore_case, eq_ignore_ascii_case, str_eq, substring};

verus! {

broadcast use vstd::string::group_string_axioms;

/// Whether some entry has the key `k`.
pub open spec fn has_key<V>(s: Seq<(String, V)>, k: Seq<char>) -> bool {
    exists|i: int| 0 <= i < s.len() && (#[trigger] s[i]).0@ == k
}

/// No key occurs twice.
pub open spec fn unique_keys<V>(s: Seq<(String, V)>) -> bool {
    forall|i: int, j: int| 0 <= i < j < s.len() ==> (#[trigger] s[i]).0@ != (#[trigger] s[j]).0@
}

/// The value kept under `k`.
pub open spec fn lookup<V>(s: Seq<(String, V)>, k: Seq<char>) -> Option<V> {
    if has_key(s, k) {
        Some(s[choose|i: int| 0 <= i < s.len() && (#[trigger] s[i]).0@ == k].1)
    } else {
        None
    }
}

proof fn lemma_lookup_at<V>(s: Seq<(String, V)>, i: int)
    requires
        unique_keys(s),
        0 <= i < s.len(),
    ensures
        lookup(s, s[i].0@) == Some(s[i].1),
{
    let k = s[i].0@;
    assert(has_key(s, k));
    let j = choose|j: int| 0 <= j < s.len() && (#[trigger] s[j]).0@ == k;
    if j != i {
        if j < i { assert(s[j].0@ != s[i].0@); } else { assert(s[i].0@ != s[j].0@); }
    }
}

/// The index of the entry with key `key`, if any.
fn key_index<V>(v: &Vec<(String, V)>, key: &str) -> (r: Option<usize>)
    ensures
        match r {
            Some(i) => i < v@.len() && v@[i as int].0@ == key@,
            None => !has_key(v@, key@),
        },
{
    let mut i: usize = 0;
    while i < v.len()
        invariant
            i <= v@.len(),
            forall|j: int| 0 <= j < i ==> (#[trigger] v@[j]).0@ != key@,
        decreases v.len() - i,
    {
        if str_eq(v[i].0.as_str(), key) {
            return Some(i);
        }
        i = i + 1;
    }
    None
}

/// Keeps `value` under `key`, replacing what was kept there.
fn set_entry<V>(v: &mut Vec<(String, V)>, key: String, value: V)
    requires unique_keys(old(v)@),
    ensures
        unique_keys(final(v)@),
        forall|k: Seq<char>| #[trigger] lookup(final(v)@, k) == if k == key@ { Some(value) } else { lookup(old(v)@, k) },
{
    let ghost old_v = v@;
    match key_index(v, key.as_str()) {
        Some(i) => {
            let ghost k0 = key@;
            v.set(i, (key, value));
            assert forall|k: Seq<char>| #[trigger] lookup(v@, k) == if k == k0 { Some(value) } else { lookup(old_v, k) } by {
                assert(unique_keys(v@)) by {
                    assert forall|a: int, b: int| 0 <= a < b < v@.len() implies (#[trigger] v@[a]).0@ != (#[trigger] v@[b]).0@ by {
                        assert(old_v[a].0@ != old_v[b].0@);
                    }
                }
                if k == k0 {
                    lemma_lookup_at(v@, i as int);
                } else {
                    if has_key(old_v, k) {
                        let j = choose|j: int| 0 <= j < old_v.len() && (#[trigger] old_v[j]).0@ == k;
                        lemma_lookup_at(old_v, j);
                        lemma_lookup_at(v@, j);
                    } else {
                        assert(!has_key(v@, k)) by {
                            if has_key(v@, k) {
                                let j = choose|j: int| 0 <= j < v@.len() && (#[trigger] v@[j]).0@ == k;
                                assert(old_v[j].0@ == k);
                            }
                        }
                    }
                }
            }
            assert forall|a: int, b: int| 0 <= a < b < v@.len() implies (#[trigger] v@[a]).0@ != (#[trigger] v@[b]).0@ by {
                assert(old_v[a].0@ != old_v[b].0@);
            }
        },
        None => {
            let ghost k0 = key@;
            v.push((key, value));
            let ghost n = old_v.len() as int;
            assert forall|a: int, b: int| 0 <= a < b < v@.len() implies (#[trigger] v@[a]).0@ != (#[trigger] v@[b]).0@ by {
                if b == n {
                    assert(v@[a] == old_v[a]);
                } else {
                    assert(old_v[a].0@ != old_v[b].0@);
                }
            }
            assert forall|k: Seq<char>| #[trigger] lookup(v@, k) == if k == k0 { Some(value) } else { lookup(old_v, k) } by {
                if k == k0 {
                    lemma_lookup_at(v@, n);
                } else {
                    if has_key(old_v, k) {
                        let j = choose|j: int| 0 <= j < old_v.len() && (#[trigger] old_v[j]).0@ == k;
                        lemma_lookup_at(old_v, j);
                        lemma_lookup_at(v@, j);
                    } else {
                        assert(!has_key(v@, k)) by {
                            if has_key(v@, k) {
                                let j = choose|j: int| 0 <= j < v@.len() && (#[trigger] v@[j]).0@ == k;
                                if j < n { assert(old_v[j].0@ == k); }
                            }
                        }
                    }
                }
            }
        },
    }
}

pub open spec fn strings_view(v: Seq<String>) -> Seq<Seq<char>> {
    v.map_values(|s: String| s@)
}

/// The strings joined by `sep`.
pub open spec fn join_with(v: Seq<Seq<char>>, sep: Seq<char>) -> Seq<char>
    decreases v.len(),
{
    if v.len() == 0 {
        seq![]
    } else if v.len() == 1 {
        v[0]
    } else {
        join_with(v.drop_last(), sep) + sep + v.last()
    }
}

/// `v` joined by `sep`.
pub fn join_strings(v: &Vec<String>, sep: &str) -> (r: String)
    ensures r@ == join_with(strings_view(v@), sep@),
{
    let mut s = String::new();
    let mut i: usize = 0;
    while i < v.len()
        invariant
            i <= v@.len(),
            s@ == join_with(strings_view(v@.take(i as int)), sep@),
        decreases v.len() - i,
    {
        let ghost t = strings_view(v@.take(i + 1));
        assert(t.drop_last() =~= strings_view(v@.take(i as int)));
        assert(t.last() == v@[i as int]@);
        if i > 0 {
            push_str(&mut s, sep);
        }
        push_str(&mut s, v[i].as_str());
        proof {
            if i == 0 {
                assert(strings_view(v@.take(0)) =~= Seq::<Seq<char>>::empty());
            }
        }
        i = i + 1;
    }
    assert(v@.take(v@.len() as int) =~= v@);
    s
}

/// Per-locale information, usage lines and examples of a command.
#[derive(Debug)]
pub struct CommandMetaData {
    info_localizations: Option<Vec<(String, String)>>,
    usage_localizations: Vec<(String, Vec<String>)>,
    examples_localizations: Vec<(String, Vec<String>)>,
}

pub open spec fn text_of(o: Option<String>) -> Option<Seq<char>> {
    match o {
        Some(s) => Some(s@),
        None => None,
    }
}

pub open spec fn lines_of(o: Option<Vec<String>>) -> Option<Seq<Seq<char>>> {
    match o {
        Some(v) => Some(strings_view(v@)),
        None => None,
    }
}

impl CommandMetaData {
    #[verifier::type_invariant]
    closed spec fn wf(&self) -> bool {
        &&& (self.info_localizations matches Some(v) ==> unique_keys(v@))
        &&& unique_keys(self.usage_localizations@)
        &&& unique_keys(self.examples_localizations@)
    }

    /// Whether any information has been given (in any locale).
    pub closed spec fn has_info(&self) -> bool {
        self.info_localizations is Some
    }

    /// Without any information given, no locale has any.
    pub proof fn lemma_no_info(&self)
        requires !self.has_info(),
        ensures forall|l: Seq<char>| #[trigger] self.info_of(l) is None,
    {
    }

    /// The information given for a locale.
    pub closed spec fn info_of(&self, locale: Seq<char>) -> Option<Seq<char>> {
        match self.info_localizations {
            Some(v) => text_of(lookup(v@, locale)),
            None => None,
        }
    }

    /// The usage lines given for a locale.
    pub closed spec fn usage_of(&self, locale: Seq<char>) -> Option<Seq<Seq<char>>> {
        lines_of(lookup(self.usage_localizations@, locale))
    }

    /// The examples given for a locale.
    pub closed spec fn examples_of(&self, locale: Seq<char>) -> Option<Seq<Seq<char>>> {
        lines_of(lookup(self.examples_localizations@, locale))
    }

    pub fn new() -> (r: Self)
        ensures
            !r.has_info(),
            forall|l: Seq<char>| #[trigger] r.info_of(l) is None && r.usage_of(l) is None && r.examples_of(l) is None,
    {
        CommandMetaData { info_localizations: None, usage_localizations: Vec::new(), examples_localizations: Vec::new() }
    }

    /// Sets the information for a locale.
    pub fn info_localized(self, locale: String, contents: String) -> (r: Self)
        ensures
            r.has_info(),
            forall|l: Seq<char>| #[trigger] r.info_of(l) == if l == locale@ { Some(contents@) } else { self.info_of(l) },
            forall|l: Seq<char>| #[trigger] r.usage_of(l) == self.usage_of(l),
            forall|l: Seq<char>| #[trigger] r.examples_of(l) == self.examples_of(l),
    {
        proof { use_type_invariant(&self); }
        let CommandMetaData { info_localizations, usage_localizations, examples_localizations } = self;
        let mut info = match info_localizations {
            Some(v) => v,
            None => Vec::new(),
        };
        let ghost before = info@;
        let ghost c = contents@;
        let ghost k = locale@;
        set_entry(&mut info, locale, contents);
        let r = CommandMetaData { info_localizations: Some(info), usage_localizations, examples_localizations };
        assert forall|l: Seq<char>| #[trigger] r.info_of(l) == if l == k { Some(c) } else { self.info_of(l) } by {
            assert(lookup(info@, l) == if l == k { Some(contents) } else { lookup(before, l) });
            if self.info_localizations is None {
                assert(!has_key(before, l));
            }
        }
        r
    }

    /// Sets the information for a locale to the pieces joined by spaces.
    pub fn info_localized_concat(self, locale: String, contents: Vec<String>) -> (r: Self)
        ensures
            r.has_info(),
            forall|l: Seq<char>| #[trigger] r.info_of(l) == if l == locale@ { Some(join_with(strings_view(contents@), " "@)) } else { self.info_of(l) },
            forall|l: Seq<char>| #[trigger] r.usage_of(l) == self.usage_of(l),
            forall|l: Seq<char>| #[trigger] r.examples_of(l) == self.examples_of(l),
    {
        let joined = join_strings(&contents, " ");
        self.info_localized(locale, joined)
    }

    /// Sets the usage lines for a locale.
    pub fn usage_localized(self, locale: String, contents: Vec<String>) -> (r: Self)
        ensures
            r.has_info() == self.has_info(),
            forall|l: Seq<char>| #[trigger] r.usage_of(l) == if l == locale@ { Some(strings_view(contents@)) } else { self.usage_of(l) },
            forall|l: Seq<char>| #[trigger] r.info_of(l) == self.info_of(l),
            forall|l: Seq<char>| #[trigger] r.examples_of(l) == self.examples_of(l),
    {
        proof { use_type_invariant(&self); }
        let CommandMetaData { info_localizations, usage_localizations, examples_localizations } = self;
        let mut usage = usage_localizations;
        let ghost before = usage@;
        let ghost c = contents@;
        let ghost k = locale@;
        set_entry(&mut usage, locale, contents);
        let r = CommandMetaData { info_localizations, usage_localizations: usage, examples_localizations };
        assert forall|l: Seq<char>| #[trigger] r.usage_of(l) == if l == k { Some(strings_view(c)) } else { self.usage_of(l) } by {
            assert(lookup(usage@, l) == if l == k { Some(contents) } else { lookup(before, l) });
        }
        r
    }

    /// Sets the examples for a locale.
    pub fn examples_localized(self, locale: String, contents: Vec<String>) -> (r: Self)
        ensures
            r.has_info() == self.has_info(),
            forall|l: Seq<char>| #[trigger] r.examples_of(l) == if l == locale@ { Some(strings_view(contents@)) } else { self.examples_of(l) },
            forall|l: Seq<char>| #[trigger] r.info_of(l) == self.info_of(l),
            forall|l: Seq<char>| #[trigger] r.usage_of(l) == self.usage_of(l),
    {
        proof { use_type_invariant(&self); }
        let CommandMetaData { info_localizations, usage_localizations, examples_localizations } = self;
        let mut examples = examples_localizations;
        let ghost before = examples@;
        let ghost c = contents@;
        let ghost k = locale@;
        set_entry(&mut examples, locale, contents);
        let r = CommandMetaData { info_localizations, usage_localizations, examples_localizations: examples };
        assert forall|l: Seq<char>| #[trigger] r.examples_of(l) == if l == k { Some(strings_view(c)) } else { self.examples_of(l) } by {
            assert(lookup(examples@, l) == if l == k { Some(contents) } else { lookup(before, l) });
        }
        r
    }

    /// The information per locale, as (locale, text) entries with distinct locales.
    pub fn get_info_localizations(&self) -> (r: &Option<Vec<(String, String)>>)
        ensures
            (r is Some) == self.has_info(),
            r is None ==> forall|l: Seq<char>| #[trigger] self.info_of(l) is None,
            r matches Some(v) ==> unique_keys(v@)
                && forall|l: Seq<char>| #[trigger] text_of(lookup(v@, l)) == self.info_of(l),
    {
        proof { use_type_invariant(&self); }
        &self.info_localizations
    }

    /// The usage lines per locale, as entries with distinct locales.
    pub fn get_usage_localizations(&self) -> (r: &Vec<(String, Vec<String>)>)
        ensures
            unique_keys(r@),
            forall|l: Seq<char>| #[trigger] lines_of(lookup(r@, l)) == self.usage_of(l),
    {
        proof { use_type_invariant(&self); }
        &self.usage_localizations
    }

    /// The examples per locale, as entries with distinct locales.
    pub fn get_examples_localizations(&self) -> (r: &Vec<(String, Vec<String>)>)
        ensures
            unique_keys(r@),
            forall|l: Seq<char>| #[trigger] lines_of(lookup(r@, l)) == self.examples_of(l),
    {
        proof { use_type_invariant(&self); }
        &self.examples_localizations
    }

    /// The information for a locale.
    pub fn info_for(&self, locale: &str) -> (r: Option<&String>)
        ensures
            match self.info_of(locale@) {
                Some(t) => r matches Some(s) && s@ == t,
                None => r is None,
            },
    {
        proof { use_type_invariant(&self); }
        match &self.info_localizations {
            None => None,
            Some(v) => match key_index(v, locale) {
                Some(i) => {
                    proof { lemma_lookup_at(v@, i as int); }
                    Some(&v[i].1)
                },
                None => None,
            },
        }
    }

    /// The usage lines for a locale.
    pub fn usage_for(&self, locale: &str) -> (r: Option<&Vec<String>>)
        ensures
            match self.usage_of(locale@) {
                Some(t) => r matches Some(s) && strings_view(s@) == t,
                None => r is None,
            },
    {
        proof { use_type_invariant(&self); }
        match key_index(&self.usage_localizations, locale) {
            Some(i) => {
                proof { lemma_lookup_at(self.usage_localizations@, i as int); }
                Some(&self.usage_localizations[i].1)
            },
            None => None,
        }
    }

    /// The examples for a locale.
    pub fn examples_for(&self, locale: &str) -> (r: Option<&Vec<String>>)
        ensures
            match self.examples_of(locale@) {
                Some(t) => r matches Some(s) && strings_view(s@) == t,
                None => r is None,
            },
    {
        proof { use_type_invariant(&self); }
        match key_index(&self.examples_localizations, locale) {
            Some(i) => {
                proof { lemma_lookup_at(self.examples_localizations@, i as int); }
                Some(&self.examples_localizations[i].1)
            },
            None => None,
        }
    }
}

/// What was last set as a locale's information is what is read back for it,
/// and the other locales keep what they had.
pub proof fn law_info_last_write_wins(m: CommandMetaData, once: CommandMetaData, twice: CommandMetaData, locale: Seq<char>, first: Seq<char>, second: Seq<char>)
    requires
        forall|l: Seq<char>| #[trigger] once.info_of(l) == if l == locale { Some(first) } else { m.info_of(l) },
        forall|l: Seq<char>| #[trigger] twice.info_of(l) == if l == locale { Some(second) } else { once.info_of(l) },
    ensures
        twice.info_of(locale) == Some(second),
        forall|l: Seq<char>| l != locale ==> #[trigger] twice.info_of(l) == m.info_of(l),
{
    assert(twice.info_of(locale) == Some(second));
    assert forall|l: Seq<char>| l != locale implies #[trigger] twice.info_of(l) == m.info_of(l) by {
        assert(once.info_of(l) == m.info_of(l));
    }
}

/// Both lists hold the same keys, in the same places.
pub open spec fn same_keys<V, W>(a: Seq<(String, V)>, b: Seq<(String, W)>) -> bool {
    a.len() == b.len() && forall|i: int| 0 <= i < a.len() ==> (#[trigger] a[i]).0@ == b[i].0@
}

proof fn lemma_same_keys_lookup<V, W>(a: Seq<(String, V)>, b: Seq<(String, W)>, k: Seq<char>)
    requires
        same_keys(a, b),
        unique_keys(a),
    ensures
        unique_keys(b),
        (lookup(a, k) is Some) == (lookup(b, k) is Some),
        lookup(a, k) is Some ==> exists|i: int| 0 <= i < a.len() && lookup(a, k) == Some(a[i].1) && lookup(b, k) == Some(b[i].1),
{
    assert forall|x: int, y: int| 0 <= x < y < b.len() implies (#[trigger] b[x]).0@ != (#[trigger] b[y]).0@ by {
        assert(a[x].0@ != a[y].0@);
    }
    if has_key(a, k) {
        let i = choose|i: int| 0 <= i < a.len() && (#[trigger] a[i]).0@ == k;
        lemma_lookup_at(a, i);
        lemma_lookup_at(b, i);
    } else if has_key(b, k) {
        let i = choose|i: int| 0 <= i < b.len() && (#[trigger] b[i]).0@ == k;
        assert(a[i].0@ == k);
    }
}

fn copy_text_pairs(v: &Vec<(String, String)>) -> (r: Vec<(String, String)>)
    ensures
        same_keys(v@, r@),
        forall|i: int| 0 <= i < v@.len() ==> (#[trigger] r@[i]).1@ == v@[i].1@,
{
    let mut r: Vec<(String, String)> = Vec::new();
    let mut i: usize = 0;
    while i < v.len()
        invariant
            i <= v@.len(),
            r@.len() == i,
            forall|j: int| 0 <= j < i ==> (#[trigger] r@[j]).0@ == v@[j].0@ && r@[j].1@ == v@[j].1@,
        decreases v.len() - i,
    {
        r.push((copy_string(&v[i].0), copy_string(&v[i].1)));
        i = i + 1;
    }
    r
}

fn copy_strings(v: &Vec<String>) -> (r: Vec<String>)
    ensures strings_view(r@) == strings_view(v@),
{
    let mut r: Vec<String> = Vec::new();
    let mut i: usize = 0;
    while i < v.len()
        invariant
            i <= v@.len(),
            r@.len() == i,
            forall|j: int| 0 <= j < i ==> (#[trigger] r@[j])@ == v@[j]@,
        decreases v.len() - i,
    {
        r.push(copy_string(&v[i]));
        i = i + 1;
    }
    assert(strings_view(r@) =~= strings_view(v@));
    r
}

fn copy_line_pairs(v: &Vec<(String, Vec<String>)>) -> (r: Vec<(String, Vec<String>)>)
    ensures
        same_keys(v@, r@),
        forall|i: int| 0 <= i < v@.len() ==> strings_view((#[trigger] r@[i]).1@) == strings_view(v@[i].1@),
{
    let mut r: Vec<(String, Vec<String>)> = Vec::new();
    let mut i: usize = 0;
    while i < v.len()
        invariant
            i <= v@.len(),
            r@.len() == i,
            forall|j: int| 0 <= j < i ==> (#[trigger] r@[j]).0@ == v@[j].0@ && strings_view(r@[j].1@) == strings_view(v@[j].1@),
        decreases v.len() - i,
    {
        r.push((copy_string(&v[i].0), copy_strings(&v[i].1)));
        i = i + 1;
    }
    r
}

impl Clone for CommandMetaData {
    fn clone(&self) -> (r: Self)
        ensures
            r.has_info() == self.has_info(),
            forall|l: Seq<char>| #[trigger] r.info_of(l) == self.info_of(l),
            forall|l: Seq<char>| #[trigger] r.usage_of(l) == self.usage_of(l),
            forall|l: Seq<char>| #[trigger] r.examples_of(l) == self.examples_of(l),
    {
        proof { use_type_invariant(self); }
        let info = match &self.info_localizations {
            Some(v) => Some(copy_text_pairs(v)),
            None => None,
        };
        let usage = copy_line_pairs(&self.usage_localizations);
        let examples = copy_line_pairs(&self.examples_localizations);
        proof {
            if let Some(v) = &self.info_localizations {
                lemma_same_keys_lookup(v@, info->0@, seq![]);
            }
            lemma_same_keys_lookup(self.usage_localizations@, usage@, seq![]);
            lemma_same_keys_lookup(self.examples_localizations@, examples@, seq![]);
        }
        let r = CommandMetaData { info_localizations: info, usage_localizations: usage, examples_localizations: examples };
        assert forall|l: Seq<char>| #[trigger] r.info_of(l) == self.info_of(l) by {
            if let Some(v) = &self.info_localizations {
                lemma_same_keys_lookup(v@, info->0@, l);
            }
        }
        assert forall|l: Seq<char>| #[trigger] r.usage_of(l) == self.usage_of(l) by {
            lemma_same_keys_lookup(self.usage_localizations@, usage@, l);
        }
        assert forall|l: Seq<char>| #[trigger] r.examples_of(l) == self.examples_of(l) by {
            lemma_same_keys_lookup(self.examples_localizations@, examples@, l);
        }
        r
    }
}

impl Default for CommandMetaData {
    fn default() -> (r: Self)
        ensures
            !r.has_info(),
            forall|l: Seq<char>| #[trigger] r.info_of(l) is None && r.usage_of(l) is None && r.examples_of(l) is None,
    {
        CommandMetaData::new()
    }
}

/// `char::is_whitespace`: the characters with Unicode's White_Space property.
pub open spec fn is_unicode_ws(c: char) -> bool {
    ('\u{9}' <= c && c <= '\u{d}') || c == ' ' || c == '\u{85}' || c == '\u{a0}' || c == '\u{1680}'
        || ('\u{2000}' <= c && c <= '\u{200a}') || c == '\u{2028}' || c == '\u{2029}' || c == '\u{202f}'
        || c == '\u{205f}' || c == '\u{3000}'
}

pub fn is_whitespace(c: char) -> (r: bool)
    ensures r == is_unicode_ws(c),
{
    ('\u{9}' <= c && c <= '\u{d}') || c == ' ' || c == '\u{85}' || c == '\u{a0}' || c == '\u{1680}'
        || ('\u{2000}' <= c && c <= '\u{200a}') || c == '\u{2028}' || c == '\u{2029}' || c == '\u{202f}'
        || c == '\u{205f}' || c == '\u{3000}'
}

/// The word `cur` (when not empty), as a list of at most one word.
pub open spec fn flush(cur: Seq<char>) -> Seq<Seq<char>> {
    if cur.len() > 0 { seq![cur] } else { seq![] }
}

/// The maximal runs of non-whitespace characters of `s`, after the word `cur` read so far.
pub open spec fn words_from(s: Seq<char>, cur: Seq<char>) -> Seq<Seq<char>>
    decreases s.len(),
{
    if s.len() == 0 {
        flush(cur)
    } else if is_unicode_ws(s[0]) {
        flush(cur) + words_from(s.drop_first(), seq![])
    } else {
        words_from(s.drop_first(), cur.push(s[0]))
    }
}

/// `str::split_whitespace`.
pub open spec fn split_ws(s: Seq<char>) -> Seq<Seq<char>> {
    words_from(s, seq![])
}

/// The words of `s`, split at Unicode whitespace.
pub fn split_whitespace(s: &str) -> (r: Vec<String>)
    ensures strings_view(r@) == split_ws(s@),
{
    let chars = chars_of(s);
    let mut out: Vec<String> = Vec::new();
    let mut cur = String::new();
    let mut i: usize = 0;
    assert(chars@.skip(0) =~= chars@);
    assert(strings_view(out@) + split_ws(s@) =~= split_ws(s@));
    while i < chars.len()
        invariant
            chars@ == s@,
            i <= chars@.len(),
            strings_view(out@) + words_from(chars@.skip(i as int), cur@) == split_ws(s@),
        decreases chars.len() - i,
    {
        let ghost rest = chars@.skip(i as int);
        assert(rest[0] == chars@[i as int]);
        assert(rest.drop_first() =~= chars@.skip(i + 1));
        let ghost before = strings_view(out@);
        let ghost cur0 = cur@;
        if is_whitespace(chars[i]) {
            if !cur.as_str().is_empty() {
                let word = cur;
                cur = String::new();
                out.push(word);
                assert(strings_view(out@) =~= before.push(cur0));
                assert(before + (flush(cur0) + words_from(rest.drop_first(), seq![])) =~= before.push(cur0) + words_from(rest.drop_first(), seq![]));
            } else {
                assert(flush(cur0) =~= Seq::<Seq<char>>::empty());
                assert(before + (flush(cur0) + words_from(rest.drop_first(), seq![])) =~= before + words_from(rest.drop_first(), seq![]));
                assert(cur@ =~= Seq::<char>::empty());
            }
        } else {
            push_char(&mut cur, chars[i]);
        }
        i = i + 1;
    }
    assert(chars@.skip(i as int) =~= Seq::<char>::empty());
    let ghost before = strings_view(out@);
    if !cur.as_str().is_empty() {
        let ghost c = cur@;
        out.push(cur);
        assert(strings_view(out@) =~= before.push(c));
        assert(before + seq![c] =~= before.push(c));
    } else {
        assert(before + Seq::<Seq<char>>::empty() =~= before);
    }
    out
}

/// What `char::to_uppercase` yields for `c`.
pub uninterp spec fn uppercase_of(c: char) -> Seq<char>;

/// ASCII upper-casing of one character.
pub open spec fn ascii_upper(c: char) -> char {
    if 'a' <= c && c <= 'z' { ((c as u32) - 32) as char } else { c }
}

/// ASCII lower-casing of one character.
pub open spec fn ascii_lower_char(c: char) -> char {
    if 'A' <= c && c <= 'Z' { ((c as u32) + 32) as char } else { c }
}

/// `char::to_uppercase`, collected. Its result is named by `uppercase_of`;
/// of an ASCII character, Unicode's upper case is its ASCII upper case.
#[verifier::external_body]
fn to_uppercase_chars(c: char) -> (r: Vec<char>)
    ensures
        r@ == uppercase_of(c),
        (c as u32) < 128 ==> r@ == seq![ascii_upper(c)],
{
    c.to_uppercase().collect()
}

fn to_ascii_lowercase(c: char) -> (r: char)
    ensures r == ascii_lower_char(c),
{
    if 'A' <= c && c <= 'Z' {
        let u: u8 = c as u8;
        (u + 32) as char
    } else {
        c
    }
}

/// The upper case of one character as Unicode gives it: for an ASCII
/// character its ASCII upper case.
pub open spec fn upper_text(c: char) -> Seq<char> {
    if (c as u32) < 128 { seq![ascii_upper(c)] } else { uppercase_of(c) }
}

/// The first character upper-cased (as Unicode does it), the rest ASCII lower-cased.
pub open spec fn capitalized(w: Seq<char>) -> Seq<char> {
    if w.len() == 0 {
        seq![]
    } else {
        upper_text(w[0]) + w.drop_first().map_values(|c: char| ascii_lower_char(c))
    }
}

pub fn capitalize(s: &str) -> (r: String)
    ensures r@ == capitalized(s@),
{
    let chars = chars_of(s);
    let mut out = String::new();
    if chars.len() == 0 {
        return out;
    }
    let up = to_uppercase_chars(chars[0]);
    let mut j: usize = 0;
    while j < up.len()
        invariant
            j <= up@.len(),
            out@ == up@.take(j as int),
        decreases up.len() - j,
    {
        push_char(&mut out, up[j]);
        j = j + 1;
        assert(out@ =~= up@.take(j as int));
    }
    assert(up@.take(up@.len() as int) =~= up@);
    let ghost tail = chars@.drop_first();
    let mut i: usize = 1;
    while i < chars.len()
        invariant
            chars@ == s@,
            chars@.len() > 0,
            1 <= i <= chars@.len(),
            tail == chars@.drop_first(),
            out@ == up@ + tail.take(i - 1).map_values(|c: char| ascii_lower_char(c)),
        decreases chars.len() - i,
    {
        push_char(&mut out, to_ascii_lowercase(chars[i]));
        assert(tail[i - 1] == chars@[i as int]);
        assert(tail.take(i as int).map_values(|c: char| ascii_lower_char(c))
            =~= tail.take(i - 1).map_values(|c: char| ascii_lower_char(c)).push(ascii_lower_char(chars@[i as int])));
        i = i + 1;
    }
    assert(tail.take(i - 1) =~= tail);
    out
}

pub open spec fn is_word_sep(c: char) -> bool {
    c == '-' || c == '_'
}

/// The pieces of `s` between `-` and `_` (always at least one).
pub open spec fn dash_pieces(s: Seq<char>) -> Seq<Seq<char>>
    decreases s.len(),
{
    if s.len() == 0 {
        seq![seq![]]
    } else {
        let rest = dash_pieces(s.drop_last());
        if is_word_sep(s.last()) { rest.push(seq![]) } else { rest.update(rest.len() - 1, rest.last().push(s.last())) }
    }
}

proof fn lemma_dash_pieces_len(s: Seq<char>)
    ensures dash_pieces(s).len() >= 1,
    decreases s.len(),
{
    if s.len() > 0 {
        lemma_dash_pieces_len(s.drop_last());
    }
}

/// A kebab- or snake-case name as words: each piece between `-` and `_`
/// capitalized, joined by spaces.
pub open spec fn to_words_spec(s: Seq<char>) -> Seq<char> {
    join_with(dash_pieces(s).map_values(|w: Seq<char>| capitalized(w)), " "@)
}

pub fn to_words(s: &str) -> (r: String)
    ensures r@ == to_words_spec(s@),
{
    let chars = chars_of(s);
    let mut pieces: Vec<String> = Vec::new();
    let mut cur = String::new();
    let mut i: usize = 0;
    proof { lemma_dash_pieces_len(chars@.take(0)); }
    assert(chars@.take(0) =~= Seq::<char>::empty());
    while i < chars.len()
        invariant
            chars@ == s@,
            i <= chars@.len(),
            strings_view(pieces@).push(cur@) == dash_pieces(chars@.take(i as int)),
        decreases chars.len() - i,
    {
        let ghost t = chars@.take(i + 1);
        assert(t.drop_last() =~= chars@.take(i as int));
        assert(t.last() == chars@[i as int]);
        let ghost before = strings_view(pieces@);
        let ghost cur0 = cur@;
        proof { lemma_dash_pieces_len(chars@.take(i as int)); }
        if chars[i] == '-' || chars[i] == '_' {
            let piece = cur;
            cur = String::new();
            pieces.push(piece);
            assert(strings_view(pieces@) =~= before.push(cur0));
        } else {
            push_char(&mut cur, chars[i]);
            assert(before.push(cur0).update(before.len() as int, cur0.push(chars@[i as int])) =~= before.push(cur@));
        }
        i = i + 1;
    }
    assert(chars@.take(chars@.len() as int) =~= chars@);
    pieces.push(cur);
    let mut words: Vec<String> = Vec::new();
    let mut k: usize = 0;
    while k < pieces.len()
        invariant
            k <= pieces@.len(),
            strings_view(pieces@) == dash_pieces(s@),
            strings_view(words@) == strings_view(pieces@).take(k as int).map_values(|w: Seq<char>| capitalized(w)),
        decreases pieces.len() - k,
    {
        let ghost before = strings_view(words@);
        let w = capitalize(pieces[k].as_str());
        let ghost wv = w@;
        assert(strings_view(pieces@)[k as int] == pieces@[k as int]@);
        words.push(w);
        assert(strings_view(words@) =~= before.push(wv));
        assert(strings_view(pieces@).take(k + 1).map_values(|w: Seq<char>| capitalized(w))
            =~= strings_view(pieces@).take(k as int).map_values(|w: Seq<char>| capitalized(w)).push(capitalized(strings_view(pieces@)[k as int])));
        k = k + 1;
    }
    assert(strings_view(pieces@).take(pieces@.len() as int) =~= strings_view(pieces@));
    join_strings(&words, " ")
}

/// The words the help is written in.
#[derive(Debug, Clone, Copy)]
pub struct HelpLocalization<'t> {
    pub none: &'t str,
    pub fallback_message: &'t str,
    pub title_command_list: &'t str,
    pub heading_command_list: &'t str,
    pub description_command_list: &'t str,
    pub heading_info: &'t str,
    pub heading_usage: &'t str,
    pub heading_examples: &'t str,
    pub heading_required_user_permissions: &'t str,
    pub heading_required_bot_permissions: &'t str,
    pub heading_allowable_where: &'t str,
    pub content_allowable_where_nowhere: &'t str,
    pub content_allowable_where_dm_only: &'t str,
    pub content_allowable_where_guild_only: &'t str,
    pub content_allowable_where_anywhere: &'t str,
    pub footer: Option<&'t str>,
}

impl Default for HelpLocalization<'static> {
    fn default() -> (r: Self)
        ensures
            r.none@ == "(none)"@,
            r.fallback_message@ == "That command does not exist"@,
            r.title_command_list@ == "Command Help"@,
            r.heading_command_list@ == "Command List"@,
            r.description_command_list@ == "Below is a list of commands, each with a short description of what they do"@,
            r.heading_info@ == "Info"@,
            r.heading_usage@ == "Usage"@,
            r.heading_examples@ == "Examples"@,
            r.heading_required_user_permissions@ == "Required User Permissions"@,
            r.heading_required_bot_permissions@ == "Required Bot Permissions"@,
            r.heading_allowable_where@ == "Allowable Where?"@,
            r.content_allowable_where_nowhere@ == "Nowhere"@,
            r.content_allowable_where_dm_only@ == "Only in DMs"@,
            r.content_allowable_where_guild_only@ == "Only in Guilds"@,
            r.content_allowable_where_anywhere@ == "Anywhere"@,
            r.footer is None,
    {
        HelpLocalization {
            none: "(none)",
            fallback_message: "That command does not exist",
            title_command_list: "Command Help",
            heading_command_list: "Command List",
            description_command_list: "Below is a list of commands, each with a short description of what they do",
            heading_info: "Info",
            heading_usage: "Usage",
            heading_examples: "Examples",
            heading_required_user_permissions: "Required User Permissions",
            heading_required_bot_permissions: "Required Bot Permissions",
            heading_allowable_where: "Allowable Where?",
            content_allowable_where_nowhere: "Nowhere",
            content_allowable_where_dm_only: "Only in DMs",
            content_allowable_where_guild_only: "Only in Guilds",
            content_allowable_where_anywhere: "Anywhere",
            footer: None,
        }
    }
}

} // verus!
