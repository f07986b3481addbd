//! Dice rolls: the roll syntax, rolling, and the totals of a rolled roll.
//!
//! ```text
//! ROLL: (ROLL_COIN | ROLL_DICE)
//! ROLL_COIN: 'coin' (','? TARGET_COIN)?
//! TARGET_COIN: ('heads' | 'tails' | '1' | '2')
//! ROLL_DICE: (SYNTAX2 | SYNTAX1) (','? TARGET_DICE)?
//! TARGET_DICE: COMPARISON INT
//! COMPARISON: ('>=' | '>' | '<=' | '<' | '==' | '!=' ...)
//! MODIFIER: ('-' | '+') INT
//! MODE1: ('min' | 'minimum' | 'max' | 'maximum') INT?
//! MODE2: ('adv' | 'advantage' | 'dis' | 'disadvantage')
//! SYNTAX1: INT? 'd' INT MODIFIER? MODE1?
//! SYNTAX2: 'd' INT MODIFIER? MODE2
//! ```
//! Whitespace may separate the parts; letters are matched without regard to
//! ASCII case. Alternatives are tried in order and an optional part, once
//! matched, is kept.
use vstd::prelude::*;
use crate::text::{chars_of, ascii_lower, to_ascii_lower};
use crate::num::{dec_value, digits_within, is_digit, parse_digits};
use crate::chance::random_below;

verus! {

#[derive(Debug, Clone, Copy, PartialEq, Eq, Structural, PartialOrd, Ord, Hash)]
pub enum ModeType {
    Min,
    Max,
}

/// Keep the `n` lowest (`Min`) or highest (`Max`) dice.
#[derive(Debug, Clone, Copy, PartialEq, Eq, Structural)]
pub struct Mode(pub ModeType, pub u8);

#[derive(Debug, Clone, Copy, PartialEq, Eq, Structural, PartialOrd, Ord, Hash)]
pub enum Comparison {
    GreaterThanEqualTo,
    GreaterThan,
    LessThanEqualTo,
    LessThan,
    EqualTo,
    NotEqualTo,
}

pub open spec fn compare(c: Comparison, lhs: int, rhs: int) -> bool {
    match c {
        Comparison::GreaterThanEqualTo => lhs >= rhs,
        Comparison::GreaterThan => lhs > rhs,
        Comparison::LessThanEqualTo => lhs <= rhs,
        Comparison::LessThan => lhs < rhs,
        Comparison::EqualTo => lhs == rhs,
        Comparison::NotEqualTo => lhs != rhs,
    }
}

impl Comparison {
    pub fn exec(self, lhs: i64, rhs: i64) -> (r: bool)
        ensures r == compare(self, lhs as int, rhs as int),
    {
        match self {
            Comparison::GreaterThanEqualTo => lhs >= rhs,
            Comparison::GreaterThan => lhs > rhs,
            Comparison::LessThanEqualTo => lhs <= rhs,
            Comparison::LessThan => lhs < rhs,
            Comparison::EqualTo => lhs == rhs,
            Comparison::NotEqualTo => lhs != rhs,
        }
    }

    /// The symbol shown for the comparison.
    pub fn to_str(self) -> (r: &'static str)
        ensures
            r@ == (match self {
                Comparison::GreaterThanEqualTo => "\u{2265}"@,
                Comparison::GreaterThan => ">"@,
                Comparison::LessThanEqualTo => "\u{2264}"@,
                Comparison::LessThan => "<"@,
                Comparison::EqualTo => "="@,
                Comparison::NotEqualTo => "\u{2260}"@,
            }),
    {
        match self {
            Comparison::GreaterThanEqualTo => "\u{2265}",
            Comparison::GreaterThan => ">",
            Comparison::LessThanEqualTo => "\u{2264}",
            Comparison::LessThan => "<",
            Comparison::EqualTo => "=",
            Comparison::NotEqualTo => "\u{2260}",
        }
    }
}

/// The total a roll is compared against.
#[derive(Debug, Clone, Copy, PartialEq, Eq, Structural)]
pub struct RollTarget {
    pub total: i64,
    pub comparison: Comparison,
}

impl RollTarget {
    pub fn coin_heads() -> (r: RollTarget)
        ensures r == (RollTarget { total: 1, comparison: Comparison::EqualTo }),
    {
        RollTarget { total: 1, comparison: Comparison::EqualTo }
    }

    pub fn coin_tails() -> (r: RollTarget)
        ensures r == (RollTarget { total: 2, comparison: Comparison::EqualTo }),
    {
        RollTarget { total: 2, comparison: Comparison::EqualTo }
    }
}

/// `dice` dice of `sides` sides, plus `modifier` on each die.
#[derive(Debug, Clone, Copy, PartialEq, Eq, Structural)]
pub struct Roll {
    pub dice: u8,
    pub sides: u32,
    pub modifier: i16,
    pub mode: Option<Mode>,
    pub target: Option<RollTarget>,
}

pub open spec fn coin_spec(target: Option<bool>) -> Roll {
    Roll {
        dice: 1,
        sides: 2,
        modifier: 0,
        mode: None,
        target: match target {
            Some(true) => Some(RollTarget { total: 1, comparison: Comparison::EqualTo }),
            Some(false) => Some(RollTarget { total: 2, comparison: Comparison::EqualTo }),
            None => None,
        },
    }
}

/// A single die has nothing to keep or drop.
pub open spec fn normalize_spec(r: Roll) -> Roll {
    if r.dice == 1 { Roll { mode: None, ..r } } else { r }
}

impl Roll {
    /// A coin toss: one two-sided die; heads is 1 and tails is 2.
    pub fn new_coin(target: Option<bool>) -> (r: Self)
        ensures r == coin_spec(target),
    {
        let target = match target {
            Some(true) => Some(RollTarget::coin_heads()),
            Some(false) => Some(RollTarget::coin_tails()),
            None => None,
        };
        Roll { dice: 1, sides: 2, modifier: 0, mode: None, target }
    }

    fn normalize(self) -> (r: Self)
        ensures r == normalize_spec(self),
    {
        let mut r = self;
        if r.dice == 1 {
            r.mode = None;
        }
        r
    }
}

// ---------------------------------------------------------------------------
// The grammar, as functions from a position to what is read there and where
// reading stops.

/// `char::is_whitespace`.
pub open spec fn is_space(c: char) -> bool {
    ('\t' <= c && c <= '\r') || c == ' ' || c == '\u{85}' || c == '\u{a0}' || c == '\u{1680}'
        || ('\u{2000}' <= c && c <= '\u{200a}') || c == '\u{2028}' || c == '\u{2029}'
        || c == '\u{202f}' || c == '\u{205f}' || c == '\u{3000}'
}

/// Where a run of whitespace starting at `i` ends.
pub open spec fn ws_end(s: Seq<char>, i: int) -> int
    decreases s.len() - i,
{
    if 0 <= i < s.len() && is_space(s[i]) { ws_end(s, i + 1) } else { i }
}

/// Where a run of digits starting at `i` ends.
pub open spec fn digits_end(s: Seq<char>, i: int) -> int
    decreases s.len() - i,
{
    if 0 <= i < s.len() && is_digit(s[i]) { digits_end(s, i + 1) } else { i }
}

/// `lit` stands at position `i`.
pub open spec fn lit_at(s: Seq<char>, i: int, lit: Seq<char>) -> bool {
    0 <= i && i + lit.len() <= s.len() && s.subrange(i, i + lit.len()) == lit
}

pub open spec fn char_at(s: Seq<char>, i: int, c: char) -> bool {
    0 <= i < s.len() && s[i] == c
}

/// A run of digits at `i` whose value is at most `max`: the value and the end.
pub open spec fn p_int(s: Seq<char>, i: int, max: int) -> Option<(nat, int)> {
    let j = digits_end(s, i);
    match digits_within(s.subrange(i, j), max) {
        Some(v) => Some((v, j)),
        None => None,
    }
}

pub open spec fn p_target_coin(s: Seq<char>, i: int) -> Option<(bool, int)> {
    if lit_at(s, i, "heads"@) { Some((true, i + "heads"@.len())) }
    else if lit_at(s, i, "tails"@) { Some((false, i + "tails"@.len())) }
    else if lit_at(s, i, "1"@) { Some((true, i + "1"@.len())) }
    else if lit_at(s, i, "2"@) { Some((false, i + "2"@.len())) }
    else { None }
}

/// An optional comma (with the whitespace after it) before a target.
pub open spec fn after_comma(s: Seq<char>, i: int) -> int {
    if char_at(s, i, ',') { ws_end(s, i + 1) } else { i }
}

pub open spec fn p_roll_coin(s: Seq<char>, i: int) -> Option<(Roll, int)> {
    if lit_at(s, i, "coin"@) {
        let j = ws_end(s, i + "coin"@.len());
        match p_target_coin(s, after_comma(s, j)) {
            Some((t, k)) => Some((coin_spec(Some(t)), k)),
            None => Some((coin_spec(None), j)),
        }
    } else {
        None
    }
}

pub open spec fn p_comparison(s: Seq<char>, i: int) -> Option<(Comparison, int)> {
    if lit_at(s, i, "\u{2265}"@) { Some((Comparison::GreaterThanEqualTo, i + "\u{2265}"@.len())) }
    else if lit_at(s, i, ">="@) { Some((Comparison::GreaterThanEqualTo, i + ">="@.len())) }
    else if lit_at(s, i, ">"@) { Some((Comparison::GreaterThan, i + ">"@.len())) }
    else if lit_at(s, i, "\u{2264}"@) { Some((Comparison::LessThanEqualTo, i + "\u{2264}"@.len())) }
    else if lit_at(s, i, "<="@) { Some((Comparison::LessThanEqualTo, i + "<="@.len())) }
    else if lit_at(s, i, "<"@) { Some((Comparison::LessThan, i + "<"@.len())) }
    else if lit_at(s, i, "\u{2260}"@) { Some((Comparison::NotEqualTo, i + "\u{2260}"@.len())) }
    else if lit_at(s, i, "!="@) { Some((Comparison::NotEqualTo, i + "!="@.len())) }
    else if lit_at(s, i, "=="@) { Some((Comparison::EqualTo, i + "=="@.len())) }
    else if lit_at(s, i, "="@) { Some((Comparison::EqualTo, i + "="@.len())) }
    else { None }
}

pub open spec fn p_target_dice(s: Seq<char>, i: int) -> Option<(RollTarget, int)> {
    match p_comparison(s, i) {
        Some((c, j)) => match p_int(s, ws_end(s, j), i64::MAX as int) {
            Some((v, k)) => Some((RollTarget { total: v as i64, comparison: c }, k)),
            None => None,
        },
        None => None,
    }
}

/// An optional target: what is read and where reading stops.
pub open spec fn p_target_opt(s: Seq<char>, i: int) -> (Option<RollTarget>, int) {
    match p_target_dice(s, after_comma(s, i)) {
        Some((t, k)) => (Some(t), k),
        None => (None, i),
    }
}

/// The value of a sign followed by digits, when it fits an `i16`.
pub open spec fn signed_value(negative: bool, v: nat) -> Option<i16> {
    if negative {
        if v <= 32768 { Some((-(v as int)) as i16) } else { None }
    } else {
        if v <= 32767 { Some(v as i16) } else { None }
    }
}

pub open spec fn p_modifier(s: Seq<char>, i: int) -> Option<(i16, int)> {
    if char_at(s, i, '-') || char_at(s, i, '+') {
        let j = ws_end(s, i + 1);
        let k = digits_end(s, j);
        match digits_within(s.subrange(j, k), 32768) {
            Some(v) => match signed_value(s[i] == '-', v) {
                Some(m) => Some((m, k)),
                None => None,
            },
            None => None,
        }
    } else {
        None
    }
}

/// An optional modifier (0 when absent).
pub open spec fn p_modifier_opt(s: Seq<char>, i: int) -> (i16, int) {
    match p_modifier(s, i) {
        Some((m, k)) => (m, k),
        None => (0, i),
    }
}

pub open spec fn p_mode1_type(s: Seq<char>, i: int) -> Option<(ModeType, int)> {
    if lit_at(s, i, "minimum"@) { Some((ModeType::Min, i + "minimum"@.len())) }
    else if lit_at(s, i, "min"@) { Some((ModeType::Min, i + "min"@.len())) }
    else if lit_at(s, i, "maximum"@) { Some((ModeType::Max, i + "maximum"@.len())) }
    else if lit_at(s, i, "max"@) { Some((ModeType::Max, i + "max"@.len())) }
    else { None }
}

/// A keep-mode of the first syntax: the mode, where it ends, and whether its count is valid.
pub open spec fn p_mode1(s: Seq<char>, i: int) -> Option<(Mode, int, bool)> {
    match p_mode1_type(s, i) {
        Some((t, j)) => {
            let k = ws_end(s, j);
            match p_int(s, k, u8::MAX as int) {
                Some((n, m)) => Some((Mode(t, n as u8), m, n >= 1)),
                None => Some((Mode(t, 1), k, true)),
            }
        },
        None => None,
    }
}

pub open spec fn p_mode2(s: Seq<char>, i: int) -> Option<(ModeType, int)> {
    if lit_at(s, i, "disadvantage"@) { Some((ModeType::Min, i + "disadvantage"@.len())) }
    else if lit_at(s, i, "dis"@) { Some((ModeType::Min, i + "dis"@.len())) }
    else if lit_at(s, i, "advantage"@) { Some((ModeType::Max, i + "advantage"@.len())) }
    else if lit_at(s, i, "adv"@) { Some((ModeType::Max, i + "adv"@.len())) }
    else { None }
}

/// `'d'` and the number of sides: the count and where it ends.
pub open spec fn p_sides(s: Seq<char>, i: int) -> Option<(nat, int)> {
    if char_at(s, i, 'd') { p_int(s, ws_end(s, i + 1), u32::MAX as int) } else { None }
}

/// The second syntax, `d<sides> <modifier> adv|dis <target>`: the roll, where
/// it ends, and whether its counts are valid.
pub open spec fn p_syntax2(s: Seq<char>, i: int) -> Option<(Roll, int, bool)> {
    match p_sides(s, i) {
        Some((sides, j)) => {
            let (modifier, k) = p_modifier_opt(s, ws_end(s, j));
            match p_mode2(s, ws_end(s, k)) {
                Some((t, m)) => {
                    let (target, e) = p_target_opt(s, ws_end(s, m));
                    Some((Roll { dice: 2, sides: sides as u32, modifier, mode: Some(Mode(t, 1)), target }, e, sides >= 2))
                },
                None => None,
            }
        },
        None => None,
    }
}

/// The first syntax, `<dice>d<sides> <modifier> <mode> <target>`.
pub open spec fn p_syntax1(s: Seq<char>, i: int) -> Option<(Roll, int, bool)> {
    let (dice, dice_ok, j) = match p_int(s, i, u8::MAX as int) {
        Some((n, j)) => (n as u8, n >= 1, j),
        None => (1u8, true, i),
    };
    match p_sides(s, ws_end(s, j)) {
        Some((sides, k)) => {
            let (modifier, m) = p_modifier_opt(s, ws_end(s, k));
            let (mode, mode_ok, n) = match p_mode1(s, ws_end(s, m)) {
                Some((md, n, ok)) => (Some(md), ok, n),
                None => (None::<Mode>, true, m),
            };
            let (target, e) = p_target_opt(s, ws_end(s, n));
            Some((Roll { dice, sides: sides as u32, modifier, mode, target }, e, dice_ok && sides >= 2 && mode_ok))
        },
        None => None,
    }
}

pub open spec fn p_roll_dice(s: Seq<char>, i: int) -> Option<(Roll, int, bool)> {
    match p_syntax2(s, i) {
        Some(r) => Some(r),
        None => p_syntax1(s, i),
    }
}

/// What a whole (lower-cased) input reads as: a roll, with whitespace
/// around it, and with every count valid.
pub open spec fn roll_spec(s: Seq<char>) -> Option<Roll> {
    let i = ws_end(s, 0);
    let parsed = match p_roll_coin(s, i) {
        Some((r, j)) => Some((r, j, true)),
        None => p_roll_dice(s, i),
    };
    match parsed {
        Some((r, j, ok)) => if ok && ws_end(s, j) == s.len() { Some(normalize_spec(r)) } else { None },
        None => None,
    }
}

/// The input with ASCII letters lower-cased.
pub open spec fn lower(s: Seq<char>) -> Seq<char> {
    s.map_values(|c: char| ascii_lower(c))
}


fn is_space_char(c: char) -> (r: bool)
    ensures r == is_space(c),
{
    ('\t' <= c && c <= '\r') || c == ' ' || c == '\u{85}' || c == '\u{a0}' || c == '\u{1680}'
        || ('\u{2000}' <= c && c <= '\u{200a}') || c == '\u{2028}' || c == '\u{2029}'
        || c == '\u{202f}' || c == '\u{205f}' || c == '\u{3000}'
}

fn skip_ws(s: &Vec<char>, i: usize) -> (j: usize)
    requires i <= s@.len(), s@.len() <= usize::MAX,
    ensures j == ws_end(s@, i as int), i <= j <= s@.len(),
    decreases s@.len() - i,
{
    if i < s.len() && is_space_char(s[i]) { skip_ws(s, i + 1) } else { i }
}

fn skip_digits(s: &Vec<char>, i: usize) -> (j: usize)
    requires i <= s@.len(), s@.len() <= usize::MAX,
    ensures j == digits_end(s@, i as int), i <= j <= s@.len(),
    decreases s@.len() - i,
{
    if i < s.len() && '0' <= s[i] && s[i] <= '9' { skip_digits(s, i + 1) } else { i }
}

fn is_char(s: &Vec<char>, i: usize, c: char) -> (r: bool)
    requires s@.len() <= usize::MAX,
    ensures r == char_at(s@, i as int, c),
{
    i < s.len() && s[i] == c
}

/// Where `lit` ends when it stands at `i`.
fn match_lit(s: &Vec<char>, i: usize, lit: &str) -> (r: Option<usize>)
    requires i <= s@.len(), s@.len() <= usize::MAX,
    ensures
        r == (if lit_at(s@, i as int, lit@) { Some((i + lit@.len()) as usize) } else { None::<usize> }),
{
    let l = chars_of(lit);
    if l.len() > s.len() - i {
        return None;
    }
    let mut k: usize = 0;
    while k < l.len()
        invariant
            l@ == lit@,
            i + l@.len() <= s@.len(),
            s@.len() <= usize::MAX,
            k <= l@.len(),
            forall|m: int| 0 <= m < k ==> s@[i + m] == #[trigger] l@[m],
        decreases l.len() - k,
    {
        if s[i + k] != l[k] {
            assert(s@.subrange(i as int, i + l@.len())[k as int] != lit@[k as int]);
            return None;
        }
        k = k + 1;
    }
    assert(s@.subrange(i as int, i + l@.len()) =~= lit@);
    Some(i + l.len())
}

fn read_int(s: &Vec<char>, i: usize, max: u64) -> (r: Option<(u64, usize)>)
    requires i <= s@.len(), s@.len() <= usize::MAX,
    ensures
        match p_int(s@, i as int, max as int) {
            Some((v, j)) => r == Some((v as u64, j as usize)) && i <= j <= s@.len(),
            None => r is None,
        },
{
    let j = skip_digits(s, i);
    match parse_digits(s, i, j, max) {
        Some(v) => Some((v, j)),
        None => None,
    }
}

fn read_target_coin(s: &Vec<char>, i: usize) -> (r: Option<(bool, usize)>)
    requires i <= s@.len(), s@.len() <= usize::MAX,
    ensures
        match p_target_coin(s@, i as int) {
            Some((t, j)) => r == Some((t, j as usize)) && i <= j <= s@.len(),
            None => r is None,
        },
{
    if let Some(j) = match_lit(s, i, "heads") { return Some((true, j)); }
    if let Some(j) = match_lit(s, i, "tails") { return Some((false, j)); }
    if let Some(j) = match_lit(s, i, "1") { return Some((true, j)); }
    if let Some(j) = match_lit(s, i, "2") { return Some((false, j)); }
    None
}

fn skip_comma(s: &Vec<char>, i: usize) -> (j: usize)
    requires i <= s@.len(), s@.len() <= usize::MAX,
    ensures j == after_comma(s@, i as int), i <= j <= s@.len(),
{
    if is_char(s, i, ',') { skip_ws(s, i + 1) } else { i }
}

fn read_roll_coin(s: &Vec<char>, i: usize) -> (r: Option<(Roll, usize)>)
    requires i <= s@.len(), s@.len() <= usize::MAX,
    ensures
        match p_roll_coin(s@, i as int) {
            Some((roll, j)) => r == Some((roll, j as usize)) && i <= j <= s@.len(),
            None => r is None,
        },
{
    match match_lit(s, i, "coin") {
        Some(j) => {
            let j = skip_ws(s, j);
            match read_target_coin(s, skip_comma(s, j)) {
                Some((t, k)) => Some((Roll::new_coin(Some(t)), k)),
                None => Some((Roll::new_coin(None), j)),
            }
        },
        None => None,
    }
}

fn read_comparison(s: &Vec<char>, i: usize) -> (r: Option<(Comparison, usize)>)
    requires i <= s@.len(), s@.len() <= usize::MAX,
    ensures
        match p_comparison(s@, i as int) {
            Some((c, j)) => r == Some((c, j as usize)) && i <= j <= s@.len(),
            None => r is None,
        },
{
    if let Some(j) = match_lit(s, i, "\u{2265}") { return Some((Comparison::GreaterThanEqualTo, j)); }
    if let Some(j) = match_lit(s, i, ">=") { return Some((Comparison::GreaterThanEqualTo, j)); }
    if let Some(j) = match_lit(s, i, ">") { return Some((Comparison::GreaterThan, j)); }
    if let Some(j) = match_lit(s, i, "\u{2264}") { return Some((Comparison::LessThanEqualTo, j)); }
    if let Some(j) = match_lit(s, i, "<=") { return Some((Comparison::LessThanEqualTo, j)); }
    if let Some(j) = match_lit(s, i, "<") { return Some((Comparison::LessThan, j)); }
    if let Some(j) = match_lit(s, i, "\u{2260}") { return Some((Comparison::NotEqualTo, j)); }
    if let Some(j) = match_lit(s, i, "!=") { return Some((Comparison::NotEqualTo, j)); }
    if let Some(j) = match_lit(s, i, "==") { return Some((Comparison::EqualTo, j)); }
    if let Some(j) = match_lit(s, i, "=") { return Some((Comparison::EqualTo, j)); }
    None
}

fn read_target_opt(s: &Vec<char>, i: usize) -> (r: (Option<RollTarget>, usize))
    requires i <= s@.len(), s@.len() <= usize::MAX,
    ensures
        r.0 == p_target_opt(s@, i as int).0,
        r.1 == p_target_opt(s@, i as int).1,
        i <= r.1 <= s@.len(),
{
    let k = skip_comma(s, i);
    match read_comparison(s, k) {
        Some((c, j)) => match read_int(s, skip_ws(s, j), i64::MAX as u64) {
            Some((v, e)) => (Some(RollTarget { total: v as i64, comparison: c }), e),
            None => (None, i),
        },
        None => (None, i),
    }
}

fn read_modifier_opt(s: &Vec<char>, i: usize) -> (r: (i16, usize))
    requires i <= s@.len(), s@.len() <= usize::MAX,
    ensures
        r.0 == p_modifier_opt(s@, i as int).0,
        r.1 == p_modifier_opt(s@, i as int).1,
        i <= r.1 <= s@.len(),
{
    if is_char(s, i, '-') || is_char(s, i, '+') {
        let negative = s[i] == '-';
        let j = skip_ws(s, i + 1);
        let k = skip_digits(s, j);
        match parse_digits(s, j, k, 32768) {
            Some(v) => {
                if negative {
                    let m: i16 = if v == 32768 { -32768 } else { -(v as i16) };
                    (m, k)
                } else if v <= 32767 {
                    (v as i16, k)
                } else {
                    (0, i)
                }
            },
            None => (0, i),
        }
    } else {
        (0, i)
    }
}

fn read_mode1_type(s: &Vec<char>, i: usize) -> (r: Option<(ModeType, usize)>)
    requires i <= s@.len(), s@.len() <= usize::MAX,
    ensures
        match p_mode1_type(s@, i as int) {
            Some((t, j)) => r == Some((t, j as usize)) && i <= j <= s@.len(),
            None => r is None,
        },
{
    if let Some(j) = match_lit(s, i, "minimum") { return Some((ModeType::Min, j)); }
    if let Some(j) = match_lit(s, i, "min") { return Some((ModeType::Min, j)); }
    if let Some(j) = match_lit(s, i, "maximum") { return Some((ModeType::Max, j)); }
    if let Some(j) = match_lit(s, i, "max") { return Some((ModeType::Max, j)); }
    None
}

fn read_mode1(s: &Vec<char>, i: usize) -> (r: Option<(Mode, usize, bool)>)
    requires i <= s@.len(), s@.len() <= usize::MAX,
    ensures
        match p_mode1(s@, i as int) {
            Some((md, j, ok)) => r == Some((md, j as usize, ok)) && i <= j <= s@.len(),
            None => r is None,
        },
{
    match read_mode1_type(s, i) {
        Some((t, j)) => {
            let k = skip_ws(s, j);
            match read_int(s, k, u8::MAX as u64) {
                Some((n, m)) => Some((Mode(t, n as u8), m, n >= 1)),
                None => Some((Mode(t, 1), k, true)),
            }
        },
        None => None,
    }
}

fn read_mode2(s: &Vec<char>, i: usize) -> (r: Option<(ModeType, usize)>)
    requires i <= s@.len(), s@.len() <= usize::MAX,
    ensures
        match p_mode2(s@, i as int) {
            Some((t, j)) => r == Some((t, j as usize)) && i <= j <= s@.len(),
            None => r is None,
        },
{
    if let Some(j) = match_lit(s, i, "disadvantage") { return Some((ModeType::Min, j)); }
    if let Some(j) = match_lit(s, i, "dis") { return Some((ModeType::Min, j)); }
    if let Some(j) = match_lit(s, i, "advantage") { return Some((ModeType::Max, j)); }
    if let Some(j) = match_lit(s, i, "adv") { return Some((ModeType::Max, j)); }
    None
}

/// The mode words of the second syntax: a word that begins with `dis` (`dis`
/// or `disadvantage`) keeps the lowest die, one that begins with `adv` (`adv`
/// or `advantage`) keeps the highest, the longer spelling is read whole where
/// it stands, and no other word is a mode word.
pub proof fn law_mode2_words(s: Seq<char>, i: int)
    ensures
        lit_at(s, i, "dis"@) ==> p_mode2(s, i) == Some((ModeType::Min,
            if lit_at(s, i, "disadvantage"@) { i + 12 } else { i + 3 })),
        lit_at(s, i, "adv"@) ==> p_mode2(s, i) == Some((ModeType::Max,
            if lit_at(s, i, "advantage"@) { i + 9 } else { i + 3 })),
        !lit_at(s, i, "dis"@) && !lit_at(s, i, "adv"@) ==> p_mode2(s, i) is None,
{
    reveal_strlit("dis");
    reveal_strlit("disadvantage");
    reveal_strlit("adv");
    reveal_strlit("advantage");
    if lit_at(s, i, "disadvantage"@) {
        assert(s.subrange(i, i + 3) =~= s.subrange(i, i + 12).subrange(0, 3));
        assert("disadvantage"@.subrange(0, 3) =~= "dis"@);
        assert(s[i + 1] == "disadvantage"@[1]);
        assert(!lit_at(s, i, "adv"@)) by {
            assert(s.subrange(i, i + 3)[1] == s[i + 1]);
        }
    }
    if lit_at(s, i, "advantage"@) {
        assert(s.subrange(i, i + 3) =~= s.subrange(i, i + 9).subrange(0, 3));
        assert("advantage"@.subrange(0, 3) =~= "adv"@);
        assert(s[i] == "advantage"@[0]);
        assert(!lit_at(s, i, "dis"@)) by {
            assert(s.subrange(i, i + 3)[0] == s[i]);
        }
    }
    if lit_at(s, i, "dis"@) {
        assert(s.subrange(i, i + 3)[0] == s[i]);
        assert(!lit_at(s, i, "adv"@));
        assert(!lit_at(s, i, "advantage"@)) by {
            if lit_at(s, i, "advantage"@) {
                assert(s.subrange(i, i + 9)[0] == s[i]);
            }
        }
    }
    if lit_at(s, i, "adv"@) {
        assert(s.subrange(i, i + 3)[0] == s[i]);
        assert(!lit_at(s, i, "disadvantage"@)) by {
            if lit_at(s, i, "disadvantage"@) {
                assert(s.subrange(i, i + 12)[0] == s[i]);
            }
        }
    }
}

/// The mode words of the first syntax: a word that begins with `min` (`min`
/// or `minimum`) keeps the lowest dice, one that begins with `max` (`max` or
/// `maximum`) the highest, the longer spelling is read whole where it stands,
/// and no other word is a mode word.
pub proof fn law_mode1_words(s: Seq<char>, i: int)
    ensures
        lit_at(s, i, "min"@) ==> p_mode1_type(s, i) == Some((ModeType::Min,
            if lit_at(s, i, "minimum"@) { i + 7 } else { i + 3 })),
        lit_at(s, i, "max"@) ==> p_mode1_type(s, i) == Some((ModeType::Max,
            if lit_at(s, i, "maximum"@) { i + 7 } else { i + 3 })),
        !lit_at(s, i, "min"@) && !lit_at(s, i, "max"@) ==> p_mode1_type(s, i) is None,
{
    reveal_strlit("min");
    reveal_strlit("minimum");
    reveal_strlit("max");
    reveal_strlit("maximum");
    if lit_at(s, i, "minimum"@) {
        assert(s.subrange(i, i + 3) =~= s.subrange(i, i + 7).subrange(0, 3));
        assert("minimum"@.subrange(0, 3) =~= "min"@);
        assert(s[i + 1] == "minimum"@[1]);
        assert(!lit_at(s, i, "max"@)) by {
            assert(s.subrange(i, i + 3)[1] == s[i + 1]);
        }
    }
    if lit_at(s, i, "maximum"@) {
        assert(s.subrange(i, i + 3) =~= s.subrange(i, i + 7).subrange(0, 3));
        assert("maximum"@.subrange(0, 3) =~= "max"@);
        assert(s[i + 1] == "maximum"@[1]);
        assert(!lit_at(s, i, "min"@)) by {
            assert(s.subrange(i, i + 3)[1] == s[i + 1]);
        }
    }
    if lit_at(s, i, "min"@) {
        assert(s.subrange(i, i + 3)[1] == s[i + 1]);
        assert(!lit_at(s, i, "max"@));
        assert(!lit_at(s, i, "maximum"@)) by {
            if lit_at(s, i, "maximum"@) {
                assert(s.subrange(i, i + 7)[1] == s[i + 1]);
            }
        }
    }
    if lit_at(s, i, "max"@) {
        assert(s.subrange(i, i + 3)[1] == s[i + 1]);
        assert(!lit_at(s, i, "minimum"@)) by {
            if lit_at(s, i, "minimum"@) {
                assert(s.subrange(i, i + 7)[1] == s[i + 1]);
            }
        }
    }
}

proof fn lemma_ws_end_ge(s: Seq<char>, i: int)
    ensures ws_end(s, i) >= i,
    decreases s.len() - i,
{
    if 0 <= i < s.len() && is_space(s[i]) {
        lemma_ws_end_ge(s, i + 1);
    }
}

proof fn lemma_digits_end_ge(s: Seq<char>, i: int)
    ensures digits_end(s, i) >= i,
    decreases s.len() - i,
{
    if 0 <= i < s.len() && is_digit(s[i]) {
        lemma_digits_end_ge(s, i + 1);
    }
}

proof fn lemma_p_int_ge(s: Seq<char>, i: int, max: int)
    ensures p_int(s, i, max) matches Some((v, j)) ==> j >= i,
{
    lemma_digits_end_ge(s, i);
}

proof fn lemma_target_opt_ge(s: Seq<char>, i: int)
    ensures p_target_opt(s, i).1 >= i,
{
    let a = after_comma(s, i);
    if char_at(s, i, ',') {
        lemma_ws_end_ge(s, i + 1);
    }
    assert(a >= i);
    match p_comparison(s, a) {
        Some((c, j)) => {
            lemma_ws_end_ge(s, j);
            lemma_p_int_ge(s, ws_end(s, j), i64::MAX as int);
            reveal_strlit("\u{2265}");
            reveal_strlit(">=");
            reveal_strlit(">");
            reveal_strlit("\u{2264}");
            reveal_strlit("<=");
            reveal_strlit("<");
            reveal_strlit("\u{2260}");
            reveal_strlit("!=");
            reveal_strlit("==");
            reveal_strlit("=");
            assert(j >= a);
        },
        None => {},
    }
}

proof fn lemma_modifier_opt_ge(s: Seq<char>, i: int)
    ensures p_modifier_opt(s, i).1 >= i,
{
    if char_at(s, i, '-') || char_at(s, i, '+') {
        lemma_ws_end_ge(s, i + 1);
        lemma_digits_end_ge(s, ws_end(s, i + 1));
    }
}

/// Every roll read in the second syntax (`d<sides>`, a modifier, a mode word
/// and a target) throws two dice and keeps one: the lowest when its mode word
/// is `dis` or `disadvantage`, the highest when it is `adv` or `advantage`.
pub proof fn law_syntax2_mode(s: Seq<char>, i: int)
    requires 0 <= i,
    ensures
        p_syntax2(s, i) matches Some((r, e, ok)) ==> r.dice == 2 && exists|w: int| i < w && w + 3 <= e && (
            (#[trigger] lit_at(s, w, "dis"@) && r.mode == Some(Mode(ModeType::Min, 1)))
            || (lit_at(s, w, "adv"@) && r.mode == Some(Mode(ModeType::Max, 1)))),
{
    match p_sides(s, i) {
        Some((sides, j)) => {
            lemma_ws_end_ge(s, i + 1);
            lemma_p_int_ge(s, ws_end(s, i + 1), u32::MAX as int);
            assert(j > i);
            let j2 = ws_end(s, j);
            lemma_ws_end_ge(s, j);
            lemma_modifier_opt_ge(s, j2);
            let k = p_modifier_opt(s, j2).1;
            let w = ws_end(s, k);
            lemma_ws_end_ge(s, k);
            assert(i < w);
            law_mode2_words(s, w);
            match p_mode2(s, w) {
                Some((t, m)) => {
                    reveal_strlit("dis");
                    reveal_strlit("disadvantage");
                    reveal_strlit("adv");
                    reveal_strlit("advantage");
                    assert(m >= w + 3);
                    lemma_ws_end_ge(s, m);
                    lemma_target_opt_ge(s, ws_end(s, m));
                    if lit_at(s, w, "dis"@) {
                        assert(lit_at(s, w, "dis"@));
                    } else {
                        assert(lit_at(s, w, "adv"@));
                    }
                },
                None => {},
            }
        },
        None => {},
    }
}

fn read_sides(s: &Vec<char>, i: usize) -> (r: Option<(u64, usize)>)
    requires i <= s@.len(), s@.len() <= usize::MAX,
    ensures
        match p_sides(s@, i as int) {
            Some((v, j)) => r == Some((v as u64, j as usize)) && i <= j <= s@.len() && v <= u32::MAX,
            None => r is None,
        },
{
    if is_char(s, i, 'd') { read_int(s, skip_ws(s, i + 1), u32::MAX as u64) } else { None }
}

fn read_syntax2(s: &Vec<char>, i: usize) -> (r: Option<(Roll, usize, bool)>)
    requires i <= s@.len(), s@.len() <= usize::MAX,
    ensures
        match p_syntax2(s@, i as int) {
            Some((roll, j, ok)) => r == Some((roll, j as usize, ok)) && i <= j <= s@.len(),
            None => r is None,
        },
{
    match read_sides(s, i) {
        Some((sides, j)) => {
            let (modifier, k) = read_modifier_opt(s, skip_ws(s, j));
            match read_mode2(s, skip_ws(s, k)) {
                Some((t, m)) => {
                    let (target, e) = read_target_opt(s, skip_ws(s, m));
                    Some((Roll { dice: 2, sides: sides as u32, modifier, mode: Some(Mode(t, 1)), target }, e, sides >= 2))
                },
                None => None,
            }
        },
        None => None,
    }
}

fn read_syntax1(s: &Vec<char>, i: usize) -> (r: Option<(Roll, usize, bool)>)
    requires i <= s@.len(), s@.len() <= usize::MAX,
    ensures
        match p_syntax1(s@, i as int) {
            Some((roll, j, ok)) => r == Some((roll, j as usize, ok)) && i <= j <= s@.len(),
            None => r is None,
        },
{
    let (dice, dice_ok, j): (u8, bool, usize) = match read_int(s, i, u8::MAX as u64) {
        Some((n, j)) => (n as u8, n >= 1, j),
        None => (1, true, i),
    };
    match read_sides(s, skip_ws(s, j)) {
        Some((sides, k)) => {
            let (modifier, m) = read_modifier_opt(s, skip_ws(s, k));
            let (mode, mode_ok, n): (Option<Mode>, bool, usize) = match read_mode1(s, skip_ws(s, m)) {
                Some((md, n, ok)) => (Some(md), ok, n),
                None => (None, true, m),
            };
            let (target, e) = read_target_opt(s, skip_ws(s, n));
            Some((Roll { dice, sides: sides as u32, modifier, mode, target }, e, dice_ok && sides >= 2 && mode_ok))
        },
        None => None,
    }
}

fn read_roll(s: &Vec<char>) -> (r: Option<Roll>)
    ensures r == roll_spec(s@),
{
    let _n = s.len();
    let i = skip_ws(s, 0);
    let parsed: Option<(Roll, usize, bool)> = match read_roll_coin(s, i) {
        Some((r, j)) => Some((r, j, true)),
        None => match read_syntax2(s, i) {
            Some(x) => Some(x),
            None => read_syntax1(s, i),
        },
    };
    match parsed {
        Some((r, j, ok)) => if ok && skip_ws(s, j) == s.len() { Some(r.normalize()) } else { None },
        None => None,
    }
}

/// Why an input is not a roll.
#[derive(Debug, Clone, PartialEq, Eq)]
pub struct ParseRollError;

/// Reads a roll, ignoring ASCII case (see `roll_spec`).
pub fn parse_roll(input: &str) -> (r: Result<Roll, ParseRollError>)
    ensures
        match roll_spec(lower(input@)) {
            Some(roll) => r == Ok::<Roll, ParseRollError>(roll),
            None => r is Err,
        },
{
    let chars = chars_of(input);
    let mut low: Vec<char> = Vec::new();
    let mut k: usize = 0;
    while k < chars.len()
        invariant
            chars@ == input@,
            k <= chars@.len(),
            low@ == lower(chars@).take(k as int),
        decreases chars.len() - k,
    {
        low.push(to_ascii_lower(chars[k]));
        k = k + 1;
        assert(low@ =~= lower(chars@).take(k as int));
    }
    assert(low@ =~= lower(input@));
    match read_roll(&low) {
        Some(roll) => Ok(roll),
        None => Err(ParseRollError),
    }
}


// ---------------------------------------------------------------------------
// Rolling, and the total of a rolled roll.

/// One die: a number from 1 to `sides`, drawn at random.
fn random_die(sides: u32) -> (r: u32)
    requires sides >= 1,
    ensures 1 <= r <= sides,
{
    let drawn = random_below(sides as u64);
    (drawn + 1) as u32
}

/// A roll and the number each die showed.
#[derive(Debug, Clone)]
pub struct ExecutedRoll {
    pub roll_results: Vec<u32>,
    pub roll: Roll,
}

impl Roll {
    /// Rolls every die.
    pub fn execute(self) -> (r: ExecutedRoll)
        requires self.sides >= 1,
        ensures
            r.roll == normalize_spec(self),
            r.roll_results@.len() == self.dice,
            forall|k: int| 0 <= k < r.roll_results@.len() ==> 1 <= #[trigger] r.roll_results@[k] <= self.sides,
    {
        let mut roll_results: Vec<u32> = Vec::new();
        let mut k: u8 = 0;
        while k < self.dice
            invariant
                self.sides >= 1,
                k <= self.dice,
                roll_results@.len() == k,
                forall|j: int| 0 <= j < roll_results@.len() ==> 1 <= #[trigger] roll_results@[j] <= self.sides,
            decreases self.dice - k,
        {
            roll_results.push(random_die(self.sides));
            k = k + 1;
        }
        ExecutedRoll { roll_results, roll: self.normalize() }
    }
}

pub open spec fn sum(s: Seq<int>) -> int
    decreases s.len(),
{
    if s.len() == 0 { 0 } else { sum(s.drop_last()) + s.last() }
}

/// `x` goes before `y` when keeping the highest (`desc`) or the lowest dice.
pub open spec fn goes_before(x: int, y: int, desc: bool) -> bool {
    if desc { x >= y } else { x <= y }
}

/// Inserts `x` before the first element it goes before.
pub open spec fn ins(s: Seq<int>, x: int, desc: bool) -> Seq<int>
    decreases s.len(),
{
    if s.len() == 0 {
        seq![x]
    } else if goes_before(x, s[0], desc) {
        seq![x] + s
    } else {
        seq![s[0]] + ins(s.drop_first(), x, desc)
    }
}

/// The values ordered highest first (`desc`) or lowest first.
pub open spec fn sort_by(s: Seq<int>, desc: bool) -> Seq<int>
    decreases s.len(),
{
    if s.len() == 0 { seq![] } else { ins(sort_by(s.drop_last(), desc), s.last(), desc) }
}

/// Each die's number with the modifier added.
pub open spec fn modified(results: Seq<u32>, modifier: i16) -> Seq<int> {
    results.map_values(|r: u32| r as int + modifier as int)
}

/// The total shown for a rolled roll: a single die with its modifier; or the
/// modified dice, keeping only the `n` highest or lowest when a mode is set.
pub open spec fn total_spec(results: Seq<u32>, roll: Roll) -> int {
    if results.len() == 1 {
        results[0] as int + roll.modifier as int
    } else {
        match roll.mode {
            Some(Mode(t, n)) => sum(sort_by(modified(results, roll.modifier), t == ModeType::Max).take(n as int)),
            None => sum(modified(results, roll.modifier)),
        }
    }
}

proof fn lemma_ins_len(s: Seq<int>, x: int, desc: bool)
    ensures ins(s, x, desc).len() == s.len() + 1,
    decreases s.len(),
{
    if s.len() > 0 && !goes_before(x, s[0], desc) {
        lemma_ins_len(s.drop_first(), x, desc);
    }
}

proof fn lemma_sort_len(s: Seq<int>, desc: bool)
    ensures sort_by(s, desc).len() == s.len(),
    decreases s.len(),
{
    if s.len() > 0 {
        lemma_sort_len(s.drop_last(), desc);
        lemma_ins_len(sort_by(s.drop_last(), desc), s.last(), desc);
    }
}

/// Inserting puts `x` at the first position whose element it goes before.
proof fn lemma_ins_at(s: Seq<int>, x: int, desc: bool, p: int)
    requires
        0 <= p <= s.len(),
        forall|k: int| 0 <= k < p ==> !goes_before(x, #[trigger] s[k], desc),
        p < s.len() ==> goes_before(x, s[p], desc),
    ensures ins(s, x, desc) == s.take(p) + seq![x] + s.skip(p),
    decreases s.len(),
{
    if s.len() == 0 {
        assert(s.take(p) + seq![x] + s.skip(p) =~= seq![x]);
    } else if p == 0 {
        assert(s.take(0) + seq![x] + s.skip(0) =~= seq![x] + s);
    } else {
        let t = s.drop_first();
        assert forall|k: int| 0 <= k < p - 1 implies !goes_before(x, #[trigger] t[k], desc) by {
            assert(t[k] == s[k + 1]);
        }
        lemma_ins_at(t, x, desc, p - 1);
        assert(seq![s[0]] + (t.take(p - 1) + seq![x] + t.skip(p - 1)) =~= s.take(p) + seq![x] + s.skip(p));
    }
}

proof fn lemma_ins_bounds(s: Seq<int>, x: int, desc: bool, lo: int, hi: int)
    requires
        lo <= x <= hi,
        forall|k: int| 0 <= k < s.len() ==> lo <= #[trigger] s[k] <= hi,
    ensures forall|k: int| 0 <= k < ins(s, x, desc).len() ==> lo <= #[trigger] ins(s, x, desc)[k] <= hi,
    decreases s.len(),
{
    if s.len() > 0 && !goes_before(x, s[0], desc) {
        let t = s.drop_first();
        lemma_ins_bounds(t, x, desc, lo, hi);
        assert forall|k: int| 0 <= k < ins(s, x, desc).len() implies lo <= #[trigger] ins(s, x, desc)[k] <= hi by {
            if k > 0 {
                assert(ins(s, x, desc)[k] == ins(t, x, desc)[k - 1]);
            }
        }
    }
}

/// Ordering keeps every value within the bounds of the values ordered.
proof fn lemma_sort_bounds(s: Seq<int>, desc: bool, lo: int, hi: int)
    requires forall|k: int| 0 <= k < s.len() ==> lo <= #[trigger] s[k] <= hi,
    ensures forall|k: int| 0 <= k < sort_by(s, desc).len() ==> lo <= #[trigger] sort_by(s, desc)[k] <= hi,
    decreases s.len(),
{
    if s.len() > 0 {
        lemma_sort_bounds(s.drop_last(), desc, lo, hi);
        lemma_ins_bounds(sort_by(s.drop_last(), desc), s.last(), desc, lo, hi);
    }
}

/// The values in the order `sort_by` gives.
fn sort_values(values: &Vec<i64>, desc: bool) -> (r: Vec<i64>)
    ensures r@.map_values(|v: i64| v as int) == sort_by(values@.map_values(|v: i64| v as int), desc),
{
    let ghost vs = values@.map_values(|v: i64| v as int);
    let mut out: Vec<i64> = Vec::new();
    let mut i: usize = 0;
    assert(vs.take(0) =~= Seq::<int>::empty());
    while i < values.len()
        invariant
            i <= values@.len(),
            vs == values@.map_values(|v: i64| v as int),
            out@.map_values(|v: i64| v as int) == sort_by(vs.take(i as int), desc),
        decreases values.len() - i,
    {
        let x = values[i];
        let ghost before = out@.map_values(|v: i64| v as int);
        let mut p: usize = 0;
        loop
            invariant
                p <= out@.len(),
                before == out@.map_values(|v: i64| v as int),
                forall|k: int| 0 <= k < p ==> !goes_before(x as int, #[trigger] before[k], desc),
            ensures
                p <= out@.len(),
                forall|k: int| 0 <= k < p ==> !goes_before(x as int, #[trigger] before[k], desc),
                p < out@.len() ==> goes_before(x as int, before[p as int], desc),
            decreases out.len() - p,
        {
            if p >= out.len() {
                break;
            }
            let before_here = if desc { x >= out[p] } else { x <= out[p] };
            if before_here {
                break;
            }
            p = p + 1;
        }
        proof {
            lemma_ins_at(before, x as int, desc, p as int);
            assert(vs.take(i + 1).drop_last() =~= vs.take(i as int));
            assert(vs.take(i + 1).last() == x as int);
        }
        out.insert(p, x);
        proof {
            assert(out@.map_values(|v: i64| v as int) =~= before.take(p as int) + seq![x as int] + before.skip(p as int));
        }
        i = i + 1;
    }
    assert(vs.take(i as int) =~= vs);
    out
}

proof fn lemma_sum_bounds(s: Seq<int>, lo: int, hi: int)
    requires forall|k: int| 0 <= k < s.len() ==> lo <= #[trigger] s[k] <= hi,
    ensures s.len() * lo <= sum(s) <= s.len() * hi,
    decreases s.len(),
{
    if s.len() > 0 {
        lemma_sum_bounds(s.drop_last(), lo, hi);
        assert(s.len() * lo == (s.len() - 1) * lo + lo) by (nonlinear_arith);
        assert(s.len() * hi == (s.len() - 1) * hi + hi) by (nonlinear_arith);
    }
}

/// Sums the first `n` values.
fn sum_prefix(values: &Vec<i64>, n: usize) -> (r: i64)
    requires
        n <= values@.len(),
        values@.len() <= 256,
        forall|k: int| 0 <= k < values@.len() ==> -40000 <= #[trigger] values@[k] <= 0x1_0000_8000,
    ensures r == sum(values@.map_values(|v: i64| v as int).take(n as int)),
{
    let ghost vs = values@.map_values(|v: i64| v as int);
    let mut total: i64 = 0;
    let mut i: usize = 0;
    while i < n
        invariant
            i <= n <= values@.len() <= 256,
            vs == values@.map_values(|v: i64| v as int),
            forall|k: int| 0 <= k < values@.len() ==> -40000 <= #[trigger] values@[k] <= 0x1_0000_8000,
            total == sum(vs.take(i as int)),
        decreases n - i,
    {
        proof {
            assert(vs.take(i + 1).drop_last() =~= vs.take(i as int));
            lemma_sum_bounds(vs.take(i + 1), -40000, 0x1_0000_8000);
            assert((i + 1) * -40000 >= 256 * -40000) by (nonlinear_arith) requires i + 1 <= 256;
            assert((i + 1) * 0x1_0000_8000 <= 256 * 0x1_0000_8000) by (nonlinear_arith) requires i + 1 <= 256;
        }
        total = total + values[i];
        i = i + 1;
    }
    total
}

impl ExecutedRoll {
    /// The total of the roll (see `total_spec`). A keep-mode may keep at most
    /// as many dice as were rolled.
    pub fn total(&self) -> (r: i64)
        requires
            self.roll_results@.len() <= 255,
            self.roll_results@.len() != 1 ==> match self.roll.mode {
                Some(Mode(_, n)) => n <= self.roll_results@.len(),
                None => true,
            },
        ensures r == total_spec(self.roll_results@, self.roll),
    {
        let m = self.roll.modifier;
        if self.roll_results.len() == 1 {
            return self.roll_results[0] as i64 + m as i64;
        }
        let mut values: Vec<i64> = Vec::new();
        let mut i: usize = 0;
        while i < self.roll_results.len()
            invariant
                i <= self.roll_results@.len() <= 255,
                m == self.roll.modifier,
                values@.len() == i,
                forall|k: int| 0 <= k < i ==> (#[trigger] values@[k]) == self.roll_results@[k] as int + m as int,
            decreases self.roll_results.len() - i,
        {
            values.push(self.roll_results[i] as i64 + m as i64);
            i = i + 1;
        }
        assert(values@.map_values(|v: i64| v as int) =~= modified(self.roll_results@, m));
        match self.roll.mode {
            Some(Mode(t, n)) => {
                let desc = match t { ModeType::Max => true, ModeType::Min => false };
                let sorted = sort_values(&values, desc);
                proof {
                    lemma_sort_len(modified(self.roll_results@, m), desc);
                    assert(sorted@.len() == values@.len());
                    assert forall|k: int| 0 <= k < modified(self.roll_results@, m).len() implies
                        -40000 <= #[trigger] modified(self.roll_results@, m)[k] <= 0x1_0000_8000 by {
                        assert(modified(self.roll_results@, m)[k] == values@[k] as int);
                    }
                    lemma_sort_bounds(modified(self.roll_results@, m), desc, -40000, 0x1_0000_8000);
                    assert forall|k: int| 0 <= k < sorted@.len() implies -40000 <= #[trigger] sorted@[k] <= 0x1_0000_8000 by {
                        assert(sorted@.map_values(|v: i64| v as int)[k] == sorted@[k] as int);
                    }
                    assert((t == ModeType::Max) == desc);
                }
                sum_prefix(&sorted, n as usize)
            },
            None => {
                proof {
                    assert(values@.map_values(|v: i64| v as int).take(values@.len() as int) =~= modified(self.roll_results@, m));
                }
                sum_prefix(&values, values.len())
            },
        }
    }

    /// Whether the total meets the target, when there is one.
    pub fn outcome(&self) -> (r: Option<bool>)
        requires
            self.roll_results@.len() <= 255,
            self.roll_results@.len() != 1 ==> match self.roll.mode {
                Some(Mode(_, n)) => n <= self.roll_results@.len(),
                None => true,
            },
        ensures
            r == (match self.roll.target {
                Some(t) => Some(compare(t.comparison, total_spec(self.roll_results@, self.roll), t.total as int)),
                None => None::<bool>,
            }),
    {
        match self.roll.target {
            Some(t) => Some(t.comparison.exec(self.total(), t.total)),
            None => None,
        }
    }
}

} // verus!
