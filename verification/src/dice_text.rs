//! How rolls and rolled rolls are written out in a chat message.
use vstd::prelude::*;
use crate::dice_roll::{
    compare, normalize_spec, parse_roll, total_spec, Comparison, ExecutedRoll, Mode, ModeType, ParseRollError, Roll,
    RollTarget,
};
use crate::num::{decimal, push_decimal, push_signed_decimal, signed_decimal};
use crate::text::push_str;

verus! {

broadcast use vstd::string::group_string_axioms;

/// A modifier as it follows a die: ` + n` when positive, else ` - n` (so
/// that no modifier reads ` - 0`).
pub open spec fn modifier_text(m: i16) -> Seq<char> {
    if m > 0 { " + "@ + decimal(m as nat) } else { " - "@ + decimal((-(m as int)) as nat) }
}

fn push_modifier(s: &mut String, m: i16)
    ensures final(s)@ == old(s)@ + modifier_text(m),
{
    let ghost start = s@;
    let magnitude: u64 = if m < 0 { (-(m as i32)) as u64 } else { m as u64 };
    if m > 0 {
        push_str(s, " + ");
    } else {
        push_str(s, " - ");
    }
    push_decimal(s, magnitude);
    assert(s@ =~= start + modifier_text(m));
}

pub open spec fn mode_type_name(t: ModeType) -> Seq<char> {
    match t {
        ModeType::Max => "max"@,
        ModeType::Min => "min"@,
    }
}

/// A keep-mode: `max` or `min`, then how many dice it keeps when more than one.
pub open spec fn mode_text(md: Mode) -> Seq<char> {
    mode_type_name(md.0) + if md.1 > 1 { " "@ + decimal(md.1 as nat) } else { seq![] }
}

fn push_mode(s: &mut String, md: Mode)
    ensures final(s)@ == old(s)@ + mode_text(md),
{
    let ghost start = s@;
    match md.0 {
        ModeType::Max => push_str(s, "max"),
        ModeType::Min => push_str(s, "min"),
    }
    if md.1 > 1 {
        push_str(s, " ");
        push_decimal(s, md.1 as u64);
    }
    assert(s@ =~= start + mode_text(md));
}

impl Mode {
    pub fn to_text(self) -> (r: String)
        ensures r@ == mode_text(self),
    {
        let mut s = String::new();
        push_mode(&mut s, self);
        assert(s@ =~= mode_text(self));
        s
    }
}

/// A roll in dice notation: the dice count when more than one, `d`, the
/// sides, the modifier, then the mode (`adv`/`dis` for two dice keeping one).
pub open spec fn roll_text(r: Roll) -> Seq<char> {
    (if r.dice > 1 { decimal(r.dice as nat) } else { seq![] }) + "d"@ + decimal(r.sides as nat)
        + modifier_text(r.modifier) + match r.mode {
            Some(md) => if md.1 == 1 && r.dice == 2 {
                match md.0 {
                    ModeType::Max => " adv"@,
                    ModeType::Min => " dis"@,
                }
            } else {
                " "@ + mode_text(md)
            },
            None => seq![],
        }
}

impl Roll {
    pub fn to_text(&self) -> (r: String)
        ensures r@ == roll_text(*self),
    {
        let mut s = String::new();
        if self.dice > 1 {
            push_decimal(&mut s, self.dice as u64);
        }
        push_str(&mut s, "d");
        push_decimal(&mut s, self.sides as u64);
        push_modifier(&mut s, self.modifier);
        let ghost before_mode = s@;
        match self.mode {
            Some(md) => {
                if md.1 == 1 && self.dice == 2 {
                    match md.0 {
                        ModeType::Max => push_str(&mut s, " adv"),
                        ModeType::Min => push_str(&mut s, " dis"),
                    }
                } else {
                    push_str(&mut s, " ");
                    push_mode(&mut s, md);
                }
            },
            None => {},
        }
        assert(s@ =~= roll_text(*self));
        s
    }
}

/// One die in the list of results: its number, and with a modifier, the
/// modified value too.
pub open spec fn result_entry(r: u32, m: i16) -> Seq<char> {
    if m == 0 {
        decimal(r as nat)
    } else {
        "("@ + decimal(r as nat) + ")"@ + modifier_text(m) + " = "@ + signed_decimal(r as int + m as int)
    }
}

/// The dice results separated by commas.
pub open spec fn result_list(rs: Seq<u32>, m: i16) -> Seq<char>
    decreases rs.len(),
{
    if rs.len() == 0 {
        seq![]
    } else if rs.len() == 1 {
        result_entry(rs[0], m)
    } else {
        result_list(rs.drop_last(), m) + ", "@ + result_entry(rs.last(), m)
    }
}

pub open spec fn comparison_symbol(c: Comparison) -> Seq<char> {
    match c {
        Comparison::GreaterThanEqualTo => "\u{2265}"@,
        Comparison::GreaterThan => ">"@,
        Comparison::LessThanEqualTo => "\u{2264}"@,
        Comparison::LessThan => "<"@,
        Comparison::EqualTo => "="@,
        Comparison::NotEqualTo => "\u{2260}"@,
    }
}

/// The outcome against a target: the comparison, the target, and `SUCCESS` or `FAILURE`.
pub open spec fn target_text(target: Option<RollTarget>, total: int) -> Seq<char> {
    match target {
        Some(t) => " "@ + comparison_symbol(t.comparison) + " "@ + signed_decimal(t.total as int) + ", **"@
            + (if compare(t.comparison, total, t.total as int) { "SUCCESS"@ } else { "FAILURE"@ }) + "**"@,
        None => seq![],
    }
}

/// A rolled roll as a message: a single die with its modifier, or the list
/// of dice, the mode kept and the total; then the outcome against the target.
pub open spec fn executed_text(results: Seq<u32>, roll: Roll) -> Seq<char> {
    let total = total_spec(results, roll);
    body_text(results, roll, total) + target_text(roll.target, total)
}

fn push_result_list(s: &mut String, rs: &Vec<u32>, m: i16)
    ensures final(s)@ == old(s)@ + result_list(rs@, m),
{
    let ghost start = s@;
    let mut i: usize = 0;
    while i < rs.len()
        invariant
            i <= rs@.len(),
            s@ == start + result_list(rs@.take(i as int), m),
        decreases rs.len() - i,
    {
        let ghost t = rs@.take(i + 1);
        assert(t.drop_last() =~= rs@.take(i as int));
        let ghost before = s@;
        if i > 0 {
            push_str(s, ", ");
        }
        let r = rs[i];
        if m == 0 {
            push_decimal(s, r as u64);
        } else {
            push_str(s, "(");
            push_decimal(s, r as u64);
            push_str(s, ")");
            push_modifier(s, m);
            push_str(s, " = ");
            push_signed_decimal(s, r as i64 + m as i64);
        }
        proof {
            if i == 0 {
                assert(rs@.take(0) =~= Seq::<u32>::empty());
            }
            assert(t.last() == r);
        }
        i = i + 1;
        assert(s@ =~= start + result_list(rs@.take(i as int), m));
    }
    assert(rs@.take(i as int) =~= rs@);
}

/// The message without its outcome (see `executed_text`).
pub open spec fn body_text(results: Seq<u32>, roll: Roll, total: int) -> Seq<char> {
    let m = roll.modifier;
    if results.len() == 1 {
        if m == 0 {
            "**"@ + decimal(results[0] as nat) + "**"@
        } else {
            "("@ + decimal(results[0] as nat) + ")"@ + modifier_text(m) + " = **"@ + signed_decimal(total) + "**"@
        }
    } else {
        "["@ + result_list(results, m) + "]"@ + match roll.mode {
            Some(md) => " "@ + mode_text(md) + " = **"@ + signed_decimal(total) + "**"@,
            None => " = **"@ + signed_decimal(total) + "**"@,
        }
    }
}

fn push_body(s: &mut String, results: &Vec<u32>, roll: Roll, total: i64)
    ensures final(s)@ == old(s)@ + body_text(results@, roll, total as int),
{
    let ghost start = s@;
    let m = roll.modifier;
    if results.len() == 1 {
        let r = results[0];
        if m == 0 {
            push_str(s, "**");
            push_decimal(s, r as u64);
            push_str(s, "**");
        } else {
            push_str(s, "(");
            push_decimal(s, r as u64);
            push_str(s, ")");
            push_modifier(s, m);
            push_str(s, " = **");
            push_signed_decimal(s, total);
            push_str(s, "**");
        }
    } else {
        push_str(s, "[");
        push_result_list(s, results, m);
        push_str(s, "]");
        match roll.mode {
            Some(md) => {
                push_str(s, " ");
                push_mode(s, md);
            },
            None => {},
        }
        push_str(s, " = **");
        push_signed_decimal(s, total);
        push_str(s, "**");
    }
    assert(s@ =~= start + body_text(results@, roll, total as int));
}

fn push_target(s: &mut String, target: Option<RollTarget>, total: i64)
    ensures final(s)@ == old(s)@ + target_text(target, total as int),
{
    let ghost start = s@;
    match target {
        Some(t) => {
            push_str(s, " ");
            push_str(s, t.comparison.to_str());
            push_str(s, " ");
            push_signed_decimal(s, t.total);
            push_str(s, ", **");
            if t.comparison.exec(total, t.total) {
                push_str(s, "SUCCESS");
            } else {
                push_str(s, "FAILURE");
            }
            push_str(s, "**");
        },
        None => {},
    }
    assert(s@ =~= start + target_text(target, total as int));
}

impl ExecutedRoll {
    /// The rolled roll as a message (see `executed_text`).
    pub fn to_text(&self) -> (r: String)
        requires
            self.roll_results@.len() <= 255,
            self.roll_results@.len() != 1 ==> match self.roll.mode {
                Some(Mode(_, n)) => n <= self.roll_results@.len(),
                None => true,
            },
        ensures r@ == executed_text(self.roll_results@, self.roll),
    {
        let total = self.total();
        let mut s = String::new();
        push_body(&mut s, &self.roll_results, self.roll, total);
        push_target(&mut s, self.roll.target, total);
        assert(s@ =~= executed_text(self.roll_results@, self.roll));
        s
    }
}

/// The longest message the chat accepts, in bytes.
pub const MESSAGE_LIMIT: usize = 2000;

/// What is sent instead of a roll whose message would be too long.
pub open spec fn too_long_text() -> Seq<char> {
    "The resulting message was too long to send..."@
}

/// The message of a roll of these results: the rolled roll, unless it is
/// longer than the chat accepts.
pub open spec fn roll_message_spec(results: Seq<u32>, roll: Roll) -> Seq<char> {
    let text = executed_text(results, normalize_spec(roll));
    if vstd::utf8::encode_utf8(text).len() > MESSAGE_LIMIT { too_long_text() } else { text }
}

/// A roll whose dice can be rolled and whose keep-mode keeps no more dice
/// than it rolls.
pub open spec fn rollable(roll: Roll) -> bool {
    &&& roll.sides >= 1
    &&& roll.dice != 1 ==> match roll.mode {
        Some(Mode(_, n)) => n <= roll.dice,
        None => true,
    }
}

/// Numbers that the dice of a roll can show: one per die, each from 1 to the sides.
pub open spec fn dice_shown(results: Seq<u32>, roll: Roll) -> bool {
    &&& results.len() == roll.dice
    &&& forall|k: int| 0 <= k < results.len() ==> 1 <= #[trigger] results[k] <= roll.sides
}

/// Rolls a roll and writes the message for it; which numbers come up is chance.
pub fn roll_message(roll: Roll) -> (r: String)
    requires rollable(roll),
    ensures
        exists|results: Seq<u32>| #[trigger] dice_shown(results, roll) && r@ == roll_message_spec(results, roll),
{
    let executed = roll.execute();
    let text = executed.to_text();
    let ghost results = executed.roll_results@;
    assert(text@ == executed_text(results, normalize_spec(roll)));
    let n = text.as_str().as_bytes().len();
    assert(n == vstd::utf8::encode_utf8(text@).len());
    let r = if n > MESSAGE_LIMIT {
        String::from_str("The resulting message was too long to send...")
    } else {
        text
    };
    assert(r@ == roll_message_spec(results, roll));
    assert(dice_shown(results, roll));
    r
}

/// Reads a roll's notation (see `parse_roll`), and checks that it can be rolled.
pub fn parse_rollable(notation: &str) -> (r: Result<Option<Roll>, ParseRollError>)
    ensures
        match r {
            Ok(Some(roll)) => rollable(roll) && parse_roll_result(notation@) == Some(roll),
            Ok(None) => parse_roll_result(notation@) matches Some(roll) && !rollable(roll),
            Err(_) => parse_roll_result(notation@) is None,
        },
{
    match parse_roll(notation) {
        Ok(roll) => {
            let fits = match roll.mode {
                Some(Mode(_, n)) => roll.dice == 1 || n <= roll.dice,
                None => true,
            };
            if roll.sides >= 1 && fits { Ok(Some(roll)) } else { Ok(None) }
        },
        Err(e) => Err(e),
    }
}

/// What `parse_roll` reads from a notation.
pub open spec fn parse_roll_result(notation: Seq<char>) -> Option<Roll> {
    crate::dice_roll::roll_spec(crate::dice_roll::lower(notation))
}

} // verus!
