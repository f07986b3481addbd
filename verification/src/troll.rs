//! The `/troll` and `/ping` commands: who gets timed out, for how long, and
//! what the bot answers. Whether a lucky draw came up and whether the
//! timeout went through are handed in by the caller.
use vstd::prelude::*;
use crate::markup::{mention_spec, push_mention};
use crate::text::push_str;

verus! {

/// Which of the situations of a `/troll` call holds.
#[derive(Debug, Clone, Copy, PartialEq, Eq)]
pub enum TrollCase {
    /// No victim was named: the caller trolls themselves.
    Alone,
    /// The victim named is the bot itself.
    Bot,
    /// The caller named themselves.
    Themselves,
    /// Another member, and the lucky draw came up.
    Lucky,
    /// Another member, and the draw did not come up.
    Unlucky,
}

/// Who is timed out.
#[derive(Debug, Clone, Copy, PartialEq, Eq)]
pub enum TrollTarget {
    Perpetrator,
    Victim,
}

/// The timeout a `/troll` call asks for.
#[derive(Debug, Clone, Copy, PartialEq, Eq)]
pub struct TrollPlan {
    pub target: TrollTarget,
    pub seconds: u64,
}

pub open spec fn troll_case_spec(perpetrator: u64, victim: Option<u64>, bot: u64, lucky: bool) -> TrollCase {
    match victim {
        None => TrollCase::Alone,
        Some(v) => if v == bot {
            TrollCase::Bot
        } else if v == perpetrator {
            TrollCase::Themselves
        } else if lucky {
            TrollCase::Lucky
        } else {
            TrollCase::Unlucky
        },
    }
}

/// The situation of a call by `perpetrator` naming `victim`, with the bot's
/// own user `bot` and the outcome `lucky` of the draw (consulted only when
/// the victim is another member).
pub fn troll_case(perpetrator: u64, victim: Option<u64>, bot: u64, lucky: bool) -> (r: TrollCase)
    ensures r == troll_case_spec(perpetrator, victim, bot, lucky),
{
    match victim {
        None => TrollCase::Alone,
        Some(v) => if v == bot {
            TrollCase::Bot
        } else if v == perpetrator {
            TrollCase::Themselves
        } else if lucky {
            TrollCase::Lucky
        } else {
            TrollCase::Unlucky
        },
    }
}

pub open spec fn troll_plan_spec(case: TrollCase) -> TrollPlan {
    match case {
        TrollCase::Bot => TrollPlan { target: TrollTarget::Perpetrator, seconds: 30 },
        TrollCase::Lucky => TrollPlan { target: TrollTarget::Victim, seconds: 10 },
        _ => TrollPlan { target: TrollTarget::Perpetrator, seconds: 10 },
    }
}

/// Who is timed out, and for how many seconds: the victim when the draw came
/// up, else the caller; thirty seconds for naming the bot, else ten.
pub fn troll_plan(case: TrollCase) -> (r: TrollPlan)
    ensures r == troll_plan_spec(case),
{
    match case {
        TrollCase::Bot => TrollPlan { target: TrollTarget::Perpetrator, seconds: 30 },
        TrollCase::Lucky => TrollPlan { target: TrollTarget::Victim, seconds: 10 },
        _ => TrollPlan { target: TrollTarget::Perpetrator, seconds: 10 },
    }
}

pub open spec fn troll_reply_spec(case: TrollCase, perpetrator: u64, victim: u64, done: bool) -> Seq<char> {
    match case {
        TrollCase::Alone => if done {
            mention_spec(perpetrator) + " has been trolled."@
        } else {
            "Sorry, I cannot do that."@
        },
        TrollCase::Bot => if done {
            "Impossible. Heresy. Unspeakable. Heresy. Heresy. Silence."@
        } else {
            "Not happening, buddy."@
        },
        TrollCase::Themselves => if done {
            mention_spec(perpetrator) + " has successfully trolled themselves."@
        } else {
            "Sorry, I don't have permission to do that."@
        },
        TrollCase::Lucky => if done {
            mention_spec(perpetrator) + " has successfully trolled "@ + mention_spec(victim) + "."@
        } else {
            "Sorry, even though you succeeded, I don't have permission to do that."@
        },
        TrollCase::Unlucky => if done {
            mention_spec(perpetrator) + "'s attempt at trollage was a royal failure."@
        } else {
            "Sorry, I don't have permission to do that."@
        },
    }
}

/// The answer to a `/troll` call, once the timeout of `troll_plan` was
/// applied (`done`) or refused.
pub fn troll_reply(case: TrollCase, perpetrator: u64, victim: u64, done: bool) -> (r: String)
    ensures r@ == troll_reply_spec(case, perpetrator, victim, done),
{
    let mut s = String::new();
    match case {
        TrollCase::Alone => if done {
            push_mention(&mut s, perpetrator);
            push_str(&mut s, " has been trolled.");
        } else {
            push_str(&mut s, "Sorry, I cannot do that.");
        },
        TrollCase::Bot => if done {
            push_str(&mut s, "Impossible. Heresy. Unspeakable. Heresy. Heresy. Silence.");
        } else {
            push_str(&mut s, "Not happening, buddy.");
        },
        TrollCase::Themselves => if done {
            push_mention(&mut s, perpetrator);
            push_str(&mut s, " has successfully trolled themselves.");
        } else {
            push_str(&mut s, "Sorry, I don't have permission to do that.");
        },
        TrollCase::Lucky => if done {
            push_mention(&mut s, perpetrator);
            push_str(&mut s, " has successfully trolled ");
            push_mention(&mut s, victim);
            push_str(&mut s, ".");
        } else {
            push_str(&mut s, "Sorry, even though you succeeded, I don't have permission to do that.");
        },
        TrollCase::Unlucky => if done {
            push_mention(&mut s, perpetrator);
            push_str(&mut s, "'s attempt at trollage was a royal failure.");
        } else {
            push_str(&mut s, "Sorry, I don't have permission to do that.");
        },
    }
    s
}

/// A `/troll` call times out someone other than its caller only when the
/// lucky draw came up and the victim named is neither the caller nor the bot.
pub proof fn law_victim_only_by_luck(perpetrator: u64, victim: Option<u64>, bot: u64, lucky: bool)
    ensures
        troll_plan_spec(troll_case_spec(perpetrator, victim, bot, lucky)).target == TrollTarget::Victim
            <==> (lucky && victim is Some && victim->0 != bot && victim->0 != perpetrator),
{
}

/// The answer to `/ping`: "Pog" when the lucky draw came up, else "Pong".
pub fn ping_reply(lucky: bool) -> (r: &'static str)
    ensures r@ == (if lucky { "Pog"@ } else { "Pong"@ }),
{
    if lucky { "Pog" } else { "Pong" }
}

} // verus!
