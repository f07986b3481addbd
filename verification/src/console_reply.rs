//! The reply to a console command run from chat: its messages, each tagged
//! with its level, cut to fit a chat message and set in a code block.
use vstd::prelude::*;
use vstd::utf8::encode_utf8;
use crate::console::{InputAgentOutput, LogLevel};
use crate::help::{join_strings, join_with, strings_view};
use crate::text::push_str;

verus! {

broadcast use vstd::string::group_string_axioms;

pub open spec fn level_prefix(l: LogLevel) -> Seq<char> {
    match l {
        LogLevel::Error => "[ERROR]: "@,
        LogLevel::Warn => "[WARN]: "@,
        LogLevel::Info => "[INFO]: "@,
        LogLevel::Debug => "[DEBUG]: "@,
        LogLevel::Trace => "[TRACE]: "@,
    }
}

fn level_prefix_str(l: LogLevel) -> (r: &'static str)
    ensures r@ == level_prefix(l),
{
    match l {
        LogLevel::Error => "[ERROR]: ",
        LogLevel::Warn => "[WARN]: ",
        LogLevel::Info => "[INFO]: ",
        LogLevel::Debug => "[DEBUG]: ",
        LogLevel::Trace => "[TRACE]: ",
    }
}

/// Each message as a line: its level's tag, then its text.
pub open spec fn console_lines(ms: Seq<(LogLevel, Seq<char>)>) -> Seq<Seq<char>> {
    ms.map_values(|m: (LogLevel, Seq<char>)| level_prefix(m.0) + m.1)
}

/// The length in bytes of the lines joined by line breaks.
pub open spec fn joined_len(ls: Seq<Seq<char>>) -> int
    decreases ls.len(),
{
    if ls.len() == 0 {
        0
    } else if ls.len() == 1 {
        encode_utf8(ls[0]).len() as int
    } else {
        joined_len(ls.drop_last()) + 1 + encode_utf8(ls.last()).len()
    }
}

/// The most bytes the joined lines may take: a chat message holds 2000
/// bytes, and the code block around them takes 6 more, with 32 spared.
pub open spec fn lines_budget() -> int {
    2000 - 6 - 32
}

/// How many of the first lines are kept: lines are dropped from the end
/// until the rest fit.
pub open spec fn kept_lines(ls: Seq<Seq<char>>, k: nat) -> nat
    decreases k,
{
    if k == 0 || joined_len(ls.take(k as int)) <= lines_budget() { k } else { kept_lines(ls, (k - 1) as nat) }
}

/// The lines shown: those kept, then `...` when any was dropped.
pub open spec fn shown_lines(ls: Seq<Seq<char>>) -> Seq<Seq<char>> {
    let k = kept_lines(ls, ls.len());
    ls.take(k as int) + if k < ls.len() { seq!["..."@] } else { seq![] }
}

/// The messages a console command ends with: its error, if it failed, after
/// what it wrote; a note that there was no output when there was none.
pub open spec fn final_messages(ms: Seq<(LogLevel, Seq<char>)>, error: Option<Seq<char>>) -> Seq<(LogLevel, Seq<char>)> {
    let all = match error {
        Some(e) => ms.push((LogLevel::Error, e)),
        None => ms,
    };
    if all.len() == 0 { seq![(LogLevel::Trace, "(no output)"@)] } else { all }
}

/// The reply: the shown lines in a code block.
pub open spec fn console_text(ms: Seq<(LogLevel, Seq<char>)>) -> Seq<char> {
    "```\n"@ + join_with(shown_lines(console_lines(ms)), "\n"@) + "\n```"@
}

pub open spec fn opt_text(o: Option<String>) -> Option<Seq<char>> {
    match o {
        Some(s) => Some(s@),
        None => None,
    }
}

/// Whether the first `k` lines, joined, fit the budget.
fn fits(lines: &Vec<String>, k: usize) -> (r: bool)
    requires k <= lines@.len(),
    ensures r == (joined_len(strings_view(lines@).take(k as int)) <= lines_budget()),
{
    let ghost ls = strings_view(lines@);
    let budget: usize = 1962;
    let mut total: usize = 0;
    let mut i: usize = 0;
    while i < k
        invariant
            i <= k <= lines@.len(),
            ls == strings_view(lines@),
            budget == lines_budget(),
            total == joined_len(ls.take(i as int)),
            total <= budget,
        decreases k - i,
    {
        let ghost t = ls.take(i + 1);
        assert(t.drop_last() =~= ls.take(i as int));
        assert(t.last() == lines@[i as int]@);
        let sep: usize = if i > 0 { 1 } else { 0 };
        let n = lines[i].as_str().as_bytes().len();
        if n > budget - total || sep > budget - total - n {
            proof { lemma_joined_len_grows(ls, i as int + 1, k as int); }
            return false;
        }
        total = total + sep + n;
        i = i + 1;
    }
    true
}

proof fn lemma_joined_len_grows(ls: Seq<Seq<char>>, i: int, k: int)
    requires 0 <= i <= k <= ls.len(),
    ensures joined_len(ls.take(i)) <= joined_len(ls.take(k)),
    decreases k - i,
{
    if i < k {
        lemma_joined_len_grows(ls, i + 1, k);
        let t = ls.take(i + 1);
        assert(t.drop_last() =~= ls.take(i));
    }
}

/// The reply to a console command from its messages and its error, if any
/// (see `console_text` and `final_messages`).
pub fn console_reply(output: InputAgentOutput, error: Option<String>) -> (r: String)
    ensures r@ == console_text(final_messages(output.view_messages(), opt_text(error))),
{
    let ghost ms = final_messages(output.view_messages(), opt_text(error));
    let mut output = output;
    match error {
        Some(e) => output.error(e),
        None => {},
    }
    if output.messages().len() == 0 {
        output.trace(String::from_str("(no output)"));
    }
    assert(output.view_messages() =~= ms);
    let messages = output.into_messages();
    let ghost ls = console_lines(ms);
    let mut lines: Vec<String> = Vec::new();
    let mut i: usize = 0;
    while i < messages.len()
        invariant
            i <= messages@.len(),
            messages@.map_values(|m: (LogLevel, String)| (m.0, m.1@)) == ms,
            ls == console_lines(ms),
            strings_view(lines@) == ls.take(i as int),
        decreases messages.len() - i,
    {
        let mut line = String::from_str(level_prefix_str(messages[i].0));
        push_str(&mut line, messages[i].1.as_str());
        let ghost before = strings_view(lines@);
        let ghost lv = line@;
        lines.push(line);
        assert(ms[i as int] == (messages@[i as int].0, messages@[i as int].1@));
        assert(strings_view(lines@) =~= before.push(lv));
        assert(ls.take(i + 1) =~= ls.take(i as int).push(ls[i as int]));
        i = i + 1;
    }
    assert(ls.take(i as int) =~= ls);
    let n = lines.len();
    let mut k = n;
    while k > 0 && !fits(&lines, k)
        invariant
            k <= n == lines@.len(),
            strings_view(lines@) == ls,
            kept_lines(ls, n as nat) == kept_lines(ls, k as nat),
        decreases k,
    {
        k = k - 1;
    }
    let mut shown: Vec<String> = Vec::new();
    let mut j: usize = 0;
    while j < k
        invariant
            j <= k <= lines@.len(),
            strings_view(lines@) == ls,
            strings_view(shown@) == ls.take(j as int),
        decreases k - j,
    {
        let ghost before = strings_view(shown@);
        shown.push(crate::text::copy_string(&lines[j]));
        assert(strings_view(shown@) =~= before.push(ls[j as int]));
        assert(ls.take(j + 1) =~= ls.take(j as int).push(ls[j as int]));
        j = j + 1;
    }
    if k < n {
        let ghost before = strings_view(shown@);
        shown.push(String::from_str("..."));
        assert(strings_view(shown@) =~= before.push("..."@));
    }
    assert(strings_view(shown@) =~= shown_lines(ls));
    let body = join_strings(&shown, "\n");
    let mut r = String::from_str("```\n");
    push_str(&mut r, body.as_str());
    push_str(&mut r, "\n```");
    r
}

} // verus!
