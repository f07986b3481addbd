//! Listings shown a page at a time: the music queue and the emoji statistics.
use vstd::prelude::*;
use crate::help::{join_strings, join_with, strings_view};
use crate::music::QueueItem;
use crate::num::{decimal, push_decimal};
use crate::text::push_str;

verus! {

broadcast use vstd::string::group_string_axioms;

/// The positions on page `page` (counted from 0) of `per` entries, out of `len`.
pub open spec fn page_start(len: int, page: int, per: int) -> int {
    if page * per < len { page * per } else { len }
}

pub open spec fn page_end(len: int, page: int, per: int) -> int {
    if page * per + per < len { page * per + per } else { len }
}

/// How many queue items a page shows.
pub const QUEUE_PER_PAGE: usize = 10;

/// One line of the queue: the item playing, or a later item with its position.
pub open spec fn queue_entry(i: int, item: QueueItem) -> Seq<char> {
    if i == 0 {
        "Now Playing "@ + item.display_spec()
    } else {
        "`#"@ + decimal(i as nat) + "` "@ + item.display_spec()
    }
}

pub open spec fn queue_entries(items: Seq<QueueItem>, from: int, to: int) -> Seq<Seq<char>> {
    Seq::new((to - from) as nat, |j: int| queue_entry(from + j, items[from + j]))
}

/// A page of the queue: its lines, and a note when the queue loops; a note
/// that nothing plays when the page is empty.
pub open spec fn queue_page(items: Seq<QueueItem>, looped: bool, page: int) -> Seq<char> {
    let from = page_start(items.len() as int, page, QUEUE_PER_PAGE as int);
    let to = page_end(items.len() as int, page, QUEUE_PER_PAGE as int);
    if from >= to {
        "(Nothing is playing)"@
    } else {
        join_with(queue_entries(items, from, to), "\n"@)
            + if looped { "\n(The queue will automatically loop)"@ } else { seq![] }
    }
}

/// The text of page `page` (from 0) of the queue.
pub fn queue_page_text(items: &Vec<QueueItem>, looped: bool, page: usize) -> (r: String)
    requires page < 65536,
    ensures r@ == queue_page(items@, looped, page as int),
{
    let per = QUEUE_PER_PAGE;
    let len = items.len();
    let from: usize = if page * per < len { page * per } else { len };
    let to: usize = if from < len && len - from > per { from + per } else { len };
    assert(from == page_start(len as int, page as int, per as int));
    assert(to == page_end(len as int, page as int, per as int));
    if from >= to {
        return String::from_str("(Nothing is playing)");
    }
    let ghost all = queue_entries(items@, from as int, to as int);
    let mut lines: Vec<String> = Vec::new();
    let mut i = from;
    while i < to
        invariant
            from <= i <= to <= items@.len(),
            all == queue_entries(items@, from as int, to as int),
            strings_view(lines@) == all.take(i - from),
        decreases to - i,
    {
        let item = &items[i];
        let mut line = if i == 0 { String::from_str("Now Playing ") } else {
            let mut l = String::from_str("`#");
            push_decimal(&mut l, i as u64);
            push_str(&mut l, "` ");
            l
        };
        let shown = item.to_display();
        push_str(&mut line, shown.as_str());
        let ghost before = strings_view(lines@);
        let ghost lv = line@;
        lines.push(line);
        assert(lv == all[i - from]);
        assert(strings_view(lines@) =~= before.push(lv));
        assert(all.take(i - from + 1) =~= all.take(i - from).push(all[i - from]));
        i = i + 1;
    }
    assert(all.take(to - from) =~= all);
    let mut r = join_strings(&lines, "\n");
    if looped {
        push_str(&mut r, "\n(The queue will automatically loop)");
    }
    r
}

/// How many emojis a page of statistics shows.
pub const EMOJIS_PER_PAGE: usize = 20;

/// The text an emoji is shown by, when the guild has it.
pub open spec fn emoji_shown(emojis: Seq<(u64, String)>, id: u64) -> Option<Seq<char>>
    decreases emojis.len(),
{
    if emojis.len() == 0 {
        None
    } else if emojis[0].0 == id {
        Some(emojis[0].1@)
    } else {
        emoji_shown(emojis.drop_first(), id)
    }
}

/// The counted emojis that the guild has, in order, each with its text and count.
pub open spec fn known_uses(uses: Seq<(u64, usize)>, emojis: Seq<(u64, String)>) -> Seq<(Seq<char>, usize)>
    decreases uses.len(),
{
    if uses.len() == 0 {
        seq![]
    } else {
        let rest = known_uses(uses.drop_last(), emojis);
        match emoji_shown(emojis, uses.last().0) {
            Some(t) => rest.push((t, uses.last().1)),
            None => rest,
        }
    }
}

/// One line of the statistics: the rank, the emoji and how often it was used.
pub open spec fn emoji_entry(i: int, e: (Seq<char>, usize)) -> Seq<char> {
    "`#"@ + decimal((i + 1) as nat) + "` "@ + e.0 + " ("@ + decimal(e.1 as nat) + " times)"@
}

/// A page of the statistics of the guild's emojis, or a note that there are no results.
pub open spec fn emoji_page(uses: Seq<(u64, usize)>, emojis: Seq<(u64, String)>, page: int) -> Seq<char> {
    let known = known_uses(uses, emojis);
    let from = page_start(known.len() as int, page, EMOJIS_PER_PAGE as int);
    let to = page_end(known.len() as int, page, EMOJIS_PER_PAGE as int);
    if from >= to {
        "(No results)"@
    } else {
        join_with(Seq::new((to - from) as nat, |j: int| emoji_entry(from + j, known[from + j])), "\n"@)
    }
}

fn emoji_text_of(emojis: &Vec<(u64, String)>, id: u64) -> (r: Option<&String>)
    ensures
        match emoji_shown(emojis@, id) {
            Some(t) => r matches Some(s) && s@ == t,
            None => r is None,
        },
{
    let mut i: usize = 0;
    assert(emojis@.skip(0) =~= emojis@);
    while i < emojis.len()
        invariant
            i <= emojis@.len(),
            emoji_shown(emojis@, id) == emoji_shown(emojis@.skip(i as int), id),
        decreases emojis.len() - i,
    {
        assert(emojis@.skip(i as int)[0] == emojis@[i as int]);
        assert(emojis@.skip(i as int).drop_first() =~= emojis@.skip(i + 1));
        if emojis[i].0 == id {
            return Some(&emojis[i].1);
        }
        i = i + 1;
    }
    None
}

/// The text of page `page` (from 0) of the statistics: `uses` as counted,
/// most used first, and `emojis` the guild's emojis with the text each is shown by.
pub fn emoji_page_text(uses: &Vec<(u64, usize)>, emojis: &Vec<(u64, String)>, page: usize) -> (r: String)
    requires page < 65536,
    ensures r@ == emoji_page(uses@, emojis@, page as int),
{
    let ghost known = known_uses(uses@, emojis@);
    let mut kept: Vec<(String, usize)> = Vec::new();
    let mut i: usize = 0;
    while i < uses.len()
        invariant
            i <= uses@.len(),
            kept@.map_values(|e: (String, usize)| (e.0@, e.1)) == known_uses(uses@.take(i as int), emojis@),
        decreases uses.len() - i,
    {
        let ghost t = uses@.take(i + 1);
        assert(t.drop_last() =~= uses@.take(i as int));
        let ghost before = kept@.map_values(|e: (String, usize)| (e.0@, e.1));
        match emoji_text_of(emojis, uses[i].0) {
            Some(text) => {
                kept.push((crate::text::copy_string(text), uses[i].1));
                assert(kept@.map_values(|e: (String, usize)| (e.0@, e.1)) =~= before.push((text@, uses@[i as int].1)));
            },
            None => {},
        }
        i = i + 1;
    }
    assert(uses@.take(i as int) =~= uses@);
    let per = EMOJIS_PER_PAGE;
    let len = kept.len();
    let from: usize = if page * per < len { page * per } else { len };
    let to: usize = if from < len && len - from > per { from + per } else { len };
    if from >= to {
        return String::from_str("(No results)");
    }
    let ghost all = Seq::new((to - from) as nat, |j: int| emoji_entry(from + j, known[from + j]));
    let mut lines: Vec<String> = Vec::new();
    let mut k = from;
    while k < to
        invariant
            from <= k <= to <= kept@.len(),
            kept@.map_values(|e: (String, usize)| (e.0@, e.1)) == known,
            all == Seq::new((to - from) as nat, |j: int| emoji_entry(from + j, known[from + j])),
            strings_view(lines@) == all.take(k - from),
        decreases to - k,
    {
        let mut line = String::from_str("`#");
        push_decimal(&mut line, k as u64 + 1);
        push_str(&mut line, "` ");
        push_str(&mut line, kept[k].0.as_str());
        push_str(&mut line, " (");
        push_decimal(&mut line, kept[k].1 as u64);
        push_str(&mut line, " times)");
        let ghost before = strings_view(lines@);
        let ghost lv = line@;
        lines.push(line);
        assert(known[k as int] == (kept@[k as int].0@, kept@[k as int].1));
        assert(lv == all[k - from]);
        assert(strings_view(lines@) =~= before.push(lv));
        assert(all.take(k - from + 1) =~= all.take(k - from).push(all[k - from]));
        k = k + 1;
    }
    assert(all.take(to - from) =~= all);
    join_strings(&lines, "\n")
}

} // verus!
