//! The music player's queue: what is playing, what comes next, and how the
//! queue is looped, advanced, trimmed and shuffled.
use vstd::prelude::*;
use std::collections::VecDeque;
use crate::text::{copy_string, push_str};
use crate::youtube::video_url;

verus! {

broadcast use vstd::string::group_string_axioms;

#[derive(Debug, Clone)]
pub struct YouTubeItem {
    pub id: String,
}

#[derive(Debug, Clone)]
pub struct AttachmentItem {
    pub id: u64,
    pub filename: String,
    pub filesize: u32,
    pub url: String,
}

/// Something the player can play.
#[derive(Debug, Clone)]
pub enum QueueItem {
    YouTube(YouTubeItem),
    Attachment(AttachmentItem),
}

/// A queue item by value.
pub enum ItemView {
    YouTube(Seq<char>),
    Attachment { id: u64, filename: Seq<char>, filesize: u32, url: Seq<char> },
}

impl QueueItem {
    pub open spec fn item_view(&self) -> ItemView {
        match self {
            QueueItem::YouTube(y) => ItemView::YouTube(y.id@),
            QueueItem::Attachment(a) => ItemView::Attachment { id: a.id, filename: a.filename@, filesize: a.filesize, url: a.url@ },
        }
    }

    /// How the item is shown: a YouTube link in angle brackets, or a file name in backticks.
    pub open spec fn display_spec(&self) -> Seq<char> {
        match self {
            QueueItem::YouTube(y) => "<"@ + video_url(y.id@) + ">"@,
            QueueItem::Attachment(a) => "`"@ + a.filename@ + "`"@,
        }
    }

    pub fn to_display(&self) -> (r: String)
        ensures r@ == self.display_spec(),
    {
        match self {
            QueueItem::YouTube(y) => {
                let mut s = String::from_str("<");
                let url = crate::youtube::display_video_url(y.id.as_str()).to_url();
                push_str(&mut s, url.as_str());
                push_str(&mut s, ">");
                s
            },
            QueueItem::Attachment(a) => {
                let mut s = String::from_str("`");
                push_str(&mut s, a.filename.as_str());
                push_str(&mut s, "`");
                s
            },
        }
    }

    /// A copy of the item.
    pub fn duplicate(&self) -> (r: QueueItem)
        ensures r.item_view() == self.item_view(),
    {
        match self {
            QueueItem::YouTube(y) => QueueItem::YouTube(YouTubeItem { id: copy_string(&y.id) }),
            QueueItem::Attachment(a) => QueueItem::Attachment(AttachmentItem {
                id: a.id,
                filename: copy_string(&a.filename),
                filesize: a.filesize,
                url: copy_string(&a.url),
            }),
        }
    }
}

pub open spec fn items_view(s: Seq<QueueItem>) -> Seq<ItemView> {
    s.map_values(|i: QueueItem| i.item_view())
}

/// Shuffles the items with the thread's random number generator
/// (`rand::seq::SliceRandom::shuffle`). Which order comes out is chance; it
/// is always a reordering of the same items.
#[verifier::external_body]
fn shuffle_items(items: &mut Vec<QueueItem>)
    ensures final(items)@.to_multiset() == old(items)@.to_multiset(),
{
    rand::seq::SliceRandom::shuffle(items.as_mut_slice(), &mut rand::rng());
}

/// The items of a guild's player. The item at the front is the one playing.
#[derive(Debug)]
pub struct Queue {
    contents: VecDeque<QueueItem>,
    looped: bool,
}

impl Queue {
    pub closed spec fn items(&self) -> Seq<QueueItem> {
        self.contents@
    }

    /// Whether an item that finishes goes back to the end of the queue.
    pub closed spec fn is_looped(&self) -> bool {
        self.looped
    }

    pub fn looped(&self) -> (r: bool)
        ensures r == self.is_looped(),
    {
        self.looped
    }

    pub fn set_looped(&mut self, state: bool)
        ensures final(self).is_looped() == state, final(self).items() == old(self).items(),
    {
        self.looped = state;
    }

    pub fn new() -> (r: Self)
        ensures r.items() == Seq::<QueueItem>::empty(), !r.is_looped(),
    {
        Queue { contents: VecDeque::new(), looped: false }
    }

    pub fn len(&self) -> (r: usize)
        ensures r == self.items().len(),
    {
        self.contents.len()
    }

    pub fn clear(&mut self)
        ensures final(self).items() == Seq::<QueueItem>::empty(), final(self).is_looped() == old(self).is_looped(),
    {
        self.contents.clear();
    }

    /// Drops everything but the item playing.
    pub fn clear_keep_one(&mut self)
        ensures
            final(self).items() == old(self).items().take(if old(self).items().len() > 0 { 1 } else { 0 }),
            final(self).is_looped() == old(self).is_looped(),
    {
        if self.contents.len() > 1 {
            self.contents.truncate(1);
            assert(self.contents@ =~= old(self).contents@.take(1));
        }
        proof {
            if old(self).contents@.len() == 1 {
                assert(old(self).contents@.take(1) =~= old(self).contents@);
            } else if old(self).contents@.len() == 0 {
                assert(old(self).contents@.take(0) =~= old(self).contents@);
            }
        }
    }

    /// Moves to the next item: the one playing leaves the front, and goes to
    /// the back when the queue is looped.
    pub fn advance(&mut self)
        ensures
            final(self).items() == advanced_items(old(self).items(), old(self).is_looped()),
            final(self).is_looped() == old(self).is_looped(),
    {
        if let Some(item) = self.contents.pop_front() {
            if self.looped {
                self.contents.push_back(item);
            }
        }
    }

    /// Adds items at the back, in order.
    pub fn append(&mut self, items: Vec<QueueItem>)
        ensures
            final(self).items() == old(self).items() + items@,
            final(self).is_looped() == old(self).is_looped(),
    {
        let ghost start = self.contents@;
        let ghost all = items@;
        let mut rest = items;
        let mut taken: usize = 0;
        assert(all.len() == rest.len());
        while rest.len() > 0
            invariant
                all.len() <= usize::MAX,
                taken + rest@.len() == all.len(),
                forall|j: int| 0 <= j < rest@.len() ==> #[trigger] rest@[j] == all[taken + j],
                self.contents@ == start + all.take(taken as int),
                self.looped == old(self).looped,
            decreases rest@.len(),
        {
            let ghost before = rest@;
            let item = rest.remove(0);
            assert(item == all[taken as int]);
            self.contents.push_back(item);
            assert(all.take(taken + 1) =~= all.take(taken as int).push(all[taken as int]));
            taken = taken + 1;
            assert forall|j: int| 0 <= j < rest@.len() implies #[trigger] rest@[j] == all[taken + j] by {
                assert(rest@[j] == before[j + 1]);
            }
        }
        assert(all.take(taken as int) =~= all);
    }

    /// Removes the item at a position after the one playing; `None` when there is no such item.
    pub fn remove(&mut self, index: usize) -> (r: Option<QueueItem>)
        requires index >= 1,
        ensures
            index < old(self).items().len() ==> r == Some(old(self).items()[index as int])
                && final(self).items() == old(self).items().remove(index as int),
            index >= old(self).items().len() ==> r is None && final(self).items() == old(self).items(),
            final(self).is_looped() == old(self).is_looped(),
    {
        if index < self.contents.len() {
            self.contents.remove(index)
        } else {
            None
        }
    }

    /// The item playing.
    pub fn get_current(&self) -> (r: Option<&QueueItem>)
        ensures
            self.items().len() > 0 ==> r == Some(&self.items()[0]),
            self.items().len() == 0 ==> r is None,
    {
        if self.contents.len() > 0 { Some(&self.contents[0]) } else { None }
    }

    /// Copies of the items, in order.
    pub fn to_vec(&self) -> (r: Vec<QueueItem>)
        ensures items_view(r@) == items_view(self.items()),
    {
        let mut out: Vec<QueueItem> = Vec::new();
        let mut i: usize = 0;
        while i < self.contents.len()
            invariant
                i <= self.contents@.len(),
                out@.len() == i,
                forall|j: int| 0 <= j < i ==> (#[trigger] out@[j]).item_view() == self.contents@[j].item_view(),
            decreases self.contents.len() - i,
        {
            out.push(self.contents[i].duplicate());
            i = i + 1;
        }
        assert(items_view(out@) =~= items_view(self.items()));
        out
    }

    /// Shuffles every item after the one playing.
    pub fn shuffle(&mut self)
        ensures
            final(self).items().len() == old(self).items().len(),
            old(self).items().len() > 0 ==> final(self).items()[0] == old(self).items()[0]
                && final(self).items().drop_first().to_multiset() == old(self).items().drop_first().to_multiset(),
            final(self).is_looped() == old(self).is_looped(),
    {
        let first = match self.contents.pop_front() {
            Some(f) => f,
            None => { return; },
        };
        let ghost tail = self.contents@;
        let mut rest: Vec<QueueItem> = Vec::new();
        while self.contents.len() > 0
            invariant
                rest@ + self.contents@ == tail,
                self.looped == old(self).looped,
            decreases self.contents@.len(),
        {
            let ghost before = self.contents@;
            match self.contents.pop_front() {
                Some(x) => {
                    rest.push(x);
                    assert(rest@ + self.contents@ =~= tail);
                },
                None => {},
            }
        }
        assert(rest@ =~= tail);
        let ghost unshuffled = rest@;
        shuffle_items(&mut rest);
        proof {
            vstd::seq_lib::to_multiset_len(unshuffled);
            vstd::seq_lib::to_multiset_len(rest@);
        }
        self.contents.push_back(first);
        let ghost shuffled = rest@;
        let mut taken: usize = 0;
        assert(shuffled.len() == rest.len());
        assert(self.contents@ =~= seq![first] + shuffled.take(0));
        while rest.len() > 0
            invariant
                shuffled.len() <= usize::MAX,
                taken + rest@.len() == shuffled.len(),
                forall|j: int| 0 <= j < rest@.len() ==> #[trigger] rest@[j] == shuffled[taken + j],
                self.contents@ == seq![first] + shuffled.take(taken as int),
                self.looped == old(self).looped,
            decreases rest@.len(),
        {
            let ghost before = rest@;
            let item = rest.remove(0);
            assert(item == shuffled[taken as int]);
            self.contents.push_back(item);
            assert(shuffled.take(taken + 1) =~= shuffled.take(taken as int).push(shuffled[taken as int]));
            assert(seq![first] + shuffled.take(taken + 1) =~= (seq![first] + shuffled.take(taken as int)).push(item));
            taken = taken + 1;
            assert forall|j: int| 0 <= j < rest@.len() implies #[trigger] rest@[j] == shuffled[taken + j] by {
                assert(rest@[j] == before[j + 1]);
            }
        }
        assert(shuffled.take(taken as int) =~= shuffled);
        assert((seq![first] + shuffled).drop_first() =~= shuffled);
        assert(old(self).contents@.drop_first() =~= tail);
    }
}

/// The queue after the playing item finishes: it leaves the front, and
/// goes to the back when the queue is looped.
pub open spec fn advanced_items(items: Seq<QueueItem>, looped: bool) -> Seq<QueueItem> {
    if items.len() == 0 {
        items
    } else if looped {
        items.drop_first().push(items[0])
    } else {
        items.drop_first()
    }
}

/// The queue after `n` items have finished.
pub open spec fn advanced_n(items: Seq<QueueItem>, looped: bool, n: nat) -> Seq<QueueItem>
    decreases n,
{
    if n == 0 { items } else { advanced_items(advanced_n(items, looped, (n - 1) as nat), looped) }
}

proof fn lemma_looped_rotation(items: Seq<QueueItem>, k: nat)
    requires k <= items.len(),
    ensures advanced_n(items, true, k) == items.skip(k as int) + items.take(k as int),
    decreases k,
{
    if k == 0 {
        assert(items.skip(0) + items.take(0) =~= items);
    } else {
        let j = (k - 1) as nat;
        lemma_looped_rotation(items, j);
        let prev = items.skip(j as int) + items.take(j as int);
        assert(prev.len() == items.len());
        assert(prev[0] == items[j as int]);
        assert(prev.drop_first().push(prev[0]) =~= items.skip(k as int) + items.take(k as int));
    }
}

/// On a looped queue, once every item has played the queue is back as it was.
pub proof fn law_looped_queue_cycles(items: Seq<QueueItem>)
    ensures advanced_n(items, true, items.len()) == items,
{
    lemma_looped_rotation(items, items.len());
    assert(items.skip(items.len() as int) + items.take(items.len() as int) =~= items);
}

/// On a queue that is not looped, once every item has played the queue is empty.
pub proof fn law_unlooped_queue_drains(items: Seq<QueueItem>)
    ensures advanced_n(items, false, items.len()) == Seq::<QueueItem>::empty(),
{
    lemma_unlooped_drop(items, items.len());
    assert(items.skip(items.len() as int) =~= Seq::<QueueItem>::empty());
}

proof fn lemma_unlooped_drop(items: Seq<QueueItem>, k: nat)
    requires k <= items.len(),
    ensures advanced_n(items, false, k) == items.skip(k as int),
    decreases k,
{
    if k == 0 {
        assert(items.skip(0) =~= items);
    } else {
        lemma_unlooped_drop(items, (k - 1) as nat);
        assert(items.skip(k - 1).drop_first() =~= items.skip(k as int));
    }
}

} // verus!
