//! The rotation of feeds polled by a feed task: the queue of feeds, when the
//! task must be started or woken, and which fetched entries are new.
use vstd::prelude::*;
use std::collections::VecDeque;
use vstd::std_specs::cmp::PartialEqSpec;

verus! {

/// Takes the feed at the front of the queue and moves it to the back,
/// returning a clone of it; `None` when the queue is empty.
pub fn rotate_queue<T: Clone>(queue: &mut VecDeque<T>) -> (r: Option<T>)
    ensures
        old(queue)@.len() == 0 ==> r is None && final(queue)@ == old(queue)@,
        old(queue)@.len() > 0 ==> (r matches Some(v) && cloned(old(queue)@[0], v)
            && final(queue)@ == old(queue)@.drop_first().push(old(queue)@[0])),
{
    if queue.len() == 0 {
        return None;
    }
    let value = queue[0].clone();
    match queue.pop_front() {
        Some(front) => {
            queue.push_back(front);
            Some(value)
        },
        None => None,
    }
}

/// The index of the first element for which `same` holds.
pub open spec fn first_where<T>(s: Seq<T>, same: spec_fn(T) -> bool) -> Option<int>
    decreases s.len(),
{
    if s.len() == 0 {
        None
    } else if same(s[0]) {
        Some(0)
    } else {
        match first_where(s.drop_first(), same) {
            Some(k) => Some(k + 1),
            None => None,
        }
    }
}

proof fn lemma_first_where<T>(s: Seq<T>, same: spec_fn(T) -> bool)
    ensures
        match first_where(s, same) {
            Some(k) => 0 <= k < s.len() && same(s[k]) && forall|j: int| 0 <= j < k ==> !same(#[trigger] s[j]),
            None => forall|j: int| 0 <= j < s.len() ==> !same(#[trigger] s[j]),
        },
    decreases s.len(),
{
    if s.len() > 0 {
        lemma_first_where(s.drop_first(), same);
        assert forall|j: int| 1 <= j < s.len() implies #[trigger] s[j] == s.drop_first()[j - 1] by {}
    }
}

/// Removes the first element equal to `target`, returning it. Where `==` on
/// `T` is not known to follow its specification, some element (or none) is removed.
pub fn remove_by_in_queue<T: PartialEq>(queue: &mut VecDeque<T>, target: &T) -> (r: Option<T>)
    ensures
        T::obeys_eq_spec() ==> match first_where(old(queue)@, |t: T| t.eq_spec(target)) {
            Some(k) => r == Some(old(queue)@[k]) && final(queue)@ == old(queue)@.remove(k),
            None => r is None && final(queue)@ == old(queue)@,
        },
        r is None ==> final(queue)@ == old(queue)@,
        r is Some ==> exists|k: int| 0 <= k < old(queue)@.len() && r == Some(old(queue)@[k])
            && final(queue)@ == old(queue)@.remove(k),
{
    let ghost same = |t: T| t.eq_spec(target);
    proof { lemma_first_where(queue@, same); }
    let mut i: usize = 0;
    while i < queue.len()
        invariant
            queue@ == old(queue)@,
            i <= queue@.len(),
            same == (|t: T| t.eq_spec(target)),
            T::obeys_eq_spec() ==> forall|j: int| 0 <= j < i ==> !same(#[trigger] queue@[j]),
        decreases queue.len() - i,
    {
        if queue[i] == *target {
            proof { lemma_first_where(queue@, same); }
            let ghost k = i as int;
            let r = queue.remove(i);
            assert(r == Some(old(queue)@[k]));
            return r;
        }
        i = i + 1;
    }
    proof { lemma_first_where(queue@, same); }
    None
}

/// What the feed task needs after its queue changed.
#[derive(Debug, Clone, Copy, PartialEq, Eq, Structural)]
pub enum QueueAction {
    /// The queue emptied: wake the task so that it stops.
    Interrupt,
    /// Feeds are waiting and no task runs: start one.
    Spawn,
    /// The running task goes on.
    Continue,
}

pub open spec fn queue_action(empty: bool, running: bool) -> QueueAction {
    if empty {
        QueueAction::Interrupt
    } else if !running {
        QueueAction::Spawn
    } else {
        QueueAction::Continue
    }
}

/// The feeds a task polls in turn, and whether the task runs.
#[derive(Debug)]
pub struct FeedQueue<T> {
    queue: VecDeque<T>,
    running: bool,
}

impl<T> FeedQueue<T> {
    pub closed spec fn items(&self) -> Seq<T> {
        self.queue@
    }

    pub closed spec fn running(&self) -> bool {
        self.running
    }

    pub fn new() -> (r: Self)
        ensures r.items() == Seq::<T>::empty(), !r.running(),
    {
        FeedQueue { queue: VecDeque::new(), running: false }
    }

    pub fn get_queue(&self) -> (r: &VecDeque<T>)
        ensures r@ == self.items(),
    {
        &self.queue
    }

    pub fn is_running(&self) -> (r: bool)
        ensures r == self.running(),
    {
        self.running
    }

    pub fn is_queue_empty(&self) -> (r: bool)
        ensures r == (self.items().len() == 0),
    {
        self.queue.len() == 0
    }

    pub fn queue_len(&self) -> (r: usize)
        ensures r == self.items().len(),
    {
        self.queue.len()
    }

    /// Decides what the task needs once the queue has changed; a task to
    /// start counts as running from then on.
    fn settle(&mut self) -> (r: QueueAction)
        ensures
            r == queue_action(old(self).items().len() == 0, old(self).running()),
            final(self).items() == old(self).items(),
            final(self).running() == (old(self).running() || r == QueueAction::Spawn),
    {
        if self.queue.len() == 0 {
            QueueAction::Interrupt
        } else if !self.running {
            self.running = true;
            QueueAction::Spawn
        } else {
            QueueAction::Continue
        }
    }

    pub fn push_queue(&mut self, identifier: T) -> (r: QueueAction)
        ensures
            final(self).items() == old(self).items().push(identifier),
            r == queue_action(false, old(self).running()),
            final(self).running() == (old(self).running() || r == QueueAction::Spawn),
    {
        self.queue.push_back(identifier);
        self.settle()
    }

    pub fn extend_queue(&mut self, identifiers: Vec<T>) -> (r: QueueAction)
        ensures
            final(self).items() == old(self).items() + identifiers@,
            r == queue_action(final(self).items().len() == 0, old(self).running()),
            final(self).running() == (old(self).running() || r == QueueAction::Spawn),
    {
        let ghost start = self.queue@;
        let mut rest = identifiers;
        let ghost all = rest@;
        let mut taken: usize = 0;
        assert(all.len() == rest.len());
        while rest.len() > 0
            invariant
                all.len() <= usize::MAX,
                taken + rest@.len() == all.len(),
                forall|j: int| 0 <= j < rest@.len() ==> #[trigger] rest@[j] == all[taken + j],
                self.queue@ == start + all.take(taken as int),
                self.running == old(self).running,
            decreases rest@.len(),
        {
            let ghost before = rest@;
            let item = rest.remove(0);
            assert(item == all[taken as int]);
            self.queue.push_back(item);
            assert(all.take(taken + 1) =~= all.take(taken as int).push(all[taken as int]));
            taken = taken + 1;
            assert forall|j: int| 0 <= j < rest@.len() implies #[trigger] rest@[j] == all[taken + j] by {
                assert(rest@[j] == before[j + 1]);
            }
        }
        assert(all.take(taken as int) =~= all);
        self.settle()
    }

    pub fn replace_queue(&mut self, identifiers: Vec<T>) -> (r: QueueAction)
        ensures
            final(self).items() == identifiers@,
            r == queue_action(identifiers@.len() == 0, old(self).running()),
            final(self).running() == (old(self).running() || r == QueueAction::Spawn),
    {
        self.queue.clear();
        let r = self.extend_queue(identifiers);
        assert(Seq::<T>::empty() + identifiers@ =~= identifiers@);
        r
    }

    pub fn clear_queue(&mut self) -> (r: QueueAction)
        ensures
            final(self).items() == Seq::<T>::empty(),
            r == QueueAction::Interrupt,
            final(self).running() == old(self).running(),
    {
        self.queue.clear();
        self.settle()
    }

    /// Removes the first feed equal to `identifier`.
    pub fn remove_queue(&mut self, identifier: &T) -> (r: QueueAction)
        where T: PartialEq,
        ensures
            T::obeys_eq_spec() ==> final(self).items() == match first_where(old(self).items(), |t: T| t.eq_spec(identifier)) {
                Some(k) => old(self).items().remove(k),
                None => old(self).items(),
            },
            final(self).items() == old(self).items()
                || exists|k: int| 0 <= k < old(self).items().len() && final(self).items() == old(self).items().remove(k),
            r == queue_action(final(self).items().len() == 0, old(self).running()),
            final(self).running() == (old(self).running() || r == QueueAction::Spawn),
    {
        let _ = remove_by_in_queue(&mut self.queue, identifier);
        self.settle()
    }

    /// The task takes its next feed: the front one, which moves to the back.
    pub fn rotate(&mut self) -> (r: Option<T>)
        where T: Clone,
        ensures
            old(self).items().len() == 0 ==> r is None && final(self).items() == old(self).items(),
            old(self).items().len() > 0 ==> (r matches Some(v) && cloned(old(self).items()[0], v)
                && final(self).items() == old(self).items().drop_first().push(old(self).items()[0])),
            final(self).running() == old(self).running(),
    {
        rotate_queue(&mut self.queue)
    }

    /// The task has stopped.
    pub fn task_finished(&mut self)
        ensures
            final(self).items() == old(self).items(),
            !final(self).running(),
    {
        self.running = false;
    }
}

/// The queue after the task has taken `n` feeds.
pub open spec fn rotated_n<T>(s: Seq<T>, n: nat) -> Seq<T>
    decreases n,
{
    if n == 0 {
        s
    } else {
        let p = rotated_n(s, (n - 1) as nat);
        if p.len() == 0 { p } else { p.drop_first().push(p[0]) }
    }
}

proof fn lemma_rotated_n<T>(s: Seq<T>, k: nat)
    requires k <= s.len(),
    ensures rotated_n(s, k) == s.skip(k as int) + s.take(k as int),
    decreases k,
{
    if k == 0 {
        assert(s.skip(0) + s.take(0) =~= s);
    } else {
        let j = (k - 1) as nat;
        lemma_rotated_n(s, j);
        let p = s.skip(j as int) + s.take(j as int);
        assert(p.len() == s.len());
        assert(p[0] == s[j as int]);
        assert(p.drop_first().push(p[0]) =~= s.skip(k as int) + s.take(k as int));
    }
}

/// Each feed of the queue is polled once per round: after as many turns as
/// there are feeds, the queue is back in its first order.
pub proof fn law_rotation_cycles<T>(s: Seq<T>)
    ensures rotated_n(s, s.len()) == s,
{
    lemma_rotated_n(s, s.len());
    assert(s.skip(s.len() as int) + s.take(s.len() as int) =~= s);
}

/// Inserts `x` after every entry not later than it.
pub open spec fn ins_by_time<E>(s: Seq<(i64, E)>, x: (i64, E)) -> Seq<(i64, E)>
    decreases s.len(),
{
    if s.len() == 0 {
        seq![x]
    } else if s.last().0 <= x.0 {
        s.push(x)
    } else {
        ins_by_time(s.drop_last(), x).push(s.last())
    }
}

/// The entries ordered by time; entries of one time keep their order.
pub open spec fn sort_by_time<E>(s: Seq<(i64, E)>) -> Seq<(i64, E)>
    decreases s.len(),
{
    if s.len() == 0 { seq![] } else { ins_by_time(sort_by_time(s.drop_last()), s.last()) }
}

/// The entries later than `last_update` that the model keeps, in order.
pub open spec fn newer_kept<E>(s: Seq<(i64, E)>, last_update: i64, keep: spec_fn(E) -> bool) -> Seq<(i64, E)>
    decreases s.len(),
{
    if s.len() == 0 {
        seq![]
    } else {
        let rest = newer_kept(s.drop_last(), last_update, keep);
        if s.last().0 > last_update && keep(s.last().1) { rest.push(s.last()) } else { rest }
    }
}

/// The latest time among the entries.
pub open spec fn latest<E>(s: Seq<(i64, E)>) -> Option<i64>
    decreases s.len(),
{
    if s.len() == 0 {
        None
    } else {
        match latest(s.drop_last()) {
            Some(t) => Some(if s.last().0 > t { s.last().0 } else { t }),
            None => Some(s.last().0),
        }
    }
}

proof fn lemma_ins_by_time_at<E>(s: Seq<(i64, E)>, x: (i64, E), j: int)
    requires
        0 <= j <= s.len(),
        forall|k: int| j <= k < s.len() ==> (#[trigger] s[k]).0 > x.0,
        j > 0 ==> s[j - 1].0 <= x.0,
    ensures
        ins_by_time(s, x) == s.insert(j, x),
    decreases s.len(),
{
    if s.len() == j {
        assert(s.insert(j, x) =~= s.push(x));
    } else {
        let d = s.drop_last();
        assert forall|k: int| j <= k < d.len() implies (#[trigger] d[k]).0 > x.0 by {
            assert(d[k] == s[k]);
        }
        if j > 0 {
            assert(d[j - 1] == s[j - 1]);
        }
        lemma_ins_by_time_at(d, x, j);
        assert(d.insert(j, x).push(s.last()) =~= s.insert(j, x));
    }
}

/// The entries that are new since `last_update` and that the model keeps,
/// ordered by time, and the latest of their times (`None` when there is none).
/// Each entry comes with its time.
pub fn fresh_entries<E>(entries: Vec<(i64, E)>, last_update: i64, keep: impl Fn(&E) -> bool)
    -> (r: (Vec<(i64, E)>, Option<i64>))
    requires
        forall|e: &E| #[trigger] keep.requires((e,)),
        forall|e: &E, b: bool| #[trigger] keep.ensures((e,), b) ==> (b <==> keep.ensures((e,), true)),
    ensures
        r.0@ == sort_by_time(newer_kept(entries@, last_update, |e: E| keep.ensures((&e,), true))),
        r.1 == latest(newer_kept(entries@, last_update, |e: E| keep.ensures((&e,), true))),
{
    let ghost keep_spec = |e: E| keep.ensures((&e,), true);
    let ghost all = entries@;
    let mut rest = entries;
    let mut out: Vec<(i64, E)> = Vec::new();
    let mut newest: Option<i64> = None;
    let mut taken: usize = 0;
    assert(all.len() == rest.len());
    while rest.len() > 0
        invariant
            all.len() <= usize::MAX,
            taken + rest@.len() == all.len(),
            forall|j: int| 0 <= j < rest@.len() ==> #[trigger] rest@[j] == all[taken + j],
            out@ == sort_by_time(newer_kept(all.take(taken as int), last_update, keep_spec)),
            newest == latest(newer_kept(all.take(taken as int), last_update, keep_spec)),
            forall|e: &E| #[trigger] keep.requires((e,)),
            forall|e: &E, b: bool| #[trigger] keep.ensures((e,), b) ==> (b <==> keep.ensures((e,), true)),
            keep_spec == (|e: E| keep.ensures((&e,), true)),
        decreases rest@.len(),
    {
        let ghost before = rest@;
        let item = rest.remove(0);
        assert(item == all[taken as int]);
        let ghost t = all.take(taken + 1);
        assert(t.drop_last() =~= all.take(taken as int));
        assert(t.last() == item);
        if item.0 > last_update && keep(&item.1) {
            let time = item.0;
            newest = match newest {
                Some(n) => Some(if time > n { time } else { n }),
                None => Some(time),
            };
            let mut j = out.len();
            while j > 0 && out[j - 1].0 > time
                invariant
                    j <= out@.len(),
                    forall|k: int| j <= k < out@.len() ==> (#[trigger] out@[k]).0 > time,
                decreases j,
            {
                j = j - 1;
            }
            proof {
                lemma_ins_by_time_at(out@, item, j as int);
                let prev = newer_kept(all.take(taken as int), last_update, keep_spec);
                assert(newer_kept(t, last_update, keep_spec) == prev.push(item));
                assert(prev.push(item).drop_last() =~= prev);
                assert(prev.push(item).last() == item);
            }
            out.insert(j, item);
        }
        taken = taken + 1;
        assert forall|j: int| 0 <= j < rest@.len() implies #[trigger] rest@[j] == all[taken + j] by {
            assert(rest@[j] == before[j + 1]);
        }
    }
    assert(all.take(taken as int) =~= all);
    (out, newest)
}


/// What a feed task does with the entries of one fetch.
#[derive(Debug)]
pub enum FetchOutcome<E> {
    /// No entry is new: nothing is stored or handed on.
    Nothing,
    /// Store `last_update` as the feed's update time, then hand on `entries`.
    Deliver { last_update: i64, entries: Vec<(i64, E)> },
}

/// The decision after a fetch: the entries new since the stored update time
/// (the Unix epoch when none is stored) that the model keeps, ordered by
/// time; when there are any, the task stores the latest of their times and
/// then hands them on, in that order; otherwise it does neither.
pub fn handle_fetch<E>(entries: Vec<(i64, E)>, stored: Option<i64>, keep: impl Fn(&E) -> bool) -> (r: FetchOutcome<E>)
    requires
        forall|e: &E| #[trigger] keep.requires((e,)),
        forall|e: &E, b: bool| #[trigger] keep.ensures((e,), b) ==> (b <==> keep.ensures((e,), true)),
    ensures
        ({
            let since = match stored { Some(t) => t, None => 0 };
            let kept = newer_kept(entries@, since, |e: E| keep.ensures((&e,), true));
            match r {
                FetchOutcome::Nothing => kept.len() == 0,
                FetchOutcome::Deliver { last_update, entries: v } => kept.len() > 0
                    && Some(last_update) == latest(kept) && v@ == sort_by_time(kept),
            }
        }),
{
    let since: i64 = match stored {
        Some(t) => t,
        None => 0,
    };
    let ghost kept = newer_kept(entries@, since, |e: E| keep.ensures((&e,), true));
    let (fresh, newest) = fresh_entries(entries, since, keep);
    proof { lemma_latest_some(kept); }
    match newest {
        Some(t) => FetchOutcome::Deliver { last_update: t, entries: fresh },
        None => FetchOutcome::Nothing,
    }
}

proof fn lemma_latest_some<E>(s: Seq<(i64, E)>)
    ensures latest(s) is Some <==> s.len() > 0,
{
}

} // verus!
