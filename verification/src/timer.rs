//! A timer: values handed in with deadlines come back out earliest deadline first.
use vstd::prelude::*;

verus! {

/// Whether `d` is no later than every deadline in `s`.
pub open spec fn earliest_in(s: Seq<(i64, u64)>, d: i64) -> bool {
    forall|i: int| 0 <= i < s.len() ==> d <= (#[trigger] s[i]).0
}

/// Values waiting for their deadlines. A value is held with its deadline as an
/// integer (such as milliseconds since the epoch) and an identifier of the caller's.
#[derive(Debug)]
pub struct TimerQueue {
    deadlines: Vec<(i64, u64)>,
}

impl TimerQueue {
    pub closed spec fn items(&self) -> Seq<(i64, u64)> {
        self.deadlines@
    }

    pub fn new() -> (r: Self)
        ensures r.items() == Seq::<(i64, u64)>::empty(),
    {
        TimerQueue { deadlines: Vec::new() }
    }

    pub fn len(&self) -> (r: usize)
        ensures r == self.items().len(),
    {
        self.deadlines.len()
    }

    pub fn push(&mut self, value: u64, deadline: i64)
        ensures final(self).items() == old(self).items().push((deadline, value)),
    {
        self.deadlines.push((deadline, value));
    }

    fn earliest_index(&self) -> (r: usize)
        requires self.items().len() > 0,
        ensures
            r < self.items().len(),
            earliest_in(self.items(), self.items()[r as int].0),
    {
        let mut best: usize = 0;
        let mut i: usize = 1;
        while i < self.deadlines.len()
            invariant
                0 < self.deadlines@.len(),
                best < i <= self.deadlines@.len(),
                forall|j: int| 0 <= j < i ==> self.deadlines@[best as int].0 <= (#[trigger] self.deadlines@[j]).0,
            decreases self.deadlines.len() - i,
        {
            if self.deadlines[i].0 < self.deadlines[best].0 {
                best = i;
            }
            i = i + 1;
        }
        best
    }

    /// The earliest deadline waiting, if any.
    pub fn next_deadline(&self) -> (r: Option<i64>)
        ensures
            self.items().len() == 0 ==> r is None,
            self.items().len() > 0 ==> (r matches Some(d) && earliest_in(self.items(), d)
                && exists|i: int| 0 <= i < self.items().len() && self.items()[i].0 == d),
    {
        if self.deadlines.len() == 0 {
            None
        } else {
            let k = self.earliest_index();
            Some(self.deadlines[k].0)
        }
    }

    /// Takes out a value of the earliest deadline.
    pub fn pop(&mut self) -> (r: Option<(i64, u64)>)
        ensures
            old(self).items().len() == 0 ==> r is None && final(self).items() == old(self).items(),
            old(self).items().len() > 0 ==> exists|k: int| 0 <= k < old(self).items().len()
                && r == Some(old(self).items()[k])
                && earliest_in(old(self).items(), old(self).items()[k].0)
                && final(self).items() == old(self).items().remove(k),
    {
        if self.deadlines.len() == 0 {
            return None;
        }
        let k = self.earliest_index();
        let item = self.deadlines.remove(k);
        Some(item)
    }

    /// What the receiver does when it wakes at `now`: takes out a value of the
    /// earliest deadline when that deadline has come, else leaves the queue as
    /// it is (and keeps waiting for that deadline or a new value).
    pub fn take_due(&mut self, now: i64) -> (r: Option<u64>)
        ensures
            (old(self).items().len() > 0 && exists|i: int| 0 <= i < old(self).items().len()
                && earliest_in(old(self).items(), old(self).items()[i].0) && old(self).items()[i].0 <= now)
                ==> exists|k: int| 0 <= k < old(self).items().len()
                    && r == Some(old(self).items()[k].1)
                    && earliest_in(old(self).items(), old(self).items()[k].0)
                    && final(self).items() == old(self).items().remove(k),
            r is None ==> final(self).items() == old(self).items(),
            r is None <==> (old(self).items().len() == 0 || forall|i: int| 0 <= i < old(self).items().len()
                ==> now < (#[trigger] old(self).items()[i]).0),
    {
        match self.next_deadline() {
            Some(d) => {
                if d <= now {
                    match self.pop() {
                        Some((_, value)) => Some(value),
                        None => None,
                    }
                } else {
                    None
                }
            },
            None => None,
        }
    }
}

} // verus!
