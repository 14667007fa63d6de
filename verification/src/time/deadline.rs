//! Fixed-capacity queue ordered by deadline.

use vstd::multiset::Multiset;
use vstd::prelude::*;
use vstd::seq_lib::{
    to_multiset_build, to_multiset_contains, to_multiset_len, to_multiset_remove,
    to_multiset_update,
};

verus! {

/// One item of a deadline queue.
#[derive(Debug, PartialEq, Eq)]
pub struct DeadlineEntry<T> {
    pub deadline_ns: u64,
    /// Insertion number, which orders items with the same deadline.
    pub sequence: u64,
    pub value: T,
}

impl<T> DeadlineEntry<T> {
    #[must_use]
    pub fn deadline_ns(&self) -> (deadline: u64)
        ensures
            deadline == self.deadline_ns,
    {
        self.deadline_ns
    }

    #[must_use]
    pub fn into_value(self) -> (value: T)
        ensures
            value == self.value,
    {
        self.value
    }

    #[must_use]
    pub fn value(&self) -> (value: &T)
        ensures
            *value == self.value,
    {
        &self.value
    }
}

/// Queue order: by deadline, then by insertion.
pub open spec fn precedes<T>(a: DeadlineEntry<T>, b: DeadlineEntry<T>) -> bool {
    a.deadline_ns < b.deadline_ns || (a.deadline_ns == b.deadline_ns && a.sequence < b.sequence)
}

/// `entry` is in the queue and nothing there comes before it.
pub open spec fn is_first<T>(items: Multiset<DeadlineEntry<T>>, entry: DeadlineEntry<T>) -> bool {
    &&& items.contains(entry)
    &&& forall|other: DeadlineEntry<T>|
        #![trigger items.contains(other)]
        items.contains(other) ==> !precedes(other, entry)
}

/// Fixed-capacity queue ordered by monotonic deadline.
///
/// The storage is reserved when the queue is made; insertion, expiry and
/// cancellation do not allocate. The view is the multiset of queued items.
#[derive(Debug)]
pub struct DeadlineQueue<T, const N: usize> {
    entries: Vec<DeadlineEntry<T>>,
    next_sequence: u64,
    /// The insertion counter has come round.
    wrapped: bool,
}

/// All items were inserted before number `next`.
pub open spec fn numbered_below<T>(items: Multiset<DeadlineEntry<T>>, next: u64) -> bool {
    forall|entry: DeadlineEntry<T>| #[trigger] items.contains(entry) ==> entry.sequence < next
}

spec fn parent(i: int) -> int {
    (i - 1) / 2
}

/// No item comes before its parent.
spec fn heap<T>(s: Seq<DeadlineEntry<T>>) -> bool {
    forall|i: int| 1 <= i < s.len() ==> !precedes(#[trigger] s[i], s[parent(i)])
}

/// A heap but for the item at `hole`, which may come before its parent.
spec fn heap_above<T>(s: Seq<DeadlineEntry<T>>, hole: int) -> bool {
    &&& forall|i: int|
        1 <= i < s.len() && i != hole ==> !precedes(#[trigger] s[i], s[parent(i)])
    &&& forall|i: int|
        1 <= i < s.len() && parent(i) == hole && hole > 0 ==> !precedes(
            #[trigger] s[i],
            s[parent(hole)],
        )
}

/// A heap but for the item at `hole`, which may come after its children.
spec fn heap_below<T>(s: Seq<DeadlineEntry<T>>, hole: int) -> bool {
    &&& forall|i: int|
        1 <= i < s.len() && parent(i) != hole ==> !precedes(#[trigger] s[i], s[parent(i)])
    &&& forall|i: int|
        1 <= i < s.len() && parent(i) == hole && hole > 0 ==> !precedes(
            #[trigger] s[i],
            s[parent(hole)],
        )
}

/// The item at `i` comes before the one at `first`, if that is one.
spec fn sooner_than<T>(s: Seq<DeadlineEntry<T>>, i: int, first: Option<usize>) -> bool {
    match first {
        Some(at) => precedes(s[i], s[at as int]),
        None => true,
    }
}

proof fn lemma_root_is_first<T>(s: Seq<DeadlineEntry<T>>, i: int)
    requires
        heap(s),
        0 <= i < s.len(),
    ensures
        !precedes(s[i], s[0]),
    decreases i,
{
    if i > 0 {
        lemma_root_is_first(s, parent(i));
    }
}

proof fn lemma_swap_multiset<T>(s: Seq<T>, i: int, j: int)
    requires
        0 <= i < s.len(),
        0 <= j < s.len(),
    ensures
        s.update(i, s[j]).update(j, s[i]).to_multiset() == s.to_multiset(),
{
    let once = s.update(i, s[j]);
    to_multiset_update(s, i, s[j]);
    to_multiset_update(once, j, s[i]);
    to_multiset_contains(s, s[i]);
    to_multiset_contains(s, s[j]);
    assert(once.update(j, s[i]).to_multiset() =~= s.to_multiset());
}

/// Removing an item by putting the last one in its place removes just that item.
proof fn lemma_swap_removed<T>(before: Seq<T>, index: int, after: Seq<T>)
    requires
        0 <= index < before.len(),
        after == before.update(index, before.last()).drop_last(),
    ensures
        after.to_multiset() == before.to_multiset().remove(before[index]),
{
    let n = before.len() as int;
    let replaced = before.update(index, before[n - 1]);
    to_multiset_update(before, index, before[n - 1]);
    to_multiset_remove(replaced, n - 1);
    assert(replaced.remove(n - 1) =~= replaced.drop_last());
    to_multiset_contains(before, before[index]);
    to_multiset_contains(before, before[n - 1]);
    to_multiset_contains(replaced, replaced[n - 1]);
    assert(after.to_multiset() =~= before.to_multiset().remove(before[index]));
}

fn swap_entries<T>(entries: &mut Vec<DeadlineEntry<T>>, i: usize, j: usize)
    requires
        i < j < old(entries)@.len(),
    ensures
        final(entries)@ == old(entries)@.update(i as int, old(entries)@[j as int]).update(
            j as int,
            old(entries)@[i as int],
        ),
        final(entries)@.to_multiset() == old(entries)@.to_multiset(),
{
    let ghost before = entries@;
    proof {
        lemma_swap_multiset(entries@, i as int, j as int);
    }
    let (front, back) = entries.as_mut_slice().split_at_mut(j);
    core::mem::swap(&mut front[i], &mut back[0]);
    assert(entries@ =~= before.update(i as int, before[j as int]).update(
        j as int,
        before[i as int],
    ));
}

impl<T, const N: usize> DeadlineQueue<T, N> {
    /// The queued items.
    pub closed spec fn items(&self) -> Multiset<DeadlineEntry<T>> {
        self.entries@.to_multiset()
    }

    /// The number that the next insertion gets.
    pub closed spec fn next_number(&self) -> u64 {
        self.next_sequence
    }

    /// The insertion counter has come round, so that numbers no longer tell
    /// which of two items is older.
    pub closed spec fn has_wrapped(&self) -> bool {
        self.wrapped
    }

    /// Within capacity, in heap order, and numbered by insertion: until the
    /// counter wraps, every item has a number below the next one.
    pub closed spec fn wf(&self) -> bool {
        &&& self.entries@.len() <= N
        &&& heap(self.entries@)
        &&& self.numbered()
    }

    spec fn numbered(&self) -> bool {
        !self.wrapped ==> numbered_below(self.items(), self.next_sequence)
    }

    /// The queue is within its capacity.
    pub proof fn lemma_bounded(&self)
        requires
            self.wf(),
        ensures
            self.items().len() <= N,
    {
        to_multiset_len(self.entries@);
    }

    /// Until the insertion counter wraps, every queued item has a number below
    /// the next one.
    pub proof fn lemma_numbered(&self)
        requires
            self.wf(),
            !self.has_wrapped(),
        ensures
            numbered_below(self.items(), self.next_number()),
    {
    }

    #[must_use]
    pub fn new() -> (queue: Self)
        ensures
            queue.wf(),
            queue.items() == Multiset::<DeadlineEntry<T>>::empty(),
            queue.next_number() == 0,
            !queue.has_wrapped(),
    {
        let queue = DeadlineQueue {
            entries: Vec::with_capacity(N),
            next_sequence: 0,
            wrapped: false,
        };
        proof {
            to_multiset_len(queue.entries@);
            assert(queue.items().len() == 0);
            assert(queue.items() =~= Multiset::<DeadlineEntry<T>>::empty());
        }
        queue
    }

    #[must_use]
    pub fn len(&self) -> (len: usize)
        ensures
            len == self.items().len(),
    {
        proof {
            to_multiset_len(self.entries@);
        }
        self.entries.len()
    }

    #[must_use]
    pub fn is_empty(&self) -> (empty: bool)
        ensures
            empty == (self.items().len() == 0),
    {
        proof {
            to_multiset_len(self.entries@);
        }
        self.entries.len() == 0
    }

    /// The earliest deadline.
    #[must_use]
    pub fn next_deadline_ns(&self) -> (deadline: Option<u64>)
        requires
            self.wf(),
        ensures
            deadline is None <==> self.items().len() == 0,
            deadline is Some ==> exists|first: DeadlineEntry<T>|
                #![trigger is_first(self.items(), first)]
                is_first(self.items(), first) && deadline == Some(first.deadline_ns),
    {
        proof {
            to_multiset_len(self.entries@);
        }
        if self.entries.len() == 0 {
            None
        } else {
            proof {
                self.lemma_first();
            }
            Some(self.entries[0].deadline_ns)
        }
    }

    proof fn lemma_first(&self)
        requires
            self.wf(),
            self.entries@.len() > 0,
        ensures
            is_first(self.items(), self.entries@[0]),
    {
        let s = self.entries@;
        to_multiset_contains(s, s[0]);
        assert forall|other: DeadlineEntry<T>| #[trigger]
            self.items().contains(other) implies !precedes(other, s[0]) by {
            to_multiset_contains(s, other);
            let i = choose|i: int| 0 <= i < s.len() && s[i] == other;
            lemma_root_is_first(s, i);
        }
    }

    /// Queue an item; the item itself if the queue is full.
    pub fn push(&mut self, deadline_ns: u64, value: T) -> (result: Result<(), T>)
        requires
            old(self).wf(),
        ensures
            final(self).wf(),
            old(self).items().len() < N ==> {
                &&& result is Ok
                &&& final(self).items() == old(self).items().insert(
                    DeadlineEntry { deadline_ns, sequence: old(self).next_number(), value },
                )
                &&& final(self).next_number() == (old(self).next_number() + 1)
                    % 0x1_0000_0000_0000_0000
                &&& final(self).has_wrapped() == (old(self).has_wrapped() || old(
                    self,
                ).next_number() == u64::MAX)
                &&& !old(self).has_wrapped() ==> forall|older: DeadlineEntry<T>| #[trigger]
                    old(self).items().contains(older) && older.deadline_ns <= deadline_ns
                        ==> precedes(
                        older,
                        DeadlineEntry { deadline_ns, sequence: old(self).next_number(), value },
                    )
            },
            old(self).items().len() >= N ==> {
                &&& result == Err::<(), T>(value)
                &&& *final(self) == *old(self)
            },
    {
        proof {
            to_multiset_len(self.entries@);
        }
        if self.entries.len() == N {
            return Err(value);
        }
        let sequence: u64 = self.next_sequence;
        self.next_sequence = self.next_sequence.wrapping_add(1);
        if sequence == u64::MAX {
            self.wrapped = true;
        }
        let ghost before = self.entries@;
        let entry = DeadlineEntry { deadline_ns, sequence, value };
        proof {
            to_multiset_build(before, entry);
        }
        self.entries.push(entry);
        proof {
            let items = before.to_multiset();
            assert(self.items() == items.insert(entry));
            assert forall|other: DeadlineEntry<T>| #[trigger]
                self.items().contains(other) implies items.contains(other) || other == entry by {
                if other != entry {
                    assert(items.insert(entry).count(other) == items.count(other));
                }
            }
        }
        let last: usize = self.entries.len() - 1;
        assert(heap_above(self.entries@, last as int)) by {
            assert forall|i: int| 1 <= i < self.entries@.len() && i != last implies !precedes(
                #[trigger] self.entries@[i],
                self.entries@[parent(i)],
            ) by {
                assert(before[i] == self.entries@[i]);
            }
        }
        self.sift_up(last);
        Ok(())
    }

    /// Remove the first item, if its deadline has passed.
    pub fn pop_expired(&mut self, now_ns: u64) -> (popped: Option<DeadlineEntry<T>>)
        requires
            old(self).wf(),
        ensures
            final(self).wf(),
            final(self).next_number() == old(self).next_number(),
            final(self).has_wrapped() == old(self).has_wrapped(),
            match popped {
                Some(entry) => {
                    &&& is_first(old(self).items(), entry)
                    &&& entry.deadline_ns <= now_ns
                    &&& final(self).items() == old(self).items().remove(entry)
                },
                None => {
                    &&& final(self).items() == old(self).items()
                    &&& forall|entry: DeadlineEntry<T>|
                        #![trigger old(self).items().contains(entry)]
                        old(self).items().contains(entry) ==> entry.deadline_ns > now_ns
                },
            },
    {
        proof {
            to_multiset_len(self.entries@);
        }
        if self.entries.len() == 0 {
            return None;
        }
        proof {
            self.lemma_first();
        }
        if self.entries[0].deadline_ns <= now_ns {
            Some(self.remove_at(0))
        } else {
            None
        }
    }

    /// Remove the first item, in queue order, that `predicate` picks.
    pub fn cancel<F: FnMut(&DeadlineEntry<T>) -> bool>(
        &mut self,
        mut predicate: F,
    ) -> (cancelled: Option<DeadlineEntry<T>>)
        requires
            old(self).wf(),
            forall|entry: &DeadlineEntry<T>| #[trigger]
                old(self).items().contains(*entry) ==> call_requires(predicate, (entry,)),
        ensures
            final(self).wf(),
            final(self).next_number() == old(self).next_number(),
            final(self).has_wrapped() == old(self).has_wrapped(),
            match cancelled {
                Some(entry) => {
                    &&& old(self).items().contains(entry)
                    &&& call_ensures(predicate, (&entry,), true)
                    &&& forall|other: DeadlineEntry<T>| #[trigger]
                        old(self).items().contains(other) && precedes(other, entry)
                            ==> call_ensures(predicate, (&other,), false)
                    &&& final(self).items() == old(self).items().remove(entry)
                },
                None => {
                    &&& final(self).items() == old(self).items()
                    &&& forall|entry: &DeadlineEntry<T>| #[trigger]
                        old(self).items().contains(*entry) ==> call_ensures(
                            predicate,
                            (entry,),
                            false,
                        )
                },
            },
    {
        let ghost given = predicate;
        let mut first: Option<usize> = None;
        let mut index: usize = 0;
        while index < self.entries.len()
            invariant
                *self == *old(self),
                predicate == given,
                index <= self.entries@.len(),
                forall|entry: &DeadlineEntry<T>| #[trigger]
                    self.items().contains(*entry) ==> call_requires(predicate, (entry,)),
                match first {
                    Some(at) => {
                        &&& at < index
                        &&& call_ensures(predicate, (&self.entries@[at as int],), true)
                    },
                    None => true,
                },
                forall|i: int|
                    #![trigger self.entries@[i]]
                    0 <= i < index && sooner_than(self.entries@, i, first) ==> call_ensures(
                        predicate,
                        (&self.entries@[i],),
                        false,
                    ),
            decreases self.entries@.len() - index,
        {
            let sooner = match first {
                Some(at) => self.entry_precedes(index, at),
                None => true,
            };
            assert(sooner == sooner_than(self.entries@, index as int, first));
            if sooner {
                let entry = &self.entries[index];
                proof {
                    to_multiset_contains(self.entries@, *entry);
                    assert(self.items().contains(*entry));
                }
                if predicate(entry) {
                    first = Some(index);
                }
            }
            index = index + 1;
        }
        proof {
            assert forall|other: DeadlineEntry<T>| #[trigger]
                self.items().contains(other) && match first {
                    Some(at) => precedes(other, self.entries@[at as int]),
                    None => true,
                } implies call_ensures(predicate, (&other,), false) by {
                to_multiset_contains(self.entries@, other);
                let i = choose|i: int| 0 <= i < self.entries@.len() && self.entries@[i] == other;
                assert(sooner_than(self.entries@, i, first));
                assert(call_ensures(predicate, (&self.entries@[i],), false));
            }
        }
        match first {
            Some(at) => {
                proof {
                    to_multiset_contains(self.entries@, self.entries@[at as int]);
                }
                Some(self.remove_at(at))
            },
            None => None,
        }
    }

    fn remove_at(&mut self, index: usize) -> (removed: DeadlineEntry<T>)
        requires
            old(self).wf(),
            index < old(self).entries@.len(),
        ensures
            final(self).wf(),
            final(self).next_sequence == old(self).next_sequence,
            final(self).wrapped == old(self).wrapped,
            removed == old(self).entries@[index as int],
            final(self).items() == old(self).items().remove(removed),
    {
        let ghost before = self.entries@;
        let removed = self.entries.swap_remove(index);
        let ghost mid = self.entries@;
        proof {
            lemma_swap_removed(before, index as int, mid);
            assert(self.numbered()) by {
                assert forall|other: DeadlineEntry<T>| #[trigger]
                    self.items().contains(other) implies before.to_multiset().contains(other) by {
                    assert(before.to_multiset().remove(removed).count(other)
                        <= before.to_multiset().count(other));
                }
            }
            assert forall|i: int|
                1 <= i < mid.len() && i != index && parent(i) != index implies !precedes(
                #[trigger] mid[i],
                mid[parent(i)],
            ) by {
                assert(before[i] == mid[i]);
            }
            assert forall|i: int|
                1 <= i < mid.len() && parent(i) == index && index > 0 implies !precedes(
                #[trigger] mid[i],
                mid[parent(index as int)],
            ) by {
                assert(before[i] == mid[i]);
                assert(!precedes(before[i], before[parent(i)]));
                assert(!precedes(before[index as int], before[parent(index as int)]));
            }
        }
        if index < self.entries.len() {
            if index > 0 && self.entry_precedes(index, (index - 1) / 2) {
                proof {
                    assert forall|i: int| 1 <= i < mid.len() && i != index implies !precedes(
                        #[trigger] mid[i],
                        mid[parent(i)],
                    ) by {
                        if parent(i) == index {
                            assert(!precedes(mid[i], mid[parent(index as int)]));
                        }
                    }
                }
                self.sift_up(index);
            } else {
                self.sift_down(index);
            }
        } else {
            assert(heap(mid)) by {
                assert forall|i: int| 1 <= i < mid.len() implies !precedes(
                    #[trigger] mid[i],
                    mid[parent(i)],
                ) by {
                    assert(parent(i) < mid.len());
                }
            }
        }
        removed
    }

    fn entry_precedes(&self, left: usize, right: usize) -> (before: bool)
        requires
            left < self.entries@.len(),
            right < self.entries@.len(),
        ensures
            before == precedes(self.entries@[left as int], self.entries@[right as int]),
    {
        let a = &self.entries[left];
        let b = &self.entries[right];
        a.deadline_ns < b.deadline_ns || (a.deadline_ns == b.deadline_ns && a.sequence
            < b.sequence)
    }

    fn sift_up(&mut self, start: usize)
        requires
            start < old(self).entries@.len() <= N,
            heap_above(old(self).entries@, start as int),
            old(self).numbered(),
        ensures
            final(self).wf(),
            final(self).next_sequence == old(self).next_sequence,
            final(self).wrapped == old(self).wrapped,
            final(self).items() == old(self).items(),
    {
        let mut index: usize = start;
        while index > 0 && self.entry_precedes(index, (index - 1) / 2)
            invariant
                index < self.entries@.len() <= N,
                heap_above(self.entries@, index as int),
                self.next_sequence == old(self).next_sequence,
                self.wrapped == old(self).wrapped,
                self.items() == old(self).items(),
            ensures
                index < self.entries@.len() <= N,
                heap(self.entries@),
                self.next_sequence == old(self).next_sequence,
                self.wrapped == old(self).wrapped,
                self.items() == old(self).items(),
            decreases index,
        {
            let up: usize = (index - 1) / 2;
            let ghost s = self.entries@;
            swap_entries(&mut self.entries, up, index);
            proof {
                let t = self.entries@;
                assert forall|i: int| 1 <= i < t.len() && i != up implies !precedes(
                    #[trigger] t[i],
                    t[parent(i)],
                ) by {
                    if i == index {
                    } else if parent(i) == index {
                        assert(!precedes(s[i], s[parent(index as int)]));
                        assert(t[i] == s[i]);
                    } else if parent(i) == up {
                        assert(!precedes(s[i], s[parent(i)]));
                        assert(t[i] == s[i]);
                    } else {
                        assert(t[i] == s[i]);
                        assert(!precedes(s[i], s[parent(i)]));
                    }
                }
                assert forall|i: int|
                    1 <= i < t.len() && parent(i) == up && up > 0 implies !precedes(
                    #[trigger] t[i],
                    t[parent(up as int)],
                ) by {
                    assert(!precedes(s[up as int], s[parent(up as int)]));
                    if i != index {
                        assert(t[i] == s[i]);
                        assert(!precedes(s[i], s[parent(i)]));
                    }
                }
            }
            index = up;
        }
    }

    fn sift_down(&mut self, start: usize)
        requires
            start < old(self).entries@.len() <= N,
            heap_below(old(self).entries@, start as int),
            old(self).numbered(),
        ensures
            final(self).wf(),
            final(self).next_sequence == old(self).next_sequence,
            final(self).wrapped == old(self).wrapped,
            final(self).items() == old(self).items(),
    {
        let mut index: usize = start;
        let size: usize = self.entries.len();
        while index < size - index - 1
            invariant_except_break
                index < size,
                heap_below(self.entries@, index as int),
            invariant
                size == self.entries@.len(),
                size <= N,
                self.next_sequence == old(self).next_sequence,
                self.wrapped == old(self).wrapped,
                self.items() == old(self).items(),
            ensures
                heap(self.entries@),
            decreases size - index,
        {
            let left: usize = index * 2 + 1;
            let right: usize = left + 1;
            let child: usize = if right < size && self.entry_precedes(right, left) {
                right
            } else {
                left
            };
            if !self.entry_precedes(child, index) {
                proof {
                    let s = self.entries@;
                    assert forall|i: int| 1 <= i < s.len() implies !precedes(
                        #[trigger] s[i],
                        s[parent(i)],
                    ) by {
                        if parent(i) == index {
                            assert(i == left || i == right);
                        }
                    }
                }
                break;
            }
            let ghost s = self.entries@;
            swap_entries(&mut self.entries, index, child);
            proof {
                let t = self.entries@;
                assert forall|i: int| 1 <= i < t.len() && parent(i) != child implies !precedes(
                    #[trigger] t[i],
                    t[parent(i)],
                ) by {
                    if i == child {
                    } else if parent(i) == index {
                        assert(i == left || i == right);
                        assert(t[i] == s[i]);
                    } else if i == index {
                        assert(!precedes(s[child as int], s[parent(index as int)]));
                    } else {
                        assert(t[i] == s[i]);
                        assert(!precedes(s[i], s[parent(i)]));
                    }
                }
                assert forall|i: int|
                    1 <= i < t.len() && parent(i) == child && child > 0 implies !precedes(
                    #[trigger] t[i],
                    t[parent(child as int)],
                ) by {
                    assert(t[i] == s[i]);
                    assert(!precedes(s[i], s[parent(i)]));
                }
            }
            index = child;
        }
    }
}

impl<T, const N: usize> Default for DeadlineQueue<T, N> {
    fn default() -> (queue: Self)
        ensures
            queue.wf(),
            queue.items() == Multiset::<DeadlineEntry<T>>::empty(),
            queue.next_number() == 0,
            !queue.has_wrapped(),
    {
        Self::new()
    }
}

/// Law: items come out in queue order: whatever is first after the first one
/// left does not come before it.
pub proof fn law_pops_in_order<T>(
    items: Multiset<DeadlineEntry<T>>,
    first: DeadlineEntry<T>,
    second: DeadlineEntry<T>,
)
    requires
        is_first(items, first),
        is_first(items.remove(first), second),
    ensures
        !precedes(second, first),
        first.deadline_ns <= second.deadline_ns,
{
    assert(items.contains(second));
}

/// Law: until the insertion counter wraps, an item comes out after all items
/// with the same deadline that were queued before it.
pub proof fn law_ties_keep_insertion_order<T>(
    items: Multiset<DeadlineEntry<T>>,
    next: u64,
    deadline_ns: u64,
    value: T,
)
    requires
        numbered_below(items, next),
        next < u64::MAX,
    ensures
        ({
            let added = DeadlineEntry { deadline_ns, sequence: next, value };
            &&& numbered_below(items.insert(added), (next + 1) as u64)
            &&& forall|older: DeadlineEntry<T>|
                #![trigger items.contains(older)]
                items.contains(older) && older.deadline_ns <= deadline_ns ==> precedes(older, added)
        }),
{
    let added = DeadlineEntry { deadline_ns, sequence: next, value };
    assert forall|entry: DeadlineEntry<T>| #[trigger]
        items.insert(added).contains(entry) implies entry.sequence < next + 1 by {
        if entry != added {
            assert(items.insert(added).count(entry) == items.count(entry));
            assert(items.contains(entry));
        }
    }
}

/// Law: the first item has the earliest deadline of all, and of those with the same
/// deadline the lowest number. The order is strict, and tells any two items with
/// different deadlines or numbers apart.
pub proof fn law_first_is_earliest<T>(
    items: Multiset<DeadlineEntry<T>>,
    first: DeadlineEntry<T>,
    other: DeadlineEntry<T>,
)
    requires
        is_first(items, first),
        items.contains(other),
    ensures
        items.contains(first),
        first.deadline_ns <= other.deadline_ns,
        first.deadline_ns == other.deadline_ns ==> first.sequence <= other.sequence,
        first.deadline_ns < other.deadline_ns ==> precedes(first, other),
        !(precedes(first, other) && precedes(other, first)),
        first.deadline_ns != other.deadline_ns || first.sequence != other.sequence ==> precedes(
            first,
            other,
        ) || precedes(other, first),
{
}

} // verus!
