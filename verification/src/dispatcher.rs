//! Task queues of the Android dispatcher.
//!
//! Foreground tasks wait in a first-in first-out queue until the main thread
//! drains it.  Delayed tasks wait in a queue ordered by due time; each tick
//! takes out, in order, every task that is due.  Background tasks are handed
//! to a thread pool through a channel.  Times are monotonic instants
//! expressed as integer ticks by the caller.

use std::collections::VecDeque;
use std::sync::mpsc::Sender;
use vstd::prelude::*;

verus! {

// ── foreground queue ─────────────────────────────────────────────────────────

/// A first-in first-out queue of tasks for the main thread.
pub struct TaskQueue<T> {
    tasks: VecDeque<T>,
}

impl<T> View for TaskQueue<T> {
    type V = Seq<T>;

    closed spec fn view(&self) -> Seq<T> {
        self.tasks@
    }
}

impl<T> TaskQueue<T> {
    /// An empty queue.
    pub fn new() -> (r: Self)
        ensures
            r@ == Seq::<T>::empty(),
    {
        TaskQueue { tasks: VecDeque::new() }
    }

    /// Appends a task at the back.
    pub fn push(&mut self, task: T)
        ensures
            final(self)@ == old(self)@.push(task),
    {
        self.tasks.push_back(task);
    }

    /// Takes the task at the front, if any.
    pub fn pop(&mut self) -> (r: Option<T>)
        ensures
            old(self)@.len() > 0 ==> r == Some(old(self)@[0]) && final(self)@ == old(self)@.drop_first(),
            old(self)@.len() == 0 ==> r is None && final(self)@ == old(self)@,
    {
        let r = self.tasks.pop_front();
        proof {
            if old(self)@.len() > 0 {
                assert(self@ =~= old(self)@.drop_first());
            }
        }
        r
    }

    /// The number of waiting tasks.
    pub fn len(&self) -> (r: usize)
        ensures
            r == self@.len(),
    {
        self.tasks.len()
    }

    /// Whether no task is waiting.
    pub fn is_empty(&self) -> (r: bool)
        ensures
            r == (self@.len() == 0),
    {
        self.tasks.len() == 0
    }
}

// ── delayed queue ────────────────────────────────────────────────────────────

/// Whether the entries are in non-decreasing order of due time.
pub open spec fn sorted_by_due<T>(s: Seq<(u64, T)>) -> bool {
    forall|i: int, j: int| 0 <= i <= j < s.len() ==> s[i].0 <= s[j].0
}

/// The number of leading entries that are due at `t` (due time at most `t`).
pub open spec fn leading_due<T>(s: Seq<(u64, T)>, t: u64) -> nat
    decreases s.len(),
{
    if s.len() > 0 && s[0].0 <= t {
        1 + leading_due(s.drop_first(), t)
    } else {
        0
    }
}

/// The tasks of a sequence of entries.
pub open spec fn tasks_of<T>(s: Seq<(u64, T)>) -> Seq<T> {
    s.map_values(|e: (u64, T)| e.1)
}

/// In a sorted sequence the entries due at `t` are exactly a prefix.
pub proof fn lemma_leading_due_splits<T>(s: Seq<(u64, T)>, t: u64)
    requires
        sorted_by_due(s),
    ensures
        leading_due(s, t) <= s.len(),
        forall|i: int| 0 <= i < leading_due(s, t) ==> #[trigger] s[i].0 <= t,
        forall|i: int| leading_due(s, t) <= i < s.len() ==> #[trigger] s[i].0 > t,
    decreases s.len(),
{
    if s.len() > 0 && s[0].0 <= t {
        let tail = s.drop_first();
        assert(sorted_by_due(tail)) by {
            assert forall|i: int, j: int| 0 <= i <= j < tail.len() implies tail[i].0 <= tail[j].0 by {
                assert(tail[i] == s[i + 1] && tail[j] == s[j + 1]);
            }
        }
        lemma_leading_due_splits(tail, t);
        assert forall|i: int| 0 <= i < leading_due(s, t) implies #[trigger] s[i].0 <= t by {
            if i > 0 {
                assert(s[i] == tail[i - 1]);
            }
        }
        assert forall|i: int| leading_due(s, t) <= i < s.len() implies #[trigger] s[i].0 > t by {
            assert(s[i] == tail[i - 1]);
        }
    } else if s.len() > 0 {
        assert forall|i: int| 0 <= i < s.len() implies #[trigger] s[i].0 > t by {
            assert(s[0].0 <= s[i].0);
        }
    }
}

/// A prefix of entries all due at `t`, followed by one that is not, is
/// counted exactly by `leading_due`.
proof fn lemma_leading_due_exact<T>(s: Seq<(u64, T)>, t: u64, k: int)
    requires
        0 <= k <= s.len(),
        forall|i: int| 0 <= i < k ==> #[trigger] s[i].0 <= t,
        k < s.len() ==> s[k].0 > t,
    ensures
        leading_due(s, t) == k,
    decreases s.len(),
{
    if k > 0 {
        let tail = s.drop_first();
        assert forall|i: int| 0 <= i < k - 1 implies #[trigger] tail[i].0 <= t by {
            assert(tail[i] == s[i + 1]);
        }
        if k - 1 < tail.len() {
            assert(tail[k - 1] == s[k]);
        }
        lemma_leading_due_exact(tail, t, k - 1);
    }
}

/// Tasks waiting for a due time, kept in non-decreasing order of due time;
/// tasks with equal due times keep the order in which they were scheduled.
pub struct DelayedQueue<T> {
    entries: Vec<(u64, T)>,
}

impl<T> View for DelayedQueue<T> {
    type V = Seq<(u64, T)>;

    closed spec fn view(&self) -> Seq<(u64, T)> {
        self.entries@
    }
}

impl<T> DelayedQueue<T> {
    /// The queue is ordered by due time.
    pub open spec fn wf(&self) -> bool {
        sorted_by_due(self@)
    }

    /// An empty queue.
    pub fn new() -> (r: Self)
        ensures
            r@ == Seq::<(u64, T)>::empty(),
            r.wf(),
    {
        DelayedQueue { entries: Vec::new() }
    }

    /// Schedules `task` for time `due`: it goes after every waiting task due
    /// at or before `due` and before every task due later.
    pub fn schedule(&mut self, due: u64, task: T)
        requires
            old(self).wf(),
        ensures
            final(self).wf(),
            final(self)@ == old(self)@.insert(leading_due(old(self)@, due) as int, (due, task)),
    {
        proof {
            lemma_leading_due_splits(self@, due);
        }
        let mut i: usize = 0;
        while i < self.entries.len() && self.entries[i].0 <= due
            invariant
                i <= self.entries@.len(),
                self.entries@ == old(self)@,
                forall|j: int| 0 <= j < i ==> #[trigger] self.entries@[j].0 <= due,
            decreases self.entries@.len() - i,
        {
            i = i + 1;
        }
        proof {
            lemma_leading_due_exact(old(self)@, due, i as int);
        }
        self.entries.insert(i, (due, task));
        proof {
            let s = old(self)@;
            let n = self@;
            assert forall|a: int, b: int| 0 <= a <= b < n.len() implies n[a].0 <= n[b].0 by {
                if a < i && b < i {
                } else if a < i && b == i {
                } else if a < i && b > i {
                    assert(n[b] == s[b - 1]);
                } else if a == i && b == i {
                } else if a == i {
                    assert(n[b] == s[b - 1]);
                } else {
                    assert(n[a] == s[a - 1] && n[b] == s[b - 1]);
                }
            }
        }
    }

    /// Takes out, in order, every task due at `now`.
    pub fn take_ready(&mut self, now: u64) -> (r: Vec<T>)
        requires
            old(self).wf(),
        ensures
            final(self).wf(),
            r@ == tasks_of(old(self)@.take(leading_due(old(self)@, now) as int)),
            final(self)@ == old(self)@.skip(leading_due(old(self)@, now) as int),
    {
        let ghost k = leading_due(old(self)@, now) as int;
        proof {
            lemma_leading_due_splits(old(self)@, now);
        }
        let mut ready: Vec<T> = Vec::new();
        while self.entries.len() > 0 && self.entries[0].0 <= now
            invariant
                0 <= ready@.len() <= k,
                k <= old(self)@.len(),
                forall|i: int| 0 <= i < k ==> #[trigger] old(self)@[i].0 <= now,
                forall|i: int| k <= i < old(self)@.len() ==> #[trigger] old(self)@[i].0 > now,
                self@ == old(self)@.skip(ready@.len() as int),
                ready@ == tasks_of(old(self)@.take(ready@.len() as int)),
            decreases self.entries@.len(),
        {
            let ghost before = ready@.len() as int;
            assert(self@[0] == old(self)@[before]);
            let entry = self.entries.remove(0);
            ready.push(entry.1);
            proof {
                assert(self@ =~= old(self)@.skip(before + 1));
                assert(tasks_of(old(self)@.take(before + 1)) =~= tasks_of(old(self)@.take(before)).push(entry.1));
            }
        }
        proof {
            if ready@.len() < k {
                assert(self@[0] == old(self)@[ready@.len() as int]);
            }
            let s = self@;
            assert forall|a: int, b: int| 0 <= a <= b < s.len() implies s[a].0 <= s[b].0 by {
                assert(s[a] == old(self)@[a + ready@.len()]);
                assert(s[b] == old(self)@[b + ready@.len()]);
            }
        }
        ready
    }

    /// The number of waiting tasks.
    pub fn len(&self) -> (r: usize)
        ensures
            r == self@.len(),
    {
        self.entries.len()
    }
}

/// A task scheduled for a time after `now` is not taken out at `now`, and it
/// stays queued.
pub proof fn lemma_not_taken_early<T>(s: Seq<(u64, T)>, due: u64, task: T, now: u64)
    requires
        sorted_by_due(s),
        now < due,
    ensures
        ({
            let pos = leading_due(s, due) as int;
            let queued = s.insert(pos, (due, task));
            &&& leading_due(queued, now) <= pos
            &&& queued.skip(leading_due(queued, now) as int).contains((due, task))
        }),
{
    lemma_leading_due_splits(s, due);
    lemma_leading_due_splits(s, now);
    let pos = leading_due(s, due) as int;
    let queued = s.insert(pos, (due, task));
    let k = leading_due(s, now) as int;
    assert(k <= pos) by {
        if k > pos {
            assert(s[pos].0 <= now);
            assert(s[pos].0 > due);
        }
    }
    assert forall|i: int| 0 <= i < k implies #[trigger] queued[i].0 <= now by {
        assert(queued[i] == s[i]);
    }
    if k < queued.len() {
        if k < pos {
            assert(queued[k] == s[k]);
        }
    }
    lemma_leading_due_exact(queued, now, k);
    let rest = queued.skip(k);
    assert(rest[pos - k] == (due, task));
}

// ── background pool ──────────────────────────────────────────────────────────

#[verifier::external_type_specification]
#[verifier::external_body]
#[verifier::reject_recursive_types(T)]
pub struct ExSender<T>(Sender<T>);

/// Calls `std::sync::mpsc::Sender::send`; `true` when the task was handed to
/// the channel.  Nothing is claimed of the result: a send fails exactly when
/// every receiver is gone, which is state outside this value.
#[verifier::external_body]
fn channel_send<T>(sender: &Sender<T>, task: T) -> bool {
    match sender.send(task) {
        Ok(()) => true,
        Err(_) => false,
    }
}

/// The sending side of a fixed-size pool of worker threads.
#[verifier::reject_recursive_types(T)]
pub struct ThreadPool<T> {
    sender: Sender<T>,
}

impl<T> ThreadPool<T> {
    /// A pool whose workers receive from the channel that `sender` feeds.
    pub fn from_sender(sender: Sender<T>) -> (r: Self)
        ensures
            r.sender() == sender,
    {
        ThreadPool { sender }
    }

    /// The channel that feeds the workers.
    pub closed spec fn sender(&self) -> Sender<T> {
        self.sender
    }

    /// Hands a task to the workers.  A pool that is shutting down drops it.
    pub fn dispatch(&self, task: T) {
        let _ = channel_send(&self.sender, task);
    }
}

} // verus!
