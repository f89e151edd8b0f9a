//! The queue of admitted tasks, kept in the order of service.

use vstd::prelude::*;
use crate::task::{Task, TaskModel};

verus! {

/// The models of a sequence of tasks, in order.
pub open spec fn models_of(tasks: Seq<Task>) -> Seq<TaskModel> {
    tasks.map_values(|t: Task| t@)
}

/// Whether no task stands behind one with a smaller score.
pub open spec fn is_ordered(q: Seq<TaskModel>) -> bool {
    forall|i: int, j: int| 0 <= i < j < q.len() ==> q[i].score() >= q[j].score()
}

/// The number of leading tasks of `q` whose score is at least that of `t`:
/// the place at which `t` enters, behind every task that is served no later.
pub open spec fn entry_position(q: Seq<TaskModel>, t: TaskModel) -> int
    decreases q.len(),
{
    if q.len() == 0 || q[0].score() < t.score() {
        0
    } else {
        1 + entry_position(q.skip(1), t)
    }
}

/// The queue that results from admitting `t` to `q`.
pub open spec fn with_task(q: Seq<TaskModel>, t: TaskModel) -> Seq<TaskModel> {
    q.insert(entry_position(q, t), t)
}

/// The index of the first task of `q` with the given id, or the length of
/// `q` where there is none.
pub open spec fn position_of_id(q: Seq<TaskModel>, id: u32) -> int
    decreases q.len(),
{
    if q.len() == 0 || q[0].id == id {
        0
    } else {
        1 + position_of_id(q.skip(1), id)
    }
}

/// Whether some task of `q` has the given id.
pub open spec fn holds_id(q: Seq<TaskModel>, id: u32) -> bool {
    exists|i: int| 0 <= i < q.len() && (#[trigger] q[i]).id == id
}

/// The entry position splits an ordered queue into the tasks served no
/// later than `t` and those served after it.
pub proof fn lemma_entry_position(q: Seq<TaskModel>, t: TaskModel)
    ensures
        0 <= entry_position(q, t) <= q.len(),
        forall|i: int| 0 <= i < entry_position(q, t) ==> (#[trigger] q[i]).score() >= t.score(),
        entry_position(q, t) < q.len() ==> q[entry_position(q, t)].score() < t.score(),
        is_ordered(q) ==> forall|i: int|
            entry_position(q, t) <= i < q.len() ==> (#[trigger] q[i]).score() < t.score(),
    decreases q.len(),
{
    if q.len() == 0 || q[0].score() < t.score() {
    } else {
        let rest = q.skip(1);
        lemma_entry_position(rest, t);
        let p = entry_position(rest, t);
        assert forall|i: int| 0 <= i < p + 1 implies (#[trigger] q[i]).score() >= t.score() by {
            if i > 0 {
                assert(q[i] == rest[i - 1]);
            }
        }
        if p < rest.len() {
            assert(q[p + 1] == rest[p]);
        }
    }
}

/// Any index that splits an ordered queue in that way is the entry position.
pub proof fn lemma_entry_position_unique(q: Seq<TaskModel>, t: TaskModel, p: int)
    requires
        0 <= p <= q.len(),
        forall|i: int| 0 <= i < p ==> (#[trigger] q[i]).score() >= t.score(),
        p < q.len() ==> q[p].score() < t.score(),
    ensures
        entry_position(q, t) == p,
{
    lemma_entry_position(q, t);
    let e = entry_position(q, t);
    if e < p {
        assert(q[e].score() >= t.score());
    } else if e > p {
        assert(q[p].score() >= t.score());
    }
}

/// Admitting a task keeps the queue ordered.
pub proof fn lemma_with_task_ordered(q: Seq<TaskModel>, t: TaskModel)
    requires
        is_ordered(q),
    ensures
        is_ordered(with_task(q, t)),
        with_task(q, t).len() == q.len() + 1,
{
    lemma_entry_position(q, t);
    let p = entry_position(q, t);
    let r = with_task(q, t);
    assert forall|i: int, j: int| 0 <= i < j < r.len() implies r[i].score() >= r[j].score() by {
        if j < p {
            assert(r[i] == q[i] && r[j] == q[j]);
        } else if j == p {
            assert(r[i] == q[i]);
        } else if i < p {
            assert(r[i] == q[i] && r[j] == q[j - 1]);
        } else if i == p {
            assert(r[j] == q[j - 1]);
        } else {
            assert(r[i] == q[i - 1] && r[j] == q[j - 1]);
        }
    }
}

/// The position of an id lies within the queue exactly when the id occurs,
/// and it is the first place at which it does.
pub proof fn lemma_position_of_id(q: Seq<TaskModel>, id: u32)
    ensures
        0 <= position_of_id(q, id) <= q.len(),
        position_of_id(q, id) < q.len() <==> holds_id(q, id),
        position_of_id(q, id) < q.len() ==> q[position_of_id(q, id)].id == id,
        forall|i: int| 0 <= i < position_of_id(q, id) ==> (#[trigger] q[i]).id != id,
    decreases q.len(),
{
    if q.len() == 0 {
    } else if q[0].id == id {
        assert(q[0].id == id);
    } else {
        let rest = q.skip(1);
        lemma_position_of_id(rest, id);
        let p = position_of_id(rest, id);
        assert forall|i: int| 0 <= i < p + 1 implies (#[trigger] q[i]).id != id by {
            if i > 0 {
                assert(q[i] == rest[i - 1]);
            }
        }
        if p < rest.len() {
            assert(q[p + 1] == rest[p]);
            assert(q[p + 1].id == id);
        }
        if holds_id(q, id) {
            let k = choose|k: int| 0 <= k < q.len() && (#[trigger] q[k]).id == id;
            assert(rest[k - 1] == q[k]);
            assert(rest[k - 1].id == id);
        }
    }
}

/// The tasks that were admitted and not yet taken out, in the order in
/// which they will be served.
pub struct TaskQueue {
    tasks: Vec<Task>,
}

impl View for TaskQueue {
    type V = Seq<TaskModel>;

    closed spec fn view(&self) -> Seq<TaskModel> {
        models_of(self.tasks@)
    }
}

impl TaskQueue {
    /// The queue's invariant: it is ordered by descending score.
    pub open spec fn wf(&self) -> bool {
        is_ordered(self@)
    }

    /// Makes an empty queue.
    pub fn new() -> (queue: TaskQueue)
        ensures
            queue.wf(),
            queue@ == Seq::<TaskModel>::empty(),
    {
        let queue = TaskQueue { tasks: Vec::new() };
        assert(queue@ =~= Seq::<TaskModel>::empty());
        queue
    }

    /// The number of waiting tasks.
    pub fn len(&self) -> (n: usize)
        ensures
            n == self@.len(),
    {
        self.tasks.len()
    }

    /// Tells whether no task is waiting.
    pub fn is_empty(&self) -> (empty: bool)
        ensures
            empty == (self@.len() == 0),
    {
        self.tasks.len() == 0
    }

    /// The task that will be served next, if any.
    pub fn peek(&self) -> (next: Option<&Task>)
        ensures
            next is Some <==> self@.len() > 0,
            next is Some ==> next.unwrap()@ == self@[0],
    {
        if self.tasks.len() == 0 {
            None
        } else {
            Some(&self.tasks[0])
        }
    }

    /// Tells whether a task with the given id is waiting.
    pub fn contains_id(&self, id: u32) -> (found: bool)
        ensures
            found == holds_id(self@, id),
    {
        let mut i: usize = 0;
        while i < self.tasks.len()
            invariant
                i <= self.tasks.len(),
                forall|k: int| 0 <= k < i ==> (#[trigger] self@[k]).id != id,
            decreases self.tasks.len() - i,
        {
            if self.tasks[i].id == id {
                assert(self@[i as int].id == id);
                return true;
            }
            i += 1;
        }
        false
    }

    /// The number of waiting tasks that are served no later than `task`
    /// would be: the place at which it would enter.
    pub fn position_for(&self, task: &Task) -> (place: usize)
        requires
            self.wf(),
        ensures
            place == entry_position(self@, task@),
            place <= self@.len(),
    {
        let score = task.score();
        let mut i: usize = 0;
        while i < self.tasks.len() && self.tasks[i].score() >= score
            invariant
                i <= self.tasks.len(),
                score as int == task@.score(),
                forall|k: int| 0 <= k < i ==> (#[trigger] self@[k]).score() >= task@.score(),
            decreases self.tasks.len() - i,
        {
            i += 1;
        }
        proof {
            if i < self.tasks.len() {
                assert(self@[i as int].score() < task@.score());
            }
            lemma_entry_position_unique(self@, task@, i as int);
        }
        i
    }

    /// Admits a task: it enters behind every waiting task that is served no
    /// later than it, so that equal scores are served in order of arrival.
    pub fn insert(&mut self, task: Task)
        requires
            old(self).wf(),
        ensures
            final(self).wf(),
            final(self)@ == with_task(old(self)@, task@),
    {
        let place = self.position_for(&task);
        proof {
            lemma_with_task_ordered(self@, task@);
        }
        self.tasks.insert(place, task);
        assert(self@ =~= with_task(old(self)@, task@));
    }

    /// Takes out the task that is served next, if any.
    pub fn pop_max(&mut self) -> (next: Option<Task>)
        requires
            old(self).wf(),
        ensures
            final(self).wf(),
            match next {
                Some(task) => old(self)@.len() > 0 && task@ == old(self)@[0] && final(self)@
                    == old(self)@.skip(1),
                None => old(self)@.len() == 0 && final(self)@ == old(self)@,
            },
    {
        if self.tasks.len() == 0 {
            None
        } else {
            let task = self.tasks.remove(0);
            assert(self@ =~= old(self)@.skip(1));
            assert forall|i: int, j: int| 0 <= i < j < self@.len() implies self@[i].score()
                >= self@[j].score() by {
                assert(self@[i] == old(self)@[i + 1] && self@[j] == old(self)@[j + 1]);
            }
            Some(task)
        }
    }

    /// Takes out the first waiting task with the given id, if there is one.
    pub fn remove_id(&mut self, id: u32) -> (taken: Option<Task>)
        requires
            old(self).wf(),
        ensures
            final(self).wf(),
            match taken {
                Some(task) => holds_id(old(self)@, id) && task@ == old(self)@[position_of_id(
                    old(self)@,
                    id,
                )] && final(self)@ == old(self)@.remove(position_of_id(old(self)@, id)),
                None => !holds_id(old(self)@, id) && final(self)@ == old(self)@,
            },
    {
        proof {
            lemma_position_of_id(self@, id);
        }
        let mut i: usize = 0;
        while i < self.tasks.len() && self.tasks[i].id != id
            invariant
                i <= self.tasks.len(),
                *self == *old(self),
                forall|k: int| 0 <= k < i ==> (#[trigger] self@[k]).id != id,
            decreases self.tasks.len() - i,
        {
            i += 1;
        }
        if i < self.tasks.len() {
            assert(self@[i as int].id == id);
            assert(position_of_id(self@, id) == i) by {
                let p = position_of_id(self@, id);
                if p < i {
                    assert(self@[p].id != id);
                }
            }
            let task = self.tasks.remove(i);
            assert(self@ =~= old(self)@.remove(i as int));
            assert forall|a: int, b: int| 0 <= a < b < self@.len() implies self@[a].score()
                >= self@[b].score() by {
                let a0 = if a < i { a } else { a + 1 };
                let b0 = if b < i { b } else { b + 1 };
                assert(self@[a] == old(self)@[a0] && self@[b] == old(self)@[b0]);
            }
            Some(task)
        } else {
            assert(!holds_id(self@, id));
            None
        }
    }
}

} // verus!
