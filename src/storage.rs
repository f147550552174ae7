//! The task collection: tasks in order, each task's id its position.

use vstd::prelude::*;
use crate::task::{Task, TaskView};

verus! {

/// The tasks as plain values.
pub open spec fn views(tasks: Seq<Task>) -> Seq<TaskView> {
    tasks.map_values(|t: Task| t@)
}

/// Each task's id is its position.
pub open spec fn dense(s: Seq<TaskView>) -> bool {
    forall|i: int| 0 <= i < s.len() ==> (#[trigger] s[i]).id == i
}

/// `t` with the id `id`.
pub open spec fn with_id(t: TaskView, id: int) -> TaskView {
    TaskView { id: id as usize, description: t.description, date: t.date, status: t.status, tags: t.tags }
}

/// `s` with each task's id set to its position.
pub open spec fn renumbered(s: Seq<TaskView>) -> Seq<TaskView> {
    Seq::new(s.len(), |i: int| with_id(s[i], i))
}

/// The tasks of `s` whose id lies outside `first..=last`, in order.
pub open spec fn outside(s: Seq<TaskView>, first: usize, last: usize) -> Seq<TaskView>
    decreases s.len(),
{
    if s.len() == 0 {
        s
    } else {
        let rest = outside(s.drop_last(), first, last);
        if first <= s.last().id && s.last().id <= last {
            rest
        } else {
            rest.push(s.last())
        }
    }
}

/// A renumbered collection has each task's id at its position.
pub proof fn lemma_renumbered_dense(s: Seq<TaskView>)
    requires
        s.len() <= usize::MAX + 1,
    ensures
        dense(renumbered(s)),
{
}

pub proof fn lemma_outside_len(s: Seq<TaskView>, first: usize, last: usize)
    ensures
        outside(s, first, last).len() <= s.len(),
    decreases s.len(),
{
    if s.len() > 0 {
        lemma_outside_len(s.drop_last(), first, last);
    }
}

proof fn lemma_outside_one(s: Seq<TaskView>, index: usize)
    requires
        dense(s),
    ensures
        outside(s, index, index).len() == if index < s.len() {
            s.len() - 1
        } else {
            s.len() as int
        },
    decreases s.len(),
{
    if s.len() > 0 {
        assert(dense(s.drop_last())) by {
            assert forall|i: int| 0 <= i < s.drop_last().len() implies (#[trigger] s.drop_last()[i]).id
                == i by {
                assert(s.drop_last()[i] == s[i]);
            }
        }
        lemma_outside_one(s.drop_last(), index);
        assert(s.last().id == s.len() - 1);
    }
}

/// A stored collection comes back as it was: loading renumbers the tasks it
/// reads, and on a collection whose ids are positions (every collection that
/// the manager keeps and stores) that changes nothing.
pub proof fn law_reload_keeps_collection(s: Seq<TaskView>)
    requires
        dense(s),
    ensures
        renumbered(s) == s,
{
    assert(renumbered(s) =~= s);
}

/// The collection of tasks, in id order.
pub struct Storage {
    pub tasks: Vec<Task>,
}

impl View for Storage {
    type V = Seq<TaskView>;

    open spec fn view(&self) -> Seq<TaskView> {
        views(self.tasks@)
    }
}

impl Storage {
    /// Each task's id is its position.
    pub open spec fn wf(&self) -> bool {
        dense(self@)
    }

    /// An empty collection.
    pub fn new() -> (r: Storage)
        ensures
            r@ == Seq::<TaskView>::empty(),
            r.wf(),
    {
        let r = Storage { tasks: Vec::new() };
        assert(r@ =~= Seq::<TaskView>::empty());
        r
    }

    /// Takes what was read back from the store: the tasks read, renumbered,
    /// or, where nothing could be read or parsed (`None`), no tasks at all.
    pub fn load_tasks(&mut self, loaded: Option<Vec<Task>>)
        ensures
            final(self)@ == match loaded {
                Some(v) => renumbered(views(v@)),
                None => Seq::<TaskView>::empty(),
            },
            final(self).wf(),
    {
        match loaded {
            Some(v) => {
                self.tasks = v;
                self.update_tasks();
            },
            None => {
                self.tasks = Vec::new();
                assert(self@ =~= Seq::<TaskView>::empty());
            },
        }
    }

    /// Whether a task has the id `index`.
    pub fn task_exists(&self, index: usize) -> (r: bool)
        ensures
            r == (index < self@.len()),
    {
        index < self.tasks.len()
    }

    /// Sets each task's id to its position.
    pub fn update_tasks(&mut self)
        ensures
            final(self)@ == renumbered(old(self)@),
            final(self).wf(),
    {
        let ghost before = self@;
        let mut i: usize = 0;
        while i < self.tasks.len()
            invariant
                i <= self.tasks.len(),
                self@.len() == before.len(),
                forall|j: int| 0 <= j < i ==> #[trigger] self@[j] == with_id(before[j], j),
                forall|j: int| i <= j < self@.len() ==> #[trigger] self@[j] == before[j],
            decreases self.tasks.len() - i,
        {
            let ghost old_view = self@;
            assert(old_view[i as int] == before[i as int]);
            self.tasks[i].id = i;
            assert(self.tasks@[i as int]@ == with_id(before[i as int], i as int));
            assert(self@ =~= old_view.update(i as int, with_id(before[i as int], i as int)));
            i = i + 1;
        }
        assert(self@ =~= renumbered(before));
    }

    /// Every task, in order, with fields of their own.
    pub fn get_tasks(&self) -> (r: Vec<Task>)
        ensures
            views(r@) == self@,
    {
        let mut r: Vec<Task> = Vec::new();
        let mut i: usize = 0;
        while i < self.tasks.len()
            invariant
                i <= self.tasks.len(),
                r.len() == i,
                views(r@) == self@.subrange(0, i as int),
            decreases self.tasks.len() - i,
        {
            let t = self.tasks[i].duplicate();
            assert(t@ == self@[i as int]);
            r.push(t);
            assert(views(r@) =~= self@.subrange(0, i + 1));
            i = i + 1;
        }
        assert(self@.subrange(0, i as int) =~= self@);
        r
    }

    /// The task with the id `index`, with fields of its own.
    pub fn get_task_at(&self, index: usize) -> (r: Task)
        requires
            index < self@.len(),
        ensures
            r@ == self@[index as int],
    {
        self.tasks[index].duplicate()
    }

    /// Appends `task`.
    pub fn insert_task(&mut self, task: Task)
        ensures
            final(self)@ == old(self)@.push(task@),
    {
        self.tasks.push(task);
        assert(self@ =~= old(self)@.push(task@));
    }

    /// Removes every task whose id lies in `first..=last`, renumbers the rest,
    /// and returns how many were removed.
    pub fn remove_range(&mut self, first: usize, last: usize) -> (r: usize)
        ensures
            final(self)@ == renumbered(outside(old(self)@, first, last)),
            r == old(self)@.len() - final(self)@.len(),
            final(self).wf(),
    {
        let ghost before = self@;
        let mut kept: Vec<Task> = Vec::new();
        let mut i: usize = 0;
        while i < self.tasks.len()
            invariant
                i <= self.tasks.len(),
                self@ == before,
                views(kept@) == renumbered(outside(before.subrange(0, i as int), first, last)),
                kept.len() <= i,
                kept.len() == outside(before.subrange(0, i as int), first, last).len(),
            decreases self.tasks.len() - i,
        {
            let ghost prefix = before.subrange(0, i as int);
            assert(before.subrange(0, i + 1).drop_last() =~= prefix);
            proof {
                lemma_outside_len(prefix, first, last);
            }
            let id = self.tasks[i].id;
            if !(first <= id && id <= last) {
                let mut t = self.tasks[i].duplicate();
                t.id = kept.len();
                assert(t@ == with_id(before[i as int], kept.len() as int));
                assert(outside(before.subrange(0, i + 1), first, last) == outside(prefix, first, last).push(before[i as int]));
                let ghost earlier = views(kept@);
                let ghost rest = outside(prefix, first, last);
                kept.push(t);
                assert(views(kept@) =~= earlier.push(t@));
                assert(renumbered(rest.push(before[i as int])) =~= renumbered(rest).push(
                    with_id(before[i as int], rest.len() as int),
                ));
            } else {
                assert(outside(before.subrange(0, i + 1), first, last) == outside(prefix, first, last));
            }
            i = i + 1;
        }
        assert(before.subrange(0, i as int) =~= before);
        let removed = self.tasks.len() - kept.len();
        self.tasks = kept;
        removed
    }

    /// Removes the task with the id `index`, if there is one, renumbers the
    /// rest, and says whether one was removed.
    pub fn remove_task(&mut self, index: usize) -> (r: bool)
        requires
            old(self).wf(),
        ensures
            r == (index < old(self)@.len()),
            final(self)@ == renumbered(outside(old(self)@, index, index)),
            final(self).wf(),
    {
        proof {
            lemma_outside_one(self@, index);
        }
        let n = self.remove_range(index, index);
        n == 1
    }
}

} // verus!
