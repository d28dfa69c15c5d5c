//! The task store: task records keyed by their unique identifier, in order
//! of first insertion.
use vstd::prelude::*;
use crate::types::{copy_string, GenerationTask, TaskView};

verus! {

/// Whether some record of `s` has identifier `id`.
pub open spec fn has_id(s: Seq<TaskView>, id: Seq<char>) -> bool {
    exists|i: int| 0 <= i < s.len() && s[i].id == id
}

/// No two records of `s` share an identifier.
pub open spec fn unique_ids(s: Seq<TaskView>) -> bool {
    forall|i: int, j: int| 0 <= i < j < s.len() ==> s[i].id != s[j].id
}

/// The record of `s` with identifier `id`, if any.
pub open spec fn lookup(s: Seq<TaskView>, id: Seq<char>) -> Option<TaskView> {
    if has_id(s, id) {
        Some(s[choose|i: int| 0 <= i < s.len() && s[i].id == id])
    } else {
        None
    }
}

/// `s` after writing `t`: it replaces the record with the same identifier,
/// or is appended.
pub open spec fn put_spec(s: Seq<TaskView>, t: TaskView) -> Seq<TaskView> {
    if has_id(s, t.id) {
        s.update(choose|i: int| 0 <= i < s.len() && s[i].id == t.id, t)
    } else {
        s.push(t)
    }
}

/// The identifiers of `s`, in order.
pub open spec fn ids_of(s: Seq<TaskView>) -> Seq<Seq<char>> {
    s.map_values(|t: TaskView| t.id)
}

/// With unique identifiers, the record at `i` is what `lookup` finds.
pub proof fn lemma_lookup_at(s: Seq<TaskView>, i: int)
    requires
        unique_ids(s),
        0 <= i < s.len(),
    ensures
        lookup(s, s[i].id) == Some(s[i]),
{
    assert(has_id(s, s[i].id));
    let j = choose|j: int| 0 <= j < s.len() && s[j].id == s[i].id;
    assert(j == i);
}

pub struct TaskStore {
    entries: Vec<GenerationTask>,
}

impl View for TaskStore {
    type V = Seq<TaskView>;

    closed spec fn view(&self) -> Seq<TaskView> {
        self.entries@.map_values(|t: GenerationTask| t@)
    }
}

impl TaskStore {
    pub open spec fn wf(&self) -> bool {
        unique_ids(self@)
    }

    pub fn new() -> (r: Self)
        ensures
            r@ == Seq::<TaskView>::empty(),
            r.wf(),
    {
        let r = TaskStore { entries: Vec::new() };
        assert(r@ =~= Seq::<TaskView>::empty());
        r
    }

    pub fn len(&self) -> (r: usize)
        ensures
            r == self@.len(),
    {
        self.entries.len()
    }

    fn position(&self, id: &String) -> (r: Option<usize>)
        ensures
            match r {
                Some(i) => i < self@.len() && self@[i as int].id == id@,
                None => !has_id(self@, id@),
            },
    {
        let mut i: usize = 0;
        while i < self.entries.len()
            invariant
                0 <= i <= self@.len(),
                self@.len() == self.entries@.len(),
                forall|k: int| 0 <= k < i ==> self@[k].id != id@,
            decreases self.entries@.len() - i,
        {
            if self.entries[i].id == *id {
                return Some(i);
            }
            i = i + 1;
        }
        None
    }

    /// Whether a record has identifier `id`.
    pub fn contains(&self, id: &String) -> (r: bool)
        ensures
            r == has_id(self@, id@),
    {
        self.position(id).is_some()
    }

    /// A copy of the record with identifier `id`, if there is one.
    pub fn get(&self, id: &String) -> (r: Option<GenerationTask>)
        requires
            self.wf(),
        ensures
            match r {
                Some(t) => lookup(self@, id@) == Some(t@),
                None => lookup(self@, id@) is None,
            },
    {
        match self.position(id) {
            Some(i) => {
                proof {
                    lemma_lookup_at(self@, i as int);
                }
                Some(self.entries[i].copy())
            },
            None => None,
        }
    }

    /// Writes `task`, replacing any record with the same identifier.
    pub fn put(&mut self, task: GenerationTask)
        requires
            old(self).wf(),
        ensures
            final(self).wf(),
            final(self)@ == put_spec(old(self)@, task@),
    {
        let ghost t = task@;
        match self.position(&task.id) {
            Some(i) => {
                proof {
                    let j = choose|j: int| 0 <= j < old(self)@.len() && old(self)@[j].id == t.id;
                    assert(j == i);
                }
                self.entries.set(i, task);
                assert(self@ =~= old(self)@.update(i as int, t));
            },
            None => {
                self.entries.push(task);
                assert(self@ =~= old(self)@.push(t));
            },
        }
    }

    /// The identifiers of all records, in order of first insertion.
    pub fn list_ids(&self) -> (r: Vec<String>)
        ensures
            r@.len() == self@.len(),
            forall|i: int| 0 <= i < r@.len() ==> r@[i]@ == self@[i].id,
    {
        let mut out: Vec<String> = Vec::new();
        let mut i: usize = 0;
        while i < self.entries.len()
            invariant
                0 <= i <= self@.len(),
                self@.len() == self.entries@.len(),
                out@.len() == i,
                forall|k: int| 0 <= k < i ==> out@[k]@ == self@[k].id,
            decreases self.entries@.len() - i,
        {
            out.push(copy_string(&self.entries[i].id));
            i = i + 1;
        }
        out
    }

    /// Copies of all records, in order.
    pub fn records(&self) -> (r: Vec<GenerationTask>)
        ensures
            r@.len() == self@.len(),
            forall|i: int| 0 <= i < r@.len() ==> r@[i]@ == self@[i],
    {
        let mut out: Vec<GenerationTask> = Vec::new();
        let mut i: usize = 0;
        while i < self.entries.len()
            invariant
                0 <= i <= self@.len(),
                self@.len() == self.entries@.len(),
                out@.len() == i,
                forall|k: int| 0 <= k < i ==> out@[k]@ == self@[k],
            decreases self.entries@.len() - i,
        {
            out.push(self.entries[i].copy());
            i = i + 1;
        }
        out
    }
}

} // verus!
