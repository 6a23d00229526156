use vstd::prelude::*;
use crate::task::{Task, TaskView, new_task_id, task_line};

verus! {

/// True when no two tasks of `s` share an identifier.
pub open spec fn ids_unique(s: Seq<TaskView>) -> bool {
    forall|i: int, j: int|
        0 <= i < s.len() && 0 <= j < s.len() && i != j ==> #[trigger] s[i].id != #[trigger] s[j].id
}

/// True when some task of `s` has identifier `id`.
pub open spec fn has_id(s: Seq<TaskView>, id: Seq<char>) -> bool {
    exists|i: int| 0 <= i < s.len() && #[trigger] s[i].id == id
}

/// Length of the longest identifier in `s`, or 0 when `s` is empty.
pub open spec fn max_id_len(s: Seq<TaskView>) -> nat
    decreases s.len(),
{
    if s.len() == 0 {
        0
    } else {
        let rest = max_id_len(s.drop_last());
        let last = s.last().id.len();
        if last > rest {
            last
        } else {
            rest
        }
    }
}

/// No identifier in `s` is longer than `max_id_len(s)`.
pub proof fn lemma_id_len_bounded(s: Seq<TaskView>)
    ensures
        forall|k: int| 0 <= k < s.len() ==> #[trigger] s[k].id.len() <= max_id_len(s),
    decreases s.len(),
{
    if s.len() > 0 {
        lemma_id_len_bounded(s.drop_last());
        assert forall|k: int| 0 <= k < s.len() implies #[trigger] s[k].id.len() <= max_id_len(s) by {
            if k < s.len() - 1 {
                assert(s[k] == s.drop_last()[k]);
            }
        }
    }
}

/// Appending a task under an identifier that `s` lacks keeps identifiers unique.
pub proof fn lemma_push_fresh(s: Seq<TaskView>, t: TaskView)
    requires
        ids_unique(s),
        !has_id(s, t.id),
    ensures
        ids_unique(s.push(t)),
{
    let p = s.push(t);
    assert forall|i: int, j: int|
        0 <= i < p.len() && 0 <= j < p.len() && i != j implies #[trigger] p[i].id != #[trigger] p[j].id by {
        if i < s.len() && j < s.len() {
            assert(p[i] == s[i] && p[j] == s[j]);
        } else if i < s.len() {
            assert(p[i] == s[i]);
        } else {
            assert(p[j] == s[j]);
        }
    }
}

/// `t` marked as completed.
pub open spec fn completed(t: TaskView) -> TaskView {
    TaskView { completed: true, ..t }
}

/// `s` with every task whose identifier is `id` marked as completed.
pub open spec fn completion_of(s: Seq<TaskView>, id: Seq<char>) -> Seq<TaskView> {
    s.map_values(|t: TaskView| if t.id == id { completed(t) } else { t })
}

/// `after` is `before` with a new, not yet completed task appended under
/// `id`, an identifier that `before` lacks.
pub open spec fn appended_fresh(
    before: Seq<TaskView>,
    description: Seq<char>,
    id: Seq<char>,
    after: Seq<TaskView>,
) -> bool {
    &&& !has_id(before, id)
    &&& after == before.push(TaskView { id, description, completed: false })
}

/// Why a sequence of tasks cannot form a list.
#[derive(Debug, PartialEq, Eq)]
pub enum FormatError {
    /// Two tasks share an identifier.
    DuplicateId,
}

/// An ordered collection of tasks whose identifiers are unique.
pub struct TodoList {
    tasks: Vec<Task>,
}

impl View for TodoList {
    type V = Seq<TaskView>;

    closed spec fn view(&self) -> Seq<TaskView> {
        self.tasks@.map_values(|t: Task| t@)
    }
}

impl TodoList {
    #[verifier::type_invariant]
    spec fn inv(&self) -> bool {
        ids_unique(self@)
    }

    /// An empty list.
    pub fn new() -> (l: TodoList)
        ensures
            l@ == Seq::<TaskView>::empty(),
    {
        let l = TodoList { tasks: Vec::new() };
        assert(l@ =~= Seq::<TaskView>::empty());
        l
    }

    /// Moves the tasks out, leaving the list empty.
    fn take_tasks(&mut self) -> (tasks: Vec<Task>)
        ensures
            tasks@.map_values(|t: Task| t@) == old(self)@,
            ids_unique(old(self)@),
    {
        proof {
            use_type_invariant(&*self);
        }
        let mut taken = TodoList::new();
        std::mem::swap(self, &mut taken);
        let TodoList { tasks } = taken;
        tasks
    }

    /// Puts `tasks` in place of the (empty) contents.
    fn put_tasks(&mut self, tasks: Vec<Task>)
        requires
            ids_unique(tasks@.map_values(|t: Task| t@)),
        ensures
            final(self)@ == tasks@.map_values(|t: Task| t@),
    {
        *self = TodoList { tasks };
    }

    /// Number of tasks; the identifiers of a list are always unique.
    pub fn len(&self) -> (n: usize)
        ensures
            n == self@.len(),
            ids_unique(self@),
    {
        proof {
            use_type_invariant(self);
        }
        self.tasks.len()
    }

    /// Position of the task with identifier `id`, if any.
    pub fn position_of(&self, id: &str) -> (r: Option<usize>)
        ensures
            match r {
                Some(i) => i < self@.len() && self@[i as int].id == id@,
                None => !has_id(self@, id@),
            },
    {
        let target = String::from_str(id);
        let mut i: usize = 0;
        while i < self.tasks.len()
            invariant
                i <= self.tasks@.len(),
                target@ == id@,
                self@.len() == self.tasks@.len(),
                forall|k: int| 0 <= k < i ==> #[trigger] self@[k].id != id@,
            decreases self.tasks@.len() - i,
        {
            if self.tasks[i].id == target {
                return Some(i);
            }
            i = i + 1;
        }
        None
    }

    /// Appends a not yet completed task under `id`, unless some task already
    /// has that identifier, in which case the list is left as it was.
    pub fn add_task_with_id(&mut self, id: String, description: String) -> (added: bool)
        ensures
            added == !has_id(old(self)@, id@),
            added ==> final(self)@ == old(self)@.push(
                TaskView { id: id@, description: description@, completed: false },
            ),
            !added ==> final(self)@ == old(self)@,
    {
        proof {
            use_type_invariant(&*self);
        }
        match self.position_of(id.as_str()) {
            Some(_) => false,
            None => {
                let task = Task::with_id(id, description);
                let mut tasks = self.take_tasks();
                tasks.push(task);
                proof {
                    lemma_push_fresh(old(self)@, task@);
                    assert(tasks@.map_values(|t: Task| t@) =~= old(self)@.push(task@));
                }
                self.put_tasks(tasks);
                true
            },
        }
    }

    /// Appends a not yet completed task under a fresh random identifier
    /// that no task of the list has, and returns that identifier.
    pub fn add_task(&mut self, description: String) -> (id: String)
        ensures
            appended_fresh(old(self)@, description@, id@, final(self)@),
    {
        proof {
            use_type_invariant(&*self);
        }
        let ghost longest = max_id_len(self@);
        proof {
            lemma_id_len_bounded(self@);
        }
        let mut id = new_task_id();
        loop
            invariant
                self@ == old(self)@,
                ids_unique(self@),
                forall|k: int| 0 <= k < self@.len() ==> #[trigger] self@[k].id.len() <= longest,
            ensures
                !has_id(self@, id@),
            decreases
                if id@.len() <= longest {
                    longest + 1 - id@.len()
                } else {
                    0
                },
        {
            match self.position_of(id.as_str()) {
                None => break,
                Some(i) => {
                    assert(id@.len() == self@[i as int].id.len());
                    let more = new_task_id();
                    id.append(more.as_str());
                },
            }
        }
        let task = Task::with_id(id.clone(), description);
        let mut tasks = self.take_tasks();
        tasks.push(task);
        proof {
            lemma_push_fresh(old(self)@, task@);
            assert(tasks@.map_values(|t: Task| t@) =~= old(self)@.push(task@));
        }
        self.put_tasks(tasks);
        id
    }

    /// Deletes the task whose identifier is `id`; without such a task the
    /// list is left as it was.
    pub fn remove_task(&mut self, id: &str)
        ensures
            !has_id(old(self)@, id@) ==> final(self)@ == old(self)@,
            forall|i: int|
                0 <= i < old(self)@.len() && #[trigger] old(self)@[i].id == id@ ==> final(self)@
                    == old(self)@.remove(i),
            !has_id(final(self)@, id@),
    {
        proof {
            use_type_invariant(&*self);
        }
        match self.position_of(id) {
            None => {},
            Some(i) => {
                let mut tasks = self.take_tasks();
                tasks.remove(i);
                proof {
                    let s = old(self)@;
                    let r = s.remove(i as int);
                    assert(tasks@.map_values(|t: Task| t@) =~= r);
                    assert forall|a: int, b: int|
                        0 <= a < r.len() && 0 <= b < r.len() && a != b implies #[trigger] r[a].id
                        != #[trigger] r[b].id by {
                        let a0 = if a < i { a } else { a + 1 };
                        let b0 = if b < i { b } else { b + 1 };
                        assert(r[a] == s[a0] && r[b] == s[b0]);
                    }
                    assert forall|k: int| 0 <= k < r.len() implies #[trigger] r[k].id != id@ by {
                        let k0 = if k < i { k } else { k + 1 };
                        assert(r[k] == s[k0]);
                    }
                }
                self.put_tasks(tasks);
            },
        }
    }

    /// Marks the task whose identifier is `id` as completed; without such a
    /// task the list is left as it was.
    pub fn mark_task_completed(&mut self, id: &str)
        ensures
            !has_id(old(self)@, id@) ==> final(self)@ == old(self)@,
            final(self)@ == completion_of(old(self)@, id@),
    {
        proof {
            use_type_invariant(&*self);
        }
        match self.position_of(id) {
            None => {
                assert(self@ =~= completion_of(self@, id@));
            },
            Some(i) => {
                let mut tasks = self.take_tasks();
                let t = tasks.remove(i);
                tasks.insert(i, Task { id: t.id, description: t.description, completed: true });
                proof {
                    let s = old(self)@;
                    let u = s.update(i as int, completed(s[i as int]));
                    assert(tasks@.map_values(|t: Task| t@) =~= u);
                    assert(u =~= completion_of(s, id@));
                    assert forall|a: int, b: int|
                        0 <= a < u.len() && 0 <= b < u.len() && a != b implies #[trigger] u[a].id
                        != #[trigger] u[b].id by {
                        assert(u[a].id == s[a].id && u[b].id == s[b].id);
                    }
                }
                self.put_tasks(tasks);
            },
        }
    }

    /// One line per task, in order: `[x] <id> - <description>` for a
    /// completed task, `[ ] <id> - <description>` for another.
    pub fn list_tasks(&self) -> (lines: Vec<String>)
        ensures
            lines@.len() == self@.len(),
            forall|i: int| 0 <= i < self@.len() ==> #[trigger] lines@[i]@ == task_line(self@[i]),
    {
        let mut lines: Vec<String> = Vec::new();
        let mut i: usize = 0;
        while i < self.tasks.len()
            invariant
                i <= self.tasks@.len(),
                self@.len() == self.tasks@.len(),
                lines@.len() == i,
                forall|k: int| 0 <= k < i ==> #[trigger] lines@[k]@ == task_line(self@[k]),
            decreases self.tasks@.len() - i,
        {
            lines.push(self.tasks[i].line());
            i = i + 1;
        }
        lines
    }

    /// A list holding `tasks` in order, or `DuplicateId` when two of them
    /// share an identifier.
    pub fn from_tasks(tasks: Vec<Task>) -> (r: Result<TodoList, FormatError>)
        ensures
            r is Ok <==> ids_unique(tasks@.map_values(|t: Task| t@)),
            r matches Ok(l) ==> l@ == tasks@.map_values(|t: Task| t@),
            r matches Err(e) ==> e == FormatError::DuplicateId,
    {
        let ghost v = tasks@.map_values(|t: Task| t@);
        let mut i: usize = 0;
        while i < tasks.len()
            invariant
                i <= tasks@.len(),
                v == tasks@.map_values(|t: Task| t@),
                ids_unique(v.take(i as int)),
            decreases tasks@.len() - i,
        {
            let mut j: usize = 0;
            while j < i
                invariant
                    i < tasks@.len(),
                    j <= i,
                    v == tasks@.map_values(|t: Task| t@),
                    forall|k: int| 0 <= k < j ==> #[trigger] v[k].id != v[i as int].id,
                decreases i - j,
            {
                if tasks[j].id == tasks[i].id {
                    proof {
                        assert(v[j as int].id == v[i as int].id);
                    }
                    return Err(FormatError::DuplicateId);
                }
                j = j + 1;
            }
            proof {
                let p = v.take(i as int + 1);
                assert forall|a: int, b: int|
                    0 <= a < p.len() && 0 <= b < p.len() && a != b implies #[trigger] p[a].id
                    != #[trigger] p[b].id by {
                    if a < i && b < i {
                        assert(p[a] == v.take(i as int)[a] && p[b] == v.take(i as int)[b]);
                    }
                }
            }
            i = i + 1;
        }
        assert(v.take(tasks@.len() as int) =~= v);
        Ok(TodoList { tasks })
    }

    /// The list read back from storage: empty when nothing was stored,
    /// otherwise the stored tasks in order, unless two share an identifier.
    pub fn load(saved: Option<Vec<Task>>) -> (r: Result<TodoList, FormatError>)
        ensures
            saved is None ==> (r matches Ok(l) && l@ == Seq::<TaskView>::empty()),
            saved matches Some(tasks) ==> {
                &&& (r is Ok <==> ids_unique(tasks@.map_values(|t: Task| t@)))
                &&& (r matches Ok(l) ==> l@ == tasks@.map_values(|t: Task| t@))
                &&& (r matches Err(e) ==> e == FormatError::DuplicateId)
            },
    {
        match saved {
            None => Ok(TodoList::new()),
            Some(tasks) => TodoList::from_tasks(tasks),
        }
    }

    /// The tasks, in order.
    pub fn tasks(&self) -> (tasks: &Vec<Task>)
        ensures
            tasks@.map_values(|t: Task| t@) == self@,
    {
        &self.tasks
    }

    /// The tasks, in order, as a vector; their identifiers are unique.
    pub fn into_tasks(self) -> (tasks: Vec<Task>)
        ensures
            tasks@.map_values(|t: Task| t@) == self@,
            ids_unique(self@),
    {
        proof {
            use_type_invariant(&self);
        }
        let TodoList { tasks } = self;
        tasks
    }
}

/// Two consecutive additions never hand out the same identifier.
pub proof fn lemma_consecutive_adds_distinct(
    s0: Seq<TaskView>,
    d1: Seq<char>,
    id1: Seq<char>,
    s1: Seq<TaskView>,
    d2: Seq<char>,
    id2: Seq<char>,
    s2: Seq<TaskView>,
)
    requires
        appended_fresh(s0, d1, id1, s1),
        appended_fresh(s1, d2, id2, s2),
    ensures
        id1 != id2,
{
    assert(s1[s0.len() as int].id == id1);
}

/// Completing the same identifier a second time changes nothing, and every
/// task under that identifier is completed after either call.
pub proof fn lemma_completion_idempotent(s: Seq<TaskView>, id: Seq<char>)
    ensures
        completion_of(completion_of(s, id), id) == completion_of(s, id),
        forall|i: int|
            0 <= i < s.len() && s[i].id == id ==> (#[trigger] completion_of(s, id)[i]).completed,
{
    assert(completion_of(completion_of(s, id), id) =~= completion_of(s, id));
}

} // verus!
