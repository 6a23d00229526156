use vstd::prelude::*;

verus! {

/// What a task is, as contracts see it.
pub struct TaskView {
    pub id: Seq<char>,
    pub description: Seq<char>,
    pub completed: bool,
}

/// One to-do item.
pub struct Task {
    pub id: String,
    pub description: String,
    pub completed: bool,
}

impl View for Task {
    type V = TaskView;

    open spec fn view(&self) -> TaskView {
        TaskView { id: self.id@, description: self.description@, completed: self.completed }
    }
}

/// The listing line of a task: `[x] <id> - <description>` when it is
/// completed, `[ ] <id> - <description>` when it is not.
pub open spec fn task_line(t: TaskView) -> Seq<char> {
    let mark = if t.completed { 'x' } else { ' ' };
    seq!['[', mark, ']', ' '] + t.id + seq![' ', '-', ' '] + t.description
}

/// Length of every identifier that a new task receives.
pub const NEW_ID_LEN: usize = 36;

/// Relies on uuid::Uuid::new_v4 and its `Display` impl: a random version-4
/// UUID written in the hyphenated lower-case form, which is 36 characters.
#[verifier::external_body]
pub(crate) fn new_task_id() -> (r: String)
    ensures
        r@.len() == NEW_ID_LEN,
{
    uuid::Uuid::new_v4().to_string()
}

impl Task {
    /// A fresh, not yet completed task with a fresh random identifier.
    pub fn new(description: String) -> (t: Task)
        ensures
            t@.description == description@,
            !t@.completed,
            t@.id.len() == NEW_ID_LEN,
    {
        Task { id: new_task_id(), description, completed: false }
    }

    /// The line that shows the task in a list (see `task_line`).
    pub fn line(&self) -> (r: String)
        ensures
            r@ == task_line(self@),
    {
        let mut r = if self.completed {
            String::from_str("[x] ")
        } else {
            String::from_str("[ ] ")
        };
        r.append(self.id.as_str());
        r.append(" - ");
        r.append(self.description.as_str());
        proof {
            reveal_strlit("[x] ");
            reveal_strlit("[ ] ");
            reveal_strlit(" - ");
            assert(r@ =~= task_line(self@));
        }
        r
    }

    /// A not yet completed task under the given identifier.
    pub fn with_id(id: String, description: String) -> (t: Task)
        ensures
            t@ == (TaskView { id: id@, description: description@, completed: false }),
    {
        Task { id, description, completed: false }
    }
}

} // verus!
