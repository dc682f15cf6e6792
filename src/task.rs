use vstd::prelude::*;

verus! {

/// Lifecycle state of a task.
#[derive(Clone, Copy, Debug, PartialEq, Eq, Structural)]
pub enum TaskStatus {
    Pending,
    Assigned,
    Completed,
}

/// A unit of work, identified by a unique id and owned by its creator node.
#[derive(Clone, Debug, PartialEq, Eq)]
pub struct Task {
    pub id: String,
    pub description: String,
    pub assigned_node: Option<String>,
    pub status: TaskStatus,
    pub creator_node: String,
}

/// The mathematical value of a task: its strings as character sequences.
pub struct TaskView {
    pub id: Seq<char>,
    pub description: Seq<char>,
    pub assigned_node: Option<Seq<char>>,
    pub status: TaskStatus,
    pub creator_node: Seq<char>,
}

pub open spec fn node_view(n: Option<String>) -> Option<Seq<char>> {
    match n {
        Some(s) => Some(s@),
        None => None,
    }
}

impl View for Task {
    type V = TaskView;

    open spec fn view(&self) -> TaskView {
        TaskView {
            id: self.id@,
            description: self.description@,
            assigned_node: node_view(self.assigned_node),
            status: self.status,
            creator_node: self.creator_node@,
        }
    }
}

impl Task {
    /// The same task, with every string cloned.
    pub fn snapshot(&self) -> (r: Task)
        ensures
            r@ == self@,
    {
        let assigned_node = match &self.assigned_node {
            Some(n) => Some(n.clone()),
            None => None,
        };
        Task {
            id: self.id.clone(),
            description: self.description.clone(),
            assigned_node,
            status: self.status,
            creator_node: self.creator_node.clone(),
        }
    }
}

} // verus!
