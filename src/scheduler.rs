use vstd::prelude::*;

use crate::table::{holds_id, lemma_longest_id, lemma_table_at, lemma_table_push, lemma_table_update, longest_id, table, unique_ids};
use crate::task::{Task, TaskStatus, TaskView};

verus! {

/// A new task as `create_task` stores it.
pub open spec fn fresh_task(id: Seq<char>, description: Seq<char>, creator: Seq<char>) -> TaskView {
    TaskView {
        id,
        description,
        assigned_node: None,
        status: TaskStatus::Pending,
        creator_node: creator,
    }
}

/// The task as speculatively handed to `node`.
pub open spec fn assigned_to(t: TaskView, node: Seq<char>) -> TaskView {
    TaskView { assigned_node: Some(node), status: TaskStatus::Assigned, ..t }
}

/// The task after a failed hand-off has been undone.
pub open spec fn reverted(t: TaskView) -> TaskView {
    TaskView { assigned_node: None, status: TaskStatus::Pending, ..t }
}

/// The task marked completed, all else kept.
pub open spec fn marked_completed(t: TaskView) -> TaskView {
    TaskView { status: TaskStatus::Completed, ..t }
}

/// What a lookup of `id` in the table gives.
pub open spec fn lookup(m: Map<Seq<char>, TaskView>, id: Seq<char>) -> Option<TaskView> {
    if m.contains_key(id) {
        Some(m[id])
    } else {
        None
    }
}

pub open spec fn task_opt_view(t: Option<Task>) -> Option<TaskView> {
    match t {
        Some(t) => Some(t@),
        None => None,
    }
}

/// `post` is `pre` with a new pending task under the fresh id `id`.
pub open spec fn created(
    pre: Map<Seq<char>, TaskView>,
    description: Seq<char>,
    creator: Seq<char>,
    id: Seq<char>,
    post: Map<Seq<char>, TaskView>,
) -> bool {
    &&& !pre.contains_key(id)
    &&& post == pre.insert(id, fresh_task(id, description, creator))
}

/// The local pre-commit of a delegation of `id` to `node`, and the task to send.
/// A completed task is never delegated: completion is final.
pub open spec fn delegation_begun(
    pre: Map<Seq<char>, TaskView>,
    id: Seq<char>,
    node: Seq<char>,
    post: Map<Seq<char>, TaskView>,
    sent: Option<TaskView>,
) -> bool {
    if pre.contains_key(id) && pre[id].status != TaskStatus::Completed {
        &&& post == pre.insert(id, assigned_to(pre[id], node))
        &&& sent == Some(assigned_to(pre[id], node))
    } else {
        &&& post == pre
        &&& sent is None
    }
}

/// The end of a delegation of `id`: kept when acknowledged, undone otherwise;
/// a completed task is left as it is.
pub open spec fn delegation_finished(
    pre: Map<Seq<char>, TaskView>,
    id: Seq<char>,
    acknowledged: bool,
    post: Map<Seq<char>, TaskView>,
    r: bool,
) -> bool {
    &&& r == (acknowledged && pre.contains_key(id))
    &&& post == if !acknowledged && pre.contains_key(id) && pre[id].status
        != TaskStatus::Completed {
        pre.insert(id, reverted(pre[id]))
    } else {
        pre
    }
}

/// `post` is `pre` with the task `id`, if held, marked completed.
pub open spec fn completed(
    pre: Map<Seq<char>, TaskView>,
    id: Seq<char>,
    post: Map<Seq<char>, TaskView>,
) -> bool {
    post == if pre.contains_key(id) {
        pre.insert(id, marked_completed(pre[id]))
    } else {
        pre
    }
}

/// Relies on uuid::Uuid::new_v4 and the Display of Uuid: a random version-4
/// UUID written in hyphenated form, 36 characters.
#[verifier::external_body]
fn new_uuid_string() -> (r: String)
    ensures
        r@.len() == 36,
{
    uuid::Uuid::new_v4().to_string()
}

/// The tasks one node holds, keyed by id, with the node's own identifier.
pub struct TaskSchedulerState {
    tasks: Vec<Task>,
    nodes: Vec<String>,
    our_node: Option<String>,
}

impl View for TaskSchedulerState {
    type V = Map<Seq<char>, TaskView>;

    closed spec fn view(&self) -> Map<Seq<char>, TaskView> {
        table(self.task_seq())
    }
}

impl Default for TaskSchedulerState {
    /// An empty registry that does not yet know its own node.
    fn default() -> (r: Self)
        ensures
            r.wf(),
            r@ == Map::<Seq<char>, TaskView>::empty(),
            r.own_node() == "unknown.node.id"@,
    {
        let r = TaskSchedulerState { tasks: Vec::new(), nodes: Vec::new(), our_node: None };
        assert(r@ =~= Map::<Seq<char>, TaskView>::empty());
        r
    }
}

impl TaskSchedulerState {
    pub closed spec fn task_seq(&self) -> Seq<TaskView> {
        self.tasks@.map_values(|t: Task| t@)
    }

    /// Task ids are unique.
    pub closed spec fn wf(&self) -> bool {
        unique_ids(self.task_seq())
    }

    /// The node recorded as creator of the tasks made here.
    pub closed spec fn own_node(&self) -> Seq<char> {
        match self.our_node {
            Some(n) => n@,
            None => "unknown.node.id"@,
        }
    }

    /// Empties the registry and records `our_node` as this node's identifier.
    pub fn initialize(&mut self, our_node: String)
        ensures
            final(self).wf(),
            final(self)@ == Map::<Seq<char>, TaskView>::empty(),
            final(self).own_node() == our_node@,
    {
        self.tasks = Vec::new();
        self.nodes = Vec::new();
        self.our_node = Some(our_node);
        assert(self@ =~= Map::<Seq<char>, TaskView>::empty());
    }

    fn find_index(&self, id: &String) -> (r: Option<usize>)
        ensures
            match r {
                Some(i) => i < self.tasks@.len() && self.task_seq()[i as int].id == id@,
                None => !holds_id(self.task_seq(), id@),
            },
    {
        let mut i: usize = 0;
        while i < self.tasks.len()
            invariant
                i <= self.tasks@.len(),
                forall|j: int| 0 <= j < i ==> self.task_seq()[j].id != id@,
            decreases self.tasks@.len() - i,
        {
            if self.tasks[i].id == *id {
                return Some(i);
            }
            i += 1;
        }
        None
    }

    /// An id that no task held here has, made from the drawn id `drawn`:
    /// `drawn` itself when it is free, else `drawn` followed by as many dashes
    /// as it takes to make it free.
    pub fn fresh_id_from(&self, drawn: String) -> (r: String)
        requires
            self.wf(),
        ensures
            !self@.contains_key(r@),
            !self@.contains_key(drawn@) ==> r@ == drawn@,
            r@.len() >= drawn@.len(),
            r@.subrange(0, drawn@.len() as int) == drawn@,
            forall|i: int| drawn@.len() <= i < r@.len() ==> r@[i] == '-',
    {
        let mut id = drawn;
        let ghost bound = longest_id(self.task_seq());
        proof {
            assert(id@.subrange(0, drawn@.len() as int) =~= drawn@);
        }
        loop
            invariant
                self.wf(),
                bound == longest_id(self.task_seq()),
                id@.len() >= drawn@.len(),
                id@.subrange(0, drawn@.len() as int) == drawn@,
                forall|i: int| drawn@.len() <= i < id@.len() ==> id@[i] == '-',
                id@.len() > drawn@.len() ==> self@.contains_key(drawn@),
            decreases bound + 1 - id@.len(),
        {
            match self.find_index(&id) {
                None => {
                    return id;
                },
                Some(i) => {
                    proof {
                        lemma_longest_id(self.task_seq(), i as int);
                        lemma_table_at(self.task_seq(), i as int);
                        reveal_strlit("-");
                    }
                    let ghost before = id@;
                    assert(before.len() == drawn@.len() ==> before =~= drawn@);
                    id.append("-");
                    assert(id@.subrange(0, drawn@.len() as int) =~= before.subrange(
                        0,
                        drawn@.len() as int,
                    ));
                },
            }
        }
    }

    /// Stores a new pending task created by this node and returns its fresh id.
    pub fn create_task(&mut self, description: String) -> (id: String)
        requires
            old(self).wf(),
        ensures
            final(self).wf(),
            created(old(self)@, description@, old(self).own_node(), id@, final(self)@),
            final(self).own_node() == old(self).own_node(),
    {
        let id = self.fresh_id_from(new_uuid_string());
        let creator_node = match &self.our_node {
            Some(n) => n.clone(),
            None => "unknown.node.id".to_owned(),
        };
        let task = Task {
            id: id.clone(),
            description,
            assigned_node: None,
            status: TaskStatus::Pending,
            creator_node,
        };
        proof {
            lemma_table_push(self.task_seq(), task@);
        }
        self.tasks.push(task);
        assert(self.task_seq() =~= old(self).task_seq().push(task@));
        id
    }

    /// The task with this id, if held.
    pub fn get_task(&self, task_id: String) -> (r: Option<Task>)
        requires
            self.wf(),
        ensures
            task_opt_view(r) == lookup(self@, task_id@),
    {
        match self.find_index(&task_id) {
            Some(i) => {
                proof {
                    lemma_table_at(self.task_seq(), i as int);
                }
                Some(self.tasks[i].snapshot())
            },
            None => None,
        }
    }

    /// Every task held, duplicated, each once, in no particular order.
    pub fn get_all_tasks(&self) -> (r: Vec<Task>)
        requires
            self.wf(),
        ensures
            unique_ids(r@.map_values(|t: Task| t@)),
            table(r@.map_values(|t: Task| t@)) == self@,
    {
        let mut r: Vec<Task> = Vec::new();
        let mut i: usize = 0;
        while i < self.tasks.len()
            invariant
                i <= self.tasks@.len(),
                r@.map_values(|t: Task| t@) == self.task_seq().take(i as int),
            decreases self.tasks@.len() - i,
        {
            let t = self.tasks[i].snapshot();
            assert(t@ == self.task_seq()[i as int]);
            let ghost before = r@;
            r.push(t);
            assert(r@.map_values(|t: Task| t@) =~= before.map_values(|t: Task| t@).push(t@));
            i += 1;
            assert(r@.map_values(|t: Task| t@) =~= self.task_seq().take(i as int));
        }
        assert(self.task_seq().take(i as int) =~= self.task_seq());
        r
    }

    /// Replaces the task at `i` by one with the same id.
    fn replace_at(&mut self, i: usize, task: Task)
        requires
            old(self).wf(),
            i < old(self).tasks@.len(),
            task@.id == old(self).task_seq()[i as int].id,
        ensures
            final(self).wf(),
            final(self)@ == old(self)@.insert(task@.id, task@),
            final(self).own_node() == old(self).own_node(),
            final(self).task_seq()[i as int] == task@,
            final(self).tasks@.len() == old(self).tasks@.len(),
    {
        proof {
            lemma_table_update(self.task_seq(), i as int, task@);
        }
        let ghost v = task@;
        self.tasks.set(i, task);
        assert(self.task_seq() =~= old(self).task_seq().update(i as int, v));
    }

    /// First step of a delegation: marks the task as assigned to
    /// `target_node` and returns the task to send there; `None`, with nothing
    /// changed, when no task has this id or the task is already completed.
    pub fn begin_delegation(&mut self, task_id: String, target_node: String) -> (sent: Option<
        Task,
    >)
        requires
            old(self).wf(),
        ensures
            final(self).wf(),
            delegation_begun(old(self)@, task_id@, target_node@, final(self)@, task_opt_view(sent)),
            final(self).own_node() == old(self).own_node(),
    {
        match self.find_index(&task_id) {
            Some(i) => {
                proof {
                    lemma_table_at(self.task_seq(), i as int);
                }
                if self.tasks[i].status == TaskStatus::Completed {
                    return None;
                }
                let mut task = self.tasks[i].snapshot();
                task.assigned_node = Some(target_node);
                task.status = TaskStatus::Assigned;
                let sent = task.snapshot();
                self.replace_at(i, task);
                Some(sent)
            },
            None => None,
        }
    }

    /// Last step of a delegation: with the peer's acknowledgment the
    /// assignment stands and the result is true; without it the task, unless
    /// completed, is put back to pending with no assigned node and the result
    /// is false. False, with nothing changed, when no task has this id.
    pub fn finish_delegation(&mut self, task_id: String, acknowledged: bool) -> (r: bool)
        requires
            old(self).wf(),
        ensures
            final(self).wf(),
            delegation_finished(old(self)@, task_id@, acknowledged, final(self)@, r),
            final(self).own_node() == old(self).own_node(),
    {
        match self.find_index(&task_id) {
            Some(i) => {
                proof {
                    lemma_table_at(self.task_seq(), i as int);
                }
                if acknowledged {
                    return true;
                }
                if self.tasks[i].status == TaskStatus::Completed {
                    return false;
                }
                let mut task = self.tasks[i].snapshot();
                task.assigned_node = None;
                task.status = TaskStatus::Pending;
                self.replace_at(i, task);
            },
            None => {},
        }
        false
    }

    /// Accepts a task handed over by another node: stores it under its id,
    /// replacing any task held under that id.
    pub fn assign_task(&mut self, task: Task) -> (r: bool)
        requires
            old(self).wf(),
        ensures
            final(self).wf(),
            final(self)@ == old(self)@.insert(task@.id, task@),
            final(self).own_node() == old(self).own_node(),
            r,
    {
        match self.find_index(&task.id) {
            Some(i) => {
                self.replace_at(i, task);
            },
            None => {
                proof {
                    lemma_table_push(self.task_seq(), task@);
                }
                let ghost v = task@;
                self.tasks.push(task);
                assert(self.task_seq() =~= old(self).task_seq().push(v));
            },
        }
        true
    }

    /// Marks the task `id` completed, if held, and returns the task's creator
    /// node, which is to be told of the completion. The local completion does
    /// not depend on that notice. `None`, with nothing changed, when no task
    /// has this id.
    pub fn complete_task(&mut self, task_id: String) -> (notify: Option<String>)
        requires
            old(self).wf(),
        ensures
            final(self).wf(),
            completed(old(self)@, task_id@, final(self)@),
            final(self).own_node() == old(self).own_node(),
            notify is Some <==> old(self)@.contains_key(task_id@),
            notify matches Some(n) ==> n@ == old(self)@[task_id@].creator_node,
    {
        match self.mark_completed(&task_id) {
            Some(i) => Some(self.tasks[i].creator_node.clone()),
            None => None,
        }
    }

    /// Accepts the notice that a task created here was completed elsewhere;
    /// false, with nothing changed, when no task has this id.
    pub fn notify_completion(&mut self, task_id: String) -> (r: bool)
        requires
            old(self).wf(),
        ensures
            final(self).wf(),
            completed(old(self)@, task_id@, final(self)@),
            final(self).own_node() == old(self).own_node(),
            r == old(self)@.contains_key(task_id@),
    {
        self.mark_completed(&task_id).is_some()
    }

    fn mark_completed(&mut self, task_id: &String) -> (r: Option<usize>)
        requires
            old(self).wf(),
        ensures
            final(self).wf(),
            completed(old(self)@, task_id@, final(self)@),
            final(self).own_node() == old(self).own_node(),
            r is Some <==> old(self)@.contains_key(task_id@),
            r matches Some(i) ==> i < final(self).tasks@.len() && final(self).task_seq()[i as int]
                == marked_completed(old(self)@[task_id@]),
    {
        match self.find_index(task_id) {
            Some(i) => {
                proof {
                    lemma_table_at(self.task_seq(), i as int);
                }
                let mut task = self.tasks[i].snapshot();
                task.status = TaskStatus::Completed;
                self.replace_at(i, task);
                Some(i)
            },
            None => None,
        }
    }
}

} // verus!
