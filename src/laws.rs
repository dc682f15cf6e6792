use vstd::prelude::*;

use crate::scheduler::{completed, created, delegation_begun, delegation_finished, fresh_task, lookup};
use crate::task::{TaskStatus, TaskView};

verus! {

proof fn lemma_created_id_kept(
    states: Seq<Map<Seq<char>, TaskView>>,
    descriptions: Seq<Seq<char>>,
    creator: Seq<char>,
    ids: Seq<Seq<char>>,
    a: int,
    b: int,
)
    requires
        states.len() == ids.len() + 1,
        descriptions.len() == ids.len(),
        forall|k: int|
            0 <= k < ids.len() ==> #[trigger] created(
                states[k],
                descriptions[k],
                creator,
                ids[k],
                states[k + 1],
            ),
        0 <= a < b <= ids.len(),
    ensures
        states[b].contains_key(ids[a]),
    decreases b - a,
{
    let k = b - 1;
    assert(created(states[k], descriptions[k], creator, ids[k], states[k + 1]));
    if b > a + 1 {
        lemma_created_id_kept(states, descriptions, creator, ids, a, b - 1);
    }
}

/// Creation uniqueness: along any run of task creations, where each state
/// arises from the one before by `create_task`, the returned ids are pairwise
/// distinct.
pub proof fn lemma_created_ids_distinct(
    states: Seq<Map<Seq<char>, TaskView>>,
    descriptions: Seq<Seq<char>>,
    creator: Seq<char>,
    ids: Seq<Seq<char>>,
)
    requires
        states.len() == ids.len() + 1,
        descriptions.len() == ids.len(),
        forall|k: int|
            0 <= k < ids.len() ==> #[trigger] created(
                states[k],
                descriptions[k],
                creator,
                ids[k],
                states[k + 1],
            ),
    ensures
        forall|a: int, b: int| 0 <= a < b < ids.len() ==> ids[a] != ids[b],
{
    assert forall|a: int, b: int| 0 <= a < b < ids.len() implies ids[a] != ids[b] by {
        lemma_created_id_kept(states, descriptions, creator, ids, a, b);
        assert(created(states[b], descriptions[b], creator, ids[b], states[b + 1]));
    }
}

/// Round trip: looking up the id that `create_task` returned gives a pending,
/// unassigned task with the given description, created by this node.
pub proof fn lemma_created_task_found(
    pre: Map<Seq<char>, TaskView>,
    description: Seq<char>,
    creator: Seq<char>,
    id: Seq<char>,
    post: Map<Seq<char>, TaskView>,
)
    requires
        created(pre, description, creator, id, post),
    ensures
        lookup(post, id) == Some(fresh_task(id, description, creator)),
        post[id].description == description,
        post[id].status == TaskStatus::Pending,
        post[id].assigned_node is None,
{
}

/// Delegation success commits: when the peer acknowledges, the delegation of a
/// held task that is not completed reports true and leaves the task assigned to
/// that peer.
pub proof fn lemma_delegation_success_commits(
    s0: Map<Seq<char>, TaskView>,
    id: Seq<char>,
    node: Seq<char>,
    s1: Map<Seq<char>, TaskView>,
    sent: Option<TaskView>,
    s2: Map<Seq<char>, TaskView>,
    r: bool,
)
    requires
        s0.contains_key(id),
        s0[id].status != TaskStatus::Completed,
        delegation_begun(s0, id, node, s1, sent),
        delegation_finished(s1, id, true, s2, r),
    ensures
        r,
        s2.contains_key(id),
        s2[id].status == TaskStatus::Assigned,
        s2[id].assigned_node == Some(node),
        s2 == s1,
{
}

/// Delegation failure compensates: when the peer does not acknowledge, the
/// delegation of a pending, unassigned task reports false and leaves the
/// registry as it was before the delegation began.
pub proof fn lemma_delegation_failure_compensates(
    s0: Map<Seq<char>, TaskView>,
    id: Seq<char>,
    node: Seq<char>,
    s1: Map<Seq<char>, TaskView>,
    sent: Option<TaskView>,
    s2: Map<Seq<char>, TaskView>,
    r: bool,
)
    requires
        s0.contains_key(id),
        s0[id].status == TaskStatus::Pending,
        s0[id].assigned_node is None,
        delegation_begun(s0, id, node, s1, sent),
        delegation_finished(s1, id, false, s2, r),
    ensures
        !r,
        s2 == s0,
{
    assert(s2 =~= s0);
}

/// Completion is final under delegation: a completed task is not handed out,
/// and neither step of a delegation changes the registry.
pub proof fn lemma_completed_task_not_delegated(
    s0: Map<Seq<char>, TaskView>,
    id: Seq<char>,
    node: Seq<char>,
    s1: Map<Seq<char>, TaskView>,
    sent: Option<TaskView>,
    acknowledged: bool,
    s2: Map<Seq<char>, TaskView>,
    r: bool,
)
    requires
        s0.contains_key(id),
        s0[id].status == TaskStatus::Completed,
        delegation_begun(s0, id, node, s1, sent),
        delegation_finished(s1, id, acknowledged, s2, r),
    ensures
        sent is None,
        s1 == s0,
        s2 == s0,
        s2[id].status == TaskStatus::Completed,
{
}

/// Completion is local-first: completing a held task leaves it completed,
/// whatever becomes of the notice to its creator, which is sent afterwards.
pub proof fn lemma_completion_local_first(
    pre: Map<Seq<char>, TaskView>,
    id: Seq<char>,
    post: Map<Seq<char>, TaskView>,
)
    requires
        pre.contains_key(id),
        completed(pre, id, post),
    ensures
        post.contains_key(id),
        post[id].status == TaskStatus::Completed,
{
}

/// Idempotent completion: completing (or being notified of the completion of)
/// the same id twice gives the same state as doing it once.
pub proof fn lemma_completion_idempotent(
    s0: Map<Seq<char>, TaskView>,
    id: Seq<char>,
    s1: Map<Seq<char>, TaskView>,
    s2: Map<Seq<char>, TaskView>,
)
    requires
        completed(s0, id, s1),
        completed(s1, id, s2),
    ensures
        s2 == s1,
{
    if s1.contains_key(id) {
        assert(s2 =~= s1);
    }
}

/// Unknown id is a safe no-op: for an id that no task has, a lookup finds
/// nothing, and delegation, its compensation, completion and completion
/// notices change nothing.
pub proof fn lemma_unknown_id_no_op(
    pre: Map<Seq<char>, TaskView>,
    id: Seq<char>,
    node: Seq<char>,
    sent: Option<TaskView>,
    after_delegation: Map<Seq<char>, TaskView>,
    acknowledged: bool,
    r: bool,
    after_finish: Map<Seq<char>, TaskView>,
    after_completion: Map<Seq<char>, TaskView>,
)
    requires
        !pre.contains_key(id),
        delegation_begun(pre, id, node, after_delegation, sent),
        delegation_finished(pre, id, acknowledged, after_finish, r),
        completed(pre, id, after_completion),
    ensures
        lookup(pre, id) is None,
        sent is None,
        !r,
        after_delegation == pre,
        after_finish == pre,
        after_completion == pre,
{
}

} // verus!
