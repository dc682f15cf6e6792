use vstd::prelude::*;

use crate::task::TaskView;

verus! {

/// No two tasks of the sequence share an id.
pub open spec fn unique_ids(s: Seq<TaskView>) -> bool {
    forall|i: int, j: int| 0 <= i < s.len() && 0 <= j < s.len() && i != j ==> s[i].id != s[j].id
}

/// Some task of the sequence has this id.
pub open spec fn holds_id(s: Seq<TaskView>, id: Seq<char>) -> bool {
    exists|i: int| 0 <= i < s.len() && s[i].id == id
}

/// The position of the task with this id.
pub open spec fn index_of(s: Seq<TaskView>, id: Seq<char>) -> int {
    choose|i: int| 0 <= i < s.len() && s[i].id == id
}

/// The tasks of the sequence, keyed by id.
pub open spec fn table(s: Seq<TaskView>) -> Map<Seq<char>, TaskView> {
    Map::new(|id: Seq<char>| holds_id(s, id), |id: Seq<char>| s[index_of(s, id)])
}

/// The greatest id length in the sequence.
pub open spec fn longest_id(s: Seq<TaskView>) -> nat
    decreases s.len(),
{
    if s.len() == 0 {
        0
    } else {
        let rest = longest_id(s.drop_last());
        if s.last().id.len() > rest {
            s.last().id.len()
        } else {
            rest
        }
    }
}

pub proof fn lemma_longest_id(s: Seq<TaskView>, i: int)
    requires
        0 <= i < s.len(),
    ensures
        s[i].id.len() <= longest_id(s),
    decreases s.len(),
{
    if i < s.len() - 1 {
        lemma_longest_id(s.drop_last(), i);
    }
}

pub proof fn lemma_table_at(s: Seq<TaskView>, i: int)
    requires
        unique_ids(s),
        0 <= i < s.len(),
    ensures
        table(s).contains_key(s[i].id),
        index_of(s, s[i].id) == i,
        table(s)[s[i].id] == s[i],
{
    assert(holds_id(s, s[i].id));
}

/// Replacing a task by one with the same id replaces that entry of the table.
pub proof fn lemma_table_update(s: Seq<TaskView>, i: int, v: TaskView)
    requires
        unique_ids(s),
        0 <= i < s.len(),
        v.id == s[i].id,
    ensures
        unique_ids(s.update(i, v)),
        table(s.update(i, v)) == table(s).insert(v.id, v),
{
    let t = s.update(i, v);
    assert(unique_ids(t));
    lemma_table_at(t, i);
    assert forall|id: Seq<char>| #[trigger] holds_id(t, id) <==> holds_id(s, id) by {
        if holds_id(t, id) {
            let j = choose|j: int| 0 <= j < t.len() && t[j].id == id;
            assert(s[j].id == id);
        }
        if holds_id(s, id) {
            let j = choose|j: int| 0 <= j < s.len() && s[j].id == id;
            assert(t[j].id == id);
        }
    }
    assert forall|id: Seq<char>| #[trigger] table(t).contains_key(id) && id != v.id implies table(
        t,
    )[id] == table(s)[id] by {
        let j = index_of(t, id);
        lemma_table_at(t, j);
        assert(j != i);
        assert(s[j] == t[j]);
        lemma_table_at(s, j);
    }
    assert(table(t) =~= table(s).insert(v.id, v));
}

/// Appending a task whose id is not yet held adds that entry to the table.
pub proof fn lemma_table_push(s: Seq<TaskView>, v: TaskView)
    requires
        unique_ids(s),
        !holds_id(s, v.id),
    ensures
        unique_ids(s.push(v)),
        table(s.push(v)) == table(s).insert(v.id, v),
{
    let t = s.push(v);
    assert forall|i: int, j: int| 0 <= i < t.len() && 0 <= j < t.len() && i != j implies t[i].id
        != t[j].id by {
        if i == s.len() as int {
            assert(s[j] == t[j]);
        } else if j == s.len() as int {
            assert(s[i] == t[i]);
        } else {
            assert(s[i] == t[i] && s[j] == t[j]);
        }
    }
    lemma_table_at(t, s.len() as int);
    assert forall|id: Seq<char>| #[trigger] holds_id(t, id) <==> (holds_id(s, id) || id == v.id) by {
        if holds_id(s, id) {
            let j = choose|j: int| 0 <= j < s.len() && s[j].id == id;
            assert(t[j].id == id);
        }
        if holds_id(t, id) && id != v.id {
            let j = choose|j: int| 0 <= j < t.len() && t[j].id == id;
            assert(j != s.len() as int);
            assert(s[j].id == id);
        }
    }
    assert forall|id: Seq<char>| #[trigger] table(t).contains_key(id) && id != v.id implies table(
        t,
    )[id] == table(s)[id] by {
        let j = index_of(t, id);
        lemma_table_at(t, j);
        assert(j != s.len() as int);
        assert(s[j] == t[j]);
        lemma_table_at(s, j);
    }
    assert(table(t) =~= table(s).insert(v.id, v));
}

} // verus!
