//! The reconciliation engine and the derived views of the task store.
//!
//! A fetched snapshot is authoritative for set membership and for every
//! field except `is_completed`, which stays locally authoritative; the
//! views shown for navigation are filtered projections of the store.

use vstd::prelude::*;

use crate::todoist::{Task, TaskView};

verus! {

/// A task is shown in the interactive views only while it is not completed.
pub open spec fn is_visible(t: TaskView) -> bool {
    !t.is_completed
}

/// A task is due on `today` when it carries a due date whose calendar
/// date equals that day.
pub open spec fn due_on(t: TaskView, today: Seq<char>) -> bool {
    t.due is Some && t.due->Some_0.date == today
}

/// The general view: every not-yet-completed task, in store order.
pub open spec fn general_view(tasks: Seq<TaskView>) -> Seq<TaskView> {
    tasks.filter(|t: TaskView| is_visible(t))
}

/// The due-today view: every not-yet-completed task due on `today`, in
/// store order.
pub open spec fn today_view(tasks: Seq<TaskView>, today: Seq<char>) -> Seq<TaskView> {
    tasks.filter(|t: TaskView| is_visible(t) && due_on(t, today))
}

/// Every task due on `today`, completed or not, in store order.
pub open spec fn due_view(tasks: Seq<TaskView>, today: Seq<char>) -> Seq<TaskView> {
    tasks.filter(|t: TaskView| due_on(t, today))
}

/// Some task in `tasks` carries the identity `id`.
pub open spec fn has_id(tasks: Seq<TaskView>, id: Seq<char>) -> bool {
    exists|j: int| 0 <= j < tasks.len() && tasks[j].id == id
}

/// `j` is the position of the first task in `tasks` with identity `id`.
pub open spec fn is_first_index_of_id(tasks: Seq<TaskView>, id: Seq<char>, j: int) -> bool {
    &&& 0 <= j < tasks.len()
    &&& tasks[j].id == id
    &&& forall|k: int| 0 <= k < j ==> tasks[k].id != id
}

/// The position of the first task in `tasks` with identity `id`.
pub open spec fn first_index_of_id(tasks: Seq<TaskView>, id: Seq<char>) -> int {
    choose|j: int| is_first_index_of_id(tasks, id, j)
}

/// The first-match position is unique, so any witness determines it.
pub proof fn lemma_first_index_of_id(tasks: Seq<TaskView>, id: Seq<char>, j: int)
    requires
        is_first_index_of_id(tasks, id, j),
    ensures
        first_index_of_id(tasks, id) == j,
{
    let j2 = first_index_of_id(tasks, id);
    assert(is_first_index_of_id(tasks, id, j2));
    if j < j2 {
        assert(tasks[j].id != id);
    } else if j2 < j {
        assert(tasks[j2].id != id);
    }
}

/// Wherever some task carries `id`, a first one does, and it is the one
/// the choice denotes.
pub proof fn lemma_first_index_exists(tasks: Seq<TaskView>, id: Seq<char>)
    requires
        has_id(tasks, id),
    ensures
        is_first_index_of_id(tasks, id, first_index_of_id(tasks, id)),
    decreases tasks.len(),
{
    if tasks[0].id == id {
        assert(is_first_index_of_id(tasks, id, 0));
    } else {
        let j = choose|j: int| 0 <= j < tasks.len() && tasks[j].id == id;
        let rest = tasks.drop_first();
        assert(rest[j - 1].id == id);
        lemma_first_index_exists(rest, id);
        let j2 = first_index_of_id(rest, id);
        assert forall|k: int| 0 <= k < j2 + 1 implies tasks[k].id != id by {
            if k > 0 {
                assert(rest[k - 1].id != id);
            }
        }
        assert(is_first_index_of_id(tasks, id, j2 + 1));
    }
}

/// No two tasks share an identity.
pub open spec fn ids_unique(tasks: Seq<TaskView>) -> bool {
    forall|i: int, j: int| 0 <= i < j < tasks.len() ==> tasks[i].id != tasks[j].id
}

/// Reconciliation keeps each fetched task's identity and place.
pub proof fn lemma_merge_keeps_ids(cur: Seq<TaskView>, fetched: Seq<TaskView>)
    ensures
        spec_merge(cur, fetched).len() == fetched.len(),
        forall|k: int| 0 <= k < fetched.len() ==> #[trigger] spec_merge(cur, fetched)[k].id
            == fetched[k].id,
{
}

/// A store reconciled from a snapshot without duplicate identities has
/// none either, whatever the replica held.
pub proof fn lemma_merge_preserves_unique_ids(cur: Seq<TaskView>, fetched: Seq<TaskView>)
    requires
        ids_unique(fetched),
    ensures
        ids_unique(spec_merge(cur, fetched)),
{
    lemma_merge_keeps_ids(cur, fetched);
}

/// Appending a task extends the general view with it exactly when it is
/// visible.
pub proof fn lemma_general_view_push(s: Seq<TaskView>, t: TaskView)
    ensures
        general_view(s.push(t)) == if is_visible(t) {
            general_view(s).push(t)
        } else {
            general_view(s)
        },
{
    reveal(Seq::filter);
    assert(s.push(t).drop_last() =~= s);
    assert(s.push(t).last() == t);
}

/// Appending a task extends the due-today view with it exactly when it is
/// visible and due on `today`.
pub proof fn lemma_today_view_push(s: Seq<TaskView>, t: TaskView, today: Seq<char>)
    ensures
        today_view(s.push(t), today) == if is_visible(t) && due_on(t, today) {
            today_view(s, today).push(t)
        } else {
            today_view(s, today)
        },
{
    reveal(Seq::filter);
    assert(s.push(t).drop_last() =~= s);
    assert(s.push(t).last() == t);
}

/// Appending a task extends the due view with it exactly when it is due on
/// `today`.
pub proof fn lemma_due_view_push(s: Seq<TaskView>, t: TaskView, today: Seq<char>)
    ensures
        due_view(s.push(t), today) == if due_on(t, today) {
            due_view(s, today).push(t)
        } else {
            due_view(s, today)
        },
{
    reveal(Seq::filter);
    assert(s.push(t).drop_last() =~= s);
    assert(s.push(t).last() == t);
}

/// How one fetched task is reconciled with the current replica: all fields
/// come from the fetched task, except that a task already known locally
/// keeps the local completion state.
pub open spec fn merge_completion(cur: Seq<TaskView>, t: TaskView) -> TaskView {
    if has_id(cur, t.id) {
        TaskView { is_completed: cur[first_index_of_id(cur, t.id)].is_completed, ..t }
    } else {
        t
    }
}

/// The reconciled store: every fetched task, in fetch order, each merged
/// against the current replica. Tasks absent from the snapshot are dropped.
pub open spec fn spec_merge(cur: Seq<TaskView>, fetched: Seq<TaskView>) -> Seq<TaskView> {
    fetched.map_values(|t: TaskView| merge_completion(cur, t))
}

/// The position of the first task in `tasks` carrying identity `id`, if any.
pub fn find_index_by_id(tasks: &Vec<Task>, id: &String) -> (r: Option<usize>)
    ensures
        match r {
            Some(j) => is_first_index_of_id(tasks.deep_view(), id@, j as int),
            None => !has_id(tasks.deep_view(), id@),
        },
        r is Some <==> has_id(tasks.deep_view(), id@),
{
    let mut j: usize = 0;
    while j < tasks.len()
        invariant
            j <= tasks.len(),
            forall|k: int| 0 <= k < j ==> tasks.deep_view()[k].id != id@,
        decreases tasks.len() - j,
    {
        if tasks[j].id == *id {
            return Some(j);
        }
        j += 1;
    }
    None
}

/// Merge a freshly fetched snapshot into the current replica.
///
/// The result holds exactly the fetched tasks, in fetch order; a task whose
/// identity is already present locally keeps the local `is_completed`, and
/// every other field is taken from the snapshot. Tasks present locally but
/// absent from the snapshot are dropped.
pub fn merge(current: &Vec<Task>, fetched: &Vec<Task>) -> (r: Vec<Task>)
    ensures
        r.deep_view() == spec_merge(current.deep_view(), fetched.deep_view()),
{
    let mut r: Vec<Task> = Vec::new();
    let mut i: usize = 0;
    while i < fetched.len()
        invariant
            i <= fetched.len(),
            r.deep_view().len() == i,
            forall|k: int| 0 <= k < i ==> r.deep_view()[k] == merge_completion(
                current.deep_view(),
                fetched.deep_view()[k],
            ),
        decreases fetched.len() - i,
    {
        let ghost pre = r.deep_view();
        let mut m = fetched[i].clone();
        match find_index_by_id(current, &m.id) {
            Some(j) => {
                m.is_completed = current[j].is_completed;
                proof {
                    lemma_first_index_of_id(current.deep_view(), fetched.deep_view()[i as int].id, j as int);
                }
            },
            None => {},
        }
        r.push(m);
        proof {
            assert(r.deep_view() =~= pre.push(r.deep_view()[i as int]));
        }
        i += 1;
    }
    proof {
        assert(r.deep_view() =~= spec_merge(current.deep_view(), fetched.deep_view()));
    }
    r
}

} // verus!
