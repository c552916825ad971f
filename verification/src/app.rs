//! The application state: the task store (local replica), the queue of
//! pending changes, and the dual-cursor navigation state over the two
//! derived views of the store.

use vstd::prelude::*;

use crate::reconcile::{
    due_view, find_index_by_id, first_index_of_id, general_view, has_id, ids_unique,
    lemma_due_view_push, lemma_first_index_exists, lemma_first_index_of_id,
    lemma_general_view_push, lemma_today_view_push, merge, spec_merge, today_view,
};
use crate::todoist::{PendingChange, PendingChangeView, Task, TaskView};

verus! {

/// The refresh interval used until the configuration supplies one.
pub const DEFAULT_REFRESH_INTERVAL: u64 = 10;

/// A recoverable error surfaced to the caller of a store operation.
#[derive(Debug)]
pub enum AppError {
    /// The given task identity does not resolve to any task in the store.
    TaskNotFound(String),
}

/// Mathematical value of an `AppError`.
pub enum AppErrorView {
    TaskNotFound(Seq<char>),
}

impl DeepView for AppError {
    type V = AppErrorView;

    open spec fn deep_view(&self) -> AppErrorView {
        match self {
            AppError::TaskNotFound(id) => AppErrorView::TaskNotFound(id@),
        }
    }
}

impl AppError {
    /// Human-readable description of the error.
    pub fn message(&self) -> (r: String)
        ensures
            match self.deep_view() {
                AppErrorView::TaskNotFound(id) => r@ == "Task with id "@ + id + " not found"@,
            },
    {
        match self {
            AppError::TaskNotFound(id) => {
                let m = String::from_str("Task with id ");
                let m = m.concat(id.as_str());
                let m = m.concat(" not found");
                m
            },
        }
    }
}

/// Derived per-view task lists, kept for rendering.
pub struct AppState {
    pub today_tasks: Vec<Task>,
    pub inbox_tasks: Vec<Task>,
    pub pending_tasks: Vec<PendingChange>,
}

/// Mathematical value of an `AppState`.
pub struct AppStateView {
    pub today_tasks: Seq<TaskView>,
    pub inbox_tasks: Seq<TaskView>,
    pub pending_tasks: Seq<PendingChangeView>,
}

impl DeepView for AppState {
    type V = AppStateView;

    open spec fn deep_view(&self) -> AppStateView {
        AppStateView {
            today_tasks: self.today_tasks.deep_view(),
            inbox_tasks: self.inbox_tasks.deep_view(),
            pending_tasks: self.pending_tasks.deep_view(),
        }
    }
}

/// The application.
///
/// `tasks` is the local replica of the remote task set; `pending_changes`
/// is the ordered queue of local mutations awaiting delivery. The two
/// cursors index the general and the due-today view; at most one is
/// active, and the durable record of the selection is `selected_task`,
/// an identity rather than a position, so that it survives reordering
/// and removal caused by reconciliation.
pub struct App {
    /// Is the application running?
    pub running: bool,
    /// Counter.
    pub counter: u8,
    /// Cursor into the general view.
    pub general_index: Option<usize>,
    /// Cursor into the due-today view.
    pub today_index: Option<usize>,
    /// Is onboarding complete?
    pub onboarding_complete: bool,
    /// Input buffer for onboarding.
    pub input_buffer: String,
    /// Temporary storage for the API key.
    pub api_key: Option<String>,
    /// The local replica of the remote task set.
    pub tasks: Vec<Task>,
    /// Pending changes to sync.
    pub pending_changes: Vec<PendingChange>,
    /// Seconds between scheduled refreshes.
    pub refresh_interval: u64,
    /// Derived per-view lists for rendering.
    pub app_state: AppState,
    /// Identity of the selected task, if any.
    pub selected_task: Option<String>,
}

/// Mathematical value of the whole application state.
pub struct AppModel {
    pub running: bool,
    pub counter: u8,
    pub general_index: Option<usize>,
    pub today_index: Option<usize>,
    pub onboarding_complete: bool,
    pub input_buffer: Seq<char>,
    pub api_key: Option<Seq<char>>,
    pub tasks: Seq<TaskView>,
    pub pending_changes: Seq<PendingChangeView>,
    pub refresh_interval: u64,
    pub app_state: AppStateView,
    pub selected_task: Option<Seq<char>>,
}

impl DeepView for App {
    type V = AppModel;

    open spec fn deep_view(&self) -> AppModel {
        AppModel {
            running: self.running,
            counter: self.counter,
            general_index: self.general_index,
            today_index: self.today_index,
            onboarding_complete: self.onboarding_complete,
            input_buffer: self.input_buffer@,
            api_key: self.api_key.deep_view(),
            tasks: self.tasks.deep_view(),
            pending_changes: self.pending_changes.deep_view(),
            refresh_interval: self.refresh_interval,
            app_state: self.app_state.deep_view(),
            selected_task: self.selected_task.deep_view(),
        }
    }
}

/// The state the application starts in: an empty replica, an empty queue,
/// no cursor active and onboarding not yet complete.
pub open spec fn initial_app_model() -> AppModel {
    AppModel {
        running: true,
        counter: 0,
        general_index: None,
        today_index: None,
        onboarding_complete: false,
        input_buffer: Seq::empty(),
        api_key: None,
        tasks: Seq::empty(),
        pending_changes: Seq::empty(),
        refresh_interval: DEFAULT_REFRESH_INTERVAL,
        app_state: AppStateView {
            today_tasks: Seq::empty(),
            inbox_tasks: Seq::empty(),
            pending_tasks: Seq::empty(),
        },
        selected_task: None,
    }
}

impl Default for App {
    fn default() -> (r: Self)
        ensures
            r.deep_view() == initial_app_model(),
    {
        let r = App {
            running: true,
            counter: 0,
            general_index: None,
            today_index: None,
            onboarding_complete: false,
            input_buffer: String::new(),
            api_key: None,
            tasks: Vec::new(),
            pending_changes: Vec::new(),
            refresh_interval: DEFAULT_REFRESH_INTERVAL,
            app_state: AppState {
                today_tasks: Vec::new(),
                inbox_tasks: Vec::new(),
                pending_tasks: Vec::new(),
            },
            selected_task: None,
        };
        proof {
            assert(r.tasks.deep_view() =~= Seq::<TaskView>::empty());
            assert(r.pending_changes.deep_view() =~= Seq::<PendingChangeView>::empty());
            assert(r.app_state.today_tasks.deep_view() =~= Seq::<TaskView>::empty());
            assert(r.app_state.inbox_tasks.deep_view() =~= Seq::<TaskView>::empty());
            assert(r.app_state.pending_tasks.deep_view() =~= Seq::<PendingChangeView>::empty());
        }
        r
    }
}

/// The general view of `tasks` as a list: the not-yet-completed tasks, in
/// store order.
pub fn filter_general(tasks: &Vec<Task>) -> (r: Vec<Task>)
    ensures
        r.deep_view() == general_view(tasks.deep_view()),
{
    let mut r: Vec<Task> = Vec::new();
    let mut i: usize = 0;
    proof {
        assert(r.deep_view() =~= general_view(tasks.deep_view().take(0)));
        assert(tasks.deep_view().take(0) =~= Seq::<TaskView>::empty());
        reveal(Seq::filter);
    }
    while i < tasks.len()
        invariant
            i <= tasks.len(),
            r.deep_view() == general_view(tasks.deep_view().take(i as int)),
        decreases tasks.len() - i,
    {
        let ghost pre = r.deep_view();
        if !tasks[i].is_completed {
            r.push(tasks[i].clone());
            proof {
                assert(r.deep_view() =~= pre.push(tasks.deep_view()[i as int]));
            }
        }
        proof {
            assert(tasks.deep_view().take(i + 1) =~= tasks.deep_view().take(i as int).push(
                tasks.deep_view()[i as int],
            ));
            lemma_general_view_push(tasks.deep_view().take(i as int), tasks.deep_view()[i as int]);
        }
        i += 1;
    }
    proof {
        assert(tasks.deep_view().take(tasks@.len() as int) =~= tasks.deep_view());
    }
    r
}

/// The due-today view of `tasks` as a list: the not-yet-completed tasks
/// due on `today`, in store order.
pub fn filter_today(tasks: &Vec<Task>, today: &String) -> (r: Vec<Task>)
    ensures
        r.deep_view() == today_view(tasks.deep_view(), today@),
{
    let mut r: Vec<Task> = Vec::new();
    let mut i: usize = 0;
    proof {
        assert(r.deep_view() =~= today_view(tasks.deep_view().take(0), today@));
        assert(tasks.deep_view().take(0) =~= Seq::<TaskView>::empty());
        reveal(Seq::filter);
    }
    while i < tasks.len()
        invariant
            i <= tasks.len(),
            r.deep_view() == today_view(tasks.deep_view().take(i as int), today@),
        decreases tasks.len() - i,
    {
        let ghost pre = r.deep_view();
        let due_today = match &tasks[i].due {
            Some(d) => d.date == *today,
            None => false,
        };
        if !tasks[i].is_completed && due_today {
            r.push(tasks[i].clone());
            proof {
                assert(r.deep_view() =~= pre.push(tasks.deep_view()[i as int]));
            }
        }
        proof {
            assert(tasks.deep_view().take(i + 1) =~= tasks.deep_view().take(i as int).push(
                tasks.deep_view()[i as int],
            ));
            lemma_today_view_push(
                tasks.deep_view().take(i as int),
                tasks.deep_view()[i as int],
                today@,
            );
        }
        i += 1;
    }
    proof {
        assert(tasks.deep_view().take(tasks@.len() as int) =~= tasks.deep_view());
    }
    r
}

/// The wrapped position one step from `cur` in a view of length `len`:
/// advancing past the last row selects the first, retreating before the
/// first selects the last, and a cursor not yet set starts at the first.
/// A stale stored position beyond the view is brought back in range.
pub open spec fn spec_shift_index(cur: Option<usize>, len: int, forward: bool) -> int
    recommends
        len > 0,
{
    match cur {
        None => 0,
        Some(i) => if forward {
            if i + 1 >= len {
                0
            } else {
                i + 1
            }
        } else {
            if i == 0 {
                len - 1
            } else if i - 1 >= len {
                len - 1
            } else {
                i - 1
            }
        },
    }
}

/// One navigation step: the view whose cursor is active moves by one with
/// wrap-around, and the selection is re-resolved to the identity of the row
/// at the new position. With no active cursor, the due-today view is
/// entered if non-empty, else the general view. An empty view leaves both
/// its cursor and the selection at `None`.
pub open spec fn spec_shift(m: AppModel, today: Seq<char>, forward: bool) -> AppModel {
    if m.general_index is Some {
        let v = general_view(m.tasks);
        if v.len() == 0 {
            AppModel { general_index: None, selected_task: None, ..m }
        } else {
            let i = spec_shift_index(m.general_index, v.len() as int, forward);
            AppModel { general_index: Some(i as usize), selected_task: Some(v[i].id), ..m }
        }
    } else if m.today_index is Some {
        let v = today_view(m.tasks, today);
        if v.len() == 0 {
            AppModel { today_index: None, selected_task: None, ..m }
        } else {
            let i = spec_shift_index(m.today_index, v.len() as int, forward);
            AppModel { today_index: Some(i as usize), selected_task: Some(v[i].id), ..m }
        }
    } else {
        let tv = today_view(m.tasks, today);
        if tv.len() > 0 {
            AppModel { today_index: Some(0usize), selected_task: Some(tv[0].id), ..m }
        } else {
            let gv = general_view(m.tasks);
            if gv.len() > 0 {
                AppModel { general_index: Some(0usize), selected_task: Some(gv[0].id), ..m }
            } else {
                AppModel { selected_task: None, ..m }
            }
        }
    }
}

/// What `next` does: one step forward.
pub open spec fn spec_next(m: AppModel, today: Seq<char>) -> AppModel {
    spec_shift(m, today, true)
}

/// What `previous` does: one step backward.
pub open spec fn spec_previous(m: AppModel, today: Seq<char>) -> AppModel {
    spec_shift(m, today, false)
}

/// What `focus_left` does: the general cursor is cleared; a due-today
/// cursor not yet set is seeded at the first row if that view is
/// non-empty, and the selection then moves to that row's identity.
pub open spec fn spec_focus_left(m: AppModel, today: Seq<char>) -> AppModel {
    let tv = today_view(m.tasks, today);
    if m.today_index is None && tv.len() > 0 {
        AppModel {
            general_index: None,
            today_index: Some(0usize),
            selected_task: Some(tv[0].id),
            ..m
        }
    } else {
        AppModel { general_index: None, ..m }
    }
}

/// What `focus_right` does: the due-today cursor is cleared; a general
/// cursor not yet set is seeded at the first row if that view is
/// non-empty, and the selection then moves to that row's identity.
pub open spec fn spec_focus_right(m: AppModel) -> AppModel {
    let gv = general_view(m.tasks);
    if m.general_index is None && gv.len() > 0 {
        AppModel {
            today_index: None,
            general_index: Some(0usize),
            selected_task: Some(gv[0].id),
            ..m
        }
    } else {
        AppModel { today_index: None, ..m }
    }
}

/// At most one cursor is active: a state never has both the general and
/// the due-today cursor set.
pub open spec fn cursor_exclusive(m: AppModel) -> bool {
    m.general_index is None || m.today_index is None
}

/// The initial state has no active cursor.
pub proof fn lemma_initial_cursor_exclusive()
    ensures
        cursor_exclusive(initial_app_model()),
{
}

/// Navigation keeps at most one cursor active.
pub proof fn lemma_shift_preserves_exclusivity(m: AppModel, today: Seq<char>, forward: bool)
    requires
        cursor_exclusive(m),
    ensures
        cursor_exclusive(spec_shift(m, today, forward)),
{
}

/// Switching focus, from any state, leaves at most one cursor active.
pub proof fn lemma_focus_preserves_exclusivity(m: AppModel, today: Seq<char>)
    ensures
        cursor_exclusive(spec_focus_left(m, today)),
        cursor_exclusive(spec_focus_right(m)),
{
}

/// A toggle does not touch the cursors, so it keeps at most one active.
pub proof fn lemma_toggle_preserves_exclusivity(m: AppModel, id: Seq<char>, today: Seq<char>)
    requires
        cursor_exclusive(m),
    ensures
        cursor_exclusive(spec_toggle(m, id, today)),
{
}

/// A toggle flips one task in place, so a store without duplicate
/// identities keeps that shape.
pub proof fn lemma_toggle_preserves_unique_ids(m: AppModel, id: Seq<char>, today: Seq<char>)
    requires
        ids_unique(m.tasks),
        has_id(m.tasks, id),
    ensures
        ids_unique(spec_toggle(m, id, today).tasks),
{
    lemma_first_index_exists(m.tasks, id);
    let tasks2 = spec_toggle(m, id, today).tasks;
    assert(forall|k: int| 0 <= k < tasks2.len() ==> #[trigger] tasks2[k].id == m.tasks[k].id);
}

/// Focus-switch exclusivity: switching focus to the general view from a
/// state whose general cursor is not yet set leaves exactly one cursor
/// active. The due-today cursor is cleared, and the general cursor sits
/// at the first row when the general view is non-empty and stays unset
/// when that view is empty.
pub proof fn lemma_focus_right_exclusive(m: AppModel)
    requires
        m.general_index is None,
    ensures
        spec_focus_right(m).today_index is None,
        general_view(m.tasks).len() > 0 ==> spec_focus_right(m).general_index == Some(0usize),
        general_view(m.tasks).len() == 0 ==> spec_focus_right(m).general_index is None,
{
}

/// The mirror law for the due-today view: switching focus left from a
/// state whose due-today cursor is not yet set leaves exactly one cursor
/// active.
pub proof fn lemma_focus_left_exclusive(m: AppModel, today: Seq<char>)
    requires
        m.today_index is None,
    ensures
        spec_focus_left(m, today).general_index is None,
        today_view(m.tasks, today).len() > 0 ==> spec_focus_left(m, today).today_index == Some(
            0usize,
        ),
        today_view(m.tasks, today).len() == 0 ==> spec_focus_left(m, today).today_index is None,
{
}

/// The toggled task's selection is re-resolved from the due-today view
/// exactly when that view's cursor is the active one; with the general
/// cursor active, or none, the general view is used.
pub open spec fn toggle_uses_today_view(m: AppModel) -> bool {
    m.general_index is None && m.today_index is Some
}

/// What a successful toggle does: the first task with the given identity
/// has its completion flipped, the change is appended to the pending
/// queue, and the selection is re-resolved from the view the active
/// cursor is on: the row now occupying the toggled task's position in
/// that view, else the first row, else `None` if the view became empty.
pub open spec fn spec_toggle(m: AppModel, id: Seq<char>, today: Seq<char>) -> AppModel
    recommends
        has_id(m.tasks, id),
{
    let p = first_index_of_id(m.tasks, id);
    let flipped = !m.tasks[p].is_completed;
    let tasks2 = m.tasks.update(p, TaskView { is_completed: flipped, ..m.tasks[p] });
    let changes2 = m.pending_changes.push(
        PendingChangeView::TaskCompletion { task_id: id, completed: flipped },
    );
    let v = if toggle_uses_today_view(m) {
        today_view(tasks2, today)
    } else {
        general_view(tasks2)
    };
    let pos = if toggle_uses_today_view(m) {
        today_view(tasks2.take(p), today).len()
    } else {
        general_view(tasks2.take(p)).len()
    };
    let sel = if pos < v.len() {
        Some(v[pos as int].id)
    } else if v.len() > 0 {
        Some(v[0].id)
    } else {
        None
    };
    AppModel { tasks: tasks2, pending_changes: changes2, selected_task: sel, ..m }
}

/// The wrapped position one step from `cur` in a view of length `len`.
fn shift_index(cur: Option<usize>, len: usize, forward: bool) -> (r: usize)
    requires
        len > 0,
    ensures
        r as int == spec_shift_index(cur, len as int, forward),
        r < len,
{
    match cur {
        None => 0,
        Some(i) => if forward {
            if i >= len - 1 {
                0
            } else {
                i + 1
            }
        } else {
            if i == 0 || i - 1 >= len {
                len - 1
            } else {
                i - 1
            }
        },
    }
}

/// How many tasks among the first `p` of `tasks` are visible: the position
/// a row at `p` occupies in the general view.
fn count_visible_prefix(tasks: &Vec<Task>, p: usize) -> (r: usize)
    requires
        p <= tasks@.len(),
    ensures
        r as int == general_view(tasks.deep_view().take(p as int)).len(),
{
    let mut r: usize = 0;
    let mut i: usize = 0;
    proof {
        reveal(Seq::filter);
        assert(tasks.deep_view().take(0) =~= Seq::<TaskView>::empty());
        assert(general_view(tasks.deep_view().take(0)).len() == 0);
    }
    while i < p
        invariant
            i <= p <= tasks@.len(),
            r <= i,
            r as int == general_view(tasks.deep_view().take(i as int)).len(),
        decreases p - i,
    {
        if !tasks[i].is_completed {
            r += 1;
        }
        proof {
            assert(tasks.deep_view().take(i + 1) =~= tasks.deep_view().take(i as int).push(
                tasks.deep_view()[i as int],
            ));
            lemma_general_view_push(tasks.deep_view().take(i as int), tasks.deep_view()[i as int]);
        }
        i += 1;
    }
    r
}

/// How many tasks among the first `p` of `tasks` sit in the due-today
/// view: the position a row at `p` occupies in that view.
fn count_today_prefix(tasks: &Vec<Task>, p: usize, today: &String) -> (r: usize)
    requires
        p <= tasks@.len(),
    ensures
        r as int == today_view(tasks.deep_view().take(p as int), today@).len(),
{
    let mut r: usize = 0;
    let mut i: usize = 0;
    proof {
        reveal(Seq::filter);
        assert(tasks.deep_view().take(0) =~= Seq::<TaskView>::empty());
        assert(today_view(tasks.deep_view().take(0), today@).len() == 0);
    }
    while i < p
        invariant
            i <= p <= tasks@.len(),
            r <= i,
            r as int == today_view(tasks.deep_view().take(i as int), today@).len(),
        decreases p - i,
    {
        let due_today = match &tasks[i].due {
            Some(d) => d.date == *today,
            None => false,
        };
        if !tasks[i].is_completed && due_today {
            r += 1;
        }
        proof {
            assert(tasks.deep_view().take(i + 1) =~= tasks.deep_view().take(i as int).push(
                tasks.deep_view()[i as int],
            ));
            lemma_today_view_push(
                tasks.deep_view().take(i as int),
                tasks.deep_view()[i as int],
                today@,
            );
        }
        i += 1;
    }
    r
}

impl App {
    /// Constructs a new instance of `App` in the initial state; the caller
    /// fills in whatever the configuration store supplies.
    pub fn new() -> (r: Self)
        ensures
            r.deep_view() == initial_app_model(),
    {
        Self::default()
    }

    /// The tasks of the replica due on `today`, completed or not, in store
    /// order.
    pub fn today_tasks(&self, today: &String) -> (r: Vec<Task>)
        ensures
            r.deep_view() == due_view(self.deep_view().tasks, today@),
    {
        let tasks = &self.tasks;
        let mut r: Vec<Task> = Vec::new();
        let mut i: usize = 0;
        proof {
            assert(r.deep_view() =~= due_view(tasks.deep_view().take(0), today@));
            assert(tasks.deep_view().take(0) =~= Seq::<TaskView>::empty());
            reveal(Seq::filter);
        }
        while i < tasks.len()
            invariant
                i <= tasks.len(),
                r.deep_view() == due_view(tasks.deep_view().take(i as int), today@),
            decreases tasks.len() - i,
        {
            let ghost pre = r.deep_view();
            let due_today = match &tasks[i].due {
                Some(d) => d.date == *today,
                None => false,
            };
            if due_today {
                r.push(tasks[i].clone());
                proof {
                    assert(r.deep_view() =~= pre.push(tasks.deep_view()[i as int]));
                }
            }
            proof {
                assert(tasks.deep_view().take(i + 1) =~= tasks.deep_view().take(i as int).push(
                    tasks.deep_view()[i as int],
                ));
                lemma_due_view_push(
                    tasks.deep_view().take(i as int),
                    tasks.deep_view()[i as int],
                    today@,
                );
            }
            i += 1;
        }
        proof {
            assert(tasks.deep_view().take(tasks@.len() as int) =~= tasks.deep_view());
        }
        r
    }

    /// Handles the tick event of the terminal.
    pub fn tick(&mut self)
        ensures
            final(self).deep_view() == old(self).deep_view(),
    {
    }

    /// The onboarding input holds an acceptable API key: it is non-empty.
    pub fn is_valid_api_key(&self) -> (r: bool)
        ensures
            r == (self.deep_view().input_buffer.len() > 0),
    {
        !self.input_buffer.as_str().is_empty()
    }

    /// Set running to false to quit the application.
    pub fn quit(&mut self)
        ensures
            final(self).deep_view() == (AppModel { running: false, ..old(self).deep_view() }),
    {
        self.running = false;
    }

    /// Increment the counter, saturating at its maximum.
    pub fn increment_counter(&mut self)
        ensures
            final(self).deep_view() == (AppModel {
                counter: if old(self).counter < 255 {
                    (old(self).counter + 1) as u8
                } else {
                    old(self).counter
                },
                ..old(self).deep_view()
            }),
    {
        if let Some(res) = self.counter.checked_add(1) {
            self.counter = res;
        }
    }

    /// Decrement the counter, saturating at zero.
    pub fn decrement_counter(&mut self)
        ensures
            final(self).deep_view() == (AppModel {
                counter: if old(self).counter > 0 {
                    (old(self).counter - 1) as u8
                } else {
                    old(self).counter
                },
                ..old(self).deep_view()
            }),
    {
        if let Some(res) = self.counter.checked_sub(1) {
            self.counter = res;
        }
    }

    /// Adopt a credential recovered from the configuration store at
    /// startup: the key is taken on, onboarding is marked complete, and
    /// the stored refresh interval replaces the default. Everything else
    /// is untouched.
    pub fn restore_session(&mut self, key: String, refresh_interval: u64)
        ensures
            final(self).deep_view() == (AppModel {
                api_key: Some(key@),
                onboarding_complete: true,
                refresh_interval,
                ..old(self).deep_view()
            }),
    {
        self.api_key = Some(key);
        self.onboarding_complete = true;
        self.refresh_interval = refresh_interval;
    }

    /// Record a successfully saved credential: the input buffer becomes the
    /// API key and onboarding is complete.
    pub fn complete_onboarding(&mut self)
        ensures
            final(self).deep_view() == (AppModel {
                api_key: Some(old(self).deep_view().input_buffer),
                onboarding_complete: true,
                ..old(self).deep_view()
            }),
    {
        self.api_key = Some(self.input_buffer.clone());
        self.onboarding_complete = true;
    }

    /// Append one pending change at the tail of the queue; never rejects.
    pub fn enqueue(&mut self, change: PendingChange)
        ensures
            final(self).deep_view() == (AppModel {
                pending_changes: old(self).deep_view().pending_changes.push(change.deep_view()),
                ..old(self).deep_view()
            }),
    {
        let ghost pre = self.pending_changes.deep_view();
        self.pending_changes.push(change);
        proof {
            assert(self.pending_changes.deep_view() =~= pre.push(change.deep_view()));
        }
    }

    /// Atomically take the queue's entire contents, in enqueue order,
    /// leaving the queue empty.
    pub fn drain(&mut self) -> (r: Vec<PendingChange>)
        ensures
            r.deep_view() == old(self).deep_view().pending_changes,
            final(self).deep_view() == (AppModel {
                pending_changes: Seq::empty(),
                ..old(self).deep_view()
            }),
    {
        let mut r: Vec<PendingChange> = Vec::new();
        core::mem::swap(&mut r, &mut self.pending_changes);
        proof {
            assert(self.pending_changes.deep_view() =~= Seq::<PendingChangeView>::empty());
        }
        r
    }

    /// Advance the selection to the next row of the active view, wrapping
    /// past the end.
    pub fn next(&mut self, today: &String)
        ensures
            final(self).deep_view() == spec_next(old(self).deep_view(), today@),
    {
        self.shift(today, true);
    }

    /// Retreat the selection to the previous row of the active view,
    /// wrapping past the start.
    pub fn previous(&mut self, today: &String)
        ensures
            final(self).deep_view() == spec_previous(old(self).deep_view(), today@),
    {
        self.shift(today, false);
    }

    /// Move the cursor of the active view one step in the given direction.
    fn shift(&mut self, today: &String, forward: bool)
        ensures
            final(self).deep_view() == spec_shift(old(self).deep_view(), today@, forward),
    {
        if self.general_index.is_some() {
            let v = filter_general(&self.tasks);
            if v.len() == 0 {
                self.general_index = None;
                self.selected_task = None;
            } else {
                let i = shift_index(self.general_index, v.len(), forward);
                self.general_index = Some(i);
                self.selected_task = Some(v[i].id.clone());
            }
        } else if self.today_index.is_some() {
            let v = filter_today(&self.tasks, today);
            if v.len() == 0 {
                self.today_index = None;
                self.selected_task = None;
            } else {
                let i = shift_index(self.today_index, v.len(), forward);
                self.today_index = Some(i);
                self.selected_task = Some(v[i].id.clone());
            }
        } else {
            let tv = filter_today(&self.tasks, today);
            if tv.len() > 0 {
                self.today_index = Some(0);
                self.selected_task = Some(tv[0].id.clone());
            } else {
                let gv = filter_general(&self.tasks);
                if gv.len() > 0 {
                    self.general_index = Some(0);
                    self.selected_task = Some(gv[0].id.clone());
                } else {
                    self.selected_task = None;
                }
            }
        }
    }

    /// Switch focus to the due-today view: the general cursor is cleared,
    /// and an inactive due-today cursor is seeded at the first row if the
    /// view is non-empty.
    pub fn focus_left(&mut self, today: &String)
        ensures
            final(self).deep_view() == spec_focus_left(old(self).deep_view(), today@),
    {
        if self.today_index.is_none() {
            let tv = filter_today(&self.tasks, today);
            if tv.len() > 0 {
                self.today_index = Some(0);
                self.selected_task = Some(tv[0].id.clone());
            }
        }
        self.general_index = None;
    }

    /// Switch focus to the general view: the due-today cursor is cleared,
    /// and an inactive general cursor is seeded at the first row if the
    /// view is non-empty.
    pub fn focus_right(&mut self)
        ensures
            final(self).deep_view() == spec_focus_right(old(self).deep_view()),
    {
        if self.general_index.is_none() {
            let gv = filter_general(&self.tasks);
            if gv.len() > 0 {
                self.general_index = Some(0);
                self.selected_task = Some(gv[0].id.clone());
            }
        }
        self.today_index = None;
    }

    /// Flip the completion state of the task with identity `task_id`,
    /// enqueue the change for delivery, and re-resolve the selection from
    /// the view whose cursor is active, where the flipped task leaves or
    /// enters. Fails with `TaskNotFound`, mutating nothing, if the
    /// identity does not resolve.
    pub fn toggle_task_completion(&mut self, task_id: String, today: &String) -> (r: Result<
        (),
        AppError,
    >)
        ensures
            has_id(old(self).deep_view().tasks, task_id@) ==> r is Ok && final(self).deep_view()
                == spec_toggle(old(self).deep_view(), task_id@, today@),
            !has_id(old(self).deep_view().tasks, task_id@) ==> final(self).deep_view() == old(
                self,
            ).deep_view() && (r matches Err(e) && e.deep_view() == AppErrorView::TaskNotFound(
                task_id@,
            )),
    {
        let ghost m0 = self.deep_view();
        match find_index_by_id(&self.tasks, &task_id) {
            None => Err(AppError::TaskNotFound(task_id)),
            Some(p) => {
                proof {
                    lemma_first_index_of_id(m0.tasks, task_id@, p as int);
                }
                let flipped = !self.tasks[p].is_completed;
                let mut t = self.tasks[p].clone();
                t.is_completed = flipped;
                self.tasks.set(p, t);
                proof {
                    assert(self.tasks.deep_view() =~= m0.tasks.update(
                        p as int,
                        (TaskView { is_completed: flipped, ..m0.tasks[p as int] }),
                    ));
                }
                let ghost pre = self.pending_changes.deep_view();
                self.pending_changes.push(
                    PendingChange::TaskCompletion { task_id, completed: flipped },
                );
                proof {
                    assert(self.pending_changes.deep_view() =~= pre.push(
                        (PendingChangeView::TaskCompletion { task_id: task_id@, completed: flipped }),
                    ));
                }
                let from_today = self.general_index.is_none() && self.today_index.is_some();
                let (v, pos) = if from_today {
                    (filter_today(&self.tasks, today), count_today_prefix(&self.tasks, p, today))
                } else {
                    (filter_general(&self.tasks), count_visible_prefix(&self.tasks, p))
                };
                self.selected_task = if pos < v.len() {
                    Some(v[pos].id.clone())
                } else if v.len() > 0 {
                    Some(v[0].id.clone())
                } else {
                    None
                };
                Ok(())
            },
        }
    }

    /// Replace the replica with the reconciliation of the fetched snapshot
    /// against it; everything else is untouched.
    pub fn apply_snapshot(&mut self, fetched: &Vec<Task>)
        ensures
            final(self).deep_view() == (AppModel {
                tasks: spec_merge(old(self).deep_view().tasks, fetched.deep_view()),
                ..old(self).deep_view()
            }),
    {
        let merged = merge(&self.tasks, fetched);
        self.tasks = merged;
    }
}

} // verus!
