//! An in-memory [`TaskRepository`]: it works without any outside backend and
//! serves tests and the `--backend memory` demo. Its data ends with the process.

use vstd::prelude::*;

use crate::domain::model::{
    filter_matches_s, task_views, Filter, NewTask, NewTaskView, Status, Task, TaskPatch,
    TaskPatchView, TaskView,
};
use crate::domain::service::matching_s;
use crate::error::{Error, ErrorView};
use crate::ports::TaskRepository;
use crate::text::{chars_of, decimal_s, digit_c, push_decimal, push_str, string_views};

verus! {

/// The id that the store gives its `n`-th created task: `mem-n`.
pub open spec fn mem_id_s(n: nat) -> Seq<char> {
    "mem-"@ + decimal_s(n)
}

/// The abstract state of the store: its tasks in creation order, and the
/// number of the next id to hand out.
pub struct MemoryView {
    pub tasks: Seq<TaskView>,
    pub next_id: nat,
}

/// The store's invariant: ids are `mem-k` for numbers below the next one, and
/// no two tasks share an id.
pub open spec fn memory_wf(m: MemoryView) -> bool {
    &&& m.next_id >= 1
    &&& forall|i: int| 0 <= i < m.tasks.len() ==> exists|k: nat| 1 <= k < m.next_id && #[trigger] m.tasks[i].id == mem_id_s(k)
    &&& forall|i: int, j: int| 0 <= i < j < m.tasks.len() ==> #[trigger] m.tasks[i].id != #[trigger] m.tasks[j].id
}

/// The first position at or after `i` of a task with the given id.
pub open spec fn find_id_from(ts: Seq<TaskView>, id: Seq<char>, i: int) -> Option<int>
    decreases ts.len() - i,
{
    if i < 0 || i >= ts.len() {
        None
    } else if ts[i].id == id {
        Some(i)
    } else {
        find_id_from(ts, id, i + 1)
    }
}

/// The position of the task with the given id.
pub open spec fn index_of_id(ts: Seq<TaskView>, id: Seq<char>) -> Option<int> {
    find_id_from(ts, id, 0)
}

/// The task that `create` stores for a request, under a given id.
pub open spec fn created_task_s(t: NewTaskView, id: Seq<char>) -> TaskView {
    TaskView {
        id,
        title: t.title,
        description: t.description,
        status: Status::Open,
        priority: t.priority,
        assignee: None,
        labels: t.labels,
        parent: t.parent,
    }
}

/// A task with a patch applied: every field the patch names takes the new
/// value; the others keep theirs.
pub open spec fn patched_s(t: TaskView, p: TaskPatchView) -> TaskView {
    TaskView {
        id: t.id,
        title: match p.title {
            Some(v) => v,
            None => t.title,
        },
        description: match p.description {
            Some(v) => Some(v),
            None => t.description,
        },
        status: match p.status {
            Some(v) => v,
            None => t.status,
        },
        priority: match p.priority {
            Some(v) => v,
            None => t.priority,
        },
        assignee: match p.assignee {
            Some(v) => Some(v),
            None => t.assignee,
        },
        labels: match p.labels {
            Some(v) => v,
            None => t.labels,
        },
        parent: t.parent,
    }
}

/// A task with another status.
pub open spec fn with_status_s(t: TaskView, s: Status) -> TaskView {
    TaskView { status: s, ..t }
}

/// The message of the error when the store has handed out every id.
pub open spec fn ids_exhausted_message() -> Seq<char> {
    "메모리 저장소의 작업 ID가 소진되었습니다"@
}

/// The view of a result that carries a string.
pub open spec fn string_result_view(r: Result<String, Error>) -> Result<Seq<char>, ErrorView> {
    match r {
        Ok(s) => Ok(s@),
        Err(e) => Err(e@),
    }
}

/// The view of a result that carries a task.
pub open spec fn task_result_view(r: Result<Task, Error>) -> Result<TaskView, ErrorView> {
    match r {
        Ok(t) => Ok(t@),
        Err(e) => Err(e@),
    }
}

/// The view of a result that carries nothing.
pub open spec fn unit_result_view(r: Result<(), Error>) -> Result<(), ErrorView> {
    match r {
        Ok(u) => Ok(u),
        Err(e) => Err(e@),
    }
}

/// `get` on the model: the task with the id, or `NotFound(id)`.
pub open spec fn mem_get_s(m: MemoryView, id: Seq<char>) -> Result<TaskView, ErrorView> {
    match index_of_id(m.tasks, id) {
        Some(k) => Ok(m.tasks[k]),
        None => Err(ErrorView::NotFound(id)),
    }
}

/// `create` on the model: the next id, a new open task at the end; or, when
/// the counter has no next value, a backend error and no change.
pub open spec fn mem_create_s(m: MemoryView, t: NewTaskView) -> (MemoryView, Result<Seq<char>, ErrorView>) {
    if m.next_id < u64::MAX {
        let id = mem_id_s(m.next_id);
        (
            MemoryView { tasks: m.tasks.push(created_task_s(t, id)), next_id: m.next_id + 1 },
            Ok(id),
        )
    } else {
        (m, Err(ErrorView::Backend(ids_exhausted_message())))
    }
}

/// Replaces the task with the given id by `f` of it; `NotFound(id)` and no
/// change when there is none.
pub open spec fn mem_change_s(m: MemoryView, id: Seq<char>, f: spec_fn(TaskView) -> TaskView) -> (MemoryView, Result<(), ErrorView>) {
    match index_of_id(m.tasks, id) {
        Some(k) => (MemoryView { tasks: m.tasks.update(k, f(m.tasks[k])), ..m }, Ok(())),
        None => (m, Err(ErrorView::NotFound(id))),
    }
}

/// `update` on the model.
pub open spec fn mem_update_s(m: MemoryView, id: Seq<char>, p: TaskPatchView) -> (MemoryView, Result<(), ErrorView>) {
    mem_change_s(m, id, |t: TaskView| patched_s(t, p))
}

/// `set_status` on the model.
pub open spec fn mem_set_status_s(m: MemoryView, id: Seq<char>, s: Status) -> (MemoryView, Result<(), ErrorView>) {
    mem_change_s(m, id, |t: TaskView| with_status_s(t, s))
}

/// `delete` on the model: the task with the id leaves; `NotFound(id)` and no
/// change when there is none.
pub open spec fn mem_delete_s(m: MemoryView, id: Seq<char>) -> (MemoryView, Result<(), ErrorView>) {
    match index_of_id(m.tasks, id) {
        Some(k) => (MemoryView { tasks: m.tasks.remove(k), ..m }, Ok(())),
        None => (m, Err(ErrorView::NotFound(id))),
    }
}

/// A single-threaded in-memory task store.
pub struct MemoryRepository {
    tasks: Vec<Task>,
    next_id: u64,
}

impl View for MemoryRepository {
    type V = MemoryView;

    closed spec fn view(&self) -> MemoryView {
        MemoryView { tasks: task_views(self.tasks@), next_id: self.next_id as nat }
    }
}

proof fn lemma_digit_injective(a: nat, b: nat)
    requires
        a < 10,
        b < 10,
        digit_c(a) == digit_c(b),
    ensures
        a == b,
{
}

proof fn lemma_decimal_len(n: nat)
    ensures
        decimal_s(n).len() >= 1,
        n >= 10 ==> decimal_s(n).len() >= 2,
    decreases n,
{
    if n >= 10 {
        lemma_decimal_len(n / 10);
    }
}

/// Different numbers have different decimal representations.
proof fn lemma_decimal_injective(a: nat, b: nat)
    requires
        decimal_s(a) == decimal_s(b),
    ensures
        a == b,
    decreases a,
{
    lemma_decimal_len(a);
    lemma_decimal_len(b);
    if a < 10 && b < 10 {
        assert(decimal_s(a) == seq![digit_c(a)]);
        assert(decimal_s(b) == seq![digit_c(b)]);
        assert(seq![digit_c(a)][0] == digit_c(a));
        assert(seq![digit_c(b)][0] == digit_c(b));
        assert(decimal_s(a)[0] == decimal_s(b)[0]);
        lemma_digit_injective(a, b);
    } else if a >= 10 && b >= 10 {
        let da = decimal_s(a / 10).push(digit_c(a % 10));
        let db = decimal_s(b / 10).push(digit_c(b % 10));
        assert(decimal_s(a) == da);
        assert(decimal_s(b) == db);
        assert(da.last() == db.last());
        lemma_digit_injective(a % 10, b % 10);
        assert(da.drop_last() == decimal_s(a / 10));
        assert(db.drop_last() == decimal_s(b / 10));
        lemma_decimal_injective(a / 10, b / 10);
    }
}

proof fn lemma_mem_id_injective(a: nat, b: nat)
    requires
        mem_id_s(a) == mem_id_s(b),
    ensures
        a == b,
{
    reveal_strlit("mem-");
    assert(mem_id_s(a).skip(4) == decimal_s(a));
    assert(mem_id_s(b).skip(4) == decimal_s(b));
    lemma_decimal_injective(a, b);
}

proof fn lemma_find_id_from(ts: Seq<TaskView>, id: Seq<char>, i: int)
    requires
        0 <= i,
    ensures
        find_id_from(ts, id, i) matches Some(k) ==> i <= k < ts.len() && ts[k].id == id
            && forall|j: int| i <= j < k ==> ts[j].id != id,
        find_id_from(ts, id, i) is None ==> forall|j: int| i <= j < ts.len() ==> ts[j].id != id,
    decreases ts.len() - i,
{
    if i < ts.len() && ts[i].id != id {
        lemma_find_id_from(ts, id, i + 1);
    }
}

/// Whether two strings have the same characters.
fn str_eq(a: &str, b: &str) -> (r: bool)
    ensures
        r == (a@ == b@),
{
    let x = chars_of(a);
    let y = chars_of(b);
    if x.len() != y.len() {
        return false;
    }
    let mut i: usize = 0;
    while i < x.len()
        invariant
            i <= x.len(),
            x.len() == y.len(),
            x@ == a@,
            y@ == b@,
            forall|j: int| 0 <= j < i ==> x@[j] == y@[j],
        decreases x.len() - i,
    {
        if x[i] != y[i] {
            assert(x@[i as int] != y@[i as int]);
            return false;
        }
        i = i + 1;
    }
    assert(x@ == y@);
    true
}

/// A copy of a string.
pub fn copy_string(s: &String) -> (r: String)
    ensures
        r@ == s@,
{
    s.clone()
}

/// A copy of an optional string.
pub fn copy_opt_string(s: &Option<String>) -> (r: Option<String>)
    ensures
        crate::text::opt_string_view(r) == crate::text::opt_string_view(*s),
{
    match s {
        Some(v) => Some(v.clone()),
        None => None,
    }
}

/// A copy of a list of strings.
pub fn copy_strings(v: &Vec<String>) -> (r: Vec<String>)
    ensures
        string_views(r@) == string_views(v@),
{
    let mut r: Vec<String> = Vec::new();
    let mut i: usize = 0;
    while i < v.len()
        invariant
            i <= v.len(),
            string_views(r@) == string_views(v@).take(i as int),
        decreases v.len() - i,
    {
        let ghost before = string_views(r@);
        r.push(v[i].clone());
        assert(string_views(r@) == before.push(v@[i as int]@));
        assert(string_views(v@).take(i + 1) == string_views(v@).take(i as int).push(v@[i as int]@));
        i = i + 1;
    }
    assert(string_views(v@).take(v.len() as int) == string_views(v@));
    r
}

/// A copy of a task.
pub fn copy_task(t: &Task) -> (r: Task)
    ensures
        r@ == t@,
{
    Task {
        id: t.id.clone(),
        title: t.title.clone(),
        description: copy_opt_string(&t.description),
        status: t.status,
        priority: t.priority,
        assignee: copy_opt_string(&t.assignee),
        labels: copy_strings(&t.labels),
        parent: copy_opt_string(&t.parent),
    }
}

impl MemoryRepository {
    #[verifier::type_invariant]
    closed spec fn inv(self) -> bool {
        memory_wf(self@)
    }

    /// An empty store; the first id it hands out is `mem-1`.
    pub fn new() -> (r: MemoryRepository)
        ensures
            r@.tasks.len() == 0,
            r@.next_id == 1,
            memory_wf(r@),
    {
        MemoryRepository { tasks: Vec::new(), next_id: 1 }
    }

    /// The position of the task with the given id, or `NotFound(id)`.
    fn find_index(&self, id: &str) -> (r: Result<usize, Error>)
        ensures
            r matches Ok(k) ==> index_of_id(self@.tasks, id@) == Some(k as int) && k < self@.tasks.len()
                && self@.tasks[k as int].id == id@,
            r is Err ==> index_of_id(self@.tasks, id@) is None,
            r matches Err(e) ==> e@ == crate::error::ErrorView::NotFound(id@),
    {
        let mut i: usize = 0;
        while i < self.tasks.len()
            invariant
                i <= self.tasks.len(),
                index_of_id(self@.tasks, id@) == find_id_from(self@.tasks, id@, i as int),
            decreases self.tasks.len() - i,
        {
            if str_eq(self.tasks[i].id.as_str(), id) {
                proof {
                    lemma_find_id_from(self@.tasks, id@, i as int);
                }
                return Ok(i);
            }
            i = i + 1;
        }
        Err(Error::NotFound(String::from_str(id)))
    }
}


impl TaskRepository for MemoryRepository {
    fn name(&self) -> (r: &str)
        ensures
            r@ == "memory"@,
    {
        "memory"
    }

    /// The stored tasks that pass the filter, in creation order.
    fn list(&self, filter: &Filter) -> (r: Result<Vec<Task>, Error>)
        ensures
            r matches Ok(v) && task_views(v@) == matching_s(self@.tasks, filter@),
    {
        let ghost p = |t: TaskView| filter_matches_s(filter@, t);
        let mut out: Vec<Task> = Vec::new();
        let mut i: usize = 0;
        while i < self.tasks.len()
            invariant
                i <= self.tasks.len(),
                p == (|t: TaskView| filter_matches_s(filter@, t)),
                task_views(out@) == self@.tasks.take(i as int).filter(p),
            decreases self.tasks.len() - i,
        {
            reveal_with_fuel(Seq::filter, 1);
            let ghost before = task_views(out@);
            assert(self@.tasks.take(i + 1).drop_last() == self@.tasks.take(i as int));
            assert(self@.tasks.take(i + 1).last() == self.tasks@[i as int]@);
            let keep = filter.matches(&self.tasks[i]);
            if keep {
                out.push(copy_task(&self.tasks[i]));
                assert(task_views(out@) == before.push(self.tasks@[i as int]@));
            }
            i = i + 1;
        }
        assert(self@.tasks.take(self.tasks.len() as int) == self@.tasks);
        Ok(out)
    }

    fn get(&self, id: &str) -> (r: Result<Task, Error>)
        ensures
            task_result_view(r) == mem_get_s(self@, id@),
    {
        let k = self.find_index(id)?;
        Ok(copy_task(&self.tasks[k]))
    }

    fn create(&mut self, task: &NewTask) -> (r: Result<String, Error>)
        ensures
            (final(self)@, string_result_view(r)) == mem_create_s(old(self)@, task@),
            memory_wf(final(self)@),
    {
        proof {
            use_type_invariant(&*self);
        }
        if self.next_id == u64::MAX {
            return Err(Error::Backend(String::from_str("메모리 저장소의 작업 ID가 소진되었습니다")));
        }
        let n = self.next_id;
        let mut id = String::new();
        push_str(&mut id, "mem-");
        push_decimal(&mut id, n);
        let t = Task {
            id: id.clone(),
            title: task.title.clone(),
            description: copy_opt_string(&task.description),
            status: Status::Open,
            priority: task.priority,
            assignee: None,
            labels: copy_strings(&task.labels),
            parent: copy_opt_string(&task.parent),
        };
        assert(t@ == created_task_s(task@, mem_id_s(n as nat)));
        self.next_id = n + 1;
        proof {
            assert forall|i: int| 0 <= i < self@.tasks.len() implies self@.tasks[i].id != mem_id_s(n as nat) by {
                let k = choose|k: nat| 1 <= k < n && #[trigger] self@.tasks[i].id == mem_id_s(k);
                if self@.tasks[i].id == mem_id_s(n as nat) {
                    lemma_mem_id_injective(k, n as nat);
                }
            }
        }
        let ghost before = self@.tasks;
        let mut tasks: Vec<Task> = Vec::new();
        std::mem::swap(&mut tasks, &mut self.tasks);
        tasks.push(t);
        assert(task_views(tasks@) == before.push(created_task_s(task@, mem_id_s(n as nat))));
        self.tasks = tasks;
        Ok(id)
    }

    fn update(&mut self, id: &str, patch: &TaskPatch) -> (r: Result<(), Error>)
        ensures
            (final(self)@, unit_result_view(r)) == mem_update_s(old(self)@, id@, patch@),
            memory_wf(final(self)@),
    {
        proof {
            use_type_invariant(&*self);
        }
        let k = self.find_index(id)?;
        let cur = &self.tasks[k];
        let t = Task {
            id: cur.id.clone(),
            title: match &patch.title {
                Some(v) => v.clone(),
                None => cur.title.clone(),
            },
            description: match &patch.description {
                Some(v) => Some(v.clone()),
                None => copy_opt_string(&cur.description),
            },
            status: match patch.status {
                Some(v) => v,
                None => cur.status,
            },
            priority: match patch.priority {
                Some(v) => v,
                None => cur.priority,
            },
            assignee: match &patch.assignee {
                Some(v) => Some(v.clone()),
                None => copy_opt_string(&cur.assignee),
            },
            labels: match &patch.labels {
                Some(v) => copy_strings(v),
                None => copy_strings(&cur.labels),
            },
            parent: copy_opt_string(&cur.parent),
        };
        assert(t@ == patched_s(self@.tasks[k as int], patch@));
        let ghost before = self@.tasks;
        let mut tasks: Vec<Task> = Vec::new();
        std::mem::swap(&mut tasks, &mut self.tasks);
        tasks.set(k, t);
        assert(task_views(tasks@) == before.update(k as int, patched_s(before[k as int], patch@)));
        self.tasks = tasks;
        Ok(())
    }

    fn set_status(&mut self, id: &str, status: Status) -> (r: Result<(), Error>)
        ensures
            (final(self)@, unit_result_view(r)) == mem_set_status_s(old(self)@, id@, status),
            memory_wf(final(self)@),
    {
        proof {
            use_type_invariant(&*self);
        }
        let k = self.find_index(id)?;
        let mut t = copy_task(&self.tasks[k]);
        t.status = status;
        let ghost before = self@.tasks;
        let mut tasks: Vec<Task> = Vec::new();
        std::mem::swap(&mut tasks, &mut self.tasks);
        tasks.set(k, t);
        assert(task_views(tasks@) == before.update(k as int, with_status_s(before[k as int], status)));
        self.tasks = tasks;
        Ok(())
    }

    fn delete(&mut self, id: &str) -> (r: Result<(), Error>)
        ensures
            (final(self)@, unit_result_view(r)) == mem_delete_s(old(self)@, id@),
            memory_wf(final(self)@),
    {
        proof {
            use_type_invariant(&*self);
        }
        let k = self.find_index(id)?;
        let ghost before = self@.tasks;
        let mut tasks: Vec<Task> = Vec::new();
        std::mem::swap(&mut tasks, &mut self.tasks);
        tasks.remove(k);
        assert(task_views(tasks@) == before.remove(k as int));
        self.tasks = tasks;
        Ok(())
    }
}


proof fn lemma_find_id_absent(ts: Seq<TaskView>, id: Seq<char>, i: int)
    requires
        0 <= i,
        forall|j: int| 0 <= j < ts.len() ==> ts[j].id != id,
    ensures
        find_id_from(ts, id, i) is None,
    decreases ts.len() - i,
{
    if i < ts.len() {
        lemma_find_id_absent(ts, id, i + 1);
    }
}

proof fn lemma_find_id_last(ts: Seq<TaskView>, id: Seq<char>, i: int)
    requires
        0 <= i <= ts.len() - 1,
        ts.last().id == id,
        forall|j: int| 0 <= j < ts.len() - 1 ==> ts[j].id != id,
    ensures
        find_id_from(ts, id, i) == Some(ts.len() - 1),
    decreases ts.len() - i,
{
    if i < ts.len() - 1 {
        lemma_find_id_last(ts, id, i + 1);
    }
}

proof fn lemma_find_id_update(ts: Seq<TaskView>, id: Seq<char>, k: int, x: TaskView, i: int)
    requires
        0 <= i,
        0 <= k < ts.len(),
        x.id == ts[k].id,
    ensures
        find_id_from(ts.update(k, x), id, i) == find_id_from(ts, id, i),
    decreases ts.len() - i,
{
    if i < ts.len() {
        lemma_find_id_update(ts, id, k, x, i + 1);
    }
}

/// The id a store creates is new to it: no stored task has it.
proof fn lemma_next_id_fresh(m: MemoryView)
    requires
        memory_wf(m),
    ensures
        forall|j: int| 0 <= j < m.tasks.len() ==> m.tasks[j].id != mem_id_s(m.next_id),
{
    assert forall|j: int| 0 <= j < m.tasks.len() implies m.tasks[j].id != mem_id_s(m.next_id) by {
        let k = choose|k: nat| 1 <= k < m.next_id && #[trigger] m.tasks[j].id == mem_id_s(k);
        if m.tasks[j].id == mem_id_s(m.next_id) {
            lemma_mem_id_injective(k, m.next_id);
        }
    }
}

/// What a read gives back of a create: the id that `create` returns finds
/// a new open task, unassigned, that carries the request's title,
/// description, priority, labels and parent.
pub proof fn lemma_get_after_create(m: MemoryView, t: NewTaskView)
    requires
        memory_wf(m),
        m.next_id < u64::MAX,
    ensures
        mem_create_s(m, t).1 == Ok::<Seq<char>, ErrorView>(mem_id_s(m.next_id)),
        mem_get_s(mem_create_s(m, t).0, mem_id_s(m.next_id)) is Ok,
        mem_get_s(mem_create_s(m, t).0, mem_id_s(m.next_id))->Ok_0.id == mem_id_s(m.next_id),
        mem_get_s(mem_create_s(m, t).0, mem_id_s(m.next_id))->Ok_0.title == t.title,
        mem_get_s(mem_create_s(m, t).0, mem_id_s(m.next_id))->Ok_0.description == t.description,
        mem_get_s(mem_create_s(m, t).0, mem_id_s(m.next_id))->Ok_0.status == Status::Open,
        mem_get_s(mem_create_s(m, t).0, mem_id_s(m.next_id))->Ok_0.priority == t.priority,
        mem_get_s(mem_create_s(m, t).0, mem_id_s(m.next_id))->Ok_0.assignee is None,
        mem_get_s(mem_create_s(m, t).0, mem_id_s(m.next_id))->Ok_0.labels == t.labels,
        mem_get_s(mem_create_s(m, t).0, mem_id_s(m.next_id))->Ok_0.parent == t.parent,
{
    let id = mem_id_s(m.next_id);
    let ts = m.tasks.push(created_task_s(t, id));
    lemma_next_id_fresh(m);
    assert forall|j: int| 0 <= j < ts.len() - 1 implies ts[j].id != id by {
        assert(ts[j] == m.tasks[j]);
    }
    lemma_find_id_last(ts, id, 0);
}

/// What a read gives back of an update: each field the patch names has the
/// patch's value, every other field (and the id and parent) is as before.
pub proof fn lemma_get_after_update(m: MemoryView, id: Seq<char>, p: TaskPatchView)
    requires
        mem_get_s(m, id) is Ok,
    ensures
        mem_update_s(m, id, p).1 is Ok,
        mem_get_s(mem_update_s(m, id, p).0, id) is Ok,
        mem_get_s(mem_update_s(m, id, p).0, id)->Ok_0.id == mem_get_s(m, id)->Ok_0.id,
        mem_get_s(mem_update_s(m, id, p).0, id)->Ok_0.parent == mem_get_s(m, id)->Ok_0.parent,
        p.title matches Some(v) ==> mem_get_s(mem_update_s(m, id, p).0, id)->Ok_0.title == v,
        p.title is None ==> mem_get_s(mem_update_s(m, id, p).0, id)->Ok_0.title == mem_get_s(m, id)->Ok_0.title,
        p.description matches Some(v) ==> mem_get_s(mem_update_s(m, id, p).0, id)->Ok_0.description
            == Some(v),
        p.description is None ==> mem_get_s(mem_update_s(m, id, p).0, id)->Ok_0.description
            == mem_get_s(m, id)->Ok_0.description,
        p.status matches Some(v) ==> mem_get_s(mem_update_s(m, id, p).0, id)->Ok_0.status == v,
        p.status is None ==> mem_get_s(mem_update_s(m, id, p).0, id)->Ok_0.status == mem_get_s(m, id)->Ok_0.status,
        p.priority matches Some(v) ==> mem_get_s(mem_update_s(m, id, p).0, id)->Ok_0.priority == v,
        p.priority is None ==> mem_get_s(mem_update_s(m, id, p).0, id)->Ok_0.priority
            == mem_get_s(m, id)->Ok_0.priority,
        p.assignee matches Some(v) ==> mem_get_s(mem_update_s(m, id, p).0, id)->Ok_0.assignee == Some(v),
        p.assignee is None ==> mem_get_s(mem_update_s(m, id, p).0, id)->Ok_0.assignee
            == mem_get_s(m, id)->Ok_0.assignee,
        p.labels matches Some(v) ==> mem_get_s(mem_update_s(m, id, p).0, id)->Ok_0.labels == v,
        p.labels is None ==> mem_get_s(mem_update_s(m, id, p).0, id)->Ok_0.labels
            == mem_get_s(m, id)->Ok_0.labels,
{
    let k = index_of_id(m.tasks, id)->0;
    lemma_find_id_from(m.tasks, id, 0);
    lemma_find_id_update(m.tasks, id, k, patched_s(m.tasks[k], p), 0);
}

/// What a read gives back of a status change: the task with the new status
/// and every other field as before.
pub proof fn lemma_get_after_set_status(m: MemoryView, id: Seq<char>, s: Status)
    requires
        mem_get_s(m, id) is Ok,
    ensures
        mem_set_status_s(m, id, s).1 is Ok,
        mem_get_s(mem_set_status_s(m, id, s).0, id) is Ok,
        mem_get_s(mem_set_status_s(m, id, s).0, id)->Ok_0.status == s,
        mem_get_s(mem_set_status_s(m, id, s).0, id)->Ok_0 == (TaskView {
            status: s,
            ..mem_get_s(m, id)->Ok_0
        }),
{
    let k = index_of_id(m.tasks, id)->0;
    lemma_find_id_from(m.tasks, id, 0);
    lemma_find_id_update(m.tasks, id, k, with_status_s(m.tasks[k], s), 0);
}

/// A deleted task is gone: reading its id afterwards answers `NotFound`.
pub proof fn lemma_get_after_delete(m: MemoryView, id: Seq<char>)
    requires
        memory_wf(m),
    ensures
        mem_get_s(mem_delete_s(m, id).0, id) == Err::<TaskView, ErrorView>(ErrorView::NotFound(id)),
{
    lemma_find_id_from(m.tasks, id, 0);
    match index_of_id(m.tasks, id) {
        Some(k) => {
            let ts = m.tasks.remove(k);
            assert forall|j: int| 0 <= j < ts.len() implies ts[j].id != id by {
                if j < k {
                    assert(ts[j] == m.tasks[j]);
                } else {
                    assert(ts[j] == m.tasks[j + 1]);
                }
            }
            lemma_find_id_absent(ts, id, 0);
        },
        None => {},
    }
}

} // verus!

verus! {

/// One request to the store, by its abstract arguments.
pub enum MemOp {
    Create(NewTaskView),
    Update(Seq<char>, TaskPatchView),
    SetStatus(Seq<char>, Status),
    Delete(Seq<char>),
}

/// The store after one request.
pub open spec fn mem_after_s(m: MemoryView, op: MemOp) -> MemoryView {
    match op {
        MemOp::Create(t) => mem_create_s(m, t).0,
        MemOp::Update(id, p) => mem_update_s(m, id, p).0,
        MemOp::SetStatus(id, s) => mem_set_status_s(m, id, s).0,
        MemOp::Delete(id) => mem_delete_s(m, id).0,
    }
}

/// The store after a new store has served the requests in order.
pub open spec fn mem_run_s(ops: Seq<MemOp>) -> MemoryView
    decreases ops.len(),
{
    if ops.len() == 0 {
        MemoryView { tasks: Seq::empty(), next_id: 1 }
    } else {
        mem_after_s(mem_run_s(ops.drop_last()), ops.last())
    }
}

/// How many of the requests are creates.
pub open spec fn creates_s(ops: Seq<MemOp>) -> nat
    decreases ops.len(),
{
    if ops.len() == 0 {
        0
    } else {
        creates_s(ops.drop_last()) + if ops.last() is Create {
            1nat
        } else {
            0nat
        }
    }
}

/// The next id of a store counts its creates: after `k` creates it is `k + 1`.
pub proof fn lemma_next_id_counts_creates(ops: Seq<MemOp>)
    requires
        creates_s(ops) < u64::MAX,
    ensures
        mem_run_s(ops).next_id == creates_s(ops) + 1,
    decreases ops.len(),
{
    if ops.len() > 0 {
        lemma_next_id_counts_creates(ops.drop_last());
    }
}

/// A create after `k` earlier creates returns the id `mem-(k+1)`.
pub proof fn lemma_create_id_after_history(ops: Seq<MemOp>, t: NewTaskView)
    requires
        creates_s(ops) + 1 < u64::MAX,
    ensures
        mem_create_s(mem_run_s(ops), t).1 == Ok::<Seq<char>, ErrorView>(mem_id_s(creates_s(ops) + 1)),
{
    lemma_next_id_counts_creates(ops);
}

proof fn lemma_creates_take_mono(ops: Seq<MemOp>, a: int, b: int)
    requires
        0 <= a <= b <= ops.len(),
    ensures
        creates_s(ops.take(a)) <= creates_s(ops.take(b)),
    decreases b - a,
{
    if a < b {
        assert(ops.take(b).drop_last() == ops.take(b - 1));
        lemma_creates_take_mono(ops, a, b - 1);
    }
}

/// Ids are never reused: two creates at different points of a history (even
/// with deletes between them) return different ids.
pub proof fn lemma_ids_never_reused(ops: Seq<MemOp>, i: int, j: int)
    requires
        0 <= i < j < ops.len(),
        ops[i] is Create,
        ops[j] is Create,
        creates_s(ops) < u64::MAX,
    ensures
        mem_create_s(mem_run_s(ops.take(i)), ops[i]->Create_0).1 != mem_create_s(
            mem_run_s(ops.take(j)),
            ops[j]->Create_0,
        ).1,
{
    assert(ops.take(i + 1).drop_last() == ops.take(i));
    assert(ops.take(i + 1).last() == ops[i]);
    lemma_creates_take_mono(ops, i + 1, j);
    assert(ops.take(j + 1).drop_last() == ops.take(j));
    assert(ops.take(j + 1).last() == ops[j]);
    lemma_creates_take_mono(ops, j + 1, ops.len() as int);
    assert(ops.take(ops.len() as int) == ops);
    lemma_create_id_after_history(ops.take(i), ops[i]->Create_0);
    lemma_create_id_after_history(ops.take(j), ops[j]->Create_0);
    if mem_id_s(creates_s(ops.take(i)) + 1) == mem_id_s(creates_s(ops.take(j)) + 1) {
        lemma_mem_id_injective(creates_s(ops.take(i)) + 1, creates_s(ops.take(j)) + 1);
    }
}

} // verus!
