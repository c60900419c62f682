//! The application service: it implements the inbound port on top of any
//! outbound store, and holds the backend-neutral rules (input validation and
//! the order of task lists).

use vstd::prelude::*;

use crate::domain::model::{
    filter_matches_s, priority_num_s, status_order_s, task_views, Filter, NewTask, Status, Task,
    TaskPatch, TaskView, patch_is_empty_s,
};
use crate::error::Error;
use crate::ports::{TaskApi, TaskRepository};
use crate::text::{chars_of, is_blank, is_ws, lemma_trim_empty, trim_s};

verus! {

broadcast use vstd::seq_lib::group_to_multiset_ensures;

/// `a` comes before `b` in code-point lexicographic order (the order of
/// `String`'s `Ord`: byte order of UTF-8 agrees with code-point order).
pub open spec fn title_lt(a: Seq<char>, b: Seq<char>) -> bool
    decreases a.len(),
{
    if a.len() == 0 {
        b.len() > 0
    } else if b.len() == 0 {
        false
    } else if a[0] < b[0] {
        true
    } else if a[0] == b[0] {
        title_lt(a.drop_first(), b.drop_first())
    } else {
        false
    }
}

/// Task `a` sorts strictly before task `b`: by status weight, then priority
/// (higher first), then title.
pub open spec fn key_lt(a: TaskView, b: TaskView) -> bool {
    ||| status_order_s(a.status) < status_order_s(b.status)
    ||| (status_order_s(a.status) == status_order_s(b.status) && priority_num_s(a.priority)
        < priority_num_s(b.priority))
    ||| (status_order_s(a.status) == status_order_s(b.status) && priority_num_s(a.priority)
        == priority_num_s(b.priority) && title_lt(a.title, b.title))
}

/// Tasks `a` and `b` have the same sort key.
pub open spec fn same_key(a: TaskView, b: TaskView) -> bool {
    &&& status_order_s(a.status) == status_order_s(b.status)
    &&& priority_num_s(a.priority) == priority_num_s(b.priority)
    &&& a.title == b.title
}

/// No task of `s` sorts before one that precedes it.
pub open spec fn sorted_by_key(s: Seq<TaskView>) -> bool {
    forall|i: int, j: int| 0 <= i < j < s.len() ==> !key_lt(#[trigger] s[j], #[trigger] s[i])
}

/// The tasks of `s` with the sort key of `t`, in their order in `s`.
pub open spec fn key_class(s: Seq<TaskView>, t: TaskView) -> Seq<TaskView> {
    s.filter(|u: TaskView| same_key(u, t))
}

/// `out` is the stable sort of `input` by the sort key: sorted, with the same
/// tasks, and tasks with equal keys in their input order.
pub open spec fn is_ordering_of(out: Seq<TaskView>, input: Seq<TaskView>) -> bool {
    &&& sorted_by_key(out)
    &&& out.to_multiset() == input.to_multiset()
    &&& forall|t: TaskView| #[trigger] key_class(out, t) == key_class(input, t)
}

proof fn lemma_title_lt_irrefl(a: Seq<char>)
    ensures
        !title_lt(a, a),
    decreases a.len(),
{
    if a.len() > 0 {
        lemma_title_lt_irrefl(a.drop_first());
    }
}

proof fn lemma_title_lt_asym(a: Seq<char>, b: Seq<char>)
    requires
        title_lt(a, b),
    ensures
        !title_lt(b, a),
    decreases a.len(),
{
    if a.len() > 0 && b.len() > 0 && a[0] == b[0] {
        lemma_title_lt_asym(a.drop_first(), b.drop_first());
    }
}

proof fn lemma_title_lt_trans(a: Seq<char>, b: Seq<char>, c: Seq<char>)
    requires
        title_lt(a, b),
        title_lt(b, c),
    ensures
        title_lt(a, c),
    decreases a.len(),
{
    if a.len() > 0 && b.len() > 0 && c.len() > 0 && a[0] == b[0] && b[0] == c[0] {
        lemma_title_lt_trans(a.drop_first(), b.drop_first(), c.drop_first());
    }
}

proof fn lemma_title_lt_total(a: Seq<char>, b: Seq<char>)
    ensures
        title_lt(a, b) || title_lt(b, a) || a == b,
    decreases a.len(),
{
    if a.len() > 0 && b.len() > 0 {
        if a[0] == b[0] {
            lemma_title_lt_total(a.drop_first(), b.drop_first());
            if a.drop_first() == b.drop_first() {
                assert(a == seq![a[0]] + a.drop_first());
                assert(b == seq![b[0]] + b.drop_first());
            }
        }
    } else if a.len() == 0 && b.len() == 0 {
        assert(a == b);
    }
}

proof fn lemma_key_lt_asym(a: TaskView, b: TaskView)
    requires
        key_lt(a, b),
    ensures
        !key_lt(b, a),
        !same_key(a, b),
{
    if title_lt(a.title, b.title) {
        lemma_title_lt_asym(a.title, b.title);
        lemma_title_lt_irrefl(a.title);
    }
}

proof fn lemma_key_lt_trans(a: TaskView, b: TaskView, c: TaskView)
    requires
        key_lt(a, b),
        key_lt(b, c),
    ensures
        key_lt(a, c),
{
    if title_lt(a.title, b.title) && title_lt(b.title, c.title) {
        lemma_title_lt_trans(a.title, b.title, c.title);
    }
}

proof fn lemma_key_total(a: TaskView, b: TaskView)
    ensures
        key_lt(a, b) || key_lt(b, a) || same_key(a, b),
{
    lemma_title_lt_total(a.title, b.title);
}

/// Not-before is transitive.
proof fn lemma_key_le_trans(a: TaskView, b: TaskView, c: TaskView)
    requires
        !key_lt(b, a),
        !key_lt(c, b),
    ensures
        !key_lt(c, a),
{
    lemma_key_total(a, b);
    if key_lt(c, a) {
        if key_lt(a, b) {
            lemma_key_lt_trans(c, a, b);
        } else {
            lemma_title_lt_total(a.title, b.title);
        }
    }
}

proof fn lemma_insert_sorted(out: Seq<TaskView>, k: int, x: TaskView)
    requires
        sorted_by_key(out),
        0 <= k <= out.len(),
        forall|i: int| 0 <= i < k ==> key_lt(#[trigger] out[i], x),
        k < out.len() ==> !key_lt(out[k], x),
    ensures
        sorted_by_key(out.insert(k, x)),
{
    let s = out.insert(k, x);
    assert forall|i: int, j: int| 0 <= i < j < s.len() implies !key_lt(#[trigger] s[j], #[trigger] s[i]) by {
        if j < k {
        } else if j == k {
            lemma_key_lt_asym(out[i], x);
        } else if i < k {
            assert(s[j] == out[j - 1]);
        } else if i == k {
            assert(s[j] == out[j - 1]);
            if j - 1 > k {
                lemma_key_le_trans(x, out[k], out[j - 1]);
            }
        } else {
            assert(s[j] == out[j - 1]);
            assert(s[i] == out[i - 1]);
        }
    }
}

proof fn lemma_filter_none(s: Seq<TaskView>, p: spec_fn(TaskView) -> bool)
    requires
        forall|i: int| 0 <= i < s.len() ==> !p(#[trigger] s[i]),
    ensures
        s.filter(p) == Seq::<TaskView>::empty(),
    decreases s.len(),
{
    reveal_with_fuel(Seq::filter, 1);
    if s.len() > 0 {
        lemma_filter_none(s.drop_last(), p);
    }
}

proof fn lemma_filter_single(x: TaskView, p: spec_fn(TaskView) -> bool)
    ensures
        seq![x].filter(p) == (if p(x) { seq![x] } else { Seq::<TaskView>::empty() }),
{
    reveal_with_fuel(Seq::filter, 2);
    assert(seq![x].drop_last() == Seq::<TaskView>::empty());
}

proof fn lemma_class_insert(out: Seq<TaskView>, suffix: Seq<TaskView>, k: int, x: TaskView)
    requires
        0 <= k <= out.len(),
        forall|i: int| 0 <= i < k ==> key_lt(#[trigger] out[i], x),
        forall|t: TaskView| #[trigger] key_class(out, t) == key_class(suffix, t),
    ensures
        forall|t: TaskView| #[trigger] key_class(out.insert(k, x), t) == key_class(seq![x] + suffix, t),
{
    assert forall|t: TaskView| #[trigger] key_class(out.insert(k, x), t) == key_class(seq![x] + suffix, t) by {
        let p = |u: TaskView| same_key(u, t);
        let a = out.take(k);
        let b = out.skip(k);
        assert(out == a + b);
        assert(out.insert(k, x) == a + seq![x] + b);
        Seq::filter_distributes_over_add(a + seq![x], b, p);
        Seq::filter_distributes_over_add(a, seq![x], p);
        Seq::filter_distributes_over_add(a, b, p);
        Seq::filter_distributes_over_add(seq![x], suffix, p);
        lemma_filter_single(x, p);
        assert(key_class(out, t) == key_class(suffix, t));
        if same_key(x, t) {
            assert forall|i: int| 0 <= i < a.len() implies !p(#[trigger] a[i]) by {
                lemma_key_lt_asym(out[i], x);
            }
            lemma_filter_none(a, p);
            assert(a.filter(p) + seq![x] + b.filter(p) == seq![x] + b.filter(p));
            assert(a.filter(p) + b.filter(p) == b.filter(p));
        } else {
            assert(a.filter(p) + Seq::<TaskView>::empty() == a.filter(p));
            assert(Seq::<TaskView>::empty() + suffix.filter(p) == suffix.filter(p));
        }
    }
}

proof fn lemma_multiset_insert(s: Seq<TaskView>, k: int, x: TaskView)
    requires
        0 <= k <= s.len(),
    ensures
        s.insert(k, x).to_multiset() == s.to_multiset().insert(x),
{
    let t = s.insert(k, x);
    assert(t.remove(k) == s);
    assert(t[k] == x);
    assert(t.to_multiset().count(x) > 0) by {
        assert(t.contains(x));
    }
    assert(t.to_multiset() =~= s.to_multiset().insert(x));
}

/// Whether the title `a` comes before the title `b`.
fn title_lt_exec(a: &Vec<char>, b: &Vec<char>) -> (r: bool)
    ensures
        r == title_lt(a@, b@),
{
    let mut i: usize = 0;
    assert(a@.skip(0) == a@ && b@.skip(0) == b@);
    while i < a.len() && i < b.len()
        invariant
            i <= a.len(),
            i <= b.len(),
            title_lt(a@, b@) == title_lt(a@.skip(i as int), b@.skip(i as int)),
        decreases a.len() - i,
    {
        if a[i] != b[i] {
            return a[i] < b[i];
        }
        assert(a@.skip(i as int).drop_first() == a@.skip(i + 1));
        assert(b@.skip(i as int).drop_first() == b@.skip(i + 1));
        i = i + 1;
    }
    a.len() < b.len()
}

/// Whether task `a` sorts strictly before task `b`.
fn key_lt_exec(a: &Task, b: &Task) -> (r: bool)
    ensures
        r == key_lt(a@, b@),
{
    let sa = a.status.order();
    let sb = b.status.order();
    if sa != sb {
        return sa < sb;
    }
    let pa = a.priority.as_num();
    let pb = b.priority.as_num();
    if pa != pb {
        return pa < pb;
    }
    let ta = chars_of(a.title.as_str());
    let tb = chars_of(b.title.as_str());
    title_lt_exec(&ta, &tb)
}

/// Stable sort by status weight (in progress first), then priority (highest
/// first), then title.
pub fn sort_tasks(tasks: Vec<Task>) -> (r: Vec<Task>)
    ensures
        is_ordering_of(task_views(r@), task_views(tasks@)),
{
    let ghost orig = task_views(tasks@);
    let mut rest = tasks;
    let mut out: Vec<Task> = Vec::new();
    assert(orig.skip(orig.len() as int) == Seq::<TaskView>::empty());
    assert(task_views(out@) == Seq::<TaskView>::empty());
    assert(orig.take(orig.len() as int) == orig);
    while rest.len() > 0
        invariant
            rest.len() <= orig.len(),
            task_views(rest@) == orig.take(rest.len() as int),
            sorted_by_key(task_views(out@)),
            task_views(out@).to_multiset() == orig.skip(rest.len() as int).to_multiset(),
            forall|t: TaskView| #[trigger] key_class(task_views(out@), t) == key_class(orig.skip(rest.len() as int), t),
        decreases rest.len(),
    {
        let ghost m = rest.len() as int;
        let ghost prev = task_views(out@);
        let ghost old_rest = rest@;
        assert(task_views(old_rest)[m - 1] == old_rest[m - 1]@);
        assert(orig.take(m)[m - 1] == orig[m - 1]);
        let x = rest.pop().unwrap();
        assert(rest@ == old_rest.drop_last());
        assert(x@ == orig[m - 1]);
        assert(task_views(rest@) == orig.take(m - 1));
        let mut k: usize = 0;
        while k < out.len() && key_lt_exec(&out[k], &x)
            invariant
                k <= out.len(),
                prev == task_views(out@),
                forall|i: int| 0 <= i < k ==> key_lt(#[trigger] prev[i], x@),
            decreases out.len() - k,
        {
            k = k + 1;
        }
        proof {
            lemma_insert_sorted(prev, k as int, x@);
            lemma_class_insert(prev, orig.skip(m), k as int, x@);
            lemma_multiset_insert(prev, k as int, x@);
            assert(orig.skip(m - 1) == seq![x@] + orig.skip(m));
            assert((seq![x@] + orig.skip(m)).remove(0) == orig.skip(m));
            assert(orig.skip(m - 1).to_multiset() =~= orig.skip(m).to_multiset().insert(x@)) by {
                assert(orig.skip(m - 1).contains(x@)) by {
                    assert(orig.skip(m - 1)[0] == x@);
                }
            }
        }
        out.insert(k, x);
        assert(task_views(out@) == prev.insert(k as int, x@));
    }
    assert(orig.skip(0) == orig);
    out
}


/// The tasks of `raw` that pass the filter `f`, in order.
pub open spec fn matching_s(raw: Seq<TaskView>, f: crate::domain::model::FilterView) -> Seq<TaskView> {
    raw.filter(|t: TaskView| filter_matches_s(f, t))
}

/// What the service keeps of a backend's answer: when the filter has a search
/// text (which a backend may not apply), only the matching tasks; otherwise all.
pub open spec fn kept_s(raw: Seq<TaskView>, f: crate::domain::model::FilterView) -> Seq<TaskView> {
    if f.text is Some {
        matching_s(raw, f)
    } else {
        raw
    }
}

/// The tasks of `tasks` that pass `filter`, in order.
pub fn retain_matching(tasks: Vec<Task>, filter: &Filter) -> (r: Vec<Task>)
    ensures
        task_views(r@) == matching_s(task_views(tasks@), filter@),
{
    let ghost orig = task_views(tasks@);
    let ghost p = |t: TaskView| filter_matches_s(filter@, t);
    let mut rest = tasks;
    let mut kept: Vec<Task> = Vec::new();
    let mut back: Vec<Task> = Vec::new();
    // Reverse `rest` into `back`, so tasks can be taken in input order.
    while rest.len() > 0
        invariant
            rest.len() + back.len() == orig.len(),
            task_views(rest@) == orig.take(rest.len() as int),
            forall|i: int| 0 <= i < back.len() ==> (#[trigger] back@[i])@ == orig[orig.len() - 1 - i],
        decreases rest.len(),
    {
        let ghost old_rest = rest@;
        assert(task_views(old_rest)[old_rest.len() - 1] == old_rest[old_rest.len() - 1]@);
        assert(orig.take(old_rest.len() as int)[old_rest.len() - 1] == orig[old_rest.len() - 1]);
        let x = rest.pop().unwrap();
        assert(task_views(rest@) == orig.take(rest.len() as int));
        back.push(x);
    }
    let n = back.len();
    let mut i: usize = 0;
    assert(orig.take(0) == Seq::<TaskView>::empty());
    reveal_with_fuel(Seq::filter, 1);
    while back.len() > 0
        invariant
            back.len() + i == n,
            n == orig.len(),
            p == (|t: TaskView| filter_matches_s(filter@, t)),
            forall|j: int| 0 <= j < back.len() ==> (#[trigger] back@[j])@ == orig[orig.len() - 1 - j],
            task_views(kept@) == orig.take(i as int).filter(p),
        decreases back.len(),
    {
        reveal_with_fuel(Seq::filter, 1);
        let ghost old_back = back@;
        let x = back.pop().unwrap();
        assert(x@ == old_back[old_back.len() - 1]@);
        assert(x@ == orig[i as int]);
        assert(orig.take(i + 1).drop_last() == orig.take(i as int));
        let ghost before = task_views(kept@);
        let keep = filter.matches(&x);
        assert(p(x@) == keep);
        assert(orig.take(i + 1).last() == x@);
        assert(orig.take(i + 1).filter(p) == if keep {
            orig.take(i as int).filter(p).push(x@)
        } else {
            orig.take(i as int).filter(p)
        });
        if keep {
            kept.push(x);
            assert(task_views(kept@) == before.push(x@));
        }
        i = i + 1;
    }
    assert(orig.take(n as int) == orig);
    kept
}

/// Arranges a backend's answer as the service lists it: the tasks kept by the
/// search text, stably sorted by status weight, priority and title.
pub fn arrange(tasks: Vec<Task>, filter: &Filter) -> (r: Vec<Task>)
    ensures
        is_ordering_of(task_views(r@), kept_s(task_views(tasks@), filter@)),
{
    let kept = if filter.text.is_some() {
        retain_matching(tasks, filter)
    } else {
        tasks
    };
    sort_tasks(kept)
}

/// The message of the error for an empty title.
pub open spec fn empty_title_message() -> Seq<char> {
    "제목은 비워 둘 수 없습니다"@
}

/// The use cases over a task store.
pub struct TaskService<R: TaskRepository> {
    repo: R,
}

impl<R: TaskRepository> TaskService<R> {
    /// The store the service works on.
    pub closed spec fn repository(&self) -> R {
        self.repo
    }

    pub fn new(repo: R) -> (s: Self)
        ensures
            s.repository() == repo,
    {
        TaskService { repo }
    }
}

/// The result is the rejection of an empty title.
pub open spec fn rejects_empty_title<T>(r: Result<T, Error>) -> bool {
    r matches Err(Error::Invalid(m)) && m@ == empty_title_message()
}

/// The patch sets a blank title.
pub open spec fn patch_title_blank(p: crate::domain::model::TaskPatchView) -> bool {
    p.title matches Some(t) && title_is_blank(t)
}

/// A title is rejected when it is empty once whitespace is trimmed.
pub open spec fn title_is_blank(title: Seq<char>) -> bool {
    trim_s(title).len() == 0
}

/// A title is blank, and so rejected, exactly when every character of it
/// is whitespace (the empty title among them).
pub proof fn lemma_blank_title(title: Seq<char>)
    ensures
        title_is_blank(title) <==> forall|i: int| 0 <= i < title.len() ==> is_ws(#[trigger] title[i]),
{
    lemma_trim_empty(title);
}

impl<R: TaskRepository> TaskApi for TaskService<R> {
    /// The store's name.
    fn backend_name(&self) -> (r: &str)
        ensures
            call_ensures(R::name, (&self.repository(),), r),
    {
        self.repo.name()
    }

    /// Lists the store's tasks for `filter`, re-applying the filter when it
    /// has a search text, in the order of [`arrange`]; fails with the store's
    /// error exactly when the store fails.
    fn list(&self, filter: &Filter) -> (r: Result<Vec<Task>, Error>)
        ensures
            r is Err ==> call_ensures(R::list, (&self.repository(), filter), r),
            r matches Ok(v) ==> exists|raw: Vec<Task>|
                #![trigger call_ensures(R::list, (&self.repository(), filter), Ok::<Vec<Task>, Error>(raw))]
                call_ensures(R::list, (&self.repository(), filter), Ok::<Vec<Task>, Error>(raw))
                && is_ordering_of(task_views(v@), kept_s(task_views(raw@), filter@)),
    {
        let answer = self.repo.list(filter);
        match answer {
            Ok(tasks) => {
                let ghost raw = tasks;
                let out = arrange(tasks, filter);
                assert(call_ensures(R::list, (&self.repository(), filter), Ok::<Vec<Task>, Error>(raw)));
                Ok(out)
            },
            Err(e) => Err(e),
        }
    }

    /// The store's answer for the id, passed on unchanged.
    fn get(&self, id: &str) -> (r: Result<Task, Error>)
        ensures
            call_ensures(R::get, (&self.repository(), id), r),
    {
        self.repo.get(id)
    }

    /// Creates a task; a blank title is rejected without asking the store,
    /// otherwise the store's answer is passed on and the store changes as
    /// that request changed it.
    fn create(&mut self, task: &NewTask) -> (r: Result<String, Error>)
        ensures
            title_is_blank(task@.title) ==> rejects_empty_title(r) && final(self).repository()
                == old(self).repository(),
            !title_is_blank(task@.title) ==> (exists|m: &mut R|
                #![trigger call_ensures(R::create, (m, task), r)]
                mut_ref_current(m) == old(self).repository()
                && mut_ref_future(m) == final(self).repository()
                && call_ensures(R::create, (m, task), r)),
    {
        if is_blank(task.title.as_str()) {
            return Err(Error::Invalid(String::from_str("제목은 비워 둘 수 없습니다")));
        }
        self.repo.create(task)
    }

    /// Updates a task; an empty patch changes nothing and succeeds without
    /// asking the store, a blank new title is rejected, and otherwise the
    /// store's answer is passed on with the store changed as that request
    /// changed it.
    fn update(&mut self, id: &str, patch: &TaskPatch) -> (r: Result<(), Error>)
        ensures
            patch_is_empty_s(patch@) ==> r is Ok && final(self).repository() == old(self).repository(),
            !patch_is_empty_s(patch@) && patch_title_blank(patch@) ==> rejects_empty_title(r)
                && final(self).repository() == old(self).repository(),
            !patch_is_empty_s(patch@) && !patch_title_blank(patch@) ==> (exists|m: &mut R|
                #![trigger call_ensures(R::update, (m, id, patch), r)]
                mut_ref_current(m) == old(self).repository()
                && mut_ref_future(m) == final(self).repository()
                && call_ensures(R::update, (m, id, patch), r)),
    {
        if patch.is_empty() {
            return Ok(());
        }
        match &patch.title {
            Some(title) => {
                if is_blank(title.as_str()) {
                    return Err(Error::Invalid(String::from_str("제목은 비워 둘 수 없습니다")));
                }
            },
            None => {},
        }
        self.repo.update(id, patch)
    }

    /// The store's answer for the status change, passed on unchanged; the
    /// store changes as that status change changed it.
    fn set_status(&mut self, id: &str, status: Status) -> (r: Result<(), Error>)
        ensures
            (exists|m: &mut R|
                #![trigger call_ensures(R::set_status, (m, id, status), r)]
                mut_ref_current(m) == old(self).repository()
                && mut_ref_future(m) == final(self).repository()
                && call_ensures(R::set_status, (m, id, status), r)),
    {
        self.repo.set_status(id, status)
    }

    /// The store's answer for deleting the id, passed on unchanged; the
    /// store changes as that deletion changed it.
    fn delete(&mut self, id: &str) -> (r: Result<(), Error>)
        ensures
            (exists|m: &mut R|
                #![trigger call_ensures(R::delete, (m, id), r)]
                mut_ref_current(m) == old(self).repository()
                && mut_ref_future(m) == final(self).repository()
                && call_ensures(R::delete, (m, id), r)),
    {
        self.repo.delete(id)
    }
}

} // verus!
