//! The backend-neutral task model. Each backend's representation is
//! normalised into these types; everything here is pure data and pure functions.

use vstd::prelude::*;

use core::cmp::Ordering;
use vstd::std_specs::cmp::{PartialOrdSpec, PartialOrdSpecImpl};

use crate::text::{
    chars_of, contains, contains_s, opt_string_view, string_views, to_lowercase, lowercase,
};

verus! {

/// Work status. Each backend maps its own status strings onto these.
#[derive(Debug, Clone, Copy, PartialEq, Eq, Structural)]
pub enum Status {
    Open,
    InProgress,
    Blocked,
    Deferred,
    Done,
}

/// The display label of a status.
pub open spec fn status_label_s(s: Status) -> Seq<char> {
    match s {
        Status::Open => "Open"@,
        Status::InProgress => "In Progress"@,
        Status::Blocked => "Blocked"@,
        Status::Deferred => "Deferred"@,
        Status::Done => "Done"@,
    }
}

/// The one-character list symbol of a status.
pub open spec fn status_symbol_s(s: Status) -> Seq<char> {
    match s {
        Status::Open => "○"@,
        Status::InProgress => "◐"@,
        Status::Blocked => "✗"@,
        Status::Deferred => "⏸"@,
        Status::Done => "●"@,
    }
}

/// The sort weight of a status: in progress first, done last.
pub open spec fn status_order_s(s: Status) -> u8 {
    match s {
        Status::InProgress => 0,
        Status::Open => 1,
        Status::Blocked => 2,
        Status::Deferred => 3,
        Status::Done => 4,
    }
}

impl Status {
    /// Every status, in board-column order.
    pub const ALL: [Status; 5] = [
        Status::Open,
        Status::InProgress,
        Status::Blocked,
        Status::Deferred,
        Status::Done,
    ];

    /// Human-readable label.
    pub fn label(self) -> (r: &'static str)
        ensures
            r@ == status_label_s(self),
    {
        match self {
            Status::Open => "Open",
            Status::InProgress => "In Progress",
            Status::Blocked => "Blocked",
            Status::Deferred => "Deferred",
            Status::Done => "Done",
        }
    }

    /// One-character symbol shown left of a list entry.
    pub fn symbol(self) -> (r: &'static str)
        ensures
            r@ == status_symbol_s(self),
    {
        match self {
            Status::Open => "○",
            Status::InProgress => "◐",
            Status::Blocked => "✗",
            Status::Deferred => "⏸",
            Status::Done => "●",
        }
    }

    /// Sort weight (in progress, open, blocked, deferred, done).
    pub fn order(self) -> (r: u8)
        ensures
            r == status_order_s(self),
    {
        match self {
            Status::InProgress => 0,
            Status::Open => 1,
            Status::Blocked => 2,
            Status::Deferred => 3,
            Status::Done => 4,
        }
    }
}

/// Priority, P0 highest. Priorities are ordered by their number, so a higher
/// priority is smaller: `P0 < P1 < ... < P4`.
#[derive(Debug, Clone, Copy, PartialEq, Eq, Ord, Structural)]
pub enum Priority {
    P0,
    P1,
    P2,
    P3,
    P4,
}

/// The number of a priority (0 for P0 .. 4 for P4).
pub open spec fn priority_num_s(p: Priority) -> u8 {
    match p {
        Priority::P0 => 0,
        Priority::P1 => 1,
        Priority::P2 => 2,
        Priority::P3 => 3,
        Priority::P4 => 4,
    }
}

/// The priority of a number; numbers above 4 give P4.
pub open spec fn priority_of_num_s(n: u8) -> Priority {
    if n == 0 {
        Priority::P0
    } else if n == 1 {
        Priority::P1
    } else if n == 2 {
        Priority::P2
    } else if n == 3 {
        Priority::P3
    } else {
        Priority::P4
    }
}

/// The label of a priority ("P0" .. "P4").
pub open spec fn priority_label_s(p: Priority) -> Seq<char> {
    match p {
        Priority::P0 => "P0"@,
        Priority::P1 => "P1"@,
        Priority::P2 => "P2"@,
        Priority::P3 => "P3"@,
        Priority::P4 => "P4"@,
    }
}

impl Default for Priority {
    fn default() -> (r: Priority)
        ensures
            r == Priority::P2,
    {
        Priority::P2
    }
}

impl Priority {
    pub fn label(self) -> (r: &'static str)
        ensures
            r@ == priority_label_s(self),
    {
        match self {
            Priority::P0 => "P0",
            Priority::P1 => "P1",
            Priority::P2 => "P2",
            Priority::P3 => "P3",
            Priority::P4 => "P4",
        }
    }

    /// The number 0..4 (used as a command-line argument).
    pub fn as_num(self) -> (r: u8)
        ensures
            r == priority_num_s(self),
            r <= 4,
    {
        match self {
            Priority::P0 => 0,
            Priority::P1 => 1,
            Priority::P2 => 2,
            Priority::P3 => 3,
            Priority::P4 => 4,
        }
    }

    /// The priority of a number; out-of-range numbers clamp to P4.
    pub fn from_num(n: u8) -> (r: Priority)
        ensures
            r == priority_of_num_s(n),
            n <= 4 ==> priority_num_s(r) == n,
            n > 4 ==> r == Priority::P4,
    {
        match n {
            0 => Priority::P0,
            1 => Priority::P1,
            2 => Priority::P2,
            3 => Priority::P3,
            _ => Priority::P4,
        }
    }
}

/// The order of two priorities: by their numbers.
pub open spec fn priority_cmp_s(p: Priority, q: Priority) -> Option<Ordering> {
    if priority_num_s(p) < priority_num_s(q) {
        Some(Ordering::Less)
    } else if priority_num_s(p) == priority_num_s(q) {
        Some(Ordering::Equal)
    } else {
        Some(Ordering::Greater)
    }
}

impl PartialOrd for Priority {
    fn partial_cmp(&self, other: &Priority) -> (r: Option<Ordering>) {
        let a = self.as_num();
        let b = other.as_num();
        if a < b {
            Some(Ordering::Less)
        } else if a == b {
            Some(Ordering::Equal)
        } else {
            Some(Ordering::Greater)
        }
    }
}

impl PartialOrdSpecImpl for Priority {
    open spec fn obeys_partial_cmp_spec() -> bool {
        true
    }

    open spec fn partial_cmp_spec(&self, other: &Priority) -> Option<Ordering> {
        priority_cmp_s(*self, *other)
    }
}

/// Priorities compare as their numbers do (`p < q` is `partial_cmp` giving
/// `Less`): `p < q` exactly when `p`'s number is smaller, so a higher priority
/// comes first, and priorities compare equal exactly when they are the same.
pub proof fn lemma_priority_order(p: Priority, q: Priority)
    ensures
        (PartialOrdSpec::partial_cmp_spec(&p, &q) == Some(Ordering::Less)) <==> priority_num_s(p) < priority_num_s(q),
        (PartialOrdSpec::partial_cmp_spec(&p, &q) == Some(Ordering::Equal)) <==> p == q,
        (PartialOrdSpec::partial_cmp_spec(&p, &q) == Some(Ordering::Greater)) <==> priority_num_s(p) > priority_num_s(q),
        PartialOrdSpec::partial_cmp_spec(&p, &q) is Some,
{
}

/// A number and a priority convert into each other: a priority's number gives
/// that priority back.
pub proof fn lemma_priority_num_roundtrip(p: Priority)
    ensures
        priority_of_num_s(priority_num_s(p)) == p,
{
}

/// The abstract value of a task: every string field by its characters.
pub struct TaskView {
    pub id: Seq<char>,
    pub title: Seq<char>,
    pub description: Option<Seq<char>>,
    pub status: Status,
    pub priority: Priority,
    pub assignee: Option<Seq<char>>,
    pub labels: Seq<Seq<char>>,
    pub parent: Option<Seq<char>>,
}

/// One normalised task.
#[derive(Debug, Clone, PartialEq, Eq)]
pub struct Task {
    pub id: String,
    pub title: String,
    pub description: Option<String>,
    pub status: Status,
    pub priority: Priority,
    pub assignee: Option<String>,
    pub labels: Vec<String>,
    pub parent: Option<String>,
}

impl View for Task {
    type V = TaskView;

    open spec fn view(&self) -> TaskView {
        TaskView {
            id: self.id@,
            title: self.title@,
            description: opt_string_view(self.description),
            status: self.status,
            priority: self.priority,
            assignee: opt_string_view(self.assignee),
            labels: string_views(self.labels@),
            parent: opt_string_view(self.parent),
        }
    }
}

/// The views of a sequence of tasks.
pub open spec fn task_views(ts: Seq<Task>) -> Seq<TaskView> {
    ts.map_values(|t: Task| t@)
}


/// The abstract value of a new-task request.
pub struct NewTaskView {
    pub title: Seq<char>,
    pub description: Option<Seq<char>>,
    pub priority: Priority,
    pub labels: Seq<Seq<char>>,
    pub parent: Option<Seq<char>>,
}

/// Input for creating a task.
#[derive(Debug, Clone)]
pub struct NewTask {
    pub title: String,
    pub description: Option<String>,
    pub priority: Priority,
    pub labels: Vec<String>,
    pub parent: Option<String>,
}

impl View for NewTask {
    type V = NewTaskView;

    open spec fn view(&self) -> NewTaskView {
        NewTaskView {
            title: self.title@,
            description: opt_string_view(self.description),
            priority: self.priority,
            labels: string_views(self.labels@),
            parent: opt_string_view(self.parent),
        }
    }
}

impl Default for NewTask {
    fn default() -> (r: NewTask)
        ensures
            r@.title.len() == 0,
            r@.description is None,
            r@.priority == Priority::P2,
            r@.labels.len() == 0,
            r@.parent is None,
    {
        NewTask {
            title: String::new(),
            description: None,
            priority: Priority::P2,
            labels: Vec::new(),
            parent: None,
        }
    }
}

/// The abstract value of a partial update.
pub struct TaskPatchView {
    pub title: Option<Seq<char>>,
    pub description: Option<Seq<char>>,
    pub priority: Option<Priority>,
    pub status: Option<Status>,
    pub assignee: Option<Seq<char>>,
    pub labels: Option<Seq<Seq<char>>>,
}

/// A partial update of a task; a `None` field is left unchanged.
#[derive(Debug, Clone)]
pub struct TaskPatch {
    pub title: Option<String>,
    pub description: Option<String>,
    pub priority: Option<Priority>,
    pub status: Option<Status>,
    pub assignee: Option<String>,
    pub labels: Option<Vec<String>>,
}

impl View for TaskPatch {
    type V = TaskPatchView;

    open spec fn view(&self) -> TaskPatchView {
        TaskPatchView {
            title: opt_string_view(self.title),
            description: opt_string_view(self.description),
            priority: self.priority,
            status: self.status,
            assignee: opt_string_view(self.assignee),
            labels: match self.labels {
                Some(l) => Some(string_views(l@)),
                None => None,
            },
        }
    }
}

/// A patch that changes no field.
pub open spec fn patch_is_empty_s(p: TaskPatchView) -> bool {
    &&& p.title is None
    &&& p.description is None
    &&& p.priority is None
    &&& p.status is None
    &&& p.assignee is None
    &&& p.labels is None
}

impl Default for TaskPatch {
    fn default() -> (r: TaskPatch)
        ensures
            patch_is_empty_s(r@),
    {
        TaskPatch {
            title: None,
            description: None,
            priority: None,
            status: None,
            assignee: None,
            labels: None,
        }
    }
}

impl TaskPatch {
    /// Whether the patch changes no field.
    pub fn is_empty(&self) -> (b: bool)
        ensures
            b == patch_is_empty_s(self@),
    {
        self.title.is_none() && self.description.is_none() && self.priority.is_none()
            && self.status.is_none() && self.assignee.is_none() && self.labels.is_none()
    }
}

/// The abstract value of a list filter.
pub struct FilterView {
    pub status: Option<Status>,
    pub priority: Option<Priority>,
    pub labels: Seq<Seq<char>>,
    pub text: Option<Seq<char>>,
}

/// A list filter. Backends apply what they can; text search and anything
/// else a backend cannot do is applied with [`Filter::matches`].
#[derive(Debug, Clone)]
pub struct Filter {
    pub status: Option<Status>,
    pub priority: Option<Priority>,
    pub labels: Vec<String>,
    pub text: Option<String>,
}

impl View for Filter {
    type V = FilterView;

    open spec fn view(&self) -> FilterView {
        FilterView {
            status: self.status,
            priority: self.priority,
            labels: string_views(self.labels@),
            text: opt_string_view(self.text),
        }
    }
}

impl Default for Filter {
    fn default() -> (r: Filter)
        ensures
            filter_is_empty_s(r@),
    {
        Filter { status: None, priority: None, labels: Vec::new(), text: None }
    }
}

/// A filter with no condition at all.
pub open spec fn filter_is_empty_s(f: FilterView) -> bool {
    &&& f.status is None
    &&& f.priority is None
    &&& f.labels.len() == 0
    &&& f.text is None
}

/// The description of a task, or nothing when it has none.
pub open spec fn description_or_empty(t: TaskView) -> Seq<char> {
    match t.description {
        Some(d) => d,
        None => Seq::empty(),
    }
}

/// The search text occurs, ignoring case, in the task's title or description.
pub open spec fn text_hit_s(text: Seq<char>, t: TaskView) -> bool {
    ||| contains_s(lowercase(t.title), lowercase(text))
    ||| contains_s(lowercase(description_or_empty(t)), lowercase(text))
}

/// A task passes a filter: same status and priority where the filter names
/// one, every filter label among the task's labels, and the search text in the
/// title or description.
pub open spec fn filter_matches_s(f: FilterView, t: TaskView) -> bool {
    &&& (f.status matches Some(s) ==> t.status == s)
    &&& (f.priority matches Some(p) ==> t.priority == p)
    &&& (forall|i: int| 0 <= i < f.labels.len() ==> #[trigger] t.labels.contains(f.labels[i]))
    &&& (f.text matches Some(text) ==> text_hit_s(text, t))
}

/// Whether `labels` holds a string equal to `l`.
fn has_label(labels: &Vec<String>, l: &String) -> (b: bool)
    ensures
        b == string_views(labels@).contains(l@),
{
    let mut i: usize = 0;
    while i < labels.len()
        invariant
            i <= labels.len(),
            forall|j: int| 0 <= j < i ==> labels@[j]@ != l@,
        decreases labels.len() - i,
    {
        if labels[i] == *l {
            assert(string_views(labels@)[i as int] == l@);
            return true;
        }
        i = i + 1;
    }
    assert forall|j: int| 0 <= j < string_views(labels@).len() implies string_views(labels@)[j] != l@ by {
        assert(string_views(labels@)[j] == labels@[j]@);
    }
    false
}

impl Filter {
    /// Whether the filter has no condition.
    pub fn is_empty(&self) -> (b: bool)
        ensures
            b == filter_is_empty_s(self@),
    {
        self.status.is_none() && self.priority.is_none() && self.labels.len() == 0
            && self.text.is_none()
    }

    /// Whether the task passes the filter (evaluated on the client side).
    pub fn matches(&self, task: &Task) -> (b: bool)
        ensures
            b == filter_matches_s(self@, task@),
    {
        match self.status {
            Some(s) => {
                if task.status != s {
                    return false;
                }
            },
            None => {},
        }
        match self.priority {
            Some(p) => {
                if task.priority != p {
                    return false;
                }
            },
            None => {},
        }
        let mut i: usize = 0;
        while i < self.labels.len()
            invariant
                i <= self.labels.len(),
                forall|j: int| 0 <= j < i ==> #[trigger] task@.labels.contains(self@.labels[j]),
            decreases self.labels.len() - i,
        {
            if !has_label(&task.labels, &self.labels[i]) {
                assert(!task@.labels.contains(self@.labels[i as int]));
                return false;
            }
            i = i + 1;
        }
        match &self.text {
            Some(text) => {
                let needle = chars_of(to_lowercase(text.as_str()).as_str());
                let hay_title = chars_of(to_lowercase(task.title.as_str()).as_str());
                let desc: &str = match &task.description {
                    Some(d) => d.as_str(),
                    None => "",
                };
                proof {
                    reveal_strlit("");
                }
                assert(desc@ == description_or_empty(task@));
                let hay_desc = chars_of(to_lowercase(desc).as_str());
                if !contains(&hay_title, &needle) && !contains(&hay_desc, &needle) {
                    return false;
                }
            },
            None => {},
        }
        true
    }
}

/// What a filter lets through: a task it passes has the filter's status and
/// priority where the filter names them and carries every filter label; and
/// without a search text, a task with the named status and priority that
/// carries every filter label passes.
pub proof fn lemma_filter_conditions(f: FilterView, t: TaskView)
    ensures
        filter_matches_s(f, t) ==> (f.status matches Some(s) ==> t.status == s),
        filter_matches_s(f, t) ==> (f.priority matches Some(p) ==> t.priority == p),
        filter_matches_s(f, t) ==> forall|l: Seq<char>| #[trigger] f.labels.contains(l) ==> t.labels.contains(l),
        f.text is None && (f.status matches Some(s) ==> t.status == s) && (f.priority matches Some(p) ==> t.priority
            == p) && (forall|l: Seq<char>| #[trigger] f.labels.contains(l) ==> t.labels.contains(l))
            ==> filter_matches_s(f, t),
{
    if filter_matches_s(f, t) {
        assert forall|l: Seq<char>| #[trigger] f.labels.contains(l) implies t.labels.contains(l) by {
            let i = choose|i: int| 0 <= i < f.labels.len() && f.labels[i] == l;
            assert(t.labels.contains(f.labels[i]));
        }
    }
    if forall|l: Seq<char>| #[trigger] f.labels.contains(l) ==> t.labels.contains(l) {
        assert forall|i: int| 0 <= i < f.labels.len() implies #[trigger] t.labels.contains(f.labels[i]) by {
            assert(f.labels.contains(f.labels[i]));
        }
    }
}

/// A filter without conditions lets every task through.
pub proof fn lemma_empty_filter_matches(f: FilterView, t: TaskView)
    requires
        filter_is_empty_s(f),
    ensures
        filter_matches_s(f, t),
{
}

} // verus!
