//! The beads backend (the `bd` command-line tool, run with `--json`).
//!
//! - `bd list --json` and `bd show --json` both print an array of issue
//!   objects (a single issue too);
//! - `create --silent` prints the bare id on standard output;
//! - statuses are `open`, `in_progress`, `blocked`, `deferred` and `closed`
//!   (done);
//! - done is `bd close <id>`, any other status (and reopening)
//!   `bd update <id> --status <s>`;
//! - non-interactive deletion is `bd delete <id> --force`.
//!
//! This module holds what the backend decides: the arguments of each command,
//! the mapping of issues to tasks, and the reading of plain output. Running the
//! command, and decoding its JSON into [`BeadIssue`] values, is the caller's.

use vstd::prelude::*;

use crate::adapters::backlog::{opt_flag_s, opt_str_view, push_flag};
use crate::adapters::cli::{has_option, lemma_option_after, lemma_option_before, lemma_option_pair, push_arg, push_arg_string};
use crate::adapters::memory::{copy_opt_string, string_result_view};
use crate::config::BeadsConfig;
use crate::domain::model::{
    priority_num_s, priority_of_num_s, task_views, Filter, FilterView, NewTask, NewTaskView,
    Priority, Status, Task, TaskPatch, TaskPatchView, TaskView,
};
use crate::error::{Error, ErrorView};
use crate::text::{
    chars_of, decimal_s, eq_str, join, join_s, lines, lines_s, char_views, opt_string_view,
    push_decimal, string_of, string_views, trim, trim_s,
};

verus! {

/// The status a beads status name stands for; unknown names are open.
pub open spec fn status_from_beads_s(s: Seq<char>) -> Status {
    if s == "in_progress"@ {
        Status::InProgress
    } else if s == "blocked"@ {
        Status::Blocked
    } else if s == "deferred"@ {
        Status::Deferred
    } else if s == "closed"@ {
        Status::Done
    } else {
        Status::Open
    }
}

/// The beads status name of a status.
pub open spec fn status_to_beads_s(s: Status) -> Seq<char> {
    match s {
        Status::Open => "open"@,
        Status::InProgress => "in_progress"@,
        Status::Blocked => "blocked"@,
        Status::Deferred => "deferred"@,
        Status::Done => "closed"@,
    }
}

/// The status a beads status name stands for.
pub fn status_from_beads(s: &str) -> (r: Status)
    ensures
        r == status_from_beads_s(s@),
{
    let v = chars_of(s);
    if eq_str(&v, "in_progress") {
        Status::InProgress
    } else if eq_str(&v, "blocked") {
        Status::Blocked
    } else if eq_str(&v, "deferred") {
        Status::Deferred
    } else if eq_str(&v, "closed") {
        Status::Done
    } else {
        Status::Open
    }
}

/// The beads status name of a status.
pub fn status_to_beads(s: Status) -> (r: &'static str)
    ensures
        r@ == status_to_beads_s(s),
{
    match s {
        Status::Open => "open",
        Status::InProgress => "in_progress",
        Status::Blocked => "blocked",
        Status::Deferred => "deferred",
        Status::Done => "closed",
    }
}

/// Every status survives the trip to its beads name and back.
pub proof fn lemma_status_beads_roundtrip(s: Status)
    ensures
        status_from_beads_s(status_to_beads_s(s)) == s,
{
    reveal_strlit("open");
    reveal_strlit("in_progress");
    reveal_strlit("blocked");
    reveal_strlit("deferred");
    reveal_strlit("closed");
    let t = status_to_beads_s(s);
    assert(t.len() != "in_progress"@.len() ==> t != "in_progress"@);
    assert(t.len() != "blocked"@.len() ==> t != "blocked"@);
    assert(t.len() != "deferred"@.len() ==> t != "deferred"@);
    assert(t.len() != "closed"@.len() ==> t != "closed"@);
}

/// The abstract value of an issue as `bd` prints it.
pub struct BeadIssueView {
    pub id: Seq<char>,
    pub title: Seq<char>,
    pub description: Option<Seq<char>>,
    pub status: Seq<char>,
    pub priority: u8,
    pub assignee: Option<Seq<char>>,
    pub labels: Seq<Seq<char>>,
    pub parent: Option<Seq<char>>,
}

/// An issue of `bd ... --json`, with the fields the tasks need; the fields
/// that may be absent are `None` or empty then.
#[derive(Debug)]
pub struct BeadIssue {
    pub id: String,
    pub title: String,
    pub description: Option<String>,
    pub status: String,
    pub priority: u8,
    pub assignee: Option<String>,
    pub labels: Vec<String>,
    pub parent: Option<String>,
}

impl View for BeadIssue {
    type V = BeadIssueView;

    open spec fn view(&self) -> BeadIssueView {
        BeadIssueView {
            id: self.id@,
            title: self.title@,
            description: opt_string_view(self.description),
            status: self.status@,
            priority: self.priority,
            assignee: opt_string_view(self.assignee),
            labels: string_views(self.labels@),
            parent: opt_string_view(self.parent),
        }
    }
}

/// An optional text, with an empty one counted as absent.
pub open spec fn non_empty_s(o: Option<Seq<char>>) -> Option<Seq<char>> {
    match o {
        Some(s) => if s.len() == 0 {
            None
        } else {
            Some(s)
        },
        None => None,
    }
}

/// The task of an issue: empty description and assignee count as absent,
/// the status by its name, the priority by its number (above 4 is P4).
pub open spec fn issue_task_s(i: BeadIssueView) -> TaskView {
    TaskView {
        id: i.id,
        title: i.title,
        description: non_empty_s(i.description),
        status: status_from_beads_s(i.status),
        priority: priority_of_num_s(i.priority),
        assignee: non_empty_s(i.assignee),
        labels: i.labels,
        parent: i.parent,
    }
}

/// How an issue becomes a task: the id, title, labels and parent are the
/// issue's; a non-empty description or assignee is kept and an absent or
/// empty one is left out; a status named by beads is that status; a priority
/// number up to 4 is the priority with that number, a larger one P4.
pub proof fn lemma_issue_task_fields(i: BeadIssueView)
    ensures
        issue_task_s(i).id == i.id,
        issue_task_s(i).title == i.title,
        issue_task_s(i).labels == i.labels,
        issue_task_s(i).parent == i.parent,
        i.assignee matches Some(a) ==> (a.len() > 0 ==> issue_task_s(i).assignee == Some(a)),
        i.assignee matches Some(a) ==> (a.len() == 0 ==> issue_task_s(i).assignee is None),
        i.assignee is None ==> issue_task_s(i).assignee is None,
        i.description matches Some(d) ==> (d.len() > 0 ==> issue_task_s(i).description == Some(d)),
        i.description matches Some(d) ==> (d.len() == 0 ==> issue_task_s(i).description is None),
        i.description is None ==> issue_task_s(i).description is None,
        forall|s: Status| i.status == #[trigger] status_to_beads_s(s) ==> issue_task_s(i).status == s,
        i.priority <= 4 ==> priority_num_s(issue_task_s(i).priority) == i.priority,
        i.priority > 4 ==> issue_task_s(i).priority == Priority::P4,
{
    assert forall|s: Status| i.status == #[trigger] status_to_beads_s(s) implies issue_task_s(i).status == s by {
        lemma_status_beads_roundtrip(s);
    }
}

/// An optional string, with an empty one counted as absent.
pub open spec fn non_empty_string(o: Option<String>) -> Option<String> {
    match o {
        Some(s) => if s@.len() == 0 {
            None
        } else {
            Some(s)
        },
        None => None,
    }
}

fn drop_empty(o: Option<String>) -> (r: Option<String>)
    ensures
        r == non_empty_string(o),
{
    match o {
        Some(s) => if s.as_str().is_empty() {
            None
        } else {
            Some(s)
        },
        None => None,
    }
}

impl vstd::std_specs::convert::FromSpecImpl<BeadIssue> for Task {
    open spec fn obeys_from_spec() -> bool {
        true
    }

    open spec fn from_spec(i: BeadIssue) -> Task {
        Task {
            id: i.id,
            title: i.title,
            description: non_empty_string(i.description),
            status: status_from_beads_s(i.status@),
            priority: priority_of_num_s(i.priority),
            assignee: non_empty_string(i.assignee),
            labels: i.labels,
            parent: i.parent,
        }
    }
}

impl From<BeadIssue> for Task {
    fn from(i: BeadIssue) -> (t: Task) {
        let status = status_from_beads(i.status.as_str());
        let priority = Priority::from_num(i.priority);
        Task {
            id: i.id,
            title: i.title,
            description: drop_empty(i.description),
            status,
            priority,
            assignee: drop_empty(i.assignee),
            labels: i.labels,
            parent: i.parent,
        }
    }
}

/// The task of an issue.
pub fn task_from_issue(i: BeadIssue) -> (t: Task)
    ensures
        t@ == issue_task_s(i@),
{
    let t = Task::from(i);
    t
}


/// The tasks of the issues, in order.
pub fn tasks_from_issues(issues: Vec<BeadIssue>) -> (r: Vec<Task>)
    ensures
        task_views(r@) == issues@.map_values(|i: BeadIssue| issue_task_s(i@)),
{
    let ghost orig = issues@.map_values(|i: BeadIssue| issue_task_s(i@));
    let mut rest = issues;
    let mut back: Vec<Task> = Vec::new();
    while rest.len() > 0
        invariant
            rest.len() + back.len() == orig.len(),
            rest@.map_values(|i: BeadIssue| issue_task_s(i@)) == orig.take(rest.len() as int),
            forall|j: int| 0 <= j < back.len() ==> (#[trigger] back@[j])@ == orig[orig.len() - 1 - j],
        decreases rest.len(),
    {
        let ghost old_rest = rest@;
        let i = rest.pop().unwrap();
        assert(old_rest.map_values(|i: BeadIssue| issue_task_s(i@))[old_rest.len() - 1] == issue_task_s(i@));
        assert(orig.take(old_rest.len() as int)[old_rest.len() - 1] == orig[old_rest.len() - 1]);
        assert(rest@.map_values(|i: BeadIssue| issue_task_s(i@)) == orig.take(rest.len() as int));
        back.push(task_from_issue(i));
    }
    let mut out: Vec<Task> = Vec::new();
    let n = back.len();
    while back.len() > 0
        invariant
            back.len() + out.len() == n,
            n == orig.len(),
            forall|j: int| 0 <= j < back.len() ==> (#[trigger] back@[j])@ == orig[orig.len() - 1 - j],
            task_views(out@) == orig.take(out.len() as int),
        decreases back.len(),
    {
        let ghost old_back = back@;
        let ghost before = task_views(out@);
        let t = back.pop().unwrap();
        assert(t@ == old_back[old_back.len() - 1]@);
        out.push(t);
        assert(task_views(out@) == before.push(t@));
        assert(orig.take(out.len() as int) == orig.take(out.len() - 1).push(orig[out.len() - 1]));
    }
    assert(orig.take(n as int) == orig);
    out
}

/// The decimal text of a priority's number.
pub open spec fn priority_arg_s(p: Priority) -> Seq<char> {
    decimal_s(priority_num_s(p) as nat)
}

fn priority_arg(p: Priority) -> (r: String)
    ensures
        r@ == priority_arg_s(p),
{
    let mut s = String::new();
    push_decimal(&mut s, p.as_num() as u64);
    s
}

/// `--label <l>` for each label, in order.
pub open spec fn label_flags_s(ls: Seq<Seq<char>>) -> Seq<Seq<char>>
    decreases ls.len(),
{
    if ls.len() == 0 {
        Seq::empty()
    } else {
        label_flags_s(ls.drop_last()) + seq!["--label"@, ls.last()]
    }
}

/// The arguments of `bd list` for a filter: all issues as JSON, with the
/// status, priority and labels handed to beads (the text is not).
pub open spec fn list_args_s(f: FilterView) -> Seq<Seq<char>> {
    seq!["list"@, "--all"@, "--json"@, "--no-pager"@] + opt_flag_s(
        "--status"@,
        match f.status {
            Some(s) => Some(status_to_beads_s(s)),
            None => None,
        },
    ) + opt_flag_s(
        "--priority"@,
        match f.priority {
            Some(p) => Some(priority_arg_s(p)),
            None => None,
        },
    ) + label_flags_s(f.labels)
}

/// The arguments of `bd create`: the title, `--silent`, `-d` with a non-empty
/// description, the priority number, `-l` with the labels joined by commas,
/// and `--parent`.
pub open spec fn create_args_s(t: NewTaskView) -> Seq<Seq<char>> {
    seq!["create"@, t.title, "--silent"@] + opt_flag_s("-d"@, non_empty_s(t.description)) + seq![
        "-p"@,
        priority_arg_s(t.priority),
    ] + (if t.labels.len() > 0 {
        seq!["-l"@, join_s(t.labels, ","@)]
    } else {
        Seq::empty()
    }) + opt_flag_s("--parent"@, t.parent)
}

/// What `bd list` is asked: all issues as JSON without a pager, then
/// `--status` with the filter's status name, `--priority` with its priority's
/// number in decimal, and `--label` with each of its labels.
pub proof fn lemma_list_args_options(f: FilterView)
    ensures
        list_args_s(f).take(4) == seq!["list"@, "--all"@, "--json"@, "--no-pager"@],
        f.status matches Some(s) ==> has_option(list_args_s(f), "--status"@, status_to_beads_s(s)),
        f.priority matches Some(q) ==> has_option(
            list_args_s(f),
            "--priority"@,
            decimal_s(priority_num_s(q) as nat),
        ),
        forall|k: int| 0 <= k < f.labels.len() ==> has_option(list_args_s(f), "--label"@, #[trigger] f.labels[k]),
{
    let h = seq!["list"@, "--all"@, "--json"@, "--no-pager"@];
    let a = opt_flag_s(
        "--status"@,
        match f.status {
            Some(s) => Some(status_to_beads_s(s)),
            None => None,
        },
    );
    let b = opt_flag_s(
        "--priority"@,
        match f.priority {
            Some(p) => Some(priority_arg_s(p)),
            None => None,
        },
    );
    let c = label_flags_s(f.labels);
    let args = list_args_s(f);
    assert(args == h + a + b + c);
    assert(args.take(4) == h);
    assert(f.status matches Some(s) ==> has_option(args, "--status"@, status_to_beads_s(s))) by {
        if let Some(s) = f.status {
            let v = status_to_beads_s(s);
            lemma_option_pair("--status"@, v);
            lemma_option_after(h, a, "--status"@, v);
            lemma_option_before(h + a, b, "--status"@, v);
            lemma_option_before(h + a + b, c, "--status"@, v);
        }
    }
    assert(f.priority matches Some(q) ==> has_option(args, "--priority"@, decimal_s(priority_num_s(q) as nat))) by {
        if let Some(q) = f.priority {
            let v = priority_arg_s(q);
            lemma_option_pair("--priority"@, v);
            lemma_option_after(h + a, b, "--priority"@, v);
            lemma_option_before(h + a + b, c, "--priority"@, v);
        }
    }
    assert forall|k: int| 0 <= k < f.labels.len() implies has_option(args, "--label"@, #[trigger] f.labels[k]) by {
        lemma_label_flags_option(f.labels, k);
        lemma_option_after(h + a + b, c, "--label"@, f.labels[k]);
    }
}

proof fn lemma_label_flags_option(ls: Seq<Seq<char>>, k: int)
    requires
        0 <= k < ls.len(),
    ensures
        has_option(label_flags_s(ls), "--label"@, ls[k]),
    decreases ls.len(),
{
    let init = label_flags_s(ls.drop_last());
    let tail = seq!["--label"@, ls.last()];
    assert(label_flags_s(ls) == init + tail);
    if k == ls.len() - 1 {
        lemma_option_pair("--label"@, ls.last());
        lemma_option_after(init, tail, "--label"@, ls[k]);
    } else {
        lemma_label_flags_option(ls.drop_last(), k);
        assert(ls.drop_last()[k] == ls[k]);
        lemma_option_before(init, tail, "--label"@, ls[k]);
    }
}

/// What `bd create` is asked: `create <title> --silent`, then `-d` with the
/// description when it is not empty, `-p` with the priority's number in
/// decimal, `-l` with the labels joined by commas when there are any, and
/// `--parent` with the parent when there is one.
pub proof fn lemma_create_args_options(t: NewTaskView)
    ensures
        create_args_s(t).take(3) == seq!["create"@, t.title, "--silent"@],
        t.description matches Some(d) ==> (d.len() > 0 ==> has_option(create_args_s(t), "-d"@, d)),
        has_option(create_args_s(t), "-p"@, decimal_s(priority_num_s(t.priority) as nat)),
        t.labels.len() > 0 ==> has_option(create_args_s(t), "-l"@, join_s(t.labels, ","@)),
        t.parent matches Some(q) ==> has_option(create_args_s(t), "--parent"@, q),
{
    let h = seq!["create"@, t.title, "--silent"@];
    let a = opt_flag_s("-d"@, non_empty_s(t.description));
    let b = seq!["-p"@, priority_arg_s(t.priority)];
    let c = if t.labels.len() > 0 {
        seq!["-l"@, join_s(t.labels, ","@)]
    } else {
        Seq::<Seq<char>>::empty()
    };
    let d = opt_flag_s("--parent"@, t.parent);
    let args = create_args_s(t);
    assert(args == h + a + b + c + d);
    assert(args.take(3) == h);
    assert(t.description matches Some(x) ==> (x.len() > 0 ==> has_option(args, "-d"@, x))) by {
        if let Some(x) = t.description {
            if x.len() > 0 {
                lemma_option_pair("-d"@, x);
                lemma_option_after(h, a, "-d"@, x);
                lemma_option_before(h + a, b, "-d"@, x);
                lemma_option_before(h + a + b, c, "-d"@, x);
                lemma_option_before(h + a + b + c, d, "-d"@, x);
            }
        }
    }
    assert(has_option(args, "-p"@, decimal_s(priority_num_s(t.priority) as nat))) by {
        let v = priority_arg_s(t.priority);
        lemma_option_pair("-p"@, v);
        lemma_option_after(h + a, b, "-p"@, v);
        lemma_option_before(h + a + b, c, "-p"@, v);
        lemma_option_before(h + a + b + c, d, "-p"@, v);
    }
    assert(t.labels.len() > 0 ==> has_option(args, "-l"@, join_s(t.labels, ","@))) by {
        if t.labels.len() > 0 {
            let v = join_s(t.labels, ","@);
            lemma_option_pair("-l"@, v);
            lemma_option_after(h + a + b, c, "-l"@, v);
            lemma_option_before(h + a + b + c, d, "-l"@, v);
        }
    }
    assert(t.parent matches Some(q) ==> has_option(args, "--parent"@, q)) by {
        if let Some(q) = t.parent {
            lemma_option_pair("--parent"@, q);
            lemma_option_after(h + a + b + c, d, "--parent"@, q);
        }
    }
}

/// The patch changes some field other than the status.
pub open spec fn has_field_s(p: TaskPatchView) -> bool {
    p.title is Some || p.description is Some || p.priority is Some || p.assignee is Some
        || p.labels is Some
}

/// The arguments of `bd update <id>` for the fields of a patch other than the
/// status.
pub open spec fn update_args_s(id: Seq<char>, p: TaskPatchView) -> Seq<Seq<char>> {
    seq!["update"@, id] + opt_flag_s("--title"@, p.title) + opt_flag_s("-d"@, p.description)
        + opt_flag_s(
        "-p"@,
        match p.priority {
            Some(x) => Some(priority_arg_s(x)),
            None => None,
        },
    ) + opt_flag_s("-a"@, p.assignee) + opt_flag_s(
        "--set-labels"@,
        match p.labels {
            Some(l) => Some(join_s(l, ","@)),
            None => None,
        },
    )
}

/// The arguments that set a status: `close <id>` for done,
/// `update <id> --status <name>` otherwise.
pub open spec fn set_status_args_s(id: Seq<char>, s: Status) -> Seq<Seq<char>> {
    if s == Status::Done {
        seq!["close"@, id]
    } else {
        seq!["update"@, id, "--status"@, status_to_beads_s(s)]
    }
}

/// The commands of an update, in order: one `bd update` when the patch
/// changes fields other than the status, then the status change if any.
pub open spec fn update_plan_s(id: Seq<char>, p: TaskPatchView) -> Seq<Seq<Seq<char>>> {
    (if has_field_s(p) {
        seq![update_args_s(id, p)]
    } else {
        Seq::empty()
    }) + (match p.status {
        Some(s) => seq![set_status_args_s(id, s)],
        None => Seq::empty(),
    })
}

/// What an update runs: first, when the patch changes anything besides the
/// status, one `bd update <id>` that passes each named field as an option
/// with the new value right after it (`--title`, `-d`, `-p` with the
/// priority's number in decimal, `-a`, `--set-labels` with the labels joined
/// by commas); then, when the patch sets a status, `bd close <id>` for done
/// or `bd update <id> --status <name>` for any other status. Nothing else runs.
pub proof fn lemma_update_plan_commands(id: Seq<char>, p: TaskPatchView)
    ensures
        update_plan_s(id, p).len() == (if p.title is Some || p.description is Some || p.priority is Some
            || p.assignee is Some || p.labels is Some {
            1int
        } else {
            0int
        }) + (if p.status is Some {
            1int
        } else {
            0int
        }),
        has_field_s(p) ==> update_plan_s(id, p)[0].take(2) == seq!["update"@, id],
        p.title matches Some(v) ==> has_option(update_plan_s(id, p)[0], "--title"@, v),
        p.description matches Some(v) ==> has_option(update_plan_s(id, p)[0], "-d"@, v),
        p.priority matches Some(q) ==> has_option(
            update_plan_s(id, p)[0],
            "-p"@,
            decimal_s(priority_num_s(q) as nat),
        ),
        p.assignee matches Some(v) ==> has_option(update_plan_s(id, p)[0], "-a"@, v),
        p.labels matches Some(l) ==> has_option(update_plan_s(id, p)[0], "--set-labels"@, join_s(l, ","@)),
        p.status == Some(Status::Done) ==> update_plan_s(id, p).last() == seq!["close"@, id],
        p.status matches Some(s) ==> (s != Status::Done ==> update_plan_s(id, p).last() == seq![
            "update"@,
            id,
            "--status"@,
            status_to_beads_s(s),
        ]),
{
    let h = seq!["update"@, id];
    let a = opt_flag_s("--title"@, p.title);
    let b = opt_flag_s("-d"@, p.description);
    let c = opt_flag_s(
        "-p"@,
        match p.priority {
            Some(x) => Some(priority_arg_s(x)),
            None => None,
        },
    );
    let d = opt_flag_s("-a"@, p.assignee);
    let e = opt_flag_s(
        "--set-labels"@,
        match p.labels {
            Some(l) => Some(join_s(l, ","@)),
            None => None,
        },
    );
    let args = update_args_s(id, p);
    assert(args == h + a + b + c + d + e);
    if has_field_s(p) {
        assert(update_plan_s(id, p)[0] == args);
        assert(args.take(2) == h);
    }
    assert(p.title matches Some(v) ==> has_option(args, "--title"@, v)) by {
        if let Some(v) = p.title {
            lemma_option_pair("--title"@, v);
            lemma_option_after(h, a, "--title"@, v);
            lemma_option_before(h + a, b, "--title"@, v);
            lemma_option_before(h + a + b, c, "--title"@, v);
            lemma_option_before(h + a + b + c, d, "--title"@, v);
            lemma_option_before(h + a + b + c + d, e, "--title"@, v);
        }
    }
    assert(p.description matches Some(v) ==> has_option(args, "-d"@, v)) by {
        if let Some(v) = p.description {
            lemma_option_pair("-d"@, v);
            lemma_option_after(h + a, b, "-d"@, v);
            lemma_option_before(h + a + b, c, "-d"@, v);
            lemma_option_before(h + a + b + c, d, "-d"@, v);
            lemma_option_before(h + a + b + c + d, e, "-d"@, v);
        }
    }
    assert(p.priority matches Some(q) ==> has_option(args, "-p"@, decimal_s(priority_num_s(q) as nat))) by {
        if let Some(q) = p.priority {
            let v = priority_arg_s(q);
            lemma_option_pair("-p"@, v);
            lemma_option_after(h + a + b, c, "-p"@, v);
            lemma_option_before(h + a + b + c, d, "-p"@, v);
            lemma_option_before(h + a + b + c + d, e, "-p"@, v);
        }
    }
    assert(p.assignee matches Some(v) ==> has_option(args, "-a"@, v)) by {
        if let Some(v) = p.assignee {
            lemma_option_pair("-a"@, v);
            lemma_option_after(h + a + b + c, d, "-a"@, v);
            lemma_option_before(h + a + b + c + d, e, "-a"@, v);
        }
    }
    assert(p.labels matches Some(l) ==> has_option(args, "--set-labels"@, join_s(l, ","@))) by {
        if let Some(l) = p.labels {
            let v = join_s(l, ","@);
            lemma_option_pair("--set-labels"@, v);
            lemma_option_after(h + a + b + c + d, e, "--set-labels"@, v);
        }
    }
}

/// The views of a list of argument lists.
pub open spec fn plan_views(v: Seq<Vec<String>>) -> Seq<Seq<Seq<char>>> {
    v.map_values(|a: Vec<String>| string_views(a@))
}

/// The last line of the output that is not blank, trimmed; empty if none.
pub open spec fn last_nonblank_s(ls: Seq<Seq<char>>) -> Seq<char>
    decreases ls.len(),
{
    if ls.len() == 0 {
        Seq::empty()
    } else if trim_s(ls.last()).len() > 0 {
        trim_s(ls.last())
    } else {
        last_nonblank_s(ls.drop_last())
    }
}

/// The message when the output of `bd create --silent` names no issue.
pub open spec fn no_created_issue_message() -> Seq<char> {
    "생성된 이슈 ID를 파싱하지 못했습니다"@
}

/// The id that `bd create --silent` printed, or a backend error when it
/// printed none.
pub open spec fn created_id_s(out: Seq<char>) -> Result<Seq<char>, ErrorView> {
    let id = last_nonblank_s(lines_s(out));
    if id.len() == 0 {
        Err(ErrorView::Backend(no_created_issue_message()))
    } else {
        Ok(id)
    }
}

/// The task that `bd show` gives: the first issue, or `NotFound(id)` when
/// there is none.
pub open spec fn shown_task_s(id: Seq<char>, issues: Seq<BeadIssueView>) -> Result<TaskView, ErrorView> {
    if issues.len() > 0 {
        Ok(issue_task_s(issues[0]))
    } else {
        Err(ErrorView::NotFound(id))
    }
}

/// The beads backend: what its commands are and how their output reads.
pub struct BeadsRepository {
    /// A `BEADS_DIR` override; `None` follows `bd`'s own default.
    dir: Option<String>,
}

impl BeadsRepository {
    /// The `BEADS_DIR` the commands get.
    pub closed spec fn dir_s(&self) -> Option<Seq<char>> {
        opt_string_view(self.dir)
    }

    pub fn new(cfg: &BeadsConfig) -> (r: BeadsRepository)
        ensures
            r.dir_s() == opt_string_view(cfg.dir),
    {
        BeadsRepository { dir: copy_opt_string(&cfg.dir) }
    }

    /// The `BEADS_DIR` the commands get.
    pub fn dir(&self) -> (r: &Option<String>)
        ensures
            opt_string_view(*r) == self.dir_s(),
    {
        &self.dir
    }

    pub fn name(&self) -> (r: &'static str)
        ensures
            r@ == "beads"@,
    {
        "beads"
    }

    /// `bd list ...` for a filter.
    pub fn list_args(filter: &Filter) -> (r: Vec<String>)
        ensures
            string_views(r@) == list_args_s(filter@),
    {
        let mut a: Vec<String> = Vec::new();
        push_arg(&mut a, "list");
        push_arg(&mut a, "--all");
        push_arg(&mut a, "--json");
        push_arg(&mut a, "--no-pager");
        let ghost s0 = string_views(a@);
        let st: Option<&str> = match filter.status {
            Some(x) => Some(status_to_beads(x)),
            None => None,
        };
        push_flag(&mut a, "--status", st);
        let ghost s1 = string_views(a@);
        let num: Option<String> = match filter.priority {
            Some(p) => Some(priority_arg(p)),
            None => None,
        };
        let nv: Option<&str> = match &num {
            Some(n) => Some(n.as_str()),
            None => None,
        };
        push_flag(&mut a, "--priority", nv);
        let ghost s2 = string_views(a@);
        let mut i: usize = 0;
        assert(filter@.labels.take(0) == Seq::<Seq<char>>::empty());
        while i < filter.labels.len()
            invariant
                i <= filter.labels.len(),
                string_views(a@) == s2 + label_flags_s(filter@.labels.take(i as int)),
            decreases filter.labels.len() - i,
        {
            assert(filter@.labels.take(i + 1).drop_last() == filter@.labels.take(i as int));
            push_arg(&mut a, "--label");
            push_arg(&mut a, filter.labels[i].as_str());
            i = i + 1;
        }
        assert(filter@.labels.take(filter.labels.len() as int) == filter@.labels);
        a
    }

    /// The tasks of the issues that `bd list` printed.
    pub fn list_from_issues(issues: Vec<BeadIssue>) -> (r: Vec<Task>)
        ensures
            task_views(r@) == issues@.map_values(|i: BeadIssue| issue_task_s(i@)),
    {
        tasks_from_issues(issues)
    }

    /// `bd show <id> --json`.
    pub fn get_args(id: &str) -> (r: Vec<String>)
        ensures
            string_views(r@) == seq!["show"@, id@, "--json"@],
    {
        let mut a: Vec<String> = Vec::new();
        push_arg(&mut a, "show");
        push_arg(&mut a, id);
        push_arg(&mut a, "--json");
        a
    }

    /// The task of the issues that `bd show <id>` printed.
    pub fn shown_task(id: &str, issues: Vec<BeadIssue>) -> (r: Result<Task, Error>)
        ensures
            crate::adapters::memory::task_result_view(r) == shown_task_s(
                id@,
                issues@.map_values(|i: BeadIssue| i@),
            ),
    {
        let mut v = issues;
        if v.len() == 0 {
            return Err(Error::NotFound(String::from_str(id)));
        }
        let first = v.remove(0);
        Ok(task_from_issue(first))
    }

    /// `bd create ...` for a new task.
    pub fn create_args(task: &NewTask) -> (r: Vec<String>)
        ensures
            string_views(r@) == create_args_s(task@),
    {
        let mut a: Vec<String> = Vec::new();
        push_arg(&mut a, "create");
        push_arg(&mut a, task.title.as_str());
        push_arg(&mut a, "--silent");
        let ghost s1 = string_views(a@);
        let desc: Option<&str> = match &task.description {
            Some(d) => if d.as_str().is_empty() {
                None
            } else {
                Some(d.as_str())
            },
            None => None,
        };
        assert(opt_str_view(desc) == non_empty_s(task@.description));
        push_flag(&mut a, "-d", desc);
        let ghost s2 = string_views(a@);
        push_arg(&mut a, "-p");
        push_arg_string(&mut a, priority_arg(task.priority));
        let ghost s3 = string_views(a@);
        assert(s3 == s2 + seq!["-p"@, priority_arg_s(task@.priority)]);
        if task.labels.len() > 0 {
            push_arg(&mut a, "-l");
            push_arg_string(&mut a, join(&task.labels, ","));
        }
        let ghost s4 = string_views(a@);
        assert(s4 == s3 + (if task@.labels.len() > 0 {
            seq!["-l"@, join_s(task@.labels, ","@)]
        } else {
            Seq::empty()
        }));
        let parent: Option<&str> = match &task.parent {
            Some(p) => Some(p.as_str()),
            None => None,
        };
        assert(opt_str_view(parent) == task@.parent);
        push_flag(&mut a, "--parent", parent);
        a
    }

    /// Reads the id that `bd create --silent` printed: its last non-blank line.
    pub fn created_id(out: &str) -> (r: Result<String, Error>)
        ensures
            string_result_view(r) == created_id_s(out@),
    {
        let ls = lines(&chars_of(out));
        let ghost lv = lines_s(out@);
        let mut i: usize = ls.len();
        assert(lv.take(lv.len() as int) == lv);
        while i > 0
            invariant
                i <= ls.len(),
                char_views(ls@) == lv,
                lv == lines_s(out@),
                last_nonblank_s(lv) == last_nonblank_s(lv.take(i as int)),
            decreases i,
        {
            assert(lv[i - 1] == ls@[i - 1]@);
            assert(lv.take(i as int).last() == lv[i - 1]);
            assert(lv.take(i as int).drop_last() == lv.take(i - 1));
            let t = trim(&ls[i - 1]);
            if t.len() > 0 {
                return Ok(string_of(&t));
            }
            i = i - 1;
        }
        Err(Error::Backend(String::from_str("생성된 이슈 ID를 파싱하지 못했습니다")))
    }

    /// `bd update <id> ...` for the fields of a patch other than the status.
    fn update_args(id: &str, patch: &TaskPatch) -> (r: Vec<String>)
        ensures
            string_views(r@) == update_args_s(id@, patch@),
    {
        let mut a: Vec<String> = Vec::new();
        push_arg(&mut a, "update");
        push_arg(&mut a, id);
        let title: Option<&str> = match &patch.title {
            Some(t) => Some(t.as_str()),
            None => None,
        };
        assert(opt_str_view(title) == patch@.title);
        push_flag(&mut a, "--title", title);
        let desc: Option<&str> = match &patch.description {
            Some(t) => Some(t.as_str()),
            None => None,
        };
        assert(opt_str_view(desc) == patch@.description);
        push_flag(&mut a, "-d", desc);
        let num: Option<String> = match patch.priority {
            Some(p) => Some(priority_arg(p)),
            None => None,
        };
        let nv: Option<&str> = match &num {
            Some(n) => Some(n.as_str()),
            None => None,
        };
        push_flag(&mut a, "-p", nv);
        let who: Option<&str> = match &patch.assignee {
            Some(t) => Some(t.as_str()),
            None => None,
        };
        assert(opt_str_view(who) == patch@.assignee);
        push_flag(&mut a, "-a", who);
        let labels: Option<String> = match &patch.labels {
            Some(l) => Some(join(l, ",")),
            None => None,
        };
        let lv: Option<&str> = match &labels {
            Some(j) => Some(j.as_str()),
            None => None,
        };
        push_flag(&mut a, "--set-labels", lv);
        a
    }

    /// The arguments that set a status.
    pub fn set_status_args(id: &str, status: Status) -> (r: Vec<String>)
        ensures
            string_views(r@) == set_status_args_s(id@, status),
    {
        let mut a: Vec<String> = Vec::new();
        match status {
            Status::Done => {
                push_arg(&mut a, "close");
                push_arg(&mut a, id);
            },
            other => {
                push_arg(&mut a, "update");
                push_arg(&mut a, id);
                push_arg(&mut a, "--status");
                push_arg(&mut a, status_to_beads(other));
            },
        }
        a
    }

    /// The commands of an update, to run in order until one fails.
    pub fn update_plan(id: &str, patch: &TaskPatch) -> (r: Vec<Vec<String>>)
        ensures
            plan_views(r@) == update_plan_s(id@, patch@),
    {
        let mut plan: Vec<Vec<String>> = Vec::new();
        let has_field = patch.title.is_some() || patch.description.is_some()
            || patch.priority.is_some() || patch.assignee.is_some() || patch.labels.is_some();
        if has_field {
            plan.push(Self::update_args(id, patch));
        }
        let ghost p1 = plan_views(plan@);
        assert(p1 == (if has_field_s(patch@) {
            seq![update_args_s(id@, patch@)]
        } else {
            Seq::<Seq<Seq<char>>>::empty()
        }));
        match patch.status {
            Some(s) => {
                plan.push(Self::set_status_args(id, s));
                assert(plan_views(plan@) == p1.push(set_status_args_s(id@, s)));
            },
            None => {},
        }
        plan
    }

    /// `bd delete <id> --force`.
    pub fn delete_args(id: &str) -> (r: Vec<String>)
        ensures
            string_views(r@) == seq!["delete"@, id@, "--force"@],
    {
        let mut a: Vec<String> = Vec::new();
        push_arg(&mut a, "delete");
        push_arg(&mut a, id);
        push_arg(&mut a, "--force");
        a
    }
}

} // verus!
