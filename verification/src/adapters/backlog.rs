//! The backlog.md backend (the `backlog` command-line tool).
//!
//! backlog.md has no JSON output, so its `--plain` text is parsed:
//! - `backlog task list --plain`: unindented group headers (`To Do:` and so
//!   on) followed by items `  [PRIORITY] TASK-N - title`;
//! - `backlog task <id> --plain`: `Status:`, `Priority:` and `Description:`
//!   sections.
//! Its default statuses are `To Do`, `In Progress` and `Done`, and its
//! priorities `high`, `medium` and `low`. Creating is `task create`, editing
//! `task edit`, a status change `task edit -s`; there is no delete, so
//! `task archive` stands for it. Blocked and deferred map to `To Do`.
//!
//! This module holds what the backend decides: the arguments of each command
//! and the reading of each command's output. Running the command is left to
//! the caller.

use vstd::prelude::*;

use crate::config::BacklogConfig;
use crate::domain::model::{
    task_views, Filter, NewTask, Priority, Status, Task, TaskPatch, TaskView,
    NewTaskView, TaskPatchView,
};
use crate::domain::service::{matching_s, retain_matching};
use crate::error::{Error, ErrorView};
use crate::adapters::cli::{has_option, lemma_option_after, lemma_option_before, lemma_option_pair, lemma_option_within, push_arg, push_arg_string};
use crate::text::{
    ascii_lower, ascii_lower_s, chars_of, contains, contains_s, ends_with, ends_with_s, eq_str,
    find, find_s, lemma_find_s, lines, lines_s, matches_at, split_once, split_once_s, starts_with,
    starts_with_s, string_of, strip_prefix, strip_prefix_s, subvec, trim, trim_end, trim_end_char,
    trim_end_char_s, trim_end_s, trim_s, trim_start, trim_start_s, char_views, char_is_uppercase, is_upper, join, join_s, string_views, opt_string_view,
};

verus! {

/// The status a backlog status text stands for (a symbol may precede it).
pub open spec fn status_from_backlog_s(s: Seq<char>) -> Status {
    if contains_s(s, "In Progress"@) {
        Status::InProgress
    } else if contains_s(s, "Done"@) {
        Status::Done
    } else {
        Status::Open
    }
}

/// The backlog status text of a status; statuses backlog lacks become `To Do`.
pub open spec fn status_to_backlog_s(s: Status) -> Seq<char> {
    match s {
        Status::InProgress => "In Progress"@,
        Status::Done => "Done"@,
        _ => "To Do"@,
    }
}

/// The priority a backlog priority text stands for: `high` is P1, `low` P3,
/// anything else P2 (case and surrounding whitespace ignored).
pub open spec fn priority_from_backlog_s(s: Seq<char>) -> Priority {
    let l = ascii_lower_s(trim_s(s));
    if l == "high"@ {
        Priority::P1
    } else if l == "low"@ {
        Priority::P3
    } else {
        Priority::P2
    }
}

/// The backlog priority text of a priority.
pub open spec fn priority_to_backlog_s(p: Priority) -> Seq<char> {
    match p {
        Priority::P0 | Priority::P1 => "high"@,
        Priority::P2 => "medium"@,
        Priority::P3 | Priority::P4 => "low"@,
    }
}

fn status_from_backlog_chars(s: &Vec<char>) -> (r: Status)
    ensures
        r == status_from_backlog_s(s@),
{
    if contains(s, &chars_of("In Progress")) {
        Status::InProgress
    } else if contains(s, &chars_of("Done")) {
        Status::Done
    } else {
        Status::Open
    }
}

/// The status a backlog status text stands for.
pub fn status_from_backlog(s: &str) -> (r: Status)
    ensures
        r == status_from_backlog_s(s@),
{
    status_from_backlog_chars(&chars_of(s))
}

/// The backlog status text of a status.
pub fn status_to_backlog(s: Status) -> (r: &'static str)
    ensures
        r@ == status_to_backlog_s(s),
{
    match s {
        Status::InProgress => "In Progress",
        Status::Done => "Done",
        Status::Open | Status::Blocked | Status::Deferred => "To Do",
    }
}

fn priority_from_backlog_chars(s: &Vec<char>) -> (r: Priority)
    ensures
        r == priority_from_backlog_s(s@),
{
    let l = ascii_lower(&trim(s));
    if eq_str(&l, "high") {
        Priority::P1
    } else if eq_str(&l, "low") {
        Priority::P3
    } else {
        Priority::P2
    }
}

/// The priority a backlog priority text stands for.
pub fn priority_from_backlog(s: &str) -> (r: Priority)
    ensures
        r == priority_from_backlog_s(s@),
{
    priority_from_backlog_chars(&chars_of(s))
}

/// The backlog priority text of a priority.
pub fn priority_to_backlog(p: Priority) -> (r: &'static str)
    ensures
        r@ == priority_to_backlog_s(p),
{
    match p {
        Priority::P0 | Priority::P1 => "high",
        Priority::P2 => "medium",
        Priority::P3 | Priority::P4 => "low",
    }
}

/// Statuses that backlog knows come back from their text unchanged.
pub proof fn lemma_status_backlog_roundtrip(s: Status)
    requires
        s == Status::Open || s == Status::InProgress || s == Status::Done,
    ensures
        status_from_backlog_s(status_to_backlog_s(s)) == s,
{
    reveal_strlit("To Do");
    reveal_strlit("In Progress");
    reveal_strlit("Done");
    let t = status_to_backlog_s(s);
    lemma_find_s(t, "In Progress"@);
    lemma_find_s(t, "Done"@);
    assert(t.subrange(0, t.len() as int) == t);
    if s == Status::InProgress {
        assert(matches_at(t, "In Progress"@, 0));
    } else if s == Status::Done {
        assert(matches_at(t, "Done"@, 0));
        assert forall|k: int| !matches_at(t, "In Progress"@, k) by {}
    } else {
        assert forall|k: int| !matches_at(t, "In Progress"@, k) by {}
        assert forall|k: int| !matches_at(t, "Done"@, k) by {
            if matches_at(t, "Done"@, k) {
                assert(t.subrange(k, k + 4)[0] == 'D');
            }
        }
    }
}

/// A priority's backlog text reads back as the nearest backlog level: P1, P2
/// and P3 come back unchanged, P0 as P1 and P4 as P3.
pub proof fn lemma_priority_backlog_roundtrip(p: Priority)
    ensures
        priority_from_backlog_s(priority_to_backlog_s(p)) == (match p {
            Priority::P0 | Priority::P1 => Priority::P1,
            Priority::P2 => Priority::P2,
            Priority::P3 | Priority::P4 => Priority::P3,
        }),
{
    reveal_strlit("high");
    reveal_strlit("medium");
    reveal_strlit("low");
    let t = priority_to_backlog_s(p);
    assert(trim_start_s(t) == t);
    assert(trim_end_s(t) == t);
    assert(ascii_lower_s(t) == t);
}

/// Every task list item in `--plain` output, starting after an optional
/// `[PRIORITY]` tag: the priority it gives and the text after it.
pub open spec fn bracket_prefix_s(line: Seq<char>) -> (Priority, Seq<char>) {
    match strip_prefix_s(line, "["@) {
        Some(r) => match find_s(r, "]"@) {
            Some(i) => (priority_from_backlog_s(r.take(i)), trim_start_s(r.skip(i + 1))),
            None => (Priority::P2, line),
        },
        None => (Priority::P2, line),
    }
}

/// One list item `[HIGH] TASK-1 - title`: `None` when there is no ` - `
/// or the id is blank.
pub open spec fn parse_list_item_s(line: Seq<char>, status: Status) -> Option<TaskView> {
    let (priority, rest) = bracket_prefix_s(line);
    match split_once_s(rest, " - "@) {
        None => None,
        Some((id0, title0)) => {
            let id = trim_s(id0);
            if id.len() == 0 {
                None
            } else {
                Some(
                    TaskView {
                        id,
                        title: trim_s(title0),
                        description: None,
                        status,
                        priority,
                        assignee: None,
                        labels: Seq::empty(),
                        parent: None,
                    },
                )
            }
        },
    }
}

/// One line of `task list --plain`: blank lines are skipped, an unindented
/// line ending in `:` starts a status group, any other line may be an item
/// of the current group.
pub open spec fn list_step_s(acc: (Seq<TaskView>, Status), raw: Seq<char>) -> (Seq<TaskView>, Status) {
    let line = trim_end_s(raw);
    if trim_s(line).len() == 0 {
        acc
    } else if !starts_with_s(raw, " "@) && ends_with_s(line, ":"@) {
        (acc.0, status_from_backlog_s(trim_end_char_s(line, ':')))
    } else {
        match parse_list_item_s(trim_s(line), acc.1) {
            Some(t) => (acc.0.push(t), acc.1),
            None => acc,
        }
    }
}

/// In `task list --plain`, an item takes the status of the group header
/// above it: after an unindented header line `<status text>:`, an indented
/// item line adds one task, with the id and title of the item and the status
/// that the header's text names; the tasks read before stay as they were.
pub proof fn lemma_list_item_under_header(acc: (Seq<TaskView>, Status), header: Seq<char>, item: Seq<char>)
    requires
        !starts_with_s(header, " "@),
        trim_s(trim_end_s(header)).len() > 0,
        ends_with_s(trim_end_s(header), ":"@),
        starts_with_s(item, " "@),
        trim_s(trim_end_s(item)).len() > 0,
        parse_list_item_s(trim_s(trim_end_s(item)), Status::Open) is Some,
    ensures
        list_step_s(list_step_s(acc, header), item).0.len() == acc.0.len() + 1,
        list_step_s(list_step_s(acc, header), item).0.take(acc.0.len() as int) == acc.0,
        list_step_s(list_step_s(acc, header), item).0.last().status == status_from_backlog_s(
            trim_end_char_s(trim_end_s(header), ':'),
        ),
        list_step_s(list_step_s(acc, header), item).0.last().id == parse_list_item_s(
            trim_s(trim_end_s(item)),
            Status::Open,
        )->0.id,
        list_step_s(list_step_s(acc, header), item).0.last().title == parse_list_item_s(
            trim_s(trim_end_s(item)),
            Status::Open,
        )->0.title,
{
    let st = status_from_backlog_s(trim_end_char_s(trim_end_s(header), ':'));
    let mid = list_step_s(acc, header);
    assert(mid == (acc.0, st));
    let line = trim_end_s(item);
    let t = parse_list_item_s(trim_s(line), st)->0;
    assert(parse_list_item_s(trim_s(line), st) is Some);
    assert(list_step_s(mid, item) == (acc.0.push(t), st));
    assert(acc.0.push(t).take(acc.0.len() as int) == acc.0);
}

/// The items read from the lines so far, and the current status group.
pub open spec fn list_scan_s(ls: Seq<Seq<char>>) -> (Seq<TaskView>, Status)
    decreases ls.len(),
{
    if ls.len() == 0 {
        (Seq::empty(), Status::Open)
    } else {
        list_step_s(list_scan_s(ls.drop_last()), ls.last())
    }
}

/// The tasks of a `task list --plain` output.
pub open spec fn parse_list_s(text: Seq<char>) -> Seq<TaskView> {
    list_scan_s(lines_s(text)).0
}

fn parse_list_item_chars(line: &Vec<char>, status: Status) -> (r: Option<Task>)
    ensures
        match r {
            Some(t) => parse_list_item_s(line@, status) == Some(t@),
            None => parse_list_item_s(line@, status) is None,
        },
{
    let mut rest = subvec(line, 0, line.len());
    assert(line@.subrange(0, line.len() as int) == line@);
    let mut priority = Priority::P2;
    match strip_prefix(line, "[") {
        Some(r) => {
            let close = chars_of("]");
            match find(&r, &close) {
                Some(i) => {
                    proof {
                        lemma_find_s(r@, close@);
                    }
                    assert(matches_at(r@, close@, i as int));
                    assert(i + 1 <= r@.len()) by {
                        reveal_strlit("]");
                    }
                    let tag = subvec(&r, 0, i);
                    assert(tag@ == r@.take(i as int));
                    priority = priority_from_backlog_chars(&tag);
                    let after = subvec(&r, i + 1, r.len());
                    assert(after@ == r@.skip(i + 1));
                    rest = trim_start(&after);
                },
                None => {},
            }
        },
        None => {},
    }
    assert((priority, rest@) == bracket_prefix_s(line@));
    match split_once(&rest, " - ") {
        None => None,
        Some((a, b)) => {
            let id = trim(&a);
            if id.len() == 0 {
                None
            } else {
                let task = Task {
                    id: string_of(&id),
                    title: string_of(&trim(&b)),
                    description: None,
                    status,
                    priority,
                    assignee: None,
                    labels: Vec::new(),
                    parent: None,
                };
                assert(string_views(task.labels@) == Seq::<Seq<char>>::empty());
                Some(task)
            }
        },
    }
}

/// Parses one list item such as `[HIGH] TASK-1 - title` of the given group.
pub fn parse_list_item(line: &str, status: Status) -> (r: Option<Task>)
    ensures
        match r {
            Some(t) => parse_list_item_s(line@, status) == Some(t@),
            None => parse_list_item_s(line@, status) is None,
        },
{
    parse_list_item_chars(&chars_of(line), status)
}

fn list_step(tasks: &mut Vec<Task>, cur: &mut Status, raw: &Vec<char>)
    ensures
        (task_views(final(tasks)@), *final(cur)) == list_step_s((task_views(old(tasks)@), *old(cur)), raw@),
{
    let line = trim_end(raw);
    let t = trim(&line);
    if t.len() == 0 {
        return;
    }
    if !starts_with(raw, &chars_of(" ")) && ends_with(&line, &chars_of(":")) {
        let name = trim_end_char(&line, ':');
        *cur = status_from_backlog_chars(&name);
        return;
    }
    match parse_list_item_chars(&t, *cur) {
        Some(task) => {
            let ghost before = task_views(tasks@);
            tasks.push(task);
            assert(task_views(tasks@) == before.push(task@));
        },
        None => {},
    }
}


fn parse_list_chars(text: &Vec<char>) -> (r: Vec<Task>)
    ensures
        task_views(r@) == parse_list_s(text@),
{
    let ls = lines(text);
    let ghost lv = lines_s(text@);
    let mut tasks: Vec<Task> = Vec::new();
    let mut cur = Status::Open;
    let mut i: usize = 0;
    assert(lv.take(0) == Seq::<Seq<char>>::empty());
    while i < ls.len()
        invariant
            i <= ls.len(),
            char_views(ls@) == lv,
            (task_views(tasks@), cur) == list_scan_s(lv.take(i as int)),
        decreases ls.len() - i,
    {
        assert(lv.take(i + 1).drop_last() == lv.take(i as int));
        assert(lv.take(i + 1).last() == ls@[i as int]@);
        list_step(&mut tasks, &mut cur, &ls[i]);
        i = i + 1;
    }
    assert(lv.take(ls.len() as int) == lv);
    tasks
}

/// The state of reading `task <id> --plain`: title, status, priority, the
/// description so far, and whether the description section is open.
pub struct ViewScanState {
    pub title: Seq<char>,
    pub status: Status,
    pub priority: Priority,
    pub desc: Seq<char>,
    pub in_desc: bool,
}

/// A trimmed line of `task <id> --plain` heads a new section (and so ends
/// the description): it ends in `:` and its first character is upper-case,
/// which `first_is_upper` tells.
pub open spec fn section_header_s(trimmed: Seq<char>, first_is_upper: bool) -> bool {
    ends_with_s(trimmed, ":"@) && first_is_upper
}

fn section_header_chars(trimmed: &Vec<char>, first_is_upper: bool) -> (b: bool)
    ensures
        b == section_header_s(trimmed@, first_is_upper),
{
    ends_with(trimmed, &chars_of(":")) && first_is_upper
}

/// Whether a trimmed view line heads a new section, given whether its first
/// character is upper-case.
pub fn is_section_header(trimmed: &str, first_is_upper: bool) -> (b: bool)
    ensures
        b == section_header_s(trimmed@, first_is_upper),
{
    section_header_chars(&chars_of(trimmed), first_is_upper)
}

/// One line of `task <id> --plain`.
pub open spec fn view_step_s(st: ViewScanState, line: Seq<char>) -> ViewScanState {
    let trimmed = trim_s(line);
    match strip_prefix_s(trimmed, "Task "@) {
        Some(v) => match split_once_s(v, " - "@) {
            Some((_, t)) => ViewScanState { title: trim_s(t), ..st },
            None => st,
        },
        None => match strip_prefix_s(trimmed, "Status:"@) {
            Some(v) => ViewScanState { status: status_from_backlog_s(v), in_desc: false, ..st },
            None => match strip_prefix_s(trimmed, "Priority:"@) {
                Some(v) => ViewScanState { priority: priority_from_backlog_s(v), in_desc: false, ..st },
                None => if trimmed == "Description:"@ {
                    ViewScanState { in_desc: true, ..st }
                } else if section_header_s(trimmed, trimmed.len() > 0 && is_upper(trimmed[0])) {
                    ViewScanState { in_desc: false, ..st }
                } else if st.in_desc && !starts_with_s(trimmed, "---"@) {
                    ViewScanState {
                        desc: (if st.desc.len() == 0 { st.desc } else { st.desc.push('\n') })
                            + trim_end_s(line),
                        ..st
                    }
                } else {
                    st
                },
            },
        },
    }
}

/// A `Status:` line of `task <id> --plain` reads its text as a `task list`
/// group header does: `In Progress` anywhere in it is in progress, otherwise
/// `Done` anywhere is done, otherwise the task is open. The line ends the
/// description and leaves the title, the priority and the description text
/// as they were.
pub proof fn lemma_view_status_line(st: ViewScanState, line: Seq<char>, v: Seq<char>)
    requires
        strip_prefix_s(trim_s(line), "Status:"@) == Some(v),
    ensures
        view_step_s(st, line).status == status_from_backlog_s(v),
        contains_s(v, "In Progress"@) ==> view_step_s(st, line).status == Status::InProgress,
        !contains_s(v, "In Progress"@) && contains_s(v, "Done"@) ==> view_step_s(st, line).status
            == Status::Done,
        !contains_s(v, "In Progress"@) && !contains_s(v, "Done"@) ==> view_step_s(st, line).status
            == Status::Open,
        !view_step_s(st, line).in_desc,
        view_step_s(st, line).title == st.title,
        view_step_s(st, line).priority == st.priority,
        view_step_s(st, line).desc == st.desc,
{
    let trimmed = trim_s(line);
    reveal_strlit("Task ");
    reveal_strlit("Status:");
    assert(trimmed.take(7) == "Status:"@);
    assert(trimmed[0] == trimmed.take(7)[0]);
    assert(trimmed[0] == 'S');
    if starts_with_s(trimmed, "Task "@) {
        assert(trimmed.take(5)[0] == trimmed[0]);
        assert(false);
    }
    assert(strip_prefix_s(trimmed, "Task "@) is None);
}

/// A `Priority:` line of `task <id> --plain` sets the priority its text
/// names (`high` P1, `low` P3, anything else P2, case and surrounding
/// whitespace ignored), ends the description, and leaves the title, the
/// status and the description text as they were.
pub proof fn lemma_view_priority_line(st: ViewScanState, line: Seq<char>, v: Seq<char>)
    requires
        strip_prefix_s(trim_s(line), "Priority:"@) == Some(v),
    ensures
        view_step_s(st, line).priority == priority_from_backlog_s(v),
        ascii_lower_s(trim_s(v)) == "high"@ ==> view_step_s(st, line).priority == Priority::P1,
        ascii_lower_s(trim_s(v)) == "low"@ ==> view_step_s(st, line).priority == Priority::P3,
        ascii_lower_s(trim_s(v)) != "high"@ && ascii_lower_s(trim_s(v)) != "low"@ ==> view_step_s(st, line).priority
            == Priority::P2,
        !view_step_s(st, line).in_desc,
        view_step_s(st, line).title == st.title,
        view_step_s(st, line).status == st.status,
        view_step_s(st, line).desc == st.desc,
{
    let trimmed = trim_s(line);
    reveal_strlit("Task ");
    reveal_strlit("Status:");
    reveal_strlit("Priority:");
    reveal_strlit("high");
    reveal_strlit("low");
    assert("high"@.len() != "low"@.len());
    assert(trimmed.take(9) == "Priority:"@);
    assert(trimmed[0] == trimmed.take(9)[0]);
    assert(trimmed[0] == 'P');
    if starts_with_s(trimmed, "Task "@) {
        assert(trimmed.take(5)[0] == trimmed[0]);
        assert(false);
    }
    if starts_with_s(trimmed, "Status:"@) {
        assert(trimmed.take(7)[0] == trimmed[0]);
        assert(false);
    }
    assert(strip_prefix_s(trimmed, "Task "@) is None);
    assert(strip_prefix_s(trimmed, "Status:"@) is None);
}

/// The state after reading the given lines of the view of task `id`.
pub open spec fn view_scan_s(id: Seq<char>, ls: Seq<Seq<char>>) -> ViewScanState
    decreases ls.len(),
{
    if ls.len() == 0 {
        ViewScanState {
            title: id,
            status: Status::Open,
            priority: Priority::P2,
            desc: Seq::empty(),
            in_desc: false,
        }
    } else {
        view_step_s(view_scan_s(id, ls.drop_last()), ls.last())
    }
}

/// The task that `task <id> --plain` shows: the title after `Task <id> - `
/// (the id when there is none), the status and priority sections, and the
/// trimmed description unless it is empty or a `No ...` placeholder.
pub open spec fn parse_view_s(id: Seq<char>, text: Seq<char>) -> TaskView {
    let st = view_scan_s(id, lines_s(text));
    let d = trim_s(st.desc);
    TaskView {
        id,
        title: st.title,
        description: if d.len() == 0 || starts_with_s(d, "No "@) {
            None
        } else {
            Some(d)
        },
        status: st.status,
        priority: st.priority,
        assignee: None,
        labels: Seq::empty(),
        parent: None,
    }
}

struct ViewScan {
    title: Vec<char>,
    status: Status,
    priority: Priority,
    desc: Vec<char>,
    in_desc: bool,
}

impl View for ViewScan {
    type V = ViewScanState;

    closed spec fn view(&self) -> ViewScanState {
        ViewScanState {
            title: self.title@,
            status: self.status,
            priority: self.priority,
            desc: self.desc@,
            in_desc: self.in_desc,
        }
    }
}

fn append_chars(v: &mut Vec<char>, t: &Vec<char>)
    ensures
        final(v)@ == old(v)@ + t@,
{
    let mut i: usize = 0;
    while i < t.len()
        invariant
            i <= t.len(),
            v@ == old(v)@ + t@.take(i as int),
        decreases t.len() - i,
    {
        v.push(t[i]);
        assert(t@.take(i + 1) == t@.take(i as int).push(t@[i as int]));
        i = i + 1;
    }
    assert(t@.take(t.len() as int) == t@);
}

fn view_step(st: &mut ViewScan, line: &Vec<char>)
    ensures
        final(st)@ == view_step_s(old(st)@, line@),
{
    let trimmed = trim(line);
    match strip_prefix(&trimmed, "Task ") {
        Some(v) => {
            match split_once(&v, " - ") {
                Some((_, t)) => {
                    st.title = trim(&t);
                },
                None => {},
            }
            return;
        },
        None => {},
    }
    match strip_prefix(&trimmed, "Status:") {
        Some(v) => {
            st.status = status_from_backlog_chars(&v);
            st.in_desc = false;
            return;
        },
        None => {},
    }
    match strip_prefix(&trimmed, "Priority:") {
        Some(v) => {
            st.priority = priority_from_backlog_chars(&v);
            st.in_desc = false;
            return;
        },
        None => {},
    }
    if eq_str(&trimmed, "Description:") {
        st.in_desc = true;
    } else if section_header_chars(&trimmed, trimmed.len() > 0 && char_is_uppercase(trimmed[0])) {
        st.in_desc = false;
    } else if st.in_desc && !starts_with(&trimmed, &chars_of("---")) {
        if st.desc.len() > 0 {
            st.desc.push('\n');
        }
        let tail = trim_end(line);
        append_chars(&mut st.desc, &tail);
    }
}

fn parse_view_chars(id: &str, text: &Vec<char>) -> (r: Task)
    ensures
        r@ == parse_view_s(id@, text@),
{
    let ls = lines(text);
    let ghost lv = lines_s(text@);
    let mut st = ViewScan {
        title: chars_of(id),
        status: Status::Open,
        priority: Priority::P2,
        desc: Vec::new(),
        in_desc: false,
    };
    let mut i: usize = 0;
    assert(lv.take(0) == Seq::<Seq<char>>::empty());
    while i < ls.len()
        invariant
            i <= ls.len(),
            char_views(ls@) == lv,
            st@ == view_scan_s(id@, lv.take(i as int)),
        decreases ls.len() - i,
    {
        assert(lv.take(i + 1).drop_last() == lv.take(i as int));
        assert(lv.take(i + 1).last() == ls@[i as int]@);
        view_step(&mut st, &ls[i]);
        i = i + 1;
    }
    assert(lv.take(ls.len() as int) == lv);
    let d = trim(&st.desc);
    let description = if d.len() == 0 || starts_with(&d, &chars_of("No ")) {
        None
    } else {
        Some(string_of(&d))
    };
    let task = Task {
        id: String::from_str(id),
        title: string_of(&st.title),
        description,
        status: st.status,
        priority: st.priority,
        assignee: None,
        labels: Vec::new(),
        parent: None,
    };
    assert(string_views(task.labels@) == Seq::<Seq<char>>::empty());
    task
}

/// Reads the task that `backlog task <id> --plain` printed.
pub fn parse_view(id: &str, text: &str) -> (r: Task)
    ensures
        r@ == parse_view_s(id@, text@),
{
    parse_view_chars(id, &chars_of(text))
}


/// The arguments of `backlog task create`: the title, `-d` with a non-empty
/// description, the priority, and `-l` with the labels joined by commas.
pub open spec fn create_args_s(t: NewTaskView) -> Seq<Seq<char>> {
    seq!["task"@, "create"@, t.title] + (match t.description {
        Some(d) => if d.len() > 0 {
            seq!["-d"@, d]
        } else {
            Seq::empty()
        },
        None => Seq::empty(),
    }) + seq!["--priority"@, priority_to_backlog_s(t.priority)] + (if t.labels.len() > 0 {
        seq!["-l"@, join_s(t.labels, ","@)]
    } else {
        Seq::empty()
    })
}

/// An option and its value when the value is present.
pub open spec fn opt_flag_s(flag: Seq<char>, v: Option<Seq<char>>) -> Seq<Seq<char>> {
    match v {
        Some(x) => seq![flag, x],
        None => Seq::empty(),
    }
}

/// The options of `backlog task edit` for a patch (the assignee has no
/// backlog option and is left out).
pub open spec fn edit_flags_s(p: TaskPatchView) -> Seq<Seq<char>> {
    opt_flag_s("-t"@, p.title) + opt_flag_s("-d"@, p.description) + opt_flag_s(
        "--priority"@,
        match p.priority {
            Some(x) => Some(priority_to_backlog_s(x)),
            None => None,
        },
    ) + opt_flag_s(
        "-s"@,
        match p.status {
            Some(x) => Some(status_to_backlog_s(x)),
            None => None,
        },
    ) + opt_flag_s(
        "-l"@,
        match p.labels {
            Some(l) => Some(join_s(l, ","@)),
            None => None,
        },
    )
}

/// The arguments of `backlog task edit <id>` for a patch.
pub open spec fn edit_args_s(id: Seq<char>, p: TaskPatchView) -> Seq<Seq<char>> {
    seq!["task"@, "edit"@, id] + edit_flags_s(p)
}

/// What `task edit` is asked: `task edit <id>` first, then, for each field
/// the patch names, its option with the new value right after it: `-t` the
/// title, `-d` the description, `--priority` and `-s` their backlog texts,
/// `-l` the labels joined by commas. There are more than those three
/// arguments exactly when the patch names something backlog can change.
pub proof fn lemma_edit_args_options(id: Seq<char>, p: TaskPatchView)
    ensures
        edit_args_s(id, p).take(3) == seq!["task"@, "edit"@, id],
        p.title matches Some(v) ==> has_option(edit_args_s(id, p), "-t"@, v),
        p.description matches Some(v) ==> has_option(edit_args_s(id, p), "-d"@, v),
        p.priority matches Some(q) ==> has_option(edit_args_s(id, p), "--priority"@, priority_to_backlog_s(q)),
        p.status matches Some(s) ==> has_option(edit_args_s(id, p), "-s"@, status_to_backlog_s(s)),
        p.labels matches Some(l) ==> has_option(edit_args_s(id, p), "-l"@, join_s(l, ","@)),
        edit_args_s(id, p).len() > 3 <==> (p.title is Some || p.description is Some || p.priority is Some
            || p.status is Some || p.labels is Some),
{
    let h = seq!["task"@, "edit"@, id];
    let a = opt_flag_s("-t"@, p.title);
    let b = opt_flag_s("-d"@, p.description);
    let c = opt_flag_s(
        "--priority"@,
        match p.priority {
            Some(x) => Some(priority_to_backlog_s(x)),
            None => None,
        },
    );
    let d = opt_flag_s(
        "-s"@,
        match p.status {
            Some(x) => Some(status_to_backlog_s(x)),
            None => None,
        },
    );
    let e = opt_flag_s(
        "-l"@,
        match p.labels {
            Some(l) => Some(join_s(l, ","@)),
            None => None,
        },
    );
    let args = edit_args_s(id, p);
    assert(args == h + a + b + c + d + e);
    assert(args.take(3) == h);
    assert(p.title matches Some(v) ==> has_option(args, "-t"@, v)) by {
        if let Some(v) = p.title {
            lemma_option_pair("-t"@, v);
            lemma_option_after(h, a, "-t"@, v);
            lemma_option_before(h + a, b, "-t"@, v);
            lemma_option_before(h + a + b, c, "-t"@, v);
            lemma_option_before(h + a + b + c, d, "-t"@, v);
            lemma_option_before(h + a + b + c + d, e, "-t"@, v);
        }
    }
    assert(p.description matches Some(v) ==> has_option(args, "-d"@, v)) by {
        if let Some(v) = p.description {
            lemma_option_pair("-d"@, v);
            lemma_option_after(h + a, b, "-d"@, v);
            lemma_option_before(h + a + b, c, "-d"@, v);
            lemma_option_before(h + a + b + c, d, "-d"@, v);
            lemma_option_before(h + a + b + c + d, e, "-d"@, v);
        }
    }
    assert(p.priority matches Some(q) ==> has_option(args, "--priority"@, priority_to_backlog_s(q))) by {
        if let Some(q) = p.priority {
            let v = priority_to_backlog_s(q);
            lemma_option_pair("--priority"@, v);
            lemma_option_after(h + a + b, c, "--priority"@, v);
            lemma_option_before(h + a + b + c, d, "--priority"@, v);
            lemma_option_before(h + a + b + c + d, e, "--priority"@, v);
        }
    }
    assert(p.status matches Some(s) ==> has_option(args, "-s"@, status_to_backlog_s(s))) by {
        if let Some(s) = p.status {
            let v = status_to_backlog_s(s);
            lemma_option_pair("-s"@, v);
            lemma_option_after(h + a + b + c, d, "-s"@, v);
            lemma_option_before(h + a + b + c + d, e, "-s"@, v);
        }
    }
    assert(p.labels matches Some(l) ==> has_option(args, "-l"@, join_s(l, ","@))) by {
        if let Some(l) = p.labels {
            let v = join_s(l, ","@);
            lemma_option_pair("-l"@, v);
            lemma_option_after(h + a + b + c + d, e, "-l"@, v);
        }
    }
}

/// What `task create` is asked: `task create <title>`, then `-d` with the
/// description when it is not empty, `--priority` with the priority's
/// backlog text, and `-l` with the labels joined by commas when there are any.
pub proof fn lemma_create_args_options(t: NewTaskView)
    ensures
        create_args_s(t).take(3) == seq!["task"@, "create"@, t.title],
        t.description matches Some(d) ==> (d.len() > 0 ==> has_option(create_args_s(t), "-d"@, d)),
        has_option(create_args_s(t), "--priority"@, priority_to_backlog_s(t.priority)),
        t.labels.len() > 0 ==> has_option(create_args_s(t), "-l"@, join_s(t.labels, ","@)),
{
    let h = seq!["task"@, "create"@, t.title];
    let a = match t.description {
        Some(d) => if d.len() > 0 {
            seq!["-d"@, d]
        } else {
            Seq::<Seq<char>>::empty()
        },
        None => Seq::<Seq<char>>::empty(),
    };
    let b = seq!["--priority"@, priority_to_backlog_s(t.priority)];
    let c = if t.labels.len() > 0 {
        seq!["-l"@, join_s(t.labels, ","@)]
    } else {
        Seq::<Seq<char>>::empty()
    };
    let args = create_args_s(t);
    assert(args == h + a + b + c);
    assert(args.take(3) == h);
    match t.description {
        Some(d) => if d.len() > 0 {
            lemma_option_pair("-d"@, d);
            lemma_option_within(h, a, b + c, "-d"@, d);
            assert(h + a + (b + c) == args);
        },
        None => {},
    }
    lemma_option_pair("--priority"@, priority_to_backlog_s(t.priority));
    lemma_option_within(h + a, b, c, "--priority"@, priority_to_backlog_s(t.priority));
    if t.labels.len() > 0 {
        lemma_option_pair("-l"@, join_s(t.labels, ","@));
        lemma_option_within(h + a + b, c, Seq::empty(), "-l"@, join_s(t.labels, ","@));
        assert(h + a + b + c + Seq::<Seq<char>>::empty() == args);
    }
}

/// The id in the output of `task create`: the rest of the first line that,
/// trimmed, begins with `Created task `, itself trimmed.
pub open spec fn created_id_from_s(ls: Seq<Seq<char>>, i: int) -> Option<Seq<char>>
    decreases ls.len() - i,
{
    if i < 0 || i >= ls.len() {
        None
    } else {
        match strip_prefix_s(trim_s(ls[i]), "Created task "@) {
            Some(rest) => Some(trim_s(rest)),
            None => created_id_from_s(ls, i + 1),
        }
    }
}

/// The message when the output of `task create` names no task.
pub open spec fn no_created_id_message() -> Seq<char> {
    "생성된 작업 ID를 파싱하지 못했습니다"@
}

/// The id that `task create` reports, or a backend error when it reports none.
pub open spec fn created_id_s(out: Seq<char>) -> Result<Seq<char>, ErrorView> {
    match created_id_from_s(lines_s(out), 0) {
        Some(id) => Ok(id),
        None => Err(ErrorView::Backend(no_created_id_message())),
    }
}

/// The view of an optional string slice.
pub open spec fn opt_str_view(o: Option<&str>) -> Option<Seq<char>> {
    match o {
        Some(s) => Some(s@),
        None => None,
    }
}

/// Appends an option and its value when the value is present.
pub fn push_flag(a: &mut Vec<String>, flag: &str, v: Option<&str>)
    ensures
        string_views(final(a)@) == string_views(old(a)@) + opt_flag_s(flag@, opt_str_view(v)),
{
    match v {
        Some(x) => {
            push_arg(a, flag);
            push_arg(a, x);
        },
        None => {},
    }
}

fn edit_flags(patch: &TaskPatch) -> (r: Vec<String>)
    ensures
        string_views(r@) == edit_flags_s(patch@),
{
    let mut a: Vec<String> = Vec::new();
    let title: Option<&str> = match &patch.title {
        Some(t) => Some(t.as_str()),
        None => None,
    };
    assert(opt_str_view(title) == patch@.title);
    push_flag(&mut a, "-t", title);
    let ghost s1 = string_views(a@);
    assert(s1 == opt_flag_s("-t"@, patch@.title));
    let desc: Option<&str> = match &patch.description {
        Some(t) => Some(t.as_str()),
        None => None,
    };
    assert(opt_str_view(desc) == patch@.description);
    push_flag(&mut a, "-d", desc);
    let ghost s2 = string_views(a@);
    let prio: Option<&str> = match patch.priority {
        Some(p) => Some(priority_to_backlog(p)),
        None => None,
    };
    push_flag(&mut a, "--priority", prio);
    let ghost s3 = string_views(a@);
    let st: Option<&str> = match patch.status {
        Some(x) => Some(status_to_backlog(x)),
        None => None,
    };
    push_flag(&mut a, "-s", st);
    let ghost s4 = string_views(a@);
    let labels: Option<String> = match &patch.labels {
        Some(l) => Some(join(l, ",")),
        None => None,
    };
    let lv: Option<&str> = match &labels {
        Some(j) => Some(j.as_str()),
        None => None,
    };
    push_flag(&mut a, "-l", lv);
    a
}

/// The backlog.md backend: what its commands are and how their output reads.
pub struct BacklogMdRepository {
    /// The project directory (the one holding `backlog/`); `None` is the
    /// working directory.
    project_path: Option<String>,
}

impl BacklogMdRepository {
    /// The project directory the commands run in.
    pub closed spec fn project_path_s(&self) -> Option<Seq<char>> {
        opt_string_view(self.project_path)
    }

    pub fn new(cfg: &BacklogConfig) -> (r: BacklogMdRepository)
        ensures
            r.project_path_s() == opt_string_view(cfg.project_path),
    {
        BacklogMdRepository { project_path: crate::adapters::memory::copy_opt_string(&cfg.project_path) }
    }

    /// The project directory the commands run in.
    pub fn project_path(&self) -> (r: &Option<String>)
        ensures
            opt_string_view(*r) == self.project_path_s(),
    {
        &self.project_path
    }

    pub fn name(&self) -> (r: &'static str)
        ensures
            r@ == "backlog.md"@,
    {
        "backlog.md"
    }

    /// Parses the output of `backlog task list --plain`.
    pub fn parse_list(text: &str) -> (r: Vec<Task>)
        ensures
            task_views(r@) == parse_list_s(text@),
    {
        parse_list_chars(&chars_of(text))
    }

    /// `task list --plain`.
    pub fn list_args() -> (r: Vec<String>)
        ensures
            string_views(r@) == seq!["task"@, "list"@, "--plain"@],
    {
        let mut a: Vec<String> = Vec::new();
        push_arg(&mut a, "task");
        push_arg(&mut a, "list");
        push_arg(&mut a, "--plain");
        a
    }

    /// The tasks of a listing, with the filter applied here (backlog's own
    /// filters are limited) unless it is empty.
    pub fn list_from_output(text: &str, filter: &Filter) -> (r: Vec<Task>)
        ensures
            task_views(r@) == (if crate::domain::model::filter_is_empty_s(filter@) {
                parse_list_s(text@)
            } else {
                matching_s(parse_list_s(text@), filter@)
            }),
    {
        let tasks = Self::parse_list(text);
        if !filter.is_empty() {
            retain_matching(tasks, filter)
        } else {
            tasks
        }
    }

    /// `task <id> --plain`.
    pub fn get_args(id: &str) -> (r: Vec<String>)
        ensures
            string_views(r@) == seq!["task"@, id@, "--plain"@],
    {
        let mut a: Vec<String> = Vec::new();
        push_arg(&mut a, "task");
        push_arg(&mut a, id);
        push_arg(&mut a, "--plain");
        a
    }

    /// `task create ...` for a new task.
    pub fn create_args(task: &NewTask) -> (r: Vec<String>)
        ensures
            string_views(r@) == create_args_s(task@),
    {
        let mut a: Vec<String> = Vec::new();
        push_arg(&mut a, "task");
        push_arg(&mut a, "create");
        push_arg(&mut a, task.title.as_str());
        let ghost s1 = string_views(a@);
        let desc: Option<&str> = match &task.description {
            Some(d) => if d.as_str().is_empty() {
                None
            } else {
                Some(d.as_str())
            },
            None => None,
        };
        push_flag(&mut a, "-d", desc);
        let ghost s2 = string_views(a@);
        assert(s2 == s1 + (match task@.description {
            Some(d) => if d.len() > 0 {
                seq!["-d"@, d]
            } else {
                Seq::empty()
            },
            None => Seq::empty(),
        }));
        push_arg(&mut a, "--priority");
        push_arg(&mut a, priority_to_backlog(task.priority));
        let ghost s3 = string_views(a@);
        assert(s3 == s2 + seq!["--priority"@, priority_to_backlog_s(task.priority)]);
        if task.labels.len() > 0 {
            push_arg(&mut a, "-l");
            let j = join(&task.labels, ",");
            push_arg_string(&mut a, j);
        }
        let ghost s4 = string_views(a@);
        assert(s4 == s3 + (if task@.labels.len() > 0 {
            seq!["-l"@, join_s(task@.labels, ","@)]
        } else {
            Seq::empty()
        }));
        a
    }

    /// Reads the id that `task create` printed.
    pub fn created_id(out: &str) -> (r: Result<String, Error>)
        ensures
            crate::adapters::memory::string_result_view(r) == created_id_s(out@),
    {
        let ls = lines(&chars_of(out));
        let ghost lv = lines_s(out@);
        let mut i: usize = 0;
        while i < ls.len()
            invariant
                i <= ls.len(),
                char_views(ls@) == lv,
                lv == lines_s(out@),
                created_id_from_s(lv, 0) == created_id_from_s(lv, i as int),
            decreases ls.len() - i,
        {
            assert(lv[i as int] == ls@[i as int]@);
            let t = trim(&ls[i]);
            match strip_prefix(&t, "Created task ") {
                Some(rest) => {
                    assert(i < lv.len());
                    assert(strip_prefix_s(trim_s(lv[i as int]), "Created task "@) == Some(rest@));
                    assert(created_id_from_s(lv, i as int) == Some(trim_s(rest@)));
                    return Ok(string_of(&trim(&rest)));
                },
                None => {},
            }
            i = i + 1;
        }
        Err(Error::Backend(String::from_str("생성된 작업 ID를 파싱하지 못했습니다")))
    }

    /// `task edit <id> ...` for a patch, or `None` when the patch names nothing
    /// backlog can change (then no command runs).
    pub fn update_args(id: &str, patch: &TaskPatch) -> (r: Option<Vec<String>>)
        ensures
            match r {
                Some(a) => string_views(a@) == edit_args_s(id@, patch@) && edit_args_s(id@, patch@).len() > 3,
                None => edit_args_s(id@, patch@).len() <= 3,
            },
    {
        let mut a: Vec<String> = Vec::new();
        push_arg(&mut a, "task");
        push_arg(&mut a, "edit");
        push_arg(&mut a, id);
        let ghost s0 = string_views(a@);
        let mut f = edit_flags(patch);
        let ghost fv = string_views(f@);
        a.append(&mut f);
        assert(string_views(a@) == s0 + fv);
        if a.len() > 3 {
            Some(a)
        } else {
            None
        }
    }

    /// `task edit <id> -s <status>`.
    pub fn set_status_args(id: &str, status: Status) -> (r: Vec<String>)
        ensures
            string_views(r@) == seq!["task"@, "edit"@, id@, "-s"@, status_to_backlog_s(status)],
    {
        let mut a: Vec<String> = Vec::new();
        push_arg(&mut a, "task");
        push_arg(&mut a, "edit");
        push_arg(&mut a, id);
        push_arg(&mut a, "-s");
        push_arg(&mut a, status_to_backlog(status));
        a
    }

    /// `task archive <id>` (backlog has no delete).
    pub fn delete_args(id: &str) -> (r: Vec<String>)
        ensures
            string_views(r@) == seq!["task"@, "archive"@, id@],
    {
        let mut a: Vec<String> = Vec::new();
        push_arg(&mut a, "task");
        push_arg(&mut a, "archive");
        push_arg(&mut a, id);
        a
    }
}

} // verus!
