//! The state of the terminal front end: the task list on screen, the
//! selection in it, and what each key does. Drawing and reading the terminal
//! are the caller's.

use vstd::prelude::*;

use crate::config::ViewMode;
use crate::domain::model::{filter_is_empty_s, Filter, Status, Task};
use crate::error::{error_message_s, Error, ErrorView};
use crate::ports::TaskApi;
use crate::text::{chars_of, decimal_s, join, join_s, push_decimal, push_str};
use crate::domain::model::TaskView;

verus! {

/// The terminal width of a text: one column per ASCII character, two for
/// any other.
pub open spec fn width_sum_s(s: Seq<char>) -> nat
    decreases s.len(),
{
    if s.len() == 0 {
        0
    } else {
        width_sum_s(s.drop_last()) + if (s.last() as u32) < 128 {
            1nat
        } else {
            2nat
        }
    }
}

/// The approximate terminal width of `s` (ASCII one column, everything else
/// two), as a `u16` (so modulo 65536).
pub fn display_width(s: &str) -> (r: u16)
    ensures
        r as nat == width_sum_s(s@) % 65536,
{
    let v = chars_of(s);
    let mut w: u16 = 0;
    let mut i: usize = 0;
    while i < v.len()
        invariant
            i <= v.len(),
            w as nat == width_sum_s(v@.take(i as int)) % 65536,
        decreases v.len() - i,
    {
        let d: u32 = if (v[i] as u32) < 128 {
            1
        } else {
            2
        };
        let ghost prev = width_sum_s(v@.take(i as int));
        assert(v@.take(i + 1).drop_last() == v@.take(i as int));
        assert(width_sum_s(v@.take(i + 1)) == prev + d);
        let x: u32 = w as u32 + d;
        proof {
            vstd::arithmetic::div_mod::lemma_add_mod_noop(prev as int, d as int, 65536);
        }
        w = if x >= 65536 {
            (x - 65536) as u16
        } else {
            x as u16
        };
        i = i + 1;
    }
    assert(v@.take(v.len() as int) == v@);
    w
}

/// A key press, as far as the list screen tells keys apart.
#[derive(Debug, Clone, Copy, PartialEq, Eq)]
pub enum Key {
    Char(char),
    Down,
    Up,
    Home,
    End,
    Other,
}

/// The selection fitted to a list of `len` entries: none for an empty list,
/// else the old position (the first when there was none) capped at the last.
pub open spec fn clamp_s(sel: Option<usize>, len: nat) -> Option<usize> {
    if len == 0 {
        None
    } else {
        Some(
            (match sel {
                Some(i) => if i < len {
                    i
                } else {
                    (len - 1) as usize
                },
                None => 0usize,
            }),
        )
    }
}

/// The selection after moving down: one further, stopping at the last entry;
/// the first entry when nothing was selected.
pub open spec fn next_s(sel: Option<usize>, len: nat) -> Option<usize> {
    if len == 0 {
        sel
    } else {
        match sel {
            Some(i) => Some(if i + 1 < len { (i + 1) as usize } else { (len - 1) as usize }),
            None => Some(0usize),
        }
    }
}

/// The selection after moving up: one back, stopping at the first entry;
/// the first entry when nothing was selected.
pub open spec fn prev_s(sel: Option<usize>, len: nat) -> Option<usize> {
    if len == 0 {
        sel
    } else {
        match sel {
            Some(i) => Some(if i > 0 { (i - 1) as usize } else { 0usize }),
            None => Some(0usize),
        }
    }
}

/// The selection is nothing or a position within a list of `len` entries.
pub open spec fn selection_valid(sel: Option<usize>, len: nat) -> bool {
    sel matches Some(i) ==> i < len
}

/// Fitting the selection to a list always leaves it within the list, and
/// leaves something selected exactly when the list is not empty.
pub proof fn lemma_clamp_valid(sel: Option<usize>, len: nat)
    requires
        len <= usize::MAX,
    ensures
        selection_valid(clamp_s(sel, len), len),
        clamp_s(sel, len) is None <==> len == 0,
{
}

/// Moving keeps a valid selection within the list, and selects something
/// whenever the list is not empty.
pub proof fn lemma_moves_keep_selection_valid(sel: Option<usize>, len: nat)
    requires
        selection_valid(sel, len),
        len <= usize::MAX,
    ensures
        selection_valid(next_s(sel, len), len),
        selection_valid(prev_s(sel, len), len),
        len > 0 ==> next_s(sel, len) is Some && prev_s(sel, len) is Some,
{
}

/// Moving up undoes moving down, except at the last entry where moving down
/// stays put.
pub proof fn lemma_prev_undoes_next(i: usize, len: nat)
    requires
        i + 1 < len,
        len <= usize::MAX,
    ensures
        prev_s(next_s(Some(i), len), len) == Some(i),
{
}

/// The status-bar text for a loaded list of `n` tasks.
pub open spec fn count_message_s(n: nat) -> Seq<char> {
    decimal_s(n) + "개 작업"@
}

/// The status-bar text for a failed load.
pub open spec fn failure_message_s(e: ErrorView) -> Seq<char> {
    "오류: "@ + error_message_s(e)
}

/// The screen after taking in a list answer `res`: on success the answer's
/// tasks, the selection fitted to them and their count shown; on failure the
/// old tasks and selection with the error shown. Nothing else changes.
pub open spec fn loaded_s<A: TaskApi>(before: App<A>, after: App<A>, res: Result<Vec<Task>, Error>) -> bool {
    &&& after.api == before.api
    &&& after.config_path == before.config_path
    &&& after.view == before.view
    &&& after.should_quit == before.should_quit
    &&& match res {
        Ok(ts) => {
            &&& after.tasks == ts
            &&& after.selected == clamp_s(before.selected, ts@.len())
            &&& after.status@ == count_message_s(ts@.len())
        },
        Err(e) => {
            &&& after.tasks == before.tasks
            &&& after.selected == before.selected
            &&& after.status@ == failure_message_s(e@)
        },
    }
}

/// The positions among the first `n` tasks of those with status `s`, in
/// order.
pub open spec fn positions_with_status_s(ts: Seq<Task>, s: Status, n: int) -> Seq<usize>
    decreases n,
{
    if n <= 0 {
        Seq::empty()
    } else {
        let p = positions_with_status_s(ts, s, n - 1);
        if ts[n - 1].status == s {
            p.push((n - 1) as usize)
        } else {
            p
        }
    }
}

/// The optional rows of a task's detail pane, as (label, value): the
/// assignee, the labels joined by `, `, and the parent, each when present.
pub open spec fn detail_rows_s(t: TaskView) -> Seq<(Seq<char>, Seq<char>)> {
    (match t.assignee {
        Some(a) => seq![("담당"@, a)],
        None => Seq::empty(),
    }) + (if t.labels.len() > 0 {
        seq![("라벨"@, join_s(t.labels, ", "@))]
    } else {
        Seq::empty()
    }) + (match t.parent {
        Some(p) => seq![("상위"@, p)],
        None => Seq::empty(),
    })
}

/// The views of a list of (label, value) rows.
pub open spec fn row_views(v: Seq<(String, String)>) -> Seq<(Seq<char>, Seq<char>)> {
    v.map_values(|r: (String, String)| (r.0@, r.1@))
}

/// The description shown in the detail pane, or `(없음)` when there is none.
pub open spec fn description_text_s(t: TaskView) -> Seq<char> {
    match t.description {
        Some(d) => d,
        None => "(없음)"@,
    }
}

fn push_row(rows: &mut Vec<(String, String)>, label: &str, value: String)
    ensures
        row_views(final(rows)@) == row_views(old(rows)@).push((label@, value@)),
{
    let ghost before = row_views(rows@);
    let ghost v = value@;
    rows.push((String::from_str(label), value));
    assert(row_views(rows@) == before.push((label@, v)));
}

/// The optional rows of a task's detail pane.
pub fn detail_rows(t: &Task) -> (r: Vec<(String, String)>)
    ensures
        row_views(r@) == detail_rows_s(t@),
{
    let mut rows: Vec<(String, String)> = Vec::new();
    match &t.assignee {
        Some(a) => push_row(&mut rows, "담당", a.clone()),
        None => {},
    }
    let ghost r1 = row_views(rows@);
    if t.labels.len() > 0 {
        push_row(&mut rows, "라벨", join(&t.labels, ", "));
    }
    let ghost r2 = row_views(rows@);
    assert(r2 == r1 + (if t@.labels.len() > 0 {
        seq![("라벨"@, join_s(t@.labels, ", "@))]
    } else {
        Seq::empty()
    }));
    match &t.parent {
        Some(p) => push_row(&mut rows, "상위", p.clone()),
        None => {},
    }
    rows
}

/// The description shown in a task's detail pane.
pub fn description_text(t: &Task) -> (r: String)
    ensures
        r@ == description_text_s(t@),
{
    match &t.description {
        Some(d) => d.clone(),
        None => String::from_str("(없음)"),
    }
}

/// The selection after jumping to the first entry (unchanged for an
/// empty list).
pub open spec fn first_s(sel: Option<usize>, len: nat) -> Option<usize> {
    if len == 0 {
        sel
    } else {
        Some(0usize)
    }
}

/// The selection after jumping to the last entry (unchanged for an empty
/// list).
pub open spec fn last_s(sel: Option<usize>, len: nat) -> Option<usize> {
    if len == 0 {
        sel
    } else {
        Some((len - 1) as usize)
    }
}

/// The screen with another selection and everything else as it was.
pub open spec fn with_selection_s<A: TaskApi>(a: App<A>, sel: Option<usize>) -> App<A> {
    App { selected: sel, ..a }
}

/// The screen asked to quit, with everything else as it was.
pub open spec fn quitting_s<A: TaskApi>(a: App<A>) -> App<A> {
    App { should_quit: true, ..a }
}

/// The list screen: the tasks shown, the selection, the view, the status-bar
/// text, and whether the user asked to quit.
pub struct App<A: TaskApi> {
    /// The use cases the screen calls.
    pub api: A,
    /// The configuration file path, shown in the help screen.
    pub config_path: String,
    /// The tasks on screen.
    pub tasks: Vec<Task>,
    /// The selected position in `tasks`.
    pub selected: Option<usize>,
    /// The current view (list or board).
    pub view: ViewMode,
    /// The status-bar message (the task count or an error).
    pub status: String,
    pub should_quit: bool,
}

impl<A: TaskApi> App<A> {
    pub fn new(api: A, config_path: String, view: ViewMode) -> (r: App<A>)
        ensures
            r.api == api,
            r.config_path == config_path,
            r.tasks@.len() == 0,
            r.selected is None,
            r.view == view,
            r.status@.len() == 0,
            !r.should_quit,
    {
        App {
            api,
            config_path,
            tasks: Vec::new(),
            selected: None,
            view,
            status: String::new(),
            should_quit: false,
        }
    }

    /// The name of the backend behind the screen, as the use cases give it.
    pub fn backend_name(&self) -> (r: &str)
        ensures
            call_ensures(A::backend_name, (&self.api,), r),
    {
        self.api.backend_name()
    }

    /// Takes in the answer of a list request: on success the new tasks, the
    /// selection fitted to them and their count in the status bar; on
    /// failure the error in the status bar and nothing else changed.
    pub fn apply_refresh(&mut self, result: Result<Vec<Task>, Error>)
        ensures
            loaded_s(*old(self), *final(self), result),
    {
        match result {
            Ok(tasks) => {
                self.tasks = tasks;
                self.clamp_selection();
                let mut m = String::new();
                push_decimal(&mut m, self.tasks.len() as u64);
                push_str(&mut m, "개 작업");
                self.status = m;
            },
            Err(e) => {
                let mut m = String::new();
                push_str(&mut m, "오류: ");
                push_str(&mut m, e.message().as_str());
                self.status = m;
            },
        }
    }

    /// Reloads the list: asks the use cases for all tasks (an empty filter)
    /// and takes in their answer as [`App::apply_refresh`] does.
    pub fn refresh(&mut self)
        ensures
            exists|f: Filter, res: Result<Vec<Task>, Error>|
                #![trigger call_ensures(A::list, (&old(self).api, &f), res)]
                filter_is_empty_s(f@) && call_ensures(A::list, (&old(self).api, &f), res)
                    && loaded_s(*old(self), *final(self), res),
    {
        let f = Filter::default();
        let r = self.api.list(&f);
        let ghost gr = r;
        assert(call_ensures(A::list, (&self.api, &f), gr));
        self.apply_refresh(r);
    }

    /// Fits the selection to the list.
    fn clamp_selection(&mut self)
        ensures
            final(self).selected == clamp_s(old(self).selected, old(self).tasks@.len()),
            final(self).api == old(self).api,
            final(self).tasks == old(self).tasks,
            final(self).config_path == old(self).config_path,
            final(self).view == old(self).view,
            final(self).status == old(self).status,
            final(self).should_quit == old(self).should_quit,
    {
        if self.tasks.len() == 0 {
            self.selected = None;
        } else {
            let i = match self.selected {
                Some(i) => if i < self.tasks.len() {
                    i
                } else {
                    self.tasks.len() - 1
                },
                None => 0,
            };
            self.selected = Some(i);
        }
    }

    /// The selected task, if the selection is within the list.
    pub fn selected(&self) -> (r: Option<&Task>)
        ensures
            match self.selected {
                Some(i) if i < self.tasks@.len() => r == Some(&self.tasks@[i as int]),
                _ => r is None,
            },
    {
        match self.selected {
            Some(i) => if i < self.tasks.len() {
                Some(&self.tasks[i])
            } else {
                None
            },
            None => None,
        }
    }

    /// The positions of the tasks with the given status, in list order (the
    /// entries of one board column).
    pub fn indices_in_status(&self, status: Status) -> (r: Vec<usize>)
        ensures
            r@ == positions_with_status_s(self.tasks@, status, self.tasks@.len() as int),
    {
        let mut r: Vec<usize> = Vec::new();
        let mut i: usize = 0;
        while i < self.tasks.len()
            invariant
                i <= self.tasks.len(),
                r@ == positions_with_status_s(self.tasks@, status, i as int),
            decreases self.tasks.len() - i,
        {
            if self.tasks[i].status == status {
                r.push(i);
            }
            i = i + 1;
        }
        r
    }

    /// Moves the selection down one entry (stopping at the last).
    pub fn next(&mut self)
        ensures
            final(self).selected == next_s(old(self).selected, old(self).tasks@.len()),
            final(self).api == old(self).api,
            final(self).tasks == old(self).tasks,
            final(self).config_path == old(self).config_path,
            final(self).view == old(self).view,
            final(self).status == old(self).status,
            final(self).should_quit == old(self).should_quit,
    {
        if self.tasks.len() == 0 {
            return;
        }
        let i = match self.selected {
            Some(i) => if i < self.tasks.len() - 1 {
                i + 1
            } else {
                self.tasks.len() - 1
            },
            None => 0,
        };
        self.selected = Some(i);
    }

    /// Moves the selection up one entry (stopping at the first).
    pub fn prev(&mut self)
        ensures
            final(self).selected == prev_s(old(self).selected, old(self).tasks@.len()),
            final(self).api == old(self).api,
            final(self).tasks == old(self).tasks,
            final(self).config_path == old(self).config_path,
            final(self).view == old(self).view,
            final(self).status == old(self).status,
            final(self).should_quit == old(self).should_quit,
    {
        if self.tasks.len() == 0 {
            return;
        }
        let i = match self.selected {
            Some(i) => if i > 0 {
                i - 1
            } else {
                0
            },
            None => 0,
        };
        self.selected = Some(i);
    }

    /// Selects the first entry, if any.
    pub fn first(&mut self)
        ensures
            final(self).selected == (if old(self).tasks@.len() == 0 {
                old(self).selected
            } else {
                Some(0usize)
            }),
            final(self).api == old(self).api,
            final(self).tasks == old(self).tasks,
            final(self).config_path == old(self).config_path,
            final(self).view == old(self).view,
            final(self).status == old(self).status,
            final(self).should_quit == old(self).should_quit,
    {
        if self.tasks.len() > 0 {
            self.selected = Some(0);
        }
    }

    /// Selects the last entry, if any.
    pub fn last(&mut self)
        ensures
            final(self).selected == (if old(self).tasks@.len() == 0 {
                old(self).selected
            } else {
                Some((old(self).tasks@.len() - 1) as usize)
            }),
            final(self).api == old(self).api,
            final(self).tasks == old(self).tasks,
            final(self).config_path == old(self).config_path,
            final(self).view == old(self).view,
            final(self).status == old(self).status,
            final(self).should_quit == old(self).should_quit,
    {
        if self.tasks.len() > 0 {
            self.selected = Some(self.tasks.len() - 1);
        }
    }

    /// What a key does: `q` quits, `j`/down and `k`/up move, `g`/home and
    /// `G`/end jump to the ends, `r` reloads; other keys do nothing.
    pub fn handle_key(&mut self, key: Key)
        ensures
            key == Key::Char('q') ==> *final(self) == quitting_s(*old(self)),
            (key == Key::Char('j') || key == Key::Down) ==> *final(self) == with_selection_s(
                *old(self),
                next_s(old(self).selected, old(self).tasks@.len()),
            ),
            (key == Key::Char('k') || key == Key::Up) ==> *final(self) == with_selection_s(
                *old(self),
                prev_s(old(self).selected, old(self).tasks@.len()),
            ),
            (key == Key::Char('g') || key == Key::Home) ==> *final(self) == with_selection_s(
                *old(self),
                first_s(old(self).selected, old(self).tasks@.len()),
            ),
            (key == Key::Char('G') || key == Key::End) ==> *final(self) == with_selection_s(
                *old(self),
                last_s(old(self).selected, old(self).tasks@.len()),
            ),
            key == Key::Char('r') ==> exists|f: Filter, res: Result<Vec<Task>, Error>|
                #![trigger call_ensures(A::list, (&old(self).api, &f), res)]
                filter_is_empty_s(f@) && call_ensures(A::list, (&old(self).api, &f), res)
                    && loaded_s(*old(self), *final(self), res),
            !(key == Key::Char('q') || key == Key::Char('j') || key == Key::Down || key == Key::Char('k') || key == Key::Up
                || key == Key::Char('g') || key == Key::Home || key == Key::Char('G') || key == Key::End
                || key == Key::Char('r')) ==> *final(self) == *old(self),
    {
        match key {
            Key::Char('q') => {
                self.should_quit = true;
            },
            Key::Char('j') | Key::Down => self.next(),
            Key::Char('k') | Key::Up => self.prev(),
            Key::Char('g') | Key::Home => self.first(),
            Key::Char('G') | Key::End => self.last(),
            Key::Char('r') => self.refresh(),
            _ => {},
        }
    }
}

} // verus!
