//! What the command-line backends share: building argument lists, and the
//! errors reported when a command cannot start or fails.

use vstd::prelude::*;

use crate::error::{Error, ErrorView};
use crate::text::{chars_of, join, join_s, push_chars, push_str, string_views, trim, trim_s};

verus! {

/// Appends one argument.
pub fn push_arg(args: &mut Vec<String>, a: &str)
    ensures
        string_views(final(args)@) == string_views(old(args)@).push(a@),
{
    let ghost before = string_views(args@);
    args.push(String::from_str(a));
    assert(string_views(args@) == before.push(a@));
}

/// Appends one owned argument.
pub fn push_arg_string(args: &mut Vec<String>, a: String)
    ensures
        string_views(final(args)@) == string_views(old(args)@).push(a@),
{
    let ghost before = string_views(args@);
    let ghost v = a@;
    args.push(a);
    assert(string_views(args@) == before.push(v));
}

/// The argument list passes option `flag` with value `v`: `flag` appears
/// with `v` right after it.
pub open spec fn has_option(args: Seq<Seq<char>>, flag: Seq<char>, v: Seq<char>) -> bool {
    exists|i: int| 0 <= i && i + 1 < args.len() && #[trigger] args[i] == flag && args[i + 1] == v
}

/// An option stays passed when arguments are added after it.
pub proof fn lemma_option_before(a: Seq<Seq<char>>, b: Seq<Seq<char>>, flag: Seq<char>, v: Seq<char>)
    requires
        has_option(a, flag, v),
    ensures
        has_option(a + b, flag, v),
{
    let i = choose|i: int| 0 <= i && i + 1 < a.len() && #[trigger] a[i] == flag && a[i + 1] == v;
    assert((a + b)[i] == flag && (a + b)[i + 1] == v);
}

/// An option stays passed when arguments are added before it.
pub proof fn lemma_option_after(a: Seq<Seq<char>>, b: Seq<Seq<char>>, flag: Seq<char>, v: Seq<char>)
    requires
        has_option(b, flag, v),
    ensures
        has_option(a + b, flag, v),
{
    let i = choose|i: int| 0 <= i && i + 1 < b.len() && #[trigger] b[i] == flag && b[i + 1] == v;
    assert((a + b)[a.len() + i] == flag && (a + b)[a.len() + i + 1] == v);
}

/// An option and its value, as two arguments, pass that option.
pub proof fn lemma_option_pair(flag: Seq<char>, v: Seq<char>)
    ensures
        has_option(seq![flag, v], flag, v),
{
    assert(seq![flag, v][0] == flag && seq![flag, v][1] == v);
}

/// An option stays passed wherever its arguments stand in a longer list.
pub proof fn lemma_option_within(pre: Seq<Seq<char>>, x: Seq<Seq<char>>, post: Seq<Seq<char>>, flag: Seq<char>, v: Seq<char>)
    requires
        has_option(x, flag, v),
    ensures
        has_option(pre + x + post, flag, v),
{
    lemma_option_after(pre, x, flag, v);
    lemma_option_before(pre + x, post, flag, v);
}

/// The message of a command that could not be started.
pub open spec fn launch_failure_s(program: Seq<char>, reason: Seq<char>) -> ErrorView {
    ErrorView::Backend(program + " 실행 실패(설치/경로 확인): "@ + reason)
}

/// The error for a command that could not be started, with the reason.
pub fn launch_failure(program: &str, reason: &str) -> (e: Error)
    ensures
        e@ == launch_failure_s(program@, reason@),
{
    let mut m = String::new();
    push_str(&mut m, program);
    push_str(&mut m, " 실행 실패(설치/경로 확인): ");
    push_str(&mut m, reason);
    Error::Backend(m)
}

/// The message of a command that exited unsuccessfully: the command line and
/// its trimmed error output.
pub open spec fn command_failure_s(program: Seq<char>, args: Seq<Seq<char>>, stderr: Seq<char>) -> ErrorView {
    ErrorView::Backend(
        "`"@ + program + " "@ + join_s(args, " "@) + "` 실패: "@ + trim_s(stderr),
    )
}

/// The error for a command that exited unsuccessfully.
pub fn command_failure(program: &str, args: &Vec<String>, stderr: &str) -> (e: Error)
    ensures
        e@ == command_failure_s(program@, string_views(args@), stderr@),
{
    let mut m = String::new();
    push_str(&mut m, "`");
    push_str(&mut m, program);
    push_str(&mut m, " ");
    let line = join(args, " ");
    push_str(&mut m, line.as_str());
    push_str(&mut m, "` 실패: ");
    let t = trim(&chars_of(stderr));
    push_chars(&mut m, &t);
    Error::Backend(m)
}


/// What to do next while running a list of commands in order.
#[derive(Debug, Clone, Copy, PartialEq, Eq)]
pub enum PlanStep {
    /// Run the command at this position.
    Run(usize),
    /// Stop: the command at this position failed, and its error is the result.
    Fail(usize),
    /// Every command succeeded.
    Finish,
}

/// `s` is the right next step for `n` commands whose first ones ended with
/// `outcomes`: stop at the first failure; else run the next one; else finish.
pub open spec fn is_plan_step<T>(n: nat, outcomes: Seq<Result<T, Error>>, s: PlanStep) -> bool {
    match s {
        PlanStep::Fail(k) => k < outcomes.len() && outcomes[k as int] is Err
            && forall|j: int| 0 <= j < k ==> outcomes[j] is Ok,
        PlanStep::Run(i) => i == outcomes.len() && i < n
            && forall|j: int| 0 <= j < outcomes.len() ==> outcomes[j] is Ok,
        PlanStep::Finish => outcomes.len() >= n
            && forall|j: int| 0 <= j < outcomes.len() ==> outcomes[j] is Ok,
    }
}

/// The next step of running `n` commands in order, given the outcomes of the
/// commands run so far (the first ones, in order): the first failure stops
/// the run with its error; otherwise the next command runs, until all have.
pub fn plan_step<T>(n: usize, outcomes: &Vec<Result<T, Error>>) -> (s: PlanStep)
    ensures
        is_plan_step(n as nat, outcomes@, s),
{
    let mut k: usize = 0;
    while k < outcomes.len()
        invariant
            k <= outcomes@.len(),
            forall|j: int| 0 <= j < k ==> outcomes@[j] is Ok,
        decreases outcomes.len() - k,
    {
        if outcomes[k].is_err() {
            return PlanStep::Fail(k);
        }
        k = k + 1;
    }
    if outcomes.len() < n {
        PlanStep::Run(outcomes.len())
    } else {
        PlanStep::Finish
    }
}

/// Once a command has failed, no further command runs: the next step is to
/// stop with the first failure.
pub proof fn lemma_no_command_after_failure<T>(n: nat, outcomes: Seq<Result<T, Error>>, s: PlanStep, k: int)
    requires
        0 <= k < outcomes.len(),
        outcomes[k] is Err,
        is_plan_step(n as nat, outcomes, s),
    ensures
        s matches PlanStep::Fail(f) && f <= k,
{
}

} // verus!
