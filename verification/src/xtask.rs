//! The developer commands of the workspace: which `cargo` invocations
//! each runs, and how the `ci` command steps through them. Running a
//! command is left to the caller, which reports back whether it succeeded.

use vstd::prelude::*;
use crate::text::push_str;

verus! {

/// A developer command.
#[derive(Debug, Clone, Copy, PartialEq, Eq, Structural)]
pub enum Task {
    Ci { skip_doc: bool },
    Fmt,
    Lint,
    Test,
    Doc,
    Release,
    Lock,
}

pub open spec fn fmt_args() -> Seq<Seq<char>> {
    seq!["fmt"@, "--all"@, "--"@, "--check"@]
}

pub open spec fn check_args() -> Seq<Seq<char>> {
    seq!["check"@, "--workspace"@, "--all-targets"@]
}

pub open spec fn lint_args() -> Seq<Seq<char>> {
    seq!["clippy"@, "--workspace"@, "--all-targets"@, "--"@, "-D"@, "warnings"@]
}

pub open spec fn test_args() -> Seq<Seq<char>> {
    seq!["test"@, "--workspace"@]
}

pub open spec fn doc_args() -> Seq<Seq<char>> {
    seq!["doc"@, "--workspace"@, "--no-deps"@]
}

pub open spec fn release_args() -> Seq<Seq<char>> {
    seq!["build"@, "--release"@, "-p"@, "runnerguard-cli"@]
}

pub open spec fn lock_args() -> Seq<Seq<char>> {
    seq!["check"@, "--workspace"@, "--locked"@]
}

/// The `cargo` invocations of a command, in the order they run: `ci`
/// checks formatting, then builds, lints and tests, and builds the
/// documentation unless told to skip it.
pub open spec fn spec_plan(task: Task) -> Seq<Seq<Seq<char>>> {
    match task {
        Task::Ci { skip_doc } => if skip_doc {
            seq![fmt_args(), check_args(), lint_args(), test_args()]
        } else {
            seq![fmt_args(), check_args(), lint_args(), test_args(), doc_args()]
        },
        Task::Fmt => seq![fmt_args()],
        Task::Lint => seq![lint_args()],
        Task::Test => seq![test_args()],
        Task::Doc => seq![doc_args()],
        Task::Release => seq![release_args()],
        Task::Lock => seq![lock_args()],
    }
}

pub open spec fn args_view(a: Seq<String>) -> Seq<Seq<char>> {
    a.map_values(|s: String| s@)
}

pub open spec fn plan_view(p: Seq<Vec<String>>) -> Seq<Seq<Seq<char>>> {
    p.map_values(|a: Vec<String>| args_view(a@))
}

fn args(words: &[&str]) -> (r: Vec<String>)
    ensures
        r@.len() == words@.len(),
        forall|i: int| 0 <= i < words@.len() ==> (#[trigger] r@[i])@ == words@[i]@,
{
    let mut out: Vec<String> = Vec::new();
    let mut i: usize = 0;
    while i < words.len()
        invariant
            i <= words@.len(),
            out@.len() == i,
            forall|k: int| 0 <= k < i ==> (#[trigger] out@[k])@ == words@[k]@,
        decreases words.len() - i,
    {
        let mut s = String::new();
        push_str(&mut s, words[i]);
        out.push(s);
        i = i + 1;
    }
    out
}

fn fmt() -> (r: Vec<String>)
    ensures
        args_view(r@) == fmt_args(),
{
    let r = args(&["fmt", "--all", "--", "--check"]);
    assert(args_view(r@) =~= fmt_args());
    r
}

fn check() -> (r: Vec<String>)
    ensures
        args_view(r@) == check_args(),
{
    let r = args(&["check", "--workspace", "--all-targets"]);
    assert(args_view(r@) =~= check_args());
    r
}

fn lint() -> (r: Vec<String>)
    ensures
        args_view(r@) == lint_args(),
{
    let r = args(&["clippy", "--workspace", "--all-targets", "--", "-D", "warnings"]);
    assert(args_view(r@) =~= lint_args());
    r
}

fn test() -> (r: Vec<String>)
    ensures
        args_view(r@) == test_args(),
{
    let r = args(&["test", "--workspace"]);
    assert(args_view(r@) =~= test_args());
    r
}

fn doc() -> (r: Vec<String>)
    ensures
        args_view(r@) == doc_args(),
{
    let r = args(&["doc", "--workspace", "--no-deps"]);
    assert(args_view(r@) =~= doc_args());
    r
}

/// The `cargo` invocations of a command, in the order they run.
pub fn plan(task: Task) -> (r: Vec<Vec<String>>)
    ensures
        plan_view(r@) == spec_plan(task),
{
    let r = match task {
        Task::Ci { skip_doc } => {
            let mut p = vec![fmt(), check(), lint(), test()];
            if !skip_doc {
                p.push(doc());
            }
            p
        },
        Task::Fmt => vec![fmt()],
        Task::Lint => vec![lint()],
        Task::Test => vec![test()],
        Task::Doc => vec![doc()],
        Task::Release => {
            let a = args(&["build", "--release", "-p", "runnerguard-cli"]);
            assert(args_view(a@) =~= release_args());
            vec![a]
        },
        Task::Lock => {
            let a = args(&["check", "--workspace", "--locked"]);
            assert(args_view(a@) =~= lock_args());
            vec![a]
        },
    };
    assert(plan_view(r@) =~= spec_plan(task));
    r
}

/// What to do next while running a plan.
#[derive(Debug, Clone, Copy, PartialEq, Eq, Structural)]
pub enum Step {
    /// Run the invocation with this index.
    Run(usize),
    /// Every invocation succeeded.
    Done,
    /// The invocation with this index failed; the rest do not run.
    Failed(usize),
}

/// After `ran` invocations of a plan of `len` have run, the last of them
/// succeeding or not, the next step: the first failure stops the plan.
pub fn next_step(len: usize, ran: usize, last_ok: bool) -> (r: Step)
    requires
        ran <= len,
    ensures
        ran > 0 && !last_ok ==> r == Step::Failed((ran - 1) as usize),
        (ran == 0 || last_ok) && ran < len ==> r == Step::Run(ran),
        (ran == 0 || last_ok) && ran == len ==> r == Step::Done,
{
    if ran > 0 && !last_ok {
        Step::Failed(ran - 1)
    } else if ran < len {
        Step::Run(ran)
    } else {
        Step::Done
    }
}

} // verus!
