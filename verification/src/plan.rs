//! Planning the processes of a pipeline: which pipes the shell creates, in
//! which order it forks the stages, which descriptors it closes after each
//! fork, and what each child does before it runs its command.

use vstd::prelude::*;
use vstd::string::*;
use crate::cmd::is_builtin_name;
use crate::pipeline::{CmdLine, Pipeline, pipeline_of, blank_line_is_empty};
use crate::words::{words, is_blank};

verus! {

/// One end of a pipe.
#[derive(Clone, Copy, Debug, PartialEq, Eq, Structural)]
pub enum End {
    Read,
    Write,
}

/// One step of the shell itself, in the process that reads the lines.
#[derive(Clone, Copy, Debug, PartialEq, Eq, Structural)]
pub enum Step {
    /// Create the pipe `pipe`.
    MakePipe { pipe: usize },
    /// Fork the child of stage `stage` and keep its process identifier.
    Fork { stage: usize },
    /// Close this process's descriptor of one end of the pipe `pipe`.
    Close { pipe: usize, end: End },
    /// Run the only command in this process, without a fork.
    RunHere,
}

/// One step of a child between its fork and its end.
#[derive(Clone, Copy, Debug, PartialEq, Eq, Structural)]
pub enum ChildStep {
    /// Open the input file and put it on standard input.
    OpenInput,
    /// Open the output file and put it on standard output.
    OpenOutput,
    /// Duplicate one end of the pipe `pipe` onto the standard descriptor of
    /// its direction: the read end onto input, the write end onto output.
    Dup { pipe: usize, end: End },
    /// Run the command of stage `stage`.
    Run { stage: usize },
    /// End the child with `status`.
    Exit { status: i32 },
}

/// What a child does with a file that it has tried to open.
#[derive(Clone, Copy, Debug, PartialEq, Eq, Structural)]
pub enum Redirect {
    /// No file is named: nothing to do.
    Skip,
    /// The file could not be opened: report the system's error and end the
    /// child with status 1.
    Fail,
    /// Duplicate `fd` onto `slot`, then close `fd`.
    Install { fd: i32, slot: i32 },
}

/// The standard descriptor that an end of a pipe, or a file of that
/// direction, is put on.
pub open spec fn slot_of(end: End) -> i32 {
    match end {
        End::Read => 0i32,
        End::Write => 1i32,
    }
}

/// What follows an attempt to open `file` that returned `fd`.
pub open spec fn redirect_of(file: Option<Seq<char>>, fd: i32, end: End) -> Redirect {
    match file {
        None => Redirect::Skip,
        Some(path) => if fd == -1 {
            Redirect::Fail
        } else {
            Redirect::Install { fd, slot: slot_of(end) }
        },
    }
}

/// The creation of `n` pipes, in order.
pub open spec fn pipes(n: int) -> Seq<Step> {
    Seq::new(n as nat, |q: int| (Step::MakePipe { pipe: q as usize }))
}

/// The fork of stage `i` of `n`, and the closes that follow it at once: of
/// the read end that the stage reads from and of the write end that it writes
/// to.
pub open spec fn stage_steps(i: int, n: int) -> Seq<Step> {
    seq![(Step::Fork { stage: i as usize })] + (if i > 0 {
        seq![(Step::Close { pipe: (i - 1) as usize, end: End::Read })]
    } else {
        Seq::empty()
    }) + (if i < n - 1 {
        seq![(Step::Close { pipe: i as usize, end: End::Write })]
    } else {
        Seq::empty()
    })
}

/// The steps of the first `k` stages of `n`.
pub open spec fn forks(k: int, n: int) -> Seq<Step>
    decreases k,
{
    if k <= 0 {
        Seq::empty()
    } else {
        forks(k - 1, n) + stage_steps(k - 1, n)
    }
}

/// The steps of the shell for the pipeline `p`: none without a stage; a
/// builtin that stands alone runs in the shell itself; otherwise all pipes
/// are created, then the stages are forked in order.
pub open spec fn parent_plan(p: Pipeline) -> Seq<Step> {
    let n = p.stages.len() as int;
    if n == 0 {
        Seq::empty()
    } else if n == 1 && is_builtin_name(p.stages[0][0]) {
        seq![Step::RunHere]
    } else {
        pipes(n - 1) + forks(n, n)
    }
}

/// The steps of the child of stage `i` of the pipeline `p`.
pub open spec fn child_plan(p: Pipeline, i: int) -> Seq<ChildStep> {
    let n = p.stages.len() as int;
    (if i == 0 && p.input is Some {
        seq![ChildStep::OpenInput]
    } else {
        Seq::empty()
    }) + (if i == n - 1 && p.output is Some {
        seq![ChildStep::OpenOutput]
    } else {
        Seq::empty()
    }) + (if i > 0 {
        seq![(ChildStep::Dup { pipe: (i - 1) as usize, end: End::Read })]
    } else {
        Seq::empty()
    }) + (if i < n - 1 {
        seq![(ChildStep::Dup { pipe: i as usize, end: End::Write })]
    } else {
        Seq::empty()
    }) + seq![(ChildStep::Run { stage: i as usize }), (ChildStep::Exit { status: 0 })]
}

/// Where a step stands in the order of a pipeline's forks and closes: the
/// fork of a stage, then the close of what it reads from, then the close of
/// what it writes to, stage after stage.
pub open spec fn rank(s: Step) -> int {
    match s {
        Step::MakePipe { pipe } => -1,
        Step::RunHere => -1,
        Step::Fork { stage } => 3 * stage,
        Step::Close { pipe, end: End::Write } => 3 * pipe + 2,
        Step::Close { pipe, end: End::Read } => 3 * pipe + 4,
    }
}

/// Whether the ranks of `s` rise strictly.
pub open spec fn rising(s: Seq<Step>) -> bool {
    forall|a: int, b: int| 0 <= a < b < s.len() ==> rank(#[trigger] s[a]) < rank(#[trigger] s[b])
}

impl End {
    /// The standard descriptor of this direction.
    pub fn slot(&self) -> (r: i32)
        ensures
            r == slot_of(*self),
    {
        match self {
            End::Read => 0,
            End::Write => 1,
        }
    }
}

impl CmdLine {
    /// What the first stage's child does once the input file is opened:
    /// `fd` is what the attempt returned, -1 for a failure.
    pub fn dupin(&self, fd: i32) -> (r: Redirect)
        ensures
            r == redirect_of(self@.input, fd, End::Read),
    {
        match self.filein() {
            None => Redirect::Skip,
            Some(path) => if fd == -1 {
                Redirect::Fail
            } else {
                Redirect::Install { fd, slot: 0 }
            },
        }
    }

    /// What the last stage's child does once the output file is opened:
    /// `fd` is what the attempt returned, -1 for a failure.
    pub fn dupout(&self, fd: i32) -> (r: Redirect)
        ensures
            r == redirect_of(self@.output, fd, End::Write),
    {
        match self.fileout() {
            None => Redirect::Skip,
            Some(path) => if fd == -1 {
                Redirect::Fail
            } else {
                Redirect::Install { fd, slot: 1 }
            },
        }
    }

    /// The steps of the shell that realise this pipeline.
    pub fn exec(&self) -> (plan: Vec<Step>)
        ensures
            plan@ == parent_plan(self@),
    {
        let n: usize = self.len();
        let mut plan: Vec<Step> = Vec::new();
        if n == 0 {
            return plan;
        }
        if n == 1 && self.stage(0).is_builtin() {
            plan.push(Step::RunHere);
            assert(plan@ =~= seq![Step::RunHere]);
            return plan;
        }
        let mut q: usize = 0;
        assert(plan@ =~= pipes(0));
        while q < n - 1
            invariant
                n >= 1,
                0 <= q <= n - 1,
                plan@ == pipes(q as int),
            decreases n - q,
        {
            plan.push(Step::MakePipe { pipe: q });
            q = q + 1;
            assert(plan@ =~= pipes(q as int));
        }
        let mut i: usize = 0;
        assert(plan@ =~= pipes(n - 1) + forks(0, n as int));
        while i < n
            invariant
                n >= 1,
                0 <= i <= n,
                plan@ == pipes(n - 1) + forks(i as int, n as int),
            decreases n - i,
        {
            let ghost before = plan@;
            plan.push(Step::Fork { stage: i });
            if i > 0 {
                plan.push(Step::Close { pipe: i - 1, end: End::Read });
            }
            if i < n - 1 {
                plan.push(Step::Close { pipe: i, end: End::Write });
            }
            assert(plan@ =~= before + stage_steps(i as int, n as int));
            i = i + 1;
            assert(plan@ =~= pipes(n - 1) + forks(i as int, n as int));
        }
        plan
    }

    /// The steps of the child of stage `i`, from its fork to its end.
    pub fn child(&self, i: usize) -> (plan: Vec<ChildStep>)
        requires
            i < self@.stages.len(),
        ensures
            plan@ == child_plan(self@, i as int),
    {
        let n: usize = self.len();
        let mut plan: Vec<ChildStep> = Vec::new();
        if i == 0 && self.filein().is_some() {
            plan.push(ChildStep::OpenInput);
        }
        if i == n - 1 && self.fileout().is_some() {
            plan.push(ChildStep::OpenOutput);
        }
        if i > 0 {
            plan.push(ChildStep::Dup { pipe: i - 1, end: End::Read });
        }
        if i < n - 1 {
            plan.push(ChildStep::Dup { pipe: i, end: End::Write });
        }
        plan.push(ChildStep::Run { stage: i });
        plan.push(ChildStep::Exit { status: 0 });
        assert(plan@ =~= child_plan(self@, i as int));
        plan
    }
}

/// The label under which a file that could not be opened is reported.
pub fn io_label(path: &str) -> (r: String)
    ensures
        r@ == "I/O Error: "@ + path@,
{
    let mut r = String::from_str("I/O Error: ");
    r.append(path);
    r
}

/// Whether `s` is a fork or a close that a pipeline of `n` stages can hold:
/// it names one of its stages, or one of the pipes between them.
pub open spec fn fits(s: Step, n: int) -> bool {
    match s {
        Step::Fork { stage } => stage < n,
        Step::Close { pipe, end } => pipe < n - 1,
        _ => false,
    }
}

/// Whether the step at `k` of `plan` closes the end `end` of the pipe `q`,
/// no other step does, and the forks before it are those of the stages up to
/// the one that uses that end.
pub open spec fn closed_once_at(plan: Seq<Step>, k: int, q: int, end: End) -> bool {
    &&& 0 <= k < plan.len()
    &&& plan[k] == (Step::Close { pipe: q as usize, end })
    &&& forall|j: int|
        0 <= j < plan.len() && j != k ==> #[trigger] plan[j] != (Step::Close {
            pipe: q as usize,
            end,
        })
    &&& forall|j: int|
        0 <= j < plan.len() ==> match #[trigger] plan[j] {
            Step::Fork { stage } => j < k <==> stage <= user_of(q, end),
            _ => true,
        }
}

/// The stage that uses the end `end` of the pipe `q`: the stage `q` writes
/// to it, the stage `q + 1` reads from it.
pub open spec fn user_of(q: int, end: End) -> int {
    match end {
        End::Write => q,
        End::Read => q + 1,
    }
}

proof fn stage_steps_rise(i: int, n: int)
    requires
        0 <= i < n <= usize::MAX,
    ensures
        rising(stage_steps(i, n)),
        forall|a: int|
            0 <= a < stage_steps(i, n).len() ==> 3 * i <= rank(#[trigger] stage_steps(i, n)[a]) < 3
                * i + 3 && fits(stage_steps(i, n)[a], n),
{
}

proof fn forks_rise(k: int, n: int)
    requires
        0 <= k <= n <= usize::MAX,
    ensures
        rising(forks(k, n)),
        forall|a: int|
            0 <= a < forks(k, n).len() ==> 0 <= rank(#[trigger] forks(k, n)[a]) < 3 * k && fits(
                forks(k, n)[a],
                n,
            ),
    decreases k,
{
    if k > 0 {
        forks_rise(k - 1, n);
        stage_steps_rise(k - 1, n);
        let f = forks(k - 1, n);
        let s = stage_steps(k - 1, n);
        let all = forks(k, n);
        assert(all == f + s);
        assert forall|a: int| 0 <= a < all.len() implies 0 <= rank(#[trigger] all[a]) < 3 * k
            && fits(all[a], n) by {
            if a < f.len() {
                assert(all[a] == f[a]);
            } else {
                assert(all[a] == s[a - f.len()]);
            }
        }
        assert forall|a: int, b: int| 0 <= a < b < all.len() implies rank(#[trigger] all[a]) < rank(
            #[trigger] all[b],
        ) by {
            if b < f.len() {
                assert(all[a] == f[a] && all[b] == f[b]);
            } else if a < f.len() {
                assert(all[a] == f[a] && all[b] == s[b - f.len()]);
            } else {
                assert(all[a] == s[a - f.len()] && all[b] == s[b - f.len()]);
            }
        }
    }
}

proof fn forks_hold_closes(k: int, n: int, q: int, end: End)
    requires
        0 <= k <= n <= usize::MAX,
        0 <= q < n - 1,
        user_of(q, end) < k,
    ensures
        forks(k, n).contains((Step::Close { pipe: q as usize, end })),
    decreases k,
{
    let f = forks(k - 1, n);
    let s = stage_steps(k - 1, n);
    let want = Step::Close { pipe: q as usize, end };
    let user = user_of(q, end);
    if user == k - 1 {
        let m = if end == End::Read {
            1int
        } else if k - 1 > 0 {
            2int
        } else {
            1int
        };
        assert(s[m] == want);
        assert((f + s)[f.len() + m] == want);
    } else {
        forks_hold_closes(k - 1, n, q, end);
        let m = choose|m: int| 0 <= m < f.len() && f[m] == want;
        assert((f + s)[m] == want);
    }
}

/// No descriptor of a pipe outlives its use in the shell. In the plan of a
/// pipeline of two or more stages, each end of each pipe is closed by exactly
/// one step; the pipe was created before; the stage that uses the end, and
/// every stage before it, is forked before that step, and every later stage
/// after it.
pub proof fn pipe_ends_close_once(p: Pipeline, q: int, end: End)
    requires
        p.stages.len() <= usize::MAX,
        0 <= q < p.stages.len() - 1,
    ensures
        parent_plan(p)[q] == (Step::MakePipe { pipe: q as usize }),
        exists|k: int| q < k && closed_once_at(parent_plan(p), k, q, end),
{
    let n = p.stages.len() as int;
    let plan = parent_plan(p);
    let f = forks(n, n);
    let want = Step::Close { pipe: q as usize, end };
    assert(plan == pipes(n - 1) + f);
    forks_rise(n, n);
    forks_hold_closes(n, n, q, end);
    let m = choose|m: int| 0 <= m < f.len() && f[m] == want;
    let k = n - 1 + m;
    assert(plan[k] == f[m]);
    assert forall|j: int| 0 <= j < plan.len() && j != k implies #[trigger] plan[j] != want by {
        if j >= n - 1 {
            assert(plan[j] == f[j - (n - 1)]);
            if j < k {
                assert(rank(f[j - (n - 1)]) < rank(f[m]));
            } else {
                assert(rank(f[m]) < rank(f[j - (n - 1)]));
            }
        }
    }
    assert forall|j: int| 0 <= j < plan.len() implies match #[trigger] plan[j] {
        Step::Fork { stage } => j < k <==> stage <= user_of(q, end),
        _ => true,
    } by {
        if j >= n - 1 {
            assert(plan[j] == f[j - (n - 1)]);
            if j < k {
                assert(rank(f[j - (n - 1)]) < rank(f[m]));
            } else if j > k {
                assert(rank(f[m]) < rank(f[j - (n - 1)]));
            }
        }
    }
    assert(closed_once_at(plan, k, q, end));
}

/// The plan of a pipeline closes no descriptor but those of the pipes that
/// it has created.
pub proof fn closes_name_made_pipes(p: Pipeline, j: int)
    requires
        p.stages.len() <= usize::MAX,
        0 <= j < parent_plan(p).len(),
    ensures
        match parent_plan(p)[j] {
            Step::Close { pipe, end } => pipe < p.stages.len() - 1 && parent_plan(p)[pipe as int]
                == (Step::MakePipe { pipe }),
            _ => true,
        },
{
    let n = p.stages.len() as int;
    let plan = parent_plan(p);
    if n > 0 && plan != seq![Step::RunHere] {
        assert(plan == pipes(n - 1) + forks(n, n));
        forks_rise(n, n);
        if j >= n - 1 {
            assert(plan[j] == forks(n, n)[j - (n - 1)]);
        }
    }
}

/// A line of white space alone asks for nothing: its plan has no step.
pub proof fn blank_line_runs_nothing(line: Seq<char>)
    requires
        is_blank(line),
    ensures
        parent_plan(pipeline_of(words(line))).len() == 0,
{
    blank_line_is_empty(line);
}

} // verus!
