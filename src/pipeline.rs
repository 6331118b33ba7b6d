//! The toolchain orchestrator: which process to start next, and what a run
//! amounts to. Starting processes and draining their output is left to the
//! caller, which reports each stage's outcome back and performs the next action.
use vstd::prelude::*;
use crate::env::{all_set, first_unset, resolve_env};
use crate::validate::{evaluate, explains, holds, Expectation, Mismatch};

verus! {

/// One external process invocation within a pipeline.
#[derive(Clone, Copy, Debug, PartialEq, Eq, Structural)]
pub enum Stage {
    /// The single all-in-one simulator invocation.
    Simulate,
    /// Compilation and elaboration into a run executable.
    Compile,
    /// The executable that the compile stage produced.
    Run,
}

/// Which stages a pipeline consists of.
#[derive(Clone, Copy, Debug, PartialEq, Eq, Structural)]
pub enum Shape {
    Single,
    CompileThenRun,
}

/// A file under an installation root: the root is the value of the required
/// environment variable at index `var`, `relative` the path below it.
#[derive(Debug)]
pub struct EnvFile {
    pub var: usize,
    pub relative: String,
}

/// Fixed configuration of a toolchain.
///
/// The first stage runs `program` with the arguments
/// `flags, top_flag, <top>, flags_after_top, env files, leading_files, sources, trailing_files`.
/// In a compile-then-run pipeline the second stage runs `<work dir>/<artifact>`
/// without arguments. Each stage's output is logged to `<name>.out` and
/// `<name>.err` in the working directory, where the name is `program` or `artifact`.
#[derive(Debug)]
pub struct Toolchain {
    pub shape: Shape,
    pub required_env: Vec<String>,
    pub program: String,
    pub flags: Vec<String>,
    pub top_flag: String,
    pub flags_after_top: Vec<String>,
    pub env_files: Vec<EnvFile>,
    pub leading_files: Vec<String>,
    pub trailing_files: Vec<String>,
    pub artifact: String,
}

/// One process to start: its stage, executable, arguments, working directory
/// and the two log files for its output streams.
#[derive(Debug, PartialEq, Eq)]
pub struct ToolInvocation {
    pub stage: Stage,
    pub program: String,
    pub args: Vec<String>,
    pub work_dir: String,
    pub stdout_log: String,
    pub stderr_log: String,
}

/// What went wrong when the harness itself could not carry out a run.
#[derive(Debug, PartialEq, Eq)]
pub enum Infra {
    /// A required environment variable is not set.
    MissingEnv(String),
    /// The working directory could not be created.
    CreateDir,
    /// The process could not be started.
    Spawn,
    /// An output pipe of the process was not available.
    MissingPipe,
    /// Waiting for the process, or for the draining of its output, failed.
    Wait,
    /// Reading an output stream or writing its log file failed.
    Log,
    /// An outcome was reported that the run was not waiting for.
    OutOfOrder,
}

/// A stage that ran and exited with status zero.
#[derive(Debug, PartialEq, Eq)]
pub struct StageReport {
    pub stage: Stage,
    pub stdout: Vec<u8>,
    pub stderr: Vec<u8>,
}

/// How a stage ended, as its caller observed it.
#[derive(Debug, PartialEq, Eq)]
pub enum StageOutcome {
    /// The process exited; `code` is `None` when a signal ended it.
    Exited { code: Option<i32>, stdout: Vec<u8>, stderr: Vec<u8> },
    /// The harness could not run the process to its end.
    Failed(Infra),
}

/// The terminal outcome of a pipeline run.
#[derive(Debug, PartialEq, Eq)]
pub enum PipelineResult {
    InfrastructureFailure(Infra),
    ToolFailure { stage: Stage, code: Option<i32> },
    Completed(Vec<StageReport>),
}

/// What the caller is to do next.
#[derive(Debug, PartialEq, Eq)]
pub enum Action {
    /// Create the working directory if needed, run this process, and report
    /// its outcome with `stage_finished`.
    Launch(ToolInvocation),
    /// The run is over.
    Finish(PipelineResult),
}

/// Where a run stands.
#[derive(Clone, Copy, Debug, PartialEq, Eq, Structural)]
pub enum Phase {
    /// Waiting for the required environment variables.
    AwaitEnv,
    /// Waiting for the outcome of the stage at this index.
    AwaitStage(usize),
    Done,
}

/// The number of stages of a shape.
pub open spec fn stage_count(shape: Shape) -> nat {
    match shape {
        Shape::Single => 1,
        Shape::CompileThenRun => 2,
    }
}

/// The stage at index `k` of a shape.
pub open spec fn stage_at(shape: Shape, k: int) -> Stage {
    match shape {
        Shape::Single => Stage::Simulate,
        Shape::CompileThenRun => if k == 0 {
            Stage::Compile
        } else {
            Stage::Run
        },
    }
}

/// The character views of a list of strings.
pub open spec fn views(v: Seq<String>) -> Seq<Seq<char>> {
    v.map_values(|s: String| s@)
}

/// `a/b`.
pub open spec fn joined(a: Seq<char>, b: Seq<char>) -> Seq<char> {
    a + seq!['/'] + b
}

/// The paths of the installation files, given the values of the required variables.
pub open spec fn env_file_paths(files: Seq<EnvFile>, env: Seq<String>) -> Seq<Seq<char>> {
    files.map_values(|f: EnvFile| joined(env[f.var as int]@, f.relative@))
}

/// The argument vector of a toolchain's first stage.
pub open spec fn first_stage_args(
    tc: Toolchain,
    top: Seq<char>,
    sources: Seq<String>,
    env: Seq<String>,
) -> Seq<Seq<char>> {
    views(tc.flags@) + seq![tc.top_flag@, top] + views(tc.flags_after_top@) + env_file_paths(
        tc.env_files@,
        env,
    ) + views(tc.leading_files@) + views(sources) + views(tc.trailing_files@)
}

/// `<dir>/<name>.out`
pub open spec fn out_log(dir: Seq<char>, name: Seq<char>) -> Seq<char> {
    joined(dir, name) + seq!['.', 'o', 'u', 't']
}

/// `<dir>/<name>.err`
pub open spec fn err_log(dir: Seq<char>, name: Seq<char>) -> Seq<char> {
    joined(dir, name) + seq!['.', 'e', 'r', 'r']
}

/// Each installation file names one of the required variables.
pub open spec fn toolchain_wf(tc: Toolchain) -> bool {
    forall|k: int|
        0 <= k < tc.env_files@.len() ==> (#[trigger] tc.env_files@[k]).var < tc.required_env@.len()
}

/// Pairs each required variable with the value given for it; a missing value is unset.
pub open spec fn pair_values(names: Seq<String>, values: Seq<Option<String>>) -> Seq<
    (String, Option<String>),
> {
    Seq::new(
        names.len(),
        |k: int|
            (names[k], if k < values.len() {
                values[k]
            } else {
                None
            }),
    )
}

/// One run of a toolchain on a testbench, from the environment check to its result.
pub struct PipelineRun {
    toolchain: Toolchain,
    top: String,
    sources: Vec<String>,
    work_dir: String,
    env: Vec<String>,
    phase: Phase,
    reports: Vec<StageReport>,
}

impl PipelineRun {
    pub closed spec fn toolchain(&self) -> Toolchain {
        self.toolchain
    }

    pub closed spec fn top(&self) -> Seq<char> {
        self.top@
    }

    pub closed spec fn sources(&self) -> Seq<String> {
        self.sources@
    }

    pub closed spec fn work_dir(&self) -> Seq<char> {
        self.work_dir@
    }

    /// The values of the required variables, once resolved.
    pub closed spec fn env(&self) -> Seq<String> {
        self.env@
    }

    pub closed spec fn phase(&self) -> Phase {
        self.phase
    }

    /// The stages that have succeeded so far, in order.
    pub closed spec fn reports(&self) -> Seq<StageReport> {
        self.reports@
    }

    /// A stage is awaited only while every earlier stage has succeeded, and
    /// each report belongs to the stage at its index.
    pub closed spec fn wf(&self) -> bool {
        &&& toolchain_wf(self.toolchain)
        &&& forall|j: int|
            0 <= j < self.reports@.len() ==> (#[trigger] self.reports@[j]).stage == stage_at(
                self.toolchain.shape,
                j,
            )
        &&& match self.phase {
            Phase::AwaitEnv => self.reports@.len() == 0,
            Phase::AwaitStage(k) => {
                &&& k < stage_count(self.toolchain.shape)
                &&& self.reports@.len() == k
                &&& self.env@.len() == self.toolchain.required_env@.len()
            },
            Phase::Done => true,
        }
    }

    /// `inv` is the invocation of the stage at index `k`.
    pub open spec fn invocation_of(&self, k: int, inv: ToolInvocation) -> bool {
        let tc = self.toolchain();
        &&& inv.stage == stage_at(tc.shape, k)
        &&& inv.work_dir@ == self.work_dir()
        &&& if k == 0 {
            &&& inv.program@ == tc.program@
            &&& views(inv.args@) == first_stage_args(tc, self.top(), self.sources(), self.env())
            &&& inv.stdout_log@ == out_log(self.work_dir(), tc.program@)
            &&& inv.stderr_log@ == err_log(self.work_dir(), tc.program@)
        } else {
            &&& inv.program@ == joined(self.work_dir(), tc.artifact@)
            &&& inv.args@.len() == 0
            &&& inv.stdout_log@ == out_log(self.work_dir(), tc.artifact@)
            &&& inv.stderr_log@ == err_log(self.work_dir(), tc.artifact@)
        }
    }

    /// Every stage that was launched before the awaited one succeeded.
    pub proof fn lemma_awaited_after_success(&self)
        requires
            self.wf(),
            self.phase() matches Phase::AwaitStage(_),
        ensures
            self.phase() matches Phase::AwaitStage(k) && self.reports().len() == k && k
                < stage_count(self.toolchain().shape),
            forall|j: int|
                0 <= j < self.reports().len() ==> (#[trigger] self.reports()[j]).stage == stage_at(
                    self.toolchain().shape,
                    j,
                ),
    {
    }

    /// A run of `toolchain` for testbench `top` on `sources` in `work_dir`,
    /// waiting for the environment.
    pub fn new(toolchain: Toolchain, top: String, sources: Vec<String>, work_dir: String) -> (r:
        PipelineRun)
        requires
            toolchain_wf(toolchain),
        ensures
            r.wf(),
            r.phase() == Phase::AwaitEnv,
            r.toolchain() == toolchain,
            r.top() == top@,
            r.sources() == sources@,
            r.work_dir() == work_dir@,
            r.reports().len() == 0,
    {
        PipelineRun {
            toolchain,
            top,
            sources,
            work_dir,
            env: Vec::new(),
            phase: Phase::AwaitEnv,
            reports: Vec::new(),
        }
    }

    /// The names of the environment variables the run needs, in order.
    pub fn required_env(&self) -> (r: &Vec<String>)
        ensures
            r@ == self.toolchain().required_env@,
    {
        &self.toolchain.required_env
    }

    /// The invocation of the first stage.
    fn first_invocation(&self) -> (inv: ToolInvocation)
        requires
            self.wf(),
            self.env().len() == self.toolchain().required_env@.len(),
        ensures
            self.invocation_of(0, inv),
    {
        let tc = &self.toolchain;
        let mut args: Vec<String> = Vec::new();
        extend_cloned(&mut args, &tc.flags);
        args.push(tc.top_flag.clone());
        args.push(self.top.clone());
        extend_cloned(&mut args, &tc.flags_after_top);
        let ghost a0 = args@;
        proof {
            let pair = seq![tc.top_flag, self.top];
            assert(a0 == tc.flags@ + pair + tc.flags_after_top@);
            lemma_views_concat(tc.flags@ + pair, tc.flags_after_top@);
            lemma_views_concat(tc.flags@, pair);
            assert(views(pair) =~= seq![tc.top_flag@, self.top@]);
        }
        let mut i: usize = 0;
        while i < tc.env_files.len()
            invariant
                tc == &self.toolchain,
                toolchain_wf(self.toolchain),
                self.env@.len() == tc.required_env@.len(),
                i <= tc.env_files@.len(),
                args@.len() == a0.len() + i,
                args@.take(a0.len() as int) == a0,
                forall|k: int|
                    0 <= k < i ==> (#[trigger] args@[a0.len() + k])@ == joined(
                        self.env@[tc.env_files@[k].var as int]@,
                        tc.env_files@[k].relative@,
                    ),
            decreases tc.env_files@.len() - i,
        {
            let f = &tc.env_files[i];
            assert(f.var < tc.required_env@.len());
            let path = join_path(&self.env[f.var], &f.relative);
            let ghost before = args@;
            args.push(path);
            assert(args@.take(a0.len() as int) =~= before.take(a0.len() as int));
            i = i + 1;
        }
        proof {
            let paths = env_file_paths(tc.env_files@, self.env@);
            assert(views(args@) =~= views(a0) + paths) by {
                assert forall|k: int| a0.len() <= k < args@.len() implies views(args@)[k]
                    == paths[k - a0.len()] by {
                    let j = k - a0.len();
                    assert(args@[a0.len() + j] == args@[k]);
                }
                assert forall|k: int| 0 <= k < a0.len() implies views(args@)[k] == views(a0)[k] by {
                    assert(args@.take(a0.len() as int)[k] == args@[k]);
                }
            }
        }
        let ghost a1 = args@;
        extend_cloned(&mut args, &tc.leading_files);
        extend_cloned(&mut args, &self.sources);
        extend_cloned(&mut args, &tc.trailing_files);
        proof {
            lemma_views_concat(a1 + tc.leading_files@ + self.sources@, tc.trailing_files@);
            lemma_views_concat(a1 + tc.leading_files@, self.sources@);
            lemma_views_concat(a1, tc.leading_files@);
        }
        proof {
            reveal_strlit(".out");
            reveal_strlit(".err");
        }
        let stage = match tc.shape {
            Shape::Single => Stage::Simulate,
            Shape::CompileThenRun => Stage::Compile,
        };
        let inv = ToolInvocation {
            stage,
            program: tc.program.clone(),
            args,
            work_dir: self.work_dir.clone(),
            stdout_log: join_path(&self.work_dir, &tc.program).concat(".out"),
            stderr_log: join_path(&self.work_dir, &tc.program).concat(".err"),
        };
        assert(self.toolchain() == *tc);
        assert(inv.stage == stage_at(tc.shape, 0));
        assert(views(inv.args@) == first_stage_args(*tc, self.top(), self.sources(), self.env()));
        assert(inv.stdout_log@ == out_log(self.work_dir(), tc.program@));
        assert(inv.stderr_log@ == err_log(self.work_dir(), tc.program@));
        inv
    }

    /// The invocation of the run stage: the compiled artifact, without arguments.
    fn run_invocation(&self) -> (inv: ToolInvocation)
        requires
            self.toolchain().shape == Shape::CompileThenRun,
        ensures
            self.invocation_of(1, inv),
    {
        proof {
            reveal_strlit(".out");
            reveal_strlit(".err");
        }
        let tc = &self.toolchain;
        let inv = ToolInvocation {
            stage: Stage::Run,
            program: join_path(&self.work_dir, &tc.artifact),
            args: Vec::new(),
            work_dir: self.work_dir.clone(),
            stdout_log: join_path(&self.work_dir, &tc.artifact).concat(".out"),
            stderr_log: join_path(&self.work_dir, &tc.artifact).concat(".err"),
        };
        assert(inv.stage == stage_at(tc.shape, 1));
        assert(inv.work_dir@ == self.work_dir());
        assert(inv.program@ == joined(self.work_dir(), tc.artifact@));
        assert(inv.stdout_log@ == out_log(self.work_dir(), tc.artifact@));
        assert(inv.stderr_log@ == err_log(self.work_dir(), tc.artifact@));
        assert(inv.args@.len() == 0);
        assert(self.toolchain().artifact == tc.artifact);
        inv
    }

    /// The configuration of `self` and `other` is the same.
    pub open spec fn same_config(&self, other: &PipelineRun) -> bool {
        &&& self.toolchain() == other.toolchain()
        &&& self.top() == other.top()
        &&& self.sources() == other.sources()
        &&& self.work_dir() == other.work_dir()
    }

    /// Takes the values found for the required variables, in the order of
    /// `required_env` (a value left out counts as unset). All set: the run
    /// launches its first stage. Otherwise it ends with an infrastructure
    /// failure naming the first unset variable, and nothing is launched.
    pub fn start(&mut self, values: &Vec<Option<String>>) -> (r: Action)
        requires
            old(self).wf(),
        ensures
            final(self).wf(),
            final(self).same_config(old(self)),
            old(self).phase() != Phase::AwaitEnv ==> r == Action::Finish(
                PipelineResult::InfrastructureFailure(Infra::OutOfOrder),
            ) && *final(self) == *old(self),
            old(self).phase() == Phase::AwaitEnv && all_set(
                pair_values(old(self).toolchain().required_env@, values@),
            ) ==> {
                &&& final(self).phase() == Phase::AwaitStage(0)
                &&& final(self).reports().len() == 0
                &&& forall|k: int|
                    0 <= k < final(self).env().len() ==> values@[k] == Some(
                        #[trigger] final(self).env()[k],
                    )
                &&& r matches Action::Launch(inv) && final(self).invocation_of(0, inv)
            },
            old(self).phase() == Phase::AwaitEnv && !all_set(
                pair_values(old(self).toolchain().required_env@, values@),
            ) ==> {
                &&& final(self).phase() == Phase::Done
                &&& r matches Action::Finish(
                    PipelineResult::InfrastructureFailure(Infra::MissingEnv(name)),
                ) && exists|k: int|
                    first_unset(pair_values(old(self).toolchain().required_env@, values@), k)
                        && name == old(self).toolchain().required_env@[k]
            },
    {
        if self.phase != Phase::AwaitEnv {
            return Action::Finish(PipelineResult::InfrastructureFailure(Infra::OutOfOrder));
        }
        let ghost lookups = pair_values(self.toolchain.required_env@, values@);
        let mut pairs: Vec<(String, Option<String>)> = Vec::new();
        let mut i: usize = 0;
        while i < self.toolchain.required_env.len()
            invariant
                lookups == pair_values(self.toolchain.required_env@, values@),
                i <= lookups.len(),
                pairs@ == lookups.take(i as int),
            decreases lookups.len() - i,
        {
            let value = if i < values.len() {
                match &values[i] {
                    Some(v) => Some(v.clone()),
                    None => None,
                }
            } else {
                None
            };
            pairs.push((self.toolchain.required_env[i].clone(), value));
            assert(lookups.take(i + 1) =~= lookups.take(i as int).push(lookups[i as int]));
            i = i + 1;
        }
        assert(pairs@ =~= lookups);
        match resolve_env(&pairs) {
            Ok(vals) => {
                self.env = vals;
                self.phase = Phase::AwaitStage(0);
                Action::Launch(self.first_invocation())
            },
            Err(name) => {
                self.phase = Phase::Done;
                Action::Finish(PipelineResult::InfrastructureFailure(Infra::MissingEnv(name)))
            },
        }
    }

    /// What reporting `outcome` to run `before` does: `after` is the run
    /// afterwards and `r` the action handed back.
    pub open spec fn finish_step(
        before: PipelineRun,
        outcome: StageOutcome,
        after: PipelineRun,
        r: Action,
    ) -> bool {
        &&& after.wf()
        &&& after.same_config(&before)
        &&& !(before.phase() is AwaitStage) ==> r == Action::Finish(
            PipelineResult::InfrastructureFailure(Infra::OutOfOrder),
        ) && after == before
        &&& before.phase() matches Phase::AwaitStage(k) ==> {
            let stage = stage_at(before.toolchain().shape, k as int);
            match outcome {
                StageOutcome::Failed(i) => {
                    &&& r == Action::Finish(PipelineResult::InfrastructureFailure(i))
                    &&& after.phase() == Phase::Done
                },
                StageOutcome::Exited { code, stdout, stderr } => if code != Some(0i32) {
                    &&& r == Action::Finish(PipelineResult::ToolFailure { stage, code })
                    &&& after.phase() == Phase::Done
                } else {
                    let done = before.reports().push(StageReport { stage, stdout, stderr });
                    if k + 1 < stage_count(before.toolchain().shape) {
                        &&& after.phase() == Phase::AwaitStage((k + 1) as usize)
                        &&& after.reports() == done
                        &&& r matches Action::Launch(inv) && after.invocation_of(k + 1, inv)
                    } else {
                        &&& after.phase() == Phase::Done
                        &&& r matches Action::Finish(PipelineResult::Completed(rs)) && rs@ == done
                    }
                },
            }
        }
    }

    /// Once a stage exits with a status other than zero, the run is over: it
    /// ends with a tool failure for that stage, and no outcome reported after
    /// that launches another stage or changes the run.
    pub proof fn lemma_failed_stage_ends_run(
        s0: PipelineRun,
        code: Option<i32>,
        out: Vec<u8>,
        err: Vec<u8>,
        s1: PipelineRun,
        r1: Action,
        next: StageOutcome,
        s2: PipelineRun,
        r2: Action,
    )
        requires
            s0.wf(),
            s0.phase() is AwaitStage,
            code != Some(0i32),
            PipelineRun::finish_step(
                s0,
                StageOutcome::Exited { code, stdout: out, stderr: err },
                s1,
                r1,
            ),
            PipelineRun::finish_step(s1, next, s2, r2),
        ensures
            s0.phase() matches Phase::AwaitStage(k) && r1 == Action::Finish(
                PipelineResult::ToolFailure { stage: stage_at(s0.toolchain().shape, k as int), code },
            ),
            s1.phase() == Phase::Done,
            !(r2 is Launch),
            s2 == s1,
    {
    }

    /// Takes the outcome of the awaited stage. A stage that could not be run
    /// ends the run with an infrastructure failure, one that exited with a
    /// status other than zero ends it with a tool failure for that stage; in
    /// both cases no later stage is launched. A successful stage is recorded,
    /// and the next stage is launched, or the run completes with every
    /// stage's report. An outcome that no stage is awaiting changes nothing.
    pub fn stage_finished(&mut self, outcome: StageOutcome) -> (r: Action)
        requires
            old(self).wf(),
        ensures
            PipelineRun::finish_step(*old(self), outcome, *final(self), r),
    {
        let k = match self.phase {
            Phase::AwaitStage(k) => k,
            _ => {
                return Action::Finish(PipelineResult::InfrastructureFailure(Infra::OutOfOrder));
            },
        };
        let stage = match self.toolchain.shape {
            Shape::Single => Stage::Simulate,
            Shape::CompileThenRun => if k == 0 {
                Stage::Compile
            } else {
                Stage::Run
            },
        };
        match outcome {
            StageOutcome::Failed(i) => {
                self.phase = Phase::Done;
                Action::Finish(PipelineResult::InfrastructureFailure(i))
            },
            StageOutcome::Exited { code, stdout, stderr } => {
                let ok = match code {
                    Some(c) => c == 0,
                    None => false,
                };
                if !ok {
                    self.phase = Phase::Done;
                    return Action::Finish(PipelineResult::ToolFailure { stage, code });
                }
                self.reports.push(StageReport { stage, stdout, stderr });
                let more = match self.toolchain.shape {
                    Shape::Single => false,
                    Shape::CompileThenRun => k == 0,
                };
                if more {
                    self.phase = Phase::AwaitStage(k + 1);
                    Action::Launch(self.run_invocation())
                } else {
                    self.phase = Phase::Done;
                    let mut rs: Vec<StageReport> = Vec::new();
                    std::mem::swap(&mut rs, &mut self.reports);
                    Action::Finish(PipelineResult::Completed(rs))
                }
            },
        }
    }

    /// Where the run stands.
    pub fn current_phase(&self) -> (r: Phase)
        ensures
            r == self.phase(),
    {
        self.phase
    }
}

/// Appends a copy of each string of `src` to `out`.
fn extend_cloned(out: &mut Vec<String>, src: &Vec<String>)
    ensures
        final(out)@ == old(out)@ + src@,
{
    let mut i: usize = 0;
    while i < src.len()
        invariant
            i <= src@.len(),
            out@ == old(out)@ + src@.take(i as int),
        decreases src@.len() - i,
    {
        out.push(src[i].clone());
        assert(src@.take(i + 1) =~= src@.take(i as int).push(src@[i as int]));
        i = i + 1;
    }
    assert(src@.take(i as int) =~= src@);
}

/// `a/b` as a new string.
fn join_path(a: &String, b: &String) -> (r: String)
    ensures
        r@ == joined(a@, b@),
{
    proof {
        reveal_strlit("/");
    }
    a.clone().concat("/").concat(b.as_str())
}

proof fn lemma_views_concat(a: Seq<String>, b: Seq<String>)
    ensures
        views(a + b) == views(a) + views(b),
{
    assert(views(a + b) =~= views(a) + views(b));
}

/// The standard output of the stages, one after another.
pub open spec fn combined(rs: Seq<StageReport>) -> Seq<u8>
    decreases rs.len(),
{
    if rs.len() == 0 {
        Seq::empty()
    } else {
        combined(rs.drop_last()) + rs.last().stdout@
    }
}

/// The standard output of all stages, in stage order.
pub fn combined_output(reports: &Vec<StageReport>) -> (r: Vec<u8>)
    ensures
        r@ == combined(reports@),
{
    let mut r: Vec<u8> = Vec::new();
    let mut i: usize = 0;
    while i < reports.len()
        invariant
            i <= reports@.len(),
            r@ == combined(reports@.take(i as int)),
        decreases reports@.len() - i,
    {
        let out = &reports[i].stdout;
        let ghost before = r@;
        let mut j: usize = 0;
        while j < out.len()
            invariant
                j <= out@.len(),
                r@ == before + out@.take(j as int),
            decreases out@.len() - j,
        {
            r.push(out[j]);
            assert(out@.take(j + 1) =~= out@.take(j as int).push(out@[j as int]));
            j = j + 1;
        }
        assert(out@.take(j as int) =~= out@);
        assert(reports@.take(i + 1).drop_last() =~= reports@.take(i as int));
        i = i + 1;
    }
    assert(reports@.take(i as int) =~= reports@);
    r
}

/// Why a run did not pass its content check.
#[derive(Debug, PartialEq, Eq)]
pub enum RunCheck {
    /// The run did not complete, so its output was not examined.
    NotCompleted,
    /// The run completed, and its output did not meet the expectation.
    Content(Mismatch),
}

/// Checks a run's combined standard output against `e`. Only a completed run
/// is examined.
pub fn check_run(e: &Expectation, result: &PipelineResult) -> (r: Result<(), RunCheck>)
    requires
        result matches PipelineResult::Completed(rs) ==> combined(rs@).len() < usize::MAX,
    ensures
        !(result is Completed) ==> r == Err::<(), RunCheck>(RunCheck::NotCompleted),
        result matches PipelineResult::Completed(rs) ==> {
            &&& (r is Ok <==> holds(*e, combined(rs@)))
            &&& r matches Err(f) ==> f matches RunCheck::Content(m) && explains(
                *e,
                combined(rs@),
                m,
            )
        },
{
    match result {
        PipelineResult::Completed(rs) => {
            let text = combined_output(rs);
            match evaluate(e, text.as_slice()) {
                Ok(()) => Ok(()),
                Err(m) => Err(RunCheck::Content(m)),
            }
        },
        _ => Err(RunCheck::NotCompleted),
    }
}

} // verus!
