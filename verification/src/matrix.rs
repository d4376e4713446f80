//! The benchmark matrix orchestrator.
//!
//! The matrix is data: an ordered list of knob-state sets, each with the
//! label its result files carry. The orchestrator turns the list into a
//! flat script of steps — the minimal toggles that reach the next state,
//! then one clean and one incremental measurement — and `MatrixRun`
//! hands the script out one step at a time, stopping for good at the
//! first failure. Performing a step (file rewrite or process run) is the
//! caller's business; every decision about what comes next is made here.

use vstd::prelude::*;

use crate::bench::{BenchSpecV, CargoCommandOptions};
use crate::knobs::{Knob, TargetFile};
use crate::RunError;

verus! {

/// One state of the matrix: which knobs are on.
#[derive(Clone, Copy, Debug, PartialEq, Eq, Structural)]
pub struct KnobSet {
    pub o3: bool,
    pub cranelift: bool,
    pub mold: bool,
    pub parallel: bool,
}

/// The state every run starts from.
pub open spec fn all_off() -> KnobSet {
    KnobSet { o3: false, cranelift: false, mold: false, parallel: false }
}

/// The knob's position in a state.
pub open spec fn knob_on(s: KnobSet, k: Knob) -> bool {
    match k {
        Knob::O3 => s.o3,
        Knob::Cranelift => s.cranelift,
        Knob::Mold => s.mold,
        Knob::Parallel => s.parallel,
    }
}

/// One matrix cell: the knob states to establish and the suffix its
/// result files carry.
pub struct PlanEntry {
    pub state: KnobSet,
    pub label: &'static str,
}

/// The ghost image of a matrix cell.
pub struct PlanEntryV {
    pub state: KnobSet,
    pub label: Seq<char>,
}

impl View for PlanEntry {
    type V = PlanEntryV;

    open spec fn view(&self) -> PlanEntryV {
        PlanEntryV { state: self.state, label: self.label@ }
    }
}

impl DeepView for PlanEntry {
    type V = PlanEntryV;

    open spec fn deep_view(&self) -> PlanEntryV {
        self.view()
    }
}

/// The reference path through the knob-state lattice, with each state's
/// label. Consecutive states differ in few knobs, so the walk toggles
/// little; the path visits no state twice.
pub open spec fn plan_spec() -> Seq<PlanEntryV> {
    seq![
        pe(false, false, false, false, ""@),
        pe(false, false, true, false, "_mold"@),
        pe(true, false, true, false, "_mold_o3"@),
        pe(true, true, true, false, "_mold_o3_cranelift"@),
        pe(true, true, false, false, "_o3_cranelift"@),
        pe(false, true, true, false, "_mold_cranelift"@),
        pe(false, true, false, false, "_cranelift"@),
        pe(true, false, false, false, "_o3"@),
        pe(false, false, false, true, "_parallel"@),
        pe(true, false, false, true, "_parallel_o3"@),
        pe(true, true, false, true, "_parallel_o3_cranelift"@),
        pe(true, true, true, true, "_parallel_o3_cranelift_mold"@),
        pe(false, true, true, true, "_parallel_cranelift_mold"@),
        pe(false, true, false, true, "_parallel_cranelift"@),
        pe(false, false, true, true, "_parallel_mold"@),
    ]
}

/// Shorthand for one cell of the reference path.
pub open spec fn pe(o3: bool, cranelift: bool, mold: bool, parallel: bool, label: Seq<char>) -> PlanEntryV {
    PlanEntryV { state: KnobSet { o3, cranelift, mold, parallel }, label }
}

/// The sequence of states the matrix visits.
pub open spec fn matrix_states() -> Seq<KnobSet> {
    plan_spec().map_values(|e: PlanEntryV| e.state)
}

/// A state read as a binary number, one bit per knob.
pub open spec fn encode(s: KnobSet) -> int {
    (if s.mold { 8int } else { 0int }) + (if s.o3 { 4int } else { 0int }) + (if s.cranelift {
        2int
    } else {
        0int
    }) + (if s.parallel { 1int } else { 0int })
}

/// Matrix completeness: the reference path visits fifteen states and no
/// state twice.
pub proof fn lemma_matrix_complete()
    ensures
        matrix_states().len() == 15,
        forall|i: int, j: int|
            0 <= i < j < matrix_states().len() ==> matrix_states()[i] != matrix_states()[j],
{
    assert forall|i: int, j: int|
        0 <= i < j < matrix_states().len() implies matrix_states()[i] != matrix_states()[j] by {
        assert(encode(matrix_states()[i]) != encode(matrix_states()[j]));
    }
}

/// The executable reference path; its cells are exactly `plan_spec`.
pub fn build_plan() -> (r: Vec<PlanEntry>)
    ensures
        r.deep_view() == plan_spec(),
{
    let mut v: Vec<PlanEntry> = Vec::new();
    v.push(mk(false, false, false, false, ""));
    v.push(mk(false, false, true, false, "_mold"));
    v.push(mk(true, false, true, false, "_mold_o3"));
    v.push(mk(true, true, true, false, "_mold_o3_cranelift"));
    v.push(mk(true, true, false, false, "_o3_cranelift"));
    v.push(mk(false, true, true, false, "_mold_cranelift"));
    v.push(mk(false, true, false, false, "_cranelift"));
    v.push(mk(true, false, false, false, "_o3"));
    v.push(mk(false, false, false, true, "_parallel"));
    v.push(mk(true, false, false, true, "_parallel_o3"));
    v.push(mk(true, true, false, true, "_parallel_o3_cranelift"));
    v.push(mk(true, true, true, true, "_parallel_o3_cranelift_mold"));
    v.push(mk(false, true, true, true, "_parallel_cranelift_mold"));
    v.push(mk(false, true, false, true, "_parallel_cranelift"));
    v.push(mk(false, false, true, true, "_parallel_mold"));
    proof {
        assert(v.deep_view() =~= plan_spec());
    }
    v
}

fn mk(o3: bool, cranelift: bool, mold: bool, parallel: bool, label: &'static str) -> (r: PlanEntry)
    ensures
        r@ == pe(o3, cranelift, mold, parallel, label@),
{
    PlanEntry { state: KnobSet { o3, cranelift, mold, parallel }, label }
}

/// The minimal toggles that move one state to the next: one per knob
/// whose position differs, in a fixed knob order, and none for a knob
/// already in place.
pub open spec fn toggles_between(a: KnobSet, b: KnobSet) -> Seq<(Knob, bool)> {
    (if a.mold != b.mold {
        seq![(Knob::Mold, b.mold)]
    } else {
        Seq::empty()
    }) + (if a.o3 != b.o3 {
        seq![(Knob::O3, b.o3)]
    } else {
        Seq::empty()
    }) + (if a.cranelift != b.cranelift {
        seq![(Knob::Cranelift, b.cranelift)]
    } else {
        Seq::empty()
    }) + (if a.parallel != b.parallel {
        seq![(Knob::Parallel, b.parallel)]
    } else {
        Seq::empty()
    })
}

/// A toggle that moves a knob from its position in `a` to its position
/// in `b`.
pub open spec fn moves_knob(a: KnobSet, b: KnobSet, t: (Knob, bool)) -> bool {
    knob_on(a, t.0) != t.1 && t.1 == knob_on(b, t.0)
}

/// Every emitted toggle changes a knob towards its position in `b`, and
/// a knob already in place gets none.
#[verifier::rlimit(60)]
pub proof fn lemma_toggles_minimal(a: KnobSet, b: KnobSet)
    ensures
        forall|i: int|
            0 <= i < toggles_between(a, b).len() ==> moves_knob(
                a,
                b,
                #[trigger] toggles_between(a, b)[i],
            ),
{
    let s = toggles_between(a, b);
    assert forall|i: int| 0 <= i < s.len() implies moves_knob(a, b, #[trigger] s[i]) by {
        assert(s[i] == toggles_between(a, b)[i]);
    }
}

pub fn transition_toggles(a: KnobSet, b: KnobSet) -> (r: Vec<(Knob, bool)>)
    ensures
        r@ == toggles_between(a, b),
{
    let mut v: Vec<(Knob, bool)> = Vec::new();
    if a.mold != b.mold {
        v.push((Knob::Mold, b.mold));
    }
    if a.o3 != b.o3 {
        v.push((Knob::O3, b.o3));
    }
    if a.cranelift != b.cranelift {
        v.push((Knob::Cranelift, b.cranelift));
    }
    if a.parallel != b.parallel {
        v.push((Knob::Parallel, b.parallel));
    }
    proof {
        assert(v@ =~= toggles_between(a, b));
    }
    v
}

/// One step of a run: move a knob, or measure the current state.
pub enum Step {
    Toggle(Knob, bool),
    Bench(CargoCommandOptions),
}

/// The ghost image of a step.
pub enum StepV {
    Toggle(Knob, bool),
    Bench(BenchSpecV),
}

impl View for Step {
    type V = StepV;

    open spec fn view(&self) -> StepV {
        match self {
            Step::Toggle(k, on) => StepV::Toggle(*k, *on),
            Step::Bench(o) => StepV::Bench(o@),
        }
    }
}

impl DeepView for Step {
    type V = StepV;

    open spec fn deep_view(&self) -> StepV {
        self.view()
    }
}

/// What one whole run needs from the caller: how often to measure, the
/// directory for result files, and the project directory to build in.
pub struct RunConfig {
    pub runs: u8,
    pub warmup_runs: u8,
    pub output_dir: String,
    pub cargo_dir: String,
}

/// The ghost image of a run configuration.
pub struct RunConfigV {
    pub runs: u8,
    pub warmup_runs: u8,
    pub output_dir: Seq<char>,
    pub cargo_dir: Seq<char>,
}

impl View for RunConfig {
    type V = RunConfigV;

    open spec fn view(&self) -> RunConfigV {
        RunConfigV {
            runs: self.runs,
            warmup_runs: self.warmup_runs,
            output_dir: self.output_dir@,
            cargo_dir: self.cargo_dir@,
        }
    }
}

/// The measured build command: the plain build, or the build as the
/// active alternate linker expects it.
pub open spec fn build_command(s: KnobSet) -> Seq<char> {
    if s.mold {
        " cargo leptos build"@
    } else {
        "cargo leptos build"@
    }
}

/// The setup command of a clean measurement: purge the build output.
pub open spec fn clean_prepare() -> Seq<char> {
    "cargo clean"@
}

/// The setup command of an incremental measurement: touch one source
/// file so a partial recompilation is triggered.
pub open spec fn incremental_prepare() -> Seq<char> {
    "sed -i -e \"s|<dfn>[^<]*</dfn>|<dfn>$(date +%m%s)</dfn>|g\" app/src/routes/index.rs"@
}

/// The two measurements of one matrix cell: a clean build and an
/// incremental build, named after the cell's label.
pub open spec fn bench_pair(e: PlanEntryV, cfg: RunConfigV) -> Seq<StepV> {
    seq![
        StepV::Bench(
            BenchSpecV {
                runs: cfg.runs,
                warmup_runs: cfg.warmup_runs,
                prepare_command: clean_prepare(),
                cargo_command: build_command(e.state),
                output_dir: cfg.output_dir,
                run_name: "clean"@ + e.label,
                compile_path: cfg.cargo_dir,
            },
        ),
        StepV::Bench(
            BenchSpecV {
                runs: cfg.runs,
                warmup_runs: cfg.warmup_runs,
                prepare_command: incremental_prepare(),
                cargo_command: build_command(e.state),
                output_dir: cfg.output_dir,
                run_name: "incremental"@ + e.label,
                compile_path: cfg.cargo_dir,
            },
        ),
    ]
}

/// The steps that walk the remaining cells, starting from `prev`.
pub open spec fn steps_from(prev: KnobSet, entries: Seq<PlanEntryV>, cfg: RunConfigV) -> Seq<StepV>
    decreases entries.len(),
{
    if entries.len() == 0 {
        Seq::empty()
    } else {
        toggles_between(prev, entries[0].state).map_values(|t: (Knob, bool)| StepV::Toggle(t.0, t.1))
            + bench_pair(entries[0], cfg) + steps_from(entries[0].state, entries.skip(1), cfg)
    }
}

/// The whole script of one run: the reference path walked from the
/// all-disabled state.
pub open spec fn matrix_steps(cfg: RunConfigV) -> Seq<StepV> {
    steps_from(all_off(), plan_spec(), cfg)
}

fn push_toggle_steps(out: &mut Vec<Step>, toggles: &Vec<(Knob, bool)>)
    ensures
        final(out).deep_view() == old(out).deep_view() + toggles@.map_values(
            |t: (Knob, bool)| StepV::Toggle(t.0, t.1),
        ),
{
    let ghost mapped = toggles@.map_values(|t: (Knob, bool)| StepV::Toggle(t.0, t.1));
    let mut j: usize = 0;
    proof {
        assert(out.deep_view() + mapped.take(0) =~= out.deep_view());
    }
    while j < toggles.len()
        invariant
            j <= toggles@.len(),
            mapped == toggles@.map_values(|t: (Knob, bool)| StepV::Toggle(t.0, t.1)),
            out.deep_view() == old(out).deep_view() + mapped.take(j as int),
        decreases toggles@.len() - j,
    {
        let kb = toggles[j];
        let ghost pre = out.deep_view();
        out.push(Step::Toggle(kb.0, kb.1));
        proof {
            assert(mapped[j as int] == StepV::Toggle(kb.0, kb.1));
            assert(out.deep_view() =~= pre.push(StepV::Toggle(kb.0, kb.1)));
            assert(mapped.take(j + 1) =~= mapped.take(j as int).push(mapped[j as int]));
            assert(out.deep_view() =~= old(out).deep_view() + mapped.take(j + 1));
        }
        j += 1;
    }
    proof {
        assert(mapped.take(toggles@.len() as int) =~= mapped);
    }
}

fn push_bench_steps(out: &mut Vec<Step>, entry: &PlanEntry, cfg: &RunConfig)
    ensures
        final(out).deep_view() == old(out).deep_view() + bench_pair(entry@, cfg@),
{
    let cargo_cmd = if entry.state.mold {
        " cargo leptos build"
    } else {
        "cargo leptos build"
    };
    let mut clean_name = String::from_str("clean");
    clean_name.append(entry.label);
    let clean = CargoCommandOptions {
        runs: cfg.runs,
        warmup_runs: cfg.warmup_runs,
        prepare_command: String::from_str("cargo clean"),
        cargo_command: String::from_str(cargo_cmd),
        output_dir: cfg.output_dir.clone(),
        run_name: clean_name,
        compile_path: cfg.cargo_dir.clone(),
    };
    out.push(Step::Bench(clean));
    let mut inc_name = String::from_str("incremental");
    inc_name.append(entry.label);
    let inc = CargoCommandOptions {
        runs: cfg.runs,
        warmup_runs: cfg.warmup_runs,
        prepare_command: String::from_str(
            "sed -i -e \"s|<dfn>[^<]*</dfn>|<dfn>$(date +%m%s)</dfn>|g\" app/src/routes/index.rs",
        ),
        cargo_command: String::from_str(cargo_cmd),
        output_dir: cfg.output_dir.clone(),
        run_name: inc_name,
        compile_path: cfg.cargo_dir.clone(),
    };
    out.push(Step::Bench(inc));
    proof {
        assert(out.deep_view() =~= old(out).deep_view() + bench_pair(entry@, cfg@));
    }
}

/// Lay out the whole script of one run.
pub fn build_steps(cfg: &RunConfig) -> (r: Vec<Step>)
    ensures
        r.deep_view() == matrix_steps(cfg@),
{
    let plan = build_plan();
    let mut out: Vec<Step> = Vec::new();
    let mut prev = KnobSet { o3: false, cranelift: false, mold: false, parallel: false };
    let mut idx: usize = 0;
    proof {
        assert(plan_spec().skip(0) =~= plan_spec());
        assert(out.deep_view() + steps_from(prev, plan_spec(), cfg@) =~= matrix_steps(cfg@));
    }
    while idx < plan.len()
        invariant
            idx <= plan@.len(),
            plan.deep_view() == plan_spec(),
            plan@.len() == plan_spec().len(),
            prev == if idx == 0 {
                all_off()
            } else {
                plan_spec()[idx - 1].state
            },
            out.deep_view() + steps_from(prev, plan_spec().skip(idx as int), cfg@) == matrix_steps(
                cfg@,
            ),
        decreases plan@.len() - idx,
    {
        let entry = &plan[idx];
        proof {
            assert(entry@ == plan_spec()[idx as int]);
        }
        let toggles = transition_toggles(prev, entry.state);
        let ghost before = out.deep_view();
        let ghost rest = plan_spec().skip(idx as int);
        push_toggle_steps(&mut out, &toggles);
        push_bench_steps(&mut out, entry, cfg);
        proof {
            let mapped = toggles_between(prev, entry@.state).map_values(
                |t: (Knob, bool)| StepV::Toggle(t.0, t.1),
            );
            assert(rest.skip(1) =~= plan_spec().skip(idx + 1));
            assert(steps_from(prev, rest, cfg@) == mapped + bench_pair(entry@, cfg@)
                + steps_from(entry@.state, rest.skip(1), cfg@));
            assert(out.deep_view() =~= before + mapped + bench_pair(entry@, cfg@));
            assert(out.deep_view() + steps_from(entry@.state, plan_spec().skip(idx + 1), cfg@)
                =~= matrix_steps(cfg@));
        }
        prev = entry.state;
        idx += 1;
    }
    proof {
        assert(plan_spec().skip(15) =~= Seq::<PlanEntryV>::empty());
        assert(out.deep_view() =~= matrix_steps(cfg@));
    }
    out
}

/// One run in progress: the script, how far it has come, and the first
/// failure if one was reported.
pub struct MatrixRun {
    pub steps: Vec<Step>,
    pub pos: usize,
    pub failure: Option<RunError>,
}

impl MatrixRun {
    /// The step the run asks to be performed next, if it is neither
    /// finished nor stopped by a failure.
    pub open spec fn spec_next(self) -> Option<StepV> {
        if self.failure is None && self.pos < self.steps@.len() {
            Some(self.steps@[self.pos as int]@)
        } else {
            None
        }
    }

    /// Start a run over a script.
    pub fn new(steps: Vec<Step>) -> (r: MatrixRun)
        ensures
            r.steps == steps,
            r.pos == 0,
            r.failure is None,
    {
        MatrixRun { steps, pos: 0, failure: None }
    }

    /// The next step to perform, or nothing once the run is finished or
    /// has failed.
    pub fn next_step(&self) -> (r: Option<&Step>)
        ensures
            r is Some <==> (self.failure is None && self.pos < self.steps@.len()),
            r matches Some(s) ==> *s == self.steps@[self.pos as int] && self.spec_next() == Some(
                s@,
            ),
    {
        if self.failure.is_none() && self.pos < self.steps.len() {
            Some(&self.steps[self.pos])
        } else {
            None
        }
    }

    /// Report how the step just handed out went: success moves the run
    /// one step forward, failure stops it for good.
    pub fn record_outcome(&mut self, outcome: Result<(), RunError>)
        requires
            old(self).failure is None,
            old(self).pos < old(self).steps@.len(),
        ensures
            final(self).steps == old(self).steps,
            outcome is Ok ==> final(self).pos == old(self).pos + 1 && final(self).failure is None,
            outcome matches Err(e) ==> final(self).failure == Some(e) && final(self).pos == old(
                self,
            ).pos,
    {
        match outcome {
            Ok(_) => {
                let n = self.steps.len();
                if self.pos < n {
                    self.pos = self.pos + 1;
                }
            },
            Err(e) => {
                self.failure = Some(e);
            },
        }
    }

    /// What the whole run came to: the first failure, or success.
    pub fn outcome(&self) -> (r: Result<(), RunError>)
        ensures
            self.failure is None ==> r == Ok::<(), RunError>(()),
            self.failure matches Some(e) ==> r == Err::<(), RunError>(e),
    {
        match self.failure {
            Some(e) => Err(e),
            None => Ok(()),
        }
    }
}

/// Failure propagation: a run that has recorded a failure never offers
/// another step, so no further toggle or measurement is performed.
pub proof fn lemma_failure_halts(run: MatrixRun, e: RunError)
    requires
        run.failure == Some(e),
    ensures
        run.spec_next() is None,
{
}

/// How the external benchmarking process's fate maps to the run's
/// errors: a process that could not start, a process that exited with a
/// non-success status, or success.
pub fn exit_outcome(launched: bool, exit_code: i32) -> (r: Result<(), RunError>)
    ensures
        !launched ==> r == Err::<(), RunError>(RunError::ProcessLaunchFailed),
        launched && exit_code != 0 ==> r == Err::<(), RunError>(RunError::ProcessExitedNonZero),
        launched && exit_code == 0 ==> r == Ok::<(), RunError>(()),
{
    if !launched {
        Err(RunError::ProcessLaunchFailed)
    } else if exit_code != 0 {
        Err(RunError::ProcessExitedNonZero)
    } else {
        Ok(())
    }
}

/// The file a knob's toggles edit, under the given project directory.
pub fn target_path(dir: &str, f: TargetFile) -> (r: String)
    ensures
        f == TargetFile::Manifest ==> r@ == dir@ + "/Cargo.toml"@,
        f == TargetFile::BuildConfig ==> r@ == dir@ + "/.cargo/config.toml"@,
{
    let mut s = String::from_str(dir);
    match f {
        TargetFile::Manifest => s.append("/Cargo.toml"),
        TargetFile::BuildConfig => s.append("/.cargo/config.toml"),
    }
    s
}

} // verus!
