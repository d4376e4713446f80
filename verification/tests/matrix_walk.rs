//! The orchestrator: plan, transitions, script, and the run state
//! machine.

use customs::knobs::{Knob, TargetFile};
use customs::matrix::{
    build_plan, build_steps, exit_outcome, target_path, transition_toggles, KnobSet, MatrixRun,
    RunConfig, Step,
};
use customs::RunError;

fn demo_config() -> RunConfig {
    RunConfig {
        runs: 10,
        warmup_runs: 0,
        output_dir: String::from("/tmp/results"),
        cargo_dir: String::from("/work/project"),
    }
}

#[test]
fn plan_has_fifteen_distinct_states() {
    let plan = build_plan();
    assert_eq!(plan.len(), 15);
    for i in 0..plan.len() {
        for j in 0..i {
            assert_ne!(plan[i].state, plan[j].state, "states {} and {} coincide", i, j);
        }
    }
}

#[test]
fn plan_starts_all_disabled_and_is_labelled() {
    let plan = build_plan();
    let off = KnobSet { o3: false, cranelift: false, mold: false, parallel: false };
    assert_eq!(plan[0].state, off);
    assert_eq!(plan[0].label, "");
    assert_eq!(plan[1].label, "_mold");
    assert_eq!(plan[3].label, "_mold_o3_cranelift");
    assert_eq!(plan[11].label, "_parallel_o3_cranelift_mold");
    assert_eq!(plan[14].label, "_parallel_mold");
}

#[test]
fn transitions_toggle_exactly_the_differing_knobs() {
    let off = KnobSet { o3: false, cranelift: false, mold: false, parallel: false };
    let mold_only = KnobSet { o3: false, cranelift: false, mold: true, parallel: false };
    assert_eq!(transition_toggles(off, mold_only), vec![(Knob::Mold, true)]);
    assert_eq!(transition_toggles(off, off), vec![]);
    let mold_o3 = KnobSet { o3: true, cranelift: false, mold: true, parallel: false };
    assert_eq!(transition_toggles(mold_only, mold_o3), vec![(Knob::O3, true)]);
    let o3_parallel = KnobSet { o3: true, cranelift: false, mold: false, parallel: true };
    assert_eq!(
        transition_toggles(mold_only, o3_parallel),
        vec![(Knob::Mold, false), (Knob::O3, true), (Knob::Parallel, true)]
    );
}

#[test]
fn plan_transitions_never_toggle_a_settled_knob() {
    let plan = build_plan();
    let mut prev = KnobSet { o3: false, cranelift: false, mold: false, parallel: false };
    for entry in &plan {
        for (knob, on) in transition_toggles(prev, entry.state) {
            let before = match knob {
                Knob::O3 => prev.o3,
                Knob::Cranelift => prev.cranelift,
                Knob::Mold => prev.mold,
                Knob::Parallel => prev.parallel,
            };
            assert_ne!(before, on);
        }
        prev = entry.state;
    }
}

#[test]
fn script_measures_every_cell_twice() {
    let steps = build_steps(&demo_config());
    let benches = steps.iter().filter(|s| matches!(s, Step::Bench(_))).count();
    assert_eq!(benches, 30);
}

#[test]
fn script_opens_with_the_default_measurements() {
    let steps = build_steps(&demo_config());
    match &steps[0] {
        Step::Bench(opts) => {
            assert_eq!(opts.run_name, "clean");
            assert_eq!(opts.prepare_command, "cargo clean");
            assert_eq!(opts.cargo_command, "cargo leptos build");
            assert_eq!(opts.runs, 10);
            assert_eq!(opts.compile_path, "/work/project");
        },
        other => panic!("expected a measurement first, got {:?}", step_kind(other)),
    }
    match &steps[1] {
        Step::Bench(opts) => assert_eq!(opts.run_name, "incremental"),
        other => panic!("expected a measurement, got {:?}", step_kind(other)),
    }
    match &steps[2] {
        Step::Toggle(k, on) => {
            assert_eq!(*k, Knob::Mold);
            assert!(*on);
        },
        other => panic!("expected the mold toggle, got {:?}", step_kind(other)),
    }
    match &steps[3] {
        Step::Bench(opts) => {
            assert_eq!(opts.run_name, "clean_mold");
            assert_eq!(opts.cargo_command, " cargo leptos build");
        },
        other => panic!("expected a measurement, got {:?}", step_kind(other)),
    }
}

fn step_kind(s: &Step) -> &'static str {
    match s {
        Step::Toggle(_, _) => "a toggle",
        Step::Bench(_) => "a measurement",
    }
}

#[test]
fn failed_benchmark_stops_the_run() {
    let steps = build_steps(&demo_config());
    let total = steps.len();
    let mut run = MatrixRun::new(steps);
    // let the first two steps succeed, then the external tool exits
    // with status 2
    assert!(run.next_step().is_some());
    run.record_outcome(Ok(()));
    assert!(run.next_step().is_some());
    run.record_outcome(Ok(()));
    assert!(run.next_step().is_some());
    let failure = exit_outcome(true, 2);
    assert_eq!(failure, Err(RunError::ProcessExitedNonZero));
    run.record_outcome(failure);
    assert!(run.next_step().is_none());
    assert_eq!(run.outcome(), Err(RunError::ProcessExitedNonZero));
    assert!(total > 3);
}

#[test]
fn successful_run_walks_the_whole_script() {
    let steps = build_steps(&demo_config());
    let total = steps.len();
    let mut run = MatrixRun::new(steps);
    let mut performed: usize = 0;
    while run.next_step().is_some() {
        run.record_outcome(Ok(()));
        performed += 1;
    }
    assert_eq!(performed, total);
    assert_eq!(run.outcome(), Ok(()));
}

#[test]
fn launch_failure_maps_to_its_own_error() {
    assert_eq!(exit_outcome(false, 0), Err(RunError::ProcessLaunchFailed));
    assert_eq!(exit_outcome(true, 0), Ok(()));
    assert_eq!(exit_outcome(true, 1), Err(RunError::ProcessExitedNonZero));
}

#[test]
fn knob_files_and_paths() {
    assert_eq!(
        target_path("/work/project", TargetFile::Manifest),
        "/work/project/Cargo.toml"
    );
    assert_eq!(
        target_path("/work/project", TargetFile::BuildConfig),
        "/work/project/.cargo/config.toml"
    );
    assert_eq!(customs::knobs::knob_file(Knob::O3), TargetFile::Manifest);
    assert_eq!(customs::knobs::knob_file(Knob::Mold), TargetFile::BuildConfig);
    assert_eq!(customs::knobs::knob_file(Knob::Cranelift), TargetFile::BuildConfig);
    assert_eq!(customs::knobs::knob_file(Knob::Parallel), TargetFile::BuildConfig);
}
