//! The measurement request and the command line built from it.

use customs::bench::{command_args, u8_to_string, CargoCommandOptions};

#[test]
fn decimal_writing_of_run_counts() {
    assert_eq!(u8_to_string(0), "0");
    assert_eq!(u8_to_string(7), "7");
    assert_eq!(u8_to_string(10), "10");
    assert_eq!(u8_to_string(42), "42");
    assert_eq!(u8_to_string(100), "100");
    assert_eq!(u8_to_string(255), "255");
}

#[test]
fn command_line_of_one_measurement() {
    let opts = CargoCommandOptions {
        runs: 10,
        warmup_runs: 0,
        prepare_command: String::from("cargo clean"),
        cargo_command: String::from("cargo leptos build"),
        output_dir: String::from("/tmp/results"),
        run_name: String::from("clean"),
        compile_path: String::from("/work/project"),
    };
    let argv = command_args(&opts);
    assert_eq!(
        argv,
        vec![
            "hyperfine",
            "-p",
            "cargo clean",
            "--warmup",
            "0",
            "cargo leptos build",
            "--export-json",
            "/tmp/results/clean.json",
            "--runs=10",
        ]
    );
}

#[test]
fn command_line_carries_the_warmup_count() {
    let opts = CargoCommandOptions {
        runs: 3,
        warmup_runs: 2,
        prepare_command: String::from("true"),
        cargo_command: String::from("cargo build"),
        output_dir: String::from("out"),
        run_name: String::from("incremental_mold"),
        compile_path: String::from("."),
    };
    let argv = command_args(&opts);
    assert_eq!(argv[4], "2");
    assert_eq!(argv[7], "out/incremental_mold.json");
    assert_eq!(argv[8], "--runs=3");
}
