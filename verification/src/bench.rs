//! One timed measurement request and the command line it turns into.
//!
//! `CargoCommandOptions` describes a single benchmark: a setup command,
//! the measured build command, run counts, and where the result file
//! goes. `command_args` translates it into the exact argument vector for
//! the external benchmarking tool; invoking that tool is the caller's
//! business.

use vstd::prelude::*;

use vstd::arithmetic::div_mod::lemma_div_denominator;

verus! {

/// The character for one decimal digit.
pub open spec fn dec_digit(d: nat) -> char {
    if d == 0 {
        '0'
    } else if d == 1 {
        '1'
    } else if d == 2 {
        '2'
    } else if d == 3 {
        '3'
    } else if d == 4 {
        '4'
    } else if d == 5 {
        '5'
    } else if d == 6 {
        '6'
    } else if d == 7 {
        '7'
    } else if d == 8 {
        '8'
    } else {
        '9'
    }
}

/// The decimal writing of a number, most significant digit first.
pub open spec fn dec_rep(n: nat) -> Seq<char>
    decreases n,
{
    if n < 10 {
        seq![dec_digit(n)]
    } else {
        dec_rep(n / 10).push(dec_digit(n % 10))
    }
}

fn digit_str(d: u8) -> (r: &'static str)
    requires
        d < 10,
    ensures
        r@ == seq![dec_digit(d as nat)],
{
    proof {
        reveal_strlit("0");
        reveal_strlit("1");
        reveal_strlit("2");
        reveal_strlit("3");
        reveal_strlit("4");
        reveal_strlit("5");
        reveal_strlit("6");
        reveal_strlit("7");
        reveal_strlit("8");
        reveal_strlit("9");
    }
    match d {
        0 => "0",
        1 => "1",
        2 => "2",
        3 => "3",
        4 => "4",
        5 => "5",
        6 => "6",
        7 => "7",
        8 => "8",
        _ => "9",
    }
}

/// The run counts as the command line needs them.
pub fn u8_to_string(n: u8) -> (r: String)
    ensures
        r@ == dec_rep(n as nat),
{
    let mut s = String::new();
    if n >= 100 {
        s.append(digit_str(n / 100));
    }
    if n >= 10 {
        s.append(digit_str((n / 10) % 10));
    }
    s.append(digit_str(n % 10));
    proof {
        let nn = n as nat;
        if n < 10 {
            assert(dec_rep(nn) == seq![dec_digit(nn)]);
            assert(s@ =~= dec_rep(nn));
        } else if n < 100 {
            assert(dec_rep(nn) == dec_rep(nn / 10).push(dec_digit(nn % 10)));
            assert(nn / 10 < 10);
            assert(dec_rep(nn / 10) == seq![dec_digit(nn / 10)]);
            assert((n / 10) % 10 == n / 10);
            assert(s@ =~= dec_rep(nn));
        } else {
            lemma_div_denominator(n as int, 10, 10);
            assert(nn / 10 / 10 == nn / 100);
            assert(10 <= nn / 10 < 100);
            assert(nn / 100 < 10);
            assert(dec_rep(nn) == dec_rep(nn / 10).push(dec_digit(nn % 10)));
            assert(dec_rep(nn / 10) == dec_rep(nn / 10 / 10).push(dec_digit((nn / 10) % 10)));
            assert(dec_rep(nn / 100) == seq![dec_digit(nn / 100)]);
            assert(s@ =~= dec_rep(nn));
        }
    }
    s
}

/// The ghost image of one measurement request.
pub struct BenchSpecV {
    pub runs: u8,
    pub warmup_runs: u8,
    pub prepare_command: Seq<char>,
    pub cargo_command: Seq<char>,
    pub output_dir: Seq<char>,
    pub run_name: Seq<char>,
    pub compile_path: Seq<char>,
}

/// One measurement request: run the measured command `runs` times after
/// `warmup_runs` unrecorded runs, preparing each run with
/// `prepare_command`, working in `compile_path`, and export the timings
/// to `output_dir` under `run_name`.
pub struct CargoCommandOptions {
    pub runs: u8,
    pub warmup_runs: u8,
    pub prepare_command: String,
    pub cargo_command: String,
    pub output_dir: String,
    pub run_name: String,
    pub compile_path: String,
}

impl View for CargoCommandOptions {
    type V = BenchSpecV;

    open spec fn view(&self) -> BenchSpecV {
        BenchSpecV {
            runs: self.runs,
            warmup_runs: self.warmup_runs,
            prepare_command: self.prepare_command@,
            cargo_command: self.cargo_command@,
            output_dir: self.output_dir@,
            run_name: self.run_name@,
            compile_path: self.compile_path@,
        }
    }
}

/// Where the result file of a run goes.
pub open spec fn json_path(output_dir: Seq<char>, run_name: Seq<char>) -> Seq<char> {
    output_dir + "/"@ + run_name + ".json"@
}

/// The full argument vector of one invocation of the external
/// benchmarking tool, program name first.
pub open spec fn hyperfine_argv(s: BenchSpecV) -> Seq<Seq<char>> {
    seq![
        "hyperfine"@,
        "-p"@,
        s.prepare_command,
        "--warmup"@,
        dec_rep(s.warmup_runs as nat),
        s.cargo_command,
        "--export-json"@,
        json_path(s.output_dir, s.run_name),
        "--runs="@ + dec_rep(s.runs as nat),
    ]
}

/// Translate a measurement request into the benchmarking tool's
/// command line.
pub fn command_args(opts: &CargoCommandOptions) -> (r: Vec<String>)
    ensures
        r.deep_view() == hyperfine_argv(opts@),
{
    let mut v: Vec<String> = Vec::new();
    v.push(String::from_str("hyperfine"));
    v.push(String::from_str("-p"));
    v.push(opts.prepare_command.clone());
    v.push(String::from_str("--warmup"));
    v.push(u8_to_string(opts.warmup_runs));
    v.push(opts.cargo_command.clone());
    v.push(String::from_str("--export-json"));
    let mut path = String::new();
    path.append(opts.output_dir.as_str());
    path.append("/");
    path.append(opts.run_name.as_str());
    path.append(".json");
    v.push(path);
    let mut runs_flag = String::from_str("--runs=");
    let runs_digits = u8_to_string(opts.runs);
    runs_flag.append(runs_digits.as_str());
    v.push(runs_flag);
    proof {
        assert(v.deep_view() =~~= hyperfine_argv(opts@));
    }
    v
}

} // verus!
