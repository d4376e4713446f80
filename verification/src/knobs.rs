//! The configuration toggle engine.
//!
//! One pair of operations per build knob, each a pure function from the
//! target file's current text to either "nothing to do" or the rewritten
//! text. Reading the file and writing the result back stay with the
//! caller, so every decision the engine makes is verified here.
//!
//! Three knobs edit the tree of their file: the dependency-optimization
//! knob writes the two optimization levels in the package manifest, the
//! code-generator and parallel-front-end knobs add or drop one key in
//! the build-tool configuration. The alternate-linker knob instead
//! toggles template lines of the build-tool configuration between a
//! comment-marker form and an active form by substring substitution.

use vstd::prelude::*;

use crate::doc::{int_at, toml_model, ConfigDocument};
use crate::text::{contains_sub, replace_all, replaced, text_contains};
use crate::tree::{below, path_clear, prunes_to, remove_entry, set_entry, TomlVal, TreeMap};
use crate::RunError;

verus! {

/// What a toggle did: the file already held the requested state, or it
/// must be rewritten with the given text.
pub enum ToggleOutcome {
    AlreadyApplied,
    Updated(String),
}

/// The knobs, named for what they switch to: a raised optimization
/// level for dependencies, the cranelift code generator, the mold
/// linker, the multi-threaded compiler front end.
#[derive(Clone, Copy, Debug, PartialEq, Eq, Structural)]
pub enum Knob {
    O3,
    Cranelift,
    Mold,
    Parallel,
}

/// Which file a knob lives in.
#[derive(Clone, Copy, Debug, PartialEq, Eq, Structural)]
pub enum TargetFile {
    /// The package manifest of the project under test.
    Manifest,
    /// The build-tool configuration file of the project under test.
    BuildConfig,
}

/// The file each knob's toggles read and rewrite.
pub open spec fn spec_knob_file(k: Knob) -> TargetFile {
    match k {
        Knob::O3 => TargetFile::Manifest,
        _ => TargetFile::BuildConfig,
    }
}

pub fn knob_file(k: Knob) -> (r: TargetFile)
    ensures
        r == spec_knob_file(k),
{
    match k {
        Knob::O3 => TargetFile::Manifest,
        _ => TargetFile::BuildConfig,
    }
}

// The manifest paths the dependency-optimization knob writes: the main
// package's optimization level and the wildcard override for all
// dependency packages.
pub open spec fn dev_opt_path() -> Seq<Seq<char>> {
    seq!["profile"@, "dev"@, "opt-level"@]
}

pub open spec fn pkg_opt_path() -> Seq<Seq<char>> {
    seq!["profile"@, "dev"@, "package"@, "*"@, "opt-level"@]
}

/// The build-configuration key naming the code-generator backend.
pub open spec fn codegen_path() -> Seq<Seq<char>> {
    seq!["profile"@, "server-dev"@, "codegen-backend"@]
}

/// The build-configuration key holding the extra compiler flags.
pub open spec fn rustflags_path() -> Seq<Seq<char>> {
    seq!["build"@, "rustflags"@]
}

/// Both optimization levels stand at the given values.
pub open spec fn o3_at(m: TreeMap, dev: i64, pkg: i64) -> bool {
    int_at(m, dev_opt_path()) == Some(dev) && int_at(m, pkg_opt_path()) == Some(pkg)
}

/// The manifest tree after writing the two optimization levels.
pub open spec fn o3_set(m: TreeMap, dev: i64, pkg: i64) -> TreeMap {
    set_entry(set_entry(m, dev_opt_path(), TomlVal::Int(dev)), pkg_opt_path(), TomlVal::Int(pkg))
}

/// Writing both optimization levels must not run through a scalar.
pub open spec fn o3_paths_clear(m: TreeMap) -> bool {
    path_clear(m, dev_opt_path()) && path_clear(m, pkg_opt_path())
}

/// What a dependency-optimization toggle towards levels `dev`/`pkg`
/// returns: a parse failure is malformed; a manifest already at the
/// requested levels is left alone; a manifest whose profile keys are
/// blocked by scalars is malformed; anything else is rewritten to a
/// text whose tree is the one with the two new levels written, up to
/// the renderer dropping sections left without a value below them.
pub open spec fn o3_outcome_ok(t: Seq<char>, dev: i64, pkg: i64, r: Result<
    ToggleOutcome,
    RunError,
>) -> bool {
    if toml_model(t) is None {
        r == Err::<ToggleOutcome, RunError>(RunError::MalformedConfig)
    } else {
        let m = toml_model(t)->Some_0;
        if o3_at(m, dev, pkg) {
            r == Ok::<ToggleOutcome, RunError>(ToggleOutcome::AlreadyApplied)
        } else if !o3_paths_clear(m) {
            r == Err::<ToggleOutcome, RunError>(RunError::MalformedConfig)
        } else {
            match r {
                Ok(ToggleOutcome::Updated(t2)) => toml_model(t2@) is Some && prunes_to(
                    o3_set(m, dev, pkg),
                    toml_model(t2@)->Some_0,
                ),
                _ => false,
            }
        }
    }
}

/// Whether writing at `q` is possible: the node is absent or a section.
fn clear_at(doc: &ConfigDocument, q: &[&str]) -> (r: bool)
    requires
        1 <= q@.len(),
    ensures
        r == (!doc@.dom().contains(q.deep_view()) || doc@[q.deep_view()] is Table),
{
    !doc.has(q) || doc.section_at(q)
}

/// Writing elsewhere keeps a path clear, as long as the write does not
/// land below the path's own prefixes.
proof fn lemma_set_preserves_clear(m: TreeMap, p: Seq<Seq<char>>, v: TomlVal, q: Seq<Seq<char>>)
    requires
        path_clear(m, q),
        !below(p, q),
    ensures
        path_clear(set_entry(m, p, v), q),
{
    let m2 = set_entry(m, p, v);
    assert forall|s: Seq<Seq<char>>| below(s, q) && m2.dom().contains(s) implies (#[trigger] m2[s]) is Table by {
        if s == p {
            assert(below(p, q));
        }
    }
}

fn o3_toggle(text: &str, dev: i64, pkg: i64) -> (r: Result<ToggleOutcome, RunError>)
    ensures
        o3_outcome_ok(text@, dev, pkg, r),
{
    let parsed = ConfigDocument::parse(text);
    let mut doc = match parsed {
        Some(d) => d,
        None => {
            return Err(RunError::MalformedConfig);
        },
    };
    let dev_arr: [&str; 3] = ["profile", "dev", "opt-level"];
    let pkg_arr: [&str; 5] = ["profile", "dev", "package", "*", "opt-level"];
    let dev_path = dev_arr.as_slice();
    let pkg_path = pkg_arr.as_slice();
    proof {
        assert(dev_path.deep_view() =~~= dev_opt_path());
        assert(pkg_path.deep_view() =~~= pkg_opt_path());
    }
    let cur_dev = doc.get_integer(dev_path);
    let cur_pkg = doc.get_integer(pkg_path);
    let already = match (cur_dev, cur_pkg) {
        (Some(a), Some(b)) => a == dev && b == pkg,
        _ => false,
    };
    if already {
        return Ok(ToggleOutcome::AlreadyApplied);
    }
    let pr1: [&str; 1] = ["profile"];
    let pr2: [&str; 2] = ["profile", "dev"];
    let pr3: [&str; 3] = ["profile", "dev", "package"];
    let pr4: [&str; 4] = ["profile", "dev", "package", "*"];
    let pr1s = pr1.as_slice();
    let pr2s = pr2.as_slice();
    let pr3s = pr3.as_slice();
    let pr4s = pr4.as_slice();
    let clear = clear_at(&doc, pr1s) && clear_at(&doc, pr2s) && clear_at(&doc, pr3s)
        && clear_at(&doc, pr4s);
    proof {
        assert(pr1s.deep_view() =~~= dev_opt_path().subrange(0, 1));
        assert(pr2s.deep_view() =~~= dev_opt_path().subrange(0, 2));
        assert(pr1s.deep_view() =~~= pkg_opt_path().subrange(0, 1));
        assert(pr2s.deep_view() =~~= pkg_opt_path().subrange(0, 2));
        assert(pr3s.deep_view() =~~= pkg_opt_path().subrange(0, 3));
        assert(pr4s.deep_view() =~~= pkg_opt_path().subrange(0, 4));
        if clear {
            assert forall|q: Seq<Seq<char>>|
                below(q, dev_opt_path()) && doc@.dom().contains(q) implies (#[trigger] doc@[q]) is Table by {
                assert(q =~~= dev_opt_path().subrange(0, q.len() as int));
            }
            assert forall|q: Seq<Seq<char>>|
                below(q, pkg_opt_path()) && doc@.dom().contains(q) implies (#[trigger] doc@[q]) is Table by {
                assert(q =~~= pkg_opt_path().subrange(0, q.len() as int));
            }
            assert(o3_paths_clear(doc@));
        }
    }
    if !clear {
        return Err(RunError::MalformedConfig);
    }
    proof {
        reveal_strlit("package");
        reveal_strlit("opt-level");
        assert(!below(dev_opt_path(), pkg_opt_path())) by {
            assert("package"@.len() == 7);
            assert("opt-level"@.len() == 9);
            assert(pkg_opt_path().subrange(0, 3)[2] == "package"@);
        }
        lemma_set_preserves_clear(
            doc@,
            dev_opt_path(),
            TomlVal::Int(dev),
            pkg_opt_path(),
        );
    }
    doc.set_integer(dev_path, dev);
    doc.set_integer(pkg_path, pkg);
    let out = doc.serialize();
    Ok(ToggleOutcome::Updated(out))
}

/// Raise the optimization levels in the manifest: the main package to
/// level 1, every dependency package to level 3.
pub fn enable_o3(text: &str) -> (r: Result<ToggleOutcome, RunError>)
    ensures
        o3_outcome_ok(text@, 1, 3, r),
{
    o3_toggle(text, 1, 3)
}

/// Reset both optimization levels in the manifest to 0.
pub fn disable_o3(text: &str) -> (r: Result<ToggleOutcome, RunError>)
    ensures
        o3_outcome_ok(text@, 0, 0, r),
{
    o3_toggle(text, 0, 0)
}

/// What enabling a presence-style knob at `p` with value `v` returns:
/// parse failure or a blocked path is malformed; a configuration that
/// already holds the key is left alone; otherwise the key is written,
/// and the rewritten text parses to the tree with the key in place, up
/// to the renderer dropping sections left without a value below them.
pub open spec fn key_enable_ok(t: Seq<char>, p: Seq<Seq<char>>, v: TomlVal, r: Result<
    ToggleOutcome,
    RunError,
>) -> bool {
    if toml_model(t) is None {
        r == Err::<ToggleOutcome, RunError>(RunError::MalformedConfig)
    } else {
        let m = toml_model(t)->Some_0;
        if m.dom().contains(p) {
            r == Ok::<ToggleOutcome, RunError>(ToggleOutcome::AlreadyApplied)
        } else if !path_clear(m, p) {
            r == Err::<ToggleOutcome, RunError>(RunError::MalformedConfig)
        } else {
            match r {
                Ok(ToggleOutcome::Updated(t2)) => toml_model(t2@) is Some && prunes_to(
                    set_entry(m, p, v),
                    toml_model(t2@)->Some_0,
                ),
                _ => false,
            }
        }
    }
}

/// What disabling a presence-style knob at `p` returns: parse failure
/// is malformed; a configuration without the key is left alone;
/// otherwise the key and everything below it are dropped, and the
/// rewritten text parses to that tree, up to the renderer dropping
/// sections left without a value below them.
pub open spec fn key_disable_ok(t: Seq<char>, p: Seq<Seq<char>>, r: Result<
    ToggleOutcome,
    RunError,
>) -> bool {
    if toml_model(t) is None {
        r == Err::<ToggleOutcome, RunError>(RunError::MalformedConfig)
    } else {
        let m = toml_model(t)->Some_0;
        if !m.dom().contains(p) {
            r == Ok::<ToggleOutcome, RunError>(ToggleOutcome::AlreadyApplied)
        } else {
            match r {
                Ok(ToggleOutcome::Updated(t2)) => toml_model(t2@) is Some && prunes_to(
                    remove_entry(m, p),
                    toml_model(t2@)->Some_0,
                ),
                _ => false,
            }
        }
    }
}

/// Select the cranelift code generator for the server profile: add the
/// backend key under its profile section, unless it is already there.
pub fn enable_cranelift(text: &str) -> (r: Result<ToggleOutcome, RunError>)
    ensures
        key_enable_ok(text@, codegen_path(), TomlVal::Str("cranelift"@), r),
{
    let parsed = ConfigDocument::parse(text);
    let mut doc = match parsed {
        Some(d) => d,
        None => {
            return Err(RunError::MalformedConfig);
        },
    };
    let key_arr: [&str; 3] = ["profile", "server-dev", "codegen-backend"];
    let key = key_arr.as_slice();
    proof {
        assert(key.deep_view() =~~= codegen_path());
    }
    if doc.has(key) {
        return Ok(ToggleOutcome::AlreadyApplied);
    }
    let pr1: [&str; 1] = ["profile"];
    let pr2: [&str; 2] = ["profile", "server-dev"];
    let pr1s = pr1.as_slice();
    let pr2s = pr2.as_slice();
    let clear = clear_at(&doc, pr1s) && clear_at(&doc, pr2s);
    proof {
        assert(pr1s.deep_view() =~~= codegen_path().subrange(0, 1));
        assert(pr2s.deep_view() =~~= codegen_path().subrange(0, 2));
        if clear {
            assert forall|q: Seq<Seq<char>>|
                below(q, codegen_path()) && doc@.dom().contains(q) implies (#[trigger] doc@[q]) is Table by {
                assert(q =~~= codegen_path().subrange(0, q.len() as int));
            }
        }
    }
    if !clear {
        return Err(RunError::MalformedConfig);
    }
    doc.set_text(key, "cranelift");
    let out = doc.serialize();
    Ok(ToggleOutcome::Updated(out))
}

/// Drop the code-generator backend key, unless it is already absent.
pub fn disable_cranelift(text: &str) -> (r: Result<ToggleOutcome, RunError>)
    ensures
        key_disable_ok(text@, codegen_path(), r),
{
    let parsed = ConfigDocument::parse(text);
    let mut doc = match parsed {
        Some(d) => d,
        None => {
            return Err(RunError::MalformedConfig);
        },
    };
    let key_arr: [&str; 3] = ["profile", "server-dev", "codegen-backend"];
    let key = key_arr.as_slice();
    proof {
        assert(key.deep_view() =~~= codegen_path());
    }
    if !doc.has(key) {
        return Ok(ToggleOutcome::AlreadyApplied);
    }
    doc.remove(key);
    let out = doc.serialize();
    Ok(ToggleOutcome::Updated(out))
}

/// The flag list the parallel-front-end knob writes.
pub open spec fn parallel_flags() -> TomlVal {
    TomlVal::StrList(seq!["-Z"@, "threads=8"@])
}

/// Turn on the multi-threaded compiler front end: write the flag list
/// under the build section, unless some flag list is already there.
pub fn enable_parallel(text: &str) -> (r: Result<ToggleOutcome, RunError>)
    ensures
        key_enable_ok(text@, rustflags_path(), parallel_flags(), r),
{
    let parsed = ConfigDocument::parse(text);
    let mut doc = match parsed {
        Some(d) => d,
        None => {
            return Err(RunError::MalformedConfig);
        },
    };
    let key_arr: [&str; 2] = ["build", "rustflags"];
    let key = key_arr.as_slice();
    proof {
        assert(key.deep_view() =~~= rustflags_path());
    }
    if doc.has(key) {
        return Ok(ToggleOutcome::AlreadyApplied);
    }
    let pr1: [&str; 1] = ["build"];
    let pr1s = pr1.as_slice();
    let clear = clear_at(&doc, pr1s);
    proof {
        assert(pr1s.deep_view() =~~= rustflags_path().subrange(0, 1));
        if clear {
            assert forall|q: Seq<Seq<char>>|
                below(q, rustflags_path()) && doc@.dom().contains(q) implies (#[trigger] doc@[q]) is Table by {
                assert(q =~~= rustflags_path().subrange(0, q.len() as int));
            }
        }
    }
    if !clear {
        return Err(RunError::MalformedConfig);
    }
    let flags: [&str; 2] = ["-Z", "threads=8"];
    let flags_s = flags.as_slice();
    proof {
        assert(flags_s.deep_view() =~~= seq!["-Z"@, "threads=8"@]);
    }
    doc.set_text_list(key, flags_s);
    let out = doc.serialize();
    Ok(ToggleOutcome::Updated(out))
}

/// Drop the flag list of the build section, unless it is already absent.
pub fn disable_parallel(text: &str) -> (r: Result<ToggleOutcome, RunError>)
    ensures
        key_disable_ok(text@, rustflags_path(), r),
{
    let parsed = ConfigDocument::parse(text);
    let mut doc = match parsed {
        Some(d) => d,
        None => {
            return Err(RunError::MalformedConfig);
        },
    };
    let key_arr: [&str; 2] = ["build", "rustflags"];
    let key = key_arr.as_slice();
    proof {
        assert(key.deep_view() =~~= rustflags_path());
    }
    if !doc.has(key) {
        return Ok(ToggleOutcome::AlreadyApplied);
    }
    doc.remove(key);
    let out = doc.serialize();
    Ok(ToggleOutcome::Updated(out))
}

/// The linker knob is off while a comment marker still hides one of its
/// template lines.
pub open spec fn mold_disabled(t: Seq<char>) -> bool {
    text_contains(t, "#linker"@) || text_contains(t, "#rustflags = [\"-C"@)
}

/// The text after uncommenting the linker template lines.
pub open spec fn mold_enable_text(t: Seq<char>) -> Seq<char> {
    replaced(replaced(t, "#linker"@, "linker"@), "#rustflags = [\"-C"@, "rustflags = [\"-C"@)
}

/// The text after commenting the linker template lines back out.
pub open spec fn mold_disable_text(t: Seq<char>) -> Seq<char> {
    replaced(replaced(t, "linker"@, "#linker"@), "rustflags = [\"-C"@, "#rustflags = [\"-C"@)
}

/// Activate the mold linker: strip the comment markers from the linker
/// template lines; a text without markers is already active.
pub fn enable_mold(text: &str) -> (r: Result<ToggleOutcome, RunError>)
    ensures
        !mold_disabled(text@) ==> r == Ok::<ToggleOutcome, RunError>(ToggleOutcome::AlreadyApplied),
        mold_disabled(text@) ==> match r {
            Ok(ToggleOutcome::Updated(t2)) => t2@ == mold_enable_text(text@),
            _ => false,
        },
{
    if !contains_sub(text, "#linker") && !contains_sub(text, "#rustflags = [\"-C") {
        return Ok(ToggleOutcome::AlreadyApplied);
    }
    let s1 = replace_all(text, "#linker", "linker");
    let s2 = replace_all(s1.as_str(), "#rustflags = [\"-C", "rustflags = [\"-C");
    Ok(ToggleOutcome::Updated(s2))
}

/// Deactivate the mold linker: comment the template lines back out; a
/// text that still carries a comment marker is already inactive.
pub fn disable_mold(text: &str) -> (r: Result<ToggleOutcome, RunError>)
    ensures
        mold_disabled(text@) ==> r == Ok::<ToggleOutcome, RunError>(ToggleOutcome::AlreadyApplied),
        !mold_disabled(text@) ==> match r {
            Ok(ToggleOutcome::Updated(t2)) => t2@ == mold_disable_text(text@),
            _ => false,
        },
{
    if contains_sub(text, "#linker") || contains_sub(text, "#rustflags = [\"-C") {
        return Ok(ToggleOutcome::AlreadyApplied);
    }
    let s1 = replace_all(text, "linker", "#linker");
    let s2 = replace_all(s1.as_str(), "rustflags = [\"-C", "#rustflags = [\"-C");
    Ok(ToggleOutcome::Updated(s2))
}

/// One entry point for the orchestrator: move the given knob to the
/// requested state, deciding on the file text as the per-knob toggles
/// do.
pub fn apply_toggle(k: Knob, on: bool, text: &str) -> (r: Result<ToggleOutcome, RunError>)
    ensures
        k == Knob::O3 && on ==> o3_outcome_ok(text@, 1, 3, r),
        k == Knob::O3 && !on ==> o3_outcome_ok(text@, 0, 0, r),
        k == Knob::Cranelift && on ==> key_enable_ok(
            text@,
            codegen_path(),
            TomlVal::Str("cranelift"@),
            r,
        ),
        k == Knob::Cranelift && !on ==> key_disable_ok(text@, codegen_path(), r),
        k == Knob::Parallel && on ==> key_enable_ok(text@, rustflags_path(), parallel_flags(), r),
        k == Knob::Parallel && !on ==> key_disable_ok(text@, rustflags_path(), r),
        k == Knob::Mold && on && !mold_disabled(text@) ==> r == Ok::<ToggleOutcome, RunError>(
            ToggleOutcome::AlreadyApplied,
        ),
        k == Knob::Mold && on && mold_disabled(text@) ==> match r {
            Ok(ToggleOutcome::Updated(t2)) => t2@ == mold_enable_text(text@),
            _ => false,
        },
        k == Knob::Mold && !on && mold_disabled(text@) ==> r == Ok::<ToggleOutcome, RunError>(
            ToggleOutcome::AlreadyApplied,
        ),
        k == Knob::Mold && !on && !mold_disabled(text@) ==> match r {
            Ok(ToggleOutcome::Updated(t2)) => t2@ == mold_disable_text(text@),
            _ => false,
        },
{
    match k {
        Knob::O3 => if on {
            enable_o3(text)
        } else {
            disable_o3(text)
        },
        Knob::Cranelift => if on {
            enable_cranelift(text)
        } else {
            disable_cranelift(text)
        },
        Knob::Mold => if on {
            enable_mold(text)
        } else {
            disable_mold(text)
        },
        Knob::Parallel => if on {
            enable_parallel(text)
        } else {
            disable_parallel(text)
        },
    }
}

/// The two optimization levels a manifest text currently holds, for
/// callers that inspect rather than toggle.
pub fn manifest_opt_levels(text: &str) -> (r: Result<(Option<i64>, Option<i64>), RunError>)
    ensures
        toml_model(text@) is None <==> r == Err::<(Option<i64>, Option<i64>), RunError>(
            RunError::MalformedConfig,
        ),
        toml_model(text@) matches Some(m) ==> r == Ok::<(Option<i64>, Option<i64>), RunError>(
            (int_at(m, dev_opt_path()), int_at(m, pkg_opt_path())),
        ),
{
    let parsed = ConfigDocument::parse(text);
    let doc = match parsed {
        Some(d) => d,
        None => {
            return Err(RunError::MalformedConfig);
        },
    };
    let dev_arr: [&str; 3] = ["profile", "dev", "opt-level"];
    let pkg_arr: [&str; 5] = ["profile", "dev", "package", "*", "opt-level"];
    let dev_path = dev_arr.as_slice();
    let pkg_path = pkg_arr.as_slice();
    proof {
        assert(dev_path.deep_view() =~~= dev_opt_path());
        assert(pkg_path.deep_view() =~~= pkg_opt_path());
    }
    let dev = doc.get_integer(dev_path);
    let pkg = doc.get_integer(pkg_path);
    Ok((dev, pkg))
}

/// Whether the build configuration currently holds the code-generator
/// key and the flag-list key.
pub fn build_config_state(text: &str) -> (r: Result<(bool, bool), RunError>)
    ensures
        toml_model(text@) is None <==> r == Err::<(bool, bool), RunError>(
            RunError::MalformedConfig,
        ),
        toml_model(text@) matches Some(m) ==> r == Ok::<(bool, bool), RunError>(
            (m.dom().contains(codegen_path()), m.dom().contains(rustflags_path())),
        ),
{
    let parsed = ConfigDocument::parse(text);
    let doc = match parsed {
        Some(d) => d,
        None => {
            return Err(RunError::MalformedConfig);
        },
    };
    let cg_arr: [&str; 3] = ["profile", "server-dev", "codegen-backend"];
    let rf_arr: [&str; 2] = ["build", "rustflags"];
    let cg_path = cg_arr.as_slice();
    let rf_path = rf_arr.as_slice();
    proof {
        assert(cg_path.deep_view() =~~= codegen_path());
        assert(rf_path.deep_view() =~~= rustflags_path());
    }
    let cg = doc.has(cg_path);
    let rf = doc.has(rf_path);
    Ok((cg, rf))
}

} // verus!
