//! What the toggle engine guarantees across calls.
//!
//! The toggle contracts in [`crate::knobs`] pin down one call each.
//! The proofs here combine them: a toggle repeated is harmless, a
//! toggle undone restores the tree, and a toggle never reaches into
//! another knob's section. Knobs living in different files cannot
//! interfere at all: each toggle takes and returns only its own file's
//! text, so the isolation proofs below concern knobs sharing a file.

use vstd::prelude::*;

use crate::knobs::{
    codegen_path, dev_opt_path, mold_disable_text, mold_disabled, mold_enable_text, o3_at, o3_set,
    pkg_opt_path, rustflags_path,
};
use crate::text::{lemma_replaced_has_sub, lemma_replaced_no_match, text_contains};
use crate::tree::{
    below, lemma_prunes_to_trans, path_clear, prunes_to, remove_entry, section_in_use, set_entry,
    tree_wf, TomlVal, TreeMap,
};

verus! {

/// After a dependency-optimization rewrite, any text the renderer can
/// have produced still reports exactly the written levels — the two
/// level entries are values, which rendering keeps — so a repeated
/// toggle towards the same levels finds them in place and leaves the
/// file bytes untouched.
pub proof fn lemma_o3_toggle_idempotent(m: TreeMap, dev: i64, pkg: i64, rendered: TreeMap)
    requires
        prunes_to(o3_set(m, dev, pkg), rendered),
    ensures
        o3_at(rendered, dev, pkg),
{
    let m1 = set_entry(m, dev_opt_path(), TomlVal::Int(dev));
    let m2 = set_entry(m1, pkg_opt_path(), TomlVal::Int(pkg));
    assert(m2.dom().contains(pkg_opt_path()));
    assert(m2[pkg_opt_path()] == TomlVal::Int(pkg));
    assert(!below(pkg_opt_path(), dev_opt_path()));
    assert(dev_opt_path() != pkg_opt_path());
    assert(m1.dom().contains(dev_opt_path()));
    assert(m2.dom().contains(dev_opt_path()));
    assert(m2[dev_opt_path()] == TomlVal::Int(dev));
    assert(rendered.dom().contains(dev_opt_path()));
    assert(rendered.dom().contains(pkg_opt_path()));
}

/// After writing a presence-style key, any text the renderer can have
/// produced still holds it (the key is a value, which rendering keeps),
/// and after removing it no rendered text holds it: a repeated enable or
/// disable of the code-generator or parallel-front-end knob finds its
/// state in place and leaves the file bytes untouched.
pub proof fn lemma_key_toggle_idempotent(
    m: TreeMap,
    p: Seq<Seq<char>>,
    v: TomlVal,
    after_enable: TreeMap,
    after_disable: TreeMap,
)
    requires
        !(v is Table),
        prunes_to(set_entry(m, p, v), after_enable),
        prunes_to(remove_entry(m, p), after_disable),
    ensures
        after_enable.dom().contains(p),
        !after_disable.dom().contains(p),
{
    assert(set_entry(m, p, v).dom().contains(p));
    assert(!remove_entry(m, p).dom().contains(p));
}

/// The file bytes the linker knob leaves behind: an enable call
/// rewrites a file that still carries a comment marker and leaves any
/// other alone.
pub open spec fn mold_enable_step(t: Seq<char>) -> Seq<char> {
    if mold_disabled(t) {
        mold_enable_text(t)
    } else {
        t
    }
}

/// The file bytes a disable call of the linker knob leaves behind.
pub open spec fn mold_disable_step(t: Seq<char>) -> Seq<char> {
    if mold_disabled(t) {
        t
    } else {
        mold_disable_text(t)
    }
}

/// Enabling the linker knob twice writes the same bytes as enabling it
/// once, for every file in which the substitution consumes all comment
/// markers. A file that hides a marker inside another (a doubled
/// comment mark in front of a template line) is outside the knob's
/// template and excluded.
pub proof fn lemma_enable_mold_idempotent(t: Seq<char>)
    requires
        mold_disabled(t) ==> !mold_disabled(mold_enable_text(t)),
    ensures
        mold_enable_step(mold_enable_step(t)) == mold_enable_step(t),
{
}

/// The first half of a linker-knob disable, named so the case split
/// below can speak about it.
pub open spec fn replaced_once(t: Seq<char>) -> Seq<char> {
    crate::text::replaced(t, "linker"@, "#linker"@)
}

/// Disabling the linker knob twice writes the same bytes as disabling
/// it once, for every file: a rewrite either inserts a comment marker,
/// which the second call sees, or changed nothing.
pub proof fn lemma_disable_mold_idempotent(t: Seq<char>)
    ensures
        mold_disable_step(mold_disable_step(t)) == mold_disable_step(t),
{
    reveal_strlit("linker");
    reveal_strlit("rustflags = [\"-C");
    if !mold_disabled(t) {
        let t1 = replaced_once(t);
        if text_contains(t, "linker"@) {
            lemma_replaced_has_sub(t, "linker"@, "#linker"@);
        } else {
            lemma_replaced_no_match(t, "linker"@, "#linker"@);
        }
        if text_contains(t1, "rustflags = [\"-C"@) {
            lemma_replaced_has_sub(t1, "rustflags = [\"-C"@, "#rustflags = [\"-C"@);
        } else {
            lemma_replaced_no_match(t1, "rustflags = [\"-C"@, "#rustflags = [\"-C"@);
        }
        let t2 = mold_disable_text(t);
        if !mold_disabled(t2) {
            assert(!text_contains(t1, "#linker"@));
            assert(!text_contains(t, "linker"@));
            assert(t1 == t);
            assert(!text_contains(t1, "#rustflags = [\"-C"@));
            assert(!text_contains(t1, "rustflags = [\"-C"@));
            assert(t2 == t);
        }
    }
}

/// Writing a value over an existing non-section node is a plain map
/// insertion: nothing else in the tree moves.
pub proof fn lemma_set_on_leaf(m: TreeMap, p: Seq<Seq<char>>, v: TomlVal)
    requires
        tree_wf(m),
        m.dom().contains(p),
        !(m[p] is Table),
    ensures
        set_entry(m, p, v) == m.insert(p, v),
{
    assert forall|q: Seq<Seq<char>>| below(q, p) implies m.dom().contains(q) by {
        assert(m.dom().contains(p));
    }
    assert forall|q: Seq<Seq<char>>| m.dom().contains(q) implies !below(p, q) by {
        if below(p, q) {
            assert(m.dom().contains(q.subrange(0, p.len() as int)));
            assert(m[q.subrange(0, p.len() as int)] is Table);
        }
    }
    assert(set_entry(m, p, v) =~= m.insert(p, v));
}

/// Writing a fresh key directly under existing sections is a plain map
/// insertion.
pub proof fn lemma_set_fresh(m: TreeMap, p: Seq<Seq<char>>, v: TomlVal)
    requires
        tree_wf(m),
        1 <= p.len(),
        !m.dom().contains(p),
        forall|i: int|
            1 <= i < p.len() ==> m.dom().contains(#[trigger] p.subrange(0, i)) && m[p.subrange(
                0,
                i,
            )] is Table,
    ensures
        set_entry(m, p, v) == m.insert(p, v),
{
    assert forall|q: Seq<Seq<char>>| below(q, p) implies m.dom().contains(q) by {
        assert(q == p.subrange(0, q.len() as int));
    }
    assert forall|q: Seq<Seq<char>>| m.dom().contains(q) implies !below(p, q) by {
        if below(p, q) {
            assert(m.dom().contains(q.subrange(0, p.len() as int)));
        }
    }
    assert(set_entry(m, p, v) =~= m.insert(p, v));
}

/// Removing a non-section node is a plain map removal.
pub proof fn lemma_remove_leaf(m: TreeMap, p: Seq<Seq<char>>)
    requires
        tree_wf(m),
        m.dom().contains(p) ==> !(m[p] is Table),
    ensures
        remove_entry(m, p) == m.remove(p),
{
    assert forall|q: Seq<Seq<char>>| m.dom().contains(q) implies !below(p, q) by {
        if below(p, q) {
            assert(m.dom().contains(q.subrange(0, p.len() as int)));
            assert(m[q.subrange(0, p.len() as int)] is Table);
        }
    }
    assert(remove_entry(m, p) =~= m.remove(p));
}

/// Round-trip neutrality of the dependency-optimization knob: enabling
/// and then disabling a manifest that stood at the disabled levels gives
/// a file whose tree keeps every value and every value-carrying section
/// of the original, unchanged — restoration up to the renderer's
/// dropping of valueless sections, which any rendering may do. `mid` is
/// the tree of the text the enable wrote, `restored` that of the
/// disable's. A manifest at other levels would be driven to the disabled
/// levels, not restored, and is excluded.
pub proof fn lemma_o3_round_trip(m: TreeMap, mid: TreeMap, restored: TreeMap)
    requires
        tree_wf(m),
        m.dom().contains(dev_opt_path()) && m[dev_opt_path()] == TomlVal::Int(0i64),
        m.dom().contains(pkg_opt_path()) && m[pkg_opt_path()] == TomlVal::Int(0i64),
        prunes_to(o3_set(m, 1, 3), mid),
        tree_wf(mid),
        prunes_to(o3_set(mid, 0, 0), restored),
    ensures
        prunes_to(m, restored),
{
    let dev = dev_opt_path();
    let pkg = pkg_opt_path();
    lemma_path_clear_of_wf(m, dev);
    lemma_set_on_leaf(m, dev, TomlVal::Int(1));
    crate::tree::lemma_set_entry_wf(m, dev, TomlVal::Int(1));
    let s1 = m.insert(dev, TomlVal::Int(1));
    assert(dev != pkg);
    lemma_set_on_leaf(s1, pkg, TomlVal::Int(3));
    let a = s1.insert(pkg, TomlVal::Int(3));
    assert(o3_set(m, 1, 3) == a);
    assert(o3_set(m, 1, 3).dom().contains(dev) && o3_set(m, 1, 3)[dev] == TomlVal::Int(1));
    assert(o3_set(m, 1, 3).dom().contains(pkg) && o3_set(m, 1, 3)[pkg] == TomlVal::Int(3));
    assert(mid.dom().contains(dev) && mid[dev] == TomlVal::Int(1));
    assert(mid.dom().contains(pkg) && mid[pkg] == TomlVal::Int(3));
    lemma_path_clear_of_wf(mid, dev);
    lemma_set_on_leaf(mid, dev, TomlVal::Int(0));
    crate::tree::lemma_set_entry_wf(mid, dev, TomlVal::Int(0));
    let b1 = mid.insert(dev, TomlVal::Int(0));
    lemma_set_on_leaf(b1, pkg, TomlVal::Int(0));
    let b = b1.insert(pkg, TomlVal::Int(0));
    assert(o3_set(mid, 0, 0) == b);
    // no extension of either level entry exists: the entries are values
    assert forall|q: Seq<Seq<char>>|
        m.dom().contains(q) implies !below(dev, q) && !below(pkg, q) by {
        if below(dev, q) {
            assert(m.dom().contains(q.subrange(0, dev.len() as int)));
            assert(m[q.subrange(0, dev.len() as int)] is Table);
        }
        if below(pkg, q) {
            assert(m.dom().contains(q.subrange(0, pkg.len() as int)));
            assert(m[q.subrange(0, pkg.len() as int)] is Table);
        }
    }
    assert(prunes_to(m, b)) by {
        assert forall|p: Seq<Seq<char>>| #[trigger] b.dom().contains(p) implies m.dom().contains(p)
            && b[p] == m[p] by {
            if p != dev && p != pkg {
                assert(mid.dom().contains(p));
                assert(a.dom().contains(p) && mid[p] == a[p]);
            }
        }
        assert forall|p: Seq<Seq<char>>|
            #[trigger] m.dom().contains(p) && !(m[p] is Table) implies b.dom().contains(p) by {
            if p != dev && p != pkg {
                assert(a.dom().contains(p) && a[p] == m[p]);
                assert(mid.dom().contains(p));
            }
        }
        assert forall|p: Seq<Seq<char>>|
            #[trigger] m.dom().contains(p) && section_in_use(m, p) implies b.dom().contains(p) by {
            let q = choose|q: Seq<Seq<char>>|
                #[trigger] m.dom().contains(q) && below(p, q) && !(m[q] is Table);
            assert(a.dom().contains(q) && !(a[q] is Table));
            assert(p != dev && p != pkg);
            assert(a.dom().contains(p));
            assert(section_in_use(a, p));
            assert(mid.dom().contains(p));
        }
    }
    lemma_prunes_to_trans(m, b, restored);
}

/// A node an existing tree holds has all its leading sections in
/// place, so a write at it runs through sections only.
pub proof fn lemma_path_clear_of_wf(m: TreeMap, p: Seq<Seq<char>>)
    requires
        tree_wf(m),
        m.dom().contains(p),
    ensures
        path_clear(m, p),
{
    assert forall|q: Seq<Seq<char>>| below(q, p) && m.dom().contains(q) implies (#[trigger] m[q]) is Table by {
        assert(q == p.subrange(0, q.len() as int));
    }
}

/// Round-trip neutrality of a presence-style knob: writing a fresh,
/// non-section value directly under existing sections and then removing
/// it gives a file whose tree keeps every value and every value-carrying
/// section of the original, unchanged — restoration up to the renderer's
/// dropping of valueless sections. `mid` is the tree of the text the
/// enable wrote, `restored` that of the disable's. A configuration that
/// already held the key would lose it, and one without the enclosing
/// sections would gain them; both are excluded.
pub proof fn lemma_key_round_trip(
    m: TreeMap,
    p: Seq<Seq<char>>,
    v: TomlVal,
    mid: TreeMap,
    restored: TreeMap,
)
    requires
        tree_wf(m),
        1 <= p.len(),
        !m.dom().contains(p),
        !(v is Table),
        forall|i: int|
            1 <= i < p.len() ==> m.dom().contains(#[trigger] p.subrange(0, i)) && m[p.subrange(
                0,
                i,
            )] is Table,
        prunes_to(set_entry(m, p, v), mid),
        tree_wf(mid),
        prunes_to(remove_entry(mid, p), restored),
    ensures
        prunes_to(m, restored),
{
    lemma_set_fresh(m, p, v);
    let a = m.insert(p, v);
    assert(set_entry(m, p, v).dom().contains(p) && set_entry(m, p, v)[p] == v);
    assert(mid.dom().contains(p) && mid[p] == v);
    lemma_remove_leaf(mid, p);
    let b = mid.remove(p);
    assert(remove_entry(mid, p) == b);
    assert(prunes_to(m, b)) by {
        assert forall|r: Seq<Seq<char>>| #[trigger] b.dom().contains(r) implies m.dom().contains(r)
            && b[r] == m[r] by {
            assert(mid.dom().contains(r));
            assert(a.dom().contains(r) && mid[r] == a[r]);
        }
        assert forall|r: Seq<Seq<char>>|
            #[trigger] m.dom().contains(r) && !(m[r] is Table) implies b.dom().contains(r) by {
            assert(r != p);
            assert(a.dom().contains(r) && a[r] == m[r]);
            assert(mid.dom().contains(r));
        }
        assert forall|r: Seq<Seq<char>>|
            #[trigger] m.dom().contains(r) && section_in_use(m, r) implies b.dom().contains(r) by {
            let q = choose|q: Seq<Seq<char>>|
                #[trigger] m.dom().contains(q) && below(r, q) && !(m[q] is Table);
            assert(q != p);
            assert(a.dom().contains(q) && !(a[q] is Table));
            assert(r != p);
            assert(a.dom().contains(r));
            assert(section_in_use(a, r));
            assert(mid.dom().contains(r));
        }
    }
    lemma_prunes_to_trans(m, b, restored);
}

/// The code-generator toggles restore a configuration that had the knob
/// off and holds its profile section: the disable's output tree keeps
/// every value and value-carrying section of the original.
pub proof fn lemma_cranelift_round_trip(m: TreeMap, mid: TreeMap, restored: TreeMap)
    requires
        tree_wf(m),
        !m.dom().contains(codegen_path()),
        m.dom().contains(codegen_path().subrange(0, 1)) && m[codegen_path().subrange(0, 1)] is Table,
        m.dom().contains(codegen_path().subrange(0, 2)) && m[codegen_path().subrange(0, 2)] is Table,
        prunes_to(set_entry(m, codegen_path(), TomlVal::Str("cranelift"@)), mid),
        tree_wf(mid),
        prunes_to(remove_entry(mid, codegen_path()), restored),
    ensures
        prunes_to(m, restored),
{
    assert forall|i: int| 1 <= i < codegen_path().len() implies m.dom().contains(
        #[trigger] codegen_path().subrange(0, i),
    ) && m[codegen_path().subrange(0, i)] is Table by {
    }
    lemma_key_round_trip(m, codegen_path(), TomlVal::Str("cranelift"@), mid, restored);
}

/// The parallel-front-end toggles restore a configuration that had the
/// knob off and holds its build section: the disable's output tree keeps
/// every value and value-carrying section of the original.
pub proof fn lemma_parallel_round_trip(m: TreeMap, v: TomlVal, mid: TreeMap, restored: TreeMap)
    requires
        tree_wf(m),
        !m.dom().contains(rustflags_path()),
        !(v is Table),
        m.dom().contains(rustflags_path().subrange(0, 1)) && m[rustflags_path().subrange(0, 1)] is Table,
        prunes_to(set_entry(m, rustflags_path(), v), mid),
        tree_wf(mid),
        prunes_to(remove_entry(mid, rustflags_path()), restored),
    ensures
        prunes_to(m, restored),
{
    assert forall|i: int| 1 <= i < rustflags_path().len() implies m.dom().contains(
        #[trigger] rustflags_path().subrange(0, i),
    ) && m[rustflags_path().subrange(0, i)] is Table by {
    }
    lemma_key_round_trip(m, rustflags_path(), v, mid, restored);
}

/// Isolation carried to the rendered file: a value node that a tree
/// edit left untouched — another knob's key — is still present, with the
/// same value, in the tree the rewritten text parses to, because
/// rendering keeps every value.
pub proof fn lemma_prune_keeps_value(m: TreeMap, rendered: TreeMap, q: Seq<Seq<char>>)
    requires
        prunes_to(m, rendered),
        m.dom().contains(q),
        !(m[q] is Table),
    ensures
        rendered.dom().contains(q),
        rendered[q] == m[q],
{
}

/// The dependency-optimization knob only writes under the profile
/// section of the manifest: every path rooted elsewhere keeps its
/// presence and its value.
pub proof fn lemma_o3_isolation(m: TreeMap, dev: i64, pkg: i64, q: Seq<Seq<char>>)
    requires
        1 <= q.len(),
        q[0] != "profile"@,
    ensures
        o3_set(m, dev, pkg).dom().contains(q) == m.dom().contains(q),
        m.dom().contains(q) ==> o3_set(m, dev, pkg)[q] == m[q],
{
    lemma_other_root_untouched(m, dev_opt_path(), TomlVal::Int(dev), q);
    lemma_other_root_untouched(
        set_entry(m, dev_opt_path(), TomlVal::Int(dev)),
        pkg_opt_path(),
        TomlVal::Int(pkg),
        q,
    );
}

/// A write at `p` leaves every path alone whose first key differs.
pub proof fn lemma_other_root_untouched(m: TreeMap, p: Seq<Seq<char>>, v: TomlVal, q: Seq<Seq<char>>)
    requires
        1 <= p.len(),
        1 <= q.len(),
        q[0] != p[0],
    ensures
        set_entry(m, p, v).dom().contains(q) == m.dom().contains(q),
        m.dom().contains(q) ==> set_entry(m, p, v)[q] == m[q],
        remove_entry(m, p).dom().contains(q) == m.dom().contains(q),
        m.dom().contains(q) ==> remove_entry(m, p)[q] == m[q],
{
    assert(q != p);
    assert(!below(q, p)) by {
        if below(q, p) {
            assert(p.subrange(0, q.len() as int)[0] == p[0]);
        }
    }
    assert(!below(p, q)) by {
        if below(p, q) {
            assert(q.subrange(0, p.len() as int)[0] == q[0]);
        }
    }
}

/// Toggling the code-generator knob never changes a path rooted outside
/// the profile section; in particular the build section, where the
/// parallel-front-end knob lives, keeps its on-disk tree.
pub proof fn lemma_cranelift_isolation(m: TreeMap, v: TomlVal, q: Seq<Seq<char>>)
    requires
        1 <= q.len(),
        q[0] != "profile"@,
    ensures
        set_entry(m, codegen_path(), v).dom().contains(q) == m.dom().contains(q),
        m.dom().contains(q) ==> set_entry(m, codegen_path(), v)[q] == m[q],
        remove_entry(m, codegen_path()).dom().contains(q) == m.dom().contains(q),
        m.dom().contains(q) ==> remove_entry(m, codegen_path())[q] == m[q],
{
    lemma_other_root_untouched(m, codegen_path(), v, q);
}

/// Toggling the parallel-front-end knob never changes a path rooted
/// outside the build section; in particular the profile section, where
/// the code-generator knob lives, keeps its on-disk tree.
pub proof fn lemma_parallel_isolation(m: TreeMap, v: TomlVal, q: Seq<Seq<char>>)
    requires
        1 <= q.len(),
        q[0] != "build"@,
    ensures
        set_entry(m, rustflags_path(), v).dom().contains(q) == m.dom().contains(q),
        m.dom().contains(q) ==> set_entry(m, rustflags_path(), v)[q] == m[q],
        remove_entry(m, rustflags_path()).dom().contains(q) == m.dom().contains(q),
        m.dom().contains(q) ==> remove_entry(m, rustflags_path())[q] == m[q],
{
    lemma_other_root_untouched(m, rustflags_path(), v, q);
}

} // verus!
