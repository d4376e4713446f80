//! The mathematical model of a structured configuration file.
//!
//! A document is modelled as a map from section paths (non-empty
//! sequences of key names) to the node found there: a section, an
//! integer, a string, a list of strings, or any other value. The model
//! covers every node of the tree, so a section is present as a key of
//! its own and the nodes below it as longer paths.

use vstd::prelude::*;

verus! {

/// What one node of a configuration tree holds.
pub enum TomlVal {
    /// A section: a table of further entries.
    Table,
    Int(i64),
    Str(Seq<char>),
    StrList(Seq<Seq<char>>),
    /// Any node the engine never reads: booleans, dates, mixed arrays,
    /// arrays of tables, and so on.
    Other,
}

/// A section path: the key names from the root down.
pub type KeyPath = Seq<Seq<char>>;

/// The whole tree as a map from path to node.
pub type TreeMap = Map<KeyPath, TomlVal>;

/// `p` is a proper, non-empty leading part of `q`.
pub open spec fn below(p: KeyPath, q: KeyPath) -> bool {
    1 <= p.len() < q.len() && p == q.subrange(0, p.len() as int)
}

/// Every proper leading part of `p` that exists in the tree is a
/// section, so writing a value at `p` replaces no scalar by a section.
pub open spec fn path_clear(m: TreeMap, p: KeyPath) -> bool {
    forall|q: KeyPath| below(q, p) && m.dom().contains(q) ==> (#[trigger] m[q]) is Table
}

/// The tree after writing `v` at `p`: missing sections on the way are
/// created, whatever stood at or under `p` is gone, everything else is
/// untouched.
pub open spec fn set_entry(m: TreeMap, p: KeyPath, v: TomlVal) -> TreeMap {
    Map::new(
        |q: KeyPath| q == p || below(q, p) || (m.dom().contains(q) && !below(p, q)),
        |q: KeyPath|
            if q == p {
                v
            } else if m.dom().contains(q) {
                m[q]
            } else {
                TomlVal::Table
            },
    )
}

/// The tree after removing the node at `p` together with everything
/// below it; removing a missing path changes nothing.
pub open spec fn remove_entry(m: TreeMap, p: KeyPath) -> TreeMap {
    Map::new(|q: KeyPath| m.dom().contains(q) && q != p && !below(p, q), |q: KeyPath| m[q])
}

/// What makes a map the model of an actual document tree: paths are
/// non-empty, and every node hangs under a chain of sections.
pub open spec fn tree_wf(m: TreeMap) -> bool {
    forall|q: KeyPath| #[trigger] m.dom().contains(q) ==> 1 <= q.len() && (forall|i: int|
        1 <= i < q.len() ==> m.dom().contains(#[trigger] q.subrange(0, i)) && m[q.subrange(0, i)] is Table)
}

/// Writing along a clear path keeps the tree well formed.
pub proof fn lemma_set_entry_wf(m: TreeMap, p: KeyPath, v: TomlVal)
    requires
        tree_wf(m),
        path_clear(m, p),
        1 <= p.len(),
    ensures
        tree_wf(set_entry(m, p, v)),
{
    let m2 = set_entry(m, p, v);
    assert forall|q: KeyPath| #[trigger] m2.dom().contains(q) implies 1 <= q.len() && (forall|i: int|
        1 <= i < q.len() ==> m2.dom().contains(#[trigger] q.subrange(0, i)) && m2[q.subrange(0, i)] is Table) by {
        if q == p || below(q, p) {
            assert forall|i: int| 1 <= i < q.len() implies m2.dom().contains(#[trigger] q.subrange(0, i))
                && m2[q.subrange(0, i)] is Table by {
                let r = q.subrange(0, i);
                assert(r =~= p.subrange(0, i));
                assert(below(r, p));
                if m.dom().contains(r) {
                    assert(m[r] is Table);
                }
            }
        } else {
            assert(m.dom().contains(q) && !below(p, q));
            assert forall|i: int| 1 <= i < q.len() implies m2.dom().contains(#[trigger] q.subrange(0, i))
                && m2[q.subrange(0, i)] is Table by {
                let r = q.subrange(0, i);
                assert(m.dom().contains(r) && m[r] is Table);
                if r == p {
                    // then q would sit below p
                    assert(below(p, q));
                } else if below(p, r) {
                    assert(r.subrange(0, p.len() as int) =~= q.subrange(0, p.len() as int));
                    assert(below(p, q));
                }
            }
        }
    }
}

/// Some node strictly below `p` holds a value rather than a section.
pub open spec fn section_in_use(m: TreeMap, p: KeyPath) -> bool {
    exists|q: KeyPath| #[trigger] m.dom().contains(q) && below(p, q) && !(m[q] is Table)
}

/// How the tree `m2` of a rendered-and-reparsed document relates to the
/// document tree `m` it was rendered from: every node of `m2` stems from
/// `m` unchanged, every value of `m` survives, and so does every section
/// with a value somewhere below it. Only sections without one — and the
/// writer does drop such a section when it was never spelled out as its
/// own header — may be gone.
pub open spec fn prunes_to(m: TreeMap, m2: TreeMap) -> bool {
    &&& forall|p: KeyPath| #[trigger] m2.dom().contains(p) ==> m.dom().contains(p) && m2[p]
        == m[p]
    &&& forall|p: KeyPath| #[trigger] m.dom().contains(p) && !(m[p] is Table)
        ==> m2.dom().contains(p)
    &&& forall|p: KeyPath| #[trigger] m.dom().contains(p) && section_in_use(m, p)
        ==> m2.dom().contains(p)
}

/// Rendering and reparsing twice prunes no more than once might: the
/// relation composes.
pub proof fn lemma_prunes_to_trans(a: TreeMap, b: TreeMap, c: TreeMap)
    requires
        prunes_to(a, b),
        prunes_to(b, c),
    ensures
        prunes_to(a, c),
{
    assert forall|p: KeyPath| #[trigger] a.dom().contains(p) && section_in_use(a, p) implies c.dom().contains(p) by {
        let q = choose|q: KeyPath| #[trigger] a.dom().contains(q) && below(p, q) && !(a[q] is Table);
        assert(b.dom().contains(q));
        assert(section_in_use(b, p));
    }
}

/// In a well-formed tree a missing node has nothing below it, so
/// removing it changes nothing: the engine's "disable what is already
/// absent" case.
pub proof fn lemma_remove_absent(m: TreeMap, p: KeyPath)
    requires
        tree_wf(m),
        !m.dom().contains(p),
        1 <= p.len(),
    ensures
        remove_entry(m, p) == m,
{
    assert forall|q: KeyPath| m.dom().contains(q) implies !below(p, q) by {
        if below(p, q) {
            assert(m.dom().contains(q.subrange(0, p.len() as int)));
        }
    }
    assert(remove_entry(m, p) =~= m);
}

} // verus!
