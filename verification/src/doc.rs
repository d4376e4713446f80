//! A structured configuration document.
//!
//! `ConfigDocument` owns a parsed configuration file and exposes it
//! through the tree model of [`crate::tree`]: its view is the map from
//! section path to node. Parsing, rendering and the path operations are
//! carried out by the `toml_edit` crate, which preserves the comments
//! and formatting of everything a mutation does not touch; each call
//! into it sits behind one trusted function whose contract states what
//! the call does to the tree.

use vstd::prelude::*;

use crate::tree::{path_clear, prunes_to, remove_entry, set_entry, tree_wf, TomlVal, TreeMap};

verus! {

#[verifier::external_type_specification]
#[verifier::external_body]
pub struct ExDocumentMut(toml_edit::DocumentMut);

/// The tree a document holds.
pub uninterp spec fn doc_entries(d: toml_edit::DocumentMut) -> TreeMap;

/// The tree that a text parses to, or `None` when the text is not valid
/// configuration syntax. Parsing is a function of the text alone.
pub uninterp spec fn toml_model(text: Seq<char>) -> Option<TreeMap>;

/// A parsed configuration file: a section/key tree that can be read,
/// edited along a path, and rendered back without disturbing unrelated
/// content.
pub struct ConfigDocument {
    pub inner: toml_edit::DocumentMut,
}

impl View for ConfigDocument {
    type V = TreeMap;

    open spec fn view(&self) -> TreeMap {
        doc_entries(self.inner)
    }
}

/// The integer stored at `p`, if `p` holds one.
pub open spec fn int_at(m: TreeMap, p: Seq<Seq<char>>) -> Option<i64> {
    if m.dom().contains(p) && m[p] is Int {
        Some(m[p]->Int_0)
    } else {
        None
    }
}

impl ConfigDocument {
    /// Relies on `toml_edit::DocumentMut::from_str`: parses the text
    /// into the document tree exactly when the text is valid, and the
    /// tree of a parsed document is a well-formed tree.
    #[verifier::external_body]
    pub fn parse(text: &str) -> (r: Option<ConfigDocument>)
        ensures
            r is Some <==> toml_model(text@) is Some,
            r matches Some(d) ==> doc_entries(d.inner) == toml_model(text@)->Some_0 && tree_wf(d@),
    {
        text.parse::<toml_edit::DocumentMut>().ok().map(|inner| ConfigDocument { inner })
    }

    /// Relies on `toml_edit::DocumentMut`'s display implementation: the
    /// rendered text is valid configuration syntax and parses back to
    /// the document's own tree, except that the encoder deliberately
    /// hides an implicit section that holds no key/value pairs, so a
    /// section left without any value below it may be missing from the
    /// reparsed tree. Every value, and every section that still carries
    /// one, comes back unchanged.
    #[verifier::external_body]
    pub fn serialize(&self) -> (r: String)
        ensures
            toml_model(r@) is Some,
            prunes_to(self@, toml_model(r@)->Some_0),
    {
        self.inner.to_string()
    }

    /// Relies on `toml_edit::Item::get`: walks the path through the
    /// tables without modifying anything.
    #[verifier::external_body]
    pub fn has(&self, path: &[&str]) -> (r: bool)
        requires
            1 <= path@.len(),
        ensures
            r == self@.dom().contains(path.deep_view()),
    {
        let mut it = Some(self.inner.as_item());
        for seg in path {
            it = it.and_then(|x| x.get(*seg));
        }
        it.is_some()
    }

    /// Relies on `toml_edit::Item::get` and `Item::is_table_like`: the
    /// node at the path, if any, is a section.
    #[verifier::external_body]
    pub fn section_at(&self, path: &[&str]) -> (r: bool)
        requires
            1 <= path@.len(),
        ensures
            r == (self@.dom().contains(path.deep_view()) && self@[path.deep_view()] is Table),
    {
        let mut it = Some(self.inner.as_item());
        for seg in path {
            it = it.and_then(|x| x.get(*seg));
        }
        it.map_or(false, |x| x.is_table_like())
    }

    /// Relies on `toml_edit::Item::get` and `Item::as_integer`.
    #[verifier::external_body]
    pub fn get_integer(&self, path: &[&str]) -> (r: Option<i64>)
        requires
            1 <= path@.len(),
        ensures
            r == int_at(self@, path.deep_view()),
    {
        let mut it = Some(self.inner.as_item());
        for seg in path {
            it = it.and_then(|x| x.get(*seg));
        }
        it.and_then(|x| x.as_integer())
    }

    /// Relies on `toml_edit`'s `Item` path indexing and `value`: writes
    /// an integer at the path, creating the sections on the way.
    /// Indexing panics when it meets a scalar where a section is
    /// needed, which `path_clear` rules out.
    #[verifier::external_body]
    pub fn set_integer(&mut self, path: &[&str], v: i64)
        requires
            1 <= path@.len(),
            path_clear(old(self)@, path.deep_view()),
        ensures
            final(self)@ == set_entry(old(self)@, path.deep_view(), TomlVal::Int(v)),
    {
        let mut it = self.inner.as_item_mut();
        for seg in path {
            it = &mut it[*seg];
        }
        *it = toml_edit::value(v);
    }

    /// Relies on `toml_edit`'s `Item` path indexing and `value`: writes
    /// a string at the path, as [`Self::set_integer`] does an integer.
    #[verifier::external_body]
    pub fn set_text(&mut self, path: &[&str], v: &str)
        requires
            1 <= path@.len(),
            path_clear(old(self)@, path.deep_view()),
        ensures
            final(self)@ == set_entry(old(self)@, path.deep_view(), TomlVal::Str(v@)),
    {
        let mut it = self.inner.as_item_mut();
        for seg in path {
            it = &mut it[*seg];
        }
        *it = toml_edit::value(v);
    }

    /// Relies on `toml_edit`'s `Item` path indexing, `Array::push` and
    /// `value`: writes an array holding the given strings at the path,
    /// as [`Self::set_integer`] does an integer.
    #[verifier::external_body]
    pub fn set_text_list(&mut self, path: &[&str], items: &[&str])
        requires
            1 <= path@.len(),
            path_clear(old(self)@, path.deep_view()),
        ensures
            final(self)@ == set_entry(old(self)@, path.deep_view(), TomlVal::StrList(items.deep_view())),
    {
        let mut arr = toml_edit::Array::new();
        for v in items {
            arr.push(*v);
        }
        let mut it = self.inner.as_item_mut();
        for seg in path {
            it = &mut it[*seg];
        }
        *it = toml_edit::value(arr);
    }

    /// Relies on `toml_edit::TableLike::get_mut` and `remove`: drops the
    /// node at the path with everything below it; a missing path is left
    /// alone rather than reported.
    #[verifier::external_body]
    pub fn remove(&mut self, path: &[&str])
        requires
            1 <= path@.len(),
        ensures
            final(self)@ == remove_entry(old(self)@, path.deep_view()),
    {
        let mut cur: &mut dyn toml_edit::TableLike = self.inner.as_table_mut();
        for seg in &path[..path.len() - 1] {
            match cur.get_mut(seg).and_then(|x| x.as_table_like_mut()) {
                Some(t) => cur = t,
                None => return,
            }
        }
        cur.remove(path[path.len() - 1]);
    }
}

} // verus!
