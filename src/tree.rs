use vstd::prelude::*;
use crate::keyed::{find_key, has_key, key_index, names, pairs, put, put_value, lemma_pairs_names};

verus! {

/// A value held under a name in the tree or in one of its groups.
#[derive(Debug, PartialEq)]
pub enum Leaf {
    /// `{ "$path": p }`, a reference to a folder.
    Link(String),
    /// Any other JSON value, kept as it was read.
    Raw(serde_json::Value),
}

pub enum LeafView {
    Link(Seq<char>),
    Raw(serde_json::Value),
}

impl View for Leaf {
    type V = LeafView;

    open spec fn view(&self) -> LeafView {
        match self {
            Leaf::Link(p) => LeafView::Link(p@),
            Leaf::Raw(v) => LeafView::Raw(*v),
        }
    }
}

/// A top-level entry of the tree.
#[derive(Debug, PartialEq)]
pub enum Entry {
    /// A sub-tree: a JSON object without a `$path` member, whose members
    /// may receive new entries.
    Group(Vec<(String, Leaf)>),
    /// Anything else, among them `{ "$path": ... }` leaves.
    Item(Leaf),
}

pub enum EntryView {
    Group(Seq<(Seq<char>, LeafView)>),
    Item(LeafView),
}

impl View for Entry {
    type V = EntryView;

    open spec fn view(&self) -> EntryView {
        match self {
            Entry::Group(ms) => EntryView::Group(pairs(ms@)),
            Entry::Item(l) => EntryView::Item(l@),
        }
    }
}

/// What the document holds under its `tree` key.
#[derive(Debug, PartialEq)]
pub enum TreeSlot {
    /// The document has no `tree` key.
    Missing,
    /// `tree` is an object with these entries.
    Entries(Vec<(String, Entry)>),
    /// `tree` is some other JSON value.
    Other(serde_json::Value),
}

pub enum TreeView {
    Missing,
    Entries(Seq<(Seq<char>, EntryView)>),
    Other(serde_json::Value),
}

impl View for TreeSlot {
    type V = TreeView;

    open spec fn view(&self) -> TreeView {
        match self {
            TreeSlot::Missing => TreeView::Missing,
            TreeSlot::Entries(es) => TreeView::Entries(pairs(es@)),
            TreeSlot::Other(v) => TreeView::Other(*v),
        }
    }
}

/// A project document: its `tree`, and its other top-level members as read.
#[derive(Debug, PartialEq)]
pub struct Project {
    pub fields: Vec<(String, serde_json::Value)>,
    pub tree: TreeSlot,
}

/// No name occurs twice.
pub open spec fn distinct(ks: Seq<Seq<char>>) -> bool {
    forall|i: int, j: int| 0 <= i < j < ks.len() ==> ks[i] != ks[j]
}

/// The entries of a tree as read: distinct names, and groups whose members
/// have distinct names, none of them `$path`.
pub open spec fn entries_wf(es: Seq<(String, Entry)>) -> bool {
    &&& distinct(names(es))
    &&& forall|i: int|
        0 <= i < es.len() ==> match #[trigger] es[i].1 {
            Entry::Group(ms) => distinct(names(ms@)) && !has_key(names(ms@), "$path"@),
            Entry::Item(_) => true,
        }
}

impl Project {
    /// A document as read: distinct member names, `tree` held apart from the
    /// other members, and well-formed entries.
    pub open spec fn wf(&self) -> bool {
        &&& distinct(names(self.fields@))
        &&& !has_key(names(self.fields@), "tree"@)
        &&& self.tree matches TreeSlot::Entries(es) ==> entries_wf(es@)
    }
}

/// Where a new entry goes: at the top level of the tree, or under a named entry.
#[derive(Debug, PartialEq)]
pub enum Parent {
    Top,
    Named(String),
}

impl View for Parent {
    type V = Option<Seq<char>>;

    open spec fn view(&self) -> Option<Seq<char>> {
        match self {
            Parent::Top => None,
            Parent::Named(n) => Some(n@),
        }
    }
}

/// What an insertion did.
#[derive(Debug, Clone, Copy, PartialEq, Eq, Structural)]
pub enum Outcome {
    /// Placed at the top level, as asked.
    AtTop,
    /// Placed under the chosen parent.
    UnderParent,
    /// The parent was not in the tree: placed at the top level instead.
    ParentMissing,
    /// The parent is not a group: nothing was placed.
    ParentNotGroup,
    /// The document has no `tree`: nothing was placed.
    NoTree,
    /// `tree` is not an object: nothing was placed.
    TreeNotObject,
}

impl Outcome {
    /// Whether the document was changed.
    pub open spec fn placed_spec(self) -> bool {
        self == Outcome::AtTop || self == Outcome::UnderParent || self == Outcome::ParentMissing
    }

    /// Whether the outcome deserves a warning.
    pub open spec fn warns_spec(self) -> bool {
        self != Outcome::AtTop && self != Outcome::UnderParent
    }

    #[verifier::when_used_as_spec(placed_spec)]
    pub fn placed(self) -> (r: bool)
        ensures
            r == self.placed_spec(),
    {
        match self {
            Outcome::AtTop | Outcome::UnderParent | Outcome::ParentMissing => true,
            _ => false,
        }
    }

    #[verifier::when_used_as_spec(warns_spec)]
    pub fn warns(self) -> (r: bool)
        ensures
            r == self.warns_spec(),
    {
        match self {
            Outcome::AtTop | Outcome::UnderParent => false,
            _ => true,
        }
    }
}

/// The entry that records a folder at relative path `rel`.
pub open spec fn link_entry(rel: Seq<char>) -> EntryView {
    EntryView::Item(LeafView::Link(rel))
}

/// The tree after recording folder `name` at relative path `rel` under
/// `parent` (`None`: the top level), and what was done.
pub open spec fn placed(t: TreeView, parent: Option<Seq<char>>, name: Seq<char>, rel: Seq<char>) -> (
    TreeView,
    Outcome,
) {
    match t {
        TreeView::Missing => (t, Outcome::NoTree),
        TreeView::Other(_) => (t, Outcome::TreeNotObject),
        TreeView::Entries(es) => {
            let ks = es.map_values(|e: (Seq<char>, EntryView)| e.0);
            match parent {
                None => (TreeView::Entries(put(es, name, link_entry(rel))), Outcome::AtTop),
                Some(p) => if !has_key(ks, p) {
                    (TreeView::Entries(put(es, name, link_entry(rel))), Outcome::ParentMissing)
                } else {
                    let i = key_index(ks, p);
                    match es[i].1 {
                        EntryView::Group(ms) => (
                            TreeView::Entries(
                                es.update(i, (p, EntryView::Group(put(ms, name, LeafView::Link(rel))))),
                            ),
                            Outcome::UnderParent,
                        ),
                        EntryView::Item(_) => (t, Outcome::ParentNotGroup),
                    }
                },
            }
        },
    }
}

impl TreeSlot {
    /// Records folder `name` at relative path `rel` under `parent`.
    pub fn place(self, parent: &Parent, name: String, rel: String) -> (r: (TreeSlot, Outcome))
        ensures
            (r.0@, r.1) == placed(self@, parent@, name@, rel@),
    {
        match self {
            TreeSlot::Missing => (TreeSlot::Missing, Outcome::NoTree),
            TreeSlot::Other(v) => (TreeSlot::Other(v), Outcome::TreeNotObject),
            TreeSlot::Entries(mut es) => {
                proof {
                    lemma_pairs_names(es@);
                }
                match parent {
                    Parent::Top => {
                        put_value(&mut es, name, Entry::Item(Leaf::Link(rel)));
                        (TreeSlot::Entries(es), Outcome::AtTop)
                    },
                    Parent::Named(p) => match find_key(&es, p) {
                        None => {
                            put_value(&mut es, name, Entry::Item(Leaf::Link(rel)));
                            (TreeSlot::Entries(es), Outcome::ParentMissing)
                        },
                        Some(i) => {
                            let ghost es0 = es@;
                            let (k, e) = es.remove(i);
                            match e {
                                Entry::Group(mut ms) => {
                                    put_value(&mut ms, name, Leaf::Link(rel));
                                    es.insert(i, (k, Entry::Group(ms)));
                                    assert(pairs(es@) =~= pairs(es0).update(
                                        i as int,
                                        (p@, EntryView::Group(pairs(ms@))),
                                    ));
                                    (TreeSlot::Entries(es), Outcome::UnderParent)
                                },
                                Entry::Item(l) => {
                                    es.insert(i, (k, Entry::Item(l)));
                                    assert(pairs(es@) =~= pairs(es0));
                                    (TreeSlot::Entries(es), Outcome::ParentNotGroup)
                                },
                            }
                        },
                    },
                }
            },
        }
    }
}

impl Project {
    /// Records folder `name` at relative path `rel` under `parent`; the
    /// members beside `tree` are left as they are.
    pub fn insert_entry(&mut self, parent: &Parent, name: String, rel: String) -> (r: Outcome)
        ensures
            (final(self).tree@, r) == placed(old(self).tree@, parent@, name@, rel@),
            final(self).fields == old(self).fields,
    {
        let mut slot = TreeSlot::Missing;
        std::mem::swap(&mut slot, &mut self.tree);
        let (t, r) = slot.place(parent, name, rel);
        self.tree = t;
        r
    }
}

} // verus!
