use vstd::prelude::*;
use crate::keyed::{
    has_key, key_index, lookup, put, lemma_first_at_unique, lemma_put_lookup, lemma_put_twice,
    lemma_update_lookup,
};
use crate::tree::{EntryView, LeafView, Outcome, TreeView, link_entry, placed};

verus! {

/// The names of the entries of a tree model.
pub open spec fn entry_names(es: Seq<(Seq<char>, EntryView)>) -> Seq<Seq<char>> {
    es.map_values(|e: (Seq<char>, EntryView)| e.0)
}

/// Recording the same folder under the same parent with the same relative
/// path a second time leaves the tree as the first time left it.
pub proof fn law_reinsert_idempotent(t: TreeView, parent: Option<Seq<char>>, name: Seq<char>, rel: Seq<char>)
    ensures
        placed(placed(t, parent, name, rel).0, parent, name, rel).0 == placed(t, parent, name, rel).0,
{
    if let TreeView::Entries(es) = t {
        let ks = entry_names(es);
        match parent {
            None => {
                lemma_put_twice(es, name, link_entry(rel));
            },
            Some(p) => {
                if !has_key(ks, p) {
                    let es1 = put(es, name, link_entry(rel));
                    lemma_put_twice(es, name, link_entry(rel));
                    lemma_put_lookup(es, name, link_entry(rel), p);
                    if has_key(entry_names(es1), p) {
                        // the new entry is the parent itself, and it is no group
                        assert(name == p);
                        assert(lookup(es1, p) == Some(link_entry(rel)));
                    }
                } else {
                    let i = key_index(ks, p);
                    if let EntryView::Group(ms) = es[i].1 {
                        let ms1 = put(ms, name, LeafView::Link(rel));
                        let es1 = es.update(i, (p, EntryView::Group(ms1)));
                        let ks1 = entry_names(es1);
                        assert(ks1 =~= ks);
                        lemma_first_at_unique(ks1, p, i, key_index(ks1, p));
                        lemma_put_twice(ms, name, LeafView::Link(rel));
                        assert(es1.update(i, (p, EntryView::Group(put(ms1, name, LeafView::Link(rel)))))
                            =~= es1);
                    }
                }
            },
        }
    }
}

/// Choosing the top level always records the folder directly under `tree`,
/// whatever else the tree holds; other entries keep their values.
pub proof fn law_top_level(es: Seq<(Seq<char>, EntryView)>, name: Seq<char>, rel: Seq<char>, other: Seq<char>)
    ensures
        placed(TreeView::Entries(es), None, name, rel) == (
            TreeView::Entries(put(es, name, link_entry(rel))),
            Outcome::AtTop,
        ),
        lookup(put(es, name, link_entry(rel)), name) == Some(link_entry(rel)),
        other != name ==> lookup(put(es, name, link_entry(rel)), other) == lookup(es, other),
{
    lemma_put_lookup(es, name, link_entry(rel), other);
}

/// A parent that is no longer in the tree sends the folder to the top level,
/// with a warning.
pub proof fn law_missing_parent(
    es: Seq<(Seq<char>, EntryView)>,
    parent: Seq<char>,
    name: Seq<char>,
    rel: Seq<char>,
)
    requires
        lookup(es, parent) is None,
    ensures
        placed(TreeView::Entries(es), Some(parent), name, rel) == (
            TreeView::Entries(put(es, name, link_entry(rel))),
            Outcome::ParentMissing,
        ),
        Outcome::ParentMissing.placed_spec(),
        Outcome::ParentMissing.warns_spec(),
        lookup(put(es, name, link_entry(rel)), name) == Some(link_entry(rel)),
{
    lemma_put_lookup(es, name, link_entry(rel), name);
}

/// A parent that is not a group receives nothing: the tree is unchanged and
/// a warning is given.
pub proof fn law_parent_not_group(
    es: Seq<(Seq<char>, EntryView)>,
    parent: Seq<char>,
    name: Seq<char>,
    rel: Seq<char>,
    leaf: LeafView,
)
    requires
        lookup(es, parent) == Some(EntryView::Item(leaf)),
    ensures
        placed(TreeView::Entries(es), Some(parent), name, rel) == (
            TreeView::Entries(es),
            Outcome::ParentNotGroup,
        ),
        !Outcome::ParentNotGroup.placed_spec(),
        Outcome::ParentNotGroup.warns_spec(),
{
}

/// A document without `tree` is never changed, and each attempt warns.
pub proof fn law_missing_tree(parent: Option<Seq<char>>, name: Seq<char>, rel: Seq<char>)
    ensures
        placed(TreeView::Missing, parent, name, rel) == (TreeView::Missing, Outcome::NoTree),
        !Outcome::NoTree.placed_spec(),
        Outcome::NoTree.warns_spec(),
{
}

/// The members of the group named `p`, when `p` names a group.
pub open spec fn group_at(es: Seq<(Seq<char>, EntryView)>, p: Seq<char>) -> Option<
    Seq<(Seq<char>, LeafView)>,
> {
    match lookup(es, p) {
        Some(EntryView::Group(ms)) => Some(ms),
        _ => None,
    }
}

/// A folder handled: the parent chosen (none: the top level), the folder's
/// name and its relative path.
pub type Step = (Option<Seq<char>>, Seq<char>, Seq<char>);

/// The entries after handling each of `steps`, one after another.
pub open spec fn record_steps(es: Seq<(Seq<char>, EntryView)>, steps: Seq<Step>) -> Seq<
    (Seq<char>, EntryView),
>
    decreases steps.len(),
{
    if steps.len() == 0 {
        es
    } else {
        let prev = record_steps(es, steps.drop_last());
        let s = steps.last();
        match placed(TreeView::Entries(prev), s.0, s.1, s.2).0 {
            TreeView::Entries(x) => x,
            _ => prev,
        }
    }
}

/// The relative path of the last step that placed name `k` under `parent`.
pub open spec fn last_placed(steps: Seq<Step>, parent: Option<Seq<char>>, k: Seq<char>) -> Option<
    Seq<char>,
>
    decreases steps.len(),
{
    if steps.len() == 0 {
        None
    } else if steps.last().0 == parent && steps.last().1 == k {
        Some(steps.last().2)
    } else {
        last_placed(steps.drop_last(), parent, k)
    }
}

/// Every parent chosen is a group of the tree, and no folder placed at the
/// top level takes the name of a chosen parent.
pub open spec fn parents_fit(es: Seq<(Seq<char>, EntryView)>, steps: Seq<Step>) -> bool {
    &&& forall|i: int|
        0 <= i < steps.len() && (#[trigger] steps[i]).0 is Some ==> group_at(es, steps[i].0.unwrap()) is Some
    &&& forall|i: int, j: int|
        0 <= i < steps.len() && 0 <= j < steps.len() && (#[trigger] steps[i]).0 is Some && (
        #[trigger] steps[j]).0 is None ==> steps[j].1 != steps[i].0.unwrap()
}

/// Folders handled one after another all end up in the tree: under each
/// place (the top level, or a chosen group) each name holds the path of the
/// last folder placed there under it, and everything else is as before.
pub proof fn law_sequential(es: Seq<(Seq<char>, EntryView)>, steps: Seq<Step>, p: Seq<char>, k: Seq<char>)
    requires
        parents_fit(es, steps),
    ensures
        (forall|i: int| 0 <= i < steps.len() ==> (#[trigger] steps[i]).0 != Some(k)) ==> lookup(
            record_steps(es, steps),
            k,
        ) == match last_placed(steps, None, k) {
            Some(rel) => Some(link_entry(rel)),
            None => lookup(es, k),
        },
        (exists|i: int| 0 <= i < steps.len() && (#[trigger] steps[i]).0 == Some(p)) ==> (group_at(
            record_steps(es, steps),
            p,
        ) is Some && lookup(group_at(record_steps(es, steps), p).unwrap(), k) == match last_placed(
            steps,
            Some(p),
            k,
        ) {
            Some(rel) => Some(LeafView::Link(rel)),
            None => lookup(group_at(es, p).unwrap(), k),
        }),
    decreases steps.len(),
{
    if exists|i: int| 0 <= i < steps.len() && (#[trigger] steps[i]).0 == Some(p) {
        let i = choose|i: int| 0 <= i < steps.len() && (#[trigger] steps[i]).0 == Some(p);
        assert(group_at(es, steps[i].0.unwrap()) is Some);
        assert forall|j: int| 0 <= j < steps.len() && (#[trigger] steps[j]).0 is None implies steps[j].1
            != p by {
            assert(steps[i].0 is Some);
        }
        lemma_sequential_groups(es, steps, p, k);
    }
    if steps.len() > 0 {
        let pre = steps.drop_last();
        let s = steps.last();
        let prev = record_steps(es, pre);
        assert forall|i: int| 0 <= i < pre.len() implies pre[i] == steps[i] by {}
        law_sequential(es, pre, p, k);
        if (forall|i: int| 0 <= i < steps.len() ==> (#[trigger] steps[i]).0 != Some(k)) {
            assert(steps[steps.len() - 1].0 != Some(k));
            match s.0 {
                None => {
                    lemma_put_lookup(prev, s.1, link_entry(s.2), k);
                },
                Some(q) => {
                    lemma_sequential_groups(es, pre, q, k);
                    lemma_group_present(prev, q);
                    lemma_update_lookup(
                        prev,
                        q,
                        EntryView::Group(put(group_at(prev, q).unwrap(), s.1, LeafView::Link(s.2))),
                        k,
                    );
                },
            }
        }
    }
}

proof fn lemma_group_present(es: Seq<(Seq<char>, EntryView)>, q: Seq<char>)
    requires
        group_at(es, q) is Some,
    ensures
        has_key(entry_names(es), q),
        es[key_index(entry_names(es), q)].1 == EntryView::Group(group_at(es, q).unwrap()),
{
}

/// The groups half of `law_sequential`: a chosen group stays a group and
/// holds, under each name, the last path placed there.
proof fn lemma_sequential_groups(es: Seq<(Seq<char>, EntryView)>, steps: Seq<Step>, p: Seq<char>, k: Seq<char>)
    requires
        parents_fit(es, steps),
        group_at(es, p) is Some,
        forall|j: int| 0 <= j < steps.len() ==> (#[trigger] steps[j]).0 is None ==> steps[j].1 != p,
    ensures
        group_at(record_steps(es, steps), p) is Some,
        lookup(group_at(record_steps(es, steps), p).unwrap(), k) == match last_placed(
            steps,
            Some(p),
            k,
        ) {
            Some(rel) => Some(LeafView::Link(rel)),
            None => lookup(group_at(es, p).unwrap(), k),
        },
    decreases steps.len(),
{
    if steps.len() > 0 {
        let pre = steps.drop_last();
        let s = steps.last();
        let prev = record_steps(es, pre);
        assert forall|i: int| 0 <= i < pre.len() implies pre[i] == steps[i] by {}
        assert(s == steps[steps.len() - 1]);
        lemma_sequential_groups(es, pre, p, k);
        match s.0 {
            None => {
                assert(s.1 != p);
                lemma_put_lookup(prev, s.1, link_entry(s.2), p);
            },
            Some(q) => {
                assert(group_at(es, q) is Some);
                assert forall|j: int| 0 <= j < pre.len() && (#[trigger] pre[j]).0 is None implies pre[j].1
                    != q by {
                    assert(pre[j] == steps[j]);
                    assert(steps[steps.len() - 1].0 is Some);
                }
                lemma_sequential_groups(es, pre, q, k);
                lemma_group_present(prev, q);
                let msq = group_at(prev, q).unwrap();
                let e = EntryView::Group(put(msq, s.1, LeafView::Link(s.2)));
                lemma_update_lookup(prev, q, e, p);
                if q == p {
                    lemma_put_lookup(msq, s.1, LeafView::Link(s.2), k);
                }
            },
        }
    }
}

} // verus!
