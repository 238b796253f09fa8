use vstd::prelude::*;
use crate::json::{
    close_object, is_json, object_keys, open_object, parse_object, parse_value, render_pretty,
    text_value,
};
use crate::keyed::{find_key, first_at, has_key, key_index, names};
use crate::tree::{Entry, Leaf, Project, TreeSlot, distinct, entries_wf};

verus! {

/// Why a document could not be read or written.
#[derive(Debug, Clone, Copy, PartialEq, Eq, Structural)]
pub enum DocError {
    /// The text is not valid JSON.
    Syntax,
    /// The JSON value is not an object.
    NotObject,
    /// The document could not be turned back into text.
    Render,
}

/// Members carried as they came, under the same names.
fn raw_members(ms: Vec<(String, serde_json::Value)>) -> (r: Vec<(String, Leaf)>)
    ensures
        names(r@) == names(ms@),
{
    let mut rest = ms;
    let mut out: Vec<(String, Leaf)> = Vec::new();
    while rest.len() > 0
        invariant
            names(out@) + names(rest@) == names(ms@),
        decreases rest.len(),
    {
        let ghost before = rest@;
        let (k, v) = rest.remove(0);
        out.push((k, Leaf::Raw(v)));
        assert(names(rest@) =~= names(before).drop_first());
        assert(names(out@) + names(rest@) =~= names(ms@));
    }
    assert(names(out@) =~= names(out@) + names(rest@));
    out
}

/// A top-level entry: an object without `$path` is a group, anything else is
/// carried as an item.
fn read_entry(v: serde_json::Value) -> (r: Entry)
    ensures
        r matches Entry::Group(ms) ==> distinct(names(ms@)) && !has_key(names(ms@), "$path"@),
{
    match open_object(v) {
        Err(w) => Entry::Item(Leaf::Raw(w)),
        Ok(ms) => {
            let path_key = "$path".to_owned();
            match find_key(&ms, &path_key) {
                Some(_) => Entry::Item(Leaf::Raw(close_object(ms))),
                None => Entry::Group(raw_members(ms)),
            }
        },
    }
}

fn read_tree(v: serde_json::Value) -> (r: TreeSlot)
    ensures
        !(r is Missing),
        r matches TreeSlot::Entries(es) ==> entries_wf(es@),
{
    match open_object(v) {
        Err(w) => TreeSlot::Other(w),
        Ok(ms) => {
            let mut rest = ms;
            let mut out: Vec<(String, Entry)> = Vec::new();
            let ghost all = rest@;
            assert(distinct(names(all)));
            while rest.len() > 0
                invariant
                    names(out@) + names(rest@) == names(all),
                    distinct(names(all)),
                    forall|i: int|
                        0 <= i < out@.len() ==> match #[trigger] out@[i].1 {
                            Entry::Group(ms) => distinct(names(ms@)) && !has_key(
                                names(ms@),
                                "$path"@,
                            ),
                            Entry::Item(_) => true,
                        },
                decreases rest.len(),
            {
                let ghost before = rest@;
                let (k, v) = rest.remove(0);
                let e = read_entry(v);
                out.push((k, e));
                assert(names(rest@) =~= names(before).drop_first());
                assert(names(out@) + names(rest@) =~= names(all));
            }
            assert(names(out@) =~= names(all));
            TreeSlot::Entries(out)
        },
    }
}

fn leaf_value(l: Leaf) -> serde_json::Value {
    match l {
        Leaf::Link(p) => close_object(vec![("$path".to_owned(), text_value(p))]),
        Leaf::Raw(v) => v,
    }
}

fn entry_value(e: Entry) -> serde_json::Value {
    match e {
        Entry::Item(l) => leaf_value(l),
        Entry::Group(ms) => {
            let mut rest = ms;
            let mut out: Vec<(String, serde_json::Value)> = Vec::new();
            while rest.len() > 0
                decreases rest.len(),
            {
                let (k, l) = rest.remove(0);
                out.push((k, leaf_value(l)));
            }
            close_object(out)
        },
    }
}

/// What a document read from `text` holds: it is well formed, its `tree` is
/// missing exactly when the object has no `tree` member, and its other
/// members are the object's members but `tree`, in the same order.
pub open spec fn reads(text: Seq<char>, p: Project) -> bool {
    let ks = object_keys(text).unwrap();
    &&& object_keys(text) is Some
    &&& p.wf()
    &&& (p.tree is Missing <==> !has_key(ks, "tree"@))
    &&& names(p.fields@) == if has_key(ks, "tree"@) {
        ks.remove(key_index(ks, "tree"@))
    } else {
        ks
    }
}

impl Project {
    /// Reads a project document from JSON text. It succeeds exactly when the
    /// text is a JSON object; other valid JSON gives `NotObject`, anything
    /// else `Syntax`.
    pub fn parse(text: &str) -> (r: Result<Project, DocError>)
        ensures
            r is Ok <==> object_keys(text@) is Some,
            r == Err::<Project, DocError>(DocError::Syntax) <==> object_keys(text@) is None
                && !is_json(text@),
            r == Err::<Project, DocError>(DocError::NotObject) <==> object_keys(text@) is None
                && is_json(text@),
            r matches Ok(p) ==> reads(text@, p),
    {
        let mut fields = match parse_object(text) {
            Ok(fields) => fields,
            Err(_) => {
                return match parse_value(text) {
                    Ok(_) => Err(DocError::NotObject),
                    Err(_) => Err(DocError::Syntax),
                };
            },
        };
        let ghost ks = names(fields@);
        assert(ks =~= fields@.map_values(|m: (String, serde_json::Value)| m.0@));
        let tree_key = "tree".to_owned();
        let tree = match find_key(&fields, &tree_key) {
            None => TreeSlot::Missing,
            Some(i) => {
                assert(key_index(ks, tree_key@) == i);
                let ghost before = names(fields@);
                let (_, t) = fields.remove(i);
                proof {
                    let after = names(fields@);
                    assert(after =~= before.remove(i as int));
                    assert forall|j: int| 0 <= j < after.len() implies after[j] != tree_key@ by {
                        if j < i {
                            assert(after[j] == before[j]);
                        } else {
                            assert(after[j] == before[j + 1]);
                        }
                    }
                    if has_key(after, tree_key@) {
                        let j = choose|j: int| first_at(after, tree_key@, j);
                        assert(after[j] == tree_key@);
                    }
                    assert forall|a: int, b: int| 0 <= a < b < after.len() implies after[a]
                        != after[b] by {
                        let a2 = if a < i { a } else { a + 1 };
                        let b2 = if b < i { b } else { b + 1 };
                        assert(after[a] == before[a2] && after[b] == before[b2]);
                    }
                }
                read_tree(t)
            },
        };
        Ok(Project { fields, tree })
    }

    /// The document as pretty-printed JSON text; serializing never fails.
    pub fn render(self) -> (r: Result<String, DocError>)
        ensures
            r is Ok,
    {
        let Project { fields, tree } = self;
        let mut all = fields;
        match tree {
            TreeSlot::Missing => {},
            TreeSlot::Other(v) => {
                all.push(("tree".to_owned(), v));
            },
            TreeSlot::Entries(es) => {
                let mut rest = es;
                let mut out: Vec<(String, serde_json::Value)> = Vec::new();
                while rest.len() > 0
                    decreases rest.len(),
                {
                    let (k, e) = rest.remove(0);
                    out.push((k, entry_value(e)));
                }
                all.push(("tree".to_owned(), close_object(out)));
            },
        }
        match render_pretty(&close_object(all)) {
            Ok(s) => Ok(s),
            Err(_) => Err(DocError::Render),
        }
    }

    /// The names of the top-level entries of `tree`, in the order the document
    /// holds them (sorted by name, as serde_json's map keeps members);
    /// none when `tree` is missing or not an object.
    pub fn entry_names(&self) -> (r: Vec<String>)
        ensures
            r@.map_values(|s: String| s@) == match self.tree {
                TreeSlot::Entries(es) => names(es@),
                _ => Seq::<Seq<char>>::empty(),
            },
    {
        let mut out: Vec<String> = Vec::new();
        match &self.tree {
            TreeSlot::Entries(es) => {
                let mut i: usize = 0;
                while i < es.len()
                    invariant
                        i <= es.len(),
                        out@.len() == i,
                        forall|j: int| 0 <= j < i ==> out@[j]@ == #[trigger] es@[j].0@,
                    decreases es.len() - i,
                {
                    out.push(es[i].0.clone());
                    i = i + 1;
                }
                assert(out@.map_values(|s: String| s@) =~= names(es@));
            },
            _ => {
                assert(out@.map_values(|s: String| s@) =~= Seq::<Seq<char>>::empty());
            },
        }
        out
    }
}

} // verus!
