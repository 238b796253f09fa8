use vstd::prelude::*;
use crate::doc::{DocError, reads};
use crate::json::{is_json, object_keys};
use crate::paths::{document_relative, document_relative_spec, file_name, file_name_of};
use crate::tree::{Outcome, Parent, Project, TreeSlot, placed};
use crate::keyed::names;

verus! {

/// The label of the choice that places a folder at the top level.
pub open spec fn top_level_label() -> Seq<char> {
    "Root (top-level)"@
}

/// The names offered as parents: every top-level entry, then the top level.
pub open spec fn candidates_spec(t: TreeSlot) -> Seq<Seq<char>> {
    match t {
        TreeSlot::Entries(es) => names(es@),
        _ => Seq::<Seq<char>>::empty(),
    }.push(top_level_label())
}

/// A folder waiting for its parent to be chosen.
#[derive(Debug, PartialEq)]
pub struct Pending {
    /// The document as it was read for this folder.
    pub project: Project,
    /// The folder's own name: the name of the new entry.
    pub name: String,
    /// The folder's path relative to the document's directory.
    pub rel: String,
    /// The choices offered, the top level last.
    pub candidates: Vec<String>,
}

/// Why a folder could not be taken up.
#[derive(Debug, Clone, Copy, PartialEq, Eq, Structural)]
pub enum Failure {
    /// The document could not be read.
    Document(DocError),
    /// The folder's path has no final component.
    NoFolderName,
}

/// Reads the document and prepares the choice of a parent for `folder`.
pub fn begin(document: &str, text: &str, folder: &str) -> (r: Result<Pending, Failure>)
    ensures
        r == Err::<Pending, Failure>(Failure::Document(DocError::Syntax)) <==> object_keys(
            text@,
        ) is None && !is_json(text@),
        r == Err::<Pending, Failure>(Failure::Document(DocError::NotObject)) <==> object_keys(
            text@,
        ) is None && is_json(text@),
        r == Err::<Pending, Failure>(Failure::NoFolderName) <==> object_keys(text@) is Some
            && file_name_of(folder@) is None,
        r is Ok <==> object_keys(text@) is Some && file_name_of(folder@) is Some,
        r matches Ok(p) ==> {
            &&& reads(text@, p.project)
            &&& file_name_of(folder@) == Some(p.name@)
            &&& p.rel@ == document_relative_spec(document@, folder@)
            &&& p.candidates@.map_values(|s: String| s@) == candidates_spec(p.project.tree)
        },
{
    let project = match Project::parse(text) {
        Ok(p) => p,
        Err(e) => return Err(Failure::Document(e)),
    };
    let rel = document_relative(document, folder);
    let name = match file_name(folder) {
        Some(n) => n,
        None => return Err(Failure::NoFolderName),
    };
    let mut candidates = project.entry_names();
    candidates.push("Root (top-level)".to_owned());
    proof {
        reveal_strlit("Root (top-level)");
    }
    assert(candidates@.map_values(|s: String| s@) =~= candidates_spec(project.tree));
    Ok(Pending { project, name, rel, candidates })
}

/// The parent that choice `index` among `candidates` stands for: the last
/// candidate is the top level, any other one the entry of that name.
pub open spec fn chosen_parent(candidates: Seq<Seq<char>>, index: int) -> Option<Seq<char>> {
    if index == candidates.len() - 1 {
        None
    } else {
        Some(candidates[index])
    }
}

/// What to do once a parent was chosen, or the choice was given up.
#[derive(Debug, PartialEq)]
pub enum Decision {
    /// Write the document back: the folder was placed.
    Save(Project, Outcome),
    /// Leave the document as it is.
    Keep(Outcome),
    /// The choice was given up: leave the document as it is.
    Cancelled,
    /// The choice is not among the candidates: leave the document as it is.
    OutOfRange,
}

/// Places the pending folder under the candidate at `choice` (none: the
/// operator gave up).
pub fn finish(pending: Pending, choice: Option<usize>) -> (r: Decision)
    ensures
        match choice {
            None => r == Decision::Cancelled,
            Some(i) => if i >= pending.candidates@.len() {
                r == Decision::OutOfRange
            } else {
                let (t, o) = placed(
                    pending.project.tree@,
                    chosen_parent(pending.candidates@.map_values(|s: String| s@), i as int),
                    pending.name@,
                    pending.rel@,
                );
                if o.placed_spec() {
                    (r matches Decision::Save(p, o2) && o2 == o && p.tree@ == t && p.fields
                        == pending.project.fields)
                } else {
                    r == Decision::Keep(o)
                }
            },
        },
{
    let Pending { mut project, name, rel, candidates } = pending;
    let i = match choice {
        None => return Decision::Cancelled,
        Some(i) => i,
    };
    if i >= candidates.len() {
        return Decision::OutOfRange;
    }
    let parent = if i == candidates.len() - 1 {
        Parent::Top
    } else {
        Parent::Named(candidates[i].clone())
    };
    let outcome = project.insert_entry(&parent, name, rel);
    if outcome.placed() {
        Decision::Save(project, outcome)
    } else {
        Decision::Keep(outcome)
    }
}

/// The paths of a watcher event that call for a reconciliation: for a
/// creation, those that are directories, in order; for any other event, none.
pub open spec fn folders_spec(created: bool, paths: Seq<(String, bool)>) -> Seq<Seq<char>>
    decreases paths.len(),
{
    if !created || paths.len() == 0 {
        Seq::empty()
    } else {
        let rest = folders_spec(created, paths.drop_last());
        if paths.last().1 {
            rest.push(paths.last().0@)
        } else {
            rest
        }
    }
}

/// Picks out of a watcher event the new folders to reconcile; each path comes
/// with whether it is a directory.
pub fn new_folders(created: bool, paths: Vec<(String, bool)>) -> (r: Vec<String>)
    ensures
        r@.map_values(|s: String| s@) == folders_spec(created, paths@),
{
    let mut out: Vec<String> = Vec::new();
    if !created {
        assert(out@.map_values(|s: String| s@) =~= folders_spec(created, paths@));
        return out;
    }
    let mut rest = paths;
    let ghost all = rest@;
    let n = rest.len();
    let mut i: usize = 0;
    while rest.len() > 0
        invariant
            created,
            n == all.len(),
            i + rest@.len() == all.len(),
            rest@ == all.subrange(i as int, all.len() as int),
            out@.map_values(|s: String| s@) == folders_spec(created, all.take(i as int)),
        decreases rest.len(),
    {
        let ghost before = out@;
        let ghost t = all.take(i + 1);
        assert(rest@[0] == all[i as int]);
        let (p, is_dir) = rest.remove(0);
        assert(t.drop_last() =~= all.take(i as int));
        assert(t.last() == all[i as int]);
        assert(t.len() > 0);
        if is_dir {
            out.push(p);
            assert(out@.map_values(|s: String| s@) =~= before.map_values(|s: String| s@).push(
                all[i as int].0@,
            ));
        }
        i = i + 1;
        assert(rest@ =~= all.subrange(i as int, all.len() as int));
    }
    assert(all.take(i as int) =~= all);
    out
}

} // verus!
