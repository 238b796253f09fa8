//! Records newly created folders as `$path` entries in the `tree` of a
//! project description document.
mod doc;
mod json;
mod keyed;
mod laws;
mod paths;
mod reconcile;
mod tree;

pub use doc::{DocError, reads};
pub use json::{is_json, object_keys};
pub use keyed::{find_key, first_at, has_key, key_index, lookup, names, pairs, put, put_value};
pub use paths::{
    document_relative, document_relative_spec, file_name_of, opt_view, parent_of, path_diff,
    relative_path, relative_spec,
};
pub use reconcile::{
    Decision, Failure, Pending, begin, candidates_spec, chosen_parent, finish, folders_spec,
    new_folders, top_level_label,
};
pub use laws::{
    Step, entry_names, group_at, last_placed, law_missing_parent, law_missing_tree,
    law_parent_not_group, law_reinsert_idempotent, law_sequential, law_top_level, parents_fit,
    record_steps,
};
pub use tree::{
    Entry, EntryView, Leaf, LeafView, Outcome, Parent, Project, TreeSlot, TreeView, distinct,
    entries_wf, link_entry, placed,
};
