use rojo_folder_sync::{
    begin, document_relative, finish, new_folders, relative_path, Decision, DocError, Entry,
    Failure, Leaf, Outcome, Parent, Project, TreeSlot,
};
use serde_json::Value;

const DOC: &str = r#"{
  "name": "game",
  "tree": {
    "$className": "DataModel",
    "ReplicatedStorage": { "$className": "ReplicatedStorage", "Shared": { "$path": "src/shared" } },
    "Workspace": { "$path": "src/workspace", "$className": "Workspace" }
  }
}"#;

fn json(text: &str) -> Value {
    serde_json::from_str(text).unwrap()
}

fn saved_text(d: Decision) -> String {
    match d {
        Decision::Save(p, _) => p.render().unwrap(),
        other => panic!("expected a save, got {:?}", other),
    }
}

/// Handles one folder with a policy that returns the index to choose.
fn handle(text: &str, folder: &str, policy: &mut dyn FnMut(&[String]) -> Option<usize>) -> Decision {
    let pending = begin("/a/b/project.json", text, folder).unwrap();
    let choice = policy(&pending.candidates);
    finish(pending, choice)
}

fn top_level(c: &[String]) -> Option<usize> {
    Some(c.len() - 1)
}

#[test]
fn relative_path_inside_document_dir() {
    assert_eq!(document_relative("/a/b/project.json", "/a/b/src/widgets"), "src/widgets");
    assert_eq!(relative_path("/a/b", "/a/b/src/widgets"), "src/widgets");
}

#[test]
fn relative_path_to_sibling() {
    assert_eq!(document_relative("/a/b/project.json", "/a/other"), "../other");
    assert_eq!(relative_path("/a/b", "/a/other"), "../other");
}

#[test]
fn relative_path_falls_back_to_target() {
    // a relative target against an absolute base has no relative form
    assert_eq!(relative_path("/a/b", "x/y"), "x/y");
    // a document path without a directory part
    assert_eq!(document_relative("/", "/a/new"), "/a/new");
}

#[test]
fn candidates_list_entries_then_top_level() {
    let p = begin("/a/b/project.json", DOC, "/a/b/src/widgets").unwrap();
    assert_eq!(p.name, "widgets");
    assert_eq!(p.rel, "src/widgets");
    assert_eq!(
        p.candidates,
        vec!["$className", "ReplicatedStorage", "Workspace", "Root (top-level)"]
    );
}

#[test]
fn top_level_choice_creates_path_entry() {
    let text = saved_text(handle(DOC, "/a/b/src/widgets", &mut top_level));
    let v = json(&text);
    assert_eq!(v["tree"]["widgets"], json(r#"{ "$path": "src/widgets" }"#));
    assert_eq!(v["tree"]["Workspace"], json(DOC)["tree"]["Workspace"]);
    assert_eq!(v["name"], "game");
}

#[test]
fn top_level_choice_on_empty_tree() {
    let d = handle(r#"{ "tree": {} }"#, "/a/b/x", &mut top_level);
    assert_eq!(json(&saved_text(d)), json(r#"{ "tree": { "x": { "$path": "x" } } }"#));
}

#[test]
fn group_parent_receives_entry() {
    let d = handle(DOC, "/a/b/src/widgets", &mut |_| Some(1));
    match &d {
        Decision::Save(_, o) => assert_eq!(*o, Outcome::UnderParent),
        other => panic!("{:?}", other),
    }
    let v = json(&saved_text(d));
    assert_eq!(v["tree"]["ReplicatedStorage"]["widgets"], json(r#"{ "$path": "src/widgets" }"#));
    assert_eq!(v["tree"]["ReplicatedStorage"]["Shared"], json(r#"{ "$path": "src/shared" }"#));
    assert!(v["tree"].get("widgets").is_none());
}

#[test]
fn reinserting_is_idempotent() {
    let once = saved_text(handle(DOC, "/a/b/src/widgets", &mut |_| Some(1)));
    let twice = saved_text(handle(&once, "/a/b/src/widgets", &mut |_| Some(1)));
    assert_eq!(json(&once), json(&twice));
    let once = saved_text(handle(DOC, "/a/b/src/widgets", &mut top_level));
    let twice = saved_text(handle(&once, "/a/b/src/widgets", &mut top_level));
    assert_eq!(once, twice);
}

#[test]
fn missing_parent_falls_back_to_top_level() {
    let mut p = Project::parse(DOC).unwrap();
    let o = p.insert_entry(&Parent::Named("Gone".to_string()), "widgets".to_string(), "src/widgets".to_string());
    assert_eq!(o, Outcome::ParentMissing);
    assert!(o.warns());
    assert!(o.placed());
    let v = json(&p.render().unwrap());
    assert_eq!(v["tree"]["widgets"], json(r#"{ "$path": "src/widgets" }"#));
}

#[test]
fn leaf_parent_is_rejected() {
    let d = handle(DOC, "/a/b/src/widgets", &mut |_| Some(2));
    assert_eq!(d, Decision::Keep(Outcome::ParentNotGroup));
    let mut p = Project::parse(DOC).unwrap();
    let o = p.insert_entry(&Parent::Named("Workspace".to_string()), "w".to_string(), "w".to_string());
    assert_eq!(o, Outcome::ParentNotGroup);
    assert!(o.warns());
    assert_eq!(p, Project::parse(DOC).unwrap());
}

#[test]
fn non_object_value_is_not_a_group() {
    let d = handle(DOC, "/a/b/src/widgets", &mut |_| Some(0));
    assert_eq!(d, Decision::Keep(Outcome::ParentNotGroup));
}

#[test]
fn missing_tree_leaves_document_alone() {
    let text = r#"{ "name": "game" }"#;
    let p = begin("/a/b/project.json", text, "/a/b/new").unwrap();
    assert_eq!(p.candidates, vec!["Root (top-level)"]);
    assert_eq!(p.project.tree, TreeSlot::Missing);
    assert_eq!(finish(p, Some(0)), Decision::Keep(Outcome::NoTree));
    assert!(Outcome::NoTree.warns());
}

#[test]
fn tree_that_is_not_an_object_is_left_alone() {
    let p = begin("/a/b/project.json", r#"{ "tree": [1, 2] }"#, "/a/b/new").unwrap();
    assert_eq!(finish(p, Some(0)), Decision::Keep(Outcome::TreeNotObject));
}

#[test]
fn three_folders_in_sequence() {
    let mut calls = 0;
    let mut policy = |c: &[String]| {
        calls += 1;
        Some(c.len() - 1)
    };
    let mut text = DOC.to_string();
    for (folder, rel) in [("/a/b/one", "one"), ("/a/b/two", "two"), ("/a/x/one", "../x/one")] {
        text = saved_text(handle(&text, folder, &mut policy));
        assert_eq!(json(&text)["tree"]["one"]["$path"], if rel == "two" { "one" } else { rel });
    }
    assert_eq!(calls, 3);
    let v = json(&text);
    assert_eq!(v["tree"]["one"], json(r#"{ "$path": "../x/one" }"#));
    assert_eq!(v["tree"]["two"], json(r#"{ "$path": "two" }"#));
}

#[test]
fn cancelled_choice_changes_nothing() {
    let p = begin("/a/b/project.json", DOC, "/a/b/new").unwrap();
    assert_eq!(finish(p, None), Decision::Cancelled);
}

#[test]
fn choice_out_of_range() {
    let p = begin("/a/b/project.json", DOC, "/a/b/new").unwrap();
    assert_eq!(finish(p, Some(4)), Decision::OutOfRange);
}

#[test]
fn invalid_json_is_a_syntax_error() {
    assert_eq!(
        begin("/a/b/project.json", "{ \"tree\": ", "/a/b/new").unwrap_err(),
        Failure::Document(DocError::Syntax)
    );
    assert_eq!(Project::parse("").unwrap_err(), DocError::Syntax);
}

#[test]
fn non_object_document_is_rejected() {
    assert_eq!(
        begin("/a/b/project.json", "[1, 2]", "/a/b/new").unwrap_err(),
        Failure::Document(DocError::NotObject)
    );
}

#[test]
fn folder_without_name_is_rejected() {
    assert_eq!(begin("/a/b/project.json", DOC, "/a/b/..").unwrap_err(), Failure::NoFolderName);
}

#[test]
fn parse_reads_groups_and_items() {
    let p = Project::parse(DOC).unwrap();
    assert_eq!(p.entry_names(), vec!["$className", "ReplicatedStorage", "Workspace"]);
    match p.tree {
        TreeSlot::Entries(es) => {
            assert!(matches!(es[0].1, Entry::Item(Leaf::Raw(_))));
            match &es[1].1 {
                Entry::Group(ms) => {
                    let names: Vec<&str> = ms.iter().map(|m| m.0.as_str()).collect();
                    assert_eq!(names, vec!["$className", "Shared"]);
                }
                other => panic!("{:?}", other),
            }
            assert!(matches!(es[2].1, Entry::Item(Leaf::Raw(_))));
        }
        other => panic!("{:?}", other),
    }
}

#[test]
fn render_round_trips_and_is_pretty() {
    let text = Project::parse(DOC).unwrap().render().unwrap();
    assert_eq!(json(&text), json(DOC));
    assert!(text.contains("\n  \"tree\": {"));
}

#[test]
fn only_created_directories_are_reconciled() {
    let paths = vec![
        ("/w/a".to_string(), true),
        ("/w/f.txt".to_string(), false),
        ("/w/b".to_string(), true),
    ];
    assert_eq!(new_folders(true, paths.clone()), vec!["/w/a", "/w/b"]);
    assert!(new_folders(false, paths).is_empty());
}

#[test]
fn three_folders_under_groups_and_top_level() {
    // candidates: $className, ReplicatedStorage, Workspace, Root (top-level)
    let mut text = DOC.to_string();
    for (folder, index) in [("/a/b/lib", 1), ("/a/b/ui", 3), ("/a/c/lib", 1)] {
        text = saved_text(handle(&text, folder, &mut |_| Some(index)));
    }
    let v = json(&text);
    assert_eq!(v["tree"]["ReplicatedStorage"]["lib"], json(r#"{ "$path": "../c/lib" }"#));
    assert_eq!(v["tree"]["ReplicatedStorage"]["Shared"], json(r#"{ "$path": "src/shared" }"#));
    assert_eq!(v["tree"]["ui"], json(r#"{ "$path": "ui" }"#));
    assert!(v["tree"].get("lib").is_none());
    assert_eq!(v["tree"]["Workspace"], json(DOC)["tree"]["Workspace"]);
    assert_eq!(v["name"], "game");
}

#[test]
fn parse_keeps_members_beside_tree() {
    let p = Project::parse(r#"{ "b": 1, "tree": {}, "a": [true] }"#).unwrap();
    let names: Vec<&str> = p.fields.iter().map(|f| f.0.as_str()).collect();
    assert_eq!(names, vec!["a", "b"]);
    assert_eq!(p.tree, TreeSlot::Entries(vec![]));
}
