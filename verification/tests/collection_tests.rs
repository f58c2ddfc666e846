use panda::collection::{
    build_collection_forest, collection_dir, create_collection_plan, locate_config,
    normalise_path, same_structure, FsEntry, PandaCollection, WriteAction,
};
use panda::demo::get_demo_collection;

fn file_entry(depth: usize, name: &str, path: &str, content: &str) -> FsEntry {
    FsEntry {
        depth,
        name: name.to_string(),
        path: path.to_string(),
        content: Some(content.to_string()),
    }
}

fn dir_entry(depth: usize, name: &str, path: &str) -> FsEntry {
    FsEntry { depth, name: name.to_string(), path: path.to_string(), content: None }
}

fn sample_events() -> Vec<Result<FsEntry, String>> {
    vec![
        Ok(file_entry(1, "a.toml", "root/a.toml", "X")),
        Ok(dir_entry(1, "b", "root/b")),
        Ok(file_entry(2, "c.toml", "root/b/c.toml", "Y")),
    ]
}

#[test]
fn normalise_path_folds_backslashes() {
    assert_eq!(normalise_path("a\\b\\c".to_string()), "a/b/c");
    assert_eq!(normalise_path("a\\\\b".to_string()), "a/b");
    assert_eq!(normalise_path("a/b".to_string()), "a/b");
    assert_eq!(normalise_path("".to_string()), "");
}

#[test]
fn tree_builder_materializes_files_and_folders() {
    let forest = build_collection_forest(sample_events()).unwrap();
    assert_eq!(forest.len(), 2);

    let a = &forest[0];
    assert_eq!(a.name, "a.toml");
    assert_eq!(a.path, "root/a.toml");
    assert_eq!(a.item_type, "file");
    assert!(a.is_selectable);
    assert_eq!(a.content.as_ref().unwrap().as_str(), "X");
    assert!(a.children.is_none());

    let b = &forest[1];
    assert_eq!(b.name, "b");
    assert_eq!(b.item_type, "folder");
    assert!(b.content.is_none());
    let kids = b.children.as_ref().unwrap();
    assert_eq!(kids.len(), 1);
    assert_eq!(kids[0].name, "c.toml");
    assert_eq!(kids[0].item_type, "file");
    assert_eq!(kids[0].content.as_ref().unwrap().as_str(), "Y");
}

#[test]
fn tree_builder_normalizes_entry_paths() {
    let events = vec![Ok(file_entry(1, "a.toml", "root\\a.toml", "X"))];
    let forest = build_collection_forest(events).unwrap();
    assert_eq!(forest[0].path, "root/a.toml");
}

#[test]
fn tree_builder_identifiers_are_fresh_uuids() {
    let forest = build_collection_forest(sample_events()).unwrap();
    assert_eq!(forest[0].id.len(), 36);
    assert_eq!(forest[1].id.len(), 36);
    assert!(forest[0].id != forest[1].id);
}

#[test]
fn walk_failure_aborts_the_whole_build() {
    let events = vec![
        Ok(file_entry(1, "a.toml", "root/a.toml", "X")),
        Err("Failed to read collection: \"root/b\"".to_string()),
    ];
    let err = build_collection_forest(events).unwrap_err();
    assert_eq!(err, "Failed to read collection: \"root/b\"");
}

#[test]
fn missing_root_is_an_error_not_an_empty_success() {
    let events = vec![Err("Failed to read collection: \"no/such/dir\"".to_string())];
    let err = build_collection_forest(events).unwrap_err();
    assert_eq!(err, "Failed to read collection: \"no/such/dir\"");
}

#[test]
fn malformed_listing_is_rejected() {
    let events = vec![Ok(file_entry(2, "a.toml", "root/a.toml", "X"))];
    let err = build_collection_forest(events).unwrap_err();
    assert_eq!(err, "Invalid collection listing.");
}

#[test]
fn tree_builder_is_idempotent_up_to_identifiers() {
    let first = build_collection_forest(sample_events()).unwrap();
    let second = build_collection_forest(sample_events()).unwrap();
    assert_eq!(first.len(), second.len());
    for i in 0..first.len() {
        assert!(same_structure(&first[i], &second[i]));
    }
}

#[test]
fn same_structure_sees_content_changes() {
    let first = build_collection_forest(sample_events()).unwrap();
    let changed = build_collection_forest(vec![
        Ok(file_entry(1, "a.toml", "root/a.toml", "CHANGED")),
        Ok(dir_entry(1, "b", "root/b")),
        Ok(file_entry(2, "c.toml", "root/b/c.toml", "Y")),
    ])
    .unwrap();
    assert!(!same_structure(&first[0], &changed[0]));
    assert!(same_structure(&first[1], &changed[1]));
}

#[test]
fn empty_listing_gives_empty_forest() {
    let forest = build_collection_forest(Vec::new()).unwrap();
    assert_eq!(forest.len(), 0);
}

#[test]
fn write_plan_lists_directories_then_files() {
    let forest = build_collection_forest(sample_events()).unwrap();
    let plan = create_collection_plan(&forest, &"out".to_string());
    assert_eq!(plan.len(), 5);
    match &plan[0] {
        WriteAction::MakeDir(p) => assert_eq!(p, "out"),
        _ => panic!("expected the file's parent directory first"),
    }
    match &plan[1] {
        WriteAction::WriteFile(p, c) => {
            assert_eq!(p, "out/a.toml");
            assert_eq!(c, "X");
        },
        _ => panic!("expected the file write"),
    }
    match &plan[2] {
        WriteAction::MakeDir(p) => assert_eq!(p, "out/b"),
        _ => panic!("expected the folder directory"),
    }
    match &plan[3] {
        WriteAction::MakeDir(p) => assert_eq!(p, "out/b"),
        _ => panic!("expected the nested file's parent directory"),
    }
    match &plan[4] {
        WriteAction::WriteFile(p, c) => {
            assert_eq!(p, "out/b/c.toml");
            assert_eq!(c, "Y");
        },
        _ => panic!("expected the nested file write"),
    }
}

#[test]
fn locate_config_rejects_an_empty_path() {
    let err = locate_config("".to_string()).unwrap_err();
    assert_eq!(err, "You provided an empty string for cwd.");
}

#[test]
fn locate_config_accepts_the_config_file_itself() {
    let loc = locate_config("proj/sub/panda.config.json".to_string()).unwrap();
    assert_eq!(loc.config_file, "proj/sub/panda.config.json");
    assert_eq!(loc.project_root, "proj/sub");
}

#[test]
fn locate_config_is_case_insensitive_on_the_file_name() {
    let loc = locate_config("proj/PANDA.Config.JSON".to_string()).unwrap();
    assert_eq!(loc.config_file, "proj/PANDA.Config.JSON");
    assert_eq!(loc.project_root, "proj");
}

#[test]
fn locate_config_treats_other_paths_as_the_project_root() {
    let loc = locate_config("proj".to_string()).unwrap();
    assert_eq!(loc.config_file, "proj/panda.config.json");
    assert_eq!(loc.project_root, "proj");
}

#[test]
fn locate_config_normalizes_backslashes() {
    let loc = locate_config("C:\\Users\\me\\proj".to_string()).unwrap();
    assert_eq!(loc.config_file, "C:/Users/me/proj/panda.config.json");
    assert_eq!(loc.project_root, "C:/Users/me/proj");
}

#[test]
fn collection_dir_joins_and_normalizes() {
    assert_eq!(
        collection_dir(&"root".to_string(), &"collection".to_string()),
        "root/collection"
    );
    assert_eq!(
        collection_dir(&"C:\\proj".to_string(), &"reqs".to_string()),
        "C:/proj/reqs"
    );
}

#[test]
fn demo_collection_has_the_expected_layout() {
    let demo = get_demo_collection();
    assert_eq!(demo.len(), 1);
    let root = &demo[0];
    assert_eq!(root.name, "collection");
    assert_eq!(root.item_type, "folder");
    assert!(!root.is_selectable);
    let kids = root.children.as_ref().unwrap();
    assert_eq!(kids.len(), 4);
    assert_eq!(kids[0].name, "get_products.toml");
    assert_eq!(kids[1].name, "get_user.toml");
    assert_eq!(kids[2].name, "transactions");
    assert_eq!(kids[3].name, "delayed_request.toml");
    let tx = kids[2].children.as_ref().unwrap();
    assert_eq!(tx.len(), 3);
    assert_eq!(tx[0].name, "delete_transactions.toml");
    assert!(kids[0]
        .content
        .as_ref()
        .unwrap()
        .contains("url = \"https://fakestoreapi.com/products\""));
}

#[test]
fn demo_collection_schemas_interpolate_and_build() {
    let demo = get_demo_collection();
    let kids = demo[0].children.as_ref().unwrap();
    let schema_text = kids[0].content.as_ref().unwrap();
    let vars =
        panda::interp::variables_to_hashmap("{\"auth_token\": \"token123\"}").unwrap();
    let interpolated = panda::interp::replace_variables(schema_text, &vars);
    assert!(interpolated.contains("Bearer token123"));
    assert!(!interpolated.contains("_.auth_token"));
}

#[test]
fn folder_and_file_are_never_structurally_equal() {
    let forest = build_collection_forest(sample_events()).unwrap();
    assert!(!same_structure(&forest[0], &forest[1]));
}

fn leaf(name: &str) -> PandaCollection {
    PandaCollection {
        id: "x".to_string(),
        name: name.to_string(),
        path: name.to_string(),
        content: Some("".to_string()),
        children: None,
        is_selectable: true,
        item_type: "file".to_string(),
    }
}

#[test]
fn write_plan_of_a_bare_file_touches_the_parent() {
    let nodes = vec![leaf("solo.toml")];
    let plan = create_collection_plan(&nodes, &"base".to_string());
    assert_eq!(plan.len(), 2);
    match &plan[0] {
        WriteAction::MakeDir(p) => assert_eq!(p, "base"),
        _ => panic!("expected the parent directory"),
    }
    match &plan[1] {
        WriteAction::WriteFile(p, c) => {
            assert_eq!(p, "base/solo.toml");
            assert_eq!(c, "");
        },
        _ => panic!("expected the file write"),
    }
}
