use snapfilething::error::AppError;
use snapfilething::services::folder_manager::{FileMetadata, FolderManager, FolderMetadata};
use snapfilething::utils::clock::Timestamp;

fn stamp(secs: i64) -> Timestamp {
    Timestamp { secs, nanos: 0 }
}

fn folder(id: &str, name: &str, parent: Option<&str>) -> FolderMetadata {
    FolderMetadata {
        id: id.to_string(),
        name: name.to_string(),
        parent_id: parent.map(|p| p.to_string()),
        created_at: stamp(1),
    }
}

fn file(name: &str, folder: Option<&str>, size: u64) -> FileMetadata {
    FileMetadata {
        filename: name.to_string(),
        folder_id: folder.map(|p| p.to_string()),
        uploaded_at: stamp(2),
        size,
    }
}

#[test]
fn move_into_own_subtree_is_rejected() {
    let mut store = FolderManager::new("uploads");
    let f1 = store.create_folder("Invoices", None).unwrap();
    let f2 = store.create_folder("2024", Some(f1.id.clone())).unwrap();
    let res = store.move_folder(&f1.id, Some(f2.id.clone()));
    assert!(matches!(res, Err(AppError::InvalidOperation(_))));
    assert!(store.move_folder(&f2.id, None).is_ok());
    let info = store.get_folder_info(&f2.id).unwrap();
    assert_eq!(info.parent_id, None);
}

#[test]
fn folder_with_file_cannot_be_deleted() {
    let mut store = FolderManager::new("uploads");
    let f1 = store.create_folder("Invoices", None).unwrap();
    store.assign_file_to_folder("a.png", Some(f1.id.clone()), 1024).unwrap();
    assert!(matches!(store.delete_folder(&f1.id), Err(AppError::Conflict(_))));
    store.remove_file_metadata("a.png");
    assert!(store.delete_folder(&f1.id).is_ok());
    assert!(matches!(store.get_folder_info(&f1.id), Err(AppError::NotFound(_))));
}

#[test]
fn new_store_is_empty() {
    let store = FolderManager::new("uploads");
    assert_eq!(store.upload_dir(), "uploads");
    assert!(store.load_folder_metadata().is_empty());
    assert!(store.load_file_metadata().is_empty());
    let listing = store.list_folder_contents(None).unwrap();
    assert!(listing.folders.is_empty());
    assert!(listing.current_folder.is_none());
    assert!(listing.breadcrumbs.is_empty());
}

#[test]
fn create_folder_returns_an_empty_summary() {
    let mut store = FolderManager::new("uploads");
    let info = store
        .create_folder_as("F1".to_string(), stamp(77), "Invoices", None)
        .unwrap();
    assert_eq!(info.id, "F1");
    assert_eq!(info.name, "Invoices");
    assert_eq!(info.parent_id, None);
    assert_eq!(info.created_at, stamp(77));
    assert_eq!(info.file_count, 0);
    assert_eq!(info.folder_count, 0);
    assert_eq!(info.size, 0);
    let rows = store.load_folder_metadata();
    assert_eq!(rows.len(), 1);
    assert_eq!(rows[0].id, "F1");
    assert_eq!(rows[0].name, "Invoices");
    assert_eq!(rows[0].created_at, stamp(77));
}

#[test]
fn create_folder_under_missing_parent_is_not_found() {
    let mut store = FolderManager::new("uploads");
    let res = store.create_folder("a", Some("nope".to_string()));
    assert!(matches!(res, Err(AppError::NotFound(_))));
    assert!(store.load_folder_metadata().is_empty());
}

#[test]
fn create_folder_twice_conflicts() {
    let mut store = FolderManager::new("uploads");
    let f1 = store.create_folder("Invoices", None).unwrap();
    assert!(matches!(store.create_folder("Invoices", None), Err(AppError::Conflict(_))));
    store.create_folder("2024", Some(f1.id.clone())).unwrap();
    let res = store.create_folder("2024", Some(f1.id.clone()));
    assert!(matches!(res, Err(AppError::Conflict(_))));
    assert_eq!(store.load_folder_metadata().len(), 2);
}

#[test]
fn same_name_under_different_parents_is_fine() {
    let mut store = FolderManager::new("uploads");
    let a = store.create_folder("a", None).unwrap();
    let b = store.create_folder("b", None).unwrap();
    assert!(store.create_folder("x", Some(a.id.clone())).is_ok());
    assert!(store.create_folder("x", Some(b.id.clone())).is_ok());
    assert!(store.create_folder("x", None).is_ok());
}

#[test]
fn names_are_case_sensitive() {
    let mut store = FolderManager::new("uploads");
    store.create_folder("docs", None).unwrap();
    assert!(store.create_folder("Docs", None).is_ok());
}

#[test]
fn create_folder_with_used_id_is_internal() {
    let mut store = FolderManager::new("uploads");
    store.create_folder_as("F1".to_string(), stamp(1), "a", None).unwrap();
    let res = store.create_folder_as("F1".to_string(), stamp(1), "b", None);
    assert!(matches!(res, Err(AppError::Internal(_))));
    let res = store.create_folder_as("F1".to_string(), stamp(1), "a", None);
    assert!(matches!(res, Err(AppError::Conflict(_))));
}

#[test]
fn create_folder_with_an_id_that_a_folder_names_as_parent_is_internal() {
    let rows = vec![folder("A", "a", Some("X")), folder("B", "b", Some("A"))];
    let mut store = FolderManager::from_tables("uploads", rows, Vec::new()).unwrap();
    let res = store.create_folder_as("X".to_string(), stamp(1), "x", Some("B".to_string()));
    assert!(matches!(res, Err(AppError::Internal(_))));
    let res = store.create_folder_as("X".to_string(), stamp(1), "x", None);
    assert!(matches!(res, Err(AppError::Internal(_))));
    assert_eq!(store.load_folder_metadata().len(), 2);
    let made = store.create_folder_as("Y".to_string(), stamp(1), "y", Some("B".to_string()));
    assert_eq!(made.unwrap().parent_id, Some("B".to_string()));
    assert!(store.move_folder("A", Some("Y".to_string())).is_err());
    assert!(store.move_folder("A", None).is_ok());
    assert!(store.move_folder("A", Some("Y".to_string())).is_err());
    assert!(store.move_folder("Y", Some("A".to_string())).is_ok());
}

#[test]
fn create_in_an_empty_store_succeeds() {
    let mut store = FolderManager::new("uploads");
    let s1 = store.create_folder("Invoices", None).unwrap();
    assert_eq!(s1.name, "Invoices");
    assert_eq!(s1.parent_id, None);
    assert_eq!((s1.file_count, s1.folder_count, s1.size), (0, 0, 0));
    let s2 = store.create_folder("2024", Some(s1.id.clone())).unwrap();
    assert_eq!(s2.parent_id, Some(s1.id.clone()));
    assert_ne!(s2.id, s1.id);
}

#[test]
fn fresh_ids_differ() {
    let mut store = FolderManager::new("uploads");
    let a = store.create_folder("a", None).unwrap();
    let b = store.create_folder("b", None).unwrap();
    assert_ne!(a.id, b.id);
    assert_eq!(a.id.len(), 36);
}

#[test]
fn delete_missing_folder_is_not_found() {
    let mut store = FolderManager::new("uploads");
    assert!(matches!(store.delete_folder("nope"), Err(AppError::NotFound(_))));
}

#[test]
fn delete_folder_with_subfolder_conflicts() {
    let mut store = FolderManager::new("uploads");
    let a = store.create_folder("a", None).unwrap();
    let b = store.create_folder("b", Some(a.id.clone())).unwrap();
    assert!(matches!(store.delete_folder(&a.id), Err(AppError::Conflict(_))));
    assert!(store.delete_folder(&b.id).is_ok());
    assert!(store.delete_folder(&a.id).is_ok());
    assert!(store.load_folder_metadata().is_empty());
    assert!(matches!(store.delete_folder(&a.id), Err(AppError::NotFound(_))));
}

#[test]
fn move_folder_errors() {
    let mut store = FolderManager::new("uploads");
    let a = store.create_folder("a", None).unwrap();
    let b = store.create_folder("b", None).unwrap();
    assert!(matches!(store.move_folder("nope", None), Err(AppError::NotFound(_))));
    assert!(matches!(
        store.move_folder(&a.id, Some("nope".to_string())),
        Err(AppError::NotFound(_))
    ));
    assert!(matches!(
        store.move_folder(&a.id, Some(a.id.clone())),
        Err(AppError::InvalidOperation(_))
    ));
    let inner = store.create_folder("a", Some(b.id.clone())).unwrap();
    assert!(matches!(
        store.move_folder(&a.id, Some(b.id.clone())),
        Err(AppError::Conflict(_))
    ));
    assert!(matches!(store.move_folder(&inner.id, None), Err(AppError::Conflict(_))));
    let rows = store.load_folder_metadata();
    assert_eq!(rows[0].parent_id, None);
    assert_eq!(rows[2].parent_id, Some(b.id.clone()));
}

#[test]
fn move_folder_to_where_it_is_succeeds() {
    let mut store = FolderManager::new("uploads");
    let a = store.create_folder("a", None).unwrap();
    let b = store.create_folder("b", Some(a.id.clone())).unwrap();
    assert!(store.move_folder(&b.id, Some(a.id.clone())).is_ok());
    assert!(store.move_folder(&a.id, None).is_ok());
}

#[test]
fn cycle_check_comes_before_name_check() {
    let mut store = FolderManager::new("uploads");
    let a = store.create_folder("a", None).unwrap();
    let b = store.create_folder("b", Some(a.id.clone())).unwrap();
    store.create_folder("a", Some(b.id.clone())).unwrap();
    assert!(matches!(
        store.move_folder(&a.id, Some(b.id.clone())),
        Err(AppError::InvalidOperation(_))
    ));
}

#[test]
fn move_into_deep_descendant_is_rejected() {
    let mut store = FolderManager::new("uploads");
    let mut ids = Vec::new();
    let mut parent: Option<String> = None;
    for i in 0..12 {
        let info = store.create_folder(&format!("d{}", i), parent.clone()).unwrap();
        parent = Some(info.id.clone());
        ids.push(info.id);
    }
    for deep in 0..12 {
        let res = store.move_folder(&ids[0], Some(ids[deep].clone()));
        assert!(matches!(res, Err(AppError::InvalidOperation(_))));
    }
    assert!(store.move_folder(&ids[11], Some(ids[0].clone())).is_ok());
    assert!(store.move_folder(&ids[5], None).is_ok());
    assert!(store.move_folder(&ids[0], Some(ids[10].clone())).is_ok());
    let crumbs = store.list_folder_contents(Some(ids[4].clone())).unwrap().breadcrumbs;
    let names: Vec<&str> = crumbs.iter().map(|c| c.name.as_str()).collect();
    assert_eq!(
        names,
        vec!["d5", "d6", "d7", "d8", "d9", "d10", "d0", "d1", "d2", "d3", "d4"]
    );
}

#[test]
fn no_sequence_of_moves_makes_a_cycle() {
    let mut store = FolderManager::new("uploads");
    let mut ids = Vec::new();
    for i in 0..6 {
        ids.push(store.create_folder(&format!("n{}", i), None).unwrap().id);
    }
    let mut seed: usize = 7;
    for _ in 0..400 {
        seed = (seed * 31 + 11) % 1009;
        let a = seed % 6;
        let b = (seed / 6) % 7;
        let target = if b == 6 { None } else { Some(ids[b].clone()) };
        let _ = store.move_folder(&ids[a], target);
        assert!(store.is_consistent());
        for id in &ids {
            let crumbs = store.list_folder_contents(Some(id.clone())).unwrap().breadcrumbs;
            assert!(crumbs.len() <= 6);
            assert_eq!(crumbs[0].parent_id, None);
            assert_eq!(&crumbs[crumbs.len() - 1].id, id);
            for pair in crumbs.windows(2) {
                assert_eq!(pair[1].parent_id.as_ref(), Some(&pair[0].id));
            }
        }
    }
}

#[test]
fn bounded_walk_ends_on_a_table_with_a_cycle() {
    let rows = vec![
        folder("a", "a", Some("b")),
        folder("b", "b", Some("a")),
        folder("c", "c", None),
    ];
    let mut store = FolderManager::from_tables("uploads", rows, Vec::new()).unwrap();
    assert!(store.move_folder("c", Some("a".to_string())).is_ok());
    let crumbs = store.list_folder_contents(Some("a".to_string())).unwrap().breadcrumbs;
    assert_eq!(crumbs.len(), 3);
    assert!(matches!(
        store.move_folder("a", Some("b".to_string())),
        Err(AppError::InvalidOperation(_))
    ));
}

#[test]
fn from_tables_rejects_repeated_keys() {
    let rows = vec![folder("a", "x", None), folder("a", "y", None)];
    let res = FolderManager::from_tables("uploads", rows, Vec::new());
    assert!(matches!(res, Err(AppError::Internal(_))));
    let files = vec![file("f", None, 1), file("g", None, 1), file("f", None, 2)];
    let res = FolderManager::from_tables("uploads", Vec::new(), files);
    assert!(matches!(res, Err(AppError::Internal(_))));
}

#[test]
fn from_tables_keeps_the_rows() {
    let rows = vec![folder("a", "x", None), folder("b", "y", Some("a"))];
    let files = vec![file("f", Some("b"), 5)];
    let store = FolderManager::from_tables("uploads", rows, files).unwrap();
    let rows = store.load_folder_metadata();
    assert_eq!(rows.len(), 2);
    assert_eq!(rows[1].id, "b");
    assert_eq!(rows[1].parent_id, Some("a".to_string()));
    let files = store.load_file_metadata();
    assert_eq!(files.len(), 1);
    assert_eq!(files[0].filename, "f");
    assert_eq!(files[0].size, 5);
    assert_eq!(store.get_file_folder("f"), Some("b".to_string()));
}

#[test]
fn assign_file_to_missing_folder_is_not_found() {
    let mut store = FolderManager::new("uploads");
    let res = store.assign_file_to_folder("a.png", Some("nope".to_string()), 1);
    assert!(matches!(res, Err(AppError::NotFound(_))));
    assert!(store.load_file_metadata().is_empty());
}

#[test]
fn assign_file_is_an_upsert() {
    let mut store = FolderManager::new("uploads");
    let a = store.create_folder("a", None).unwrap();
    store.assign_file_to_folder_at("x", None, 10, stamp(100)).unwrap();
    store.assign_file_to_folder_at("y", Some(a.id.clone()), 20, stamp(101)).unwrap();
    store.assign_file_to_folder_at("x", Some(a.id.clone()), 30, stamp(102)).unwrap();
    let files = store.load_file_metadata();
    assert_eq!(files.len(), 2);
    assert_eq!(files[0].filename, "x");
    assert_eq!(files[0].folder_id, Some(a.id.clone()));
    assert_eq!(files[0].size, 30);
    assert_eq!(files[0].uploaded_at, stamp(102));
    assert_eq!(files[1].filename, "y");
    assert_eq!(files[1].uploaded_at, stamp(101));
}

#[test]
fn reassigning_refreshes_the_time() {
    let mut store = FolderManager::new("uploads");
    store.assign_file_to_folder_at("x", None, 10, stamp(5)).unwrap();
    store.assign_file_to_folder("x", None, 10).unwrap();
    let files = store.load_file_metadata();
    assert!(files[0].uploaded_at.secs > 1_600_000_000);
}

#[test]
fn remove_file_metadata_is_idempotent() {
    let mut store = FolderManager::new("uploads");
    store.assign_file_to_folder("x", None, 1).unwrap();
    store.assign_file_to_folder("y", None, 1).unwrap();
    store.remove_file_metadata("x");
    store.remove_file_metadata("x");
    store.remove_file_metadata("never");
    let files = store.load_file_metadata();
    assert_eq!(files.len(), 1);
    assert_eq!(files[0].filename, "y");
}

#[test]
fn file_lookups() {
    let mut store = FolderManager::new("uploads");
    let a = store.create_folder("a", None).unwrap();
    let b = store.create_folder("b", None).unwrap();
    store.assign_file_to_folder("r", None, 1).unwrap();
    store.assign_file_to_folder("x", Some(a.id.clone()), 1).unwrap();
    store.assign_file_to_folder("y", Some(b.id.clone()), 1).unwrap();
    store.assign_file_to_folder("z", Some(a.id.clone()), 1).unwrap();
    assert_eq!(store.get_files_in_folder(Some(a.id.clone())), vec!["x", "z"]);
    assert_eq!(store.get_files_in_folder(Some(b.id.clone())), vec!["y"]);
    assert_eq!(store.get_files_in_folder(None), vec!["r"]);
    assert!(store.get_files_in_folder(Some("nope".to_string())).is_empty());
    assert_eq!(store.get_file_folder("x"), Some(a.id.clone()));
    assert_eq!(store.get_file_folder("r"), None);
    assert_eq!(store.get_file_folder("never"), None);
    store.assign_file_to_folder("s", None, 1).unwrap();
    store.assign_file_to_folder("x", None, 1).unwrap();
    assert_eq!(store.get_files_in_folder(None), vec!["r", "x", "s"]);
    assert_eq!(store.get_files_in_folder(Some(a.id.clone())), vec!["z"]);
}

#[test]
fn file_references_always_resolve() {
    let mut store = FolderManager::new("uploads");
    let mut ids = Vec::new();
    for i in 0..4 {
        ids.push(store.create_folder(&format!("n{}", i), None).unwrap().id);
    }
    let mut seed: usize = 3;
    for step in 0..300 {
        seed = (seed * 37 + 5) % 1013;
        let name = format!("f{}", seed % 5);
        let target = ids[(seed / 5) % 4].clone();
        match step % 3 {
            0 => {
                let _ = store.assign_file_to_folder(&name, Some(target), 1);
            }
            1 => {
                if store.delete_folder(&target).is_ok() {
                    let again = store.create_folder_as(
                        target.clone(),
                        stamp(step as i64),
                        &format!("r{}", step),
                        None,
                    );
                    assert!(again.is_ok());
                }
            }
            _ => store.remove_file_metadata(&name),
        }
        assert!(store.is_consistent());
        for file in store.load_file_metadata() {
            if let Some(f) = file.folder_id {
                assert!(store.get_folder_info(&f).is_ok());
            }
        }
    }
}

#[test]
fn summary_counts_only_what_lies_directly_in_the_folder() {
    let mut store = FolderManager::new("uploads");
    let a = store.create_folder("a", None).unwrap();
    let b = store.create_folder("b", Some(a.id.clone())).unwrap();
    store.create_folder("c", Some(a.id.clone())).unwrap();
    store.assign_file_to_folder("x", Some(a.id.clone()), 100).unwrap();
    store.assign_file_to_folder("y", Some(a.id.clone()), 23).unwrap();
    store.assign_file_to_folder("z", Some(b.id.clone()), 1000).unwrap();
    store.assign_file_to_folder("r", None, 7).unwrap();
    let info = store.get_folder_info(&a.id).unwrap();
    assert_eq!(info.file_count, 2);
    assert_eq!(info.folder_count, 2);
    assert_eq!(info.size, 123);
    let info = store.get_folder_info(&b.id).unwrap();
    assert_eq!(info.file_count, 1);
    assert_eq!(info.folder_count, 0);
    assert_eq!(info.size, 1000);
}

#[test]
fn summary_size_stops_at_the_largest_number() {
    let mut store = FolderManager::new("uploads");
    let a = store.create_folder("a", None).unwrap();
    store.assign_file_to_folder("x", Some(a.id.clone()), u64::MAX - 1).unwrap();
    store.assign_file_to_folder("y", Some(a.id.clone()), 5).unwrap();
    assert_eq!(store.get_folder_info(&a.id).unwrap().size, u64::MAX);
}

#[test]
fn listing_sorts_subfolders_by_name() {
    let mut store = FolderManager::new("uploads");
    let top = store.create_folder("top", None).unwrap();
    for name in ["pear", "Zebra", "apple", "apples", "Apple", "b", ""] {
        store.create_folder(name, Some(top.id.clone())).unwrap();
    }
    store.create_folder("elsewhere", None).unwrap();
    let listing = store.list_folder_contents(Some(top.id.clone())).unwrap();
    let names: Vec<&str> = listing.folders.iter().map(|f| f.name.as_str()).collect();
    assert_eq!(names, vec!["", "Apple", "Zebra", "apple", "apples", "b", "pear"]);
    let mut expected = vec!["pear", "Zebra", "apple", "apples", "Apple", "b", ""];
    expected.sort();
    assert_eq!(names, expected);
    let root = store.list_folder_contents(None).unwrap();
    let names: Vec<&str> = root.folders.iter().map(|f| f.name.as_str()).collect();
    assert_eq!(names, vec!["elsewhere", "top"]);
    assert_eq!(root.folders[1].folder_count, 7);
}

#[test]
fn listing_sorts_by_code_point() {
    let mut store = FolderManager::new("uploads");
    let mut names = vec!["é", "e", "z", "Z", "日本", "~", "ab", "a", "\u{10000}", "\u{ffff}"];
    for name in &names {
        store.create_folder(name, None).unwrap();
    }
    let listing = store.list_folder_contents(None).unwrap();
    let got: Vec<&str> = listing.folders.iter().map(|f| f.name.as_str()).collect();
    names.sort();
    assert_eq!(got, names);
}

#[test]
fn listing_of_missing_folder_is_not_found() {
    let store = FolderManager::new("uploads");
    let res = store.list_folder_contents(Some("nope".to_string()));
    assert!(matches!(res, Err(AppError::NotFound(_))));
}

#[test]
fn listing_gives_summary_and_breadcrumbs() {
    let mut store = FolderManager::new("uploads");
    let a = store.create_folder("a", None).unwrap();
    let b = store.create_folder("b", Some(a.id.clone())).unwrap();
    let c = store.create_folder("c", Some(b.id.clone())).unwrap();
    store.assign_file_to_folder("x", Some(b.id.clone()), 9).unwrap();
    let listing = store.list_folder_contents(Some(b.id.clone())).unwrap();
    let current = listing.current_folder.unwrap();
    assert_eq!(current.id, b.id);
    assert_eq!(current.file_count, 1);
    assert_eq!(current.folder_count, 1);
    assert_eq!(current.size, 9);
    assert_eq!(listing.folders.len(), 1);
    assert_eq!(listing.folders[0].id, c.id);
    let crumbs: Vec<&str> = listing.breadcrumbs.iter().map(|f| f.name.as_str()).collect();
    assert_eq!(crumbs, vec!["a", "b"]);
    assert_eq!(listing.breadcrumbs[0].folder_count, 1);
    let crumbs = store.trail(&c.id);
    let names: Vec<&str> = crumbs.iter().map(|f| f.name.as_str()).collect();
    assert_eq!(names, vec!["a", "b", "c"]);
    assert!(store.trail("nope").is_empty());
}

#[test]
fn breadcrumbs_stop_at_a_dangling_parent() {
    let rows = vec![folder("a", "a", Some("gone")), folder("b", "b", Some("a"))];
    let store = FolderManager::from_tables("uploads", rows, Vec::new()).unwrap();
    let crumbs = store.trail("b");
    let names: Vec<&str> = crumbs.iter().map(|f| f.name.as_str()).collect();
    assert_eq!(names, vec!["a", "b"]);
}

#[test]
fn consistency_of_loaded_tables() {
    let good = vec![folder("a", "x", None), folder("b", "y", Some("a")), folder("c", "y", None)];
    let files = vec![file("f", Some("b"), 1), file("g", None, 1)];
    assert!(FolderManager::from_tables("uploads", good, files).unwrap().is_consistent());
    assert!(FolderManager::new("uploads").is_consistent());
    let cyclic = vec![folder("a", "a", Some("b")), folder("b", "b", Some("a"))];
    assert!(!FolderManager::from_tables("uploads", cyclic, Vec::new()).unwrap().is_consistent());
    let own = vec![folder("a", "a", Some("a"))];
    assert!(!FolderManager::from_tables("uploads", own, Vec::new()).unwrap().is_consistent());
    let long: Vec<FolderMetadata> = (0..9)
        .map(|i| folder(&format!("n{}", i), "n", Some(&format!("n{}", (i + 1) % 9))))
        .collect();
    assert!(!FolderManager::from_tables("uploads", long, Vec::new()).unwrap().is_consistent());
    let chain: Vec<FolderMetadata> = (0..9)
        .map(|i| {
            let parent = if i == 8 { None } else { Some(format!("n{}", i + 1)) };
            folder(&format!("n{}", i), "n", parent.as_deref())
        })
        .collect();
    assert!(FolderManager::from_tables("uploads", chain, Vec::new()).unwrap().is_consistent());
    let dangling = vec![folder("a", "a", Some("gone"))];
    assert!(!FolderManager::from_tables("uploads", dangling, Vec::new()).unwrap().is_consistent());
    let twins = vec![folder("a", "x", None), folder("b", "x", None)];
    assert!(!FolderManager::from_tables("uploads", twins, Vec::new()).unwrap().is_consistent());
    let lost = vec![file("f", Some("gone"), 1)];
    assert!(!FolderManager::from_tables("uploads", Vec::new(), lost).unwrap().is_consistent());
}
