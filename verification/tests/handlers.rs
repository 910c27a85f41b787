use snapfilething::config::AppConfig;
use snapfilething::error::AppError;
use snapfilething::handlers::export::{
    archive_name, build_relative_path, export_files, folder_names, join_parts,
};
use snapfilething::handlers::files::{
    files_to_list, is_listed, list_files, ListQuery, sort_newest_first,
};
use snapfilething::handlers::frontend::{content_type, plain_file};
use snapfilething::handlers::health::health_check;
use snapfilething::handlers::import::{
    base_name, depth, folder_id_for, folder_of_file, import_folders, ImportedFolder, is_archive,
    parent_path, sort_by_depth,
};
use snapfilething::handlers::upload::{stem_before_last_dot, upload_response};
use snapfilething::models::{FileInfo, FileUrls};
use snapfilething::services::file_upload::{prepare_upload, process_uploaded_file};
use snapfilething::services::file_utils::{
    derived_file, FileManager, find_by_stem, join_path, matches_stem, page_bounds, page_size,
    qoi_name, thumbnail_name, total_pages, unique_name,
};
use snapfilething::services::folder_manager::{FileMetadata, FolderManager, FolderMetadata};
use snapfilething::services::image_processor::ImageProcessor;
use snapfilething::utils::clock::Timestamp;

fn stamp(secs: i64, nanos: u32) -> Timestamp {
    Timestamp { secs, nanos }
}

fn folder(id: &str, name: &str, parent: Option<&str>) -> FolderMetadata {
    FolderMetadata {
        id: id.to_string(),
        name: name.to_string(),
        parent_id: parent.map(|p| p.to_string()),
        created_at: stamp(1, 0),
    }
}

fn file(name: &str, folder: Option<&str>) -> FileMetadata {
    FileMetadata {
        filename: name.to_string(),
        folder_id: folder.map(|p| p.to_string()),
        uploaded_at: stamp(2, 0),
        size: 1,
    }
}

fn entry(name: &str, at: Timestamp) -> FileInfo {
    FileInfo {
        filename: name.to_string(),
        size: 1,
        mime_type: "text/plain".to_string(),
        uploaded_at: at,
        is_image: false,
        urls: FileUrls { original: format!("/uploads/{}", name), qoi: None, thumbnail: None },
        dimensions: None,
        folder_id: None,
    }
}

fn sample_store() -> FolderManager {
    let folders = vec![
        folder("r", "root", None),
        folder("a", "docs", Some("r")),
        folder("b", "2024", Some("a")),
        folder("c", "empty", None),
        folder("d", "pics", None),
    ];
    let files = vec![
        file("top.txt", None),
        file("in_root.txt", Some("r")),
        file("report.pdf", Some("b")),
        file("cat.png", Some("d")),
        file("lost.bin", Some("gone")),
    ];
    FolderManager::from_tables("uploads", folders, files).unwrap()
}

#[test]
fn joining_parts() {
    assert_eq!(join_parts(&Vec::new()), "");
    assert_eq!(join_parts(&vec!["a".to_string()]), "a");
    assert_eq!(join_parts(&vec!["a".to_string(), "b".to_string(), "c".to_string()]), "a/b/c");
    assert_eq!(join_parts(&vec!["".to_string(), "".to_string()]), "/");
}

#[test]
fn folder_paths_skip_folders_named_root() {
    let store = sample_store();
    assert_eq!(folder_names(&store, "b"), vec!["docs", "2024"]);
    assert_eq!(folder_names(&store, "r"), Vec::<String>::new());
    assert_eq!(folder_names(&store, "c"), vec!["empty"]);
    assert_eq!(folder_names(&store, "gone"), Vec::<String>::new());
    assert_eq!(build_relative_path(&store, &file("x", Some("b"))), "docs/2024/x");
    assert_eq!(build_relative_path(&store, &file("x", Some("r"))), "x");
    assert_eq!(build_relative_path(&store, &file("x", None)), "x");
    assert_eq!(build_relative_path(&store, &file("x", Some("gone"))), "x");
}

#[test]
fn archive_names() {
    assert_eq!(archive_name(None), "export.zip");
    assert_eq!(archive_name(Some("docs")), "docs_export.zip");
    assert_eq!(archive_name(Some("")), "_export.zip");
}

#[test]
fn export_of_everything() {
    let store = sample_store();
    let plan = export_files(&store, None).unwrap();
    assert_eq!(plan.zip_filename, "export.zip");
    let files: Vec<(&str, &str)> =
        plan.files.iter().map(|e| (e.filename.as_str(), e.path.as_str())).collect();
    assert_eq!(
        files,
        vec![
            ("top.txt", "top.txt"),
            ("in_root.txt", "in_root.txt"),
            ("report.pdf", "docs/2024/report.pdf"),
            ("cat.png", "pics/cat.png"),
            ("lost.bin", "lost.bin"),
        ]
    );
    assert_eq!(plan.directories, vec!["docs/", "empty/"]);
}

#[test]
fn export_of_one_folder() {
    let store = sample_store();
    let plan = export_files(&store, Some("b".to_string())).unwrap();
    assert_eq!(plan.zip_filename, "2024_export.zip");
    assert_eq!(plan.files.len(), 1);
    assert_eq!(plan.files[0].filename, "report.pdf");
    assert_eq!(plan.files[0].path, "docs/2024/report.pdf");
    assert_eq!(plan.directories, vec!["docs/", "empty/", "pics/"]);
}

#[test]
fn export_without_files_is_a_bad_request() {
    let store = sample_store();
    assert!(matches!(export_files(&store, Some("c".to_string())), Err(AppError::BadRequest(_))));
    assert!(matches!(export_files(&store, Some("nope".to_string())), Err(AppError::BadRequest(_))));
    let empty = FolderManager::new("uploads");
    assert!(matches!(export_files(&empty, None), Err(AppError::BadRequest(_))));
}

#[test]
fn export_of_a_folder_that_only_files_know_is_not_found() {
    let store = sample_store();
    assert!(matches!(export_files(&store, Some("gone".to_string())), Err(AppError::NotFound(_))));
}

#[test]
fn files_shown_by_a_listing() {
    let store = sample_store();
    assert_eq!(files_to_list(&store, None), vec!["top.txt"]);
    assert_eq!(files_to_list(&store, Some("b".to_string())), vec!["report.pdf"]);
    assert_eq!(files_to_list(&store, Some("r".to_string())), vec!["in_root.txt"]);
    let mut with_root = FolderManager::new("uploads");
    with_root.create_folder_as("root".to_string(), stamp(1, 0), "x", None).unwrap();
    with_root.assign_file_to_folder("a", Some("root".to_string()), 1).unwrap();
    with_root.assign_file_to_folder("b", None, 1).unwrap();
    assert_eq!(files_to_list(&with_root, None), vec!["a", "b"]);
    let filter = vec!["a.png".to_string(), "a_thumb.webp".to_string(), "b.qoi".to_string()];
    assert!(is_listed("a.png", &filter));
    assert!(!is_listed("a_thumb.webp", &filter));
    assert!(!is_listed("b.qoi", &filter));
    assert!(!is_listed("c.png", &filter));
    assert!(!is_listed("a.png", &Vec::new()));
}

#[test]
fn newest_first() {
    let entries = vec![
        entry("a", stamp(5, 0)),
        entry("b", stamp(9, 1)),
        entry("c", stamp(5, 0)),
        entry("d", stamp(9, 2)),
        entry("e", stamp(-3, 0)),
        entry("f", stamp(5, 0)),
    ];
    let sorted = sort_newest_first(entries);
    let names: Vec<&str> = sorted.iter().map(|e| e.filename.as_str()).collect();
    assert_eq!(names, vec!["d", "b", "a", "c", "f", "e"]);
    assert!(sort_newest_first(Vec::new()).is_empty());
}

#[test]
fn listing_pages() {
    let mut store = sample_store();
    for i in 0..7 {
        store.assign_file_to_folder(&format!("f{}", i), Some("b".to_string()), 1).unwrap();
    }
    let entries = || -> Vec<FileInfo> {
        (0..7).map(|i| entry(&format!("f{}", i), stamp(100 + i, 0))).collect()
    };
    let query = ListQuery { page: Some(1), per_page: Some(3), folder_id: Some("b".to_string()) };
    let listing = list_files(&store, &query, entries()).unwrap();
    let names: Vec<&str> = listing.files.iter().map(|e| e.filename.as_str()).collect();
    assert_eq!(names, vec!["f3", "f2", "f1"]);
    assert!(listing.files.iter().all(|e| e.folder_id == Some("b".to_string())));
    assert_eq!(listing.total, 7);
    assert_eq!(listing.page, 1);
    assert_eq!(listing.per_page, 3);
    assert_eq!(listing.total_pages, 3);
    assert_eq!(listing.current_folder.unwrap().id, "b");
    let crumbs: Vec<&str> = listing.breadcrumbs.iter().map(|f| f.name.as_str()).collect();
    assert_eq!(crumbs, vec!["root", "docs", "2024"]);
    let query = ListQuery { page: Some(2), per_page: Some(3), folder_id: Some("b".to_string()) };
    let listing = list_files(&store, &query, entries()).unwrap();
    let names: Vec<&str> = listing.files.iter().map(|e| e.filename.as_str()).collect();
    assert_eq!(names, vec!["f0"]);
    let query = ListQuery { page: Some(3), per_page: Some(3), folder_id: Some("b".to_string()) };
    assert!(list_files(&store, &query, entries()).unwrap().files.is_empty());
    let query = ListQuery { page: None, per_page: None, folder_id: None };
    let listing = list_files(&store, &query, entries()).unwrap();
    assert_eq!(listing.files.len(), 7);
    assert_eq!((listing.page, listing.per_page, listing.total_pages), (0, 20, 1));
    let names: Vec<&str> = listing.folders.iter().map(|f| f.name.as_str()).collect();
    assert_eq!(names, vec!["empty", "pics", "root"]);
    let query = ListQuery { page: Some(0), per_page: Some(0), folder_id: None };
    let listing = list_files(&store, &query, entries()).unwrap();
    assert!(listing.files.is_empty());
    assert_eq!(listing.total_pages, 0);
    let query = ListQuery { page: Some(usize::MAX), per_page: Some(500), folder_id: None };
    let listing = list_files(&store, &query, entries()).unwrap();
    assert!(listing.files.is_empty());
    assert_eq!(listing.per_page, 100);
    let query = ListQuery { page: None, per_page: None, folder_id: Some("nope".to_string()) };
    assert!(matches!(list_files(&store, &query, entries()), Err(AppError::NotFound(_))));
}

#[test]
fn paging_numbers() {
    assert_eq!(page_size(None), 20);
    assert_eq!(page_size(Some(0)), 0);
    assert_eq!(page_size(Some(100)), 100);
    assert_eq!(page_size(Some(101)), 100);
    assert_eq!(total_pages(0, 20), 0);
    assert_eq!(total_pages(1, 20), 1);
    assert_eq!(total_pages(20, 20), 1);
    assert_eq!(total_pages(21, 20), 2);
    assert_eq!(total_pages(5, 0), 0);
    assert_eq!(total_pages(usize::MAX, 1), usize::MAX);
    assert_eq!(total_pages(usize::MAX, usize::MAX), 1);
    assert_eq!(total_pages(usize::MAX, 2), usize::MAX / 2 + 1);
    assert_eq!(page_bounds(10, 0, 3), (0, 3));
    assert_eq!(page_bounds(10, 3, 3), (9, 10));
    assert_eq!(page_bounds(10, 4, 3), (10, 10));
    assert_eq!(page_bounds(10, 0, 0), (0, 0));
    assert_eq!(page_bounds(0, 0, 5), (0, 0));
    assert_eq!(page_bounds(10, usize::MAX, 2), (10, 10));
    assert_eq!(page_bounds(10, 1, usize::MAX), (10, 10));
    assert_eq!(page_bounds(10, 0, usize::MAX), (0, 10));
}

#[test]
fn upload_answer() {
    let mut config = AppConfig::default();
    let reply = upload_response(&config, "cat_17_ab_.png", stamp(17, 5), 1234);
    assert!(reply.success);
    assert_eq!(reply.filename, "cat_17_ab_.png");
    assert_eq!(reply.urls.original, "http://localhost:8080/uploads/cat_17_ab_.png");
    assert_eq!(reply.urls.qoi, Some("http://localhost:8080/uploads/cat_17_ab_.qoi".to_string()));
    assert_eq!(
        reply.urls.thumbnail,
        Some("http://localhost:8080/uploads/cat_17_ab__thumb.webp".to_string())
    );
    assert_eq!(reply.metadata.size, 1234);
    assert_eq!(reply.metadata.mime_type, "application/octet-stream");
    assert_eq!(reply.metadata.uploaded_at, stamp(17, 5));
    assert_eq!(reply.metadata.width, None);
    config.image.qoi_enabled = false;
    config.server.base_url = Some("https://x".to_string());
    let reply = upload_response(&config, "a.b.jpg", stamp(0, 0), 0);
    assert_eq!(reply.urls.original, "https://x/uploads/a.b.jpg");
    assert_eq!(reply.urls.qoi, None);
    assert_eq!(reply.urls.thumbnail, Some("https://x/uploads/b_thumb.webp".to_string()));
    let reply = upload_response(&config, "notes_bin", stamp(0, 0), 0);
    assert_eq!(reply.urls.thumbnail, None);
    assert_eq!(stem_before_last_dot("a.b.c"), "b");
    assert_eq!(stem_before_last_dot("a.b"), "a");
    assert_eq!(stem_before_last_dot("a"), "file");
    assert_eq!(stem_before_last_dot(".a"), "");
}

#[test]
fn health_answer() {
    let config = AppConfig::default();
    let reply = health_check(&config, "1.2.3", 99);
    assert_eq!(reply.status, "healthy");
    assert_eq!(reply.version, "1.2.3");
    assert_eq!(reply.uptime, 99);
    assert_eq!(reply.upload_dir, "./uploads");
    assert_eq!(reply.auth_mode, "protected");
}

#[test]
fn front_end_files() {
    for path in ["favicon.ico", "robots.txt", "app.json", "logo.svg", "a.png", "x.webmanifest"] {
        assert!(plain_file(path));
    }
    for path in ["index.html", "app.js", "files", "", "a.PNG"] {
        assert!(!plain_file(path));
    }
    assert_eq!(content_type("favicon.ico"), "image/x-icon");
    assert_eq!(content_type("logo.svg"), "image/svg+xml");
    assert_eq!(content_type("a.b.png"), "image/png");
    assert_eq!(content_type("app.json"), "application/json");
    assert_eq!(content_type("site.webmanifest"), "application/json");
    assert_eq!(content_type("robots.txt"), "text/plain");
    assert_eq!(content_type("app.js"), "application/octet-stream");
    assert_eq!(content_type("txt"), "text/plain");
    assert_eq!(content_type(""), "application/octet-stream");
}

#[test]
fn import_paths() {
    assert!(is_archive("backup.zip"));
    assert!(!is_archive("backup.ZIP"));
    assert!(!is_archive("backup.zip.txt"));
    assert_eq!(depth("a"), 0);
    assert_eq!(depth("a/b/c"), 2);
    assert_eq!(depth(""), 0);
    assert_eq!(parent_path("a/b/c"), "a/b");
    assert_eq!(parent_path("a"), "");
    assert_eq!(parent_path("/a"), "");
    assert_eq!(parent_path(""), "");
    assert_eq!(base_name("a/b/c"), "c");
    assert_eq!(base_name("a"), "a");
    assert_eq!(base_name("a/"), "");
    let sorted = sort_by_depth(vec![
        "a/b/c".to_string(),
        "x".to_string(),
        "a/b".to_string(),
        "a".to_string(),
        "x/y".to_string(),
    ]);
    assert_eq!(sorted, vec!["x", "a", "a/b", "x/y", "a/b/c"]);
}

#[test]
fn import_creates_parents_first() {
    let mut store = FolderManager::new("uploads");
    let folders = vec![
        "docs/2024/q1".to_string(),
        "pics".to_string(),
        "docs/2024".to_string(),
        "docs".to_string(),
    ];
    let created = import_folders(&mut store, folders).unwrap();
    let paths: Vec<&str> = created.iter().map(|c| c.path.as_str()).collect();
    assert_eq!(paths, vec!["pics", "docs", "docs/2024", "docs/2024/q1"]);
    let q1 = folder_id_for(&created, "docs/2024/q1").unwrap();
    let crumbs = store.trail(&q1);
    let names: Vec<&str> = crumbs.iter().map(|f| f.name.as_str()).collect();
    assert_eq!(names, vec!["docs", "2024", "q1"]);
    assert_eq!(folder_of_file(&created, "docs/2024/report.pdf"), folder_id_for(&created, "docs/2024"));
    assert_eq!(folder_of_file(&created, "top.txt"), None);
    assert_eq!(folder_of_file(&created, "unknown/x.txt"), None);
    assert_eq!(folder_id_for(&created, ""), None);
    let again = import_folders(&mut store, vec!["pics".to_string()]);
    assert!(matches!(again, Err(AppError::Conflict(_))));
}

#[test]
fn import_lookup_takes_the_last_entry() {
    let created = vec![
        ImportedFolder { path: "a".to_string(), id: "1".to_string() },
        ImportedFolder { path: "b".to_string(), id: "2".to_string() },
        ImportedFolder { path: "a".to_string(), id: "3".to_string() },
    ];
    assert_eq!(folder_id_for(&created, "a"), Some("3".to_string()));
    assert_eq!(folder_id_for(&created, "b"), Some("2".to_string()));
    assert_eq!(folder_id_for(&created, "c"), None);
}

#[test]
fn stored_file_names_and_paths() {
    assert_eq!(join_path("uploads", "a.png"), "uploads/a.png");
    assert_eq!(join_path("uploads/", "a.png"), "uploads/a.png");
    assert_eq!(join_path("", "a.png"), "a.png");
    assert_eq!(join_path("uploads", "/etc/passwd"), "/etc/passwd");
    assert_eq!(join_path("uploads", ""), "uploads/");
    assert_eq!(join_path("/", "a"), "/a");
    for (dir, name) in [("uploads", "a.png"), ("uploads/", "a"), ("", "a"), ("x", "/abs"), ("/", "a")] {
        let expected = std::path::Path::new(dir).join(name);
        assert_eq!(join_path(dir, name), expected.to_str().unwrap());
    }
    assert_eq!(qoi_name("cat.png"), "cat.qoi");
    assert_eq!(thumbnail_name("cat.png"), "cat_thumb.webp");
    assert_eq!(qoi_name("a.b.png"), "a.b.qoi");
    assert_eq!(qoi_name(""), "file.qoi");
    assert_eq!(thumbnail_name(".."), "file_thumb.webp");
    assert!(derived_file("cat_thumb.webp"));
    assert!(derived_file("cat.qoi"));
    assert!(derived_file("x_thumb.png"));
    assert!(!derived_file("cat.png"));
    assert!(!derived_file("thumb.png"));
    assert!(!derived_file("cat.qoi.txt"));
}

#[test]
fn files_are_found_by_stem() {
    assert!(matches_stem("cat_1_ab_.png", "cat_1_ab_"));
    assert!(matches_stem("cat_1_ab_.png", "cat"));
    assert!(matches_stem("cat.png", ""));
    assert!(!matches_stem("cat.png", "dog"));
    assert!(!matches_stem("cat_thumb.webp", "cat"));
    assert!(!matches_stem("cat.qoi", "cat"));
    let names = vec![
        "cat_thumb.webp".to_string(),
        "dog.png".to_string(),
        "cat.qoi".to_string(),
        "cat.png".to_string(),
        "catalog.txt".to_string(),
    ];
    assert_eq!(find_by_stem(&names, "cat"), Some("cat.png".to_string()));
    assert_eq!(find_by_stem(&names, "cata"), Some("catalog.txt".to_string()));
    assert_eq!(find_by_stem(&names, "d"), Some("dog.png".to_string()));
    assert_eq!(find_by_stem(&names, "bird"), None);
    assert_eq!(find_by_stem(&Vec::new(), ""), None);
}

#[test]
fn file_urls() {
    let manager = FileManager::new("uploads", "http://h:1".to_string());
    assert_eq!(manager.get_file_path("a.png"), "uploads/a.png");
    let urls = manager.generate_urls("cat.png", true);
    assert_eq!(urls.original, "http://h:1/uploads/cat.png");
    assert_eq!(urls.qoi, Some("http://h:1/uploads/cat.qoi".to_string()));
    assert_eq!(urls.thumbnail, Some("http://h:1/uploads/cat_thumb.webp".to_string()));
    let urls = manager.generate_urls("notes.txt", false);
    assert_eq!(urls.original, "http://h:1/uploads/notes.txt");
    assert_eq!(urls.qoi, None);
    assert_eq!(urls.thumbnail, None);
}

#[test]
fn unique_names() {
    assert_eq!(unique_name("cat.png", 1700000000, "abcd1234"), "cat_1700000000_abcd1234_.png");
    assert_eq!(unique_name("notes", 5, "t"), "notes_5_t_bin");
    assert_eq!(unique_name("", 5, "t"), "file_5_t_bin");
    assert_eq!(unique_name("a.", -1, "t"), "a_-1_t_bin");
    assert_eq!(unique_name(".env", 0, ""), ".env_0__bin");
    let manager = FileManager::new("uploads", String::new());
    let a = manager.generate_unique_filename("My Cat.png");
    let b = manager.generate_unique_filename("My Cat.png");
    assert!(a.starts_with("My Cat_"));
    assert!(a.ends_with("_.png"));
    assert_ne!(a, b);
    let parts: Vec<&str> = a.split('_').collect();
    assert_eq!(parts.len(), 4);
    assert!(parts[1].parse::<i64>().unwrap() > 1_600_000_000);
    assert_eq!(parts[2].len(), 8);
    let c = manager.generate_unique_filename("a/b:c.txt");
    assert!(c.starts_with("abc_"));
    assert!(c.ends_with("_.txt"));
}

#[test]
fn image_files_by_name() {
    for name in ["a.jpg", "a.JPEG", "a.png", "a.gif", "a.bmp", "a.tiff", "a.tif", "a.WebP", "x/y.png"] {
        assert!(ImageProcessor::is_image_file(name));
    }
    for name in ["a.svg", "a.ico", "a", "png", ".png", "a.png.txt", ""] {
        assert!(!ImageProcessor::is_image_file(name));
    }
    let processor = ImageProcessor::new(AppConfig::default().image);
    assert_eq!(processor.thumbnail_size(), 200);
    assert!(processor.qoi_enabled());
}

#[test]
fn taking_an_upload_in() {
    let mut config = AppConfig::default();
    config.server.max_file_size = 100;
    let files = FileManager::new("uploads", String::new());
    let mut store = FolderManager::new("uploads");
    let too_large = prepare_upload(101, "cat.png", &config, &files);
    assert!(matches!(too_large, Err(AppError::FileTooLarge(101))));
    let prepared = prepare_upload(100, "My Cat.PNG", &config, &files).unwrap();
    assert!(prepared.unique_filename.starts_with("my_cat_"));
    assert!(prepared.unique_filename.ends_with("_.png"));
    assert_eq!(prepared.file_path, format!("uploads/{}", prepared.unique_filename));
    let name = prepared.unique_filename.clone();
    let png = [0x89, 0x50, 0x4E, 0x47, 0x0D, 0x0A, 0x1A, 0x0A, 0, 0];
    let stored = process_uploaded_file(&png, prepared, None, &config, &files, &mut store).unwrap();
    assert_eq!(stored.unique_filename, name);
    assert_eq!(stored.size, 10);
    assert!(stored.is_image);
    let stem = name.strip_suffix(".png").unwrap();
    assert_eq!(stored.qoi_path, Some(format!("uploads/{}.qoi", stem)));
    assert_eq!(stored.thumbnail_path, Some(format!("uploads/{}_thumb.webp", stem)));
    let rows = store.load_file_metadata();
    assert_eq!(rows.len(), 1);
    assert_eq!(rows[0].filename, name);
    assert_eq!(rows[0].size, 10);
    assert_eq!(rows[0].folder_id, None);
}

#[test]
fn rejected_uploads_leave_the_store_alone() {
    let config = AppConfig::default();
    let files = FileManager::new("uploads", String::new());
    let mut store = FolderManager::new("uploads");
    let prepared = prepare_upload(5, "cat.png", &config, &files).unwrap();
    let res = process_uploaded_file(b"hello", prepared, None, &config, &files, &mut store);
    assert!(matches!(res, Err(AppError::InvalidFileType(_))));
    let prepared = prepare_upload(5, "notes.txt", &config, &files).unwrap();
    let res = process_uploaded_file(
        b"hello",
        prepared,
        Some("nope".to_string()),
        &config,
        &files,
        &mut store,
    );
    assert!(matches!(res, Err(AppError::NotFound(_))));
    assert!(store.load_file_metadata().is_empty());
    let prepared = prepare_upload(5, "notes.txt", &config, &files).unwrap();
    let stored =
        process_uploaded_file(b"hello", prepared, None, &config, &files, &mut store).unwrap();
    assert!(!stored.is_image);
    assert_eq!(stored.qoi_path, None);
    assert_eq!(stored.thumbnail_path, None);
}

#[test]
fn listing_shows_the_derived_urls_only_of_files_that_are_there() {
    let manager = FileManager::new("uploads", "http://h:1".to_string());
    let urls = manager.listed_urls("cat.png", true, true, false);
    assert_eq!(urls.original, "http://h:1/uploads/cat.png");
    assert_eq!(urls.qoi, Some("http://h:1/uploads/cat.qoi".to_string()));
    assert_eq!(urls.thumbnail, None);
    let urls = manager.listed_urls("cat.png", true, false, true);
    assert_eq!(urls.qoi, None);
    assert_eq!(urls.thumbnail, Some("http://h:1/uploads/cat_thumb.webp".to_string()));
    let urls = manager.listed_urls("notes.txt", false, true, true);
    assert_eq!(urls.original, "http://h:1/uploads/notes.txt");
    assert_eq!((urls.qoi, urls.thumbnail), (None, None));
    let urls = manager.listed_urls("cat.png", true, true, true);
    let all = manager.generate_urls("cat.png", true);
    assert_eq!((urls.original, urls.qoi, urls.thumbnail), (all.original, all.qoi, all.thumbnail));
}
