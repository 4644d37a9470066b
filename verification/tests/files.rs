use media_pipeline::models::files::{FileInfo, FileType, PathProbe};
use media_pipeline::repos::offline::offline_files_repo::{DirEntryFacts, OfflineFilesRepo};
use media_pipeline::utils::path_validator::{PathValidator, Resolution};

fn info(name: &str, is_directory: bool) -> FileInfo {
    FileInfo {
        name: name.to_string(),
        size: 1,
        file_type: if is_directory { FileType::Folder } else { FileType::Other },
        is_directory,
        last_modified: 0,
        path: format!("/{}", name),
    }
}

fn names(files: &[FileInfo]) -> Vec<&str> {
    files.iter().map(|file| file.name.as_str()).collect()
}

fn entry(path: &str, name: Option<&str>, is_dir: bool) -> DirEntryFacts {
    DirEntryFacts {
        path: path.to_string(),
        file_name: name.map(|n| n.to_string()),
        size: 42,
        is_dir,
        modified_secs: 1_700_000_000,
    }
}

#[test]
fn directories_come_first_and_names_are_in_order() {
    let mut files = vec![
        info("zebra.txt", false),
        info("music", true),
        info("Apple.png", false),
        info("apple.png", false),
        info("albums", true),
        info("b.mp4", false),
    ];
    OfflineFilesRepo::sort_files(&mut files);
    assert_eq!(names(&files), vec!["albums", "music", "Apple.png", "apple.png", "b.mp4", "zebra.txt"]);
}

#[test]
fn sorting_agrees_with_the_sort_of_the_standard_library() {
    let mut files = Vec::new();
    let mut seed = 12345u32;
    for _ in 0..60 {
        seed = seed.wrapping_mul(1_103_515_245).wrapping_add(12345);
        let name = format!("f{}", (seed >> 16) % 23);
        files.push(FileInfo { size: seed as u64, ..info(&name, (seed >> 8) % 3 == 0) });
    }
    let mut expected: Vec<(bool, String, u64)> =
        files.iter().map(|f| (!f.is_directory, f.name.clone(), f.size)).collect();
    // a stable sort by kind and name, as the listing asks for
    expected.sort_by(|a, b| (a.0, &a.1).cmp(&(b.0, &b.1)));
    OfflineFilesRepo::sort_files(&mut files);
    let sorted: Vec<(bool, String, u64)> =
        files.iter().map(|f| (!f.is_directory, f.name.clone(), f.size)).collect();
    assert_eq!(sorted, expected);
}

#[test]
fn short_lists_are_sorted_too() {
    let mut files: Vec<FileInfo> = Vec::new();
    OfflineFilesRepo::sort_files(&mut files);
    assert!(files.is_empty());
    let mut files = vec![info("only", false)];
    OfflineFilesRepo::sort_files(&mut files);
    assert_eq!(names(&files), vec!["only"]);
    let mut files = vec![info("b", false), info("a", false)];
    OfflineFilesRepo::sort_files(&mut files);
    assert_eq!(names(&files), vec!["a", "b"]);
}

#[test]
fn an_entry_is_described_for_the_listing() {
    let info =
        OfflineFilesRepo::create_file_info(&entry("/srv/a/clip.MP4", Some("clip.MP4"), false), "/srv")
            .unwrap();
    assert_eq!(info.name, "clip.MP4");
    assert_eq!(info.size, 42);
    assert_eq!(info.file_type, FileType::Video);
    assert!(!info.is_directory);
    assert_eq!(info.last_modified, 1_700_000_000);
    assert_eq!(info.path, "/a/clip.MP4");
    let info =
        OfflineFilesRepo::create_file_info(&entry("/srv/a.png", Some("a.png"), true), "/srv").unwrap();
    assert_eq!(info.file_type, FileType::Folder);
    assert!(info.is_directory);
    assert_eq!(info.path, "/a.png");
}

#[test]
fn an_entry_outside_the_base_is_described_from_the_base() {
    let info =
        OfflineFilesRepo::create_file_info(&entry("/other/x.txt", Some("x.txt"), false), "/srv")
            .unwrap();
    assert_eq!(info.path, "/../other/x.txt");
    // a relative entry has no path as seen from an absolute base
    let info =
        OfflineFilesRepo::create_file_info(&entry("x.txt", Some("x.txt"), false), "/srv").unwrap();
    assert_eq!(info.path, "//srv");
}

#[test]
fn hidden_entries_are_refused() {
    let error =
        OfflineFilesRepo::create_file_info(&entry("/srv/.cache", Some(".cache"), true), "/srv")
            .unwrap_err();
    assert_eq!(error.status_code, 400);
    assert_eq!(error.message, "隐藏文件");
    let error = OfflineFilesRepo::create_file_info(&entry("/srv/x", None, false), "/srv").unwrap_err();
    assert_eq!(error.status_code, 500);
    assert_eq!(error.message, "无效的文件名");
}

#[test]
fn a_directory_is_listed_without_its_hidden_entries() {
    let entries = vec![
        entry("/srv/b.txt", Some("b.txt"), false),
        entry("/srv/.cache", Some(".cache"), true),
        entry("/srv/films", Some("films"), true),
        entry("/srv/odd", None, false),
        entry("/srv/a.jpg", Some("a.jpg"), false),
    ];
    let files = OfflineFilesRepo::get_files("/srv", true, &entries).unwrap();
    assert_eq!(names(&files), vec!["films", "a.jpg", "b.txt"]);
    assert_eq!(files[0].file_type, FileType::Folder);
    assert_eq!(files[1].file_type, FileType::Image);
    assert_eq!(files[2].file_type, FileType::Other);
    assert_eq!(files[1].path, "/a.jpg");
    assert!(OfflineFilesRepo::get_files("/srv", true, &Vec::new()).unwrap().is_empty());
}

#[test]
fn what_is_no_directory_is_not_listed() {
    let error = OfflineFilesRepo::get_files("/srv", false, &Vec::new()).unwrap_err();
    assert_eq!(error.status_code, 400);
    assert_eq!(error.message, "指定的路径不是一个目录");
}

#[test]
fn only_files_that_exist_are_deleted() {
    assert_eq!(OfflineFilesRepo::delete("/srv", "/a/b.txt", true).unwrap(), "/srv/a/b.txt");
    let error = OfflineFilesRepo::delete("/srv", "/a/b.txt", false).unwrap_err();
    assert_eq!(error.status_code, 404);
    assert_eq!(error.message, "文件不存在");
    let error = OfflineFilesRepo::delete_failed("permission denied");
    assert_eq!(error.status_code, 500);
    assert_eq!(error.message, "删除文件失败: permission denied");
    assert_eq!(OfflineFilesRepo::source_path("/srv", "/films"), "/srv/films");
}

#[test]
fn local_files_are_not_downloaded() {
    let error = OfflineFilesRepo::download_file("/a/b.txt");
    assert_eq!(error.status_code, 400);
    assert_eq!(error.message, "离线存储库不支持下载文件, /a/b.txt");
}

fn found(canonical: &str, exists: bool) -> Resolution {
    Resolution { canonical: canonical.to_string(), exists }
}

#[test]
fn a_path_inside_the_base_is_served() {
    let validator = PathValidator::new("/srv/files");
    assert_eq!(validator.candidate("/a/b.txt"), Some("/srv/files/a/b.txt".to_string()));
    let served = validator.validate_path("/a/b.txt", Some(&found("/srv/files/a/b.txt", true)));
    assert_eq!(served.unwrap(), "/srv/files/a/b.txt");
    let served = validator.validate_path("/", Some(&found("/srv/files", true)));
    assert_eq!(served.unwrap(), "/srv/files");
}

#[test]
fn a_path_has_to_begin_with_a_slash() {
    let validator = PathValidator::new("/srv/files");
    assert_eq!(validator.candidate("a/b.txt"), None);
    assert_eq!(validator.candidate(""), None);
    for path in ["a/b.txt", "", "../x"] {
        let refused =
            validator.validate_path(path, Some(&found("/srv/files/a/b.txt", true))).unwrap_err();
        assert_eq!(refused.message, "Path must start with '/'");
        assert_eq!(refused.data, None);
    }
}

#[test]
fn a_path_that_does_not_resolve_is_not_found() {
    let validator = PathValidator::new("/srv/files");
    let refused = validator.validate_path("/gone", None).unwrap_err();
    assert_eq!(refused.message, "Path not found");
}

#[test]
fn a_path_that_leaves_the_base_is_forbidden() {
    let validator = PathValidator::new("/srv/files");
    for canonical in ["/etc/passwd", "/srv", "/srv/files2/x", "/srv/filesystem"] {
        let refused =
            validator.validate_path("/../../etc/passwd", Some(&found(canonical, true))).unwrap_err();
        assert_eq!(refused.message, "Access forbidden", "{}", canonical);
    }
}

#[test]
fn a_path_where_nothing_is_is_not_found() {
    let validator = PathValidator::new("/srv/files");
    let refused =
        validator.validate_path("/a", Some(&found("/srv/files/a", false))).unwrap_err();
    assert_eq!(refused.message, "File not found");
}

#[test]
fn requests_are_judged_in_a_fixed_order() {
    let hit = found("/srv/x", true);
    let miss = found("/srv/x", false);
    assert_eq!(PathValidator::judge(true, Some(&hit), true).unwrap(), "/srv/x");
    assert_eq!(
        PathValidator::judge(false, None, false).unwrap_err().message,
        "Path must start with '/'"
    );
    assert_eq!(PathValidator::judge(true, None, true).unwrap_err().message, "Path not found");
    assert_eq!(
        PathValidator::judge(true, Some(&miss), false).unwrap_err().message,
        "Access forbidden"
    );
    assert_eq!(PathValidator::judge(true, Some(&miss), true).unwrap_err().message, "File not found");
}

#[test]
fn an_entry_is_described_from_what_is_known_of_it() {
    let facts = entry("/srv/a/b.mkv", Some("b.mkv"), false);
    let info = OfflineFilesRepo::describe_entry(&facts, FileType::Video, "a/b.mkv").unwrap();
    assert_eq!(info.name, "b.mkv");
    assert_eq!(info.size, 42);
    assert_eq!(info.file_type, FileType::Video);
    assert!(!info.is_directory);
    assert_eq!(info.last_modified, 1_700_000_000);
    assert_eq!(info.path, "/a/b.mkv");
    let hidden = entry("/srv/.git", Some(".git"), true);
    let error = OfflineFilesRepo::describe_entry(&hidden, FileType::Folder, ".git").unwrap_err();
    assert_eq!(error.status_code, 400);
    let odd = entry("/srv/x", None, false);
    let error = OfflineFilesRepo::describe_entry(&odd, FileType::Other, "x").unwrap_err();
    assert_eq!(error.status_code, 500);
}

fn type_of(path: &str) -> FileType {
    PathProbe { path: path.to_string(), exists: true, is_dir: false }.file_type()
}

#[test]
fn the_extension_is_that_of_the_last_component() {
    // the file name is the last part between slashes
    assert_eq!(type_of("a.png"), FileType::Image);
    assert_eq!(type_of("/a.png"), FileType::Image);
    assert_eq!(type_of("/srv/files/a.png"), FileType::Image);
    assert_eq!(type_of("srv/files/a.mp4"), FileType::Video);
    assert_eq!(type_of("/a.png/b"), FileType::Other);
    assert_eq!(type_of("/a.png/b.txt"), FileType::Other);
    assert_eq!(type_of("/a.txt/b.mkv"), FileType::Video);
}

#[test]
fn slashes_at_the_end_and_single_dots_do_not_count() {
    assert_eq!(type_of("/srv/a.png/"), FileType::Image);
    assert_eq!(type_of("/srv/a.png//"), FileType::Image);
    assert_eq!(type_of("/srv/a.png/."), FileType::Image);
    assert_eq!(type_of("/srv/a.png/./"), FileType::Image);
    assert_eq!(type_of("/srv//a.png"), FileType::Image);
    assert_eq!(type_of("/srv/./a.png"), FileType::Image);
    assert_eq!(type_of("./a.png"), FileType::Image);
    assert_eq!(type_of("a.png/./."), FileType::Image);
}

#[test]
fn the_root_and_the_dots_have_no_file_name() {
    for path in ["", "/", ".", "./", "..", "/..", "a.png/..", "/a.png/../", "/.", "/./"] {
        assert_eq!(type_of(path), FileType::Other, "{:?}", path);
    }
}

#[test]
fn the_extension_stands_behind_the_last_dot_of_the_name() {
    assert_eq!(type_of("/x/archive.tar.png"), FileType::Image);
    assert_eq!(type_of("/x/archive.png.tar"), FileType::Other);
    assert_eq!(type_of("/x/.png"), FileType::Other);
    assert_eq!(type_of("/x/.hidden.png"), FileType::Image);
    assert_eq!(type_of("/x/a.png."), FileType::Other);
    assert_eq!(type_of("/x/..png"), FileType::Image);
    assert_eq!(type_of("/x/png"), FileType::Other);
    assert_eq!(type_of("/x.d/png"), FileType::Other);
    assert_eq!(type_of("/x/a..png"), FileType::Image);
    assert_eq!(type_of("/x/..."), FileType::Other);
}

#[test]
fn a_path_lies_in_a_base_by_whole_components() {
    let inside = |path: &str, base: &str| {
        PathValidator::new(base).validate_path("/x", Some(&found(path, true))).is_ok()
    };
    assert!(inside("/srv/files", "/srv/files"));
    assert!(inside("/srv/files/a", "/srv/files"));
    assert!(inside("/srv/files/a/b.txt", "/srv/files"));
    assert!(inside("/srv/files/a", "/srv/files/"));
    assert!(inside("/srv/files/a", "/srv//files"));
    assert!(inside("/srv/files/a", "/srv/./files/."));
    assert!(inside("/srv/files", "/"));
    assert!(inside("/srv/files", ""));
    assert!(inside("srv/files", "srv"));
    assert!(inside("./srv", "."));
    assert!(!inside("/srv/files2", "/srv/files"));
    assert!(!inside("/srv/file", "/srv/files"));
    assert!(!inside("/srv", "/srv/files"));
    assert!(!inside("/etc/srv/files", "/srv/files"));
    assert!(!inside("srv/files", "/srv/files"));
    assert!(!inside("/srv/files", "srv/files"));
    assert!(!inside("/srv/files/..", "/srv/files/../x"));
    assert!(!inside("srv", "."));
    assert!(!inside("/srv/a", "/srv/a/.."));
}

#[test]
fn a_candidate_is_the_request_behind_the_base() {
    assert_eq!(PathValidator::new("/srv").candidate("/a/b"), Some("/srv/a/b".to_string()));
    assert_eq!(PathValidator::new("/srv/").candidate("/a/b"), Some("/srv/a/b".to_string()));
    assert_eq!(PathValidator::new("").candidate("/a/b"), Some("a/b".to_string()));
    assert_eq!(PathValidator::new("/srv").candidate("/"), Some("/srv/".to_string()));
    assert_eq!(PathValidator::new("/").candidate("/a"), Some("/a".to_string()));
    // a request that begins at the root again stands alone
    assert_eq!(PathValidator::new("/srv").candidate("//etc/passwd"), Some("/etc/passwd".to_string()));
    assert_eq!(PathValidator::new("srv").candidate("/../x"), Some("srv/../x".to_string()));
}

#[test]
fn an_entry_is_seen_from_the_base_that_it_lies_in() {
    let path_of = |path: &str, base: &str| {
        OfflineFilesRepo::create_file_info(&entry(path, Some("x"), false), base).unwrap().path
    };
    assert_eq!(path_of("/srv/a/b.txt", "/srv"), "/a/b.txt");
    assert_eq!(path_of("/srv/a/b.txt", "/srv/"), "/a/b.txt");
    assert_eq!(path_of("/srv//a/./b.txt", "/srv"), "/a/b.txt");
    assert_eq!(path_of("/srv/a", "/srv/a"), "/");
    assert_eq!(path_of("/srv/a/../b", "/srv"), "/a/../b");
    assert_eq!(path_of("/srv/a/", "/"), "/srv/a");
    assert_eq!(path_of("srv/a/b", "srv"), "/a/b");
}
