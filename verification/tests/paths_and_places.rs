//! Paths, safe joining, and where the database lives.

use imgfind::locate::{
    find_db_root_upward, get_db_parent_dir, get_db_path, get_local_db_path, sibling_binary_from,
    DbPlace,
};
use imgfind::paths::{
    abs_to_relative_path, extension, file_name, parent, relative_to_abs_path, safe_join,
    starts_with, strip_prefix, with_extension, with_file_name, AbsolutePath, PathError,
    RelativePath,
};

#[test]
fn rel_abs_roundtrip_within_base() {
    let base = "/data";
    let abs = AbsolutePath("/data/sub/a.jpg".to_string());
    let rel = abs.to_relative(base).unwrap();
    assert_eq!(rel.0, "sub/a.jpg");
    assert_eq!(rel.to_absolute(base).0, abs.0);
}

#[test]
fn to_relative_errors_outside_base() {
    let base = "/data";
    let abs = AbsolutePath("/other/a.jpg".to_string());
    assert!(abs.to_relative(base).is_err());
}

#[test]
fn try_to_absolute_rejects_parent_escape() {
    let base = "/data";
    let rel = RelativePath("../../etc/passwd".to_string());
    assert!(rel.try_to_absolute(base).is_err());
    assert_eq!(
        RelativePath("/etc/passwd".to_string()).try_to_absolute(base),
        Err(PathError::EscapesRoot)
    );
}

#[test]
fn try_to_absolute_ok_for_normal_relative() {
    let base = "/data";
    let rel = RelativePath("sub/img.jpg".to_string());
    let abs = rel.try_to_absolute(base).unwrap();
    assert_eq!(abs.0, "/data/sub/img.jpg");
}

#[test]
fn prefix_is_by_component_and_keeps_the_text() {
    assert!(starts_with("/data//x/./y", "/data/x"));
    assert!(!starts_with("/database/x", "/data"));
    assert_eq!(strip_prefix("/data/a//b/", "/data").unwrap(), "a//b");
    assert_eq!(strip_prefix("/data", "/data/").unwrap(), "");
    assert_eq!(strip_prefix("/other", "/data"), None);
    assert_eq!(
        abs_to_relative_path("/other/x", "/data"),
        Err(PathError::OutsideBase)
    );
    assert_eq!(relative_to_abs_path("x", "/data"), "/data/x");
    assert_eq!(relative_to_abs_path("x", "/data/"), "/data/x");
}

#[test]
fn paths_are_equal_by_component() {
    assert!(RelativePath("a//b/".to_string()) == RelativePath("a/b".to_string()));
    assert!(RelativePath("a/b".to_string()) != RelativePath("a/c".to_string()));
    assert!(AbsolutePath("/a/./b".to_string()) == AbsolutePath("/a/b".to_string()));
    assert_eq!(AbsolutePath("/a".to_string()).as_path(), "/a");
    assert_eq!(RelativePath("a".to_string()).as_str(), "a");
    assert_eq!(AbsolutePath("/a".to_string()).as_str(), "/a");
}

#[test]
fn parents_names_and_extensions() {
    assert_eq!(parent("/a/b").unwrap(), "/a");
    assert_eq!(parent("/a").unwrap(), "/");
    assert_eq!(parent("a").unwrap(), "");
    assert_eq!(parent("/"), None);
    assert_eq!(parent(""), None);
    assert_eq!(file_name("/a/b.jpg/").unwrap(), "b.jpg");
    assert_eq!(file_name("/a/.."), None);
    assert_eq!(extension("x/photo.JPG").unwrap(), "JPG");
    assert_eq!(extension("x/.hidden"), None);
    assert_eq!(extension("a.b/c"), None);
    assert_eq!(extension("archive.tar.gz").unwrap(), "gz");
    assert_eq!(with_extension("/a/imgfind.db", "db.bak"), "/a/imgfind.db.bak");
    assert_eq!(with_extension("/a/x", "y"), "/a/x.y");
    assert_eq!(with_extension("/", "y"), "/");
    assert_eq!(with_file_name("/a/b", "c"), "/a/c");
}

#[test]
fn allows_simple_relative() {
    let base = "/srv/images";
    assert_eq!(
        safe_join(base, "a/b.jpg"),
        Some("/srv/images/a/b.jpg".to_string())
    );
}

#[test]
fn allows_internal_dotdot() {
    let base = "/srv/images";
    assert_eq!(
        safe_join(base, "a/../b.jpg"),
        Some("/srv/images/b.jpg".to_string())
    );
}

#[test]
fn rejects_parent_traversal() {
    let base = "/srv/images";
    assert_eq!(safe_join(base, "../../etc/passwd"), None);
}

#[test]
fn rejects_absolute_path() {
    let base = "/srv/images";
    assert_eq!(safe_join(base, "/etc/passwd"), None);
}

#[test]
fn rejects_climb_then_descend_escape() {
    let base = "/srv/images";
    assert_eq!(safe_join(base, "a/../../b"), None);
}

#[test]
fn find_db_root_upward_finds_at_start() {
    let found = find_db_root_upward("/lib", |p: &str| p == "/lib/.imgfind/imgfind.db");
    assert_eq!(found, Some("/lib".to_string()));
}

#[test]
fn find_db_root_upward_finds_at_ancestor() {
    let found = find_db_root_upward("/lib/a/b", |p: &str| p == "/lib/.imgfind/imgfind.db");
    assert_eq!(found, Some("/lib".to_string()));
}

#[test]
fn find_db_root_upward_none_when_absent() {
    assert_eq!(find_db_root_upward("/lib/a/b", |_p: &str| false), None);
}

#[test]
fn the_nearest_database_wins() {
    let found = find_db_root_upward("/a/b/c", |p: &str| {
        p == "/a/.imgfind/imgfind.db" || p == "/a/b/.imgfind/imgfind.db"
    });
    assert_eq!(found, Some("/a/b".to_string()));
}

#[test]
fn database_path_of_a_command() {
    let db = "/x/.imgfind/imgfind.db";
    assert!(matches!(
        get_db_path(Some("/x"), None, None, |p: &str| p == db),
        Ok(DbPlace::Existing(p)) if p == db
    ));
    assert!(matches!(
        get_db_path(Some("/y"), Some("/x"), None, |p: &str| p == db),
        Err(PathError::NoDatabase)
    ));
    assert!(matches!(
        get_db_path(None, Some("/x/y/z"), None, |p: &str| p == db),
        Ok(DbPlace::Existing(p)) if p == db
    ));
    assert!(matches!(
        get_db_path(None, Some("/q"), Some("/home/me"), |p: &str| p == db),
        Ok(DbPlace::Default { dir, file })
            if dir == "/home/me/.imgfind" && file == "/home/me/.imgfind/imgfind.db"
    ));
    assert!(matches!(
        get_db_path(None, Some("/q"), None, |_p: &str| false),
        Err(PathError::NoHomeDir)
    ));
    assert!(matches!(
        get_db_path(None, None, None, |_p: &str| true),
        Err(PathError::NoCurrentDir)
    ));
    let (dir, file) = get_local_db_path("/here");
    assert_eq!(dir, "/here/.imgfind");
    assert_eq!(file, "/here/.imgfind/imgfind.db");
}

#[test]
fn parent_directory_of_a_database() {
    assert_eq!(
        get_db_parent_dir("/path/to/parent/.imgfind/imgfind.db"),
        Ok("/path/to/parent".to_string())
    );
    assert_eq!(get_db_parent_dir("/"), Err(PathError::NoParent));
    assert_eq!(
        get_db_parent_dir("/path/imgfind.db"),
        Err(PathError::NotInImgfindDir)
    );
    assert_eq!(
        get_db_parent_dir(".imgfind/imgfind.db"),
        Ok("".to_string())
    );
}

#[test]
fn sibling_binary_prefers_existing_sibling() {
    let got = sibling_binary_from(Some("/opt/app/imgfind"), "imgfind-gui", "", |_p: &str| true);
    assert_eq!(got, "/opt/app/imgfind-gui");
    let got = sibling_binary_from(Some("/opt/app/imgfind"), "imgfind-gui", ".exe", |_p: &str| {
        true
    });
    assert_eq!(got, "/opt/app/imgfind-gui.exe");
}

#[test]
fn sibling_binary_falls_back_to_bare_name_when_missing() {
    let got = sibling_binary_from(Some("/opt/app/imgfind"), "imgfind-gui", "", |_p: &str| false);
    assert_eq!(got, "imgfind-gui");
}

#[test]
fn sibling_binary_bare_name_when_no_current_exe() {
    let got = sibling_binary_from(None, "imgfind-gui", "", |_p: &str| true);
    assert_eq!(got, "imgfind-gui");
}
