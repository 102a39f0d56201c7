use exfat_utils::modfs::{find_duplicate, is_abspath, ModfsParam, Path, PathConflict};

#[test]
fn path_accessors() {
    let p = Path::new(String::from("/src/dir/file"), 4, false);
    assert_eq!(p.get_src(), "/src/dir/file");
    assert_eq!(p.get_dst(), "/dir/file");
    assert!(!p.is_dir());
    let d = Path::new(String::from("/src/dir"), 4, true);
    assert_eq!(d.get_dst(), "/dir");
    assert!(d.is_dir());
}

#[test]
fn abspath_test() {
    assert!(is_abspath("/"));
    assert!(is_abspath("/a/b"));
    assert!(!is_abspath("a/b"));
    assert!(!is_abspath(""));
}

#[test]
fn modfs_param_keeps_policy() {
    assert_eq!(ModfsParam::new(PathConflict::Unlink).pc, PathConflict::Unlink);
    assert_eq!(ModfsParam::new(PathConflict::Fail).pc, PathConflict::Fail);
}

#[test]
fn no_duplicate_destinations() {
    let v = vec![
        Path::new(String::from("/a/x"), 2, false),
        Path::new(String::from("/a/y"), 2, false),
    ];
    assert_eq!(find_duplicate(&v), None);
}

#[test]
fn duplicate_files_detected() {
    // the same destination from two different sources
    let v = vec![
        Path::new(String::from("/a/x"), 2, false),
        Path::new(String::from("/b/y"), 2, false),
        Path::new(String::from("/b/x"), 2, false),
    ];
    assert_eq!(find_duplicate(&v), Some((0, 2)));
}

#[test]
fn duplicate_directories_allowed() {
    // two directories with the same destination do not collide
    let v = vec![
        Path::new(String::from("/a/d"), 2, true),
        Path::new(String::from("/b/d"), 2, true),
    ];
    assert_eq!(find_duplicate(&v), None);
}

#[test]
fn duplicate_dir_and_file_detected() {
    let v = vec![
        Path::new(String::from("/a/d"), 2, true),
        Path::new(String::from("/b/d"), 2, false),
    ];
    assert_eq!(find_duplicate(&v), Some((0, 1)));
}
