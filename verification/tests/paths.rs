use glass_easel_analyzer::paths::{
    add_file_extension, ensure_file_extension, join_unix_rel_path, split_slashes, unix_rel_path,
    PathError, UnixPath,
};

fn path(absolute: bool, parts: &[&str]) -> UnixPath {
    UnixPath { absolute, parts: parts.iter().map(|x| x.to_string()).collect() }
}

fn parts(p: &UnixPath) -> Vec<&str> {
    p.parts.iter().map(|x| x.as_str()).collect()
}

#[test]
fn relative_path_joins_remaining_components() {
    let base = path(true, &["proj"]);
    let target = path(true, &["proj", "pages", "index.wxml"]);
    assert_eq!(unix_rel_path(&base, &target), Ok("pages/index.wxml".to_string()));
    assert_eq!(unix_rel_path(&base, &base), Ok(String::new()));
}

#[test]
fn relative_path_outside_base_is_an_error() {
    let base = path(true, &["proj"]);
    let target = path(true, &["other", "a"]);
    assert_eq!(unix_rel_path(&base, &target), Err(PathError::NotUnderBase));
    assert_eq!(unix_rel_path(&base, &path(false, &["proj", "a"])), Err(PathError::NotUnderBase));
}

#[test]
fn split_keeps_empty_pieces() {
    assert_eq!(split_slashes("a//b/"), vec!["a", "", "b", ""]);
    assert_eq!(split_slashes(""), vec![""]);
}

#[test]
fn join_follows_dot_and_dot_dot() {
    let base = path(true, &["proj", "pages", "a"]);
    let limit = path(true, &["proj"]);
    let r = join_unix_rel_path(&base, "./b/../c.wxss", &limit).unwrap();
    assert!(r.absolute);
    assert_eq!(parts(&r), vec!["proj", "pages", "a", "c.wxss"]);
    let r = join_unix_rel_path(&base, "../../x", &limit).unwrap();
    assert_eq!(parts(&r), vec!["proj", "x"]);
}

#[test]
fn join_from_root_starts_at_limit() {
    let base = path(true, &["proj", "pages"]);
    let limit = path(true, &["proj"]);
    let r = join_unix_rel_path(&base, "/common/a.wxss", &limit).unwrap();
    assert_eq!(parts(&r), vec!["proj", "common", "a.wxss"]);
}

#[test]
fn join_leaving_limit_is_an_error() {
    let base = path(true, &["proj", "pages"]);
    let limit = path(true, &["proj"]);
    assert_eq!(
        join_unix_rel_path(&base, "../../etc", &limit).map(|p| p.parts),
        Err(PathError::InvalidRelativePath)
    );
    // leaving and coming back still fails at the step that leaves
    assert_eq!(
        join_unix_rel_path(&base, "../../proj/pages", &limit).map(|p| p.parts),
        Err(PathError::InvalidRelativePath)
    );
}

#[test]
fn extension_is_added_to_the_file_name() {
    let p = path(true, &["a", "b"]);
    let r = add_file_extension(&p, "wxss").unwrap();
    assert_eq!(parts(&r), vec!["a", "b.wxss"]);
    assert!(add_file_extension(&path(true, &[]), "wxss").is_none());
    assert!(add_file_extension(&path(false, &["a", ".."]), "wxss").is_none());
}

#[test]
fn ensure_extension_keeps_a_matching_one() {
    let p = path(true, &["a", "b.wxss"]);
    assert_eq!(parts(&ensure_file_extension(&p, "wxss").unwrap()), vec!["a", "b.wxss"]);
    let p = path(true, &["a", "b.wxml"]);
    assert_eq!(parts(&ensure_file_extension(&p, "wxss").unwrap()), vec!["a", "b.wxml.wxss"]);
    // a leading dot does not start an extension
    let p = path(true, &["a", ".wxss"]);
    assert_eq!(parts(&ensure_file_extension(&p, "wxss").unwrap()), vec!["a", ".wxss.wxss"]);
}

#[test]
fn joined_paths_stay_under_the_limit() {
    let limit = path(true, &["proj"]);
    let base = path(true, &["proj", "pages", "a"]);
    for rel in ["", "..", "../..", "/x/../y", "b/./c", "../../../z", "/.."] {
        match join_unix_rel_path(&base, rel, &limit) {
            Ok(p) => {
                assert!(p.absolute);
                assert_eq!(p.parts[0], "proj");
            }
            Err(e) => assert_eq!(e, PathError::InvalidRelativePath),
        }
    }
    assert_eq!(join_unix_rel_path(&base, "../../..", &limit).err(), Some(PathError::InvalidRelativePath));
}

#[test]
fn relative_path_joined_back_gives_the_target() {
    let limit = path(true, &["proj"]);
    let base = path(true, &["proj", "pages"]);
    for target in [path(true, &["proj", "pages"]), path(true, &["proj", "pages", "a", "b.wxml"])] {
        let rel = unix_rel_path(&base, &target).unwrap();
        let joined = join_unix_rel_path(&base, &rel, &limit).unwrap();
        assert_eq!(parts(&joined), parts(&target));
        assert_eq!(joined.absolute, target.absolute);
    }
}

#[test]
fn ensuring_an_extension_twice_changes_nothing_more() {
    let p = path(true, &["proj", "comp"]);
    let once = ensure_file_extension(&p, "wxml").unwrap();
    assert_eq!(parts(&once), vec!["proj", "comp.wxml"]);
    let twice = ensure_file_extension(&once, "wxml").unwrap();
    assert_eq!(parts(&twice), parts(&once));
}

#[test]
fn ensuring_an_extension_twice_keeps_the_path() {
    for p in [path(true, &["a", "b"]), path(true, &["a", "b.wxss"]), path(false, &["x.wxml"]), path(true, &[".hidden"])] {
        let once = ensure_file_extension(&p, "wxss").unwrap();
        let twice = ensure_file_extension(&once, "wxss").unwrap();
        assert_eq!(parts(&once), parts(&twice));
        assert!(once.parts.last().unwrap().ends_with(".wxss"));
    }
    assert!(ensure_file_extension(&path(true, &["a", "."]), "wxss").is_none());
}
