use glass_easel_analyzer::import_walk::ImportWalk;

fn strings(v: &[&str]) -> Vec<String> {
    v.iter().map(|x| x.to_string()).collect()
}

fn walk(start: &str, imports: impl Fn(&str) -> Option<Vec<String>>) -> ImportWalk {
    let mut w = ImportWalk::new(start.to_string());
    while let Some(f) = w.next_file() {
        if let Some(list) = imports(&f) {
            w.enter(list);
        }
    }
    w
}

#[test]
fn imports_finish_before_their_importers_each_once() {
    // a imports b and c, b imports a, c imports b and d
    let w = walk("a", |f| {
        Some(match f {
            "a" => strings(&["b", "c"]),
            "b" => strings(&["a"]),
            "c" => strings(&["b", "d"]),
            _ => vec![],
        })
    });
    assert_eq!(w.entered, strings(&["a", "b", "c", "d"]));
    assert_eq!(w.finished, strings(&["b", "d", "c", "a"]));
    assert!(w.stack.is_empty());
}

#[test]
fn a_file_that_cannot_be_loaded_is_left_out() {
    let w = walk("a", |f| match f {
        "a" => Some(strings(&["missing", "b"])),
        "b" => Some(vec![]),
        _ => None,
    });
    assert_eq!(w.entered, strings(&["a", "missing", "b"]));
    assert_eq!(w.finished, strings(&["b", "a"]));
}

#[test]
fn a_walk_without_imports_finishes_its_start() {
    let mut w = ImportWalk::new("x".to_string());
    assert_eq!(w.next_file(), Some("x".to_string()));
    w.enter(vec![]);
    assert_eq!(w.next_file(), None);
    assert_eq!(w.finished, strings(&["x"]));
}
