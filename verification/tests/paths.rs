//! Paths, held against the standard library.

use std::path::Path;

use cgroups_rs::fs::paths::{file_name, join, parent};

/// All texts of at most `len` characters from an alphabet of a slash, a dot and letters.
fn texts(len: usize) -> Vec<String> {
    let mut all = vec![String::new()];
    let mut last = all.clone();
    for _ in 0..len {
        let mut next = Vec::new();
        for s in &last {
            for c in ['/', '.', 'a', '\u{e9}'] {
                next.push(format!("{}{}", s, c));
            }
        }
        all.extend(next.iter().cloned());
        last = next;
    }
    all
}

fn text(p: &Path) -> String {
    p.to_str().unwrap().to_string()
}

fn as_text(p: Option<Vec<u8>>) -> Option<String> {
    p.map(|b| String::from_utf8(b).unwrap())
}

#[test]
fn parents_and_names_are_those_of_the_standard_library() {
    for s in texts(7) {
        let p = Path::new(&s);
        assert_eq!(as_text(parent(s.as_bytes())), p.parent().map(text), "{}", s);
        let name = p.file_name().map(|n| n.to_str().unwrap().to_string());
        assert_eq!(as_text(file_name(s.as_bytes())), name, "{}", s);
    }
}

#[test]
fn paths_are_joined_as_the_standard_library_joins_them() {
    for dir in texts(3) {
        for name in texts(3) {
            let joined = String::from_utf8(join(dir.as_bytes(), &name)).unwrap();
            assert_eq!(joined, text(&Path::new(&dir).join(&name)), "{} {}", dir, name);
        }
    }
}

#[test]
fn known_paths() {
    assert_eq!(parent(b"/sys/fs/cgroup/a"), Some(b"/sys/fs/cgroup".to_vec()));
    assert_eq!(parent(b"a"), Some(Vec::new()));
    assert_eq!(parent(b"/"), None);
    assert_eq!(file_name(b"/sys/fs/cgroup/a/./"), Some(b"a".to_vec()));
    assert_eq!(file_name(b".."), None);
    assert_eq!(join(b"/a", "b"), b"/a/b");
    // What was joined is the name.
    assert_eq!(file_name(&join(b"/x//", "memory.events")), Some(b"memory.events".to_vec()));
}
