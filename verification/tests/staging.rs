use fs_caching_server::staging::{fresh_temporary_name, parent, temporary_name, with_file_name};
use std::path::Path;

const PATHS: [&str; 20] = [
    "", "/", ".", "..", "a", "a/b", "/a", "/a/", "/a/b.gz", "a//b", "a/b//", "a/.", "a/./", "./a",
    "a/..", "../..", "//", "./", "/.", "a/b/./.",
];

#[test]
fn names_are_replaced_as_std_replaces_them() {
    for path in PATHS {
        assert_eq!(
            Path::new(&with_file_name(path, ".tmp")),
            Path::new(path).with_file_name(".tmp"),
            "{}",
            path
        );
    }
    assert_eq!(with_file_name("/cache/a/b.gz", ".x"), "/cache/a/.x");
    assert_eq!(with_file_name("b.gz", ".x"), ".x");
}

#[test]
fn parents_are_those_of_std() {
    for path in PATHS {
        let directory = parent(path);
        assert_eq!(directory.as_deref().map(Path::new), Path::new(path).parent(), "{}", path);
    }
    assert_eq!(parent("/cache/a/b.gz").unwrap(), "/cache/a/");
    assert_eq!(parent("b.gz").unwrap(), "");
    assert_eq!(parent("/"), None);
    assert_eq!(parent(""), None);
}

#[test]
fn temporary_names_hold_their_identifier() {
    let id = "67e55044-10b1-426f-9247-bb680e5fe0c8";
    assert_eq!(
        temporary_name(id),
        ".67e55044-10b1-426f-9247-bb680e5fe0c8.in-progress"
    );
}

#[test]
fn fresh_temporary_names_have_the_form_and_differ() {
    let name = fresh_temporary_name();
    assert_ne!(name, fresh_temporary_name());
    let id = name.strip_prefix('.').unwrap().strip_suffix(".in-progress").unwrap();
    assert_eq!(id.len(), 36);
    for (i, c) in id.chars().enumerate() {
        if i == 8 || i == 13 || i == 18 || i == 23 {
            assert_eq!(c, '-');
        } else {
            assert!(c.is_ascii_digit() || ('a'..='f').contains(&c));
        }
    }
}

#[test]
fn temporary_files_lie_beside_the_cache_file() {
    let name = temporary_name("67e55044-10b1-426f-9247-bb680e5fe0c8");
    let temporary = with_file_name("/cache/a/b.gz", &name);
    assert_eq!(Path::new(&temporary).parent(), Path::new("/cache/a/b.gz").parent());
    assert_eq!(Path::new(&temporary).file_name().unwrap().to_str().unwrap(), name);
}
