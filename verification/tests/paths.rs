use fs_caching_server::paths::{cache_path, decoded_path, PathError};
use std::path::{Path, PathBuf};

#[test]
fn cache_paths_stay_under_the_cache_root() {
    let directory = tempfile::tempdir().unwrap();
    let root = directory.path().to_str().unwrap();
    assert!(matches!(
        cache_path(root, "/a/b.png"),
        Ok(path) if Path::new(&path) == directory.path().join("a/b.png")
    ));
    assert!(cache_path(root, "/a/../secret.png").is_err());
    assert!(cache_path(root, "/a/%2e%2e/secret.png").is_ok());
}

#[test]
fn percent_encoded_paths_are_decoded_before_matching() {
    assert!(matches!(
        decoded_path("/images/hello%20world.png"),
        Ok(path) if path == "/images/hello world.png"
    ));
    assert!(decoded_path("/%ff.png").is_err());
}

#[test]
fn escapes_are_decoded_as_bytes() {
    assert_eq!(decoded_path("/%C3%a9.gz").unwrap(), "/\u{e9}.gz");
    assert_eq!(decoded_path("/%2e%2E/a").unwrap(), "/../a");
    assert_eq!(decoded_path("/%252e").unwrap(), "/%2e");
    assert_eq!(decoded_path("/100%").unwrap(), "/100%");
    assert_eq!(decoded_path("/%4").unwrap(), "/%4");
    assert_eq!(decoded_path("/%g0%zz").unwrap(), "/%g0%zz");
    assert_eq!(decoded_path("/a+b").unwrap(), "/a+b");
    assert_eq!(decoded_path("").unwrap(), "");
}

#[test]
fn escapes_that_are_not_utf8_are_refused() {
    assert_eq!(decoded_path("/%ff.png"), Err(PathError::NotUtf8));
    assert_eq!(decoded_path("/%c3"), Err(PathError::NotUtf8));
    assert_eq!(decoded_path("/%ed%a0%80"), Err(PathError::NotUtf8));
}

#[test]
fn plain_paths_are_their_own_decoding() {
    for path in ["/", "/a/b.png", "/\u{65e5}\u{672c}/x y", "no slash"] {
        assert_eq!(decoded_path(path).unwrap(), path);
    }
}

#[test]
fn cache_paths_leave_out_what_does_not_count() {
    assert_eq!(cache_path("/cache", "/a//./b.gz").unwrap(), "/cache/a/b.gz");
    assert_eq!(cache_path("/cache", "a/b.gz").unwrap(), "/cache/a/b.gz");
    assert_eq!(cache_path("/cache", "/a/").unwrap(), "/cache/a");
    assert_eq!(cache_path("/cache", "/").unwrap(), "/cache");
    assert_eq!(cache_path("/cache", "").unwrap(), "/cache");
    assert_eq!(cache_path("/cache", "/.../..a/b..").unwrap(), "/cache/.../..a/b..");
}

#[test]
fn cache_paths_that_climb_are_refused() {
    for path in ["..", "/..", "/a/..", "/a/../b", "../a", "/a//..//b"] {
        assert_eq!(cache_path("/cache", path), Err(PathError::EscapesCacheDirectory));
    }
}

#[test]
fn cache_paths_are_those_that_pushing_gives() {
    for root in ["", ".", "/", "/cache", "/cache/", "relative", "a/../b", "a//"] {
        for path in ["/", "/x", "/x/y.gz", "x//y/./z/", "/.hidden"] {
            let mut expected = PathBuf::from(root);
            for component in path.split('/') {
                if !component.is_empty() && component != "." {
                    expected.push(component);
                }
            }
            assert_eq!(cache_path(root, path).unwrap(), expected.to_str().unwrap());
        }
    }
}

#[test]
fn different_segments_give_different_files() {
    let files: Vec<String> = ["/a/b", "/ab", "/a", "/b/a", "/a b"]
        .iter()
        .map(|path| cache_path("/cache", path).unwrap())
        .collect();
    for (i, left) in files.iter().enumerate() {
        for (j, right) in files.iter().enumerate() {
            assert_eq!(left == right, i == j);
        }
    }
    assert_eq!(cache_path("/cache", "/a//b/.").unwrap(), cache_path("/cache", "/a/b").unwrap());
}
