use fs_caching_server::config::{
    backend_path, check_settings, listen_address, log_filter, written_size, ConfigError, Location,
    RuntimeConfig, DEFAULT_REGEX,
};

fn config(url: &str, regex: &str) -> RuntimeConfig {
    RuntimeConfig::new("/cache", url, regex).unwrap()
}

#[test]
fn log_filters_go_by_the_flag() {
    assert_eq!(log_filter(false), "info");
    assert_eq!(log_filter(true), "info,fs_caching_server=debug");
}

#[test]
fn addresses_are_host_and_port() {
    assert_eq!(listen_address("0.0.0.0", 8080), "0.0.0.0:8080");
    assert_eq!(listen_address("[::1]", 0), "[::1]:0");
    assert_eq!(listen_address("", 65535), ":65535");
}

#[test]
fn urls_must_be_urls() {
    let error = RuntimeConfig::new("/cache", "pkgsrc.smartos.org", DEFAULT_REGEX).unwrap_err();
    let reason = reqwest::Url::parse("pkgsrc.smartos.org").unwrap_err().to_string();
    assert!(matches!(error, ConfigError::InvalidUrl(message) if message == reason));
}

#[test]
fn urls_must_use_http_or_https() {
    for url in ["ftp://example.org/", "file:///tmp", "data:x"] {
        let error = RuntimeConfig::new("/cache", url, DEFAULT_REGEX).unwrap_err();
        assert!(matches!(error, ConfigError::UnsupportedScheme));
    }
    for url in ["http://example.org", "HTTPS://example.org/x"] {
        assert!(RuntimeConfig::new("/cache", url, DEFAULT_REGEX).is_ok());
    }
}

#[test]
fn patterns_must_be_regular_expressions() {
    let error = RuntimeConfig::new("/cache", "http://example.org", "(").unwrap_err();
    assert!(matches!(error, ConfigError::InvalidRegex(_)));
}

#[test]
fn urls_are_looked_at_before_patterns() {
    let error = RuntimeConfig::new("/cache", "nothing", "(").unwrap_err();
    assert!(matches!(error, ConfigError::InvalidUrl(_)));
    let error = RuntimeConfig::new("/cache", "ftp://example.org", "(").unwrap_err();
    assert!(matches!(error, ConfigError::UnsupportedScheme));
}

#[test]
fn settings_go_by_what_was_read() {
    let location = |scheme: &str| Location {
        text: "x".to_owned(),
        scheme: scheme.to_owned(),
        path: "/".to_owned(),
        query: None,
        fragment: None,
    };
    assert!(check_settings(Ok(location("http")), Ok(())).is_ok());
    assert_eq!(check_settings(Ok(location("https")), Ok(())).unwrap().path, "/");
    assert!(matches!(
        check_settings(Ok(location("httpx")), Ok(())),
        Err(ConfigError::UnsupportedScheme)
    ));
    assert!(matches!(
        check_settings(Err("reason".to_owned()), Ok(())),
        Err(ConfigError::InvalidUrl(message)) if message == "reason"
    ));
    let broken = Err(regex::Error::Syntax("reason".to_owned()));
    assert!(matches!(
        check_settings(Ok(location("http")), broken),
        Err(ConfigError::InvalidRegex(regex::Error::Syntax(reason))) if reason == "reason"
    ));
}

#[test]
fn the_directory_is_kept() {
    assert_eq!(config("http://example.org", DEFAULT_REGEX).cache_dir(), "/cache");
}

#[test]
fn web_assets_and_archives_match_unless_set_otherwise() {
    let config = config("http://example.org", DEFAULT_REGEX);
    for ending in [
        "css", "gif", "html", "ico", "jpeg", "jpg", "js", "png", "svg", "webp", "woff", "woff2",
        "gz", "tgz", "zst",
    ] {
        assert!(config.matches(&format!("/a.{}", ending)));
        assert!(config.matches(&format!("/a b.tar.{}", ending)));
        assert!(config.matches(&format!(".{}", ending)));
        assert!(!config.matches(&format!("/a{}", ending)));
        assert!(!config.matches(&format!("/a.{}/", ending)));
        assert!(!config.matches(&format!("/a.{}\n", ending)));
        assert!(!config.matches(&format!("/a.{}x", ending)));
        assert!(!config.matches(&format!("/a.x{}", ending)));
        assert!(!config.matches(&format!("/a.{}", ending.to_uppercase())));
    }
    for path in ["/", "", "/a", "/a.", "/a.gz|tgz", "/a.txt"] {
        assert!(!config.matches(path));
    }
}

#[test]
fn other_patterns_can_be_set() {
    let config = config("http://example.org", "^/images/.*\\.png$");
    assert!(config.matches("/images/hello world.png"));
    assert!(!config.matches("/hello.png"));
}

#[test]
fn request_paths_go_behind_the_backend_path() {
    assert_eq!(backend_path("/", "/a.gz"), "/a.gz");
    assert_eq!(backend_path("", "/a.gz"), "/a.gz");
    assert_eq!(backend_path("/pkg", "/a.gz"), "/pkg/a.gz");
    assert_eq!(backend_path("/pkg/", "/a.gz"), "/pkg/a.gz");
    assert_eq!(backend_path("/pkg//x///", "/a.gz/"), "/pkg//x/a.gz/");
    assert_eq!(backend_path("///", ""), "");
}

#[test]
fn backend_urls_take_path_and_query() {
    let root = config("https://pkgsrc.smartos.org/", DEFAULT_REGEX);
    assert_eq!(
        root.backend_url("/packages/a.tgz", None).unwrap(),
        "https://pkgsrc.smartos.org/packages/a.tgz"
    );
    assert_eq!(
        root.backend_url("/a%20b.tgz", Some("x=1&y=%2f")).unwrap(),
        "https://pkgsrc.smartos.org/a%20b.tgz?x=1&y=%2f"
    );
    assert_eq!(root.backend_url("/", Some("")).unwrap(), "https://pkgsrc.smartos.org/?");
    let deep = config("http://user@example.org:81/mirror/?old=1#here", DEFAULT_REGEX);
    assert_eq!(
        deep.backend_url("/a.gz", None).unwrap(),
        "http://user@example.org:81/mirror/a.gz#here"
    );
    assert_eq!(
        deep.backend_url("/a b?.gz", Some("q")).unwrap(),
        "http://user@example.org:81/mirror/a%20b%3F.gz?q#here"
    );
}

#[test]
fn backend_urls_are_those_of_setting_path_and_query() {
    let backend = config("http://example.org/base/", DEFAULT_REGEX);
    for path in ["/", "/a/../b", "//x", "/%zz", "/\u{e9}", "*"] {
        for query in [None, Some(""), Some("a=b"), Some("\u{e9} #")] {
            let mut expected = reqwest::Url::parse("http://example.org/base/").unwrap();
            let base = expected.path().trim_end_matches('/').to_owned();
            expected.set_path(&format!("{}{}", base, path));
            expected.set_query(query);
            assert_eq!(backend.backend_url(path, query).unwrap(), expected.as_str());
        }
    }
}

#[test]
fn sizes_are_those_in_the_url() {
    let base = "http://example.org/";
    for code in 0..=255u8 {
        let text = (code as char).to_string();
        let mut with_path = reqwest::Url::parse(base).unwrap();
        with_path.set_path(&text);
        let path = with_path.as_str().len() as u128 - base.len() as u128;
        let mut with_query = reqwest::Url::parse(base).unwrap();
        with_query.set_query(Some(&text));
        let query = with_query.as_str().len() as u128 - base.len() as u128 - 1;
        match text.as_str() {
            // These are the slash at the start, or a segment for it.
            "/" | "\\" | "." => {
                assert!(path <= 1);
                assert_eq!((written_size(&text, false), written_size(&text, true)), (1, query));
            }
            _ => {
                assert_eq!(written_size(&text, false), path);
                assert_eq!(written_size(&text, true), query);
            }
        }
    }
    assert_eq!(written_size("", false), 0);
    assert_eq!(written_size("\t\r\n", false), 0);
    assert_eq!(written_size("a\tb\n", true), 2);
    assert_eq!(written_size("/a b\u{e9}?", false), 15);
    assert_eq!(written_size("/a b\u{e9}?'", true), 16);
}

#[test]
fn long_parts_are_put_together() {
    let backend = config("http://example.org/base/", DEFAULT_REGEX);
    let long = "x".repeat(1 << 20);
    let url = backend.backend_url(&format!("/{}", long), Some(&long)).unwrap();
    assert_eq!(url, format!("http://example.org/base/{}?{}", long, long));
}

#[test]
fn queries_and_fragments_of_the_backend_do_not_count() {
    let long = "x".repeat(1 << 20);
    let url = format!("http://example.org/base/?{}#{}", long, long);
    let backend = config(&url, DEFAULT_REGEX);
    assert_eq!(
        backend.backend_url("/a", Some("q")).unwrap(),
        format!("http://example.org/base/a?q#{}", long)
    );
    assert_eq!(
        backend.backend_url("/a", None).unwrap(),
        format!("http://example.org/base/a#{}", long)
    );
}

#[test]
fn the_path_is_set_before_the_query() {
    let backend = config("http://example.org/base/?old=1", DEFAULT_REGEX);
    assert_eq!(backend.backend_url("/a?b", Some("c?d")).unwrap(), "http://example.org/base/a%3Fb?c?d");
    assert_eq!(backend.backend_url("/a", None).unwrap(), "http://example.org/base/a");
}
