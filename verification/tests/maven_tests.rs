use gvc::error::GvcError;
use gvc::gradle::Repository;
use gvc::maven::{
    accepts_size, check_body, check_listing, judge_listing, is_private_host, matches_filters, metadata_url, order_versions,
    plugin_coordinate, repository_applies, to_ascii_lower, validate_repository_url,
    DependencyMetadata, MavenRepository, MetadataTransport, PluginPortalClient, RepositoryFactory, UrlHost,
    MAX_METADATA_BYTES,
};
use gvc::repository::{Coordinate, RepositoryClient};
use std::cell::RefCell;

struct FakeTransport {
    pages: Vec<(String, String)>,
    asked: RefCell<Vec<String>>,
}

impl FakeTransport {
    fn with(pages: Vec<(&str, &str)>) -> FakeTransport {
        FakeTransport {
            pages: pages.into_iter().map(|(u, b)| (u.to_string(), b.to_string())).collect(),
            asked: RefCell::new(Vec::new()),
        }
    }
}

impl MetadataTransport for FakeTransport {
    fn fetch(&self, url: &str) -> Option<String> {
        self.asked.borrow_mut().push(url.to_string());
        self.pages.iter().find(|(u, _)| u == url).map(|(_, b)| b.clone())
    }

    fn versions_of(&self, metadata: &str) -> Option<Vec<String>> {
        if metadata.starts_with("broken") {
            return None;
        }
        Some(
            metadata
                .split(',')
                .filter(|v| !v.is_empty())
                .map(|v| v.to_string())
                .collect(),
        )
    }

    fn metadata_of(&self, metadata: &str) -> Option<DependencyMetadata> {
        let versions = self.versions_of(metadata)?;
        Some(DependencyMetadata {
            group: "g".to_string(),
            artifact: "a".to_string(),
            latest: versions.last().cloned(),
            release: None,
            versions,
        })
    }
}

fn repository(name: &str, url: &str, filters: Vec<&str>) -> Repository {
    Repository {
        name: name.to_string(),
        url: url.to_string(),
        group_filters: filters.into_iter().map(|f| f.to_string()).collect(),
    }
}

#[test]
fn test_plugin_id_to_maven_coordinate() {
    let plugin_id = "org.jetbrains.kotlin.jvm";
    let artifact = plugin_coordinate(plugin_id).artifact;
    assert_eq!(artifact, "org.jetbrains.kotlin.jvm.gradle.plugin");
}

#[test]
fn accepts_https_repository() {
    assert!(validate_repository_url("https://repo.maven.apache.org/maven2").is_ok());
}

#[test]
fn rejects_invalid_scheme() {
    let err = validate_repository_url("ftp://example.com").unwrap_err();
    assert!(matches!(err, GvcError::ProjectValidation(_)));
}

#[test]
fn rejects_private_host() {
    let err = validate_repository_url("https://127.0.0.1/repo").unwrap_err();
    assert!(matches!(err, GvcError::ProjectValidation(_)));
}

#[test]
fn private_and_loopback_hosts_are_told() {
    for url in [
        "http://localhost/m2",
        "http://LOCALHOST:8080/m2",
        "https://10.1.2.3/m2",
        "https://172.16.0.1/m2",
        "https://172.31.255.255/m2",
        "https://192.168.1.1/m2",
        "https://127.8.8.8/m2",
        "https://[::1]/m2",
        "https://[fc00::1]/m2",
        "https://[fdff::1]/m2",
        "not a url",
        "file:///etc/passwd",
    ] {
        assert!(
            matches!(validate_repository_url(url), Err(GvcError::ProjectValidation(_))),
            "{}",
            url
        );
    }
    for url in [
        "http://repo.example.org/m2",
        "https://172.15.0.1/m2",
        "https://172.32.0.1/m2",
        "https://192.169.1.1/m2",
        "https://11.0.0.1/m2",
        "https://[fe80::1]/m2",
        "https://[2001:db8::1]/m2",
    ] {
        assert!(validate_repository_url(url).is_ok(), "{}", url);
    }
    assert!(is_private_host(&UrlHost::Domain("LocalHost".to_string())));
    assert!(!is_private_host(&UrlHost::Domain("localhost.example".to_string())));
    assert!(!is_private_host(&UrlHost::Missing));
    assert!(is_private_host(&UrlHost::Ipv4([192, 168, 0, 1])));
    assert!(!is_private_host(&UrlHost::Ipv6([0, 0, 0, 0, 0, 0, 0, 2])));
    assert_eq!(to_ascii_lower("AbZ-\u{c4}9"), "abz-\u{c4}9");
}

#[test]
fn the_metadata_address_follows_the_repository_layout() {
    assert_eq!(
        metadata_url("https://repo1.maven.org/maven2", "com.squareup.okhttp3", "okhttp"),
        "https://repo1.maven.org/maven2/com/squareup/okhttp3/okhttp/maven-metadata.xml"
    );
    assert_eq!(metadata_url("u", "", "a.b"), "u//a.b/maven-metadata.xml");
}

#[test]
fn filters_are_regular_expressions_on_the_group() {
    let filters = vec![".*google.*".to_string(), "(".to_string()];
    assert!(matches_filters("com.google.guava", &filters));
    assert!(!matches_filters("com.example", &filters));
    assert!(!matches_filters("(", &vec!["(".to_string()]));
    assert!(repository_applies(&repository("all", "https://a.example", vec![]), "anything"));
    assert!(!repository_applies(
        &repository("some", "https://a.example", vec!["^androidx\\."]),
        "com.example"
    ));
}

#[test]
fn the_first_repository_that_serves_the_group_decides() {
    let transport = FakeTransport::with(vec![
        ("https://first.example/com/example/lib/maven-metadata.xml", "9.0.0"),
        ("https://second.example/com/example/lib/maven-metadata.xml", "1.0.0,1.2.0,1.1.0"),
        ("https://third.example/com/example/lib/maven-metadata.xml", "5.0.0"),
    ]);
    let resolver = MavenRepository::with_repositories(
        transport,
        vec![
            repository("first", "https://first.example", vec![".*google.*"]),
            repository("second", "https://second.example", vec!["com\\.example"]),
            repository("third", "https://third.example", vec![]),
        ],
    )
    .unwrap();
    assert_eq!(
        resolver.fetch_latest_version("com.example", "lib", true),
        Ok(Some("1.2.0".to_string()))
    );
    assert_eq!(
        resolver.fetch_available_versions("com.example", "lib"),
        Ok(vec!["1.2.0".to_string(), "1.1.0".to_string(), "1.0.0".to_string()])
    );
    let coordinate = Coordinate::new("com.example", "lib");
    assert_eq!(
        RepositoryClient::fetch_latest_version(&resolver, &coordinate, false),
        Ok(Some("1.2.0".to_string()))
    );
}

#[test]
fn a_repository_that_does_not_serve_the_group_is_never_asked() {
    let transport = FakeTransport::with(vec![(
        "https://second.example/com/example/lib/maven-metadata.xml",
        "1.0.0",
    )]);
    let resolver = RepositoryFactory::create_maven(
        transport,
        vec![
            repository("first", "https://first.example", vec![".*google.*"]),
            repository("second", "https://second.example", vec![]),
        ],
    )
    .unwrap();
    assert_eq!(
        resolver.fetch_latest_version("com.example", "lib", true),
        Ok(Some("1.0.0".to_string()))
    );
    assert_eq!(
        resolver.fetch_latest_version("com.google.guava", "guava", true),
        Ok(None)
    );
}

#[test]
fn sources_that_fail_give_nothing_and_no_error() {
    let big = "x".repeat(MAX_METADATA_BYTES + 1);
    let transport = FakeTransport::with(vec![
        ("https://a.example/g/a/maven-metadata.xml", "broken xml"),
        ("https://b.example/g/a/maven-metadata.xml", big.as_str()),
        ("https://c.example/g/a/maven-metadata.xml", ""),
    ]);
    let resolver = MavenRepository::with_repositories(
        transport,
        vec![
            repository("a", "https://a.example", vec![]),
            repository("b", "https://b.example", vec![]),
            repository("c", "https://c.example", vec![]),
            repository("d", "https://d.example", vec![]),
        ],
    )
    .unwrap();
    assert_eq!(resolver.fetch_latest_version("g", "a", false), Ok(None));
    assert_eq!(resolver.fetch_available_versions("g", "a"), Ok(Vec::new()));
    assert!(accepts_size(&"x".repeat(MAX_METADATA_BYTES)));
    assert!(!accepts_size(&big));
    assert_eq!(MAX_METADATA_BYTES, 10 * 1024 * 1024);
    assert_eq!(check_body(None), Ok(None));
    assert_eq!(check_body(Some("abc".to_string())), Ok(Some("abc".to_string())));
    assert!(matches!(check_body(Some(big.clone())), Err(GvcError::Io(_))));
    assert!(matches!(check_listing(None), Err(GvcError::TomlParsing(_))));
    assert_eq!(check_listing(Some(vec!["1".to_string()])), Ok(Some(vec!["1".to_string()])));
}

#[test]
fn a_later_repository_is_used_where_an_earlier_one_fails() {
    let transport = FakeTransport::with(vec![
        ("https://a.example/g/a/maven-metadata.xml", "broken"),
        ("https://b.example/g/a/maven-metadata.xml", "2.0.0,2.1.0-beta"),
    ]);
    let resolver = MavenRepository::with_repositories(
        transport,
        vec![
            repository("a", "https://a.example", vec![]),
            repository("b", "https://b.example", vec![]),
        ],
    )
    .unwrap();
    assert_eq!(
        resolver.fetch_latest_version("g", "a", true),
        Ok(Some("2.0.0".to_string()))
    );
    assert_eq!(
        resolver.fetch_latest_version("g", "a", false),
        Ok(Some("2.1.0-beta".to_string()))
    );
}

#[test]
fn a_resolver_is_refused_for_a_bad_repository() {
    let bad = MavenRepository::with_repositories(
        FakeTransport::with(vec![]),
        vec![
            repository("ok", "https://ok.example", vec![]),
            repository("inside", "http://192.168.0.10/m2", vec![]),
        ],
    );
    assert!(matches!(bad, Err(GvcError::ProjectValidation(_))));
    assert!(MavenRepository::new(FakeTransport::with(vec![])).is_ok());
    let defaults = MavenRepository::with_repositories(FakeTransport::with(vec![]), vec![]).unwrap();
    assert_eq!(defaults.configured().len(), 2);
    assert_eq!(defaults.configured()[0].name, "Maven Central");
}

#[test]
fn the_default_repositories_are_central_and_google() {
    let transport = FakeTransport::with(vec![
        ("https://repo1.maven.org/maven2/androidx/core/core/maven-metadata.xml", ""),
        (
            "https://dl.google.com/dl/android/maven2/androidx/core/core/maven-metadata.xml",
            "1.12.0",
        ),
        (
            "https://dl.google.com/dl/android/maven2/com/example/x/maven-metadata.xml",
            "3.0.0",
        ),
    ]);
    let resolver = MavenRepository::new(transport).unwrap();
    assert_eq!(
        resolver.fetch_latest_version("androidx.core", "core", true),
        Ok(Some("1.12.0".to_string()))
    );
    assert_eq!(resolver.fetch_latest_version("com.example", "x", true), Ok(None));
}

#[test]
fn versions_are_ordered_newest_first_without_repetition() {
    let listed: Vec<String> = ["1.0.0", "2.0.0", "1.5.0", "2.0.0", "1.0.0-rc1", "1.5.0"]
        .iter()
        .map(|v| v.to_string())
        .collect();
    assert_eq!(
        order_versions(&listed),
        vec!["2.0.0", "1.5.0", "1.0.0", "1.0.0-rc1"]
    );
    let alike: Vec<String> = ["01.0", "1.0", "0.9"].iter().map(|v| v.to_string()).collect();
    assert_eq!(order_versions(&alike), vec!["1.0", "01.0", "0.9"]);
    let turned: Vec<String> = ["0.9", "1.0", "01.0"].iter().map(|v| v.to_string()).collect();
    assert_eq!(order_versions(&turned), vec!["1.0", "01.0", "0.9"]);
    assert_eq!(order_versions(&Vec::new()), Vec::<String>::new());
}

#[test]
fn plugins_are_looked_up_under_their_marker_artifact() {
    let transport = FakeTransport::with(vec![(
        "https://plugins.gradle.org/m2/org/jetbrains/kotlin/jvm/org.jetbrains.kotlin.jvm.gradle.plugin/maven-metadata.xml",
        "1.9.0,2.0.0,2.1.0-RC",
    )]);
    let portal = PluginPortalClient::new(transport).unwrap();
    assert_eq!(
        portal.fetch_latest_plugin_version("org.jetbrains.kotlin.jvm", true),
        Ok(Some("2.0.0".to_string()))
    );
    assert_eq!(
        portal.fetch_available_plugin_versions("org.jetbrains.kotlin.jvm"),
        Ok(vec!["2.1.0-RC".to_string(), "2.0.0".to_string(), "1.9.0".to_string()])
    );
    let coordinate = Coordinate::plugin("org.jetbrains.kotlin.jvm");
    assert_eq!(coordinate.group, coordinate.artifact);
    assert_eq!(
        portal.fetch_latest_version(&coordinate, false),
        Ok(Some("2.1.0-RC".to_string()))
    );
    assert_eq!(portal.fetch_latest_plugin_version("unknown.plugin", true), Ok(None));
    assert_eq!(plugin_coordinate("a.b").group, "a.b");
}

#[test]
fn metadata_comes_from_the_first_repository_that_has_any() {
    let transport = FakeTransport::with(vec![
        ("https://a.example/g/a/maven-metadata.xml", "broken"),
        ("https://b.example/g/a/maven-metadata.xml", "1.0,2.0"),
    ]);
    let resolver = MavenRepository::with_repositories(
        transport,
        vec![
            repository("a", "https://a.example", vec!["never"]),
            repository("b", "https://b.example", vec!["never"]),
        ],
    )
    .unwrap();
    let found = resolver.fetch_metadata("g", "a").unwrap().unwrap();
    assert_eq!(found.versions, vec!["1.0".to_string(), "2.0".to_string()]);
    assert_eq!(found.latest, Some("2.0".to_string()));
    assert!(resolver.fetch_metadata("g", "other").unwrap().is_none());
}

#[test]
fn the_next_repository_is_the_next_one_that_serves_the_group() {
    let resolver = MavenRepository::with_repositories(
        FakeTransport::with(vec![]),
        vec![
            repository("google", "https://a.example", vec![".*google.*"]),
            repository("all", "https://b.example", vec![]),
            repository("android", "https://c.example", vec!["^androidx?\\."]),
            repository("example", "https://d.example", vec!["^com\\.example$", "("]),
        ],
    )
    .unwrap();
    assert_eq!(resolver.next_repository("com.example", 0), Some(1));
    assert_eq!(resolver.next_repository("com.example", 1), Some(1));
    assert_eq!(resolver.next_repository("com.example", 2), Some(3));
    assert_eq!(resolver.next_repository("com.example", 4), None);
    assert_eq!(resolver.next_repository("com.example", 9), None);
    assert_eq!(resolver.next_repository("com.google.guava", 0), Some(0));
    assert_eq!(resolver.next_repository("androidx.core", 2), Some(2));
    assert_eq!(resolver.next_repository("org.other", 2), None);
}

#[test]
fn only_a_listing_with_versions_ends_the_search() {
    let listed = vec!["1.0".to_string()];
    assert_eq!(judge_listing(Ok(Some(listed.clone()))), Some(listed));
    assert_eq!(judge_listing(Ok(Some(Vec::new()))), None);
    assert_eq!(judge_listing(Ok(None)), None);
    assert_eq!(judge_listing(Err(GvcError::Io("down".to_string()))), None);
}

#[test]
fn a_refused_url_is_named_in_the_message() {
    let message = |url: &str| match validate_repository_url(url) {
        Err(GvcError::ProjectValidation(m)) => m,
        other => panic!("not refused: {:?}", other),
    };
    assert_eq!(message("not a url"), "Invalid repository URL: not a url");
    assert_eq!(message("ftp://example.com/repo"), "Unsupported repository scheme: ftp");
    assert_eq!(message("http://LocalHost/repo"), "Repository host 'localhost' is not allowed");
    assert_eq!(message("https://192.168.1.10/m2"), "Repository host '192.168.1.10' is not allowed");
    assert_eq!(message("https://[::1]/m2"), "Repository host '[::1]' is not allowed");
}
