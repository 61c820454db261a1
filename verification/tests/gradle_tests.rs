use gvc::gradle::{strip_trailing_slashes, GradleConfigParser, Repository};

#[test]
fn test_extract_kotlin_dsl() {
    let content = r#"
repositories {
    mavenCentral()
    google()
    maven { url = uri("https://jitpack.io") }
}
        "#;

    let parser = GradleConfigParser::new(".");
    let repos = parser.extract_repositories_kotlin(content).unwrap();

    assert_eq!(repos.len(), 3);
    assert!(repos
        .iter()
        .any(|r| r.url == "https://repo1.maven.org/maven2"));
    assert!(repos.iter().any(|r| r.url == "https://jitpack.io"));
}

#[test]
fn test_extract_groovy_dsl() {
    let content = r#"
repositories {
    mavenCentral()
    google()
    maven { url 'https://jitpack.io' }
}
        "#;

    let parser = GradleConfigParser::new(".");
    let repos = parser.extract_repositories_groovy(content).unwrap();

    assert_eq!(repos.len(), 3);
    assert!(repos.iter().any(|r| r.url == "https://jitpack.io"));
}

#[test]
fn test_deduplicate() {
    let repos = vec![
        Repository {
            name: "Maven Central".to_string(),
            url: "https://repo1.maven.org/maven2".to_string(),
            group_filters: Vec::new(),
        },
        Repository {
            name: "Maven Central".to_string(),
            url: "https://repo1.maven.org/maven2/".to_string(),
            group_filters: Vec::new(),
        },
        Repository {
            name: "Google".to_string(),
            url: "https://dl.google.com/dl/android/maven2".to_string(),
            group_filters: Vec::new(),
        },
    ];

    let parser = GradleConfigParser::new(".");
    let unique = parser.deduplicate_repositories(repos);

    assert_eq!(unique.len(), 2);
}

#[test]
fn deduplicate_keeps_the_first_and_its_filters() {
    let repos = vec![
        Repository {
            name: "First".to_string(),
            url: "https://example.org/m2//".to_string(),
            group_filters: vec!["a.*".to_string()],
        },
        Repository {
            name: "Second".to_string(),
            url: "https://example.org/m2".to_string(),
            group_filters: Vec::new(),
        },
    ];
    let unique = GradleConfigParser::new(".").deduplicate_repositories(repos);
    assert_eq!(unique.len(), 1);
    assert_eq!(unique[0].name, "First");
    assert_eq!(unique[0].url, "https://example.org/m2");
    assert_eq!(unique[0].group_filters, vec!["a.*".to_string()]);
    assert_eq!(strip_trailing_slashes("///"), "");
}

#[test]
fn shorten_url_gives_the_host() {
    assert_eq!(GradleConfigParser::shorten_url("https://jitpack.io/path/x"), "jitpack.io");
    assert_eq!(GradleConfigParser::shorten_url("https://jitpack.io"), "jitpack.io");
    assert_eq!(GradleConfigParser::shorten_url("jitpack.io/x"), "jitpack.io/x");
    assert_eq!(GradleConfigParser::shorten_url("a://"), "");
}

#[test]
fn custom_repositories_are_named_by_their_host() {
    let parser = GradleConfigParser::new(".");
    let kotlin = parser
        .extract_repositories_kotlin("gradlePluginPortal()\nmaven(\"https://a.example/m2\")\nmaven { url = uri('https://b.example/x') }")
        .unwrap();
    let names: Vec<&str> = kotlin.iter().map(|r| r.name.as_str()).collect();
    assert_eq!(
        names,
        vec!["Gradle Plugin Portal", "Custom (b.example)", "Custom (a.example)"]
    );
    let groovy = parser
        .extract_repositories_groovy("jcenter()\nmaven { url = \"https://c.example\" }")
        .unwrap();
    assert_eq!(groovy.len(), 2);
    assert_eq!(groovy[0].url, "https://jcenter.bintray.com");
    assert_eq!(groovy[1].url, "https://c.example");
    assert_eq!(groovy[1].name, "Custom (c.example)");
}

#[test]
fn sources_fall_back_to_the_defaults() {
    let parser = GradleConfigParser::new("project");
    assert_eq!(parser.path(), "project");
    let config = parser.parse_sources(None, Some("nothing here"), None, None);
    let urls: Vec<&str> = config.repositories.iter().map(|r| r.url.as_str()).collect();
    assert_eq!(
        urls,
        vec![
            "https://repo1.maven.org/maven2",
            "https://dl.google.com/dl/android/maven2"
        ]
    );
    assert_eq!(config.repositories[1].group_filters.len(), 3);
    assert_eq!(parser.get_default_repositories().len(), 2);

    let both = parser.parse_sources(
        Some("mavenCentral()"),
        None,
        Some("mavenCentral()\nmaven(\"https://x.example/\")"),
        None,
    );
    let urls: Vec<&str> = both.repositories.iter().map(|r| r.url.as_str()).collect();
    assert_eq!(urls, vec!["https://repo1.maven.org/maven2", "https://x.example"]);
}
