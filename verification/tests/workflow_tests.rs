use gvc::catalog_editor::AddTargetKind;
use gvc::context::{load_document, UpdateContext, UpdateType};
use gvc::error::GvcError;
use gvc::project::{
    assess_project, dangerous_character, is_system_path, safe_branch_name, validate_git_path,
    system_directories, version_catalog_update_arguments, PathFacts, PathValidator,
    ProjectLayout,
};
use gvc::toml_parser::{DependencyUpdate, TomlParserAgent, VersionCatalog};
use gvc::workflow::{
    is_stable_version, list_libraries, list_plugins, resolve_add_target, sort_names,
    verify_version, version_is_listed, DependencyLine,
};

fn line(name: &str, coordinate: &str, version: &str) -> DependencyLine {
    DependencyLine {
        name: name.to_string(),
        coordinate: coordinate.to_string(),
        version: version.to_string(),
    }
}

#[test]
fn the_target_of_an_addition_follows_the_flag() {
    assert_eq!(resolve_add_target(false, "g:a:1"), Ok((AddTargetKind::Library, "g:a:1")));
    assert_eq!(resolve_add_target(true, " id:1 "), Ok((AddTargetKind::Plugin, " id:1 ")));
    assert!(matches!(
        resolve_add_target(true, " \t"),
        Err(GvcError::ProjectValidation(_))
    ));
}

#[test]
fn the_report_shows_marked_versions_as_unstable() {
    assert!(is_stable_version("1.0.0"));
    assert!(is_stable_version("1.0.0-M1"));
    assert!(!is_stable_version("1.0.0-Alpha"));
    assert!(!is_stable_version("1.0.0-beta2"));
    assert!(!is_stable_version("2.0-RC"));
    assert!(!is_stable_version("1.0-SNAPSHOT"));
    assert!(!is_stable_version("1.0.dev1"));
}

#[test]
fn a_version_to_add_has_to_be_listed() {
    let listed = vec!["1.0".to_string(), "1.1".to_string()];
    assert!(version_is_listed(&listed, "1.1"));
    assert!(!version_is_listed(&listed, "1.2"));
    assert_eq!(verify_version(&listed, "1.0"), Ok(()));
    assert!(matches!(
        verify_version(&listed, "1"),
        Err(GvcError::ProjectValidation(_))
    ));
}

#[test]
fn the_listing_resolves_aliases() {
    let doc = load_document(
        r#"
[versions]
core = "1.0"
count = 3

[libraries]
zeta = "g.z:zeta:9.0"
alpha = { module = "g.a:alpha", version.ref = "core" }
beta = { group = "g.b", name = "beta", version = "2.0" }
gamma = { module = "g.c:gamma", version.ref = "missing" }
delta = { module = "g.d:delta", version.ref = "count" }
bare = "g.e:bare"
odd = { name = "only" }

[plugins]
simple = "1.2.3"
kotlin = { id = "org.jetbrains.kotlin.jvm", version.ref = "core" }
noid = { version = "4.0" }
"#,
    )
    .unwrap();
    assert_eq!(
        list_libraries(doc.as_item()),
        vec![
            line("alpha", "g.a:alpha", "1.0"),
            line("bare", "g.e:bare", ""),
            line("beta", "g.b:beta", "2.0"),
            line("delta", "g.d:delta", "${count}"),
            line("gamma", "g.c:gamma", "${missing}"),
            line("odd", "", ""),
            line("zeta", "g.z:zeta", "9.0"),
        ]
    );
    assert_eq!(
        list_plugins(doc.as_item()),
        vec![
            line("kotlin", "org.jetbrains.kotlin.jvm", "1.0"),
            line("noid", "noid", "4.0"),
            line("simple", "simple", "1.2.3"),
        ]
    );
    let empty = load_document("").unwrap();
    assert!(list_libraries(empty.as_item()).is_empty());
    assert!(list_plugins(empty.as_item()).is_empty());
    let names = vec!["b".to_string(), "a".to_string(), "B".to_string(), "a".to_string()];
    assert_eq!(sort_names(&names), vec!["B", "a", "a", "b"]);
}

#[test]
fn dangerous_paths_are_told() {
    assert_eq!(dangerous_character("/home/me/project"), None);
    assert_eq!(dangerous_character("/tmp/sub;dir"), Some(';'));
    assert_eq!(dangerous_character("a$b|c"), Some('$'));
    assert_eq!(dangerous_character("line\nbreak"), Some('\n'));
    assert_eq!(dangerous_character("`x`"), Some('`'));
    assert_eq!(dangerous_character("a&b"), Some('&'));
    assert_eq!(dangerous_character("a\rb"), Some('\r'));
}

#[test]
fn system_directories_are_refused() {
    assert!(is_system_path("/etc"));
    assert!(is_system_path("/etc/gradle"));
    assert!(is_system_path("/proc/1"));
    assert!(is_system_path("/sys"));
    assert!(is_system_path("/dev/null"));
    assert!(is_system_path("/boot/efi"));
    assert!(!is_system_path("/etcetera"));
    assert!(!is_system_path("/home/etc"));
    assert!(!is_system_path("etc"));
    assert!(!is_system_path(""));
}

#[test]
fn the_branch_of_an_update_is_named_by_its_day() {
    assert_eq!(safe_branch_name("2026-10-28"), "deps/update-2026-10-28");
    assert_eq!(safe_branch_name("28.10.2026 12:00"), "deps/update-28-10-2026-12-00");
    let long = safe_branch_name(&"x".repeat(80));
    assert_eq!(long.len(), 50);
    assert!(long.starts_with("deps/update-xxx"));
}

#[test]
fn a_project_needs_wrapper_and_catalog() {
    let layout = |w, c, g| ProjectLayout { has_wrapper: w, has_catalog: c, has_git: g };
    assert_eq!(assess_project(layout(true, true, false)), Ok(()));
    assert_eq!(assess_project(layout(true, true, true)), Ok(()));
    assert!(matches!(
        assess_project(layout(false, true, true)),
        Err(GvcError::ProjectValidation(_))
    ));
    assert!(matches!(
        assess_project(layout(true, false, true)),
        Err(GvcError::ProjectValidation(_))
    ));
    assert_eq!(
        version_catalog_update_arguments(true, false),
        vec![
            "nl.littlerobots.version-catalog-update:versionCatalogUpdate",
            "--interactive"
        ]
    );
    assert_eq!(version_catalog_update_arguments(false, true).len(), 2);
    assert_eq!(version_catalog_update_arguments(true, true).len(), 3);
}

#[test]
fn catalogs_are_compared_by_their_aliases() {
    let pairs = |list: Vec<(&str, &str)>| {
        Some(list.into_iter().map(|(k, v)| (k.to_string(), v.to_string())).collect::<Vec<_>>())
    };
    let before = VersionCatalog {
        versions: pairs(vec![("a", "1"), ("b", "1"), ("c", "1")]),
        libraries: None,
        plugins: None,
    };
    let after = VersionCatalog {
        versions: pairs(vec![("c", "2"), ("new", "1"), ("a", "1"), ("b", "3")]),
        libraries: None,
        plugins: None,
    };
    let agent = TomlParserAgent::new();
    let summary = agent.compare_catalogs(&before, &after);
    let update = |n: &str, o: &str, v: &str| DependencyUpdate {
        name: n.to_string(),
        old_version: o.to_string(),
        new_version: v.to_string(),
    };
    assert_eq!(summary.updated_versions, vec![update("c", "1", "2"), update("b", "1", "3")]);
    assert_eq!(summary.total_updates(), 2);
    assert!(!summary.is_empty());
    let none = VersionCatalog { versions: None, libraries: None, plugins: None };
    assert!(agent.compare_catalogs(&none, &after).is_empty());
    assert!(agent.compare_catalogs(&before, &before).is_empty());
}

#[test]
fn the_context_loads_and_saves_the_document() {
    let context = UpdateContext::new("gradle/libs.versions.toml", UpdateType::Check, true, false);
    assert_eq!(context.catalog_path, "gradle/libs.versions.toml");
    assert_eq!(context.update_type, UpdateType::Check);
    assert!(context.stable_only);
    assert!(!context.interactive);
    let text = "# kept\n[versions]\na = \"1\"   # too\n";
    let doc = context.load_document(text).unwrap();
    assert_eq!(context.save_document(&doc), text);
    assert!(matches!(context.load_document("= 1"), Err(GvcError::TomlParsing(_))));
}

fn on_disk(canonical: &str, is_directory: bool, is_absolute: bool) -> PathFacts {
    PathFacts {
        canonical: Some(canonical.to_string()),
        is_directory,
        is_absolute,
        system_roots: vec![],
        failure: None,
    }
}

#[test]
fn validate_project_path_accepts_directory() {
    let facts = on_disk("/home/me/project", true, true);
    assert!(PathValidator::validate_project_path("/home/me/project", &facts).is_ok());
    assert_eq!(
        PathValidator::validate_project_path("project", &on_disk("/home/me/project", true, false)),
        Ok("/home/me/project".to_string())
    );
}

#[test]
fn validate_project_path_rejects_file() {
    let facts = on_disk("/home/me/project/file.txt", false, true);
    let err = PathValidator::validate_project_path("/home/me/project/file.txt", &facts).unwrap_err();
    assert!(matches!(err, GvcError::ProjectValidation(_)));
    let missing = PathFacts {
        canonical: None,
        is_directory: false,
        is_absolute: true,
        system_roots: vec![],
        failure: None,
    };
    assert!(matches!(
        PathValidator::validate_project_path("/nowhere", &missing),
        Err(GvcError::ProjectValidation(_))
    ));
}

#[test]
fn validate_project_path_rejects_system_directory() {
    assert!(PathValidator::validate_project_path("/etc", &on_disk("/etc", true, true)).is_err());
    assert!(
        PathValidator::validate_project_path("/home/link", &on_disk("/proc/1", true, true)).is_err()
    );
}

#[test]
fn a_system_directory_is_refused_under_its_canonical_name() {
    assert_eq!(system_directories(), vec!["/etc", "/sys", "/proc", "/dev", "/boot"]);
    let mut facts = on_disk("/private/etc/gradle", true, true);
    assert_eq!(
        PathValidator::validate_project_path("/home/me/link", &facts),
        Ok("/private/etc/gradle".to_string())
    );
    facts.system_roots = vec!["/private/var".to_string(), "/private/etc".to_string()];
    assert!(matches!(
        PathValidator::validate_project_path("/home/me/link", &facts),
        Err(GvcError::ProjectValidation(_))
    ));
    facts.canonical = Some("/private/etcetera".to_string());
    assert_eq!(
        PathValidator::validate_project_path("/home/me/link", &facts),
        Ok("/private/etcetera".to_string())
    );
}

#[test]
fn validate_file_path_rejects_traversal() {
    let result = PathValidator::validate_file_path("/tmp", "/tmp/abc123");
    assert!(result.is_err());
    assert_eq!(
        PathValidator::validate_file_path("/tmp/abc123/gradle/libs.versions.toml", "/tmp/abc123"),
        Ok("/tmp/abc123/gradle/libs.versions.toml".to_string())
    );
    assert!(PathValidator::validate_file_path("/tmp/abc1234/x", "/tmp/abc123").is_err());
    assert_eq!(PathValidator::validate_file_path("/tmp/x", "/"), Ok("/tmp/x".to_string()));
    assert_eq!(PathValidator::validate_file_path("/tmp/x", "/tmp/"), Ok("/tmp/x".to_string()));
    assert_eq!(PathValidator::validate_file_path("/", "/"), Ok("/".to_string()));
    assert!(PathValidator::validate_file_path("/tm", "/tmp/").is_err());
}

#[test]
fn rejects_relative_paths() {
    let facts = on_disk("/home/me/project", true, false);
    assert!(matches!(
        validate_git_path("project", &facts),
        Err(GvcError::GitOperation(_))
    ));
}

#[test]
fn rejects_dangerous_paths() {
    let facts = on_disk("/tmp/sub;dir", true, true);
    assert!(validate_git_path("/tmp/sub;dir", &facts).is_err());
    assert_eq!(
        validate_git_path("/tmp/subdir", &on_disk("/tmp/subdir", true, true)),
        Ok("/tmp/subdir".to_string())
    );
    assert!(matches!(
        validate_git_path("/etc/x", &on_disk("/etc/x", true, true)),
        Err(GvcError::GitOperation(_))
    ));
}

#[test]
fn creates_safe_branch() {
    let branch = safe_branch_name("2026-10-28");
    assert!(branch.starts_with("deps/update-"));
    assert!(branch
        .chars()
        .all(|c| c.is_ascii_alphanumeric() || matches!(c, '-' | '_' | '/')));
}

#[test]
fn a_refused_path_is_named_in_the_message() {
    let message = |r: Result<String, GvcError>| match r {
        Err(GvcError::ProjectValidation(m)) | Err(GvcError::GitOperation(m)) => m,
        other => panic!("not refused: {:?}", other),
    };
    let mut missing = on_disk("/x", false, true);
    missing.canonical = None;
    assert_eq!(
        message(PathValidator::validate_project_path("/nowhere", &missing)),
        "Invalid path '/nowhere'"
    );
    missing.failure = Some("No such file or directory (os error 2)".to_string());
    assert_eq!(
        message(PathValidator::validate_project_path("/nowhere", &missing)),
        "Invalid path '/nowhere': No such file or directory (os error 2)"
    );
    assert_eq!(
        message(PathValidator::validate_project_path("f", &on_disk("/home/me/f", false, false))),
        "Path '/home/me/f' is not a directory"
    );
    assert_eq!(
        message(PathValidator::validate_project_path("/home/link", &on_disk("/proc/1", true, true))),
        "Access to system directory '/proc' is not allowed"
    );
    let mut facts = on_disk("/private/etc/gradle", true, true);
    facts.system_roots = vec!["/private/etc".to_string()];
    assert_eq!(
        message(PathValidator::validate_project_path("/home/me/link", &facts)),
        "Access to system directory '/private/etc' is not allowed"
    );
    assert_eq!(
        message(validate_git_path("/tmp/a|b;c", &on_disk("/tmp/a|b;c", true, true))),
        "Path contains dangerous character: '|'"
    );
    assert_eq!(
        message(validate_git_path("project", &on_disk("/home/me/project", true, false))),
        "Only absolute paths are allowed for Git operations"
    );
    assert_eq!(
        message(validate_git_path("/dev/shm/x", &on_disk("/dev/shm/x", true, true))),
        "Invalid Git path: Project validation failed: Access to system directory '/dev' is not allowed"
    );
}
