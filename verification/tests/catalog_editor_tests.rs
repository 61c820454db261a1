use gvc::alias::{
    generate_library_alias, generate_plugin_alias, generate_plugin_version_alias,
    generate_version_alias, group_tokens, normalize_tokens, plugin_tokens, sanitize_alias,
};
use gvc::catalog_editor::{
    parse_library_coordinate, parse_plugin_coordinate, AddTargetKind, CatalogEditor,
};
use gvc::context::load_document;
use gvc::error::GvcError;
use gvc::toml_utils::TomlUtils;

#[test]
fn library_alias_generation_removes_common_prefix() {
    let alias = generate_library_alias("org.jetbrains.compose.components", "components-resources");
    assert_eq!(alias, "jetbrains-compose-components-resources");
}

#[test]
fn library_version_alias_prefers_first_tokens() {
    let version_alias = generate_version_alias("org.jetbrains.compose.components");
    assert_eq!(version_alias, "jetbrains-compose-version");
}

#[test]
fn plugin_alias_generation_skips_common_prefix() {
    let alias = generate_plugin_alias("com.android.application");
    assert_eq!(alias, "android-application");
}

#[test]
fn plugin_version_alias_truncates_tokens() {
    let version_alias = generate_plugin_version_alias("com.android.application");
    assert_eq!(version_alias, "android-application");
}

#[test]
fn parse_library_coordinate_valid() {
    let (group, artifact, version) =
        parse_library_coordinate("androidx.lifecycle:lifecycle-runtime-ktx:2.6.2").unwrap();
    assert_eq!(group, "androidx.lifecycle");
    assert_eq!(artifact, "lifecycle-runtime-ktx");
    assert_eq!(version, "2.6.2");
}

#[test]
fn parse_plugin_coordinate_valid() {
    let (id, version) = parse_plugin_coordinate("org.jetbrains.kotlin.jvm:1.9.0").unwrap();
    assert_eq!(id, "org.jetbrains.kotlin.jvm");
    assert_eq!(version, "1.9.0");
}

#[test]
fn coordinates_are_trimmed_and_checked() {
    let (group, artifact, version) = parse_library_coordinate(" g : a : 1 ").unwrap();
    assert_eq!((group.as_str(), artifact.as_str(), version.as_str()), ("g", "a", "1"));
    assert!(matches!(
        parse_library_coordinate("g:a"),
        Err(GvcError::ProjectValidation(_))
    ));
    assert!(matches!(
        parse_library_coordinate("g: :1"),
        Err(GvcError::ProjectValidation(_))
    ));
    assert!(matches!(
        parse_plugin_coordinate("id:1:2"),
        Err(GvcError::ProjectValidation(_))
    ));
    assert!(matches!(
        parse_plugin_coordinate(":1"),
        Err(GvcError::ProjectValidation(_))
    ));
}

#[test]
fn tokens_drop_prefixes_and_symbols() {
    assert_eq!(group_tokens("org.jet_brains..io.x-y"), vec!["jetbrains", "xy"]);
    assert_eq!(plugin_tokens("com.net.dev"), Vec::<String>::new());
    assert_eq!(group_tokens("a.b.c"), vec!["a", "b", "c"]);
}

#[test]
fn normalize_lowers_and_drops_repetitions() {
    let tokens = vec![
        "Compose".to_string(),
        "compose".to_string(),
        "".to_string(),
        "UI".to_string(),
        "compose".to_string(),
    ];
    assert_eq!(normalize_tokens(&tokens), "compose-ui-compose");
    assert_eq!(sanitize_alias("My.Alias"), "my.alias");
    assert_eq!(normalize_tokens(&Vec::new()), "");
}

#[test]
fn version_alias_falls_back_without_words() {
    assert_eq!(generate_version_alias("org.com"), "version");
    assert_eq!(generate_plugin_version_alias(""), "plugin-version");
    assert_eq!(generate_version_alias("io.ktor"), "ktor");
}

#[test]
fn add_library_writes_entry_and_alias() {
    let mut doc = load_document("[versions]\nkotlin = \"1.9.0\"\n").unwrap();
    let editor = CatalogEditor::new("gradle/libs.versions.toml");
    let added = editor
        .add_library(&mut doc, "com.squareup.okhttp3:okhttp:4.12.0", None, None)
        .unwrap();
    assert_eq!(added.alias, "squareup-okhttp3-okhttp");
    assert_eq!(added.version_alias, "squareup-okhttp3");
    assert_eq!(added.target, AddTargetKind::Library);
    let text = doc.to_string();
    assert!(text.contains("kotlin = \"1.9.0\""));
    assert_eq!(doc["versions"]["squareup-okhttp3"].as_str(), Some("4.12.0"));
    let entry = &doc["libraries"]["squareup-okhttp3-okhttp"];
    assert_eq!(
        TomlUtils::extract_group_artifact(entry),
        Some(("com.squareup.okhttp3".to_string(), "okhttp".to_string()))
    );
    assert_eq!(
        TomlUtils::extract_version_ref(entry),
        Some("squareup-okhttp3".to_string())
    );
    assert_eq!(TomlUtils::extract_version(entry), None);
}

#[test]
fn add_library_refuses_what_is_there() {
    let content = "[versions]\nbad = 1\n\n[libraries]\nokhttp = \"com.squareup.okhttp3:okhttp:4.0.0\"\n";
    let editor = CatalogEditor::new("catalog");

    let mut doc = load_document(content).unwrap();
    let taken = editor.add_library(&mut doc, "a.b:c:1.0", Some("okhttp"), None);
    assert!(matches!(taken, Err(GvcError::ProjectValidation(_))));
    assert_eq!(doc.to_string(), content);

    let known = editor.add_library(&mut doc, "com.squareup.okhttp3:okhttp:4.12.0", None, None);
    assert!(matches!(known, Err(GvcError::ProjectValidation(_))));
    assert_eq!(doc.to_string(), content);

    let no_string = editor.add_library(&mut doc, "a.b:c:1.0", None, Some("bad"));
    assert!(matches!(no_string, Err(GvcError::ProjectValidation(_))));
    assert_eq!(doc.to_string(), content);

    let unreadable = editor.add_library(&mut doc, "a.b:c", None, None);
    assert!(matches!(unreadable, Err(GvcError::ProjectValidation(_))));

    let mut odd = load_document("libraries = \"x\"\n").unwrap();
    let refused = editor.add_library(&mut odd, "a.b:c:1.0", None, None);
    assert!(matches!(refused, Err(GvcError::TomlParsing(_))));
    assert_eq!(odd.to_string(), "libraries = \"x\"\n");
}

#[test]
fn add_plugin_writes_entry_and_alias() {
    let mut doc = load_document("").unwrap();
    let editor = CatalogEditor::new("catalog");
    let added = editor
        .add_plugin(&mut doc, "org.jetbrains.kotlin.jvm:1.9.0", None, Some("Kotlin"))
        .unwrap();
    assert_eq!(added.alias, "jetbrains-kotlin-jvm");
    assert_eq!(added.version_alias, "kotlin");
    assert_eq!(added.target, AddTargetKind::Plugin);
    assert_eq!(doc["versions"]["kotlin"].as_str(), Some("1.9.0"));
    assert_eq!(
        doc["plugins"]["jetbrains-kotlin-jvm"]["id"].as_str(),
        Some("org.jetbrains.kotlin.jvm")
    );
    assert_eq!(
        doc["plugins"]["jetbrains-kotlin-jvm"]["version"]["ref"].as_str(),
        Some("kotlin")
    );
    let again = editor.add_plugin(&mut doc, "org.jetbrains.kotlin.jvm:2.0.0", Some("other"), None);
    assert!(matches!(again, Err(GvcError::ProjectValidation(_))));
}

#[test]
fn adding_to_a_text_gives_the_text_to_write() {
    let editor = CatalogEditor::new("catalog");
    let content = "# shared versions\n[versions]\nkotlin = \"1.9.0\"\n";

    let (added, text) = editor
        .add_library_to_text(content, "com.squareup.okhttp3:okhttp:4.12.0", Some("okhttp"), None)
        .unwrap();
    assert_eq!(added.alias, "okhttp");
    assert_eq!(added.version_alias, "squareup-okhttp3");
    assert!(text.starts_with(content));
    let doc = load_document(&text).unwrap();
    assert_eq!(doc["versions"]["squareup-okhttp3"].as_str(), Some("4.12.0"));
    assert_eq!(
        doc["libraries"]["okhttp"]["module"].as_str(),
        Some("com.squareup.okhttp3:okhttp")
    );

    let (plugin, text) = editor
        .add_plugin_to_text(&text, "com.android.application:8.1.0", None, None)
        .unwrap();
    assert_eq!(plugin.alias, "android-application");
    assert_eq!(plugin.target, AddTargetKind::Plugin);
    let doc = load_document(&text).unwrap();
    assert_eq!(doc["versions"]["android-application"].as_str(), Some("8.1.0"));
    assert_eq!(
        doc["plugins"]["android-application"]["id"].as_str(),
        Some("com.android.application")
    );
    assert_eq!(doc["libraries"]["okhttp"]["version"]["ref"].as_str(), Some("squareup-okhttp3"));

    let again = editor.add_plugin_to_text(&text, "com.android.application:8.2.0", None, None);
    assert!(matches!(again, Err(GvcError::ProjectValidation(_))));
    let broken = editor.add_library_to_text("[versions", "a.b:c:1.0", None, None);
    assert!(matches!(broken, Err(GvcError::TomlParsing(_))));
    let unreadable = editor.add_library_to_text(content, "a.b:c", None, None);
    assert!(matches!(unreadable, Err(GvcError::ProjectValidation(_))));
}
