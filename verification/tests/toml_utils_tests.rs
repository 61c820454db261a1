use gvc::context::load_document;
use gvc::error::GvcError;
use gvc::maven::parse_maven_coordinate;
use gvc::toml_utils::{LibraryDetails, TomlUtils};
use toml_edit::DocumentMut;

#[test]
fn extracts_group_artifact_from_string() {
    let doc: DocumentMut = r#"lib = "com.test:artifact:1.0.0""#.parse().unwrap();
    let item = doc.get("lib").unwrap();
    assert_eq!(
        TomlUtils::extract_group_artifact(item),
        Some(("com.test".to_string(), "artifact".to_string()))
    );
}

#[test]
fn extracts_version_ref() {
    let doc: DocumentMut =
        r#"lib = { group = "com.test", name = "artifact", version = { ref = "core" } }"#
            .parse()
            .unwrap();
    let item = doc.get("lib").unwrap();
    assert_eq!(
        TomlUtils::extract_version_ref(item),
        Some("core".to_string())
    );
}

#[test]
fn updates_inline_table_version() {
    let mut doc: DocumentMut =
        r#"lib = { group = "com.test", name = "artifact", version = "1.0.0" }"#
            .parse()
            .unwrap();
    let item = doc.get_mut("lib").unwrap();
    assert_eq!(TomlUtils::update_version(item, "2.0.0"), Ok(true));
    assert_eq!(
        TomlUtils::extract_version(doc.get("lib").unwrap()).as_deref(),
        Some("2.0.0")
    );
}

#[test]
fn extracts_library_details_from_inline_definition() {
    let doc: DocumentMut =
        r#"lib = { group = "com.test", name = "artifact", version = "1.0.0" }"#
            .parse()
            .unwrap();
    let item = doc.get("lib").unwrap();
    let details = TomlUtils::extract_library_details(item).unwrap();
    assert_eq!(details.group, "com.test");
    assert_eq!(details.artifact, "artifact");
    assert_eq!(details.version.as_deref(), Some("1.0.0"));
    assert!(details.version_ref.is_none());
}

#[test]
fn extracts_library_details_with_version_reference() {
    let doc: DocumentMut =
        r#"lib = { module = "com.test:artifact", version = { ref = "core" } }"#
            .parse()
            .unwrap();
    let item = doc.get("lib").unwrap();
    let details = TomlUtils::extract_library_details(item).unwrap();
    assert_eq!(details.group, "com.test");
    assert_eq!(details.artifact, "artifact");
    assert!(details.version.is_none());
    assert_eq!(details.version_ref.as_deref(), Some("core"));
}

#[test]
fn maven_coordinates_have_two_or_three_parts() {
    assert_eq!(
        parse_maven_coordinate("g:a"),
        Some(("g".to_string(), "a".to_string(), None))
    );
    assert_eq!(
        parse_maven_coordinate("g:a:1"),
        Some(("g".to_string(), "a".to_string(), Some("1".to_string())))
    );
    assert_eq!(
        parse_maven_coordinate("::"),
        Some(("".to_string(), "".to_string(), Some("".to_string())))
    );
    assert_eq!(parse_maven_coordinate("g"), None);
    assert_eq!(parse_maven_coordinate("g:a:1:x"), None);
    assert_eq!(parse_maven_coordinate(""), None);
}

#[test]
fn every_shape_of_a_library_is_read() {
    let doc = load_document(
        r#"
[libraries]
plain = "g.one:a-one:1.0"
bare = "g.two:a-two"
module = { module = "g.three:a-three", version = "3.0" }
dotted = { module = "g.four:a-four", version.ref = "four" }
named = { group = "g.five", name = "a-five", version = "5.0" }
broken = { module = "nothing", group = "g", name = "a" }
half = { group = "g" }
number = 7

[libraries.table]
group = "g.six"
name = "a-six"
version = { ref = "six" }
"#,
    )
    .unwrap();
    let get = |name: &str| doc["libraries"].get(name).unwrap();
    let pair = |g: &str, a: &str| Some((g.to_string(), a.to_string()));

    assert_eq!(TomlUtils::extract_group_artifact(get("plain")), pair("g.one", "a-one"));
    assert_eq!(TomlUtils::extract_group_artifact(get("bare")), pair("g.two", "a-two"));
    assert_eq!(TomlUtils::extract_group_artifact(get("module")), pair("g.three", "a-three"));
    assert_eq!(TomlUtils::extract_group_artifact(get("dotted")), pair("g.four", "a-four"));
    assert_eq!(TomlUtils::extract_group_artifact(get("named")), pair("g.five", "a-five"));
    assert_eq!(TomlUtils::extract_group_artifact(get("table")), pair("g.six", "a-six"));
    assert_eq!(TomlUtils::extract_group_artifact(get("broken")), pair("g", "a"));
    assert_eq!(TomlUtils::extract_group_artifact(get("half")), None);
    assert_eq!(TomlUtils::extract_group_artifact(get("number")), None);

    assert_eq!(TomlUtils::extract_version(get("plain")), Some("1.0".to_string()));
    assert_eq!(TomlUtils::extract_version(get("bare")), None);
    assert_eq!(TomlUtils::extract_version(get("number")), None);
    assert_eq!(TomlUtils::extract_version(get("module")), Some("3.0".to_string()));
    assert_eq!(TomlUtils::extract_version(get("dotted")), None);
    assert_eq!(TomlUtils::extract_version_ref(get("dotted")), Some("four".to_string()));
    assert_eq!(TomlUtils::extract_version_ref(get("table")), Some("six".to_string()));
    assert_eq!(TomlUtils::extract_version_ref(get("module")), None);
    assert_eq!(TomlUtils::extract_version_ref(get("plain")), None);

    assert!(TomlUtils::uses_version_ref(get("dotted"), "four"));
    assert!(!TomlUtils::uses_version_ref(get("dotted"), "six"));
    assert!(!TomlUtils::uses_version_ref(get("named"), "four"));

    assert_eq!(
        TomlUtils::extract_library_details(get("plain")),
        Some(LibraryDetails {
            group: "g.one".to_string(),
            artifact: "a-one".to_string(),
            version: Some("1.0".to_string()),
            version_ref: None,
        })
    );
    assert_eq!(
        TomlUtils::extract_library_details(get("bare")).unwrap().version,
        None
    );
    assert_eq!(TomlUtils::extract_library_details(get("number")), None);
}

#[test]
fn update_version_keeps_the_shape() {
    let mut doc = load_document(
        "plain = \"g:a:1.0\"\nbare = \"g:a\"\ninline = { module = \"g:a\", version = \"1.0\" }\nodd = \"one\"\ncount = 3\n",
    )
    .unwrap();
    assert_eq!(TomlUtils::update_version(doc.get_mut("plain").unwrap(), "2.0"), Ok(true));
    assert_eq!(doc["plain"].as_str(), Some("g:a:2.0"));
    assert_eq!(TomlUtils::update_version(doc.get_mut("bare").unwrap(), "2.0"), Ok(true));
    assert_eq!(doc["bare"].as_str(), Some("g:a:2.0"));
    assert_eq!(TomlUtils::update_version(doc.get_mut("inline").unwrap(), "2.0"), Ok(true));
    assert_eq!(doc["inline"]["version"].as_str(), Some("2.0"));
    assert_eq!(doc["inline"]["module"].as_str(), Some("g:a"));
    assert!(matches!(
        TomlUtils::update_version(doc.get_mut("odd").unwrap(), "2.0"),
        Err(GvcError::UnsupportedShape(_))
    ));
    assert_eq!(doc["odd"].as_str(), Some("one"));
    assert!(matches!(
        TomlUtils::update_version(doc.get_mut("count").unwrap(), "2.0"),
        Err(GvcError::UnsupportedShape(_))
    ));
    assert_eq!(doc["count"].as_integer(), Some(3));

    let mut tables = load_document("[table]\nmodule = \"g:a\"\n").unwrap();
    assert_eq!(TomlUtils::update_version(tables.get_mut("table").unwrap(), "2.0"), Ok(true));
    assert_eq!(tables["table"]["version"].as_str(), Some("2.0"));
    assert_eq!(tables["table"]["module"].as_str(), Some("g:a"));
    assert_eq!(TomlUtils::update_version(tables.get_mut("table").unwrap(), "2.0"), Ok(false));
}

#[test]
fn mutating_to_the_current_version_changes_no_text() {
    let content = r#"# The catalog
[versions]
core = "1.0"   # shared

[libraries]
# a coordinate string
plain   =   "com.one:first:1.2.3"
inline = { module = "com.two:second",   version = "4.5.6" } # trailing
named = { group = "com.three", name = "third", version = "7.8.9" }

[libraries.table]
module = "com.four:fourth"
version = "0.1.0"
"#;
    let mut doc = load_document(content).unwrap();
    for name in ["plain", "inline", "named", "table"] {
        let current = {
            let item = doc["libraries"].get(name).unwrap();
            let details = TomlUtils::extract_library_details(item).unwrap();
            details.version.unwrap()
        };
        let item = doc["libraries"].get_mut(name).unwrap();
        assert_eq!(TomlUtils::update_version(item, &current), Ok(false));
    }
    assert_eq!(doc.to_string(), content);

    let item = doc["libraries"].get_mut("inline").unwrap();
    assert_eq!(TomlUtils::update_version(item, "4.6.0"), Ok(true));
    assert_eq!(doc.to_string(), content.replace("4.5.6", "4.6.0"));
}

#[test]
fn load_document_refuses_what_is_no_toml() {
    assert!(matches!(load_document("a = "), Err(GvcError::TomlParsing(_))));
    assert!(load_document("").is_ok());
}
