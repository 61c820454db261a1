use gvc::candidate::{select_default_version, version_entries, TargetCandidate, TargetKind};
use gvc::context::load_document;
use gvc::dependency_updater::DependencyUpdater;
use gvc::error::GvcError;
use gvc::interaction::{
    settle_choice, settle_pick, Answer, CandidateChoice, PickOutcome, Prompter, UpdateCategory,
    UpdateInteraction, VersionEntry, VersionPick,
};
use gvc::library_handler::LibraryHandler;
use gvc::maven::order_versions;
use gvc::plugin_handler::{plugin_details, PluginHandler};
use gvc::report::{UpdateReport, VersionChange};
use gvc::repository::{Coordinate, DefaultVersionStrategy, RepositoryClient};
use gvc::targeted_handler::{apply_update, collect_candidates, TargetedHandler};
use gvc::pattern::PatternMatcher;
use gvc::upgrade::{choose_upgrade, find_upgrade};
use gvc::version::VersionComparator;
use gvc::version_handler::{apply_version_alias, find_representative_coordinate, VersionHandler};
use std::cell::RefCell;

struct FakeClient {
    known: Vec<(String, Vec<String>)>,
    asked: RefCell<Vec<String>>,
    failing: bool,
}

impl FakeClient {
    fn with(known: Vec<(&str, Vec<&str>)>) -> FakeClient {
        FakeClient {
            known: known
                .into_iter()
                .map(|(c, vs)| (c.to_string(), vs.into_iter().map(|v| v.to_string()).collect()))
                .collect(),
            asked: RefCell::new(Vec::new()),
            failing: false,
        }
    }

    fn failing() -> FakeClient {
        FakeClient { known: Vec::new(), asked: RefCell::new(Vec::new()), failing: true }
    }

    fn listed(&self, coordinate: &Coordinate) -> Option<&Vec<String>> {
        let key = format!("{}:{}", coordinate.group, coordinate.artifact);
        self.asked.borrow_mut().push(key.clone());
        self.known.iter().find(|(c, _)| *c == key).map(|(_, vs)| vs)
    }
}

impl RepositoryClient for FakeClient {
    fn fetch_available_versions(&self, coordinate: &Coordinate) -> Result<Vec<String>, GvcError> {
        if self.failing {
            return Err(GvcError::Io("down".to_string()));
        }
        Ok(self.listed(coordinate).map(order_versions).unwrap_or_default())
    }

    fn fetch_latest_version(
        &self,
        coordinate: &Coordinate,
        stable_only: bool,
    ) -> Result<Option<String>, GvcError> {
        if self.failing {
            return Err(GvcError::Io("down".to_string()));
        }
        Ok(self
            .listed(coordinate)
            .and_then(|vs| VersionComparator::get_latest(vs, stable_only)))
    }
}

struct Script {
    answers: Vec<Answer>,
    candidate: CandidateChoice,
    version: VersionPick,
    asked: Vec<String>,
    offered: Vec<String>,
    picked: usize,
}

impl Script {
    fn answering(answers: Vec<Answer>) -> Script {
        Script {
            answers,
            candidate: CandidateChoice::Quit,
            version: VersionPick::Skip,
            asked: Vec::new(),
            offered: Vec::new(),
            picked: 0,
        }
    }

    fn picking(candidate: CandidateChoice, version: VersionPick, answers: Vec<Answer>) -> Script {
        Script { answers, candidate, version, asked: Vec::new(), offered: Vec::new(), picked: 0 }
    }
}

impl Prompter for Script {
    fn ask(&mut self, category: UpdateCategory, name: &str, old: &str, new: &str) -> Answer {
        self.asked.push(format!("{} {} {} {}", category.label(), name, old, new));
        self.answers.remove(0)
    }

    fn applied_without_asking(&mut self, _c: UpdateCategory, _n: &str, _o: &str, _v: &str) {}

    fn pick_candidate(&mut self, candidates: &Vec<String>) -> CandidateChoice {
        self.offered = candidates.clone();
        self.candidate
    }

    fn pick_version(
        &mut self,
        _entry: &str,
        _current: &str,
        _versions: &Vec<VersionEntry>,
    ) -> VersionPick {
        // The scripted pick comes first; asked again, the user skips.
        self.picked += 1;
        if self.picked == 1 {
            self.version
        } else {
            VersionPick::Skip
        }
    }
}

fn change(name: &str, old: &str, new: &str) -> VersionChange {
    VersionChange {
        name: name.to_string(),
        old_version: old.to_string(),
        new_version: new.to_string(),
    }
}

const CATALOG: &str = r#"# Versions shared by several entries
[versions]
core-version = "1.0"   # shared by the core libraries
unused = "0.1"
kotlin = "1.9.0"

[libraries]
# both take their version from the alias
core-api = { module = "com.example:core-api", version.ref = "core-version" }
core-impl = { group = "com.example", name = "core-impl", version = { ref = "core-version" } }
okhttp = "com.squareup.okhttp3:okhttp:4.11.0"
retrofit = { module = "com.squareup.retrofit2:retrofit", version = "2.9.0" }
current = { module = "com.example:current", version = "3.0.0" }

[plugins]
kotlin-jvm = { id = "org.jetbrains.kotlin.jvm", version.ref = "kotlin" }
detekt = { id = "io.gitlab.arturbosch.detekt",   version = "1.23.0" } # linting
"#;

fn library_client() -> FakeClient {
    FakeClient::with(vec![
        ("com.example:core-api", vec!["1.0", "1.1"]),
        ("com.example:core-impl", vec!["9.9"]),
        ("com.squareup.okhttp3:okhttp", vec!["4.11.0", "4.12.0", "5.0.0-alpha.14"]),
        ("com.squareup.retrofit2:retrofit", vec!["2.9.0", "2.8.0"]),
        ("com.example:current", vec!["3.0.0"]),
    ])
}

fn plugin_client() -> FakeClient {
    FakeClient::with(vec![
        ("io.gitlab.arturbosch.detekt:io.gitlab.arturbosch.detekt", vec!["1.23.0", "1.23.6"]),
        ("org.jetbrains.kotlin.jvm:org.jetbrains.kotlin.jvm", vec!["2.0.0"]),
    ])
}

#[test]
fn an_alias_is_updated_through_the_first_library_that_refers_to_it() {
    let mut doc = load_document(CATALOG).unwrap();
    let client = library_client();
    let strategy = DefaultVersionStrategy::shared();
    let handler = VersionHandler::new(&client, &strategy);
    let mut interaction = UpdateInteraction::new(false, Script::answering(vec![]));
    let report = handler.update(&mut interaction, &mut doc, true).unwrap();

    assert_eq!(report.version_updates, vec![change("core-version", "1.0", "1.1")]);
    assert!(report.library_updates.is_empty());
    assert!(report.plugin_updates.is_empty());
    assert_eq!(
        doc.to_string(),
        CATALOG.replace("core-version = \"1.0\"", "core-version = \"1.1\"")
    );
    assert_eq!(
        doc["libraries"]["core-api"]["version"]["ref"].as_str(),
        Some("core-version")
    );
    assert_eq!(
        doc["libraries"]["core-impl"]["version"]["ref"].as_str(),
        Some("core-version")
    );
    assert_eq!(*client.asked.borrow(), vec!["com.example:core-api".to_string()]);
}

#[test]
fn the_first_referring_library_stands_for_an_alias() {
    let doc = load_document(CATALOG).unwrap();
    let libraries = doc.as_item().get("libraries").unwrap();
    assert_eq!(
        find_representative_coordinate(libraries, "core-version"),
        Some(("com.example".to_string(), "core-api".to_string()))
    );
    assert_eq!(find_representative_coordinate(libraries, "unused"), None);
    assert_eq!(find_representative_coordinate(libraries, "kotlin"), None);
}

#[test]
fn libraries_with_their_own_version_are_updated_in_their_shape() {
    let mut doc = load_document(CATALOG).unwrap();
    let client = library_client();
    let strategy = DefaultVersionStrategy::shared();
    let handler = LibraryHandler::new(&client, &strategy);
    let mut interaction = UpdateInteraction::new(false, Script::answering(vec![]));
    let report = {
        let libraries = doc.as_item_mut().get_mut("libraries").unwrap();
        handler.update(&mut interaction, libraries, true).unwrap()
    };
    assert_eq!(report.library_updates, vec![change("okhttp", "4.11.0", "4.12.0")]);
    assert!(report.version_updates.is_empty());
    assert_eq!(doc.to_string(), CATALOG.replace("4.11.0", "4.12.0"));
    assert_eq!(
        *client.asked.borrow(),
        vec![
            "com.squareup.okhttp3:okhttp".to_string(),
            "com.squareup.retrofit2:retrofit".to_string(),
            "com.example:current".to_string()
        ]
    );

    let again = {
        let libraries = doc.as_item().get("libraries").unwrap();
        handler.check(libraries, false).unwrap()
    };
    assert_eq!(again.library_updates, vec![change("okhttp", "4.12.0", "5.0.0-alpha.14")]);
}

#[test]
fn plugins_with_their_own_version_are_updated() {
    let mut doc = load_document(CATALOG).unwrap();
    let client = plugin_client();
    let strategy = DefaultVersionStrategy::shared();
    let handler = PluginHandler::new(&client, &strategy);
    let checked = handler.check(doc.as_item().get("plugins").unwrap(), true).unwrap();
    assert_eq!(checked.plugin_updates, vec![change("detekt", "1.23.0", "1.23.6")]);
    assert_eq!(doc.to_string(), CATALOG);

    let mut interaction = UpdateInteraction::new(false, Script::answering(vec![]));
    let report = {
        let plugins = doc.as_item_mut().get_mut("plugins").unwrap();
        handler.update(&mut interaction, plugins, true).unwrap()
    };
    assert_eq!(report.plugin_updates, vec![change("detekt", "1.23.0", "1.23.6")]);
    assert_eq!(doc.to_string(), CATALOG.replace("1.23.0", "1.23.6"));
    assert_eq!(
        plugin_details(doc.as_item().get("plugins").unwrap().get("detekt").unwrap()),
        Some(("io.gitlab.arturbosch.detekt".to_string(), "1.23.6".to_string()))
    );
    assert_eq!(
        plugin_details(doc.as_item().get("plugins").unwrap().get("kotlin-jvm").unwrap()),
        None
    );
}

#[test]
fn the_whole_catalog_is_updated_section_by_section() {
    let updater =
        DependencyUpdater::with_clients(library_client(), plugin_client(), DefaultVersionStrategy)
            .unwrap();
    let mut interaction = UpdateInteraction::new(false, Script::answering(vec![]));
    let (report, text) = updater
        .update_catalog_text(&mut interaction, CATALOG, true)
        .unwrap();
    assert_eq!(report.version_updates, vec![change("core-version", "1.0", "1.1")]);
    assert_eq!(report.library_updates, vec![change("okhttp", "4.11.0", "4.12.0")]);
    assert_eq!(report.plugin_updates, vec![change("detekt", "1.23.0", "1.23.6")]);
    assert_eq!(report.total_updates(), 3);
    assert!(!report.is_empty());
    assert_eq!(
        text.unwrap(),
        CATALOG
            .replace("core-version = \"1.0\"", "core-version = \"1.1\"")
            .replace("4.11.0", "4.12.0")
            .replace("1.23.0", "1.23.6")
    );

    let doc = load_document(CATALOG).unwrap();
    let checked = updater.check_for_updates(&doc, true).unwrap();
    assert_eq!(checked.version_updates, report.version_updates);
    assert_eq!(checked.library_updates, report.library_updates);
    assert_eq!(checked.plugin_updates, report.plugin_updates);
    assert_eq!(doc.to_string(), CATALOG);
}

#[test]
fn a_catalog_that_is_up_to_date_gives_nothing_to_write() {
    let updater = DependencyUpdater::with_clients(
        FakeClient::with(vec![]),
        FakeClient::with(vec![]),
        DefaultVersionStrategy,
    )
    .unwrap();
    let mut interaction = UpdateInteraction::new(false, Script::answering(vec![]));
    let (report, text) = updater
        .update_catalog_text(&mut interaction, CATALOG, true)
        .unwrap();
    assert!(report.is_empty());
    assert_eq!(report.total_updates(), 0);
    assert_eq!(text, None);
    let refused = updater.update_catalog_text(&mut interaction, "[versions", true);
    assert!(matches!(refused, Err(GvcError::TomlParsing(_))));
    let (empty, nothing) = updater.update_catalog_text(&mut interaction, "", true).unwrap();
    assert!(empty.is_empty());
    assert_eq!(nothing, None);
}

#[test]
fn quitting_leaves_nothing_to_write() {
    let updater =
        DependencyUpdater::with_clients(library_client(), plugin_client(), DefaultVersionStrategy)
            .unwrap();
    let before = CATALOG.as_bytes().to_vec();
    let mut interaction =
        UpdateInteraction::new(true, Script::answering(vec![Answer::Yes, Answer::Quit]));
    let outcome = updater.update_catalog_text(&mut interaction, CATALOG, true);
    assert_eq!(outcome.err(), Some(GvcError::UserCancelled));
    assert_eq!(CATALOG.as_bytes(), before.as_slice());
    let script = interaction.into_prompter();
    assert_eq!(
        script.asked,
        vec![
            "Version core-version 1.0 1.1".to_string(),
            "Library okhttp 4.11.0 4.12.0".to_string()
        ]
    );

    let mut whole = load_document(CATALOG).unwrap();
    let mut stopping =
        UpdateInteraction::new(true, Script::answering(vec![Answer::Yes, Answer::Yes, Answer::Quit]));
    let outcome = updater.update_version_catalog(&mut stopping, &mut whole, true);
    assert_eq!(outcome.err(), Some(GvcError::UserCancelled));
    assert_eq!(stopping.into_prompter().asked.len(), 3);
    assert_eq!(whole.to_string().as_bytes(), before.as_slice());

    let mut doc = load_document(CATALOG).unwrap();
    let mut targeted = UpdateInteraction::new(
        true,
        Script::picking(CandidateChoice::Pick(0), VersionPick::Quit, vec![]),
    );
    let stopped = updater.update_targeted_dependency(&mut targeted, &mut doc, true, "okhttp");
    assert_eq!(stopped.err(), Some(GvcError::UserCancelled));
    assert_eq!(doc.to_string().as_bytes(), before.as_slice());

    let mut confirm = UpdateInteraction::new(
        true,
        Script::picking(CandidateChoice::Pick(0), VersionPick::Entry(0), vec![Answer::Quit]),
    );
    let stopped = updater.update_targeted_dependency(&mut confirm, &mut doc, true, "okhttp");
    assert_eq!(stopped.err(), Some(GvcError::UserCancelled));
    assert_eq!(doc.to_string().as_bytes(), before.as_slice());

    let mut picking = UpdateInteraction::new(
        true,
        Script::picking(CandidateChoice::Quit, VersionPick::Entry(0), vec![]),
    );
    let stopped = updater.update_targeted_dependency(&mut picking, &mut doc, true, "c*");
    assert_eq!(stopped.err(), Some(GvcError::UserCancelled));
    assert_eq!(doc.to_string().as_bytes(), before.as_slice());
}

#[test]
fn declined_changes_are_left_out() {
    let updater =
        DependencyUpdater::with_clients(library_client(), plugin_client(), DefaultVersionStrategy)
            .unwrap();
    let mut interaction = UpdateInteraction::new(
        true,
        Script::answering(vec![Answer::No, Answer::Yes, Answer::No]),
    );
    let (report, text) = updater
        .update_catalog_text(&mut interaction, CATALOG, true)
        .unwrap();
    assert!(report.version_updates.is_empty());
    assert_eq!(report.library_updates, vec![change("okhttp", "4.11.0", "4.12.0")]);
    assert!(report.plugin_updates.is_empty());
    assert_eq!(text.unwrap(), CATALOG.replace("4.11.0", "4.12.0"));
}

#[test]
fn an_error_of_the_client_is_handed_on() {
    let client = FakeClient::failing();
    let strategy = DefaultVersionStrategy::shared();
    let handler = LibraryHandler::new(&client, &strategy);
    let doc = load_document(CATALOG).unwrap();
    let outcome = handler.check(doc.as_item().get("libraries").unwrap(), true);
    assert_eq!(outcome.err(), Some(GvcError::Io("down".to_string())));
    let none = load_document("[libraries]\nx = { module = \"g:a\", version.ref = \"v\" }\n").unwrap();
    let passed = handler.check(none.as_item().get("libraries").unwrap(), true);
    assert!(passed.unwrap().is_empty());
    assert_eq!(
        find_upgrade(&client, &strategy, &Coordinate::new("g", "a"), "1.0", true),
        Err(GvcError::Io("down".to_string()))
    );
}

#[test]
fn an_upgrade_has_to_differ_and_be_newer() {
    let strategy = DefaultVersionStrategy::shared();
    assert_eq!(choose_upgrade(&strategy, "1.0.0", None), None);
    assert_eq!(choose_upgrade(&strategy, "1.0.0", Some("1.0.0".to_string())), None);
    assert_eq!(choose_upgrade(&strategy, "1.0.0", Some("0.9.0".to_string())), None);
    assert_eq!(
        choose_upgrade(&strategy, "1.0.0", Some("1.0.1".to_string())),
        Some("1.0.1".to_string())
    );
}

#[test]
fn candidates_are_collected_from_all_sections_in_display_order() {
    let doc = load_document(CATALOG).unwrap();
    let names = |pattern: &str| -> Vec<String> {
        let matcher = PatternMatcher::new(pattern).unwrap();
        collect_candidates(doc.as_item(), &matcher)
            .iter()
            .map(|c| c.display_name())
            .collect()
    };
    assert_eq!(
        names("*"),
        vec![
            "library 'current' (com.example:current)",
            "library 'okhttp' (com.squareup.okhttp3:okhttp)",
            "library 'retrofit' (com.squareup.retrofit2:retrofit)",
            "plugin 'detekt' (io.gitlab.arturbosch.detekt)",
            "version alias 'core-version' (com.example:core-api)",
        ]
    );
    assert_eq!(names("CORE"), vec!["version alias 'core-version' (com.example:core-api)"]);
    assert_eq!(names("kotlin"), Vec::<String>::new());
    let matcher = PatternMatcher::new("okhttp").unwrap();
    let found = collect_candidates(doc.as_item(), &matcher);
    assert_eq!(
        found[0].describe_with_version(),
        "library 'okhttp' (com.squareup.okhttp3:okhttp) \u{2014} current version 4.11.0"
    );
    assert_eq!(found[0].current_version, "4.11.0");
}

#[test]
fn a_single_match_is_updated_to_the_default_version() {
    let mut doc = load_document(CATALOG).unwrap();
    let (libraries, plugins) = (library_client(), plugin_client());
    let strategy = DefaultVersionStrategy::shared();
    let handler = TargetedHandler::new(&libraries, &plugins, &strategy);
    let mut interaction = UpdateInteraction::new(false, Script::answering(vec![]));

    let report = handler.update(&mut interaction, &mut doc, true, "okhttp").unwrap();
    assert_eq!(report.library_updates, vec![change("okhttp", "4.11.0", "4.12.0")]);
    assert_eq!(doc.to_string(), CATALOG.replace("4.11.0", "4.12.0"));

    let report = handler.update(&mut interaction, &mut doc, false, "okhttp").unwrap();
    assert_eq!(report.library_updates, vec![change("okhttp", "4.12.0", "5.0.0-alpha.14")]);

    let report = handler.update(&mut interaction, &mut doc, true, "core-version").unwrap();
    assert_eq!(report.version_updates, vec![change("core-version", "1.0", "1.1")]);
    assert_eq!(doc["versions"]["core-version"].as_str(), Some("1.1"));

    let report = handler.update(&mut interaction, &mut doc, true, "detekt").unwrap();
    assert_eq!(report.plugin_updates, vec![change("detekt", "1.23.0", "1.23.6")]);
    assert_eq!(doc["plugins"]["detekt"]["version"].as_str(), Some("1.23.6"));
}

#[test]
fn nothing_to_do_gives_an_empty_report() {
    let mut doc = load_document(CATALOG).unwrap();
    let (libraries, plugins) = (library_client(), plugin_client());
    let strategy = DefaultVersionStrategy::shared();
    let handler = TargetedHandler::new(&libraries, &plugins, &strategy);
    let mut interaction = UpdateInteraction::new(false, Script::answering(vec![]));

    assert!(handler.update(&mut interaction, &mut doc, true, "nothing-like-it").unwrap().is_empty());
    assert!(handler.update(&mut interaction, &mut doc, true, "current").unwrap().is_empty());
    assert!(handler.update(&mut interaction, &mut doc, true, "retrofit").unwrap().is_empty());
    assert!(matches!(
        handler.update(&mut interaction, &mut doc, true, "  "),
        Err(GvcError::ProjectValidation(_))
    ));
    assert_eq!(doc.to_string(), CATALOG);

    let mut skipping = UpdateInteraction::new(
        true,
        Script::picking(CandidateChoice::Pick(1), VersionPick::Skip, vec![]),
    );
    assert!(handler.update(&mut skipping, &mut doc, true, "o*").unwrap().is_empty());
    let mut current = UpdateInteraction::new(
        true,
        Script::picking(CandidateChoice::Invalid, VersionPick::Entry(1), vec![]),
    );
    assert!(handler.update(&mut current, &mut doc, true, "okhttp").unwrap().is_empty());
    assert!(handler.update(&mut current, &mut doc, true, "*").unwrap().is_empty());
    assert_eq!(doc.to_string(), CATALOG);
}

#[test]
fn the_user_picks_entry_and_version() {
    let mut doc = load_document(CATALOG).unwrap();
    let (libraries, plugins) = (library_client(), plugin_client());
    let strategy = DefaultVersionStrategy::shared();
    let handler = TargetedHandler::new(&libraries, &plugins, &strategy);
    let mut interaction = UpdateInteraction::new(
        true,
        Script::picking(CandidateChoice::Pick(1), VersionPick::Entry(0), vec![Answer::Yes]),
    );
    let report = handler.update(&mut interaction, &mut doc, false, "*t*").unwrap();
    assert_eq!(report.library_updates, vec![change("okhttp", "4.11.0", "5.0.0-alpha.14")]);
    assert_eq!(doc["libraries"]["okhttp"].as_str(), Some("com.squareup.okhttp3:okhttp:5.0.0-alpha.14"));
    let script = interaction.into_prompter();
    assert_eq!(
        script.offered,
        vec![
            "library 'current' (com.example:current) \u{2014} current version 3.0.0",
            "library 'okhttp' (com.squareup.okhttp3:okhttp) \u{2014} current version 4.11.0",
            "library 'retrofit' (com.squareup.retrofit2:retrofit) \u{2014} current version 2.9.0",
            "plugin 'detekt' (io.gitlab.arturbosch.detekt) \u{2014} current version 1.23.0",
        ]
    );
    assert_eq!(
        script.asked,
        vec!["Library library 'okhttp' (com.squareup.okhttp3:okhttp) 4.11.0 5.0.0-alpha.14"]
    );
}

#[test]
fn offered_versions_tell_stable_and_current() {
    let listed: Vec<String> = ["2.0.0-beta", "1.1.0", "1.0.0"].iter().map(|v| v.to_string()).collect();
    let all = version_entries(listed.clone(), "1.1.0", false);
    assert_eq!(
        all,
        vec![
            VersionEntry { value: "2.0.0-beta".to_string(), is_stable: false, is_current: false },
            VersionEntry { value: "1.1.0".to_string(), is_stable: true, is_current: true },
            VersionEntry { value: "1.0.0".to_string(), is_stable: true, is_current: false },
        ]
    );
    let stable = version_entries(listed, "1.1.0", true);
    assert_eq!(stable.len(), 2);
    assert_eq!(select_default_version(&all, true), Some("1.0.0".to_string()));
    assert_eq!(select_default_version(&all, false), Some("2.0.0-beta".to_string()));
    assert_eq!(select_default_version(&stable[..1].to_vec(), true), None);
    let unstable_only = vec![
        VersionEntry { value: "2.0.0-beta".to_string(), is_stable: false, is_current: false },
    ];
    assert_eq!(select_default_version(&unstable_only, true), Some("2.0.0-beta".to_string()));
    assert_eq!(select_default_version(&Vec::new(), false), None);
}

#[test]
fn applying_an_update_needs_the_entry() {
    let mut doc = load_document(CATALOG).unwrap();
    let mut report = UpdateReport::new();
    let missing = TargetCandidate {
        name: "gone".to_string(),
        current_version: "1.0".to_string(),
        kind: TargetKind::Library { group: "g".to_string(), artifact: "a".to_string() },
    };
    assert!(matches!(
        apply_update(&mut doc, &missing, "2.0", &mut report),
        Err(GvcError::TomlParsing(_))
    ));
    assert!(report.is_empty());
    assert!(matches!(
        apply_version_alias(&mut doc, "gone", "2.0"),
        Err(GvcError::TomlParsing(_))
    ));
    assert_eq!(doc.to_string(), CATALOG);
    assert_eq!(apply_version_alias(&mut doc, "unused", "0.2"), Ok(()));
    assert_eq!(doc.to_string(), CATALOG.replace("unused = \"0.1\"", "unused = \"0.2\""));

    let mut odd = load_document("[libraries]\nodd = 5\n").unwrap();
    let candidate = TargetCandidate { name: "odd".to_string(), ..missing };
    assert!(matches!(
        apply_update(&mut odd, &candidate, "2.0", &mut report),
        Err(GvcError::UnsupportedShape(_))
    ));
    assert!(report.is_empty());
}

#[test]
fn the_report_keeps_one_change_for_each_name() {
    let mut report = UpdateReport::new();
    assert!(report.is_empty());
    report.add_version_update("a".to_string(), "1".to_string(), "2".to_string());
    report.add_library_update("a".to_string(), "1".to_string(), "2".to_string());
    report.add_library_update("b".to_string(), "1".to_string(), "2".to_string());
    report.add_plugin_update("p".to_string(), "1".to_string(), "2".to_string());
    report.add_library_update("a".to_string(), "1".to_string(), "3".to_string());
    assert_eq!(report.total_updates(), 4);
    assert!(!report.is_empty());
    assert_eq!(report.library_updates, vec![change("a", "1", "3"), change("b", "1", "2")]);
    assert_eq!(report.version_updates, vec![change("a", "1", "2")]);
    assert_eq!(report.plugin_updates, vec![change("p", "1", "2")]);
}

#[test]
fn a_targeted_update_gives_the_text_to_write() {
    let updater =
        DependencyUpdater::with_clients(library_client(), plugin_client(), DefaultVersionStrategy)
            .unwrap();
    let mut interaction = UpdateInteraction::new(false, Script::answering(vec![]));
    let (report, text) = updater
        .update_targeted_text(&mut interaction, CATALOG, true, "detekt")
        .unwrap();
    assert_eq!(report.plugin_updates, vec![change("detekt", "1.23.0", "1.23.6")]);
    assert_eq!(text.unwrap(), CATALOG.replace("1.23.0", "1.23.6"));

    let (none, nothing) = updater
        .update_targeted_text(&mut interaction, CATALOG, true, "current")
        .unwrap();
    assert!(none.is_empty());
    assert_eq!(nothing, None);
    assert!(matches!(
        updater.update_targeted_text(&mut interaction, "x = ", true, "current"),
        Err(GvcError::TomlParsing(_))
    ));
    assert!(matches!(
        updater.update_targeted_text(&mut interaction, CATALOG, true, " "),
        Err(GvcError::ProjectValidation(_))
    ));
}

#[test]
fn a_catalog_with_nothing_to_ask_about_never_fails() {
    let updater =
        DependencyUpdater::with_clients(FakeClient::failing(), FakeClient::failing(), DefaultVersionStrategy)
            .unwrap();
    let content = "[versions]\nunused = \"1.0\"\nbroken = 3\n\n[libraries]\nnamed = { module = \"g:a\", version.ref = \"broken\" }\nbare = { module = \"g:b\" }\n\n[plugins]\nkotlin = { id = \"org.jetbrains.kotlin.jvm\", version.ref = \"unused\" }\n";
    let mut doc = load_document(content).unwrap();
    assert!(updater.check_for_updates(&doc, true).unwrap().is_empty());
    let mut interaction = UpdateInteraction::new(false, Script::answering(vec![]));
    assert!(updater.update_version_catalog(&mut interaction, &mut doc, true).unwrap().is_empty());
    assert_eq!(doc.to_string(), content);

    let asked = load_document("[libraries]\nx = \"g:a:1.0\"\n").unwrap();
    assert_eq!(
        updater.check_for_updates(&asked, true).err(),
        Some(GvcError::Io("down".to_string()))
    );
    let inline = load_document("libraries = { x = \"g:a:1.0\" }\n").unwrap();
    assert!(updater.check_for_updates(&inline, true).unwrap().is_empty());
}

#[test]
fn a_pick_behind_the_end_of_the_list_is_not_taken() {
    let client = library_client();
    let plugins = plugin_client();
    let strategy = DefaultVersionStrategy::shared();
    let handler = TargetedHandler::new(&client, &plugins, &strategy);

    let mut doc = load_document(CATALOG).unwrap();
    let mut far = UpdateInteraction::new(
        true,
        Script::picking(CandidateChoice::Pick(99), VersionPick::Entry(0), vec![Answer::Yes]),
    );
    assert_eq!(far.choose_candidate(&vec!["a".to_string(), "b".to_string()]), CandidateChoice::Pick(99));
    assert_eq!(settle_choice(CandidateChoice::Pick(99), 2), Ok(None));
    assert_eq!(settle_choice(CandidateChoice::Pick(99), 100), Ok(Some(99)));
    assert!(handler.update(&mut far, &mut doc, true, "c*").unwrap().is_empty());
    assert!(!far.is_cancelled());
    assert_eq!(doc.to_string(), CATALOG);

    let mut beyond = UpdateInteraction::new(
        true,
        Script::picking(CandidateChoice::Pick(0), VersionPick::Entry(99), vec![Answer::Yes]),
    );
    let entries = version_entries(vec!["2.0".to_string(), "1.0".to_string()], "1.0", false);
    assert_eq!(beyond.choose_version("x", "1.0", &entries), VersionPick::Entry(99));
    assert_eq!(settle_pick(&strategy, "1.0", &entries, VersionPick::Entry(99)), PickOutcome::AskAgain);
    assert!(handler.update(&mut beyond, &mut doc, true, "okhttp").unwrap().is_empty());
    assert_eq!(doc.to_string(), CATALOG);
    assert!(beyond.into_prompter().asked.is_empty());
}

struct Flaky;

impl RepositoryClient for Flaky {
    fn fetch_available_versions(&self, _coordinate: &Coordinate) -> Result<Vec<String>, GvcError> {
        Err(GvcError::Io("down".to_string()))
    }

    fn fetch_latest_version(
        &self,
        coordinate: &Coordinate,
        _stable_only: bool,
    ) -> Result<Option<String>, GvcError> {
        if coordinate.artifact == "okhttp" || coordinate.artifact == "core-api" {
            Ok(Some("9.0.0".to_string()))
        } else {
            Err(GvcError::Io("down".to_string()))
        }
    }
}

#[test]
fn an_error_leaves_what_was_not_asked_about() {
    let client = Flaky;
    let strategy = DefaultVersionStrategy::shared();

    let mut doc = load_document(CATALOG).unwrap();
    let handler = LibraryHandler::new(&client, &strategy);
    let mut interaction = UpdateInteraction::new(false, Script::answering(vec![]));
    let stopped = handler.update(&mut interaction, doc.get_mut("libraries").unwrap(), true);
    assert_eq!(stopped.err(), Some(GvcError::Io("down".to_string())));
    let expected = CATALOG.replace("okhttp:4.11.0", "okhttp:9.0.0");
    assert_eq!(doc.to_string(), expected);

    let content = "[versions]\ncore = \"1.0\"\nfree = \"0.1\"\nside = \"2.0\"\n\n[libraries]\ncore-api = { module = \"g:core-api\", version.ref = \"core\" }\nside-lib = { module = \"g:side\", version.ref = \"side\" }\n";
    let mut aliases = load_document(content).unwrap();
    let versions = VersionHandler::new(&client, &strategy);
    let stopped = versions.update(&mut interaction, &mut aliases, true);
    assert_eq!(stopped.err(), Some(GvcError::Io("down".to_string())));
    assert_eq!(aliases.to_string(), content.replace("core = \"1.0\"", "core = \"9.0.0\""));
}

#[test]
fn writing_the_version_that_is_there_changes_no_text() {
    let content = "[versions]\ncore = '1.0'   # in single quotes\n\n[libraries]\nplain   =   'g:a:1.2.3'\ncore-api = { module = \"g:core-api\", version.ref = \"core\" }\n\n[plugins]\ndetekt = { id = \"io.detekt\",   version = '1.23.0' } # linting\n";
    let mut doc = load_document(content).unwrap();
    assert_eq!(apply_version_alias(&mut doc, "core", "1.0"), Ok(()));
    assert_eq!(doc.to_string(), content);

    let matcher = PatternMatcher::new("*").unwrap();
    let candidates = collect_candidates(doc.as_item(), &matcher);
    assert_eq!(candidates.len(), 3);
    for candidate in candidates.iter() {
        let mut report = UpdateReport::new();
        let current = candidate.current_version.clone();
        assert_eq!(apply_update(&mut doc, candidate, &current, &mut report), Ok(()));
        assert_eq!(doc.to_string(), content, "{}", candidate.name);
    }
    assert_eq!(apply_version_alias(&mut doc, "core", "1.1"), Ok(()));
    assert_eq!(doc.to_string(), content.replace("'1.0'", "\"1.1\""));
}

#[test]
fn a_pick_is_settled_by_what_is_offered() {
    let strategy = DefaultVersionStrategy::shared();
    let entries = version_entries(
        vec!["2.0.0".to_string(), "1.5.0".to_string(), "1.0.0".to_string()],
        "1.5.0",
        false,
    );
    assert_eq!(settle_pick(&strategy, "1.5.0", &entries, VersionPick::Quit), PickOutcome::Cancel);
    assert_eq!(settle_pick(&strategy, "1.5.0", &entries, VersionPick::Skip), PickOutcome::Stay);
    assert_eq!(settle_pick(&strategy, "1.5.0", &entries, VersionPick::Entry(0)), PickOutcome::Offer(0));
    assert_eq!(settle_pick(&strategy, "1.5.0", &entries, VersionPick::Entry(1)), PickOutcome::Stay);
    assert_eq!(settle_pick(&strategy, "1.5.0", &entries, VersionPick::Entry(2)), PickOutcome::AskAgain);
    assert_eq!(settle_pick(&strategy, "1.5.0", &entries, VersionPick::Entry(3)), PickOutcome::AskAgain);
    assert_eq!(settle_pick(&strategy, "1.5.0", &Vec::new(), VersionPick::Entry(0)), PickOutcome::AskAgain);

    assert_eq!(settle_choice(CandidateChoice::Quit, 3), Err(GvcError::UserCancelled));
    assert_eq!(settle_choice(CandidateChoice::Invalid, 3), Ok(None));
    assert_eq!(settle_choice(CandidateChoice::Pick(2), 3), Ok(Some(2)));
    assert_eq!(settle_choice(CandidateChoice::Pick(3), 3), Ok(None));
    assert_eq!(settle_choice(CandidateChoice::Pick(0), 0), Ok(None));
}

#[test]
fn skipping_and_picking_the_current_version_change_nothing() {
    let client = library_client();
    let plugins = plugin_client();
    let strategy = DefaultVersionStrategy::shared();
    let handler = TargetedHandler::new(&client, &plugins, &strategy);
    let listed = client.fetch_available_versions(&Coordinate::new("com.squareup.okhttp3", "okhttp")).unwrap();
    let current = listed.iter().position(|v| v == "4.11.0").unwrap();
    let older = listed.len();
    for pick in [VersionPick::Skip, VersionPick::Entry(current), VersionPick::Entry(older)] {
        let mut doc = load_document(CATALOG).unwrap();
        let mut interaction =
            UpdateInteraction::new(true, Script::picking(CandidateChoice::Pick(0), pick, vec![]));
        let report = handler.update(&mut interaction, &mut doc, false, "okhttp").unwrap();
        assert!(report.is_empty());
        assert_eq!(doc.to_string(), CATALOG);
        assert!(!interaction.is_cancelled());
        assert!(interaction.into_prompter().asked.is_empty());
    }
}

#[test]
fn a_stop_is_kept_and_told() {
    let updater =
        DependencyUpdater::with_clients(library_client(), plugin_client(), DefaultVersionStrategy)
            .unwrap();
    let mut doc = load_document(CATALOG).unwrap();
    let mut interaction =
        UpdateInteraction::new(true, Script::answering(vec![Answer::Yes, Answer::Quit]));
    assert!(!interaction.is_cancelled());
    let outcome = updater.update_version_catalog(&mut interaction, &mut doc, true);
    assert_eq!(outcome.err(), Some(GvcError::UserCancelled));
    assert!(interaction.is_cancelled());
    assert_eq!(doc.to_string(), CATALOG);

    let mut picking = UpdateInteraction::new(
        true,
        Script::picking(CandidateChoice::Pick(0), VersionPick::Quit, vec![]),
    );
    let stopped = updater.update_targeted_dependency(&mut picking, &mut doc, true, "okhttp");
    assert_eq!(stopped.err(), Some(GvcError::UserCancelled));
    assert!(picking.is_cancelled());

    let mut declining =
        UpdateInteraction::new(true, Script::answering(vec![Answer::No, Answer::No, Answer::No, Answer::No]));
    let report = updater.update_version_catalog(&mut declining, &mut doc, true).unwrap();
    assert!(report.is_empty());
    assert!(!declining.is_cancelled());
}

#[test]
fn the_user_is_asked_again_after_a_pick_that_is_not_taken() {
    let client = library_client();
    let plugins = plugin_client();
    let strategy = DefaultVersionStrategy::shared();
    let handler = TargetedHandler::new(&client, &plugins, &strategy);
    let listed = client.fetch_available_versions(&Coordinate::new("com.squareup.okhttp3", "okhttp")).unwrap();
    let newest = 0;
    assert!(VersionComparator::is_newer(&listed[newest], "4.11.0"));

    let mut doc = load_document(CATALOG).unwrap();
    let mut beyond = UpdateInteraction::new(
        true,
        Script::picking(CandidateChoice::Pick(0), VersionPick::Entry(listed.len()), vec![]),
    );
    assert!(handler.update(&mut beyond, &mut doc, false, "okhttp").unwrap().is_empty());
    assert_eq!(beyond.into_prompter().picked, 2);

    let mut declined = UpdateInteraction::new(
        true,
        Script::picking(CandidateChoice::Pick(0), VersionPick::Entry(newest), vec![Answer::No]),
    );
    assert!(handler.update(&mut declined, &mut doc, false, "okhttp").unwrap().is_empty());
    let script = declined.into_prompter();
    assert_eq!(script.asked.len(), 1);
    assert_eq!(script.picked, 2);
    assert_eq!(doc.to_string(), CATALOG);

    let mut taken = UpdateInteraction::new(
        true,
        Script::picking(CandidateChoice::Pick(0), VersionPick::Entry(newest), vec![Answer::Yes]),
    );
    assert!(!handler.update(&mut taken, &mut doc, false, "okhttp").unwrap().is_empty());
    assert_eq!(taken.into_prompter().picked, 1);
}

#[test]
fn the_interaction_holds_what_the_user_answered_last() {
    let client = library_client();
    let plugins = plugin_client();
    let strategy = DefaultVersionStrategy::shared();
    let handler = TargetedHandler::new(&client, &plugins, &strategy);
    let mut doc = load_document(CATALOG).unwrap();
    let mut interaction = UpdateInteraction::new(
        true,
        Script::picking(CandidateChoice::Pick(1), VersionPick::Entry(0), vec![Answer::Yes]),
    );
    assert_eq!(interaction.answered_last(), None);
    assert_eq!(interaction.chose_last(), None);
    assert_eq!(interaction.picked_last(), None);
    let matcher = PatternMatcher::new("*t*").unwrap();
    let offered = collect_candidates(doc.as_item(), &matcher);
    let report = handler.update(&mut interaction, &mut doc, false, "*t*").unwrap();
    assert_eq!(interaction.chose_last(), Some(CandidateChoice::Pick(1)));
    assert_eq!(interaction.picked_last(), Some(VersionPick::Entry(0)));
    assert_eq!(interaction.answered_last(), Some(Answer::Yes));
    assert_eq!(report.library_updates.len() + report.plugin_updates.len() + report.version_updates.len(), 1);
    let changed = report
        .library_updates
        .iter()
        .chain(report.plugin_updates.iter())
        .chain(report.version_updates.iter())
        .next()
        .unwrap();
    assert_eq!(changed.name, offered[1].name);
    assert_eq!(changed.old_version, offered[1].current_version);
}
