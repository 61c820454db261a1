//! The package repositories that a Gradle build declares.
//!
//! Reading the build scripts from disk is done outside this crate; what
//! their text declares is worked out here.

use crate::error::GvcError;
use crate::pattern::regex_valid;
use crate::text::{chars_of, contains_text, find_text, has_text, occurs_at, same_text, text_of_range};
use vstd::prelude::*;

verus! {

/// A package repository of the build.
#[derive(Debug, Clone, PartialEq, Eq)]
pub struct Repository {
    pub name: String,
    pub url: String,
    /// Regular expressions for the groups that this repository serves;
    /// none means every group.
    pub group_filters: Vec<String>,
}

/// The mathematical value of a [`Repository`].
pub struct RepositoryView {
    pub name: Seq<char>,
    pub url: Seq<char>,
    pub group_filters: Seq<Seq<char>>,
}

impl View for Repository {
    type V = RepositoryView;

    open spec fn view(&self) -> RepositoryView {
        RepositoryView {
            name: self.name@,
            url: self.url@,
            group_filters: crate::text::texts(self.group_filters@),
        }
    }
}

/// The values of a list of repositories.
pub open spec fn repository_views(list: Seq<Repository>) -> Seq<RepositoryView> {
    Seq::new(list.len(), |i: int| list[i]@)
}

/// The repositories of a Gradle project.
#[derive(Debug, Clone)]
pub struct GradleConfig {
    pub repositories: Vec<Repository>,
}

/// What the group of number `group` of the regular expression `pattern`
/// captures in each of its matches in `text`, in the order in which
/// `Regex::captures_iter` finds the matches; nothing for a match in which
/// the group takes no part.
pub uninterp spec fn regex_captures(pattern: Seq<char>, text: Seq<char>, group: nat) -> Seq<
    Option<Seq<char>>,
>;

/// The values of a list of captures.
pub open spec fn capture_views(list: Seq<Option<String>>) -> Seq<Option<Seq<char>>> {
    Seq::new(
        list.len(),
        |i: int|
            match list[i] {
                Some(t) => Some(t@),
                None => None,
            },
    )
}

/// Compiles `pattern` with `Regex::new`, walks its matches in `text` with
/// `Regex::captures_iter` and hands out what `Captures::get` gives for
/// the group in each; `None` where the pattern is refused.
#[verifier::external_body]
pub(crate) fn regex_groups(pattern: &str, text: &str, group: usize) -> (r: Option<Vec<Option<String>>>)
    ensures
        r is Some <==> regex_valid(pattern@),
        r is Some ==> capture_views(r->0@) == regex_captures(pattern@, text@, group as nat),
{
    match regex::Regex::new(pattern) {
        Ok(re) => Some(
            re.captures_iter(text).map(|c| c.get(group).map(|m| m.as_str().to_string())).collect(),
        ),
        Err(_) => None,
    }
}

/// What the first group of a regular expression captures in its matches
/// in a text.
pub open spec fn first_captures(pattern: Seq<char>, text: Seq<char>) -> Seq<Seq<char>> {
    captured_texts(regex_captures(pattern, text, 1))
}

/// The texts of a list of captures, without the matches in which the
/// group takes no part.
pub open spec fn captured_texts(captures: Seq<Option<Seq<char>>>) -> Seq<Seq<char>>
    decreases captures.len(),
{
    if captures.len() == 0 {
        Seq::empty()
    } else {
        match captures.last() {
            Some(t) => captured_texts(captures.drop_last()).push(t),
            None => captured_texts(captures.drop_last()),
        }
    }
}

/// Maven Central.
pub open spec fn maven_central() -> RepositoryView {
    RepositoryView {
        name: "Maven Central"@,
        url: "https://repo1.maven.org/maven2"@,
        group_filters: Seq::empty(),
    }
}

/// The Maven repository of Google, which serves the groups of Google and
/// of Android.
pub open spec fn google_maven() -> RepositoryView {
    RepositoryView {
        name: "Google Maven"@,
        url: "https://dl.google.com/dl/android/maven2"@,
        group_filters: seq![".*google.*"@, ".*android.*"@, ".*androidx.*"@],
    }
}

/// The Gradle plugin portal.
pub open spec fn plugin_portal() -> RepositoryView {
    RepositoryView {
        name: "Gradle Plugin Portal"@,
        url: "https://plugins.gradle.org/m2"@,
        group_filters: Seq::empty(),
    }
}

/// JCenter.
pub open spec fn jcenter() -> RepositoryView {
    RepositoryView {
        name: "JCenter (Deprecated)"@,
        url: "https://jcenter.bintray.com"@,
        group_filters: Seq::empty(),
    }
}

/// The repositories that are used where a build declares none.
pub open spec fn default_repository_views() -> Seq<RepositoryView> {
    seq![maven_central(), google_maven()]
}

/// Makes a repository without filters.
fn plain_repository(name: &str, url: &str) -> (r: Repository)
    ensures
        r@ == (RepositoryView { name: name@, url: url@, group_filters: Seq::empty() }),
{
    let r = Repository { name: name.to_owned(), url: url.to_owned(), group_filters: Vec::new() };
    assert(crate::text::texts(r.group_filters@) =~= Seq::empty());
    r
}

/// Makes the repository of Google.
fn google_repository() -> (r: Repository)
    ensures
        r@ == google_maven(),
{
    let mut filters: Vec<String> = Vec::new();
    filters.push(".*google.*".to_owned());
    filters.push(".*android.*".to_owned());
    filters.push(".*androidx.*".to_owned());
    let r = Repository {
        name: "Google Maven".to_owned(),
        url: "https://dl.google.com/dl/android/maven2".to_owned(),
        group_filters: filters,
    };
    assert(crate::text::texts(r.group_filters@) =~= seq![
        ".*google.*"@,
        ".*android.*"@,
        ".*androidx.*"@,
    ]);
    r
}

/// The repositories that are used where a build declares none: Maven
/// Central and the repository of Google.
pub fn default_repositories() -> (r: Vec<Repository>)
    ensures
        repository_views(r@) == default_repository_views(),
{
    let mut list: Vec<Repository> = Vec::new();
    list.push(plain_repository("Maven Central", "https://repo1.maven.org/maven2"));
    list.push(google_repository());
    assert(repository_views(list@) =~= default_repository_views());
    list
}

/// The first position at or after `from` where `needle` stands in `hay`,
/// or `-1`.
pub open spec fn first_at(hay: Seq<char>, needle: Seq<char>, from: int) -> int
    decreases hay.len() - from + 1,
{
    if from < 0 || from + needle.len() > hay.len() {
        -1
    } else if occurs_at(hay, needle, from) {
        from
    } else {
        first_at(hay, needle, from + 1)
    }
}

/// `first_at` is the first position where the text stands.
pub proof fn lemma_first_at(hay: Seq<char>, needle: Seq<char>, from: int, at: int)
    requires
        0 <= from <= at,
        occurs_at(hay, needle, at),
        forall|k: int| from <= k < at ==> !occurs_at(hay, needle, k),
    ensures
        first_at(hay, needle, from) == at,
    decreases at - from,
{
    if from < at {
        lemma_first_at(hay, needle, from + 1, at);
    }
}

/// Where the text stands nowhere, `first_at` finds nothing.
pub proof fn lemma_first_at_none(hay: Seq<char>, needle: Seq<char>, from: int)
    requires
        0 <= from,
        forall|k: int| from <= k ==> !occurs_at(hay, needle, k),
    ensures
        first_at(hay, needle, from) == -1,
    decreases hay.len() - from + 1,
{
    if from + needle.len() <= hay.len() {
        lemma_first_at_none(hay, needle, from + 1);
    }
}

/// The host part of a URL, for display: what stands between `://` and
/// the next `/`; the whole text where it has no `://`.
pub open spec fn short_url(url: Seq<char>) -> Seq<char> {
    let scheme_end = first_at(url, "://"@, 0);
    if scheme_end < 0 {
        url
    } else {
        let start = scheme_end + 3;
        let slash = first_at(url, "/"@, start);
        if slash < 0 {
            url.subrange(start, url.len() as int)
        } else {
            url.subrange(start, slash)
        }
    }
}

/// A URL without the slashes at its end.
pub open spec fn without_trailing_slashes(url: Seq<char>) -> Seq<char>
    decreases url.len(),
{
    if url.len() > 0 && url.last() == '/' {
        without_trailing_slashes(url.drop_last())
    } else {
        url
    }
}

/// Whether a repository with this URL is in the list.
pub open spec fn has_url(list: Seq<RepositoryView>, url: Seq<char>) -> bool {
    exists|i: int| 0 <= i < list.len() && (#[trigger] list[i]).url == url
}

/// The repositories of a list, each with its URL without trailing
/// slashes, and of those with the same URL only the first.
pub open spec fn deduplicated(list: Seq<RepositoryView>) -> Seq<RepositoryView>
    decreases list.len(),
{
    if list.len() == 0 {
        Seq::empty()
    } else {
        let before = deduplicated(list.drop_last());
        let url = without_trailing_slashes(list.last().url);
        if has_url(before, url) {
            before
        } else {
            before.push(RepositoryView { url, ..list.last() })
        }
    }
}

/// The custom repository of a URL that a build script names.
pub open spec fn custom_repository(url: Seq<char>) -> RepositoryView {
    RepositoryView {
        name: "Custom ("@ + short_url(url) + ")"@,
        url,
        group_filters: Seq::empty(),
    }
}

/// The custom repositories of a list of URLs.
pub open spec fn custom_repositories(urls: Seq<Seq<char>>) -> Seq<RepositoryView> {
    Seq::new(urls.len(), |i: int| custom_repository(urls[i]))
}

/// One repository where the script names it, none otherwise.
pub open spec fn named_repository(content: Seq<char>, call: Seq<char>, repository: RepositoryView) -> Seq<
    RepositoryView,
> {
    if contains_text(content, call) {
        seq![repository]
    } else {
        Seq::empty()
    }
}

/// The regular expression for `maven { url = uri("..") }` in a Kotlin
/// script.
pub open spec fn kotlin_uri_pattern() -> Seq<char> {
    "maven\\s*\\{\\s*url\\s*=\\s*uri\\s*\\(\\s*[\"']([^\"']+)[\"']\\s*\\)\\s*\\}"@
}

/// The regular expression for `maven("..")` in a Kotlin script.
pub open spec fn kotlin_call_pattern() -> Seq<char> {
    "maven\\s*\\(\\s*[\"']([^\"']+)[\"']\\s*\\)"@
}

/// The regular expression for `maven { url '..' }` in a Groovy script.
pub open spec fn groovy_url_pattern() -> Seq<char> {
    "maven\\s*\\{\\s*url\\s+['\"]([^'\"]+)['\"]"@
}

/// The regular expression for `maven { url = '..' }` in a Groovy script.
pub open spec fn groovy_assign_pattern() -> Seq<char> {
    "maven\\s*\\{\\s*url\\s*=\\s*['\"]([^'\"]+)['\"]"@
}

/// The repositories that a Kotlin build script declares: the well-known
/// ones that it names, then the custom ones in the order of the two
/// forms they can be written in.
pub open spec fn kotlin_repositories(content: Seq<char>) -> Seq<RepositoryView> {
    named_repository(content, "mavenCentral()"@, maven_central()) + named_repository(
        content,
        "google()"@,
        google_maven(),
    ) + named_repository(content, "gradlePluginPortal()"@, plugin_portal()) + custom_repositories(
        first_captures(kotlin_uri_pattern(), content),
    ) + custom_repositories(first_captures(kotlin_call_pattern(), content))
}

/// The repositories that a Groovy build script declares.
pub open spec fn groovy_repositories(content: Seq<char>) -> Seq<RepositoryView> {
    named_repository(content, "mavenCentral()"@, maven_central()) + named_repository(
        content,
        "google()"@,
        google_maven(),
    ) + named_repository(content, "jcenter()"@, jcenter()) + custom_repositories(
        first_captures(groovy_url_pattern(), content),
    ) + custom_repositories(first_captures(groovy_assign_pattern(), content))
}

/// Whether the `regex` crate takes the two patterns for the custom
/// repositories of a Kotlin script.
pub open spec fn kotlin_patterns_valid() -> bool {
    regex_valid(kotlin_uri_pattern()) && regex_valid(kotlin_call_pattern())
}

/// Whether the `regex` crate takes the two patterns for the custom
/// repositories of a Groovy script.
pub open spec fn groovy_patterns_valid() -> bool {
    regex_valid(groovy_url_pattern()) && regex_valid(groovy_assign_pattern())
}

/// What a Kotlin script declares, where there is one and it can be
/// read.
pub open spec fn declared_in_kotlin(content: Option<Seq<char>>) -> Seq<RepositoryView> {
    match content {
        Some(text) => if kotlin_patterns_valid() {
            kotlin_repositories(text)
        } else {
            Seq::empty()
        },
        None => Seq::empty(),
    }
}

/// What a Groovy script declares, where there is one and it can be
/// read.
pub open spec fn declared_in_groovy(content: Option<Seq<char>>) -> Seq<RepositoryView> {
    match content {
        Some(text) => if groovy_patterns_valid() {
            groovy_repositories(text)
        } else {
            Seq::empty()
        },
        None => Seq::empty(),
    }
}

/// The text of a script that may be missing.
pub open spec fn script_text(content: Option<&str>) -> Option<Seq<char>> {
    match content {
        Some(text) => Some(text@),
        None => None,
    }
}

/// The repositories of a project: what its four build scripts declare,
/// in the order settings before build and Kotlin before Groovy, or the
/// default repositories where they declare none; and of repositories
/// with the same URL only the first.
pub open spec fn project_repositories(
    settings_kotlin: Option<Seq<char>>,
    settings_groovy: Option<Seq<char>>,
    build_kotlin: Option<Seq<char>>,
    build_groovy: Option<Seq<char>>,
) -> Seq<RepositoryView> {
    let declared = declared_in_kotlin(settings_kotlin) + declared_in_groovy(settings_groovy)
        + declared_in_kotlin(build_kotlin) + declared_in_groovy(build_groovy);
    deduplicated(
        if declared.len() == 0 {
            default_repository_views()
        } else {
            declared
        },
    )
}

/// Tests whether the script names a call.
fn names_call(content: &Vec<char>, call: &str) -> (r: bool)
    ensures
        r == contains_text(content@, call@),
{
    let needle = chars_of(call);
    has_text(content, &needle)
}

/// Adds the custom repositories that a regular expression finds.
fn add_custom_repositories(list: &mut Vec<Repository>, pattern: &str, content: &str) -> (r: Result<
    (),
    GvcError,
>)
    ensures
        regex_valid(pattern@) ==> r is Ok && repository_views(final(list)@) == repository_views(
            old(list)@,
        ) + custom_repositories(first_captures(pattern@, content@)),
        !regex_valid(pattern@) ==> r is Err && r->Err_0 is TomlParsing && final(list)@ == old(list)@,
{
    let captures = match regex_groups(pattern, content, 1) {
        Some(captures) => captures,
        None => return Err(GvcError::TomlParsing("Regex error".to_owned())),
    };
    let ghost before = repository_views(list@);
    let ghost found = capture_views(captures@);
    assert(found == regex_captures(pattern@, content@, 1));
    let mut i: usize = 0;
    assert(found.take(0) =~= Seq::<Option<Seq<char>>>::empty());
    assert(custom_repositories(captured_texts(found.take(0))) =~= Seq::empty());
    assert(before + Seq::<RepositoryView>::empty() =~= before);
    while i < captures.len()
        invariant
            i <= captures.len(),
            found == capture_views(captures@),
            repository_views(list@) == before + custom_repositories(
                captured_texts(found.take(i as int)),
            ),
        decreases captures.len() - i,
    {
        proof {
            let upto = found.take(i + 1);
            assert(upto.drop_last() =~= found.take(i as int));
            assert(upto.last() == found[i as int]);
        }
        if let Some(capture) = &captures[i] {
            let url = capture.as_str();
            let mut name = "Custom (".to_owned();
            let short = GradleConfigParser::shorten_url(url);
            name.append(short.as_str());
            name.append(")");
            let repository = Repository { name, url: url.to_owned(), group_filters: Vec::new() };
            assert(crate::text::texts(repository.group_filters@) =~= Seq::empty());
            assert(repository@ == custom_repository(url@));
            let ghost views = repository_views(list@);
            let ghost earlier = captured_texts(found.take(i as int));
            list.push(repository);
            proof {
                assert(repository_views(list@) =~= views.push(custom_repository(url@)));
                assert(custom_repositories(earlier.push(url@)) =~= custom_repositories(earlier).push(
                    custom_repository(url@),
                ));
                assert(repository_views(list@) =~= before + custom_repositories(earlier.push(url@)));
            }
        }
        i += 1;
    }
    assert(found.take(captures.len() as int) =~= found);
    Ok(())
}

/// Reads the repositories of a Gradle project from its build scripts.
pub struct GradleConfigParser {
    project_path: String,
}

impl GradleConfigParser {
    /// A parser for the project at `project_path`.
    pub fn new(project_path: &str) -> (r: Self)
        ensures
            r.project_path()@ == project_path@,
    {
        GradleConfigParser { project_path: project_path.to_owned() }
    }

    /// The path of the project.
    pub closed spec fn project_path(&self) -> String {
        self.project_path
    }

    /// The path of the project.
    pub fn path(&self) -> (r: &str)
        ensures
            r@ == self.project_path()@,
    {
        self.project_path.as_str()
    }

    /// The repositories that are used where the build declares none.
    pub fn get_default_repositories(&self) -> (r: Vec<Repository>)
        ensures
            repository_views(r@) == default_repository_views(),
    {
        default_repositories()
    }

    /// The repositories that a Kotlin build script declares. The script
    /// is refused only where the `regex` crate does not take the two
    /// patterns for custom repositories.
    pub fn extract_repositories_kotlin(&self, content: &str) -> (r: Result<Vec<Repository>, GvcError>)
        ensures
            r is Ok <==> kotlin_patterns_valid(),
            match r {
                Ok(list) => repository_views(list@) == kotlin_repositories(content@),
                Err(e) => e is TomlParsing,
            },
    {
        let chars = chars_of(content);
        let mut list: Vec<Repository> = Vec::new();
        assert(repository_views(list@) =~= Seq::empty());
        if names_call(&chars, "mavenCentral()") {
            let ghost views = repository_views(list@);
            list.push(plain_repository("Maven Central", "https://repo1.maven.org/maven2"));
            assert(repository_views(list@) =~= views.push(maven_central()));
        }
        assert(repository_views(list@) =~= named_repository(
            content@,
            "mavenCentral()"@,
            maven_central(),
        ));
        if names_call(&chars, "google()") {
            let ghost views = repository_views(list@);
            list.push(google_repository());
            assert(repository_views(list@) =~= views.push(google_maven()));
        }
        assert(repository_views(list@) =~= named_repository(
            content@,
            "mavenCentral()"@,
            maven_central(),
        ) + named_repository(content@, "google()"@, google_maven()));
        if names_call(&chars, "gradlePluginPortal()") {
            let ghost views = repository_views(list@);
            list.push(plain_repository("Gradle Plugin Portal", "https://plugins.gradle.org/m2"));
            assert(repository_views(list@) =~= views.push(plugin_portal()));
        }
        assert(repository_views(list@) =~= named_repository(
            content@,
            "mavenCentral()"@,
            maven_central(),
        ) + named_repository(content@, "google()"@, google_maven()) + named_repository(
            content@,
            "gradlePluginPortal()"@,
            plugin_portal(),
        ));
        match add_custom_repositories(
            &mut list,
            "maven\\s*\\{\\s*url\\s*=\\s*uri\\s*\\(\\s*[\"']([^\"']+)[\"']\\s*\\)\\s*\\}",
            content,
        ) {
            Ok(()) => {},
            Err(e) => return Err(e),
        }
        match add_custom_repositories(&mut list, "maven\\s*\\(\\s*[\"']([^\"']+)[\"']\\s*\\)", content) {
            Ok(()) => {},
            Err(e) => return Err(e),
        }
        Ok(list)
    }

    /// The repositories that a Groovy build script declares. The script
    /// is refused only where the `regex` crate does not take the two
    /// patterns for custom repositories.
    pub fn extract_repositories_groovy(&self, content: &str) -> (r: Result<Vec<Repository>, GvcError>)
        ensures
            r is Ok <==> groovy_patterns_valid(),
            match r {
                Ok(list) => repository_views(list@) == groovy_repositories(content@),
                Err(e) => e is TomlParsing,
            },
    {
        let chars = chars_of(content);
        let mut list: Vec<Repository> = Vec::new();
        assert(repository_views(list@) =~= Seq::empty());
        if names_call(&chars, "mavenCentral()") {
            let ghost views = repository_views(list@);
            list.push(plain_repository("Maven Central", "https://repo1.maven.org/maven2"));
            assert(repository_views(list@) =~= views.push(maven_central()));
        }
        assert(repository_views(list@) =~= named_repository(
            content@,
            "mavenCentral()"@,
            maven_central(),
        ));
        if names_call(&chars, "google()") {
            let ghost views = repository_views(list@);
            list.push(google_repository());
            assert(repository_views(list@) =~= views.push(google_maven()));
        }
        assert(repository_views(list@) =~= named_repository(
            content@,
            "mavenCentral()"@,
            maven_central(),
        ) + named_repository(content@, "google()"@, google_maven()));
        if names_call(&chars, "jcenter()") {
            let ghost views = repository_views(list@);
            list.push(plain_repository("JCenter (Deprecated)", "https://jcenter.bintray.com"));
            assert(repository_views(list@) =~= views.push(jcenter()));
        }
        assert(repository_views(list@) =~= named_repository(
            content@,
            "mavenCentral()"@,
            maven_central(),
        ) + named_repository(content@, "google()"@, google_maven()) + named_repository(
            content@,
            "jcenter()"@,
            jcenter(),
        ));
        match add_custom_repositories(&mut list, "maven\\s*\\{\\s*url\\s+['\"]([^'\"]+)['\"]", content) {
            Ok(()) => {},
            Err(e) => return Err(e),
        }
        match add_custom_repositories(
            &mut list,
            "maven\\s*\\{\\s*url\\s*=\\s*['\"]([^'\"]+)['\"]",
            content,
        ) {
            Ok(()) => {},
            Err(e) => return Err(e),
        }
        Ok(list)
    }

    /// Puts together the repositories of the four build scripts of a
    /// project, each given by its text where the script exists: the
    /// Kotlin and the Groovy settings script, then the Kotlin and the
    /// Groovy build script. A script that cannot be read for its
    /// repositories is passed over. Where no repository is declared, the
    /// default ones are used. Of repositories with the same URL only the
    /// first is kept.
    pub fn parse_sources(
        &self,
        settings_kotlin: Option<&str>,
        settings_groovy: Option<&str>,
        build_kotlin: Option<&str>,
        build_groovy: Option<&str>,
    ) -> (r: GradleConfig)
        ensures
            repository_views(r.repositories@) == project_repositories(
                script_text(settings_kotlin),
                script_text(settings_groovy),
                script_text(build_kotlin),
                script_text(build_groovy),
            ),
    {
        let mut all: Vec<Repository> = Vec::new();
        assert(repository_views(all@) =~= Seq::empty());
        self.add_kotlin(&mut all, settings_kotlin);
        self.add_groovy(&mut all, settings_groovy);
        self.add_kotlin(&mut all, build_kotlin);
        self.add_groovy(&mut all, build_groovy);
        assert(repository_views(all@) =~= declared_in_kotlin(script_text(settings_kotlin))
            + declared_in_groovy(script_text(settings_groovy)) + declared_in_kotlin(
            script_text(build_kotlin),
        ) + declared_in_groovy(script_text(build_groovy)));
        if all.len() == 0 {
            all = self.get_default_repositories();
        }
        GradleConfig { repositories: self.deduplicate_repositories(all) }
    }

    /// Adds what a Kotlin script declares, where there is one and it can
    /// be read.
    fn add_kotlin(&self, all: &mut Vec<Repository>, content: Option<&str>)
        ensures
            repository_views(final(all)@) == repository_views(old(all)@) + declared_in_kotlin(
                script_text(content),
            ),
    {
        let ghost before = repository_views(all@);
        if let Some(text) = content {
            if let Ok(mut found) = self.extract_repositories_kotlin(text) {
                let ghost added = repository_views(found@);
                all.append(&mut found);
                assert(repository_views(all@) =~= before + added);
                return ;
            }
        }
        assert(before + Seq::<RepositoryView>::empty() =~= before);
    }

    /// Adds what a Groovy script declares, where there is one and it can
    /// be read.
    fn add_groovy(&self, all: &mut Vec<Repository>, content: Option<&str>)
        ensures
            repository_views(final(all)@) == repository_views(old(all)@) + declared_in_groovy(
                script_text(content),
            ),
    {
        let ghost before = repository_views(all@);
        if let Some(text) = content {
            if let Ok(mut found) = self.extract_repositories_groovy(text) {
                let ghost added = repository_views(found@);
                all.append(&mut found);
                assert(repository_views(all@) =~= before + added);
                return ;
            }
        }
        assert(before + Seq::<RepositoryView>::empty() =~= before);
    }

    /// Takes the slashes off the end of each URL and keeps of the
    /// repositories with the same URL only the first.
    pub fn deduplicate_repositories(&self, repos: Vec<Repository>) -> (r: Vec<Repository>)
        ensures
            repository_views(r@) == deduplicated(repository_views(repos@)),
    {
        let mut unique: Vec<Repository> = Vec::new();
        let ghost all = repository_views(repos@);
        let mut i: usize = 0;
        assert(all.take(0) =~= Seq::<RepositoryView>::empty());
        assert(repository_views(unique@) =~= Seq::<RepositoryView>::empty());
        while i < repos.len()
            invariant
                i <= repos.len(),
                all == repository_views(repos@),
                repository_views(unique@) == deduplicated(all.take(i as int)),
            decreases repos.len() - i,
        {
            let repo = &repos[i];
            proof {
                let upto = all.take(i + 1);
                assert(upto.drop_last() =~= all.take(i as int));
                assert(upto.last() == repo@);
            }
            let url = strip_trailing_slashes(repo.url.as_str());
            if !knows_url(&unique, url.as_str()) {
                let ghost views = repository_views(unique@);
                let mut filters: Vec<String> = Vec::new();
                let mut k: usize = 0;
                while k < repo.group_filters.len()
                    invariant
                        k <= repo.group_filters.len(),
                        crate::text::texts(filters@) == crate::text::texts(repo.group_filters@).take(
                            k as int,
                        ),
                    decreases repo.group_filters.len() - k,
                {
                    let ghost so_far = crate::text::texts(filters@);
                    let filter = repo.group_filters[k].clone();
                    assert(filter@ == crate::text::texts(repo.group_filters@)[k as int]);
                    filters.push(filter);
                    assert(crate::text::texts(filters@) =~= so_far.push(filter@));
                    assert(crate::text::texts(repo.group_filters@).take(k + 1) =~= crate::text::texts(
                        repo.group_filters@,
                    ).take(k as int).push(filter@));
                    k += 1;
                }
                assert(crate::text::texts(repo.group_filters@).take(k as int) =~= crate::text::texts(
                    repo.group_filters@,
                ));
                let kept = Repository { name: repo.name.clone(), url, group_filters: filters };
                let ghost view = kept@;
                unique.push(kept);
                assert(repository_views(unique@) =~= views.push(view));
            }
            i += 1;
        }
        assert(all.take(repos.len() as int) =~= all);
        unique
    }

    /// The host part of a URL, for display.
    pub fn shorten_url(url: &str) -> (r: String)
        ensures
            r@ == short_url(url@),
    {
        let chars = chars_of(url);
        let marker = chars_of("://");
        let slash = chars_of("/");
        proof {
            reveal_strlit("://");
            reveal_strlit("/");
            assert(marker@.len() == 3);
            assert(slash@.len() == 1);
        }
        match find_text(&chars, &marker, 0) {
            Some(at) => {
                proof {
                    lemma_first_at(chars@, marker@, 0, at as int);
                }
                assert(occurs_at(chars@, marker@, at as int));
                assert(at + 3 <= chars.len());
                let start = at + 3;
                match find_text(&chars, &slash, start) {
                    Some(end) => {
                        proof {
                            lemma_first_at(chars@, slash@, start as int, end as int);
                        }
                        text_of_range(&chars, start, end)
                    },
                    None => {
                        proof {
                            lemma_first_at_none(chars@, slash@, start as int);
                        }
                        text_of_range(&chars, start, chars.len())
                    },
                }
            },
            None => {
                proof {
                    lemma_first_at_none(chars@, marker@, 0);
                }
                url.to_owned()
            },
        }
    }
}

/// Takes the slashes off the end of a URL.
pub fn strip_trailing_slashes(url: &str) -> (r: String)
    ensures
        r@ == without_trailing_slashes(url@),
{
    let chars = chars_of(url);
    let mut end: usize = chars.len();
    assert(chars@.take(end as int) =~= chars@);
    while end > 0 && chars[end - 1] == '/'
        invariant
            end <= chars.len(),
            without_trailing_slashes(chars@) == without_trailing_slashes(chars@.take(end as int)),
        decreases end,
    {
        assert(chars@.take(end as int).last() == chars@[end - 1]);
        assert(chars@.take(end as int).drop_last() =~= chars@.take(end - 1));
        end -= 1;
    }
    proof {
        if end > 0 {
            assert(chars@.take(end as int).last() == chars@[end - 1]);
        }
        assert(chars@.take(end as int) =~= chars@.subrange(0, end as int));
    }
    text_of_range(&chars, 0, end)
}

/// Tests whether a repository with this URL is in the list.
fn knows_url(list: &Vec<Repository>, url: &str) -> (r: bool)
    ensures
        r == has_url(repository_views(list@), url@),
{
    let mut i: usize = 0;
    while i < list.len()
        invariant
            i <= list.len(),
            forall|k: int| 0 <= k < i ==> (#[trigger] repository_views(list@)[k]).url != url@,
        decreases list.len() - i,
    {
        assert(repository_views(list@)[i as int] == list@[i as int]@);
        if same_text(list[i].url.as_str(), url) {
            return true;
        }
        i += 1;
    }
    false
}

} // verus!
