use gvc::error::GvcError;
use gvc::interaction::{
    first_page, parse_answer, parse_candidate_choice, parse_version_choice, Answer,
    CandidateChoice, Prompter, UpdateCategory, UpdateInteraction, VersionChoice, VersionEntry,
    VersionPick,
};

struct Script {
    answers: Vec<Answer>,
    asked: usize,
    notified: usize,
}

impl Script {
    fn of(answers: Vec<Answer>) -> Script {
        Script { answers, asked: 0, notified: 0 }
    }
}

impl Prompter for Script {
    fn ask(&mut self, _c: UpdateCategory, _n: &str, _o: &str, _v: &str) -> Answer {
        let answer = self.answers[self.asked];
        self.asked += 1;
        answer
    }

    fn applied_without_asking(&mut self, _c: UpdateCategory, _n: &str, _o: &str, _v: &str) {
        self.notified += 1;
    }

    fn pick_candidate(&mut self, _candidates: &Vec<String>) -> CandidateChoice {
        CandidateChoice::Quit
    }

    fn pick_version(
        &mut self,
        _entry: &str,
        _current: &str,
        _versions: &Vec<VersionEntry>,
    ) -> VersionPick {
        VersionPick::Skip
    }
}

#[test]
fn answers_are_read_in_any_case_and_spacing() {
    assert_eq!(parse_answer(""), Some(Answer::Yes));
    assert_eq!(parse_answer("\n"), Some(Answer::Yes));
    assert_eq!(parse_answer(" Y \n"), Some(Answer::Yes));
    assert_eq!(parse_answer("yes"), Some(Answer::Yes));
    assert_eq!(parse_answer("n"), Some(Answer::No));
    assert_eq!(parse_answer("NO\r\n"), Some(Answer::No));
    assert_eq!(parse_answer("a"), Some(Answer::All));
    assert_eq!(parse_answer("All"), Some(Answer::All));
    assert_eq!(parse_answer("q"), Some(Answer::Quit));
    assert_eq!(parse_answer("QUIT"), Some(Answer::Quit));
    assert_eq!(parse_answer("maybe"), None);
    assert_eq!(parse_answer("y e s"), None);
}

#[test]
fn without_interaction_everything_is_confirmed() {
    let mut interaction = UpdateInteraction::new(false, Script::of(vec![]));
    assert!(!interaction.is_enabled());
    assert!(!interaction.needs_answer());
    assert_eq!(interaction.confirm_version("v", "1", "2"), Ok(true));
    assert_eq!(interaction.confirm_library("l", "1", "2"), Ok(true));
    assert_eq!(interaction.confirm_plugin("p", "1", "2"), Ok(true));
    let script = interaction.into_prompter();
    assert_eq!((script.asked, script.notified), (0, 0));
}

#[test]
fn each_answer_decides_one_change() {
    let mut interaction =
        UpdateInteraction::new(true, Script::of(vec![Answer::Yes, Answer::No, Answer::Quit]));
    assert!(interaction.is_enabled());
    assert_eq!(interaction.confirm_version("v", "1", "2"), Ok(true));
    assert_eq!(interaction.confirm_library("l", "1", "2"), Ok(false));
    assert!(interaction.needs_answer());
    assert_eq!(interaction.confirm_plugin("p", "1", "2"), Err(GvcError::UserCancelled));
    assert_eq!(interaction.into_prompter().asked, 3);
}

#[test]
fn all_is_asked_once_and_kept() {
    let mut interaction = UpdateInteraction::new(true, Script::of(vec![Answer::No, Answer::All]));
    assert_eq!(interaction.confirm_library("a", "1", "2"), Ok(false));
    assert_eq!(interaction.confirm_library("b", "1", "2"), Ok(true));
    assert!(!interaction.needs_answer());
    assert_eq!(interaction.confirm_version("c", "1", "2"), Ok(true));
    assert_eq!(interaction.confirm_plugin("d", "1", "2"), Ok(true));
    let script = interaction.into_prompter();
    assert_eq!((script.asked, script.notified), (2, 2));
}

#[test]
fn resolve_gives_the_outcome_of_an_answer() {
    let mut interaction = UpdateInteraction::new(true, Script::of(vec![]));
    assert_eq!(interaction.resolve(Answer::Yes), Ok(true));
    assert_eq!(interaction.resolve(Answer::No), Ok(false));
    assert_eq!(interaction.resolve(Answer::Quit), Err(GvcError::UserCancelled));
    assert!(interaction.needs_answer());
    assert_eq!(interaction.resolve(Answer::All), Ok(true));
    assert!(!interaction.needs_answer());
}

#[test]
fn a_candidate_is_picked_by_its_number() {
    assert_eq!(parse_candidate_choice("q", 3), CandidateChoice::Quit);
    assert_eq!(parse_candidate_choice(" Q\n", 3), CandidateChoice::Quit);
    assert_eq!(parse_candidate_choice("1", 3), CandidateChoice::Pick(0));
    assert_eq!(parse_candidate_choice(" 3 \n", 3), CandidateChoice::Pick(2));
    assert_eq!(parse_candidate_choice("+2", 3), CandidateChoice::Pick(1));
    assert_eq!(parse_candidate_choice("0", 3), CandidateChoice::Invalid);
    assert_eq!(parse_candidate_choice("4", 3), CandidateChoice::Invalid);
    assert_eq!(parse_candidate_choice("two", 3), CandidateChoice::Invalid);
    assert_eq!(parse_candidate_choice("", 3), CandidateChoice::Invalid);
    assert_eq!(
        parse_candidate_choice("99999999999999999999999999", 3),
        CandidateChoice::Invalid
    );
}

#[test]
fn versions_are_shown_ten_at_a_time() {
    assert_eq!(first_page(0), 0);
    assert_eq!(first_page(7), 7);
    assert_eq!(first_page(10), 10);
    assert_eq!(first_page(25), 10);
    assert_eq!(parse_version_choice("m", 10, 25), VersionChoice::More(20));
    assert_eq!(parse_version_choice("M\n", 20, 25), VersionChoice::More(25));
    assert_eq!(parse_version_choice("m", 25, 25), VersionChoice::AllShown);
    assert_eq!(parse_version_choice("q", 10, 25), VersionChoice::Quit);
    assert_eq!(parse_version_choice(" S ", 10, 25), VersionChoice::Skip);
    assert_eq!(parse_version_choice("10", 10, 25), VersionChoice::Pick(9));
    assert_eq!(parse_version_choice("11", 10, 25), VersionChoice::Invalid);
    assert_eq!(parse_version_choice("0", 10, 25), VersionChoice::Invalid);
    assert_eq!(parse_version_choice("x", 10, 25), VersionChoice::Invalid);
    assert_eq!(UpdateCategory::Version.label(), "Version");
    assert_eq!(UpdateCategory::Library.label(), "Library");
    assert_eq!(UpdateCategory::Plugin.label(), "Plugin");
}
