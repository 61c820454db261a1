//! The confirmation protocol of an interactive run.
//!
//! Asking the user is done outside this crate, behind [`Prompter`]. What
//! an answer means and what it does to the run is decided here.

use crate::error::GvcError;
use crate::repository::VersionStrategy;
use crate::text::{
    chars_of, normalize_text, normalized, parse_usize, parse_usize_spec, same_text, trim_chars,
    trimmed,
};
use vstd::prelude::*;

verus! {

/// The section of the catalog that a proposed change belongs to.
#[derive(Clone, Copy, Debug, PartialEq, Eq, Structural)]
pub enum UpdateCategory {
    Version,
    Library,
    Plugin,
}

impl UpdateCategory {
    /// The label that a change of this category is shown with.
    pub fn label(&self) -> (r: &'static str)
        ensures
            r@ == match self {
                UpdateCategory::Version => "Version"@,
                UpdateCategory::Library => "Library"@,
                UpdateCategory::Plugin => "Plugin"@,
            },
    {
        match self {
            UpdateCategory::Version => "Version",
            UpdateCategory::Library => "Library",
            UpdateCategory::Plugin => "Plugin",
        }
    }
}

/// What the user can answer when asked to confirm a change.
#[derive(Clone, Copy, Debug, PartialEq, Eq, Structural)]
pub enum Answer {
    /// Apply this change.
    Yes,
    /// Leave this entry as it is.
    No,
    /// Apply this change and all that follow without asking again.
    All,
    /// Stop the whole run.
    Quit,
}

/// What a line of input means as an answer, once the white space around
/// it is gone and it is in lower case: nothing, `y` or `yes` accepts, `n`
/// or `no` declines, `a` or `all` accepts everything, `q` or `quit` stops.
/// Any other line is no answer.
pub open spec fn answer_of(line: Seq<char>) -> Option<Answer> {
    if line == ""@ || line == "y"@ || line == "yes"@ {
        Some(Answer::Yes)
    } else if line == "n"@ || line == "no"@ {
        Some(Answer::No)
    } else if line == "a"@ || line == "all"@ {
        Some(Answer::All)
    } else if line == "q"@ || line == "quit"@ {
        Some(Answer::Quit)
    } else {
        None
    }
}

/// Reads a line of input as an answer to a confirmation. `None` means
/// that the line is no answer and the question has to be asked again.
pub fn parse_answer(input: &str) -> (r: Option<Answer>)
    ensures
        r == answer_of(normalized(input@)),
{
    let line = normalize_text(input);
    let l = line.as_str();
    if same_text(l, "") || same_text(l, "y") || same_text(l, "yes") {
        Some(Answer::Yes)
    } else if same_text(l, "n") || same_text(l, "no") {
        Some(Answer::No)
    } else if same_text(l, "a") || same_text(l, "all") {
        Some(Answer::All)
    } else if same_text(l, "q") || same_text(l, "quit") {
        Some(Answer::Quit)
    } else {
        None
    }
}

/// What the user can answer when asked to pick one of several entries.
#[derive(Clone, Copy, Debug, PartialEq, Eq, Structural)]
pub enum CandidateChoice {
    /// Stop the whole run.
    Quit,
    /// The entry at this position, counted from zero.
    Pick(usize),
    /// No answer: ask again.
    Invalid,
}

/// What a line of input means where one of `count` entries is to be
/// picked: `q` in either case stops, a number from 1 to `count` picks.
pub open spec fn candidate_choice_of(line: Seq<char>, count: nat) -> CandidateChoice {
    if line == "q"@ || line == "Q"@ {
        CandidateChoice::Quit
    } else {
        match parse_usize_spec(line) {
            Some(n) => if 1 <= n <= count {
                CandidateChoice::Pick((n - 1) as usize)
            } else {
                CandidateChoice::Invalid
            },
            None => CandidateChoice::Invalid,
        }
    }
}

/// Reads a line of input as the choice of one of `count` entries.
pub fn parse_candidate_choice(input: &str, count: usize) -> (r: CandidateChoice)
    ensures
        r == candidate_choice_of(trimmed(input@), count as nat),
{
    let chars = chars_of(input);
    let line = trim_chars(&chars);
    if line.len() == 1 && (line[0] == 'q' || line[0] == 'Q') {
        proof {
            reveal_strlit("q");
            reveal_strlit("Q");
            assert(line@ =~= seq![line@[0]]);
            assert("q"@ =~= seq!['q']);
            assert("Q"@ =~= seq!['Q']);
        }
        return CandidateChoice::Quit;
    }
    proof {
        reveal_strlit("q");
        reveal_strlit("Q");
        if line@ == "q"@ || line@ == "Q"@ {
            assert(line@.len() == 1);
        }
    }
    match parse_usize(&line) {
        Some(n) => if 1 <= n && n <= count {
            CandidateChoice::Pick(n - 1)
        } else {
            CandidateChoice::Invalid
        },
        None => CandidateChoice::Invalid,
    }
}

/// A version that is offered to the user.
#[derive(Debug, Clone, PartialEq, Eq)]
pub struct VersionEntry {
    pub value: String,
    pub is_stable: bool,
    pub is_current: bool,
}

/// The mathematical value of a [`VersionEntry`].
pub struct VersionEntryView {
    pub value: Seq<char>,
    pub is_stable: bool,
    pub is_current: bool,
}

impl View for VersionEntry {
    type V = VersionEntryView;

    open spec fn view(&self) -> VersionEntryView {
        VersionEntryView { value: self.value@, is_stable: self.is_stable, is_current: self.is_current }
    }
}

/// The number of versions that are shown at first and added with each
/// request for more.
pub const VERSION_PAGE_SIZE: usize = 10;

/// What the user can answer when asked to pick a version from a list of
/// which the first `limit` entries are shown.
#[derive(Clone, Copy, Debug, PartialEq, Eq, Structural)]
pub enum VersionChoice {
    /// Stop the whole run.
    Quit,
    /// Leave the entry at its current version.
    Skip,
    /// Show more versions: this many from now on.
    More(usize),
    /// More was asked for, but every version is shown already.
    AllShown,
    /// The version at this position, counted from zero.
    Pick(usize),
    /// No answer: ask again.
    Invalid,
}

/// The number of versions shown at first.
pub open spec fn first_limit(count: nat) -> nat {
    if count < VERSION_PAGE_SIZE {
        count
    } else {
        VERSION_PAGE_SIZE as nat
    }
}

/// What a lower-cased line of input means where a version is to be
/// picked among the first `limit` of `count`: `q` stops, `s` skips, `m`
/// shows ten more, a number from 1 to `limit` picks.
pub open spec fn version_choice_of(line: Seq<char>, limit: nat, count: nat) -> VersionChoice {
    if line == "q"@ {
        VersionChoice::Quit
    } else if line == "s"@ {
        VersionChoice::Skip
    } else if line == "m"@ {
        if limit >= count {
            VersionChoice::AllShown
        } else if limit + VERSION_PAGE_SIZE < count {
            VersionChoice::More((limit + VERSION_PAGE_SIZE) as usize)
        } else {
            VersionChoice::More(count as usize)
        }
    } else {
        match parse_usize_spec(line) {
            Some(n) => if 1 <= n <= limit {
                VersionChoice::Pick((n - 1) as usize)
            } else {
                VersionChoice::Invalid
            },
            None => VersionChoice::Invalid,
        }
    }
}

/// Tells how many of `count` versions are shown at first.
pub fn first_page(count: usize) -> (r: usize)
    ensures
        r == first_limit(count as nat),
{
    if count < VERSION_PAGE_SIZE {
        count
    } else {
        VERSION_PAGE_SIZE
    }
}

/// Reads a line of input as the choice of a version among the first
/// `limit` of `count`.
pub fn parse_version_choice(input: &str, limit: usize, count: usize) -> (r: VersionChoice)
    ensures
        r == version_choice_of(normalized(input@), limit as nat, count as nat),
{
    let line = normalize_text(input);
    let l = line.as_str();
    if same_text(l, "q") {
        VersionChoice::Quit
    } else if same_text(l, "s") {
        VersionChoice::Skip
    } else if same_text(l, "m") {
        if limit >= count {
            VersionChoice::AllShown
        } else if count - limit > VERSION_PAGE_SIZE {
            VersionChoice::More(limit + VERSION_PAGE_SIZE)
        } else {
            VersionChoice::More(count)
        }
    } else {
        let chars = chars_of(l);
        match parse_usize(&chars) {
            Some(n) => if 1 <= n && n <= limit {
                VersionChoice::Pick(n - 1)
            } else {
                VersionChoice::Invalid
            },
            None => VersionChoice::Invalid,
        }
    }
}

/// What the user has decided about a version to pick.
#[derive(Clone, Copy, Debug, PartialEq, Eq, Structural)]
pub enum VersionPick {
    /// Stop the whole run.
    Quit,
    /// Leave the entry at its current version.
    Skip,
    /// The version at this position of the list, counted from zero.
    Entry(usize),
}

/// What the choice of an entry comes to where `count` entries are
/// listed: the end of the run, the position of the entry, or nothing
/// where the choice is none or lies behind the end of the list.
pub open spec fn choice_outcome(choice: CandidateChoice, count: nat) -> Result<Option<usize>, GvcError> {
    match choice {
        CandidateChoice::Quit => Err(GvcError::UserCancelled),
        CandidateChoice::Pick(at) => if at < count {
            Ok(Some(at))
        } else {
            Ok(None)
        },
        CandidateChoice::Invalid => Ok(None),
    }
}

/// Decides what the choice of an entry comes to.
pub fn settle_choice(choice: CandidateChoice, count: usize) -> (r: Result<Option<usize>, GvcError>)
    ensures
        r == choice_outcome(choice, count as nat),
{
    match choice {
        CandidateChoice::Quit => Err(GvcError::UserCancelled),
        CandidateChoice::Pick(at) => {
            if at < count {
                Ok(Some(at))
            } else {
                Ok(None)
            }
        },
        CandidateChoice::Invalid => Ok(None),
    }
}

/// What the pick of a version comes to.
#[derive(Clone, Copy, Debug, PartialEq, Eq, Structural)]
pub enum PickOutcome {
    /// The user stops the whole run.
    Cancel,
    /// The entry stays at its current version.
    Stay,
    /// The pick cannot be taken and the user is to pick again.
    AskAgain,
    /// The version at this position of the list is offered for
    /// confirmation.
    Offer(usize),
}

/// What the pick of a version comes to, for an entry at version
/// `current` and the versions that are offered. Stopping stops the run.
/// Skipping, and picking the version that the entry has, leaves the
/// entry as it is. A pick behind the end of the list, and one that the
/// strategy does not take for an upgrade, cannot be taken, and the user
/// is to pick again. Any other pick is offered for confirmation.
pub open spec fn pick_outcome<S: VersionStrategy>(
    strategy: &S,
    current: Seq<char>,
    entries: Seq<VersionEntryView>,
    pick: VersionPick,
) -> PickOutcome {
    match pick {
        VersionPick::Quit => PickOutcome::Cancel,
        VersionPick::Skip => PickOutcome::Stay,
        VersionPick::Entry(at) => if at >= entries.len() {
            PickOutcome::AskAgain
        } else if entries[at as int].is_current || entries[at as int].value == current {
            PickOutcome::Stay
        } else if !strategy.upgrades(current, entries[at as int].value) {
            PickOutcome::AskAgain
        } else {
            PickOutcome::Offer(at)
        },
    }
}

/// The values of a list of offered versions.
pub open spec fn entry_views(entries: Seq<VersionEntry>) -> Seq<VersionEntryView> {
    Seq::new(entries.len(), |i: int| entries[i]@)
}

/// Decides what the pick of a version comes to.
pub fn settle_pick<S: VersionStrategy>(
    strategy: &S,
    current: &str,
    entries: &Vec<VersionEntry>,
    pick: VersionPick,
) -> (r: PickOutcome)
    ensures
        r == pick_outcome(strategy, current@, entry_views(entries@), pick),
{
    match pick {
        VersionPick::Quit => PickOutcome::Cancel,
        VersionPick::Skip => PickOutcome::Stay,
        VersionPick::Entry(at) => {
            if at >= entries.len() {
                return PickOutcome::AskAgain;
            }
            let entry = &entries[at];
            assert(entry_views(entries@)[at as int] == entry@);
            if entry.is_current || same_text(entry.value.as_str(), current) {
                PickOutcome::Stay
            } else if !strategy.is_upgrade(current, entry.value.as_str()) {
                PickOutcome::AskAgain
            } else {
                PickOutcome::Offer(at)
            }
        },
    }
}

/// The one who asks the user. An implementation shows the question,
/// reads lines until one is an answer (see [`parse_answer`],
/// [`parse_candidate_choice`] and [`parse_version_choice`]) and hands the
/// answer back. Nothing is promised of the answers, so everything that is
/// built on them is proved for every answer.
pub trait Prompter {
    /// Shows a proposed change and asks whether to apply it.
    fn ask(&mut self, category: UpdateCategory, name: &str, old_version: &str, new_version: &str) -> Answer;

    /// Shows a proposed change that is applied without asking, because
    /// the user has accepted all changes before.
    fn applied_without_asking(
        &mut self,
        category: UpdateCategory,
        name: &str,
        old_version: &str,
        new_version: &str,
    );

    /// Shows the entries that match and asks for one of them.
    fn pick_candidate(&mut self, candidates: &Vec<String>) -> CandidateChoice;

    /// Shows the versions that are offered for an entry, which is at
    /// version `current`, and asks for one of them. After a pick that
    /// [`settle_pick`] does not take, and after one that is not
    /// confirmed, it is called again.
    fn pick_version(&mut self, entry: &str, current: &str, versions: &Vec<VersionEntry>) -> VersionPick;
}

/// The state of the confirmations of one run: whether the user is asked
/// at all, whether the user has accepted all remaining changes, whether
/// the user has stopped the run, and what the user answered last to a
/// confirmation, to a list of entries and to a list of versions.
pub struct UpdateInteraction<P: Prompter> {
    enabled: bool,
    apply_all: bool,
    cancelled: bool,
    last_answer: Option<Answer>,
    last_choice: Option<CandidateChoice>,
    last_pick: Option<VersionPick>,
    prompter: P,
}

/// What a confirmation comes to once the user has answered: whether the
/// change is applied, or that the run is cancelled.
pub open spec fn outcome_of(answer: Answer) -> Result<bool, GvcError> {
    match answer {
        Answer::Yes => Ok(true),
        Answer::No => Ok(false),
        Answer::All => Ok(true),
        Answer::Quit => Err(GvcError::UserCancelled),
    }
}

impl<P: Prompter> UpdateInteraction<P> {
    /// Whether the user is asked before a change is applied.
    pub closed spec fn enabled(&self) -> bool {
        self.enabled
    }

    /// Whether the user has accepted all remaining changes.
    pub closed spec fn apply_all(&self) -> bool {
        self.apply_all
    }

    /// Whether the user has stopped the run.
    pub closed spec fn cancelled(&self) -> bool {
        self.cancelled
    }

    /// The last answer of the user to a confirmation, if there was one.
    pub closed spec fn last_answer(&self) -> Option<Answer> {
        self.last_answer
    }

    /// The last choice of the user among entries, if there was one.
    pub closed spec fn last_choice(&self) -> Option<CandidateChoice> {
        self.last_choice
    }

    /// The last pick of the user among versions, if there was one.
    pub closed spec fn last_pick(&self) -> Option<VersionPick> {
        self.last_pick
    }

    /// The prompter through which the user is asked.
    pub closed spec fn prompter(&self) -> P {
        self.prompter
    }

    /// Whether the next confirmation will ask the user.
    pub open spec fn asks(&self) -> bool {
        self.enabled() && !self.apply_all()
    }

    /// Whether `later` is a state that this one can come to while
    /// changes are confirmed: asking stays switched on or off, an
    /// acceptance of all remaining changes and a stop of the run are not
    /// taken back, and where no confirmation asks any more the
    /// acceptance stays as it is.
    pub open spec fn leads_to(self, later: Self) -> bool {
        &&& later.enabled() == self.enabled()
        &&& self.apply_all() ==> later.apply_all()
        &&& self.cancelled() ==> later.cancelled()
        &&& !self.asks() ==> later.apply_all() == self.apply_all()
    }

    /// What a confirmation comes to that leads from this state to
    /// `later`: where the user is not asked, the change is confirmed;
    /// where the user is asked, the answer that `later` holds decides.
    pub open spec fn confirmation(self, later: Self) -> Result<bool, GvcError> {
        if !self.asks() {
            Ok(true)
        } else {
            match later.last_answer() {
                Some(answer) => outcome_of(answer),
                None => Ok(true),
            }
        }
    }

    /// Whether the user has stopped the run on the way from this state
    /// to `later`.
    pub open spec fn stopped_before(self, later: Self) -> bool {
        later.cancelled() && !self.cancelled()
    }

    /// Whether a result tells a stop of the run: where the user has
    /// stopped the run on the way from this state to `later`, the result
    /// is the error of a cancelled run, and a result that is no error
    /// comes only from a run that was not stopped on the way.
    pub open spec fn stop_is_told<T>(self, later: Self, r: Result<T, GvcError>) -> bool {
        &&& self.stopped_before(later) ==> r is Err && r->Err_0 is UserCancelled
        &&& r is Ok ==> later.cancelled() == self.cancelled()
    }

    /// Starts the confirmations of a run. Nothing is accepted in advance.
    pub fn new(enabled: bool, prompter: P) -> (r: Self)
        ensures
            r.enabled() == enabled,
            !r.apply_all(),
            !r.cancelled(),
            r.last_answer() is None,
            r.last_choice() is None,
            r.last_pick() is None,
            r.prompter() == prompter,
    {
        UpdateInteraction {
            enabled,
            apply_all: false,
            cancelled: false,
            last_answer: None,
            last_choice: None,
            last_pick: None,
            prompter,
        }
    }

    /// The last answer of the user to a confirmation, if there was one.
    pub fn answered_last(&self) -> (r: Option<Answer>)
        ensures
            r == self.last_answer(),
    {
        self.last_answer
    }

    /// The last choice of the user among entries, if there was one.
    pub fn chose_last(&self) -> (r: Option<CandidateChoice>)
        ensures
            r == self.last_choice(),
    {
        self.last_choice
    }

    /// The last pick of the user among versions, if there was one.
    pub fn picked_last(&self) -> (r: Option<VersionPick>)
        ensures
            r == self.last_pick(),
    {
        self.last_pick
    }

    /// Tells whether the user has stopped the run.
    pub fn is_cancelled(&self) -> (r: bool)
        ensures
            r == self.cancelled(),
    {
        self.cancelled
    }

    /// Tells whether the user is asked before a change is applied.
    pub fn is_enabled(&self) -> (r: bool)
        ensures
            r == self.enabled(),
    {
        self.enabled
    }

    /// Tells whether the next confirmation will ask the user.
    pub fn needs_answer(&self) -> (r: bool)
        ensures
            r == self.asks(),
    {
        self.enabled && !self.apply_all
    }

    /// Takes the answer to a confirmation: `Yes` and `All` apply the
    /// change, `No` leaves the entry alone, `Quit` cancels the run. After
    /// `All` no further confirmation asks, and after `Quit` the run is
    /// marked as stopped.
    pub fn resolve(&mut self, answer: Answer) -> (r: Result<bool, GvcError>)
        ensures
            r == outcome_of(answer),
            final(self).enabled() == old(self).enabled(),
            final(self).apply_all() == (old(self).apply_all() || answer == Answer::All),
            final(self).cancelled() == (old(self).cancelled() || answer == Answer::Quit),
            final(self).last_answer() == Some(answer),
            final(self).last_choice() == old(self).last_choice(),
            final(self).last_pick() == old(self).last_pick(),
    {
        self.last_answer = Some(answer);
        match answer {
            Answer::Yes => Ok(true),
            Answer::No => Ok(false),
            Answer::All => {
                self.apply_all = true;
                Ok(true)
            },
            Answer::Quit => {
                self.cancelled = true;
                Err(GvcError::UserCancelled)
            },
        }
    }

    /// Confirms a change. Without interaction, and once the user has
    /// accepted all changes, the change is confirmed without asking.
    /// Otherwise the user is asked once, and the answer decides: see
    /// [`Self::resolve`].
    pub fn confirm(
        &mut self,
        category: UpdateCategory,
        name: &str,
        old_version: &str,
        new_version: &str,
    ) -> (r: Result<bool, GvcError>)
        ensures
            final(self).enabled() == old(self).enabled(),
            !old(self).asks() ==> {
                &&& r == Ok::<bool, GvcError>(true)
                &&& final(self).apply_all() == old(self).apply_all()
                &&& final(self).cancelled() == old(self).cancelled()
                &&& final(self).last_answer() == old(self).last_answer()
            },
            old(self).asks() ==> exists|answer: Answer|
                r == outcome_of(answer) && final(self).apply_all() == (answer == Answer::All)
                    && final(self).cancelled() == (old(self).cancelled() || answer == Answer::Quit)
                    && final(self).last_answer() == Some(answer),
            r == (*old(self)).confirmation(*final(self)),
            (*old(self)).stop_is_told(*final(self), r),
            final(self).last_choice() == old(self).last_choice(),
            final(self).last_pick() == old(self).last_pick(),
    {
        if !self.enabled {
            return Ok(true);
        }
        if self.apply_all {
            self.prompter.applied_without_asking(category, name, old_version, new_version);
            return Ok(true);
        }
        let answer = self.prompter.ask(category, name, old_version, new_version);
        let r = self.resolve(answer);
        assert(r == outcome_of(answer) && self.apply_all() == (answer == Answer::All)
            && self.cancelled() == (old(self).cancelled() || answer == Answer::Quit)
            && self.last_answer() == Some(answer));
        r
    }

    /// Confirms the change of a version alias.
    pub fn confirm_version(&mut self, name: &str, old_version: &str, new_version: &str) -> (r: Result<
        bool,
        GvcError,
    >)
        ensures
            final(self).enabled() == old(self).enabled(),
            !old(self).asks() ==> {
                &&& r == Ok::<bool, GvcError>(true)
                &&& final(self).apply_all() == old(self).apply_all()
                &&& final(self).cancelled() == old(self).cancelled()
                &&& final(self).last_answer() == old(self).last_answer()
            },
            old(self).asks() ==> exists|answer: Answer|
                r == outcome_of(answer) && final(self).apply_all() == (answer == Answer::All)
                    && final(self).cancelled() == (old(self).cancelled() || answer == Answer::Quit)
                    && final(self).last_answer() == Some(answer),
            r == (*old(self)).confirmation(*final(self)),
            (*old(self)).stop_is_told(*final(self), r),
            final(self).last_choice() == old(self).last_choice(),
            final(self).last_pick() == old(self).last_pick(),
    {
        self.confirm(UpdateCategory::Version, name, old_version, new_version)
    }

    /// Confirms the change of a library.
    pub fn confirm_library(&mut self, name: &str, old_version: &str, new_version: &str) -> (r: Result<
        bool,
        GvcError,
    >)
        ensures
            final(self).enabled() == old(self).enabled(),
            !old(self).asks() ==> {
                &&& r == Ok::<bool, GvcError>(true)
                &&& final(self).apply_all() == old(self).apply_all()
                &&& final(self).cancelled() == old(self).cancelled()
                &&& final(self).last_answer() == old(self).last_answer()
            },
            old(self).asks() ==> exists|answer: Answer|
                r == outcome_of(answer) && final(self).apply_all() == (answer == Answer::All)
                    && final(self).cancelled() == (old(self).cancelled() || answer == Answer::Quit)
                    && final(self).last_answer() == Some(answer),
            r == (*old(self)).confirmation(*final(self)),
            (*old(self)).stop_is_told(*final(self), r),
            final(self).last_choice() == old(self).last_choice(),
            final(self).last_pick() == old(self).last_pick(),
    {
        self.confirm(UpdateCategory::Library, name, old_version, new_version)
    }

    /// Confirms the change of a plugin.
    pub fn confirm_plugin(&mut self, name: &str, old_version: &str, new_version: &str) -> (r: Result<
        bool,
        GvcError,
    >)
        ensures
            final(self).enabled() == old(self).enabled(),
            !old(self).asks() ==> {
                &&& r == Ok::<bool, GvcError>(true)
                &&& final(self).apply_all() == old(self).apply_all()
                &&& final(self).cancelled() == old(self).cancelled()
                &&& final(self).last_answer() == old(self).last_answer()
            },
            old(self).asks() ==> exists|answer: Answer|
                r == outcome_of(answer) && final(self).apply_all() == (answer == Answer::All)
                    && final(self).cancelled() == (old(self).cancelled() || answer == Answer::Quit)
                    && final(self).last_answer() == Some(answer),
            r == (*old(self)).confirmation(*final(self)),
            (*old(self)).stop_is_told(*final(self), r),
            final(self).last_choice() == old(self).last_choice(),
            final(self).last_pick() == old(self).last_pick(),
    {
        self.confirm(UpdateCategory::Plugin, name, old_version, new_version)
    }

    /// Asks the user for one of the entries that match and hands the
    /// answer on as it came; [`settle_choice`] says what it comes to.
    /// Where the user stops, the run is marked as stopped.
    pub fn choose_candidate(&mut self, candidates: &Vec<String>) -> (r: CandidateChoice)
        ensures
            final(self).enabled() == old(self).enabled(),
            final(self).apply_all() == old(self).apply_all(),
            final(self).cancelled() == (old(self).cancelled() || r is Quit),
            final(self).last_choice() == Some(r),
            final(self).last_answer() == old(self).last_answer(),
            final(self).last_pick() == old(self).last_pick(),
    {
        let choice = self.prompter.pick_candidate(candidates);
        self.last_choice = Some(choice);
        match choice {
            CandidateChoice::Quit => {
                self.cancelled = true;
            },
            _ => {},
        }
        choice
    }

    /// Asks the user for one of the versions that are offered for an
    /// entry and hands the answer on as it came; [`settle_pick`] says
    /// what it comes to. Where the user stops, the run is marked as
    /// stopped.
    pub fn choose_version(&mut self, entry: &str, current: &str, versions: &Vec<VersionEntry>) -> (r:
        VersionPick)
        ensures
            final(self).enabled() == old(self).enabled(),
            final(self).apply_all() == old(self).apply_all(),
            final(self).cancelled() == (old(self).cancelled() || r is Quit),
            final(self).last_pick() == Some(r),
            final(self).last_answer() == old(self).last_answer(),
            final(self).last_choice() == old(self).last_choice(),
    {
        let pick = self.prompter.pick_version(entry, current, versions);
        self.last_pick = Some(pick);
        match pick {
            VersionPick::Quit => {
                self.cancelled = true;
            },
            _ => {},
        }
        pick
    }

    /// Ends the confirmations and hands the prompter back.
    pub fn into_prompter(self) -> (r: P)
        ensures
            r == self.prompter(),
    {
        self.prompter
    }
}

} // verus!
