use vstd::prelude::*;

verus! {

/// Reminder preferences.
#[derive(Clone, Copy, Debug, PartialEq, Eq, Structural)]
pub struct Config {
    pub remind_free_practice: bool,
    pub remind_quali: bool,
    pub remind_sprint: bool,
    pub remind_race: bool,
    pub days_before_reminder: u32,
}

/// Flags of the `config` command.
#[derive(Clone, Copy, Debug, PartialEq, Eq, Structural)]
pub struct ConfigCmd {
    pub set: bool,
    pub display: bool,
}

/// Flags of the `recipients` command.
pub struct RecipientsCmd {
    pub add: Option<Vec<String>>,
    pub file: Option<String>,
    pub display: bool,
}

/// Flags of the `schedule` command.
#[derive(Clone, Copy, Debug, PartialEq, Eq, Structural)]
pub struct ScheduleCmd {
    pub next: bool,
    pub update: bool,
}

/// The commands of the program.
pub enum Cli {
    Config(ConfigCmd),
    Recipients(RecipientsCmd),
    Schedule(ScheduleCmd),
}

/// What the `config` command does.
#[derive(Clone, Copy, Debug, PartialEq, Eq, Structural)]
pub enum ConfigAction {
    Prompt,
    Display,
}

/// What the `recipients` command does.
pub enum RecipientsAction {
    Display,
    AddFromFile(String),
    Add(Vec<String>),
}

/// What the `schedule` command does.
#[derive(Clone, Copy, Debug, PartialEq, Eq, Structural)]
pub enum ScheduleAction {
    Update,
    Next,
}

impl ConfigCmd {
    /// The action asked for: exactly one of the two flags must be given.
    pub fn action(&self) -> (r: Option<ConfigAction>)
        ensures
            r == (if self.set && !self.display {
                Some(ConfigAction::Prompt)
            } else if !self.set && self.display {
                Some(ConfigAction::Display)
            } else {
                None
            }),
    {
        if self.set && !self.display {
            Some(ConfigAction::Prompt)
        } else if !self.set && self.display {
            Some(ConfigAction::Display)
        } else {
            None
        }
    }
}

impl ScheduleCmd {
    /// The action asked for: exactly one of the two flags must be given.
    pub fn action(&self) -> (r: Option<ScheduleAction>)
        ensures
            r == (if self.update && !self.next {
                Some(ScheduleAction::Update)
            } else if !self.update && self.next {
                Some(ScheduleAction::Next)
            } else {
                None
            }),
    {
        if self.update && !self.next {
            Some(ScheduleAction::Update)
        } else if !self.update && self.next {
            Some(ScheduleAction::Next)
        } else {
            None
        }
    }
}

impl RecipientsCmd {
    /// The action asked for: exactly one of display, file and add must be given.
    pub fn action(self) -> (r: Option<RecipientsAction>)
        ensures
            match r {
                Some(RecipientsAction::Display) => self.display && self.file is None && self.add is None,
                Some(RecipientsAction::AddFromFile(f)) => !self.display && self.file == Some(f) && self.add is None,
                Some(RecipientsAction::Add(a)) => !self.display && self.file is None && self.add == Some(a),
                None => !((self.display && self.file is None && self.add is None)
                    || (!self.display && self.file is Some && self.add is None)
                    || (!self.display && self.file is None && self.add is Some)),
            },
    {
        match (self.display, self.file, self.add) {
            (true, None, None) => Some(RecipientsAction::Display),
            (false, Some(f), None) => Some(RecipientsAction::AddFromFile(f)),
            (false, None, Some(a)) => Some(RecipientsAction::Add(a)),
            _ => None,
        }
    }
}

/// `s` with leading and trailing white space removed, as `str::trim` does.
pub uninterp spec fn trim_of(s: Seq<char>) -> Seq<char>;

/// `s` in lower case, as `str::to_lowercase` gives it.
pub uninterp spec fn lower_of(s: Seq<char>) -> Seq<char>;

/// The `u32` that `str::parse` reads from `s`, or `None` where it fails.
pub uninterp spec fn u32_of(s: Seq<char>) -> Option<u32>;

/// Relies on `str::trim`: the text without surrounding white space.
#[verifier::external_body]
fn trim_text(s: &str) -> (r: String)
    ensures
        r@ == trim_of(s@),
{
    s.trim().to_string()
}

/// Relies on `str::to_lowercase`.
#[verifier::external_body]
fn lowercase_text(s: &str) -> (r: String)
    ensures
        r@ == lower_of(s@),
{
    s.to_lowercase()
}

/// Relies on `str::parse::<u32>`.
#[verifier::external_body]
fn parse_u32(s: &str) -> (r: Option<u32>)
    ensures
        r == u32_of(s@),
{
    s.parse::<u32>().ok()
}

/// The yes/no answer that a normalised reply gives.
pub open spec fn yes_no(s: Seq<char>) -> Option<bool> {
    if s == "y"@ {
        Some(true)
    } else if s == "n"@ {
        Some(false)
    } else {
        None
    }
}

/// Reads a normalised reply as yes (`y`) or no (`n`).
pub fn yes_no_answer(normalised: &str) -> (r: Option<bool>)
    ensures
        r == yes_no(normalised@),
{
    let s = String::from_str(normalised);
    if s.eq(&String::from_str("y")) {
        Some(true)
    } else if s.eq(&String::from_str("n")) {
        Some(false)
    } else {
        None
    }
}

/// Reads a reply as yes or no, ignoring surrounding white space and case.
pub fn parse_yes_no(input: &str) -> (r: Option<bool>)
    ensures
        r == yes_no(lower_of(trim_of(input@))),
{
    let t = trim_text(input);
    let l = lowercase_text(t.as_str());
    yes_no_answer(l.as_str())
}

/// Reads a reply as a day count, ignoring surrounding white space.
pub fn parse_day_count(input: &str) -> (r: Option<u32>)
    ensures
        r == u32_of(trim_of(input@)),
{
    let t = trim_text(input);
    parse_u32(t.as_str())
}

/// The questions asked, in order, to build a [`Config`].
#[derive(Clone, Copy, Debug, PartialEq, Eq, Structural)]
pub enum ConfigQuestion {
    FreePractice,
    Qualifying,
    Sprint,
    Race,
    DaysBefore,
}

/// What the prompt does next.
#[derive(Clone, Copy, Debug, PartialEq, Eq, Structural)]
pub enum PromptStep {
    /// Ask this question.
    Ask(ConfigQuestion),
    /// The reply was not understood: ask this question again.
    Retry(ConfigQuestion),
    /// Every question is answered: save this config.
    Save(Config),
}

/// The question asked after `n` yes/no answers.
pub open spec fn question_at(n: int) -> ConfigQuestion {
    if n == 0 {
        ConfigQuestion::FreePractice
    } else if n == 1 {
        ConfigQuestion::Qualifying
    } else if n == 2 {
        ConfigQuestion::Sprint
    } else if n == 3 {
        ConfigQuestion::Race
    } else {
        ConfigQuestion::DaysBefore
    }
}

/// The interactive collection of a config: the four yes/no answers given so
/// far, then the day count.
pub struct ConfigPrompt {
    pub answers: Vec<bool>,
}

fn question_for(n: usize) -> (q: ConfigQuestion)
    ensures
        q == question_at(n as int),
{
    if n == 0 {
        ConfigQuestion::FreePractice
    } else if n == 1 {
        ConfigQuestion::Qualifying
    } else if n == 2 {
        ConfigQuestion::Sprint
    } else if n == 3 {
        ConfigQuestion::Race
    } else {
        ConfigQuestion::DaysBefore
    }
}

impl ConfigPrompt {
    /// At most the four yes/no answers are held.
    pub open spec fn wf(&self) -> bool {
        self.answers@.len() <= 4
    }

    /// A prompt with no answer yet, and its first question.
    pub fn new() -> (r: (ConfigPrompt, PromptStep))
        ensures
            r.0.wf(),
            r.0.answers@.len() == 0,
            r.1 == PromptStep::Ask(ConfigQuestion::FreePractice),
    {
        (ConfigPrompt { answers: Vec::new() }, PromptStep::Ask(ConfigQuestion::FreePractice))
    }

    /// Takes the reply to the current question. A yes/no reply is recorded
    /// and the next question asked; the day count completes the config; a
    /// reply that cannot be read has the question asked again.
    pub fn next(&mut self, reply: &str) -> (r: PromptStep)
        requires
            old(self).wf(),
        ensures
            final(self).wf(),
            old(self).answers@.len() < 4 ==> match yes_no(lower_of(trim_of(reply@))) {
                Some(b) => final(self).answers@ == old(self).answers@.push(b) && r == PromptStep::Ask(
                    question_at(old(self).answers@.len() + 1 as int),
                ),
                None => final(self).answers@ == old(self).answers@ && r == PromptStep::Retry(
                    question_at(old(self).answers@.len() as int),
                ),
            },
            old(self).answers@.len() == 4 ==> final(self).answers@ == old(self).answers@ && match u32_of(
                trim_of(reply@),
            ) {
                Some(d) => r == PromptStep::Save(
                    Config {
                        remind_free_practice: old(self).answers@[0],
                        remind_quali: old(self).answers@[1],
                        remind_sprint: old(self).answers@[2],
                        remind_race: old(self).answers@[3],
                        days_before_reminder: d,
                    },
                ),
                None => r == PromptStep::Retry(ConfigQuestion::DaysBefore),
            },
    {
        let n = self.answers.len();
        if n < 4 {
            match parse_yes_no(reply) {
                Some(b) => {
                    self.answers.push(b);
                    PromptStep::Ask(question_for(n + 1))
                },
                None => PromptStep::Retry(question_for(n)),
            }
        } else {
            match parse_day_count(reply) {
                Some(d) => PromptStep::Save(
                    Config {
                        remind_free_practice: self.answers[0],
                        remind_quali: self.answers[1],
                        remind_sprint: self.answers[2],
                        remind_race: self.answers[3],
                        days_before_reminder: d,
                    },
                ),
                None => PromptStep::Retry(ConfigQuestion::DaysBefore),
            }
        }
    }
}

} // verus!
