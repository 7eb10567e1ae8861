use remindf1::config::{
    parse_day_count, parse_yes_no, yes_no_answer, Config, ConfigAction, ConfigCmd, ConfigPrompt,
    ConfigQuestion, PromptStep, RecipientsAction,
    RecipientsCmd, ScheduleAction, ScheduleCmd,
};

#[test]
fn yes_no_replies() {
    assert_eq!(parse_yes_no(" Y \n"), Some(true));
    assert_eq!(parse_yes_no("n"), Some(false));
    assert_eq!(parse_yes_no("yes"), None);
    assert_eq!(yes_no_answer("y"), Some(true));
    assert_eq!(yes_no_answer("Y"), None);
}

#[test]
fn day_count_replies() {
    assert_eq!(parse_day_count(" 3\n"), Some(3));
    assert_eq!(parse_day_count("-1"), None);
    assert_eq!(parse_day_count("many"), None);
}

#[test]
fn command_flags() {
    assert_eq!(ConfigCmd { set: true, display: false }.action(), Some(ConfigAction::Prompt));
    assert_eq!(ConfigCmd { set: false, display: true }.action(), Some(ConfigAction::Display));
    assert_eq!(ConfigCmd { set: true, display: true }.action(), None);
    assert_eq!(ScheduleCmd { next: true, update: false }.action(), Some(ScheduleAction::Next));
    assert_eq!(ScheduleCmd { next: false, update: true }.action(), Some(ScheduleAction::Update));
    assert_eq!(ScheduleCmd { next: false, update: false }.action(), None);
    let cmd = RecipientsCmd { add: None, file: Some("list.txt".to_string()), display: false };
    assert!(matches!(cmd.action(), Some(RecipientsAction::AddFromFile(f)) if f == "list.txt"));
    let cmd = RecipientsCmd { add: Some(vec![]), file: None, display: true };
    assert!(cmd.action().is_none());
}

#[test]
fn config_prompt_sequence() {
    let (mut prompt, first) = ConfigPrompt::new();
    assert_eq!(first, PromptStep::Ask(ConfigQuestion::FreePractice));
    assert_eq!(prompt.next("y\n"), PromptStep::Ask(ConfigQuestion::Qualifying));
    assert_eq!(prompt.next("maybe\n"), PromptStep::Retry(ConfigQuestion::Qualifying));
    assert_eq!(prompt.next("N\n"), PromptStep::Ask(ConfigQuestion::Sprint));
    assert_eq!(prompt.next("n\n"), PromptStep::Ask(ConfigQuestion::Race));
    assert_eq!(prompt.next(" y "), PromptStep::Ask(ConfigQuestion::DaysBefore));
    assert_eq!(prompt.next("two\n"), PromptStep::Retry(ConfigQuestion::DaysBefore));
    assert_eq!(
        prompt.next("2\n"),
        PromptStep::Save(Config {
            remind_free_practice: true,
            remind_quali: false,
            remind_sprint: false,
            remind_race: true,
            days_before_reminder: 2,
        })
    );
}
