use h2m_cache::control::{decide, exit_action, plan_command, plan_from_words, ticker_continues, Action, CommandPlan, Event, Phase, Step};

#[test]
fn refresh_due_saves_and_stays_idle() {
    assert_eq!(decide(Phase::Idle, Event::RefreshDue), Step { phase: Phase::Idle, action: Action::Save });
}

#[test]
fn shutdown_and_failures_terminate() {
    for e in [Event::Shutdown, Event::InputError, Event::InputBreak, Event::MessageFailed, Event::CommandExit, Event::CallbackFailed] {
        assert_eq!(decide(Phase::Idle, e), Step { phase: Phase::Terminating, action: Action::Stop });
    }
}

#[test]
fn command_flow() {
    assert_eq!(decide(Phase::Idle, Event::InputCommand), Step { phase: Phase::ExecutingCommand, action: Action::Dispatch });
    assert_eq!(decide(Phase::ExecutingCommand, Event::CommandCallback), Step { phase: Phase::AwaitingCallback, action: Action::InitCallback });
    assert_eq!(decide(Phase::AwaitingCallback, Event::CallbackReady), Step { phase: Phase::Idle, action: Action::Nothing });
    assert_eq!(decide(Phase::ExecutingCommand, Event::ArgsRejected), Step { phase: Phase::Idle, action: Action::Nothing });
    assert_eq!(decide(Phase::Idle, Event::Message), Step { phase: Phase::Idle, action: Action::ShowMessage });
}

#[test]
fn terminating_is_absorbing() {
    for e in [Event::RefreshDue, Event::Message, Event::InputCommand, Event::Shutdown] {
        assert_eq!(decide(Phase::Terminating, e), Step { phase: Phase::Terminating, action: Action::Nothing });
    }
}

#[test]
fn final_save_only_when_dirty() {
    assert_eq!(exit_action(true), Action::Save);
    assert_eq!(exit_action(false), Action::Nothing);
}

#[test]
fn ticker_stops_only_when_undeliverable() {
    assert!(ticker_continues(false, false));
    assert!(ticker_continues(true, true));
    assert!(!ticker_continues(true, false));
}

#[test]
fn command_line_is_split_like_a_shell() {
    match plan_command("connect \"my server\" 'x y' z") {
        CommandPlan::Dispatch(words) => assert_eq!(words, vec!["connect", "my server", "x y", "z"]),
        CommandPlan::Reject => panic!("rejected"),
    }
    match plan_command("") {
        CommandPlan::Dispatch(words) => assert!(words.is_empty()),
        CommandPlan::Reject => panic!("rejected"),
    }
}

#[test]
fn unbalanced_quotes_are_rejected() {
    assert!(matches!(plan_command("filter \"open"), CommandPlan::Reject));
    assert!(matches!(plan_from_words(None), CommandPlan::Reject));
    match plan_from_words(Some(vec!["a".to_string()])) {
        CommandPlan::Dispatch(w) => assert_eq!(w, vec!["a"]),
        CommandPlan::Reject => panic!("rejected"),
    }
}
