use vstd::prelude::*;

verus! {

/// Where the control loop stands.
#[derive(Clone, Copy, Debug, PartialEq, Eq, Structural)]
pub enum Phase {
    /// Waiting for the next event.
    Idle,
    /// A command line was entered and is being split and dispatched.
    ExecutingCommand,
    /// A dispatched command asked for an interactive callback.
    AwaitingCallback,
    /// The loop has ended; only the final save remains.
    Terminating,
}

/// What the loop was woken by, or what came of its last action.
#[derive(Clone, Copy, Debug, PartialEq, Eq, Structural)]
pub enum Event {
    /// The background ticker claimed the dirty flag.
    RefreshDue,
    /// A background message arrived.
    Message,
    /// A background message could not be shown.
    MessageFailed,
    /// The host asked the process to shut down.
    Shutdown,
    /// The line editor handled an input event; nothing more to do.
    InputContinue,
    /// The line editor asked the loop to end.
    InputBreak,
    /// A command line was entered.
    InputCommand,
    /// Reading or handling input failed.
    InputError,
    /// The command line could not be split into words.
    ArgsRejected,
    /// The command was carried out.
    CommandProcessed,
    /// The command registered an interactive callback.
    CommandCallback,
    /// Setting up the callback failed.
    CallbackFailed,
    /// The callback is in place.
    CallbackReady,
    /// The command asked the application to exit.
    CommandExit,
}

/// What the loop does next.
#[derive(Clone, Copy, Debug, PartialEq, Eq, Structural)]
pub enum Action {
    Nothing,
    /// Write the snapshot; a failure is only logged.
    Save,
    /// Show the background message.
    ShowMessage,
    /// Split the entered line and dispatch it as a command.
    Dispatch,
    /// Run the callback's set-up and register its input hook.
    InitCallback,
    /// Leave the loop.
    Stop,
}

#[derive(Clone, Copy, Debug, PartialEq, Eq, Structural)]
pub struct Step {
    pub phase: Phase,
    pub action: Action,
}

/// The loop's transitions. Once terminating, nothing happens any more.
pub open spec fn next_step(phase: Phase, event: Event) -> Step {
    if phase == Phase::Terminating {
        Step { phase: Phase::Terminating, action: Action::Nothing }
    } else {
        match event {
            Event::RefreshDue => Step { phase: Phase::Idle, action: Action::Save },
            Event::Message => Step { phase: Phase::Idle, action: Action::ShowMessage },
            Event::InputContinue | Event::ArgsRejected | Event::CommandProcessed | Event::CallbackReady
                => Step { phase: Phase::Idle, action: Action::Nothing },
            Event::InputCommand => Step { phase: Phase::ExecutingCommand, action: Action::Dispatch },
            Event::CommandCallback => Step { phase: Phase::AwaitingCallback, action: Action::InitCallback },
            Event::MessageFailed | Event::Shutdown | Event::InputBreak | Event::InputError
                | Event::CallbackFailed | Event::CommandExit
                => Step { phase: Phase::Terminating, action: Action::Stop },
        }
    }
}

/// Decides the loop's next phase and action.
pub fn decide(phase: Phase, event: Event) -> (r: Step)
    ensures
        r == next_step(phase, event),
{
    if phase == Phase::Terminating {
        return Step { phase: Phase::Terminating, action: Action::Nothing };
    }
    match event {
        Event::RefreshDue => Step { phase: Phase::Idle, action: Action::Save },
        Event::Message => Step { phase: Phase::Idle, action: Action::ShowMessage },
        Event::InputContinue | Event::ArgsRejected | Event::CommandProcessed | Event::CallbackReady
            => Step { phase: Phase::Idle, action: Action::Nothing },
        Event::InputCommand => Step { phase: Phase::ExecutingCommand, action: Action::Dispatch },
        Event::CommandCallback => Step { phase: Phase::AwaitingCallback, action: Action::InitCallback },
        Event::MessageFailed | Event::Shutdown | Event::InputBreak | Event::InputError
            | Event::CallbackFailed | Event::CommandExit
            => Step { phase: Phase::Terminating, action: Action::Stop },
    }
}

/// What the loop does once it has left: save exactly when unsaved changes
/// remain.
pub fn exit_action(dirty: bool) -> (r: Action)
    ensures
        dirty ==> r == Action::Save,
        !dirty ==> r == Action::Nothing,
{
    if dirty { Action::Save } else { Action::Nothing }
}

/// Whether the background ticker keeps running after one check: it stops
/// only when it claimed the dirty flag and the loop could no longer be told.
pub fn ticker_continues(claimed: bool, delivered: bool) -> (r: bool)
    ensures
        r == !(claimed && !delivered),
{
    !claimed || delivered
}

/// A terminating loop stays terminating and does nothing, whatever happens.
pub proof fn lemma_terminating_absorbs(event: Event)
    ensures
        next_step(Phase::Terminating, event) == (Step { phase: Phase::Terminating, action: Action::Nothing }),
{
}

/// Every event that ends the loop also asks it to stop, and every stop
/// ends it.
pub proof fn lemma_stop_iff_terminating(phase: Phase, event: Event)
    requires
        phase != Phase::Terminating,
    ensures
        (next_step(phase, event).phase == Phase::Terminating) <==> (next_step(phase, event).action == Action::Stop),
{
}

/// The words of a line as the Bourne shell splits them, or `None` when its
/// quotes do not match.
pub uninterp spec fn shell_words(line: Seq<char>) -> Option<Seq<Seq<char>>>;

pub open spec fn string_views(v: Seq<String>) -> Seq<Seq<char>> {
    v.map_values(|s: String| s@)
}

#[verifier::external_type_specification]
#[verifier::external_body]
pub struct ExMismatchedQuotes(shellwords::MismatchedQuotes);

/// Relies on shellwords::split: the words of the line, or `MismatchedQuotes`
/// when a quoted string is not closed; an empty line has no words.
#[verifier::external_body]
fn split_line(line: &str) -> (r: Result<Vec<String>, shellwords::MismatchedQuotes>)
    ensures
        match r {
            Ok(words) => shell_words(line@) == Some(string_views(words@)),
            Err(_) => shell_words(line@) == None::<Seq<Seq<char>>>,
        },
        line@.len() == 0 ==> r is Ok && r->Ok_0@.len() == 0,
{
    shellwords::split(line)
}

/// What to do with an entered command line.
pub enum CommandPlan {
    /// Dispatch these arguments to the command framework.
    Dispatch(Vec<String>),
    /// The line could not be split: log it and wait for the next event.
    Reject,
}

/// The plan for a line, given how it split: dispatch the words, or reject
/// the line when its quotes did not match.
pub fn plan_from_words(words: Option<Vec<String>>) -> (r: CommandPlan)
    ensures
        match words {
            Some(w) => r is Dispatch && r->Dispatch_0@ == w@,
            None => r is Reject,
        },
{
    match words {
        Some(w) => CommandPlan::Dispatch(w),
        None => CommandPlan::Reject,
    }
}

/// Splits an entered command line into the arguments to dispatch.
pub fn plan_command(line: &str) -> (r: CommandPlan)
    ensures
        match r {
            CommandPlan::Dispatch(w) => shell_words(line@) == Some(string_views(w@)),
            CommandPlan::Reject => shell_words(line@) == None::<Seq<Seq<char>>>,
        },
        line@.len() == 0 ==> r is Dispatch && r->Dispatch_0@.len() == 0,
{
    let words = match split_line(line) {
        Ok(w) => Some(w),
        Err(_) => None,
    };
    plan_from_words(words)
}

} // verus!
