//! The steps by which one file is given its times.
//!
//! The caller performs each action on the file system and reports how it
//! went; `next_step` says what to do then.

use vstd::prelude::*;
use crate::report::{
    create_error_message, create_error_text, update_error_message, update_error_text,
    IoErrorKind, IoFailure,
};

verus! {

/// Something to do to the file.
#[derive(Clone, Copy, Debug, PartialEq, Eq, Structural)]
pub enum Action {
    /// Open the file for writing.
    Open,
    /// Create the file, empty.
    Create,
    /// Apply the times to the file that was opened.
    SetTimes,
}

/// How the work on one file ended.
#[derive(Debug, PartialEq, Eq)]
pub enum Outcome {
    /// The file has its new times.
    Updated,
    /// The file is missing and was not to be created.
    Skipped,
    /// The file is missing and could not be created. This is reported, and
    /// is no failure of the update.
    CreateFailed(IoFailure),
    /// The update failed.
    Failed(IoFailure),
}

/// What comes next for a file.
#[derive(Debug, PartialEq, Eq)]
pub enum Step {
    Do(Action),
    Done(Outcome),
}

/// The step that follows `done`, given how it went.
///
/// A file that opens is given its times. A missing file is created, unless
/// that is suppressed, and then opened again, so that a new file gets the
/// same times as an old one. Any other failure to open, and any failure to
/// set the times, ends the work on the file.
pub open spec fn step_after(done: Action, result: Result<(), IoFailure>, no_create: bool) -> Step {
    match done {
        Action::Open => match result {
            Ok(_) => Step::Do(Action::SetTimes),
            Err(failure) => if failure.kind == IoErrorKind::NotFound {
                if no_create {
                    Step::Done(Outcome::Skipped)
                } else {
                    Step::Do(Action::Create)
                }
            } else {
                Step::Done(Outcome::Failed(failure))
            },
        },
        Action::Create => match result {
            Ok(_) => Step::Do(Action::Open),
            Err(failure) => Step::Done(Outcome::CreateFailed(failure)),
        },
        Action::SetTimes => match result {
            Ok(_) => Step::Done(Outcome::Updated),
            Err(failure) => Step::Done(Outcome::Failed(failure)),
        },
    }
}

/// The action that the work on a file starts with.
pub fn first_action() -> (action: Action)
    ensures
        action == Action::Open,
{
    Action::Open
}

/// Decides what follows `done`, given how it went.
pub fn next_step(done: Action, result: Result<(), IoFailure>, no_create: bool) -> (step: Step)
    ensures
        step == step_after(done, result, no_create),
{
    match done {
        Action::Open => match result {
            Ok(_) => Step::Do(Action::SetTimes),
            Err(failure) => match failure.kind {
                IoErrorKind::NotFound => {
                    if no_create {
                        Step::Done(Outcome::Skipped)
                    } else {
                        Step::Do(Action::Create)
                    }
                },
                _ => Step::Done(Outcome::Failed(failure)),
            },
        },
        Action::Create => match result {
            Ok(_) => Step::Do(Action::Open),
            Err(failure) => Step::Done(Outcome::CreateFailed(failure)),
        },
        Action::SetTimes => match result {
            Ok(_) => Step::Done(Outcome::Updated),
            Err(failure) => Step::Done(Outcome::Failed(failure)),
        },
    }
}

/// The diagnostic for the way the work on a file ended; `None` where there
/// is nothing to report.
pub open spec fn outcome_text(outcome: Outcome) -> Option<Seq<char>> {
    match outcome {
        Outcome::Updated => None,
        Outcome::Skipped => None,
        Outcome::CreateFailed(failure) => Some(create_error_text(failure.detail@)),
        Outcome::Failed(failure) => Some(update_error_text(failure.kind, failure.detail@)),
    }
}

/// The diagnostic to print for the way the work on a file ended.
pub fn outcome_message(outcome: &Outcome) -> (message: Option<String>)
    ensures
        match outcome_text(*outcome) {
            Some(text) => message matches Some(printed) && printed@ == text,
            None => message is None,
        },
{
    match outcome {
        Outcome::Updated => None,
        Outcome::Skipped => None,
        Outcome::CreateFailed(failure) => Some(create_error_message(failure)),
        Outcome::Failed(failure) => Some(update_error_message(failure)),
    }
}

/// Where creation is suppressed, no step creates a file, and a missing file
/// is passed over without a failure.
pub proof fn lemma_no_create_never_creates(done: Action, result: Result<(), IoFailure>)
    ensures
        step_after(done, result, true) != Step::Do(Action::Create),
        done == Action::Open && result is Err && result->Err_0.kind == IoErrorKind::NotFound
            ==> step_after(done, result, true) == Step::Done(Outcome::Skipped),
{
}

/// Where creation is not suppressed, a missing file is created, then opened
/// again and given its times; a file is created in no other case.
pub proof fn lemma_missing_file_is_created(done: Action, result: Result<(), IoFailure>)
    ensures
        step_after(done, result, false) == Step::Do(Action::Create) <==> done == Action::Open
            && result is Err && result->Err_0.kind == IoErrorKind::NotFound,
        step_after(Action::Create, Ok(()), false) == Step::Do(Action::Open),
        step_after(Action::Open, Ok(()), false) == Step::Do(Action::SetTimes),
        step_after(Action::SetTimes, Ok(()), false) == Step::Done(Outcome::Updated),
{
}

/// What is at a path, as far as giving it times is concerned.
pub struct PathState {
    /// A file is there.
    pub present: bool,
    /// The file that is there was created by this work, and is empty.
    pub created: bool,
    /// The file that is there has been given its times.
    pub stamped: bool,
}

/// How `action` goes at a quiet path: one where nothing fails but the
/// opening of a file that is not there, which fails with `missing`.
pub open spec fn quiet_result(action: Action, state: PathState, missing: IoFailure) -> Result<
    (),
    IoFailure,
> {
    if action == Action::Open && !state.present {
        Err(missing)
    } else {
        Ok(())
    }
}

/// What an action that went well leaves at the path.
pub open spec fn effect_of(action: Action, state: PathState) -> PathState {
    match action {
        Action::Open => state,
        Action::Create => PathState { present: true, created: true, stamped: false },
        Action::SetTimes => PathState {
            present: state.present,
            created: state.created,
            stamped: true,
        },
    }
}

/// The work on a quiet path from `action` on, for at most `limit` actions:
/// what it leaves at the path, and how it ended if it did.
pub open spec fn quiet_run(
    action: Action,
    state: PathState,
    no_create: bool,
    missing: IoFailure,
    limit: nat,
) -> (PathState, Option<Outcome>)
    decreases limit,
{
    if limit == 0 {
        (state, None)
    } else {
        let result = quiet_result(action, state, missing);
        let after = if result is Ok {
            effect_of(action, state)
        } else {
            state
        };
        match step_after(action, result, no_create) {
            Step::Do(next) => quiet_run(next, after, no_create, missing, (limit - 1) as nat),
            Step::Done(outcome) => (after, Some(outcome)),
        }
    }
}

/// On a quiet path the work ends within four actions. A file that was
/// missing is then there, newly created, empty, and has its times; where
/// creation is suppressed the path still holds nothing and nothing failed.
/// A file that was there has its times and was not created anew.
pub proof fn lemma_quiet_path(present: bool, no_create: bool, missing: IoFailure)
    requires
        missing.kind == IoErrorKind::NotFound,
    ensures
        ({
            let start = PathState { present, created: false, stamped: false };
            let (end, outcome) = quiet_run(Action::Open, start, no_create, missing, 4);
            &&& present ==> outcome == Some(Outcome::Updated) && end == (PathState {
                present: true,
                created: false,
                stamped: true,
            })
            &&& !present && !no_create ==> outcome == Some(Outcome::Updated) && end == (PathState {
                present: true,
                created: true,
                stamped: true,
            })
            &&& !present && no_create ==> outcome == Some(Outcome::Skipped) && end == start
        }),
{
    reveal_with_fuel(quiet_run, 5);
}

} // verus!
