use rutils::report::{
    create_error_message, reference_error_message, update_error_message, IoErrorKind, IoFailure,
};
use rutils::timestamp::{TimeError, Timestamp};
use rutils::touch::{
    fallback_message, parse_reference, target_times, validate, Fields, FileTimes, Flags,
    Metadata, Reading, Request, Source, UsageError,
};
use rutils::update::{first_action, next_step, outcome_message, Action, Outcome, Step};

const NO_FLAGS: Flags = Flags {
    access_only: false,
    modification_only: false,
    no_create: false,
    time_given: false,
    reference_given: false,
};

const NOW: Timestamp = Timestamp { seconds: 1_700_000_000, nanos: 123_456_789 };
const EARLIER: Timestamp = Timestamp { seconds: 1_600_000_000, nanos: 1 };
const LATER: Timestamp = Timestamp { seconds: 1_650_000_000, nanos: 999_999_999 };

fn failure(kind: IoErrorKind, detail: &str) -> IoFailure {
    IoFailure { kind, detail: detail.to_string() }
}

fn missing() -> IoFailure {
    failure(IoErrorKind::NotFound, "No such file or directory (os error 2)")
}

fn both(accessed: Timestamp, modified: Timestamp) -> FileTimes {
    FileTimes { accessed: Some(accessed), modified: Some(modified) }
}

#[test]
fn timestamp_and_reference_together_are_rejected() {
    for access_only in [false, true] {
        for modification_only in [false, true] {
            for no_create in [false, true] {
                for file_count in [0usize, 1, 5] {
                    let flags = Flags {
                        access_only,
                        modification_only,
                        no_create,
                        time_given: true,
                        reference_given: true,
                    };
                    assert_eq!(validate(flags, file_count), Err(UsageError::ConflictingSources));
                }
            }
        }
    }
}

#[test]
fn access_only_and_modification_only_together_are_rejected() {
    let flags = Flags { access_only: true, modification_only: true, ..NO_FLAGS };
    assert_eq!(validate(flags, 1), Err(UsageError::ConflictingFields));
    let with_time = Flags { time_given: true, ..flags };
    assert_eq!(validate(with_time, 1), Err(UsageError::ConflictingFields));
}

#[test]
fn at_least_one_file_is_required() {
    assert_eq!(validate(NO_FLAGS, 0), Err(UsageError::NoFiles));
    let one_field = Flags { access_only: true, reference_given: true, ..NO_FLAGS };
    assert_eq!(validate(one_field, 0), Err(UsageError::NoFiles));
}

#[test]
fn defaults_are_both_fields_from_the_clock() {
    assert_eq!(
        validate(NO_FLAGS, 1),
        Ok(Request { fields: Fields::Both, source: Source::Now, no_create: false })
    );
}

#[test]
fn flags_select_fields_and_source() {
    let flags = Flags { access_only: true, time_given: true, ..NO_FLAGS };
    assert_eq!(
        validate(flags, 2),
        Ok(Request { fields: Fields::AccessOnly, source: Source::Explicit, no_create: false })
    );
    let flags =
        Flags { modification_only: true, reference_given: true, no_create: true, ..NO_FLAGS };
    assert_eq!(
        validate(flags, 1),
        Ok(Request {
            fields: Fields::ModificationOnly,
            source: Source::Reference,
            no_create: true
        })
    );
}

#[test]
fn select_fills_the_chosen_fields() {
    assert_eq!(FileTimes::select(Fields::Both, EARLIER, LATER), both(EARLIER, LATER));
    assert_eq!(
        FileTimes::select(Fields::AccessOnly, EARLIER, LATER),
        FileTimes { accessed: Some(EARLIER), modified: None }
    );
    assert_eq!(
        FileTimes::select(Fields::ModificationOnly, EARLIER, LATER),
        FileTimes { accessed: None, modified: Some(LATER) }
    );
}

#[test]
fn reference_times_are_copied_exactly() {
    let metadata = Metadata { accessed: Ok(EARLIER), modified: Ok(LATER) };
    let times = parse_reference(metadata, Fields::Both);
    assert_eq!(times, Ok(both(EARLIER, LATER)));
    let target = target_times(Fields::Both, NOW, &Reading::Reference(times));
    assert_eq!(target.accessed, Some(EARLIER));
    assert_eq!(target.modified, Some(LATER));
}

#[test]
fn reference_gives_only_the_chosen_field() {
    let metadata = Metadata { accessed: Ok(EARLIER), modified: Ok(LATER) };
    assert_eq!(
        parse_reference(metadata, Fields::AccessOnly),
        Ok(FileTimes { accessed: Some(EARLIER), modified: None })
    );
    let metadata = Metadata { accessed: Ok(EARLIER), modified: Ok(LATER) };
    assert_eq!(
        parse_reference(metadata, Fields::ModificationOnly),
        Ok(FileTimes { accessed: None, modified: Some(LATER) })
    );
}

#[test]
fn reference_reading_that_is_not_needed_may_fail() {
    let unsupported = failure(IoErrorKind::Unsupported, "not supported");
    let metadata = Metadata { accessed: Ok(EARLIER), modified: Err(unsupported.clone()) };
    assert_eq!(
        parse_reference(metadata, Fields::AccessOnly),
        Ok(FileTimes { accessed: Some(EARLIER), modified: None })
    );
    let metadata = Metadata { accessed: Err(unsupported), modified: Ok(LATER) };
    assert_eq!(
        parse_reference(metadata, Fields::ModificationOnly),
        Ok(FileTimes { accessed: None, modified: Some(LATER) })
    );
}

#[test]
fn reference_reading_that_is_needed_must_not_fail() {
    let first = failure(IoErrorKind::Unsupported, "no access time");
    let second = failure(IoErrorKind::Other, "no modification time");
    let metadata = Metadata { accessed: Err(first.clone()), modified: Err(second.clone()) };
    assert_eq!(parse_reference(metadata, Fields::Both), Err(first.clone()));
    let metadata = Metadata { accessed: Ok(EARLIER), modified: Err(second.clone()) };
    assert_eq!(parse_reference(metadata, Fields::Both), Err(second.clone()));
    let metadata = Metadata { accessed: Err(first.clone()), modified: Ok(LATER) };
    assert_eq!(parse_reference(metadata, Fields::AccessOnly), Err(first));
    let metadata = Metadata { accessed: Ok(EARLIER), modified: Err(second.clone()) };
    assert_eq!(parse_reference(metadata, Fields::ModificationOnly), Err(second));
}

#[test]
fn clock_fills_the_chosen_fields() {
    assert_eq!(target_times(Fields::Both, NOW, &Reading::Clock), both(NOW, NOW));
    assert_eq!(
        target_times(Fields::AccessOnly, NOW, &Reading::Clock),
        FileTimes { accessed: Some(NOW), modified: None }
    );
    assert_eq!(
        target_times(Fields::ModificationOnly, NOW, &Reading::Clock),
        FileTimes { accessed: None, modified: Some(NOW) }
    );
}

#[test]
fn explicit_timestamp_fills_the_chosen_fields() {
    let reading = Reading::Explicit(Ok(EARLIER));
    assert_eq!(target_times(Fields::Both, NOW, &reading), both(EARLIER, EARLIER));
    assert_eq!(
        target_times(Fields::AccessOnly, NOW, &reading),
        FileTimes { accessed: Some(EARLIER), modified: None }
    );
    assert_eq!(
        target_times(Fields::ModificationOnly, NOW, &reading),
        FileTimes { accessed: None, modified: Some(EARLIER) }
    );
    assert_eq!(fallback_message(&reading), None);
}

#[test]
fn unreadable_timestamp_falls_back_to_the_clock() {
    let reading = Reading::Explicit(Err(TimeError::UnsupportedFormat));
    assert_eq!(target_times(Fields::Both, NOW, &reading), both(NOW, NOW));
    assert_eq!(
        target_times(Fields::ModificationOnly, NOW, &reading),
        FileTimes { accessed: None, modified: Some(NOW) }
    );
    assert_eq!(
        fallback_message(&reading),
        Some("Error parsing time: Unsupported date format".to_string())
    );
}

#[test]
fn unreadable_reference_falls_back_to_the_clock() {
    let reading = Reading::Reference(Err(missing()));
    assert_eq!(target_times(Fields::Both, NOW, &reading), both(NOW, NOW));
    assert_eq!(
        target_times(Fields::AccessOnly, NOW, &reading),
        FileTimes { accessed: Some(NOW), modified: None }
    );
    assert_eq!(
        fallback_message(&reading),
        Some("Error parsing reference file: File not found".to_string())
    );
}

#[test]
fn nothing_is_reported_where_the_source_was_read() {
    assert_eq!(fallback_message(&Reading::Clock), None);
    assert_eq!(fallback_message(&Reading::Reference(Ok(both(EARLIER, LATER)))), None);
}

#[test]
fn reference_failures_are_told_apart() {
    assert_eq!(
        reference_error_message(&missing()),
        "Error parsing reference file: File not found"
    );
    assert_eq!(
        reference_error_message(&failure(IoErrorKind::PermissionDenied, "denied (os error 13)")),
        "Error parsing reference file: Permission denied"
    );
    assert_eq!(
        reference_error_message(&failure(IoErrorKind::Unsupported, "unsupported")),
        "Error parsing reference file: Unsupported operation"
    );
    assert_eq!(
        reference_error_message(&failure(IoErrorKind::Other, "Is a directory (os error 21)")),
        "Error parsing reference file: Is a directory (os error 21)"
    );
}

#[test]
fn update_failures_are_told_apart() {
    assert_eq!(
        update_error_message(&failure(IoErrorKind::PermissionDenied, "denied (os error 13)")),
        "Error updating file: Permission denied"
    );
    assert_eq!(
        update_error_message(&failure(IoErrorKind::Unsupported, "unsupported")),
        "Error updating file: Unsupported operation"
    );
    assert_eq!(
        update_error_message(&failure(IoErrorKind::Other, "Is a directory (os error 21)")),
        "Error updating file: Is a directory (os error 21)"
    );
    assert_eq!(
        update_error_message(&missing()),
        "Error updating file: No such file or directory (os error 2)"
    );
}

#[test]
fn create_failure_carries_the_description() {
    assert_eq!(
        create_error_message(&failure(IoErrorKind::PermissionDenied, "denied (os error 13)")),
        "Error creating file: denied (os error 13)"
    );
}

#[test]
fn work_on_a_file_starts_by_opening_it() {
    assert_eq!(first_action(), Action::Open);
}

#[test]
fn existing_file_is_given_its_times() {
    assert_eq!(next_step(Action::Open, Ok(()), false), Step::Do(Action::SetTimes));
    assert_eq!(next_step(Action::Open, Ok(()), true), Step::Do(Action::SetTimes));
    assert_eq!(next_step(Action::SetTimes, Ok(()), false), Step::Done(Outcome::Updated));
    assert_eq!(next_step(Action::SetTimes, Ok(()), true), Step::Done(Outcome::Updated));
}

#[test]
fn missing_file_is_created_then_given_its_times() {
    assert_eq!(next_step(Action::Open, Err(missing()), false), Step::Do(Action::Create));
    assert_eq!(next_step(Action::Create, Ok(()), false), Step::Do(Action::Open));
    assert_eq!(next_step(Action::Open, Ok(()), false), Step::Do(Action::SetTimes));
    assert_eq!(next_step(Action::SetTimes, Ok(()), false), Step::Done(Outcome::Updated));
}

#[test]
fn missing_file_is_passed_over_where_creation_is_suppressed() {
    assert_eq!(next_step(Action::Open, Err(missing()), true), Step::Done(Outcome::Skipped));
    assert_eq!(outcome_message(&Outcome::Skipped), None);
}

#[test]
fn failure_to_open_ends_the_work() {
    for no_create in [false, true] {
        for kind in [IoErrorKind::PermissionDenied, IoErrorKind::Unsupported, IoErrorKind::Other] {
            let refused = failure(kind, "refused");
            assert_eq!(
                next_step(Action::Open, Err(refused.clone()), no_create),
                Step::Done(Outcome::Failed(refused))
            );
        }
    }
}

#[test]
fn failure_to_create_is_reported_apart() {
    let refused = failure(IoErrorKind::PermissionDenied, "denied (os error 13)");
    let step = next_step(Action::Create, Err(refused.clone()), false);
    assert_eq!(step, Step::Done(Outcome::CreateFailed(refused.clone())));
    assert_eq!(
        outcome_message(&Outcome::CreateFailed(refused)),
        Some("Error creating file: denied (os error 13)".to_string())
    );
}

#[test]
fn failure_to_set_times_ends_the_work() {
    let unsupported = failure(IoErrorKind::Unsupported, "unsupported");
    let step = next_step(Action::SetTimes, Err(unsupported.clone()), false);
    assert_eq!(step, Step::Done(Outcome::Failed(unsupported.clone())));
    assert_eq!(
        outcome_message(&Outcome::Failed(unsupported)),
        Some("Error updating file: Unsupported operation".to_string())
    );
    let missing_now = next_step(Action::SetTimes, Err(missing()), false);
    assert_eq!(missing_now, Step::Done(Outcome::Failed(missing())));
}

#[test]
fn success_has_nothing_to_report() {
    assert_eq!(outcome_message(&Outcome::Updated), None);
}
