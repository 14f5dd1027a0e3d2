//! Deciding which times a file is to be given.

use vstd::prelude::*;
use crate::report::{
    reference_error_message, reference_error_text, time_error_message, time_error_text, IoFailure,
};
use crate::timestamp::{TimeError, Timestamp};

verus! {

/// The options as they were typed, before they are checked against each
/// other.
#[derive(Clone, Copy, Debug, PartialEq, Eq, Structural)]
pub struct Flags {
    /// Change the access time only.
    pub access_only: bool,
    /// Change the modification time only.
    pub modification_only: bool,
    /// Do not create missing files.
    pub no_create: bool,
    /// An explicit timestamp was supplied.
    pub time_given: bool,
    /// A reference file was supplied.
    pub reference_given: bool,
}

/// Which of a file's two times are changed.
#[derive(Clone, Copy, Debug, PartialEq, Eq, Structural)]
pub enum Fields {
    Both,
    AccessOnly,
    ModificationOnly,
}

/// Where the new times come from.
#[derive(Clone, Copy, Debug, PartialEq, Eq, Structural)]
pub enum Source {
    /// The clock.
    Now,
    /// A timestamp given as text.
    Explicit,
    /// The times of another file.
    Reference,
}

/// An invocation that cannot be carried out.
#[derive(Clone, Copy, Debug, PartialEq, Eq, Structural)]
pub enum UsageError {
    /// Both an explicit timestamp and a reference file were supplied.
    ConflictingSources,
    /// Both access-only and modification-only were asked for.
    ConflictingFields,
    /// No file was named.
    NoFiles,
}

/// A checked invocation.
#[derive(Clone, Copy, Debug, PartialEq, Eq, Structural)]
pub struct Request {
    pub fields: Fields,
    pub source: Source,
    pub no_create: bool,
}

/// The fields that the flags select.
pub open spec fn fields_of(flags: Flags) -> Fields {
    if flags.access_only {
        Fields::AccessOnly
    } else if flags.modification_only {
        Fields::ModificationOnly
    } else {
        Fields::Both
    }
}

/// The source that the flags select: an explicit timestamp before a
/// reference file, and the clock where neither was given.
pub open spec fn source_of(flags: Flags) -> Source {
    if flags.time_given {
        Source::Explicit
    } else if flags.reference_given {
        Source::Reference
    } else {
        Source::Now
    }
}

/// What checking an invocation gives.
pub open spec fn validated(flags: Flags, file_count: nat) -> Result<Request, UsageError> {
    if flags.time_given && flags.reference_given {
        Err(UsageError::ConflictingSources)
    } else if flags.access_only && flags.modification_only {
        Err(UsageError::ConflictingFields)
    } else if file_count == 0 {
        Err(UsageError::NoFiles)
    } else {
        Ok(
            Request {
                fields: fields_of(flags),
                source: source_of(flags),
                no_create: flags.no_create,
            },
        )
    }
}

/// Checks an invocation: the two sources exclude each other, the two
/// single-field options exclude each other, and at least one file is named.
pub fn validate(flags: Flags, file_count: usize) -> (checked: Result<Request, UsageError>)
    ensures
        checked == validated(flags, file_count as nat),
        flags.time_given && flags.reference_given ==> checked == Err::<Request, UsageError>(
            UsageError::ConflictingSources,
        ),
{
    if flags.time_given && flags.reference_given {
        return Err(UsageError::ConflictingSources);
    }
    if flags.access_only && flags.modification_only {
        return Err(UsageError::ConflictingFields);
    }
    if file_count == 0 {
        return Err(UsageError::NoFiles);
    }
    let fields = if flags.access_only {
        Fields::AccessOnly
    } else if flags.modification_only {
        Fields::ModificationOnly
    } else {
        Fields::Both
    };
    let source = if flags.time_given {
        Source::Explicit
    } else if flags.reference_given {
        Source::Reference
    } else {
        Source::Now
    };
    Ok(Request { fields, source, no_create: flags.no_create })
}

/// The times to give a file. A time that is `None` is left as it is.
#[derive(Clone, Copy, Debug, PartialEq, Eq, Structural)]
pub struct FileTimes {
    pub accessed: Option<Timestamp>,
    pub modified: Option<Timestamp>,
}

/// The times taken from `accessed` and `modified` for the chosen fields.
pub open spec fn chosen(fields: Fields, accessed: Timestamp, modified: Timestamp) -> FileTimes {
    match fields {
        Fields::Both => FileTimes { accessed: Some(accessed), modified: Some(modified) },
        Fields::AccessOnly => FileTimes { accessed: Some(accessed), modified: None },
        Fields::ModificationOnly => FileTimes { accessed: None, modified: Some(modified) },
    }
}

impl FileTimes {
    /// The times taken from `accessed` and `modified` for the chosen fields.
    pub fn select(fields: Fields, accessed: Timestamp, modified: Timestamp) -> (times: FileTimes)
        ensures
            times == chosen(fields, accessed, modified),
    {
        match fields {
            Fields::Both => FileTimes { accessed: Some(accessed), modified: Some(modified) },
            Fields::AccessOnly => FileTimes { accessed: Some(accessed), modified: None },
            Fields::ModificationOnly => FileTimes { accessed: None, modified: Some(modified) },
        }
    }
}

/// What reading a file's two times gave. Each reading can fail by itself.
#[derive(Debug, PartialEq, Eq)]
pub struct Metadata {
    pub accessed: Result<Timestamp, IoFailure>,
    pub modified: Result<Timestamp, IoFailure>,
}

/// The times that a reference file gives for the chosen fields.
///
/// Only the readings that the fields need are looked at. Where both are
/// needed and both failed, the failure of the access time is the one
/// reported.
pub open spec fn reference_times(metadata: Metadata, fields: Fields) -> Result<
    FileTimes,
    IoFailure,
> {
    match fields {
        Fields::AccessOnly => match metadata.accessed {
            Ok(accessed) => Ok(FileTimes { accessed: Some(accessed), modified: None }),
            Err(failure) => Err(failure),
        },
        Fields::ModificationOnly => match metadata.modified {
            Ok(modified) => Ok(FileTimes { accessed: None, modified: Some(modified) }),
            Err(failure) => Err(failure),
        },
        Fields::Both => match metadata.accessed {
            Ok(accessed) => match metadata.modified {
                Ok(modified) => Ok(
                    FileTimes { accessed: Some(accessed), modified: Some(modified) },
                ),
                Err(failure) => Err(failure),
            },
            Err(failure) => Err(failure),
        },
    }
}

/// Takes the times for the chosen fields from what was read of a reference
/// file.
pub fn parse_reference(metadata: Metadata, fields: Fields) -> (times: Result<FileTimes, IoFailure>)
    ensures
        times == reference_times(metadata, fields),
{
    match fields {
        Fields::AccessOnly => match metadata.accessed {
            Ok(accessed) => Ok(FileTimes { accessed: Some(accessed), modified: None }),
            Err(failure) => Err(failure),
        },
        Fields::ModificationOnly => match metadata.modified {
            Ok(modified) => Ok(FileTimes { accessed: None, modified: Some(modified) }),
            Err(failure) => Err(failure),
        },
        Fields::Both => match metadata.accessed {
            Ok(accessed) => match metadata.modified {
                Ok(modified) => Ok(
                    FileTimes { accessed: Some(accessed), modified: Some(modified) },
                ),
                Err(failure) => Err(failure),
            },
            Err(failure) => Err(failure),
        },
    }
}

/// What consulting the source of the new times gave.
#[derive(Debug, PartialEq, Eq)]
pub enum Reading {
    /// The clock is the source; nothing else was consulted.
    Clock,
    /// The explicit timestamp, parsed.
    Explicit(Result<Timestamp, TimeError>),
    /// The reference file's times for the chosen fields.
    Reference(Result<FileTimes, IoFailure>),
}

/// The times to give each file.
///
/// A timestamp that was read fills the chosen fields. A reference file's
/// times are taken as they are. Where the clock is the source, or the
/// source could not be read, the chosen fields get the current time.
pub open spec fn target_times_of(fields: Fields, now: Timestamp, reading: Reading) -> FileTimes {
    match reading {
        Reading::Explicit(Ok(instant)) => chosen(fields, instant, instant),
        Reading::Reference(Ok(times)) => times,
        _ => chosen(fields, now, now),
    }
}

/// The diagnostic for a source that could not be read, so that the current
/// time stands in for it; `None` where nothing went wrong.
pub open spec fn fallback_text(reading: Reading) -> Option<Seq<char>> {
    match reading {
        Reading::Explicit(Err(error)) => Some(time_error_text(error)),
        Reading::Reference(Err(failure)) => Some(
            reference_error_text(failure.kind, failure.detail@),
        ),
        _ => None,
    }
}

/// Determines the times to give each file.
pub fn target_times(fields: Fields, now: Timestamp, reading: &Reading) -> (times: FileTimes)
    ensures
        times == target_times_of(fields, now, *reading),
{
    match reading {
        Reading::Explicit(Ok(instant)) => FileTimes::select(fields, *instant, *instant),
        Reading::Reference(Ok(times)) => *times,
        _ => FileTimes::select(fields, now, now),
    }
}

/// The diagnostic to print where the source of the new times could not be
/// read and the current time stands in for it.
pub fn fallback_message(reading: &Reading) -> (message: Option<String>)
    ensures
        match fallback_text(*reading) {
            Some(text) => message matches Some(printed) && printed@ == text,
            None => message is None,
        },
{
    match reading {
        Reading::Explicit(Err(error)) => Some(time_error_message(*error)),
        Reading::Reference(Err(failure)) => Some(reference_error_message(failure)),
        _ => None,
    }
}

/// A reference file whose two times could be read gives exactly those two
/// times where both fields are chosen, and with a single field chosen
/// exactly that one, the other left untouched.
pub proof fn lemma_reference_times_are_copied(
    accessed: Timestamp,
    modified: Timestamp,
    fields: Fields,
    now: Timestamp,
)
    ensures
        ({
            let metadata = Metadata { accessed: Ok(accessed), modified: Ok(modified) };
            let times = target_times_of(
                fields,
                now,
                Reading::Reference(reference_times(metadata, fields)),
            );
            &&& times == chosen(fields, accessed, modified)
            &&& fields == Fields::Both ==> times.accessed == Some(accessed) && times.modified
                == Some(modified)
        }),
{
}

/// An invocation with both an explicit timestamp and a reference file is
/// always rejected, whatever else it holds; one with at most one of them,
/// at most one single-field option and a file is always accepted.
pub proof fn lemma_sources_exclude_each_other(flags: Flags, file_count: nat)
    ensures
        flags.time_given && flags.reference_given ==> validated(flags, file_count) is Err,
        validated(flags, file_count) is Ok <==> !(flags.time_given && flags.reference_given) && !(
        flags.access_only && flags.modification_only) && file_count > 0,
{
}

} // verus!
