//! Subject-line validation: the inline gate that blocks the confirm
//! transition out of the subject step.

use vstd::prelude::*;
use vstd::string::{StrSliceExecFns, StringExecFns};
use crate::config::{Config, ConfigView};
use crate::text;
use crate::text::{dec_view, trim_view, upper_of};

verus! {

/// Why a subject line was rejected.
#[derive(Debug, Clone, Copy, PartialEq, Eq, Structural)]
pub enum FailureReason {
    /// The trimmed subject is empty.
    EmptySubject,
    /// The subject has more than `max` characters; it has `actual`.
    TooLong { max: usize, actual: usize },
    /// The trailing-period rule is on and the subject ends with `.`.
    TrailingPeriod,
    /// The lowercase rule is on and the subject starts with an uppercase
    /// character.
    NotLowercaseStart,
}

/// The verdict on subject `s` under the rules in `c`: the checks run in a
/// fixed order and the first failing one is reported.
pub open spec fn validate_view(s: Seq<char>, c: ConfigView) -> Option<FailureReason> {
    if trim_view(s).len() == 0 {
        Some(FailureReason::EmptySubject)
    } else if s.len() > c.subject_max_length {
        Some(
            FailureReason::TooLong {
                max: c.subject_max_length,
                actual: s.len() as usize,
            },
        )
    } else if c.subject_no_ending_period && s.len() > 0 && s.last() == '.' {
        Some(FailureReason::TrailingPeriod)
    } else if c.subject_start_lowercase && s.len() > 0 && upper_of(s[0]) {
        Some(FailureReason::NotLowercaseStart)
    } else {
        None
    }
}

/// Checks `subject` against the configured rules; reports the first rule
/// it breaks, in the order: empty, too long, trailing period, uppercase
/// start.
pub fn validate_subject(subject: &str, config: &Config) -> (r: Option<FailureReason>)
    ensures
        r == validate_view(subject@, config@),
{
    let n = subject.unicode_len();
    let trimmed = text::trim_str(subject);
    if trimmed.as_str().is_empty() {
        Some(FailureReason::EmptySubject)
    } else if n > config.subject_max_length {
        Some(
            FailureReason::TooLong {
                max: config.subject_max_length,
                actual: n,
            },
        )
    } else if config.subject_no_ending_period && n > 0 && subject.get_char(n - 1) == '.' {
        Some(FailureReason::TrailingPeriod)
    } else if config.subject_start_lowercase && n > 0 && text::char_is_uppercase(
        subject.get_char(0),
    ) {
        Some(FailureReason::NotLowercaseStart)
    } else {
        None
    }
}

/// The text shown for a failure reason.
pub open spec fn message_view(f: FailureReason) -> Seq<char> {
    match f {
        FailureReason::EmptySubject => "Subject must not be empty."@,
        FailureReason::TooLong { max, actual } => "Subject should be "@ + dec_view(max as nat)
            + " characters or less (currently "@ + dec_view(actual as nat) + ")."@,
        FailureReason::TrailingPeriod => "Subject should not end with a period."@,
        FailureReason::NotLowercaseStart => "Subject should start with a lowercase letter."@,
    }
}

impl FailureReason {
    /// The message shown inline under the subject field.
    pub fn message(&self) -> (r: String)
        ensures
            r@ == message_view(*self),
    {
        match self {
            FailureReason::EmptySubject => String::from_str("Subject must not be empty."),
            FailureReason::TooLong { max, actual } => {
                let mut r = String::from_str("Subject should be ");
                r.append(text::usize_to_string(*max).as_str());
                r.append(" characters or less (currently ");
                r.append(text::usize_to_string(*actual).as_str());
                r.append(").");
                r
            },
            FailureReason::TrailingPeriod => String::from_str(
                "Subject should not end with a period.",
            ),
            FailureReason::NotLowercaseStart => String::from_str(
                "Subject should start with a lowercase letter.",
            ),
        }
    }
}

/// Checking the empty subject never depends on the configured rules:
/// whatever they are, the verdict is the empty-subject failure.
pub proof fn lemma_empty_subject_rejected(c: ConfigView)
    ensures
        validate_view(Seq::<char>::empty(), c) == Some(FailureReason::EmptySubject),
{
    assert(trim_view(Seq::<char>::empty()).len() == 0);
}

} // verus!
