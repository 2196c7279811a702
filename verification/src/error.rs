use vstd::prelude::*;

verus! {

/// `cron::error::Error`, the `cron` crate's parse error, carried through
/// unopened.
#[verifier::external_type_specification]
#[verifier::external_body]
pub struct ExCronExpressionError(cron::error::Error);

/// Errors that the scheduler reports.
#[derive(Debug)]
pub enum CronError {
    /// The cron expression was rejected by the parser.
    ParseError(cron::error::Error),
    /// A delay does not fit into the range of durations and instants that
    /// the scheduler can represent.
    DurationOutOfRange,
    /// An unexpected condition, such as running out of job identifiers.
    Unknown,
}

/// The text that the `cron` crate's `Display` implementation writes for the
/// parse error `error`: the message that the error carries. It depends on
/// the error alone.
pub uninterp spec fn cron_error_text(error: cron::error::Error) -> Seq<char>;

/// `cron::error::Error`'s `Display`: the error's message, as
/// `cron_error_text` names it.
#[verifier::external_body]
fn expression_error_text(error: &cron::error::Error) -> (text: String)
    ensures
        text@ == cron_error_text(*error),
{
    format!("{}", error)
}

impl CronError {
    /// A human-readable description of the error.
    pub fn to_string(&self) -> (text: String)
        ensures
            self matches CronError::ParseError(e) ==> text@ == "Invalid cron expression: "@ + cron_error_text(*e),
            self is DurationOutOfRange ==> text@ == "Duration out of range"@,
            self is Unknown ==> text@ == "Unknown error"@,
    {
        match self {
            CronError::ParseError(e) => {
                let detail = expression_error_text(e);
                let text = String::from_str("Invalid cron expression: ");
                let result = text.concat(detail.as_str());
                result
            },
            CronError::DurationOutOfRange => String::from_str("Duration out of range"),
            CronError::Unknown => String::from_str("Unknown error"),
        }
    }
}

impl From<cron::error::Error> for CronError {
    fn from(error: cron::error::Error) -> (res: CronError) {
        CronError::ParseError(error)
    }
}

impl vstd::std_specs::convert::FromSpecImpl<cron::error::Error> for CronError {
    open spec fn obeys_from_spec() -> bool {
        true
    }

    open spec fn from_spec(error: cron::error::Error) -> CronError {
        CronError::ParseError(error)
    }
}

} // verus!
