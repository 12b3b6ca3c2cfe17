//! Why a script is stopped, and what it is told.

use vstd::prelude::*;
use vstd::string::*;

use crate::text::push_decimal;

verus! {

/// Why the host refused something that a script asked for, or ended the script.
#[derive(Debug)]
pub enum ScriptError {
    CallBudget { max_calls: usize },
    Deadline,
    JobDeadline,
    JobBudget { max_jobs: usize },
    UnsupportedJob,
    CheckpointTooLarge { max_bytes: usize },
    CheckpointInvalid { detail: String },
    CheckpointRefused { reason: String },
    FetchUnavailable,
    FetchWithoutCursor,
    Hung,
    Rejected { reason: String },
    DriveBudget,
    NoJsonObject,
    NoStringify,
    NotEncodable { detail: String },
}

impl ScriptError {
    /// What the script is told.
    pub open spec fn text(self) -> Seq<char> {
        match self {
            ScriptError::CallBudget { max_calls } => "toolport.call budget exceeded ("@
                + crate::text::decimal(max_calls as nat) + " calls)"@,
            ScriptError::Deadline => "toolport script wall-clock deadline exceeded"@,
            ScriptError::JobDeadline => {
                "toolport script wall-clock deadline exceeded during promise jobs"@
            },
            ScriptError::JobBudget { max_jobs } => "toolport script promise-job budget exceeded ("@
                + crate::text::decimal(max_jobs as nat) + " jobs)"@,
            ScriptError::UnsupportedJob => {
                "toolport script used unsupported async/timer jobs inside code mode"@
            },
            ScriptError::CheckpointTooLarge { max_bytes } => "toolport.checkpoint value exceeds "@
                + crate::text::decimal(max_bytes as nat)
                + " bytes for the active result budget"@,
            ScriptError::CheckpointInvalid { detail } => {
                "toolport.checkpoint received invalid JSON: "@ + detail@
            },
            ScriptError::CheckpointRefused { reason } => reason@,
            ScriptError::FetchUnavailable => "toolport.fetchResult is unavailable in this context"@,
            ScriptError::FetchWithoutCursor => "toolport.fetchResult requires a non-empty cursor"@,
            ScriptError::Hung => {
                "toolport script hung on an unresolved Promise (no pending tool calls)"@
            },
            ScriptError::Rejected { reason } => "Uncaught "@ + reason@,
            ScriptError::DriveBudget => "toolport script exceeded internal async drive budget"@,
            ScriptError::NoJsonObject => "JSON is not an object"@,
            ScriptError::NoStringify => "JSON.stringify is not callable"@,
            ScriptError::NotEncodable { detail } => {
                "script return value could not be encoded as JSON: "@ + detail@
            },
        }
    }

    /// What the script is told.
    pub fn message(&self) -> (message: String)
        ensures
            message@ == self.text(),
    {
        match self {
            ScriptError::CallBudget { max_calls } => numbered(
                "toolport.call budget exceeded (",
                *max_calls,
                " calls)",
            ),
            ScriptError::Deadline => "toolport script wall-clock deadline exceeded".to_owned(),
            ScriptError::JobDeadline => {
                "toolport script wall-clock deadline exceeded during promise jobs".to_owned()
            },
            ScriptError::JobBudget { max_jobs } => numbered(
                "toolport script promise-job budget exceeded (",
                *max_jobs,
                " jobs)",
            ),
            ScriptError::UnsupportedJob => {
                "toolport script used unsupported async/timer jobs inside code mode".to_owned()
            },
            ScriptError::CheckpointTooLarge { max_bytes } => numbered(
                "toolport.checkpoint value exceeds ",
                *max_bytes,
                " bytes for the active result budget",
            ),
            ScriptError::CheckpointInvalid { detail } => {
                "toolport.checkpoint received invalid JSON: ".to_owned().concat(detail.as_str())
            },
            ScriptError::CheckpointRefused { reason } => reason.clone(),
            ScriptError::FetchUnavailable => {
                "toolport.fetchResult is unavailable in this context".to_owned()
            },
            ScriptError::FetchWithoutCursor => {
                "toolport.fetchResult requires a non-empty cursor".to_owned()
            },
            ScriptError::Hung => {
                "toolport script hung on an unresolved Promise (no pending tool calls)".to_owned()
            },
            ScriptError::Rejected { reason } => "Uncaught ".to_owned().concat(reason.as_str()),
            ScriptError::DriveBudget => {
                "toolport script exceeded internal async drive budget".to_owned()
            },
            ScriptError::NoJsonObject => "JSON is not an object".to_owned(),
            ScriptError::NoStringify => "JSON.stringify is not callable".to_owned(),
            ScriptError::NotEncodable { detail } => {
                "script return value could not be encoded as JSON: ".to_owned().concat(
                    detail.as_str(),
                )
            },
        }
    }

    /// Whether the script sees a `TypeError` rather than an `Error`.
    pub fn is_type_error(&self) -> (yes: bool)
        ensures
            yes == (self is NoJsonObject || self is NoStringify || self is NotEncodable),
    {
        match self {
            ScriptError::NoJsonObject | ScriptError::NoStringify => true,
            ScriptError::NotEncodable { .. } => true,
            _ => false,
        }
    }
}

/// A number between two texts.
pub(crate) fn numbered(before: &str, n: usize, after: &str) -> (text: String)
    ensures
        text@ == before@ + crate::text::decimal(n as nat) + after@,
{
    let mut text = before.to_owned();
    push_decimal(&mut text, n);
    text.append(after);
    text
}

/// What a script is told keeps its detail whole: the reason of a rejection or a refusal, what was
/// wrong with a value, and the limit that was exceeded, in decimal.
pub proof fn law_errors_keep_their_detail(detail: String, limit: usize)
    ensures
        (ScriptError::Rejected { reason: detail }).text() == "Uncaught "@ + detail@,
        (ScriptError::CheckpointRefused { reason: detail }).text() == detail@,
        (ScriptError::CheckpointInvalid { detail }).text()
            == "toolport.checkpoint received invalid JSON: "@ + detail@,
        (ScriptError::NotEncodable { detail }).text()
            == "script return value could not be encoded as JSON: "@ + detail@,
        exists|digits: Seq<char>|
            {
                &&& (#[trigger] crate::text::value_of(digits)) == limit
                &&& (ScriptError::CallBudget { max_calls: limit }).text()
                    == "toolport.call budget exceeded ("@ + digits + " calls)"@
                &&& (ScriptError::JobBudget { max_jobs: limit }).text()
                    == "toolport script promise-job budget exceeded ("@ + digits + " jobs)"@
                &&& (ScriptError::CheckpointTooLarge { max_bytes: limit }).text()
                    == "toolport.checkpoint value exceeds "@ + digits
                    + " bytes for the active result budget"@
            },
{
    crate::text::law_decimal_reads_back(limit as nat);
    let digits = crate::text::decimal(limit as nat);
    assert(crate::text::value_of(digits) == limit);
}

} // verus!
