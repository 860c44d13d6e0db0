//! Error classifier: maps the outcome of one completed HTTP exchange (a
//! received status code, or a transport-level failure) to a transience
//! classification. Classification looks at the status code or the transport
//! failure alone, never at a response body, so it is a pure function of the
//! outcome value.

use vstd::prelude::*;

verus! {

/// The outcome of one physical request attempt, as the transport reports it:
/// either a complete HTTP response (with its status code) or a failure to
/// carry the exchange out at all (connection refused, DNS failure, timeout).
#[derive(Clone, Copy, Debug, PartialEq, Eq, Structural)]
pub enum AttemptOutcome {
    Response { status: u16 },
    TransportFailure,
}

/// Whether a failed exchange is worth retrying (`Transient`) or retrying is
/// futile (`Permanent`).
#[derive(Clone, Copy, Debug, PartialEq, Eq, Structural)]
pub enum Classification {
    Transient,
    Permanent,
}

/// An attempt as the retry state machine sees it: delivered successfully, or
/// failed with one of the two classifications.
#[derive(Clone, Copy, Debug, PartialEq, Eq, Structural)]
pub enum AttemptClass {
    Success,
    Transient,
    Permanent,
}

/// Status codes that indicate a transient condition: rate limiting and every
/// server-side error.
pub open spec fn spec_status_transient(status: u16) -> bool {
    status == 429 || (500 <= status && status <= 599)
}

/// Status codes reported as errors: the client-error and server-error ranges.
pub open spec fn spec_status_error(status: u16) -> bool {
    400 <= status && status <= 599
}

/// Classification of a failed exchange: transport failures and transient
/// status codes allow a retry, everything else is final.
pub open spec fn spec_classify_failure(o: AttemptOutcome) -> Classification {
    match o {
        AttemptOutcome::TransportFailure => Classification::Transient,
        AttemptOutcome::Response { status } => if spec_status_transient(status) {
            Classification::Transient
        } else {
            Classification::Permanent
        },
    }
}

/// How the retry state machine reads an attempt outcome: a response whose
/// status is outside the error ranges is a success, everything else carries
/// its failure classification.
pub open spec fn spec_assess(o: AttemptOutcome) -> AttemptClass {
    match o {
        AttemptOutcome::Response { status } => if !spec_status_error(status) {
            AttemptClass::Success
        } else if spec_status_transient(status) {
            AttemptClass::Transient
        } else {
            AttemptClass::Permanent
        },
        AttemptOutcome::TransportFailure => AttemptClass::Transient,
    }
}

/// Classifies a failed exchange. Transport failures, status 429 and all
/// status codes 500 through 599 are transient; every other status is
/// permanent.
pub fn classify_failure(outcome: &AttemptOutcome) -> (c: Classification)
    ensures
        c == spec_classify_failure(*outcome),
{
    match outcome {
        AttemptOutcome::TransportFailure => Classification::Transient,
        AttemptOutcome::Response { status } => {
            let s = *status;
            if s == 429 || (500 <= s && s <= 599) {
                Classification::Transient
            } else {
                Classification::Permanent
            }
        },
    }
}

/// Assesses an attempt outcome for the retry state machine: success for a
/// response outside the error ranges, otherwise the failure classification.
pub fn assess_attempt(outcome: &AttemptOutcome) -> (c: AttemptClass)
    ensures
        c == spec_assess(*outcome),
{
    match outcome {
        AttemptOutcome::TransportFailure => AttemptClass::Transient,
        AttemptOutcome::Response { status } => {
            let s = *status;
            if !(400 <= s && s <= 599) {
                AttemptClass::Success
            } else if s == 429 || 500 <= s {
                AttemptClass::Transient
            } else {
                AttemptClass::Permanent
            }
        },
    }
}

/// Law: classification is total and deterministic over every failure input.
/// For every status code in the error ranges and for a transport failure, the
/// classifier yields exactly one of the two classifications, and it yields
/// `Transient` exactly for transport failures, status 429 and the server
/// error range.
pub proof fn lemma_classifier_total(o: AttemptOutcome)
    ensures
        spec_classify_failure(o) == Classification::Transient || spec_classify_failure(o)
            == Classification::Permanent,
        !(spec_classify_failure(o) == Classification::Transient && spec_classify_failure(o)
            == Classification::Permanent),
        spec_classify_failure(o) == Classification::Transient <==> (o
            == AttemptOutcome::TransportFailure || (o matches AttemptOutcome::Response { status }
            && spec_status_transient(status))),
{
}

} // verus!
