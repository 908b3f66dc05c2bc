use vstd::prelude::*;

use crate::text::{is_blank, spec_is_blank};

verus! {

/// What one attempt at the external spell-correction service came to. The
/// call itself — credential lookup, request, response parsing — happens
/// outside; only its outcome reaches this policy.
pub enum CorrectionOutcome {
    /// The service answered with a corrected text.
    Corrected(String),
    /// No credential was configured; no request was attempted.
    MissingCredential,
    /// The service could not be reached.
    Unreachable,
    /// The service answered with a non-success status.
    ServiceError,
    /// The service's answer could not be read.
    Unparsable,
}

/// Should a correction be attempted at all? Empty or whitespace-only text is
/// returned unchanged without any service interaction.
pub fn correction_applies(text: &str) -> (r: bool)
    ensures
        r == !spec_is_blank(text@),
{
    !is_blank(text)
}

/// The gateway's failure contract: a correction replaces the text only when
/// the service answered; every failure falls back to the original text, and
/// no failure ever reaches the surrounding workflow.
pub fn resolve_correction(original: String, outcome: CorrectionOutcome) -> (r: String)
    ensures
        match outcome {
            CorrectionOutcome::Corrected(c) => r@ == c@,
            CorrectionOutcome::MissingCredential => r@ == original@,
            CorrectionOutcome::Unreachable => r@ == original@,
            CorrectionOutcome::ServiceError => r@ == original@,
            CorrectionOutcome::Unparsable => r@ == original@,
        },
{
    match outcome {
        CorrectionOutcome::Corrected(c) => c,
        CorrectionOutcome::MissingCredential => original,
        CorrectionOutcome::Unreachable => original,
        CorrectionOutcome::ServiceError => original,
        CorrectionOutcome::Unparsable => original,
    }
}

} // verus!
