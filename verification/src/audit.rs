//! The audit record of an exchange: one line that names the request, who
//! answered it, and the status of the answer.

use crate::text::{decimal, decimal_text, occurs_at};
use vstd::prelude::*;

verus! {

/// The standard reason phrase of the status with number `code`, or `None`
/// where the status has none.
pub uninterp spec fn reason_phrase(code: u16) -> Option<Seq<char>>;

/// Turns `code` into a `hyper::StatusCode` with `StatusCode::try_from` and asks
/// it for `canonical_reason`. Trusted: the phrase is fixed by the number
/// alone. A number that is no status code has no phrase.
#[verifier::external_body]
fn canonical_reason(code: u16) -> (reason: Option<String>)
    ensures
        match reason {
            Some(phrase) => reason_phrase(code) == Some(phrase@),
            None => reason_phrase(code) is None,
        },
{
    match hyper::StatusCode::try_from(code) {
        Ok(status) => status.canonical_reason().map(|phrase| phrase.to_owned()),
        Err(_) => None,
    }
}

/// The audit line: `<request> -> <responder> -> <status code>`, followed by a
/// space and the reason phrase where the status has one.
pub open spec fn audit_text(
    incoming: Seq<char>,
    responder: Seq<char>,
    status: u16,
    reason: Option<Seq<char>>,
) -> Seq<char> {
    incoming + " -> "@ + responder + " -> "@ + decimal(status as nat) + match reason {
        Some(phrase) => " "@ + phrase,
        None => Seq::<char>::empty(),
    }
}

/// Writes the audit line of an exchange whose status has the reason phrase `reason`.
pub fn audit_line(incoming: &str, responder: &str, status: u16, reason: Option<&str>) -> (line:
    String)
    ensures
        line@ == audit_text(
            incoming@,
            responder@,
            status,
            match reason {
                Some(phrase) => Some(phrase@),
                None => None,
            },
        ),
{
    let line = String::from_str(incoming).concat(" -> ").concat(responder).concat(" -> ").concat(
        decimal_text(status).as_str(),
    );
    match reason {
        Some(phrase) => {
            let line = line.concat(" ").concat(phrase);
            assert(line@ =~= audit_text(incoming@, responder@, status, Some(phrase@)));
            line
        },
        None => {
            assert(line@ =~= audit_text(incoming@, responder@, status, None));
            line
        },
    }
}

/// Writes the audit line of an exchange that `responder` answered with `status`.
pub fn log_request_response(incoming: &str, responder: &str, status: u16) -> (line: String)
    ensures
        line@ == audit_text(incoming@, responder@, status, reason_phrase(status)),
{
    match canonical_reason(status) {
        Some(phrase) => audit_line(incoming, responder, status, Some(phrase.as_str())),
        None => audit_line(incoming, responder, status, None),
    }
}

/// An audit line names the responder, right behind the request and the
/// first arrow.
pub proof fn lemma_audit_names_responder(
    incoming: Seq<char>,
    responder: Seq<char>,
    status: u16,
    reason: Option<Seq<char>>,
)
    ensures
        occurs_at(
            audit_text(incoming, responder, status, reason),
            responder,
            (incoming + " -> "@).len() as int,
        ),
{
    let start = (incoming + " -> "@).len() as int;
    assert(audit_text(incoming, responder, status, reason).subrange(
        start,
        start + responder.len(),
    ) =~= responder);
}

} // verus!
