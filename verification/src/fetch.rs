//! From what a connection attempt saw to the outcome of the probe.
//!
//! Resolving, connecting and the TLS handshake happen outside this crate.
//! Their result comes in as a [`Handshake`]; what follows from it, down to
//! reading the end of the leaf certificate's validity, is decided here.

use crate::clock::{utc_date, utc_date_text};
use crate::outcome::{FetchOutcome, OutcomeView};
use vstd::prelude::*;
use vstd::string::StringExecFns;

verus! {

/// `x509_parser::error::X509Error`, what the certificate decoder reports.
/// Nothing is known of a value of it here; it is only carried from the
/// decoder to [`error_text`].
#[verifier::external_type_specification]
#[verifier::external_body]
pub struct ExX509Error(x509_parser::error::X509Error);

/// `nom::Err`, in which the decoder wraps its error. Opaque as well.
#[verifier::external_type_specification]
#[verifier::external_body]
#[verifier::reject_recursive_types(E)]
pub struct ExParserErr<E>(x509_parser::nom::Err<E>);

/// The end of validity, in seconds since the epoch, of the certificate that
/// `der` encodes; `None` where `der` does not decode as a certificate.
pub uninterp spec fn leaf_not_after(der: Seq<u8>) -> Option<int>;

/// Decodes a DER certificate with `x509_parser::parse_x509_certificate` and
/// picks the `not_after` of its validity as a Unix timestamp. The parser
/// reads nothing but `der`, so the outcome is the one that
/// [`leaf_not_after`] names; nothing more is claimed of it. Bytes after the
/// certificate are ignored, as the parser hands them back unread.
#[verifier::external_body]
pub(crate) fn read_not_after(der: &[u8]) -> (read: Result<
    i64,
    x509_parser::nom::Err<x509_parser::error::X509Error>,
>)
    ensures
        leaf_not_after(der@) == match read {
            Ok(at) => Some(at as int),
            Err(_) => None,
        },
{
    let (_, certificate) = x509_parser::parse_x509_certificate(der)?;
    Ok(certificate.validity().not_after.timestamp())
}

/// The message of a decoding error, as its `Display` impl in `nom` writes
/// it. Nothing is claimed of the text.
#[verifier::external_body]
pub(crate) fn error_text(error: &x509_parser::nom::Err<x509_parser::error::X509Error>) -> (text:
    String) {
    format!("{}", error)
}

/// The instant that stands in for an end of validity that has no calendar
/// date: the epoch.
pub const FALLBACK_NOT_AFTER: i64 = 0;

/// What the network side of a probe saw.
#[derive(Clone, Debug, PartialEq, Eq)]
pub enum Handshake {
    /// The name did not resolve or the connection was not made.
    Unreachable { cause: String },
    /// The TLS handshake failed; an untrusted chain ends here too.
    Rejected { cause: String },
    /// The handshake succeeded. `chain` holds the peer's certificates in
    /// DER, leaf first; `None` where the session has none to show.
    Established { chain: Option<Vec<Vec<u8>>> },
}

/// The outcome of a probe that could not connect.
pub open spec fn connect_failure(cause: Seq<char>) -> OutcomeView {
    OutcomeView::Failure { reason: "connect error: "@ + cause }
}

/// The outcome of a probe whose handshake failed.
pub open spec fn handshake_failure(cause: Seq<char>) -> OutcomeView {
    OutcomeView::Failure { reason: "handshake error: "@ + cause }
}

/// The outcome of a probe whose peer showed no certificate.
pub open spec fn no_certificate() -> OutcomeView {
    OutcomeView::Failure { reason: "no certificate found"@ }
}

/// The outcome of a probe whose leaf certificate did not decode.
pub open spec fn parse_failure(detail: Seq<char>) -> OutcomeView {
    OutcomeView::Failure { reason: "certificate parse error: "@ + detail }
}

/// The leaf of a chain: its first certificate, where it has one.
pub open spec fn leaf_of(chain: Option<Vec<Vec<u8>>>) -> Option<Seq<u8>> {
    match chain {
        Some(certs) => if certs.len() > 0 {
            Some(certs[0]@)
        } else {
            None
        },
        None => None,
    }
}

/// The outcome that follows from decoding the leaf: its end of validity, or
/// the decoder's message.
///
/// An end of validity that has no calendar date is a certificate that was
/// read all the same. It is deliberately not turned into a failure: the
/// outcome is a success that expires at [`FALLBACK_NOT_AFTER`], so the host
/// shows up as long expired, at the head of the list, where it is looked at.
pub open spec fn leaf_outcome(read: Result<int, Seq<char>>, has_date: bool) -> OutcomeView {
    match read {
        Ok(not_after) => OutcomeView::Success {
            not_after: if has_date {
                not_after
            } else {
                FALLBACK_NOT_AFTER as int
            },
        },
        Err(detail) => parse_failure(detail),
    }
}

/// Whether `out` is the outcome of a probe that saw `seen`.
pub open spec fn fetched(seen: Handshake, out: OutcomeView) -> bool {
    match seen {
        Handshake::Unreachable { cause } => out == connect_failure(cause@),
        Handshake::Rejected { cause } => out == handshake_failure(cause@),
        Handshake::Established { chain } => match leaf_of(chain) {
            None => out == no_certificate(),
            Some(der) => match leaf_not_after(der) {
                Some(not_after) => out == leaf_outcome(
                    Ok(not_after),
                    utc_date_text(not_after) is Some,
                ),
                None => exists|detail: Seq<char>| out == parse_failure(detail),
            },
        },
    }
}

/// Builds the outcome of a probe whose leaf certificate was handed to the
/// decoder: `read` is what came back, with the error already as text, and
/// `has_date` says whether the instant read has a calendar date. It is read
/// only where `read` is `Ok`.
pub fn outcome_of_leaf(read: Result<i64, String>, has_date: bool) -> (out: FetchOutcome)
    ensures
        out@ == leaf_outcome(
            match read {
                Ok(at) => Ok(at as int),
                Err(detail) => Err(detail@),
            },
            has_date,
        ),
{
    match read {
        Ok(at) => FetchOutcome::Success {
            not_after: if has_date {
                at
            } else {
                FALLBACK_NOT_AFTER
            },
        },
        Err(detail) => FetchOutcome::Failure {
            reason: String::from_str("certificate parse error: ").concat(detail.as_str()),
        },
    }
}

/// Builds the outcome of a probe from what its connection attempt saw.
pub fn fetch_outcome(seen: &Handshake) -> (out: FetchOutcome)
    ensures
        fetched(*seen, out@),
{
    match seen {
        Handshake::Unreachable { cause } => FetchOutcome::Failure {
            reason: String::from_str("connect error: ").concat(cause.as_str()),
        },
        Handshake::Rejected { cause } => FetchOutcome::Failure {
            reason: String::from_str("handshake error: ").concat(cause.as_str()),
        },
        Handshake::Established { chain } => {
            match chain {
                Some(certs) => {
                    if certs.len() == 0 {
                        FetchOutcome::Failure { reason: String::from_str("no certificate found") }
                    } else {
                        match read_not_after(certs[0].as_slice()) {
                            Ok(at) => outcome_of_leaf(Ok(at), utc_date(at).is_some()),
                            Err(error) => outcome_of_leaf(Err(error_text(&error)), false),
                        }
                    }
                },
                None => FetchOutcome::Failure { reason: String::from_str("no certificate found") },
            }
        },
    }
}

} // verus!
