//! Random bytes from the operating system.

use vstd::prelude::*;
use vstd::string::*;

use crate::error::{internal, CryptoError, CryptoErrorKind, CryptoErrorView};

verus! {

/// The error of `getrandom::fill`.
#[verifier::external_type_specification]
#[verifier::external_body]
pub struct ExRandomError(getrandom::Error);

/// `getrandom::fill` on `N` bytes. The bytes and the outcome are the operating system's:
/// nothing is claimed of them.
#[verifier::external_body]
pub(crate) fn fill_random<const N: usize>() -> (outcome: Result<[u8; N], getrandom::Error>) {
    let mut bytes = [0_u8; N];
    getrandom::fill(&mut bytes).map(|()| bytes)
}

/// Whether the operating system can give these bytes, or this error, when it is asked for `N`
/// random bytes.
pub closed spec fn can_be_drawn<const N: usize>(drawn: Result<[u8; N], getrandom::Error>) -> bool {
    call_ensures(fill_random::<N>, (), drawn)
}

/// Whether the operating system can give these bytes when it is asked for `N` random bytes.
pub open spec fn is_drawn<const N: usize>(bytes: [u8; N]) -> bool {
    can_be_drawn(Ok::<[u8; N], getrandom::Error>(bytes))
}

/// Whether a sequence of `N` bytes is one that the operating system can give.
pub open spec fn are_drawn<const N: usize>(bytes: Seq<u8>) -> bool {
    exists|array: [u8; N]| #[trigger] is_drawn(array) && array@ == bytes
}

/// Whether a text is how an error of `getrandom::fill` is displayed.
pub open spec fn is_report(reason: getrandom::Error, text: Seq<char>) -> bool {
    exists|report: String|
        #[trigger] to_string_from_display_ensures(&reason, report) && report@ == text
}

/// Whether the operating system can give no `N` random bytes, with this report.
pub open spec fn is_shortage<const N: usize>(text: Seq<char>) -> bool {
    exists|reason: getrandom::Error|
        can_be_drawn(Err::<[u8; N], getrandom::Error>(reason)) && #[trigger] is_report(reason, text)
}

/// Whether an error is the one for `N` random bytes that the operating system did not give.
pub open spec fn is_draw_failure<const N: usize>(error: CryptoErrorView) -> bool {
    error.kind == CryptoErrorKind::Internal && is_shortage::<N>(error.message)
}

/// The random bytes that were drawn, or the internal error with the report of why there are none.
pub fn drawn_bytes<const N: usize>(drawn: Result<[u8; N], String>) -> (outcome: Result<
    [u8; N],
    CryptoError,
>)
    ensures
        match drawn {
            Ok(bytes) => outcome == Ok::<[u8; N], CryptoError>(bytes),
            Err(report) => outcome matches Err(error) && error@ == internal(report@),
        },
{
    match drawn {
        Ok(bytes) => Ok(bytes),
        Err(report) => Err(CryptoError::new(report.as_str())),
    }
}

/// `N` random bytes as the operating system gave them, or the internal error with its report,
/// where it gave none.
pub fn random_bytes<const N: usize>() -> (outcome: Result<[u8; N], CryptoError>)
    ensures
        match outcome {
            Ok(bytes) => is_drawn(bytes),
            Err(error) => is_draw_failure::<N>(error@),
        },
{
    let drawn = fill_random::<N>();
    assert(can_be_drawn(drawn));
    match drawn {
        Ok(bytes) => drawn_bytes::<N>(Ok(bytes)),
        Err(error) => {
            let report = error.to_string();
            assert(is_report(error, report@));
            drawn_bytes::<N>(Err(report))
        },
    }
}

} // verus!
