//! Status codes: the valid range, their decimal spelling, and the canonical
//! reason phrase looked up through the `http` crate.

use vstd::prelude::*;
use vstd::string::StringSliceAdditionalSpecFns;

verus! {

/// Whether a number is a status code: three decimal digits.
pub open spec fn valid_status(code: u16) -> bool {
    100 <= code <= 999
}

/// The three ASCII digits of a status code.
pub open spec fn status_digits(code: u16) -> Seq<u8>
    recommends
        valid_status(code),
{
    seq![
        (48 + code / 100) as u8,
        (48 + (code / 10) % 10) as u8,
        (48 + code % 10) as u8,
    ]
}

/// The canonical reason phrase of a status code, as the `http` crate's
/// table has it: a pure function of the code, `None` for codes the table
/// does not list.
pub uninterp spec fn reason_phrase_of(code: u16) -> Option<Seq<u8>>;

/// The canonical reason phrase a response carries for a code: the table's
/// phrase, or nothing for an unlisted code.
pub open spec fn reason_or_empty(code: u16) -> Seq<u8> {
    match reason_phrase_of(code) {
        Some(r) => r,
        None => Seq::empty(),
    }
}

/// Relies on http::StatusCode::canonical_reason: the phrase is a table
/// lookup on the numeric code alone. http::StatusCode::from_u16 returns Ok
/// for every code in 100..=999.
#[verifier::external_body]
pub fn canonical_reason(code: u16) -> (r: Option<&'static str>)
    requires
        valid_status(code),
    ensures
        match r {
            Some(phrase) => reason_phrase_of(code) == Some(phrase.spec_bytes()),
            None => reason_phrase_of(code) is None,
        },
{
    match http::StatusCode::from_u16(code) {
        Ok(status) => status.canonical_reason(),
        Err(_) => None,
    }
}

/// Appends the three ASCII digits of a status code.
pub fn push_status_digits(out: &mut Vec<u8>, code: u16)
    requires
        valid_status(code),
    ensures
        final(out)@ == old(out)@ + status_digits(code),
{
    let d0 = 48 + (code / 100) as u8;
    let d1 = 48 + ((code / 10) % 10) as u8;
    let d2 = 48 + (code % 10) as u8;
    out.push(d0);
    out.push(d1);
    out.push(d2);
    proof {
        assert(out@ =~= old(out)@ + status_digits(code));
    }
}

} // verus!
