//! Reading numbers out of the headers of a response.

use crate::decimal::{decimal_value, is_digit, parse_decimal};
use crate::error::{RateLimitHeader, TransferError};
use vstd::prelude::*;
use vstd::string::StringSliceAdditionalSpecFns;

verus! {

/// `reqwest::header::HeaderMap`, the headers of a response. Nothing inside it
/// is visible here; `header_fields` names what it holds.
#[verifier::external_type_specification]
#[verifier::external_body]
#[verifier::reject_recursive_types(T)]
pub struct ExHeaderMap<T>(reqwest::header::HeaderMap<T>);

/// `reqwest::header::HeaderValue`, the value of one header.
/// `header_value_bytes` names its bytes.
#[verifier::external_type_specification]
#[verifier::external_body]
pub struct ExHeaderValue(reqwest::header::HeaderValue);

/// `reqwest::header::ToStrError`, which says that a header value is no
/// visible ASCII text. It carries nothing.
#[verifier::external_type_specification]
#[verifier::external_body]
pub struct ExToStrError(reqwest::header::ToStrError);

/// What a header map holds: each header name in it, in lower case, with the
/// bytes of the first value stored under that name.
pub uninterp spec fn header_fields(
    headers: reqwest::header::HeaderMap<reqwest::header::HeaderValue>,
) -> Map<Seq<char>, Seq<u8>>;

/// The bytes of a header value.
pub uninterp spec fn header_value_bytes(value: reqwest::header::HeaderValue) -> Seq<u8>;

/// `c` with an upper-case ASCII letter turned into its lower-case form.
pub open spec fn lower_char(c: char) -> char {
    if 'A' <= c <= 'Z' {
        ((c as u8) + 0x20) as char
    } else {
        c
    }
}

/// `s` with every upper-case ASCII letter turned into its lower-case form.
pub open spec fn ascii_lower(s: Seq<char>) -> Seq<char> {
    s.map_values(|c: char| lower_char(c))
}

/// Whether every byte of `s` is a tab or a printable ASCII character.
pub open spec fn is_visible_ascii(s: Seq<u8>) -> bool {
    forall|i: int| 0 <= i < s.len() ==> (32 <= #[trigger] s[i] < 127 || s[i] == 9)
}

/// `HeaderMap::get` with a name given as text. Names are matched without
/// regard to the case of ASCII letters. The result is the first value stored
/// under the name, or `None` where the map holds no such name; a text that is
/// no header name at all is held by no map.
#[verifier::external_body]
fn first_value<'a>(
    headers: &'a reqwest::header::HeaderMap<reqwest::header::HeaderValue>,
    name: &str,
) -> (r: Option<&'a reqwest::header::HeaderValue>)
    ensures
        r is Some <==> header_fields(*headers).contains_key(ascii_lower(name@)),
        r matches Some(v) ==> header_value_bytes(*v) == header_fields(*headers)[ascii_lower(
            name@,
        )],
{
    headers.get(name)
}

/// `HeaderValue::to_str`: the value as text. It succeeds exactly when every
/// byte of the value is a tab or a printable ASCII character, and the text
/// then consists of the value's bytes.
#[verifier::external_body]
fn value_text<'a>(value: &'a reqwest::header::HeaderValue) -> (r: Result<
    &'a str,
    reqwest::header::ToStrError,
>)
    ensures
        r is Ok <==> is_visible_ascii(header_value_bytes(*value)),
        r matches Ok(s) ==> s.spec_bytes() == header_value_bytes(*value),
{
    value.to_str()
}

/// The number that the fields `fields` give for `header`: an error names the
/// header when it is absent, or when its first value is not unsigned decimal
/// text that fits in 64 bits.
pub open spec fn field_value(fields: Map<Seq<char>, Seq<u8>>, header: RateLimitHeader) -> Result<
    u64,
    TransferError,
> {
    let key = ascii_lower(header.text());
    if !fields.contains_key(key) {
        Err(TransferError::RateLimitHeaderMissing { header })
    } else {
        match decimal_value(fields[key]) {
            Some(n) => Ok(n),
            None => Err(TransferError::RateLimitHeaderUnparseable { header }),
        }
    }
}

/// Unsigned decimal text consists of visible characters only.
pub proof fn lemma_decimal_is_visible(s: Seq<u8>)
    requires
        decimal_value(s) is Some,
    ensures
        is_visible_ascii(s),
{
    assert forall|i: int| 0 <= i < s.len() implies (32 <= #[trigger] s[i] < 127 || s[i] == 9) by {
        if s[0] == 0x2b {
            if i > 0 {
                assert(is_digit(s.skip(1)[i - 1]));
            }
        } else {
            assert(is_digit(s[i]));
        }
    }
}

/// Reads the number that a response's headers give for `header`.
pub fn header_u64(
    headers: &reqwest::header::HeaderMap<reqwest::header::HeaderValue>,
    header: RateLimitHeader,
) -> (r: Result<u64, TransferError>)
    ensures
        r == field_value(header_fields(*headers), header),
{
    let value = match first_value(headers, header.name()) {
        Some(v) => v,
        None => {
            return Err(TransferError::RateLimitHeaderMissing { header });
        },
    };
    let text = match value_text(value) {
        Ok(s) => s,
        Err(_) => {
            proof {
                if decimal_value(header_value_bytes(*value)) is Some {
                    lemma_decimal_is_visible(header_value_bytes(*value));
                }
            }
            return Err(TransferError::RateLimitHeaderUnparseable { header });
        },
    };
    match parse_decimal(text.as_bytes()) {
        Some(n) => Ok(n),
        None => Err(TransferError::RateLimitHeaderUnparseable { header }),
    }
}

} // verus!
