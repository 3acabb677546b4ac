//! The tokens that name sessions: sixteen bytes from the system's random
//! source, written in hexadecimal.

use crate::api_error::{ApiError, ApiResult};
use vstd::prelude::*;

verus! {

/// `rand::Error`: why the random source gave nothing.
#[verifier::external_type_specification]
#[verifier::external_body]
pub struct ExRandError(rand::Error);

/// The number of random bytes in a token.
pub const TOKEN_BYTES: usize = 16;

/// The lower-case hexadecimal digit for a number below sixteen.
pub open spec fn hex_digit(n: int) -> char {
    if n == 0 {
        '0'
    } else if n == 1 {
        '1'
    } else if n == 2 {
        '2'
    } else if n == 3 {
        '3'
    } else if n == 4 {
        '4'
    } else if n == 5 {
        '5'
    } else if n == 6 {
        '6'
    } else if n == 7 {
        '7'
    } else if n == 8 {
        '8'
    } else if n == 9 {
        '9'
    } else if n == 10 {
        'a'
    } else if n == 11 {
        'b'
    } else if n == 12 {
        'c'
    } else if n == 13 {
        'd'
    } else if n == 14 {
        'e'
    } else {
        'f'
    }
}

/// The bytes in hexadecimal: two digits for each byte, the high one first.
pub open spec fn hex_text(bytes: Seq<u8>) -> Seq<char> {
    Seq::new(
        2 * bytes.len(),
        |i: int|
            if i % 2 == 0 {
                hex_digit(bytes[i / 2] as int / 16)
            } else {
                hex_digit(bytes[i / 2] as int % 16)
            },
    )
}

/// `OsRng::try_fill_bytes`, on `n` bytes: the bytes are the system's
/// choice, so that their number is all that is known of them.
#[verifier::external_body]
fn random_bytes(n: usize) -> (r: Result<Vec<u8>, rand::Error>)
    ensures
        r is Ok ==> r->Ok_0@.len() == n,
{
    let mut bytes = vec![0u8; n];
    rand::RngCore::try_fill_bytes(&mut rand::rngs::OsRng, &mut bytes).map(|_| bytes)
}

/// `hex::encode`: each byte as two lower-case hexadecimal digits.
#[verifier::external_body]
fn encode_hex(bytes: &Vec<u8>) -> (r: String)
    ensures
        r@ == hex_text(bytes@),
{
    hex::encode(bytes)
}

impl From<rand::Error> for ApiError {
    fn from(error: rand::Error) -> (r: ApiError) {
        ApiError::OsRng
    }
}

impl vstd::std_specs::convert::FromSpecImpl<rand::Error> for ApiError {
    open spec fn obeys_from_spec() -> bool {
        true
    }

    open spec fn from_spec(error: rand::Error) -> ApiError {
        ApiError::OsRng
    }
}

/// The token that the bytes make.
pub fn token_of(bytes: &Vec<u8>) -> (r: String)
    ensures
        r@ == hex_text(bytes@),
{
    encode_hex(bytes)
}

/// A token that has not been handed out: thirty-two hexadecimal digits
/// for sixteen random bytes; `OsRng` where the system gave no bytes.
pub fn fresh_token() -> (r: ApiResult<String>)
    ensures
        match r {
            Ok(token) => exists|bytes: Seq<u8>|
                bytes.len() == TOKEN_BYTES && token@ == #[trigger] hex_text(bytes),
            Err(e) => e == ApiError::OsRng,
        },
{
    match random_bytes(TOKEN_BYTES) {
        Ok(bytes) => Ok(token_of(&bytes)),
        Err(error) => Err(ApiError::from(error)),
    }
}

} // verus!
