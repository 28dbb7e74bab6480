//! The variable-length decoders: length-prefixed bytes, length-prefixed
//! UTF-8 strings, counted sequences, and the check of a discriminant byte.

use crate::data::span::{decodes, spec_read_u32, spec_read_u8, spec_take, Span};
use crate::errors::ParseError;
use vstd::prelude::*;
use vstd::slice::slice_to_vec;
use vstd::utf8::{decode_utf8, encode_utf8, encode_utf8_decode_utf8, valid_utf8};

verus! {

/// A 32-bit length and that many bytes behind it.
pub open spec fn spec_length_data(bytes: Seq<u8>) -> Result<(Seq<u8>, Seq<u8>), ParseError> {
    match spec_read_u32(bytes) {
        Ok((length, rest)) => spec_take(rest, length as nat),
        Err(e) => Err(e),
    }
}

/// A 32-bit length and that many bytes behind it, read as UTF-8.
pub open spec fn spec_utf8_variable(bytes: Seq<u8>) -> Result<(Seq<char>, Seq<u8>), ParseError> {
    match spec_length_data(bytes) {
        Ok((text, rest)) => if valid_utf8(text) {
            Ok((decode_utf8(text), rest))
        } else {
            Err(ParseError::InvalidEncoding)
        },
        Err(e) => Err(e),
    }
}

/// One byte that has to be `expected`.
pub open spec fn spec_verify_u8(bytes: Seq<u8>, expected: u8) -> Result<(u8, Seq<u8>), ParseError> {
    match spec_read_u8(bytes) {
        Ok((byte, rest)) => if byte == expected {
            Ok((byte, rest))
        } else {
            Err(ParseError::UnexpectedDiscriminant)
        },
        Err(e) => Err(e),
    }
}

/// `outcome` with `front` put before the elements it yields.
pub open spec fn spec_prepend<V>(
    front: Seq<V>,
    outcome: Result<(Seq<V>, Seq<u8>), ParseError>,
) -> Result<(Seq<V>, Seq<u8>), ParseError> {
    match outcome {
        Ok((elements, rest)) => Ok((front + elements, rest)),
        Err(e) => Err(e),
    }
}

/// Exactly `count` elements, each decoded by `element` from where the one
/// before it ended; the first failure of an element is the failure of the
/// sequence.
pub open spec fn spec_repeat<V>(
    element: spec_fn(Seq<u8>) -> Result<(V, Seq<u8>), ParseError>,
    bytes: Seq<u8>,
    count: nat,
) -> Result<(Seq<V>, Seq<u8>), ParseError>
    decreases count,
{
    if count == 0 {
        Ok((Seq::empty(), bytes))
    } else {
        match element(bytes) {
            Ok((first, rest)) => spec_prepend(
                seq![first],
                spec_repeat(element, rest, (count - 1) as nat),
            ),
            Err(e) => Err(e),
        }
    }
}

/// One more element has been decoded: what `front` and the elements still to
/// come amount to does not change when the element moves into `front`.
pub proof fn lemma_repeat_step<V>(
    element: spec_fn(Seq<u8>) -> Result<(V, Seq<u8>), ParseError>,
    front: Seq<V>,
    bytes: Seq<u8>,
    count: nat,
)
    requires
        count > 0,
    ensures
        match element(bytes) {
            Ok((first, rest)) => spec_prepend(front, spec_repeat(element, bytes, count))
                == spec_prepend(front.push(first), spec_repeat(element, rest, (count - 1) as nat)),
            Err(e) => spec_prepend(front, spec_repeat(element, bytes, count)) == Err::<
                (Seq<V>, Seq<u8>),
                ParseError,
            >(e),
        },
{
    match element(bytes) {
        Ok((first, rest)) => {
            match spec_repeat(element, rest, (count - 1) as nat) {
                Ok((elements, end)) => {
                    assert(front + (seq![first] + elements) =~= front.push(first) + elements);
                },
                Err(e) => {},
            }
        },
        Err(e) => {},
    }
}

/// `String::from_utf8` of std: succeeds exactly on well-formed UTF-8, and
/// the string it then returns consists of the very bytes it was given.
#[verifier::external_body]
fn from_utf8(bytes: Vec<u8>) -> (r: Option<String>)
    ensures
        r is Some <==> valid_utf8(bytes@),
        r matches Some(text) ==> encode_utf8(text@) == bytes@,
{
    match String::from_utf8(bytes) {
        Ok(text) => Some(text),
        Err(_) => None,
    }
}

/// Reads a 32-bit length and hands out that many bytes. Fails with
/// `InsufficientBytes` when the length or the bytes are not all there.
pub fn length_data<'a>(input: Span<'a>) -> (r: Result<(Span<'a>, &'a [u8]), ParseError>)
    ensures
        decodes(input, r, spec_length_data(input.remaining())),
{
    let (after_length, length) = match input.read_u32() {
        Ok(pair) => pair,
        Err(e) => { return Err(e); },
    };
    match after_length.take(length as usize) {
        Ok((rest, taken)) => Ok((rest, taken.fragment())),
        Err(e) => Err(e),
    }
}

/// Reads a string: a 32-bit length and that many bytes of UTF-8. Fails with
/// `InsufficientBytes` when the length or the bytes are not all there, and
/// with `InvalidEncoding` when the bytes are not well-formed UTF-8.
pub fn parse_utf8_variable<'a>(input: Span<'a>) -> (r: Result<(Span<'a>, String), ParseError>)
    ensures
        decodes(input, r, spec_utf8_variable(input.remaining())),
{
    let (rest, bytes) = match length_data(input) {
        Ok(pair) => pair,
        Err(e) => { return Err(e); },
    };
    match from_utf8(slice_to_vec(bytes)) {
        Some(text) => {
            proof {
                encode_utf8_decode_utf8(text@);
            }
            Ok((rest, text))
        },
        None => Err(ParseError::InvalidEncoding),
    }
}

/// Reads one byte and checks that it is `expected`. Fails with
/// `InsufficientBytes` when no byte is left and with
/// `UnexpectedDiscriminant` when the byte is another one.
pub fn verify_le_u8<'a>(input: Span<'a>, expected: u8) -> (r: Result<(Span<'a>, u8), ParseError>)
    ensures
        decodes(input, r, spec_verify_u8(input.remaining(), expected)),
{
    match input.read_u8() {
        Ok((rest, byte)) => if byte == expected {
            Ok((rest, byte))
        } else {
            Err(ParseError::UnexpectedDiscriminant)
        },
        Err(e) => Err(e),
    }
}

} // verus!
