//! An immutable view over the input buffer with a tracked offset, and the
//! fixed-width little-endian reads on it.

use crate::errors::ParseError;
use vstd::prelude::*;

verus! {

/// The value of the first two bytes of `bytes`, least significant first.
pub open spec fn spec_le_u16(bytes: Seq<u8>) -> u16 {
    (bytes[0] as int + bytes[1] as int * 0x100) as u16
}

/// The value of the first four bytes of `bytes`, least significant first.
pub open spec fn spec_le_u32(bytes: Seq<u8>) -> u32 {
    (bytes[0] as int + bytes[1] as int * 0x100 + bytes[2] as int * 0x1_0000 + bytes[3] as int
        * 0x100_0000) as u32
}

/// The value of the first eight bytes of `bytes`, least significant first.
pub open spec fn spec_le_u64(bytes: Seq<u8>) -> u64 {
    (bytes[0] as int + bytes[1] as int * 0x100 + bytes[2] as int * 0x1_0000 + bytes[3] as int
        * 0x100_0000 + bytes[4] as int * 0x1_0000_0000 + bytes[5] as int * 0x100_0000_0000
        + bytes[6] as int * 0x1_0000_0000_0000 + bytes[7] as int * 0x100_0000_0000_0000) as u64
}

/// The first `count` bytes of `bytes` and the bytes behind them.
pub open spec fn spec_take(bytes: Seq<u8>, count: nat) -> Result<(Seq<u8>, Seq<u8>), ParseError> {
    if count <= bytes.len() {
        Ok((bytes.take(count as int), bytes.skip(count as int)))
    } else {
        Err(ParseError::InsufficientBytes)
    }
}

/// `bytes` without its first `count` bytes.
pub open spec fn spec_skip(bytes: Seq<u8>, count: nat) -> Result<((), Seq<u8>), ParseError> {
    if count <= bytes.len() {
        Ok(((), bytes.skip(count as int)))
    } else {
        Err(ParseError::InsufficientBytes)
    }
}

/// The first byte of `bytes` and the bytes behind it.
pub open spec fn spec_read_u8(bytes: Seq<u8>) -> Result<(u8, Seq<u8>), ParseError> {
    if 1 <= bytes.len() {
        Ok((bytes[0], bytes.skip(1)))
    } else {
        Err(ParseError::InsufficientBytes)
    }
}

/// The little-endian 16-bit integer at the front of `bytes` and the bytes
/// behind it.
pub open spec fn spec_read_u16(bytes: Seq<u8>) -> Result<(u16, Seq<u8>), ParseError> {
    if 2 <= bytes.len() {
        Ok((spec_le_u16(bytes), bytes.skip(2)))
    } else {
        Err(ParseError::InsufficientBytes)
    }
}

/// The little-endian 32-bit integer at the front of `bytes` and the bytes
/// behind it.
pub open spec fn spec_read_u32(bytes: Seq<u8>) -> Result<(u32, Seq<u8>), ParseError> {
    if 4 <= bytes.len() {
        Ok((spec_le_u32(bytes), bytes.skip(4)))
    } else {
        Err(ParseError::InsufficientBytes)
    }
}

/// The little-endian 64-bit integer at the front of `bytes` and the bytes
/// behind it.
pub open spec fn spec_read_u64(bytes: Seq<u8>) -> Result<(u64, Seq<u8>), ParseError> {
    if 8 <= bytes.len() {
        Ok((spec_le_u64(bytes), bytes.skip(8)))
    } else {
        Err(ParseError::InsufficientBytes)
    }
}

/// What it means for the outcome `r` of a decoder run on `input` to be the
/// one that `model` prescribes: the same error, or the same value (by its
/// view) with `rest` standing in front of exactly the bytes that the model
/// leaves over, inside the same buffer.
pub open spec fn decodes<'a, T: View>(
    input: Span<'a>,
    r: Result<(Span<'a>, T), ParseError>,
    model: Result<(T::V, Seq<u8>), ParseError>,
) -> bool {
    match r {
        Ok((rest, value)) => {
            &&& model == Ok::<(T::V, Seq<u8>), ParseError>((value@, rest.remaining()))
            &&& rest.end() == input.end()
        },
        Err(e) => model == Err::<(T::V, Seq<u8>), ParseError>(e),
    }
}

/// The views of `values`, in the same order.
pub open spec fn views<T: View>(values: Seq<T>) -> Seq<T::V> {
    values.map_values(|value: T| value@)
}

/// [`decodes`] for a decoder that yields a list: the list holds, view by
/// view, the elements that `model` prescribes.
pub open spec fn decodes_all<'a, T: View>(
    input: Span<'a>,
    r: Result<(Span<'a>, Vec<T>), ParseError>,
    model: Result<(Seq<T::V>, Seq<u8>), ParseError>,
) -> bool {
    match r {
        Ok((rest, values)) => {
            &&& model == Ok::<(Seq<T::V>, Seq<u8>), ParseError>((views(values@), rest.remaining()))
            &&& rest.end() == input.end()
        },
        Err(e) => model == Err::<(Seq<T::V>, Seq<u8>), ParseError>(e),
    }
}

/// Decoding is repeatable: two runs that meet the same model end in the
/// same way, either with the same error or with values of the same view in
/// front of the same bytes.
pub proof fn lemma_decodes_agree<'a, T: View>(
    input1: Span<'a>,
    r1: Result<(Span<'a>, T), ParseError>,
    input2: Span<'a>,
    r2: Result<(Span<'a>, T), ParseError>,
    model: Result<(T::V, Seq<u8>), ParseError>,
)
    requires
        decodes(input1, r1, model),
        decodes(input2, r2, model),
    ensures
        match r1 {
            Ok((rest1, value1)) => r2 matches Ok((rest2, value2)) && value1@ == value2@
                && rest1.remaining() == rest2.remaining(),
            Err(e) => r2 == Err::<(Span<'a>, T), ParseError>(e),
        },
{
}

/// `nom::bytes::complete::take` on a byte slice: splits off the first `count`
/// bytes, and fails exactly when fewer than `count` are there.
#[verifier::external_body]
fn take<'a>(bytes: &'a [u8], count: usize) -> (r: Option<(&'a [u8], &'a [u8])>)
    ensures
        r is Some <==> count <= bytes@.len(),
        r matches Some((rest, taken)) ==> taken@ == bytes@.take(count as int) && rest@
            == bytes@.skip(count as int),
{
    match nom::bytes::complete::take::<usize, &[u8], nom::error::Error<&[u8]>>(count)(bytes) {
        Ok((rest, taken)) => Some((rest, taken)),
        Err(_) => None,
    }
}

/// `nom::number::complete::le_u8` on a byte slice: the first byte and the
/// bytes behind it, or a failure when the slice is empty.
#[verifier::external_body]
fn le_u8<'a>(bytes: &'a [u8]) -> (r: Option<(&'a [u8], u8)>)
    ensures
        r is Some <==> 1 <= bytes@.len(),
        r matches Some((rest, value)) ==> value == bytes@[0] && rest@ == bytes@.skip(1),
{
    match nom::number::complete::le_u8::<&[u8], nom::error::Error<&[u8]>>(bytes) {
        Ok((rest, value)) => Some((rest, value)),
        Err(_) => None,
    }
}

/// `nom::number::complete::le_u16` on a byte slice: the little-endian value
/// of the first two bytes and the bytes behind them, or a failure when fewer
/// than two are there.
#[verifier::external_body]
fn le_u16<'a>(bytes: &'a [u8]) -> (r: Option<(&'a [u8], u16)>)
    ensures
        r is Some <==> 2 <= bytes@.len(),
        r matches Some((rest, value)) ==> value == spec_le_u16(bytes@) && rest@ == bytes@.skip(2),
{
    match nom::number::complete::le_u16::<&[u8], nom::error::Error<&[u8]>>(bytes) {
        Ok((rest, value)) => Some((rest, value)),
        Err(_) => None,
    }
}

/// `nom::number::complete::le_u32` on a byte slice: the little-endian value
/// of the first four bytes and the bytes behind them, or a failure when fewer
/// than four are there.
#[verifier::external_body]
fn le_u32<'a>(bytes: &'a [u8]) -> (r: Option<(&'a [u8], u32)>)
    ensures
        r is Some <==> 4 <= bytes@.len(),
        r matches Some((rest, value)) ==> value == spec_le_u32(bytes@) && rest@ == bytes@.skip(4),
{
    match nom::number::complete::le_u32::<&[u8], nom::error::Error<&[u8]>>(bytes) {
        Ok((rest, value)) => Some((rest, value)),
        Err(_) => None,
    }
}

/// `nom::number::complete::le_u64` on a byte slice: the little-endian value
/// of the first eight bytes and the bytes behind them, or a failure when
/// fewer than eight are there.
#[verifier::external_body]
fn le_u64<'a>(bytes: &'a [u8]) -> (r: Option<(&'a [u8], u64)>)
    ensures
        r is Some <==> 8 <= bytes@.len(),
        r matches Some((rest, value)) ==> value == spec_le_u64(bytes@) && rest@ == bytes@.skip(8),
{
    match nom::number::complete::le_u64::<&[u8], nom::error::Error<&[u8]>>(bytes) {
        Ok((rest, value)) => Some((rest, value)),
        Err(_) => None,
    }
}

/// A view over the bytes of a buffer that are still to be decoded, together
/// with the number of bytes of the buffer that lie in front of them.
#[derive(Clone, Copy, Debug)]
pub struct Span<'a> {
    fragment: &'a [u8],
    offset: usize,
}

impl<'a> Span<'a> {
    #[verifier::type_invariant]
    spec fn in_machine_range(self) -> bool {
        self.offset + self.fragment@.len() <= usize::MAX
    }

    /// The bytes that are still to be decoded.
    pub closed spec fn remaining(self) -> Seq<u8> {
        self.fragment@
    }

    /// The number of bytes of the buffer in front of the view.
    pub closed spec fn position(self) -> nat {
        self.offset as nat
    }

    /// The position at which the view ends.
    pub open spec fn end(self) -> nat {
        self.position() + self.remaining().len()
    }

    /// A view over the whole of `data`.
    pub fn new(data: &'a [u8]) -> (span: Span<'a>)
        ensures
            span.remaining() == data@,
            span.position() == 0,
    {
        proof {
            vstd::slice::axiom_spec_len(data);
        }
        Span { fragment: data, offset: 0 }
    }

    /// The bytes that are still to be decoded.
    pub fn fragment(&self) -> (bytes: &'a [u8])
        ensures
            bytes@ == self.remaining(),
    {
        self.fragment
    }

    /// The number of bytes of the buffer in front of the view.
    pub fn location_offset(&self) -> (offset: usize)
        ensures
            offset == self.position(),
    {
        self.offset
    }

    /// The number of bytes that are still to be decoded.
    pub fn len(&self) -> (len: usize)
        ensures
            len == self.remaining().len(),
    {
        self.fragment.len()
    }

    /// Splits off the next `count` bytes as a view of their own, which
    /// starts where `self` starts. Fails with `InsufficientBytes` exactly
    /// when fewer than `count` bytes remain.
    pub fn take(self, count: usize) -> (r: Result<(Span<'a>, Span<'a>), ParseError>)
        ensures
            match r {
                Ok((rest, taken)) => {
                    &&& spec_take(self.remaining(), count as nat) == Ok::<_, ParseError>(
                        (taken.remaining(), rest.remaining()),
                    )
                    &&& rest.end() == self.end()
                    &&& taken.position() == self.position()
                },
                Err(e) => spec_take(self.remaining(), count as nat) == Err::<
                    (Seq<u8>, Seq<u8>),
                    _,
                >(e),
            },
    {
        proof {
            use_type_invariant(&self);
        }
        match take(self.fragment, count) {
            Some((rest, taken)) => Ok(
                (
                    Span { fragment: rest, offset: self.offset + count },
                    Span { fragment: taken, offset: self.offset },
                ),
            ),
            None => Err(ParseError::InsufficientBytes),
        }
    }

    /// Passes over the next `count` bytes. Fails with `InsufficientBytes`
    /// exactly when fewer than `count` bytes remain.
    pub fn skip(self, count: usize) -> (r: Result<(Span<'a>, ()), ParseError>)
        ensures
            decodes(self, r, spec_skip(self.remaining(), count as nat)),
    {
        match self.take(count) {
            Ok((rest, _)) => Ok((rest, ())),
            Err(e) => Err(e),
        }
    }

    /// Reads one byte.
    pub fn read_u8(self) -> (r: Result<(Span<'a>, u8), ParseError>)
        ensures
            decodes(self, r, spec_read_u8(self.remaining())),
    {
        proof {
            use_type_invariant(&self);
        }
        match le_u8(self.fragment) {
            Some((rest, value)) => Ok((Span { fragment: rest, offset: self.offset + 1 }, value)),
            None => Err(ParseError::InsufficientBytes),
        }
    }

    /// Reads a little-endian 16-bit integer.
    pub fn read_u16(self) -> (r: Result<(Span<'a>, u16), ParseError>)
        ensures
            decodes(self, r, spec_read_u16(self.remaining())),
    {
        proof {
            use_type_invariant(&self);
        }
        match le_u16(self.fragment) {
            Some((rest, value)) => Ok((Span { fragment: rest, offset: self.offset + 2 }, value)),
            None => Err(ParseError::InsufficientBytes),
        }
    }

    /// Reads a little-endian 32-bit integer.
    pub fn read_u32(self) -> (r: Result<(Span<'a>, u32), ParseError>)
        ensures
            decodes(self, r, spec_read_u32(self.remaining())),
    {
        proof {
            use_type_invariant(&self);
        }
        match le_u32(self.fragment) {
            Some((rest, value)) => Ok((Span { fragment: rest, offset: self.offset + 4 }, value)),
            None => Err(ParseError::InsufficientBytes),
        }
    }

    /// Reads a little-endian 64-bit integer.
    pub fn read_u64(self) -> (r: Result<(Span<'a>, u64), ParseError>)
        ensures
            decodes(self, r, spec_read_u64(self.remaining())),
    {
        proof {
            use_type_invariant(&self);
        }
        match le_u64(self.fragment) {
            Some((rest, value)) => Ok((Span { fragment: rest, offset: self.offset + 8 }, value)),
            None => Err(ParseError::InsufficientBytes),
        }
    }
}

} // verus!
