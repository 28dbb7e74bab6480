//! The framing of chunks: the header, the dispatch on the type tag, and the
//! raw capture of chunks that have no decoder of their own.

pub mod data_data_chunk;

use crate::data::chunks::data_data_chunk::{
    spec_data_body, spec_data_chunk, DataDataChunk, DataDataChunkView,
};
use crate::data::player::{is_record_decoder, Player};
use crate::data::span::{decodes, lemma_decodes_agree, spec_le_u16, spec_le_u32, Span};
use crate::errors::ParseError;
use vstd::prelude::*;
use vstd::slice::slice_to_vec;

verus! {

/// The number of bytes that a chunk header occupies.
pub const HEADER_LENGTH: usize = 7;

/// The type tag of a data record.
pub const DATA_CHUNK_TYPE: u8 = 1;

/// The fixed fields in front of a chunk body.
#[derive(Clone, Copy, Debug, PartialEq, Eq)]
pub struct Header {
    /// Which kind of record the body holds.
    pub type_tag: u8,
    /// The revision of the body's layout.
    pub version: u16,
    /// The exact number of bytes of the body.
    pub length: u32,
}

impl View for Header {
    type V = Header;

    open spec fn view(&self) -> Header {
        *self
    }
}

/// The layout of a header: the type tag in one byte, the version in two and
/// the length of the body in four, both least significant byte first.
pub open spec fn spec_header(bytes: Seq<u8>) -> Result<(Header, Seq<u8>), ParseError> {
    if bytes.len() < HEADER_LENGTH {
        Err(ParseError::InsufficientBytes)
    } else {
        Ok(
            (
                Header {
                    type_tag: bytes[0],
                    version: spec_le_u16(bytes.skip(1)),
                    length: spec_le_u32(bytes.skip(3)),
                },
                bytes.skip(HEADER_LENGTH as int),
            ),
        )
    }
}

/// A chunk whose body is kept as it was found.
#[derive(Clone, Debug, PartialEq, Eq)]
pub struct TrashDataChunk {
    pub header: Header,
    /// The whole body.
    pub data: Vec<u8>,
}

/// What a [`TrashDataChunk`] is, as mathematics.
pub struct TrashDataChunkView {
    pub header: Header,
    pub data: Seq<u8>,
}

impl View for TrashDataChunk {
    type V = TrashDataChunkView;

    open spec fn view(&self) -> TrashDataChunkView {
        TrashDataChunkView { header: self.header, data: self.data@ }
    }
}

/// One chunk, tagged by the kind of its record.
#[derive(Clone, Debug, PartialEq, Eq)]
pub enum Chunk {
    DataData(DataDataChunk),
    Trash(TrashDataChunk),
}

/// What a [`Chunk`] is, as mathematics.
pub enum ChunkView {
    DataData(DataDataChunkView),
    Trash(TrashDataChunkView),
}

impl View for Chunk {
    type V = ChunkView;

    open spec fn view(&self) -> ChunkView {
        match *self {
            Chunk::DataData(chunk) => ChunkView::DataData(chunk@),
            Chunk::Trash(chunk) => ChunkView::Trash(chunk@),
        }
    }
}

impl ChunkView {
    /// The header of the chunk.
    pub open spec fn header(self) -> Header {
        match self {
            ChunkView::DataData(chunk) => chunk.header,
            ChunkView::Trash(chunk) => chunk.header,
        }
    }
}

/// The raw capture of a body: the `header.length` bytes behind the header,
/// whatever they are.
pub open spec fn spec_trash(bytes: Seq<u8>, header: Header) -> Result<
    (ChunkView, Seq<u8>),
    ParseError,
> {
    if header.length <= bytes.len() {
        Ok(
            (
                ChunkView::Trash(
                    TrashDataChunkView { header, data: bytes.take(header.length as int) },
                ),
                bytes.skip(header.length as int),
            ),
        )
    } else {
        Err(ParseError::InsufficientBytes)
    }
}

/// One chunk at the front of `bytes`: its header, then its body, decoded as
/// a data record where the type tag says so and kept raw under any other
/// tag.
pub open spec fn spec_chunk<'a, F: Fn(&'a [u8], u16) -> Result<(Player, usize), ParseError>>(
    decoder: &F,
    bytes: Seq<u8>,
    version: u16,
) -> Result<(ChunkView, Seq<u8>), ParseError> {
    match spec_header(bytes) {
        Ok((header, body)) => if header.type_tag == DATA_CHUNK_TYPE {
            spec_data_chunk(decoder, body, header, version)
        } else {
            spec_trash(body, header)
        },
        Err(e) => Err(e),
    }
}

impl Header {
    /// Reads a header. Fails with `InsufficientBytes` when fewer bytes are
    /// left than a header has.
    pub fn parse<'a>(input: Span<'a>) -> (r: Result<(Span<'a>, Header), ParseError>)
        ensures
            decodes(input, r, spec_header(input.remaining())),
    {
        let ghost bytes = input.remaining();
        let (input1, type_tag) = match input.read_u8() {
            Ok(pair) => pair,
            Err(e) => { return Err(e); },
        };
        let (input2, version) = match input1.read_u16() {
            Ok(pair) => pair,
            Err(e) => { return Err(e); },
        };
        let (input3, length) = match input2.read_u32() {
            Ok(pair) => pair,
            Err(e) => { return Err(e); },
        };
        assert(input3.remaining() =~= bytes.skip(7));
        Ok((input3, Header { type_tag, version, length }))
    }
}

impl TrashDataChunk {
    /// Keeps the body that `header` announces as it is. Fails with
    /// `InsufficientBytes` when fewer bytes are left than the header
    /// declares.
    pub fn parse<'a>(input: Span<'a>, header: Header) -> (r: Result<
        (Span<'a>, Chunk),
        ParseError,
    >)
        ensures
            decodes(input, r, spec_trash(input.remaining(), header)),
    {
        match input.take(header.length as usize) {
            Ok((rest, body)) => {
                let data = slice_to_vec(body.fragment());
                Ok((rest, Chunk::Trash(TrashDataChunk { header, data })))
            },
            Err(e) => Err(e),
        }
    }
}

impl Chunk {
    /// Decodes one chunk: the header, then exactly as many bytes of body as
    /// the header declares. A body of a data record is decoded field by
    /// field, with `decoder` for its player records; a body under any other
    /// type tag is kept raw, which cannot fail once the bytes are there.
    pub fn parse_chunk<'a, F: Fn(&'a [u8], u16) -> Result<(Player, usize), ParseError>>(
        input: Span<'a>,
        version: u16,
        decoder: &F,
    ) -> (r: Result<(Span<'a>, Chunk), ParseError>)
        requires
            is_record_decoder(decoder, version),
        ensures
            decodes(input, r, spec_chunk(decoder, input.remaining(), version)),
    {
        let (body, header) = match Header::parse(input) {
            Ok(pair) => pair,
            Err(e) => { return Err(e); },
        };
        if header.type_tag == DATA_CHUNK_TYPE {
            DataDataChunk::parse(body, header, version, decoder)
        } else {
            TrashDataChunk::parse(body, header)
        }
    }
}

/// Framing exactness: a chunk that decodes has consumed its header and
/// exactly the number of bytes that the header declares. Where it is a data
/// record, its fields, decoded from those bytes alone, occupy all of them;
/// where it is kept raw, its data are those bytes.
pub proof fn lemma_framing_exact<'a, F: Fn(&'a [u8], u16) -> Result<(Player, usize), ParseError>>(
    decoder: &F,
    bytes: Seq<u8>,
    version: u16,
)
    ensures
        spec_chunk(decoder, bytes, version) matches Ok((chunk, rest)) ==> {
            &&& spec_header(bytes) matches Ok((header, body))
            &&& chunk.header() == header
            &&& header.length <= body.len()
            &&& rest == body.skip(header.length as int)
            &&& bytes.len() == HEADER_LENGTH + header.length + rest.len()
            &&& chunk matches ChunkView::DataData(record) ==> spec_data_body(
                decoder,
                body.take(header.length as int),
                header,
                version,
            ) == Ok::<(DataDataChunkView, Seq<u8>), ParseError>((record, Seq::empty()))
            &&& chunk matches ChunkView::Trash(raw) ==> raw.data == body.take(header.length as int)
        },
{
    if let Ok((chunk, rest)) = spec_chunk(decoder, bytes, version) {
        let (header, body) = spec_header(bytes)->Ok_0;
        if let ChunkView::DataData(record) = chunk {
            let (found, left) = spec_data_body(
                decoder,
                body.take(header.length as int),
                header,
                version,
            )->Ok_0;
            assert(left =~= Seq::<u8>::empty());
        }
    }
}

/// Framing violations: a data record whose declared length is larger than
/// what its fields occupy is never accepted; the decode fails with
/// `FramingViolation`.
pub proof fn lemma_framing_violation<
    'a,
    F: Fn(&'a [u8], u16) -> Result<(Player, usize), ParseError>,
>(decoder: &F, bytes: Seq<u8>, header: Header, version: u16)
    requires
        header.version != 1,
        header.length <= bytes.len(),
        spec_data_body(decoder, bytes.take(header.length as int), header, version) matches Ok(
            (_, left),
        ) && left.len() > 0,
    ensures
        spec_data_chunk(decoder, bytes, header, version) == Err::<
            (ChunkView, Seq<u8>),
            ParseError,
        >(ParseError::FramingViolation),
{
}

/// A data record whose declared length is smaller than what its fields
/// need is never accepted either: the field that does not find its bytes
/// inside the body fails, and that failure is the failure of the record.
/// The same holds of every other failure of a field.
pub proof fn lemma_body_failure_is_handed_on<
    'a,
    F: Fn(&'a [u8], u16) -> Result<(Player, usize), ParseError>,
>(decoder: &F, bytes: Seq<u8>, header: Header, version: u16)
    requires
        header.version != 1,
        header.length <= bytes.len(),
        spec_data_body(decoder, bytes.take(header.length as int), header, version) is Err,
    ensures
        spec_data_chunk(decoder, bytes, header, version) == Err::<(ChunkView, Seq<u8>), ParseError>(
            spec_data_body(decoder, bytes.take(header.length as int), header, version)->Err_0,
        ),
{
}

/// Fallback safety: under a type tag that has no decoder, a chunk whose
/// body is all there is kept raw, with exactly the bytes of its body; the
/// decode does not fail.
pub proof fn lemma_unrecognized_chunk_is_kept_raw<
    'a,
    F: Fn(&'a [u8], u16) -> Result<(Player, usize), ParseError>,
>(decoder: &F, bytes: Seq<u8>, version: u16)
    requires
        bytes.len() >= HEADER_LENGTH,
        bytes[0] != DATA_CHUNK_TYPE,
        spec_le_u32(bytes.skip(3)) <= bytes.len() - HEADER_LENGTH,
    ensures
        ({
            &&& spec_chunk(decoder, bytes, version) matches Ok((chunk, rest))
            &&& chunk matches ChunkView::Trash(raw)
            &&& raw.header.type_tag == bytes[0]
            &&& raw.header.length == spec_le_u32(bytes.skip(3))
            &&& raw.data == bytes.subrange(
                HEADER_LENGTH as int,
                HEADER_LENGTH + raw.header.length,
            )
            &&& rest == bytes.skip(HEADER_LENGTH + raw.header.length)
        }),
{
    let (header, body) = spec_header(bytes)->Ok_0;
    assert(body.take(header.length as int) =~= bytes.subrange(
        HEADER_LENGTH as int,
        HEADER_LENGTH + header.length,
    ));
    assert(body.skip(header.length as int) =~= bytes.skip(HEADER_LENGTH + header.length));
}

/// Idempotence: two decodes of the same bytes agree. Either both fail with
/// the same error, or both yield chunks of the same view and stop in front
/// of the same bytes.
pub proof fn lemma_chunk_decode_is_repeatable<
    'a,
    F: Fn(&'a [u8], u16) -> Result<(Player, usize), ParseError>,
>(
    decoder: &F,
    version: u16,
    input1: Span<'a>,
    r1: Result<(Span<'a>, Chunk), ParseError>,
    input2: Span<'a>,
    r2: Result<(Span<'a>, Chunk), ParseError>,
)
    requires
        input1.remaining() == input2.remaining(),
        decodes(input1, r1, spec_chunk(decoder, input1.remaining(), version)),
        decodes(input2, r2, spec_chunk(decoder, input2.remaining(), version)),
    ensures
        match r1 {
            Ok((rest1, chunk1)) => r2 matches Ok((rest2, chunk2)) && chunk1@ == chunk2@
                && rest1.remaining() == rest2.remaining(),
            Err(e) => r2 == Err::<(Span<'a>, Chunk), ParseError>(e),
        },
{
    lemma_decodes_agree(input1, r1, input2, r2, spec_chunk(decoder, input1.remaining(), version));
}

} // verus!
