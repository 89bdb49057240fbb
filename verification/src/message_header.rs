//! The fixed four-byte header that starts every frame on the ring.

use vstd::prelude::*;
use vstd::arithmetic::div_mod::{lemma_fundamental_div_mod, lemma_mod_pos_bound};

use crate::compressed_type_identifier::CompressedTypeIdentifier;
use crate::compressed_type_identifier::COMPRESSED_TYPE_IDENTIFIER_EXCLUSIVE_MAXIMUM;

verus! {

/// The size in bytes of a `MessageHeader` on the ring.
pub const MESSAGE_HEADER_SIZE: usize = 4;

/// The alignment of a `MessageHeader`.
///
/// The sizing discipline below is stricter: every frame's total size is kept a
/// multiple of `MESSAGE_HEADER_SIZE`, which implies that successive headers
/// stay aligned to `MESSAGE_HEADER_ALIGNMENT` as well.
pub const MESSAGE_HEADER_ALIGNMENT: usize = 2;

/// The header that precedes every message body on the ring, little-endian:
/// one byte of tag, one byte counting the padding inserted before the body,
/// and two bytes holding the total frame size.
#[derive(Clone, Copy, PartialEq, Eq, Structural, Debug)]
pub struct MessageHeader {
    /// The tag identifying the message's body type within the handlers table.
    pub compressed_type_identifier: CompressedTypeIdentifier,
    /// How many padding bytes lie between the header and the message body.
    pub number_of_bytes_padding_to_align_message_body: u8,
    /// The whole frame: header, padding before the body, body, and padding
    /// after the body so that the next header stays header-aligned.
    pub total_message_size_including_message_header_padding_to_align_before_message_body_and_padding_to_align_after:
        u16,
}

/// The exact four bytes a header occupies on the ring.
pub open spec fn spec_message_header_bytes(tag: int, padding: int, total: int) -> Seq<u8> {
    seq![
        tag as u8,
        padding as u8,
        (total % 256) as u8,
        (total / 256) as u8,
    ]
}

/// Splitting a 16-bit total into its two little-endian bytes loses nothing.
pub proof fn lemma_total_size_bytes_roundtrip(total: int)
    requires
        0 <= total < 65536,
    ensures
        (total % 256) + 256 * (total / 256) == total,
        0 <= total % 256 < 256,
        0 <= total / 256 < 256,
{
    lemma_fundamental_div_mod(total, 256);
    lemma_mod_pos_bound(total, 256);
}

impl MessageHeader {
    /// The tag field, as a mathematical integer.
    pub open spec fn spec_tag(self) -> int {
        self.compressed_type_identifier.spec_index()
    }

    /// The padding field, as a mathematical integer.
    pub open spec fn spec_padding(self) -> int {
        self.number_of_bytes_padding_to_align_message_body as int
    }

    /// The total-size field, as a mathematical integer.
    pub open spec fn spec_total(self) -> int {
        self.total_message_size_including_message_header_padding_to_align_before_message_body_and_padding_to_align_after
            as int
    }

    /// The four bytes this header occupies on the ring.
    pub open spec fn spec_bytes(self) -> Seq<u8> {
        spec_message_header_bytes(self.spec_tag(), self.spec_padding(), self.spec_total())
    }

    /// The total frame size, widened for use as a count of bytes.
    pub fn total_message_size_including_message_header_padding_to_align_before_message_body_and_padding_to_align_after(
        &self,
    ) -> (r: usize)
        ensures
            r == self.spec_total(),
    {
        self.total_message_size_including_message_header_padding_to_align_before_message_body_and_padding_to_align_after
            as usize
    }

    /// The number of padding bytes before the body, widened for offset
    /// arithmetic.
    pub fn number_of_bytes_padding_to_align_message_body(&self) -> (r: usize)
        ensures
            r == self.spec_padding(),
    {
        self.number_of_bytes_padding_to_align_message_body as usize
    }

    /// The offset of the message body from the start of the frame: the header
    /// itself, then the padding that aligns the body.
    pub fn message_body_offset(&self) -> (r: usize)
        ensures
            r == MESSAGE_HEADER_SIZE + self.spec_padding(),
    {
        MESSAGE_HEADER_SIZE + self.number_of_bytes_padding_to_align_message_body as usize
    }

    /// Serialises the header into the four bytes it occupies on the ring.
    pub fn encode(&self) -> (r: Vec<u8>)
        ensures
            r@ == self.spec_bytes(),
            r@.len() == MESSAGE_HEADER_SIZE,
    {
        let total =
            self.total_message_size_including_message_header_padding_to_align_before_message_body_and_padding_to_align_after;
        proof {
            lemma_total_size_bytes_roundtrip(total as int);
        }
        let mut r: Vec<u8> = Vec::new();
        r.push(self.compressed_type_identifier.index() as u8);
        r.push(self.number_of_bytes_padding_to_align_message_body);
        r.push((total % 256) as u8);
        r.push((total / 256) as u8);
        proof {
            assert(r@ =~= self.spec_bytes());
        }
        r
    }

    /// Reads a header back from the first four bytes of a frame.
    pub fn decode(bytes: &Vec<u8>) -> (r: Self)
        requires
            bytes@.len() >= MESSAGE_HEADER_SIZE,
            bytes@[0] < COMPRESSED_TYPE_IDENTIFIER_EXCLUSIVE_MAXIMUM as u8,
    ensures
            r.spec_tag() == bytes@[0],
            r.spec_padding() == bytes@[1],
            r.spec_total() == bytes@[2] + 256 * bytes@[3],
    {
        let tag = CompressedTypeIdentifier::from_index(bytes[0]);
        let padding = bytes[1];
        let total: u16 = bytes[2] as u16 + 256 * (bytes[3] as u16);
        MessageHeader {
            compressed_type_identifier: tag,
            number_of_bytes_padding_to_align_message_body: padding,
            total_message_size_including_message_header_padding_to_align_before_message_body_and_padding_to_align_after:
                total,
        }
    }
}

/// Decoding the bytes an encoder produced yields the fields it was given.
pub proof fn lemma_message_header_roundtrip(tag: int, padding: int, total: int)
    requires
        0 <= tag < 256,
        0 <= padding < 256,
        0 <= total < 65536,
    ensures
        ({
            let bytes = spec_message_header_bytes(tag, padding, total);
            &&& bytes[0] == tag
            &&& bytes[1] == padding
            &&& bytes[2] + 256 * (bytes[3] as int) == total
            &&& bytes.len() == 4
        }),
{
    lemma_total_size_bytes_roundtrip(total);
}

} // verus!
