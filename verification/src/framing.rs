//! The framing codec: the on-ring layout of one message.
//!
//! A frame is a contiguous region
//! `[ header: 4 bytes ][ padding ][ body ][ tail padding ]`
//! whose total size is kept a multiple of the header size so that the next
//! frame's header stays aligned, and whose padding places the body on its
//! type's alignment boundary.

use vstd::prelude::*;
use vstd::arithmetic::div_mod::{
    lemma_fundamental_div_mod, lemma_fundamental_div_mod_converse, lemma_small_mod,
};

use crate::alignment::{
    lemma_difference_of_multiples_of_four, lemma_multiple_of_four_mod,
    lemma_round_up_to_alignment, lemma_sum_of_multiples_of_four, round_up_to_alignment,
    spec_round_up_to_alignment,
};
use crate::compressed_type_identifier::CompressedTypeIdentifier;
use crate::message_header::{
    lemma_total_size_bytes_roundtrip, spec_message_header_bytes, MessageHeader,
    MESSAGE_HEADER_SIZE,
};

verus! {

/// The largest body alignment the header can express: padding is recorded in
/// a single byte, so the worst-case padding `alignment - 4` must stay below
/// 256.
pub const MAXIMUM_BODY_ALIGNMENT: usize = 256;

/// The exclusive upper bound on a frame's total size: it must fit the
/// header's 16-bit size field.
pub const MAXIMUM_TOTAL_MESSAGE_SIZE: usize = 65535;

/// Body alignments are positive powers of two no greater than
/// `MAXIMUM_BODY_ALIGNMENT`.
pub open spec fn valid_body_alignment(alignment: int) -> bool {
    ||| alignment == 1
    ||| alignment == 2
    ||| alignment == 4
    ||| alignment == 8
    ||| alignment == 16
    ||| alignment == 32
    ||| alignment == 64
    ||| alignment == 128
    ||| alignment == 256
}

/// The size and alignment a body type may have: a valid alignment, and a size
/// that is a non-negative multiple of it, as every Rust type's is.
pub open spec fn valid_body_layout(body_size: int, body_alignment: int) -> bool {
    &&& valid_body_alignment(body_alignment)
    &&& 0 <= body_size
    &&& body_size % body_alignment == 0
}

/// How many padding bytes are inserted between the header and a body of the
/// given layout, for a frame that starts at `window_offset`.
///
/// A zero-sized body needs none; a body more aligned than the header is
/// placed on the next boundary of its alignment; any other body sits at a
/// fixed offset of twice the header size, which is aligned enough for every
/// alignment up to the header size.
pub open spec fn spec_body_padding(window_offset: int, body_size: int, body_alignment: int) -> int {
    if body_size == 0 {
        0
    } else if body_alignment > 4 {
        spec_round_up_to_alignment(window_offset + 4, body_alignment) - (window_offset + 4)
    } else {
        4
    }
}

/// The total size of a frame for the given body layout when the frame starts
/// at `window_offset`: header, padding, body, and tail padding keeping the
/// total a multiple of the header size.
pub open spec fn spec_total_message_size(
    window_offset: int,
    body_size: int,
    body_alignment: int,
) -> int {
    if body_size == 0 {
        4
    } else if body_alignment > 4 {
        4 + spec_body_padding(window_offset, body_size, body_alignment) + body_size
    } else {
        8 + spec_round_up_to_alignment(body_size, 4)
    }
}

/// The worst-case framed size over all frame start offsets: the size of the
/// window a producer must reserve before it knows where the frame will start.
pub open spec fn spec_largest_possible_total_message_size(
    body_size: int,
    body_alignment: int,
) -> int {
    if body_size == 0 {
        4
    } else if body_alignment > 4 {
        4 + (body_alignment - 4) + body_size
    } else {
        8 + spec_round_up_to_alignment(body_size, 4)
    }
}

/// A sequence of `n` zero bytes, standing for padding.
pub open spec fn zero_bytes(n: nat) -> Seq<u8> {
    Seq::new(n, |i: int| 0u8)
}

/// One frame, as the mathematical model of a message sitting on the ring.
pub ghost struct FrameRec {
    /// The tag naming the body type's registration.
    pub compressed_type_identifier: u8,
    /// How many padding bytes separate the header from the body.
    pub padding: u8,
    /// The whole frame's size in bytes, header and both paddings included.
    pub total_size: u16,
    /// The body's bytes.
    pub body: Seq<u8>,
}

impl FrameRec {
    /// The pair a consumer observes for this frame: its tag and its body
    /// bytes.
    pub open spec fn observed(self) -> (u8, Seq<u8>) {
        (self.compressed_type_identifier, self.body)
    }
}

/// The tag and body pairs a run of the destructor observes over these
/// frames, in order.
pub open spec fn frame_drop_records(fs: Seq<FrameRec>) -> Seq<(u8, Seq<u8>)> {
    Seq::new(fs.len(), |i: int| (fs[i].compressed_type_identifier, fs[i].body))
}

/// The handler invocations a successful drain observes over these frames, in
/// order: each with its tag, its body, and a successful outcome.
pub open spec fn frame_handled_records(fs: Seq<FrameRec>) -> Seq<(u8, Seq<u8>, bool)> {
    Seq::new(fs.len(), |i: int| (fs[i].compressed_type_identifier, fs[i].body, true))
}

/// A frame is valid for a table whose registered body sizes are `body_sizes`:
/// its tag is registered, its body has the registered size, everything fits
/// inside its total, and the total keeps the next header aligned.
pub open spec fn frame_valid(f: FrameRec, body_sizes: Seq<usize>) -> bool {
    &&& (f.compressed_type_identifier as int) < body_sizes.len()
    &&& f.body.len() == body_sizes[f.compressed_type_identifier as int]
    &&& 4 + f.padding + f.body.len() <= f.total_size
    &&& f.total_size % 4 == 0
}

/// The exact bytes a frame occupies on the ring.
pub open spec fn frame_bytes(f: FrameRec) -> Seq<u8> {
    spec_message_header_bytes(f.compressed_type_identifier as int, f.padding as int, f.total_size as int)
        + zero_bytes(f.padding as nat) + f.body
        + zero_bytes((f.total_size - 4 - f.padding - f.body.len()) as nat)
}

/// Parses a byte span into the sequence of frames it holds, or `None` if the
/// bytes are not a whole number of well-formed frames.
///
/// Each step reads the four header bytes, checks the tag against the table,
/// slices out the body the header's padding and the registered size locate,
/// and continues after the header's total size.
pub open spec fn parse_frames(bytes: Seq<u8>, body_sizes: Seq<usize>) -> Option<Seq<FrameRec>>
    decreases bytes.len(),
{
    if bytes.len() == 0 {
        Some(Seq::empty())
    } else if bytes.len() < 4 {
        None
    } else {
        let tag = bytes[0];
        let padding = bytes[1];
        let total = bytes[2] + 256 * (bytes[3] as int);
        if !((tag as int) < body_sizes.len()) {
            None
        } else {
            let size = body_sizes[tag as int] as int;
            if total < 4 + padding + size || total % 4 != 0 || total > bytes.len() {
                None
            } else {
                let f = FrameRec {
                    compressed_type_identifier: tag,
                    padding,
                    total_size: total as u16,
                    body: bytes.subrange(4 + padding, 4 + padding + size),
                };
                match parse_frames(bytes.skip(total), body_sizes) {
                    Some(rest) => Some(seq![f] + rest),
                    None => None,
                }
            }
        }
    }
}

/// The framing scheme's geometry, for any header-size-aligned frame start:
/// the padding is small and a multiple of four, the total covers the header,
/// the padding and the body, never exceeds the reserved worst case, keeps the
/// next header aligned, and puts a non-empty body on its alignment boundary.
pub proof fn lemma_message_layout(window_offset: int, body_size: int, body_alignment: int)
    requires
        0 <= window_offset,
        window_offset % 4 == 0,
        valid_body_layout(body_size, body_alignment),
    ensures
        ({
            let padding = spec_body_padding(window_offset, body_size, body_alignment);
            let total = spec_total_message_size(window_offset, body_size, body_alignment);
            let largest = spec_largest_possible_total_message_size(body_size, body_alignment);
            &&& 0 <= padding <= 252
            &&& padding % 4 == 0
            &&& 4 + padding + body_size <= total <= largest
            &&& total % 4 == 0
            &&& total % 2 == 0
            &&& largest % 4 == 0
            &&& body_size > 0 ==> (window_offset + 4 + padding) % body_alignment == 0
        }),
{
    let padding = spec_body_padding(window_offset, body_size, body_alignment);
    let total = spec_total_message_size(window_offset, body_size, body_alignment);
    let largest = spec_largest_possible_total_message_size(body_size, body_alignment);
    if body_size == 0 {
        assert(4int % 4 == 0);
    } else if body_alignment > 4 {
        let first = window_offset + 4;
        let body = spec_round_up_to_alignment(first, body_alignment);
        lemma_round_up_to_alignment(first, body_alignment);
        // The body offset is a multiple of the alignment, hence of four.
        lemma_multiple_of_four_mod(body, body_alignment);
        // The first possible body offset is a multiple of four too.
        assert(4int % 4 == 0);
        lemma_sum_of_multiples_of_four(window_offset, 4);
        lemma_difference_of_multiples_of_four(body, first);
        // padding < alignment together with 4 | padding gives padding <= alignment - 4.
        assert(padding <= body_alignment - 4) by {
            lemma_fundamental_div_mod(padding, 4);
            lemma_fundamental_div_mod(body_alignment, 4);
            lemma_multiple_of_four_mod(body_alignment, body_alignment);
            assert(padding == 4 * (padding / 4) && body_alignment == 4 * (body_alignment / 4));
            assert(padding / 4 < body_alignment / 4 ==> 4 * (padding / 4) <= 4 * (body_alignment / 4) - 4)
                by (nonlinear_arith);
            assert(4 * (padding / 4) < 4 * (body_alignment / 4) ==> padding / 4 < body_alignment / 4)
                by (nonlinear_arith);
        }
        // The body's size is a multiple of its alignment, hence of four.
        lemma_multiple_of_four_mod(body_size, body_alignment);
        lemma_sum_of_multiples_of_four(4 + padding, body_size);
        lemma_sum_of_multiples_of_four(4, padding);
        lemma_sum_of_multiples_of_four(4 + (body_alignment - 4), body_size);
        lemma_sum_of_multiples_of_four(4, body_alignment - 4);
        lemma_difference_of_multiples_of_four(body_alignment, 4);
        lemma_multiple_of_four_mod(body_alignment, body_alignment);
    } else {
        // body_alignment is 1, 2 or 4; the body sits at offset 8 from the
        // frame start, which is a multiple of four.
        let rounded = spec_round_up_to_alignment(body_size, 4);
        lemma_round_up_to_alignment(body_size, 4);
        assert(8int % 4 == 0);
        lemma_sum_of_multiples_of_four(8, rounded);
        let body = window_offset + 8;
        lemma_sum_of_multiples_of_four(window_offset, 8);
        assert(body % 4 == 0);
        if body_alignment == 1 {
            lemma_fundamental_div_mod_converse(body, 1, body, 0);
        } else if body_alignment == 2 {
            lemma_fundamental_div_mod(body, 4);
            assert(body == 2 * (2 * (body / 4))) by (nonlinear_arith)
                requires
                    body == 4 * (body / 4),
            ;
            lemma_fundamental_div_mod_converse(body, 2, 2 * (body / 4), 0);
        }
    }
    let total = spec_total_message_size(window_offset, body_size, body_alignment);
    lemma_fundamental_div_mod(total, 4);
    lemma_fundamental_div_mod_converse(total, 2, 2 * (total / 4), 0);
}

/// The worst case is reached: for every body layout there is a frame start
/// offset at which the total frame size equals the reserved worst-case size.
pub proof fn lemma_worst_case_total_size_reached(body_size: int, body_alignment: int)
    requires
        valid_body_layout(body_size, body_alignment),
    ensures
        ({
            let window_offset = if body_alignment > 4 { body_alignment } else { 0 };
            &&& window_offset % 4 == 0
            &&& spec_total_message_size(window_offset, body_size, body_alignment)
                == spec_largest_possible_total_message_size(body_size, body_alignment)
        }),
{
    if body_alignment > 4 {
        let window_offset = body_alignment;
        lemma_multiple_of_four_mod(body_alignment, body_alignment);
        if body_size > 0 {
            let first = window_offset + 4;
            let body = spec_round_up_to_alignment(first, body_alignment);
            lemma_round_up_to_alignment(first, body_alignment);
            // The only multiple of the alignment in [first, first + alignment)
            // is twice the alignment, so the padding is alignment - 4.
            assert(body == 2 * body_alignment) by {
                lemma_fundamental_div_mod(body, body_alignment);
                let q = body / body_alignment;
                assert(body == body_alignment * q);
                assert(body_alignment * q >= body_alignment + 4 && body_alignment * q
                    < 2 * body_alignment + 4 ==> q == 2) by (nonlinear_arith)
                    requires
                        body_alignment >= 8,
                ;
            }
        }
    } else {
        lemma_small_mod(0nat, 4nat);
    }
}

/// The worst-case framed size for a body layout: what a producer reserves on
/// the ring before it knows where the frame will start.
pub fn largest_possible_total_message_size_including_message_header(
    body_size: usize,
    body_alignment: usize,
) -> (r: usize)
    requires
        valid_body_layout(body_size as int, body_alignment as int),
        body_size <= MAXIMUM_TOTAL_MESSAGE_SIZE,
    ensures
        r == spec_largest_possible_total_message_size(body_size as int, body_alignment as int),
        r <= MAXIMUM_TOTAL_MESSAGE_SIZE + MAXIMUM_BODY_ALIGNMENT,
{
    if body_size == 0 {
        4
    } else if body_alignment > 4 {
        4 + (body_alignment - 4) + body_size
    } else {
        proof {
            lemma_round_up_to_alignment(body_size as int, 4);
        }
        8 + round_up_to_alignment(body_size, 4)
    }
}

/// The smallest worst-case framed size any body can have: that of a
/// zero-sized body, a bare header.
pub fn smallest_possible_total_message_size_including_message_header() -> (r: usize)
    ensures
        r == spec_largest_possible_total_message_size(0, 1),
        r == MESSAGE_HEADER_SIZE,
{
    4
}

/// The padding a frame starting at `window_offset` needs before a body of the
/// given layout.
pub fn number_of_bytes_padding_to_align_message_body(
    window_offset: usize,
    body_size: usize,
    body_alignment: usize,
) -> (r: usize)
    requires
        window_offset % 4 == 0,
        window_offset + MAXIMUM_BODY_ALIGNMENT <= usize::MAX,
        valid_body_layout(body_size as int, body_alignment as int),
    ensures
        r == spec_body_padding(window_offset as int, body_size as int, body_alignment as int),
        r <= 252,
{
    proof {
        lemma_message_layout(window_offset as int, body_size as int, body_alignment as int);
    }
    if body_size == 0 {
        0
    } else if body_alignment > 4 {
        round_up_to_alignment(window_offset + 4, body_alignment) - (window_offset + 4)
    } else {
        4
    }
}

/// The actual total size of a frame starting at `window_offset` with a body
/// of the given layout.
pub fn total_message_size_for_window_offset(
    window_offset: usize,
    body_size: usize,
    body_alignment: usize,
) -> (r: usize)
    requires
        window_offset % 4 == 0,
        window_offset + MAXIMUM_BODY_ALIGNMENT <= usize::MAX,
        valid_body_layout(body_size as int, body_alignment as int),
        body_size <= MAXIMUM_TOTAL_MESSAGE_SIZE,
    ensures
        r == spec_total_message_size(window_offset as int, body_size as int, body_alignment as int),
{
    if body_size == 0 {
        4
    } else if body_alignment > 4 {
        let padding = number_of_bytes_padding_to_align_message_body(
            window_offset,
            body_size,
            body_alignment,
        );
        4 + padding + body_size
    } else {
        proof {
            lemma_round_up_to_alignment(body_size as int, 4);
        }
        8 + round_up_to_alignment(body_size, 4)
    }
}

/// Serialises one frame: the header, `padding` zero bytes, the body, and
/// zero tail padding up to `total` bytes.
pub fn encode_message_frame(
    compressed_type_identifier: CompressedTypeIdentifier,
    padding: usize,
    total: usize,
    message_body: &Vec<u8>,
) -> (r: Vec<u8>)
    requires
        padding <= 252,
        4 + padding + message_body@.len() <= total <= MAXIMUM_TOTAL_MESSAGE_SIZE,
        compressed_type_identifier.spec_index() < 255,
    ensures
        r@ == frame_bytes(
            FrameRec {
                compressed_type_identifier: compressed_type_identifier.spec_index() as u8,
                padding: padding as u8,
                total_size: total as u16,
                body: message_body@,
            },
        ),
        r@.len() == total,
{
    let ghost f = FrameRec {
        compressed_type_identifier: compressed_type_identifier.spec_index() as u8,
        padding: padding as u8,
        total_size: total as u16,
        body: message_body@,
    };
    let header = MessageHeader {
        compressed_type_identifier,
        number_of_bytes_padding_to_align_message_body: padding as u8,
        total_message_size_including_message_header_padding_to_align_before_message_body_and_padding_to_align_after:
            total as u16,
    };
    let mut r = header.encode();
    let mut i: usize = 0;
    while i < padding
        invariant
            i <= padding,
            r@ == header.spec_bytes() + zero_bytes(i as nat),
        decreases padding - i,
    {
        r.push(0);
        proof {
            assert(r@ =~= header.spec_bytes() + zero_bytes((i + 1) as nat));
        }
        i = i + 1;
    }
    let mut j: usize = 0;
    while j < message_body.len()
        invariant
            j <= message_body@.len(),
            r@ == header.spec_bytes() + zero_bytes(padding as nat) + message_body@.subrange(
                0,
                j as int,
            ),
        decreases message_body@.len() - j,
    {
        r.push(message_body[j]);
        proof {
            assert(r@ =~= header.spec_bytes() + zero_bytes(padding as nat)
                + message_body@.subrange(0, j + 1));
        }
        j = j + 1;
    }
    proof {
        assert(message_body@.subrange(0, message_body@.len() as int) =~= message_body@);
    }
    let tail = total - 4 - padding - message_body.len();
    let mut k: usize = 0;
    while k < tail
        invariant
            k <= tail,
            r@ == header.spec_bytes() + zero_bytes(padding as nat) + message_body@ + zero_bytes(
                k as nat,
            ),
        decreases tail - k,
    {
        r.push(0);
        proof {
            assert(r@ =~= header.spec_bytes() + zero_bytes(padding as nat) + message_body@
                + zero_bytes((k + 1) as nat));
        }
        k = k + 1;
    }
    proof {
        assert(header.spec_bytes() == spec_message_header_bytes(
            f.compressed_type_identifier as int,
            f.padding as int,
            f.total_size as int,
        ));
        assert(r@ =~= frame_bytes(f));
    }
    r
}

/// Parsing an empty span yields no frames.
pub proof fn lemma_parse_frames_empty(body_sizes: Seq<usize>)
    ensures
        parse_frames(Seq::empty(), body_sizes) == Some(Seq::<FrameRec>::empty()),
{
}

/// Appending one valid frame's bytes to a parseable span parses to the old
/// frames followed by the new one.
pub proof fn lemma_parse_frames_extend(bytes: Seq<u8>, body_sizes: Seq<usize>, f: FrameRec)
    requires
        parse_frames(bytes, body_sizes) is Some,
        frame_valid(f, body_sizes),
    ensures
        parse_frames(bytes + frame_bytes(f), body_sizes) == Some(
            parse_frames(bytes, body_sizes).unwrap().push(f),
        ),
    decreases bytes.len(),
{
    let e = frame_bytes(f);
    let fs = parse_frames(bytes, body_sizes).unwrap();
    lemma_total_size_bytes_roundtrip(f.total_size as int);
    assert(e.len() == f.total_size);
    if bytes.len() == 0 {
        assert(bytes + e =~= e);
        // A single frame's bytes parse to exactly that frame.
        let tag = e[0];
        let padding = e[1];
        let total = e[2] + 256 * (e[3] as int);
        assert(tag == f.compressed_type_identifier);
        assert(padding == f.padding);
        assert(total == f.total_size);
        let size = body_sizes[tag as int] as int;
        let g = FrameRec {
            compressed_type_identifier: tag,
            padding,
            total_size: total as u16,
            body: e.subrange(4 + padding, 4 + padding + size),
        };
        assert(g.body =~= f.body);
        assert(e.skip(total) =~= Seq::<u8>::empty());
        lemma_parse_frames_empty(body_sizes);
        assert(parse_frames(e.skip(total), body_sizes) == Some(Seq::<FrameRec>::empty()));
        assert(g == f);
        assert(parse_frames(e, body_sizes) == Some(seq![g] + Seq::<FrameRec>::empty()));
        assert(fs =~= Seq::<FrameRec>::empty());
        assert(seq![g] + Seq::<FrameRec>::empty() =~= fs.push(f));
    } else {
        let c = bytes + e;
        let tag0 = bytes[0];
        let total0 = bytes[2] + 256 * (bytes[3] as int);
        let size0 = body_sizes[tag0 as int] as int;
        assert(c[0] == bytes[0] && c[1] == bytes[1] && c[2] == bytes[2] && c[3] == bytes[3]);
        assert(c.subrange(4 + bytes[1], 4 + bytes[1] + size0) =~= bytes.subrange(
            4 + bytes[1],
            4 + bytes[1] + size0,
        ));
        assert(c.skip(total0) =~= bytes.skip(total0) + e);
        let rest = parse_frames(bytes.skip(total0), body_sizes).unwrap();
        lemma_parse_frames_extend(bytes.skip(total0), body_sizes, f);
        let f0 = FrameRec {
            compressed_type_identifier: tag0,
            padding: bytes[1],
            total_size: total0 as u16,
            body: bytes.subrange(4 + bytes[1], 4 + bytes[1] + size0),
        };
        assert(parse_frames(bytes, body_sizes) == Some(seq![f0] + rest));
        assert(parse_frames(c, body_sizes) == Some(seq![f0] + rest.push(f)));
        assert(fs =~= seq![f0] + rest);
        assert(seq![f0] + rest.push(f) =~= fs.push(f));
    }
}

/// What the first frame of a parseable, non-empty span looks like in the raw
/// bytes: the header fields sit in the first four bytes, the body where the
/// header's padding points, and the remainder parses to the remaining frames.
pub proof fn lemma_parse_frames_first(bytes: Seq<u8>, body_sizes: Seq<usize>)
    requires
        parse_frames(bytes, body_sizes) is Some,
        parse_frames(bytes, body_sizes).unwrap().len() > 0,
    ensures
        ({
            let fs = parse_frames(bytes, body_sizes).unwrap();
            let f = fs[0];
            &&& bytes.len() >= 4
            &&& frame_valid(f, body_sizes)
            &&& f.total_size <= bytes.len()
            &&& bytes[0] == f.compressed_type_identifier
            &&& bytes[1] == f.padding
            &&& bytes[2] + 256 * (bytes[3] as int) == f.total_size
            &&& f.body =~= bytes.subrange(4 + f.padding, 4 + f.padding + f.body.len())
            &&& parse_frames(bytes.skip(f.total_size as int), body_sizes) == Some(fs.skip(1))
        }),
{
    let fs = parse_frames(bytes, body_sizes).unwrap();
    let tag = bytes[0];
    let padding = bytes[1];
    let total = bytes[2] + 256 * (bytes[3] as int);
    let size = body_sizes[tag as int] as int;
    let f0 = FrameRec {
        compressed_type_identifier: tag,
        padding,
        total_size: total as u16,
        body: bytes.subrange(4 + padding, 4 + padding + size),
    };
    let rest = parse_frames(bytes.skip(total), body_sizes).unwrap();
    assert(fs == seq![f0] + rest);
    assert(fs[0] == f0);
    assert(fs.skip(1) =~= rest);
    lemma_small_mod(total as nat, 65536nat);
}

} // verus!
