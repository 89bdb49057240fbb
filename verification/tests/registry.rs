//! The body-type registry: tag assignment, lookup, capacity and size limits.

use message_dispatch::framing::{
    largest_possible_total_message_size_including_message_header,
    number_of_bytes_padding_to_align_message_body,
    smallest_possible_total_message_size_including_message_header,
    total_message_size_for_window_offset,
};
use message_dispatch::{CompressedTypeIdentifier, MessageHandlers, RegistrationError};

fn fresh() -> MessageHandlers {
    MessageHandlers::default()
}

#[test]
fn tags_are_assigned_monotonically_from_zero() {
    let mut handlers = fresh();
    for i in 0..10u64 {
        let tag = handlers
            .register_message_handler_internal(1000 + i, 8, 8)
            .expect("registration succeeds");
        assert_eq!(tag.index(), i as usize);
    }
    assert_eq!(handlers.number_of_registrations(), 10);
}

#[test]
fn register_exactly_255_types_then_the_256th_is_refused() {
    let mut handlers = fresh();
    for i in 0..255u64 {
        let tag = handlers
            .register_message_handler_internal(5000 + i, 16, 8)
            .expect("registration succeeds");
        assert_eq!(tag.index(), i as usize);
    }
    assert_eq!(handlers.number_of_registrations(), 255);
    let refused = handlers.register_message_handler_internal(9999, 16, 8);
    assert_eq!(refused, Err(RegistrationError::TableFull));
    assert_eq!(handlers.number_of_registrations(), 255);
}

#[test]
fn duplicate_type_registration_is_refused() {
    let mut handlers = fresh();
    handlers
        .register_message_handler_internal(77, 4, 4)
        .expect("registration succeeds");
    let refused = handlers.register_message_handler_internal(77, 4, 4);
    assert_eq!(refused, Err(RegistrationError::DuplicateBodyType));
    assert_eq!(handlers.number_of_registrations(), 1);
}

#[test]
fn find_returns_the_assigned_tag_and_none_for_strangers() {
    let mut handlers = fresh();
    let first = handlers
        .register_message_handler_internal(11, 8, 8)
        .expect("registration succeeds");
    let second = handlers
        .register_message_handler_internal(22, 1, 1)
        .expect("registration succeeds");
    let found_first = handlers
        .find_fixed_size_message_body_compressed_type_identifier_from_type_identifier(11)
        .expect("present");
    let found_second = handlers
        .find_fixed_size_message_body_compressed_type_identifier_from_type_identifier(22)
        .expect("present");
    assert_eq!(found_first.index(), first.index());
    assert_eq!(found_second.index(), second.index());
    assert!(handlers
        .find_fixed_size_message_body_compressed_type_identifier_from_type_identifier(33)
        .is_none());
}

#[test]
fn entry_returns_what_was_registered() {
    let mut handlers = fresh();
    let tag = handlers
        .register_message_handler_internal(4242, 32, 16)
        .expect("registration succeeds");
    let registration = handlers.entry(tag);
    assert_eq!(registration.type_identifier, 4242);
    assert_eq!(registration.body_size, 32);
    assert_eq!(registration.body_alignment, 16);
}

#[test]
fn bodies_whose_worst_case_frame_exceeds_the_16_bit_total_are_refused() {
    let mut handlers = fresh();
    // Worst case for alignment 4 is 8 + size rounded up to four: 65524 fits.
    handlers
        .register_message_handler_internal(1, 65524, 4)
        .expect("largest admissible body registers");
    // Four more bytes push the worst case to 65536, past the field.
    let refused = handlers.register_message_handler_internal(2, 65528, 4);
    assert_eq!(refused, Err(RegistrationError::BodyTooLarge));
    // A highly aligned body pays its alignment in the worst case.
    let refused = handlers.register_message_handler_internal(3, 65280, 256);
    assert_eq!(refused, Err(RegistrationError::BodyTooLarge));
}

#[test]
fn queue_size_in_bytes_is_the_largest_frame_times_the_count() {
    let mut handlers = fresh();
    assert_eq!(handlers.queue_size_in_bytes(10), 40);
    handlers
        .register_message_handler_internal(1, 8, 8)
        .expect("registration succeeds");
    // Worst case for an 8-byte, 8-aligned body: 4 + 4 + 8.
    assert_eq!(handlers.queue_size_in_bytes(10), 160);
    handlers
        .register_message_handler_internal(2, 4, 4)
        .expect("registration succeeds");
    // A smaller body does not lower the running maximum.
    assert_eq!(handlers.queue_size_in_bytes(10), 160);
}

#[test]
fn worst_case_framed_sizes_are_exact() {
    assert_eq!(smallest_possible_total_message_size_including_message_header(), 4);
    // Zero-sized bodies frame as a bare header.
    assert_eq!(largest_possible_total_message_size_including_message_header(0, 1), 4);
    assert_eq!(largest_possible_total_message_size_including_message_header(0, 32), 4);
    // Bodies aligned at most to the header sit at a fixed offset of eight.
    assert_eq!(largest_possible_total_message_size_including_message_header(1, 1), 12);
    assert_eq!(largest_possible_total_message_size_including_message_header(4, 4), 12);
    assert_eq!(largest_possible_total_message_size_including_message_header(64, 1), 72);
    // More aligned bodies reserve their worst-case pre-padding.
    assert_eq!(largest_possible_total_message_size_including_message_header(8, 8), 16);
    assert_eq!(largest_possible_total_message_size_including_message_header(16, 16), 32);
    assert_eq!(largest_possible_total_message_size_including_message_header(32, 32), 64);
}

#[test]
fn body_padding_places_the_body_on_its_alignment_boundary() {
    for &alignment in &[1usize, 2, 4, 8, 16, 32, 64, 128, 256] {
        let body_size = if alignment < 4 { 4 * alignment } else { alignment };
        let largest =
            largest_possible_total_message_size_including_message_header(body_size, alignment);
        for offset_step in 0..64usize {
            let window_offset = offset_step * 4;
            let padding = number_of_bytes_padding_to_align_message_body(
                window_offset,
                body_size,
                alignment,
            );
            let total =
                total_message_size_for_window_offset(window_offset, body_size, alignment);
            assert_eq!((window_offset + 4 + padding) % alignment, 0);
            assert!(padding <= 252);
            assert!(4 + padding + body_size <= total);
            assert!(total <= largest);
            assert_eq!(total % 4, 0);
        }
    }
}

#[test]
fn message_header_encodes_and_decodes_byte_exactly() {
    let header = message_dispatch::MessageHeader {
        compressed_type_identifier: CompressedTypeIdentifier::from_index(7),
        number_of_bytes_padding_to_align_message_body: 4,
        total_message_size_including_message_header_padding_to_align_before_message_body_and_padding_to_align_after:
            0x1234,
    };
    let bytes = header.encode();
    assert_eq!(bytes, vec![7, 4, 0x34, 0x12]);
    let decoded = message_dispatch::MessageHeader::decode(&bytes);
    assert_eq!(decoded, header);
    assert_eq!(
        decoded
            .total_message_size_including_message_header_padding_to_align_before_message_body_and_padding_to_align_after(),
        0x1234
    );
    assert_eq!(decoded.number_of_bytes_padding_to_align_message_body(), 4);
    assert_eq!(decoded.message_body_offset(), 8);
}

#[test]
fn compressed_type_identifier_next_follows_the_table_length() {
    let tag = CompressedTypeIdentifier::next(0);
    assert_eq!(tag.index(), 0);
    let tag = CompressedTypeIdentifier::next(254);
    assert_eq!(tag.index(), 254);
    let tag = CompressedTypeIdentifier::from_index(9);
    assert_eq!(tag.index(), 9);
}
