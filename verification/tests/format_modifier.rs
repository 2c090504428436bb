use compositor::format_modifier::{
    byte_order, drm_format_modifier_blob, extract_array, ByteOrder, DrmFormatParseError,
};

fn put32(order: ByteOrder, bytes: &mut Vec<u8>, value: u32) {
    match order {
        ByteOrder::Little => bytes.extend_from_slice(&value.to_le_bytes()),
        ByteOrder::Big => bytes.extend_from_slice(&value.to_be_bytes()),
    }
}

fn put64(order: ByteOrder, bytes: &mut Vec<u8>, value: u64) {
    match order {
        ByteOrder::Little => bytes.extend_from_slice(&value.to_le_bytes()),
        ByteOrder::Big => bytes.extend_from_slice(&value.to_be_bytes()),
    }
}

/// A blob with its formats and then its entries (formats, offset, modifier) after the header.
fn blob(order: ByteOrder, formats: &[u32], entries: &[(u64, u32, u64)]) -> Vec<u8> {
    let mut bytes = Vec::new();
    let modifiers_offset = 24 + 4 * formats.len() as u32;
    for word in [1, 7, formats.len() as u32, 24, entries.len() as u32, modifiers_offset] {
        put32(order, &mut bytes, word);
    }
    for format in formats {
        put32(order, &mut bytes, *format);
    }
    for (set, offset, modifier) in entries {
        put64(order, &mut bytes, *set);
        put32(order, &mut bytes, *offset);
        put32(order, &mut bytes, 0xdead_beef);
        put64(order, &mut bytes, *modifier);
    }
    bytes
}

fn read_le(bytes: &[u8]) -> Result<drm_format_modifier_blob, DrmFormatParseError> {
    drm_format_modifier_blob::read_in(ByteOrder::Little, bytes)
}

const XR24: u32 = 0x3432_5258;
const AR24: u32 = 0x3432_5241;

#[test]
fn reads_a_blob_in_both_byte_orders() {
    for order in [ByteOrder::Little, ByteOrder::Big] {
        let bytes = blob(order, &[XR24, AR24], &[(0b11, 0, 0), (0b10, 0, 0x0100_0000_0000_0002)]);
        let read = drm_format_modifier_blob::read_in(order, &bytes).unwrap();
        assert_eq!(read.version, 1);
        assert_eq!(read.flags, 7);
        assert_eq!(read.formats, vec![XR24, AR24]);
        assert_eq!(read.modifiers.len(), 2);
        assert_eq!(read.modifiers[1].formats, 0b10);
        assert_eq!(read.modifiers[1].offset, 0);
        assert_eq!(read.modifiers[1]._p, 0xdead_beef);
        assert_eq!(read.modifiers[1].modifier, 0x0100_0000_0000_0002);
        assert_eq!(read.modifiers_for(XR24), vec![0]);
        assert_eq!(read.modifiers_for(AR24), vec![0, 0x0100_0000_0000_0002]);
    }
}

#[test]
fn reads_a_blob_of_this_machine() {
    let order = if 1u16.to_ne_bytes() == [1, 0] { ByteOrder::Little } else { ByteOrder::Big };
    assert_eq!(byte_order(u16::from_ne_bytes([1, 0])), order);
    let bytes = blob(order, &[XR24], &[(1, 0, 5)]);
    assert_eq!(drm_format_modifier_blob::read(&bytes).unwrap().modifiers_for(XR24), vec![5]);
}

#[test]
fn rejects_a_blob_without_a_header() {
    let bytes = blob(ByteOrder::Little, &[], &[]);
    assert_eq!(bytes.len(), 24);
    assert!(read_le(&bytes).is_ok());
    assert_eq!(read_le(&bytes[..23]).unwrap_err(), DrmFormatParseError::MissingHeader);
    assert_eq!(read_le(&[]).unwrap_err(), DrmFormatParseError::MissingHeader);
}

#[test]
fn rejects_another_version_before_anything_else() {
    let mut bytes = blob(ByteOrder::Little, &[XR24], &[(1, 0, 5)]);
    bytes[0] = 2;
    bytes[8] = 200;
    let error = read_le(&bytes).unwrap_err();
    assert_eq!(error, DrmFormatParseError::UnsupportedVersion { version: 2 });
    assert_eq!(error.message(), "expected v1 of `drm_format_modifier_blob`, got 2");
}

#[test]
fn rejects_arrays_that_leave_the_blob() {
    let bytes = blob(ByteOrder::Little, &[XR24], &[(1, 0, 5)]);
    assert_eq!(
        read_le(&bytes[..bytes.len() - 1]).unwrap_err(),
        DrmFormatParseError::ModifiersOutOfBounds
    );
    assert_eq!(read_le(&bytes[..27]).unwrap_err(), DrmFormatParseError::FormatsOutOfBounds);
    // An empty array must not start past the end either.
    let mut past = blob(ByteOrder::Little, &[], &[]);
    past[12] = 25;
    assert_eq!(read_le(&past).unwrap_err(), DrmFormatParseError::FormatsOutOfBounds);
    past[12] = 24;
    assert!(read_le(&past).is_ok());
    past[23] = 0xff;
    assert_eq!(read_le(&past).unwrap_err(), DrmFormatParseError::ModifiersOutOfBounds);
}

#[test]
fn tells_what_is_wrong() {
    assert_eq!(DrmFormatParseError::Overflow.message(), "overflow in pointer arithmetic");
    assert_eq!(
        DrmFormatParseError::MissingHeader.message(),
        "valid header not present in the blob provided by drm"
    );
    assert_eq!(DrmFormatParseError::FormatsOutOfBounds.message(), "formats slice out of bounds");
    assert_eq!(
        DrmFormatParseError::ModifiersOutOfBounds.message(),
        "modifiers slice out of bounds"
    );
    assert_eq!(
        DrmFormatParseError::UnsupportedVersion { version: u32::MAX }.message(),
        "expected v1 of `drm_format_modifier_blob`, got 4294967295"
    );
}

#[test]
fn extracts_records_where_they_stand() {
    let bytes = [9, 1, 0, 0, 0, 2, 0, 0, 0];
    let words: Vec<u32> =
        extract_array(ByteOrder::Little, &bytes, 2, 1, DrmFormatParseError::FormatsOutOfBounds)
            .unwrap();
    assert_eq!(words, vec![1, 2]);
    let none: Result<Vec<u32>, _> =
        extract_array(ByteOrder::Little, &bytes, 2, 2, DrmFormatParseError::FormatsOutOfBounds);
    assert_eq!(none.unwrap_err(), DrmFormatParseError::FormatsOutOfBounds);
}

#[test]
fn bytes_after_the_blob_change_nothing() {
    let bytes = blob(ByteOrder::Little, &[XR24, AR24], &[(0b10, 0, 3)]);
    let mut longer = bytes.clone();
    longer.extend_from_slice(&[0xff; 40]);
    let (short, long) = (read_le(&bytes).unwrap(), read_le(&longer).unwrap());
    assert_eq!(short.formats, long.formats);
    assert_eq!(short.modifiers, long.modifiers);
    assert_eq!(short.flags, long.flags);
}

#[test]
fn a_format_that_is_not_listed_has_no_modifiers() {
    let read = read_le(&blob(ByteOrder::Little, &[XR24], &[(u64::MAX, 0, 3)])).unwrap();
    assert_eq!(read.modifiers_for(AR24), Vec::<u64>::new());
    assert_eq!(read.modifiers_for(XR24), vec![3]);
}

#[test]
fn entries_cover_sixty_four_formats_from_their_offset_on() {
    let formats: Vec<u32> = (0..130).collect();
    let entries = [(u64::MAX, 0, 10), (u64::MAX, 64, 11), (1, 128, 12), (1, 4_000_000_000, 13)];
    let read = read_le(&blob(ByteOrder::Little, &formats, &entries)).unwrap();
    assert_eq!(read.modifiers_for(0), vec![10]);
    assert_eq!(read.modifiers_for(63), vec![10]);
    assert_eq!(read.modifiers_for(64), vec![11]);
    assert_eq!(read.modifiers_for(127), vec![11]);
    assert_eq!(read.modifiers_for(128), vec![12]);
    assert_eq!(read.modifiers_for(129), Vec::<u64>::new());
}

#[test]
fn only_the_first_place_of_a_format_counts() {
    let read =
        read_le(&blob(ByteOrder::Little, &[AR24, XR24, XR24], &[(0b100, 0, 1), (0b10, 0, 2)]))
            .unwrap();
    assert_eq!(read.modifiers_for(XR24), vec![2]);
}
