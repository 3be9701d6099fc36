use deepfilter_ort::codec::{classify_unity, decode_sample, encode_sample, ByteOrder, SAMPLE_BYTES, UNITY};

#[test]
fn unity_encodes_least_significant_byte_first() {
    assert_eq!(encode_sample(1.0f32.to_bits()), [0x00, 0x00, 0x80, 0x3F]);
}

#[test]
fn unity_decodes_exactly() {
    let bits = decode_sample([0x00, 0x00, 0x80, 0x3F]);
    assert_eq!(bits, 0x3F80_0000);
    assert_eq!(f32::from_bits(bits), 1.0);
}

#[test]
fn unity_constant_is_the_number_one() {
    assert_eq!(UNITY, 1.0f32.to_bits());
    assert_eq!(SAMPLE_BYTES, 4);
}

#[test]
fn encode_sample_agrees_with_the_platform_encoding() {
    let values = [1.0f32, -1.0, 0.0, 3.1415927, 123.456, 2.0, 3.0, 4.0, 5.0];
    for v in values {
        assert_eq!(encode_sample(v.to_bits()), v.to_le_bytes());
    }
}

#[test]
fn decode_sample_agrees_with_the_platform_decoding() {
    let groups = [[0u8, 0, 0x80, 0x3F], [0xDB, 0x0F, 0x49, 0x40], [1, 2, 3, 4], [0xFF, 0xFF, 0xFF, 0xFF]];
    for g in groups {
        assert_eq!(decode_sample(g), f32::from_le_bytes(g).to_bits());
        assert_eq!(decode_sample(g), u32::from_le_bytes(g));
    }
}

#[test]
fn known_patterns_have_known_bytes() {
    assert_eq!(encode_sample((-1.0f32).to_bits()), [0x00, 0x00, 0x80, 0xBF]);
    assert_eq!(encode_sample(0.0f32.to_bits()), [0x00, 0x00, 0x00, 0x00]);
    assert_eq!(encode_sample(0x0102_0304), [0x04, 0x03, 0x02, 0x01]);
    assert_eq!(decode_sample([0x04, 0x03, 0x02, 0x01]), 0x0102_0304);
}

#[test]
fn special_values_survive_a_round_trip() {
    let values = [
        -0.0f32,
        0.0,
        f32::MIN_POSITIVE,
        f32::from_bits(1),
        f32::from_bits(0x007F_FFFF),
        f32::from_bits(0x8000_0001),
        f32::MAX,
        f32::MIN,
        f32::INFINITY,
        f32::NEG_INFINITY,
        f32::EPSILON,
    ];
    for v in values {
        let bits = v.to_bits();
        assert_eq!(decode_sample(encode_sample(bits)), bits);
    }
    let nan = 0x7FC0_1234u32;
    assert_eq!(decode_sample(encode_sample(nan)), nan);
    assert_eq!(encode_sample((-0.0f32).to_bits()), [0, 0, 0, 0x80]);
}

#[test]
fn bytes_survive_a_round_trip() {
    let groups = [[0u8, 0, 0, 0], [255, 255, 255, 255], [1, 0, 0, 0], [0, 0, 0, 1], [0x12, 0x34, 0x56, 0x78]];
    for g in groups {
        assert_eq!(encode_sample(decode_sample(g)), g);
    }
}

#[test]
fn byte_order_is_told_from_the_number_one() {
    assert_eq!(classify_unity([0x00, 0x00, 0x80, 0x3F]), ByteOrder::LittleEndian);
    assert_eq!(classify_unity([0x3F, 0x80, 0x00, 0x00]), ByteOrder::BigEndian);
    assert_eq!(classify_unity([0x00, 0x00, 0x80, 0xBF]), ByteOrder::Unknown);
    assert_eq!(classify_unity([0, 0, 0, 0]), ByteOrder::Unknown);
    assert_eq!(classify_unity(1.0f32.to_le_bytes()), ByteOrder::LittleEndian);
    assert_eq!(classify_unity(1.0f32.to_be_bytes()), ByteOrder::BigEndian);
}
