use snowfall::layout::{encode, encode_all, encode_words, push_word, Plain};
use snowfall::records::{
    quad_vertices, FrameData, RectInstance, SnowflakeInstance, SnowflakeVertex,
};

fn bits(x: f32) -> u32 {
    x.to_bits()
}

fn floats(xs: &[f32]) -> Vec<u8> {
    let mut out = Vec::new();
    for x in xs {
        out.extend_from_slice(&x.to_le_bytes());
    }
    out
}

#[test]
fn a_word_is_laid_out_least_significant_byte_first() {
    assert_eq!(encode_words(&vec![0x0102_0304]), vec![4u8, 3, 2, 1]);
    assert_eq!(encode_words(&vec![0xffff_ffff, 0]), vec![255u8, 255, 255, 255, 0, 0, 0, 0]);
    assert_eq!(encode_words(&vec![]), Vec::<u8>::new());
}

#[test]
fn push_word_appends_four_bytes() {
    let mut out = vec![9u8];
    push_word(&mut out, 0xbf80_0000);
    assert_eq!(out, vec![9u8, 0x00, 0x00, 0x80, 0xbf]);
}

#[test]
fn a_word_has_the_bytes_of_the_number_it_stands_for() {
    for x in [0.0f32, 1.0, -1.0, 0.1, 100.0, 1.05, 0.015] {
        assert_eq!(encode_words(&vec![bits(x)]), x.to_le_bytes().to_vec());
    }
}

#[test]
fn frame_data_takes_twenty_four_bytes_in_declaration_order() {
    let frame = FrameData {
        dt: bits(0.016),
        time: bits(12.5),
        gravity: [bits(0.1), bits(-1.0)],
        aspect: bits(1.6),
        max_age: bits(100.0),
    };
    let bytes = encode(&frame);
    assert_eq!(bytes.len(), 24);
    assert_eq!(bytes, floats(&[0.016, 12.5, 0.1, -1.0, 1.6, 100.0]));
    assert_eq!(FrameData::byte_len(), 24);
    assert_eq!(frame.to_words().len(), 6);
}

#[test]
fn snowflake_takes_twenty_four_bytes_in_declaration_order() {
    let flake = SnowflakeInstance {
        pos: [bits(0.25), bits(-0.5)],
        vel: [bits(0.0), bits(-2.0)],
        scale: bits(0.01),
        age: bits(3.0),
    };
    assert_eq!(encode(&flake), floats(&[0.25, -0.5, 0.0, -2.0, 0.01, 3.0]));
    assert_eq!(SnowflakeInstance::byte_len(), 24);
}

#[test]
fn rect_takes_sixteen_bytes_in_declaration_order() {
    let rect = RectInstance { pos: [bits(0.1), bits(0.2)], dim: [bits(0.3), bits(0.4)] };
    assert_eq!(encode(&rect), floats(&[0.1, 0.2, 0.3, 0.4]));
    assert_eq!(RectInstance::byte_len(), 16);
}

#[test]
fn quad_is_two_triangles_of_forty_eight_bytes() {
    let mesh = quad_vertices();
    assert_eq!(mesh.len(), 6);
    assert_eq!(SnowflakeVertex::byte_len(), 8);
    let bytes = encode_all(&mesh);
    assert_eq!(
        bytes,
        floats(&[-1.0, 1.0, 1.0, 1.0, 1.0, -1.0, 1.0, -1.0, -1.0, -1.0, -1.0, 1.0])
    );
}

#[test]
fn an_array_of_records_is_one_record_after_the_other() {
    let a = RectInstance { pos: [1, 2], dim: [3, 4] };
    let b = RectInstance { pos: [5, 6], dim: [7, 8] };
    let mut expected = encode(&a);
    expected.extend_from_slice(&encode(&b));
    assert_eq!(encode_all(&vec![a, b]), expected);
    assert_eq!(encode_all(&Vec::<RectInstance>::new()), Vec::<u8>::new());
}
