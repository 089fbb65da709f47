use snowfall::layout::encode;
use snowfall::records::FrameData;
use snowfall::utils::{BindingType, BufferBindingType, UniformBuffer};

fn frame(dt: f32, time: f32) -> FrameData {
    FrameData {
        dt: dt.to_bits(),
        time: time.to_bits(),
        gravity: [0.1f32.to_bits(), (-1.0f32).to_bits()],
        aspect: 1.6f32.to_bits(),
        max_age: 100.0f32.to_bits(),
    }
}

fn read(bytes: &[u8], field: usize) -> f32 {
    let at = 4 * field;
    f32::from_le_bytes([bytes[at], bytes[at + 1], bytes[at + 2], bytes[at + 3]])
}

#[test]
fn a_new_buffer_holds_the_bytes_of_its_value() {
    let buf = UniformBuffer::new(frame(0.0, 0.0));
    assert_eq!(*buf.get(), frame(0.0, 0.0));
    assert_eq!(*buf.buffer(), encode(&frame(0.0, 0.0)));
}

#[test]
fn a_host_change_reaches_the_gpu_only_on_write() {
    let mut buf = UniformBuffer::new(frame(0.0, 0.0));
    buf.set(frame(0.5, 2.0));
    assert_eq!(*buf.get(), frame(0.5, 2.0));
    assert_eq!(*buf.buffer(), encode(&frame(0.0, 0.0)));
    buf.write();
    assert_eq!(*buf.buffer(), encode(&frame(0.5, 2.0)));
    assert_eq!(*buf.get(), frame(0.5, 2.0));
}

#[test]
fn write_with_an_unchanged_value_changes_no_byte() {
    let mut buf = UniformBuffer::new(frame(0.0, 0.0));
    buf.set(frame(0.25, 7.0));
    buf.write();
    let first = buf.buffer().clone();
    buf.write();
    assert_eq!(*buf.buffer(), first);
    buf.write();
    assert_eq!(*buf.buffer(), first);
}

#[test]
fn every_field_written_is_read_back_from_the_bytes() {
    let mut buf = UniformBuffer::new(frame(0.0, 0.0));
    let value = FrameData {
        dt: 0.016f32.to_bits(),
        time: 42.5f32.to_bits(),
        gravity: [0.0f32.to_bits(), (-9.81f32).to_bits()],
        aspect: 1.7777f32.to_bits(),
        max_age: 30.0f32.to_bits(),
    };
    buf.set(value);
    buf.write();
    let bytes = buf.buffer();
    assert_eq!(bytes.len(), 24);
    assert_eq!(read(bytes, 0), 0.016);
    assert_eq!(read(bytes, 1), 42.5);
    assert_eq!(read(bytes, 2), 0.0);
    assert_eq!(read(bytes, 3), -9.81);
    assert_eq!(read(bytes, 4), 1.7777);
    assert_eq!(read(bytes, 5), 30.0);
}

#[test]
fn the_binding_is_a_uniform_of_the_records_size() {
    let buf = UniformBuffer::new(frame(0.0, 0.0));
    assert_eq!(
        buf.binding_ty(),
        BindingType {
            ty: BufferBindingType::Uniform,
            has_dynamic_offset: false,
            min_binding_size: Some(24),
        }
    );
}
