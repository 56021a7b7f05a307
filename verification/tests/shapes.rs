use fbtext::{Color, FramebufferDescriptor, PixelFormat, PixelSink};

const INK: Color = Color { red: 1, green: 2, blue: 3, alpha: 4 };

fn sink_3x3<'a>(format: PixelFormat, bytes: &'a mut [u8]) -> PixelSink<'a> {
    // 3 by 3 visible pixels in rows of 4, one byte each, and two spare bytes.
    PixelSink::new(FramebufferDescriptor {
        width: 3,
        height: 3,
        stride: 4,
        bytes_per_pixel: 1,
        format,
        bytes,
    })
    .unwrap()
}

#[test]
fn fill_rect_writes_exactly_its_pixels() {
    let mut bytes = [0u8; 14];
    let mut sink = sink_3x3(PixelFormat::Rgb, &mut bytes);
    sink.fill_rect(1, 0, 2, 2, INK);
    assert_eq!(sink.bytes(), &[
        0, 1, 1, 0,
        0, 1, 1, 0,
        0, 0, 0, 0,
        0, 0,
    ]);
}

#[test]
fn fill_rect_is_clipped_to_the_visible_area() {
    let mut bytes = [0u8; 14];
    let mut sink = sink_3x3(PixelFormat::Rgb, &mut bytes);
    sink.fill_rect(2, 1, 6, 10, INK);
    assert_eq!(sink.bytes(), &[
        0, 0, 0, 0,
        0, 0, 1, 0,
        0, 0, 1, 0,
        0, 0,
    ]);
}

#[test]
fn fill_rect_survives_sizes_that_pass_the_largest_coordinate() {
    let mut bytes = [0u8; 14];
    let mut sink = sink_3x3(PixelFormat::Bgr, &mut bytes);
    sink.fill_rect(1, 2, usize::MAX, usize::MAX, INK);
    assert_eq!(sink.bytes(), &[
        0, 0, 0, 0,
        0, 0, 0, 0,
        0, 3, 3, 0,
        0, 0,
    ]);
}

#[test]
fn fill_rect_outside_or_empty_writes_nothing() {
    let mut bytes = [9u8; 14];
    let mut sink = sink_3x3(PixelFormat::Rgb, &mut bytes);
    sink.fill_rect(3, 0, 2, 2, INK);
    sink.fill_rect(0, 3, 2, 2, INK);
    sink.fill_rect(usize::MAX, usize::MAX, 5, 5, INK);
    sink.fill_rect(1, 1, 0, 2, INK);
    sink.fill_rect(1, 1, 2, 0, INK);
    assert_eq!(sink.bytes(), &[9u8; 14]);
}

#[test]
fn fill_rect_on_an_unsupported_format_writes_nothing() {
    let mut bytes = [9u8; 14];
    let mut sink = sink_3x3(PixelFormat::Other, &mut bytes);
    sink.fill_rect(0, 0, 3, 3, INK);
    assert_eq!(sink.bytes(), &[9u8; 14]);
}

#[test]
fn clear_fills_the_visible_area_and_spares_the_padding() {
    let mut bytes = [0u8; 14];
    let mut sink = sink_3x3(PixelFormat::Rgb, &mut bytes);
    sink.clear(INK);
    assert_eq!(sink.bytes(), &[
        1, 1, 1, 0,
        1, 1, 1, 0,
        1, 1, 1, 0,
        0, 0,
    ]);
}

#[test]
fn clear_equals_a_fill_of_the_full_surface() {
    let mut cleared = [0u8; 14];
    let mut filled = [0u8; 14];
    sink_3x3(PixelFormat::Bgr, &mut cleared).clear(INK);
    sink_3x3(PixelFormat::Bgr, &mut filled).fill_rect(0, 0, 3, 3, INK);
    assert_eq!(cleared, filled);
}

#[test]
fn clearing_twice_equals_clearing_once() {
    let mut once = [0u8; 48];
    let mut twice = [0u8; 48];
    for (i, byte) in once.iter_mut().enumerate() {
        *byte = i as u8;
    }
    twice.copy_from_slice(&once);
    let color = Color::rgba(10, 20, 30, 40);
    {
        let mut sink = PixelSink::new(FramebufferDescriptor {
            width: 3,
            height: 3,
            stride: 4,
            bytes_per_pixel: 4,
            format: PixelFormat::Bgr,
            bytes: &mut once,
        })
        .unwrap();
        sink.clear(color);
    }
    {
        let mut sink = PixelSink::new(FramebufferDescriptor {
            width: 3,
            height: 3,
            stride: 4,
            bytes_per_pixel: 4,
            format: PixelFormat::Bgr,
            bytes: &mut twice,
        })
        .unwrap();
        sink.clear(color);
        sink.clear(color);
    }
    assert_eq!(once, twice);
    assert_eq!(&once[..4], &[30, 20, 10, 40]);
    assert_eq!(&once[12..16], &[12, 13, 14, 15]);
}
