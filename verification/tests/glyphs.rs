use fbtext::{Color, FramebufferDescriptor, GlyphRaster, PixelFormat, PixelSink, INTENSITY_THRESHOLD};

const INK: Color = Color { red: 1, green: 2, blue: 3, alpha: 4 };

fn sink_4x3<'a>(bytes: &'a mut [u8]) -> PixelSink<'a> {
    PixelSink::new(FramebufferDescriptor {
        width: 4,
        height: 3,
        stride: 4,
        bytes_per_pixel: 1,
        format: PixelFormat::Rgb,
        bytes,
    })
    .unwrap()
}

#[test]
fn the_threshold_is_eight() {
    assert_eq!(INTENSITY_THRESHOLD, 8);
}

#[test]
fn blit_lights_cells_above_the_threshold_only() {
    let rows: [&[u8]; 2] = [&[0, 8, 9], &[255, 7, 200]];
    let raster = GlyphRaster { width: 3, height: 2, rows: &rows };
    let mut bytes = [0u8; 12];
    let mut sink = sink_4x3(&mut bytes);
    assert_eq!(sink.blit(1, 1, &raster, INK), Some(4));
    assert_eq!(sink.bytes(), &[
        0, 0, 0, 0, //
        0, 0, 0, 1, //
        0, 1, 0, 1,
    ]);
}

#[test]
fn blit_leaves_unlit_cells_as_they_were() {
    let rows: [&[u8]; 2] = [&[0, 100], &[100, 0]];
    let raster = GlyphRaster { width: 2, height: 2, rows: &rows };
    let mut bytes = [7u8; 12];
    let mut sink = sink_4x3(&mut bytes);
    assert_eq!(sink.blit(0, 0, &raster, INK), Some(2));
    assert_eq!(sink.bytes(), &[
        7, 1, 7, 7, //
        1, 7, 7, 7, //
        7, 7, 7, 7,
    ]);
}

#[test]
fn blit_is_clipped_at_the_right_and_bottom_edges() {
    let rows: [&[u8]; 3] = [&[90, 90, 90], &[90, 90, 90], &[90, 90, 90]];
    let raster = GlyphRaster { width: 3, height: 3, rows: &rows };
    let mut bytes = [0u8; 12];
    let mut sink = sink_4x3(&mut bytes);
    assert_eq!(sink.blit(2, 1, &raster, INK), Some(5));
    assert_eq!(sink.bytes(), &[
        0, 0, 0, 0, //
        0, 0, 1, 1, //
        0, 0, 1, 1,
    ]);
}

#[test]
fn blit_outside_the_visible_area_writes_nothing() {
    let rows: [&[u8]; 1] = [&[90, 90]];
    let raster = GlyphRaster { width: 2, height: 1, rows: &rows };
    let mut bytes = [0u8; 12];
    let mut sink = sink_4x3(&mut bytes);
    assert_eq!(sink.blit(4, 0, &raster, INK), Some(6));
    assert_eq!(sink.blit(0, 3, &raster, INK), Some(2));
    assert_eq!(sink.bytes(), &[0u8; 12]);
}

#[test]
fn blit_returns_the_column_right_of_the_box_not_of_the_cells() {
    let rows: [&[u8]; 1] = [&[90]];
    let raster = GlyphRaster { width: 7, height: 16, rows: &rows };
    let mut bytes = [0u8; 12];
    let mut sink = sink_4x3(&mut bytes);
    assert_eq!(sink.blit(3, 2, &raster, INK), Some(10));
    assert_eq!(sink.bytes(), &[
        0, 0, 0, 0, //
        0, 0, 0, 0, //
        0, 0, 0, 1,
    ]);
}

#[test]
fn blit_has_no_next_column_beyond_the_largest_coordinate() {
    let rows: [&[u8]; 1] = [&[90, 90]];
    let raster = GlyphRaster { width: 2, height: 1, rows: &rows };
    let mut bytes = [0u8; 12];
    let mut sink = sink_4x3(&mut bytes);
    assert_eq!(sink.blit(usize::MAX - 2, 0, &raster, INK), Some(usize::MAX));
    assert_eq!(sink.blit(usize::MAX - 1, 0, &raster, INK), None);
    assert_eq!(sink.blit(usize::MAX, usize::MAX, &raster, INK), None);
    assert_eq!(sink.bytes(), &[0u8; 12]);
}

#[test]
fn blit_takes_rows_of_any_length() {
    let rows: [&[u8]; 3] = [&[90], &[], &[0, 0, 90]];
    let raster = GlyphRaster { width: 3, height: 3, rows: &rows };
    let mut bytes = [0u8; 12];
    let mut sink = sink_4x3(&mut bytes);
    assert_eq!(sink.blit(0, 0, &raster, INK), Some(3));
    assert_eq!(sink.bytes(), &[
        1, 0, 0, 0, //
        0, 0, 0, 0, //
        0, 0, 1, 0,
    ]);
}

#[test]
fn blit_on_an_unsupported_format_writes_nothing() {
    let rows: [&[u8]; 1] = [&[90, 90]];
    let raster = GlyphRaster { width: 2, height: 1, rows: &rows };
    let mut bytes = [0u8; 12];
    let mut sink = PixelSink::new(FramebufferDescriptor {
        width: 4,
        height: 3,
        stride: 4,
        bytes_per_pixel: 1,
        format: PixelFormat::Other,
        bytes: &mut bytes,
    })
    .unwrap();
    assert_eq!(sink.blit(0, 0, &raster, INK), Some(2));
    assert_eq!(sink.bytes(), &[0u8; 12]);
}
