use otip::grid::{composite, GridConfig, GridProcessor, ImageFormat, RgbFrame};
use otip::error::ScannerError;

fn solid_frame(w: u32, h: u32, rgb: [u8; 3]) -> RgbFrame {
    let mut pixels = Vec::with_capacity((w * h * 3) as usize);
    for _ in 0..(w * h) {
        pixels.extend_from_slice(&rgb);
    }
    RgbFrame { width: w, height: h, pixels }
}

#[test]
fn test_create_grid() {
    let config = GridConfig::default();
    let processor = GridProcessor::new(config);
    let frames: Vec<RgbFrame> = (0..4u32)
        .map(|i| solid_frame(320, 240, [(i * 50) as u8, (i * 30) as u8, (i * 10) as u8]))
        .collect();
    let result = processor.create_grid(&frames);
    assert!(result.is_ok());
    let grid_bytes = result.unwrap();
    assert!(!grid_bytes.is_empty());
    let grid_img = image::load_from_memory(&grid_bytes).unwrap();
    assert_eq!(grid_img.width(), 640);
    assert_eq!(grid_img.height(), 480);
}

#[test]
fn test_grid_dimensions() {
    let config = GridConfig { grid_size: (2, 2), frame_resolution: (320, 240), ..Default::default() };
    let processor = GridProcessor::new(config);
    assert_eq!(processor.grid_dimensions(), (640, 480));
    assert_eq!(processor.frames_per_grid(), 4);
}

#[test]
fn test_create_grid_from_buffers() {
    let config = GridConfig::default();
    let processor = GridProcessor::new(config);
    let frame_size = 320 * 240 * 3;
    let frames: Vec<Vec<u8>> = (0..4)
        .map(|i| {
            let mut buf = vec![0u8; frame_size];
            for chunk in buf.chunks_exact_mut(3) {
                chunk[0] = (i * 50) as u8;
                chunk[1] = (i * 30) as u8;
                chunk[2] = (i * 10) as u8;
            }
            buf
        })
        .collect();
    let result = processor.create_grid_from_buffers(&frames);
    assert!(result.is_ok());
    let grid_bytes = result.unwrap();
    assert!(!grid_bytes.is_empty());
}

#[test]
fn composite_places_frames_row_by_row() {
    // 2 rows x 2 columns of 2x1 cells; the fourth cell has no frame.
    let frames = vec![
        solid_frame(2, 1, [1, 1, 1]),
        solid_frame(2, 1, [2, 2, 2]),
        solid_frame(1, 1, [3, 3, 3]),
    ];
    let px = composite(2, 2, 2, 1, &frames);
    assert_eq!(px.len(), 4 * 2 * 3);
    let first_row: Vec<u8> = px[..12].iter().step_by(3).copied().collect();
    assert_eq!(first_row, vec![1, 1, 2, 2]);
    let second_row: Vec<u8> = px[12..].iter().step_by(3).copied().collect();
    assert_eq!(second_row, vec![3, 0, 0, 0]);
}

#[test]
fn png_grid_decodes_to_the_composite() {
    let frames = vec![solid_frame(2, 2, [10, 20, 30]), solid_frame(2, 2, [40, 50, 60])];
    let processor = GridProcessor::new(GridConfig {
        grid_size: (1, 2),
        frame_resolution: (2, 2),
        output_format: ImageFormat::Png,
        quality: 85,
    });
    let bytes = processor.create_grid(&frames).unwrap();
    let img = image::load_from_memory(&bytes).unwrap().to_rgb8();
    assert_eq!(img.dimensions(), (4, 2));
    assert_eq!(img.get_pixel(0, 1).0, [10, 20, 30]);
    assert_eq!(img.get_pixel(3, 0).0, [40, 50, 60]);
}

#[test]
fn short_buffers_leave_cells_black() {
    let processor = GridProcessor::new(GridConfig {
        grid_size: (1, 2),
        frame_resolution: (1, 1),
        output_format: ImageFormat::Png,
        quality: 85,
    });
    let bytes = processor.create_grid_from_buffers(&vec![vec![9, 9, 9], vec![7]]).unwrap();
    let img = image::load_from_memory(&bytes).unwrap().to_rgb8();
    assert_eq!(img.get_pixel(0, 0).0, [9, 9, 9]);
    assert_eq!(img.get_pixel(1, 0).0, [0, 0, 0]);
}

#[test]
fn jpeg_too_large_is_a_grid_error() {
    let processor = GridProcessor::new(GridConfig {
        grid_size: (1, 1),
        frame_resolution: (70_000, 1),
        output_format: ImageFormat::Jpeg,
        quality: 75,
    });
    let res = processor.create_grid(&vec![]);
    assert!(matches!(res, Err(ScannerError::GridCreationFailed(_))));
}
