use toast::pipeline::{decode_screenshot, image_from_decoded, scale_image, RenderError, RenderPipeline};
use toast::types::{AnsiColor, ImageFormat, RgbImage, Screenshot};

fn white_png(width: u32, height: u32) -> Vec<u8> {
    let mut img_buffer = image::RgbImage::new(width, height);
    for pixel in img_buffer.pixels_mut() {
        *pixel = image::Rgb([255, 255, 255]);
    }
    let mut png_data = Vec::new();
    img_buffer
        .write_to(&mut std::io::Cursor::new(&mut png_data), image::ImageFormat::Png)
        .unwrap();
    png_data
}

#[test]
fn test_decode_simple_image() {
    let screenshot = Screenshot { data: white_png(2, 2), format: ImageFormat::Png };

    let decoded = decode_screenshot(&screenshot).unwrap();
    assert_eq!(decoded.width, 2);
    assert_eq!(decoded.height, 2);
    assert_eq!(decoded.data.len(), 2 * 2 * 3);
}

#[test]
fn decode_rejects_garbage_and_wrong_format() {
    let garbage = Screenshot { data: vec![1, 2, 3, 4], format: ImageFormat::Png };
    assert_eq!(decode_screenshot(&garbage).unwrap_err(), RenderError::Decode);
    let mislabeled = Screenshot { data: white_png(2, 2), format: ImageFormat::Jpeg };
    assert_eq!(decode_screenshot(&mislabeled).unwrap_err(), RenderError::Decode);
}

#[test]
fn decoded_length_must_match() {
    assert_eq!(image_from_decoded(None).unwrap_err(), RenderError::Decode);
    assert_eq!(image_from_decoded(Some((vec![0; 5], 1, 2))).unwrap_err(), RenderError::Decode);
    let ok = image_from_decoded(Some((vec![7; 6], 1, 2))).unwrap();
    assert_eq!((ok.width, ok.height, ok.data), (1, 2, vec![7; 6]));
}

#[test]
fn test_scale_image_upscale() {
    let data = vec![255u8; 2 * 2 * 3];
    let image = RgbImage::new(data, 2, 2);

    let scaled = scale_image(&image, 4, 4).unwrap();

    assert_eq!(scaled.width, 4);
    assert_eq!(scaled.height, 4);
    assert_eq!(scaled.data.len(), 4 * 4 * 3);
}

#[test]
fn test_scale_image_downscale() {
    let data = vec![255u8; 4 * 4 * 3];
    let image = RgbImage::new(data, 4, 4);

    let scaled = scale_image(&image, 2, 2).unwrap();

    assert_eq!(scaled.width, 2);
    assert_eq!(scaled.height, 2);
    assert_eq!(scaled.data.len(), 2 * 2 * 3);
}

#[test]
fn test_scale_image_no_change() {
    let data = vec![255u8; 2 * 2 * 3];
    let image = RgbImage::new(data, 2, 2);

    let scaled = scale_image(&image, 2, 2).unwrap();

    assert_eq!(scaled.width, 2);
    assert_eq!(scaled.height, 2);
}

#[test]
fn scale_refuses_zero_sizes() {
    let image = RgbImage::new(vec![255u8; 12], 2, 2);
    assert_eq!(scale_image(&image, 0, 2).unwrap_err(), RenderError::Scale);
    let empty = RgbImage::new(vec![], 0, 0);
    assert_eq!(scale_image(&empty, 2, 2).unwrap_err(), RenderError::Scale);
}

#[test]
fn pipeline_turns_png_into_white_frame() {
    let pipeline = RenderPipeline::new();
    let screenshot = Screenshot { data: white_png(8, 8), format: ImageFormat::Png };
    let frame = pipeline.render(&screenshot, 4, 2).unwrap();
    assert_eq!((frame.width, frame.height, frame.cells.len()), (4, 2, 8));
    assert!(frame.cells.iter().all(|c| c.foreground == AnsiColor(15) && c.background == AnsiColor(15)));
    assert_eq!(pipeline.render(&screenshot, 0, 2).unwrap_err(), RenderError::Scale);
}

#[test]
fn decode_and_scale_depend_on_their_input_alone() {
    let pipeline = RenderPipeline::new();
    let screenshot = Screenshot { data: white_png(6, 5), format: ImageFormat::Png };
    let first = pipeline.render(&screenshot, 3, 2).unwrap();
    let second = pipeline.render(&screenshot, 3, 2).unwrap();
    assert_eq!(first.cells, second.cells);
    let image = RgbImage::new(vec![0, 0, 0, 255, 255, 255], 2, 1);
    let wide = scale_image(&image, 4, 1).unwrap();
    assert_eq!(wide.data, scale_image(&image, 4, 1).unwrap().data);
    assert_ne!(wide.data.len(), image.data.len());
}
