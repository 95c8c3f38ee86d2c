//! Tests of the per-file transform and the batch pipeline, run against the
//! real image codecs.

use thumbnailer::config::Config;
use thumbnailer::config::OutputFormat;
use thumbnailer::image_ops::JobError;
use thumbnailer::image_ops::transform_bytes;
use thumbnailer::pipeline::Job;
use thumbnailer::pipeline::count_failures;
use thumbnailer::pipeline::process_job;
use thumbnailer::pipeline::run_batch;
use thumbnailer::report::cause_bytes;
use thumbnailer::report::failure_line;

/// A small photographic-looking test image: a smooth two-axis gradient.
fn gradient_png(w: u32, h: u32) -> Vec<u8> {
    let img = image::RgbImage::from_fn(w, h, |x, y| {
        let r = ((x * 255) / w.max(1)) as u8;
        let g = ((y * 255) / h.max(1)) as u8;
        let b = (((x + y) * 127) / (w + h).max(1)) as u8;
        image::Rgb([r, g, b])
    });
    let mut buf = std::io::Cursor::new(Vec::new());
    image::DynamicImage::ImageRgb8(img)
        .write_to(&mut buf, image::ImageOutputFormat::Png)
        .unwrap();
    buf.into_inner()
}

fn config(width: u32, height: u32, quality: u8, format: OutputFormat) -> Config {
    Config::new(width, height, quality, format, None, false).unwrap()
}

fn decoded_dims(bytes: &[u8]) -> (u32, u32) {
    let img = image::load_from_memory(bytes).unwrap();
    (img.width(), img.height())
}

#[test]
fn transform_scales_down_within_bounds() {
    let src = gradient_png(10, 10);
    let cfg = config(4, 4, 85, OutputFormat::Png);
    let t = transform_bytes(&src, &cfg).unwrap();
    assert_eq!((t.src_width, t.src_height), (10, 10));
    assert_eq!((t.width, t.height), (4, 4));
    assert_eq!(decoded_dims(&t.bytes), (4, 4));
}

#[test]
fn transform_never_upscales() {
    let src = gradient_png(5, 5);
    let cfg = config(240, 160, 85, OutputFormat::Png);
    let t = transform_bytes(&src, &cfg).unwrap();
    assert_eq!((t.width, t.height), (5, 5));
    assert_eq!(decoded_dims(&t.bytes), (5, 5));
}

#[test]
fn transform_preserves_aspect_ratio() {
    let src = gradient_png(400, 300);
    let cfg = config(240, 160, 85, OutputFormat::Jpeg);
    let t = transform_bytes(&src, &cfg).unwrap();
    // The height binds: 400*160/300 rounds to 213.
    assert_eq!((t.width, t.height), (213, 160));
    assert!(t.width <= 240 && t.height <= 160);
    assert_eq!(decoded_dims(&t.bytes), (213, 160));
}

#[test]
fn transform_rejects_undecodable_bytes() {
    let cfg = config(240, 160, 85, OutputFormat::Jpeg);
    let r = transform_bytes(&b"this is not an image".to_vec(), &cfg);
    assert!(matches!(r, Err(JobError::Decode { .. })));
}

#[test]
fn zero_dimension_image_is_rejected_as_decode_failure() {
    // A farbfeld header may claim zero dimensions; the transform rejects
    // such an image itself rather than handing it to the resizer.
    let mut data = b"farbfeld".to_vec();
    data.extend_from_slice(&[0, 0, 0, 0, 0, 0, 0, 0]);
    let cfg = config(240, 160, 85, OutputFormat::Jpeg);
    assert!(matches!(transform_bytes(&data, &cfg), Err(JobError::Decode { .. })));
}

#[test]
fn transform_is_deterministic() {
    // The same bytes and configuration give byte-for-byte the same thumbnail.
    let src = gradient_png(64, 48);
    for format in [OutputFormat::Jpeg, OutputFormat::Png, OutputFormat::Webp] {
        let cfg = config(24, 24, 85, format);
        let a = transform_bytes(&src, &cfg).unwrap();
        let b = transform_bytes(&src, &cfg).unwrap();
        assert_eq!(a.bytes, b.bytes);
    }
}

#[test]
fn quality_shapes_only_jpeg_output() {
    let src = gradient_png(64, 64);
    // PNG ignores the quality entirely: identical output at any setting.
    let png_low = transform_bytes(&src, &config(32, 32, 5, OutputFormat::Png)).unwrap();
    let png_high = transform_bytes(&src, &config(32, 32, 95, OutputFormat::Png)).unwrap();
    assert_eq!(png_low.bytes, png_high.bytes);
    // JPEG at higher quality is at least as large for smooth content.
    let jpg_low = transform_bytes(&src, &config(32, 32, 50, OutputFormat::Jpeg)).unwrap();
    let jpg_high = transform_bytes(&src, &config(32, 32, 95, OutputFormat::Jpeg)).unwrap();
    assert!(jpg_high.bytes.len() >= jpg_low.bytes.len());
    assert_ne!(jpg_high.bytes, jpg_low.bytes);
}

#[test]
fn one_corrupt_file_does_not_disturb_the_others() {
    let good_a = gradient_png(16, 16);
    let corrupt = b"garbage bytes".to_vec();
    let good_b = gradient_png(20, 12);
    let jobs = vec![
        Job { path: b"in/a.png".to_vec(), data: good_a },
        Job { path: b"in/bad.png".to_vec(), data: corrupt },
        Job { path: b"in/b.png".to_vec(), data: good_b },
    ];
    let cfg = config(8, 8, 85, OutputFormat::Png);
    let outcomes = run_batch(&jobs, &cfg);
    assert_eq!(outcomes.len(), 3);
    assert_eq!(outcomes[0].path, b"in/a.png".to_vec());
    assert_eq!(outcomes[1].path, b"in/bad.png".to_vec());
    assert_eq!(outcomes[2].path, b"in/b.png".to_vec());
    assert!(outcomes[0].result.is_ok());
    assert!(outcomes[1].result.is_err());
    assert!(outcomes[2].result.is_ok());
    assert_eq!(count_failures(&outcomes), 1);
    // Exactly one failure line, and it names the corrupt file.
    let mut lines = Vec::new();
    for o in &outcomes {
        if let Err(e) = &o.result {
            lines.push(failure_line(&o.path, &cause_bytes(e)));
        }
    }
    assert_eq!(lines.len(), 1);
    assert!(lines[0].starts_with(b"failed in/bad.png: "));
}

#[test]
fn process_job_carries_its_path() {
    let cfg = config(8, 8, 85, OutputFormat::Png);
    let o = process_job(&b"in/x.png".to_vec(), &gradient_png(9, 9), &cfg);
    assert_eq!(o.path, b"in/x.png".to_vec());
    assert!(o.result.is_ok());
}

#[test]
fn path_error_has_its_own_cause_text() {
    assert_eq!(cause_bytes(&JobError::Path), b"not under input root".to_vec());
    assert_eq!(cause_bytes(&JobError::Io { cause: b"disk full".to_vec() }), b"disk full".to_vec());
}
