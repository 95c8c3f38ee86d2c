//! Tests of the pure logic: configuration validation, discovery filtering,
//! destination paths, resize arithmetic, and report formatting.

use thumbnailer::config::ArgumentError;
use thumbnailer::config::Config;
use thumbnailer::config::OutputFormat;
use thumbnailer::config::effective_quality;
use thumbnailer::config::effective_workers;
use thumbnailer::config::extension_for;
use thumbnailer::paths::dest_path;
use thumbnailer::paths::extension_of;
use thumbnailer::paths::filter_image_paths;
use thumbnailer::paths::is_image_path;
use thumbnailer::paths::rel_path;
use thumbnailer::report::decimal_bytes;
use thumbnailer::report::failure_line;
use thumbnailer::report::summary_line;
use thumbnailer::resize::fit_dimensions;

#[test]
fn extension_for_each_format() {
    assert_eq!(extension_for(OutputFormat::Jpeg), b"jpg".to_vec());
    assert_eq!(extension_for(OutputFormat::Png), b"png".to_vec());
    assert_eq!(extension_for(OutputFormat::Webp), b"webp".to_vec());
}

#[test]
fn quality_reaches_only_jpeg() {
    assert_eq!(effective_quality(OutputFormat::Jpeg, 85), 85);
    assert_eq!(effective_quality(OutputFormat::Jpeg, 50), 50);
    assert_eq!(effective_quality(OutputFormat::Png, 85), effective_quality(OutputFormat::Png, 5));
    assert_eq!(effective_quality(OutputFormat::Webp, 85), effective_quality(OutputFormat::Webp, 5));
}

#[test]
fn config_validation() {
    let ok = Config::new(240, 160, 85, OutputFormat::Jpeg, None, false).unwrap();
    assert_eq!(ok.width, 240);
    assert_eq!(ok.height, 160);
    assert_eq!(ok.quality, 85);
    assert!(matches!(
        Config::new(0, 160, 85, OutputFormat::Jpeg, None, false),
        Err(ArgumentError::ZeroWidth)
    ));
    assert!(matches!(
        Config::new(240, 0, 85, OutputFormat::Jpeg, None, false),
        Err(ArgumentError::ZeroHeight)
    ));
    assert!(matches!(
        Config::new(240, 160, 101, OutputFormat::Jpeg, None, false),
        Err(ArgumentError::QualityOutOfRange)
    ));
}

#[test]
fn worker_count_routing() {
    assert_eq!(effective_workers(Some(4), 8), 4);
    assert_eq!(effective_workers(Some(0), 8), 8);
    assert_eq!(effective_workers(None, 8), 8);
    assert!(effective_workers(None, 1) >= 1);
}

#[test]
fn extension_extraction() {
    assert_eq!(extension_of(&b"a/b/c.png".to_vec()), Some(b"png".to_vec()));
    assert_eq!(extension_of(&b"photo.JPEG".to_vec()), Some(b"JPEG".to_vec()));
    assert_eq!(extension_of(&b"a/b/noext".to_vec()), None);
    assert_eq!(extension_of(&b"a/.hidden".to_vec()), None);
    assert_eq!(extension_of(&b"a/.hidden.png".to_vec()), Some(b"png".to_vec()));
    assert_eq!(extension_of(&b"dir.d/file".to_vec()), None);
    assert_eq!(extension_of(&b"trailing.".to_vec()), Some(b"".to_vec()));
}

#[test]
fn whitelist_is_case_insensitive() {
    assert!(is_image_path(&b"x/y.png".to_vec()));
    assert!(is_image_path(&b"x/y.PNG".to_vec()));
    assert!(is_image_path(&b"x/y.JpEg".to_vec()));
    assert!(is_image_path(&b"x/y.webp".to_vec()));
    assert!(is_image_path(&b"x/y.BMP".to_vec()));
    assert!(is_image_path(&b"x/y.tiff".to_vec()));
    assert!(!is_image_path(&b"x/y.txt".to_vec()));
    assert!(!is_image_path(&b"x/y.png.bak".to_vec()));
    assert!(!is_image_path(&b"x/png".to_vec()));
    assert!(!is_image_path(&b"x/.png".to_vec()));
}

#[test]
fn discovery_filter_keeps_exactly_the_whitelisted() {
    let tree = vec![
        b"in/a.PNG".to_vec(),
        b"in/b.txt".to_vec(),
        b"in/c/d.jpeg".to_vec(),
        b"in/c/e".to_vec(),
        b"in/f.WEBP".to_vec(),
        b"in/.png".to_vec(),
    ];
    let kept = filter_image_paths(&tree);
    assert_eq!(
        kept,
        vec![b"in/a.PNG".to_vec(), b"in/c/d.jpeg".to_vec(), b"in/f.WEBP".to_vec()]
    );
}

#[test]
fn relative_paths() {
    assert_eq!(rel_path(&b"input/a/b.png".to_vec(), &b"input".to_vec()), Some(b"a/b.png".to_vec()));
    assert_eq!(rel_path(&b"input/a/b.png".to_vec(), &b"input/".to_vec()), Some(b"a/b.png".to_vec()));
    assert_eq!(rel_path(&b"other/a.png".to_vec(), &b"input".to_vec()), None);
    assert_eq!(rel_path(&b"inputx/a.png".to_vec(), &b"input".to_vec()), None);
    assert_eq!(rel_path(&b"input".to_vec(), &b"input".to_vec()), None);
}

#[test]
fn mirrored_path() {
    // A file at input/a/b/c.png, output root out, format webp, lands at
    // out/a/b/c.webp.
    let d = dest_path(
        &b"input/a/b/c.png".to_vec(),
        &b"input".to_vec(),
        &b"out".to_vec(),
        OutputFormat::Webp,
    );
    assert_eq!(d, Some(b"out/a/b/c.webp".to_vec()));
}

#[test]
fn mirrored_path_variants() {
    let d = dest_path(
        &b"input/x.JPEG".to_vec(),
        &b"input".to_vec(),
        &b"out/".to_vec(),
        OutputFormat::Jpeg,
    );
    assert_eq!(d, Some(b"out/x.jpg".to_vec()));
    let d = dest_path(&b"input/a/file".to_vec(), &b"input".to_vec(), &b"out".to_vec(), OutputFormat::Png);
    assert_eq!(d, Some(b"out/a/file.png".to_vec()));
    let d = dest_path(&b"elsewhere/a.png".to_vec(), &b"input".to_vec(), &b"out".to_vec(), OutputFormat::Png);
    assert_eq!(d, None);
}

#[test]
fn mirrored_path_collision_is_last_writer_wins() {
    // Two sources differing only in extension map to one destination once
    // extensions are normalized: a silent overwrite, not an error.
    let a = dest_path(&b"in/x.png".to_vec(), &b"in".to_vec(), &b"out".to_vec(), OutputFormat::Jpeg);
    let b = dest_path(&b"in/x.jpg".to_vec(), &b"in".to_vec(), &b"out".to_vec(), OutputFormat::Jpeg);
    assert_eq!(a, b);
    assert_eq!(a, Some(b"out/x.jpg".to_vec()));
}

#[test]
fn fit_dimensions_height_binding() {
    // 4000x3000 into 240x160: the height binds; 4000*160/3000 rounds to 213.
    assert_eq!(fit_dimensions(4000, 3000, 240, 160), (213, 160));
}

#[test]
fn fit_dimensions_width_binding() {
    // 4000x1000 into 240x160: the width binds; 1000*240/4000 rounds to 60.
    assert_eq!(fit_dimensions(4000, 1000, 240, 160), (240, 60));
}

#[test]
fn fit_dimensions_never_upscales() {
    assert_eq!(fit_dimensions(100, 50, 240, 160), (100, 50));
    assert_eq!(fit_dimensions(240, 160, 240, 160), (240, 160));
    assert_eq!(fit_dimensions(1, 1, 240, 160), (1, 1));
}

#[test]
fn fit_dimensions_never_collapses_to_zero() {
    // 1x10000 into 240x160: rounding would give width 0; it is held at 1.
    assert_eq!(fit_dimensions(1, 10000, 240, 160), (1, 160));
}

#[test]
fn decimal_rendering() {
    assert_eq!(decimal_bytes(0), b"0".to_vec());
    assert_eq!(decimal_bytes(7), b"7".to_vec());
    assert_eq!(decimal_bytes(42), b"42".to_vec());
    assert_eq!(decimal_bytes(1000), b"1000".to_vec());
    assert_eq!(decimal_bytes(987654), b"987654".to_vec());
}

#[test]
fn summary_lines() {
    assert_eq!(summary_line(3, false, &Vec::new()), b"done: processed 3 files".to_vec());
    assert_eq!(
        summary_line(3, true, &b"1.23s".to_vec()),
        b"processed 3 files in 1.23s".to_vec()
    );
}

#[test]
fn failure_lines() {
    assert_eq!(
        failure_line(&b"in/a.png".to_vec(), &b"bad header".to_vec()),
        b"failed in/a.png: bad header".to_vec()
    );
}
