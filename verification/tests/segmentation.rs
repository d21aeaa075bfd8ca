use linfa::traits::Transformer;
use linfa_clustering::Dbscan;
use ndarray::Array2;
use tarp_area::{classify_pixels, downscale, feature_matrix, FeatureRow, PixelGrid, Rgba8};

fn cluster(rows: &[FeatureRow], tolerance: f64, min_points: usize) -> Vec<Option<usize>> {
    let mut table = Vec::with_capacity(rows.len() * 5);
    for row in rows {
        table.push(row.x as f64);
        table.push(row.y as f64);
        table.push(row.r as f64);
        table.push(row.g as f64);
        table.push(row.b as f64);
    }
    let array = Array2::from_shape_vec((rows.len(), 5), table).unwrap();
    Dbscan::params(min_points).tolerance(tolerance).transform(&array).unwrap().to_vec()
}

fn block_picture(background: [u8; 4], block: [u8; 4]) -> PixelGrid {
    let mut data = Vec::new();
    for y in 0..10u32 {
        for x in 0..10u32 {
            let inside = (3..7).contains(&x) && (3..7).contains(&y);
            data.extend_from_slice(if inside { &block } else { &background });
        }
    }
    PixelGrid::from_raw(10, 10, data).unwrap()
}

#[test]
fn red_block_on_ten_by_ten_gives_sixteen_tarp_pixels() {
    let background = [20, 120, 40, 255];
    let img = block_picture(background, [255, 0, 0, 255]);
    let rows = feature_matrix(&img);
    assert_eq!(rows.len(), 100);
    let labels = cluster(&rows, 1.5, 3);
    assert_eq!(labels.iter().filter(|l| **l == Some(1)).count(), 16);
    assert_eq!(labels.iter().filter(|l| **l == Some(0)).count(), 84);
    let seg = classify_pixels(&img, &labels).unwrap();
    assert_eq!(seg.tarp_pixel_count, 16);
    assert_eq!(seg.image.count_color(Rgba8::red()), 16);
    assert!(seg.unexpected.is_empty());
    for y in 0..10u32 {
        for x in 0..10u32 {
            let inside = (3..7).contains(&x) && (3..7).contains(&y);
            let expected = if inside {
                Rgba8::red()
            } else {
                Rgba8 { r: 20, g: 120, b: 40, a: 255 }
            };
            assert_eq!(seg.image.get_pixel(x, y), expected);
        }
    }
}

#[test]
fn isolated_pixels_are_noise_and_painted_blue() {
    let mut data = Vec::new();
    for i in 0..9u8 {
        data.extend_from_slice(&[i * 30, 255 - i * 30, (i % 2) * 200, 255]);
    }
    let img = PixelGrid::from_raw(3, 3, data).unwrap();
    let rows = feature_matrix(&img);
    let labels = cluster(&rows, 1.5, 3);
    assert!(labels.iter().all(|l| l.is_none()));
    let seg = classify_pixels(&img, &labels).unwrap();
    assert_eq!(seg.tarp_pixel_count, 0);
    assert_eq!(seg.image.count_color(Rgba8::blue()), 9);
}

#[test]
fn third_cluster_is_reported_and_painted_white() {
    let mut data = Vec::new();
    for _y in 0..3u32 {
        for x in 0..9u32 {
            let color: [u8; 4] = match x / 3 {
                0 => [0, 0, 0, 255],
                1 => [0, 250, 0, 255],
                _ => [0, 0, 250, 255],
            };
            data.extend_from_slice(&color);
        }
    }
    let img = PixelGrid::from_raw(9, 3, data).unwrap();
    let rows = feature_matrix(&img);
    let labels = cluster(&rows, 1.5, 3);
    let seg = classify_pixels(&img, &labels).unwrap();
    assert_eq!(seg.tarp_pixel_count, 9);
    assert_eq!(seg.unexpected.len(), 9);
    assert_eq!(seg.image.count_color(Rgba8::red()), 9);
    assert_eq!(seg.image.count_color(Rgba8::white()), 9);
    let first = seg.unexpected[0];
    assert_eq!((first.x, first.y, first.label), (6, 0, 2));
    for p in &seg.unexpected {
        assert!(p.x >= 6);
        assert_eq!(p.label, 2);
        assert_eq!(seg.image.get_pixel(p.x, p.y), Rgba8::white());
    }
}

#[test]
fn scaled_picture_feeds_one_row_per_scaled_pixel() {
    let img = block_picture([20, 120, 40, 255], [255, 0, 0, 255]);
    let small = downscale(&img, 5, 5).unwrap();
    let rows = feature_matrix(&small);
    assert_eq!(rows.len(), 25);
    for (index, row) in rows.iter().enumerate() {
        assert_eq!((row.x as usize, row.y as usize), (index % 5, index / 5));
    }
}
