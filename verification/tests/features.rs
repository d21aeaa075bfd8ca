use tarp_area::{feature_matrix, FeatureRow, PixelGrid};

fn gradient(width: u32, height: u32) -> PixelGrid {
    let mut data = Vec::new();
    for y in 0..height {
        for x in 0..width {
            data.extend_from_slice(&[(10 * x) as u8, (20 * y) as u8, (x + y) as u8, 200]);
        }
    }
    PixelGrid::from_raw(width, height, data).unwrap()
}

#[test]
fn feature_rows_hold_position_and_colour() {
    let rows = feature_matrix(&gradient(3, 2));
    assert_eq!(
        rows,
        vec![
            FeatureRow { x: 0, y: 0, r: 0, g: 0, b: 0 },
            FeatureRow { x: 1, y: 0, r: 10, g: 0, b: 1 },
            FeatureRow { x: 2, y: 0, r: 20, g: 0, b: 2 },
            FeatureRow { x: 0, y: 1, r: 0, g: 20, b: 1 },
            FeatureRow { x: 1, y: 1, r: 10, g: 20, b: 2 },
            FeatureRow { x: 2, y: 1, r: 20, g: 20, b: 3 },
        ]
    );
}

#[test]
fn row_count_is_width_times_height() {
    assert_eq!(feature_matrix(&gradient(7, 5)).len(), 35);
    assert_eq!(feature_matrix(&gradient(1, 9)).len(), 9);
    assert_eq!(feature_matrix(&gradient(9, 1)).len(), 9);
}

#[test]
fn empty_image_has_no_rows() {
    assert!(feature_matrix(&gradient(0, 4)).is_empty());
    assert!(feature_matrix(&gradient(4, 0)).is_empty());
}

#[test]
fn row_index_and_coordinates_round_trip() {
    let width = 7u32;
    let height = 5u32;
    let grid = gradient(width, height);
    let rows = feature_matrix(&grid);
    for (index, row) in rows.iter().enumerate() {
        assert_eq!(row.x as usize, index % width as usize);
        assert_eq!(row.y as usize, index / width as usize);
        assert_eq!(row.y as usize * width as usize + row.x as usize, index);
    }
    for y in 0..height {
        for x in 0..width {
            let row = rows[(y * width + x) as usize];
            let pixel = grid.get_pixel(x, y);
            assert_eq!(row, FeatureRow { x, y, r: pixel.r, g: pixel.g, b: pixel.b });
        }
    }
}

#[test]
fn alpha_is_no_feature() {
    let opaque = PixelGrid::from_raw(1, 1, vec![9, 8, 7, 255]).unwrap();
    let clear = PixelGrid::from_raw(1, 1, vec![9, 8, 7, 0]).unwrap();
    assert_eq!(feature_matrix(&opaque), feature_matrix(&clear));
}
