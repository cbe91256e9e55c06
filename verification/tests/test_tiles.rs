use sc_extract::adjust_pixels;

fn markers(count: usize) -> Vec<[u8; 4]> {
    (0..count).map(|i| (i as u32).to_le_bytes()).collect()
}

fn marker_at(raster: &[[u8; 4]], x: usize, y: usize, width: usize) -> usize {
    u32::from_le_bytes(raster[y * width + x]) as usize
}

/// The raster that the tile scan fills, position by position.
fn scan(flat: &[[u8; 4]], width: usize, height: usize) -> Vec<[u8; 4]> {
    let mut raster = vec![[0u8; 4]; width * height];
    let mut next = 0;
    let mut th = 0;
    while th * 32 < height {
        let mut tw = 0;
        while tw * 32 < width {
            let mut y = th * 32;
            while y < height && y < (th + 1) * 32 {
                let mut x = tw * 32;
                while x < width && x < (tw + 1) * 32 {
                    raster[y * width + x] = flat[next];
                    next += 1;
                    x += 1;
                }
                y += 1;
            }
            tw += 1;
        }
        th += 1;
    }
    assert_eq!(next, flat.len());
    raster
}

#[test]
fn four_full_tiles_corners_and_interiors() {
    let flat = markers(64 * 64);
    let raster = adjust_pixels(&flat, 64, 64);
    assert_eq!(raster.len(), 64 * 64);
    // the four corners of the image
    assert_eq!(marker_at(&raster, 0, 0, 64), 0);
    assert_eq!(marker_at(&raster, 63, 0, 64), 1024 + 31);
    assert_eq!(marker_at(&raster, 0, 63, 64), 2048 + 31 * 32);
    assert_eq!(marker_at(&raster, 63, 63, 64), 4095);
    // one point inside each tile
    assert_eq!(marker_at(&raster, 10, 10, 64), 10 * 32 + 10);
    assert_eq!(marker_at(&raster, 40, 10, 64), 1024 + 10 * 32 + 8);
    assert_eq!(marker_at(&raster, 10, 40, 64), 2048 + 8 * 32 + 10);
    assert_eq!(marker_at(&raster, 40, 40, 64), 3072 + 8 * 32 + 8);
    // where the tiles meet
    assert_eq!(marker_at(&raster, 31, 0, 64), 31);
    assert_eq!(marker_at(&raster, 32, 0, 64), 1024);
    assert_eq!(marker_at(&raster, 0, 1, 64), 32);
    assert_eq!(marker_at(&raster, 31, 31, 64), 1023);
    assert_eq!(marker_at(&raster, 0, 32, 64), 2048);
    assert_eq!(marker_at(&raster, 32, 32, 64), 3072);
}

#[test]
fn four_full_tiles_follow_the_scan() {
    let flat = markers(64 * 64);
    assert_eq!(adjust_pixels(&flat, 64, 64), scan(&flat, 64, 64));
}

#[test]
fn clipped_tiles_hold_fewer_pixels() {
    // 40 wide, 33 high: tiles of 32x32, 8x32, 32x1 and 8x1
    let flat = markers(40 * 33);
    let raster = adjust_pixels(&flat, 33, 40);
    assert_eq!(raster.len(), 40 * 33);
    assert_eq!(marker_at(&raster, 0, 0, 40), 0);
    assert_eq!(marker_at(&raster, 31, 31, 40), 1023);
    assert_eq!(marker_at(&raster, 32, 0, 40), 1024);
    assert_eq!(marker_at(&raster, 33, 0, 40), 1025);
    assert_eq!(marker_at(&raster, 32, 1, 40), 1024 + 8);
    assert_eq!(marker_at(&raster, 39, 31, 40), 1024 + 31 * 8 + 7);
    assert_eq!(marker_at(&raster, 0, 32, 40), 1280);
    assert_eq!(marker_at(&raster, 31, 32, 40), 1311);
    assert_eq!(marker_at(&raster, 32, 32, 40), 1312);
    assert_eq!(marker_at(&raster, 39, 32, 40), 1319);
    assert_eq!(raster, scan(&flat, 40, 33));
}

#[test]
fn a_single_tile_is_already_in_raster_order() {
    for (width, height) in [(1u16, 1u16), (32, 32), (5, 7), (32, 1), (1, 32), (31, 17)] {
        let flat = markers(width as usize * height as usize);
        assert_eq!(adjust_pixels(&flat, height, width), flat);
    }
}

#[test]
fn empty_images_stay_empty() {
    assert_eq!(adjust_pixels(&Vec::new(), 0, 0), Vec::<[u8; 4]>::new());
    assert_eq!(adjust_pixels(&Vec::new(), 0, 50), Vec::<[u8; 4]>::new());
    assert_eq!(adjust_pixels(&Vec::new(), 50, 0), Vec::<[u8; 4]>::new());
}

#[test]
fn every_pixel_is_placed_exactly_once() {
    for (width, height) in [(64usize, 64usize), (65, 33), (100, 3), (3, 100), (96, 40), (33, 65)] {
        let flat = markers(width * height);
        let raster = adjust_pixels(&flat, height as u16, width as u16);
        let mut seen = vec![false; width * height];
        for pixel in &raster {
            let marker = u32::from_le_bytes(*pixel) as usize;
            assert!(!seen[marker]);
            seen[marker] = true;
        }
        assert!(seen.iter().all(|&s| s));
        assert_eq!(raster, scan(&flat, width, height));
    }
}

#[test]
fn height_comes_before_width() {
    // 33 wide and 2 high is not 2 wide and 33 high
    let flat = markers(66);
    let wide = adjust_pixels(&flat, 2, 33);
    assert_eq!(marker_at(&wide, 32, 0, 33), 64);
    assert_eq!(marker_at(&wide, 0, 1, 33), 32);
    let tall = adjust_pixels(&flat, 33, 2);
    assert_eq!(marker_at(&tall, 1, 0, 2), 1);
    assert_eq!(marker_at(&tall, 0, 32, 2), 64);
}
