use std::io::{Cursor, Read};

use tyler::{grid_dims, tile_archive, tile_decoded, tile_image, tile_name, tile_rect,
    write_tile_zip, TileError};

fn gradient_png(w: u32, h: u32) -> Vec<u8> {
    let mut img = image::RgbaImage::new(w, h);
    for y in 0..h {
        for x in 0..w {
            let px = image::Rgba([(x % 256) as u8, (y % 256) as u8, ((x + y) % 256) as u8, 255]);
            img.put_pixel(x, y, px);
        }
    }
    let dynimg = image::DynamicImage::ImageRgba8(img);
    let mut out: Vec<u8> = Vec::new();
    dynimg
        .write_to(&mut Cursor::new(&mut out), image::ImageFormat::Png)
        .unwrap();
    out
}

fn archive_entries(bytes: &[u8]) -> Vec<(String, Vec<u8>)> {
    let mut zip = zip::ZipArchive::new(Cursor::new(bytes.to_vec())).unwrap();
    let mut entries = Vec::new();
    for i in 0..zip.len() {
        let mut file = zip.by_index(i).unwrap();
        let mut data = Vec::new();
        file.read_to_end(&mut data).unwrap();
        entries.push((file.name().to_string(), data));
    }
    entries
}

#[test]
fn grid_dims_values() {
    assert_eq!(grid_dims(256, 256, 128), Ok((2, 2)));
    assert_eq!(grid_dims(100, 50, 64), Ok((1, 2)));
    assert_eq!(grid_dims(10, 10, 128), Ok((1, 1)));
    assert_eq!(grid_dims(0, 50, 64), Ok((1, 0)));
    assert_eq!(grid_dims(50, 0, 64), Ok((0, 1)));
    assert_eq!(grid_dims(64, 64, 64), Ok((1, 1)));
    assert_eq!(grid_dims(65, 64, 64), Ok((1, 2)));
}

#[test]
fn grid_dims_rejects_zero_tile_size() {
    assert_eq!(grid_dims(100, 100, 0), Err(TileError::InvalidTileSize));
}

#[test]
fn tile_rect_clamps_at_edges() {
    assert_eq!(tile_rect(100, 50, 64, 0, 0), (0, 0, 64, 50));
    assert_eq!(tile_rect(100, 50, 64, 0, 1), (64, 0, 36, 50));
    assert_eq!(tile_rect(256, 256, 128, 1, 1), (128, 128, 128, 128));
}

#[test]
fn tile_name_format() {
    assert_eq!(tile_name(0, 0).as_str(), "tile_0_0.png");
    assert_eq!(tile_name(12, 3).as_str(), "tile_12_3.png");
    assert_eq!(tile_name(3, 12).as_str(), "tile_3_12.png");
    assert_eq!(tile_name(105, 990).as_str(), "tile_105_990.png");
}

#[test]
fn four_even_tiles() {
    let png = gradient_png(256, 256);
    let archive = tile_archive(&png, 128).unwrap();
    let entries = archive_entries(&archive);
    assert_eq!(entries.len(), 4);
    let names: Vec<&str> = entries.iter().map(|(n, _)| n.as_str()).collect();
    assert_eq!(
        names,
        vec!["tile_0_0.png", "tile_0_1.png", "tile_1_0.png", "tile_1_1.png"]
    );
    for (_, data) in &entries {
        let tile = image::load_from_memory(data).unwrap();
        assert_eq!(tile.width(), 128);
        assert_eq!(tile.height(), 128);
    }
}

#[test]
fn small_image_single_tile_no_padding() {
    let png = gradient_png(10, 10);
    let archive = tile_archive(&png, 128).unwrap();
    let entries = archive_entries(&archive);
    assert_eq!(entries.len(), 1);
    assert_eq!(entries[0].0, "tile_0_0.png");
    let tile = image::load_from_memory(&entries[0].1).unwrap();
    assert_eq!(tile.width(), 10);
    assert_eq!(tile.height(), 10);
}

#[test]
fn edge_tiles_truncated() {
    let png = gradient_png(100, 50);
    let tiles = tile_image(&png, 64).unwrap();
    assert_eq!(tiles.len(), 1);
    assert_eq!(tiles[0].len(), 2);
    let left = image::load_from_memory(&tiles[0][0]).unwrap();
    assert_eq!((left.width(), left.height()), (64, 50));
    let right = image::load_from_memory(&tiles[0][1]).unwrap();
    assert_eq!((right.width(), right.height()), (36, 50));
}

#[test]
fn entry_count_matches_grid() {
    let png = gradient_png(300, 200);
    let archive = tile_archive(&png, 64).unwrap();
    let entries = archive_entries(&archive);
    // ceil(200/64) = 4 rows, ceil(300/64) = 5 cols.
    assert_eq!(entries.len(), 20);
    for r in 0..4 {
        for c in 0..5 {
            let name = format!("tile_{}_{}.png", r, c);
            assert_eq!(entries.iter().filter(|(n, _)| *n == name).count(), 1);
        }
    }
}

#[test]
fn tile_pixels_match_source() {
    let png = gradient_png(100, 50);
    let src = image::load_from_memory(&png).unwrap();
    let tiles = tile_image(&png, 64).unwrap();
    let right = image::load_from_memory(&tiles[0][1]).unwrap();
    let right = right.to_rgba8();
    let src = src.to_rgba8();
    for y in 0..50 {
        for x in 0..36 {
            assert_eq!(right.get_pixel(x, y), src.get_pixel(64 + x, y));
        }
    }
}

#[test]
fn zero_tile_size_rejected() {
    let png = gradient_png(8, 8);
    assert_eq!(tile_image(&png, 0), Err(TileError::InvalidTileSize));
    assert_eq!(tile_archive(&png, 0), Err(TileError::InvalidTileSize));
    // Rejected before any decode is attempted, garbage bytes included.
    let garbage: Vec<u8> = vec![9, 9, 9];
    assert_eq!(tile_archive(&garbage, 0), Err(TileError::InvalidTileSize));
}

#[test]
fn zero_width_image_yields_empty_archive() {
    let img = image::DynamicImage::new_rgba8(0, 7);
    let tiles = tile_decoded(&img, 16).unwrap();
    assert_eq!(tiles.len(), 1);
    assert!(tiles[0].is_empty());
    let archive = write_tile_zip(&tiles).unwrap();
    assert_eq!(archive_entries(&archive).len(), 0);
}

#[test]
fn zero_height_image_yields_empty_archive() {
    let img = image::DynamicImage::new_rgba8(7, 0);
    let tiles = tile_decoded(&img, 16).unwrap();
    assert_eq!(tiles.len(), 0);
    let archive = write_tile_zip(&tiles).unwrap();
    assert_eq!(archive_entries(&archive).len(), 0);
}

#[test]
fn corrupt_bytes_fail_to_decode() {
    let garbage: Vec<u8> = (0u16..512).map(|i| (i % 251) as u8).collect();
    assert_eq!(tile_image(&garbage, 64), Err(TileError::DecodeFailure));
    assert_eq!(tile_archive(&garbage, 64), Err(TileError::DecodeFailure));
    let empty: Vec<u8> = Vec::new();
    assert_eq!(tile_archive(&empty, 64), Err(TileError::DecodeFailure));
}

#[test]
fn pipeline_is_deterministic() {
    let png = gradient_png(130, 70);
    let tiles1 = tile_image(&png, 64).unwrap();
    let tiles2 = tile_image(&png, 64).unwrap();
    assert_eq!(tiles1, tiles2);
    let archive1 = tile_archive(&png, 64).unwrap();
    let archive2 = tile_archive(&png, 64).unwrap();
    assert_eq!(archive1, archive2);
}

#[test]
fn archive_stores_tile_bytes_verbatim() {
    let tiles: Vec<Vec<Vec<u8>>> = vec![
        vec![vec![1, 2, 3], vec![4, 5]],
        vec![vec![], vec![6]],
    ];
    let archive = write_tile_zip(&tiles).unwrap();
    let entries = archive_entries(&archive);
    assert_eq!(entries.len(), 4);
    assert_eq!(entries[0], ("tile_0_0.png".to_string(), vec![1, 2, 3]));
    assert_eq!(entries[1], ("tile_0_1.png".to_string(), vec![4, 5]));
    assert_eq!(entries[2], ("tile_1_0.png".to_string(), vec![]));
    assert_eq!(entries[3], ("tile_1_1.png".to_string(), vec![6]));
}

#[test]
fn archive_entries_match_tile_grid() {
    let png = gradient_png(100, 100);
    let tiles = tile_image(&png, 40).unwrap();
    let archive = tile_archive(&png, 40).unwrap();
    let entries = archive_entries(&archive);
    assert_eq!(entries.len(), 9);
    for (r, row) in tiles.iter().enumerate() {
        for (c, cell) in row.iter().enumerate() {
            let name = format!("tile_{}_{}.png", r, c);
            let found = entries.iter().find(|(n, _)| *n == name).unwrap();
            assert_eq!(&found.1, cell);
        }
    }
}

#[test]
fn float_color_upload_is_tiled() {
    // OpenEXR decodes to a float-color image; the pipeline must bring it to
    // an integer color form and still produce PNG tiles.
    let mut img = image::Rgb32FImage::new(70, 40);
    for y in 0..40 {
        for x in 0..70 {
            let px = image::Rgb([x as f32 / 70.0, y as f32 / 40.0, 0.5f32]);
            img.put_pixel(x, y, px);
        }
    }
    let dynimg = image::DynamicImage::ImageRgb32F(img);
    let mut exr: Vec<u8> = Vec::new();
    dynimg
        .write_to(&mut Cursor::new(&mut exr), image::ImageFormat::OpenExr)
        .unwrap();
    let archive = tile_archive(&exr, 64).unwrap();
    let entries = archive_entries(&archive);
    assert_eq!(entries.len(), 2);
    assert_eq!(entries[0].0, "tile_0_0.png");
    assert_eq!(entries[1].0, "tile_0_1.png");
    let left = image::load_from_memory(&entries[0].1).unwrap();
    assert_eq!((left.width(), left.height()), (64, 40));
    let right = image::load_from_memory(&entries[1].1).unwrap();
    assert_eq!((right.width(), right.height()), (6, 40));
}
