use test_window::atlas::{AtlasKey, AtlasTextureKind, AtlasUpdateError, DynamicTextureId, TestAtlas};
use test_window::geometry::{point, size, Bounds, DevicePixels, Size};

type Built = Result<Option<(Size<DevicePixels>, Vec<u8>)>, String>;

fn atlas_with_texture(key: AtlasKey, width: i32, height: i32, fill: u8) -> TestAtlas {
    let mut atlas = TestAtlas::new();
    let len = (width * height * 4) as usize;
    atlas
        .get_or_insert_with(&key, || -> Built {
            Ok(Some((size(DevicePixels(width), DevicePixels(height)), vec![fill; len])))
        })
        .unwrap();
    atlas
}

fn rect(x: i32, y: i32, w: i32, h: i32) -> Bounds<DevicePixels> {
    Bounds::new(point(DevicePixels(x), DevicePixels(y)), size(DevicePixels(w), DevicePixels(h)))
}

#[test]
fn strided_update_preserves_pixels_outside_the_dirty_rectangle() {
    let mut atlas = TestAtlas::new();
    let key = AtlasKey::DynamicTexture(DynamicTextureId(7));
    let texture_size = size(DevicePixels(4), DevicePixels(4));
    atlas
        .get_or_insert_with(&key, || -> Built {
            Ok(Some((texture_size, vec![0x11; 4 * 4 * 4])))
        })
        .unwrap();

    let stride = 16u32;
    let mut source = vec![0xAA; stride as usize + 8];
    source[16..24].fill(0xCC);
    atlas
        .update(
            &key,
            Bounds::new(
                point(DevicePixels(1), DevicePixels(1)),
                size(DevicePixels(2), DevicePixels(2)),
            ),
            &source,
            stride,
        )
        .unwrap();

    let pixels = atlas.pixels(&key).unwrap();
    for y in 0..4usize {
        for x in 0..4usize {
            let pixel = &pixels[(y * 4 + x) * 4..(y * 4 + x + 1) * 4];
            let expected = if y == 1 && (x == 1 || x == 2) {
                0xAA
            } else if y == 2 && (x == 1 || x == 2) {
                0xCC
            } else {
                0x11
            };
            assert!(pixel.iter().all(|byte| *byte == expected));
        }
    }
}

#[test]
fn new_atlas_is_empty() {
    let atlas = TestAtlas::new();
    let key = AtlasKey::Glyph(1);
    assert!(!atlas.contains(&key));
    assert!(atlas.pixels(&key).is_none());
    assert_eq!(atlas.next_id(), 0);
}

#[test]
fn insert_hands_out_fresh_ids_and_a_tile_of_the_built_size() {
    let mut atlas = TestAtlas::new();
    let first = atlas
        .get_or_insert_with(&AtlasKey::Svg(3), || -> Built {
            Ok(Some((size(DevicePixels(5), DevicePixels(6)), vec![1, 2, 3])))
        })
        .unwrap()
        .unwrap();
    assert_eq!(first.texture_id.index, 1);
    assert_eq!(first.texture_id.kind, AtlasTextureKind::Monochrome);
    assert_eq!(first.tile_id.0, 2);
    assert_eq!(first.padding, 0);
    assert_eq!(first.bounds, rect(0, 0, 5, 6));
    let second = atlas
        .get_or_insert_with(&AtlasKey::Image(3), || -> Built {
            Ok(Some((size(DevicePixels(1), DevicePixels(1)), vec![9; 4])))
        })
        .unwrap()
        .unwrap();
    assert_eq!(second.texture_id.index, 3);
    assert_eq!(second.tile_id.0, 4);
    assert_eq!(atlas.next_id(), 4);
    assert_eq!(atlas.pixels(&AtlasKey::Svg(3)).unwrap(), &vec![1, 2, 3]);
}

#[test]
fn present_key_returns_the_stored_tile_without_building() {
    let key = AtlasKey::Glyph(9);
    let mut atlas = atlas_with_texture(key, 2, 2, 0);
    let again = atlas
        .get_or_insert_with(&key, || -> Built { panic!("build must not run for a stored key") })
        .unwrap()
        .unwrap();
    assert_eq!(again.texture_id.index, 1);
    assert_eq!(again.tile_id.0, 2);
    assert_eq!(atlas.next_id(), 2);
}

#[test]
fn build_without_pixels_stores_nothing() {
    let mut atlas = TestAtlas::new();
    let key = AtlasKey::Image(1);
    let r = atlas.get_or_insert_with(&key, || -> Built { Ok(None) });
    assert_eq!(r, Ok(None));
    assert!(!atlas.contains(&key));
    assert_eq!(atlas.next_id(), 0);
}

#[test]
fn failed_build_is_passed_on() {
    let mut atlas = TestAtlas::new();
    let key = AtlasKey::Image(1);
    let r = atlas.get_or_insert_with(&key, || -> Built { Err("no image".to_string()) });
    assert_eq!(r, Err("no image".to_string()));
    assert!(!atlas.contains(&key));
}

#[test]
fn remove_drops_tile_and_pixels_and_keeps_others() {
    let a = AtlasKey::Glyph(1);
    let b = AtlasKey::Glyph(2);
    let mut atlas = atlas_with_texture(a, 1, 1, 5);
    atlas
        .get_or_insert_with(&b, || -> Built { Ok(Some((size(DevicePixels(1), DevicePixels(1)), vec![6; 4]))) })
        .unwrap();
    atlas.remove(&a);
    assert!(!atlas.contains(&a));
    assert!(atlas.pixels(&a).is_none());
    assert!(atlas.contains(&b));
    assert_eq!(atlas.pixels(&b).unwrap(), &vec![6; 4]);
    atlas.remove(&a);
    assert!(atlas.contains(&b));
    // A key inserted again after removal gets fresh ids.
    let t = atlas
        .get_or_insert_with(&a, || -> Built { Ok(Some((size(DevicePixels(1), DevicePixels(1)), vec![7; 4]))) })
        .unwrap()
        .unwrap();
    assert_eq!(t.texture_id.index, 5);
}

#[test]
fn update_of_missing_tile_is_refused() {
    let mut atlas = TestAtlas::new();
    let r = atlas.update(&AtlasKey::Glyph(1), rect(0, 0, 1, 1), &[0; 4], 4);
    assert_eq!(r, Err(AtlasUpdateError::TileNotFound));
}

#[test]
fn update_with_bad_shape_is_refused() {
    let key = AtlasKey::DynamicTexture(DynamicTextureId(1));
    let mut atlas = atlas_with_texture(key, 4, 4, 0x11);
    assert_eq!(atlas.update(&key, rect(0, 0, 0, 1), &[0; 4], 4), Err(AtlasUpdateError::InvalidUpdate));
    assert_eq!(atlas.update(&key, rect(0, 0, 1, 0), &[0; 4], 4), Err(AtlasUpdateError::InvalidUpdate));
    assert_eq!(atlas.update(&key, rect(0, 0, 2, 1), &[0; 8], 7), Err(AtlasUpdateError::InvalidUpdate));
    assert_eq!(atlas.update(&key, rect(0, 0, 1, 1), &[], 4), Err(AtlasUpdateError::InvalidUpdate));
    assert_eq!(atlas.pixels(&key).unwrap(), &vec![0x11; 64]);
}

#[test]
fn update_with_wrong_payload_length_is_refused() {
    let key = AtlasKey::DynamicTexture(DynamicTextureId(1));
    let mut atlas = atlas_with_texture(key, 4, 4, 0x11);
    // Two rows of 8 bytes with a 16-byte stride need 16 + 8 = 24 bytes.
    assert_eq!(atlas.update(&key, rect(0, 0, 2, 2), &[0; 32], 16), Err(AtlasUpdateError::InvalidPayload));
    assert_eq!(atlas.update(&key, rect(0, 0, 2, 2), &[0; 23], 16), Err(AtlasUpdateError::InvalidPayload));
    assert_eq!(atlas.pixels(&key).unwrap(), &vec![0x11; 64]);
}

#[test]
fn update_outside_the_tile_is_refused() {
    let key = AtlasKey::DynamicTexture(DynamicTextureId(1));
    let mut atlas = atlas_with_texture(key, 4, 4, 0x11);
    assert_eq!(atlas.update(&key, rect(3, 0, 2, 1), &[0; 8], 8), Err(AtlasUpdateError::OutOfBounds));
    assert_eq!(atlas.update(&key, rect(0, 3, 1, 2), &[0; 8], 4), Err(AtlasUpdateError::OutOfBounds));
    assert_eq!(atlas.update(&key, rect(-1, 0, 1, 1), &[0; 4], 4), Err(AtlasUpdateError::OutOfBounds));
    assert_eq!(atlas.pixels(&key).unwrap(), &vec![0x11; 64]);
}

#[test]
fn full_texture_update_replaces_every_byte() {
    let key = AtlasKey::DynamicTexture(DynamicTextureId(2));
    let mut atlas = atlas_with_texture(key, 2, 2, 0);
    let src: Vec<u8> = (0..16).collect();
    assert_eq!(atlas.update(&key, rect(0, 0, 2, 2), &src, 8), Ok(()));
    assert_eq!(atlas.pixels(&key).unwrap(), &src);
}

#[test]
fn single_pixel_update_in_the_last_row() {
    let key = AtlasKey::DynamicTexture(DynamicTextureId(3));
    let mut atlas = atlas_with_texture(key, 3, 2, 0);
    assert_eq!(atlas.update(&key, rect(2, 1, 1, 1), &[1, 2, 3, 4], 4), Ok(()));
    let mut expected = vec![0u8; 24];
    expected[20..24].copy_from_slice(&[1, 2, 3, 4]);
    assert_eq!(atlas.pixels(&key).unwrap(), &expected);
}

#[test]
fn update_fits_checks_the_stored_pixels() {
    let key = AtlasKey::Glyph(4);
    let mut atlas = TestAtlas::new();
    atlas
        .get_or_insert_with(&key, || -> Built { Ok(Some((size(DevicePixels(4), DevicePixels(4)), vec![0; 8]))) })
        .unwrap();
    assert!(atlas.update_fits(&key, rect(0, 0, 2, 1), 8, 8));
    assert!(!atlas.update_fits(&key, rect(0, 1, 1, 1), 4, 4));
    assert!(atlas.update_fits(&AtlasKey::Glyph(5), rect(0, 1, 1, 1), 4, 4));
    // Refused updates never write, so they always fit.
    assert!(atlas.update_fits(&key, rect(0, 0, 0x4000_0000, 1), 4, 4));
    assert!(atlas.update_fits(&key, rect(i32::MAX, 0, 1, 1), 4, 4));
}

#[test]
fn update_at_the_edge_of_the_integer_range_is_refused() {
    let key = AtlasKey::DynamicTexture(DynamicTextureId(7));
    let mut atlas = atlas_with_texture(key, 4, 4, 0);
    assert_eq!(atlas.update(&key, rect(i32::MAX, 0, 1, 1), &[0; 4], 4), Err(AtlasUpdateError::OutOfBounds));
    assert_eq!(atlas.update(&key, rect(0, i32::MAX, 1, 1), &[0; 4], 4), Err(AtlasUpdateError::OutOfBounds));
    assert_eq!(
        atlas.update(&key, rect(0, 0, i32::MAX, 1), &[0; 4], u32::MAX),
        Err(AtlasUpdateError::InvalidUpdate)
    );
    assert_eq!(atlas.pixels(&key).unwrap(), &vec![0; 64]);
}

#[test]
fn row_padding_is_never_read() {
    let key = AtlasKey::DynamicTexture(DynamicTextureId(1));
    let mut a = atlas_with_texture(key, 4, 4, 0);
    let mut b = atlas_with_texture(key, 4, 4, 0);
    let mut first = vec![1u8; 12 + 8];
    let mut second = first.clone();
    first[8..12].fill(0x55);
    second[8..12].fill(0x66);
    assert_eq!(a.update(&key, rect(1, 1, 2, 2), &first, 12), Ok(()));
    assert_eq!(b.update(&key, rect(1, 1, 2, 2), &second, 12), Ok(()));
    assert_eq!(a.pixels(&key), b.pixels(&key));
}

#[test]
fn repeated_update_changes_nothing_more() {
    let key = AtlasKey::DynamicTexture(DynamicTextureId(1));
    let mut atlas = atlas_with_texture(key, 4, 4, 0);
    let src: Vec<u8> = (0..24).collect();
    assert_eq!(atlas.update(&key, rect(1, 1, 2, 2), &src, 16), Ok(()));
    let once = atlas.pixels(&key).unwrap().clone();
    assert_eq!(atlas.update(&key, rect(1, 1, 2, 2), &src, 16), Ok(()));
    assert_eq!(atlas.pixels(&key).unwrap(), &once);
}

#[test]
fn disjoint_updates_commute() {
    let key = AtlasKey::DynamicTexture(DynamicTextureId(1));
    let mut a = atlas_with_texture(key, 4, 4, 0);
    let mut b = atlas_with_texture(key, 4, 4, 0);
    let left = vec![3u8; 8 * 2];
    let right: Vec<u8> = (0..8).collect();
    assert_eq!(a.update(&key, rect(0, 0, 2, 2), &left, 8), Ok(()));
    assert_eq!(a.update(&key, rect(2, 1, 2, 1), &right, 8), Ok(()));
    assert_eq!(b.update(&key, rect(2, 1, 2, 1), &right, 8), Ok(()));
    assert_eq!(b.update(&key, rect(0, 0, 2, 2), &left, 8), Ok(()));
    assert_eq!(a.pixels(&key), b.pixels(&key));
}

#[test]
fn insert_built_replaces_a_stored_tile_with_fresh_ids() {
    let key = AtlasKey::Svg(1);
    let mut atlas = atlas_with_texture(key, 1, 1, 0);
    let tile = atlas.insert_built(&key, size(DevicePixels(2), DevicePixels(1)), vec![5; 8]);
    assert_eq!(tile.texture_id.index, 3);
    assert_eq!(tile.tile_id.0, 4);
    assert_eq!(tile.bounds, rect(0, 0, 2, 1));
    assert_eq!(atlas.tile(&key), Some(tile));
    assert_eq!(atlas.pixels(&key).unwrap(), &vec![5; 8]);
    assert_eq!(atlas.tile(&AtlasKey::Svg(2)), None);
}
