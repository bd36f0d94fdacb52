use dasktop::background::remove_solid_background_if_opaque;
use dasktop::bitmap::{
    apply_icon_mask_alpha, bgra_to_rgba, has_smooth_alpha_channel, has_visible_colour,
    is_fully_opaque, is_fully_transparent, restore_opaque_alpha_for_visible_icon_pixels,
    RgbaBitmap,
};
use dasktop::crop::crop_transparent_padding;
use dasktop::icon_png::{
    bitmap_buffer_len, bitmap_to_png, icon_bitmaps_to_png, png_data_url, rgba_bitmap_from_bgra,
    ImageError,
};

fn px(r: u8, g: u8, b: u8, a: u8) -> [u8; 4] {
    [r, g, b, a]
}

fn image(pixels: &[[u8; 4]]) -> Vec<u8> {
    pixels.iter().flat_map(|p| p.iter().copied()).collect()
}

fn decode_png(bytes: &[u8]) -> (u32, u32, Vec<u8>) {
    let decoder = png::Decoder::new(bytes);
    let mut reader = decoder.read_info().expect("png header");
    let mut buffer = vec![0; reader.output_buffer_size()];
    let info = reader.next_frame(&mut buffer).expect("png frame");
    buffer.truncate(info.buffer_size());
    (info.width, info.height, buffer)
}

#[test]
fn alpha_channel_queries() {
    let smooth = image(&[px(1, 2, 3, 255), px(4, 5, 6, 128)]);
    assert!(has_smooth_alpha_channel(&smooth));
    let hard = image(&[px(1, 2, 3, 255), px(4, 5, 6, 0)]);
    assert!(!has_smooth_alpha_channel(&hard));
    assert!(is_fully_transparent(&image(&[px(9, 9, 9, 0), px(0, 0, 0, 0)])));
    assert!(!is_fully_transparent(&hard));
    assert!(is_fully_opaque(&image(&[px(9, 9, 9, 255)])));
    assert!(!is_fully_opaque(&hard));
    assert!(has_visible_colour(&image(&[px(0, 0, 0, 0), px(0, 0, 1, 0)])));
    assert!(!has_visible_colour(&image(&[px(0, 0, 0, 7)])));
}

#[test]
fn restores_alpha_only_for_coloured_icons() {
    let mut coloured = image(&[px(0, 0, 0, 0), px(10, 0, 0, 0)]);
    restore_opaque_alpha_for_visible_icon_pixels(&mut coloured);
    assert_eq!(coloured, image(&[px(0, 0, 0, 255), px(10, 0, 0, 255)]));
    let mut black = image(&[px(0, 0, 0, 0)]);
    restore_opaque_alpha_for_visible_icon_pixels(&mut black);
    assert_eq!(black, image(&[px(0, 0, 0, 0)]));
}

#[test]
fn swaps_blue_and_red() {
    let mut pixels = vec![1, 2, 3, 4, 5, 6, 7, 8, 9];
    bgra_to_rgba(&mut pixels);
    assert_eq!(pixels, vec![3, 2, 1, 4, 7, 6, 5, 8, 9]);
    let bitmap = rgba_bitmap_from_bgra(1, 1, vec![10, 20, 30, 40]);
    assert_eq!(bitmap.pixels, vec![30, 20, 10, 40]);
}

#[test]
fn mask_supplies_alpha() {
    let mut color = RgbaBitmap { width: 2, height: 1, pixels: image(&[px(5, 5, 5, 0), px(6, 6, 6, 0)]) };
    let mask = RgbaBitmap { width: 2, height: 1, pixels: image(&[px(255, 255, 255, 0), px(0, 0, 0, 0)]) };
    apply_icon_mask_alpha(&mut color, &mask);
    assert_eq!(color.pixels, image(&[px(5, 5, 5, 0), px(6, 6, 6, 255)]));
    // a mask of another width is ignored
    let mut other = RgbaBitmap { width: 1, height: 2, pixels: image(&[px(5, 5, 5, 9), px(6, 6, 6, 9)]) };
    apply_icon_mask_alpha(&mut other, &mask);
    assert_eq!(other.pixels, image(&[px(5, 5, 5, 9), px(6, 6, 6, 9)]));
}

#[test]
fn removes_white_plate_connected_to_border() {
    // 3x3 opaque: white ring around a red centre
    let w = px(250, 250, 250, 255);
    let r = px(200, 0, 0, 255);
    let mut pixels = image(&[w, w, w, w, r, w, w, w, w]);
    remove_solid_background_if_opaque(&mut pixels, 3, 3);
    let t = px(250, 250, 250, 0);
    assert_eq!(pixels, image(&[t, t, t, t, r, t, t, t, t]));
}

#[test]
fn keeps_white_enclosed_by_colour() {
    // 5x5: white border, red ring, white centre that does not touch the border
    let w = px(255, 255, 255, 255);
    let r = px(200, 0, 0, 255);
    let mut pixels = image(&[
        w, w, w, w, w, //
        w, r, r, r, w, //
        w, r, w, r, w, //
        w, r, r, r, w, //
        w, w, w, w, w,
    ]);
    remove_solid_background_if_opaque(&mut pixels, 5, 5);
    for y in 0..5 {
        for x in 0..5 {
            let alpha = pixels[(y * 5 + x) * 4 + 3];
            let border = x == 0 || y == 0 || x == 4 || y == 4;
            assert_eq!(alpha, if border { 0 } else { 255 }, "pixel {x},{y}");
        }
    }
}

#[test]
fn leaves_non_opaque_or_coloured_corner_images_alone() {
    let w = px(255, 255, 255, 255);
    let mut translucent = image(&[w, px(255, 255, 255, 254)]);
    let before = translucent.clone();
    remove_solid_background_if_opaque(&mut translucent, 2, 1);
    assert_eq!(translucent, before);
    let mut corner = image(&[px(0, 0, 0, 255), w]);
    let before = corner.clone();
    remove_solid_background_if_opaque(&mut corner, 2, 1);
    assert_eq!(corner, before);
}

#[test]
fn crops_to_a_centred_square() {
    // 4x3, content at columns 1..=2 of row 1
    let o = px(0, 0, 0, 0);
    let a = px(1, 2, 3, 255);
    let b = px(4, 5, 6, 10);
    let pixels = image(&[o, o, o, o, o, a, b, o, o, o, o, o]);
    let (w, h, out) = crop_transparent_padding(4, 3, &pixels);
    // content 2x1, margins ceil(2 * 0.04) = 1 and ceil(1 * 0.04) = 1:
    // crop x 0..4 (width 4), y 0..3 (height 3); square side 4, row offset 0
    assert_eq!((w, h), (4, 4));
    let mut expected = pixels.clone();
    expected.extend(image(&[o, o, o, o]));
    assert_eq!(out, expected);
}

#[test]
fn crop_margin_is_four_percent_rounded_up() {
    // 60x1 with content in columns 20..=44 (25 pixels): margin exactly 1
    let mut pixels = vec![0u8; 60 * 4];
    for x in 20..45 {
        pixels[x * 4 + 3] = 255;
    }
    let (w, h, out) = crop_transparent_padding(60, 1, &pixels);
    assert_eq!((w, h), (27, 27));
    assert_eq!(out.len(), 27 * 27 * 4);
    // row 13 holds the crop (columns 19..46); its first and last pixels are margin
    let row = &out[13 * 27 * 4..14 * 27 * 4];
    assert_eq!(row[3], 0);
    assert_eq!(row[4 + 3], 255);
    assert_eq!(row[26 * 4 + 3], 0);
    // 26 content pixels give a margin of 2
    let mut wider = vec![0u8; 60 * 4];
    for x in 20..46 {
        wider[x * 4 + 3] = 255;
    }
    let (w2, _, _) = crop_transparent_padding(60, 1, &wider);
    assert_eq!(w2, 30);
}

#[test]
fn crop_keeps_a_blank_image() {
    let pixels = vec![9, 9, 9, 0, 8, 8, 8, 0];
    assert_eq!(crop_transparent_padding(2, 1, &pixels), (2, 1, pixels.clone()));
}

#[test]
fn data_url_uses_standard_base64() {
    assert_eq!(png_data_url(&[]), "data:image/png;base64,");
    assert_eq!(png_data_url(&[0, 1, 2]), "data:image/png;base64,AAEC");
    assert_eq!(png_data_url(b"Ma"), "data:image/png;base64,TWE=");
    assert_eq!(png_data_url(b"M"), "data:image/png;base64,TQ==");
    assert_eq!(png_data_url(&[251, 255]), "data:image/png;base64,+/8=");
}

#[test]
fn buffer_size_of_valid_bitmaps() {
    assert!(matches!(bitmap_buffer_len(0, 5), Err(ImageError::InvalidSize)));
    assert!(matches!(bitmap_buffer_len(5, -1), Err(ImageError::InvalidSize)));
    assert!(matches!(bitmap_buffer_len(3, 2), Ok(24)));
}

#[test]
fn thumbnail_pipeline_encodes_png() {
    let o = px(0, 0, 0, 0);
    let a = px(10, 20, 30, 255);
    let bitmap = RgbaBitmap { width: 3, height: 1, pixels: image(&[o, a, o]) };
    let png_bytes = bitmap_to_png(bitmap).ok().expect("png");
    let (w, h, rgba) = decode_png(&png_bytes);
    // content 1x1 with margin 1: crop 3x1 centred on a 3x3 canvas, middle row
    assert_eq!((w, h), (3, 3));
    assert_eq!(&rgba[12..24], &image(&[o, a, o])[..]);
    assert!(rgba[..12].iter().all(|v| *v == 0));
    let blank = RgbaBitmap { width: 1, height: 1, pixels: vec![1, 1, 1, 0] };
    assert!(matches!(bitmap_to_png(blank), Err(ImageError::TransparentThumbnail)));
}

#[test]
fn icon_pipeline_uses_mask_and_reports_errors() {
    let color = RgbaBitmap { width: 1, height: 1, pixels: vec![0, 0, 0, 0] };
    assert!(matches!(
        icon_bitmaps_to_png(color, None),
        Err(ImageError::TransparentIcon)
    ));
    let color = RgbaBitmap { width: 1, height: 1, pixels: vec![1, 2, 3, 0] };
    let failed = icon_bitmaps_to_png(color, Some(Err(ImageError::Unreadable("GetDIBits".to_string()))));
    assert!(matches!(failed, Err(ImageError::Unreadable(ref m)) if m == "GetDIBits"));
    let color = RgbaBitmap { width: 1, height: 1, pixels: vec![1, 2, 3, 0] };
    let mask = RgbaBitmap { width: 1, height: 1, pixels: vec![0, 0, 0, 0] };
    let png_bytes = icon_bitmaps_to_png(color, Some(Ok(mask))).ok().expect("png");
    let (w, h, rgba) = decode_png(&png_bytes);
    // opaque after the mask; content 1x1 plus clamped margins stays 1x1
    assert_eq!((w, h, rgba), (1, 1, vec![1, 2, 3, 255]));
    // colour without alpha or mask is shown opaque
    let color = RgbaBitmap { width: 1, height: 1, pixels: vec![7, 0, 0, 0] };
    let png_bytes = icon_bitmaps_to_png(color, None).ok().expect("png");
    assert_eq!(decode_png(&png_bytes), (1, 1, vec![7, 0, 0, 255]));
}
