use frame_playback::resize::{
    img_resize, into_bgra, scale_to_fill, Filter, Picture, SIDE_LIMIT,
};

fn gradient(width: u32, height: u32) -> Vec<u8> {
    let mut rgba = Vec::new();
    for y in 0..height {
        for x in 0..width {
            rgba.push((x * 7 + 1) as u8);
            rgba.push((y * 11 + 2) as u8);
            rgba.push((x + y + 3) as u8);
            rgba.push(255 - (x as u8));
        }
    }
    rgba
}

fn swapped(rgba: &[u8]) -> Vec<u8> {
    let mut bgra = Vec::new();
    for pixel in rgba.chunks(4) {
        bgra.push(pixel[2]);
        bgra.push(pixel[1]);
        bgra.push(pixel[0]);
        bgra.push(pixel[3]);
    }
    bgra
}

const FILTERS: [Filter; 5] =
    [Filter::Nearest, Filter::Triangle, Filter::CatmullRom, Filter::Gaussian, Filter::Lanczos3];

#[test]
fn same_size_only_swaps_channels() {
    let picture = Picture::new(2, 1, vec![1, 2, 3, 4, 5, 6, 7, 8]).unwrap();
    assert!(picture.check_fits(2, 1));
    let bytes = img_resize(picture, 2, 1, Filter::Nearest);
    assert_eq!(bytes, vec![3, 2, 1, 4, 7, 6, 5, 8]);
}

#[test]
fn same_size_is_untouched_by_every_filter() {
    for filter in FILTERS {
        let rgba = gradient(5, 3);
        let picture = Picture::new(5, 3, rgba.clone()).unwrap();
        assert_eq!(img_resize(picture, 5, 3, filter), swapped(&rgba));
    }
}

#[test]
fn empty_picture_of_the_same_size_passes() {
    let picture = Picture::new(0, 0, Vec::new()).unwrap();
    assert!(picture.check_fits(0, 0));
    assert!(img_resize(picture, 0, 0, Filter::Triangle).is_empty());
}

#[test]
fn other_size_fills_the_target() {
    let targets = [(1, 1), (8, 8), (3, 7), (7, 3), (4, 4), (16, 2), (2, 16), (5, 4)];
    for filter in FILTERS {
        for (width, height) in targets {
            let picture = Picture::new(4, 5, gradient(4, 5)).unwrap();
            assert!(picture.check_fits(width, height));
            let bytes = img_resize(picture, width, height, filter);
            assert_eq!(bytes.len(), (width * height * 4) as usize);
        }
    }
}

#[test]
fn plain_colour_stays_plain_when_scaled() {
    let mut rgba = Vec::new();
    for _ in 0..6 {
        rgba.extend_from_slice(&[10, 20, 30, 255]);
    }
    let picture = Picture::new(3, 2, rgba).unwrap();
    let bytes = img_resize(picture, 6, 6, Filter::Nearest);
    assert_eq!(bytes.len(), 144);
    for pixel in bytes.chunks(4) {
        assert_eq!(pixel, &[30, 20, 10, 255]);
    }
}

#[test]
fn scaling_up_by_nearest_repeats_pixels() {
    let picture = Picture::new(2, 1, vec![1, 2, 3, 4, 5, 6, 7, 8]).unwrap();
    let bytes = img_resize(picture, 4, 2, Filter::Nearest);
    let left = [3, 2, 1, 4];
    let right = [7, 6, 5, 8];
    let mut expected = Vec::new();
    for _ in 0..2 {
        expected.extend_from_slice(&left);
        expected.extend_from_slice(&left);
        expected.extend_from_slice(&right);
        expected.extend_from_slice(&right);
    }
    assert_eq!(bytes, expected);
}

#[test]
fn filling_crops_what_hangs_over() {
    // Three columns, one row: filling one column keeps the middle one.
    let picture =
        Picture::new(3, 1, vec![1, 1, 1, 255, 2, 2, 2, 255, 3, 3, 3, 255]).unwrap();
    let bytes = img_resize(picture, 1, 1, Filter::Nearest);
    assert_eq!(bytes, vec![2, 2, 2, 255]);
}

#[test]
fn picture_needs_four_bytes_for_each_pixel() {
    assert!(Picture::new(2, 2, vec![0; 16]).is_some());
    assert!(Picture::new(2, 2, vec![0; 15]).is_none());
    assert!(Picture::new(2, 2, vec![0; 17]).is_none());
    assert!(Picture::new(0, 5, Vec::new()).is_some());
    assert!(Picture::new(0, 5, vec![0; 4]).is_none());
    assert!(Picture::new(u32::MAX, u32::MAX, vec![0; 4]).is_none());
    let picture = Picture::new(3, 2, vec![0; 24]).unwrap();
    assert_eq!(picture.width(), 3);
    assert_eq!(picture.height(), 2);
}

#[test]
fn fit_is_refused_for_empty_sides() {
    let picture = Picture::new(2, 2, vec![0; 16]).unwrap();
    assert!(picture.check_fits(2, 2));
    assert!(picture.check_fits(1, 9));
    assert!(!picture.check_fits(0, 2));
    assert!(!picture.check_fits(2, 0));
    assert!(!picture.check_fits(0, 0));
    let flat = Picture::new(0, 3, Vec::new()).unwrap();
    assert!(flat.check_fits(0, 3));
    assert!(!flat.check_fits(3, 3));
    let thin = Picture::new(3, 0, Vec::new()).unwrap();
    assert!(!thin.check_fits(1, 1));
}

#[test]
fn fit_is_refused_where_scaling_overflows() {
    // One row of 65536 pixels, to be as high as the largest surface: the
    // scaled width would not fit in 32 bits.
    let wide = Picture::new(65_536, 1, vec![0; 262_144]).unwrap();
    assert!(!wide.check_fits(1, u32::MAX));
    assert!(!wide.check_fits(u32::MAX, u32::MAX));
    assert!(wide.check_fits(65_536, 1));
    assert!(wide.check_fits(1024, 1));
    let small = Picture::new(1, 1, vec![0; 4]).unwrap();
    assert!(!small.check_fits(u32::MAX, u32::MAX));
    assert!(small.check_fits(1000, 1000));
}

#[test]
fn scaled_picture_has_the_size_asked_for() {
    for filter in FILTERS {
        let picture = Picture::new(4, 5, gradient(4, 5)).unwrap();
        let scaled = scale_to_fill(picture, 9, 2, filter);
        assert_eq!(scaled.width(), 9);
        assert_eq!(scaled.height(), 2);
        assert_eq!(into_bgra(scaled).len(), 72);
    }
}

#[test]
fn packing_exchanges_red_and_blue() {
    let rgba = gradient(3, 3);
    let picture = Picture::new(3, 3, rgba.clone()).unwrap();
    let bgra = into_bgra(picture);
    assert_eq!(bgra, swapped(&rgba));
    assert_ne!(bgra, rgba);
    let back = into_bgra(Picture::new(3, 3, bgra).unwrap());
    assert_eq!(back, rgba);
}

#[test]
fn fit_is_refused_beyond_the_side_limit() {
    assert_eq!(SIDE_LIMIT, 262_144);
    let longest = Picture::new(SIDE_LIMIT, 1, vec![0; 4 * SIDE_LIMIT as usize]).unwrap();
    assert!(longest.check_fits(1, 1));
    assert!(longest.check_fits(SIDE_LIMIT, 1));
    assert!(longest.check_fits(SIDE_LIMIT / 2, 1));
    assert!(!longest.check_fits(SIDE_LIMIT + 1, 1));
    // Filling two rows would take twice the width.
    assert!(!longest.check_fits(SIDE_LIMIT, 2));
    let longer = Picture::new(SIDE_LIMIT + 1, 1, vec![0; 4 * SIDE_LIMIT as usize + 4]).unwrap();
    assert!(longer.check_fits(SIDE_LIMIT + 1, 1));
    assert!(!longer.check_fits(1, 1));
    assert!(!longer.check_fits(SIDE_LIMIT, 1));
    let tall = Picture::new(1, SIDE_LIMIT + 1, vec![0; 4 * SIDE_LIMIT as usize + 4]).unwrap();
    assert!(!tall.check_fits(1, 1));
    let dot = Picture::new(1, 1, vec![0; 4]).unwrap();
    assert!(dot.check_fits(SIDE_LIMIT, 1));
    assert!(dot.check_fits(1, SIDE_LIMIT));
    assert!(!dot.check_fits(SIDE_LIMIT + 1, 1));
    assert!(!dot.check_fits(1, SIDE_LIMIT + 1));
    // A covering size beyond the limit: three columns by two rows, scaled
    // to the height asked for, would be as wide as the limit and a half.
    let slim = Picture::new(1, 2, vec![0; 8]).unwrap();
    assert!(slim.check_fits(1, SIDE_LIMIT));
    let strip = Picture::new(3, 2, vec![0; 24]).unwrap();
    assert!(!strip.check_fits(1, SIDE_LIMIT));
    assert!(!strip.check_fits(3, SIDE_LIMIT));
}

#[test]
fn longest_sides_are_scaled_by_every_filter() {
    let side = SIDE_LIMIT as usize;
    for filter in FILTERS {
        // All pixels black and clear: a sum of weights that came to zero
        // would stop the sampler.
        let halved = Picture::new(SIDE_LIMIT, 2, vec![0; 8 * side]).unwrap();
        assert!(halved.check_fits(SIDE_LIMIT / 2, 1));
        assert_eq!(img_resize(halved, SIDE_LIMIT / 2, 1, filter), vec![0; 2 * side]);
        let doubled = Picture::new(SIDE_LIMIT / 2 + 1, 1, vec![0; 2 * side + 4]).unwrap();
        assert!(doubled.check_fits(SIDE_LIMIT, 1));
        assert_eq!(img_resize(doubled, SIDE_LIMIT, 1, filter), vec![0; 4 * side]);
        let raised = Picture::new(1, SIDE_LIMIT / 2 + 1, vec![0; 2 * side + 4]).unwrap();
        assert!(raised.check_fits(1, SIDE_LIMIT));
        assert_eq!(img_resize(raised, 1, SIDE_LIMIT, filter), vec![0; 4 * side]);
    }
}

#[test]
fn long_rows_are_squeezed() {
    let side = SIDE_LIMIT as usize;
    for filter in [Filter::CatmullRom, Filter::Lanczos3] {
        let squeezed = Picture::new(SIDE_LIMIT, 16, vec![0; 64 * side]).unwrap();
        assert!(squeezed.check_fits(SIDE_LIMIT / 16, 1));
        assert_eq!(img_resize(squeezed, SIDE_LIMIT / 16, 1, filter), vec![0; side / 4]);
    }
}

fn sampled_by_the_crate(
    width: u32,
    height: u32,
    rgba: Vec<u8>,
    to_width: u32,
    to_height: u32,
    filter: image::imageops::FilterType,
) -> Vec<u8> {
    let source = image::RgbaImage::from_raw(width, height, rgba).unwrap();
    let scaled = image::DynamicImage::ImageRgba8(source).resize_to_fill(to_width, to_height, filter);
    scaled.into_rgba8().into_raw()
}

#[test]
fn exact_filters_give_what_the_sampler_gives() {
    let kinds = [
        (Filter::Nearest, image::imageops::FilterType::Nearest),
        (Filter::Triangle, image::imageops::FilterType::Triangle),
    ];
    for (filter, kernel) in kinds {
        for (width, height) in [(3, 2), (9, 4), (2, 7), (16, 16)] {
            let rgba = gradient(5, 6);
            let expected = sampled_by_the_crate(5, 6, rgba.clone(), width, height, kernel);
            let picture = Picture::new(5, 6, rgba.clone()).unwrap();
            assert_eq!(img_resize(picture, width, height, filter), swapped(&expected));
            let again = Picture::new(5, 6, rgba).unwrap();
            assert_eq!(into_bgra(scale_to_fill(again, width, height, filter)), swapped(&expected));
        }
    }
}

#[test]
fn filter_asked_for_is_the_filter_used() {
    let rgba = gradient(8, 8);
    let nearest = img_resize(Picture::new(8, 8, rgba.clone()).unwrap(), 5, 5, Filter::Nearest);
    let triangle = img_resize(Picture::new(8, 8, rgba.clone()).unwrap(), 5, 5, Filter::Triangle);
    let lanczos = img_resize(Picture::new(8, 8, rgba.clone()).unwrap(), 5, 5, Filter::Lanczos3);
    assert_ne!(nearest, triangle);
    assert_ne!(nearest, lanczos);
    assert_ne!(triangle, lanczos);
}
