use fractal_gen::raster::{Raster, BLACK, WHITE};

#[test]
fn filled_raster_has_one_colour_everywhere() {
    let img = Raster::filled(5, 3, (10, 20, 30));
    assert_eq!(img.width(), 5);
    assert_eq!(img.height(), 3);
    for y in 0..3 {
        for x in 0..5 {
            assert_eq!(img.pixel(x, y), Some((10, 20, 30)));
        }
    }
}

#[test]
fn pixel_outside_the_raster_is_none() {
    let img = Raster::filled(5, 3, WHITE);
    assert_eq!(img.pixel(5, 0), None);
    assert_eq!(img.pixel(0, 3), None);
    assert_eq!(img.pixel(4, 2), Some(WHITE));
}

#[test]
fn set_pixel_changes_one_position_only() {
    let mut img = Raster::filled(4, 4, WHITE);
    img.set_pixel(1, 2, (1, 2, 3));
    for y in 0..4 {
        for x in 0..4 {
            let expected = if (x, y) == (1, 2) { (1, 2, 3) } else { WHITE };
            assert_eq!(img.pixel(x, y), Some(expected));
        }
    }
    assert_eq!(img.width(), 4);
    assert_eq!(img.height(), 4);
}

#[test]
fn count_black_counts_pure_black_only() {
    let mut img = Raster::filled(3, 2, WHITE);
    assert_eq!(img.count_black(), (0, 6));
    img.set_pixel(0, 0, BLACK);
    img.set_pixel(2, 1, BLACK);
    img.set_pixel(1, 1, (0, 0, 1));
    img.set_pixel(1, 0, (1, 0, 0));
    assert_eq!(img.count_black(), (2, 6));
}

#[test]
fn count_black_of_all_black_raster_is_total() {
    let img = Raster::filled(7, 9, BLACK);
    assert_eq!(img.count_black(), (63, 63));
}

#[test]
fn empty_raster_has_no_pixels() {
    let img = Raster::filled(0, 4, WHITE);
    assert_eq!(img.count_black(), (0, 0));
    assert_eq!(img.samples(), Vec::<u8>::new());
    assert_eq!(img.pixel(0, 0), None);
}

#[test]
fn samples_are_row_major_rgb() {
    let mut img = Raster::filled(2, 2, WHITE);
    img.set_pixel(1, 0, (1, 2, 3));
    img.set_pixel(0, 1, (4, 5, 6));
    assert_eq!(
        img.samples(),
        vec![255, 255, 255, 1, 2, 3, 4, 5, 6, 255, 255, 255]
    );
}

#[test]
fn from_samples_places_each_triple() {
    let data: Vec<u8> = vec![1, 2, 3, 4, 5, 6, 7, 8, 9, 10, 11, 12, 13, 14, 15, 16, 17, 18];
    let img = Raster::from_samples(3, 2, &data).expect("six pixels");
    assert_eq!(img.width(), 3);
    assert_eq!(img.height(), 2);
    assert_eq!(img.pixel(0, 0), Some((1, 2, 3)));
    assert_eq!(img.pixel(1, 0), Some((4, 5, 6)));
    assert_eq!(img.pixel(2, 0), Some((7, 8, 9)));
    assert_eq!(img.pixel(0, 1), Some((10, 11, 12)));
    assert_eq!(img.pixel(2, 1), Some((16, 17, 18)));
    assert_eq!(img.samples(), data);
}

#[test]
fn from_samples_rejects_a_wrong_length() {
    let data: Vec<u8> = vec![0; 17];
    assert!(Raster::from_samples(3, 2, &data).is_none());
    let longer: Vec<u8> = vec![0; 19];
    assert!(Raster::from_samples(3, 2, &longer).is_none());
    let none: Vec<u8> = Vec::new();
    assert!(Raster::from_samples(0, 0, &none).is_some());
    assert!(Raster::from_samples(1, 1, &none).is_none());
}

#[test]
fn samples_agree_with_the_image_crate_layout() {
    let mut img = Raster::filled(3, 2, WHITE);
    img.set_pixel(2, 1, (9, 8, 7));
    let outside = image::RgbImage::from_raw(3, 2, img.samples()).expect("fits");
    assert_eq!(outside.get_pixel(2, 1).0, [9, 8, 7]);
    assert_eq!(outside.get_pixel(0, 0).0, [255, 255, 255]);
    let back = Raster::from_samples(3, 2, outside.as_raw()).expect("fits");
    assert_eq!(back.pixel(2, 1), Some((9, 8, 7)));
}
