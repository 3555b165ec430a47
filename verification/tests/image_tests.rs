use raytracer::fixed::Fixed;
use raytracer::p3::{channel_of, P3};
use raytracer::vec3::Vec3;

fn fx(raw: i32) -> Fixed {
    Fixed::from_raw(raw)
}

fn raw(x: i32, y: i32, z: i32) -> Vec3 {
    Vec3::new(fx(x), fx(y), fx(z))
}

#[test]
fn a_new_image_is_white() {
    let image = P3::new(3, 2);
    assert_eq!(image.width(), 3);
    assert_eq!(image.height(), 2);
    for x in 0..3 {
        for y in 0..2 {
            assert_eq!(image.color_at(x, y), Vec3::unit());
        }
    }
}

#[test]
fn a_colour_is_read_as_it_was_written() {
    for (width, height) in [(1, 1), (2, 2), (5, 2), (2, 5), (40, 1), (1, 40)] {
        let mut image = P3::new(width, height);
        for x in 0..width {
            for y in 0..height {
                let c = raw(x as i32, y as i32, -7);
                image.set_color_at(x, y, c);
                assert_eq!(image.color_at(x, y), c);
            }
        }
    }
}

#[test]
fn writing_one_place_leaves_the_others() {
    for (width, height) in [(5, 2), (2, 5), (40, 1), (1, 40), (7, 7)] {
        let mut image = P3::new(width, height);
        for x in 0..width {
            for y in 0..height {
                image.set_color_at(x, y, raw(x as i32, y as i32, 1));
            }
        }
        for x in 0..width {
            for y in 0..height {
                assert_eq!(image.color_at(x, y), raw(x as i32, y as i32, 1));
            }
        }
        image.set_color_at(width - 1, 0, raw(-1, -1, -1));
        for x in 0..width {
            for y in 0..height {
                let expected = if x == width - 1 && y == 0 { raw(-1, -1, -1) } else { raw(x as i32, y as i32, 1) };
                assert_eq!(image.color_at(x, y), expected);
            }
        }
    }
}

#[test]
fn channels_are_rounded_up() {
    assert_eq!(channel_of(fx(0)), 0);
    assert_eq!(channel_of(fx(100_000)), 255);
    assert_eq!(channel_of(fx(50_000)), 128);
    assert_eq!(channel_of(fx(70_000)), 179);
    assert_eq!(channel_of(fx(1)), 1);
    assert_eq!(channel_of(fx(392)), 1);
    assert_eq!(channel_of(fx(393)), 2);
    assert_eq!(channel_of(fx(99_999)), 255);
    assert_eq!(channel_of(fx(100_001)), 256);
    assert_eq!(channel_of(fx(-50_000)), -127);
    assert_eq!(channel_of(fx(-1)), 0);
    assert_eq!(channel_of(fx(i32::MAX)), 5_476_084);
    assert_eq!(channel_of(fx(i32::MIN)), -5_476_083);
}

#[test]
fn the_text_of_a_white_image() {
    assert_eq!(P3::new(1, 1).to_string(), "P3\n1 1\n255\n255 255 255 \n");
    assert_eq!(
        P3::new(2, 3).to_string(),
        "P3\n2 3\n255\n255 255 255 255 255 255 \n255 255 255 255 255 255 \n255 255 255 255 255 255 \n"
    );
}

#[test]
fn the_text_starts_with_the_top_row() {
    let mut image = P3::new(2, 2);
    image.set_color_at(0, 0, raw(0, 0, 0));
    image.set_color_at(1, 0, raw(100_000, 0, 0));
    image.set_color_at(0, 1, raw(0, 100_000, 0));
    image.set_color_at(1, 1, raw(50_000, 70_000, 100_000));
    assert_eq!(image.to_string(), "P3\n2 2\n255\n0 255 0 128 179 255 \n0 0 0 255 0 0 \n");
}

#[test]
fn the_text_of_colours_out_of_range() {
    let mut image = P3::new(1, 1);
    image.set_color_at(0, 0, raw(-50_000, 200_000, i32::MIN));
    assert_eq!(image.to_string(), "P3\n1 1\n255\n-127 510 -5476083 \n");
}

#[test]
fn the_text_of_an_image_without_places() {
    assert_eq!(P3::new(0, 0).to_string(), "P3\n0 0\n255\n");
    assert_eq!(P3::new(0, 3).to_string(), "P3\n0 3\n255\n\n\n\n");
    assert_eq!(P3::new(3, 0).to_string(), "P3\n3 0\n255\n");
}

#[test]
fn the_text_of_a_wide_image_has_its_size() {
    let text = P3::new(120, 3).to_string();
    assert!(text.starts_with("P3\n120 3\n255\n"));
    assert_eq!(text.lines().count(), 6);
    assert_eq!(text.split_whitespace().count(), 4 + 3 * 120 * 3);
}
