use skybox_net::assemble::get_skybox;
use skybox_net::background::find_background;
use skybox_net::image::{Color, Image, ImageError};

fn rgb(r: u8, g: u8, b: u8) -> Color {
    Color { r, g, b, a: 255 }
}

// On an 8x6 image the eight sample points are x in {1, 3, 5, 7} crossed
// with y in {1, 5}.
const SAMPLE_XS: [u32; 4] = [1, 3, 5, 7];
const SAMPLE_YS: [u32; 2] = [1, 5];

#[test]
fn uniform_image_has_unanimous_background() {
    let c = rgb(17, 34, 51);
    let im = Image::new(8, 6, c);
    assert_eq!(find_background(&im), Ok(c));
}

#[test]
fn uniform_image_yields_net_not_found() {
    let c = rgb(17, 34, 51);
    let im = Image::new(24, 24, c);
    assert_eq!(get_skybox(&im).err(), Some(ImageError::NetNotFound));
}

#[test]
fn four_of_eight_samples_are_accepted() {
    let bg = rgb(10, 10, 10);
    let mut im = Image::new(8, 6, bg);
    // Overwrite four of the eight sample points with four distinct colors:
    // exactly four samples keep the background color.
    im.set_pixel(SAMPLE_XS[0], SAMPLE_YS[0], rgb(1, 0, 0));
    im.set_pixel(SAMPLE_XS[1], SAMPLE_YS[0], rgb(2, 0, 0));
    im.set_pixel(SAMPLE_XS[2], SAMPLE_YS[0], rgb(3, 0, 0));
    im.set_pixel(SAMPLE_XS[3], SAMPLE_YS[0], rgb(4, 0, 0));
    assert_eq!(find_background(&im), Ok(bg));
}

#[test]
fn three_of_eight_samples_are_rejected() {
    let bg = rgb(10, 10, 10);
    let mut im = Image::new(8, 6, bg);
    // Overwrite five sample points with five distinct colors: only three
    // samples keep the background color, one short of the majority.
    im.set_pixel(SAMPLE_XS[0], SAMPLE_YS[0], rgb(1, 0, 0));
    im.set_pixel(SAMPLE_XS[1], SAMPLE_YS[0], rgb(2, 0, 0));
    im.set_pixel(SAMPLE_XS[2], SAMPLE_YS[0], rgb(3, 0, 0));
    im.set_pixel(SAMPLE_XS[3], SAMPLE_YS[0], rgb(4, 0, 0));
    im.set_pixel(SAMPLE_XS[0], SAMPLE_YS[1], rgb(5, 0, 0));
    assert_eq!(find_background(&im), Err(ImageError::BackgroundNotDetermined));
    assert_eq!(
        get_skybox(&im).err(),
        Some(ImageError::BackgroundNotDetermined)
    );
}

#[test]
fn majority_color_wins_over_scattered_samples() {
    let bg = rgb(10, 10, 10);
    let winner = rgb(77, 0, 0);
    let mut im = Image::new(8, 6, bg);
    // Five samples of one color against three of the base fill.
    im.set_pixel(SAMPLE_XS[0], SAMPLE_YS[0], winner);
    im.set_pixel(SAMPLE_XS[1], SAMPLE_YS[0], winner);
    im.set_pixel(SAMPLE_XS[2], SAMPLE_YS[0], winner);
    im.set_pixel(SAMPLE_XS[3], SAMPLE_YS[0], winner);
    im.set_pixel(SAMPLE_XS[0], SAMPLE_YS[1], winner);
    assert_eq!(find_background(&im), Ok(winner));
}
