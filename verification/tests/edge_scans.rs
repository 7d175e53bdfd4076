use skybox_net::image::{Color, Image, ImageError};
use skybox_net::scan::{
    search_from_bottom, search_from_left, search_from_right, search_from_top,
};

fn rgb(r: u8, g: u8, b: u8) -> Color {
    Color { r, g, b, a: 255 }
}

#[test]
fn scans_find_a_single_pixel() {
    let bg = rgb(255, 255, 255);
    let mut im = Image::new(5, 3, bg);
    im.set_pixel(2, 1, rgb(200, 0, 0));
    assert_eq!(search_from_left(&im, bg, 1), Ok(2));
    assert_eq!(search_from_right(&im, bg, 1), Ok(3));
    assert_eq!(search_from_top(&im, bg, 2), Ok(1));
    assert_eq!(search_from_bottom(&im, bg, 2), Ok(2));
}

#[test]
fn scans_find_block_edges() {
    let bg = rgb(0, 0, 0);
    let mut im = Image::new(10, 10, bg);
    for y in 3..7u32 {
        for x in 2..9u32 {
            im.set_pixel(x, y, rgb(9, 9, 9));
        }
    }
    assert_eq!(search_from_left(&im, bg, 5), Ok(2));
    assert_eq!(search_from_right(&im, bg, 5), Ok(9));
    assert_eq!(search_from_top(&im, bg, 4), Ok(3));
    assert_eq!(search_from_bottom(&im, bg, 4), Ok(7));
}

#[test]
fn background_only_axes_report_net_not_found() {
    let bg = rgb(255, 255, 255);
    let mut im = Image::new(5, 3, bg);
    im.set_pixel(2, 1, rgb(200, 0, 0));
    assert_eq!(search_from_left(&im, bg, 0), Err(ImageError::NetNotFound));
    assert_eq!(search_from_right(&im, bg, 2), Err(ImageError::NetNotFound));
    assert_eq!(search_from_top(&im, bg, 0), Err(ImageError::NetNotFound));
    assert_eq!(search_from_bottom(&im, bg, 4), Err(ImageError::NetNotFound));
}
