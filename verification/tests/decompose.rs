use skybox_net::assemble::get_skybox;
use skybox_net::image::{Color, Image, ImageError};
use skybox_net::measure::ImageMeasurements;

fn rgb(r: u8, g: u8, b: u8) -> Color {
    Color { r, g, b, a: 255 }
}

fn fill_rect(im: &mut Image, x0: u32, y0: u32, x1: u32, y1: u32, c: Color) {
    for y in y0..y1 {
        for x in x0..x1 {
            im.set_pixel(x, y, c);
        }
    }
}

/// A 40x30 net with face cells of side 8: the middle row spans x [4, 36)
/// at y [11, 19), the central column spans y [3, 27) at x [20, 28).
/// Face cells, as (x interval, y interval) of the cross:
/// (0,1) (1,1) (2,1) (3,1) across the middle row, (2,0) and (2,2) above
/// and below the center.
fn canonical_net(cells: [Color; 6]) -> Image {
    let bg = rgb(40, 40, 40);
    let mut im = Image::new(40, 30, bg);
    // middle row cells (0,1), (1,1), (2,1), (3,1)
    fill_rect(&mut im, 4, 11, 12, 19, cells[0]);
    fill_rect(&mut im, 12, 11, 20, 19, cells[1]);
    fill_rect(&mut im, 20, 11, 28, 19, cells[2]);
    fill_rect(&mut im, 28, 11, 36, 19, cells[3]);
    // central column cells (2,0) and (2,2)
    fill_rect(&mut im, 20, 3, 28, 11, cells[4]);
    fill_rect(&mut im, 20, 19, 28, 27, cells[5]);
    im
}

fn images_equal(a: &Image, b: &Image) -> bool {
    if a.width() != b.width() || a.height() != b.height() {
        return false;
    }
    for y in 0..a.height() {
        for x in 0..a.width() {
            if a.pixel(x, y) != b.pixel(x, y) {
                return false;
            }
        }
    }
    true
}

#[test]
fn well_formed_net_accepted() {
    let c = rgb(200, 10, 10);
    let im = canonical_net([c, c, c, c, c, c]);
    let m = ImageMeasurements::find_measurements(&im).expect("net should be measurable");
    assert_eq!(m.vec_x().len(), 5);
    assert_eq!(m.vec_y().len(), 4);
    assert_eq!(m.vec_x(), &vec![4, 12, 20, 28, 36]);
    assert_eq!(m.vec_y(), &vec![3, 11, 19, 27]);
    assert_eq!(m.measure_side_length(), 8);
    let out = get_skybox(&im).expect("net should decompose");
    assert_eq!(out.width(), 8);
    assert_eq!(out.height(), 48);
}

#[test]
fn decomposition_is_idempotent() {
    let im = canonical_net([
        rgb(200, 10, 10),
        rgb(10, 200, 10),
        rgb(10, 10, 200),
        rgb(200, 200, 10),
        rgb(10, 200, 200),
        rgb(200, 10, 200),
    ]);
    let out1 = get_skybox(&im).expect("net should decompose");
    let out2 = get_skybox(&im).expect("net should decompose again");
    assert!(images_equal(&out1, &out2));
}

#[test]
fn output_height_is_six_times_width() {
    // A net with unequal cell extents, still within the spacing tolerance:
    // x boundaries [4, 17, 30, 40, 56], y boundaries [3, 11, 19, 27].
    let bg = rgb(90, 90, 90);
    let face = rgb(250, 120, 0);
    let mut im = Image::new(60, 30, bg);
    fill_rect(&mut im, 4, 11, 56, 19, face);
    fill_rect(&mut im, 30, 3, 40, 27, face);
    let m = ImageMeasurements::find_measurements(&im).expect("net should be measurable");
    assert_eq!(m.vec_x(), &vec![4, 17, 30, 40, 56]);
    assert_eq!(m.vec_y(), &vec![3, 11, 19, 27]);
    let out = get_skybox(&im).expect("net should decompose");
    assert_eq!(out.height(), 6 * out.width());
}

#[test]
fn face_order_is_px_nx_py_ny_pz_nz() {
    let neg_z = rgb(1, 0, 10);
    let neg_x = rgb(2, 0, 20);
    let pos_z = rgb(3, 0, 30);
    let pos_x = rgb(4, 0, 40);
    let pos_y = rgb(5, 0, 50);
    let neg_y = rgb(6, 0, 60);
    // middle row left to right: -Z, -X, +Z, +X; top cell +Y; bottom cell -Y.
    let im = canonical_net([neg_z, neg_x, pos_z, pos_x, pos_y, neg_y]);
    let out = get_skybox(&im).expect("net should decompose");
    assert_eq!(out.width(), 8);
    assert_eq!(out.height(), 48);
    let expected = [pos_x, neg_x, pos_y, neg_y, pos_z, neg_z];
    for (layer, want) in expected.iter().enumerate() {
        for v in 0..8u32 {
            for u in 0..8u32 {
                assert_eq!(out.pixel(u, 8 * (layer as u32) + v), *want);
            }
        }
    }
}

#[test]
fn side_length_never_exceeds_any_interval() {
    let bg = rgb(90, 90, 90);
    let face = rgb(250, 120, 0);
    let mut im = Image::new(60, 30, bg);
    fill_rect(&mut im, 4, 11, 56, 19, face);
    fill_rect(&mut im, 30, 3, 40, 27, face);
    let m = ImageMeasurements::find_measurements(&im).expect("net should be measurable");
    let side = m.measure_side_length();
    let vx = m.vec_x();
    let vy = m.vec_y();
    for i in 0..4 {
        assert!(side <= vx[i + 1] - vx[i]);
    }
    for i in 0..3 {
        assert!(side <= vy[i + 1] - vy[i]);
    }
    // side is the least of the seven extents: [13, 13, 10, 16] and [8, 8, 8].
    assert_eq!(side, 8);
}

#[test]
fn top_bottom_misalignment_is_rejected() {
    // The top cell of the central column sits 9 px right of the bottom one.
    let bg = rgb(40, 40, 40);
    let face = rgb(200, 10, 10);
    let mut im = Image::new(40, 30, bg);
    fill_rect(&mut im, 4, 11, 36, 19, face);
    fill_rect(&mut im, 29, 3, 37, 11, face);
    fill_rect(&mut im, 20, 19, 28, 27, face);
    assert_eq!(
        ImageMeasurements::find_measurements(&im),
        Err(ImageError::NotAligned)
    );
    assert_eq!(get_skybox(&im).err(), Some(ImageError::NotAligned));
}

#[test]
fn uneven_x_spacing_is_rejected() {
    // Boundaries [4, 6, 8, 16, 56]: extents [2, 2, 8, 40] spread past 16.
    let bg = rgb(40, 40, 40);
    let face = rgb(200, 10, 10);
    let mut im = Image::new(60, 30, bg);
    fill_rect(&mut im, 4, 11, 56, 19, face);
    fill_rect(&mut im, 8, 3, 16, 11, face);
    fill_rect(&mut im, 8, 19, 16, 27, face);
    assert_eq!(
        ImageMeasurements::find_measurements(&im),
        Err(ImageError::NotAligned)
    );
}

#[test]
fn left_right_arm_misalignment_is_rejected() {
    // The rightmost cell reaches 9 px higher than the left arm.
    let bg = rgb(40, 40, 40);
    let face = rgb(200, 10, 10);
    let mut im = Image::new(40, 30, bg);
    fill_rect(&mut im, 4, 11, 36, 19, face);
    fill_rect(&mut im, 20, 3, 28, 27, face);
    fill_rect(&mut im, 28, 2, 36, 19, face);
    assert_eq!(
        ImageMeasurements::find_measurements(&im),
        Err(ImageError::NotAligned)
    );
}

#[test]
fn uneven_y_spacing_is_rejected() {
    // y boundaries [0, 20, 22, 42]: extents [20, 2, 20] spread past 16.
    let bg = rgb(40, 40, 40);
    let face = rgb(200, 10, 10);
    let mut im = Image::new(40, 42, bg);
    fill_rect(&mut im, 4, 20, 36, 22, face);
    fill_rect(&mut im, 20, 0, 28, 42, face);
    assert_eq!(
        ImageMeasurements::find_measurements(&im),
        Err(ImageError::NotAligned)
    );
}

#[test]
fn crops_inside_a_narrower_target_still_assemble() {
    // Measured on a 48x30 net: x boundaries [0, 10, 20, 30, 41], y
    // boundaries [0, 10, 20, 30], side 10. Applied to a 40x30 image the
    // outermost boundary (41) lies outside, yet all six centered 10x10
    // crops do fit: the +X crop spans x [30, 40).
    let bg = rgb(40, 40, 40);
    let face = rgb(200, 10, 10);
    let mut wide = Image::new(48, 30, bg);
    fill_rect(&mut wide, 0, 10, 41, 20, face);
    fill_rect(&mut wide, 20, 0, 30, 30, face);
    let m = ImageMeasurements::find_measurements(&wide).expect("net should be measurable");
    assert_eq!(m.vec_x(), &vec![0, 10, 20, 30, 41]);
    assert_eq!(m.vec_y(), &vec![0, 10, 20, 30]);
    assert_eq!(m.measure_side_length(), 10);
    let narrow = Image::new(40, 30, rgb(1, 2, 3));
    let out = m.to_image(&narrow).expect("every crop lies inside 40x30");
    assert_eq!(out.width(), 10);
    assert_eq!(out.height(), 60);
}

#[test]
fn crop_outside_source_is_a_copy_error() {
    let c = rgb(200, 10, 10);
    let net = canonical_net([c, c, c, c, c, c]);
    let m = ImageMeasurements::find_measurements(&net).expect("net should be measurable");
    let tiny = Image::new(10, 10, rgb(0, 0, 0));
    assert_eq!(m.to_image(&tiny), Err(ImageError::CopyError));
}

#[test]
fn strip_pixels_come_from_centered_crops() {
    // Distinct column stripes in the +Z cell show that the crop is taken
    // pixel for pixel from the source cell.
    let c = rgb(200, 10, 10);
    let mut im = canonical_net([c, c, c, c, c, c]);
    for x in 20..28u32 {
        for y in 11..19u32 {
            im.set_pixel(x, y, rgb((x - 20) as u8, (y - 11) as u8, 0));
        }
    }
    let out = get_skybox(&im).expect("net should decompose");
    for v in 0..8u32 {
        for u in 0..8u32 {
            // +Z is layer 4.
            assert_eq!(out.pixel(u, 8 * 4 + v), rgb(u as u8, v as u8, 0));
        }
    }
}
