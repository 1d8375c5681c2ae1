use tracer::image::{Image, Rgb};

#[test]
fn pixel_color_assignment() {
    let mut image = Image::new(2, 2);
    image.set_pixel(0, 0, Rgb { r: 255, g: 127, b: 10 });
    assert_eq!(image.get_pixel(0, 0), Rgb { r: 255, g: 127, b: 10 });
}

#[test]
fn new_image_is_black() {
    let image = Image::new(3, 4);
    assert_eq!(image.get_height(), 3);
    assert_eq!(image.get_width(), 4);
    for i in 0..3 {
        for j in 0..4 {
            assert_eq!(image.get_pixel(i, j), Rgb { r: 0, g: 0, b: 0 });
        }
    }
}
