use ray_tracer::image::Image;

fn sample() -> Image {
    // 2 x 2: red, green / blue, white
    let bytes = vec![255, 0, 0, 0, 255, 0, 0, 0, 255, 255, 255, 255];
    Image::from_rgb8(2, 2, bytes).unwrap()
}

#[test]
fn from_rgb8_checks_length() {
    assert!(Image::from_rgb8(2, 2, vec![0; 11]).is_none());
    assert!(Image::from_rgb8(2, 2, vec![0; 13]).is_none());
    assert!(Image::from_rgb8(0, 0, Vec::new()).is_some());
    let img = sample();
    assert_eq!(img.width(), 2);
    assert_eq!(img.height(), 2);
}

#[test]
fn pixel_data_inside_and_outside() {
    let img = sample();
    assert_eq!(img.pixel_data(0, 0), Some((255, 0, 0)));
    assert_eq!(img.pixel_data(1, 0), Some((0, 255, 0)));
    assert_eq!(img.pixel_data(0, 1), Some((0, 0, 255)));
    assert_eq!(img.pixel_data(1, 1), Some((255, 255, 255)));
    assert_eq!(img.pixel_data(2, 0), None);
    assert_eq!(img.pixel_data(0, 2), None);
}

#[test]
fn texel_clamps_one_past_the_end() {
    let img = sample();
    assert_eq!(img.texel(2, 2), Some((255, 255, 255)));
    assert_eq!(img.texel(2, 0), Some((0, 255, 0)));
    assert_eq!(img.texel(0, 1), Some((0, 0, 255)));
}

#[test]
fn texel_of_empty_image_is_none() {
    let img = Image::from_rgb8(0, 3, Vec::new()).unwrap();
    assert_eq!(img.texel(0, 0), None);
}
