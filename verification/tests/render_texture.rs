use pge::render::texture::{
    channel_formats, Error, Texture, TextureFormat, R8UI, RG8UI, RGB, RGB8, RGB8UI, RGBA, RGBA8,
    RGBA8UI,
};
use pge::utils::color::rgb::RgbColor;

#[test]
fn format_codes_are_the_drivers() {
    assert_eq!(R8UI, gl::R8UI);
    assert_eq!(RG8UI, gl::RG8UI);
    assert_eq!(RGB8UI, gl::RGB8UI);
    assert_eq!(RGBA8UI, gl::RGBA8UI);
    assert_eq!(RGB8, gl::RGB8);
    assert_eq!(RGBA8, gl::RGBA8);
    assert_eq!(RGB, gl::RGB);
    assert_eq!(RGBA, gl::RGBA);
}

#[test]
fn formats_by_channels() {
    assert_eq!(TextureFormat::GS.get_pixel_size(), 1);
    assert_eq!(TextureFormat::GSA.get_pixel_size(), 2);
    assert_eq!(TextureFormat::RGB.get_pixel_size(), 3);
    assert_eq!(TextureFormat::RGBA.get_pixel_size(), 4);
    assert_eq!(TextureFormat::GS.get_gl_type(), gl::R8UI);
    assert_eq!(TextureFormat::GSA.get_gl_type(), gl::RG8UI);
    assert_eq!(TextureFormat::RGB.get_gl_type(), gl::RGB8UI);
    assert_eq!(TextureFormat::RGBA.get_gl_type(), gl::RGBA8UI);
}

#[test]
fn decoded_images_have_three_or_four_channels() {
    assert_eq!(channel_formats(3).unwrap(), (gl::RGB8, gl::RGB));
    assert_eq!(channel_formats(4).unwrap(), (gl::RGBA8, gl::RGBA));
    for channels in [0u8, 1, 2, 5, 255] {
        assert!(matches!(channel_formats(channels), Err(Error::SizeMismatch)));
    }
}

#[test]
fn data_must_fit_the_size() {
    let t = Texture::from_data(TextureFormat::RGB, vec![7; 24], 4, 2).unwrap();
    assert_eq!(t.width(), 4);
    assert_eq!(t.height(), 2);
    assert_eq!(t.format(), TextureFormat::RGB);
    assert_eq!(t.data(), &[7; 24]);
    assert!(Texture::from_data(TextureFormat::GS, vec![1; 8], 4, 2).is_ok());
    assert!(Texture::from_data(TextureFormat::GSA, vec![1; 16], 4, 2).is_ok());
    assert!(Texture::from_data(TextureFormat::RGBA, vec![1; 32], 4, 2).is_ok());
    assert!(Texture::from_data(TextureFormat::RGB, Vec::new(), 0, 9).is_ok());
    for len in [0usize, 23, 25, 32] {
        assert!(matches!(
            Texture::from_data(TextureFormat::RGB, vec![0; len], 4, 2),
            Err(Error::SizeMismatch)
        ));
    }
}

#[test]
fn sizes_beyond_the_machine_never_fit() {
    let huge = usize::MAX;
    for data in [Vec::new(), vec![0u8; 3]] {
        assert!(matches!(
            Texture::from_data(TextureFormat::RGB, data.clone(), huge, 2),
            Err(Error::SizeMismatch)
        ));
        assert!(matches!(
            Texture::from_data(TextureFormat::RGB, data, huge / 2, 2),
            Err(Error::SizeMismatch)
        ));
    }
}

#[test]
fn one_colour_fills_four_bytes_a_pixel() {
    let color = RgbColor { red: 1, green: 2, blue: 3, alpha: Some(4) };
    let t = Texture::from_color(TextureFormat::RGBA, 3, 2, color);
    assert_eq!(t.data(), &[1, 2, 3, 4, 1, 2, 3, 4, 1, 2, 3, 4, 1, 2, 3, 4, 1, 2, 3, 4, 1, 2, 3, 4]);
    assert_eq!((t.width(), t.height()), (3, 2));
    let t = Texture::from_color(TextureFormat::RGB, 1, 2, RgbColor::new(9, 8, 7));
    assert_eq!(t.data(), &[9, 8, 7, 255, 9, 8, 7, 255]);
    assert_eq!(t.format(), TextureFormat::RGB);
    assert!(Texture::from_color(TextureFormat::GS, 0, 5, color).data().is_empty());
}

#[test]
fn blank_texture_has_no_data() {
    let t = Texture::new_blank(TextureFormat::RGBA, 10, 10);
    assert!(t.data().is_empty());
    assert_eq!((t.width(), t.height()), (10, 10));
    assert!(!t.has_pixel(0, 0));
}

#[test]
fn pixel_is_written_red_blue_green() {
    let mut t = Texture::from_data(TextureFormat::RGB, vec![0; 18], 3, 2).unwrap();
    t.set_pixel(1, 1, RgbColor::new(10, 20, 30));
    let mut want = vec![0u8; 18];
    want[12] = 10;
    want[13] = 30;
    want[14] = 20;
    assert_eq!(t.data(), &want[..]);
    t.set_pixel(0, 0, RgbColor::new(1, 2, 3));
    want[0] = 1;
    want[1] = 3;
    want[2] = 2;
    assert_eq!(t.data(), &want[..]);
    assert_eq!((t.width(), t.height(), t.format()), (3, 2, TextureFormat::RGB));
}

#[test]
fn pixels_that_may_be_written() {
    let t = Texture::from_data(TextureFormat::RGB, vec![0; 18], 3, 2).unwrap();
    assert!(t.has_pixel(0, 0));
    assert!(t.has_pixel(1, 2));
    assert!(!t.has_pixel(2, 0));
    // The column may run over into the next row.
    assert!(t.has_pixel(0, 5));
    assert!(!t.has_pixel(0, 6));
    assert!(!t.has_pixel(usize::MAX, 0));
    assert!(!t.has_pixel(0, usize::MAX));
    assert!(!t.has_pixel(usize::MAX / 3, 1));
    // One colour takes four bytes a pixel, a written pixel three.
    let t = Texture::from_color(TextureFormat::RGBA, 3, 2, RgbColor::new(0, 0, 0));
    assert!(t.has_pixel(2, 1));
    assert!(!t.has_pixel(2, 2));
}

#[test]
fn areas_that_can_be_counted() {
    assert!(Texture::area_fits(0, 0));
    assert!(Texture::area_fits(1920, 1080));
    assert!(Texture::area_fits(usize::MAX / 4, 1));
    assert!(!Texture::area_fits(usize::MAX / 4 + 1, 1));
    assert!(!Texture::area_fits(usize::MAX, 2));
    assert!(!Texture::area_fits(usize::MAX, usize::MAX));
    assert!(Texture::area_fits(usize::MAX, 0));
}
