use opencut::effect_defs::EffectDefsError;
use opencut::mask_defs::MaskRenderError;
use opencut::text::color::Color;
use opencut::text::engine::TextError;
use opencut::text::params::{FontStyle, FontWeight, TextAlign, TextDecoration};
use opencut::text::raster::RgbaBuffer;

#[test]
fn new_buffer_is_transparent_black() {
    let b = RgbaBuffer::new(3, 2);
    assert_eq!(b.pixels.len(), 24);
    assert!(b.pixels.iter().all(|&v| v == 0));
    assert_eq!(b.pixel(2, 1), Color::transparent());
}

#[test]
fn opaque_blend_replaces_pixel() {
    let mut b = RgbaBuffer::new(2, 2);
    b.blend_pixel(1, 1, Color::rgba(10, 20, 30, 255));
    assert_eq!(b.pixel(1, 1), Color::rgba(10, 20, 30, 255));
    b.blend_pixel(1, 1, Color::rgba(200, 100, 50, 255));
    assert_eq!(b.pixel(1, 1), Color::rgba(200, 100, 50, 255));
    assert_eq!(b.pixel(0, 0), Color::transparent());
}

#[test]
fn blend_skips_off_image_and_transparent() {
    let mut b = RgbaBuffer::new(2, 2);
    let before = b.clone();
    b.blend_pixel(-1, 0, Color::rgb(1, 2, 3));
    b.blend_pixel(0, 2, Color::rgb(1, 2, 3));
    b.blend_pixel(2, 0, Color::rgb(1, 2, 3));
    b.blend_pixel(0, 0, Color::rgba(1, 2, 3, 0));
    assert_eq!(b, before);
}

#[test]
fn blend_over_half_transparent() {
    let mut b = RgbaBuffer::new(1, 1);
    b.blend_pixel(0, 0, Color::rgba(255, 0, 0, 128));
    assert_eq!(b.pixel(0, 0), Color::rgba(255, 0, 0, 128));
    b.blend_pixel(0, 0, Color::rgba(0, 0, 255, 128));
    // alpha: 128 + 128 * 127 / 255 = 191
    // red: (0 + 255 * 128 * 127) / (191 * 255) = 85
    // blue: (255 * 128 * 255) / (191 * 255) = 170
    assert_eq!(b.pixel(0, 0), Color::rgba(85, 0, 170, 191));
}

#[test]
fn blend_keeps_low_eight_bits_of_channel() {
    let mut b = RgbaBuffer::new(1, 1);
    b.pixels = vec![255, 255, 255, 1];
    b.blend_pixel(0, 0, Color::rgba(255, 255, 255, 1));
    assert_eq!(b.pixel(0, 0), Color::rgba(253, 253, 253, 1));
}

#[test]
fn short_hex_reads_as_long() {
    assert_eq!(Color::parse("#abc"), Color::parse("#aabbcc"));
    assert_eq!(Color::parse("#abcd"), Color::parse("#aabbccdd"));
    assert_eq!(Color::parse("#1234"), Some(Color::rgba(0x11, 0x22, 0x33, 0x44)));
    assert_eq!(Color::parse("#ABCDEF"), Some(Color::rgb(0xab, 0xcd, 0xef)));
}

#[test]
fn hex_channels_follow_from_str_radix() {
    assert_eq!(Color::parse("#+f+f+f"), Some(Color::rgb(15, 15, 15)));
    assert_eq!(Color::parse("#+++"), None);
    assert_eq!(Color::parse("#12345"), None);
    assert_eq!(Color::parse("#ggg"), None);
    assert_eq!(Color::parse("fff"), None);
    assert_eq!(Color::parse("#é"), None);
}

#[test]
fn error_messages() {
    assert_eq!(
        MaskRenderError::InvalidSize { width: 0, height: 1080 }.to_string(),
        "invalid pixmap size 0x1080"
    );
    assert_eq!(
        MaskRenderError::InvalidStrokeColor("#zz".into()).to_string(),
        "invalid stroke color: #zz"
    );
    assert_eq!(TextError::FontLoad("missing".into()).to_string(), "failed to load font: missing");
    assert_eq!(
        EffectDefsError::UnknownEffect { effect_type: "glow".into() }.to_string(),
        "Unknown effect: glow"
    );
}

#[test]
fn text_defaults() {
    assert_eq!(TextAlign::default(), TextAlign::Center);
    assert_eq!(FontWeight::default(), FontWeight::Normal);
    assert_eq!(FontStyle::default(), FontStyle::Normal);
    assert_eq!(TextDecoration::default(), TextDecoration::Plain);
}
