use opencut::mask_defs::paint::{parse_stroke_color, stroke_color_channels};
use opencut::mask_defs::{new_pixmap, MaskRenderError};

#[test]
fn stroke_channels_of_each_hex_form() {
    assert_eq!(stroke_color_channels("#f80").unwrap(), (0xff, 0x88, 0x00, 255));
    assert_eq!(stroke_color_channels("#f808").unwrap(), (0xff, 0x88, 0x00, 0x88));
    assert_eq!(stroke_color_channels(" #FF8000 ").unwrap(), (0xff, 0x80, 0x00, 255));
    assert_eq!(stroke_color_channels("#12345678").unwrap(), (0x12, 0x34, 0x56, 0x78));
    assert_eq!(stroke_color_channels("#+ff").unwrap(), (0x00, 0xff, 0xff, 255));
}

#[test]
fn stroke_channels_errors_name_the_text() {
    for text in ["red", "#ff", "#fffff", "#ggg", "#-ff", " #1234567 ", "#é1", ""] {
        match stroke_color_channels(text) {
            Err(MaskRenderError::InvalidStrokeColor(t)) => assert_eq!(t, text),
            other => panic!("unexpected result for {text:?}: {other:?}"),
        }
    }
}

#[test]
fn stroke_color_converts_to_skia() {
    let c = parse_stroke_color("#ff8000").unwrap().to_color_u8();
    assert_eq!((c.red(), c.green(), c.blue(), c.alpha()), (255, 128, 0, 255));
    let c = parse_stroke_color("#0000ff80").unwrap().to_color_u8();
    assert_eq!((c.red(), c.green(), c.blue(), c.alpha()), (0, 0, 255, 128));
    assert!(parse_stroke_color("blue").is_err());
}

#[test]
fn pixmap_sizes() {
    let p = new_pixmap(4, 3).unwrap();
    assert_eq!((p.width(), p.height()), (4, 3));
    match new_pixmap(0, 3) {
        Err(MaskRenderError::InvalidSize { width, height }) => assert_eq!((width, height), (0, 3)),
        other => panic!("unexpected: {:?}", other.map(|p| p.width())),
    }
    assert!(new_pixmap(u32::MAX, 1).is_err());
}

#[test]
fn new_pixmaps_are_transparent() {
    let p = new_pixmap(5, 2).unwrap();
    assert_eq!(p.data().len(), 5 * 2 * 4);
    assert!(p.data().iter().all(|b| *b == 0));
}
