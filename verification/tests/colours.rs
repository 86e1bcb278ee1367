use gesso::cli::{ModeArg, TransitionArg, WipeFromArg};
use gesso::spec::{ColourError, Mode, Rgb, Spec, Transition, TransitionSpec, WipeFrom};

#[test]
fn colours_parse_from_hex() {
    assert_eq!(Rgb::parse("#FF5733"), Ok(Rgb { r: 255, g: 87, b: 51 }));
    assert_eq!(Rgb::parse("FF5733"), Ok(Rgb { r: 255, g: 87, b: 51 }));
    assert_eq!(Rgb::parse("#1e1e2e"), Ok(Rgb { r: 0x1e, g: 0x1e, b: 0x2e }));
    assert_eq!(Rgb::parse("  #000000\n"), Ok(Rgb { r: 0, g: 0, b: 0 }));
    assert_eq!(Rgb::parse("\u{a0}#aAbBcC\u{3000}"), Ok(Rgb { r: 0xaa, g: 0xbb, b: 0xcc }));
    assert_eq!(Rgb::parse("\t0a0B0c "), Ok(Rgb { r: 10, g: 11, b: 12 }));
}

#[test]
fn colours_of_the_wrong_length_are_refused() {
    for text in ["", "#", "#12345", "#1234567", "12 34 56", "##123456", "# 123456", "#12345 6"] {
        assert_eq!(Rgb::parse(text), Err(ColourError::BadLength), "{text}");
    }
}

#[test]
fn colours_with_other_characters_are_refused() {
    for text in [
        "#12345g", "#-12345", "#1+2345", "#12 456", "zzzzzz", "#12345+", "#é12345", "#1234\u{ff11}6",
        "+1+2+3", "#+1+2+f", "#0x1234", "#12_456",
    ] {
        assert_eq!(Rgb::parse(text), Err(ColourError::BadDigit), "{text}");
    }
}

#[test]
fn colours_encode_as_xrgb() {
    assert_eq!(Rgb { r: 0x10, g: 0x20, b: 0x30 }.xrgb8888(), 0x0010_2030);
    assert_eq!(Rgb { r: 0, g: 0, b: 0 }.xrgb8888(), 0);
    assert_eq!(Rgb { r: 255, g: 255, b: 255 }.xrgb8888(), 0x00FF_FFFF);
    assert_eq!(Rgb { r: 255, g: 0, b: 1 }.xrgb8888(), 0x00FF_0001);
}

#[test]
fn colours_print_as_upper_case_hex() {
    assert_eq!(Rgb { r: 255, g: 87, b: 51 }.to_hex(), "#FF5733");
    assert_eq!(Rgb { r: 0, g: 10, b: 9 }.to_hex(), "#000A09");
    assert_eq!(Rgb { r: 0xab, g: 0xcd, b: 0xef }.to_hex(), "#ABCDEF");
    for text in ["#000000", "#FFFFFF", "#1E1E2E", "#0F00F0"] {
        assert_eq!(Rgb::parse(text).expect("colour").to_hex(), text);
    }
    // Every colour reads back from its own text.
    for v in 0..=255u8 {
        let c = Rgb { r: v, g: v.wrapping_mul(7), b: 255 - v };
        assert_eq!(Rgb::parse(&c.to_hex()), Ok(c));
    }
}

#[test]
fn command_line_names_map_to_the_request() {
    assert_eq!(Mode::from(ModeArg::Fill), Mode::Fill);
    assert_eq!(Mode::from(ModeArg::Fit), Mode::Fit);
    assert_eq!(Mode::from(ModeArg::Stretch), Mode::Stretch);
    assert_eq!(Mode::from(ModeArg::Center), Mode::Center);
    assert_eq!(Mode::from(ModeArg::Tile), Mode::Tile);
    assert_eq!(Transition::from(TransitionArg::Instant), Transition::Instant);
    assert_eq!(Transition::from(TransitionArg::Fade), Transition::Fade);
    assert_eq!(Transition::from(TransitionArg::Wipe), Transition::Wipe);
    assert_eq!(WipeFrom::from(WipeFromArg::Left), WipeFrom::Left);
    assert_eq!(WipeFrom::from(WipeFromArg::Right), WipeFrom::Right);
}

#[test]
fn defaults() {
    assert_eq!(WipeFrom::default(), WipeFrom::Left);
    assert_eq!(
        TransitionSpec::default(),
        TransitionSpec { kind: Transition::Instant, duration: 200, wipe_from: WipeFrom::Left }
    );
}

#[test]
fn requests_copy() {
    let image = Spec::Image {
        path: "/a.png".to_string(),
        mode: Mode::Fit,
        colour: Rgb { r: 1, g: 2, b: 3 },
        output: Some("DP-1".to_string()),
        transition: TransitionSpec::default(),
    };
    assert_eq!(image.duplicate(), image);
    let colour = Spec::Colour { colour: Rgb { r: 1, g: 2, b: 3 }, output: None, transition: TransitionSpec::default() };
    assert_eq!(colour.duplicate(), colour);
    assert_ne!(colour.duplicate(), image);
}
