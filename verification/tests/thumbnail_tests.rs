use blog_api::thumbnail::{
    get_emoji, is_hex, parse_color, parse_thumbnail_path, BackgroundColor, ThumbnailConfig,
};

#[test]
fn parse_emoji_title_font_size() {
    let cfg = parse_thumbnail_path("image-emoji:fire-title:Hello-fontSize:60").unwrap();
    assert_eq!(cfg.emoji, "\u{1F525}");
    assert_eq!(cfg.title, "Hello");
    assert_eq!(cfg.body, "");
    assert_eq!(cfg.font_size, 60);
    assert_eq!(cfg.width, 1200);
    assert_eq!(cfg.height, 630);
    assert_eq!(cfg.emoji_size, 120);
    match cfg.background_color {
        BackgroundColor::Gradient(a, b) => {
            assert_eq!(a, "#667eea");
            assert_eq!(b, "#764ba2");
        }
        _ => panic!("expected the default gradient"),
    }
}

#[test]
fn parse_rejects_non_image_path() {
    assert!(parse_thumbnail_path("not-an-image").is_none());
}

#[test]
fn parse_rejects_single_segment() {
    assert!(parse_thumbnail_path("image").is_none());
    assert!(parse_thumbnail_path("thumbnail-title:Hi").is_none());
}

#[test]
fn parse_solid_background_color() {
    let cfg = parse_thumbnail_path("image-backgroundColor:ff0000").unwrap();
    match cfg.background_color {
        BackgroundColor::Solid(c) => assert_eq!(c, "#ff0000"),
        _ => panic!("expected a solid background"),
    }
}

#[test]
fn parse_gradient_background_color() {
    let cfg = parse_thumbnail_path("image-backgroundColor:ff0000,00ff00").unwrap();
    match cfg.background_color {
        BackgroundColor::Gradient(a, b) => {
            assert_eq!(a, "#ff0000");
            assert_eq!(b, "#00ff00");
        }
        _ => panic!("expected a gradient background"),
    }
}

#[test]
fn parse_non_hex_color_kept_verbatim() {
    let cfg = parse_thumbnail_path("image-backgroundColor:red").unwrap();
    match cfg.background_color {
        BackgroundColor::Solid(c) => assert_eq!(c, "red"),
        _ => panic!("expected a solid background"),
    }
}

#[test]
fn parse_ignores_unknown_keys_and_bare_segments() {
    let cfg = parse_thumbnail_path("image-bogus:1-title:Hi-plain").unwrap();
    assert_eq!(cfg.title, "Hi");
    assert_eq!(cfg.emoji, "");
    assert_eq!(cfg.font_size, 48);
}

#[test]
fn parse_invalid_font_size_keeps_default() {
    let cfg = parse_thumbnail_path("image-fontSize:abc").unwrap();
    assert_eq!(cfg.font_size, 48);
    let cfg = parse_thumbnail_path("image-fontSize:99999999999999999999").unwrap();
    assert_eq!(cfg.font_size, 48);
}

#[test]
fn parse_strips_svg_suffix() {
    let cfg = parse_thumbnail_path("image-title:Hi.svg").unwrap();
    assert_eq!(cfg.title, "Hi");
    let cfg = parse_thumbnail_path("image-title:Hi.svg.svg").unwrap();
    assert_eq!(cfg.title, "Hi");
}

#[test]
fn emoji_lookup_and_fallback() {
    assert_eq!(get_emoji("fire"), "\u{1F525}");
    assert_eq!(get_emoji("smile"), "\u{1F60A}");
    assert_eq!(get_emoji("developer"), "\u{1F468}\u{200D}\u{1F4BB}");
    assert_eq!(get_emoji("\u{1F389}"), "\u{1F389}");
    assert_eq!(get_emoji("nosuchname"), "nosuchname");
}

#[test]
fn is_hex_checks_six_hex_digits() {
    assert!(is_hex("ff0000"));
    assert!(is_hex("ABCDEF"));
    assert!(!is_hex("ff000"));
    assert!(!is_hex("ff00000"));
    assert!(!is_hex("gg0000"));
    assert!(!is_hex(""));
}

#[test]
fn parse_color_trims_and_prefixes() {
    assert_eq!(parse_color("ff0000"), "#ff0000");
    assert_eq!(parse_color("  ff0000  "), "#ff0000");
    assert_eq!(parse_color("red"), "red");
    assert_eq!(parse_color(" red "), "red");
    assert_eq!(parse_color("#ff0000"), "#ff0000");
}

#[test]
fn default_config_matches_documented_defaults() {
    let cfg = ThumbnailConfig::default();
    assert_eq!(cfg.emoji, "");
    assert_eq!(cfg.title, "");
    assert_eq!(cfg.body, "");
    assert_eq!(cfg.font_size, 48);
    assert_eq!(cfg.width, 1200);
    assert_eq!(cfg.height, 630);
    assert_eq!(cfg.emoji_size, 120);
}

#[test]
fn trailing_separator_yields_the_default_config() {
    let cfg = parse_thumbnail_path("image-").unwrap();
    assert_eq!(cfg.title, "");
    assert_eq!(cfg.font_size, 48);
}

#[test]
fn empty_emoji_value_stays_empty() {
    let cfg = parse_thumbnail_path("image-emoji:").unwrap();
    assert_eq!(cfg.emoji, "");
}

#[test]
fn value_may_contain_further_colons() {
    let cfg = parse_thumbnail_path("image-title:a:b").unwrap();
    assert_eq!(cfg.title, "a:b");
}

#[test]
fn gradient_halves_are_trimmed() {
    let cfg = parse_thumbnail_path("image-backgroundColor:ff0000 , 00ff00").unwrap();
    match cfg.background_color {
        BackgroundColor::Gradient(a, b) => {
            assert_eq!(a, "#ff0000");
            assert_eq!(b, "#00ff00");
        }
        _ => panic!("expected a gradient background"),
    }
}

#[test]
fn later_keys_override_earlier_ones() {
    let cfg = parse_thumbnail_path("image-title:First-title:Second").unwrap();
    assert_eq!(cfg.title, "Second");
}
