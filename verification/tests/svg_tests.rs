use blog_api::svg::{generate_svg, html_escape};
use blog_api::thumbnail::{parse_thumbnail_path, BackgroundColor, ThumbnailConfig};

fn config(emoji: &str, title: &str, body: &str, font_size: u32) -> ThumbnailConfig {
    let mut cfg = ThumbnailConfig::default();
    cfg.emoji = emoji.to_string();
    cfg.title = title.to_string();
    cfg.body = body.to_string();
    cfg.font_size = font_size;
    cfg
}

#[test]
fn escapes_the_five_special_characters() {
    assert_eq!(html_escape("a&<>\"'b"), "a&amp;&lt;&gt;&quot;&#x27;b");
    assert_eq!(html_escape("plain"), "plain");
    assert_eq!(html_escape(""), "");
    assert_eq!(html_escape("&&"), "&amp;&amp;");
}

#[test]
fn whole_document_for_emoji_and_title() {
    let cfg = parse_thumbnail_path("image-emoji:fire-title:Hello-fontSize:60").unwrap();
    let expected = "<svg width=\"1200\" height=\"630\" xmlns=\"http://www.w3.org/2000/svg\">\n    <defs>\n      <linearGradient id=\"bg\" x1=\"0%\" y1=\"0%\" x2=\"100%\" y2=\"100%\">\n            <stop offset=\"0%\" style=\"stop-color:#667eea;stop-opacity:1\" />\n            <stop offset=\"100%\" style=\"stop-color:#764ba2;stop-opacity:1\" />\n          </linearGradient>\n    </defs>\n    <rect width=\"1200\" height=\"630\" fill=\"url(#bg)\" />\n    <g transform=\"translate(600, 315)\">\n      <text x=\"0\" y=\"-60\" text-anchor=\"middle\" dominant-baseline=\"middle\" font-size=\"120\" font-family=\"Arial, sans-serif\">\u{1F525}</text>\n      <text x=\"0\" y=\"30\" text-anchor=\"middle\" dominant-baseline=\"middle\" font-size=\"60\" font-family=\"Arial, sans-serif\" font-weight=\"bold\" fill=\"white\">Hello</text>\n      \n    </g>\n  </svg>";
    assert_eq!(generate_svg(&cfg), expected);
}

#[test]
fn single_element_sits_at_offset_zero() {
    let svg = generate_svg(&config("", "Only", "", 999));
    assert!(svg.contains("y=\"0\""));
    let svg = generate_svg(&config("\u{1F525}", "", "", 48));
    assert!(svg.contains("y=\"0\""));
}

#[test]
fn three_elements_stack_around_the_midpoint() {
    let svg = generate_svg(&config("\u{1F525}", "T", "B", 48));
    assert!(svg.contains("y=\"-120\""));
    assert!(svg.contains("y=\"0\""));
    assert!(svg.contains("y=\"36\""));
    // the body font is four fifths of the title font
    assert!(svg.contains("font-size=\"38\""));
}

#[test]
fn fractional_offsets_render_like_the_standard_formatter() {
    // title weighs 50, body weighs 37.5: offsets -25 and 18.75
    let svg = generate_svg(&config("", "T", "B", 50));
    assert!(svg.contains("y=\"-25\""));
    assert!(svg.contains("y=\"18.75\""));
}

#[test]
fn zero_weight_renders_a_signed_zero() {
    // weights of zero put the upper element at -0.0, printed "-0"
    let svg = generate_svg(&config("", "T", "B", 0));
    assert!(svg.contains("y=\"-0\""));
    assert!(svg.contains("y=\"0\""));
}

#[test]
fn solid_background_skips_the_gradient_definition() {
    let mut cfg = config("", "T", "", 48);
    cfg.background_color = BackgroundColor::Solid("#ff0000".to_string());
    let svg = generate_svg(&cfg);
    assert!(svg.contains("fill=\"#ff0000\""));
    assert!(!svg.contains("linearGradient"));
}

#[test]
fn title_and_body_are_escaped_but_emoji_is_not() {
    let svg = generate_svg(&config("<", "<b>", "a&b", 48));
    assert!(svg.contains(">&lt;b&gt;</text>"));
    assert!(svg.contains(">a&amp;b</text>"));
    assert!(svg.contains("sans-serif\"><</text>"));
}

#[test]
fn same_config_renders_identically() {
    let a = generate_svg(&config("\u{1F525}", "T", "B", 60));
    let b = generate_svg(&config("\u{1F525}", "T", "B", 60));
    assert_eq!(a, b);
}
