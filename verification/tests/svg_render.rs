//! Tests of the SVG renderer.

use termsnap::{emulate, FontMetrics, Screen};

fn count(haystack: &str, needle: &str) -> usize {
    let mut n = 0;
    let mut rest = haystack;
    while let Some(pos) = rest.find(needle) {
        n += 1;
        rest = &rest[pos + needle.len()..];
    }
    n
}

fn render(screen: &Screen) -> String {
    screen.to_svg(&Vec::new(), FontMetrics::standard())
}

#[test]
fn empty_screen_svg() {
    // A zero-by-zero screen still renders to a well-formed document: a
    // zero-sized viewBox, one black background rectangle, no text.
    let svg = render(&Screen::blank(0, 0));
    assert!(svg.starts_with("<svg viewBox=\"0 0 0 0\""));
    assert!(svg.ends_with("</svg>"));
    assert_eq!(count(&svg, "<rect"), 1);
    assert!(svg.contains("fill: #000000"));
    assert_eq!(count(&svg, "<text"), 0);
}

#[test]
fn render_twice_identical() {
    // Rendering one snapshot twice yields byte-identical SVGs.
    let screen = emulate(6, 12, b"hi \x1B[35mthere\x1B[0m");
    let first = render(&screen);
    let second = render(&screen);
    assert_eq!(first, second);
}

#[test]
fn uniform_screen_single_rect() {
    // For a uniform screen exactly one background rectangle is emitted.
    let svg = render(&Screen::blank(5, 5));
    assert_eq!(count(&svg, "<rect"), 1);
    assert!(svg.contains("fill: #002b36"));
}

#[test]
fn single_cell_two_rects() {
    // One cell with a non-default background yields exactly two
    // rectangles: the full-screen majority one and a one-cell one at the
    // cell's pixel position.
    let screen = emulate(10, 10, b"\x1B[4;6H\x1B[41m \x1B[0m");
    let svg = render(&screen);
    assert_eq!(count(&svg, "<rect"), 2);
    // the majority rectangle covers the viewBox
    assert!(svg.contains("<rect x=\"0\" y=\"0\" width=\"72\" height=\"144\""));
    // the cell rectangle sits at (x = 5 * 7.2, y = 3 * 14.4)
    assert!(
        svg.contains("<rect x=\"36\" y=\"43.2\" width=\"7.2\" height=\"14.4\""),
        "svg was: {svg}"
    );
    assert!(svg.contains("fill: #dc322f"));
}

#[test]
fn structure_single_root() {
    // One root element, one screen group, one closing pair.
    let screen = emulate(3, 7, b"abc");
    let svg = render(&screen);
    assert_eq!(count(&svg, "<svg"), 1);
    assert_eq!(count(&svg, "</svg>"), 1);
    assert_eq!(count(&svg, "<g class=\"screen\">"), 1);
    assert_eq!(count(&svg, "</g>"), 1);
    assert!(svg.starts_with("<svg viewBox=\"0 0 50.4 43.2\""));
}

#[test]
fn escaping_in_text_runs() {
    // `<` and `&` are escaped; the second of two adjacent spaces inside a
    // run becomes a numeric non-breaking-space reference.
    let screen = emulate(2, 40, b"< & a  b");
    let svg = render(&screen);
    assert!(svg.contains("&lt; &amp; a &#160;b"), "svg was: {svg}");
    assert!(!svg.contains("< &"));
}

#[test]
fn font_family_lists_fonts_then_monospace() {
    let screen = Screen::blank(2, 2);
    let fonts = vec!["Consolas".to_string(), "Menlo".to_string()];
    let svg = screen.to_svg(&fonts, FontMetrics::standard());
    assert!(svg.contains("font-family: \"Consolas\", \"Menlo\", monospace;"));
    assert!(svg.contains("font-size: 12px;"));
}

#[test]
fn text_run_attributes() {
    // A bold green run carries its fill and weight in the style.
    let screen = emulate(2, 20, b"\x1B[1;32mok\x1B[0m");
    let svg = render(&screen);
    assert!(svg.contains("<text x=\"0\" y=\"10.8\""), "svg was: {svg}");
    assert!(svg.contains("fill: #859900"));
    assert!(svg.contains("font-weight: 600;"));

    // italic, underline and strike-through each surface in the style
    let screen = emulate(2, 20, b"\x1B[3;4;9mx\x1B[0m");
    let svg = render(&screen);
    assert!(svg.contains("font-style: italic;"), "svg was: {svg}");
    assert!(svg.contains(" underline"), "svg was: {svg}");
    assert!(svg.contains(" line-through"), "svg was: {svg}");
}

#[test]
fn scaled_metrics_exact_decimals() {
    // Metrics that do not divide evenly still print as exact decimals.
    let metrics = FontMetrics {
        units_per_em: 2048,
        advance: 1024,
        line_height: 2048,
        descent: 512,
    };
    // advance = 1024 * 12 / 2048 = 6 px; line height 12 px; descent 3 px.
    let screen = Screen::blank(2, 3);
    let svg = screen.to_svg(&Vec::new(), metrics);
    assert!(svg.starts_with("<svg viewBox=\"0 0 18 24\""), "svg was: {svg}");

    // a metric that needs all three fractional digits
    let metrics = FontMetrics {
        units_per_em: 1000,
        advance: 601,
        line_height: 1200,
        descent: 300,
    };
    // advance = 601 * 12 / 1000 = 7.212 px
    let svg = Screen::blank(1, 1).to_svg(&Vec::new(), metrics);
    assert!(svg.starts_with("<svg viewBox=\"0 0 7.212 14.4\""), "svg was: {svg}");
}
