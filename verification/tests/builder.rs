use svg_minimal::Color;
use svg_minimal::MinSVG;
use svg_minimal::Path;

#[test]
fn test_construct_path() {
    let path = Path::new();
    assert_eq!(0, path.rules.len());
    assert_eq!(Color::NoColor, path.stroke);
    assert_eq!(0, path.stroke_width);
    assert_eq!(Color::NoColor, path.fill);
}

#[test]
fn test_add_path_rule() {
    let mut path = Path::new();
    path.move_to([0, 0]);
    path.line_to([100, 100]);
    assert_eq!(
        "<path d=\"M 0 0 L 100 100 \" stroke=\"none\" stroke-width=\"0\" fill=\"none\" />"
            .to_string(),
        path.create()
    );
}

#[test]
fn test_create_raw_path() {
    let mut path = Path::new();
    path.move_to([0, 0]);
    path.line_to([100, 100]);
    assert_eq!("M 0 0 L 100 100 ".to_string(), path.create_raw());
}

#[test]
fn test_construct_svg() {
    let svg = MinSVG::new([0, 0, 100, 100]);
    assert_eq!([0, 0, 100, 100], svg.viewbox);
    assert_eq!(None, svg.xmlns);
}

#[test]
fn test_add_xmlns() {
    let mut svg = MinSVG::new([0, 0, 100, 100]);
    svg.set_xmlns("Some namespace".to_string());
    assert_eq!(Some("Some namespace".to_string()), svg.xmlns);
}

#[test]
fn test_without_xmlns() {
    let svg = MinSVG::new([0, 0, 100, 100]);
    assert_eq!(None, svg.xmlns);
}

#[test]
fn test_svg_and_path_rgb() {
    let mut svg = MinSVG::new([0, 0, 100, 100]);
    svg.set_background_color(Color::RGB(0, 0, 0));

    let mut path = Path::new();
    path.set_stroke_color(Color::RGB(10, 100, 50));

    svg.add_path(path);

    assert_eq!(
        "<rect width=\"100\" height=\"100\" style=\"fill:rgb(0,0,0)\" /><path d=\"\" stroke=\"rgb(10,100,50)\" stroke-width=\"0\" fill=\"none\" /></svg>"
            .to_string(),
        svg.create_raw()
    );
}

#[test]
fn test_create_svg() {
    let mut svg = MinSVG::new([0, 0, 500, 500]);

    let mut path = Path::new();
    path.set_stroke_color(Color::Black);
    path.set_fill_color(Color::Black);
    path.set_stroke_width(3);
    path.move_to([0, 0]);
    path.line_to([0, 50]);
    path.line_to([450, 500]);
    path.line_to([500, 500]);
    path.line_to([0, 0]);

    svg.add_path(path);

    svg.set_background_color(Color::Green);

    assert_eq!(
        "<svg viewBox=\"0 0 500 500\" xmlns=\"http://www.w3.org/2000/svg\"><rect width=\"500\" height=\"500\" style=\"fill:green\" /><path d=\"M 0 0 L 0 50 L 450 500 L 500 500 L 0 0 \" stroke=\"black\" stroke-width=\"3\" fill=\"black\" /></svg>"
            .to_string(),
        svg.create()
    );
}

#[test]
fn test_undo_empty_is_noop() {
    let mut path = Path::new();
    let before = path.create();
    path.undo();
    let after = path.create();
    assert_eq!(before, after);
}

#[test]
fn test_undo_removes_last_rule() {
    let mut path = Path::new();
    path.move_to([1, 2]);
    path.line_to([3, 4]);
    path.undo();
    assert_eq!("M 1 2 ".to_string(), path.create_raw());
}

#[test]
fn test_serialize_idempotent() {
    let mut path = Path::new();
    path.move_to([7, 8]);
    path.close_path();
    assert_eq!(path.create(), path.create());

    let mut svg = MinSVG::new([1, 2, 3, 4]);
    svg.set_background_color(Color::Red);
    svg.add_path(path);
    assert_eq!(svg.create(), svg.create());
}

#[test]
fn test_no_background_no_rect() {
    let mut svg = MinSVG::new([0, 0, 10, 10]);
    let mut path = Path::new();
    path.move_to([1, 1]);
    svg.add_path(path);
    let out = svg.create();
    assert!(!out.contains("<rect"));
}

#[test]
fn test_paint_order() {
    let mut svg = MinSVG::new([0, 0, 10, 10]);
    let mut first = Path::new();
    first.move_to([1, 1]);
    let mut second = Path::new();
    second.move_to([2, 2]);
    svg.add_path(first);
    svg.add_path(second);
    let out = svg.create();
    let a = out.find("M 1 1 ").unwrap();
    let b = out.find("M 2 2 ").unwrap();
    assert!(a < b);
}

#[test]
fn test_bezier_rule() {
    let mut path = Path::new();
    path.bezier([10, 20, 30, 40, 50, 60]);
    assert_eq!("C 10 20, 30 40, 50 60 ".to_string(), path.create_raw());
}

#[test]
fn test_close_path_rule() {
    let mut path = Path::new();
    path.move_to([0, 0]);
    path.close_path();
    assert_eq!("M 0 0 Z ".to_string(), path.create_raw());
}

#[test]
fn test_add_rule_raw_verbatim() {
    let mut path = Path::new();
    path.add_rule_raw("A 5 5 0 0 1 10 10 ".to_string());
    assert_eq!("A 5 5 0 0 1 10 10 ".to_string(), path.create_raw());
}

#[test]
fn test_named_colors_render() {
    let mut path = Path::new();
    path.set_stroke_color(Color::Blue);
    path.set_fill_color(Color::Red);
    assert_eq!(
        "<path d=\"\" stroke=\"blue\" stroke-width=\"0\" fill=\"red\" />".to_string(),
        path.create()
    );
}

#[test]
fn test_large_coordinates_render_in_decimal() {
    let mut path = Path::new();
    path.move_to([usize::MAX, 0]);
    assert_eq!(
        format!("M {} 0 ", usize::MAX),
        path.create_raw()
    );
}

#[test]
fn test_custom_namespace_in_header() {
    let mut svg = MinSVG::new([0, 0, 5, 6]);
    svg.set_xmlns("urn:example".to_string());
    assert_eq!(
        "<svg viewBox=\"0 0 5 6\" xmlns=\"urn:example\"></svg>".to_string(),
        svg.create()
    );
}

#[test]
fn test_empty_document() {
    let svg = MinSVG::new([0, 0, 1, 1]);
    assert_eq!(
        "<svg viewBox=\"0 0 1 1\" xmlns=\"http://www.w3.org/2000/svg\"></svg>".to_string(),
        svg.create()
    );
    assert_eq!("</svg>".to_string(), svg.create_raw());
}

#[test]
fn test_background_rect_for_named_color() {
    let mut svg = MinSVG::new([3, 4, 20, 30]);
    svg.set_background_color(Color::Blue);
    assert_eq!(
        "<rect width=\"20\" height=\"30\" style=\"fill:blue\" /></svg>".to_string(),
        svg.create_raw()
    );
}
