use cutliner::geometry::Point;
use cutliner::session::{generate_svg_data, Session};
use cutliner::svg::build_svg_from_contours;

fn p(x: i32, y: i32) -> Point {
    Point::new(x, y)
}

#[test]
fn empty_contour_list_gives_bare_document() {
    let svg = build_svg_from_contours(&vec![], 640, 480);
    assert_eq!(
        svg,
        "<svg xmlns=\"http://www.w3.org/2000/svg\" width=\"640\" height=\"480\" viewBox=\"0 0 640 480\"></svg>"
    );
}

#[test]
fn one_contour_becomes_closed_path() {
    let svg = build_svg_from_contours(&vec![vec![p(1, 2), p(30, 4), p(5, 60)]], 100, 200);
    assert_eq!(
        svg,
        "<svg xmlns=\"http://www.w3.org/2000/svg\" width=\"100\" height=\"200\" viewBox=\"0 0 100 200\">\
<path d=\"M 1 2 L 30 4 L 5 60 Z\" fill=\"none\" stroke=\"black\" stroke-width=\"1\"/></svg>"
    );
}

#[test]
fn short_contours_are_skipped() {
    let with_short = build_svg_from_contours(
        &vec![vec![p(9, 9)], vec![p(0, 0), p(1, 1)], vec![], vec![p(2, 3), p(4, 5)]],
        10,
        10,
    );
    let without = build_svg_from_contours(&vec![vec![p(0, 0), p(1, 1)], vec![p(2, 3), p(4, 5)]], 10, 10);
    assert_eq!(with_short, without);
    assert_eq!(with_short.matches("<path").count(), 2);
}

#[test]
fn negative_and_extreme_coordinates_are_written_in_decimal() {
    let svg = build_svg_from_contours(&vec![vec![p(-7, 0), p(i32::MIN, i32::MAX)]], 0, -1);
    assert!(svg.contains("width=\"0\" height=\"-1\" viewBox=\"0 0 0 -1\""));
    assert!(svg.contains("d=\"M -7 0 L -2147483648 2147483647 Z\""));
}

#[test]
fn decimal_text_matches_display() {
    for v in [0, 5, 9, 10, 99, 100, 101, 12345, -1, -10, -909, i32::MAX, i32::MIN] {
        let svg = build_svg_from_contours(&vec![], v, 1);
        let expected = format!("width=\"{}\"", v);
        assert!(svg.contains(&expected), "{}", v);
    }
}

#[test]
fn svg_data_needs_stored_contours() {
    let s = Session::new();
    assert_eq!(generate_svg_data(&s), Err("当前没有可保存的轮廓数据".to_string()));
}

#[test]
fn svg_data_uses_stored_contours_and_size() {
    let mut s = Session::new();
    let contours = vec![vec![p(0, 0), p(3, 0), p(3, 3)]];
    s.set_image_size(3, 4);
    s.store_contours(contours.clone());
    assert_eq!(generate_svg_data(&s), Ok(build_svg_from_contours(&contours, 3, 4)));
    s.clear_contours();
    assert!(generate_svg_data(&s).is_err());
}
