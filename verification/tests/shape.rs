use packing::shape::Shape;
use std::str::FromStr;

#[test]
fn names_and_sides_follow_the_shape() {
    assert_eq!(Shape::ALL.map(|s| s.sides()), [3, 4, 5, 6]);
    assert_eq!(Shape::ALL.map(|s| s.name()), ["triangle", "square", "pentagon", "hexagon"]);
    assert_eq!(Shape::ALL.map(|s| s.plural()), ["triangles", "squares", "pentagons", "hexagons"]);
    for s in Shape::ALL {
        assert_eq!(Shape::from_sides(s.sides() as u8), Some(s));
        assert_eq!(s.is_square(), s == Shape::Square);
    }
    assert_eq!(Shape::from_sides(7), None);
    assert_eq!(Shape::from_sides(0), None);
    assert_eq!(Shape::default(), Shape::Square);
}

#[test]
fn play_paths_keep_the_short_square_form() {
    assert_eq!(Shape::Square.play_path(Shape::Square, 5), "/play/5");
    assert_eq!(Shape::Triangle.play_path(Shape::Square, 12), "/play/triangle/12");
    assert_eq!(Shape::Square.play_path(Shape::Hexagon, 100), "/play/square/hexagon/100");
    assert_eq!(Shape::Pentagon.play_path(Shape::Triangle, 0), "/play/pentagon/triangle/0");
}

#[test]
fn names_parse_back_singular_or_plural() {
    for s in Shape::ALL {
        assert_eq!(Shape::from_str(s.name()), Ok(s));
        assert_eq!(s.plural().parse::<Shape>(), Ok(s));
    }
    assert_eq!(Shape::from_str("circle"), Err("Unknown shape".to_string()));
    assert_eq!(Shape::from_str("Square"), Err("Unknown shape".to_string()));
    assert_eq!(Shape::from_name(""), Err("Unknown shape".to_string()));
}

#[test]
fn min_side_bits_are_the_square_roots_of_the_areas() {
    for s in Shape::ALL {
        let n = s.sides() as f64;
        let area = if s.is_square() {
            1.0
        } else {
            n / (4.0 * (std::f64::consts::PI / n).tan())
        };
        assert_eq!(s.min_side_bits(), area.sqrt().to_bits(), "{s:?}");
    }
}

#[test]
fn decimals_are_written_without_padding() {
    assert_eq!(Shape::Square.play_path(Shape::Square, 0), "/play/0");
    assert_eq!(Shape::Square.play_path(Shape::Square, 7), "/play/7");
    assert_eq!(Shape::Square.play_path(Shape::Square, 100), "/play/100");
    assert_eq!(Shape::Square.play_path(Shape::Square, u32::MAX), "/play/4294967295");
}
