use ui::shape::{Color, Font, Image, Shape, Vec2};

fn rect(x1: i64, y1: i64, x2: i64, y2: i64) -> Shape {
    Shape::Rectangle {
        from: Vec2 { x: x1, y: y1 },
        to: Vec2 { x: x2, y: y2 },
        color: Color { r: 1, g: 2, b: 3 },
    }
}

#[test]
fn translate_rectangle_shifts_both_corners() {
    let s = rect(0, 0, 5, 5).translate(Vec2 { x: 10, y: -3 });
    assert_eq!(s, rect(10, -3, 15, 2));
}

#[test]
fn translate_point_shifts_location() {
    let s = Shape::Point {
        location: Vec2 { x: 4, y: 7 },
        color: Color { r: 0, g: 0, b: 0 },
    };
    let t = s.translate(Vec2 { x: -4, y: 3 });
    assert_eq!(
        t,
        Shape::Point {
            location: Vec2 { x: 0, y: 10 },
            color: Color { r: 0, g: 0, b: 0 },
        }
    );
}

#[test]
fn translate_line_shifts_both_ends() {
    let s = Shape::Line {
        from: Vec2 { x: 1, y: 2 },
        to: Vec2 { x: 3, y: 4 },
        color: Color { r: 9, g: 9, b: 9 },
    };
    let t = s.translate(Vec2 { x: 100, y: 200 });
    assert_eq!(
        t,
        Shape::Line {
            from: Vec2 { x: 101, y: 202 },
            to: Vec2 { x: 103, y: 204 },
            color: Color { r: 9, g: 9, b: 9 },
        }
    );
}

#[test]
fn translate_image_shifts_both_corners() {
    let s = Shape::Image {
        from: Vec2 { x: 0, y: 0 },
        to: Vec2 { x: 8, y: 8 },
        image: Image::HoveredButton,
    };
    let t = s.translate(Vec2 { x: 2, y: 2 });
    assert_eq!(
        t,
        Shape::Image {
            from: Vec2 { x: 2, y: 2 },
            to: Vec2 { x: 10, y: 10 },
            image: Image::HoveredButton,
        }
    );
}

#[test]
fn translate_text_shifts_only_anchor() {
    let s = Shape::Text {
        text: String::from("hi"),
        font: Font::Default,
        bottom_left: Vec2 { x: 5, y: 5 },
        em: 12,
    };
    let t = s.translate(Vec2 { x: 1, y: -1 });
    assert_eq!(
        t,
        Shape::Text {
            text: String::from("hi"),
            font: Font::Default,
            bottom_left: Vec2 { x: 6, y: 4 },
            em: 12,
        }
    );
}

#[test]
fn translate_composes_like_single_translation() {
    let a = Vec2 { x: 17, y: -40 };
    let b = Vec2 { x: -5, y: 11 };
    let ab = Vec2 { x: 12, y: -29 };
    let shapes = vec![
        rect(0, 0, 5, 5),
        Shape::Point {
            location: Vec2 { x: 3, y: 3 },
            color: Color { r: 0, g: 0, b: 0 },
        },
        Shape::Text {
            text: String::from("x"),
            font: Font::Button,
            bottom_left: Vec2 { x: 9, y: 9 },
            em: 7,
        },
    ];
    for s in shapes {
        assert_eq!(s.clone().translate(a).translate(b), s.translate(ab));
    }
}

#[test]
fn default_font_is_the_default_variant() {
    assert_eq!(Font::default(), Font::Default);
}

#[test]
fn duplicate_copies_custom_names() {
    let f = Font::Custom(String::from("serif"));
    assert_eq!(f.duplicate(), f);
    let i = Image::Custom(String::from("icon"));
    assert_eq!(i.duplicate(), i);
}
