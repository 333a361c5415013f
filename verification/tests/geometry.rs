use paintbox::commons::{gen_checkerboard, Bounds, Color, Pos};

#[test]
fn pos_translate_adds_componentwise() {
    let p = Pos { x: 3, y: -4 }.translate(Pos { x: 10, y: 20 });
    assert_eq!(p, Pos { x: 13, y: 16 });
}

#[test]
fn bounds_width_height() {
    let b = Bounds { a: Pos { x: 2, y: 5 }, b: Pos { x: 12, y: 30 } };
    assert_eq!(b.width(), 10);
    assert_eq!(b.height(), 25);
}

#[test]
fn bounds_inflate_uniform_expands_all_sides() {
    let b = Bounds { a: Pos { x: 0, y: 0 }, b: Pos { x: 10, y: 10 } }.inflate_uniform(5);
    assert_eq!(b, Bounds { a: Pos { x: -5, y: -5 }, b: Pos { x: 15, y: 15 } });
}

#[test]
fn bounds_center_is_midpoint() {
    let c = Bounds { a: Pos { x: 0, y: 10 }, b: Pos { x: 10, y: 30 } }.center();
    assert_eq!(c, Pos { x: 5, y: 20 });
}

#[test]
fn bounds_translate_moves_both_corners() {
    let b = Bounds { a: Pos { x: 1, y: 2 }, b: Pos { x: 3, y: 4 } }.translate(Pos { x: 10, y: 10 });
    assert_eq!(b, Bounds { a: Pos { x: 11, y: 12 }, b: Pos { x: 13, y: 14 } });
}

#[test]
fn bounds_contains_is_strict_interior() {
    let b = Bounds { a: Pos { x: 0, y: 0 }, b: Pos { x: 10, y: 10 } };
    assert!(b.contains(Pos { x: 5, y: 5 }));
    assert!(!b.contains(Pos { x: 0, y: 5 }));
    assert!(!b.contains(Pos { x: 10, y: 5 }));
    assert!(!b.contains(Pos { x: 5, y: 10 }));
}

#[test]
fn color_constants() {
    assert_eq!(Color::transparent(), Color { r: 0, g: 0, b: 0, a: 0 });
    assert_eq!(Color::black(), Color { r: 0, g: 0, b: 0, a: 255 });
    assert_eq!(Color::yellow(), Color { r: 255, g: 255, b: 0, a: 255 });
}

#[test]
fn checkerboard_two_by_two() {
    let data = gen_checkerboard(2, 2, 1);
    assert_eq!(
        data,
        vec![
            0, 0, 0, 255, // (0,0): 0&1 == 0&1, black
            255, 255, 255, 255, // (1,0): bits disagree, white
            255, 255, 255, 255, // (0,1)
            0, 0, 0, 255, // (1,1)
        ]
    );
}

#[test]
fn checkerboard_len_and_alpha() {
    let data = gen_checkerboard(8, 4, 2);
    assert_eq!(data.len(), 8 * 4 * 4);
    for px in data.chunks(4) {
        assert_eq!(px[3], 255);
        assert_eq!(px[0], px[1]);
        assert_eq!(px[1], px[2]);
    }
}
