use paintbox::commons::{Bounds, Color, Pos};
use paintbox::render::backend::{BackendEvent, FillStyle, Primitive, RecordingBackend};
use paintbox::render::{
    Border, BorderRadius, BorderSide, BorderStyle, Child, InsetShadow, Outline, OutlineShadow,
    OutlineStyle, Overflow, RenderError, Renderer,
};

fn fmt_au(v: i64) -> String {
    format!("{}.0", v)
}

fn fmt_pos(p: Pos) -> String {
    format!("({}, {})", fmt_au(p.x), fmt_au(p.y))
}

fn fmt_bounds(b: Bounds) -> String {
    format!("Bounds({}, {})", fmt_pos(b.a), fmt_pos(b.b))
}

fn fmt_color(c: Color) -> String {
    format!("#{:02x}{:02x}{:02x}", c.r, c.g, c.b)
}

fn fmt_style(s: FillStyle) -> String {
    match s {
        FillStyle::SolidColor(c) => format!("SolidColor({})", fmt_color(c)),
        FillStyle::Texture(t, uv) => format!("Texture({}, {})", t.0, fmt_bounds(uv)),
        FillStyle::Msdf { texture, uv, factor, color } => format!(
            "Msdf({}, {}, {}, {})",
            texture.0,
            fmt_bounds(uv),
            factor,
            fmt_color(color)
        ),
    }
}

fn fmt_prim(p: &Primitive) -> String {
    match p {
        Primitive::Rect(b, s) => format!("push_rect {} {}", fmt_bounds(*b), fmt_style(*s)),
        Primitive::Triangle(a, b, c, s) => format!(
            "push_triangle {} {} {} {}",
            fmt_pos(*a),
            fmt_pos(*b),
            fmt_pos(*c),
            fmt_style(*s)
        ),
        Primitive::LayerRef(l, origin) => format!("push_layer {} {}", l.0, fmt_pos(*origin)),
    }
}

/// Flattens the recorded events into the flat log a string-logging backend
/// would have produced: one line per backend call plus one per primitive.
fn log_of(r: &Renderer<RecordingBackend>) -> Vec<String> {
    let mut out = Vec::new();
    for e in r.backend().log().iter() {
        match e {
            BackendEvent::CreateLayer(_) => out.push("create_layer".to_string()),
            BackendEvent::RebuildLayer(l, prims) => {
                out.push(format!("rebuild_layer {}", l.0));
                for p in prims.iter() {
                    out.push(fmt_prim(p));
                }
            }
            BackendEvent::RenderLayer(l) => out.push(format!("render_layer {}", l.0)),
            BackendEvent::CreateTexture(_, w, h, _) => {
                out.push(format!("create_texture {} {}", w, h))
            }
            BackendEvent::UpdateTexture(t, _) => out.push(format!("update_texture {}", t.0)),
        }
    }
    out
}

fn create_test_renderer() -> Renderer<RecordingBackend> {
    Renderer::new(RecordingBackend::new())
}

#[test]
fn empty_container() {
    let mut r = create_test_renderer();
    let c = r.create_container(0);

    r.render_container(c, &vec![Bounds::zero()]).unwrap();

    assert_eq!(log_of(&r), vec!["create_layer", "rebuild_layer 1", "render_layer 1"]);
}

#[test]
fn outline() {
    let mut r = create_test_renderer();
    let c = r.create_container(0);

    r.set_outline(
        c,
        Some(Outline {
            width: 1,
            style: OutlineStyle::Solid,
            color: Color::blue(),
        }),
    )
    .unwrap();
    r.render_container(
        c,
        &vec![Bounds {
            a: Pos::zero(),
            b: Pos { x: 100, y: 100 },
        }],
    )
    .unwrap();

    assert_eq!(
        log_of(&r),
        vec![
            "create_layer",
            "rebuild_layer 1",
            "push_rect Bounds((0.0, 0.0), (101.0, -1.0)) SolidColor(#0000ff)",
            "push_rect Bounds((101.0, 0.0), (100.0, 101.0)) SolidColor(#0000ff)",
            "push_rect Bounds((-1.0, 101.0), (100.0, 100.0)) SolidColor(#0000ff)",
            "push_rect Bounds((-1.0, -1.0), (0.0, 100.0)) SolidColor(#0000ff)",
            "render_layer 1"
        ]
    );
}

#[test]
fn background_color() {
    let mut r = create_test_renderer();
    let c = r.create_container(0);

    r.set_background_color(c, Color::green()).unwrap();
    r.render_container(
        c,
        &vec![Bounds {
            a: Pos::zero(),
            b: Pos { x: 100, y: 100 },
        }],
    )
    .unwrap();

    assert_eq!(
        log_of(&r),
        vec![
            "create_layer",
            "rebuild_layer 1",
            "push_rect Bounds((0.0, 0.0), (100.0, 100.0)) SolidColor(#00ff00)",
            "render_layer 1"
        ]
    );
}

#[test]
fn children() {
    let mut r = create_test_renderer();
    let parent = r.create_container(0);
    let child = r.create_container(1);

    r.insert_child(parent, 0, Child::Container(child)).unwrap();

    r.set_background_color(child, Color { r: 255, g: 0, b: 0, a: 255 }).unwrap();

    r.render_container(
        parent,
        &vec![
            Bounds {
                a: Pos::zero(),
                b: Pos { x: 100, y: 100 },
            },
            Bounds {
                a: Pos { x: 50, y: 50 },
                b: Pos { x: 150, y: 150 },
            },
        ],
    )
    .unwrap();

    assert_eq!(
        log_of(&r),
        vec![
            "create_layer",
            "rebuild_layer 1",
            "push_rect Bounds((50.0, 50.0), (150.0, 150.0)) SolidColor(#ff0000)",
            "render_layer 1"
        ]
    );
}

#[test]
fn it_works() {
    let mut r = create_test_renderer();
    let c = r.create_container(0);

    r.set_overflow(c, Overflow::Visible).unwrap();
    r.set_opacity(c, 500).unwrap();
    r.set_border_radius(
        c,
        Some(BorderRadius {
            top_left: 5,
            top_right: 5,
            bottom_right: 5,
            bottom_left: 5,
        }),
    )
    .unwrap();
    r.set_outline_shadows(
        c,
        vec![OutlineShadow {
            offset: Pos::zero(),
            blur: 5,
            spread: 5,
            color: Color::black(),
        }],
    )
    .unwrap();
    r.set_outline(
        c,
        Some(Outline {
            width: 1,
            style: OutlineStyle::Solid,
            color: Color::black(),
        }),
    )
    .unwrap();
    r.set_background_color(c, Color::black()).unwrap();
    r.set_inset_shadows(
        c,
        vec![InsetShadow {
            offset: Pos::zero(),
            blur: 5,
            spread: 5,
            color: Color::black(),
        }],
    )
    .unwrap();
    r.set_color(c, Color::black()).unwrap();
    r.set_border(
        c,
        Some(Border {
            top: Some(BorderSide {
                width: 1,
                style: BorderStyle::Solid,
                color: Color::red(),
            }),
            right: Some(BorderSide {
                width: 1,
                style: BorderStyle::Solid,
                color: Color::green(),
            }),
            bottom: Some(BorderSide {
                width: 1,
                style: BorderStyle::Solid,
                color: Color::blue(),
            }),
            left: Some(BorderSide {
                width: 1,
                style: BorderStyle::Solid,
                color: Color::yellow(),
            }),
        }),
    )
    .unwrap();

    r.render_container(c, &vec![Bounds::zero()]).unwrap();

    assert_eq!(
        log_of(&r),
        vec![
            "create_layer",
            "rebuild_layer 1",
            "push_rect Bounds((-5.0, -5.0), (5.0, 5.0)) SolidColor(#000000)",
            "push_rect Bounds((0.0, 0.0), (1.0, -1.0)) SolidColor(#000000)",
            "push_rect Bounds((1.0, 0.0), (0.0, 1.0)) SolidColor(#000000)",
            "push_rect Bounds((-1.0, 1.0), (0.0, 0.0)) SolidColor(#000000)",
            "push_rect Bounds((-1.0, -1.0), (0.0, 0.0)) SolidColor(#000000)",
            "push_rect Bounds((0.0, 0.0), (0.0, 0.0)) SolidColor(#000000)",
            "push_rect Bounds((0.0, 0.0), (0.0, 1.0)) SolidColor(#ff0000)",
            "push_rect Bounds((-1.0, 0.0), (0.0, 0.0)) SolidColor(#00ff00)",
            "push_rect Bounds((0.0, -1.0), (0.0, 0.0)) SolidColor(#0000ff)",
            "push_rect Bounds((0.0, 0.0), (1.0, 0.0)) SolidColor(#ffff00)",
            "render_layer 1"
        ]
    );
}

#[test]
fn background_alpha_zero_emits_nothing() {
    let mut r = create_test_renderer();
    let c = r.create_container(0);

    r.set_background_color(c, Color { r: 200, g: 10, b: 10, a: 0 }).unwrap();
    r.render_container(
        c,
        &vec![Bounds {
            a: Pos::zero(),
            b: Pos { x: 40, y: 40 },
        }],
    )
    .unwrap();

    assert_eq!(log_of(&r), vec!["create_layer", "rebuild_layer 1", "render_layer 1"]);
}

#[test]
fn nested_translation_accumulates() {
    let mut r = create_test_renderer();
    let parent = r.create_container(0);
    let middle = r.create_container(1);
    let inner = r.create_container(2);

    r.insert_child(parent, 0, Child::Container(middle)).unwrap();
    r.insert_child(middle, 0, Child::Container(inner)).unwrap();
    r.set_background_color(inner, Color::red()).unwrap();

    r.render_container(
        parent,
        &vec![
            Bounds { a: Pos { x: 10, y: 10 }, b: Pos { x: 100, y: 100 } },
            Bounds { a: Pos { x: 5, y: 5 }, b: Pos { x: 50, y: 50 } },
            Bounds { a: Pos { x: 1, y: 2 }, b: Pos { x: 20, y: 20 } },
        ],
    )
    .unwrap();

    // inner box: (1,2)-(20,20) translated by middle origin (5,5)+(10,10).
    assert_eq!(
        log_of(&r),
        vec![
            "create_layer",
            "rebuild_layer 1",
            "push_rect Bounds((16.0, 17.0), (35.0, 35.0)) SolidColor(#ff0000)",
            "render_layer 1"
        ]
    );
}

#[test]
fn siblings_do_not_leak_translation() {
    let mut r = create_test_renderer();
    let parent = r.create_container(0);
    let first = r.create_container(1);
    let second = r.create_container(2);

    r.insert_child(parent, 0, Child::Container(first)).unwrap();
    r.insert_child(parent, 1, Child::Container(second)).unwrap();
    r.set_background_color(first, Color::red()).unwrap();
    r.set_background_color(second, Color::blue()).unwrap();

    r.render_container(
        parent,
        &vec![
            Bounds { a: Pos { x: 10, y: 10 }, b: Pos { x: 100, y: 100 } },
            Bounds { a: Pos { x: 30, y: 30 }, b: Pos { x: 40, y: 40 } },
            Bounds { a: Pos { x: 1, y: 1 }, b: Pos { x: 2, y: 2 } },
        ],
    )
    .unwrap();

    // Both siblings are translated by the parent origin (10,10) alone.
    assert_eq!(
        log_of(&r),
        vec![
            "create_layer",
            "rebuild_layer 1",
            "push_rect Bounds((40.0, 40.0), (50.0, 50.0)) SolidColor(#ff0000)",
            "push_rect Bounds((11.0, 11.0), (12.0, 12.0)) SolidColor(#0000ff)",
            "render_layer 1"
        ]
    );
}

#[test]
fn remove_child_removes_all_duplicates() {
    let mut r = create_test_renderer();
    let parent = r.create_container(0);
    let a = r.create_container(1);
    let b = r.create_container(2);

    r.insert_child(parent, 0, Child::Container(a)).unwrap();
    r.insert_child(parent, 1, Child::Container(b)).unwrap();
    r.insert_child(parent, 2, Child::Container(a)).unwrap();
    r.insert_child(parent, 3, Child::Container(a)).unwrap();

    r.set_background_color(a, Color::red()).unwrap();
    r.set_background_color(b, Color::blue()).unwrap();

    r.remove_child(parent, Child::Container(a)).unwrap();

    r.render_container(
        parent,
        &vec![
            Bounds { a: Pos::zero(), b: Pos { x: 100, y: 100 } },
            Bounds { a: Pos { x: 1, y: 1 }, b: Pos { x: 2, y: 2 } },
            Bounds { a: Pos { x: 3, y: 3 }, b: Pos { x: 4, y: 4 } },
        ],
    )
    .unwrap();

    // Only the one entry for `b` is left: every duplicate of `a` is gone.
    assert_eq!(
        log_of(&r),
        vec![
            "create_layer",
            "rebuild_layer 1",
            "push_rect Bounds((3.0, 3.0), (4.0, 4.0)) SolidColor(#0000ff)",
            "render_layer 1"
        ]
    );
}

#[test]
fn insert_child_at_len_appends() {
    let mut r = create_test_renderer();
    let parent = r.create_container(0);
    let a = r.create_container(1);
    let b = r.create_container(2);

    r.insert_child(parent, 0, Child::Container(a)).unwrap();
    // index == children.len() succeeds as an append
    r.insert_child(parent, 1, Child::Container(b)).unwrap();

    r.set_background_color(a, Color::red()).unwrap();
    r.set_background_color(b, Color::blue()).unwrap();

    r.render_container(
        parent,
        &vec![
            Bounds { a: Pos::zero(), b: Pos { x: 100, y: 100 } },
            Bounds { a: Pos { x: 1, y: 1 }, b: Pos { x: 2, y: 2 } },
            Bounds { a: Pos { x: 3, y: 3 }, b: Pos { x: 4, y: 4 } },
        ],
    )
    .unwrap();

    assert_eq!(
        log_of(&r),
        vec![
            "create_layer",
            "rebuild_layer 1",
            "push_rect Bounds((1.0, 1.0), (2.0, 2.0)) SolidColor(#ff0000)",
            "push_rect Bounds((3.0, 3.0), (4.0, 4.0)) SolidColor(#0000ff)",
            "render_layer 1"
        ]
    );
}

#[test]
fn insert_child_past_len_fails() {
    let mut r = create_test_renderer();
    let parent = r.create_container(0);
    let a = r.create_container(1);

    assert_eq!(
        r.insert_child(parent, 1, Child::Container(a)),
        Err(RenderError::IndexOutOfRange)
    );
}

#[test]
fn border_top_only_emits_one_rect() {
    let mut r = create_test_renderer();
    let c = r.create_container(0);

    r.set_border(
        c,
        Some(Border {
            top: Some(BorderSide { width: 3, style: BorderStyle::Solid, color: Color::red() }),
            right: None,
            bottom: None,
            left: None,
        }),
    )
    .unwrap();
    r.render_container(
        c,
        &vec![Bounds { a: Pos::zero(), b: Pos { x: 10, y: 10 } }],
    )
    .unwrap();

    assert_eq!(
        log_of(&r),
        vec![
            "create_layer",
            "rebuild_layer 1",
            "push_rect Bounds((0.0, 0.0), (10.0, 3.0)) SolidColor(#ff0000)",
            "render_layer 1"
        ]
    );
}

#[test]
fn render_twice_is_idempotent() {
    let mut r = create_test_renderer();
    let c = r.create_container(0);
    r.set_background_color(c, Color::green()).unwrap();
    let bounds = vec![Bounds { a: Pos::zero(), b: Pos { x: 8, y: 8 } }];

    r.render_container(c, &bounds).unwrap();
    let first = log_of(&r);
    r.render_container(c, &bounds).unwrap();
    let second = log_of(&r);

    // The second call appends exactly the sequence of the first call again.
    let appended = &second[first.len()..];
    assert_eq!(appended, &first[1..]); // everything after the initial create_layer
    assert_eq!(second.len(), 2 * first.len() - 1);
}

#[test]
fn invalid_handle_fails_setters() {
    let mut other = create_test_renderer();
    other.create_container(0);
    let stray = other.create_container(0);

    let mut r = create_test_renderer();
    r.create_container(0);
    // `stray` indexes row 1, which this renderer does not have.
    assert_eq!(r.set_background_color(stray, Color::red()), Err(RenderError::InvalidHandle));
    assert_eq!(r.set_opacity(stray, 700), Err(RenderError::InvalidHandle));
    assert_eq!(r.remove_child(stray, Child::Container(stray)), Err(RenderError::InvalidHandle));
}

#[test]
fn missing_bounds_key_fails_render() {
    let mut r = create_test_renderer();
    let c = r.create_container(7);

    assert_eq!(
        r.render_container(c, &vec![Bounds::zero()]),
        Err(RenderError::MissingBoundsKey)
    );
    // Nothing beyond the initial layer creation was sent to the backend.
    assert_eq!(log_of(&r), vec!["create_layer"]);
}

#[test]
fn missing_child_bounds_key_fails_render() {
    let mut r = create_test_renderer();
    let parent = r.create_container(0);
    let child = r.create_container(9);
    r.insert_child(parent, 0, Child::Container(child)).unwrap();

    assert_eq!(
        r.render_container(parent, &vec![Bounds::zero()]),
        Err(RenderError::MissingBoundsKey)
    );
    assert_eq!(log_of(&r), vec!["create_layer"]);
}

#[test]
fn texture_size_mismatch_fails_create_image() {
    let mut r = create_test_renderer();
    assert_eq!(
        r.create_image(2, 2, vec![0u8; 15]),
        Err(RenderError::TextureDataSizeMismatch)
    );
    let img = r.create_image(2, 2, vec![9u8; 16]).unwrap();
    let _ = img;
    assert_eq!(log_of(&r), vec!["create_layer", "create_texture 2 2"]);
}

#[test]
fn background_image_covers_box() {
    let mut r = create_test_renderer();
    let img = r.create_image(1, 1, vec![1, 2, 3, 4]).unwrap();
    let c = r.create_container(0);
    r.set_background_images(c, vec![paintbox::render::BackgroundImage::Image { image: img }])
        .unwrap();

    r.render_container(
        c,
        &vec![Bounds { a: Pos::zero(), b: Pos { x: 10, y: 20 } }],
    )
    .unwrap();

    assert_eq!(
        log_of(&r),
        vec![
            "create_layer",
            "create_texture 1 1",
            "rebuild_layer 1",
            "push_rect Bounds((0.0, 0.0), (10.0, 20.0)) Texture(1, Bounds((0.0, 0.0), (1.0, 1.0)))",
            "render_layer 1"
        ]
    );
}

#[test]
fn gradients_emit_nothing() {
    let mut r = create_test_renderer();
    let c = r.create_container(0);
    r.set_background_images(
        c,
        vec![
            paintbox::render::BackgroundImage::LinearGradient,
            paintbox::render::BackgroundImage::RadialGradient,
        ],
    )
    .unwrap();

    r.render_container(
        c,
        &vec![Bounds { a: Pos::zero(), b: Pos { x: 10, y: 10 } }],
    )
    .unwrap();

    assert_eq!(log_of(&r), vec!["create_layer", "rebuild_layer 1", "render_layer 1"]);
}

#[test]
fn text_layer_rebuild_is_isolated() {
    let mut r = create_test_renderer();
    let parent = r.create_container(0);
    let text = r.create_text(1);

    r.set_text_data(text, "Hi".to_string()).unwrap();
    r.insert_child(parent, 0, Child::Text(text)).unwrap();

    r.render_container(
        parent,
        &vec![
            Bounds { a: Pos { x: 4, y: 6 }, b: Pos { x: 100, y: 100 } },
            Bounds { a: Pos { x: 1, y: 1 }, b: Pos { x: 50, y: 21 } },
        ],
    )
    .unwrap();

    // The text layer (2) was rebuilt once with one quad per character, and
    // the root layer references it translated by the accumulated origin.
    assert_eq!(
        log_of(&r),
        vec![
            "create_layer",
            "create_layer",
            "rebuild_layer 2",
            "push_rect Bounds((0.0, 0.0), (12.0, 20.0)) SolidColor(#ffffff)",
            "push_rect Bounds((15.0, 0.0), (27.0, 20.0)) SolidColor(#ffffff)",
            "rebuild_layer 1",
            "push_layer 2 (5.0, 7.0)",
            "render_layer 1"
        ]
    );
}

#[test]
fn set_text_data_with_stray_handle_fails() {
    let mut other = create_test_renderer();
    other.create_text(0);
    let stray = other.create_text(0);

    let mut r = create_test_renderer();
    r.create_text(0);
    assert_eq!(r.set_text_data(stray, "x".to_string()), Err(RenderError::InvalidHandle));
}

#[test]
fn shared_bounds_key_resolves_for_both() {
    let mut r = create_test_renderer();
    let parent = r.create_container(0);
    let a = r.create_container(1);
    let b = r.create_container(1); // same key as its sibling

    r.insert_child(parent, 0, Child::Container(a)).unwrap();
    r.insert_child(parent, 1, Child::Container(b)).unwrap();
    r.set_background_color(a, Color::red()).unwrap();
    r.set_background_color(b, Color::blue()).unwrap();

    r.render_container(
        parent,
        &vec![
            Bounds { a: Pos::zero(), b: Pos { x: 100, y: 100 } },
            Bounds { a: Pos { x: 7, y: 7 }, b: Pos { x: 9, y: 9 } },
        ],
    )
    .unwrap();

    assert_eq!(
        log_of(&r),
        vec![
            "create_layer",
            "rebuild_layer 1",
            "push_rect Bounds((7.0, 7.0), (9.0, 9.0)) SolidColor(#ff0000)",
            "push_rect Bounds((7.0, 7.0), (9.0, 9.0)) SolidColor(#0000ff)",
            "render_layer 1"
        ]
    );
}
