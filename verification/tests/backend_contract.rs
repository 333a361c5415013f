use paintbox::render::backend::{
    BackendEvent, LayerBuilder, Primitive, RecordingBackend, RenderBackend,
};
use paintbox::commons::{Bounds, Color, Pos};
use paintbox::render::backend::FillStyle;

#[test]
fn recording_backend_issues_fresh_layers() {
    let mut b = RecordingBackend::new();
    let l1 = b.create_layer();
    let l2 = b.create_layer();
    assert_ne!(l1, l2);
    assert_eq!(
        b.log().as_slice(),
        &[BackendEvent::CreateLayer(l1), BackendEvent::CreateLayer(l2)]
    );
}

#[test]
fn recording_backend_retains_rebuild_contents() {
    let mut b = RecordingBackend::new();
    let l = b.create_layer();
    let mut prims: Vec<Primitive> = Vec::new();
    let rect = Bounds { a: Pos { x: 0, y: 0 }, b: Pos { x: 4, y: 4 } };
    prims.push_rect(rect, FillStyle::SolidColor(Color::red()));
    prims.push_triangle(
        Pos { x: 0, y: 0 },
        Pos { x: 4, y: 0 },
        Pos { x: 0, y: 4 },
        FillStyle::SolidColor(Color::blue()),
    );
    b.rebuild_layer_with(l, prims.clone());
    b.render_layer(l);

    assert_eq!(
        b.log().as_slice(),
        &[
            BackendEvent::CreateLayer(l),
            BackendEvent::RebuildLayer(l, prims),
            BackendEvent::RenderLayer(l),
        ]
    );
}

#[test]
fn update_texture_checks_length() {
    let mut b = RecordingBackend::new();
    let t = b.create_texture(2, 1, vec![0; 8]).unwrap();
    assert!(b.update_texture(t, vec![1; 8]).is_ok());
    assert!(b.update_texture(t, vec![1; 4]).is_err());
    assert_eq!(b.create_texture(2, 1, vec![0; 7]).unwrap_err(),
        paintbox::render::RenderError::TextureDataSizeMismatch);
}

#[test]
fn msdf_style_can_be_constructed_and_passed() {
    let mut b = RecordingBackend::new();
    let l = b.create_layer();
    let t = b.create_texture(1, 1, vec![0; 4]).unwrap();
    let mut prims: Vec<Primitive> = Vec::new();
    prims.push_rect(
        Bounds { a: Pos { x: 0, y: 0 }, b: Pos { x: 12, y: 20 } },
        FillStyle::Msdf {
            texture: t,
            uv: Bounds { a: Pos { x: 0, y: 0 }, b: Pos { x: 1, y: 1 } },
            factor: 4,
            color: Color::black(),
        },
    );
    b.rebuild_layer_with(l, prims.clone());
    assert_eq!(b.log().len(), 3);
    assert_eq!(b.log()[2], BackendEvent::RebuildLayer(l, prims));
}
