//! The backend contract: opaque layer and texture handles, layer
//! (re)building from a primitive list, texture upload and update, and layer
//! rendering. A backend's observable behavior is modelled as the sequence of
//! events it has been driven with; a concrete rasterizer (software canvas,
//! GPU command list) interprets those events, and the verified
//! [`RecordingBackend`] simply retains them.

use vstd::prelude::*;
use crate::commons::{Au, Bounds, Color, Pos};
use crate::render::value_types::RenderError;

verus! {

/// Opaque handle of a backend-owned layer: an independently rebuildable
/// bucket of drawing primitives, possibly referencing other layers.
#[derive(Clone, Copy, Debug, PartialEq, Eq, Structural)]
pub struct LayerId(pub usize);

/// Opaque handle of a backend-owned texture: width, height and an RGBA8
/// pixel buffer.
#[derive(Clone, Copy, Debug, PartialEq, Eq, Structural)]
pub struct TextureId(pub usize);

/// How a primitive is filled.
#[derive(Clone, Copy, Debug, PartialEq, Eq, Structural)]
pub enum FillStyle {
    /// A plain solid color.
    SolidColor(Color),
    /// A texture sample; the bounds are the UV rectangle.
    Texture(TextureId, Bounds),
    /// A signed-distance-field fill; declared so that the full style surface
    /// can be constructed and passed, a minimal backend need not draw it.
    Msdf { texture: TextureId, uv: Bounds, factor: Au, color: Color },
}

/// One drawing primitive of a layer, in paint order.
#[derive(Clone, Copy, Debug, PartialEq, Eq, Structural)]
pub enum Primitive {
    /// An axis-aligned rectangle. A backend may decompose it into two
    /// triangles sharing the diagonal when it draws.
    Rect(Bounds, FillStyle),
    /// A filled triangle.
    Triangle(Pos, Pos, Pos, FillStyle),
    /// A reference to another layer's content, translated by an origin
    /// offset (composition by reference, not by copy).
    LayerRef(LayerId, Pos),
}

/// One observable operation performed on a backend.
#[derive(Clone, Debug, PartialEq)]
pub enum BackendEvent {
    CreateLayer(LayerId),
    RebuildLayer(LayerId, Vec<Primitive>),
    RenderLayer(LayerId),
    CreateTexture(TextureId, u32, u32, Vec<u8>),
    UpdateTexture(TextureId, Vec<u8>),
}

/// The mathematical model of a [`BackendEvent`], with sequences in place of
/// vectors.
pub enum BackendEventV {
    CreateLayer(LayerId),
    RebuildLayer(LayerId, Seq<Primitive>),
    RenderLayer(LayerId),
    CreateTexture(TextureId, u32, u32, Seq<u8>),
    UpdateTexture(TextureId, Seq<u8>),
}

impl View for BackendEvent {
    type V = BackendEventV;

    open spec fn view(&self) -> BackendEventV {
        match *self {
            BackendEvent::CreateLayer(layer) => BackendEventV::CreateLayer(layer),
            BackendEvent::RebuildLayer(layer, prims) => BackendEventV::RebuildLayer(layer, prims@),
            BackendEvent::RenderLayer(layer) => BackendEventV::RenderLayer(layer),
            BackendEvent::CreateTexture(texture, width, height, data) => BackendEventV::CreateTexture(
                texture,
                width,
                height,
                data@,
            ),
            BackendEvent::UpdateTexture(texture, data) => BackendEventV::UpdateTexture(
                texture,
                data@,
            ),
        }
    }
}

/// The primitive sink a layer is rebuilt through: an ordered op list that
/// `push_rect` / `push_triangle` / `push_layer` append to.
pub trait LayerBuilder {
    /// The ordered primitives pushed so far.
    spec fn ops(&self) -> Seq<Primitive>;

    /// Appends an axis-aligned rectangle filled with `style`.
    fn push_rect(&mut self, bounds: Bounds, style: FillStyle)
        ensures
            final(self).ops() == old(self).ops().push(Primitive::Rect(bounds, style)),
    ;

    /// Appends a triangle filled with `style`.
    fn push_triangle(&mut self, a: Pos, b: Pos, c: Pos, style: FillStyle)
        ensures
            final(self).ops() == old(self).ops().push(Primitive::Triangle(a, b, c, style)),
    ;

    /// Appends a reference to another layer's content, translated by
    /// `origin`.
    fn push_layer(&mut self, layer: LayerId, origin: Pos)
        ensures
            final(self).ops() == old(self).ops().push(Primitive::LayerRef(layer, origin)),
    ;
}

impl LayerBuilder for Vec<Primitive> {
    open spec fn ops(&self) -> Seq<Primitive> {
        self@
    }

    fn push_rect(&mut self, bounds: Bounds, style: FillStyle) {
        self.push(Primitive::Rect(bounds, style));
    }

    fn push_triangle(&mut self, a: Pos, b: Pos, c: Pos, style: FillStyle) {
        self.push(Primitive::Triangle(a, b, c, style));
    }

    fn push_layer(&mut self, layer: LayerId, origin: Pos) {
        self.push(Primitive::LayerRef(layer, origin));
    }
}

/// The interface the core drives. A backend cannot fill rectangles eagerly:
/// work is prepared by (re)building layers, which hold future render
/// operations and can reference one another, so that an
/// independently-changing subtree can be rebuilt without touching its
/// ancestors' primitive lists.
pub trait RenderBackend: Sized {
    /// The observable history of this backend: everything it has been asked
    /// to do, in order.
    spec fn events(&self) -> Seq<BackendEventV>;

    /// Whether `layer` is a handle this backend has issued.
    spec fn layer_valid(&self, layer: LayerId) -> bool;

    /// Whether `texture` is a handle this backend has issued.
    spec fn texture_valid(&self, texture: TextureId) -> bool;

    /// The byte length of the pixel buffer held for `texture`.
    spec fn texture_len(&self, texture: TextureId) -> nat;

    /// Returns a fresh, usable layer handle. The layer is empty until it is
    /// built, which lets the renderer own a root layer even when there is
    /// nothing to draw yet.
    fn create_layer(&mut self) -> (layer: LayerId)
        ensures
            !old(self).layer_valid(layer),
            final(self).layer_valid(layer),
            final(self).events() == old(self).events().push(BackendEventV::CreateLayer(layer)),
            forall|l: LayerId|
                old(self).layer_valid(l) ==> #[trigger] final(self).layer_valid(l),
            forall|t: TextureId|
                old(self).texture_valid(t) ==> #[trigger] final(self).texture_valid(t)
                    && final(self).texture_len(t) == old(self).texture_len(t),
    ;

    /// Replaces the layer's contents with the given primitive list; any
    /// other layer referencing this one sees the new content on its next
    /// render.
    fn rebuild_layer_with(&mut self, layer: LayerId, prims: Vec<Primitive>)
        requires
            old(self).layer_valid(layer),
        ensures
            final(self).events() == old(self).events().push(
                BackendEventV::RebuildLayer(layer, prims@),
            ),
            forall|l: LayerId|
                old(self).layer_valid(l) ==> #[trigger] final(self).layer_valid(l),
            forall|t: TextureId|
                old(self).texture_valid(t) ==> #[trigger] final(self).texture_valid(t)
                    && final(self).texture_len(t) == old(self).texture_len(t),
    ;

    /// Draws the layer and everything it transitively references.
    fn render_layer(&mut self, layer: LayerId)
        requires
            old(self).layer_valid(layer),
        ensures
            final(self).events() == old(self).events().push(BackendEventV::RenderLayer(layer)),
            forall|l: LayerId|
                old(self).layer_valid(l) ==> #[trigger] final(self).layer_valid(l),
            forall|t: TextureId|
                old(self).texture_valid(t) ==> #[trigger] final(self).texture_valid(t)
                    && final(self).texture_len(t) == old(self).texture_len(t),
    ;

    /// Uploads an RGBA8 pixel buffer and returns a fresh texture handle;
    /// fails if the buffer length is not `width * height * 4`.
    fn create_texture(&mut self, width: u32, height: u32, data: Vec<u8>) -> (r: Result<
        TextureId,
        RenderError,
    >)
        ensures
            match r {
                Ok(texture) => {
                    &&& data@.len() == width * height * 4
                    &&& !old(self).texture_valid(texture)
                    &&& final(self).texture_valid(texture)
                    &&& final(self).texture_len(texture) == data@.len()
                    &&& final(self).events() == old(self).events().push(
                        BackendEventV::CreateTexture(texture, width, height, data@),
                    )
                },
                Err(e) => {
                    &&& e == RenderError::TextureDataSizeMismatch
                    &&& data@.len() != width * height * 4
                    &&& final(self).events() == old(self).events()
                },
            },
            forall|l: LayerId|
                old(self).layer_valid(l) ==> #[trigger] final(self).layer_valid(l),
            forall|t: TextureId|
                old(self).texture_valid(t) ==> #[trigger] final(self).texture_valid(t)
                    && final(self).texture_len(t) == old(self).texture_len(t),
    ;

    /// Replaces the texture's pixel buffer in place (for atlasing); the new
    /// buffer must have the length the texture was created with.
    fn update_texture(&mut self, texture: TextureId, data: Vec<u8>) -> (r: Result<
        (),
        RenderError,
    >)
        requires
            old(self).texture_valid(texture),
        ensures
            match r {
                Ok(()) => {
                    &&& data@.len() == old(self).texture_len(texture)
                    &&& final(self).events() == old(self).events().push(
                        BackendEventV::UpdateTexture(texture, data@),
                    )
                },
                Err(e) => {
                    &&& e == RenderError::TextureDataSizeMismatch
                    &&& data@.len() != old(self).texture_len(texture)
                    &&& final(self).events() == old(self).events()
                },
            },
            forall|l: LayerId|
                old(self).layer_valid(l) ==> #[trigger] final(self).layer_valid(l),
            forall|t: TextureId|
                old(self).texture_valid(t) ==> #[trigger] final(self).texture_valid(t)
                    && final(self).texture_len(t) == old(self).texture_len(t),
    ;
}

/// A trivial logging backend: it draws nothing and retains the event
/// sequence, which is sufficient both for asserting emitted primitive
/// sequences in tests and for replaying a scene into an unverified
/// rasterizer.
pub struct RecordingBackend {
    /// Every event, in order.
    log: Vec<BackendEvent>,
    /// One marker per issued layer handle; handles are the 1-based indices.
    layers: Vec<bool>,
    /// Pixel buffer length per issued texture handle; handles are the
    /// 1-based indices.
    textures: Vec<usize>,
}

impl RecordingBackend {
    /// A backend with no history and no handles issued.
    pub fn new() -> (r: RecordingBackend)
        ensures
            r.events() == Seq::<BackendEventV>::empty(),
            forall|l: LayerId| !r.layer_valid(l),
            forall|t: TextureId| !r.texture_valid(t),
    {
        let r = RecordingBackend { log: Vec::new(), layers: Vec::new(), textures: Vec::new() };
        proof {
            assert(r.events() =~= Seq::<BackendEventV>::empty());
        }
        r
    }

    /// Read access to the retained event log.
    pub fn log(&self) -> (r: &Vec<BackendEvent>)
        ensures
            r@.len() == self.events().len(),
            forall|i: int| 0 <= i < r@.len() ==> #[trigger] r@[i]@ == self.events()[i],
    {
        &self.log
    }
}

/// After appending one event to the log, the event model grows by exactly
/// that event's view.
proof fn lemma_events_push(pre: RecordingBackend, post: RecordingBackend)
    requires
        post.log@.len() == pre.log@.len() + 1,
        post.log@ == pre.log@.push(post.log@.last()),
    ensures
        post.events() == pre.events().push(post.log@.last()@),
{
    assert(post.events() =~= pre.events().push(post.log@.last()@));
}

impl RenderBackend for RecordingBackend {
    closed spec fn events(&self) -> Seq<BackendEventV> {
        self.log@.map_values(|e: BackendEvent| e@)
    }

    closed spec fn layer_valid(&self, layer: LayerId) -> bool {
        1 <= layer.0 <= self.layers@.len()
    }

    closed spec fn texture_valid(&self, texture: TextureId) -> bool {
        1 <= texture.0 <= self.textures@.len()
    }

    closed spec fn texture_len(&self, texture: TextureId) -> nat {
        self.textures@[texture.0 - 1] as nat
    }

    fn create_layer(&mut self) -> (layer: LayerId) {
        self.layers.push(true);
        let layer = LayerId(self.layers.len());
        self.log.push(BackendEvent::CreateLayer(layer));
        proof {
            lemma_events_push(*old(self), *self);
        }
        layer
    }

    fn rebuild_layer_with(&mut self, layer: LayerId, prims: Vec<Primitive>) {
        self.log.push(BackendEvent::RebuildLayer(layer, prims));
        proof {
            lemma_events_push(*old(self), *self);
        }
    }

    fn render_layer(&mut self, layer: LayerId) {
        self.log.push(BackendEvent::RenderLayer(layer));
        proof {
            lemma_events_push(*old(self), *self);
        }
    }

    fn create_texture(&mut self, width: u32, height: u32, data: Vec<u8>) -> (r: Result<
        TextureId,
        RenderError,
    >) {
        proof {
            assert((width as u128) * (height as u128) <= 0xffff_ffff * 0xffff_ffff)
                by (nonlinear_arith)
                requires width <= 0xffff_ffffu32 && height <= 0xffff_ffffu32;
        }
        let expected: u128 = (width as u128) * (height as u128) * 4;
        if (data.len() as u128) != expected {
            return Err(RenderError::TextureDataSizeMismatch);
        }
        self.textures.push(data.len());
        let texture = TextureId(self.textures.len());
        self.log.push(BackendEvent::CreateTexture(texture, width, height, data));
        proof {
            lemma_events_push(*old(self), *self);
        }
        Ok(texture)
    }

    fn update_texture(&mut self, texture: TextureId, data: Vec<u8>) -> (r: Result<
        (),
        RenderError,
    >) {
        let stored = self.textures[texture.0 - 1];
        if data.len() != stored {
            return Err(RenderError::TextureDataSizeMismatch);
        }
        self.log.push(BackendEvent::UpdateTexture(texture, data));
        proof {
            lemma_events_push(*old(self), *self);
        }
        Ok(())
    }
}

} // verus!
