//! The renderer: an attribute store addressed by opaque handles, the paint
//! traversal that turns a container tree plus a bounds lookup into an ordered
//! primitive stream, and the facade that drives a backend with it.

use vstd::prelude::*;
use crate::commons::{Bounds, Color, Pos};
use crate::render::backend::{
    BackendEventV, FillStyle, LayerBuilder, LayerId, Primitive, RenderBackend, TextureId,
};
use crate::render::paint::{
    background_ops, border_bottom_rect, border_fits, border_left_rect, border_ops,
    border_outcome, border_right_rect, border_side_ops, border_side_width, border_top_rect,
    bounds_translate_fits, bounds_translated, child_wf, default_container, empty_store,
    glyph_ops, image_ops_upto, image_wf, lemma_children_extend, outline_fits, outline_ops,
    own_ops_before_children, paint_child, paint_children, paint_container, paint_root, po_ops,
    po_then, pos_translate_fits, pos_translated, removed_children, shadow_fits, shadow_ops_upto,
    shadow_rect, shadows_fit_upto, store_wf, ContainerView, PaintOutcome, StoreView,
};

pub mod backend;
pub mod paint;
mod value_types;

pub use value_types::{
    BackgroundImage, Border, BorderRadius, BorderSide, BorderStyle, Child, InsetShadow, Outline,
    OutlineShadow, OutlineStyle, Overflow, RenderError,
};

verus! {

/// Opaque handle of a container row in the attribute store, stable for the
/// store's lifetime.
#[derive(Clone, Copy, Debug, PartialEq, Eq, Structural)]
pub struct ContainerId(usize);

/// Opaque handle of an image created through the renderer.
#[derive(Clone, Copy, Debug, PartialEq, Eq, Structural)]
pub struct ImageId(usize);

/// Opaque handle of a text node.
#[derive(Clone, Copy, Debug, PartialEq, Eq, Structural)]
pub struct TextId(usize);

impl View for ContainerId {
    type V = int;

    /// The row index a container handle stands for.
    closed spec fn view(&self) -> int {
        self.0 as int
    }
}

impl View for ImageId {
    type V = int;

    /// The row index an image handle stands for.
    closed spec fn view(&self) -> int {
        self.0 as int
    }
}

impl View for TextId {
    type V = int;

    /// The row index a text handle stands for.
    closed spec fn view(&self) -> int {
        self.0 as int
    }
}

/// Data-oriented storage for the attribute tables: every per-container
/// column has one entry per handle at all times, plus the parallel text
/// tables, the image-to-texture table and the root layer handle.
struct UiState {
    bounds_keys: Vec<usize>,
    children: Vec<Vec<Child>>,
    overflows: Vec<Overflow>,
    opacities: Vec<u16>,
    border_radii: Vec<Option<BorderRadius>>,
    outline_shadows: Vec<Vec<OutlineShadow>>,
    outlines: Vec<Option<Outline>>,
    background_colors: Vec<Color>,
    background_images: Vec<Vec<BackgroundImage>>,
    inset_shadows: Vec<Vec<InsetShadow>>,
    colors: Vec<Color>,
    borders: Vec<Option<Border>>,
    text_bounds_keys: Vec<usize>,
    text_layers: Vec<LayerId>,
    root_layer: LayerId,
    textures: Vec<TextureId>,
}

impl UiState {
    /// The attributes of row `i`, assembled across the parallel columns.
    spec fn container_at(&self, i: int) -> ContainerView {
        ContainerView {
            bounds_key: self.bounds_keys@[i],
            children: self.children@[i]@,
            overflow: self.overflows@[i],
            opacity: self.opacities@[i],
            border_radius: self.border_radii@[i],
            outline_shadows: self.outline_shadows@[i]@,
            outline: self.outlines@[i],
            background_color: self.background_colors@[i],
            background_images: self.background_images@[i]@,
            inset_shadows: self.inset_shadows@[i]@,
            color: self.colors@[i],
            border: self.borders@[i],
        }
    }

    /// The whole store as mathematical values.
    spec fn view_store(&self) -> StoreView {
        StoreView {
            containers: Seq::new(self.bounds_keys@.len() as nat, |i: int| self.container_at(i)),
            text_bounds_keys: self.text_bounds_keys@,
            text_layers: self.text_layers@,
            textures: self.textures@,
        }
    }

    /// Every attribute column has exactly one entry per container handle.
    spec fn columns_wf(&self) -> bool {
        let n = self.bounds_keys@.len();
        &&& self.children@.len() == n
        &&& self.overflows@.len() == n
        &&& self.opacities@.len() == n
        &&& self.border_radii@.len() == n
        &&& self.outline_shadows@.len() == n
        &&& self.outlines@.len() == n
        &&& self.background_colors@.len() == n
        &&& self.background_images@.len() == n
        &&& self.inset_shadows@.len() == n
        &&& self.colors@.len() == n
        &&& self.borders@.len() == n
        &&& self.text_layers@.len() == self.text_bounds_keys@.len()
    }

    spec fn wf(&self) -> bool {
        self.columns_wf() && store_wf(self.view_store())
    }

    fn new(root_layer: LayerId) -> (r: UiState)
        ensures
            r.wf(),
            r.view_store() == empty_store(),
            r.root_layer == root_layer,
    {
        let r = UiState {
            bounds_keys: Vec::new(),
            children: Vec::new(),
            overflows: Vec::new(),
            opacities: Vec::new(),
            border_radii: Vec::new(),
            outline_shadows: Vec::new(),
            outlines: Vec::new(),
            background_colors: Vec::new(),
            background_images: Vec::new(),
            inset_shadows: Vec::new(),
            colors: Vec::new(),
            borders: Vec::new(),
            text_bounds_keys: Vec::new(),
            text_layers: Vec::new(),
            root_layer,
            textures: Vec::new(),
        };
        proof {
            assert(r.view_store() =~= empty_store());
        }
        r
    }
}

/// If two stores agree on every child list, every background image list and
/// every table length, well-formedness carries over.
proof fn lemma_store_wf_same_refs(s1: StoreView, s2: StoreView)
    requires
        store_wf(s1),
        s2.containers.len() == s1.containers.len(),
        forall|c: int|
            0 <= c < s2.containers.len() ==> #[trigger] s2.containers[c].children
                == s1.containers[c].children,
        forall|c: int|
            0 <= c < s2.containers.len() ==> #[trigger] s2.containers[c].background_images
                == s1.containers[c].background_images,
        s2.text_layers.len() == s1.text_layers.len(),
        s2.text_bounds_keys.len() == s1.text_bounds_keys.len(),
        s2.textures.len() == s1.textures.len(),
    ensures
        store_wf(s2),
{
    assert forall|c: int, i: int|
        0 <= c < s2.containers.len() && 0 <= i < s2.containers[c].children.len() implies child_wf(
        s2,
        #[trigger] s2.containers[c].children[i],
    ) by {
        assert(child_wf(s1, s1.containers[c].children[i]));
    }
    assert forall|c: int, i: int|
        0 <= c < s2.containers.len() && 0 <= i < s2.containers[c].background_images.len()
        implies image_wf(s2, #[trigger] s2.containers[c].background_images[i]) by {
        assert(image_wf(s1, s1.containers[c].background_images[i]));
    }
}

/// The renderer facade: owns the attribute store and a backend, exposes
/// creation and mutation operations, and the single entry point that
/// rebuilds and renders the root layer.
pub struct Renderer<RB: RenderBackend> {
    backend: RB,
    ui_state: UiState,
}

impl<RB: RenderBackend> Renderer<RB> {
    /// The attribute store as mathematical values.
    pub closed spec fn store(&self) -> StoreView {
        self.ui_state.view_store()
    }

    /// The backend's observable history.
    pub closed spec fn backend_events(&self) -> Seq<BackendEventV> {
        self.backend.events()
    }

    /// The layer every render call rebuilds and draws.
    pub closed spec fn root_layer(&self) -> LayerId {
        self.ui_state.root_layer
    }

    /// The renderer's invariant: the store's parallel columns are aligned,
    /// every stored reference points at an existing row, and every layer and
    /// texture handle the store holds is valid in the backend.
    pub closed spec fn wf(&self) -> bool {
        &&& self.ui_state.wf()
        &&& self.backend.layer_valid(self.ui_state.root_layer)
        &&& forall|i: int|
            0 <= i < self.ui_state.text_layers@.len() ==> self.backend.layer_valid(
                #[trigger] self.ui_state.text_layers@[i],
            )
        &&& forall|i: int|
            0 <= i < self.ui_state.textures@.len() ==> self.backend.texture_valid(
                #[trigger] self.ui_state.textures@[i],
            )
    }

    /// Read access to the backend, for inspecting what was drawn.
    pub fn backend(&self) -> (r: &RB)
        ensures
            r.events() == self.backend_events(),
    {
        &self.backend
    }

    /// A renderer over a fresh backend-created root layer and an empty
    /// store.
    pub fn new(backend: RB) -> (r: Renderer<RB>)
        ensures
            r.wf(),
            r.store() == empty_store(),
            r.backend_events() == backend.events().push(BackendEventV::CreateLayer(r.root_layer())),
    {
        let mut backend = backend;
        let root_layer = backend.create_layer();
        Renderer { backend, ui_state: UiState::new(root_layer) }
    }

    /// Appends a new container row with the documented defaults across every
    /// attribute column and returns its handle.
    pub fn create_container(&mut self, bounds_key: usize) -> (r: ContainerId)
        requires
            old(self).wf(),
        ensures
            final(self).wf(),
            r@ == old(self).store().containers.len(),
            final(self).store() == (StoreView {
                containers: old(self).store().containers.push(default_container(bounds_key)),
                ..old(self).store()
            }),
            final(self).backend_events() == old(self).backend_events(),
            final(self).root_layer() == old(self).root_layer(),
    {
        self.ui_state.bounds_keys.push(bounds_key);
        self.ui_state.children.push(Vec::new());
        self.ui_state.overflows.push(Overflow::Visible);
        self.ui_state.opacities.push(1000);
        self.ui_state.border_radii.push(None);
        self.ui_state.outline_shadows.push(Vec::new());
        self.ui_state.outlines.push(None);
        self.ui_state.background_colors.push(Color { r: 0, g: 0, b: 0, a: 0 });
        self.ui_state.background_images.push(Vec::new());
        self.ui_state.inset_shadows.push(Vec::new());
        self.ui_state.colors.push(Color { r: 0, g: 0, b: 0, a: 255 });
        self.ui_state.borders.push(None);

        let r = ContainerId(self.ui_state.background_colors.len() - 1);
        proof {
            let s1 = old(self).store();
            let s2 = self.store();
            assert(s2 =~= (StoreView {
                containers: s1.containers.push(default_container(bounds_key)),
                ..s1
            }));
            lemma_store_wf_same_refs_push(s1, s2, bounds_key);
        }
        r
    }

    /// Overwrites the container's overflow behavior. Fails with `InvalidHandle` when the handle is out of range.
    pub fn set_overflow(&mut self, container: ContainerId, value: Overflow) -> (r: Result<
        (),
        RenderError,
    >)
        requires
            old(self).wf(),
        ensures
            final(self).wf(),
            final(self).backend_events() == old(self).backend_events(),
            final(self).root_layer() == old(self).root_layer(),
            match r {
                Ok(()) => 0 <= container@ < old(self).store().containers.len()
                    && final(self).store() == (StoreView {
                    containers: old(self).store().containers.update(container@, (ContainerView {
                        overflow: value,
                        ..old(self).store().containers[container@]
                    })),
                    ..old(self).store()
                }),
                Err(e) => e == RenderError::InvalidHandle
                    && container@ >= old(self).store().containers.len()
                    && final(self).store() == old(self).store(),
            },
    {
        if container.0 >= self.ui_state.overflows.len() {
            return Err(RenderError::InvalidHandle);
        }
        self.ui_state.overflows[container.0] = value;
        proof {
            let s1 = old(self).store();
            let s2 = self.store();
            assert(s2 =~= (StoreView {
                containers: s1.containers.update(container@, (ContainerView {
                    overflow: value,
                    ..s1.containers[container@]
                })),
                ..s1
            }));
            lemma_store_wf_same_refs(s1, s2);
        }
        Ok(())
    }

    /// Overwrites the container's opacity, in thousandths. Fails with `InvalidHandle` when the handle is out of range.
    pub fn set_opacity(&mut self, container: ContainerId, value: u16) -> (r: Result<
        (),
        RenderError,
    >)
        requires
            old(self).wf(),
        ensures
            final(self).wf(),
            final(self).backend_events() == old(self).backend_events(),
            final(self).root_layer() == old(self).root_layer(),
            match r {
                Ok(()) => 0 <= container@ < old(self).store().containers.len()
                    && final(self).store() == (StoreView {
                    containers: old(self).store().containers.update(container@, (ContainerView {
                        opacity: value,
                        ..old(self).store().containers[container@]
                    })),
                    ..old(self).store()
                }),
                Err(e) => e == RenderError::InvalidHandle
                    && container@ >= old(self).store().containers.len()
                    && final(self).store() == old(self).store(),
            },
    {
        if container.0 >= self.ui_state.opacities.len() {
            return Err(RenderError::InvalidHandle);
        }
        self.ui_state.opacities[container.0] = value;
        proof {
            let s1 = old(self).store();
            let s2 = self.store();
            assert(s2 =~= (StoreView {
                containers: s1.containers.update(container@, (ContainerView {
                    opacity: value,
                    ..s1.containers[container@]
                })),
                ..s1
            }));
            lemma_store_wf_same_refs(s1, s2);
        }
        Ok(())
    }

    /// Overwrites the container's corner radii. Fails with `InvalidHandle` when the handle is out of range.
    pub fn set_border_radius(&mut self, container: ContainerId, value: Option<BorderRadius>) -> (r: Result<
        (),
        RenderError,
    >)
        requires
            old(self).wf(),
        ensures
            final(self).wf(),
            final(self).backend_events() == old(self).backend_events(),
            final(self).root_layer() == old(self).root_layer(),
            match r {
                Ok(()) => 0 <= container@ < old(self).store().containers.len()
                    && final(self).store() == (StoreView {
                    containers: old(self).store().containers.update(container@, (ContainerView {
                        border_radius: value,
                        ..old(self).store().containers[container@]
                    })),
                    ..old(self).store()
                }),
                Err(e) => e == RenderError::InvalidHandle
                    && container@ >= old(self).store().containers.len()
                    && final(self).store() == old(self).store(),
            },
    {
        if container.0 >= self.ui_state.border_radii.len() {
            return Err(RenderError::InvalidHandle);
        }
        self.ui_state.border_radii[container.0] = value;
        proof {
            let s1 = old(self).store();
            let s2 = self.store();
            assert(s2 =~= (StoreView {
                containers: s1.containers.update(container@, (ContainerView {
                    border_radius: value,
                    ..s1.containers[container@]
                })),
                ..s1
            }));
            lemma_store_wf_same_refs(s1, s2);
        }
        Ok(())
    }

    /// Overwrites the container's ordered outline shadow list. Fails with `InvalidHandle` when the handle is out of range.
    pub fn set_outline_shadows(&mut self, container: ContainerId, value: Vec<OutlineShadow>) -> (r: Result<
        (),
        RenderError,
    >)
        requires
            old(self).wf(),
        ensures
            final(self).wf(),
            final(self).backend_events() == old(self).backend_events(),
            final(self).root_layer() == old(self).root_layer(),
            match r {
                Ok(()) => 0 <= container@ < old(self).store().containers.len()
                    && final(self).store() == (StoreView {
                    containers: old(self).store().containers.update(container@, (ContainerView {
                        outline_shadows: value@,
                        ..old(self).store().containers[container@]
                    })),
                    ..old(self).store()
                }),
                Err(e) => e == RenderError::InvalidHandle
                    && container@ >= old(self).store().containers.len()
                    && final(self).store() == old(self).store(),
            },
    {
        if container.0 >= self.ui_state.outline_shadows.len() {
            return Err(RenderError::InvalidHandle);
        }
        self.ui_state.outline_shadows[container.0] = value;
        proof {
            let s1 = old(self).store();
            let s2 = self.store();
            assert(s2 =~= (StoreView {
                containers: s1.containers.update(container@, (ContainerView {
                    outline_shadows: value@,
                    ..s1.containers[container@]
                })),
                ..s1
            }));
            lemma_store_wf_same_refs(s1, s2);
        }
        Ok(())
    }

    /// Overwrites the container's outline. Fails with `InvalidHandle` when the handle is out of range.
    pub fn set_outline(&mut self, container: ContainerId, value: Option<Outline>) -> (r: Result<
        (),
        RenderError,
    >)
        requires
            old(self).wf(),
        ensures
            final(self).wf(),
            final(self).backend_events() == old(self).backend_events(),
            final(self).root_layer() == old(self).root_layer(),
            match r {
                Ok(()) => 0 <= container@ < old(self).store().containers.len()
                    && final(self).store() == (StoreView {
                    containers: old(self).store().containers.update(container@, (ContainerView {
                        outline: value,
                        ..old(self).store().containers[container@]
                    })),
                    ..old(self).store()
                }),
                Err(e) => e == RenderError::InvalidHandle
                    && container@ >= old(self).store().containers.len()
                    && final(self).store() == old(self).store(),
            },
    {
        if container.0 >= self.ui_state.outlines.len() {
            return Err(RenderError::InvalidHandle);
        }
        self.ui_state.outlines[container.0] = value;
        proof {
            let s1 = old(self).store();
            let s2 = self.store();
            assert(s2 =~= (StoreView {
                containers: s1.containers.update(container@, (ContainerView {
                    outline: value,
                    ..s1.containers[container@]
                })),
                ..s1
            }));
            lemma_store_wf_same_refs(s1, s2);
        }
        Ok(())
    }

    /// Overwrites the container's background color. Fails with `InvalidHandle` when the handle is out of range.
    pub fn set_background_color(&mut self, container: ContainerId, value: Color) -> (r: Result<
        (),
        RenderError,
    >)
        requires
            old(self).wf(),
        ensures
            final(self).wf(),
            final(self).backend_events() == old(self).backend_events(),
            final(self).root_layer() == old(self).root_layer(),
            match r {
                Ok(()) => 0 <= container@ < old(self).store().containers.len()
                    && final(self).store() == (StoreView {
                    containers: old(self).store().containers.update(container@, (ContainerView {
                        background_color: value,
                        ..old(self).store().containers[container@]
                    })),
                    ..old(self).store()
                }),
                Err(e) => e == RenderError::InvalidHandle
                    && container@ >= old(self).store().containers.len()
                    && final(self).store() == old(self).store(),
            },
    {
        if container.0 >= self.ui_state.background_colors.len() {
            return Err(RenderError::InvalidHandle);
        }
        self.ui_state.background_colors[container.0] = value;
        proof {
            let s1 = old(self).store();
            let s2 = self.store();
            assert(s2 =~= (StoreView {
                containers: s1.containers.update(container@, (ContainerView {
                    background_color: value,
                    ..s1.containers[container@]
                })),
                ..s1
            }));
            lemma_store_wf_same_refs(s1, s2);
        }
        Ok(())
    }

    /// Overwrites the container's ordered inset shadow list. Fails with `InvalidHandle` when the handle is out of range.
    pub fn set_inset_shadows(&mut self, container: ContainerId, value: Vec<InsetShadow>) -> (r: Result<
        (),
        RenderError,
    >)
        requires
            old(self).wf(),
        ensures
            final(self).wf(),
            final(self).backend_events() == old(self).backend_events(),
            final(self).root_layer() == old(self).root_layer(),
            match r {
                Ok(()) => 0 <= container@ < old(self).store().containers.len()
                    && final(self).store() == (StoreView {
                    containers: old(self).store().containers.update(container@, (ContainerView {
                        inset_shadows: value@,
                        ..old(self).store().containers[container@]
                    })),
                    ..old(self).store()
                }),
                Err(e) => e == RenderError::InvalidHandle
                    && container@ >= old(self).store().containers.len()
                    && final(self).store() == old(self).store(),
            },
    {
        if container.0 >= self.ui_state.inset_shadows.len() {
            return Err(RenderError::InvalidHandle);
        }
        self.ui_state.inset_shadows[container.0] = value;
        proof {
            let s1 = old(self).store();
            let s2 = self.store();
            assert(s2 =~= (StoreView {
                containers: s1.containers.update(container@, (ContainerView {
                    inset_shadows: value@,
                    ..s1.containers[container@]
                })),
                ..s1
            }));
            lemma_store_wf_same_refs(s1, s2);
        }
        Ok(())
    }

    /// Overwrites the container's foreground color. Fails with `InvalidHandle` when the handle is out of range.
    pub fn set_color(&mut self, container: ContainerId, value: Color) -> (r: Result<
        (),
        RenderError,
    >)
        requires
            old(self).wf(),
        ensures
            final(self).wf(),
            final(self).backend_events() == old(self).backend_events(),
            final(self).root_layer() == old(self).root_layer(),
            match r {
                Ok(()) => 0 <= container@ < old(self).store().containers.len()
                    && final(self).store() == (StoreView {
                    containers: old(self).store().containers.update(container@, (ContainerView {
                        color: value,
                        ..old(self).store().containers[container@]
                    })),
                    ..old(self).store()
                }),
                Err(e) => e == RenderError::InvalidHandle
                    && container@ >= old(self).store().containers.len()
                    && final(self).store() == old(self).store(),
            },
    {
        if container.0 >= self.ui_state.colors.len() {
            return Err(RenderError::InvalidHandle);
        }
        self.ui_state.colors[container.0] = value;
        proof {
            let s1 = old(self).store();
            let s2 = self.store();
            assert(s2 =~= (StoreView {
                containers: s1.containers.update(container@, (ContainerView {
                    color: value,
                    ..s1.containers[container@]
                })),
                ..s1
            }));
            lemma_store_wf_same_refs(s1, s2);
        }
        Ok(())
    }

    /// Overwrites the container's border. Fails with `InvalidHandle` when the handle is out of range.
    pub fn set_border(&mut self, container: ContainerId, value: Option<Border>) -> (r: Result<
        (),
        RenderError,
    >)
        requires
            old(self).wf(),
        ensures
            final(self).wf(),
            final(self).backend_events() == old(self).backend_events(),
            final(self).root_layer() == old(self).root_layer(),
            match r {
                Ok(()) => 0 <= container@ < old(self).store().containers.len()
                    && final(self).store() == (StoreView {
                    containers: old(self).store().containers.update(container@, (ContainerView {
                        border: value,
                        ..old(self).store().containers[container@]
                    })),
                    ..old(self).store()
                }),
                Err(e) => e == RenderError::InvalidHandle
                    && container@ >= old(self).store().containers.len()
                    && final(self).store() == old(self).store(),
            },
    {
        if container.0 >= self.ui_state.borders.len() {
            return Err(RenderError::InvalidHandle);
        }
        self.ui_state.borders[container.0] = value;
        proof {
            let s1 = old(self).store();
            let s2 = self.store();
            assert(s2 =~= (StoreView {
                containers: s1.containers.update(container@, (ContainerView {
                    border: value,
                    ..s1.containers[container@]
                })),
                ..s1
            }));
            lemma_store_wf_same_refs(s1, s2);
        }
        Ok(())
    }

    /// Overwrites the container's ordered background list. Fails with
    /// `InvalidHandle` when the handle is out of range or when an `Image`
    /// entry references an image that was never created.
    pub fn set_background_images(&mut self, container: ContainerId, value: Vec<
        BackgroundImage,
    >) -> (r: Result<(), RenderError>)
        requires
            old(self).wf(),
        ensures
            final(self).wf(),
            final(self).backend_events() == old(self).backend_events(),
            final(self).root_layer() == old(self).root_layer(),
            match r {
                Ok(()) => {
                    &&& 0 <= container@ < old(self).store().containers.len()
                    &&& forall|i: int|
                        0 <= i < value@.len() ==> image_wf(old(self).store(), #[trigger] value@[i])
                    &&& final(self).store() == (StoreView {
                        containers: old(self).store().containers.update(container@, (ContainerView {
                            background_images: value@,
                            ..old(self).store().containers[container@]
                        })),
                        ..old(self).store()
                    })
                },
                Err(e) => {
                    &&& e == RenderError::InvalidHandle
                    &&& final(self).store() == old(self).store()
                    &&& (container@ >= old(self).store().containers.len() || exists|i: int|
                        0 <= i < value@.len() && !image_wf(old(self).store(), #[trigger] value@[i]))
                },
            },
    {
        if container.0 >= self.ui_state.background_images.len() {
            return Err(RenderError::InvalidHandle);
        }
        let mut i: usize = 0;
        while i < value.len()
            invariant
                i <= value@.len(),
                old(self).wf(),
                self == old(self),
                forall|j: int|
                    0 <= j < i ==> image_wf(old(self).store(), #[trigger] value@[j]),
            decreases value@.len() - i,
        {
            let ok = match value[i] {
                BackgroundImage::Image { image } => image.0 < self.ui_state.textures.len(),
                BackgroundImage::LinearGradient => true,
                BackgroundImage::RadialGradient => true,
            };
            if !ok {
                return Err(RenderError::InvalidHandle);
            }
            i = i + 1;
        }
        self.ui_state.background_images[container.0] = value;
        proof {
            let s1 = old(self).store();
            let s2 = self.store();
            assert(s2 =~= (StoreView {
                containers: s1.containers.update(container@, (ContainerView {
                    background_images: value@,
                    ..s1.containers[container@]
                })),
                ..s1
            }));
            assert forall|c: int, ii: int|
                0 <= c < s2.containers.len() && 0 <= ii < s2.containers[c].children.len()
                implies child_wf(s2, #[trigger] s2.containers[c].children[ii]) by {
                assert(child_wf(s1, s1.containers[c].children[ii]));
            }
            assert forall|c: int, ii: int|
                0 <= c < s2.containers.len() && 0 <= ii < s2.containers[c].background_images.len()
                implies image_wf(s2, #[trigger] s2.containers[c].background_images[ii]) by {
                if c != container@ {
                    assert(image_wf(s1, s1.containers[c].background_images[ii]));
                } else {
                    assert(image_wf(s1, value@[ii]));
                }
            }
        }
        Ok(())
    }

    /// Inserts `child` into the container's child list at `index`.
    /// `index == len` appends; `index > len` fails with `IndexOutOfRange`;
    /// an out-of-range parent or child handle fails with `InvalidHandle`.
    pub fn insert_child(&mut self, container: ContainerId, index: usize, child: Child) -> (r:
        Result<(), RenderError>)
        requires
            old(self).wf(),
        ensures
            final(self).wf(),
            final(self).backend_events() == old(self).backend_events(),
            final(self).root_layer() == old(self).root_layer(),
            match r {
                Ok(()) => {
                    &&& 0 <= container@ < old(self).store().containers.len()
                    &&& child_wf(old(self).store(), child)
                    &&& index <= old(self).store().containers[container@].children.len()
                    &&& final(self).store() == (StoreView {
                        containers: old(self).store().containers.update(container@, (ContainerView {
                            children: old(self).store().containers[container@].children.insert(
                                index as int,
                                child,
                            ),
                            ..old(self).store().containers[container@]
                        })),
                        ..old(self).store()
                    })
                },
                Err(e) => {
                    &&& final(self).store() == old(self).store()
                    &&& if container@ >= old(self).store().containers.len() || !child_wf(
                        old(self).store(),
                        child,
                    ) {
                        e == RenderError::InvalidHandle
                    } else {
                        e == RenderError::IndexOutOfRange && index > old(
                            self,
                        ).store().containers[container@].children.len()
                    }
                },
            },
    {
        if container.0 >= self.ui_state.children.len() {
            return Err(RenderError::InvalidHandle);
        }
        let child_ok = match child {
            Child::Container(c) => c.0 < self.ui_state.bounds_keys.len(),
            Child::Text(t) => t.0 < self.ui_state.text_layers.len(),
        };
        if !child_ok {
            return Err(RenderError::InvalidHandle);
        }
        let list = &mut self.ui_state.children[container.0];
        if index > list.len() {
            proof {
                assert(self.ui_state.children@ =~= old(self).ui_state.children@);
                assert(self.store() =~= old(self).store());
            }
            return Err(RenderError::IndexOutOfRange);
        }
        list.insert(index, child);
        proof {
            let s1 = old(self).store();
            let s2 = self.store();
            let inserted = s1.containers[container@].children.insert(index as int, child);
            assert(s2 =~= (StoreView {
                containers: s1.containers.update(container@, (ContainerView {
                    children: inserted,
                    ..s1.containers[container@]
                })),
                ..s1
            }));
            s1.containers[container@].children.insert_ensures(index as int, child);
            assert forall|c: int, i: int|
                0 <= c < s2.containers.len() && 0 <= i < s2.containers[c].children.len()
                implies child_wf(s2, #[trigger] s2.containers[c].children[i]) by {
                if c != container@ {
                    assert(child_wf(s1, s1.containers[c].children[i]));
                } else {
                    if i < index {
                        assert(inserted[i] == s1.containers[c].children[i]);
                        assert(child_wf(s1, s1.containers[c].children[i]));
                    } else if i == index {
                        assert(inserted[i] == child);
                    } else {
                        assert(inserted[i] == s1.containers[c].children[i - 1]);
                        assert(child_wf(s1, s1.containers[c].children[i - 1]));
                    }
                }
            }
            assert forall|c: int, i: int|
                0 <= c < s2.containers.len() && 0 <= i < s2.containers[c].background_images.len()
                implies image_wf(s2, #[trigger] s2.containers[c].background_images[i]) by {
                assert(image_wf(s1, s1.containers[c].background_images[i]));
            }
        }
        Ok(())
    }

    /// Removes every entry of the container's child list that is
    /// structurally equal to `child`, not just the first: a deliberate
    /// remove-by-value semantic. Fails with `InvalidHandle` when the parent
    /// handle is out of range.
    pub fn remove_child(&mut self, container: ContainerId, child: Child) -> (r: Result<
        (),
        RenderError,
    >)
        requires
            old(self).wf(),
        ensures
            final(self).wf(),
            final(self).backend_events() == old(self).backend_events(),
            final(self).root_layer() == old(self).root_layer(),
            match r {
                Ok(()) => {
                    &&& 0 <= container@ < old(self).store().containers.len()
                    &&& final(self).store() == (StoreView {
                        containers: old(self).store().containers.update(container@, (ContainerView {
                            children: removed_children(
                                old(self).store().containers[container@].children,
                                child,
                            ),
                            ..old(self).store().containers[container@]
                        })),
                        ..old(self).store()
                    })
                    &&& forall|i: int|
                        0 <= i < final(self).store().containers[container@].children.len()
                            ==> #[trigger] final(self).store().containers[container@].children[i]
                            != child
                },
                Err(e) => e == RenderError::InvalidHandle
                    && container@ >= old(self).store().containers.len()
                    && final(self).store() == old(self).store(),
            },
    {
        if container.0 >= self.ui_state.children.len() {
            return Err(RenderError::InvalidHandle);
        }
        let mut kept: Vec<Child> = Vec::new();
        let list = &self.ui_state.children[container.0];
        let ghost target = list@;
        let mut i: usize = 0;
        while i < list.len()
            invariant
                i <= target.len(),
                list@ == target,
                kept@ == removed_children(target.take(i as int), child),
                forall|j: int| 0 <= j < kept@.len() ==> #[trigger] kept@[j] != child,
                forall|j: int|
                    0 <= j < kept@.len() ==> exists|k: int|
                        0 <= k < target.len() && #[trigger] kept@[j] == target[k],
            decreases target.len() - i,
        {
            let entry = list[i];
            proof {
                reveal(Seq::filter);
                assert(target.take(i + 1).drop_last() =~= target.take(i as int));
                assert(target.take(i + 1).last() == target[i as int]);
            }
            if !(entry == child) {
                kept.push(entry);
                proof {
                    assert(kept@ == removed_children(target.take(i + 1), child));
                }
            } else {
                proof {
                    assert(kept@ == removed_children(target.take(i + 1), child));
                }
            }
            i = i + 1;
        }
        proof {
            assert(target.take(target.len() as int) =~= target);
        }
        self.ui_state.children[container.0] = kept;
        proof {
            let s1 = old(self).store();
            let s2 = self.store();
            assert(s2 =~= (StoreView {
                containers: s1.containers.update(container@, (ContainerView {
                    children: removed_children(s1.containers[container@].children, child),
                    ..s1.containers[container@]
                })),
                ..s1
            }));
            assert forall|c: int, i2: int|
                0 <= c < s2.containers.len() && 0 <= i2 < s2.containers[c].children.len()
                implies child_wf(s2, #[trigger] s2.containers[c].children[i2]) by {
                if c != container@ {
                    assert(child_wf(s1, s1.containers[c].children[i2]));
                } else {
                    let k = choose|k: int|
                        0 <= k < target.len() && s2.containers[c].children[i2] == target[k];
                    assert(child_wf(s1, s1.containers[c].children[k]));
                }
            }
            assert forall|c: int, i2: int|
                0 <= c < s2.containers.len() && 0 <= i2 < s2.containers[c].background_images.len()
                implies image_wf(s2, #[trigger] s2.containers[c].background_images[i2]) by {
                assert(image_wf(s1, s1.containers[c].background_images[i2]));
            }
        }
        Ok(())
    }

    /// Uploads an RGBA8 pixel buffer as a backend texture and records the
    /// handle; fails with `TextureDataSizeMismatch` if the buffer length is
    /// not `width * height * 4`.
    pub fn create_image(&mut self, width: u32, height: u32, data: Vec<u8>) -> (r: Result<
        ImageId,
        RenderError,
    >)
        requires
            old(self).wf(),
        ensures
            final(self).wf(),
            final(self).root_layer() == old(self).root_layer(),
            match r {
                Ok(img) => {
                    &&& data@.len() == width * height * 4
                    &&& img@ == old(self).store().textures.len()
                    &&& final(self).store() == (StoreView {
                        textures: old(self).store().textures.push(
                            final(self).store().textures[img@],
                        ),
                        ..old(self).store()
                    })
                    &&& final(self).backend_events() == old(self).backend_events().push(
                        BackendEventV::CreateTexture(
                            final(self).store().textures[img@],
                            width,
                            height,
                            data@,
                        ),
                    )
                },
                Err(e) => {
                    &&& e == RenderError::TextureDataSizeMismatch
                    &&& data@.len() != width * height * 4
                    &&& final(self).store() == old(self).store()
                    &&& final(self).backend_events() == old(self).backend_events()
                },
            },
    {
        let texture = match self.backend.create_texture(width, height, data) {
            Ok(t) => t,
            Err(e) => {
                return Err(e);
            },
        };
        self.ui_state.textures.push(texture);
        let img = ImageId(self.ui_state.textures.len() - 1);
        proof {
            let s1 = old(self).store();
            let s2 = self.store();
            assert(s2 =~= (StoreView { textures: s1.textures.push(texture), ..s1 }));
            lemma_store_wf_same_tables(s1, s2);
        }
        Ok(img)
    }

    /// Reserved seam for in-place image updates; not implemented yet, the
    /// renderer is left untouched.
    pub fn set_image_data(&mut self)
        ensures
            *final(self) == *old(self),
    {
    }

    /// Allocates a text node row: its layout key, and a fresh backend layer
    /// that will hold its glyph quads.
    pub fn create_text(&mut self, bounds_key: usize) -> (r: TextId)
        requires
            old(self).wf(),
        ensures
            final(self).wf(),
            final(self).root_layer() == old(self).root_layer(),
            r@ == old(self).store().text_layers.len(),
            final(self).store() == (StoreView {
                text_bounds_keys: old(self).store().text_bounds_keys.push(bounds_key),
                text_layers: old(self).store().text_layers.push(
                    final(self).store().text_layers[r@],
                ),
                ..old(self).store()
            }),
            final(self).backend_events() == old(self).backend_events().push(
                BackendEventV::CreateLayer(final(self).store().text_layers[r@]),
            ),
    {
        let layer = self.backend.create_layer();
        self.ui_state.text_bounds_keys.push(bounds_key);
        self.ui_state.text_layers.push(layer);
        let r = TextId(self.ui_state.text_layers.len() - 1);
        proof {
            let s1 = old(self).store();
            let s2 = self.store();
            assert(s2 =~= (StoreView {
                text_bounds_keys: s1.text_bounds_keys.push(bounds_key),
                text_layers: s1.text_layers.push(layer),
                ..s1
            }));
            lemma_store_wf_same_tables(s1, s2);
        }
        r
    }

    /// Rebuilds the text node's own layer from scratch: one fixed-size quad
    /// per character, left to right with a fixed advance and a fixed tint
    /// (placeholder monospace metrics; a pluggable seam for a real
    /// text-shaping collaborator). Only that layer changes; the container
    /// tree is untouched. Fails with `InvalidHandle` when the handle is out
    /// of range.
    pub fn set_text_data(&mut self, text: TextId, data: String) -> (r: Result<(), RenderError>)
        requires
            old(self).wf(),
            15 * data@.len() + 12 <= i64::MAX,
        ensures
            final(self).wf(),
            final(self).store() == old(self).store(),
            final(self).root_layer() == old(self).root_layer(),
            match r {
                Ok(()) => 0 <= text@ < old(self).store().text_layers.len()
                    && final(self).backend_events() == old(self).backend_events().push(
                    BackendEventV::RebuildLayer(
                        old(self).store().text_layers[text@],
                        glyph_ops(data@),
                    ),
                ),
                Err(e) => e == RenderError::InvalidHandle
                    && text@ >= old(self).store().text_layers.len()
                    && final(self).backend_events() == old(self).backend_events(),
            },
    {
        if text.0 >= self.ui_state.text_layers.len() {
            return Err(RenderError::InvalidHandle);
        }
        let n = data.as_str().unicode_len();
        let mut quads: Vec<Primitive> = Vec::new();
        let mut i: usize = 0;
        while i < n
            invariant
                i <= n,
                n == data@.len(),
                15 * data@.len() + 12 <= i64::MAX,
                quads@.len() == i,
                forall|j: int| 0 <= j < i ==> quads@[j] == #[trigger] glyph_ops(data@)[j],
            decreases n - i,
        {
            let x: i64 = 15 * (i as i64);
            quads.push(
                Primitive::Rect(
                    Bounds { a: Pos { x, y: 0 }, b: Pos { x: x + 12, y: 20 } },
                    FillStyle::SolidColor(Color { r: 255, g: 255, b: 255, a: 255 }),
                ),
            );
            i = i + 1;
        }
        proof {
            assert(quads@ =~= glyph_ops(data@));
        }
        self.backend.rebuild_layer_with(self.ui_state.text_layers[text.0], quads);
        proof {
            assert(self.store() =~= old(self).store());
        }
        Ok(())
    }

    /// Rebuilds the root layer from scratch by painting the subtree under
    /// `container` against the supplied bounds lookup, then draws it: one
    /// atomic call from the caller's perspective. On any error the backend
    /// is left untouched and the error says what desynchronized. The
    /// traversal must not recurse past the store size (no cycle among the
    /// reachable children) nor push any coordinate out of the machine
    /// range; `paint_root` states both.
    pub fn render_container(&mut self, container: ContainerId, bounds: &Vec<Bounds>) -> (r: Result<
        (),
        RenderError,
    >)
        requires
            old(self).wf(),
            !(paint_root(old(self).store(), container@, bounds@) is Diverge),
        ensures
            final(self).wf(),
            final(self).store() == old(self).store(),
            final(self).root_layer() == old(self).root_layer(),
            match paint_root(old(self).store(), container@, bounds@) {
                PaintOutcome::Ops(ops) => r == Ok::<(), RenderError>(())
                    && final(self).backend_events() == old(self).backend_events() + seq![
                    BackendEventV::RebuildLayer(old(self).root_layer(), ops),
                    BackendEventV::RenderLayer(old(self).root_layer()),
                ],
                PaintOutcome::Fail(e) => r == Err::<(), RenderError>(e)
                    && final(self).backend_events() == old(self).backend_events(),
                PaintOutcome::Diverge => false,
            },
    {
        let idx = container.0;
        if idx >= self.ui_state.bounds_keys.len() {
            return Err(RenderError::InvalidHandle);
        }
        let key = self.ui_state.bounds_keys[idx];
        if key >= bounds.len() {
            return Err(RenderError::MissingBoundsKey);
        }
        let cur = bounds[key];
        let fuel = self.ui_state.bounds_keys.len();
        let mut prims: Vec<Primitive> = Vec::new();
        match paint_rec(&self.ui_state, &mut prims, container, bounds, cur, fuel) {
            Err(e) => Err(e),
            Ok(()) => {
                let ghost ops = prims@;
                let layer = self.ui_state.root_layer;
                self.backend.rebuild_layer_with(layer, prims);
                self.backend.render_layer(layer);
                proof {
                    assert(self.backend.events() =~= old(self).backend.events() + seq![
                        BackendEventV::RebuildLayer(layer, ops),
                        BackendEventV::RenderLayer(layer),
                    ]);
                }
                Ok(())
            },
        }
    }
}

/// Emits one rectangle per outline shadow, in list order: the box inflated
/// uniformly by the shadow's spread, filled with its color.
#[verifier::loop_isolation(false)]
fn render_outline_shadows<B: LayerBuilder>(builder: &mut B, cur: Bounds, shadows: &Vec<
    OutlineShadow,
>)
    requires
        shadows_fit_upto(cur, shadows@, shadows@.len() as int),
    ensures
        final(builder).ops() == old(builder).ops() + shadow_ops_upto(
            cur,
            shadows@,
            shadows@.len() as int,
        ),
{
    let ghost base = builder.ops();
    let mut i: usize = 0;
    while i < shadows.len()
        invariant
            i <= shadows@.len(),
            builder.ops() == base + shadow_ops_upto(cur, shadows@, i as int),
        decreases shadows@.len() - i,
    {
        let sh = shadows[i];
        proof {
            assert(shadow_fits(cur, shadows@[i as int]));
        }
        let rect = Bounds {
            a: Pos { x: cur.a.x - sh.spread, y: cur.a.y - sh.spread },
            b: Pos { x: cur.b.x + sh.spread, y: cur.b.y + sh.spread },
        };
        builder.push_rect(rect, FillStyle::SolidColor(sh.color));
        proof {
            assert(rect == shadow_rect(cur, shadows@[i as int]));
            assert(builder.ops() =~= base + shadow_ops_upto(cur, shadows@, i as int + 1));
        }
        i = i + 1;
    }
}

/// Emits the four outline rectangles: a frame outside the box of the
/// outline's width, top, right, bottom, left.
fn render_outline<B: LayerBuilder>(builder: &mut B, cur: Bounds, outline: &Outline)
    requires
        outline_fits(cur, outline.width),
    ensures
        final(builder).ops() == old(builder).ops() + outline_ops(cur, *outline),
{
    let w = outline.width;
    let color = outline.color;
    let a = cur.a;
    let b = cur.b;

    builder.push_rect(
        Bounds { a, b: Pos { x: b.x + w, y: a.y - w } },
        FillStyle::SolidColor(color),
    );
    builder.push_rect(
        Bounds { a: Pos { x: b.x + w, y: a.y }, b: Pos { x: b.x, y: b.y + w } },
        FillStyle::SolidColor(color),
    );
    builder.push_rect(
        Bounds { a: Pos { x: a.x - w, y: b.y + w }, b },
        FillStyle::SolidColor(color),
    );
    builder.push_rect(
        Bounds { a: Pos { x: a.x - w, y: a.y - w }, b: Pos { x: a.x, y: b.y } },
        FillStyle::SolidColor(color),
    );
    proof {
        assert(builder.ops() =~= old(builder).ops() + outline_ops(cur, *outline));
    }
}

/// Emits one rectangle equal to the box when the background color has any
/// alpha; fully transparent backgrounds emit nothing.
fn render_background_color<B: LayerBuilder>(builder: &mut B, cur: Bounds, color: Color)
    ensures
        final(builder).ops() == old(builder).ops() + background_ops(cur, color),
{
    if color.a != 0 {
        builder.push_rect(cur, FillStyle::SolidColor(color));
        proof {
            assert(builder.ops() =~= old(builder).ops() + background_ops(cur, color));
        }
    } else {
        proof {
            assert(builder.ops() =~= old(builder).ops() + background_ops(cur, color));
        }
    }
}

/// Emits the background entries in list order: an image covers the full box
/// with the full UV rectangle; gradients are accepted but emit nothing yet.
#[verifier::loop_isolation(false)]
fn render_background_images<B: LayerBuilder>(
    builder: &mut B,
    cur: Bounds,
    images: &Vec<BackgroundImage>,
    textures: &Vec<TextureId>,
)
    requires
        forall|i: int|
            0 <= i < images@.len() ==> match #[trigger] images@[i] {
                BackgroundImage::Image { image } => 0 <= image@ < textures@.len(),
                _ => true,
            },
    ensures
        final(builder).ops() == old(builder).ops() + image_ops_upto(
            cur,
            textures@,
            images@,
            images@.len() as int,
        ),
{
    let ghost base = builder.ops();
    let mut i: usize = 0;
    while i < images.len()
        invariant
            i <= images@.len(),
            builder.ops() == base + image_ops_upto(cur, textures@, images@, i as int),
        decreases images@.len() - i,
    {
        match images[i] {
            BackgroundImage::Image { image } => {
                builder.push_rect(
                    cur,
                    FillStyle::Texture(
                        textures[image.0],
                        Bounds { a: Pos { x: 0, y: 0 }, b: Pos { x: 1, y: 1 } },
                    ),
                );
            },
            BackgroundImage::LinearGradient => {},
            BackgroundImage::RadialGradient => {},
        }
        proof {
            assert(builder.ops() =~= base + image_ops_upto(cur, textures@, images@, i as int + 1));
        }
        i = i + 1;
    }
}

/// Emits each border side independently present: one rectangle inside the
/// box edge of that side's width, skipped entirely when the side is absent;
/// only `Solid` draws. The border sits above child content.
fn render_border<B: LayerBuilder>(builder: &mut B, cur: Bounds, border: &Border)
    requires
        border_fits(cur, *border),
    ensures
        final(builder).ops() == old(builder).ops() + border_ops(cur, *border),
{
    let ghost base = builder.ops();
    let b = *border;
    let a = cur.a;
    let bb = cur.b;

    if let Some(side) = b.top {
        if side.style == BorderStyle::Solid {
            builder.push_rect(
                Bounds { a, b: Pos { x: bb.x, y: a.y + side.width } },
                FillStyle::SolidColor(side.color),
            );
        }
    }
    proof {
        assert(builder.ops() =~= base + border_side_ops(
            b.top,
            border_top_rect(cur, border_side_width(b.top)),
        ));
    }
    let ghost done_top = builder.ops();

    if let Some(side) = b.right {
        if side.style == BorderStyle::Solid {
            builder.push_rect(
                Bounds { a: Pos { x: bb.x - side.width, y: a.y }, b: bb },
                FillStyle::SolidColor(side.color),
            );
        }
    }
    proof {
        assert(builder.ops() =~= done_top + border_side_ops(
            b.right,
            border_right_rect(cur, border_side_width(b.right)),
        ));
    }
    let ghost done_right = builder.ops();

    if let Some(side) = b.bottom {
        if side.style == BorderStyle::Solid {
            builder.push_rect(
                Bounds { a: Pos { x: a.x, y: bb.y - side.width }, b: bb },
                FillStyle::SolidColor(side.color),
            );
        }
    }
    proof {
        assert(builder.ops() =~= done_right + border_side_ops(
            b.bottom,
            border_bottom_rect(cur, border_side_width(b.bottom)),
        ));
    }
    let ghost done_bottom = builder.ops();

    if let Some(side) = b.left {
        if side.style == BorderStyle::Solid {
            builder.push_rect(
                Bounds { a, b: Pos { x: a.x + side.width, y: bb.y } },
                FillStyle::SolidColor(side.color),
            );
        }
    }
    proof {
        assert(builder.ops() =~= done_bottom + border_side_ops(
            b.left,
            border_left_rect(cur, border_side_width(b.left)),
        ));
        assert(builder.ops() =~= base + border_ops(cur, *border));
    }
}

/// The recursive paint traversal: emits into `builder` exactly what the
/// paint model says the container paints into the box `cur`, phase by phase
/// in the fixed paint order, recursing into container children with the
/// accumulated origin and referencing text children's pre-built layers.
#[verifier::loop_isolation(false)]
#[verifier::rlimit(100)]
fn paint_rec<B: LayerBuilder>(
    ui: &UiState,
    builder: &mut B,
    container: ContainerId,
    bounds: &Vec<Bounds>,
    cur: Bounds,
    fuel: usize,
) -> (r: Result<(), RenderError>)
    requires
        ui.wf(),
        0 <= container@ < ui.view_store().containers.len(),
        !(paint_container(ui.view_store(), container@, bounds@, cur, fuel as nat) is Diverge),
    ensures
        match paint_container(ui.view_store(), container@, bounds@, cur, fuel as nat) {
            PaintOutcome::Ops(ops) => r == Ok::<(), RenderError>(()) && final(builder).ops()
                == old(builder).ops() + ops,
            PaintOutcome::Fail(e) => r == Err::<(), RenderError>(e),
            PaintOutcome::Diverge => false,
        },
    decreases fuel,
{
    let idx = container.0;
    let ghost s = ui.view_store();
    let ghost cv = s.containers[container@];
    let ghost whole = paint_container(s, container@, bounds@, cur, fuel as nat);
    let ghost base = builder.ops();
    let ghost own = own_ops_before_children(cur, cv, s.textures);
    let ghost children_out = paint_children(
        s,
        cv.children,
        cv.children.len() as int,
        bounds@,
        cur,
        fuel as nat,
    );
    let ghost border_out = border_outcome(cur, cv.border);

    proof {
        assert(whole == po_then(own, po_then(children_out, border_out)));
        assert(!(own is Diverge));
        assert(shadows_fit_upto(cur, cv.outline_shadows, cv.outline_shadows.len() as int));
        match cv.outline {
            Some(o) => assert(outline_fits(cur, o.width)),
            None => (),
        }
    }

    render_outline_shadows(builder, cur, &ui.outline_shadows[idx]);
    match ui.outlines[idx] {
        Some(o) => render_outline(builder, cur, &o),
        None => {},
    }
    render_background_color(builder, cur, ui.background_colors[idx]);
    proof {
        assert forall|i: int|
            0 <= i < ui.background_images@[idx as int]@.len() implies match #[trigger] ui
            .background_images@[idx as int]@[i] {
            BackgroundImage::Image { image } => 0 <= image@ < ui.textures@.len(),
            _ => true,
        } by {
            assert(image_wf(s, s.containers[container@].background_images[i]));
        }
    }
    render_background_images(builder, cur, &ui.background_images[idx], &ui.textures);
    // Inset shadows are accepted and stored, but their rendering is a
    // declared open extension point: no primitive yet.

    let ghost own_seq = po_ops(own);
    proof {
        assert(own == PaintOutcome::Ops(own_seq));
        assert(builder.ops() =~= base + own_seq);
    }

    let children = &ui.children[idx];
    let mut i: usize = 0;
    while i < children.len()
        invariant
            i <= children@.len(),
            paint_children(s, cv.children, i as int, bounds@, cur, fuel as nat) is Ops,
            builder.ops() == base + own_seq + po_ops(
                paint_children(s, cv.children, i as int, bounds@, cur, fuel as nat),
            ),
        decreases children@.len() - i,
    {
        let ghost pref = paint_children(s, cv.children, i as int, bounds@, cur, fuel as nat);
        let ghost child_out = paint_child(s, cv.children[i as int], bounds@, cur, fuel as nat);
        proof {
            assert(paint_children(s, cv.children, i as int + 1, bounds@, cur, fuel as nat)
                == po_then(pref, child_out));
            if !(po_then(pref, child_out) is Ops) {
                lemma_children_extend(
                    s,
                    cv.children,
                    i as int + 1,
                    cv.children.len() as int,
                    bounds@,
                    cur,
                    fuel as nat,
                );
            }
            assert(!(child_out is Diverge));
            assert(child_wf(s, cv.children[i as int]));
        }
        match children[i] {
            Child::Container(child_ct) => {
                let key = ui.bounds_keys[child_ct.0];
                if key >= bounds.len() {
                    proof {
                        assert(child_out == PaintOutcome::Fail(RenderError::MissingBoundsKey));
                        assert(whole == PaintOutcome::Fail(RenderError::MissingBoundsKey));
                    }
                    return Err(RenderError::MissingBoundsKey);
                }
                proof {
                    assert(bounds_translate_fits(bounds@[key as int], cur.a));
                    assert(fuel > 0);
                }
                let child_bounds = bounds[key];
                let new_cur = Bounds {
                    a: Pos { x: child_bounds.a.x + cur.a.x, y: child_bounds.a.y + cur.a.y },
                    b: Pos { x: child_bounds.b.x + cur.a.x, y: child_bounds.b.y + cur.a.y },
                };
                proof {
                    assert(new_cur == bounds_translated(bounds@[key as int], cur.a));
                    assert(child_out == paint_container(
                        s,
                        child_ct@,
                        bounds@,
                        new_cur,
                        (fuel - 1) as nat,
                    ));
                }
                match paint_rec(ui, builder, child_ct, bounds, new_cur, fuel - 1) {
                    Ok(()) => {
                        proof {
                            assert(builder.ops() =~= base + own_seq + po_ops(
                                paint_children(
                                    s,
                                    cv.children,
                                    i as int + 1,
                                    bounds@,
                                    cur,
                                    fuel as nat,
                                ),
                            ));
                        }
                    },
                    Err(e) => {
                        proof {
                            assert(child_out == PaintOutcome::Fail(e));
                            assert(whole == PaintOutcome::Fail(e));
                        }
                        return Err(e);
                    },
                }
            },
            Child::Text(child_text) => {
                let key = ui.text_bounds_keys[child_text.0];
                if key >= bounds.len() {
                    proof {
                        assert(child_out == PaintOutcome::Fail(RenderError::MissingBoundsKey));
                        assert(whole == PaintOutcome::Fail(RenderError::MissingBoundsKey));
                    }
                    return Err(RenderError::MissingBoundsKey);
                }
                proof {
                    assert(pos_translate_fits(bounds@[key as int].a, cur.a));
                }
                let tb = bounds[key];
                let origin = Pos { x: tb.a.x + cur.a.x, y: tb.a.y + cur.a.y };
                builder.push_layer(ui.text_layers[child_text.0], origin);
                proof {
                    assert(origin == pos_translated(bounds@[key as int].a, cur.a));
                    assert(child_out == PaintOutcome::Ops(
                        seq![
                            Primitive::LayerRef(
                                s.text_layers[child_text@],
                                pos_translated(bounds@[key as int].a, cur.a),
                            ),
                        ],
                    ));
                    assert(builder.ops() =~= base + own_seq + po_ops(
                        paint_children(s, cv.children, i as int + 1, bounds@, cur, fuel as nat),
                    ));
                }
            },
        }
        i = i + 1;
    }

    proof {
        assert(children_out is Ops);
        match cv.border {
            Some(b) => assert(border_fits(cur, b)),
            None => (),
        }
    }
    match ui.borders[idx] {
        Some(b) => render_border(builder, cur, &b),
        None => {},
    }
    proof {
        assert(whole == PaintOutcome::Ops(own_seq + (po_ops(children_out) + po_ops(border_out))));
        assert(builder.ops() =~= base + (own_seq + (po_ops(children_out) + po_ops(border_out))));
    }
    Ok(())
}

/// Growing the parallel text tables together, or the texture table, keeps
/// the store well formed: no container row changed and no table shrank.
proof fn lemma_store_wf_same_tables(s1: StoreView, s2: StoreView)
    requires
        store_wf(s1),
        s2.containers == s1.containers,
        s2.text_layers.len() >= s1.text_layers.len(),
        s2.text_bounds_keys.len() == s2.text_layers.len(),
        s2.textures.len() >= s1.textures.len(),
    ensures
        store_wf(s2),
{
    assert forall|c: int, i: int|
        0 <= c < s2.containers.len() && 0 <= i < s2.containers[c].children.len() implies child_wf(
        s2,
        #[trigger] s2.containers[c].children[i],
    ) by {
        assert(child_wf(s1, s1.containers[c].children[i]));
    }
    assert forall|c: int, i: int|
        0 <= c < s2.containers.len() && 0 <= i < s2.containers[c].background_images.len()
        implies image_wf(s2, #[trigger] s2.containers[c].background_images[i]) by {
        assert(image_wf(s1, s1.containers[c].background_images[i]));
    }
}

/// Appending a default container keeps the store well formed: the new row
/// has no children and no background images, and no table shrank.
proof fn lemma_store_wf_same_refs_push(s1: StoreView, s2: StoreView, bounds_key: usize)
    requires
        store_wf(s1),
        s2 == (StoreView { containers: s1.containers.push(default_container(bounds_key)), ..s1 }),
    ensures
        store_wf(s2),
{
    assert forall|c: int, i: int|
        0 <= c < s2.containers.len() && 0 <= i < s2.containers[c].children.len() implies child_wf(
        s2,
        #[trigger] s2.containers[c].children[i],
    ) by {
        assert(c < s1.containers.len());
        assert(child_wf(s1, s1.containers[c].children[i]));
    }
    assert forall|c: int, i: int|
        0 <= c < s2.containers.len() && 0 <= i < s2.containers[c].background_images.len()
        implies image_wf(s2, #[trigger] s2.containers[c].background_images[i]) by {
        assert(c < s1.containers.len());
        assert(image_wf(s1, s1.containers[c].background_images[i]));
    }
}

/// Idempotence of rendering: two successive `render_container` calls with
/// unchanged attributes and an unchanged bounds lookup emit an identical
/// primitive sequence both times. The hypotheses are exactly what
/// `render_container`'s contract gives for two successful calls: rendering
/// leaves the store untouched, so the second call paints the same stream
/// and appends the same rebuild-and-render event pair.
pub proof fn lemma_render_idempotent<RB: RenderBackend>(
    pre: Renderer<RB>,
    mid: Renderer<RB>,
    post: Renderer<RB>,
    container: ContainerId,
    bmap: Seq<Bounds>,
    ops1: Seq<Primitive>,
    ops2: Seq<Primitive>,
)
    requires
        mid.store() == pre.store(),
        mid.root_layer() == pre.root_layer(),
        post.store() == mid.store(),
        post.root_layer() == mid.root_layer(),
        paint_root(pre.store(), container@, bmap) == PaintOutcome::Ops(ops1),
        paint_root(mid.store(), container@, bmap) == PaintOutcome::Ops(ops2),
        mid.backend_events() == pre.backend_events() + seq![
            BackendEventV::RebuildLayer(pre.root_layer(), ops1),
            BackendEventV::RenderLayer(pre.root_layer()),
        ],
        post.backend_events() == mid.backend_events() + seq![
            BackendEventV::RebuildLayer(mid.root_layer(), ops2),
            BackendEventV::RenderLayer(mid.root_layer()),
        ],
    ensures
        ops2 == ops1,
        post.backend_events() == pre.backend_events() + seq![
            BackendEventV::RebuildLayer(pre.root_layer(), ops1),
            BackendEventV::RenderLayer(pre.root_layer()),
        ] + seq![
            BackendEventV::RebuildLayer(pre.root_layer(), ops1),
            BackendEventV::RenderLayer(pre.root_layer()),
        ],
{
}

} // verus!
