//! The mathematical model of the paint traversal: a ghost view of the
//! attribute store, and spec functions giving the exact primitive stream a
//! container subtree paints, in the fixed back-to-front order
//! shadows -> outline -> background color -> background images ->
//! inset shadows -> children -> border.
//!
//! Geometry is computed over unbounded integers; an outcome is `Diverge`
//! where a coordinate would leave the machine range or where the child graph
//! recurses past any depth a cycle-free tree can reach, and `Fail` where a
//! reachable bounds key is missing from the supplied lookup.

use vstd::prelude::*;
use crate::commons::{Bounds, Color, Pos};
use crate::render::backend::{FillStyle, Primitive, TextureId};
use crate::render::value_types::{
    BackgroundImage, Border, BorderRadius, BorderSide, BorderStyle, Child, InsetShadow, Outline,
    OutlineShadow, Overflow, RenderError,
};

verus! {

/// The attributes of one container row, as mathematical values.
#[verifier::ext_equal]
pub struct ContainerView {
    /// Key into the externally owned layout map; set once at creation.
    pub bounds_key: usize,
    /// Ordered children; order is paint / z-order.
    pub children: Seq<Child>,
    /// Advisory overflow behavior.
    pub overflow: Overflow,
    /// Opacity in thousandths (1000 is fully opaque); stored, not yet
    /// consumed by the traversal.
    pub opacity: u16,
    /// Corner radii; stored, not yet consumed by the traversal.
    pub border_radius: Option<BorderRadius>,
    /// Shadows painted outside the box, in list order.
    pub outline_shadows: Seq<OutlineShadow>,
    /// The frame painted outside the box.
    pub outline: Option<Outline>,
    /// The box fill; fully transparent paints nothing.
    pub background_color: Color,
    /// Ordered background images.
    pub background_images: Seq<BackgroundImage>,
    /// Shadows painted inside the box; stored, rendering deferred.
    pub inset_shadows: Seq<InsetShadow>,
    /// Foreground / text tint color.
    pub color: Color,
    /// Four optional border sides painted inside the box edges.
    pub border: Option<Border>,
}

/// The whole attribute store: one row per container, parallel tables for
/// text nodes, and the image-to-texture table.
#[verifier::ext_equal]
pub struct StoreView {
    pub containers: Seq<ContainerView>,
    /// Layout key of each text node.
    pub text_bounds_keys: Seq<usize>,
    /// Backend layer holding each text node's pre-built glyph quads.
    pub text_layers: Seq<crate::render::backend::LayerId>,
    /// Backend texture of each created image.
    pub textures: Seq<TextureId>,
}

/// A store with no rows at all.
pub open spec fn empty_store() -> StoreView {
    StoreView {
        containers: Seq::empty(),
        text_bounds_keys: Seq::empty(),
        text_layers: Seq::empty(),
        textures: Seq::empty(),
    }
}

/// The documented defaults every container starts from.
pub open spec fn default_container(bounds_key: usize) -> ContainerView {
    ContainerView {
        bounds_key,
        children: Seq::empty(),
        overflow: Overflow::Visible,
        opacity: 1000,
        border_radius: None,
        outline_shadows: Seq::empty(),
        outline: None,
        background_color: Color { r: 0, g: 0, b: 0, a: 0 },
        background_images: Seq::empty(),
        inset_shadows: Seq::empty(),
        color: Color { r: 0, g: 0, b: 0, a: 255 },
        border: None,
    }
}

/// Whether a child entry points at an existing row.
pub open spec fn child_wf(s: StoreView, ch: Child) -> bool {
    match ch {
        Child::Container(c) => 0 <= c@ < s.containers.len(),
        Child::Text(t) => 0 <= t@ < s.text_layers.len(),
    }
}

/// Whether a background image entry points at an existing image row.
pub open spec fn image_wf(s: StoreView, bi: BackgroundImage) -> bool {
    match bi {
        BackgroundImage::Image { image } => 0 <= image@ < s.textures.len(),
        _ => true,
    }
}

/// Every stored child and image reference points at an existing row, and
/// the text tables are parallel.
pub open spec fn store_wf(s: StoreView) -> bool {
    &&& s.text_bounds_keys.len() == s.text_layers.len()
    &&& forall|c: int, i: int|
        0 <= c < s.containers.len() && 0 <= i < s.containers[c].children.len() ==> child_wf(
            s,
            #[trigger] s.containers[c].children[i],
        )
    &&& forall|c: int, i: int|
        0 <= c < s.containers.len() && 0 <= i < s.containers[c].background_images.len()
            ==> image_wf(s, #[trigger] s.containers[c].background_images[i])
}

// ------------------------------------------------------------------
// Geometry over unbounded integers.
// ------------------------------------------------------------------

/// Whether a coordinate fits the machine coordinate type.
pub open spec fn au_in_range(x: int) -> bool {
    i64::MIN <= x <= i64::MAX
}

/// The point `(x, y)`; meaningful when both coordinates are in range.
pub open spec fn au_pos(x: int, y: int) -> Pos {
    Pos { x: x as i64, y: y as i64 }
}

/// The box from `(ax, ay)` to `(bx, by)`.
pub open spec fn au_bounds(ax: int, ay: int, bx: int, by: int) -> Bounds {
    Bounds { a: au_pos(ax, ay), b: au_pos(bx, by) }
}

/// `p` translated by `origin`.
pub open spec fn pos_translated(p: Pos, origin: Pos) -> Pos {
    au_pos(p.x + origin.x, p.y + origin.y)
}

/// Whether translating `p` by `origin` stays in range.
pub open spec fn pos_translate_fits(p: Pos, origin: Pos) -> bool {
    au_in_range(p.x + origin.x) && au_in_range(p.y + origin.y)
}

/// `b` translated by `origin`.
pub open spec fn bounds_translated(b: Bounds, origin: Pos) -> Bounds {
    Bounds { a: pos_translated(b.a, origin), b: pos_translated(b.b, origin) }
}

/// Whether translating `b` by `origin` stays in range.
pub open spec fn bounds_translate_fits(b: Bounds, origin: Pos) -> bool {
    pos_translate_fits(b.a, origin) && pos_translate_fits(b.b, origin)
}

// ------------------------------------------------------------------
// Per-phase primitive sequences.
// ------------------------------------------------------------------

/// The rectangle an outline shadow fills: the box inflated uniformly by the
/// shadow's spread.
pub open spec fn shadow_rect(cur: Bounds, sh: OutlineShadow) -> Bounds {
    au_bounds(
        cur.a.x - sh.spread,
        cur.a.y - sh.spread,
        cur.b.x + sh.spread,
        cur.b.y + sh.spread,
    )
}

/// Whether an outline shadow's rectangle stays in range.
pub open spec fn shadow_fits(cur: Bounds, sh: OutlineShadow) -> bool {
    &&& au_in_range(cur.a.x - sh.spread)
    &&& au_in_range(cur.a.y - sh.spread)
    &&& au_in_range(cur.b.x + sh.spread)
    &&& au_in_range(cur.b.y + sh.spread)
}

/// The rectangles of the first `n` outline shadows, in list order. The
/// `blur` field is accepted but not yet rendered.
pub open spec fn shadow_ops_upto(cur: Bounds, shadows: Seq<OutlineShadow>, n: int) -> Seq<
    Primitive,
>
    decreases n,
{
    if n <= 0 {
        Seq::empty()
    } else {
        shadow_ops_upto(cur, shadows, n - 1).push(
            Primitive::Rect(shadow_rect(cur, shadows[n - 1]), FillStyle::SolidColor(
                shadows[n - 1].color,
            )),
        )
    }
}

/// Whether the first `n` outline shadows all stay in range.
pub open spec fn shadows_fit_upto(cur: Bounds, shadows: Seq<OutlineShadow>, n: int) -> bool {
    forall|i: int| 0 <= i < n ==> shadow_fits(cur, #[trigger] shadows[i])
}

/// Whether the four outline rectangles stay in range.
pub open spec fn outline_fits(cur: Bounds, w: i64) -> bool {
    &&& au_in_range(cur.b.x + w)
    &&& au_in_range(cur.a.y - w)
    &&& au_in_range(cur.b.y + w)
    &&& au_in_range(cur.a.x - w)
}

/// The top bar of an outline of width `w`.
pub open spec fn outline_top(cur: Bounds, w: i64) -> Bounds {
    au_bounds(cur.a.x as int, cur.a.y as int, cur.b.x + w, cur.a.y - w)
}

/// The right bar of an outline of width `w`.
pub open spec fn outline_right(cur: Bounds, w: i64) -> Bounds {
    au_bounds(cur.b.x + w, cur.a.y as int, cur.b.x as int, cur.b.y + w)
}

/// The bottom bar of an outline of width `w`.
pub open spec fn outline_bottom(cur: Bounds, w: i64) -> Bounds {
    au_bounds(cur.a.x - w, cur.b.y + w, cur.b.x as int, cur.b.y as int)
}

/// The left bar of an outline of width `w`.
pub open spec fn outline_left(cur: Bounds, w: i64) -> Bounds {
    au_bounds(cur.a.x - w, cur.a.y - w, cur.a.x as int, cur.b.y as int)
}

/// The four rectangles forming a frame outside the box, top, right, bottom,
/// left, each of thickness `o.width`. They deliberately overlap at the
/// corners; overdraw is accepted for solid opaque colors.
pub open spec fn outline_ops(cur: Bounds, o: Outline) -> Seq<Primitive> {
    seq![
        Primitive::Rect(outline_top(cur, o.width), FillStyle::SolidColor(o.color)),
        Primitive::Rect(outline_right(cur, o.width), FillStyle::SolidColor(o.color)),
        Primitive::Rect(outline_bottom(cur, o.width), FillStyle::SolidColor(o.color)),
        Primitive::Rect(outline_left(cur, o.width), FillStyle::SolidColor(o.color)),
    ]
}

/// One rectangle equal to the box when the background color has any alpha;
/// a fully transparent background paints nothing.
pub open spec fn background_ops(cur: Bounds, color: Color) -> Seq<Primitive> {
    if color.a != 0 {
        seq![Primitive::Rect(cur, FillStyle::SolidColor(color))]
    } else {
        Seq::empty()
    }
}

/// The full UV rectangle, `(0, 0)` to `(1, 1)`.
pub open spec fn uv_full() -> Bounds {
    Bounds { a: Pos { x: 0, y: 0 }, b: Pos { x: 1, y: 1 } }
}

/// What one background entry paints: an image covers the full box with the
/// full UV rectangle; gradients are accepted but paint nothing yet.
pub open spec fn image_ops(cur: Bounds, textures: Seq<TextureId>, bi: BackgroundImage) -> Seq<
    Primitive,
> {
    match bi {
        BackgroundImage::Image { image } => seq![
            Primitive::Rect(cur, FillStyle::Texture(textures[image@], uv_full())),
        ],
        BackgroundImage::LinearGradient => Seq::empty(),
        BackgroundImage::RadialGradient => Seq::empty(),
    }
}

/// What the first `n` background entries paint, in list order.
pub open spec fn image_ops_upto(
    cur: Bounds,
    textures: Seq<TextureId>,
    images: Seq<BackgroundImage>,
    n: int,
) -> Seq<Primitive>
    decreases n,
{
    if n <= 0 {
        Seq::empty()
    } else {
        image_ops_upto(cur, textures, images, n - 1) + image_ops(cur, textures, images[n - 1])
    }
}

/// The top border bar: inside the box's top edge, of the side's width.
pub open spec fn border_top_rect(cur: Bounds, w: i64) -> Bounds {
    au_bounds(cur.a.x as int, cur.a.y as int, cur.b.x as int, cur.a.y + w)
}

/// The right border bar: inside the box's right edge.
pub open spec fn border_right_rect(cur: Bounds, w: i64) -> Bounds {
    au_bounds(cur.b.x - w, cur.a.y as int, cur.b.x as int, cur.b.y as int)
}

/// The bottom border bar: inside the box's bottom edge.
pub open spec fn border_bottom_rect(cur: Bounds, w: i64) -> Bounds {
    au_bounds(cur.a.x as int, cur.b.y - w, cur.b.x as int, cur.b.y as int)
}

/// The left border bar: inside the box's left edge.
pub open spec fn border_left_rect(cur: Bounds, w: i64) -> Bounds {
    au_bounds(cur.a.x as int, cur.a.y as int, cur.a.x + w, cur.b.y as int)
}

/// What one border side paints: one rectangle when present with a `Solid`
/// style, nothing otherwise.
pub open spec fn border_side_ops(side: Option<BorderSide>, rect: Bounds) -> Seq<Primitive> {
    match side {
        Some(s) => if s.style == BorderStyle::Solid {
            seq![Primitive::Rect(rect, FillStyle::SolidColor(s.color))]
        } else {
            Seq::empty()
        },
        None => Seq::empty(),
    }
}

/// What a whole border paints: each side independently, in top, right,
/// bottom, left order. The border occupies the box's own edge thickness
/// (it behaves like inset padding rather than an added frame).
pub open spec fn border_ops(cur: Bounds, b: Border) -> Seq<Primitive> {
    border_side_ops(b.top, border_top_rect(cur, border_side_width(b.top)))
        + border_side_ops(b.right, border_right_rect(cur, border_side_width(b.right)))
        + border_side_ops(b.bottom, border_bottom_rect(cur, border_side_width(b.bottom)))
        + border_side_ops(b.left, border_left_rect(cur, border_side_width(b.left)))
}

/// The width of an optional border side, zero when absent.
pub open spec fn border_side_width(side: Option<BorderSide>) -> i64 {
    match side {
        Some(s) => s.width,
        None => 0,
    }
}

/// Whether every drawn border bar stays in range.
pub open spec fn border_fits(cur: Bounds, b: Border) -> bool {
    &&& match b.top {
        Some(s) => s.style == BorderStyle::Solid ==> au_in_range(cur.a.y + s.width),
        None => true,
    }
    &&& match b.right {
        Some(s) => s.style == BorderStyle::Solid ==> au_in_range(cur.b.x - s.width),
        None => true,
    }
    &&& match b.bottom {
        Some(s) => s.style == BorderStyle::Solid ==> au_in_range(cur.b.y - s.width),
        None => true,
    }
    &&& match b.left {
        Some(s) => s.style == BorderStyle::Solid ==> au_in_range(cur.a.x + s.width),
        None => true,
    }
}

// ------------------------------------------------------------------
// The traversal outcome and its composition.
// ------------------------------------------------------------------

/// What painting a subtree yields: an ordered primitive stream, a hard
/// error, or divergence (a coordinate out of machine range, or recursion
/// past any depth a cycle-free tree can reach).
#[verifier::ext_equal]
pub enum PaintOutcome {
    Ops(Seq<Primitive>),
    Fail(RenderError),
    Diverge,
}

/// Sequential composition: the second phase's primitives follow the first's;
/// the first failure or divergence, in paint order, wins.
pub open spec fn po_then(first: PaintOutcome, second: PaintOutcome) -> PaintOutcome {
    match first {
        PaintOutcome::Ops(s1) => match second {
            PaintOutcome::Ops(s2) => PaintOutcome::Ops(s1 + s2),
            _ => second,
        },
        _ => first,
    }
}

/// A phase that paints `ops` when its geometry stays in range and diverges
/// otherwise.
pub open spec fn po_if_fits(fits: bool, ops: Seq<Primitive>) -> PaintOutcome {
    if fits {
        PaintOutcome::Ops(ops)
    } else {
        PaintOutcome::Diverge
    }
}

/// Everything a container paints before its children: its outline shadows,
/// outline, background color and background images. Inset shadows are
/// accepted but paint nothing yet.
pub open spec fn own_ops_before_children(
    cur: Bounds,
    cv: ContainerView,
    textures: Seq<TextureId>,
) -> PaintOutcome {
    po_then(
        po_if_fits(
            shadows_fit_upto(cur, cv.outline_shadows, cv.outline_shadows.len() as int),
            shadow_ops_upto(cur, cv.outline_shadows, cv.outline_shadows.len() as int),
        ),
        po_then(
            match cv.outline {
                Some(o) => po_if_fits(outline_fits(cur, o.width), outline_ops(cur, o)),
                None => PaintOutcome::Ops(Seq::empty()),
            },
            po_then(
                PaintOutcome::Ops(background_ops(cur, cv.background_color)),
                PaintOutcome::Ops(
                    image_ops_upto(
                        cur,
                        textures,
                        cv.background_images,
                        cv.background_images.len() as int,
                    ),
                ),
            ),
        ),
    )
}

/// What a container's border paints after its children.
pub open spec fn border_outcome(cur: Bounds, border: Option<Border>) -> PaintOutcome {
    match border {
        Some(b) => po_if_fits(border_fits(cur, b), border_ops(cur, b)),
        None => PaintOutcome::Ops(Seq::empty()),
    }
}

/// What the container at row `c` paints into the box `cur`: its own layers
/// back to front, its children in list order, then its border.
pub open spec fn paint_container(
    s: StoreView,
    c: int,
    bmap: Seq<Bounds>,
    cur: Bounds,
    fuel: nat,
) -> PaintOutcome
    decreases fuel, 1int, 0int,
{
    let cv = s.containers[c];
    po_then(
        own_ops_before_children(cur, cv, s.textures),
        po_then(
            paint_children(s, cv.children, cv.children.len() as int, bmap, cur, fuel),
            border_outcome(cur, cv.border),
        ),
    )
}

/// What the first `n` children paint, in list order. Every sibling is
/// evaluated against the same parent box `cur`: translation never leaks
/// across siblings.
pub open spec fn paint_children(
    s: StoreView,
    children: Seq<Child>,
    n: int,
    bmap: Seq<Bounds>,
    cur: Bounds,
    fuel: nat,
) -> PaintOutcome
    decreases fuel, 0int, n,
{
    if n <= 0 {
        PaintOutcome::Ops(Seq::empty())
    } else {
        po_then(
            paint_children(s, children, n - 1, bmap, cur, fuel),
            paint_child(s, children[n - 1], bmap, cur, fuel),
        )
    }
}

/// What one child paints. A container child's box is its own layout value
/// translated by the parent box's origin, and it is painted recursively; a
/// text child emits one reference to its pre-built layer, positioned at its
/// layout origin translated by the parent box's origin.
pub open spec fn paint_child(
    s: StoreView,
    ch: Child,
    bmap: Seq<Bounds>,
    cur: Bounds,
    fuel: nat,
) -> PaintOutcome
    decreases fuel, 0int, 0int,
{
    match ch {
        Child::Container(child_id) => {
            let key = s.containers[child_id@].bounds_key;
            if key >= bmap.len() {
                PaintOutcome::Fail(RenderError::MissingBoundsKey)
            } else if !bounds_translate_fits(bmap[key as int], cur.a) {
                PaintOutcome::Diverge
            } else if fuel == 0 {
                PaintOutcome::Diverge
            } else {
                paint_container(
                    s,
                    child_id@,
                    bmap,
                    bounds_translated(bmap[key as int], cur.a),
                    (fuel - 1) as nat,
                )
            }
        },
        Child::Text(text_id) => {
            let key = s.text_bounds_keys[text_id@];
            if key >= bmap.len() {
                PaintOutcome::Fail(RenderError::MissingBoundsKey)
            } else if !pos_translate_fits(bmap[key as int].a, cur.a) {
                PaintOutcome::Diverge
            } else {
                PaintOutcome::Ops(
                    seq![
                        Primitive::LayerRef(
                            s.text_layers[text_id@],
                            pos_translated(bmap[key as int].a, cur.a),
                        ),
                    ],
                )
            }
        },
    }
}

/// Fuel that any cycle-free child graph stays within: a chain of distinct
/// containers can recurse at most once per stored row.
pub open spec fn paint_fuel(s: StoreView) -> nat {
    s.containers.len()
}

/// What one render call starting at container `c` paints: the root box is
/// its layout value untranslated. An out-of-range handle or a missing root
/// key fails before anything is painted.
pub open spec fn paint_root(s: StoreView, c: int, bmap: Seq<Bounds>) -> PaintOutcome {
    if c < 0 || c >= s.containers.len() {
        PaintOutcome::Fail(RenderError::InvalidHandle)
    } else {
        let key = s.containers[c].bounds_key;
        if key >= bmap.len() {
            PaintOutcome::Fail(RenderError::MissingBoundsKey)
        } else {
            paint_container(s, c, bmap, bmap[key as int], paint_fuel(s))
        }
    }
}

/// The primitive stream of an `Ops` outcome, the empty stream otherwise.
pub open spec fn po_ops(o: PaintOutcome) -> Seq<Primitive> {
    match o {
        PaintOutcome::Ops(ops) => ops,
        _ => Seq::empty(),
    }
}

/// Once a child prefix has failed or diverged, every longer prefix yields
/// the same outcome: the first failure, in paint order, wins.
pub proof fn lemma_children_extend(
    s: StoreView,
    children: Seq<Child>,
    i: int,
    n: int,
    bmap: Seq<Bounds>,
    cur: Bounds,
    fuel: nat,
)
    requires
        0 <= i <= n,
        !(paint_children(s, children, i, bmap, cur, fuel) is Ops),
    ensures
        paint_children(s, children, n, bmap, cur, fuel) == paint_children(
            s,
            children,
            i,
            bmap,
            cur,
            fuel,
        ),
    decreases n - i,
{
    if i < n {
        lemma_children_extend(s, children, i, n - 1, bmap, cur, fuel);
    }
}

/// A child list with every entry structurally equal to `child` removed.
pub open spec fn removed_children(children: Seq<Child>, child: Child) -> Seq<Child> {
    children.filter(|ch: Child| ch != child)
}

/// The monospace glyph quads a text string lays out: one fixed-size quad
/// per character, left to right with a fixed advance, tinted white.
pub open spec fn glyph_ops(text: Seq<char>) -> Seq<Primitive> {
    Seq::new(
        text.len(),
        |i: int| Primitive::Rect(
            au_bounds(15 * i, 0, 15 * i + 12, 20),
            FillStyle::SolidColor(Color { r: 255, g: 255, b: 255, a: 255 }),
        ),
    )
}

// ------------------------------------------------------------------
// Laws: what the paint order guarantees, for every input.
// ------------------------------------------------------------------

/// A container with no attributes set paints nothing at all, into any box,
/// against any bounds lookup and with any fuel.
pub proof fn lemma_default_paints_nothing(
    s: StoreView,
    c: int,
    bmap: Seq<Bounds>,
    cur: Bounds,
    fuel: nat,
)
    requires
        0 <= c < s.containers.len(),
        s.containers[c] == default_container(s.containers[c].bounds_key),
    ensures
        paint_container(s, c, bmap, cur, fuel) == PaintOutcome::Ops(Seq::<Primitive>::empty()),
{
    let cv = s.containers[c];
    assert(shadow_ops_upto(cur, cv.outline_shadows, 0) == Seq::<Primitive>::empty());
    assert(image_ops_upto(cur, s.textures, cv.background_images, 0) == Seq::<Primitive>::empty());
    assert(paint_children(s, cv.children, 0, bmap, cur, fuel) == PaintOutcome::Ops(
        Seq::<Primitive>::empty(),
    ));
    assert(paint_container(s, c, bmap, cur, fuel) =~= PaintOutcome::Ops(
        Seq::<Primitive>::empty(),
    ));
}

/// A whole render call on a container with no attributes set paints no
/// primitive at all: together with the renderer's contract, such a call
/// amounts to exactly one rebuild of the root layer with an empty stream
/// followed by one draw of it.
pub proof fn lemma_default_render_paints_nothing(s: StoreView, c: int, bmap: Seq<Bounds>)
    requires
        0 <= c < s.containers.len(),
        s.containers[c] == default_container(s.containers[c].bounds_key),
        s.containers[c].bounds_key < bmap.len(),
    ensures
        paint_root(s, c, bmap) == PaintOutcome::Ops(Seq::<Primitive>::empty()),
{
    let key = s.containers[c].bounds_key;
    lemma_default_paints_nothing(s, c, bmap, bmap[key as int], paint_fuel(s));
}

/// A fully transparent background paints no rectangle; any alpha paints
/// exactly one rectangle equal to the box, filled with that color.
pub proof fn lemma_background_color(cur: Bounds, color: Color)
    ensures
        color.a == 0 ==> background_ops(cur, color) == Seq::<Primitive>::empty(),
        color.a != 0 ==> background_ops(cur, color) == seq![
            Primitive::Rect(cur, FillStyle::SolidColor(color)),
        ],
{
}

/// A container child is painted into its own layout box translated by the
/// parent box's origin: translation composes additively with the
/// accumulated origin.
pub proof fn lemma_container_child_box(
    s: StoreView,
    child_id: int,
    bmap: Seq<Bounds>,
    cur: Bounds,
    fuel: nat,
    ch: Child,
)
    requires
        ch == Child::Container(ch->Container_0),
        ch->Container_0@ == child_id,
        0 <= child_id < s.containers.len(),
        s.containers[child_id].bounds_key < bmap.len(),
        bounds_translate_fits(bmap[s.containers[child_id].bounds_key as int], cur.a),
        fuel > 0,
    ensures
        paint_child(s, ch, bmap, cur, fuel) == paint_container(
            s,
            child_id,
            bmap,
            bounds_translated(bmap[s.containers[child_id].bounds_key as int], cur.a),
            (fuel - 1) as nat,
        ),
{
}

/// Siblings never see each other's translation: the first `n` children are
/// each evaluated against the same parent box `cur`, the next child's
/// outcome being appended to the prefix's.
pub proof fn lemma_sibling_isolation(
    s: StoreView,
    children: Seq<Child>,
    n: int,
    bmap: Seq<Bounds>,
    cur: Bounds,
    fuel: nat,
)
    requires
        1 <= n,
    ensures
        paint_children(s, children, n, bmap, cur, fuel) == po_then(
            paint_children(s, children, n - 1, bmap, cur, fuel),
            paint_child(s, children[n - 1], bmap, cur, fuel),
        ),
{
}

/// A border with only its top side set, solid, paints exactly one
/// rectangle: the bar inside the box's top edge of that side's width.
pub proof fn lemma_border_top_only(cur: Bounds, side: BorderSide)
    requires
        side.style == BorderStyle::Solid,
    ensures
        border_ops(cur, (Border { top: Some(side), right: None, bottom: None, left: None }))
            == seq![
            Primitive::Rect(
                border_top_rect(cur, side.width),
                FillStyle::SolidColor(side.color),
            ),
        ],
{
    let b = Border { top: Some(side), right: None, bottom: None, left: None };
    assert(border_ops(cur, b) =~= seq![
        Primitive::Rect(border_top_rect(cur, side.width), FillStyle::SolidColor(side.color)),
    ]);
}

/// A border with all four sides set, solid, paints exactly four rectangles,
/// one bar inside each box edge, in top, right, bottom, left order.
pub proof fn lemma_border_all_sides(
    cur: Bounds,
    top: BorderSide,
    right: BorderSide,
    bottom: BorderSide,
    left: BorderSide,
)
    requires
        top.style == BorderStyle::Solid,
        right.style == BorderStyle::Solid,
        bottom.style == BorderStyle::Solid,
        left.style == BorderStyle::Solid,
    ensures
        border_ops(
            cur,
            (Border { top: Some(top), right: Some(right), bottom: Some(bottom), left: Some(left) }),
        ) == seq![
            Primitive::Rect(border_top_rect(cur, top.width), FillStyle::SolidColor(top.color)),
            Primitive::Rect(
                border_right_rect(cur, right.width),
                FillStyle::SolidColor(right.color),
            ),
            Primitive::Rect(
                border_bottom_rect(cur, bottom.width),
                FillStyle::SolidColor(bottom.color),
            ),
            Primitive::Rect(border_left_rect(cur, left.width), FillStyle::SolidColor(left.color)),
        ],
{
    let b = Border { top: Some(top), right: Some(right), bottom: Some(bottom), left: Some(left) };
    assert(border_ops(cur, b) =~= seq![
        Primitive::Rect(border_top_rect(cur, top.width), FillStyle::SolidColor(top.color)),
        Primitive::Rect(border_right_rect(cur, right.width), FillStyle::SolidColor(right.color)),
        Primitive::Rect(
            border_bottom_rect(cur, bottom.width),
            FillStyle::SolidColor(bottom.color),
        ),
        Primitive::Rect(border_left_rect(cur, left.width), FillStyle::SolidColor(left.color)),
    ]);
}

} // verus!
