//! The build context and the inline-flow rule.
//!
//! A build pass threads a `BuildContext` through a subtree: the
//! parent's resolved box, the flow cursor for inline placement, the
//! running line height, and the draw-order counter.

use vstd::prelude::*;

use crate::element::height;
use crate::element::lemma_seq_height_bound;
use crate::element::lemma_seq_view_index;
use crate::element::lemma_seq_wf_index;
use crate::element::seq_height;
use crate::element::seq_view;
use crate::element::seq_wf;
use crate::element::spec_effective_style_v;
use crate::element::wf;
use crate::element::ElemV;
use crate::element::UiElement;
use crate::element::UiType;
use crate::element::UiTypeV;
use crate::font::Font;
use crate::formats::RGBA;
use crate::instance::RawUiElement;
use crate::instance::MODE_BOX;
use crate::instance::MODE_IMAGE;
use crate::px::px_add;
use crate::px::px_sub;
use crate::px::sat64;
use crate::style::Position;
use crate::style::Style;
use crate::style::UiSize;
use crate::text::spec_build_text_elem;
use crate::vec2::Vec2;

verus! {

/// Per-pass mutable state threaded through one subtree.
#[derive(Debug, Clone, Copy, PartialEq, Eq, Structural)]
pub struct BuildContext {
    /// The resolved size of the surrounding box.
    pub parent_size: Vec2,
    /// The absolute position of the surrounding box.
    pub parent_pos: Vec2,
    /// The inline-flow cursor, relative to the parent.
    pub start_pos: Vec2,
    /// The height of the current flow line.
    pub line_offset: i64,
    /// The draw-order index the next element receives.
    pub order: u32,
}

impl BuildContext {
    /// The context a full pass starts from: the viewport as parent.
    pub fn root(parent_size: Vec2) -> (r: BuildContext)
        ensures
            r == BuildContext::spec_root(parent_size),
    {
        BuildContext {
            parent_size,
            parent_pos: Vec2 { x: 0, y: 0 },
            start_pos: Vec2 { x: 0, y: 0 },
            line_offset: 0,
            order: 0,
        }
    }

    pub open spec fn spec_root(parent_size: Vec2) -> BuildContext {
        BuildContext {
            parent_size,
            parent_pos: Vec2 { x: 0i64, y: 0i64 },
            start_pos: Vec2 { x: 0i64, y: 0i64 },
            line_offset: 0i64,
            order: 0u32,
        }
    }

    /// The fresh context a parent hands to its children.
    pub open spec fn spec_child(parent_size: Vec2, parent_pos: Vec2) -> BuildContext {
        BuildContext {
            parent_size,
            parent_pos,
            start_pos: Vec2 { x: 0i64, y: 0i64 },
            line_offset: 0i64,
            order: 0u32,
        }
    }

    pub fn new_from(parent_size: Vec2, parent_pos: Vec2) -> (r: BuildContext)
        ensures
            r == BuildContext::spec_child(parent_size, parent_pos),
    {
        BuildContext {
            parent_size,
            parent_pos,
            start_pos: Vec2 { x: 0, y: 0 },
            line_offset: 0,
            order: 0,
        }
    }

    /// Whether a box of outer width `w` still fits on the current line.
    pub open spec fn spec_fits(self, w: int) -> bool {
        self.parent_size.x - self.start_pos.x >= w
    }

    /// The flow rule applied to a box: the updated context and the
    /// box's position within the parent.
    pub open spec fn spec_flow(self, pos: Vec2, outer: Vec2) -> (BuildContext, Vec2) {
        if self.spec_fits(outer.x as int) {
            let npos = pos.spec_plus(self.start_pos);
            let nctx = BuildContext {
                line_offset: if self.line_offset >= outer.y {
                    self.line_offset
                } else {
                    outer.y
                },
                start_pos: Vec2 { x: sat64(self.start_pos.x + outer.x) as i64, ..self.start_pos },
                ..self
            };
            (nctx, npos)
        } else {
            let ny = sat64(self.start_pos.y + self.line_offset) as i64;
            let npos = Vec2 { x: pos.x, y: sat64(pos.y + ny) as i64 };
            let nctx = BuildContext {
                line_offset: outer.y,
                start_pos: Vec2 { x: outer.x, y: ny },
                ..self
            };
            (nctx, npos)
        }
    }

    /// Places a box of the given outer extent at the flow cursor,
    /// advancing the cursor; wraps to a new line first when the
    /// remaining width of the current line is exhausted. Returns
    /// whether the box fitted on the line it was offered.
    pub fn fits_in_line(&mut self, pos: &mut Vec2, size: &Vec2) -> (fit: bool)
        ensures
            fit == old(self).spec_fits(size.x as int),
            (*final(self), *final(pos)) == old(self).spec_flow(*old(pos), *size),
    {
        if (self.parent_size.x as i128) - (self.start_pos.x as i128) >= (size.x as i128) {
            *pos = pos.plus(&self.start_pos);
            if self.line_offset < size.y {
                self.line_offset = size.y;
            }
            self.start_pos.x = px_add(self.start_pos.x, size.x);
            true
        } else {
            self.start_pos.y = px_add(self.start_pos.y, self.line_offset);
            pos.y = px_add(pos.y, self.start_pos.y);
            self.line_offset = size.y;
            self.start_pos.x = size.x;
            false
        }
    }
}

/// The draw-order counter stepped past one element.
pub open spec fn spec_ord_inc(o: u32) -> u32 {
    if o == u32::MAX {
        o
    } else {
        (o + 1) as u32
    }
}

/// Steps the draw-order counter past one element.
pub fn ord_inc(o: u32) -> (r: u32)
    ensures
        r == spec_ord_inc(o),
{
    if o == u32::MAX {
        o
    } else {
        o + 1
    }
}

/// The resolved box of a non-text element: its size, its absolute
/// position, and the context left behind. An absolute element is
/// anchored against the parent and leaves the flow untouched; an
/// inline element resolves its size against the margin-reduced parent
/// and takes the next flow slot.
pub open spec fn spec_box_geometry(style: Style, ctx: BuildContext) -> (Vec2, Vec2, BuildContext) {
    match style.position {
        Position::Absolute(abs) => {
            let size = Vec2 {
                x: style.width.spec_width(ctx.parent_size) as i64,
                y: style.height.spec_height(ctx.parent_size) as i64,
            };
            let off = Vec2 {
                x: abs.x.spec_pixelx(ctx.parent_size) as i64,
                y: abs.y.spec_pixely(ctx.parent_size) as i64,
            };
            let rel = abs.align.spec_get_pos(ctx.parent_size, size, off);
            (size, rel.spec_plus(ctx.parent_pos), ctx)
        },
        Position::Inline(inl) => {
            let ml = inl.margin.left.spec_pixelx(ctx.parent_size);
            let mt = inl.margin.top.spec_pixely(ctx.parent_size);
            let mr = inl.margin.right.spec_pixelx(ctx.parent_size);
            let mb = inl.margin.bottom.spec_pixely(ctx.parent_size);
            let space = Vec2 {
                x: sat64(ctx.parent_size.x - sat64(ml + mr)) as i64,
                y: sat64(ctx.parent_size.y - sat64(mt + mb)) as i64,
            };
            let size = Vec2 {
                x: style.width.spec_width(space) as i64,
                y: style.height.spec_height(space) as i64,
            };
            let pos0 = Vec2 { x: ml as i64, y: mt as i64 };
            let outer = Vec2 { x: sat64(size.x + mr) as i64, y: sat64(size.y + mb) as i64 };
            let fl = ctx.spec_flow(pos0, outer);
            (size, fl.1.spec_plus(ctx.parent_pos), fl.0)
        },
    }
}

/// The paint of a non-text element: images carry their index in the
/// red channel and draw in image mode.
pub open spec fn spec_box_paint(e: ElemV, est: Style) -> (RGBA, u32) {
    match e.inherit {
        UiTypeV::Image(im) => (RGBA { r: im.index, g: 0u8, b: 0u8, a: 0u8 }, MODE_IMAGE),
        _ => (est.color, MODE_BOX),
    }
}

/// One element fully built under `ctx`: every computed layout in the
/// subtree is recomputed from the styles, every dirty flag cleared,
/// and the flow context advanced past the element.
pub open spec fn spec_build(e: ElemV, ctx: BuildContext, font: Font) -> (ElemV, BuildContext)
    decreases height(e), 0nat,
{
    match e.inherit {
        UiTypeV::Text(t) => spec_build_text_elem(e, t, ctx, font),
        _ => {
            let est = spec_effective_style_v(e);
            let g = spec_box_geometry(est, ctx);
            let size = g.0;
            let pos = g.1;
            let ctx1 = g.2;
            let paint = spec_box_paint(e, est);
            let comp = RawUiElement {
                color: paint.0,
                border_color: est.border_color,
                border: est.border,
                pos,
                size,
                corner: est.corner.spec_pixelx(size) as i64,
                mode: paint.1,
                order: ctx.order,
            };
            let content_size = Vec2 {
                x: sat64(size.x - est.padding.spec_x(size)) as i64,
                y: sat64(size.y - est.padding.spec_y(size)) as i64,
            };
            let content_pos = pos.spec_plus(est.padding.spec_start(size));
            let sb = spec_build_seq(
                e.childs,
                BuildContext::spec_child(content_size, content_pos),
                font,
            );
            let childs1 = sb.0;
            let cctx1 = sb.1;
            let fsize = Vec2 {
                x: if est.width is Auto {
                    cctx1.start_pos.x
                } else {
                    size.x
                },
                y: if est.height is Auto {
                    sat64(cctx1.start_pos.y + cctx1.line_offset) as i64
                } else {
                    size.y
                },
            };
            (
                ElemV {
                    dirty: false,
                    computed: RawUiElement { size: fsize, ..comp },
                    childs: childs1,
                    ..e
                },
                ctx1,
            )
        },
    }
}

/// A sequence of siblings built in order under one shared context,
/// the draw-order counter stepped past each.
pub open spec fn spec_build_seq(s: Seq<ElemV>, ctx: BuildContext, font: Font) -> (
    Seq<ElemV>,
    BuildContext,
)
    decreases seq_height(s), s.len(),
    via spec_build_seq_dec
{
    if s.len() == 0 {
        (Seq::empty(), ctx)
    } else {
        let r = spec_build_seq(s.drop_last(), ctx, font);
        let b = spec_build(s.last(), r.1, font);
        (r.0.push(b.0), BuildContext { order: spec_ord_inc(b.1.order), ..b.1 })
    }
}

#[via_fn]
proof fn spec_build_seq_dec(s: Seq<ElemV>, ctx: BuildContext, font: Font) {
    if s.len() > 0 {
        lemma_seq_height_drop_last(s);
        lemma_seq_height_bound(s, s.len() - 1);
    }
}

/// One step of building a sibling sequence: building the next child
/// under the context the prefix left behind extends the built prefix.
#[verifier::rlimit(100)]
#[verifier::spinoff_prover]
pub proof fn lemma_build_seq_step(
    old_cv: Seq<ElemV>,
    i: int,
    cctx0: BuildContext,
    font: Font,
    pre_views: Seq<ElemV>,
    post_views: Seq<ElemV>,
    cpre: BuildContext,
    cpost: BuildContext,
)
    requires
        0 <= i < old_cv.len(),
        pre_views.len() == old_cv.len(),
        post_views.len() == old_cv.len(),
        pre_views.take(i) == spec_build_seq(old_cv.take(i), cctx0, font).0,
        cpre == spec_build_seq(old_cv.take(i), cctx0, font).1,
        forall|j: int| 0 <= j < i ==> post_views[j] == pre_views[j],
        post_views[i] == spec_build(old_cv[i], cpre, font).0,
        cpost == (BuildContext {
            order: spec_ord_inc(spec_build(old_cv[i], cpre, font).1.order),
            ..spec_build(old_cv[i], cpre, font).1
        }),
    ensures
        post_views.take(i + 1) == spec_build_seq(old_cv.take(i + 1), cctx0, font).0,
        cpost == spec_build_seq(old_cv.take(i + 1), cctx0, font).1,
{
    assert(old_cv.take(i + 1).drop_last() =~= old_cv.take(i));
    assert(old_cv.take(i + 1).last() == old_cv[i]);
    assert(post_views.take(i) =~= pre_views.take(i));
    assert(post_views.take(i + 1) =~= post_views.take(i).push(post_views[i]));
}

/// Dropping the last subtree cannot raise the maximum height.
pub proof fn lemma_seq_height_drop_last(s: Seq<ElemV>)
    requires
        s.len() > 0,
    ensures
        seq_height(s.drop_last()) <= seq_height(s),
    decreases s.len(),
{
    if s.len() == 1 {
        assert(s.drop_last() =~= Seq::<ElemV>::empty());
    } else {
        lemma_seq_height_drop_last(s.drop_first());
        assert(s.drop_last().drop_first() =~= s.drop_first().drop_last());
        assert(s.drop_last()[0] == s[0]);
    }
}

impl UiElement {
    /// Lays out this subtree under `context`: recomputes every
    /// computed layout from the styles, clears every dirty flag, and
    /// advances the flow context past this element.
    #[verifier::rlimit(100)]
    pub fn build(&mut self, context: &mut BuildContext, font: &Font)
        requires
            wf(old(self)@),
            font.wf(),
        ensures
            final(self)@ == spec_build(old(self)@, *old(context), *font).0,
            *final(context) == spec_build(old(self)@, *old(context), *font).1,
        decreases height(self@),
    {
        let ghost e0 = self@;
        let ghost ctx0 = *context;
        let is_text = match &self.inherit {
            UiType::Text(_) => true,
            _ => false,
        };
        if is_text {
            proof {
                reveal(crate::text::spec_build_text_elem);
            }
            let rel = context.start_pos;
            let pos = rel.plus(&context.parent_pos);
            self.computed.color = self.style.color;
            self.computed.border_color = self.style.border_color;
            self.computed.border = self.style.border;
            self.computed.pos = pos;
            self.computed.order = context.order;
            match &mut self.inherit {
                UiType::Text(t) => {
                    t.build_text(&self.style, pos, context, font);
                },
                _ => {},
            }
            self.computed.size = Vec2 {
                x: px_sub(context.start_pos.x, rel.x),
                y: px_add(px_sub(context.start_pos.y, rel.y), context.line_offset),
            };
            self.dirty = false;
            return ;
        }
        let est = self.effective_style();
        proof {
            assert(est == spec_effective_style_v(e0));
        }
        let mut size: Vec2 = Vec2 { x: 0, y: 0 };
        let mut pos: Vec2 = Vec2 { x: 0, y: 0 };
        match &est.position {
            Position::Absolute(abs) => {
                size = Vec2 {
                    x: est.width.width(context.parent_size),
                    y: est.height.height(context.parent_size),
                };
                let off = Vec2 {
                    x: abs.x.pixelx(context.parent_size),
                    y: abs.y.pixely(context.parent_size),
                };
                pos = abs.align.get_pos(context.parent_size, size, off);
            },
            Position::Inline(inl) => {
                let ml = inl.margin.left.pixelx(context.parent_size);
                let mt = inl.margin.top.pixely(context.parent_size);
                let mr = inl.margin.right.pixelx(context.parent_size);
                let mb = inl.margin.bottom.pixely(context.parent_size);
                let space = Vec2 {
                    x: px_sub(context.parent_size.x, px_add(ml, mr)),
                    y: px_sub(context.parent_size.y, px_add(mt, mb)),
                };
                size = Vec2 { x: est.width.width(space), y: est.height.height(space) };
                pos = Vec2 { x: ml, y: mt };
                let outer = Vec2 { x: px_add(size.x, mr), y: px_add(size.y, mb) };
                context.fits_in_line(&mut pos, &outer);
            },
        }
        pos = pos.plus(&context.parent_pos);
        let paint: (RGBA, u32) = match &self.inherit {
            UiType::Image(im) => (RGBA { r: im.index, g: 0, b: 0, a: 0 }, MODE_IMAGE),
            _ => (est.color, MODE_BOX),
        };
        self.computed = RawUiElement {
            color: paint.0,
            border_color: est.border_color,
            border: est.border,
            pos,
            size,
            corner: est.corner.pixelx(size),
            mode: paint.1,
            order: context.order,
        };
        let content_size = Vec2 {
            x: px_sub(size.x, est.padding.x(size)),
            y: px_sub(size.y, est.padding.y(size)),
        };
        let content_pos = pos.plus(&est.padding.start(size));
        let mut cctx = BuildContext::new_from(content_size, content_pos);
        let ghost cctx0 = cctx;
        let ghost old_cv = e0.childs;
        let ghost comp0 = self.computed;
        proof {
            lemma_seq_view_index(self.childs@);
        }
        let n = self.childs.len();
        let mut i: usize = 0;
        while i < n
            invariant
                i <= n,
                n == self.childs@.len(),
                old_cv.len() == n,
                e0 == old(self)@,
                old_cv == e0.childs,
                self.style == old(self).style,
                self.visible == old(self).visible,
                self.inherit == old(self).inherit,
                self.computed == comp0,
                font.wf(),
                seq_wf(old_cv),
                forall|j: int| i <= j < n ==> self.childs@[j] == old(self).childs@[j],
                forall|j: int| 0 <= j < n ==> old_cv[j] == #[trigger] old(self).childs@[j]@,
                seq_view(self.childs@).take(i as int) == spec_build_seq(
                    old_cv.take(i as int),
                    cctx0,
                    *font,
                ).0,
                cctx == spec_build_seq(old_cv.take(i as int), cctx0, *font).1,
            decreases n - i,
        {
            proof {
                lemma_seq_view_index(self.childs@);
                assert(self.childs@[i as int]@ == old_cv[i as int]);
                lemma_seq_wf_index(old_cv, i as int);
                lemma_seq_height_bound(old_cv, i as int);
                assert(height(e0) == 1 + seq_height(e0.childs));
                assert(height(old_cv[i as int]) < height(e0));
            }
            let ghost pre_childs = self.childs@;
            let ghost cpre = cctx;
            let child = &mut self.childs[i];
            child.build(&mut cctx, font);
            cctx.order = ord_inc(cctx.order);
            proof {
                lemma_seq_view_index(pre_childs);
                lemma_seq_view_index(self.childs@);
                assert forall|j: int| 0 <= j < i implies seq_view(self.childs@)[j] == seq_view(
                    pre_childs,
                )[j] by {
                    assert(self.childs@[j] == pre_childs[j]);
                    assert(seq_view(self.childs@)[j] == self.childs@[j]@);
                    assert(seq_view(pre_childs)[j] == pre_childs[j]@);
                }
                lemma_build_seq_step(
                    old_cv,
                    i as int,
                    cctx0,
                    *font,
                    seq_view(pre_childs),
                    seq_view(self.childs@),
                    cpre,
                    cctx,
                );
            }
            i = i + 1;
        }
        proof {
            assert(old_cv.take(n as int) =~= old_cv);
            lemma_seq_view_index(self.childs@);
            assert(seq_view(self.childs@).take(n as int) =~= seq_view(self.childs@));
        }
        let mut fsize = size;
        let wauto = match est.width {
            UiSize::Auto => true,
            _ => false,
        };
        let hauto = match est.height {
            UiSize::Auto => true,
            _ => false,
        };
        if wauto {
            fsize.x = cctx.start_pos.x;
        }
        if hauto {
            fsize.y = px_add(cctx.start_pos.y, cctx.line_offset);
        }
        self.computed.size = fsize;
        self.dirty = false;
        proof {
            let sb = spec_build(e0, ctx0, *font);
            assert(self@.computed == sb.0.computed);
            assert(self@.childs =~= sb.0.childs);
            assert(self@ =~= sb.0);
            assert(*context == sb.1);
        }
    }
}

} // verus!
