//! Lazy re-layout and draw-instance emission.
//!
//! Before instances are gathered, any dirty element is rebuilt in
//! place: a localized re-layout of exactly that element from its
//! style, using its parent's already-computed layout and a flow-start
//! offset recovered from the previous sibling, rather than a fresh
//! top-down pass. A rebuild does not reflow later siblings and does
//! not re-run its children's layout; children that were themselves
//! marked dirty are rebuilt when the walk descends into them.

use vstd::prelude::*;

use crate::element::height;
use crate::element::lemma_seq_height_bound;
use crate::element::lemma_seq_view_index;
use crate::element::lemma_seq_wf_index;
use crate::element::seq_height;
use crate::element::seq_view;
use crate::element::seq_wf;
use crate::element::spec_effective_style_v;
use crate::element::wf;
use crate::element::ElemV;
use crate::element::UiElement;
use crate::element::UiType;
use crate::element::UiTypeV;
use crate::font::Font;
use crate::formats::RGBA;
use crate::instance::RawUiElement;
use crate::instance::UiInstance;
use crate::instance::MODE_BOX;
use crate::instance::MODE_IMAGE;
use crate::layout::spec_box_geometry;
use crate::layout::spec_box_paint;
use crate::layout::BuildContext;
use crate::px::px_add;
use crate::px::px_sub;
use crate::px::sat64;
use crate::style::Position;
use crate::text::spec_build_text_elem;
use crate::vec2::Vec2;

verus! {

/// The flow context a localized rebuild reconstructs from the
/// parent's computed layout and the recovered flow-start offset.
pub open spec fn spec_rebuild_ctx(e: ElemV, ps: Vec2, pp: Vec2, off: Vec2) -> BuildContext {
    BuildContext {
        parent_size: ps,
        parent_pos: pp,
        start_pos: off,
        line_offset: 0i64,
        order: e.computed.order,
    }
}

/// One element re-laid-out in place from its style: its computed
/// layout is recomputed and its dirty flag cleared; its children and
/// later siblings are left as they are. A text element reshapes its
/// glyph run.
#[verifier::opaque]
pub open spec fn spec_rebuild(e: ElemV, ps: Vec2, pp: Vec2, off: Vec2, font: Font) -> ElemV {
    let ctx = spec_rebuild_ctx(e, ps, pp, off);
    match e.inherit {
        UiTypeV::Text(t) => spec_build_text_elem(e, t, ctx, font).0,
        _ => {
            let est = spec_effective_style_v(e);
            let g = spec_box_geometry(est, ctx);
            let paint = spec_box_paint(e, est);
            ElemV {
                dirty: false,
                computed: RawUiElement {
                    color: paint.0,
                    border_color: est.border_color,
                    border: est.border,
                    pos: g.1,
                    size: g.0,
                    corner: est.corner.spec_pixelx(g.0) as i64,
                    mode: paint.1,
                    order: e.computed.order,
                },
                ..e
            }
        },
    }
}

/// A dirty element rebuilt; a clean one untouched.
pub open spec fn spec_refresh1(e: ElemV, ps: Vec2, pp: Vec2, off: Vec2, font: Font) -> ElemV {
    if e.dirty {
        spec_rebuild(e, ps, pp, off, font)
    } else {
        e
    }
}

/// The flow-start offset the next sibling recovers from a previous
/// one: its position relative to the parent plus its size.
pub open spec fn spec_sib_off(prev: ElemV, pp: Vec2) -> Vec2 {
    prev.computed.pos.spec_minus(pp).spec_plus(prev.computed.size)
}

/// One subtree refreshed and emitted: the element is rebuilt if dirty;
/// an invisible element emits nothing and its children are left alone;
/// a visible one emits its own box (a text element its glyph run
/// instead) followed by its children in order, so that the flat
/// sequence is in paint order.
pub open spec fn spec_emit(e: ElemV, ps: Vec2, pp: Vec2, off: Vec2, font: Font) -> (
    ElemV,
    Seq<UiInstance>,
)
    decreases height(e), 0nat,
{
    let e1 = spec_refresh1(e, ps, pp, off, font);
    if !e1.visible {
        (e1, Seq::empty())
    } else {
        let own: Seq<UiInstance> = match e1.inherit {
            UiTypeV::Text(t) => t.comp_text,
            _ => seq![e1.computed.spec_to_instance()],
        };
        let r = spec_emit_seq(e.childs, e1.computed.size, e1.computed.pos, font);
        (ElemV { childs: r.0, ..e1 }, own + r.1)
    }
}

/// A sequence of siblings refreshed and emitted in order; each
/// sibling's flow-start offset is recovered from the refreshed sibling
/// before it.
pub open spec fn spec_emit_seq(s: Seq<ElemV>, ps: Vec2, pp: Vec2, font: Font) -> (
    Seq<ElemV>,
    Seq<UiInstance>,
)
    decreases seq_height(s), s.len(),
    via spec_emit_seq_dec
{
    if s.len() == 0 {
        (Seq::empty(), Seq::empty())
    } else {
        let r = spec_emit_seq(s.drop_last(), ps, pp, font);
        let off = if s.len() == 1 {
            Vec2 { x: 0i64, y: 0i64 }
        } else {
            spec_sib_off(r.0.last(), pp)
        };
        let b = spec_emit(s.last(), ps, pp, off, font);
        (r.0.push(b.0), r.1 + b.1)
    }
}

#[via_fn]
proof fn spec_emit_seq_dec(s: Seq<ElemV>, ps: Vec2, pp: Vec2, font: Font) {
    if s.len() > 0 {
        crate::layout::lemma_seq_height_drop_last(s);
        lemma_seq_height_bound(s, s.len() - 1);
    }
}

/// One step of refreshing a sibling sequence.
pub proof fn lemma_emit_seq_step(
    old_cv: Seq<ElemV>,
    i: int,
    ps: Vec2,
    pp: Vec2,
    font: Font,
    pre_views: Seq<ElemV>,
    post_views: Seq<ElemV>,
    off: Vec2,
    pre_out: Seq<UiInstance>,
    post_out: Seq<UiInstance>,
)
    requires
        0 <= i < old_cv.len(),
        pre_views.len() == old_cv.len(),
        post_views.len() == old_cv.len(),
        pre_views.take(i) == spec_emit_seq(old_cv.take(i), ps, pp, font).0,
        pre_out == spec_emit_seq(old_cv.take(i), ps, pp, font).1,
        forall|j: int| 0 <= j < i ==> post_views[j] == pre_views[j],
        off == if i == 0 {
            Vec2 { x: 0i64, y: 0i64 }
        } else {
            spec_sib_off(pre_views[i - 1], pp)
        },
        post_views[i] == spec_emit(old_cv[i], ps, pp, off, font).0,
        post_out == pre_out + spec_emit(old_cv[i], ps, pp, off, font).1,
    ensures
        post_views.take(i + 1) == spec_emit_seq(old_cv.take(i + 1), ps, pp, font).0,
        post_out == spec_emit_seq(old_cv.take(i + 1), ps, pp, font).1,
{
    assert(old_cv.take(i + 1).drop_last() =~= old_cv.take(i));
    assert(old_cv.take(i + 1).last() == old_cv[i]);
    assert(post_views.take(i) =~= pre_views.take(i));
    if i > 0 {
        assert(spec_emit_seq(old_cv.take(i), ps, pp, font).0.last() == pre_views.take(i)[i - 1]);
        assert(pre_views.take(i)[i - 1] == pre_views[i - 1]);
    }
    assert(post_views.take(i + 1) =~= post_views.take(i).push(post_views[i]));
}

impl UiElement {
    /// The flow-start offset of the child at `index`, recovered by
    /// looking at the sibling placed before it.
    pub fn get_offset(&self, index: usize) -> (r: Vec2)
        requires
            index < self@.childs.len(),
        ensures
            r == if index == 0 {
                Vec2 { x: 0i64, y: 0i64 }
            } else {
                spec_sib_off(self@.childs[index as int - 1], self.computed.pos)
            },
    {
        proof {
            lemma_seq_view_index(self.childs@);
        }
        if index == 0 {
            Vec2 { x: 0, y: 0 }
        } else {
            proof {
                assert(self@.childs[index as int - 1] == self.childs@[index as int - 1]@);
            }
            let prev = &self.childs[index - 1];
            prev.computed.pos.minus(&self.computed.pos).plus(&prev.computed.size)
        }
    }

    /// Re-lays out exactly this element from its style against its
    /// parent's already-computed layout, clearing its dirty flag.
    /// Children and siblings are not reflowed.
    pub fn rebuild(&mut self, parent_size: Vec2, parent_pos: Vec2, offset: Vec2, font: &Font)
        requires
            wf(old(self)@),
            font.wf(),
        ensures
            final(self)@ == spec_rebuild(old(self)@, parent_size, parent_pos, offset, *font),
            final(self).childs@ == old(self).childs@,
            final(self).style == old(self).style,
            final(self).visible == old(self).visible,
            wf(final(self)@),
    {
        let ghost e0 = self@;
        proof {
            reveal(spec_rebuild);
        }
        let mut ctx = BuildContext {
            parent_size,
            parent_pos,
            start_pos: offset,
            line_offset: 0,
            order: self.computed.order,
        };
        let is_text = match &self.inherit {
            UiType::Text(_) => true,
            _ => false,
        };
        if is_text {
            proof {
                reveal(crate::text::spec_build_text_elem);
            }
            let rel = ctx.start_pos;
            let pos = rel.plus(&ctx.parent_pos);
            self.computed.color = self.style.color;
            self.computed.border_color = self.style.border_color;
            self.computed.border = self.style.border;
            self.computed.pos = pos;
            self.computed.order = ctx.order;
            match &mut self.inherit {
                UiType::Text(t) => {
                    t.build_text(&self.style, pos, &mut ctx, font);
                },
                _ => {},
            }
            self.computed.size = Vec2 {
                x: px_sub(ctx.start_pos.x, rel.x),
                y: px_add(px_sub(ctx.start_pos.y, rel.y), ctx.line_offset),
            };
            self.dirty = false;
            return ;
        }
        let est = self.effective_style();
        proof {
            assert(est == spec_effective_style_v(e0));
        }
        let mut size: Vec2 = Vec2 { x: 0, y: 0 };
        let mut pos: Vec2 = Vec2 { x: 0, y: 0 };
        match &est.position {
            Position::Absolute(abs) => {
                size = Vec2 {
                    x: est.width.width(ctx.parent_size),
                    y: est.height.height(ctx.parent_size),
                };
                let off = Vec2 { x: abs.x.pixelx(ctx.parent_size), y: abs.y.pixely(ctx.parent_size) };
                pos = abs.align.get_pos(ctx.parent_size, size, off);
            },
            Position::Inline(inl) => {
                let ml = inl.margin.left.pixelx(ctx.parent_size);
                let mt = inl.margin.top.pixely(ctx.parent_size);
                let mr = inl.margin.right.pixelx(ctx.parent_size);
                let mb = inl.margin.bottom.pixely(ctx.parent_size);
                let space = Vec2 {
                    x: px_sub(ctx.parent_size.x, px_add(ml, mr)),
                    y: px_sub(ctx.parent_size.y, px_add(mt, mb)),
                };
                size = Vec2 { x: est.width.width(space), y: est.height.height(space) };
                pos = Vec2 { x: ml, y: mt };
                let outer = Vec2 { x: px_add(size.x, mr), y: px_add(size.y, mb) };
                ctx.fits_in_line(&mut pos, &outer);
            },
        }
        pos = pos.plus(&ctx.parent_pos);
        let paint: (RGBA, u32) = match &self.inherit {
            UiType::Image(im) => (RGBA { r: im.index, g: 0, b: 0, a: 0 }, MODE_IMAGE),
            _ => (est.color, MODE_BOX),
        };
        self.computed = RawUiElement {
            color: paint.0,
            border_color: est.border_color,
            border: est.border,
            pos,
            size,
            corner: est.corner.pixelx(size),
            mode: paint.1,
            order: self.computed.order,
        };
        self.dirty = false;
    }

    /// Refreshes this subtree (rebuilding any dirty element) and
    /// appends its draw instances to `instances` in paint order.
    /// Invisible elements emit nothing and keep their children as they
    /// are.
    #[verifier::rlimit(100)]
    pub fn get_instances(
        &mut self,
        instances: &mut Vec<UiInstance>,
        parent_size: Vec2,
        parent_pos: Vec2,
        offset: Vec2,
        font: &Font,
    )
        requires
            wf(old(self)@),
            font.wf(),
        ensures
            final(self)@ == spec_emit(old(self)@, parent_size, parent_pos, offset, *font).0,
            final(instances)@ == old(instances)@ + spec_emit(
                old(self)@,
                parent_size,
                parent_pos,
                offset,
                *font,
            ).1,
        decreases height(self@),
    {
        let ghost e0 = self@;
        if self.dirty {
            self.rebuild(parent_size, parent_pos, offset, font);
        }
        let ghost e1 = self@;
        proof {
            assert(e1 == spec_refresh1(e0, parent_size, parent_pos, offset, *font));
            assert(e1.childs == e0.childs);
            assert(wf(e1));
        }
        if !self.visible {
            return ;
        }
        let ghost out0 = instances@;
        let is_text = match &self.inherit {
            UiType::Text(_) => true,
            _ => false,
        };
        if is_text {
            match &self.inherit {
                UiType::Text(t) => {
                    let mut k: usize = 0;
                    let tn = t.comp_text.len();
                    while k < tn
                        invariant
                            k <= tn,
                            tn == t.comp_text@.len(),
                            instances@ == out0 + t.comp_text@.take(k as int),
                        decreases tn - k,
                    {
                        instances.push(t.comp_text[k]);
                        proof {
                            assert(t.comp_text@.take(k + 1 as int) =~= t.comp_text@.take(
                                k as int,
                            ).push(t.comp_text@[k as int]));
                        }
                        k = k + 1;
                    }
                    proof {
                        assert(t.comp_text@.take(tn as int) =~= t.comp_text@);
                    }
                },
                _ => {},
            }
        } else {
            instances.push(self.computed.to_instance());
            proof {
                assert(instances@ =~= out0 + seq![e1.computed.spec_to_instance()]);
            }
        }
        let ghost own_out = instances@;
        let ps = self.computed.size;
        let pp = self.computed.pos;
        let ghost old_cv = e0.childs;
        proof {
            lemma_seq_view_index(self.childs@);
            assert(e1.childs == e0.childs);
        }
        let n = self.childs.len();
        proof {
            assert(old_cv.take(0) =~= Seq::<ElemV>::empty());
            assert(own_out + Seq::<UiInstance>::empty() =~= own_out);
            assert(seq_view(self.childs@).take(0) =~= Seq::<ElemV>::empty());
        }
        let mut off = Vec2 { x: 0, y: 0 };
        let mut i: usize = 0;
        while i < n
            invariant
                i <= n,
                n == self.childs@.len(),
                old_cv.len() == n,
                e0 == old(self)@,
                e1 == spec_refresh1(e0, parent_size, parent_pos, offset, *font),
                e1.visible,
                old_cv == e0.childs,
                e1.childs == e0.childs,
                ps == e1.computed.size,
                pp == e1.computed.pos,
                self.style == e1.style,
                self.visible == e1.visible,
                self.dirty == e1.dirty,
                self.computed == e1.computed,
                self.inherit.view() == e1.inherit,
                font.wf(),
                wf(e1),
                seq_wf(old_cv),
                forall|j: int| i <= j < n ==> seq_view(self.childs@)[j] == old_cv[j],
                seq_view(self.childs@).len() == n,
                seq_view(self.childs@).take(i as int) == spec_emit_seq(
                    old_cv.take(i as int),
                    ps,
                    pp,
                    *font,
                ).0,
                instances@ == own_out + spec_emit_seq(old_cv.take(i as int), ps, pp, *font).1,
                off == if i == 0 {
                    Vec2 { x: 0i64, y: 0i64 }
                } else {
                    spec_sib_off(seq_view(self.childs@)[i as int - 1], pp)
                },
            decreases n - i,
        {
            proof {
                lemma_seq_view_index(self.childs@);
                lemma_seq_wf_index(old_cv, i as int);
                lemma_seq_height_bound(old_cv, i as int);
                assert(height(e0) == 1 + seq_height(e0.childs));
                assert(height(old_cv[i as int]) < height(e0));
            }
            let ghost pre_childs = self.childs@;
            let ghost emit_pre = spec_emit_seq(old_cv.take(i as int), ps, pp, *font).1;
            let child = &mut self.childs[i];
            child.get_instances(instances, ps, pp, off, font);
            proof {
                lemma_seq_view_index(pre_childs);
                lemma_seq_view_index(self.childs@);
                let ce = spec_emit(old_cv[i as int], ps, pp, off, *font).1;
                assert forall|j: int| 0 <= j < n && j != i implies seq_view(self.childs@)[j]
                    == seq_view(pre_childs)[j] by {
                    assert(self.childs@[j] == pre_childs[j]);
                    assert(seq_view(self.childs@)[j] == self.childs@[j]@);
                    assert(seq_view(pre_childs)[j] == pre_childs[j]@);
                }
                lemma_emit_seq_step(
                    old_cv,
                    i as int,
                    ps,
                    pp,
                    *font,
                    seq_view(pre_childs),
                    seq_view(self.childs@),
                    off,
                    emit_pre,
                    emit_pre + ce,
                );
                assert(instances@ =~= own_out + (emit_pre + ce));
            }
            let prev_pos = self.childs[i].computed.pos;
            let prev_size = self.childs[i].computed.size;
            off = prev_pos.minus(&pp).plus(&prev_size);
            proof {
                lemma_seq_view_index(self.childs@);
                assert(seq_view(self.childs@)[i as int] == self.childs@[i as int]@);
                assert(off == spec_sib_off(seq_view(self.childs@)[i as int], pp));
            }
            i = i + 1;
        }
        proof {
            assert(old_cv.take(n as int) =~= old_cv);
            lemma_seq_view_index(self.childs@);
            assert(seq_view(self.childs@).take(n as int) =~= seq_view(self.childs@));
            let sm = spec_emit(e0, parent_size, parent_pos, offset, *font);
            assert(self@ =~= sm.0);
            assert(instances@ =~= old(instances)@ + sm.1);
        }
    }
}

} // verus!
