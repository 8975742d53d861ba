//! The engine's global laws, stated and proved over the layout and
//! interaction specifications.

use vstd::prelude::*;

use crate::cursor::spec_is_in_v;
use crate::dirty::spec_emit;
use crate::dirty::spec_emit_seq;
use crate::dirty::spec_rebuild;
use crate::dirty::spec_refresh1;
use crate::element::height;
use crate::element::lemma_seq_height_bound;
use crate::element::seq_height;
use crate::element::ElemV;
use crate::element::TextV;
use crate::element::UiTypeV;
use crate::font::Font;
use crate::layout::lemma_seq_height_drop_last;
use crate::layout::spec_build;
use crate::layout::spec_build_seq;
use crate::layout::BuildContext;
use crate::unit::UiUnit;
use crate::vec2::Vec2;

verus! {

/// Unit resolution: a pixel unit resolves to its own value on either
/// axis, whatever the parent size, and `Fill` resolves to the parent's
/// matching axis.
pub proof fn lemma_unit_resolution(n: i64, parent: Vec2)
    ensures
        UiUnit::Px(n).spec_pixelx(parent) == n,
        UiUnit::Px(n).spec_pixely(parent) == n,
        UiUnit::Fill.spec_pixelx(parent) == parent.x,
        UiUnit::Fill.spec_pixely(parent) == parent.y,
{
}

/// Flow wrap: an inline box wraps exactly when its outer width
/// overruns the line; placed, it advances the cursor by its extent,
/// and after wrapping the cursor restarts at the box's own extent one
/// line down.
pub proof fn lemma_flow_wrap(ctx: BuildContext, pos: Vec2, outer: Vec2)
    ensures
        ({
            let r = ctx.spec_flow(pos, outer);
            let wrapped = ctx.start_pos.x + outer.x > ctx.parent_size.x;
            &&& wrapped <==> !ctx.spec_fits(outer.x as int)
            &&& !wrapped ==> {
                &&& r.1 == pos.spec_plus(ctx.start_pos)
                &&& r.0.start_pos.x == crate::px::sat64(ctx.start_pos.x + outer.x)
                &&& r.0.start_pos.y == ctx.start_pos.y
                &&& r.0.line_offset == if ctx.line_offset >= outer.y {
                    ctx.line_offset
                } else {
                    outer.y
                }
            }
            &&& wrapped ==> {
                &&& r.0.start_pos.x == outer.x
                &&& r.0.start_pos.y == crate::px::sat64(ctx.start_pos.y + ctx.line_offset)
                &&& r.1.x == pos.x
                &&& r.1.y == crate::px::sat64(pos.y + r.0.start_pos.y)
                &&& r.0.line_offset == outer.y
            }
        }),
{
}

/// Equality of everything layout reads: the declarative style, the
/// visibility, the payload (a text run's shaped glyphs excepted, but
/// including the computed corner and mode a text rebuild carries
/// over), and the same recursively for the children.
pub open spec fn style_eq(a: ElemV, b: ElemV) -> bool
    decreases height(a), 0nat,
{
    &&& a.style == b.style
    &&& a.visible == b.visible
    &&& (match (a.inherit, b.inherit) {
        (UiTypeV::Text(ta), UiTypeV::Text(tb)) => {
            &&& ta.font == tb.font
            &&& ta.text == tb.text
            &&& ta.wrap == tb.wrap
            &&& ta.mode == tb.mode
            &&& a.computed.corner == b.computed.corner
            &&& a.computed.mode == b.computed.mode
            &&& a.childs == b.childs
        },
        _ => a.inherit == b.inherit,
    })
    &&& seq_style_eq(a.childs, b.childs)
}

/// Pointwise `style_eq` over sibling sequences.
pub open spec fn seq_style_eq(a: Seq<ElemV>, b: Seq<ElemV>) -> bool
    decreases seq_height(a), a.len(),
    via seq_style_eq_dec
{
    &&& a.len() == b.len()
    &&& (a.len() == 0 || (style_eq(a.last(), b.last()) && seq_style_eq(a.drop_last(), b.drop_last())))
}

#[via_fn]
proof fn seq_style_eq_dec(a: Seq<ElemV>, b: Seq<ElemV>) {
    if a.len() > 0 {
        lemma_seq_height_drop_last(a);
        lemma_seq_height_bound(a, a.len() - 1);
    }
}

/// A build pass only rewrites computed state: what it reads is left
/// exactly as it was.
#[verifier::rlimit(100)]
#[verifier::spinoff_prover]
pub proof fn lemma_build_preserves_style(e: ElemV, ctx: BuildContext, font: Font)
    ensures
        style_eq(spec_build(e, ctx, font).0, e),
    decreases height(e), 0nat,
{
    reveal(crate::text::spec_build_text_elem);
    match e.inherit {
        UiTypeV::Text(t) => {
            assert(spec_build(e, ctx, font).0.childs == e.childs);
            lemma_seq_style_eq_refl(e.childs);
        },
        _ => {
            let est = crate::element::spec_effective_style_v(e);
            let g = crate::layout::spec_box_geometry(est, ctx);
            let content_size = Vec2 {
                x: crate::px::sat64(g.0.x - est.padding.spec_x(g.0)) as i64,
                y: crate::px::sat64(g.0.y - est.padding.spec_y(g.0)) as i64,
            };
            let content_pos = g.1.spec_plus(est.padding.spec_start(g.0));
            lemma_build_seq_preserves_style(
                e.childs,
                BuildContext::spec_child(content_size, content_pos),
                font,
            );
        },
    }
}

/// `style_eq` is reflexive.
pub proof fn lemma_style_eq_refl(e: ElemV)
    ensures
        style_eq(e, e),
    decreases height(e), 0nat,
{
    lemma_seq_style_eq_refl(e.childs);
}

/// `seq_style_eq` is reflexive.
pub proof fn lemma_seq_style_eq_refl(s: Seq<ElemV>)
    ensures
        seq_style_eq(s, s),
    decreases seq_height(s), s.len(),
{
    if s.len() > 0 {
        lemma_seq_height_drop_last(s);
        lemma_seq_height_bound(s, s.len() - 1);
        lemma_style_eq_refl(s.last());
        lemma_seq_style_eq_refl(s.drop_last());
    }
}

/// As `lemma_build_preserves_style`, over a sibling sequence.
#[verifier::rlimit(100)]
#[verifier::spinoff_prover]
pub proof fn lemma_build_seq_preserves_style(s: Seq<ElemV>, ctx: BuildContext, font: Font)
    ensures
        seq_style_eq(spec_build_seq(s, ctx, font).0, s),
    decreases seq_height(s), s.len(),
{
    if s.len() > 0 {
        lemma_seq_height_drop_last(s);
        lemma_seq_height_bound(s, s.len() - 1);
        let r = spec_build_seq(s.drop_last(), ctx, font);
        lemma_build_seq_preserves_style(s.drop_last(), ctx, font);
        lemma_build_preserves_style(s.last(), r.1, font);
        let full = spec_build_seq(s, ctx, font).0;
        assert(full.drop_last() =~= r.0);
        assert(full.last() == spec_build(s.last(), r.1, font).0);
        lemma_build_seq_eq_height(s, ctx, font);
    }
}

/// What `style_eq` compares is all well-formedness reads, so a tree
/// flag-equal to a well-formed one is well formed.
pub proof fn lemma_style_eq_wf(a: ElemV, b: ElemV)
    requires
        style_eq(a, b),
        crate::element::wf(b),
    ensures
        crate::element::wf(a),
    decreases height(a), 0nat,
{
    match (a.inherit, b.inherit) {
        (UiTypeV::Text(ta), UiTypeV::Text(tb)) => {
            assert(a.childs == b.childs);
        },
        _ => {
            lemma_seq_style_eq_wf(a.childs, b.childs);
        },
    }
}

/// As `lemma_style_eq_wf`, over sibling sequences.
pub proof fn lemma_seq_style_eq_wf(x: Seq<ElemV>, y: Seq<ElemV>)
    requires
        seq_style_eq(x, y),
        crate::element::seq_wf(y),
    ensures
        crate::element::seq_wf(x),
    decreases seq_height(x), x.len(),
{
    if x.len() > 0 {
        lemma_seq_height_drop_last(x);
        lemma_seq_height_bound(x, x.len() - 1);
        crate::element::lemma_seq_wf_index(y, y.len() - 1);
        lemma_style_eq_wf(x.last(), y.last());
        assert forall|i: int| 0 <= i < y.drop_last().len() implies crate::element::wf(
            #[trigger] y.drop_last()[i],
        ) by {
            crate::element::lemma_seq_wf_index(y, i);
            assert(y.drop_last()[i] == y[i]);
        }
        crate::element::lemma_seq_wf_from_pointwise(y.drop_last());
        lemma_seq_style_eq_wf(x.drop_last(), y.drop_last());
        assert forall|i: int| 0 <= i < x.len() implies crate::element::wf(#[trigger] x[i]) by {
            if i < x.len() - 1 {
                crate::element::lemma_seq_wf_index(x.drop_last(), i);
                assert(x.drop_last()[i] == x[i]);
            } else {
                assert(x[i] == x.last());
            }
        }
        crate::element::lemma_seq_wf_from_pointwise(x);
    }
}

/// A layout pass keeps the tree structurally sound.
pub proof fn lemma_build_seq_wf_keep(s: Seq<ElemV>, ctx: BuildContext, font: Font)
    requires
        crate::element::seq_wf(s),
    ensures
        crate::element::seq_wf(spec_build_seq(s, ctx, font).0),
{
    lemma_build_seq_preserves_style(s, ctx, font);
    lemma_seq_style_eq_wf(spec_build_seq(s, ctx, font).0, s);
}

/// Building preserves the height of every subtree, so `seq_style_eq`'s
/// measures line up.
#[verifier::rlimit(100)]
#[verifier::spinoff_prover]
pub proof fn lemma_build_eq_height(e: ElemV, ctx: BuildContext, font: Font)
    ensures
        height(spec_build(e, ctx, font).0) == height(e),
    decreases height(e), 0nat,
{
    reveal(crate::text::spec_build_text_elem);
    match e.inherit {
        UiTypeV::Text(t) => {
            assert(spec_build(e, ctx, font).0.childs == e.childs);
        },
        _ => {
            let est = crate::element::spec_effective_style_v(e);
            let g = crate::layout::spec_box_geometry(est, ctx);
            let content_size = Vec2 {
                x: crate::px::sat64(g.0.x - est.padding.spec_x(g.0)) as i64,
                y: crate::px::sat64(g.0.y - est.padding.spec_y(g.0)) as i64,
            };
            let content_pos = g.1.spec_plus(est.padding.spec_start(g.0));
            lemma_build_seq_eq_height(
                e.childs,
                BuildContext::spec_child(content_size, content_pos),
                font,
            );
        },
    }
}

/// As `lemma_build_eq_height`, over a sibling sequence.
#[verifier::rlimit(100)]
#[verifier::spinoff_prover]
pub proof fn lemma_build_seq_eq_height(s: Seq<ElemV>, ctx: BuildContext, font: Font)
    ensures
        seq_height(spec_build_seq(s, ctx, font).0) == seq_height(s),
    decreases seq_height(s), s.len(),
{
    if s.len() > 0 {
        lemma_seq_height_drop_last(s);
        lemma_seq_height_bound(s, s.len() - 1);
        let r = spec_build_seq(s.drop_last(), ctx, font);
        lemma_build_seq_eq_height(s.drop_last(), ctx, font);
        lemma_build_eq_height(s.last(), r.1, font);
        let b = spec_build(s.last(), r.1, font).0;
        let full = spec_build_seq(s, ctx, font).0;
        assert(full =~= r.0.push(b));
        assert(s =~= s.drop_last().push(s.last()));
        lemma_seq_height_parts(r.0, b);
        lemma_seq_height_parts(s.drop_last(), s.last());
    }
}

/// The height of a pushed sequence in terms of its parts.
pub proof fn lemma_seq_height_parts(s: Seq<ElemV>, e: ElemV)
    ensures
        seq_height(s.push(e)) == if seq_height(s) >= height(e) {
            seq_height(s)
        } else {
            height(e)
        },
    decreases s.len(),
{
    if s.len() == 0 {
        assert(s.push(e).drop_first() =~= Seq::<ElemV>::empty());
        assert(s.push(e)[0] == e);
        assert(seq_height(s.push(e)) == if height(e) >= seq_height(Seq::<ElemV>::empty()) {
            height(e)
        } else {
            seq_height(Seq::<ElemV>::empty())
        });
    } else {
        assert(s.push(e).drop_first() =~= s.drop_first().push(e));
        lemma_seq_height_parts(s.drop_first(), e);
        assert(s.push(e)[0] == s[0]);
    }
}

/// Layout is a function of what `style_eq` compares: two elements that
/// agree there build to the very same result.
#[verifier::rlimit(100)]
#[verifier::spinoff_prover]
pub proof fn lemma_build_congruence(a: ElemV, b: ElemV, ctx: BuildContext, font: Font)
    requires
        style_eq(a, b),
    ensures
        spec_build(a, ctx, font) == spec_build(b, ctx, font),
    decreases height(a), 0nat,
{
    reveal(crate::text::spec_build_text_elem);
    match a.inherit {
        UiTypeV::Text(ta) => {
            assert(spec_build(a, ctx, font).0 =~= spec_build(b, ctx, font).0);
        },
        _ => {
            let est = crate::element::spec_effective_style_v(a);
            let g = crate::layout::spec_box_geometry(est, ctx);
            let content_size = Vec2 {
                x: crate::px::sat64(g.0.x - est.padding.spec_x(g.0)) as i64,
                y: crate::px::sat64(g.0.y - est.padding.spec_y(g.0)) as i64,
            };
            let content_pos = g.1.spec_plus(est.padding.spec_start(g.0));
            lemma_build_seq_congruence(
                a.childs,
                b.childs,
                BuildContext::spec_child(content_size, content_pos),
                font,
            );
            assert(spec_build(a, ctx, font).0 =~= spec_build(b, ctx, font).0);
        },
    }
}

/// As `lemma_build_congruence`, over sibling sequences.
#[verifier::rlimit(100)]
#[verifier::spinoff_prover]
pub proof fn lemma_build_seq_congruence(a: Seq<ElemV>, b: Seq<ElemV>, ctx: BuildContext, font: Font)
    requires
        seq_style_eq(a, b),
    ensures
        spec_build_seq(a, ctx, font) == spec_build_seq(b, ctx, font),
    decreases seq_height(a), a.len(),
{
    if a.len() > 0 {
        lemma_seq_height_drop_last(a);
        lemma_seq_height_bound(a, a.len() - 1);
        lemma_build_seq_congruence(a.drop_last(), b.drop_last(), ctx, font);
        let r = spec_build_seq(a.drop_last(), ctx, font);
        lemma_build_congruence(a.last(), b.last(), r.1, font);
        assert(spec_build_seq(a, ctx, font).0 =~= spec_build_seq(b, ctx, font).0);
    } else {
        assert(a =~= b);
    }
}

/// Idempotence: building an already-built tree again, under the same
/// context and with the styles untouched, reproduces the same tree and
/// the same flow context, bit for bit.
pub proof fn lemma_build_idempotent(e: ElemV, ctx: BuildContext, font: Font)
    ensures
        spec_build(spec_build(e, ctx, font).0, ctx, font) == spec_build(e, ctx, font),
{
    lemma_build_preserves_style(e, ctx, font);
    lemma_build_congruence(spec_build(e, ctx, font).0, e, ctx, font);
}

/// As `lemma_build_idempotent`, for a whole pass over the root list.
pub proof fn lemma_build_seq_idempotent(s: Seq<ElemV>, ctx: BuildContext, font: Font)
    ensures
        spec_build_seq(spec_build_seq(s, ctx, font).0, ctx, font) == spec_build_seq(s, ctx, font),
{
    lemma_build_seq_preserves_style(s, ctx, font);
    lemma_build_seq_congruence(spec_build_seq(s, ctx, font).0, s, ctx, font);
}

/// No element of a subtree is marked dirty.
pub open spec fn subtree_clean(e: ElemV) -> bool
    decreases height(e), 0nat,
{
    !e.dirty && seq_clean(e.childs)
}

/// No element of any subtree in a sequence is marked dirty.
pub open spec fn seq_clean(s: Seq<ElemV>) -> bool
    decreases seq_height(s), s.len(),
    via seq_clean_dec
{
    s.len() == 0 || (subtree_clean(s.last()) && seq_clean(s.drop_last()))
}

#[via_fn]
proof fn seq_clean_dec(s: Seq<ElemV>) {
    if s.len() > 0 {
        lemma_seq_height_drop_last(s);
        lemma_seq_height_bound(s, s.len() - 1);
    }
}

/// A sequence is clean when each of its subtrees is.
pub proof fn lemma_seq_clean_from_pointwise(s: Seq<ElemV>)
    requires
        forall|j: int| 0 <= j < s.len() ==> subtree_clean(#[trigger] s[j]),
    ensures
        seq_clean(s),
    decreases s.len(),
{
    if s.len() > 0 {
        lemma_seq_clean_from_pointwise(s.drop_last());
    }
}

/// A clean subtree passes through a refresh walk untouched.
pub proof fn lemma_clean_emit(e: ElemV, ps: Vec2, pp: Vec2, off: Vec2, font: Font)
    requires
        subtree_clean(e),
    ensures
        spec_emit(e, ps, pp, off, font).0 == e,
    decreases height(e), 0nat,
{
    if e.visible {
        lemma_clean_emit_seq(e.childs, e.computed.size, e.computed.pos, font);
        assert(spec_emit(e, ps, pp, off, font).0 =~= e);
    } else {
        assert(spec_emit(e, ps, pp, off, font).0 =~= e);
    }
}

/// As `lemma_clean_emit`, over a sibling sequence.
pub proof fn lemma_clean_emit_seq(s: Seq<ElemV>, ps: Vec2, pp: Vec2, font: Font)
    requires
        seq_clean(s),
    ensures
        spec_emit_seq(s, ps, pp, font).0 == s,
    decreases seq_height(s), s.len(),
{
    if s.len() > 0 {
        lemma_seq_height_drop_last(s);
        lemma_seq_height_bound(s, s.len() - 1);
        lemma_clean_emit_seq(s.drop_last(), ps, pp, font);
        let r = spec_emit_seq(s.drop_last(), ps, pp, font);
        let off = if s.len() == 1 {
            Vec2 { x: 0i64, y: 0i64 }
        } else {
            crate::dirty::spec_sib_off(r.0.last(), pp)
        };
        lemma_clean_emit(s.last(), ps, pp, off, font);
        assert(spec_emit_seq(s, ps, pp, font).0 =~= s);
    } else {
        assert(spec_emit_seq(s, ps, pp, font).0 =~= s);
    }
}

/// Dirty convergence: after a single mutation marks one root-level
/// subtree's element dirty, the refresh walk rebuilds exactly that
/// element — clearing its flag and recomputing only its computed
/// layout from its style — and leaves every other sibling untouched.
/// The last root is the dirty one: the prefix passes through clean and
/// the last is rebuilt in place.
#[verifier::rlimit(100)]
#[verifier::spinoff_prover]
proof fn lemma_dirty_last(s: Seq<ElemV>, ps: Vec2, pp: Vec2, font: Font)
    requires
        s.len() > 0,
        forall|j: int| 0 <= j < s.len() - 1 ==> subtree_clean(#[trigger] s[j]),
        seq_clean(s[s.len() - 1].childs),
    ensures
        ({
            let k = s.len() - 1;
            let r = spec_emit_seq(s, ps, pp, font).0;
            let off = if k == 0 {
                Vec2 { x: 0i64, y: 0i64 }
            } else {
                crate::dirty::spec_sib_off(s[k - 1], pp)
            };
            &&& r.len() == s.len()
            &&& (forall|j: int| 0 <= j < s.len() - 1 ==> r[j] == #[trigger] s[j])
            &&& r[k] == spec_emit(s[k], ps, pp, off, font).0
            &&& (s[k].dirty ==> spec_emit(s[k], ps, pp, off, font).0 == spec_rebuild(
                s[k],
                ps,
                pp,
                off,
                font,
            ))
            &&& (s[k].dirty ==> !spec_emit(s[k], ps, pp, off, font).0.dirty)
        }),
{
    reveal(spec_rebuild);
    reveal(crate::text::spec_build_text_elem);
    let k = s.len() - 1;
    assert forall|j: int| 0 <= j < s.drop_last().len() implies subtree_clean(
        #[trigger] s.drop_last()[j],
    ) by {
        assert(s.drop_last()[j] == s[j]);
    }
    lemma_seq_clean_from_pointwise(s.drop_last());
    lemma_clean_emit_seq(s.drop_last(), ps, pp, font);
    let r = spec_emit_seq(s.drop_last(), ps, pp, font);
    let off = if s.len() == 1 {
        Vec2 { x: 0i64, y: 0i64 }
    } else {
        crate::dirty::spec_sib_off(s[k - 1], pp)
    };
    if s[k].dirty {
        let e1 = spec_refresh1(s[k], ps, pp, off, font);
        if e1.visible {
            assert(e1.childs == s[k].childs);
            lemma_clean_emit_seq(s[k].childs, e1.computed.size, e1.computed.pos, font);
            assert(spec_emit(s[k], ps, pp, off, font).0 =~= e1);
        }
    }
    let full = spec_emit_seq(s, ps, pp, font).0;
    assert(full =~= r.0.push(spec_emit(s[k], ps, pp, off, font).0));
    assert forall|j: int| 0 <= j < s.len() - 1 implies full[j] == #[trigger] s[j] by {
        assert(full[j] == r.0[j]);
        assert(s.drop_last()[j] == s[j]);
    }
}

#[verifier::rlimit(100)]
#[verifier::spinoff_prover]
pub proof fn lemma_dirty_convergence(s: Seq<ElemV>, k: int, ps: Vec2, pp: Vec2, font: Font)
    requires
        0 <= k < s.len(),
        forall|j: int| 0 <= j < s.len() && j != k ==> subtree_clean(#[trigger] s[j]),
        seq_clean(s[k].childs),
        s[k].dirty,
    ensures
        ({
            let r = spec_emit_seq(s, ps, pp, font).0;
            let off = if k == 0 {
                Vec2 { x: 0i64, y: 0i64 }
            } else {
                crate::dirty::spec_sib_off(s[k - 1], pp)
            };
            let rb = spec_rebuild(s[k], ps, pp, off, font);
            &&& r.len() == s.len()
            &&& (forall|j: int| 0 <= j < s.len() && j != k ==> r[j] == #[trigger] s[j])
            &&& r[k] == rb
            &&& !r[k].dirty
        }),
    decreases s.len(),
{
    lemma_seq_height_drop_last(s);
    lemma_seq_height_bound(s, s.len() - 1);
    if k == s.len() - 1 {
        lemma_dirty_last(s, ps, pp, font);
    } else {
        assert(subtree_clean(s.last()));
        assert forall|j: int| 0 <= j < s.drop_last().len() && j != k implies subtree_clean(
            #[trigger] s.drop_last()[j],
        ) by {
            assert(s.drop_last()[j] == s[j]);
        }
        assert(s.drop_last()[k] == s[k]);
        lemma_dirty_convergence(s.drop_last(), k, ps, pp, font);
        let rp = spec_emit_seq(s.drop_last(), ps, pp, font).0;
        let off_last = if s.len() == 1 {
            Vec2 { x: 0i64, y: 0i64 }
        } else {
            crate::dirty::spec_sib_off(rp.last(), pp)
        };
        lemma_clean_emit(s.last(), ps, pp, off_last, font);
        let full = spec_emit_seq(s, ps, pp, font).0;
        assert(full =~= rp.push(s.last()));
        if k > 0 {
            assert(s.drop_last()[k - 1] == s[k - 1]);
        }
        assert forall|j: int| 0 <= j < s.len() && j != k implies full[j] == #[trigger] s[j] by {
            if j < s.len() - 1 {
                assert(full[j] == rp[j]);
                assert(s.drop_last()[j] == s[j]);
            }
        }
    }
}

/// Drag axis mask: for every cursor delta, the delta a drag box
/// applies is the projection onto its axis mask — an x-only box keeps
/// the x component and zeroes y, a y-only box the reverse, a free box
/// keeps both, and a null mask moves nothing.
pub proof fn lemma_drag_axis_mask(d: Vec2)
    ensures
        crate::cursor::spec_mask_delta(d, crate::element::AXIS_X) == (Vec2 { x: d.x, y: 0i64 }),
        crate::cursor::spec_mask_delta(d, crate::element::AXIS_Y) == (Vec2 { x: 0i64, y: d.y }),
        crate::cursor::spec_mask_delta(d, crate::element::AXIS_BOTH) == d,
        crate::cursor::spec_mask_delta(d, 0) == (Vec2 { x: 0i64, y: 0i64 }),
{
    assert(crate::element::AXIS_X & crate::element::AXIS_X == crate::element::AXIS_X)
        by (bit_vector);
    assert(crate::element::AXIS_Y & crate::element::AXIS_X != crate::element::AXIS_X)
        by (bit_vector);
    assert(crate::element::AXIS_Y & crate::element::AXIS_Y == crate::element::AXIS_Y)
        by (bit_vector);
    assert(crate::element::AXIS_X & crate::element::AXIS_Y != crate::element::AXIS_Y)
        by (bit_vector);
    assert(crate::element::AXIS_BOTH & crate::element::AXIS_X == crate::element::AXIS_X)
        by (bit_vector);
    assert(crate::element::AXIS_BOTH & crate::element::AXIS_Y == crate::element::AXIS_Y)
        by (bit_vector);
    assert(0u8 & crate::element::AXIS_X != crate::element::AXIS_X) by (bit_vector);
    assert(0u8 & crate::element::AXIS_Y != crate::element::AXIS_Y) by (bit_vector);
}

/// Hit-test containment: the cursor is in an element exactly when it
/// lies within the computed box on both axes, the left and top edges
/// included and the right and bottom excluded; an invisible element
/// contains nothing.
pub proof fn lemma_hit_containment(e: ElemV, p: Vec2)
    ensures
        spec_is_in_v(e, p) <==> (e.visible && e.computed.pos.x <= p.x < e.computed.pos.x
            + e.computed.size.x && e.computed.pos.y <= p.y < e.computed.pos.y + e.computed.size.y),
        !e.visible ==> !spec_is_in_v(e, p),
{
}

} // verus!
