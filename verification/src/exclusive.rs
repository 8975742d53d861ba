//! Exclusivity of interaction state: the machinery for stating and
//! maintaining the rule that at most one element is hovered and at
//! most one is pressed at any time.
//!
//! The rule is expressed by counting: `icount` sums, over a subtree,
//! how many payloads currently hold the hovered state and how many the
//! pressed state. The lemmas here track those sums through every
//! operation that touches the tree.

use vstd::prelude::*;

use crate::cursor::spec_apply_at;
use crate::cursor::spec_apply_op;
use crate::cursor::spec_at_elem;
use crate::cursor::spec_move;
use crate::cursor::spec_move_at;
use crate::cursor::spec_move_seq;
use crate::cursor::spec_path_in;
use crate::cursor::NodeOp;
use crate::element::height;
use crate::element::lemma_seq_height_bound;
use crate::element::seq_height;
use crate::element::Button;
use crate::element::CheckBox;
use crate::element::DragBox;
use crate::element::ElemV;
use crate::element::UiElement;
use crate::element::UiType;
use crate::element::UiTypeV;
use crate::font::Font;
use crate::interaction::Interaction;
use crate::layout::lemma_seq_height_drop_last;
use crate::layout::spec_build;
use crate::layout::spec_build_seq;
use crate::layout::BuildContext;
use crate::vec2::Vec2;

verus! {

/// Whether a payload currently holds the hovered state.
pub open spec fn is_hovered(e: ElemV) -> bool {
    match e.inherit {
        UiTypeV::Button(b) => b.interaction is Hover,
        UiTypeV::CheckBox(c) => c.selected,
        _ => false,
    }
}

/// Whether a payload currently holds the pressed state.
pub open spec fn is_pressed_state(e: ElemV) -> bool {
    match e.inherit {
        UiTypeV::Button(b) => b.interaction is Pressed || b.interaction is Dragged,
        UiTypeV::CheckBox(c) => c.pressed,
        UiTypeV::DragBox(d) => d.interaction is Pressed || d.interaction is Dragged,
        _ => false,
    }
}

/// One if hovered, zero otherwise.
pub open spec fn hnat(e: ElemV) -> nat {
    if is_hovered(e) {
        1
    } else {
        0
    }
}

/// One if pressed, zero otherwise.
pub open spec fn pnat(e: ElemV) -> nat {
    if is_pressed_state(e) {
        1
    } else {
        0
    }
}

/// The number of hovered and of pressed elements in a subtree.
pub open spec fn icount(e: ElemV) -> (nat, nat)
    decreases height(e), 0nat,
{
    let c = icount_seq(e.childs);
    ((hnat(e) + c.0) as nat, (pnat(e) + c.1) as nat)
}

/// The counts summed over a sibling sequence.
pub open spec fn icount_seq(s: Seq<ElemV>) -> (nat, nat)
    decreases seq_height(s), s.len(),
    via icount_seq_dec
{
    if s.len() == 0 {
        (0nat, 0nat)
    } else {
        let a = icount(s.last());
        let b = icount_seq(s.drop_last());
        ((a.0 + b.0) as nat, (a.1 + b.1) as nat)
    }
}

#[via_fn]
proof fn icount_seq_dec(s: Seq<ElemV>) {
    if s.len() > 0 {
        lemma_seq_height_drop_last(s);
        lemma_seq_height_bound(s, s.len() - 1);
    }
}

/// One member's counts are within the sequence's.
pub proof fn lemma_icount_seq_index(s: Seq<ElemV>, i: int)
    requires
        0 <= i < s.len(),
    ensures
        icount(s[i]).0 <= icount_seq(s).0,
        icount(s[i]).1 <= icount_seq(s).1,
    decreases s.len(),
{
    if i < s.len() - 1 {
        lemma_icount_seq_index(s.drop_last(), i);
        assert(s.drop_last()[i] == s[i]);
    }
}

/// Two distinct members' counts sum within the sequence's.
pub proof fn lemma_icount_seq_pair(s: Seq<ElemV>, i: int, j: int)
    requires
        0 <= i < j < s.len(),
    ensures
        icount(s[i]).0 + icount(s[j]).0 <= icount_seq(s).0,
        icount(s[i]).1 + icount(s[j]).1 <= icount_seq(s).1,
    decreases s.len(),
{
    if j < s.len() - 1 {
        lemma_icount_seq_pair(s.drop_last(), i, j);
        assert(s.drop_last()[i] == s[i]);
        assert(s.drop_last()[j] == s[j]);
    } else {
        lemma_icount_seq_index(s.drop_last(), i);
        assert(s.drop_last()[i] == s[i]);
    }
}

/// The flags of any reachable element are within the subtree's counts.
pub proof fn lemma_at_le_count(e: ElemV, r: Seq<usize>)
    requires
        spec_path_in(e, r),
    ensures
        hnat(spec_at_elem(e, r)) <= icount(e).0,
        pnat(spec_at_elem(e, r)) <= icount(e).1,
    decreases r.len(),
{
    if r.len() > 0 {
        lemma_at_le_count(e.childs[r[0] as int], r.drop_first());
        lemma_icount_seq_index(e.childs, r[0] as int);
    }
}

/// Two distinct reachable elements contribute separately to the counts.
pub proof fn lemma_two_paths(e: ElemV, r1: Seq<usize>, r2: Seq<usize>)
    requires
        spec_path_in(e, r1),
        spec_path_in(e, r2),
        r1 != r2,
    ensures
        hnat(spec_at_elem(e, r1)) + hnat(spec_at_elem(e, r2)) <= icount(e).0,
        pnat(spec_at_elem(e, r1)) + pnat(spec_at_elem(e, r2)) <= icount(e).1,
    decreases r1.len(),
{
    if r1.len() == 0 {
        if r2.len() == 0 {
            assert(r1 =~= r2);
        }
        lemma_at_le_count(e.childs[r2[0] as int], r2.drop_first());
        lemma_icount_seq_index(e.childs, r2[0] as int);
    } else if r2.len() == 0 {
        lemma_at_le_count(e.childs[r1[0] as int], r1.drop_first());
        lemma_icount_seq_index(e.childs, r1[0] as int);
    } else if r1[0] == r2[0] {
        assert(r1.drop_first() != r2.drop_first()) by {
            assert(r1 =~= seq![r1[0]] + r1.drop_first());
            assert(r2 =~= seq![r2[0]] + r2.drop_first());
        }
        lemma_two_paths(e.childs[r1[0] as int], r1.drop_first(), r2.drop_first());
        lemma_icount_seq_index(e.childs, r1[0] as int);
    } else {
        lemma_at_le_count(e.childs[r1[0] as int], r1.drop_first());
        lemma_at_le_count(e.childs[r2[0] as int], r2.drop_first());
        if r1[0] < r2[0] {
            lemma_icount_seq_pair(e.childs, r1[0] as int, r2[0] as int);
        } else {
            lemma_icount_seq_pair(e.childs, r2[0] as int, r1[0] as int);
        }
    }
}

/// Replacing one member shifts the sequence counts by the member's
/// difference.
pub proof fn lemma_icount_seq_update(s: Seq<ElemV>, i: int, v: ElemV)
    requires
        0 <= i < s.len(),
    ensures
        icount_seq(s.update(i, v)).0 + icount(s[i]).0 == icount_seq(s).0 + icount(v).0,
        icount_seq(s.update(i, v)).1 + icount(s[i]).1 == icount_seq(s).1 + icount(v).1,
    decreases s.len(),
{
    let t = s.update(i, v);
    if i == s.len() - 1 {
        assert(t.drop_last() =~= s.drop_last());
        assert(t.last() == v);
    } else {
        assert(t.drop_last() =~= s.drop_last().update(i, v));
        assert(t.last() == s.last());
        lemma_icount_seq_update(s.drop_last(), i, v);
        assert(s.drop_last()[i] == s[i]);
    }
}

/// A targeted mutation shifts the counts by the target's difference.
pub proof fn lemma_apply_at_count(e: ElemV, q: Seq<usize>, op: NodeOp)
    requires
        spec_path_in(e, q),
    ensures
        icount(spec_apply_at(e, q, op)).0 + hnat(spec_at_elem(e, q)) == icount(e).0 + hnat(
            spec_apply_op(spec_at_elem(e, q), op),
        ),
        icount(spec_apply_at(e, q, op)).1 + pnat(spec_at_elem(e, q)) == icount(e).1 + pnat(
            spec_apply_op(spec_at_elem(e, q), op),
        ),
    decreases q.len(),
{
    if q.len() == 0 {
        assert(spec_apply_at(e, q, op).childs == e.childs);
    } else {
        let i = q[0] as int;
        lemma_apply_at_count(e.childs[i], q.drop_first(), op);
        lemma_icount_seq_update(e.childs, i, spec_apply_at(e.childs[i], q.drop_first(), op));
    }
}

/// A targeted mutation changes the flags of the target alone; every
/// other reachable element keeps its flags, and all paths stay in
/// bounds.
pub proof fn lemma_apply_at_flags(e: ElemV, q: Seq<usize>, op: NodeOp, r: Seq<usize>)
    requires
        spec_path_in(e, q),
        spec_path_in(e, r),
    ensures
        spec_path_in(spec_apply_at(e, q, op), r),
        hnat(spec_at_elem(spec_apply_at(e, q, op), r)) == if r == q {
            hnat(spec_apply_op(spec_at_elem(e, q), op))
        } else {
            hnat(spec_at_elem(e, r))
        },
        pnat(spec_at_elem(spec_apply_at(e, q, op), r)) == if r == q {
            pnat(spec_apply_op(spec_at_elem(e, q), op))
        } else {
            pnat(spec_at_elem(e, r))
        },
    decreases q.len(),
{
    crate::cursor::lemma_apply_at_shape(e, q, op, r);
    if q.len() == 0 {
        assert(spec_apply_at(e, q, op).childs == e.childs);
        if r.len() == 0 {
            assert(r =~= q);
        } else {
            assert(r != q);
        }
    } else {
        let f = spec_apply_at(e, q, op);
        if r.len() == 0 {
            assert(r != q);
            assert(hnat(f) == hnat(e));
            assert(pnat(f) == pnat(e));
        } else if r[0] == q[0] {
            lemma_apply_at_flags(e.childs[q[0] as int], q.drop_first(), op, r.drop_first());
            assert(r == q <==> r.drop_first() == q.drop_first()) by {
                assert(r =~= seq![r[0]] + r.drop_first());
                assert(q =~= seq![q[0]] + q.drop_first());
                if r.drop_first() == q.drop_first() && r[0] == q[0] {
                    assert(r =~= q);
                }
            }
        } else {
            assert(r != q);
            assert(f.childs[r[0] as int] == e.childs[r[0] as int]);
        }
    }
}

/// Two trees with the same shape and the same interaction flags at
/// every node.
pub open spec fn same_iflags(a: ElemV, b: ElemV) -> bool
    decreases height(a), 0nat,
{
    &&& hnat(a) == hnat(b)
    &&& pnat(a) == pnat(b)
    &&& same_iflags_seq(a.childs, b.childs)
}

/// Pointwise `same_iflags` over sibling sequences.
pub open spec fn same_iflags_seq(a: Seq<ElemV>, b: Seq<ElemV>) -> bool
    decreases seq_height(a), a.len(),
    via same_iflags_seq_dec
{
    &&& a.len() == b.len()
    &&& (a.len() == 0 || (same_iflags(a.last(), b.last()) && same_iflags_seq(
        a.drop_last(),
        b.drop_last(),
    )))
}

#[via_fn]
proof fn same_iflags_seq_dec(a: Seq<ElemV>, b: Seq<ElemV>) {
    if a.len() > 0 {
        lemma_seq_height_drop_last(a);
        lemma_seq_height_bound(a, a.len() - 1);
    }
}

/// Member access through `same_iflags_seq`.
pub proof fn lemma_same_iflags_seq_index(a: Seq<ElemV>, b: Seq<ElemV>, i: int)
    requires
        same_iflags_seq(a, b),
        0 <= i < a.len(),
    ensures
        same_iflags(a[i], b[i]),
    decreases a.len(),
{
    if i < a.len() - 1 {
        lemma_same_iflags_seq_index(a.drop_last(), b.drop_last(), i);
        assert(a.drop_last()[i] == a[i]);
        assert(b.drop_last()[i] == b[i]);
    }
}

/// Flag-equal trees have the same paths and the same flags at the end
/// of every path.
pub proof fn lemma_same_iflags_path(a: ElemV, b: ElemV, r: Seq<usize>)
    requires
        same_iflags(a, b),
    ensures
        spec_path_in(a, r) <==> spec_path_in(b, r),
        spec_path_in(a, r) ==> hnat(spec_at_elem(b, r)) == hnat(spec_at_elem(a, r)),
        spec_path_in(a, r) ==> pnat(spec_at_elem(b, r)) == pnat(spec_at_elem(a, r)),
    decreases r.len(),
{
    if r.len() > 0 && r[0] < a.childs.len() {
        lemma_same_iflags_seq_index(a.childs, b.childs, r[0] as int);
        lemma_same_iflags_path(a.childs[r[0] as int], b.childs[r[0] as int], r.drop_first());
    }
}

/// Flag-equal trees have equal counts.
pub proof fn lemma_same_iflags_count(a: ElemV, b: ElemV)
    requires
        same_iflags(a, b),
    ensures
        icount(a) == icount(b),
    decreases height(a), 0nat,
{
    lemma_same_iflags_seq_count(a.childs, b.childs);
}

/// As `lemma_same_iflags_count`, over sequences.
pub proof fn lemma_same_iflags_seq_count(a: Seq<ElemV>, b: Seq<ElemV>)
    requires
        same_iflags_seq(a, b),
    ensures
        icount_seq(a) == icount_seq(b),
    decreases seq_height(a), a.len(),
{
    if a.len() > 0 {
        lemma_seq_height_drop_last(a);
        lemma_seq_height_bound(a, a.len() - 1);
        lemma_same_iflags_count(a.last(), b.last());
        lemma_same_iflags_seq_count(a.drop_last(), b.drop_last());
    }
}

/// `same_iflags` is reflexive.
pub proof fn lemma_same_iflags_refl(e: ElemV)
    ensures
        same_iflags(e, e),
    decreases height(e), 0nat,
{
    lemma_same_iflags_seq_refl(e.childs);
}

/// As `lemma_same_iflags_refl`, over sequences.
pub proof fn lemma_same_iflags_seq_refl(s: Seq<ElemV>)
    ensures
        same_iflags_seq(s, s),
    decreases seq_height(s), s.len(),
{
    if s.len() > 0 {
        lemma_seq_height_drop_last(s);
        lemma_seq_height_bound(s, s.len() - 1);
        lemma_same_iflags_refl(s.last());
        lemma_same_iflags_seq_refl(s.drop_last());
    }
}

/// Replacing a member with a flag-equal one keeps the relation to the
/// original sequence.
pub proof fn lemma_same_iflags_seq_update(s: Seq<ElemV>, i: int, v: ElemV)
    requires
        0 <= i < s.len(),
        same_iflags(v, s[i]),
    ensures
        same_iflags_seq(s.update(i, v), s),
    decreases s.len(),
{
    let t = s.update(i, v);
    if i == s.len() - 1 {
        assert(t.drop_last() =~= s.drop_last());
        assert(t.last() == v);
        lemma_same_iflags_seq_refl(s.drop_last());
    } else {
        assert(t.drop_last() =~= s.drop_last().update(i, v));
        assert(t.last() == s.last());
        assert(s.drop_last()[i] == s[i]);
        lemma_same_iflags_seq_update(s.drop_last(), i, v);
        lemma_same_iflags_refl(s.last());
    }
}

/// A drag shift keeps every interaction flag.
pub proof fn lemma_move_same(e: ElemV, d: Vec2)
    ensures
        same_iflags(spec_move(e, d), e),
    decreases height(e), 0nat,
{
    lemma_move_seq_same(e.childs, d);
}

/// As `lemma_move_same`, over sequences.
pub proof fn lemma_move_seq_same(s: Seq<ElemV>, d: Vec2)
    ensures
        same_iflags_seq(spec_move_seq(s, d), s),
    decreases seq_height(s), s.len(),
{
    if s.len() > 0 {
        lemma_seq_height_drop_last(s);
        lemma_seq_height_bound(s, s.len() - 1);
        lemma_move_same(s.last(), d);
        lemma_move_seq_same(s.drop_last(), d);
        let t = spec_move_seq(s, d);
        assert(t.drop_last() =~= spec_move_seq(s.drop_last(), d));
        assert(t.last() == spec_move(s.last(), d));
    }
}

/// A targeted drag shift keeps every interaction flag.
pub proof fn lemma_move_at_same(e: ElemV, q: Seq<usize>, d: Vec2)
    requires
        spec_path_in(e, q),
    ensures
        same_iflags(spec_move_at(e, q, d), e),
    decreases q.len(),
{
    if q.len() == 0 {
        lemma_move_same(e, d);
    } else {
        let i = q[0] as int;
        lemma_move_at_same(e.childs[i], q.drop_first(), d);
        lemma_same_iflags_seq_update(e.childs, i, spec_move_at(e.childs[i], q.drop_first(), d));
    }
}

/// A full layout pass keeps every interaction flag.
#[verifier::rlimit(100)]
#[verifier::spinoff_prover]
pub proof fn lemma_build_same(e: ElemV, ctx: BuildContext, font: Font)
    ensures
        same_iflags(spec_build(e, ctx, font).0, e),
    decreases height(e), 0nat,
{
    reveal(crate::text::spec_build_text_elem);
    match e.inherit {
        UiTypeV::Text(t) => {
            assert(spec_build(e, ctx, font).0.childs == e.childs);
            lemma_same_iflags_seq_refl(e.childs);
        },
        _ => {
            let est = crate::element::spec_effective_style_v(e);
            let g = crate::layout::spec_box_geometry(est, ctx);
            let content_size = Vec2 {
                x: crate::px::sat64(g.0.x - est.padding.spec_x(g.0)) as i64,
                y: crate::px::sat64(g.0.y - est.padding.spec_y(g.0)) as i64,
            };
            let content_pos = g.1.spec_plus(est.padding.spec_start(g.0));
            lemma_build_seq_same(
                e.childs,
                BuildContext::spec_child(content_size, content_pos),
                font,
            );
        },
    }
}

/// As `lemma_build_same`, over a sibling sequence.
#[verifier::rlimit(100)]
#[verifier::spinoff_prover]
pub proof fn lemma_build_seq_same(s: Seq<ElemV>, ctx: BuildContext, font: Font)
    ensures
        same_iflags_seq(spec_build_seq(s, ctx, font).0, s),
    decreases seq_height(s), s.len(),
{
    if s.len() > 0 {
        lemma_seq_height_drop_last(s);
        lemma_seq_height_bound(s, s.len() - 1);
        let r = spec_build_seq(s.drop_last(), ctx, font);
        lemma_build_seq_same(s.drop_last(), ctx, font);
        lemma_build_same(s.last(), r.1, font);
        let full = spec_build_seq(s, ctx, font).0;
        assert(full.drop_last() =~= r.0);
        assert(full.last() == spec_build(s.last(), r.1, font).0);
    } else {
        assert(spec_build_seq(s, ctx, font).0 =~= s);
    }
}

/// A refresh walk keeps every interaction flag.
#[verifier::rlimit(100)]
#[verifier::spinoff_prover]
pub proof fn lemma_emit_same(e: ElemV, ps: Vec2, pp: Vec2, off: Vec2, font: Font)
    ensures
        same_iflags(crate::dirty::spec_emit(e, ps, pp, off, font).0, e),
    decreases height(e), 0nat,
{
    reveal(crate::dirty::spec_rebuild);
    reveal(crate::text::spec_build_text_elem);
    let e1 = crate::dirty::spec_refresh1(e, ps, pp, off, font);
    assert(hnat(e1) == hnat(e) && pnat(e1) == pnat(e) && e1.childs == e.childs);
    if e1.visible {
        lemma_emit_seq_same(e.childs, e1.computed.size, e1.computed.pos, font);
    } else {
        lemma_same_iflags_seq_refl(e.childs);
    }
}

/// As `lemma_emit_same`, over a sibling sequence.
#[verifier::rlimit(100)]
#[verifier::spinoff_prover]
pub proof fn lemma_emit_seq_same(s: Seq<ElemV>, ps: Vec2, pp: Vec2, font: Font)
    ensures
        same_iflags_seq(crate::dirty::spec_emit_seq(s, ps, pp, font).0, s),
    decreases seq_height(s), s.len(),
{
    if s.len() > 0 {
        lemma_seq_height_drop_last(s);
        lemma_seq_height_bound(s, s.len() - 1);
        let r = crate::dirty::spec_emit_seq(s.drop_last(), ps, pp, font);
        lemma_emit_seq_same(s.drop_last(), ps, pp, font);
        let off = if s.len() == 1 {
            Vec2 { x: 0i64, y: 0i64 }
        } else {
            crate::dirty::spec_sib_off(r.0.last(), pp)
        };
        lemma_emit_same(s.last(), ps, pp, off, font);
        let full = crate::dirty::spec_emit_seq(s, ps, pp, font).0;
        assert(full.drop_last() =~= r.0);
        assert(full.last() == crate::dirty::spec_emit(s.last(), ps, pp, off, font).0);
    } else {
        assert(crate::dirty::spec_emit_seq(s, ps, pp, font).0 =~= s);
    }
}

/// A payload with its interaction state dropped: buttons and drag
/// boxes return to idle, a check box forgets its hover and press (its
/// enabled flag stays).
pub open spec fn spec_clear_payload(t: UiTypeV) -> UiTypeV {
    match t {
        UiTypeV::Button(b) => UiTypeV::Button(Button { interaction: Interaction::Idle, ..b }),
        UiTypeV::CheckBox(c) => UiTypeV::CheckBox(CheckBox { selected: false, pressed: false, ..c }),
        UiTypeV::DragBox(d) => UiTypeV::DragBox(DragBox { interaction: Interaction::Idle, ..d }),
        other => other,
    }
}

/// A subtree with all interaction state dropped.
pub open spec fn spec_clear(e: ElemV) -> ElemV
    decreases height(e), 0nat,
{
    ElemV { inherit: spec_clear_payload(e.inherit), childs: spec_clear_seq(e.childs), ..e }
}

/// As `spec_clear`, over a sibling sequence.
pub open spec fn spec_clear_seq(s: Seq<ElemV>) -> Seq<ElemV>
    decreases seq_height(s), s.len(),
    via spec_clear_seq_dec
{
    if s.len() == 0 {
        Seq::empty()
    } else {
        spec_clear_seq(s.drop_last()).push(spec_clear(s.last()))
    }
}

#[via_fn]
proof fn spec_clear_seq_dec(s: Seq<ElemV>) {
    if s.len() > 0 {
        lemma_seq_height_drop_last(s);
        lemma_seq_height_bound(s, s.len() - 1);
    }
}

/// A cleared subtree holds no interaction state at all.
pub proof fn lemma_clear_count(e: ElemV)
    ensures
        icount(spec_clear(e)) == (0nat, 0nat),
    decreases height(e), 0nat,
{
    lemma_clear_seq_count(e.childs);
}

/// As `lemma_clear_count`, over a sibling sequence.
pub proof fn lemma_clear_seq_count(s: Seq<ElemV>)
    ensures
        icount_seq(spec_clear_seq(s)) == (0nat, 0nat),
    decreases seq_height(s), s.len(),
{
    if s.len() > 0 {
        lemma_seq_height_drop_last(s);
        lemma_seq_height_bound(s, s.len() - 1);
        lemma_clear_count(s.last());
        lemma_clear_seq_count(s.drop_last());
        let t = spec_clear_seq(s);
        assert(t.drop_last() =~= spec_clear_seq(s.drop_last()));
        assert(t.last() == spec_clear(s.last()));
    }
}

impl UiElement {
    /// Drops all interaction state in this subtree: buttons and drag
    /// boxes return to idle, check boxes forget their hover and press.
    pub fn clear_interactions(&mut self)
        ensures
            final(self)@ == spec_clear(old(self)@),
        decreases height(self@),
    {
        let ghost e0 = self@;
        proof {
            crate::element::lemma_seq_view_index(self.childs@);
        }
        match &mut self.inherit {
            UiType::Button(b) => {
                b.interaction = Interaction::Idle;
            },
            UiType::CheckBox(c) => {
                c.selected = false;
                c.pressed = false;
            },
            UiType::DragBox(d) => {
                d.interaction = Interaction::Idle;
            },
            _ => {},
        }
        let n = self.childs.len();
        let mut i: usize = 0;
        while i < n
            invariant
                i <= n,
                n == self.childs@.len(),
                e0.childs.len() == n,
                e0 == old(self)@,
                forall|j: int|
                    i <= j < n ==> crate::element::seq_view(self.childs@)[j] == e0.childs[j],
                crate::element::seq_view(self.childs@).len() == n,
                crate::element::seq_view(self.childs@).take(i as int) == spec_clear_seq(
                    e0.childs.take(i as int),
                ),
                self.style == old(self).style,
                self.visible == old(self).visible,
                self.dirty == old(self).dirty,
                self.computed == old(self).computed,
                self.inherit.view() == spec_clear_payload(e0.inherit),
            decreases n - i,
        {
            proof {
                crate::element::lemma_seq_view_index(self.childs@);
                lemma_seq_height_bound(e0.childs, i as int);
                assert(height(e0) == 1 + seq_height(e0.childs));
                assert(self.childs@[i as int]@ == e0.childs[i as int]);
            }
            let ghost pre_childs = self.childs@;
            let child = &mut self.childs[i];
            child.clear_interactions();
            proof {
                crate::element::lemma_seq_view_index(pre_childs);
                crate::element::lemma_seq_view_index(self.childs@);
                assert forall|j: int|
                    0 <= j < n && j != i implies crate::element::seq_view(self.childs@)[j]
                    == crate::element::seq_view(pre_childs)[j] by {
                    assert(self.childs@[j] == pre_childs[j]);
                    assert(crate::element::seq_view(self.childs@)[j] == self.childs@[j]@);
                    assert(crate::element::seq_view(pre_childs)[j] == pre_childs[j]@);
                }
                assert(e0.childs.take(i + 1 as int).drop_last() =~= e0.childs.take(i as int));
                assert(e0.childs.take(i + 1 as int).last() == e0.childs[i as int]);
                assert(crate::element::seq_view(self.childs@).take(i + 1 as int)
                    =~= crate::element::seq_view(pre_childs).take(i as int).push(
                    spec_clear(e0.childs[i as int]),
                ));
            }
            i = i + 1;
        }
        proof {
            assert(e0.childs.take(n as int) =~= e0.childs);
            crate::element::lemma_seq_view_index(self.childs@);
            assert(crate::element::seq_view(self.childs@).take(n as int)
                =~= crate::element::seq_view(self.childs@));
            assert(self@ =~= spec_clear(e0));
        }
    }
}

/// Clearing keeps the tree structurally sound.
pub proof fn lemma_clear_wf_inner(e: ElemV)
    requires
        crate::element::wf(e),
    ensures
        crate::element::wf(spec_clear(e)),
        spec_clear(e).childs.len() == e.childs.len(),
    decreases height(e), 0nat,
{
    lemma_clear_seq_wf(e.childs);
    lemma_clear_seq_index(e.childs);
}

/// `spec_clear_seq` maps indices through unchanged.
pub proof fn lemma_clear_seq_index(s: Seq<ElemV>)
    ensures
        spec_clear_seq(s).len() == s.len(),
        forall|i: int| 0 <= i < s.len() ==> spec_clear_seq(s)[i] == spec_clear(#[trigger] s[i]),
    decreases s.len(),
{
    if s.len() > 0 {
        lemma_clear_seq_index(s.drop_last());
        let t = spec_clear_seq(s);
        assert(t == spec_clear_seq(s.drop_last()).push(spec_clear(s.last())));
        assert forall|i: int| 0 <= i < s.len() implies t[i] == spec_clear(#[trigger] s[i]) by {
            if i < s.len() - 1 {
                assert(t[i] == spec_clear_seq(s.drop_last())[i]);
                assert(s.drop_last()[i] == s[i]);
            } else {
                assert(s[i] == s.last());
            }
        }
    }
}

/// As `lemma_clear_wf`, over a sibling sequence.
pub proof fn lemma_clear_seq_wf(s: Seq<ElemV>)
    requires
        crate::element::seq_wf(s),
    ensures
        crate::element::seq_wf(spec_clear_seq(s)),
        spec_clear_seq(s).len() == s.len(),
    decreases seq_height(s), s.len(),
{
    lemma_clear_seq_index(s);
    let t = spec_clear_seq(s);
    assert forall|i: int| 0 <= i < t.len() implies crate::element::wf(#[trigger] t[i]) by {
        crate::element::lemma_seq_wf_index(s, i);
        lemma_seq_height_bound(s, i);
        lemma_clear_wf_inner(s[i]);
        assert(t[i] == spec_clear(s[i]));
    }
    crate::element::lemma_seq_wf_from_pointwise(t);
}


} // verus!
