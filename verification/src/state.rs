//! The process-wide owner of the element tree: full builds, lazy
//! refresh before emission, and the hover/press/drag state machine.
//!
//! The state never hands out aliases into the tree: the hovered and
//! pressed elements are tracked as index paths, and widget callbacks
//! are delivered as queued messages the host drains after each event.

use vstd::prelude::*;

use crate::cursor::spec_apply_at;
use crate::cursor::spec_apply_op;
use crate::cursor::spec_at_elem;
use crate::cursor::spec_claims;
use crate::cursor::spec_find;
use crate::cursor::spec_find_seq;
use crate::cursor::spec_is_in_v;
use crate::cursor::spec_move_at;
use crate::cursor::spec_path_in;
use crate::cursor::NodeOp;
use crate::dirty::spec_emit_seq;
use crate::exclusive::hnat;
use crate::exclusive::icount_seq;
use crate::exclusive::pnat;
use crate::exclusive::spec_clear_seq;
use crate::element::lemma_seq_view_index;
use crate::element::lemma_seq_wf_index;
use crate::element::seq_view;
use crate::element::seq_wf;
use crate::element::ElemV;
use crate::element::UiElement;
use crate::element::UiType;
use crate::element::UiTypeV;
use crate::font::Font;
use crate::instance::UiInstance;
use crate::interaction::UiEvent;
use crate::layout::ord_inc;
use crate::layout::spec_build_seq;
use crate::layout::spec_ord_inc;
use crate::layout::BuildContext;
use crate::vec2::Vec2;

verus! {

/// Status: the event touched nothing.
pub const EVENT_NONE: u8 = 0;

/// Status: the event was absorbed without a state change, as when a
/// move refreshes an element that is already hovered.
pub const EVENT_BLOCKED: u8 = 1;

/// Status: a previously active interaction continued or ended.
pub const EVENT_OLD: u8 = 2;

/// Status: a new interaction began.
pub const EVENT_NEW: u8 = 3;

/// Which widget callback an event asks the host to run.
#[derive(Debug, Clone, Copy, PartialEq, Eq, Structural)]
pub enum CallbackKind {
    /// A press landed on the element.
    BeforePress,
    /// A press was released inside the element.
    Press,
    /// A check box toggled on.
    Enable,
    /// A check box toggled off.
    Disable,
    /// A slider's grip moved; carries the new value.
    SliderChanged(i64),
}

/// A queued callback request: which element, and which reaction.
pub struct UiCallbackEvent {
    pub path: Vec<usize>,
    pub kind: CallbackKind,
}

/// The mathematical value of a callback request.
pub ghost struct CallbackV {
    pub path: Seq<usize>,
    pub kind: CallbackKind,
}

impl UiCallbackEvent {
    pub open spec fn view(self) -> CallbackV {
        CallbackV { path: self.path@, kind: self.kind }
    }
}

/// The views of a queue of callback requests.
pub open spec fn cb_view(s: Seq<UiCallbackEvent>) -> Seq<CallbackV>
    decreases s,
{
    if s.len() == 0 {
        Seq::empty()
    } else {
        cb_view(s.drop_last()).push(s.last().view())
    }
}

/// Appending one request appends its view.
pub proof fn lemma_cb_view_push(s: Seq<UiCallbackEvent>, e: UiCallbackEvent)
    ensures
        cb_view(s.push(e)) == cb_view(s).push(e.view()),
{
    assert(s.push(e).drop_last() =~= s);
    assert(s.push(e).last() == e);
}

/// A root path's view.
pub open spec fn opt_path(o: Option<Vec<usize>>) -> Option<Seq<usize>> {
    match o {
        Some(v) => Some(v@),
        None => None,
    }
}

/// Whether a path into the root list stays in bounds.
pub open spec fn spec_path_in_roots(s: Seq<ElemV>, path: Seq<usize>) -> bool {
    &&& path.len() >= 1
    &&& path[0] < s.len()
    &&& spec_path_in(s[path[0] as int], path.drop_first())
}

/// The element a root path leads to.
pub open spec fn spec_at_roots(s: Seq<ElemV>, path: Seq<usize>) -> ElemV {
    spec_at_elem(s[path[0] as int], path.drop_first())
}

/// The root list with an interaction mutation applied at a path.
pub open spec fn spec_apply_roots(s: Seq<ElemV>, path: Seq<usize>, op: NodeOp) -> Seq<ElemV> {
    s.update(path[0] as int, spec_apply_at(s[path[0] as int], path.drop_first(), op))
}

/// The root list with the subtree at a path moved by a delta.
pub open spec fn spec_move_roots(s: Seq<ElemV>, path: Seq<usize>, d: Vec2) -> Seq<ElemV> {
    s.update(path[0] as int, spec_move_at(s[path[0] as int], path.drop_first(), d))
}

/// The exclusivity rule of the interaction design, stated over the
/// tracked paths: the hover count of the whole tree equals the hovered
/// flag of the element the selected path names (zero when none is
/// selected), and likewise for the pressed count and the pressed path.
/// In particular, at most one element is ever hovered and at most one
/// ever pressed.
pub open spec fn spec_interaction_inv(
    roots: Seq<ElemV>,
    selected: Option<Vec<usize>>,
    pressed: Option<Vec<usize>>,
) -> bool {
    &&& (match opt_path(selected) {
        None => icount_seq(roots).0 == 0,
        Some(p) => {
            &&& spec_path_in_roots(roots, p)
            &&& icount_seq(roots).0 == hnat(spec_at_roots(roots, p))
        },
    })
    &&& (match opt_path(pressed) {
        None => icount_seq(roots).1 == 0,
        Some(p) => {
            &&& spec_path_in_roots(roots, p)
            &&& icount_seq(roots).1 == pnat(spec_at_roots(roots, p))
        },
    })
}

/// A targeted mutation shifts the root-level counts by the target's
/// difference.
pub proof fn lemma_roots_apply_count(s: Seq<ElemV>, p: Seq<usize>, op: NodeOp)
    requires
        spec_path_in_roots(s, p),
    ensures
        icount_seq(spec_apply_roots(s, p, op)).0 + hnat(spec_at_roots(s, p)) == icount_seq(s).0
            + hnat(spec_apply_op(spec_at_roots(s, p), op)),
        icount_seq(spec_apply_roots(s, p, op)).1 + pnat(spec_at_roots(s, p)) == icount_seq(s).1
            + pnat(spec_apply_op(spec_at_roots(s, p), op)),
{
    let i = p[0] as int;
    crate::exclusive::lemma_apply_at_count(s[i], p.drop_first(), op);
    crate::exclusive::lemma_icount_seq_update(s, i, spec_apply_at(s[i], p.drop_first(), op));
}

/// A targeted mutation never changes which events the element at any
/// path claims.
pub proof fn lemma_roots_apply_kind(s: Seq<ElemV>, p: Seq<usize>, op: NodeOp, r: Seq<usize>, ev: UiEvent)
    requires
        spec_path_in_roots(s, p),
        spec_path_in_roots(s, r),
    ensures
        spec_claims(spec_at_roots(spec_apply_roots(s, p, op), r), ev) == spec_claims(
            spec_at_roots(s, r),
            ev,
        ),
{
    let t = spec_apply_roots(s, p, op);
    if r[0] == p[0] {
        lemma_apply_at_kind(s[p[0] as int], p.drop_first(), op, r.drop_first(), ev);
    } else {
        assert(t[r[0] as int] == s[r[0] as int]);
    }
}

/// A targeted mutation changes the flags of the target alone, and
/// keeps every path in bounds.
pub proof fn lemma_roots_apply_flags(s: Seq<ElemV>, p: Seq<usize>, op: NodeOp, r: Seq<usize>)
    requires
        spec_path_in_roots(s, p),
        spec_path_in_roots(s, r),
    ensures
        spec_path_in_roots(spec_apply_roots(s, p, op), r),
        hnat(spec_at_roots(spec_apply_roots(s, p, op), r)) == if r == p {
            hnat(spec_apply_op(spec_at_roots(s, p), op))
        } else {
            hnat(spec_at_roots(s, r))
        },
        pnat(spec_at_roots(spec_apply_roots(s, p, op), r)) == if r == p {
            pnat(spec_apply_op(spec_at_roots(s, p), op))
        } else {
            pnat(spec_at_roots(s, r))
        },
        forall|ev: UiEvent|
            spec_claims(#[trigger] spec_at_roots(spec_apply_roots(s, p, op), r), ev)
                == spec_claims(spec_at_roots(s, r), ev),
{
    let t = spec_apply_roots(s, p, op);
    assert forall|ev: UiEvent|
        spec_claims(#[trigger] spec_at_roots(t, r), ev) == spec_claims(
            spec_at_roots(s, r),
            ev,
        ) by {
        lemma_roots_apply_kind(s, p, op, r, ev);
    }
    if r[0] == p[0] {
        crate::exclusive::lemma_apply_at_flags(
            s[p[0] as int],
            p.drop_first(),
            op,
            r.drop_first(),
        );
        assert(r == p <==> r.drop_first() == p.drop_first()) by {
            assert(r =~= seq![r[0]] + r.drop_first());
            assert(p =~= seq![p[0]] + p.drop_first());
            if r.drop_first() == p.drop_first() && r[0] == p[0] {
                assert(r =~= p);
            }
        }
    } else {
        assert(r != p);
        assert(t[r[0] as int] == s[r[0] as int]);
    }
}

/// As `lemma_roots_apply_kind`, within one subtree.
pub proof fn lemma_apply_at_kind(e: ElemV, q: Seq<usize>, op: NodeOp, r: Seq<usize>, ev: UiEvent)
    requires
        spec_path_in(e, q),
        spec_path_in(e, r),
    ensures
        spec_claims(spec_at_elem(spec_apply_at(e, q, op), r), ev) == spec_claims(
            spec_at_elem(e, r),
            ev,
        ),
    decreases q.len(),
{
    crate::cursor::lemma_apply_at_shape(e, q, op, r);
    if q.len() == 0 {
        assert(spec_apply_at(e, q, op).childs == e.childs);
        if r.len() == 0 {
            lemma_op_claims(e, op, ev);
        }
    } else {
        let f = spec_apply_at(e, q, op);
        if r.len() == 0 {
        } else if r[0] == q[0] {
            lemma_apply_at_kind(e.childs[q[0] as int], q.drop_first(), op, r.drop_first(), ev);
        } else {
            assert(f.childs[r[0] as int] == e.childs[r[0] as int]);
        }
    }
}

/// The flags of any reachable element are within the root counts.
pub proof fn lemma_roots_at_le(s: Seq<ElemV>, p: Seq<usize>)
    requires
        spec_path_in_roots(s, p),
    ensures
        hnat(spec_at_roots(s, p)) <= icount_seq(s).0,
        pnat(spec_at_roots(s, p)) <= icount_seq(s).1,
{
    crate::exclusive::lemma_at_le_count(s[p[0] as int], p.drop_first());
    crate::exclusive::lemma_icount_seq_index(s, p[0] as int);
}

/// Two distinct reachable elements contribute separately to the root
/// counts.
pub proof fn lemma_roots_two(s: Seq<ElemV>, p1: Seq<usize>, p2: Seq<usize>)
    requires
        spec_path_in_roots(s, p1),
        spec_path_in_roots(s, p2),
        p1 != p2,
    ensures
        hnat(spec_at_roots(s, p1)) + hnat(spec_at_roots(s, p2)) <= icount_seq(s).0,
        pnat(spec_at_roots(s, p1)) + pnat(spec_at_roots(s, p2)) <= icount_seq(s).1,
{
    if p1[0] == p2[0] {
        assert(p1.drop_first() != p2.drop_first()) by {
            assert(p1 =~= seq![p1[0]] + p1.drop_first());
            assert(p2 =~= seq![p2[0]] + p2.drop_first());
        }
        crate::exclusive::lemma_two_paths(s[p1[0] as int], p1.drop_first(), p2.drop_first());
        crate::exclusive::lemma_icount_seq_index(s, p1[0] as int);
    } else {
        crate::exclusive::lemma_at_le_count(s[p1[0] as int], p1.drop_first());
        crate::exclusive::lemma_at_le_count(s[p2[0] as int], p2.drop_first());
        if p1[0] < p2[0] {
            crate::exclusive::lemma_icount_seq_pair(s, p1[0] as int, p2[0] as int);
        } else {
            crate::exclusive::lemma_icount_seq_pair(s, p2[0] as int, p1[0] as int);
        }
    }
}

/// A drag shift keeps every root count, every path and every flag.
pub proof fn lemma_roots_move(s: Seq<ElemV>, p: Seq<usize>, d: Vec2, r: Seq<usize>)
    requires
        spec_path_in_roots(s, p),
    ensures
        icount_seq(spec_move_roots(s, p, d)) == icount_seq(s),
        spec_path_in_roots(s, r) ==> {
            &&& spec_path_in_roots(spec_move_roots(s, p, d), r)
            &&& hnat(spec_at_roots(spec_move_roots(s, p, d), r)) == hnat(spec_at_roots(s, r))
            &&& pnat(spec_at_roots(spec_move_roots(s, p, d), r)) == pnat(spec_at_roots(s, r))
        },
{
    let i = p[0] as int;
    let v = spec_move_at(s[i], p.drop_first(), d);
    crate::exclusive::lemma_move_at_same(s[i], p.drop_first(), d);
    crate::exclusive::lemma_same_iflags_count(v, s[i]);
    crate::exclusive::lemma_icount_seq_update(s, i, v);
    let t = spec_move_roots(s, p, d);
    if spec_path_in_roots(s, r) {
        if r[0] == p[0] {
            crate::exclusive::lemma_same_iflags_path(v, s[i], r.drop_first());
        } else {
            assert(t[r[0] as int] == s[r[0] as int]);
        }
    }
}

/// The headline reading of the invariant: at most one element in the
/// whole tree is hovered, and at most one is pressed.
pub proof fn lemma_single_interaction(
    roots: Seq<ElemV>,
    sel: Option<Vec<usize>>,
    pr: Option<Vec<usize>>,
)
    requires
        spec_interaction_inv(roots, sel, pr),
    ensures
        icount_seq(roots).0 <= 1,
        icount_seq(roots).1 <= 1,
{
}

/// A refresh walk keeps the single-hover, single-press rule: it never
/// touches interaction state.
pub proof fn lemma_emit_keeps_inv(
    s: Seq<ElemV>,
    ui: Vec2,
    font: Font,
    sel: Option<Vec<usize>>,
    pr: Option<Vec<usize>>,
)
    requires
        spec_interaction_inv(s, sel, pr),
    ensures
        spec_interaction_inv(
            spec_emit_seq(s, ui, Vec2 { x: 0i64, y: 0i64 }, font).0,
            sel,
            pr,
        ),
{
    let t = spec_emit_seq(s, ui, Vec2 { x: 0i64, y: 0i64 }, font).0;
    crate::exclusive::lemma_emit_seq_same(s, ui, Vec2 { x: 0i64, y: 0i64 }, font);
    crate::exclusive::lemma_same_iflags_seq_count(t, s);
    match opt_path(sel) {
        Some(p) => {
            crate::exclusive::lemma_same_iflags_seq_index(t, s, p[0] as int);
            crate::exclusive::lemma_same_iflags_path(t[p[0] as int], s[p[0] as int], p.drop_first());
        },
        None => {},
    }
    match opt_path(pr) {
        Some(p) => {
            crate::exclusive::lemma_same_iflags_seq_index(t, s, p[0] as int);
            crate::exclusive::lemma_same_iflags_path(t[p[0] as int], s[p[0] as int], p.drop_first());
        },
        None => {},
    }
}

/// How each interaction mutation moves the two flags of its target.
pub proof fn lemma_op_flags(x: ElemV, op: NodeOp)
    ensures
        op is Unpress ==> pnat(spec_apply_op(x, op)) == 0,
        op is Unpress ==> hnat(spec_apply_op(x, op)) <= hnat(x),
        op is Press ==> hnat(spec_apply_op(x, op)) <= hnat(x),
        op is Press && spec_claims(x, UiEvent::Press) ==> pnat(spec_apply_op(x, op)) == 1,
        op is Press ==> pnat(spec_apply_op(x, op)) <= 1,
        op is Toggle ==> spec_apply_op(x, op) == (ElemV {
            inherit: spec_apply_op(x, op).inherit,
            dirty: spec_apply_op(x, op).dirty,
            ..x
        }) && hnat(spec_apply_op(x, op)) == hnat(x) && pnat(spec_apply_op(x, op)) == pnat(x),
        op matches NodeOp::SetValue(_) ==> hnat(spec_apply_op(x, op)) == hnat(x) && pnat(
            spec_apply_op(x, op),
        ) == pnat(x),
        op == NodeOp::Hover(true) && spec_claims(x, UiEvent::Move) ==> hnat(
            spec_apply_op(x, op),
        ) == 1,
        op == NodeOp::Hover(false) ==> hnat(spec_apply_op(x, op)) == 0,
        op matches NodeOp::Hover(_) ==> pnat(spec_apply_op(x, op)) <= pnat(x),
{
}

/// An interaction mutation never changes which events a payload
/// claims.
pub proof fn lemma_op_claims(x: ElemV, op: NodeOp, ev: UiEvent)
    ensures
        spec_claims(spec_apply_op(x, op), ev) == spec_claims(x, ev),
{
}

/// The pressed flag a hover operation leaves: only a button's is
/// touched, and only downward.
pub proof fn lemma_hover_pnat(x: ElemV, on: bool)
    ensures
        pnat(x) == 0 ==> pnat(spec_apply_op(x, NodeOp::Hover(on))) == 0,
        hnat(x) == 0 && !on ==> hnat(spec_apply_op(x, NodeOp::Hover(on))) == 0,
        hnat(x) == 0 && on && !spec_claims(x, UiEvent::Move) ==> hnat(
            spec_apply_op(x, NodeOp::Hover(on)),
        ) == 0,
{
}

/// A press transition keeps the single-hover, single-press rule.
#[verifier::rlimit(100)]
#[verifier::spinoff_prover]
pub proof fn lemma_press_keeps_inv(pre: UiState, post: UiState, cursor: Vec2, r: u8)
    requires
        spec_press_post(pre, post, cursor, r),
        spec_interaction_inv(pre.roots(), pre.selected, pre.pressed),
    ensures
        spec_interaction_inv(post.roots(), post.selected, post.pressed),
{
    let rv = pre.roots();
    match spec_find_seq(rv, cursor, UiEvent::Press) {
        Some(p) => {
            let rv1 = match opt_path(pre.pressed) {
                Some(q) => if spec_path_in_roots(rv, q) {
                    spec_apply_roots(rv, q, NodeOp::Unpress)
                } else {
                    rv
                },
                None => rv,
            };
            // Releasing the stale press zeroes the pressed count and
            // keeps the hover bookkeeping intact.
            match opt_path(pre.pressed) {
                Some(q) => {
                    lemma_roots_apply_count(rv, q, NodeOp::Unpress);
                    lemma_op_flags(spec_at_roots(rv, q), NodeOp::Unpress);
                    lemma_roots_apply_flags(rv, q, NodeOp::Unpress, p);
                    match opt_path(pre.selected) {
                        Some(s) => {
                            lemma_roots_apply_flags(rv, q, NodeOp::Unpress, s);
                            if s != q {
                                lemma_roots_two(rv, s, q);
                                lemma_hover_pnat(spec_at_roots(rv, q), false);
                                assert(hnat(spec_at_roots(rv, q)) == 0);
                                assert(hnat(spec_apply_op(spec_at_roots(rv, q), NodeOp::Unpress))
                                    == 0);
                            }
                        },
                        None => {
                            lemma_roots_at_le(rv, q);
                        },
                    }
                },
                None => {},
            }
            assert(icount_seq(rv1).1 == 0);
            // Pressing the target sets exactly one pressed flag.
            lemma_roots_apply_count(rv1, p, NodeOp::Press);
            lemma_roots_at_le(rv1, p);
            lemma_op_flags(spec_at_roots(rv1, p), NodeOp::Press);
            assert(spec_claims(spec_at_roots(rv1, p), UiEvent::Press));
            lemma_roots_apply_flags(rv1, p, NodeOp::Press, p);
            match opt_path(pre.selected) {
                Some(s) => {
                    lemma_roots_apply_flags(rv1, p, NodeOp::Press, s);
                    if s != p {
                        lemma_roots_two(rv1, s, p);
                        assert(hnat(spec_at_roots(rv1, p)) == 0);
                    }
                },
                None => {},
            }
        },
        None => {},
    }
}

/// A release transition keeps the single-hover, single-press rule.
#[verifier::rlimit(100)]
#[verifier::spinoff_prover]
pub proof fn lemma_release_keeps_inv(pre: UiState, post: UiState, cursor: Vec2, r: u8)
    requires
        spec_release_post(pre, post, cursor, r),
        spec_interaction_inv(pre.roots(), pre.selected, pre.pressed),
    ensures
        spec_interaction_inv(post.roots(), post.selected, post.pressed),
{
    let rv = pre.roots();
    match opt_path(pre.pressed) {
        Some(p) => {
            if spec_path_in_roots(rv, p) {
                let rv1 = spec_apply_roots(rv, p, NodeOp::Unpress);
                lemma_roots_apply_count(rv, p, NodeOp::Unpress);
                lemma_op_flags(spec_at_roots(rv, p), NodeOp::Unpress);
                match opt_path(pre.selected) {
                    Some(s) => {
                        lemma_roots_apply_flags(rv, p, NodeOp::Unpress, s);
                        if s != p {
                            lemma_roots_two(rv, s, p);
                            lemma_hover_pnat(spec_at_roots(rv, p), false);
                            assert(hnat(spec_at_roots(rv, p)) == 0);
                            assert(hnat(spec_apply_op(spec_at_roots(rv, p), NodeOp::Unpress))
                                == 0);
                        }
                    },
                    None => {
                        lemma_roots_at_le(rv, p);
                    },
                }
                lemma_roots_apply_flags(rv, p, NodeOp::Unpress, p);
                if spec_at_roots(rv, p).inherit is CheckBox && spec_is_in_v(
                    spec_at_roots(rv, p),
                    cursor,
                ) {
                    lemma_roots_apply_count(rv1, p, NodeOp::Toggle);
                    lemma_op_flags(spec_at_roots(rv1, p), NodeOp::Toggle);
                    match opt_path(pre.selected) {
                        Some(s) => {
                            lemma_roots_apply_flags(rv, p, NodeOp::Unpress, p);
                            lemma_roots_apply_flags(rv1, p, NodeOp::Toggle, s);
                        },
                        None => {},
                    }
                }
            }
        },
        None => {},
    }
}

/// A hover transition keeps the single-hover, single-press rule.
#[verifier::rlimit(100)]
#[verifier::spinoff_prover]
pub proof fn lemma_hover_keeps_inv(pre: UiState, post: UiState, cursor: Vec2, r: u8)
    requires
        spec_hover_post(pre, post, cursor, r),
        spec_interaction_inv(pre.roots(), pre.selected, pre.pressed),
    ensures
        spec_interaction_inv(post.roots(), post.selected, post.pressed),
{
    let rv = pre.roots();
    match spec_find_seq(rv, cursor, UiEvent::Move) {
        Some(p) => {
            let target = spec_at_roots(rv, p);
            let already = match target.inherit {
                UiTypeV::Button(b) => b.interaction is Hover,
                UiTypeV::CheckBox(c) => c.selected,
                _ => false,
            };
            if !already {
                let rv1 = match opt_path(pre.selected) {
                    Some(q) => if spec_path_in_roots(rv, q) {
                        spec_apply_roots(rv, q, NodeOp::Hover(false))
                    } else {
                        rv
                    },
                    None => rv,
                };
                // Clearing the old hover zeroes the hover count and
                // keeps the pressed bookkeeping intact.
                match opt_path(pre.selected) {
                    Some(q) => {
                        lemma_roots_apply_count(rv, q, NodeOp::Hover(false));
                        lemma_op_flags(spec_at_roots(rv, q), NodeOp::Hover(false));
                        lemma_roots_apply_flags(rv, q, NodeOp::Hover(false), p);
                        match opt_path(pre.pressed) {
                            Some(w) => {
                                lemma_roots_apply_flags(rv, q, NodeOp::Hover(false), w);
                                if w != q {
                                    lemma_roots_two(rv, w, q);
                                    lemma_hover_pnat(spec_at_roots(rv, q), false);
                                    assert(pnat(spec_at_roots(rv, q)) == 0);
                                }
                            },
                            None => {
                                lemma_roots_at_le(rv, q);
                                lemma_hover_pnat(spec_at_roots(rv, q), false);
                            },
                        }
                    },
                    None => {},
                }
                assert(icount_seq(rv1).0 == 0);
                // Setting the new hover raises exactly one flag.
                lemma_roots_apply_count(rv1, p, NodeOp::Hover(true));
                lemma_roots_at_le(rv1, p);
                lemma_op_flags(spec_at_roots(rv1, p), NodeOp::Hover(true));
                assert(spec_claims(spec_at_roots(rv1, p), UiEvent::Move));
                lemma_roots_apply_flags(rv1, p, NodeOp::Hover(true), p);
                match opt_path(pre.pressed) {
                    Some(w) => {
                        lemma_roots_apply_flags(rv1, p, NodeOp::Hover(true), w);
                        if w != p {
                            lemma_roots_two(rv1, w, p);
                            lemma_hover_pnat(spec_at_roots(rv1, p), true);
                            assert(pnat(spec_at_roots(rv1, p)) == 0);
                        }
                    },
                    None => {},
                }
            }
        },
        None => {
            match opt_path(pre.selected) {
                Some(q) => {
                    if spec_path_in_roots(rv, q) {
                        lemma_roots_apply_count(rv, q, NodeOp::Hover(false));
                        lemma_op_flags(spec_at_roots(rv, q), NodeOp::Hover(false));
                        match opt_path(pre.pressed) {
                            Some(w) => {
                                lemma_roots_apply_flags(rv, q, NodeOp::Hover(false), w);
                                if w != q {
                                    lemma_roots_two(rv, w, q);
                                    lemma_hover_pnat(spec_at_roots(rv, q), false);
                                    assert(pnat(spec_at_roots(rv, q)) == 0);
                                }
                            },
                            None => {
                                lemma_roots_at_le(rv, q);
                                lemma_hover_pnat(spec_at_roots(rv, q), false);
                            },
                        }
                    }
                },
                None => {},
            }
        },
    }
}

/// A drag transition keeps the single-hover, single-press rule.
#[verifier::rlimit(100)]
#[verifier::spinoff_prover]
pub proof fn lemma_drag_keeps_inv(
    pre: UiState,
    post: UiState,
    p: Seq<usize>,
    cursor: Vec2,
    prev: Vec2,
    r: u8,
)
    requires
        spec_drag_post(pre, post, p, cursor, prev, r),
        spec_path_in_roots(pre.roots(), p),
        spec_at_roots(pre.roots(), p).inherit is DragBox,
        opt_path(pre.pressed) == Some(p),
        spec_interaction_inv(pre.roots(), pre.selected, pre.pressed),
    ensures
        spec_interaction_inv(post.roots(), post.selected, post.pressed),
{
    let rv = pre.roots();
    let dg = spec_at_roots(rv, p).inherit->DragBox_0;
    let md = crate::cursor::spec_mask_delta(cursor.spec_minus(prev), dg.axis);
    let q = p.drop_last();
    if p.len() >= 2 && spec_at_roots(rv, q).inherit is Slider {
        crate::cursor::lemma_path_in_prefix(rv[p[0] as int], p.drop_first());
        assert(p.drop_last().drop_first() =~= p.drop_first().drop_last());
        assert(q[0] == p[0]);
        assert(spec_path_in_roots(rv, q));
        let sl = spec_at_roots(rv, q).inherit->Slider_0;
        let grip = spec_at_roots(rv, p);
        let par = spec_at_roots(rv, q);
        let cdx = crate::cursor::spec_slider_clamp(
            grip.computed.pos.x as int,
            grip.computed.size.x as int,
            par.computed.pos.x as int,
            par.computed.size.x as int,
            md.x as int,
        );
        let md2 = Vec2 { x: cdx as i64, y: md.y };
        let space = crate::px::sat64(par.computed.size.x - grip.computed.size.x);
        let val = crate::cursor::spec_slider_value(
            sl.min_value as int,
            sl.max_value as int,
            grip.computed.pos.x as int,
            par.computed.pos.x as int,
            space,
        );
        let rv2 = spec_apply_roots(rv, q, NodeOp::SetValue(val as i64));
        lemma_roots_apply_count(rv, q, NodeOp::SetValue(val as i64));
        lemma_op_flags(spec_at_roots(rv, q), NodeOp::SetValue(val as i64));
        lemma_roots_apply_flags(rv, q, NodeOp::SetValue(val as i64), p);
        lemma_roots_apply_flags(rv, q, NodeOp::SetValue(val as i64), q);
        match opt_path(pre.selected) {
            Some(s) => {
                lemma_roots_apply_flags(rv, q, NodeOp::SetValue(val as i64), s);
            },
            None => {},
        }
        let t = if dg.move_parent {
            q
        } else {
            p
        };
        assert(spec_path_in_roots(rv2, t));
        lemma_roots_move(rv2, t, md2, p);
        match opt_path(pre.selected) {
            Some(s) => {
                lemma_roots_move(rv2, t, md2, s);
            },
            None => {
                lemma_roots_move(rv2, t, md2, p);
            },
        }
    } else {
        let t = if dg.move_parent && p.len() >= 2 {
            q
        } else {
            p
        };
        if dg.move_parent && p.len() >= 2 {
            crate::cursor::lemma_path_in_prefix(rv[p[0] as int], p.drop_first());
            assert(p.drop_last().drop_first() =~= p.drop_first().drop_last());
            assert(q[0] == p[0]);
        }
        assert(spec_path_in_roots(rv, t));
        lemma_roots_move(rv, t, md, p);
        match opt_path(pre.selected) {
            Some(s) => {
                lemma_roots_move(rv, t, md, s);
            },
            None => {},
        }
    }
}

/// What a press event leaves behind. If the hit test finds a claiming
/// element, any stale pressed element is released first, the target
/// goes to its pressed state and is recorded, and — unless it is a
/// drag box — a before-press callback is queued; otherwise nothing
/// changes.
pub open spec fn spec_press_post(pre: UiState, post: UiState, cursor: Vec2, r: u8) -> bool {
    let rv = pre.roots();
    match spec_find_seq(rv, cursor, UiEvent::Press) {
        Some(p) => {
            let unp = match opt_path(pre.pressed) {
                Some(q) => if spec_path_in_roots(rv, q) {
                    spec_apply_roots(rv, q, NodeOp::Unpress)
                } else {
                    rv
                },
                None => rv,
            };
            &&& spec_path_in_roots(rv, p)
            &&& spec_claims(spec_at_roots(rv, p), UiEvent::Press)
            &&& post.roots() == spec_apply_roots(unp, p, NodeOp::Press)
            &&& opt_path(post.pressed) == Some(p)
            &&& r == EVENT_NEW
            &&& cb_view(post.pending@) == if spec_at_roots(rv, p).inherit is DragBox {
                cb_view(pre.pending@)
            } else {
                cb_view(pre.pending@).push(CallbackV { path: p, kind: CallbackKind::BeforePress })
            }
            &&& post.selected == pre.selected
        },
        None => {
            &&& post.elements == pre.elements
            &&& post.pressed == pre.pressed
            &&& post.pending == pre.pending
            &&& post.selected == pre.selected
            &&& r == EVENT_NONE
        },
    }
}

/// What a release event leaves behind. A recorded press is undone and
/// dropped; released inside its bounds, a button queues its press
/// callback and a check box toggles, queueing enable or disable.
pub open spec fn spec_release_post(pre: UiState, post: UiState, cursor: Vec2, r: u8) -> bool {
    let rv = pre.roots();
    match opt_path(pre.pressed) {
        Some(p) => {
            if spec_path_in_roots(rv, p) {
                let target = spec_at_roots(rv, p);
                let unpressed = spec_apply_roots(rv, p, NodeOp::Unpress);
                let inside = spec_is_in_v(target, cursor);
                &&& post.pressed is None
                &&& r == EVENT_OLD
                &&& post.selected == pre.selected
                &&& (match target.inherit {
                    UiTypeV::CheckBox(c) => {
                        if inside {
                            &&& post.roots() == spec_apply_roots(unpressed, p, NodeOp::Toggle)
                            &&& cb_view(post.pending@) == cb_view(pre.pending@).push(
                                CallbackV {
                                    path: p,
                                    kind: if c.enabled {
                                        CallbackKind::Disable
                                    } else {
                                        CallbackKind::Enable
                                    },
                                },
                            )
                        } else {
                            &&& post.roots() == unpressed
                            &&& post.pending == pre.pending
                        }
                    },
                    UiTypeV::Button(_) => {
                        &&& post.roots() == unpressed
                        &&& cb_view(post.pending@) == if inside {
                            cb_view(pre.pending@).push(
                                CallbackV { path: p, kind: CallbackKind::Press },
                            )
                        } else {
                            cb_view(pre.pending@)
                        }
                    },
                    _ => {
                        &&& post.roots() == unpressed
                        &&& post.pending == pre.pending
                    },
                })
            } else {
                &&& post.elements == pre.elements
                &&& post.pressed is None
                &&& post.pending == pre.pending
                &&& post.selected == pre.selected
                &&& r == EVENT_NONE
            }
        },
        None => {
            &&& post.elements == pre.elements
            &&& post.pressed == pre.pressed
            &&& post.pending == pre.pending
            &&& post.selected == pre.selected
            &&& r == EVENT_NONE
        },
    }
}

/// What a cursor move with no drag under way leaves behind: hover
/// tracking. A claim by an already-hovered element only refreshes it;
/// a claim by a new element moves the hover there, clearing the old
/// one; no claim clears any hover left over.
pub open spec fn spec_hover_post(pre: UiState, post: UiState, cursor: Vec2, r: u8) -> bool {
    let rv = pre.roots();
    &&& post.pressed == pre.pressed
    &&& post.pending == pre.pending
    &&& (match spec_find_seq(rv, cursor, UiEvent::Move) {
        Some(p) => {
            let target = spec_at_roots(rv, p);
            &&& spec_path_in_roots(rv, p)
            &&& spec_claims(target, UiEvent::Move)
            &&& ({
            let already = match target.inherit {
                UiTypeV::Button(b) => b.interaction is Hover,
                UiTypeV::CheckBox(c) => c.selected,
                _ => false,
            };
            if already {
                &&& post.elements == pre.elements
                &&& post.selected == pre.selected
                &&& r == EVENT_BLOCKED
            } else {
                let cleared = match opt_path(pre.selected) {
                    Some(q) => if spec_path_in_roots(rv, q) {
                        spec_apply_roots(rv, q, NodeOp::Hover(false))
                    } else {
                        rv
                    },
                    None => rv,
                };
                &&& post.roots() == spec_apply_roots(cleared, p, NodeOp::Hover(true))
                &&& opt_path(post.selected) == Some(p)
                &&& r == EVENT_NEW
            }
            })
        },
        None => {
            match opt_path(pre.selected) {
                Some(q) => {
                    &&& (if spec_path_in_roots(rv, q) {
                        post.roots() == spec_apply_roots(rv, q, NodeOp::Hover(false)) && r
                            == EVENT_OLD
                    } else {
                        post.elements == pre.elements && r == EVENT_NONE
                    })
                    &&& post.selected is None
                },
                None => {
                    &&& post.elements == pre.elements
                    &&& post.selected is None
                    &&& r == EVENT_NONE
                },
            }
        },
    })
}

/// What a cursor move with a drag box pressed leaves behind: the
/// cursor delta is masked by the box's axes; inside a slider the
/// horizontal delta is clamped to the track, the slider's value is
/// updated from the grip position and a value-changed callback is
/// queued; then the delta moves the box or — for a parent-moving box
/// with a parent — its whole parent subtree.
pub open spec fn spec_drag_post(
    pre: UiState,
    post: UiState,
    p: Seq<usize>,
    cursor: Vec2,
    prev: Vec2,
    r: u8,
) -> bool {
    let rv = pre.roots();
    let dg = spec_at_roots(rv, p).inherit->DragBox_0;
    let md = crate::cursor::spec_mask_delta(cursor.spec_minus(prev), dg.axis);
    let q = p.drop_last();
    &&& r == EVENT_OLD
    &&& post.selected == pre.selected
    &&& post.pressed == pre.pressed
    &&& (if p.len() >= 2 && spec_at_roots(rv, q).inherit is Slider {
        let sl = spec_at_roots(rv, q).inherit->Slider_0;
        let grip = spec_at_roots(rv, p);
        let par = spec_at_roots(rv, q);
        let cdx = crate::cursor::spec_slider_clamp(
            grip.computed.pos.x as int,
            grip.computed.size.x as int,
            par.computed.pos.x as int,
            par.computed.size.x as int,
            md.x as int,
        );
        let md2 = Vec2 { x: cdx as i64, y: md.y };
        let space = crate::px::sat64(par.computed.size.x - grip.computed.size.x);
        let val = crate::cursor::spec_slider_value(
            sl.min_value as int,
            sl.max_value as int,
            grip.computed.pos.x as int,
            par.computed.pos.x as int,
            space,
        );
        let rv2 = spec_apply_roots(rv, q, NodeOp::SetValue(val as i64));
        &&& post.roots() == spec_move_roots(
            rv2,
            if dg.move_parent {
                q
            } else {
                p
            },
            md2,
        )
        &&& cb_view(post.pending@) == cb_view(pre.pending@).push(
            CallbackV { path: q, kind: CallbackKind::SliderChanged(val as i64) },
        )
    } else {
        &&& post.roots() == spec_move_roots(
            rv,
            if dg.move_parent && p.len() >= 2 {
                q
            } else {
                p
            },
            md,
        )
        &&& post.pending == pre.pending
    })
}

/// The retained user-interface state: the tree, the one hovered and
/// one pressed element (as paths), the cursor, the glyph metrics, and
/// the queue of callback requests for the host.
pub struct UiState {
    pub elements: Vec<UiElement>,
    pub selected: Option<Vec<usize>>,
    pub pressed: Option<Vec<usize>>,
    pub cursor_pos: Vec2,
    pub font: Font,
    pub visible: bool,
    pub dirty: bool,
    pub pending: Vec<UiCallbackEvent>,
}

impl UiState {
    /// The tree is structurally sound and the metrics table is full.
    pub open spec fn wf(self) -> bool {
        &&& seq_wf(seq_view(self.elements@))
        &&& self.font.wf()
    }

    /// The view of the root list.
    pub open spec fn roots(self) -> Seq<ElemV> {
        seq_view(self.elements@)
    }

    /// An empty state with an all-zero glyph table; the host supplies
    /// real metrics through `font`.
    pub fn create(visible: bool) -> (r: UiState)
        ensures
            r.elements@.len() == 0,
            r.selected is None,
            r.pressed is None,
            r.visible == visible,
            !r.dirty,
            r.pending@.len() == 0,
            r.cursor_pos == (Vec2 { x: 0i64, y: 0i64 }),
            r.wf(),
            spec_interaction_inv(r.roots(), r.selected, r.pressed),
    {
        let empty: Vec<u8> = Vec::new();
        let r = UiState {
            elements: Vec::new(),
            selected: None,
            pressed: None,
            cursor_pos: Vec2 { x: 0, y: 0 },
            font: Font::parse_from_bytes(empty.as_slice()),
            visible,
            dirty: false,
            pending: Vec::new(),
        };
        proof {
            assert(seq_view(r.elements@) =~= Seq::<ElemV>::empty());
        }
        r
    }

    /// Replaces the glyph-metrics table.
    pub fn font(&mut self, font: Font)
        requires
            font.wf(),
        ensures
            final(self).font == font,
            final(self).elements == old(self).elements,
            final(self).selected == old(self).selected,
            final(self).pressed == old(self).pressed,
            final(self).visible == old(self).visible,
            final(self).wf() == seq_wf(seq_view(old(self).elements@)),
    {
        self.font = font;
    }

    /// Takes ownership of a new root element.
    pub fn add_element(&mut self, element: UiElement)
        ensures
            final(self).elements@ == old(self).elements@.push(element),
            final(self).roots() == old(self).roots().push(element@),
            final(self).font == old(self).font,
            final(self).selected == old(self).selected,
            final(self).pressed == old(self).pressed,
            final(self).visible == old(self).visible,
            final(self).dirty == old(self).dirty,
            final(self).pending == old(self).pending,
            spec_interaction_inv(old(self).roots(), old(self).selected, old(self).pressed)
                && crate::exclusive::icount(element@) == (0nat, 0nat) ==> spec_interaction_inv(
                final(self).roots(),
                final(self).selected,
                final(self).pressed,
            ),
    {
        let ghost rv = self.roots();
        proof {
            crate::element::lemma_seq_view_push(self.elements@, element);
        }
        self.elements.push(element);
        proof {
            let t = rv.push(element@);
            assert(t.drop_last() =~= rv);
            assert(t.last() == element@);
            if spec_interaction_inv(rv, old(self).selected, old(self).pressed)
                && crate::exclusive::icount(element@) == (0nat, 0nat) {
                match opt_path(old(self).selected) {
                    Some(p) => {
                        assert(t[p[0] as int] == rv[p[0] as int]);
                    },
                    None => {},
                }
                match opt_path(old(self).pressed) {
                    Some(p) => {
                        assert(t[p[0] as int] == rv[p[0] as int]);
                    },
                    None => {},
                }
            }
        }
    }

    /// The full layout pass: every root is laid out against the
    /// viewport in order, and any recorded interaction aliases are
    /// dropped.
    /// The full layout pass: all interaction state is dropped, every
    /// root is laid out against the viewport in order, and the
    /// recorded interaction aliases are cleared with it, so the pass
    /// re-establishes the single-hover, single-press rule.
    pub fn build(&mut self, ui_size: Vec2)
        requires
            old(self).wf(),
        ensures
            final(self).roots() == spec_build_seq(
                spec_clear_seq(old(self).roots()),
                BuildContext::spec_root(ui_size),
                old(self).font,
            ).0,
            final(self).selected is None,
            final(self).pressed is None,
            final(self).font == old(self).font,
            final(self).visible == old(self).visible,
            final(self).dirty == old(self).dirty,
            final(self).pending == old(self).pending,
            final(self).cursor_pos == old(self).cursor_pos,
            spec_interaction_inv(final(self).roots(), final(self).selected, final(self).pressed),
            final(self).wf(),
    {
        self.selected = None;
        self.pressed = None;
        let ghost orig_rv = self.roots();
        // Drop all interaction state first: a full pass starts from a
        // quiescent tree.
        let cn = self.elements.len();
        proof {
            lemma_seq_view_index(self.elements@);
            assert(orig_rv.take(0) =~= Seq::<ElemV>::empty());
            assert(spec_clear_seq(orig_rv.take(0)) =~= Seq::<ElemV>::empty());
            crate::exclusive::lemma_clear_seq_index(orig_rv);
        }
        let mut k: usize = 0;
        while k < cn
            invariant
                k <= cn,
                cn == self.elements@.len(),
                orig_rv.len() == cn,
                orig_rv == seq_view(old(self).elements@),
                forall|j: int| k <= j < cn ==> seq_view(self.elements@)[j] == orig_rv[j],
                seq_view(self.elements@).len() == cn,
                forall|j: int|
                    0 <= j < k ==> seq_view(self.elements@)[j] == crate::exclusive::spec_clear(
                        #[trigger] orig_rv[j],
                    ),
                self.selected is None,
                self.pressed is None,
                self.font == old(self).font,
                self.font.wf(),
                seq_wf(orig_rv),
                self.visible == old(self).visible,
                self.dirty == old(self).dirty,
                self.pending == old(self).pending,
                self.cursor_pos == old(self).cursor_pos,
            decreases cn - k,
        {
            proof {
                lemma_seq_view_index(self.elements@);
                assert(self.elements@[k as int]@ == orig_rv[k as int]);
            }
            let ghost pre = self.elements@;
            let root = &mut self.elements[k];
            root.clear_interactions();
            proof {
                lemma_seq_view_index(pre);
                lemma_seq_view_index(self.elements@);
                assert forall|j: int| 0 <= j < cn && j != k implies seq_view(self.elements@)[j]
                    == seq_view(pre)[j] by {
                    assert(self.elements@[j] == pre[j]);
                    assert(seq_view(self.elements@)[j] == self.elements@[j]@);
                    assert(seq_view(pre)[j] == pre[j]@);
                }
            }
            k = k + 1;
        }
        let ghost old_rv = spec_clear_seq(orig_rv);
        proof {
            crate::exclusive::lemma_clear_seq_index(orig_rv);
            lemma_seq_view_index(self.elements@);
            assert forall|j: int| 0 <= j < cn implies seq_view(self.elements@)[j] == old_rv[j] by {
                assert(seq_view(self.elements@)[j] == crate::exclusive::spec_clear(orig_rv[j]));
                assert(old_rv[j] == crate::exclusive::spec_clear(orig_rv[j]));
            }
            assert(seq_view(self.elements@) =~= old_rv);
            crate::exclusive::lemma_clear_seq_wf(orig_rv);
            crate::exclusive::lemma_clear_seq_count(orig_rv);
        }
        let mut ctx = BuildContext::root(ui_size);
        let ghost ctx0 = ctx;
        proof {
            assert(old_rv.take(0) =~= Seq::<ElemV>::empty());
        }
        let n = self.elements.len();
        let mut i: usize = 0;
        while i < n
            invariant
                i <= n,
                n == self.elements@.len(),
                old_rv.len() == n,
                old_rv == spec_clear_seq(seq_view(old(self).elements@)),
                self.font == old(self).font,
                self.font.wf(),
                seq_wf(old_rv),
                forall|j: int| i <= j < n ==> seq_view(self.elements@)[j] == old_rv[j],
                seq_view(self.elements@).len() == n,
                seq_view(self.elements@).take(i as int) == spec_build_seq(
                    old_rv.take(i as int),
                    ctx0,
                    old(self).font,
                ).0,
                ctx == spec_build_seq(old_rv.take(i as int), ctx0, old(self).font).1,
                self.selected is None,
                self.pressed is None,
                self.visible == old(self).visible,
                self.dirty == old(self).dirty,
                self.pending == old(self).pending,
                self.cursor_pos == old(self).cursor_pos,
            decreases n - i,
        {
            proof {
                lemma_seq_view_index(self.elements@);
                lemma_seq_wf_index(old_rv, i as int);
                assert(self.elements@[i as int]@ == old_rv[i as int]);
            }
            let ghost pre = self.elements@;
            let ghost cpre = ctx;
            let root = &mut self.elements[i];
            root.build(&mut ctx, &self.font);
            ctx.order = ord_inc(ctx.order);
            proof {
                lemma_seq_view_index(pre);
                lemma_seq_view_index(self.elements@);
                assert forall|j: int| 0 <= j < n && j != i implies seq_view(self.elements@)[j]
                    == seq_view(pre)[j] by {
                    assert(self.elements@[j] == pre[j]);
                    assert(seq_view(self.elements@)[j] == self.elements@[j]@);
                    assert(seq_view(pre)[j] == pre[j]@);
                }
                crate::layout::lemma_build_seq_step(
                    old_rv,
                    i as int,
                    ctx0,
                    old(self).font,
                    seq_view(pre),
                    seq_view(self.elements@),
                    cpre,
                    ctx,
                );
            }
            i = i + 1;
        }
        proof {
            assert(old_rv.take(n as int) =~= old_rv);
            lemma_seq_view_index(self.elements@);
            assert(seq_view(self.elements@).take(n as int) =~= seq_view(self.elements@));
            crate::exclusive::lemma_build_seq_same(old_rv, ctx0, old(self).font);
            crate::exclusive::lemma_same_iflags_seq_count(
                spec_build_seq(old_rv, ctx0, old(self).font).0,
                old_rv,
            );
            crate::exclusive::lemma_clear_seq_count(orig_rv);
            crate::laws::lemma_build_seq_wf_keep(old_rv, ctx0, old(self).font);
        }
    }

    /// Refreshes any dirty element and returns the flat draw-instance
    /// sequence, in paint order. A hidden or empty tree yields one
    /// default instance.
    pub fn get_instaces(&mut self, ui_size: Vec2) -> (r: Vec<UiInstance>)
        requires
            old(self).wf(),
        ensures
            final(self).font == old(self).font,
            final(self).selected == old(self).selected,
            final(self).pressed == old(self).pressed,
            final(self).visible == old(self).visible,
            final(self).pending == old(self).pending,
            final(self).cursor_pos == old(self).cursor_pos,
            !old(self).visible || old(self).elements@.len() == 0 ==> {
                &&& r@ == seq![UiInstance::spec_default()]
                &&& final(self).elements == old(self).elements
                &&& final(self).dirty == old(self).dirty
            },
            spec_interaction_inv(old(self).roots(), old(self).selected, old(self).pressed)
                ==> spec_interaction_inv(
                final(self).roots(),
                final(self).selected,
                final(self).pressed,
            ),
            old(self).visible && old(self).elements@.len() > 0 ==> {
                &&& r@ == spec_emit_seq(
                    old(self).roots(),
                    ui_size,
                    Vec2 { x: 0i64, y: 0i64 },
                    old(self).font,
                ).1
                &&& final(self).roots() == spec_emit_seq(
                    old(self).roots(),
                    ui_size,
                    Vec2 { x: 0i64, y: 0i64 },
                    old(self).font,
                ).0
                &&& !final(self).dirty
            },
    {
        let mut instances: Vec<UiInstance> = Vec::new();
        if !self.visible || self.elements.len() == 0 {
            instances.push(UiInstance::default());
            return instances;
        }
        let pp = Vec2 { x: 0, y: 0 };
        let ghost old_rv = self.roots();
        proof {
            lemma_seq_view_index(self.elements@);
            assert(old_rv.take(0) =~= Seq::<ElemV>::empty());
            assert(Seq::<UiInstance>::empty() + spec_emit_seq(old_rv.take(0), ui_size, pp, old(self).font).1
                =~= Seq::<UiInstance>::empty());
        }
        let n = self.elements.len();
        let mut off = Vec2 { x: 0, y: 0 };
        let mut i: usize = 0;
        while i < n
            invariant
                i <= n,
                n == self.elements@.len(),
                old_rv.len() == n,
                old_rv == seq_view(old(self).elements@),
                pp == (Vec2 { x: 0i64, y: 0i64 }),
                self.font == old(self).font,
                self.font.wf(),
                seq_wf(old_rv),
                forall|j: int| i <= j < n ==> seq_view(self.elements@)[j] == old_rv[j],
                seq_view(self.elements@).len() == n,
                seq_view(self.elements@).take(i as int) == spec_emit_seq(
                    old_rv.take(i as int),
                    ui_size,
                    pp,
                    old(self).font,
                ).0,
                instances@ == spec_emit_seq(old_rv.take(i as int), ui_size, pp, old(self).font).1,
                off == if i == 0 {
                    Vec2 { x: 0i64, y: 0i64 }
                } else {
                    crate::dirty::spec_sib_off(seq_view(self.elements@)[i as int - 1], pp)
                },
                self.selected == old(self).selected,
                self.pressed == old(self).pressed,
                self.visible == old(self).visible,
                self.dirty == old(self).dirty,
                self.pending == old(self).pending,
                self.cursor_pos == old(self).cursor_pos,
            decreases n - i,
        {
            proof {
                lemma_seq_view_index(self.elements@);
                lemma_seq_wf_index(old_rv, i as int);
                assert(self.elements@[i as int]@ == old_rv[i as int]);
            }
            let ghost pre = self.elements@;
            let ghost emit_pre = spec_emit_seq(old_rv.take(i as int), ui_size, pp, old(self).font).1;
            let root = &mut self.elements[i];
            root.get_instances(&mut instances, ui_size, pp, off, &self.font);
            proof {
                lemma_seq_view_index(pre);
                lemma_seq_view_index(self.elements@);
                let ce = crate::dirty::spec_emit(old_rv[i as int], ui_size, pp, off, old(self).font).1;
                assert forall|j: int| 0 <= j < n && j != i implies seq_view(self.elements@)[j]
                    == seq_view(pre)[j] by {
                    assert(self.elements@[j] == pre[j]);
                    assert(seq_view(self.elements@)[j] == self.elements@[j]@);
                    assert(seq_view(pre)[j] == pre[j]@);
                }
                crate::dirty::lemma_emit_seq_step(
                    old_rv,
                    i as int,
                    ui_size,
                    pp,
                    old(self).font,
                    seq_view(pre),
                    seq_view(self.elements@),
                    off,
                    emit_pre,
                    emit_pre + ce,
                );
                assert(instances@ =~= emit_pre + ce);
            }
            let prev_pos = self.elements[i].computed.pos;
            let prev_size = self.elements[i].computed.size;
            off = prev_pos.minus(&pp).plus(&prev_size);
            proof {
                lemma_seq_view_index(self.elements@);
                assert(seq_view(self.elements@)[i as int] == self.elements@[i as int]@);
                assert(off == crate::dirty::spec_sib_off(seq_view(self.elements@)[i as int], pp));
            }
            i = i + 1;
        }
        proof {
            assert(old_rv.take(n as int) =~= old_rv);
            lemma_seq_view_index(self.elements@);
            assert(seq_view(self.elements@).take(n as int) =~= seq_view(self.elements@));
        }
        proof {
            if spec_interaction_inv(old_rv, old(self).selected, old(self).pressed) {
                lemma_emit_keeps_inv(
                    old_rv,
                    ui_size,
                    old(self).font,
                    old(self).selected,
                    old(self).pressed,
                );
            }
        }
        self.dirty = false;
        instances
    }

    /// The element a root path leads to.
    pub fn element_at(&self, path: &Vec<usize>) -> (r: &UiElement)
        requires
            spec_path_in_roots(self.roots(), path@),
        ensures
            r@ == spec_at_roots(self.roots(), path@),
    {
        proof {
            lemma_seq_view_index(self.elements@);
            assert(self.elements@[path@[0] as int]@ == self.roots()[path@[0] as int]);
            assert(path@.skip(1) =~= path@.drop_first());
        }
        let root = &self.elements[path[0]];
        root.at_rel(path, 1)
    }

    /// Whether a root path stays in bounds of the current tree.
    pub fn root_path_ok(&self, path: &Vec<usize>) -> (r: bool)
        ensures
            r == spec_path_in_roots(self.roots(), path@),
    {
        proof {
            lemma_seq_view_index(self.elements@);
        }
        if path.len() == 0 {
            return false;
        }
        if path[0] >= self.elements.len() {
            return false;
        }
        proof {
            assert(self.elements@[path@[0] as int]@ == self.roots()[path@[0] as int]);
            assert(path@.skip(1) =~= path@.drop_first());
        }
        self.elements[path[0]].path_ok(path, 1)
    }

    /// Applies a targeted interaction mutation at a root path.
    fn apply_roots(&mut self, path: &Vec<usize>, op: NodeOp)
        requires
            spec_path_in_roots(old(self).roots(), path@),
        ensures
            final(self).roots() == spec_apply_roots(old(self).roots(), path@, op),
            final(self).elements@.len() == old(self).elements@.len(),
            final(self).selected == old(self).selected,
            final(self).pressed == old(self).pressed,
            final(self).font == old(self).font,
            final(self).visible == old(self).visible,
            final(self).dirty == old(self).dirty,
            final(self).pending == old(self).pending,
            final(self).cursor_pos == old(self).cursor_pos,
    {
        let ghost rv = self.roots();
        proof {
            lemma_seq_view_index(self.elements@);
            assert(self.elements@[path@[0] as int]@ == rv[path@[0] as int]);
            assert(path@.skip(1) =~= path@.drop_first());
        }
        let ghost pre = self.elements@;
        let i = path[0];
        let root = &mut self.elements[i];
        root.apply_op_at(path, 1, op);
        proof {
            lemma_seq_view_index(pre);
            lemma_seq_view_index(self.elements@);
            assert forall|j: int| 0 <= j < pre.len() && j != i implies seq_view(self.elements@)[j]
                == seq_view(pre)[j] by {
                assert(self.elements@[j] == pre[j]);
                assert(seq_view(self.elements@)[j] == self.elements@[j]@);
                assert(seq_view(pre)[j] == pre[j]@);
            }
            assert(seq_view(self.elements@) =~= spec_apply_roots(rv, path@, op));
        }
    }

    /// Moves the subtree at a root path by a drag delta.
    fn move_roots(&mut self, path: &Vec<usize>, d: Vec2)
        requires
            spec_path_in_roots(old(self).roots(), path@),
        ensures
            final(self).roots() == spec_move_roots(old(self).roots(), path@, d),
            final(self).elements@.len() == old(self).elements@.len(),
            final(self).selected == old(self).selected,
            final(self).pressed == old(self).pressed,
            final(self).font == old(self).font,
            final(self).visible == old(self).visible,
            final(self).dirty == old(self).dirty,
            final(self).pending == old(self).pending,
            final(self).cursor_pos == old(self).cursor_pos,
    {
        let ghost rv = self.roots();
        proof {
            lemma_seq_view_index(self.elements@);
            assert(self.elements@[path@[0] as int]@ == rv[path@[0] as int]);
            assert(path@.skip(1) =~= path@.drop_first());
        }
        let ghost pre = self.elements@;
        let i = path[0];
        let root = &mut self.elements[i];
        root.move_at(path, 1, d);
        proof {
            lemma_seq_view_index(pre);
            lemma_seq_view_index(self.elements@);
            assert forall|j: int| 0 <= j < pre.len() && j != i implies seq_view(self.elements@)[j]
                == seq_view(pre)[j] by {
                assert(self.elements@[j] == pre[j]);
                assert(seq_view(self.elements@)[j] == self.elements@[j]@);
                assert(seq_view(pre)[j] == pre[j]@);
            }
            assert(seq_view(self.elements@) =~= spec_move_roots(rv, path@, d));
        }
    }

    /// The root-level hit test, later roots first.
    fn find_root_target(&self, cursor: Vec2, ev: UiEvent) -> (r: Option<Vec<usize>>)
        ensures
            (match r {
                Some(v) => {
                    &&& spec_find_seq(self.roots(), cursor, ev) == Some(v@)
                    &&& spec_path_in_roots(self.roots(), v@)
                    &&& spec_claims(spec_at_roots(self.roots(), v@), ev)
                    &&& spec_is_in_v(spec_at_roots(self.roots(), v@), cursor)
                },
                None => spec_find_seq(self.roots(), cursor, ev) is None,
            }),
    {
        let ghost rv = self.roots();
        proof {
            lemma_seq_view_index(self.elements@);
        }
        let n = self.elements.len();
        proof {
            assert(rv.take(n as int) =~= rv);
        }
        let mut k: usize = n;
        while k > 0
            invariant
                k <= n,
                n == self.elements@.len(),
                rv == self.roots(),
                rv.len() == n,
                spec_find_seq(rv.take(k as int), cursor, ev) == spec_find_seq(rv, cursor, ev),
            decreases k,
        {
            proof {
                lemma_seq_view_index(self.elements@);
                assert(self.elements@[k - 1]@ == rv[k - 1]);
            }
            let r = self.elements[k - 1].find_target(cursor, ev);
            match r {
                Some(mut p) => {
                    let ghost sub = p@;
                    p.insert(0, k - 1);
                    proof {
                        let t = rv.take(k as int);
                        assert(t.drop_last() =~= rv.take(k as int - 1));
                        assert(t.last() == rv[k - 1]);
                        assert(p@ =~= seq![(k - 1) as usize] + sub);
                        assert(p@.drop_first() =~= sub);
                        assert(spec_find_seq(t, cursor, ev) == Some(p@));
                        assert(spec_find_seq(rv, cursor, ev) == Some(p@));
                        assert(p@[0] == k - 1);
                        assert(spec_at_roots(rv, p@) == spec_at_elem(rv[k - 1], sub));
                        assert(spec_path_in_roots(rv, p@));
                    }
                    return Some(p);
                },
                None => {
                    proof {
                        let t = rv.take(k as int);
                        assert(t.drop_last() =~= rv.take(k as int - 1));
                        assert(t.last() == rv[k - 1]);
                    }
                },
            }
            k = k - 1;
        }
        proof {
            assert(rv.take(0) =~= Seq::<ElemV>::empty());
        }
        None
    }

    /// A press event: any stale pressed element is released, then the
    /// claiming element (if any) goes to its pressed state and is
    /// recorded; a button or check box is marked dirty and a
    /// before-press callback is queued. Drag boxes absorb the press
    /// silently.
    #[verifier::rlimit(100)]
    fn on_press(&mut self, cursor: Vec2) -> (r: u8)
        ensures
            spec_press_post(*old(self), *final(self), cursor, r),
            final(self).font == old(self).font,
            final(self).visible == old(self).visible,
            final(self).cursor_pos == old(self).cursor_pos,
            final(self).dirty == old(self).dirty,
    {
        let ghost rv = self.roots();
        match self.find_root_target(cursor, UiEvent::Press) {
            Some(p) => {
                let is_drag = match &self.element_at(&p).inherit {
                    UiType::DragBox(_) => true,
                    _ => false,
                };
                let mut stale: Option<Vec<usize>> = None;
                core::mem::swap(&mut stale, &mut self.pressed);
                match stale {
                    Some(q) => {
                        if self.root_path_ok(&q) {
                            self.apply_roots(&q, NodeOp::Unpress);
                            proof {
                                if q@[0] == p@[0] {
                                    crate::cursor::lemma_apply_at_shape(
                                        rv[p@[0] as int],
                                        q@.drop_first(),
                                        NodeOp::Unpress,
                                        p@.drop_first(),
                                    );
                                }
                                assert(spec_path_in_roots(self.roots(), p@));
                            }
                        }
                    },
                    None => {},
                }
                self.apply_roots(&p, NodeOp::Press);
                if !is_drag {
                    let q = Self::copy_path(&p, p.len());
                    proof {
                        assert(q@ =~= p@);
                        lemma_cb_view_push(
                            self.pending@,
                            UiCallbackEvent { path: q, kind: CallbackKind::BeforePress },
                        );
                    }
                    self.pending.push(UiCallbackEvent { path: q, kind: CallbackKind::BeforePress });
                }
                self.pressed = Some(p);
                EVENT_NEW
            },
            None => EVENT_NONE,
        }
    }

    /// A release event while an element is recorded as pressed: the
    /// pressed state is undone; if the cursor is still inside the
    /// element, a button queues its press callback and a check box
    /// toggles and queues enable or disable. The recorded press is
    /// always dropped.
    #[verifier::rlimit(100)]
    fn on_release(&mut self, cursor: Vec2) -> (r: u8)
        ensures
            spec_release_post(*old(self), *final(self), cursor, r),
            final(self).font == old(self).font,
            final(self).visible == old(self).visible,
            final(self).cursor_pos == old(self).cursor_pos,
            final(self).dirty == old(self).dirty,
    {
        let mut pressed: Option<Vec<usize>> = None;
        core::mem::swap(&mut pressed, &mut self.pressed);
        match pressed {
            Some(p) => {
                if !self.root_path_ok(&p) {
                    return EVENT_NONE;
                }
                let (kind, inside, was_enabled) = {
                    let node = self.element_at(&p);
                    let k: u8 = match &node.inherit {
                        UiType::Button(_) => 1,
                        UiType::CheckBox(_) => 2,
                        _ => 0,
                    };
                    let en = match &node.inherit {
                        UiType::CheckBox(c) => c.enabled,
                        _ => false,
                    };
                    (k, node.is_in(cursor), en)
                };
                self.apply_roots(&p, NodeOp::Unpress);
                if kind == 2 && inside {
                    proof {
                        crate::cursor::lemma_apply_at_path_in(
                            old(self).roots()[p@[0] as int],
                            p@.drop_first(),
                            NodeOp::Unpress,
                        );
                        assert(spec_path_in_roots(self.roots(), p@));
                    }
                    self.apply_roots(&p, NodeOp::Toggle);
                    proof {
                        lemma_cb_view_push(
                            self.pending@,
                            UiCallbackEvent {
                                path: p,
                                kind: if was_enabled {
                                    CallbackKind::Disable
                                } else {
                                    CallbackKind::Enable
                                },
                            },
                        );
                    }
                    self.pending.push(
                        UiCallbackEvent {
                            path: p,
                            kind: if was_enabled {
                                CallbackKind::Disable
                            } else {
                                CallbackKind::Enable
                            },
                        },
                    );
                } else if kind == 1 && inside {
                    proof {
                        lemma_cb_view_push(
                            self.pending@,
                            UiCallbackEvent { path: p, kind: CallbackKind::Press },
                        );
                    }
                    self.pending.push(UiCallbackEvent { path: p, kind: CallbackKind::Press });
                }
                EVENT_OLD
            },
            None => EVENT_NONE,
        }
    }

    /// Copies a path.
    fn copy_path(path: &Vec<usize>, upto: usize) -> (r: Vec<usize>)
        requires
            upto <= path@.len(),
        ensures
            r@ == path@.take(upto as int),
    {
        let mut q: Vec<usize> = Vec::new();
        let mut t: usize = 0;
        while t < upto
            invariant
                t <= upto,
                upto <= path@.len(),
                q@ == path@.take(t as int),
            decreases upto - t,
        {
            q.push(path[t]);
            proof {
                assert(path@.take(t + 1 as int) =~= path@.take(t as int).push(path@[t as int]));
            }
            t = t + 1;
        }
        q
    }

    /// A cursor move while a drag box is pressed: the cursor delta is
    /// projected onto the box's axis mask; when the box sits in a
    /// slider, the horizontal delta is clamped to the track, the
    /// slider's value is updated from the grip's position and a
    /// value-changed callback is queued; then the delta moves the box
    /// itself or, for a parent-moving box, its whole parent subtree.
    #[verifier::rlimit(100)]
    fn on_drag(&mut self, p: &Vec<usize>, cursor: Vec2, prev: Vec2) -> (r: u8)
        requires
            spec_path_in_roots(old(self).roots(), p@),
            spec_at_roots(old(self).roots(), p@).inherit is DragBox,
        ensures
            spec_drag_post(*old(self), *final(self), p@, cursor, prev, r),
            final(self).font == old(self).font,
            final(self).visible == old(self).visible,
            final(self).cursor_pos == old(self).cursor_pos,
            final(self).dirty == old(self).dirty,
    {
        let ghost rv = self.roots();
        let (axis, move_parent) = {
            let node = self.element_at(p);
            match &node.inherit {
                UiType::DragBox(d) => (d.axis, d.move_parent),
                _ => (0u8, false),
            }
        };
        let delta = cursor.minus(&prev);
        let md = crate::cursor::mask_delta(delta, axis);
        let has_parent = p.len() >= 2;
        if has_parent {
            let q = Self::copy_path(p, p.len() - 1);
            proof {
                assert(q@ =~= p@.drop_last());
                crate::cursor::lemma_path_in_prefix(rv[p@[0] as int], p@.drop_first());
                assert(p@.drop_last().drop_first() =~= p@.drop_first().drop_last());
                assert(q@[0] == p@[0]);
                assert(spec_path_in_roots(rv, q@));
            }
            let (is_slider, smin, smax) = {
                let par = self.element_at(&q);
                match &par.inherit {
                    UiType::Slider(s) => (true, s.min_value, s.max_value),
                    _ => (false, 0i64, 0i64),
                }
            };
            if is_slider {
                let (gp, gs) = {
                    let grip = self.element_at(p);
                    (grip.computed.pos, grip.computed.size)
                };
                let (tp, ts) = {
                    let par = self.element_at(&q);
                    (par.computed.pos, par.computed.size)
                };
                let cdx = crate::cursor::slider_clamp(gp.x, gs.x, tp.x, ts.x, md.x);
                let md2 = Vec2 { x: cdx, y: md.y };
                let space = crate::px::px_sub(ts.x, gs.x);
                let val = crate::cursor::slider_value(smin, smax, gp.x, tp.x, space);
                self.apply_roots(&q, NodeOp::SetValue(val));
                let q2 = Self::copy_path(&q, q.len());
                proof {
                    assert(q2@ =~= q@);
                    lemma_cb_view_push(
                        self.pending@,
                        UiCallbackEvent { path: q2, kind: CallbackKind::SliderChanged(val) },
                    );
                }
                self.pending.push(
                    UiCallbackEvent { path: q2, kind: CallbackKind::SliderChanged(val) },
                );
                proof {
                    crate::cursor::lemma_apply_at_shape(
                        rv[p@[0] as int],
                        q@.drop_first(),
                        NodeOp::SetValue(val),
                        (if move_parent {
                            q@
                        } else {
                            p@
                        }).drop_first(),
                    );
                    assert(spec_path_in_roots(
                        self.roots(),
                        if move_parent {
                            q@
                        } else {
                            p@
                        },
                    ));
                }
                if move_parent {
                    self.move_roots(&q, md2);
                } else {
                    self.move_roots(p, md2);
                }
            } else {
                if move_parent {
                    self.move_roots(&q, md);
                } else {
                    self.move_roots(p, md);
                }
            }
        } else {
            self.move_roots(p, md);
        }
        EVENT_OLD
    }

    /// A cursor move with no drag under way: hover tracking. A claim
    /// by an already-hovered element is only a refresh; a claim by a
    /// new element moves the hover there, clearing the old one; no
    /// claim clears any hover left over.
    #[verifier::rlimit(100)]
    fn on_hover(&mut self, cursor: Vec2) -> (r: u8)
        ensures
            spec_hover_post(*old(self), *final(self), cursor, r),
            final(self).font == old(self).font,
            final(self).visible == old(self).visible,
            final(self).cursor_pos == old(self).cursor_pos,
            final(self).dirty == old(self).dirty,
    {
        let ghost rv = self.roots();
        match self.find_root_target(cursor, UiEvent::Move) {
            Some(p) => {
                let already = {
                    let node = self.element_at(&p);
                    match &node.inherit {
                        UiType::Button(b) => match b.interaction {
                            crate::interaction::Interaction::Hover => true,
                            _ => false,
                        },
                        UiType::CheckBox(c) => c.selected,
                        _ => false,
                    }
                };
                if already {
                    return EVENT_BLOCKED;
                }
                let mut old_sel: Option<Vec<usize>> = None;
                core::mem::swap(&mut old_sel, &mut self.selected);
                match old_sel {
                    Some(q) => {
                        if self.root_path_ok(&q) {
                            self.apply_roots(&q, NodeOp::Hover(false));
                            proof {
                                if q@[0] == p@[0] {
                                    crate::cursor::lemma_apply_at_shape(
                                        rv[p@[0] as int],
                                        q@.drop_first(),
                                        NodeOp::Hover(false),
                                        p@.drop_first(),
                                    );
                                }
                                assert(spec_path_in_roots(self.roots(), p@));
                            }
                        }
                    },
                    None => {},
                }
                self.apply_roots(&p, NodeOp::Hover(true));
                self.selected = Some(p);
                EVENT_NEW
            },
            None => {
                let mut old_sel: Option<Vec<usize>> = None;
                core::mem::swap(&mut old_sel, &mut self.selected);
                match old_sel {
                    Some(q) => {
                        if self.root_path_ok(&q) {
                            self.apply_roots(&q, NodeOp::Hover(false));
                            EVENT_OLD
                        } else {
                            EVENT_NONE
                        }
                    },
                    None => EVENT_NONE,
                }
            },
        }
    }

    /// Applies one cursor event. The cursor position is stored
    /// regardless of the outcome; the returned status tells the host
    /// whether nothing happened, an existing interaction continued or
    /// ended, or a new one began.
    pub fn update_cursor(&mut self, ui_size: Vec2, cursor_pos: Vec2, event: UiEvent) -> (r: u8)
        ensures
            final(self).cursor_pos == cursor_pos,
            final(self).font == old(self).font,
            final(self).visible == old(self).visible,
            final(self).dirty == old(self).dirty,
            spec_interaction_inv(old(self).roots(), old(self).selected, old(self).pressed)
                ==> spec_interaction_inv(
                final(self).roots(),
                final(self).selected,
                final(self).pressed,
            ),
            ({
                let pre = *old(self);
                let post = *final(self);
                match event {
                    UiEvent::Press => spec_press_post(pre, post, cursor_pos, r),
                    UiEvent::Release => spec_release_post(pre, post, cursor_pos, r),
                    UiEvent::Move => match opt_path(pre.pressed) {
                        Some(p) => if spec_path_in_roots(pre.roots(), p) && spec_at_roots(
                            pre.roots(),
                            p,
                        ).inherit is DragBox {
                            spec_drag_post(pre, post, p, cursor_pos, pre.cursor_pos, r)
                        } else {
                            spec_hover_post(pre, post, cursor_pos, r)
                        },
                        None => spec_hover_post(pre, post, cursor_pos, r),
                    },
                }
            }),
    {
        let prev = self.cursor_pos;
        self.cursor_pos = cursor_pos;
        let ghost pre0 = *old(self);
        match event {
            UiEvent::Press => {
                let rr = self.on_press(cursor_pos);
                proof {
                    assert(spec_press_post(pre0, *self, cursor_pos, rr));
                    if spec_interaction_inv(pre0.roots(), pre0.selected, pre0.pressed) {
                        lemma_press_keeps_inv(pre0, *self, cursor_pos, rr);
                    }
                }
                rr
            },
            UiEvent::Release => {
                let rr = self.on_release(cursor_pos);
                proof {
                    assert(spec_release_post(pre0, *self, cursor_pos, rr));
                    if spec_interaction_inv(pre0.roots(), pre0.selected, pre0.pressed) {
                        lemma_release_keeps_inv(pre0, *self, cursor_pos, rr);
                    }
                }
                rr
            },
            UiEvent::Move => {
                let drag_path: Option<Vec<usize>> = match &self.pressed {
                    Some(pv) => {
                        let ok = self.root_path_ok(pv);
                        if ok {
                            let is_drag = {
                                let node = self.element_at(pv);
                                match &node.inherit {
                                    UiType::DragBox(_) => true,
                                    _ => false,
                                }
                            };
                            if is_drag {
                                Some(Self::copy_path(pv, pv.len()))
                            } else {
                                None
                            }
                        } else {
                            None
                        }
                    },
                    None => None,
                };
                match drag_path {
                    Some(p) => {
                        proof {
                            assert(p@ =~= self.pressed->Some_0@);
                        }
                        let rr = self.on_drag(&p, cursor_pos, prev);
                        proof {
                            assert(spec_drag_post(pre0, *self, p@, cursor_pos, prev, rr));
                            if spec_interaction_inv(pre0.roots(), pre0.selected, pre0.pressed) {
                                lemma_drag_keeps_inv(pre0, *self, p@, cursor_pos, prev, rr);
                            }
                        }
                        rr
                    },
                    None => {
                        let rr = self.on_hover(cursor_pos);
                        proof {
                            assert(spec_hover_post(pre0, *self, cursor_pos, rr));
                            if spec_interaction_inv(pre0.roots(), pre0.selected, pre0.pressed) {
                                lemma_hover_keeps_inv(pre0, *self, cursor_pos, rr);
                            }
                        }
                        rr
                    },
                }
            },
        }
    }

    /// Hands the queued callback requests to the host, emptying the
    /// queue.
    pub fn take_events(&mut self) -> (r: Vec<UiCallbackEvent>)
        ensures
            r == old(self).pending,
            final(self).pending@.len() == 0,
            final(self).elements == old(self).elements,
            final(self).selected == old(self).selected,
            final(self).pressed == old(self).pressed,
            final(self).font == old(self).font,
            final(self).visible == old(self).visible,
            final(self).dirty == old(self).dirty,
            final(self).cursor_pos == old(self).cursor_pos,
    {
        let mut out: Vec<UiCallbackEvent> = Vec::new();
        core::mem::swap(&mut out, &mut self.pending);
        out
    }
}

} // verus!
