//! Cursor-driven hit testing and the interaction state machine's
//! element-level operations.
//!
//! The walk is split in two phases to keep the tree exclusively owned:
//! a read-only hit test first finds the path of the element that
//! claims the event (later siblings win, children before parents),
//! then a targeted mutation is applied along that path.

use vstd::prelude::*;

use crate::element::height;
use crate::element::lemma_seq_height_bound;
use crate::element::lemma_seq_view_index;
use crate::element::seq_height;
use crate::element::seq_view;
use crate::element::Button;
use crate::element::CheckBox;
use crate::element::DragBox;
use crate::element::ElemV;
use crate::element::Slider;
use crate::element::TextV;
use crate::element::UiElement;
use crate::element::UiType;
use crate::element::UiTypeV;
use crate::element::AXIS_X;
use crate::element::AXIS_Y;
use crate::instance::UiInstance;
use crate::interaction::Interaction;
use crate::interaction::UiEvent;
use crate::px::px_add;
use crate::px::sat64;
use crate::vec2::Vec2;

verus! {

/// Containment of the cursor in an element's computed box; an
/// invisible element contains nothing.
pub open spec fn spec_is_in_v(e: ElemV, p: Vec2) -> bool {
    &&& e.visible
    &&& e.computed.pos.x <= p.x < e.computed.pos.x + e.computed.size.x
    &&& e.computed.pos.y <= p.y < e.computed.pos.y + e.computed.size.y
}

/// Whether a payload kind reacts to an event: buttons and check boxes
/// claim presses and moves, drag boxes claim presses.
pub open spec fn spec_claims(e: ElemV, ev: UiEvent) -> bool {
    match e.inherit {
        UiTypeV::Button(_) => ev is Press || ev is Move,
        UiTypeV::CheckBox(_) => ev is Press || ev is Move,
        UiTypeV::DragBox(_) => ev is Press,
        _ => false,
    }
}

/// The path of the element that claims the event, relative to `e`:
/// the empty path is `e` itself. Only elements containing the cursor
/// are considered; children are asked first, the last-added child
/// winning over earlier ones; an element that does not claim the
/// event does not block others.
pub open spec fn spec_find(e: ElemV, cursor: Vec2, ev: UiEvent) -> Option<Seq<usize>>
    decreases height(e), 0nat,
{
    if !spec_is_in_v(e, cursor) {
        None
    } else {
        match spec_find_seq(e.childs, cursor, ev) {
            Some(p) => Some(p),
            None => if spec_claims(e, ev) {
                Some(Seq::empty())
            } else {
                None
            },
        }
    }
}

/// The hit test over a sibling sequence, last sibling first.
pub open spec fn spec_find_seq(s: Seq<ElemV>, cursor: Vec2, ev: UiEvent) -> Option<Seq<usize>>
    decreases seq_height(s), s.len(),
    via spec_find_seq_dec
{
    if s.len() == 0 {
        None
    } else {
        match spec_find(s.last(), cursor, ev) {
            Some(p) => Some(seq![(s.len() - 1) as usize] + p),
            None => spec_find_seq(s.drop_last(), cursor, ev),
        }
    }
}

#[via_fn]
proof fn spec_find_seq_dec(s: Seq<ElemV>, cursor: Vec2, ev: UiEvent) {
    if s.len() > 0 {
        crate::layout::lemma_seq_height_drop_last(s);
        lemma_seq_height_bound(s, s.len() - 1);
    }
}

/// The element a path within `e` leads to.
pub open spec fn spec_at_elem(e: ElemV, path: Seq<usize>) -> ElemV
    decreases path.len(),
{
    if path.len() == 0 {
        e
    } else {
        spec_at_elem(e.childs[path[0] as int], path.drop_first())
    }
}

/// Whether a path within `e` stays in bounds.
pub open spec fn spec_path_in(e: ElemV, path: Seq<usize>) -> bool
    decreases path.len(),
{
    path.len() == 0 || (path[0] < e.childs.len() && spec_path_in(
        e.childs[path[0] as int],
        path.drop_first(),
    ))
}

/// A targeted mutation of one element's interaction sub-state.
#[derive(Debug, Clone, Copy, PartialEq, Eq, Structural)]
pub enum NodeOp {
    /// A press lands on the element: buttons and drag boxes go to
    /// `Pressed`, a check box records the press. Only drag boxes skip
    /// the dirty mark.
    Press,
    /// A recorded press ends: the pressed state is undone.
    Unpress,
    /// The element becomes or stops being the hovered one.
    Hover(bool),
    /// A check box flips its enabled flag.
    Toggle,
    /// A slider records a new value.
    SetValue(i64),
}

/// Whether an operation marks the element dirty: every state change
/// does except on a drag box, and except a slider value update, both
/// of which belong to the drag fast path that bypasses re-layout.
pub open spec fn spec_op_dirty(e: ElemV, op: NodeOp) -> bool {
    if op is SetValue {
        false
    } else {
        match e.inherit {
            UiTypeV::DragBox(_) => false,
            _ => true,
        }
    }
}

/// One element with an operation applied to its payload; payload kinds
/// an operation does not concern are left unchanged.
pub open spec fn spec_apply_op(e: ElemV, op: NodeOp) -> ElemV {
    let inherit1 = match op {
        NodeOp::Press => match e.inherit {
            UiTypeV::Button(b) => UiTypeV::Button(
                Button { interaction: Interaction::Pressed, ..b },
            ),
            UiTypeV::CheckBox(c) => UiTypeV::CheckBox(CheckBox { pressed: true, ..c }),
            UiTypeV::DragBox(d) => UiTypeV::DragBox(
                DragBox { interaction: Interaction::Pressed, ..d },
            ),
            other => other,
        },
        NodeOp::Unpress => match e.inherit {
            UiTypeV::Button(b) => UiTypeV::Button(Button { interaction: Interaction::Idle, ..b }),
            UiTypeV::CheckBox(c) => UiTypeV::CheckBox(CheckBox { pressed: false, ..c }),
            UiTypeV::DragBox(d) => UiTypeV::DragBox(
                DragBox { interaction: Interaction::Idle, ..d },
            ),
            other => other,
        },
        NodeOp::Hover(on) => match e.inherit {
            UiTypeV::Button(b) => UiTypeV::Button(
                Button {
                    interaction: if on {
                        Interaction::Hover
                    } else {
                        Interaction::Idle
                    },
                    ..b
                },
            ),
            UiTypeV::CheckBox(c) => UiTypeV::CheckBox(CheckBox { selected: on, ..c }),
            other => other,
        },
        NodeOp::Toggle => match e.inherit {
            UiTypeV::CheckBox(c) => UiTypeV::CheckBox(CheckBox { enabled: !c.enabled, ..c }),
            other => other,
        },
        NodeOp::SetValue(v) => match e.inherit {
            UiTypeV::Slider(s) => UiTypeV::Slider(Slider { value: v, ..s }),
            other => other,
        },
    };
    ElemV { inherit: inherit1, dirty: e.dirty || spec_op_dirty(e, op), ..e }
}

/// A subtree with the operation applied to the element at `path`.
pub open spec fn spec_apply_at(e: ElemV, path: Seq<usize>, op: NodeOp) -> ElemV
    decreases path.len(),
{
    if path.len() == 0 {
        spec_apply_op(e, op)
    } else {
        let i = path[0] as int;
        ElemV {
            childs: e.childs.update(i, spec_apply_at(e.childs[i], path.drop_first(), op)),
            ..e
        }
    }
}

/// An interaction mutation never changes the tree's shape, so any
/// path that was in bounds stays in bounds.
pub proof fn lemma_apply_at_path_in(e: ElemV, path: Seq<usize>, op: NodeOp)
    requires
        spec_path_in(e, path),
    ensures
        spec_path_in(spec_apply_at(e, path, op), path),
    decreases path.len(),
{
    if path.len() > 0 {
        lemma_apply_at_path_in(e.childs[path[0] as int], path.drop_first(), op);
    }
}

/// As `lemma_apply_at_path_in`, for any other path as well.
pub proof fn lemma_apply_at_shape(e: ElemV, q: Seq<usize>, op: NodeOp, q2: Seq<usize>)
    requires
        spec_path_in(e, q),
        spec_path_in(e, q2),
    ensures
        spec_path_in(spec_apply_at(e, q, op), q2),
    decreases q2.len(),
{
    if q.len() == 0 {
        assert(spec_apply_at(e, q, op).childs == e.childs);
    } else if q2.len() > 0 {
        if q2[0] == q[0] {
            lemma_apply_at_shape(e.childs[q[0] as int], q.drop_first(), op, q2.drop_first());
        }
    }
}

/// A prefix of an in-bounds path is in bounds.
pub proof fn lemma_path_in_prefix(e: ElemV, p: Seq<usize>)
    requires
        spec_path_in(e, p),
        p.len() > 0,
    ensures
        spec_path_in(e, p.drop_last()),
    decreases p.len(),
{
    if p.len() == 1 {
        assert(p.drop_last() =~= Seq::<usize>::empty());
    } else {
        lemma_path_in_prefix(e.childs[p[0] as int], p.drop_first());
        assert(p.drop_last().drop_first() =~= p.drop_first().drop_last());
    }
}

/// The delta a drag box accepts: the cursor delta projected onto the
/// box's axis mask.
pub open spec fn spec_mask_delta(d: Vec2, axis: u8) -> Vec2 {
    Vec2 {
        x: if axis & AXIS_X == AXIS_X {
            d.x
        } else {
            0i64
        },
        y: if axis & AXIS_Y == AXIS_Y {
            d.y
        } else {
            0i64
        },
    }
}

/// Projects a cursor delta onto a drag box's axis mask.
pub fn mask_delta(d: Vec2, axis: u8) -> (r: Vec2)
    ensures
        r == spec_mask_delta(d, axis),
{
    Vec2 {
        x: if axis & AXIS_X == AXIS_X {
            d.x
        } else {
            0
        },
        y: if axis & AXIS_Y == AXIS_Y {
            d.y
        } else {
            0
        },
    }
}

/// A glyph run shifted by a drag delta.
pub open spec fn spec_shift_insts(g: Seq<UiInstance>, d: Vec2) -> Seq<UiInstance> {
    Seq::new(
        g.len(),
        |i: int|
            UiInstance {
                x: sat64(g[i].x + d.x) as i64,
                y: sat64(g[i].y + d.y) as i64,
                ..g[i]
            },
    )
}

/// A whole subtree moved by a drag delta: every computed position
/// shifts, and shaped glyph runs shift with it. Styles, flags and
/// structure stay untouched.
pub open spec fn spec_move(e: ElemV, d: Vec2) -> ElemV
    decreases height(e), 0nat,
{
    let inherit1 = match e.inherit {
        UiTypeV::Text(t) => UiTypeV::Text(TextV { comp_text: spec_shift_insts(t.comp_text, d), ..t }),
        other => other,
    };
    ElemV {
        computed: crate::instance::RawUiElement {
            pos: e.computed.pos.spec_plus(d),
            ..e.computed
        },
        childs: spec_move_seq(e.childs, d),
        inherit: inherit1,
        ..e
    }
}

/// Every subtree in a sequence moved by the same delta.
pub open spec fn spec_move_seq(s: Seq<ElemV>, d: Vec2) -> Seq<ElemV>
    decreases seq_height(s), s.len(),
    via spec_move_seq_dec
{
    if s.len() == 0 {
        Seq::empty()
    } else {
        spec_move_seq(s.drop_last(), d).push(spec_move(s.last(), d))
    }
}

#[via_fn]
proof fn spec_move_seq_dec(s: Seq<ElemV>, d: Vec2) {
    if s.len() > 0 {
        crate::layout::lemma_seq_height_drop_last(s);
        lemma_seq_height_bound(s, s.len() - 1);
    }
}

/// A drag delta clamped so a slider grip stays within its track:
/// the grip may move left at most to the track's start and right at
/// most until its far edge meets the track's far edge.
pub open spec fn spec_slider_clamp(g: int, gs: int, t: int, ts: int, dx: int) -> int {
    if g + dx < t {
        sat64(t - g)
    } else if g + dx + gs > t + ts {
        sat64(sat64(ts - gs) - sat64(g - t))
    } else {
        dx
    }
}

/// Clamps a horizontal drag delta to a slider's track.
pub fn slider_clamp(g: i64, gs: i64, t: i64, ts: i64, dx: i64) -> (r: i64)
    ensures
        r == spec_slider_clamp(g as int, gs as int, t as int, ts as int, dx as int),
{
    if (g as i128) + (dx as i128) < (t as i128) {
        crate::px::px_sub(t, g)
    } else if (g as i128) + (dx as i128) + (gs as i128) > (t as i128) + (ts as i128) {
        crate::px::px_sub(crate::px::px_sub(ts, gs), crate::px::px_sub(g, t))
    } else {
        dx
    }
}

/// The value a slider reads off its grip position: the grip's offset
/// into the track, scaled into the value range. A degenerate track
/// reads the lower bound.
pub open spec fn spec_slider_value(min: int, max: int, g: int, t: int, space: int) -> int {
    if space <= 0 {
        min
    } else {
        sat64(min + crate::px::tdiv(sat64(sat64(g - t) * sat64(max - min)), space))
    }
}

/// Reads a slider value from grip and track geometry.
pub fn slider_value(min: i64, max: i64, g: i64, t: i64, space: i64) -> (r: i64)
    ensures
        r == spec_slider_value(min as int, max as int, g as int, t as int, space as int),
{
    if space <= 0 {
        min
    } else if space == 1 {
        let p = crate::px::px_mul(crate::px::px_sub(g, t), crate::px::px_sub(max, min));
        proof {
            assert(crate::px::tdiv(p as int, 1) == p as int);
        }
        px_add(min, p)
    } else {
        px_add(
            min,
            crate::px::px_div(
                crate::px::px_mul(crate::px::px_sub(g, t), crate::px::px_sub(max, min)),
                space as u64,
            ),
        )
    }
}

/// A subtree sequence with the subtree at `path` moved by a delta.
pub open spec fn spec_move_at(e: ElemV, path: Seq<usize>, d: Vec2) -> ElemV
    decreases path.len(),
{
    if path.len() == 0 {
        spec_move(e, d)
    } else {
        let i = path[0] as int;
        ElemV { childs: e.childs.update(i, spec_move_at(e.childs[i], path.drop_first(), d)), ..e }
    }
}

impl UiElement {
    /// Moves the subtree at `path` within this one by a drag delta.
    #[verifier::rlimit(100)]
    pub fn move_at(&mut self, path: &Vec<usize>, depth: usize, d: Vec2)
        requires
            depth <= path@.len(),
            spec_path_in(old(self)@, path@.skip(depth as int)),
        ensures
            final(self)@ == spec_move_at(old(self)@, path@.skip(depth as int), d),
        decreases height(self@),
    {
        let ghost e0 = self@;
        let ghost rest = path@.skip(depth as int);
        if depth == path.len() {
            proof {
                assert(rest.len() == 0);
            }
            self.move_computed(d);
            return ;
        }
        proof {
            lemma_seq_view_index(self.childs@);
            assert(rest.len() > 0);
            assert(rest[0] < e0.childs.len());
            lemma_seq_height_bound(e0.childs, rest[0] as int);
            assert(height(e0) == 1 + seq_height(e0.childs));
            assert(self.childs@[rest[0] as int]@ == e0.childs[rest[0] as int]);
            assert(path@.skip(depth as int + 1) =~= rest.drop_first());
        }
        let i = path[depth];
        let ghost pre_childs = self.childs@;
        let child = &mut self.childs[i];
        child.move_at(path, depth + 1, d);
        proof {
            lemma_seq_view_index(pre_childs);
            lemma_seq_view_index(self.childs@);
            assert forall|j: int| 0 <= j < pre_childs.len() && j != i implies seq_view(
                self.childs@,
            )[j] == seq_view(pre_childs)[j] by {
                assert(self.childs@[j] == pre_childs[j]);
                assert(seq_view(self.childs@)[j] == self.childs@[j]@);
                assert(seq_view(pre_childs)[j] == pre_childs[j]@);
            }
            assert(seq_view(self.childs@) =~= e0.childs.update(
                rest[0] as int,
                spec_move_at(e0.childs[rest[0] as int], rest.drop_first(), d),
            ));
            assert(self@ =~= spec_move_at(e0, rest, d));
        }
    }

    /// The element a path within this subtree leads to.
    pub fn at_rel(&self, path: &Vec<usize>, depth: usize) -> (r: &UiElement)
        requires
            depth <= path@.len(),
            spec_path_in(self@, path@.skip(depth as int)),
        ensures
            r@ == spec_at_elem(self@, path@.skip(depth as int)),
        decreases height(self@),
    {
        let ghost rest = path@.skip(depth as int);
        if depth == path.len() {
            proof {
                assert(rest.len() == 0);
            }
            self
        } else {
            proof {
                lemma_seq_view_index(self.childs@);
                assert(rest.len() > 0);
                lemma_seq_height_bound(self@.childs, rest[0] as int);
                assert(height(self@) == 1 + seq_height(self@.childs));
                assert(self.childs@[rest[0] as int]@ == self@.childs[rest[0] as int]);
                assert(path@.skip(depth as int + 1) =~= rest.drop_first());
            }
            let i = path[depth];
            self.childs[i].at_rel(path, depth + 1)
        }
    }

    /// Whether a path stays in bounds within this subtree.
    pub fn path_ok(&self, path: &Vec<usize>, depth: usize) -> (r: bool)
        requires
            depth <= path@.len(),
        ensures
            r == spec_path_in(self@, path@.skip(depth as int)),
        decreases height(self@),
    {
        let ghost rest = path@.skip(depth as int);
        if depth == path.len() {
            proof {
                assert(rest.len() == 0);
            }
            true
        } else {
            proof {
                lemma_seq_view_index(self.childs@);
                assert(rest.len() > 0);
                assert(path@.skip(depth as int + 1) =~= rest.drop_first());
            }
            let i = path[depth];
            if i >= self.childs.len() {
                return false;
            }
            proof {
                lemma_seq_height_bound(self@.childs, rest[0] as int);
                assert(height(self@) == 1 + seq_height(self@.childs));
                assert(self.childs@[rest[0] as int]@ == self@.childs[rest[0] as int]);
            }
            self.childs[i].path_ok(path, depth + 1)
        }
    }

    /// The read-only hit test: the path of the element that claims the
    /// event, children before parents, later siblings first.
    pub fn find_target(&self, cursor: Vec2, ev: UiEvent) -> (r: Option<Vec<usize>>)
        ensures
            (match r {
                Some(v) => {
                    &&& spec_find(self@, cursor, ev) == Some(v@)
                    &&& spec_path_in(self@, v@)
                    &&& spec_claims(spec_at_elem(self@, v@), ev)
                    &&& spec_is_in_v(spec_at_elem(self@, v@), cursor)
                },
                None => spec_find(self@, cursor, ev) is None,
            }),
        decreases height(self@),
    {
        let ghost e0 = self@;
        if !self.is_in(cursor) {
            return None;
        }
        proof {
            lemma_seq_view_index(self.childs@);
            assert(spec_is_in_v(e0, cursor));
        }
        let n = self.childs.len();
        proof {
            assert(e0.childs.take(n as int) =~= e0.childs);
        }
        let mut k: usize = n;
        while k > 0
            invariant
                k <= n,
                n == self.childs@.len(),
                e0 == self@,
                spec_is_in_v(e0, cursor),
                spec_find_seq(e0.childs.take(k as int), cursor, ev) == spec_find_seq(
                    e0.childs,
                    cursor,
                    ev,
                ),
            decreases k,
        {
            proof {
                lemma_seq_view_index(self.childs@);
                lemma_seq_height_bound(e0.childs, k - 1);
                assert(height(e0) == 1 + seq_height(e0.childs));
                assert(self.childs@[k - 1]@ == e0.childs[k - 1]);
            }
            let r = self.childs[k - 1].find_target(cursor, ev);
            match r {
                Some(mut p) => {
                    let ghost sub = p@;
                    p.insert(0, k - 1);
                    proof {
                        let t = e0.childs.take(k as int);
                        assert(t.drop_last() =~= e0.childs.take(k as int - 1));
                        assert(t.last() == e0.childs[k - 1]);
                        assert(p@ =~= seq![(k - 1) as usize] + sub);
                        assert(p@.drop_first() =~= sub);
                        assert(spec_find_seq(t, cursor, ev) == Some(p@));
                        assert(spec_find_seq(e0.childs, cursor, ev) == Some(p@));
                        assert(spec_find(e0, cursor, ev) == Some(p@));
                        assert(p@[0] == k - 1);
                        assert(spec_at_elem(e0, p@) == spec_at_elem(e0.childs[k - 1], sub));
                        assert(spec_path_in(e0, p@));
                        assert(spec_claims(spec_at_elem(e0, p@), ev));
                        assert(spec_is_in_v(spec_at_elem(e0, p@), cursor));
                    }
                    return Some(p);
                },
                None => {
                    proof {
                        let t = e0.childs.take(k as int);
                        assert(t.drop_last() =~= e0.childs.take(k as int - 1));
                        assert(t.last() == e0.childs[k - 1]);
                    }
                },
            }
            k = k - 1;
        }
        proof {
            assert(e0.childs.take(0) =~= Seq::<ElemV>::empty());
        }
        let claims = match &self.inherit {
            UiType::Button(_) => match ev {
                UiEvent::Press => true,
                UiEvent::Move => true,
                UiEvent::Release => false,
            },
            UiType::CheckBox(_) => match ev {
                UiEvent::Press => true,
                UiEvent::Move => true,
                UiEvent::Release => false,
            },
            UiType::DragBox(_) => match ev {
                UiEvent::Press => true,
                UiEvent::Release => false,
                UiEvent::Move => false,
            },
            _ => false,
        };
        proof {
            assert(claims == spec_claims(e0, ev));
        }
        if claims {
            Some(Vec::new())
        } else {
            None
        }
    }

    /// Applies a targeted interaction mutation to the element at
    /// `path` within this subtree.
    #[verifier::rlimit(100)]
    pub fn apply_op_at(&mut self, path: &Vec<usize>, depth: usize, op: NodeOp)
        requires
            depth <= path@.len(),
            spec_path_in(old(self)@, path@.skip(depth as int)),
        ensures
            final(self)@ == spec_apply_at(old(self)@, path@.skip(depth as int), op),
        decreases height(self@),
    {
        let ghost e0 = self@;
        let ghost rest = path@.skip(depth as int);
        if depth == path.len() {
            proof {
                assert(rest.len() == 0);
            }
            let op_dirty = match op {
                NodeOp::SetValue(_) => false,
                _ => match &self.inherit {
                    UiType::DragBox(_) => false,
                    _ => true,
                },
            };
            match op {
                NodeOp::Press => {
                    match &mut self.inherit {
                        UiType::Button(b) => {
                            b.interaction = Interaction::Pressed;
                        },
                        UiType::CheckBox(c) => {
                            c.pressed = true;
                        },
                        UiType::DragBox(d) => {
                            d.interaction = Interaction::Pressed;
                        },
                        _ => {},
                    }
                },
                NodeOp::Unpress => {
                    match &mut self.inherit {
                        UiType::Button(b) => {
                            b.interaction = Interaction::Idle;
                        },
                        UiType::CheckBox(c) => {
                            c.pressed = false;
                        },
                        UiType::DragBox(d) => {
                            d.interaction = Interaction::Idle;
                        },
                        _ => {},
                    }
                },
                NodeOp::Hover(on) => {
                    match &mut self.inherit {
                        UiType::Button(b) => {
                            b.interaction = if on {
                                Interaction::Hover
                            } else {
                                Interaction::Idle
                            };
                        },
                        UiType::CheckBox(c) => {
                            c.selected = on;
                        },
                        _ => {},
                    }
                },
                NodeOp::Toggle => {
                    match &mut self.inherit {
                        UiType::CheckBox(c) => {
                            c.enabled = !c.enabled;
                        },
                        _ => {},
                    }
                },
                NodeOp::SetValue(v) => {
                    match &mut self.inherit {
                        UiType::Slider(s) => {
                            s.value = v;
                        },
                        _ => {},
                    }
                },
            }
            if op_dirty {
                self.dirty = true;
            }
            return ;
        }
        proof {
            lemma_seq_view_index(self.childs@);
            assert(rest.len() > 0);
            assert(rest[0] < e0.childs.len());
            lemma_seq_height_bound(e0.childs, rest[0] as int);
            assert(height(e0) == 1 + seq_height(e0.childs));
            assert(self.childs@[rest[0] as int]@ == e0.childs[rest[0] as int]);
            assert(path@.skip(depth as int + 1) =~= rest.drop_first());
        }
        let i = path[depth];
        let ghost pre_childs = self.childs@;
        let child = &mut self.childs[i];
        child.apply_op_at(path, depth + 1, op);
        proof {
            lemma_seq_view_index(pre_childs);
            lemma_seq_view_index(self.childs@);
            assert forall|j: int| 0 <= j < pre_childs.len() && j != i implies seq_view(
                self.childs@,
            )[j] == seq_view(pre_childs)[j] by {
                assert(self.childs@[j] == pre_childs[j]);
                assert(seq_view(self.childs@)[j] == self.childs@[j]@);
                assert(seq_view(pre_childs)[j] == pre_childs[j]@);
            }
            assert(seq_view(self.childs@) =~= e0.childs.update(
                rest[0] as int,
                spec_apply_at(e0.childs[rest[0] as int], rest.drop_first(), op),
            ));
            assert(self@ =~= spec_apply_at(e0, rest, op));
        }
    }

    /// Moves this whole subtree by a drag delta: every computed
    /// position and every shaped glyph shifts; nothing else changes.
    pub fn move_computed(&mut self, amount: Vec2)
        ensures
            final(self)@ == spec_move(old(self)@, amount),
        decreases height(self@),
    {
        let ghost e0 = self@;
        proof {
            lemma_seq_view_index(self.childs@);
        }
        let n = self.childs.len();
        let mut i: usize = 0;
        while i < n
            invariant
                i <= n,
                n == self.childs@.len(),
                e0.childs.len() == n,
                forall|j: int| i <= j < n ==> seq_view(self.childs@)[j] == e0.childs[j],
                seq_view(self.childs@).len() == n,
                seq_view(self.childs@).take(i as int) == spec_move_seq(
                    e0.childs.take(i as int),
                    amount,
                ),
                self.style == old(self).style,
                self.visible == old(self).visible,
                self.dirty == old(self).dirty,
                self.computed == old(self).computed,
                self.inherit == old(self).inherit,
                e0 == old(self)@,
            decreases n - i,
        {
            proof {
                lemma_seq_view_index(self.childs@);
                lemma_seq_height_bound(e0.childs, i as int);
                assert(height(e0) == 1 + seq_height(e0.childs));
                assert(self.childs@[i as int]@ == e0.childs[i as int]);
            }
            let ghost pre_childs = self.childs@;
            let child = &mut self.childs[i];
            child.move_computed(amount);
            proof {
                lemma_seq_view_index(pre_childs);
                lemma_seq_view_index(self.childs@);
                assert forall|j: int| 0 <= j < n && j != i implies seq_view(self.childs@)[j]
                    == seq_view(pre_childs)[j] by {
                    assert(self.childs@[j] == pre_childs[j]);
                    assert(seq_view(self.childs@)[j] == self.childs@[j]@);
                    assert(seq_view(pre_childs)[j] == pre_childs[j]@);
                }
                assert(e0.childs.take(i + 1 as int).drop_last() =~= e0.childs.take(i as int));
                assert(e0.childs.take(i + 1 as int).last() == e0.childs[i as int]);
                assert(seq_view(self.childs@).take(i + 1 as int) =~= seq_view(pre_childs).take(
                    i as int,
                ).push(spec_move(e0.childs[i as int], amount)));
            }
            i = i + 1;
        }
        proof {
            assert(e0.childs.take(n as int) =~= e0.childs);
            lemma_seq_view_index(self.childs@);
            assert(seq_view(self.childs@).take(n as int) =~= seq_view(self.childs@));
        }
        self.computed.pos = self.computed.pos.plus(&amount);
        let is_text = match &self.inherit {
            UiType::Text(_) => true,
            _ => false,
        };
        if is_text {
            match &mut self.inherit {
                UiType::Text(t) => {
                    let ghost g0 = t.comp_text@;
                    let ghost f0 = t.font;
                    let ghost tx0 = t.text@;
                    let ghost w0 = t.wrap;
                    let ghost md0 = t.mode;
                    let m = t.comp_text.len();
                    let mut k: usize = 0;
                    while k < m
                        invariant
                            k <= m,
                            m == t.comp_text@.len(),
                            g0.len() == m,
                            t.font == f0,
                            t.text@ == tx0,
                            t.wrap == w0,
                            t.mode == md0,
                            forall|j: int| k <= j < m ==> t.comp_text@[j] == g0[j],
                            forall|j: int|
                                0 <= j < k ==> t.comp_text@[j] == spec_shift_insts(g0, amount)[j],
                        decreases m - k,
                    {
                        let g = t.comp_text[k];
                        let ng = UiInstance {
                            x: px_add(g.x, amount.x),
                            y: px_add(g.y, amount.y),
                            ..g
                        };
                        t.comp_text.set(k, ng);
                        k = k + 1;
                    }
                    proof {
                        assert(t.comp_text@ =~= spec_shift_insts(g0, amount));
                    }
                },
                _ => {},
            }
        }
        proof {
            assert(self@ =~= spec_move(e0, amount));
        }
    }
}

} // verus!
