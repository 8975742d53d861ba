//! The element tree: a node owns its children and carries a closed set
//! of variant payloads, one computed layout, and a dirty flag.

use vstd::prelude::*;

use crate::instance::RawUiElement;
use crate::instance::UiInstance;
use crate::interaction::Interaction;
use crate::style::Position;
use crate::style::Style;
use crate::unit::Align;

verus! {

/// How a run of text breaks into lines.
#[derive(Debug, Clone, Copy, PartialEq, Eq, Structural)]
pub enum WrapMode {
    /// Break whenever the next glyph would exceed the available width.
    Character,
    /// Accumulate whole words; never split one.
    Word,
    /// Break only on an explicit newline.
    NoWrap,
}

/// A run of text shaped into positioned glyph instances during layout.
#[derive(Debug, Clone)]
pub struct Text {
    pub font: u16,
    pub text: Vec<u8>,
    pub comp_text: Vec<UiInstance>,
    pub wrap: WrapMode,
    pub mode: u8,
}

impl Text {
    /// A fresh text payload; glyphs are produced by the next build.
    pub fn text(font: u16, text: Vec<u8>, mode: u8) -> (r: Text)
        ensures
            r.font == font,
            r.text == text,
            r.comp_text@ == Seq::<UiInstance>::empty(),
            r.wrap == WrapMode::Word,
            r.mode == mode,
    {
        Text { font, text, comp_text: Vec::new(), wrap: WrapMode::Word, mode }
    }
}

/// A clickable element with interaction-selected styles.
#[derive(Debug, Clone)]
pub struct Button {
    pub hover_style: Style,
    pub press_style: Style,
    pub interaction: Interaction,
}

impl Button {
    pub fn button(hover_style: Style, press_style: Style) -> (r: Button)
        ensures
            r.hover_style == hover_style,
            r.press_style == press_style,
            r.interaction == Interaction::Idle,
    {
        Button { hover_style, press_style, interaction: Interaction::Idle }
    }
}

/// A togglable element; releasing a press inside its bounds flips it.
#[derive(Debug, Clone)]
pub struct CheckBox {
    pub hover_style: Style,
    pub press_style: Style,
    pub selected: bool,
    pub pressed: bool,
    pub enabled: bool,
}

impl CheckBox {
    pub fn checkbox(hover_style: Style, press_style: Style) -> (r: CheckBox)
        ensures
            r.hover_style == hover_style,
            r.press_style == press_style,
            !r.selected,
            !r.pressed,
            !r.enabled,
    {
        CheckBox { hover_style, press_style, selected: false, pressed: false, enabled: false }
    }
}

/// A value range driven by dragging a grip child.
#[derive(Debug, Clone)]
pub struct Slider {
    pub min_value: i64,
    pub max_value: i64,
    pub value: i64,
    pub step: i64,
    pub padding: i64,
}

impl Slider {
    pub fn slider(min_value: i64, max_value: i64, value: i64) -> (r: Slider)
        ensures
            r == (Slider { min_value, max_value, value, step: 1i64, padding: 5i64 }),
    {
        Slider { min_value, max_value, value, step: 1, padding: 5 }
    }
}

impl Slider {
    /// Assembles a slider element: the track carries the value range,
    /// an inline infill child shows the filled part, and an x-only
    /// drag-box grip child drives the value.
    pub fn new(
        style: Style,
        min_value: i64,
        max_value: i64,
        value: i64,
        infill_style: Style,
        grip_style: Style,
    ) -> (r: UiElement)
        ensures
            r.style == style,
            r.visible,
            r.dirty,
            r.inherit matches UiType::Slider(s) && s == Slider::slider_spec(
                min_value,
                max_value,
                value,
            ),
            r.childs@.len() == 2,
            r.childs@[0].style == infill_style,
            r.childs@[0].inherit is Block,
            r.childs@[1].style == grip_style,
            r.childs@[1].inherit matches UiType::DragBox(d) && d.axis == AXIS_X
                && !d.move_parent,
    {
        let grip_payload = DragBox::dragbox_x();
        let infill = UiElement::extend(infill_style, Vec::new(), UiType::Block);
        let grip = UiElement::extend(grip_style, Vec::new(), UiType::DragBox(grip_payload));
        let mut childs: Vec<UiElement> = Vec::new();
        childs.push(infill);
        childs.push(grip);
        UiElement::extend(
            style,
            childs,
            UiType::Slider(Slider::slider(min_value, max_value, value)),
        )
    }

    /// The payload `new` installs.
    pub open spec fn slider_spec(min_value: i64, max_value: i64, value: i64) -> Slider {
        Slider { min_value, max_value, value, step: 1i64, padding: 5i64 }
    }
}

/// Axis mask: drags move on the x axis only.
pub const AXIS_X: u8 = 1;

/// Axis mask: drags move on the y axis only.
pub const AXIS_Y: u8 = 2;

/// Axis mask: drags move freely.
pub const AXIS_BOTH: u8 = 3;

/// An element that follows the cursor while pressed, along the axes of
/// its mask; it may move its whole parent subtree instead of itself.
#[derive(Debug, Clone)]
pub struct DragBox {
    pub grip_height: i64,
    pub align: Align,
    pub axis: u8,
    pub interaction: Interaction,
    pub move_parent: bool,
}

impl DragBox {
    /// A drag box that moves its parent subtree on both axes.
    pub fn dragbox() -> (r: DragBox)
        ensures
            r.axis == AXIS_BOTH,
            r.interaction == Interaction::Idle,
            r.move_parent,
    {
        DragBox {
            grip_height: 20,
            align: Align::Center,
            axis: AXIS_BOTH,
            interaction: Interaction::Idle,
            move_parent: true,
        }
    }

    /// A drag box that moves only itself, on the x axis alone.
    pub fn dragbox_x() -> (r: DragBox)
        ensures
            r.axis == AXIS_X,
            r.interaction == Interaction::Idle,
            !r.move_parent,
    {
        DragBox {
            grip_height: 20,
            align: Align::Center,
            axis: AXIS_X,
            interaction: Interaction::Idle,
            move_parent: false,
        }
    }
}

/// An image quad; the index selects the bound texture.
#[derive(Debug, Clone)]
pub struct UiImage {
    pub index: u8,
}

/// A focusable text-entry element.
#[derive(Debug, Clone)]
pub struct TextInput {
    pub enabled_style: Style,
    pub enabled: bool,
}

impl TextInput {
    pub fn text_input(enabled_style: Style) -> (r: TextInput)
        ensures
            r.enabled_style == enabled_style,
            !r.enabled,
    {
        TextInput { enabled_style, enabled: false }
    }
}

/// The closed set of element payloads.
#[derive(Debug, Clone)]
pub enum UiType {
    Block,
    Text(Text),
    Button(Button),
    CheckBox(CheckBox),
    Slider(Slider),
    DragBox(DragBox),
    Image(UiImage),
    TextInput(TextInput),
}

/// The tag of an element payload, with the positioning regime folded in
/// for plain blocks.
#[derive(Debug, Clone, Copy, PartialEq, Eq, Structural)]
pub enum ElementType {
    Block,
    AbsoluteLayout,
    Text,
    Button,
    CheckBox,
    Slider,
    DragBox,
    Image,
    TextInput,
}

/// One node of the element tree.
pub struct UiElement {
    pub style: Style,
    pub visible: bool,
    pub dirty: bool,
    pub computed: RawUiElement,
    pub childs: Vec<UiElement>,
    pub inherit: UiType,
}

/// The mathematical value of a text payload.
#[verifier::ext_equal]
pub ghost struct TextV {
    pub font: u16,
    pub text: Seq<u8>,
    pub comp_text: Seq<UiInstance>,
    pub wrap: WrapMode,
    pub mode: u8,
}

/// The mathematical value of an element payload.
pub ghost enum UiTypeV {
    Block,
    Text(TextV),
    Button(Button),
    CheckBox(CheckBox),
    Slider(Slider),
    DragBox(DragBox),
    Image(UiImage),
    TextInput(TextInput),
}

/// The mathematical value of one element node: the whole subtree as a
/// pure value. Layout and interaction contracts are stated over it.
#[verifier::ext_equal]
pub ghost struct ElemV {
    pub style: Style,
    pub visible: bool,
    pub dirty: bool,
    pub computed: RawUiElement,
    pub childs: Seq<ElemV>,
    pub inherit: UiTypeV,
}

impl Text {
    pub open spec fn view(self) -> TextV {
        TextV {
            font: self.font,
            text: self.text@,
            comp_text: self.comp_text@,
            wrap: self.wrap,
            mode: self.mode,
        }
    }
}

impl UiType {
    pub open spec fn view(self) -> UiTypeV {
        match self {
            UiType::Block => UiTypeV::Block,
            UiType::Text(t) => UiTypeV::Text(t.view()),
            UiType::Button(b) => UiTypeV::Button(b),
            UiType::CheckBox(c) => UiTypeV::CheckBox(c),
            UiType::Slider(s) => UiTypeV::Slider(s),
            UiType::DragBox(d) => UiTypeV::DragBox(d),
            UiType::Image(i) => UiTypeV::Image(i),
            UiType::TextInput(t) => UiTypeV::TextInput(t),
        }
    }
}

impl View for UiElement {
    type V = ElemV;

    open spec fn view(&self) -> ElemV
        decreases self,
    {
        ElemV {
            style: self.style,
            visible: self.visible,
            dirty: self.dirty,
            computed: self.computed,
            childs: seq_view(self.childs@),
            inherit: self.inherit.view(),
        }
    }
}

/// The views of a sequence of subtrees.
pub open spec fn seq_view(s: Seq<UiElement>) -> Seq<ElemV>
    decreases s,
{
    if s.len() == 0 {
        Seq::empty()
    } else {
        seq_view(s.drop_last()).push(s.last()@)
    }
}

/// `seq_view` maps indices through unchanged.
pub proof fn lemma_seq_view_index(s: Seq<UiElement>)
    ensures
        seq_view(s).len() == s.len(),
        forall|i: int| 0 <= i < s.len() ==> seq_view(s)[i] == #[trigger] s[i]@,
    decreases s.len(),
{
    if s.len() == 0 {
        assert(seq_view(s) == Seq::<ElemV>::empty());
    } else {
        lemma_seq_view_index(s.drop_last());
        assert(seq_view(s) == seq_view(s.drop_last()).push(s.last()@));
        assert forall|i: int| 0 <= i < s.len() implies seq_view(s)[i] == #[trigger] s[i]@ by {
            if i < s.len() - 1 {
                assert(s.drop_last()[i] == s[i]);
                assert(seq_view(s)[i] == seq_view(s.drop_last())[i]);
            } else {
                assert(s[i] == s.last());
            }
        }
    }
}

/// Appending one subtree appends its view.
pub proof fn lemma_seq_view_push(s: Seq<UiElement>, e: UiElement)
    ensures
        seq_view(s.push(e)) == seq_view(s).push(e@),
{
    assert(s.push(e).drop_last() =~= s);
    assert(s.push(e).last() == e);
}

/// The height of the tree rooted at `e`; drives termination of the
/// tree walks.
pub open spec fn height(e: ElemV) -> nat
    decreases e,
{
    1 + seq_height(e.childs)
}

/// The largest height among a sequence of subtrees.
pub open spec fn seq_height(s: Seq<ElemV>) -> nat
    decreases s,
{
    if s.len() == 0 {
        0
    } else {
        let h = height(s[0]);
        let r = seq_height(s.drop_first());
        if h >= r {
            h
        } else {
            r
        }
    }
}

/// Every subtree in a sequence is within the sequence's maximum height.
pub proof fn lemma_seq_height_bound(s: Seq<ElemV>, i: int)
    requires
        0 <= i < s.len(),
    ensures
        height(s[i]) <= seq_height(s),
    decreases s.len(),
{
    if i == 0 {
    } else {
        lemma_seq_height_bound(s.drop_first(), i - 1);
        assert(s.drop_first()[i - 1] == s[i]);
    }
}

/// The style the current interaction state selects: buttons and check
/// boxes swap to their hover or press styles.
pub open spec fn spec_effective_style_v(e: ElemV) -> Style {
    match e.inherit {
        UiTypeV::Button(b) => {
            match b.interaction {
                Interaction::Idle => e.style,
                Interaction::Hover => b.hover_style,
                Interaction::Pressed => b.press_style,
                Interaction::Dragged => b.press_style,
            }
        },
        UiTypeV::CheckBox(c) => {
            if c.pressed || c.enabled {
                c.press_style
            } else if c.selected {
                c.hover_style
            } else {
                e.style
            }
        },
        _ => e.style,
    }
}

/// Whitespace and printable bytes only: everything below the space
/// character except the newline has no glyph metrics.
pub open spec fn text_bytes_wf(bytes: Seq<u8>) -> bool {
    forall|i: int| 0 <= i < bytes.len() ==> bytes[i] >= 32 || bytes[i] == 10
}

/// Structural well-formedness of a subtree: text runs only ever flow
/// inline and hold only bytes with glyph metrics.
pub open spec fn wf(e: ElemV) -> bool
    decreases height(e), 0nat,
{
    &&& match e.inherit {
        UiTypeV::Text(t) => e.style.position is Inline && text_bytes_wf(t.text),
        _ => true,
    }
    &&& seq_wf(e.childs)
}

/// Well-formedness of every subtree in a sequence.
pub open spec fn seq_wf(s: Seq<ElemV>) -> bool
    decreases seq_height(s), s.len(),
    via seq_wf_decreases
{
    if s.len() == 0 {
        true
    } else {
        wf(s[0]) && seq_wf(s.drop_first())
    }
}

#[via_fn]
proof fn seq_wf_decreases(s: Seq<ElemV>) {
    if s.len() > 0 {
        lemma_seq_height_bound(s, 0);
    }
}

/// A sequence each of whose members is well formed is well formed.
pub proof fn lemma_seq_wf_from_pointwise(s: Seq<ElemV>)
    requires
        forall|i: int| 0 <= i < s.len() ==> wf(#[trigger] s[i]),
    ensures
        seq_wf(s),
    decreases s.len(),
{
    if s.len() > 0 {
        assert forall|i: int| 0 <= i < s.drop_first().len() implies wf(
            #[trigger] s.drop_first()[i],
        ) by {
            assert(s.drop_first()[i] == s[i + 1]);
        }
        lemma_seq_wf_from_pointwise(s.drop_first());
    }
}

/// Each member of a well-formed sequence is well formed.
pub proof fn lemma_seq_wf_index(s: Seq<ElemV>, i: int)
    requires
        seq_wf(s),
        0 <= i < s.len(),
    ensures
        wf(s[i]),
    decreases s.len(),
{
    if i > 0 {
        lemma_seq_wf_index(s.drop_first(), i - 1);
        assert(s.drop_first()[i - 1] == s[i]);
    }
}

impl UiElement {
    /// Wraps a payload into a fresh, dirty, visible node.
    pub fn extend(style: Style, childs: Vec<UiElement>, inherit: UiType) -> (r: UiElement)
        ensures
            r.style == style,
            r.visible,
            r.dirty,
            r.computed == RawUiElement::spec_default(),
            r.childs == childs,
            r.inherit == inherit,
    {
        UiElement {
            style,
            visible: true,
            dirty: true,
            computed: RawUiElement {
                color: crate::formats::RGBA { r: 0, g: 0, b: 0, a: 0 },
                border_color: crate::formats::RGBA { r: 0, g: 0, b: 0, a: 0 },
                border: 0,
                pos: crate::vec2::Vec2 { x: 0, y: 0 },
                size: crate::vec2::Vec2 { x: 0, y: 0 },
                corner: 0,
                mode: 0,
                order: 0,
            },
            childs,
            inherit,
        }
    }

    /// Hands ownership of a child to this node.
    pub fn add_child(&mut self, child: UiElement)
        ensures
            final(self).childs@ == old(self).childs@.push(child),
            final(self).style == old(self).style,
            final(self).visible == old(self).visible,
            final(self).dirty == old(self).dirty,
            final(self).computed == old(self).computed,
            final(self).inherit == old(self).inherit,
    {
        self.childs.push(child);
    }

    /// The tag of this element's payload.
    pub fn element_type(&self) -> (r: ElementType)
        ensures
            r == self.spec_element_type(),
    {
        match &self.inherit {
            UiType::Block => {
                match &self.style.position {
                    Position::Absolute(_) => ElementType::AbsoluteLayout,
                    Position::Inline(_) => ElementType::Block,
                }
            },
            UiType::Text(_) => ElementType::Text,
            UiType::Button(_) => ElementType::Button,
            UiType::CheckBox(_) => ElementType::CheckBox,
            UiType::Slider(_) => ElementType::Slider,
            UiType::DragBox(_) => ElementType::DragBox,
            UiType::Image(_) => ElementType::Image,
            UiType::TextInput(_) => ElementType::TextInput,
        }
    }

    pub open spec fn spec_element_type(self) -> ElementType {
        match self.inherit {
            UiType::Block => {
                if self.style.position is Absolute {
                    ElementType::AbsoluteLayout
                } else {
                    ElementType::Block
                }
            },
            UiType::Text(_) => ElementType::Text,
            UiType::Button(_) => ElementType::Button,
            UiType::CheckBox(_) => ElementType::CheckBox,
            UiType::Slider(_) => ElementType::Slider,
            UiType::DragBox(_) => ElementType::DragBox,
            UiType::Image(_) => ElementType::Image,
            UiType::TextInput(_) => ElementType::TextInput,
        }
    }

    /// The style the current interaction state selects: buttons and
    /// check boxes swap to their hover or press styles.
    pub open spec fn spec_effective_style(self) -> Style {
        match self.inherit {
            UiType::Button(b) => {
                match b.interaction {
                    Interaction::Idle => self.style,
                    Interaction::Hover => b.hover_style,
                    Interaction::Pressed => b.press_style,
                    Interaction::Dragged => b.press_style,
                }
            },
            UiType::CheckBox(c) => {
                if c.pressed || c.enabled {
                    c.press_style
                } else if c.selected {
                    c.hover_style
                } else {
                    self.style
                }
            },
            _ => self.style,
        }
    }

    pub fn effective_style(&self) -> (r: Style)
        ensures
            r == self.spec_effective_style(),
    {
        match &self.inherit {
            UiType::Button(b) => {
                match b.interaction {
                    Interaction::Idle => self.style,
                    Interaction::Hover => b.hover_style,
                    Interaction::Pressed => b.press_style,
                    Interaction::Dragged => b.press_style,
                }
            },
            UiType::CheckBox(c) => {
                if c.pressed || c.enabled {
                    c.press_style
                } else if c.selected {
                    c.hover_style
                } else {
                    self.style
                }
            },
            _ => self.style,
        }
    }

    /// Replaces a text run's bytes and marks the element for re-layout.
    pub fn set_text(&mut self, text: Vec<u8>)
        requires
            old(self).inherit is Text,
        ensures
            final(self).inherit matches UiType::Text(t) ==> {
                &&& t.text == text
                &&& t.font == old(self).inherit->Text_0.font
                &&& t.comp_text == old(self).inherit->Text_0.comp_text
                &&& t.wrap == old(self).inherit->Text_0.wrap
                &&& t.mode == old(self).inherit->Text_0.mode
            },
            final(self).inherit is Text,
            final(self).dirty,
            final(self).style == old(self).style,
            final(self).visible == old(self).visible,
            final(self).computed == old(self).computed,
            final(self).childs == old(self).childs,
    {
        match &mut self.inherit {
            UiType::Text(t) => {
                t.text = text;
            },
            _ => {},
        }
        self.dirty = true;
    }

    /// Axis-aligned containment: the cursor is inside this element's
    /// computed box and the element is visible. Never true for an
    /// invisible element.
    pub open spec fn spec_is_in(self, pos: crate::vec2::Vec2) -> bool {
        &&& self.visible
        &&& self.computed.pos.x <= pos.x < self.computed.pos.x + self.computed.size.x
        &&& self.computed.pos.y <= pos.y < self.computed.pos.y + self.computed.size.y
    }

    pub fn is_in(&self, pos: crate::vec2::Vec2) -> (r: bool)
        ensures
            r == self.spec_is_in(pos),
    {
        if !self.visible {
            return false;
        }
        let c = &self.computed;
        c.pos.x <= pos.x && (pos.x as i128) < (c.pos.x as i128) + (c.size.x as i128) && c.pos.y
            <= pos.y && (pos.y as i128) < (c.pos.y as i128) + (c.size.y as i128)
    }
}

} // verus!
