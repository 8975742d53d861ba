use oxui::element::Text;
use oxui::element::UiImage;
use oxui::element::AXIS_X;
use oxui::element::AXIS_Y;
use oxui::cursor::mask_delta;
use oxui::layout::BuildContext;
use oxui::state::EVENT_BLOCKED;
use oxui::state::EVENT_NEW;
use oxui::state::EVENT_NONE;
use oxui::state::EVENT_OLD;
use oxui::state::UiState;
use oxui::style::Style;
use oxui::style::UiSize;
use oxui::Align;
use oxui::Font;
use oxui::Interaction;
use oxui::UiElement;
use oxui::UiEvent;
use oxui::UiType;
use oxui::UiUnit;
use oxui::Vec2;
use oxui::RGBA;

fn px(n: i64) -> UiSize {
    UiSize::Size(UiUnit::Px(n))
}

fn inline_block(w: i64, h: i64) -> UiElement {
    UiElement::extend(
        Style::inline_box(px(w), px(h), RGBA::new(10, 20, 30, 255)),
        Vec::new(),
        UiType::Block,
    )
}

#[test]
fn lib_it_works() {
}

#[test]
fn mod_it_works() {
    println!("lol")
}

#[test]
fn test() {
    let start_time = std::time::Instant::now();
    let mut delta = 0.0;
    for i in 0..100 {
        let v = (oxui::hash(i + start_time.elapsed().subsec_millis() % 10) as f64) / 4294967295.0;
        delta += 2.0 * v - v;
    }
    println!("{}", delta);
}

#[test]
fn unit_resolution_px_and_fill() {
    let parent = Vec2::new(417, 93);
    assert_eq!(UiUnit::Px(42).pixelx(parent), 42);
    assert_eq!(UiUnit::Px(42).pixely(parent), 42);
    assert_eq!(UiUnit::Fill.pixelx(parent), 417);
    assert_eq!(UiUnit::Fill.pixely(parent), 93);
    assert_eq!(UiUnit::Relative(500).pixelx(parent), 208);
    assert_eq!(UiUnit::Zero.pixely(parent), 0);
}

#[test]
fn flow_wrap_three_in_300() {
    // Three 120px inline blocks in a 300px parent: two fit on the
    // first line, the third wraps to a second line.
    let mut state = UiState::create(true);
    let mut root = UiElement::extend(
        Style::inline_box(px(300), px(300), RGBA::new(0, 0, 0, 255)),
        Vec::new(),
        UiType::Block,
    );
    root.add_child(inline_block(120, 30));
    root.add_child(inline_block(120, 30));
    root.add_child(inline_block(120, 30));
    state.add_element(root);
    state.build(Vec2::new(300, 300));
    let r = &state.elements[0];
    assert_eq!(r.childs[0].computed.pos, Vec2::new(0, 0));
    assert_eq!(r.childs[1].computed.pos, Vec2::new(120, 0));
    assert_eq!(r.childs[2].computed.pos, Vec2::new(0, 30));
}

#[test]
fn flow_cursor_rule() {
    let mut ctx = BuildContext::root(Vec2::new(300, 300));
    let mut pos = Vec2::new(0, 0);
    let fit = ctx.fits_in_line(&mut pos, &Vec2::new(120, 30));
    assert!(fit);
    assert_eq!(ctx.start_pos.x, 120);
    let mut pos2 = Vec2::new(0, 0);
    ctx.fits_in_line(&mut pos2, &Vec2::new(120, 30));
    assert_eq!(ctx.start_pos.x, 240);
    let mut pos3 = Vec2::new(0, 0);
    let fit3 = ctx.fits_in_line(&mut pos3, &Vec2::new(120, 30));
    assert!(!fit3);
    assert_eq!(ctx.start_pos.x, 120);
    assert_eq!(pos3.y, 30);
}

#[test]
fn absolute_centering() {
    // A 100x50 absolute element centered in a 400x300 parent sits at
    // (150, 125).
    let mut state = UiState::create(true);
    let root = UiElement::extend(
        Style::absolute_box(
            Align::Center,
            UiUnit::Zero,
            UiUnit::Zero,
            px(100),
            px(50),
            RGBA::new(1, 2, 3, 255),
        ),
        Vec::new(),
        UiType::Block,
    );
    state.add_element(root);
    state.build(Vec2::new(400, 300));
    assert_eq!(state.elements[0].computed.pos, Vec2::new(150, 125));
    assert_eq!(state.elements[0].computed.size, Vec2::new(100, 50));
}

#[test]
fn drag_axis_mask() {
    // An x-only mask passes the x delta through and zeroes y.
    assert_eq!(mask_delta(Vec2::new(10, 7), AXIS_X), Vec2::new(10, 0));
    assert_eq!(mask_delta(Vec2::new(10, 7), AXIS_Y), Vec2::new(0, 7));
    assert_eq!(mask_delta(Vec2::new(10, 7), 3), Vec2::new(10, 7));
}

#[test]
fn drag_moves_dragbox_x_only() {
    let mut state = UiState::create(true);
    let mut root = UiElement::extend(
        Style::inline_box(px(300), px(300), RGBA::new(0, 0, 0, 255)),
        Vec::new(),
        UiType::Block,
    );
    let grip = UiElement::extend(
        Style::inline_box(px(40), px(40), RGBA::new(9, 9, 9, 255)),
        Vec::new(),
        UiType::DragBox(oxui::element::DragBox::dragbox_x()),
    );
    root.add_child(grip);
    state.add_element(root);
    state.build(Vec2::new(300, 300));
    let before = state.elements[0].childs[0].computed.pos;
    assert_eq!(state.update_cursor(Vec2::new(300, 300), Vec2::new(5, 5), UiEvent::Press), EVENT_NEW);
    let r = state.update_cursor(Vec2::new(300, 300), Vec2::new(15, 12), UiEvent::Move);
    assert_eq!(r, EVENT_OLD);
    let after = state.elements[0].childs[0].computed.pos;
    assert_eq!(after.x - before.x, 10);
    assert_eq!(after.y, before.y);
}

#[test]
fn build_is_idempotent() {
    let mut state = UiState::create(true);
    let mut root = UiElement::extend(
        Style::inline_box(px(300), px(200), RGBA::new(0, 0, 0, 255)),
        Vec::new(),
        UiType::Block,
    );
    root.add_child(inline_block(120, 30));
    root.add_child(inline_block(150, 40));
    state.add_element(root);
    state.build(Vec2::new(300, 300));
    let first = state.get_instaces(Vec2::new(300, 300));
    state.build(Vec2::new(300, 300));
    let second = state.get_instaces(Vec2::new(300, 300));
    assert_eq!(first, second);
}

#[test]
fn hit_test_containment() {
    let mut state = UiState::create(true);
    state.add_element(inline_block(100, 50));
    state.build(Vec2::new(300, 300));
    let e = &state.elements[0];
    assert!(e.is_in(Vec2::new(0, 0)));
    assert!(e.is_in(Vec2::new(99, 49)));
    assert!(!e.is_in(Vec2::new(100, 10)));
    assert!(!e.is_in(Vec2::new(10, 50)));
    let mut hidden = inline_block(100, 50);
    hidden.visible = false;
    let mut state2 = UiState::create(true);
    state2.add_element(hidden);
    state2.build(Vec2::new(300, 300));
    assert!(!state2.elements[0].is_in(Vec2::new(5, 5)));
}

#[test]
fn button_hover_and_press() {
    let base = Style::inline_box(px(100), px(50), RGBA::new(1, 1, 1, 255));
    let hover = Style::inline_box(px(100), px(50), RGBA::new(2, 2, 2, 255));
    let pressv = Style::inline_box(px(100), px(50), RGBA::new(3, 3, 3, 255));
    let button = UiElement::extend(
        base,
        Vec::new(),
        UiType::Button(oxui::element::Button::button(hover, pressv)),
    );
    let mut state = UiState::create(true);
    state.add_element(button);
    state.build(Vec2::new(300, 300));
    // A move inside begins a hover; a second one only refreshes it.
    assert_eq!(state.update_cursor(Vec2::new(300, 300), Vec2::new(5, 5), UiEvent::Move), EVENT_NEW);
    assert_eq!(
        state.update_cursor(Vec2::new(300, 300), Vec2::new(6, 6), UiEvent::Move),
        EVENT_BLOCKED,
    );
    match &state.elements[0].inherit {
        UiType::Button(b) => assert_eq!(b.interaction, Interaction::Hover),
        _ => panic!(),
    }
    // A press lands and records the element; release inside fires it.
    assert_eq!(
        state.update_cursor(Vec2::new(300, 300), Vec2::new(6, 6), UiEvent::Press),
        EVENT_NEW,
    );
    match &state.elements[0].inherit {
        UiType::Button(b) => assert_eq!(b.interaction, Interaction::Pressed),
        _ => panic!(),
    }
    assert_eq!(
        state.update_cursor(Vec2::new(300, 300), Vec2::new(6, 6), UiEvent::Release),
        EVENT_OLD,
    );
    let events = state.take_events();
    assert_eq!(events.len(), 2);
    // A move outside everything clears the hover.
    assert_eq!(
        state.update_cursor(Vec2::new(300, 300), Vec2::new(250, 250), UiEvent::Move),
        EVENT_OLD,
    );
    assert_eq!(
        state.update_cursor(Vec2::new(300, 300), Vec2::new(250, 250), UiEvent::Move),
        EVENT_NONE,
    );
}

#[test]
fn build_resets_interaction_state() {
    // Hovering one button, rebuilding, then hovering another leaves
    // only the second hovered: a full build drops interaction state.
    let base = Style::inline_box(px(50), px(50), RGBA::new(1, 1, 1, 255));
    let mk = || UiElement::extend(
        base,
        Vec::new(),
        UiType::Button(oxui::element::Button::button(base, base)),
    );
    let mut state = UiState::create(true);
    let mut root = UiElement::extend(
        Style::inline_box(px(300), px(50), RGBA::new(0, 0, 0, 255)),
        Vec::new(),
        UiType::Block,
    );
    root.add_child(mk());
    root.add_child(mk());
    state.add_element(root);
    state.build(Vec2::new(300, 300));
    assert_eq!(state.update_cursor(Vec2::new(300, 300), Vec2::new(5, 5), UiEvent::Move), EVENT_NEW);
    state.build(Vec2::new(300, 300));
    assert_eq!(
        state.update_cursor(Vec2::new(300, 300), Vec2::new(55, 5), UiEvent::Move),
        EVENT_NEW,
    );
    let hovered: Vec<bool> = state.elements[0].childs.iter().map(|c| match &c.inherit {
        UiType::Button(b) => b.interaction == Interaction::Hover,
        _ => false,
    }).collect();
    assert_eq!(hovered, vec![false, true]);
}

#[test]
fn auto_height_takes_content_extent() {
    // A single 30px-tall line in an Auto-height container gives the
    // container exactly that height, and Auto width the line's width.
    let mut state = UiState::create(true);
    let mut root = UiElement::extend(
        Style::inline_box(px(300), UiSize::Auto, RGBA::new(0, 0, 0, 255)),
        Vec::new(),
        UiType::Block,
    );
    root.add_child(inline_block(120, 30));
    state.add_element(root);
    state.build(Vec2::new(300, 300));
    assert_eq!(state.elements[0].computed.size.y, 30);
    let mut state2 = UiState::create(true);
    let mut root2 = UiElement::extend(
        Style::inline_box(UiSize::Auto, px(40), RGBA::new(0, 0, 0, 255)),
        Vec::new(),
        UiType::Block,
    );
    root2.add_child(inline_block(120, 30));
    state2.add_element(root2);
    state2.build(Vec2::new(300, 300));
    assert_eq!(state2.elements[0].computed.size.x, 120);
}

#[test]
fn checkbox_toggles_on_release_inside() {
    let base = Style::inline_box(px(40), px(40), RGBA::new(1, 1, 1, 255));
    let cb = UiElement::extend(
        base,
        Vec::new(),
        UiType::CheckBox(oxui::element::CheckBox::checkbox(base, base)),
    );
    let mut state = UiState::create(true);
    state.add_element(cb);
    state.build(Vec2::new(300, 300));
    state.update_cursor(Vec2::new(300, 300), Vec2::new(5, 5), UiEvent::Press);
    state.update_cursor(Vec2::new(300, 300), Vec2::new(5, 5), UiEvent::Release);
    match &state.elements[0].inherit {
        UiType::CheckBox(c) => {
            assert!(c.enabled);
            assert!(!c.pressed);
        },
        _ => panic!(),
    }
}

#[test]
fn text_shapes_glyphs() {
    // A uniform font: every glyph quad is (0, 0, 8, 8), so each glyph
    // advances 8 pixels at scale 1.
    let mut table: Vec<u8> = Vec::new();
    for _ in 0..256 {
        table.extend_from_slice(&[0, 0, 0, 0, 8, 0, 8, 0]);
    }
    let style = Style::inline_box(px(100), px(8), RGBA::new(1, 1, 1, 255));
    let text = UiElement::extend(
        style,
        Vec::new(),
        UiType::Text(Text::text(0, b"ab".to_vec(), 0)),
    );
    let mut state = UiState::create(true);
    state.font(Font::parse_from_bytes(&table));
    state.add_element(text);
    state.build(Vec2::new(300, 300));
    match &state.elements[0].inherit {
        UiType::Text(t) => {
            assert_eq!(t.comp_text.len(), 2);
            assert_eq!(t.comp_text[1].x - t.comp_text[0].x, 8);
            assert_eq!(t.comp_text[0].mode, 1);
        },
        _ => panic!(),
    }
}

#[test]
fn empty_text_emits_nothing() {
    let style = Style::inline_box(px(100), px(8), RGBA::new(1, 1, 1, 255));
    let text = UiElement::extend(
        style,
        Vec::new(),
        UiType::Text(Text::text(0, Vec::new(), 0)),
    );
    let mut state = UiState::create(true);
    state.add_element(text);
    state.build(Vec2::new(300, 300));
    match &state.elements[0].inherit {
        UiType::Text(t) => assert_eq!(t.comp_text.len(), 0),
        _ => panic!(),
    }
    assert!(matches!(state.elements[0].inherit, UiType::Text(_)));
}

#[test]
fn image_paints_in_image_mode() {
    let style = Style::inline_box(px(64), px(64), RGBA::new(0, 0, 0, 255));
    let img = UiElement::extend(style, Vec::new(), UiType::Image(UiImage { index: 7 }));
    let mut state = UiState::create(true);
    state.add_element(img);
    state.build(Vec2::new(300, 300));
    assert_eq!(state.elements[0].computed.mode, 3);
    assert_eq!(state.elements[0].computed.color.r, 7);
}

#[test]
fn instances_in_paint_order() {
    let mut state = UiState::create(true);
    let mut root = inline_block(200, 200);
    root.add_child(inline_block(50, 50));
    state.add_element(root);
    state.build(Vec2::new(300, 300));
    let inst = state.get_instaces(Vec2::new(300, 300));
    assert_eq!(inst.len(), 2);
    assert_eq!(inst[0].width, 200);
    assert_eq!(inst[1].width, 50);
}

#[test]
fn hidden_state_emits_default_instance() {
    let mut state = UiState::create(false);
    state.add_element(inline_block(10, 10));
    state.build(Vec2::new(100, 100));
    let inst = state.get_instaces(Vec2::new(100, 100));
    assert_eq!(inst.len(), 1);
    assert_eq!(inst[0].width, 0);
}
