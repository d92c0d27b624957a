use celltui::{
    echo_position, Color, InputEvent, KeyCode, KeyEvent, LineAction, LineEditor, Position,
    RenderOp, Size, Terminal, Window,
};

fn cell<'a>(t: &'a Terminal, x: i32, y: i32) -> &'a celltui::Pixel {
    &t.pixel_buffer[(x + y * t.size.x) as usize]
}

#[test]
fn init_state() {
    let t = Terminal::init(Size::new(4, 2));
    assert_eq!(t.size.x, 4);
    assert_eq!(t.size.y, 2);
    assert_eq!(t.pixel_buffer.len(), 8);
    assert!(t.windows.is_empty());
    assert_eq!(t.key_event, KeyEvent::no_key());
}

#[test]
fn update_rebuilds_composite_at_new_size() {
    let mut t = Terminal::init(Size::new(4, 2));
    let mut w = Window::new(Position::new(0, 0), Size::new(1, 1));
    w.write(Position::new(0, 0), "W".to_string(), Color::red());
    t.write_window(&w);
    t.render();
    assert_eq!(cell(&t, 0, 0).text, "W");
    t.update(&Vec::new(), Size::new(3, 3));
    assert_eq!(t.size.x, 3);
    assert_eq!(t.size.y, 3);
    assert_eq!(t.pixel_buffer.len(), 9);
    for p in &t.pixel_buffer {
        assert_eq!(p.text, " ");
        assert_eq!(p.color, Color::white());
    }
    // The window stack survives the update.
    assert_eq!(t.windows.len(), 1);
}

#[test]
fn update_keeps_last_key_of_frame() {
    let mut t = Terminal::init(Size::new(2, 2));
    let events = vec![
        InputEvent::Key(KeyEvent { code: KeyCode::Char('a'), modifiers: 0 }),
        InputEvent::Other,
        InputEvent::Key(KeyEvent { code: KeyCode::Char('b'), modifiers: 2 }),
        InputEvent::Other,
    ];
    t.update(&events, Size::new(2, 2));
    // The last key event wins; trailing non-key events are discarded.
    assert_eq!(t.key_event.code, KeyCode::Char('b'));
    assert_eq!(t.key_event.modifiers, 2);
}

#[test]
fn clear_windows_then_render_is_default() {
    let mut t = Terminal::init(Size::new(4, 2));
    let mut w = Window::new(Position::new(0, 0), Size::new(4, 2));
    w.write(Position::new(0, 0), "12345678".to_string(), Color::red());
    t.write_window(&w);
    t.update(&Vec::new(), Size::new(4, 2));
    t.clear_windows();
    t.render();
    for p in &t.pixel_buffer {
        assert_eq!(p.text, " ");
        assert_eq!(p.color, Color::white());
    }
}

#[test]
fn render_is_deterministic() {
    let build = || {
        let mut t = Terminal::init(Size::new(5, 2));
        let mut w = Window::new(Position::new(1, 0), Size::new(3, 2));
        w.write(Position::new(0, 0), "ab\ncd".to_string(), Color::green());
        t.update(&Vec::new(), Size::new(5, 2));
        t.write_window(&w);
        (t, w)
    };
    let (mut t1, w1) = build();
    let mut t2 = Terminal::init(Size::new(5, 2));
    t2.update(&Vec::new(), Size::new(5, 2));
    t2.write_window(&w1);
    let ops1 = t1.render();
    let ops2 = t2.render();
    assert_eq!(ops1, ops2);
    for i in 0..t1.pixel_buffer.len() {
        assert_eq!(t1.pixel_buffer[i].text, t2.pixel_buffer[i].text);
        assert_eq!(t1.pixel_buffer[i].color, t2.pixel_buffer[i].color);
    }
}

#[test]
fn duplicate_registration_draws_twice() {
    let mut t = Terminal::init(Size::new(3, 1));
    let mut w = Window::new(Position::new(0, 0), Size::new(1, 1));
    w.write(Position::new(0, 0), "X".to_string(), Color::red());
    t.write_window(&w);
    w.set_position(Position::new(2, 0));
    t.write_window(&w);
    t.update(&Vec::new(), Size::new(3, 1));
    t.render();
    assert_eq!(cell(&t, 0, 0).text, "X");
    assert_eq!(cell(&t, 1, 0).text, " ");
    assert_eq!(cell(&t, 2, 0).text, "X");
}

#[test]
fn set_top_window_moves_first_match() {
    let mut t = Terminal::init(Size::new(2, 1));
    let wa = Window::new(Position::new(0, 0), Size::new(1, 1));
    let wb = Window::new(Position::new(1, 0), Size::new(1, 1));
    t.write_window(&wa);
    t.write_window(&wa);
    t.write_window(&wb);
    let ids_before: Vec<u128> = t.windows.iter().map(|w| w.id).collect();
    t.set_top_window(&wa);
    let ids_after: Vec<u128> = t.windows.iter().map(|w| w.id).collect();
    // The first of the two registrations moved to the top; the rest kept
    // their relative order, and the multiset of ids is unchanged.
    assert_eq!(ids_after, vec![wa.id, wb.id, wa.id]);
    let mut sorted_before = ids_before.clone();
    let mut sorted_after = ids_after.clone();
    sorted_before.sort();
    sorted_after.sort();
    assert_eq!(sorted_before, sorted_after);
}

#[test]
fn set_top_window_without_match_is_a_no_op() {
    let mut t = Terminal::init(Size::new(2, 1));
    let wa = Window::new(Position::new(0, 0), Size::new(1, 1));
    let wb = Window::new(Position::new(1, 0), Size::new(1, 1));
    t.write_window(&wa);
    let ids_before: Vec<u128> = t.windows.iter().map(|w| w.id).collect();
    t.set_top_window(&wb);
    let ids_after: Vec<u128> = t.windows.iter().map(|w| w.id).collect();
    assert_eq!(ids_before, ids_after);
}

#[test]
fn render_ops_batch_colors() {
    let mut t = Terminal::init(Size::new(4, 1));
    let mut w = Window::new(Position::new(0, 0), Size::new(2, 1));
    w.write(Position::new(0, 0), "ab".to_string(), Color::red());
    t.update(&Vec::new(), Size::new(4, 1));
    t.write_window(&w);
    let ops = t.render();
    // One cursor move for the row; one color change into red, one back to
    // white for the default tail; never one per cell.
    assert_eq!(
        ops,
        vec![
            RenderOp::MoveTo(0, 0),
            RenderOp::SetColor(Color::red()),
            RenderOp::Text("a".to_string()),
            RenderOp::Text("b".to_string()),
            RenderOp::SetColor(Color::white()),
            RenderOp::Text(" ".to_string()),
            RenderOp::Text(" ".to_string()),
        ]
    );
}

#[test]
fn render_monochrome_needs_no_color_change() {
    let mut t = Terminal::init(Size::new(3, 2));
    t.update(&Vec::new(), Size::new(3, 2));
    let ops = t.render();
    assert_eq!(ops.len(), 8);
    assert!(ops.iter().all(|op| !matches!(op, RenderOp::SetColor(_))));
    assert_eq!(ops[0], RenderOp::MoveTo(0, 0));
    assert_eq!(ops[4], RenderOp::MoveTo(0, 1));
}

#[test]
fn render_color_batching_spans_rows() {
    let mut t = Terminal::init(Size::new(1, 2));
    let mut w = Window::new(Position::new(0, 0), Size::new(1, 2));
    w.write(Position::new(0, 0), "a\nb".to_string(), Color::blue());
    // The newline glyph lands nowhere (column 1 is outside a width-1 grid),
    // so both rows carry one blue cell each.
    t.update(&Vec::new(), Size::new(1, 2));
    t.write_window(&w);
    let ops = t.render();
    assert_eq!(
        ops,
        vec![
            RenderOp::MoveTo(0, 0),
            RenderOp::SetColor(Color::blue()),
            RenderOp::Text("a".to_string()),
            RenderOp::MoveTo(0, 1),
            RenderOp::Text("b".to_string()),
        ]
    );
}

#[test]
fn render_fast_emits_one_line_per_row() {
    let mut t = Terminal::init(Size::new(3, 2));
    let mut w = Window::new(Position::new(0, 0), Size::new(2, 1));
    w.write(Position::new(0, 0), "hi".to_string(), Color::white());
    t.update(&Vec::new(), Size::new(3, 2));
    t.write_window(&w);
    let ops = t.render_fast(Color::green());
    assert_eq!(
        ops,
        vec![
            RenderOp::SetColor(Color::green()),
            RenderOp::MoveTo(0, 0),
            RenderOp::Text("hi ".to_string()),
            RenderOp::MoveTo(0, 1),
            RenderOp::Text("   ".to_string()),
        ]
    );
}

#[test]
fn render_accurate_moves_per_cell() {
    let mut t = Terminal::init(Size::new(2, 1));
    let mut w = Window::new(Position::new(0, 0), Size::new(1, 1));
    w.write(Position::new(0, 0), "z".to_string(), Color::red());
    t.update(&Vec::new(), Size::new(2, 1));
    t.write_window(&w);
    let ops = t.render_accurate();
    assert_eq!(
        ops,
        vec![
            RenderOp::MoveTo(0, 0),
            RenderOp::SetColor(Color::red()),
            RenderOp::Text("z".to_string()),
            RenderOp::MoveTo(1, 0),
            RenderOp::SetColor(Color::white()),
            RenderOp::Text(" ".to_string()),
        ]
    );
}

#[test]
fn terminal_clear_resets_composite() {
    let mut t = Terminal::init(Size::new(2, 1));
    let mut w = Window::new(Position::new(0, 0), Size::new(2, 1));
    w.write(Position::new(0, 0), "no".to_string(), Color::red());
    t.write_window(&w);
    t.render();
    t.clear();
    for p in &t.pixel_buffer {
        assert_eq!(p.text, " ");
        assert_eq!(p.color, Color::white());
    }
}

#[test]
fn line_editor_builds_a_line() {
    let mut e = LineEditor::new();
    let a = e.apply_key(KeyEvent { code: KeyCode::Char('h'), modifiers: 0 });
    assert_eq!(a, LineAction::Append('h'));
    e.apply_key(KeyEvent { code: KeyCode::Char('i'), modifiers: 0 });
    e.apply_key(KeyEvent { code: KeyCode::Char('!'), modifiers: 0 });
    let a = e.apply_key(KeyEvent { code: KeyCode::Backspace, modifiers: 0 });
    assert_eq!(a, LineAction::Erase);
    let a = e.apply_key(KeyEvent { code: KeyCode::Other, modifiers: 0 });
    assert_eq!(a, LineAction::Ignore);
    let a = e.apply_key(KeyEvent { code: KeyCode::Enter, modifiers: 0 });
    assert_eq!(a, LineAction::Finish);
    let line: String = e.chars.iter().collect();
    assert_eq!(line, "hi");
}

#[test]
fn line_editor_backspace_on_empty_is_ignored() {
    let mut e = LineEditor::new();
    let a = e.apply_key(KeyEvent { code: KeyCode::Backspace, modifiers: 0 });
    assert_eq!(a, LineAction::Ignore);
    assert!(e.chars.is_empty());
}

#[test]
fn echo_position_is_past_prompt_and_line() {
    let p = echo_position(Position::new(3, 7), 4, 2);
    assert_eq!(p.x, 9);
    assert_eq!(p.y, 7);
}

#[test]
fn color_constructors() {
    assert_eq!(Color::rgb(1, 2, 3), Color { r: 1, g: 2, b: 3 });
    assert_eq!(Color::white(), Color { r: 255, g: 255, b: 255 });
    assert_eq!(Color::red(), Color { r: 255, g: 0, b: 0 });
    assert_eq!(Color::green(), Color { r: 0, g: 255, b: 0 });
    assert_eq!(Color::blue(), Color { r: 0, g: 0, b: 255 });
    assert_eq!(Color::black(), Color { r: 0, g: 0, b: 0 });
}

#[test]
fn value_type_constructors() {
    let s = Size::new(-2, 9);
    assert_eq!((s.x, s.y), (-2, 9));
    let p = Position::new(4, -6);
    assert_eq!((p.x, p.y), (4, -6));
    let px = celltui::Pixel::new("é".to_string(), Color::blue());
    assert_eq!(px.text, "é");
    assert_eq!(px.color, Color::blue());
}
