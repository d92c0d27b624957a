use celltui::{Color, InputEvent, KeyCode, KeyEvent, Position, Size, Terminal, Window};

fn cell<'a>(t: &'a Terminal, x: i32, y: i32) -> &'a celltui::Pixel {
    &t.pixel_buffer[(x + y * t.size.x) as usize]
}

#[test]
fn empty_screen() {
    let mut t = Terminal::init(Size::new(10, 3));
    t.update(&Vec::new(), Size::new(10, 3));
    t.render();
    assert_eq!(t.pixel_buffer.len(), 30);
    for p in &t.pixel_buffer {
        assert_eq!(p.text, " ");
        assert_eq!(p.color, Color::white());
    }
}

#[test]
fn single_window_no_clip() {
    let mut t = Terminal::init(Size::new(10, 3));
    t.update(&Vec::new(), Size::new(10, 3));
    let mut w = Window::new(Position::new(1, 1), Size::new(3, 1));
    w.write(Position::new(0, 0), "Hi".to_string(), Color::red());
    t.write_window(&w);
    t.render();
    assert_eq!(cell(&t, 1, 1).text, "H");
    assert_eq!(cell(&t, 1, 1).color, Color::red());
    assert_eq!(cell(&t, 2, 1).text, "i");
    assert_eq!(cell(&t, 2, 1).color, Color::red());
    for y in 0..3 {
        for x in 0..10 {
            if y == 1 && (x == 1 || x == 2) {
                continue;
            }
            // The registered window also covers (3, 1), but with its own
            // default cell, which equals the composite's default.
            assert_eq!(cell(&t, x, y).text, " ");
            assert_eq!(cell(&t, x, y).color, Color::white());
        }
    }
}

#[test]
fn clip_at_right_edge() {
    let mut t = Terminal::init(Size::new(5, 1));
    t.update(&Vec::new(), Size::new(5, 1));
    let mut w = Window::new(Position::new(3, 0), Size::new(4, 1));
    w.write(Position::new(0, 0), "ABCD".to_string(), Color::white());
    t.write_window(&w);
    t.render();
    let row: String = (0..5).map(|x| cell(&t, x, 0).text.clone()).collect();
    assert_eq!(row, "   AB");
}

#[test]
fn z_order() {
    let mut t = Terminal::init(Size::new(3, 1));
    t.update(&Vec::new(), Size::new(3, 1));
    let mut wa = Window::new(Position::new(0, 0), Size::new(3, 1));
    wa.write(Position::new(0, 0), "AAA".to_string(), Color::red());
    let mut wb = Window::new(Position::new(1, 0), Size::new(1, 1));
    wb.write(Position::new(0, 0), "B".to_string(), Color::green());
    t.write_window(&wa);
    t.write_window(&wb);
    t.render();
    assert_eq!(cell(&t, 0, 0).text, "A");
    assert_eq!(cell(&t, 0, 0).color, Color::red());
    assert_eq!(cell(&t, 1, 0).text, "B");
    assert_eq!(cell(&t, 1, 0).color, Color::green());
    assert_eq!(cell(&t, 2, 0).text, "A");
    assert_eq!(cell(&t, 2, 0).color, Color::red());

    t.set_top_window(&wa);
    t.render();
    for x in 0..3 {
        assert_eq!(cell(&t, x, 0).text, "A");
        assert_eq!(cell(&t, x, 0).color, Color::red());
    }
}

#[test]
fn decoration() {
    let mut w = Window::new(Position::new(0, 0), Size::new(5, 3));
    w.decorate();
    let at = |x: i32, y: i32| w.pixel_buffer[(x + y * 5) as usize].text.clone();
    // The title "title" fills the whole top row of a width-5 window, and the
    // title is painted last, over the top border and corners.
    let row0: String = (0..5).map(|x| at(x, 0)).collect();
    assert_eq!(row0, "title");
    // Middle row: the side borders, content untouched.
    assert_eq!(at(0, 1), "│");
    assert_eq!(at(1, 1), " ");
    assert_eq!(at(2, 1), " ");
    assert_eq!(at(3, 1), " ");
    assert_eq!(at(4, 1), "│");
    // Bottom row: corners over the edges.
    assert_eq!(at(0, 2), "└");
    assert_eq!(at(1, 2), "─");
    assert_eq!(at(2, 2), "─");
    assert_eq!(at(3, 2), "─");
    assert_eq!(at(4, 2), "┘");
}

#[test]
fn decoration_corners_clear_of_title() {
    // A wider window: the centred title leaves the top corners visible.
    let mut w = Window::new(Position::new(0, 0), Size::new(9, 3));
    w.decorate();
    let at = |x: i32, y: i32| w.pixel_buffer[(x + y * 9) as usize].text.clone();
    assert_eq!(at(0, 0), "┌");
    assert_eq!(at(8, 0), "┐");
    assert_eq!(at(8, 2), "┘");
    assert_eq!(at(0, 2), "└");
    // Title centred: starts at (9 - 5) / 2 == 2.
    let title: String = (2..7).map(|x| at(x, 0)).collect();
    assert_eq!(title, "title");
}

#[test]
fn input_capture() {
    let mut t = Terminal::init(Size::new(4, 2));
    let events = vec![InputEvent::Key(KeyEvent { code: KeyCode::Char('x'), modifiers: 0 })];
    t.update(&events, Size::new(4, 2));
    assert_eq!(t.key_event.code, KeyCode::Char('x'));

    t.update(&Vec::new(), Size::new(4, 2));
    assert_eq!(t.key_event, KeyEvent::no_key());
    assert_eq!(t.key_event.code, KeyCode::Char(' '));
    assert_eq!(t.key_event.modifiers, 0);
}
