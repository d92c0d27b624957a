use celltui::{
    grid_blit, grid_fill_default, grid_get, grid_put, make_default_grid, Color, Pixel, Position,
    Size,
};

#[test]
fn default_grid_cells() {
    let g = make_default_grid(Size::new(3, 2));
    assert_eq!(g.len(), 6);
    for p in &g {
        assert_eq!(p.text, " ");
        assert_eq!(p.color, Color::white());
    }
}

#[test]
fn put_and_get_round_trip() {
    let mut g = make_default_grid(Size::new(3, 2));
    grid_put(&mut g, Size::new(3, 2), 2, 1, Pixel::new("#".to_string(), Color::red()));
    let p = grid_get(&g, Size::new(3, 2), 2, 1);
    assert_eq!(p.text, "#");
    assert_eq!(p.color, Color::red());
    assert_eq!(g[5].text, "#");
}

#[test]
fn out_of_bounds_put_is_ignored() {
    let mut g = make_default_grid(Size::new(2, 2));
    grid_put(&mut g, Size::new(2, 2), -1, 0, Pixel::new("#".to_string(), Color::red()));
    grid_put(&mut g, Size::new(2, 2), 0, 2, Pixel::new("#".to_string(), Color::red()));
    for p in &g {
        assert_eq!(p.text, " ");
    }
}

#[test]
fn out_of_bounds_get_is_the_default_cell() {
    let g = make_default_grid(Size::new(2, 2));
    let p = grid_get(&g, Size::new(2, 2), 5, 0);
    assert_eq!(p.text, " ");
    assert_eq!(p.color, Color::white());
}

#[test]
fn fill_resets_in_place() {
    let mut g = make_default_grid(Size::new(2, 1));
    grid_put(&mut g, Size::new(2, 1), 0, 0, Pixel::new("x".to_string(), Color::blue()));
    grid_fill_default(&mut g, Size::new(2, 1));
    for p in &g {
        assert_eq!(p.text, " ");
        assert_eq!(p.color, Color::white());
    }
}

#[test]
fn blit_clips_on_all_edges() {
    let mut dst = make_default_grid(Size::new(3, 3));
    let mut src = make_default_grid(Size::new(2, 2));
    grid_put(&mut src, Size::new(2, 2), 0, 0, Pixel::new("a".to_string(), Color::red()));
    grid_put(&mut src, Size::new(2, 2), 1, 0, Pixel::new("b".to_string(), Color::red()));
    grid_put(&mut src, Size::new(2, 2), 0, 1, Pixel::new("c".to_string(), Color::red()));
    grid_put(&mut src, Size::new(2, 2), 1, 1, Pixel::new("d".to_string(), Color::red()));
    grid_blit(&mut dst, Size::new(3, 3), &src, Size::new(2, 2), Position::new(-1, 2));
    // Only the cells that fall inside the destination arrive: the source's
    // right column lands on destination column 0 of row 2; everything else
    // is clipped at the left or bottom edge.
    let texts: Vec<&str> = dst.iter().map(|p| p.text.as_str()).collect();
    assert_eq!(texts, vec![" ", " ", " ", " ", " ", " ", "b", " ", " "]);
}
