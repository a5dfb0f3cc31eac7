use microtile_app::device::display::{
    compose_frames, rasterize, FrameToggle, Grid, GridError, GridRenderer, ShownFrame,
    GRID_COLUMNS, MAX_BRIGHTNESS,
};

fn lit(raster: &[u8]) -> Vec<usize> {
    raster.iter().enumerate().filter(|(_, b)| **b != 0).map(|(i, _)| i).collect()
}

#[test]
fn frame_union_of_board_and_tile() {
    let mut board = Grid::new();
    board.set_element(0, 0, true);
    let mut tile = Grid::new();
    tile.set_element(1, 1, true);
    let frames = compose_frames(&tile, &board);
    // Row 0 of the board is the bottom row of the matrix.
    let bottom_left = 4 * GRID_COLUMNS;
    let above_right = 3 * GRID_COLUMNS + 1;
    assert_eq!(lit(&frames.merged), vec![above_right, bottom_left]);
    assert_eq!(lit(&frames.passive), vec![bottom_left]);
    assert_eq!(frames.merged[bottom_left], MAX_BRIGHTNESS);
}

#[test]
fn grid_union_and_lookup() {
    let mut a = Grid::new();
    a.set_element(2, 3, true);
    let mut b = Grid::new();
    b.set_element(4, 4, true);
    let u = a.union(&b);
    assert_eq!(u.is_element_set(2, 3), Ok(true));
    assert_eq!(u.is_element_set(4, 4), Ok(true));
    assert_eq!(u.is_element_set(0, 0), Ok(false));
    assert_eq!(u.is_element_set(5, 0), Err(GridError::OutOfBounds));
    assert_eq!(u.is_element_set(0, 5), Err(GridError::OutOfBounds));
}

#[test]
fn renderer_flips_rows() {
    let mut g = Grid::new();
    g.set_element(0, 2, true);
    let r = GridRenderer::new(&g);
    assert_eq!(r.brightness_at(2, 4), MAX_BRIGHTNESS);
    assert_eq!(r.brightness_at(2, 0), 0);
    assert_eq!(r.brightness_at(7, 4), 0);
    assert_eq!(rasterize(&Grid::new()), vec![0; 25]);
}

#[test]
fn toggle_alternates_frames() {
    let mut t = FrameToggle::new();
    assert_eq!(t.toggle(), ShownFrame::Merged);
    assert_eq!(t.toggle(), ShownFrame::Passive);
    assert_eq!(t.toggle(), ShownFrame::Merged);
}
