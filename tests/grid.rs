use sbp::grid::{Grid, GridError};

#[test]
fn grid_accepts_matching_lengths() {
    let x: Vec<f32> = (0..6).map(|i| i as f32).collect();
    let y: Vec<f32> = (0..6).map(|i| -(i as f32)).collect();
    let g = Grid::new(3, 2, x.clone(), y.clone()).unwrap();
    assert_eq!(g.width(), 3);
    assert_eq!(g.height(), 2);
    assert_eq!(g.x(), &x);
    assert_eq!(g.y(), &y);
}

#[test]
fn grid_rejects_wrong_x_length() {
    let r = Grid::new(3, 2, vec![0.0f32; 5], vec![0.0f32; 6]);
    assert_eq!(r.err(), Some(GridError::XLength));
    let r = Grid::new(3, 2, vec![0.0f32; 7], vec![0.0f32; 7]);
    assert_eq!(r.err(), Some(GridError::XLength));
}

#[test]
fn grid_rejects_wrong_y_length() {
    let r = Grid::new(3, 2, vec![0.0f32; 6], vec![0.0f32; 3]);
    assert_eq!(r.err(), Some(GridError::YLength));
}

#[test]
fn grid_does_not_reshape() {
    // 6 values fit a 2 x 3 grid but not a 4 x 2 one.
    assert!(Grid::new(4, 2, vec![1u8; 6], vec![1u8; 6]).is_err());
    assert!(Grid::new(0, 5, Vec::<u8>::new(), Vec::new()).is_ok());
    assert!(Grid::new(0, 5, vec![1u8], vec![1u8]).is_err());
}

#[test]
fn grid_large_dimensions_do_not_overflow() {
    let r = Grid::new(u32::MAX, u32::MAX, vec![0u8; 1], vec![0u8; 1]);
    assert_eq!(r.err(), Some(GridError::XLength));
}
