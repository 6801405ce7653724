use sbp::field::{Component, Field};
use sbp::grid::GridError;
use sbp::operators::OperatorError;
use sbp::system::{System, SystemError};

fn coords(w: usize, h: usize) -> (Vec<f32>, Vec<f32>) {
    let mut x = Vec::new();
    let mut y = Vec::new();
    for j in 0..h {
        for i in 0..w {
            x.push(i as f32);
            y.push(j as f32);
        }
    }
    (x, y)
}

fn int_coords(w: usize, h: usize) -> (Vec<i64>, Vec<i64>) {
    let (x, y) = coords(w, h);
    (
        x.iter().map(|&v| v as i64).collect(),
        y.iter().map(|&v| v as i64).collect(),
    )
}

#[test]
fn field_new_is_uniform() {
    let f = Field::new(3, 4, 0.5f32);
    assert_eq!(f.rows(), 3);
    assert_eq!(f.cols(), 4);
    for c in [Component::Ex, Component::Ey, Component::Hz] {
        assert_eq!(f.values(c), &vec![0.5f32; 12]);
    }
}

#[test]
fn field_set_changes_one_value() {
    let mut f = Field::new(2, 2, 0i32);
    f.set(Component::Ey, 3, 9);
    assert_eq!(f.get(Component::Ey, 3), 9);
    assert_eq!(f.values(Component::Ey), &vec![0, 0, 0, 9]);
    assert_eq!(f.values(Component::Ex), &vec![0; 4]);
    assert_eq!(f.values(Component::Hz), &vec![0; 4]);
}

#[test]
fn field_components_mut_writes_through() {
    let mut f = Field::new(1, 3, 0i32);
    {
        let (ex, ey, hz) = f.components_mut();
        ex[0] = 1;
        ey[1] = 2;
        hz[2] = 3;
    }
    assert_eq!(f.values(Component::Ex), &vec![1, 0, 0]);
    assert_eq!(f.values(Component::Ey), &vec![0, 2, 0]);
    assert_eq!(f.values(Component::Hz), &vec![0, 0, 3]);
}

#[test]
fn system_rejects_bad_shapes() {
    let (x, y) = coords(8, 8);
    let r = System::new(8, 9, x.clone(), y.clone(), 0.0f32);
    assert_eq!(r.err(), Some(SystemError::Grid(GridError::XLength)));
    let r = System::new(8, 8, x.clone(), vec![0.0f32; 3], 0.0f32);
    assert_eq!(r.err(), Some(SystemError::Grid(GridError::YLength)));
    let (x, y) = coords(7, 9);
    let r = System::new(7, 9, x, y, 0.0f32);
    assert_eq!(r.err(), Some(SystemError::Operator(OperatorError::TooFewPoints)));
    let (x, y) = coords(9, 7);
    let r = System::new(9, 7, x, y, 0.0f32);
    assert_eq!(r.err(), Some(SystemError::Operator(OperatorError::TooFewPoints)));
}

#[test]
fn system_new_shapes() {
    let (x, y) = coords(10, 8);
    let s = System::new(10, 8, x.clone(), y.clone(), 0.0f32).unwrap();
    assert_eq!(s.grid().width(), 10);
    assert_eq!(s.grid().height(), 8);
    assert_eq!(s.grid().x(), &x);
    assert_eq!(s.op_x().len(), 10);
    assert_eq!(s.op_y().len(), 8);
    assert_eq!(s.field().rows(), 8);
    assert_eq!(s.field().cols(), 10);
    assert_eq!(s.field().values(Component::Hz), &vec![0.0f32; 80]);
}

#[test]
fn swap_makes_next_current() {
    let (x, y) = int_coords(8, 8);
    let mut s = System::new(8, 8, x, y, 0i64).unwrap();
    s.field_mut().set(Component::Ex, 0, 5);
    {
        let (cur, next) = s.stage();
        assert_eq!(cur.get(Component::Ex, 0), 5);
        for i in 0..64 {
            next.set(Component::Hz, i, i as i64 + 100);
        }
    }
    s.swap();
    let expected: Vec<i64> = (0..64).map(|i| i + 100).collect();
    assert_eq!(s.field().values(Component::Hz), &expected);
    assert_eq!(s.field().values(Component::Ex), &vec![0i64; 64]);
    // The old current state is now the buffer to overwrite.
    let (_, next) = s.stage();
    assert_eq!(next.get(Component::Ex, 0), 5);
}

#[test]
fn flat_state_stays_flat_under_swap() {
    let (x, y) = coords(8, 8);
    let mut s = System::new(8, 8, x, y, 0.0f32).unwrap();
    s.swap();
    s.swap();
    s.swap();
    for c in [Component::Ex, Component::Ey, Component::Hz] {
        assert_eq!(s.field().values(c), &vec![0.0f32; 64]);
    }
}
