use sectorcast::geometry::{FP_DIAG, FP_ONE};
use sectorcast::input::{InputState, RotationDirection};

#[test]
fn default_state_has_no_keys_pressed() {
    let s = InputState::default();
    assert!(!s.forward && !s.backward && !s.left && !s.right);
    assert!(!s.rot_left && !s.rot_right);
}

#[test]
fn setters_latch_and_clear_releases() {
    let mut s = InputState::default();
    s.forward(true);
    s.left(true);
    s.rot_right(true);
    assert!(s.forward && s.left && s.rot_right);
    s.forward(false);
    assert!(!s.forward && s.left);
    s.clear();
    assert!(!s.forward && !s.backward && !s.left && !s.right && !s.rot_left && !s.rot_right);
}

#[test]
fn rotation_conflict_yields_no_rotation() {
    let mut s = InputState::default();
    s.rot_left(true);
    s.rot_right(true);
    assert!(s.rot_dir().is_none());
}

#[test]
fn rotation_single_key_wins() {
    let mut s = InputState::default();
    s.rot_left(true);
    assert!(matches!(s.rot_dir(), Some(RotationDirection::Left)));
    s.rot_left(false);
    s.rot_right(true);
    assert!(matches!(s.rot_dir(), Some(RotationDirection::Right)));
    s.rot_right(false);
    assert!(s.rot_dir().is_none());
}

#[test]
fn diagonal_move_vector_has_unit_length() {
    let mut s = InputState::default();
    s.forward(true);
    s.left(true);
    let v = s.move_vec();
    assert_eq!(v.x, FP_DIAG);
    assert_eq!(v.y, -FP_DIAG);
    let sq = v.x * v.x + v.y * v.y;
    // unit length within one fixed-point step, not sqrt(2)
    assert!(sq <= FP_ONE * FP_ONE);
    assert!(sq > (FP_ONE - 1) * (FP_ONE - 1));
    let len = ((sq as f64).sqrt()) / (FP_ONE as f64);
    assert!((len - 1.0).abs() < 0.001);
}

#[test]
fn single_axis_move_vector_is_unit() {
    let mut s = InputState::default();
    s.forward(true);
    let v = s.move_vec();
    assert_eq!(v.x, FP_ONE);
    assert_eq!(v.y, 0);
}

#[test]
fn opposite_keys_cancel() {
    let mut s = InputState::default();
    s.forward(true);
    s.backward(true);
    s.right(true);
    let v = s.move_vec();
    assert_eq!(v.x, 0);
    assert_eq!(v.y, FP_ONE);
}

#[test]
fn no_keys_no_movement() {
    let s = InputState::default();
    let v = s.move_vec();
    assert_eq!(v.x, 0);
    assert_eq!(v.y, 0);
}
