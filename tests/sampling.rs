use rusty_raytracing::aabb::Axis;
use rusty_raytracing::camera::{sample_grid_side, ConfigError};
use rusty_raytracing::utils::{random_i32, random_i32_range, range_from_draw};

#[test]
fn grid_side_is_floor_of_root() {
    assert_eq!(sample_grid_side(1), Ok(1));
    assert_eq!(sample_grid_side(3), Ok(1));
    assert_eq!(sample_grid_side(4), Ok(2));
    assert_eq!(sample_grid_side(10), Ok(3));
    assert_eq!(sample_grid_side(50), Ok(7));
    assert_eq!(sample_grid_side(99), Ok(9));
    assert_eq!(sample_grid_side(100), Ok(10));
    assert_eq!(sample_grid_side(200), Ok(14));
    assert_eq!(sample_grid_side(u32::MAX), Ok(65535));
}

#[test]
fn no_samples_is_rejected() {
    assert_eq!(sample_grid_side(0), Err(ConfigError::NoSamples));
}

#[test]
fn random_range_stays_inside() {
    for _ in 0..1000 {
        let r = random_i32_range(-5, 3);
        assert!((-5..3).contains(&r));
    }
    for _ in 0..100 {
        assert_eq!(random_i32_range(7, 8), 7);
        let wide = random_i32_range(i32::MIN, i32::MAX);
        assert!(wide < i32::MAX);
    }
}

#[test]
fn random_draws_vary() {
    let first = random_i32();
    assert!((0..64).any(|_| random_i32() != first));
}

#[test]
fn axis_indices() {
    assert_eq!(Axis::from_index(0), Some(Axis::X));
    assert_eq!(Axis::from_index(1), Some(Axis::Y));
    assert_eq!(Axis::from_index(2), Some(Axis::Z));
    assert_eq!(Axis::from_index(3), None);
    assert_eq!(Axis::from_index(-1), None);
    assert_eq!(Axis::Z.index(), 2);
}

#[test]
fn draw_selects_offset_modulo_width() {
    assert_eq!(range_from_draw(-5, 3, 10), -3);
    assert_eq!(range_from_draw(0, 256, 0), 0);
    assert_eq!(range_from_draw(0, 256, 511), 255);
    assert_eq!(range_from_draw(i32::MIN, i32::MAX, u32::MAX), i32::MIN);
    assert_eq!(range_from_draw(7, 8, 12345), 7);
}
