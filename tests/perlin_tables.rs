use rusty_raytracing::perlin::{shuffle_with, Perlin, POINT_COUNT};

#[test]
fn corners_stay_in_table() {
    let perlin = Perlin::new();
    assert_eq!(perlin.point_count, POINT_COUNT);
    for &(i, j, k) in &[(0, 0, 0), (-1, -1, -1), (255, 255, 255), (i32::MIN, i32::MAX, 17), (-300, 300, 0)] {
        for d in 0..8usize {
            let r = perlin.corner_index(i, j, k, d & 1, (d >> 1) & 1, d >> 2);
            assert!(r < POINT_COUNT);
        }
    }
}

#[test]
fn lattice_wraps_both_ways() {
    let perlin = Perlin::new();
    // 255 + 1 and -1 + 1 land on cells 0 and 0; -1 lands on 255.
    assert_eq!(perlin.corner_index(255, 3, 4, 1, 0, 0), perlin.corner_index(0, 3, 4, 0, 0, 0));
    assert_eq!(perlin.corner_index(-1, 3, 4, 1, 0, 0), perlin.corner_index(0, 3, 4, 0, 0, 0));
    assert_eq!(perlin.corner_index(-1, -2, -3, 0, 0, 0), perlin.corner_index(255, 254, 253, 0, 0, 0));
    assert_eq!(perlin.corner_index(i32::MIN, 0, 0, 0, 0, 0), perlin.corner_index(0, 0, 0, 0, 0, 0));
}

#[test]
fn tables_are_permutations() {
    // With all three axes on the same cell pattern, the corner slots over one
    // axis run through every slot exactly once.
    let perlin = Perlin::new();
    let mut seen = vec![false; POINT_COUNT];
    for i in 0..POINT_COUNT as i32 {
        let r = perlin.corner_index(i, 0, 0, 0, 0, 0);
        assert!(!seen[r]);
        seen[r] = true;
    }
    assert!(seen.iter().all(|&s| s));
}

#[test]
fn shuffle_follows_targets() {
    let mut p = vec![0usize, 1, 2, 3];
    shuffle_with(&mut p, &vec![0, 0, 1, 2]);
    assert_eq!(p, vec![3, 0, 1, 2]);

    let mut q = vec![5usize, 6, 7];
    shuffle_with(&mut q, &vec![0, 1, 2]);
    assert_eq!(q, vec![5, 6, 7]);

    let mut r = vec![5usize, 6, 7];
    shuffle_with(&mut r, &vec![0, 0, 0]);
    assert_eq!(r, vec![6, 7, 5]);
}

#[test]
fn tables_from_given_shuffles() {
    let identity: Vec<usize> = (0..POINT_COUNT).collect();
    let mut rotate = vec![0usize; POINT_COUNT];
    for (i, t) in rotate.iter_mut().enumerate() {
        *t = if i == 0 { 0 } else { i - 1 };
    }
    let perlin = Perlin::from_shuffles(&identity, &identity, &rotate);
    // Identity targets leave x and y as the identity; the z targets carry the
    // last value down to slot 0, so slot k holds k - 1 and slot 0 holds 255.
    assert_eq!(perlin.corner_index(5, 0, 0, 0, 0, 0), 5 ^ 0 ^ 255);
    assert_eq!(perlin.corner_index(0, 9, 255, 0, 0, 0), 0 ^ 9 ^ 254);
    assert_eq!(perlin.corner_index(0, 0, 7, 0, 0, 0), 6);
}
