use raytracer::math::{clamp, div_up, transpose};

#[test]
fn test_div_up() {
    assert_eq!(div_up(10, 3), 4);
    assert_eq!(div_up(9, 3), 3);
    assert_eq!(div_up(0, 1), 0);
    assert_eq!(div_up(1, 1), 1);
    assert_eq!(div_up(1, 2), 1);
}

#[test]
fn test_clamp() {
    assert_eq!(clamp(5.0, 1.0, 10.0), 5.0);
    assert_eq!(clamp(0.0, 1.0, 10.0), 1.0);
    assert_eq!(clamp(15.0, 1.0, 10.0), 10.0);
    assert_eq!(clamp(-5.0, -10.0, 0.0), -5.0);
    assert_eq!(clamp(-15.0, -10.0, 0.0), -10.0);
}

#[test]
fn test_transpose() {
    let matrix = [
        [1.0, 2.0, 3.0, 4.0],
        [5.0, 6.0, 7.0, 8.0],
        [9.0, 10.0, 11.0, 12.0],
        [13.0, 14.0, 15.0, 16.0],
    ];
    let expected = [
        [1.0, 5.0, 9.0, 13.0],
        [2.0, 6.0, 10.0, 14.0],
        [3.0, 7.0, 11.0, 15.0],
        [4.0, 8.0, 12.0, 16.0],
    ];
    assert_eq!(transpose(&matrix), expected);
    assert_eq!(transpose(&transpose(&matrix)), matrix);
}

#[test]
fn test_div_up_is_ceiling_for_positive_divisors() {
    for a in 0..200 {
        for b in 1..25 {
            let q = div_up(a, b);
            assert!((q - 1) * b < a, "div_up({}, {}) = {} is too large", a, b, q);
            assert!(a <= q * b, "div_up({}, {}) = {} is too small", a, b, q);
        }
    }
}

#[test]
fn test_div_up_exact_multiples() {
    assert_eq!(div_up(12, 4), 3);
    assert_eq!(div_up(13, 4), 4);
    assert_eq!(div_up(16, 4), 4);
    assert_eq!(div_up(7, 7), 1);
    assert_eq!(div_up(8, 7), 2);
}

#[test]
fn test_div_up_rounds_toward_zero_once_biased() {
    // The biased numerator is negative here, so the quotient is cut toward zero.
    assert_eq!(div_up(-4, 3), 0);
    assert_eq!(div_up(-3, 3), 0);
    assert_eq!(div_up(-5, 3), -1);
    assert_eq!(div_up(-2, 3), 0);
    // A biased numerator of zero or more still gives the ceiling.
    assert_eq!(div_up(-1, 3), 0);
    assert_eq!(div_up(-1, 1), -1);
}

#[test]
fn test_div_up_negative_divisor() {
    assert_eq!(div_up(5, -2), -1);
    assert_eq!(div_up(0, -1), 2);
    assert_eq!(div_up(-7, -2), 5);
    assert_eq!(div_up(3, -1), -1);
}

#[test]
fn test_div_up_extremes() {
    assert_eq!(div_up(i32::MAX, 1), i32::MAX);
    assert_eq!(div_up(i32::MIN, 1), i32::MIN);
    assert_eq!(div_up(0, i32::MAX), 0);
    assert_eq!(div_up(1, i32::MAX), 1);
    assert_eq!(div_up(i32::MAX, -1), -(i32::MAX - 2));
}

#[test]
fn test_div_up_splits_a_count_in_two() {
    for n in 0..100 {
        assert_eq!(n / 2 + div_up(n, 2), n);
    }
}

#[test]
fn test_clamp_integers() {
    assert_eq!(clamp(5, 1, 10), 5);
    assert_eq!(clamp(0, 1, 10), 1);
    assert_eq!(clamp(11, 1, 10), 10);
    assert_eq!(clamp(1, 1, 10), 1);
    assert_eq!(clamp(10, 1, 10), 10);
    assert_eq!(clamp(7u8, 7u8, 7u8), 7u8);
}

#[test]
fn test_clamp_checks_the_lower_bound_first() {
    // With the bounds the wrong way round, a value below both comes out as `min`.
    assert_eq!(clamp(0, 10, 1), 10);
    assert_eq!(clamp(20, 10, 1), 1);
    assert_eq!(clamp(5, 10, 1), 10);
}

#[test]
fn test_clamp_unit_interval() {
    assert_eq!(clamp(0.25, 0.0, 1.0), 0.25);
    assert_eq!(clamp(-0.25, 0.0, 1.0), 0.0);
    assert_eq!(clamp(1.25, 0.0, 1.0), 1.0);
    assert_eq!(clamp(f64::INFINITY, 0.0, 1.0), 1.0);
    assert_eq!(clamp(f64::NEG_INFINITY, 0.0, 1.0), 0.0);
}

#[test]
fn test_clamp_passes_the_incomparable_through() {
    assert!(clamp(f64::NAN, 0.0, 1.0).is_nan());
}

#[test]
fn test_transpose_integers() {
    let matrix = [[1, 2, 3, 4], [5, 6, 7, 8], [9, 10, 11, 12], [13, 14, 15, 16]];
    let transposed = transpose(&matrix);
    for i in 0..4 {
        for j in 0..4 {
            assert_eq!(transposed[j][i], matrix[i][j]);
        }
    }
    assert_eq!(transpose(&transposed), matrix);
}

#[test]
fn test_transpose_keeps_the_diagonal() {
    let matrix = [['a', 'b', 'c', 'd'], ['e', 'f', 'g', 'h'], ['i', 'j', 'k', 'l'], ['m', 'n', 'o', 'p']];
    let transposed = transpose(&matrix);
    for i in 0..4 {
        assert_eq!(transposed[i][i], matrix[i][i]);
    }
    assert_eq!(transposed[0], ['a', 'e', 'i', 'm']);
    assert_eq!(transposed[3], ['d', 'h', 'l', 'p']);
}

#[test]
fn test_transpose_of_a_symmetric_matrix() {
    let matrix = [[1, 2, 3, 4], [2, 5, 6, 7], [3, 6, 8, 9], [4, 7, 9, 10]];
    assert_eq!(transpose(&matrix), matrix);
}

fn apply_to_direction(matrix: &[[f64; 4]; 4], v: [f64; 3]) -> [f64; 3] {
    let mut out = [0.0; 3];
    for row in 0..3 {
        out[row] = matrix[row][0] * v[0] + matrix[row][1] * v[1] + matrix[row][2] * v[2];
    }
    out
}

fn dot(a: [f64; 3], b: [f64; 3]) -> f64 {
    a[0] * b[0] + a[1] * b[1] + a[2] * b[2]
}

#[test]
fn test_transpose_of_the_inverse_keeps_a_normal_perpendicular() {
    // A surface along (1, -1, 0) with normal (1, 1, 0), stretched to twice its size along x.
    let scale = [
        [2.0, 0.0, 0.0, 0.0],
        [0.0, 1.0, 0.0, 0.0],
        [0.0, 0.0, 1.0, 0.0],
        [0.0, 0.0, 0.0, 1.0],
    ];
    let inverse = [
        [0.5, 0.0, 0.0, 0.0],
        [0.0, 1.0, 0.0, 0.0],
        [0.0, 0.0, 1.0, 0.0],
        [0.0, 0.0, 0.0, 1.0],
    ];
    let along = [1.0, -1.0, 0.0];
    let normal = [1.0, 1.0, 0.0];
    assert_eq!(dot(along, normal), 0.0);

    let stretched = apply_to_direction(&scale, along);
    assert_eq!(stretched, [2.0, -1.0, 0.0]);

    // Moved by the scale itself, the normal leaves the perpendicular.
    let wrong = apply_to_direction(&scale, normal);
    assert_eq!(dot(stretched, wrong), 3.0);

    // Moved by the transpose of the inverse, it stays on it.
    let right = apply_to_direction(&transpose(&inverse), normal);
    assert_eq!(right, [0.5, 1.0, 0.0]);
    assert_eq!(dot(stretched, right), 0.0);
}

#[test]
fn test_transpose_moves_a_translation_into_the_last_row() {
    let inverse_of_a_shift = [
        [1.0, 0.0, 0.0, -1.0],
        [0.0, 1.0, 0.0, -2.0],
        [0.0, 0.0, 1.0, -3.0],
        [0.0, 0.0, 0.0, 1.0],
    ];
    let transposed = transpose(&inverse_of_a_shift);
    assert_eq!(transposed[3], [-1.0, -2.0, -3.0, 1.0]);
    // A direction only meets the upper three rows and columns, so a shift leaves a normal as it is.
    assert_eq!(apply_to_direction(&transposed, [0.0, 1.0, 0.0]), [0.0, 1.0, 0.0]);
}
