use qr2term::{usize_sqrt, Renderer};

#[test]
fn surround_quiet_normal() {
    let input = vec![0, 1, 2, 3, 4, 5, 6, 7, 8];
    let expected = vec![
        9, 9, 9, 9, 9, 9, 9, 9, 9, 9, 9, 9, 9, 9, 9, 9, 9, 9, 9, 9, 9, 9, 9, 9, 9, 9, 9, 9, 9,
        9, 0, 1, 2, 9, 9, 9, 9, 9, 9, 3, 4, 5, 9, 9, 9, 9, 9, 9, 6, 7, 8, 9, 9, 9, 9, 9, 9, 9,
        9, 9, 9, 9, 9, 9, 9, 9, 9, 9, 9, 9, 9, 9, 9, 9, 9, 9, 9, 9, 9, 9, 9,
    ];
    let actual = Renderer::surround_quiet(&input, 3, 9);
    assert_eq!(expected, actual);
}

#[test]
fn surround_quiet_empty() {
    let actual = Renderer::surround_quiet(&[], 3, 7);
    let expected = vec![7; (3 * 2) * (3 * 2)];
    assert_eq!(expected, actual);
}

#[test]
fn surround_quiet_zero_thickness_is_identity() {
    let input = vec![1, 2, 3, 4];
    assert_eq!(Renderer::surround_quiet(&input, 0, 9), input);
    let empty: Vec<u8> = Vec::new();
    assert_eq!(Renderer::surround_quiet(&empty, 0, 9), empty);
}

#[test]
fn surround_quiet_size_border_and_interior() {
    let input: Vec<u32> = (0..16).collect();
    let t = 2;
    let out = Renderer::surround_quiet(&input, t, 99);
    let w = 4;
    let ow = w + 2 * t;
    assert_eq!(out.len(), ow * ow);
    for r in 0..ow {
        for c in 0..ow {
            let inside = r >= t && r < t + w && c >= t && c < t + w;
            if inside {
                assert_eq!(out[r * ow + c], input[(r - t) * w + (c - t)]);
            } else {
                assert_eq!(out[r * ow + c], 99);
            }
        }
    }
}

#[test]
fn surround_quiet_single_cell() {
    assert_eq!(Renderer::surround_quiet(&[5], 1, 0), vec![0, 0, 0, 0, 5, 0, 0, 0, 0]);
}

#[test]
fn sqrt_of_perfect_squares() {
    assert_eq!(usize_sqrt(0), Some(0));
    assert_eq!(usize_sqrt(1), Some(1));
    assert_eq!(usize_sqrt(4), Some(2));
    assert_eq!(usize_sqrt(9), Some(3));
    assert_eq!(usize_sqrt(625), Some(25));
    assert_eq!(usize_sqrt(177 * 177), Some(177));
    assert_eq!(usize_sqrt(10_000 * 10_000), Some(10_000));
}

#[test]
fn sqrt_of_non_squares() {
    assert_eq!(usize_sqrt(2), None);
    assert_eq!(usize_sqrt(3), None);
    assert_eq!(usize_sqrt(6), None);
    assert_eq!(usize_sqrt(8), None);
    assert_eq!(usize_sqrt(624), None);
    assert_eq!(usize_sqrt(626), None);
    assert_eq!(usize_sqrt(10_000 * 10_000 - 1), None);
}
