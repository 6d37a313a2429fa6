use toast::color::{cbrt_floor, color_distance_lab, fifth_root_floor, gamma_expand, lab_f, rgb_to_lab, SCALE};
use toast::types::Rgb;

#[test]
fn integer_roots_round_down() {
    assert_eq!(cbrt_floor(0), 0);
    assert_eq!(cbrt_floor(26), 2);
    assert_eq!(cbrt_floor(27), 3);
    assert_eq!(cbrt_floor(1_000_000), 100);
    assert_eq!(fifth_root_floor(31), 1);
    assert_eq!(fifth_root_floor(32), 2);
    assert_eq!(fifth_root_floor(100_000), 10);
}

#[test]
fn gamma_expand_endpoints() {
    assert_eq!(gamma_expand(0), 0);
    assert_eq!(gamma_expand(255), SCALE);
    assert_eq!(gamma_expand(10), 10 * 65536 * 100 / (255 * 1292));
    assert!(gamma_expand(128) > gamma_expand(127));
}

#[test]
fn lab_of_white_and_black() {
    let white = rgb_to_lab(Rgb::new(255, 255, 255));
    assert!((white.l - 100 * 65536).abs() < 65536);
    assert!(white.a.abs() < 65536);
    assert!(white.b.abs() < 65536);
    let black = rgb_to_lab(Rgb::new(0, 0, 0));
    assert_eq!(black.l, 116 * lab_f(0) as i64 - 16 * 65536);
    assert_eq!(black.a, 0);
    assert_eq!(black.b, 0);
    assert_eq!(color_distance_lab(white, white), 0);
    assert!(color_distance_lab(white, black) > 0);
}
