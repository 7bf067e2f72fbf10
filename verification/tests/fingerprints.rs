use molecular_lod::fingerprint::{fingerprint, stale};
use molecular_lod::types::Camera;

fn base() -> Camera {
    Camera { x: 100, y: 200, z: 300, target_x: 400, target_y: 500, target_z: 600 }
}

#[test]
fn fingerprint_of_default_observer() {
    assert_eq!(fingerprint(&Camera::new(), 1047), 5_244_928_104);
}

#[test]
fn fingerprint_is_stable() {
    let camera = base();
    assert_eq!(fingerprint(&camera, 1047), 676_090_129_730_969_612);
    assert_eq!(fingerprint(&camera, 1047), fingerprint(&camera, 1047));
    let copy = Camera { ..camera };
    assert_eq!(fingerprint(&camera, 1047), fingerprint(&copy, 1047));
}

#[test]
fn fingerprint_combines_shifted_fields() {
    let camera = Camera { x: 1, y: 1, z: 1, target_x: 1, target_y: 1, target_z: 1 };
    let expected: u64 = 1 ^ (1 << 10) ^ (1 << 20) ^ (1 << 30) ^ (1 << 40) ^ (1 << 50) ^ 7;
    assert_eq!(fingerprint(&camera, 70), expected);
}

#[test]
fn fingerprint_keeps_the_sign() {
    let camera = Camera { x: -5, y: -6, z: -7, target_x: 10, target_y: 20, target_z: 30 };
    assert_eq!(fingerprint(&camera, -3), 33_750_619_656_296_443);
    let other = Camera { x: -500, y: -1, z: i32::MIN, ..camera };
    assert_eq!(fingerprint(&other, -1000), 31_551_574_933_241_232);
    assert_ne!(fingerprint(&Camera { x: 5, ..camera }, -3), fingerprint(&camera, -3));
}

#[test]
fn fingerprint_tells_negative_positions_apart() {
    // one unit apart on the negative side of x
    let near = Camera { x: -1000, ..Camera::new() };
    let far = Camera { x: -2000, ..Camera::new() };
    assert_eq!(fingerprint(&near, 1000), 7_639_972_988);
    assert_eq!(fingerprint(&far, 1000), 7_639_971_924);
    // one thousandth apart
    let camera = Camera { x: -5, y: -6, z: -7, target_x: -8, target_y: -9, target_z: -10 };
    let h = fingerprint(&camera, 1047);
    assert_ne!(fingerprint(&Camera { x: -6, ..camera }, 1047), h);
    assert_ne!(fingerprint(&Camera { y: -7, ..camera }, 1047), h);
    assert_ne!(fingerprint(&Camera { z: -8, ..camera }, 1047), h);
    assert_ne!(fingerprint(&Camera { target_x: -9, ..camera }, 1047), h);
    assert_ne!(fingerprint(&Camera { target_y: -10, ..camera }, 1047), h);
    assert_ne!(fingerprint(&Camera { target_z: -11, ..camera }, 1047), h);
}

#[test]
fn fingerprint_of_extreme_values() {
    let m = i32::MAX;
    let camera = Camera { x: m, y: m, z: m, target_x: m, target_y: m, target_z: m };
    assert_eq!(fingerprint(&camera, m), 2_304_716_008_507_388_083);
    let n = i32::MIN;
    let camera = Camera { x: n, y: n, z: n, target_x: n, target_y: n, target_z: n };
    assert_eq!(fingerprint(&camera, n), 2_308_097_009_983_239_092);
}

#[test]
fn fingerprint_changes_with_each_single_field() {
    let camera = base();
    let h = fingerprint(&camera, 1047);
    assert_ne!(fingerprint(&Camera { x: 101, ..camera }, 1047), h);
    assert_ne!(fingerprint(&Camera { y: 201, ..camera }, 1047), h);
    assert_ne!(fingerprint(&Camera { z: 301, ..camera }, 1047), h);
    assert_ne!(fingerprint(&Camera { target_x: 401, ..camera }, 1047), h);
    assert_ne!(fingerprint(&Camera { target_y: 501, ..camera }, 1047), h);
    assert_ne!(fingerprint(&Camera { target_z: 601, ..camera }, 1047), h);
    assert_ne!(fingerprint(&camera, 1057), h);
}

#[test]
fn fingerprint_absorbs_field_of_view_jitter() {
    let camera = base();
    assert_eq!(fingerprint(&camera, 1040), fingerprint(&camera, 1049));
    assert_ne!(fingerprint(&camera, 1039), fingerprint(&camera, 1040));
    // less than a hundredth to either side of zero is zero
    assert_eq!(fingerprint(&camera, -9), fingerprint(&camera, 9));
    assert_eq!(fingerprint(&camera, -9), 676_090_129_730_969_700);
    assert_ne!(fingerprint(&camera, -10), fingerprint(&camera, 10));
}

#[test]
fn fingerprint_keeps_the_high_bits_of_every_field() {
    let camera = base();
    let h = fingerprint(&camera, 1047);
    assert_eq!(fingerprint(&Camera { target_z: 600 + (1 << 14), ..camera }, 1047), h + 1);
    assert_eq!(fingerprint(&Camera { target_y: 500 + (1 << 24), ..camera }, 1047), h + 1);
    for bit in 0..31 {
        let step = 1 << bit;
        assert_ne!(fingerprint(&Camera { x: 100 ^ step, ..camera }, 1047), h);
        assert_ne!(fingerprint(&Camera { y: 200 ^ step, ..camera }, 1047), h);
        assert_ne!(fingerprint(&Camera { z: 300 ^ step, ..camera }, 1047), h);
        assert_ne!(fingerprint(&Camera { target_x: 400 ^ step, ..camera }, 1047), h);
        assert_ne!(fingerprint(&Camera { target_y: 500 ^ step, ..camera }, 1047), h);
        assert_ne!(fingerprint(&Camera { target_z: 600 ^ step, ..camera }, 1047), h);
    }
}

#[test]
fn changes_of_two_fields_may_cancel() {
    // x and the field of view are combined at the same place
    let camera = Camera::new();
    let moved = Camera { x: 1, ..camera };
    assert_eq!(fingerprint(&moved, 1040), 5_244_928_105);
    assert_eq!(fingerprint(&camera, 1050), 5_244_928_105);
}

#[test]
fn never_built_cache_is_stale_for_every_fingerprint() {
    assert!(stale(None, 0));
    assert!(stale(None, 5));
    assert!(stale(None, u64::MAX));
}

#[test]
fn built_cache_is_stale_for_other_fingerprints_only() {
    assert!(!stale(Some(5), 5));
    assert!(!stale(Some(0), 0));
    assert!(stale(Some(5), 6));
    assert!(stale(Some(0), 1));
}
