use maku::{fit_to_matrix, IoImageFit, Ratio, Transform, MICRO};

fn zero() -> Ratio {
    Ratio { num: 0, den: 1 }
}

#[test]
fn contain_and_cover_of_a_wide_source() {
    let contain = fit_to_matrix(&IoImageFit::Contain, 200, 100, 100, 100);
    assert_eq!(contain.scale.0, Ratio { num: 100, den: 200 });
    assert_eq!(contain.scale.1, Ratio { num: 100, den: 200 });
    assert_eq!(contain.translate, (zero(), zero()));
    assert_eq!(contain.rotate, zero());

    let cover = fit_to_matrix(&IoImageFit::Cover, 200, 100, 100, 100);
    assert_eq!(cover.scale.0, Ratio { num: 100, den: 100 });
    assert_eq!(cover.scale.1, Ratio { num: 100, den: 100 });
    assert_eq!(cover.translate, (zero(), zero()));
}

#[test]
fn contain_and_cover_of_a_tall_source() {
    let contain = fit_to_matrix(&IoImageFit::Contain, 100, 400, 300, 200);
    assert_eq!(contain.scale.0, Ratio { num: 200, den: 400 });
    assert_eq!(contain.scale.1, Ratio { num: 200, den: 400 });
    let cover = fit_to_matrix(&IoImageFit::Cover, 100, 400, 300, 200);
    assert_eq!(cover.scale.0, Ratio { num: 300, den: 100 });
    assert_eq!(cover.scale.1, Ratio { num: 300, den: 100 });
}

#[test]
fn fill_scales_each_axis_on_its_own() {
    for (sw, sh, dw, dh) in [(50u32, 20u32, 100u32, 60u32), (7, 3, 3, 7), (640, 480, 640, 480)] {
        let m = fit_to_matrix(&IoImageFit::Fill, sw, sh, dw, dh);
        assert_eq!(m.scale.0, Ratio { num: dw as i64, den: sw as u64 });
        assert_eq!(m.scale.1, Ratio { num: dh as i64, den: sh as u64 });
        assert_eq!(m.translate, (zero(), zero()));
        assert_eq!(m.rotate, zero());
    }
}

#[test]
fn explicit_fit_normalizes_translation_by_the_canvas() {
    let m = MICRO as i64;
    let fit = IoImageFit::Explicit { translate: (10 * m, -20 * m), rotate: 90 * m, scale: (2 * m, m / 2) };
    let t = fit_to_matrix(&fit, 32, 32, 100, 200);
    assert_eq!(t.translate.0, Ratio { num: 10 * m, den: 100 * MICRO });
    assert_eq!(t.translate.1, Ratio { num: -20 * m, den: 200 * MICRO });
    assert_eq!(t.rotate, Ratio { num: 90 * m, den: MICRO });
    assert_eq!(t.scale, (Ratio { num: 2 * m, den: MICRO }, Ratio { num: m / 2, den: MICRO }));
}

#[test]
fn explicit_fit_defaults_to_unit_scale() {
    let fit = IoImageFit::explicit((1, 2), 3);
    let m = MICRO as i64;
    assert_eq!(fit, IoImageFit::Explicit { translate: (1, 2), rotate: 3, scale: (m, m) });
}

#[test]
fn default_fit_is_fill() {
    assert_eq!(IoImageFit::default(), IoImageFit::Fill);
}

#[test]
fn identity_transform() {
    let one = Ratio { num: 1, den: 1 };
    let t = Transform::identity();
    assert_eq!(t.scale, (one, one));
    assert_eq!(t.translate, (zero(), zero()));
    assert_eq!(t.rotate, zero());
}
