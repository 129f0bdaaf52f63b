use scene_viewer::fixed::{fx_add, fx_div, fx_half, fx_max, fx_min, fx_mul, fx_sub, FX_MAX, FX_ONE};

#[test]
fn one_is_a_thousand_steps() {
    assert_eq!(FX_ONE, 1000);
}

#[test]
fn addition_and_subtraction() {
    assert_eq!(fx_add(1500, 2500), 4000);
    assert_eq!(fx_sub(1500, 2500), -1000);
}

#[test]
fn addition_saturates_at_the_range_limit() {
    assert_eq!(fx_add(FX_MAX, FX_MAX), FX_MAX);
    assert_eq!(fx_sub(-FX_MAX, FX_MAX), -FX_MAX);
}

#[test]
fn multiplication_rescales() {
    // 1.5 × 2.0 = 3.0
    assert_eq!(fx_mul(1500, 2000), 3000);
    // -0.5 × 0.5 = -0.25
    assert_eq!(fx_mul(-500, 500), -250);
    // products round toward zero
    assert_eq!(fx_mul(1, 1), 0);
    assert_eq!(fx_mul(-1, 1), 0);
}

#[test]
fn division_rescales() {
    // 2.0 / 4.0 = 0.5
    assert_eq!(fx_div(2000, 4000), 500);
    // division by a non-positive divisor yields zero
    assert_eq!(fx_div(2000, 0), 0);
    assert_eq!(fx_div(2000, -1), 0);
}

#[test]
fn halving_rounds_toward_zero() {
    assert_eq!(fx_half(5), 2);
    assert_eq!(fx_half(-5), -2);
    assert_eq!(fx_half(4000), 2000);
}

#[test]
fn minimum_and_maximum() {
    assert_eq!(fx_min(3, -7), -7);
    assert_eq!(fx_max(3, -7), 3);
}
