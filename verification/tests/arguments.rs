use mandelbrot::config::parse_fixed;
use mandelbrot::config::parse_usize;
use mandelbrot::viewport::Viewport;

#[test]
fn parse_usize_accepts_plain_decimals() {
    assert_eq!(parse_usize("0"), Some(0));
    assert_eq!(parse_usize("80"), Some(80));
    assert_eq!(parse_usize("007"), Some(7));
    assert_eq!(parse_usize("4096"), Some(4096));
}

#[test]
fn parse_usize_rejects_everything_else() {
    assert_eq!(parse_usize(""), None);
    assert_eq!(parse_usize("12a"), None);
    assert_eq!(parse_usize("-3"), None);
    assert_eq!(parse_usize("1.5"), None);
    assert_eq!(parse_usize(" 7"), None);
    assert_eq!(parse_usize("99999999999999999999999999"), None);
}

#[test]
fn parse_fixed_exact_millionths() {
    assert_eq!(parse_fixed("3.0"), Some(3_000_000));
    assert_eq!(parse_fixed("-0.5"), Some(-500_000));
    assert_eq!(parse_fixed("2"), Some(2_000_000));
    assert_eq!(parse_fixed("-2"), Some(-2_000_000));
    assert_eq!(parse_fixed("0"), Some(0));
    assert_eq!(parse_fixed(".5"), Some(500_000));
    assert_eq!(parse_fixed("5."), Some(5_000_000));
    assert_eq!(parse_fixed("0.000001"), Some(1));
    assert_eq!(parse_fixed("1.25"), Some(1_250_000));
}

#[test]
fn parse_fixed_truncates_beyond_six_digits() {
    assert_eq!(parse_fixed("0.1234567"), Some(123_456));
    assert_eq!(parse_fixed("-0.9999999"), Some(-999_999));
}

#[test]
fn parse_fixed_rejects_malformed_literals() {
    assert_eq!(parse_fixed(""), None);
    assert_eq!(parse_fixed("-"), None);
    assert_eq!(parse_fixed("."), None);
    assert_eq!(parse_fixed("-."), None);
    assert_eq!(parse_fixed("1.2.3"), None);
    assert_eq!(parse_fixed("--5"), None);
    assert_eq!(parse_fixed("abc"), None);
    assert_eq!(parse_fixed("1e3"), None);
    assert_eq!(parse_fixed("99999999999999999999"), None);
}

#[test]
fn apply_arg_sets_fields_in_range() {
    let mut vp = Viewport::initial();
    vp.apply_arg("w=120");
    assert_eq!(vp.width, 120);
    vp.apply_arg("height=40");
    assert_eq!(vp.height, 40);
    vp.apply_arg("cx=-1.25");
    assert_eq!(vp.center_x, -1_250_000);
    vp.apply_arg("cy=0.75");
    assert_eq!(vp.center_y, 750_000);
    vp.apply_arg("scale=2.5");
    assert_eq!(vp.scale, 2_500_000);
    vp.apply_arg("s=1.5");
    assert_eq!(vp.scale, 1_500_000);
    vp.apply_arg("iters=200");
    assert_eq!(vp.iter_bound, 200);
    vp.apply_arg("i=99");
    assert_eq!(vp.iter_bound, 99);
}

#[test]
fn apply_arg_falls_back_on_bad_values() {
    let init = Viewport::initial();
    let mut vp = Viewport::initial();
    vp.apply_arg("w=abc");
    vp.apply_arg("w=1");
    vp.apply_arg("w=5000");
    vp.apply_arg("h=");
    vp.apply_arg("cx=1e3");
    vp.apply_arg("scale=0");
    vp.apply_arg("scale=-2");
    vp.apply_arg("iters=0");
    vp.apply_arg("iters=2000000000");
    assert_eq!(vp, init);
}

#[test]
fn apply_arg_ignores_unknown_keys_and_missing_values() {
    let init = Viewport::initial();
    let mut vp = Viewport::initial();
    vp.apply_arg("palette=emoji");
    vp.apply_arg("w");
    vp.apply_arg("");
    vp.apply_arg("=80");
    vp.apply_arg("zoom=3");
    assert_eq!(vp, init);
}

#[test]
fn apply_arg_takes_first_equals_sign() {
    let mut vp = Viewport::initial();
    vp.apply_arg("w=90=100");
    // The value "90=100" does not parse; the width is unchanged.
    assert_eq!(vp.width, 80);
}
