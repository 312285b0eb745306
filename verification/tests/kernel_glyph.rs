use mandelbrot::kernel::escape_count;
use mandelbrot::palette::PaletteKind;
use mandelbrot::palette::palette_chars;
use mandelbrot::palette::palette_from_name;
use mandelbrot::palette::shade;

#[test]
fn escape_count_outside_radius_is_zero() {
    // |c|^2 = 9 > 4: immediate escape whatever the bound.
    assert_eq!(escape_count(3_000_000, 0, 1), 0);
    assert_eq!(escape_count(3_000_000, 0, 100), 0);
    // |c|^2 = 6.25 + 6.25 > 4.
    assert_eq!(escape_count(2_500_000, 2_500_000, 50), 0);
    assert_eq!(escape_count(0, -2_100_000, 7), 0);
}

#[test]
fn escape_count_origin_reaches_bound() {
    assert_eq!(escape_count(0, 0, 1), 1);
    assert_eq!(escape_count(0, 0, 80), 80);
    assert_eq!(escape_count(0, 0, 1000), 1000);
}

#[test]
fn escape_count_exact_one_step() {
    // c = (1, 1): z1 = (1, 1) with |z1|^2 = 2, z2 = (1, 3) with |z2|^2 = 10.
    assert_eq!(escape_count(1_000_000, 1_000_000, 50), 1);
}

#[test]
fn escape_count_never_exceeds_bound() {
    for bound in [1usize, 2, 5, 33] {
        let c = escape_count(-500_000, 400_000, bound);
        assert!(c <= bound);
    }
}

#[test]
fn shade_interior_symbol_at_bound() {
    let pal = palette_chars(PaletteKind::Symbols);
    assert_eq!(shade(50, 50, &pal), '@');
    assert_eq!(shade(80, 50, &pal), '@');
    let nums = palette_chars(PaletteKind::Numbers);
    assert_eq!(shade(50, 50, &nums), '9');
}

#[test]
fn shade_exact_indices() {
    let pal = palette_chars(PaletteKind::Symbols);
    // count 0: index (0 + 50) / 100 = 0.
    assert_eq!(shade(0, 50, &pal), ' ');
    // count 25: index (2 * 25 * 9 + 50) / (2 * 50) = 5.
    assert_eq!(shade(25, 50, &pal), '+');
    // count 49: index (2 * 49 * 9 + 50) / (2 * 50) = 9.
    assert_eq!(shade(49, 50, &pal), '@');
    // count 3 of bound 80: index (54 + 80) / 160 = 0.
    assert_eq!(shade(3, 80, &pal), ' ');
}

#[test]
fn shade_monotonic_in_count() {
    let pal = palette_chars(PaletteKind::Symbols);
    let pos = |g: char| pal.iter().position(|&c| c == g).unwrap();
    let mut last = 0usize;
    for count in 0..=60usize {
        let here = pos(shade(count, 50, &pal));
        assert!(here >= last, "index decreased at count {}", count);
        last = here;
    }
}

#[test]
fn palette_tables_have_ten_entries() {
    assert_eq!(palette_chars(PaletteKind::Symbols).len(), 10);
    assert_eq!(palette_chars(PaletteKind::Numbers).len(), 10);
    assert_eq!(palette_chars(PaletteKind::Emoji).len(), 10);
}

#[test]
fn palette_from_name_selects_tables() {
    assert_eq!(palette_from_name("numbers"), palette_chars(PaletteKind::Numbers));
    assert_eq!(palette_from_name("nums"), palette_chars(PaletteKind::Numbers));
    assert_eq!(palette_from_name("emoji"), palette_chars(PaletteKind::Emoji));
    assert_eq!(palette_from_name("symbols"), palette_chars(PaletteKind::Symbols));
    // Unknown names fall back to the symbol palette.
    assert_eq!(palette_from_name("no-such-palette"), palette_chars(PaletteKind::Symbols));
    assert_eq!(palette_from_name(""), palette_chars(PaletteKind::Symbols));
}
