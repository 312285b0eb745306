use mandelbrot::kernel::escape_count;
use mandelbrot::palette::PaletteKind;
use mandelbrot::palette::palette_chars;
use mandelbrot::render::frame_text;
use mandelbrot::render::reassemble;
use mandelbrot::render::render;
use mandelbrot::render::render_chunked;
use mandelbrot::render::render_rows;
use mandelbrot::render::sample_u;
use mandelbrot::render::sample_v;
use mandelbrot::viewport::Viewport;

fn scenario_viewport() -> Viewport {
    Viewport::new(10, 4, -500_000, 0, 3_000_000, 50).unwrap()
}

#[test]
fn sampling_maps_grid_edges_exactly() {
    let vp = scenario_viewport();
    // u = (x / (width - 1) - 0.5) * scale + center_x.
    assert_eq!(sample_u(&vp, 0), -2_000_000);
    assert_eq!(sample_u(&vp, 9), 1_000_000);
    // v = (y / (height - 1) - 0.5) * scale / aspect + center_y, aspect 2.5.
    assert_eq!(sample_v(&vp, 0), -600_000);
    assert_eq!(sample_v(&vp, 3), 600_000);
}

#[test]
fn default_viewport_is_the_initial_configuration() {
    assert_eq!(Viewport::default(), Viewport::initial());
    assert_eq!(Viewport::initial().scale, 3_000_000);
    assert_eq!(Viewport::initial().center_x, -500_000);
}

#[test]
fn frame_has_height_rows_of_width_cells() {
    let vp = scenario_viewport();
    let pal = palette_chars(PaletteKind::Symbols);
    let frame = render(&vp, &pal);
    assert_eq!(frame.len(), 4);
    for row in &frame {
        assert_eq!(row.len(), 10);
    }
}

#[test]
fn emoji_rows_measure_width_in_cells_not_bytes() {
    let vp = scenario_viewport();
    let pal = palette_chars(PaletteKind::Emoji);
    let frame = render(&vp, &pal);
    let mut saw_multibyte = false;
    for row in &frame {
        assert_eq!(row.len(), 10);
        let text: String = row.iter().collect();
        if text.len() > row.len() {
            saw_multibyte = true;
        }
    }
    assert!(saw_multibyte, "expected at least one multi-byte glyph in the frame");
}

#[test]
fn scenario_center_point_is_interior() {
    // The center (-0.5, 0) lies inside the main cardioid: the kernel runs
    // to the bound.
    assert_eq!(escape_count(-500_000, 0, 50), 50);
    let vp = scenario_viewport();
    let pal = palette_chars(PaletteKind::Symbols);
    let frame = render(&vp, &pal);
    assert_eq!(frame.len(), 4);
}

#[test]
fn worker_counts_give_identical_frames() {
    let vp = scenario_viewport();
    let pal = palette_chars(PaletteKind::Symbols);
    let sequential = render(&vp, &pal);
    assert_eq!(render_chunked(&vp, &pal, 1), sequential);
    assert_eq!(render_chunked(&vp, &pal, 2), sequential);
    assert_eq!(render_chunked(&vp, &pal, 3), sequential);
    assert_eq!(render_chunked(&vp, &pal, 4), sequential);
    assert_eq!(render_chunked(&vp, &pal, 64), sequential);
}

#[test]
fn reassemble_ignores_arrival_order() {
    let vp = scenario_viewport();
    let pal = palette_chars(PaletteKind::Symbols);
    let mut parts = render_rows(&vp, &pal, 0, 4);
    parts.reverse();
    let frame = reassemble(&parts, 4).unwrap();
    assert_eq!(frame, render(&vp, &pal));
}

#[test]
fn reassemble_rejects_missing_rows() {
    let vp = scenario_viewport();
    let pal = palette_chars(PaletteKind::Symbols);
    let parts = render_rows(&vp, &pal, 0, 3);
    assert!(reassemble(&parts, 4).is_none());
    let empty: Vec<(usize, Vec<char>)> = Vec::new();
    assert!(reassemble(&empty, 1).is_none());
    assert!(reassemble(&empty, 0).is_some());
}

#[test]
fn frame_text_terminates_each_row() {
    let frame = vec![vec!['a', 'b'], vec!['c', 'd']];
    let text: String = frame_text(&frame).iter().collect();
    assert_eq!(text, "ab\ncd\n");
    let vp = scenario_viewport();
    let pal = palette_chars(PaletteKind::Symbols);
    let text = frame_text(&render(&vp, &pal));
    assert_eq!(text.len(), 4 * 11);
    assert_eq!(text.iter().filter(|&&c| c == '\n').count(), 4);
}

#[test]
fn reassemble_takes_first_duplicate() {
    let mut parts = vec![(0usize, vec!['a']), (0usize, vec!['b'])];
    let frame = reassemble(&parts, 1).unwrap();
    assert_eq!(frame, vec![vec!['a']]);
    parts.swap(0, 1);
    let frame = reassemble(&parts, 1).unwrap();
    assert_eq!(frame, vec![vec!['b']]);
}
