use mandelbrot::input::DecodeState;
use mandelbrot::input::decode_step;
use mandelbrot::input::read_key;
use mandelbrot::session::Session;
use mandelbrot::viewport::Command;
use mandelbrot::viewport::SCALE_MAX;
use mandelbrot::viewport::Viewport;

#[test]
fn read_key_single_bytes() {
    assert_eq!(read_key(&vec![b'q']), Command::Quit);
    assert_eq!(read_key(&vec![b'Q']), Command::Quit);
    assert_eq!(read_key(&vec![3]), Command::Quit);
    assert_eq!(read_key(&vec![b'+']), Command::ZoomIn);
    assert_eq!(read_key(&vec![b'=']), Command::ZoomIn);
    assert_eq!(read_key(&vec![b'-']), Command::ZoomOut);
    assert_eq!(read_key(&vec![b'_']), Command::ZoomOut);
    assert_eq!(read_key(&vec![b'r']), Command::Reset);
    assert_eq!(read_key(&vec![b'h']), Command::PanLeft);
    assert_eq!(read_key(&vec![b'j']), Command::PanDown);
    assert_eq!(read_key(&vec![b'k']), Command::PanUp);
    assert_eq!(read_key(&vec![b'l']), Command::PanRight);
    assert_eq!(read_key(&vec![b'w']), Command::PanUp);
    assert_eq!(read_key(&vec![b'a']), Command::PanLeft);
    assert_eq!(read_key(&vec![b's']), Command::PanDown);
    assert_eq!(read_key(&vec![b'd']), Command::PanRight);
    assert_eq!(read_key(&vec![b'x']), Command::Noop);
    assert_eq!(read_key(&vec![]), Command::Noop);
}

#[test]
fn read_key_cursor_sequences() {
    assert_eq!(read_key(&vec![27, b'[', b'A']), Command::PanUp);
    assert_eq!(read_key(&vec![27, b'[', b'B']), Command::PanDown);
    assert_eq!(read_key(&vec![27, b'[', b'C']), Command::PanRight);
    assert_eq!(read_key(&vec![27, b'[', b'D']), Command::PanLeft);
}

#[test]
fn read_key_truncated_or_unknown_sequences_are_noop() {
    assert_eq!(read_key(&vec![27]), Command::Noop);
    assert_eq!(read_key(&vec![27, b'[']), Command::Noop);
    assert_eq!(read_key(&vec![27, b'[', b'Z']), Command::Noop);
    assert_eq!(read_key(&vec![27, b'x', b'A']), Command::Noop);
}

#[test]
fn decoder_state_machine_transitions() {
    assert_eq!(decode_step(DecodeState::Idle, 27), (DecodeState::SawEsc, Command::Noop));
    assert_eq!(decode_step(DecodeState::SawEsc, b'['), (DecodeState::SawBracket, Command::Noop));
    assert_eq!(decode_step(DecodeState::SawBracket, b'A'), (DecodeState::Idle, Command::PanUp));
    // Any unexpected byte in a sequence resets to idle with no command.
    assert_eq!(decode_step(DecodeState::SawEsc, b'x'), (DecodeState::Idle, Command::Noop));
    assert_eq!(decode_step(DecodeState::SawBracket, b'!'), (DecodeState::Idle, Command::Noop));
    assert_eq!(decode_step(DecodeState::Idle, b'q'), (DecodeState::Idle, Command::Quit));
}

#[test]
fn noop_leaves_viewport_unchanged() {
    let init = Viewport::initial();
    let mut vp = Viewport::initial();
    vp.apply(Command::Noop, &init);
    assert_eq!(vp, init);
}

#[test]
fn pan_steps_move_center_by_a_tenth_of_scale() {
    let init = Viewport::initial();
    let mut vp = Viewport::initial();
    vp.apply(Command::PanLeft, &init);
    assert_eq!(vp.center_x, -800_000);
    vp.apply(Command::PanRight, &init);
    vp.apply(Command::PanRight, &init);
    assert_eq!(vp.center_x, -200_000);
    // Vertical pan is corrected by the aspect ratio 80/30.
    vp.apply(Command::PanUp, &init);
    assert_eq!(vp.center_y, -112_500);
    vp.apply(Command::PanDown, &init);
    assert_eq!(vp.center_y, 0);
}

#[test]
fn zoom_round_trip_restores_scale() {
    let init = Viewport::initial();
    let mut vp = Viewport::initial();
    assert_eq!(vp.scale, 3_000_000);
    vp.apply(Command::ZoomIn, &init);
    assert_eq!(vp.scale, 2_400_000);
    vp.apply(Command::ZoomOut, &init);
    assert_eq!(vp.scale, 3_000_000);
    assert_eq!(vp, init);
}

#[test]
fn zoom_clamps_at_both_ends() {
    let init = Viewport::initial();
    let mut vp = Viewport::new(80, 30, 0, 0, 1, 80).unwrap();
    vp.apply(Command::ZoomIn, &init);
    assert_eq!(vp.scale, 1);
    let mut vp = Viewport::new(80, 30, 0, 0, SCALE_MAX, 80).unwrap();
    vp.apply(Command::ZoomOut, &init);
    assert_eq!(vp.scale, SCALE_MAX);
}

#[test]
fn reset_restores_initial_configuration() {
    let init = Viewport::initial();
    let mut session = Session::start(init);
    for cmd in [
        Command::PanLeft,
        Command::ZoomIn,
        Command::PanUp,
        Command::ZoomIn,
        Command::PanDown,
        Command::ZoomOut,
        Command::PanRight,
    ] {
        let quit = session.handle(cmd);
        assert!(!quit);
    }
    assert_ne!(session.view, init);
    let quit = session.handle(Command::Reset);
    assert!(!quit);
    assert_eq!(session.view, init);
}

#[test]
fn quit_ends_session_and_keeps_view() {
    let mut session = Session::start(Viewport::initial());
    session.handle(Command::ZoomIn);
    let view = session.view;
    let quit = session.handle(Command::Quit);
    assert!(quit);
    assert_eq!(session.view, view);
}

#[test]
fn commands_apply_in_order() {
    let init = Viewport::initial();
    let mut session = Session::start(init);
    // Zoom first, then pan: the pan step uses the zoomed scale.
    session.handle(Command::ZoomIn);
    session.handle(Command::PanRight);
    assert_eq!(session.view.scale, 2_400_000);
    assert_eq!(session.view.center_x, -500_000 + 240_000);
}
