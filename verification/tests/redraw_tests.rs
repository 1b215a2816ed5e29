use gosub_renderer::redraw::{RedrawState, ViewportSize};

fn size(width: u32, height: u32) -> ViewportSize {
    ViewportSize { width, height }
}

#[test]
fn first_request_draws() {
    let mut state = RedrawState::new();
    assert_eq!(state.drawn_size, None);
    assert!(state.request_draw(size(800, 600)));
    assert_eq!(state.drawn_size, Some(size(800, 600)));
}

#[test]
fn repeated_request_at_same_size_does_nothing() {
    let mut state = RedrawState::new();
    assert!(state.request_draw(size(800, 600)));
    assert!(!state.request_draw(size(800, 600)));
    assert!(!state.request_draw(size(800, 600)));
    assert_eq!(state.drawn_size, Some(size(800, 600)));
}

#[test]
fn resize_draws_again() {
    let mut state = RedrawState::new();
    assert!(state.request_draw(size(800, 600)));
    assert!(state.request_draw(size(800, 601)));
    assert!(state.request_draw(size(1024, 601)));
    assert!(!state.request_draw(size(1024, 601)));
    assert!(state.request_draw(size(800, 600)));
    assert_eq!(state.drawn_size, Some(size(800, 600)));
}
