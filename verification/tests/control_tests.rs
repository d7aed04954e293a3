use imagy::{CleanupGuard, KeyAction, KeyInput, LoopState, ViewportSize};

const V: ViewportSize = ViewportSize { cols: 80, rows: 24 };
const W: ViewportSize = ViewportSize { cols: 100, rows: 30 };

#[test]
fn first_iteration_always_renders() {
    let s = LoopState::new();
    assert!(s.should_render(V));
    assert!(s.should_render(W));
}

#[test]
fn unchanged_viewport_triggers_no_rerender() {
    let mut s = LoopState::new();
    assert!(s.should_render(V));
    s.mark_rendered(V);
    // Querying the same size again does not render.
    assert!(!s.should_render(V));
    assert!(!s.should_render(V));
}

#[test]
fn changed_viewport_triggers_exactly_one_rerender() {
    let mut s = LoopState::new();
    s.mark_rendered(V);
    // The size changed: render once, after which it is no longer new.
    assert!(s.should_render(W));
    s.mark_rendered(W);
    assert!(!s.should_render(W));
}

#[test]
fn key_q_quits() {
    let mut s = LoopState::new();
    s.mark_rendered(V);
    assert_eq!(s.handle_key(KeyInput::Char('q')), KeyAction::Quit);
    assert!(!s.should_render(V));
}

#[test]
fn key_escape_quits() {
    let mut s = LoopState::new();
    s.mark_rendered(V);
    assert_eq!(s.handle_key(KeyInput::Esc), KeyAction::Quit);
}

#[test]
fn key_r_forces_rerender_of_unchanged_viewport() {
    let mut s = LoopState::new();
    s.mark_rendered(V);
    assert!(!s.should_render(V));
    assert_eq!(s.handle_key(KeyInput::Char('r')), KeyAction::Refresh);
    // The viewport did not change, yet the next iteration renders.
    assert!(s.should_render(V));
}

#[test]
fn key_i_shows_info_without_touching_render_state() {
    let mut s = LoopState::new();
    s.mark_rendered(V);
    assert_eq!(s.handle_key(KeyInput::Char('i')), KeyAction::Info);
    // No spurious redraw follows the overlay.
    assert!(!s.should_render(V));
}

#[test]
fn other_keys_are_ignored() {
    let mut s = LoopState::new();
    s.mark_rendered(V);
    assert_eq!(s.handle_key(KeyInput::Char('x')), KeyAction::Ignore);
    assert_eq!(s.handle_key(KeyInput::Other), KeyAction::Ignore);
    assert!(!s.should_render(V));
}

#[test]
fn cleanup_runs_exactly_once() {
    let mut g = CleanupGuard::new();
    // The first exit path to ask gets to run the cleanup sequence.
    assert!(g.begin_cleanup());
    // Every later request, from any path, is refused.
    assert!(!g.begin_cleanup());
    assert!(!g.begin_cleanup());
}
