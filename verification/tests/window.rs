use shape_renderer::window::{Action, GlWindow, Key, WindowEvent};

#[test]
fn a_new_window_stays_open() {
    assert!(!GlWindow::new().should_close());
}

#[test]
fn escape_pressed_closes_the_window() {
    let mut window = GlWindow::new();
    window.handle_event(WindowEvent::Key(Key::Escape, Action::Press));
    assert!(window.should_close());
}

#[test]
fn other_events_leave_the_window_open() {
    let mut window = GlWindow::new();
    window.handle_event(WindowEvent::Key(Key::Escape, Action::Release));
    window.handle_event(WindowEvent::Key(Key::Escape, Action::Repeat));
    window.handle_event(WindowEvent::Key(Key::Other, Action::Press));
    window.handle_event(WindowEvent::Other);
    assert!(!window.should_close());
}

#[test]
fn a_closing_window_stays_closing() {
    let mut window = GlWindow::new();
    window.handle_event(WindowEvent::Key(Key::Escape, Action::Press));
    window.handle_event(WindowEvent::Key(Key::Other, Action::Press));
    window.handle_event(WindowEvent::Other);
    assert!(window.should_close());
}
