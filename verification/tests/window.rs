use test_window::geometry::{point, size, Bounds};
use test_window::window::{
    DispatchEventResult, RequestFrameOptions, TestWindow, WindowAppearance, WindowBackgroundAppearance,
    WindowBounds,
};

type Window = TestWindow<f32, String, u32, u8, String, u16>;

fn window() -> Window {
    TestWindow::new(Bounds::new(point(10.0, 20.0), size(300.0, 200.0)), 9)
}

#[test]
fn new_window_starts_idle() {
    let w = window();
    assert!(!w.frame_scheduled());
    assert_eq!(w.frame_wake_count(), 0);
    assert_eq!(w.appearance(), WindowAppearance::Light);
    assert!(!w.is_fullscreen());
    assert!(w.text_input_configurations().is_empty());
    assert!(w.text_input_state_changes().is_empty());
    assert!(w.external_drag_files().is_empty());
    assert!(w.title().is_none());
    assert!(!w.edited());
    assert!(w.document_path().is_none());
    assert_eq!(*w.display(), 9);
    assert_eq!(w.bounds(), Bounds::new(point(10.0, 20.0), size(300.0, 200.0)));
}

#[test]
fn scheduled_frame_is_delivered_once() {
    let mut w = window();
    w.schedule_frame();
    assert!(w.frame_scheduled());
    assert!(w.simulate_scheduled_frame(true));
    assert!(!w.frame_scheduled());
    assert!(!w.simulate_scheduled_frame(true));
}

#[test]
fn nothing_scheduled_delivers_nothing() {
    let mut w = window();
    assert!(!w.simulate_scheduled_frame(true));
    assert!(!w.frame_scheduled());
}

#[test]
fn frame_without_callback_stays_scheduled() {
    let mut w = window();
    w.schedule_frame();
    assert!(!w.simulate_scheduled_frame(false));
    assert!(w.frame_scheduled());
    assert!(w.simulate_scheduled_frame(true));
}

#[test]
fn drawn_frame_absorbs_requests_until_delivered() {
    let mut w = window();
    w.draw();
    assert!(w.frame_scheduled());
    assert!(w.simulate_scheduled_frame(true));
    assert!(!w.frame_scheduled());
    w.schedule_frame();
    assert!(w.frame_scheduled());

    let mut w = window();
    w.draw();
    assert!(w.simulate_scheduled_frame(true));
    w.draw();
    w.schedule_frame();
    assert!(w.simulate_scheduled_frame(true));
    // The pending frame was delivered, so requests work again.
    w.schedule_frame();
    assert!(w.simulate_scheduled_frame(true));
}

#[test]
fn pending_frame_ignores_schedule_after_failed_delivery() {
    let mut w = window();
    w.draw();
    // A failed delivery (no callback) clears the pending mark and keeps the frame.
    assert!(!w.simulate_scheduled_frame(false));
    assert!(w.frame_scheduled());
    assert!(w.simulate_scheduled_frame(true));
    assert!(!w.frame_scheduled());
    w.schedule_frame();
    assert!(w.frame_scheduled());
}

#[test]
fn frame_waker_counts_wakes() {
    let mut w = window();
    w.wake_frame();
    w.wake_frame();
    assert_eq!(w.frame_wake_count(), 2);
    assert!(!w.frame_scheduled());
}

#[test]
fn resize_changes_size_and_keeps_origin() {
    let mut w = window();
    w.simulate_resize(size(640.0, 480.0));
    assert_eq!(w.bounds(), Bounds::new(point(10.0, 20.0), size(640.0, 480.0)));
    assert_eq!(w.content_size(), size(640.0, 480.0));
    w.resize(size(1.0, 2.0));
    assert_eq!(w.window_bounds(), WindowBounds::Windowed(Bounds::new(point(10.0, 20.0), size(1.0, 2.0))));
}

#[test]
fn appearance_change_is_recorded() {
    let mut w = window();
    w.simulate_appearance_change(WindowAppearance::VibrantDark);
    assert_eq!(w.appearance(), WindowAppearance::VibrantDark);
}

#[test]
fn text_input_traffic_is_recorded_in_order() {
    let mut w = window();
    w.set_text_input_configuration("a".to_string());
    w.set_text_input_configuration("b".to_string());
    w.text_input_state_changed(3);
    w.text_input_state_changed(1);
    assert_eq!(w.text_input_configurations(), &vec!["a".to_string(), "b".to_string()]);
    assert_eq!(w.text_input_state_changes(), &vec![3, 1]);
}

#[test]
fn external_drags_record_files_and_answer_the_set_result() {
    let mut w = window();
    assert!(w.can_start_external_drag());
    assert!(!w.start_external_drag(vec![("a.txt".to_string(), false)]));
    w.set_start_external_drag_result(true);
    assert!(w.start_external_drag(vec![("b".to_string(), true), ("c".to_string(), false)]));
    assert_eq!(
        w.external_drag_files(),
        &vec![("a.txt".to_string(), false), ("b".to_string(), true), ("c".to_string(), false)]
    );
}

#[test]
fn input_handler_is_handed_back_once() {
    let mut w = window();
    w.set_input_handler(4);
    w.set_input_handler(5);
    assert_eq!(w.take_input_handler(), Some(5));
    assert_eq!(w.take_input_handler(), None);
}

#[test]
fn simulated_input_is_handled_when_it_does_not_propagate() {
    assert!(!Window::simulate_input(None));
    assert!(Window::simulate_input(Some(DispatchEventResult { propagate: false, default_prevented: false })));
    assert!(!Window::simulate_input(Some(DispatchEventResult { propagate: true, default_prevented: true })));
}

#[test]
fn fullscreen_toggles() {
    let mut w = window();
    w.toggle_fullscreen();
    assert!(w.is_fullscreen());
    w.toggle_fullscreen();
    assert!(!w.is_fullscreen());
}

#[test]
fn document_state_is_recorded() {
    let mut w = window();
    w.set_title("notes");
    w.set_edited(true);
    w.set_document_path(Some("/tmp/notes.md".to_string()));
    assert_eq!(w.title(), Some(&"notes".to_string()));
    assert!(w.edited());
    assert_eq!(w.document_path(), &Some("/tmp/notes.md".to_string()));
    w.set_document_path(None);
    assert!(w.document_path().is_none());
}

#[test]
fn fixed_answers_of_a_test_window() {
    let w = window();
    assert!(!w.is_maximized());
    assert!(!w.is_active());
    assert!(!w.is_hovered());
    assert!(!w.is_subpixel_rendering_supported());
    assert_eq!(w.background_appearance(), WindowBackgroundAppearance::Opaque);
    assert_eq!(
        RequestFrameOptions::default_options(),
        RequestFrameOptions { require_presentation: false, force_render: false }
    );
}

#[test]
fn schedule_always_leaves_a_frame_scheduled() {
    let mut w = window();
    w.draw();
    w.schedule_frame();
    assert!(w.frame_scheduled());
    assert!(!w.simulate_scheduled_frame(false));
    w.schedule_frame();
    assert!(w.frame_scheduled());
}
