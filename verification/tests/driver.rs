use learn_vk::driver::{Action, Driver, Event};
use learn_vk::input::{ElementState, Input, KeyCode, MouseButton};

#[test]
fn a_new_driver_is_not_minimized() {
    assert!(!Driver::new().minimized);
}

#[test]
fn a_visible_window_renders_a_frame() {
    let mut driver = Driver::new();
    let mut input = Input::new();
    assert_eq!(driver.handle(&mut input, Event::MainEventsCleared), Action::Frame);
    assert!(!driver.minimized);
}

#[test]
fn a_resize_to_zero_area_pauses() {
    let mut driver = Driver::new();
    let mut input = Input::new();
    assert_eq!(driver.handle(&mut input, Event::Resized { width: 0, height: 0 }), Action::Pause);
    assert!(driver.minimized);
    assert_eq!(driver.handle(&mut input, Event::Resized { width: 0, height: 720 }), Action::Pause);
    assert!(driver.minimized);
    assert_eq!(driver.handle(&mut input, Event::Resized { width: 1280, height: 0 }), Action::Pause);
    assert!(driver.minimized);
}

#[test]
fn a_minimized_window_renders_nothing() {
    let mut driver = Driver::new();
    let mut input = Input::new();
    driver.handle(&mut input, Event::Resized { width: 0, height: 0 });
    assert_eq!(driver.handle(&mut input, Event::MainEventsCleared), Action::Idle);
    driver.handle(&mut input, Event::CursorMoved { x_bits: 0, y_bits: 0 });
    driver.handle(&mut input, Event::Other);
    assert_eq!(driver.handle(&mut input, Event::MainEventsCleared), Action::Idle);
    assert!(driver.minimized);
}

#[test]
fn a_resize_with_area_reaches_the_camera_and_resumes_frames() {
    let mut driver = Driver::new();
    let mut input = Input::new();
    driver.handle(&mut input, Event::Resized { width: 0, height: 0 });
    assert_eq!(
        driver.handle(&mut input, Event::Resized { width: 1280, height: 720 }),
        Action::Resize { width: 1280, height: 720 }
    );
    assert!(!driver.minimized);
    assert_eq!(driver.handle(&mut input, Event::MainEventsCleared), Action::Frame);
}

#[test]
fn no_resize_action_has_a_zero_dimension() {
    let sizes = [0u32, 1, 2, 720, 1280, u32::MAX];
    for width in sizes {
        for height in sizes {
            let mut driver = Driver::new();
            let mut input = Input::new();
            match driver.handle(&mut input, Event::Resized { width, height }) {
                Action::Resize { width: w, height: h } => {
                    assert!(w != 0 && h != 0);
                    assert_eq!((w, h), (width, height));
                }
                Action::Pause => assert!(width == 0 || height == 0),
                other => panic!("a resize gave {:?}", other),
            }
        }
    }
}

#[test]
fn a_close_request_exits() {
    let mut driver = Driver::new();
    let mut input = Input::new();
    assert_eq!(driver.handle(&mut input, Event::CloseRequested), Action::Exit);
    driver.handle(&mut input, Event::Resized { width: 0, height: 0 });
    assert_eq!(driver.handle(&mut input, Event::CloseRequested), Action::Exit);
}

#[test]
fn key_events_reach_the_input_state() {
    let mut driver = Driver::new();
    let mut input = Input::new();
    let event = Event::KeyboardInput { code: Some(KeyCode(115)), state: ElementState::Pressed };
    assert_eq!(driver.handle(&mut input, event), Action::Idle);
    assert!(input.in_key_pressed(KeyCode(115)));
    let event = Event::KeyboardInput { code: Some(KeyCode(115)), state: ElementState::Released };
    driver.handle(&mut input, event);
    assert!(!input.in_key_pressed(KeyCode(115)));
}

#[test]
fn key_events_without_a_code_are_dropped() {
    let mut driver = Driver::new();
    let mut input = Input::new();
    let event = Event::KeyboardInput { code: None, state: ElementState::Pressed };
    assert_eq!(driver.handle(&mut input, event), Action::Idle);
    assert!(input.key_states().is_empty());
}

#[test]
fn button_events_reach_the_input_state() {
    let mut driver = Driver::new();
    let mut input = Input::new();
    let event = Event::MouseInput { button: MouseButton::Right, state: ElementState::Pressed };
    assert_eq!(driver.handle(&mut input, event), Action::Idle);
    assert!(input.is_mouse_button_pressed(MouseButton::Right));
    assert!(!input.is_mouse_button_pressed(MouseButton::Left));
}

#[test]
fn cursor_events_reach_the_input_state() {
    let mut driver = Driver::new();
    let mut input = Input::new();
    let event = Event::CursorMoved { x_bits: 33.5f32.to_bits(), y_bits: 44.25f32.to_bits() };
    assert_eq!(driver.handle(&mut input, event), Action::Idle);
    assert_eq!(f32::from_bits(input.get_mouse_position().x_bits), 33.5);
    assert_eq!(f32::from_bits(input.get_mouse_position().y_bits), 44.25);
}

#[test]
fn wheel_events_go_to_the_camera_and_not_to_the_input_state() {
    let mut driver = Driver::new();
    let mut input = Input::new();
    input.set_mouse_position(1.0f32.to_bits(), 2.0f32.to_bits());
    let event = Event::MouseWheel { x_bits: 0.5f32.to_bits(), y_bits: (-2.0f32).to_bits() };
    assert_eq!(
        driver.handle(&mut input, event),
        Action::Scroll { x_bits: 0.5f32.to_bits(), y_bits: (-2.0f32).to_bits() }
    );
    assert_eq!(f32::from_bits(input.get_mouse_position().x_bits), 1.0);
    assert_eq!(f32::from_bits(input.get_mouse_position().y_bits), 2.0);
    assert!(input.key_states().is_empty());
    assert!(input.mouse_states().is_empty());
}

#[test]
fn other_events_change_nothing() {
    let mut driver = Driver::new();
    let mut input = Input::new();
    input.set_key_state(KeyCode(1), ElementState::Pressed);
    assert_eq!(driver.handle(&mut input, Event::Other), Action::Idle);
    assert!(input.in_key_pressed(KeyCode(1)));
    assert!(!driver.minimized);
}

#[test]
fn input_is_still_recorded_while_minimized() {
    let mut driver = Driver::new();
    let mut input = Input::new();
    driver.handle(&mut input, Event::Resized { width: 0, height: 0 });
    driver.handle(
        &mut input,
        Event::KeyboardInput { code: Some(KeyCode(9)), state: ElementState::Pressed },
    );
    assert!(input.in_key_pressed(KeyCode(9)));
    assert!(driver.minimized);
}
