use nshell::events::{
    button_to_button, evaluate_event, evaluate_platform_event, keycode_to_button, pump_events,
    pump_step, Keycode, PadButton, PlatformEvent, MAX_EVENTS,
};
use nshell::input::{
    handle_input_events, Button, ControllerState, DeviceEvent, EngineEvent, InputEvent,
};

#[test]
fn input_event_reports_its_controller() {
    assert_eq!(InputEvent::ButtonPressed(3, Button::Up).id(), 3);
    assert_eq!(InputEvent::ButtonReleased(4, Button::Up).id(), 4);
    assert_eq!(InputEvent::AxisMotion(5, 1, -3).id(), 5);
}

#[test]
fn press_then_release_clears_the_button() {
    let mut c = ControllerState::new(1);
    c.update_with_event(&InputEvent::ButtonPressed(1, Button::Confirm));
    assert!(c.button_state(Button::Confirm));
    assert!(!c.button_state(Button::Cancel));
    c.update_with_event(&InputEvent::ButtonReleased(1, Button::Confirm));
    assert!(!c.button_state(Button::Confirm));
}

#[test]
fn events_of_other_controllers_are_ignored() {
    let mut c = ControllerState::new(1);
    c.update_with_event(&InputEvent::ButtonPressed(2, Button::Left));
    c.update_with_event(&InputEvent::AxisMotion(2, 0, 100));
    assert!(!c.button_state(Button::Left));
    assert_eq!(c.axis_value(0), 0);
}

#[test]
fn axis_motion_records_the_value() {
    let mut c = ControllerState::new(0);
    c.update_with_event(&InputEvent::AxisMotion(0, 6, -128));
    assert_eq!(c.axis_value(6), -128);
    assert_eq!(c.axis_value(5), 0);
}

#[test]
fn button_bits_follow_the_button_order() {
    assert_eq!(Button::Left.index(), 0);
    assert_eq!(Button::Right.index(), 7);
    assert_eq!(Button::Confirm.index(), 8);
    assert_eq!(Button::Unmapped.index(), 10);
}

#[test]
fn controller_bytes_roundtrip() {
    let mut c = ControllerState::new(9);
    c.update_with_event(&InputEvent::ButtonPressed(9, Button::Cancel));
    c.update_with_event(&InputEvent::AxisMotion(9, 2, -7));
    let b = c.to_bytes();
    assert_eq!(b.len(), 10);
    assert_eq!(b[0], 9);
    assert_eq!(b[3], (-7i8) as u8);
    assert_eq!(&b[8..10], &[0u8, 2u8]);
    let back = ControllerState::from_bytes(&b);
    assert_eq!(back.id(), 9);
    assert!(back.button_state(Button::Cancel));
    assert_eq!(back.axis_value(2), -7);
}

#[test]
fn game_loop_stops_at_exit() {
    let mut controllers = [ControllerState::new(0), ControllerState::new(0)];
    let events = [
        EngineEvent::InputDevice(DeviceEvent::GameControllerAdded(1)),
        EngineEvent::Input(InputEvent::ButtonPressed(0, Button::Up)),
        EngineEvent::ExitToDesktop,
        EngineEvent::Input(InputEvent::ButtonPressed(0, Button::Down)),
    ];
    let exit = handle_input_events(&events, &mut controllers);
    assert_eq!(exit, Some(EngineEvent::ExitToDesktop));
    assert_eq!(controllers[1].id(), 1);
    assert!(controllers[0].button_state(Button::Up));
    assert!(!controllers[0].button_state(Button::Down));
}

#[test]
fn game_loop_without_exit_returns_none() {
    let mut controllers = [ControllerState::new(0), ControllerState::new(0)];
    let events = [
        EngineEvent::Continue,
        EngineEvent::InputDevice(DeviceEvent::GameControllerRemoved(1)),
    ];
    assert_eq!(handle_input_events(&events, &mut controllers), None);
    assert_eq!(controllers[1].id(), 0);
}

#[test]
fn controller_buttons_map_to_engine_buttons() {
    assert_eq!(button_to_button(PadButton::A), Button::Confirm);
    assert_eq!(button_to_button(PadButton::B), Button::Cancel);
    assert_eq!(button_to_button(PadButton::DPadUp), Button::Up);
    assert_eq!(button_to_button(PadButton::DPadRight), Button::Right);
    assert_eq!(button_to_button(PadButton::Touchpad), Button::Unmapped);
    assert_eq!(keycode_to_button(Keycode::Space), Button::Confirm);
    assert_eq!(keycode_to_button(Keycode::C), Button::Cancel);
    assert_eq!(keycode_to_button(Keycode::Other), Button::Unmapped);
}

#[test]
fn input_system_reports_devices_and_exit() {
    assert_eq!(evaluate_event(&PlatformEvent::Quit), EngineEvent::ExitToDesktop);
    assert_eq!(
        evaluate_event(&PlatformEvent::KeyDown(Some(Keycode::Escape))),
        EngineEvent::ExitToDesktop
    );
    assert_eq!(
        evaluate_event(&PlatformEvent::KeyDown(Some(Keycode::Space))),
        EngineEvent::Continue
    );
    assert_eq!(
        evaluate_event(&PlatformEvent::ControllerButtonDown { which: 257, button: PadButton::A }),
        EngineEvent::Continue
    );
    assert_eq!(
        evaluate_event(&PlatformEvent::ControllerAxisMotion { which: 0, axis: 3, value: 511 }),
        EngineEvent::Continue
    );
    assert_eq!(
        evaluate_event(&PlatformEvent::ControllerDeviceAdded { which: 2 }),
        EngineEvent::InputDevice(DeviceEvent::GameControllerAdded(2))
    );
    assert_eq!(
        evaluate_event(&PlatformEvent::ControllerDeviceRemoved { which: 2 }),
        EngineEvent::InputDevice(DeviceEvent::GameControllerRemoved(2))
    );
    assert_eq!(
        evaluate_event(&PlatformEvent::JoyDeviceAdded { which: 4 }),
        EngineEvent::InputDevice(DeviceEvent::JoystickAdded(4))
    );
    assert_eq!(
        evaluate_event(&PlatformEvent::JoyDeviceRemoved { which: 4 }),
        EngineEvent::InputDevice(DeviceEvent::JoystickRemoved(4))
    );
}

#[test]
fn platform_events_become_engine_events() {
    assert_eq!(evaluate_platform_event(&PlatformEvent::Quit), EngineEvent::ExitToDesktop);
    assert_eq!(
        evaluate_platform_event(&PlatformEvent::KeyDown(Some(Keycode::Escape))),
        EngineEvent::ExitToDesktop
    );
    assert_eq!(
        evaluate_platform_event(&PlatformEvent::KeyDown(Some(Keycode::Space))),
        EngineEvent::Continue
    );
    assert_eq!(
        evaluate_platform_event(&PlatformEvent::ControllerButtonDown {
            which: 257,
            button: PadButton::A
        }),
        EngineEvent::Input(InputEvent::ButtonPressed(1, Button::Confirm))
    );
    assert_eq!(
        evaluate_platform_event(&PlatformEvent::ControllerButtonUp {
            which: 3,
            button: PadButton::DPadLeft
        }),
        EngineEvent::Input(InputEvent::ButtonReleased(3, Button::Left))
    );
    assert_eq!(
        evaluate_platform_event(&PlatformEvent::ControllerAxisMotion {
            which: 0,
            axis: 3,
            value: -32768
        }),
        EngineEvent::Input(InputEvent::AxisMotion(0, 3, -128))
    );
    assert_eq!(
        evaluate_platform_event(&PlatformEvent::ControllerAxisMotion { which: 0, axis: 3, value: 511 }),
        EngineEvent::Input(InputEvent::AxisMotion(0, 3, 1))
    );
    assert_eq!(
        evaluate_platform_event(&PlatformEvent::ControllerDeviceAdded { which: 2 }),
        EngineEvent::InputDevice(DeviceEvent::GameControllerAdded(2))
    );
    assert_eq!(
        evaluate_platform_event(&PlatformEvent::JoyDeviceAdded { which: 4 }),
        EngineEvent::Continue
    );
    assert_eq!(
        evaluate_platform_event(&PlatformEvent::JoyDeviceRemoved { which: 4 }),
        EngineEvent::Continue
    );
}

#[test]
fn polling_stops_at_the_fiftieth_event_even_when_ignored() {
    let mut out = Vec::new();
    let mut polled = 0;
    let mut stopped_at = None;
    for k in 0..100 {
        let event = if k % 2 == 0 { PlatformEvent::Quit } else { PlatformEvent::Other };
        let (n, stop) = pump_step(polled, &event, &mut out);
        polled = n;
        if stop {
            stopped_at = Some(k);
            break;
        }
    }
    assert_eq!(stopped_at, Some(MAX_EVENTS - 1));
    assert_eq!(out.len(), MAX_EVENTS / 2);
}

#[test]
fn a_pump_keeps_at_most_fifty_events() {
    let queue = vec![PlatformEvent::Quit; 70];
    assert_eq!(pump_events(&queue).len(), MAX_EVENTS);
    let mut mixed = vec![PlatformEvent::Other; 49];
    mixed.push(PlatformEvent::Other);
    mixed.push(PlatformEvent::Quit);
    assert!(pump_events(&mixed).is_empty());
    let short = vec![PlatformEvent::Other, PlatformEvent::Quit, PlatformEvent::JoyDeviceAdded { which: 1 }];
    assert_eq!(pump_events(&short), vec![EngineEvent::ExitToDesktop]);
}

#[test]
fn polling_stops_at_the_fiftieth_queued_event() {
    let mut out = Vec::new();
    let mut polled = 0;
    let mut stopped_at = None;
    for k in 0..100 {
        let (n, stop) = pump_step(polled, &PlatformEvent::Quit, &mut out);
        polled = n;
        if stop {
            stopped_at = Some(k);
            break;
        }
    }
    assert_eq!(stopped_at, Some(MAX_EVENTS - 1));
    assert_eq!(out.len(), MAX_EVENTS);
}

#[test]
fn ignored_events_are_not_queued() {
    let mut out = Vec::new();
    let (n, stop) = pump_step(0, &PlatformEvent::Other, &mut out);
    assert_eq!(n, 1);
    assert!(!stop);
    assert!(out.is_empty());
}
