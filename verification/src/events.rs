//! The engine events that the events of the windowing system map to, and
//! the bookkeeping of one round of polling. Polling the system and opening
//! the devices that it announces stay with the caller.
use crate::input::{Button, DeviceEvent, EngineEvent, InputEvent};
use vstd::prelude::*;

verus! {

/// The most events taken from the system in one round of polling.
pub const MAX_EVENTS: usize = 50;

/// Keys of the keyboard, as far as the engine tells them apart.
#[derive(Debug, Clone, Copy, PartialEq, Eq, Structural)]
pub enum Keycode {
    Escape,
    Space,
    C,
    Up,
    Down,
    Left,
    Right,
    Other,
}

/// Buttons of a game controller.
#[derive(Debug, Clone, Copy, PartialEq, Eq, Structural)]
pub enum PadButton {
    A,
    B,
    X,
    Y,
    Back,
    Guide,
    Start,
    LeftStick,
    RightStick,
    LeftShoulder,
    RightShoulder,
    DPadUp,
    DPadDown,
    DPadLeft,
    DPadRight,
    Misc1,
    Paddle1,
    Paddle2,
    Paddle3,
    Paddle4,
    Touchpad,
}

/// Events of the windowing system, as far as the engine reads them.
#[derive(Debug, Clone, Copy, PartialEq, Eq, Structural)]
pub enum PlatformEvent {
    Quit,
    KeyDown(Option<Keycode>),
    KeyUp(Option<Keycode>),
    ControllerButtonDown { which: u32, button: PadButton },
    ControllerButtonUp { which: u32, button: PadButton },
    /// The controller, the index of the axis, and its raw value.
    ControllerAxisMotion { which: u32, axis: u8, value: i16 },
    ControllerDeviceAdded { which: u32 },
    ControllerDeviceRemoved { which: u32 },
    JoyDeviceAdded { which: u32 },
    JoyDeviceRemoved { which: u32 },
    Other,
}

/// The engine button of a controller button: the face buttons confirm and
/// cancel, the directional pad steers, the rest are unmapped.
pub open spec fn spec_button_to_button(b: PadButton) -> Button {
    match b {
        PadButton::A => Button::Confirm,
        PadButton::B => Button::Cancel,
        PadButton::DPadUp => Button::Up,
        PadButton::DPadDown => Button::Down,
        PadButton::DPadLeft => Button::Left,
        PadButton::DPadRight => Button::Right,
        _ => Button::Unmapped,
    }
}

/// The engine button of a key: space confirms, `C` cancels, the arrow keys
/// steer, the rest are unmapped.
pub open spec fn spec_keycode_to_button(k: Keycode) -> Button {
    match k {
        Keycode::Space => Button::Confirm,
        Keycode::C => Button::Cancel,
        Keycode::Up => Button::Up,
        Keycode::Down => Button::Down,
        Keycode::Left => Button::Left,
        Keycode::Right => Button::Right,
        _ => Button::Unmapped,
    }
}

/// The engine button of a controller button.
pub fn button_to_button(button: PadButton) -> (b: Button)
    ensures
        b == spec_button_to_button(button),
{
    match button {
        PadButton::A => Button::Confirm,
        PadButton::B => Button::Cancel,
        PadButton::X => Button::Unmapped,
        PadButton::Y => Button::Unmapped,
        PadButton::Back => Button::Unmapped,
        PadButton::Guide => Button::Unmapped,
        PadButton::Start => Button::Unmapped,
        PadButton::LeftStick => Button::Unmapped,
        PadButton::RightStick => Button::Unmapped,
        PadButton::LeftShoulder => Button::Unmapped,
        PadButton::RightShoulder => Button::Unmapped,
        PadButton::DPadUp => Button::Up,
        PadButton::DPadDown => Button::Down,
        PadButton::DPadLeft => Button::Left,
        PadButton::DPadRight => Button::Right,
        PadButton::Misc1 => Button::Unmapped,
        PadButton::Paddle1 => Button::Unmapped,
        PadButton::Paddle2 => Button::Unmapped,
        PadButton::Paddle3 => Button::Unmapped,
        PadButton::Paddle4 => Button::Unmapped,
        PadButton::Touchpad => Button::Unmapped,
    }
}

/// The engine button of a key.
pub fn keycode_to_button(key: Keycode) -> (b: Button)
    ensures
        b == spec_keycode_to_button(key),
{
    match key {
        Keycode::Escape => Button::Unmapped,
        Keycode::Space => Button::Confirm,
        Keycode::C => Button::Cancel,
        Keycode::Up => Button::Up,
        Keycode::Down => Button::Down,
        Keycode::Left => Button::Left,
        Keycode::Right => Button::Right,
        Keycode::Other => Button::Unmapped,
    }
}

/// The controller id that an event of controller `which` carries: its low
/// eight bits.
pub open spec fn controller_id(which: u32) -> u8 {
    (which % 256) as u8
}

/// The axis value that the engine reads: the high byte of the raw value.
pub open spec fn axis_byte(value: i16) -> i8 {
    ((value as int) / 256) as i8
}

/// How the input system reads a system event: leaving on quit or escape;
/// controllers and joysticks added or removed; nothing for the rest, the
/// button and axis events of controllers included.
pub open spec fn spec_evaluate_event(event: PlatformEvent) -> EngineEvent {
    match event {
        PlatformEvent::Quit => EngineEvent::ExitToDesktop,
        PlatformEvent::KeyDown(Some(Keycode::Escape)) => EngineEvent::ExitToDesktop,
        PlatformEvent::ControllerDeviceAdded { which } => EngineEvent::InputDevice(
            DeviceEvent::GameControllerAdded(which),
        ),
        PlatformEvent::ControllerDeviceRemoved { which } => EngineEvent::InputDevice(
            DeviceEvent::GameControllerRemoved(which),
        ),
        PlatformEvent::JoyDeviceAdded { which } => EngineEvent::InputDevice(
            DeviceEvent::JoystickAdded(which),
        ),
        PlatformEvent::JoyDeviceRemoved { which } => EngineEvent::InputDevice(
            DeviceEvent::JoystickRemoved(which),
        ),
        _ => EngineEvent::Continue,
    }
}

/// How the platform context reads a system event: leaving on quit or escape;
/// button and axis events of controllers; game controllers added or removed;
/// nothing for the rest, joysticks and other keys included.
pub open spec fn spec_evaluate_platform_event(event: PlatformEvent) -> EngineEvent {
    match event {
        PlatformEvent::Quit => EngineEvent::ExitToDesktop,
        PlatformEvent::KeyDown(Some(Keycode::Escape)) => EngineEvent::ExitToDesktop,
        PlatformEvent::ControllerButtonDown { which, button } => EngineEvent::Input(
            InputEvent::ButtonPressed(controller_id(which), spec_button_to_button(button)),
        ),
        PlatformEvent::ControllerButtonUp { which, button } => EngineEvent::Input(
            InputEvent::ButtonReleased(controller_id(which), spec_button_to_button(button)),
        ),
        PlatformEvent::ControllerAxisMotion { which, axis, value } => EngineEvent::Input(
            InputEvent::AxisMotion(controller_id(which), axis, axis_byte(value)),
        ),
        PlatformEvent::ControllerDeviceAdded { which } => EngineEvent::InputDevice(
            DeviceEvent::GameControllerAdded(which),
        ),
        PlatformEvent::ControllerDeviceRemoved { which } => EngineEvent::InputDevice(
            DeviceEvent::GameControllerRemoved(which),
        ),
        _ => EngineEvent::Continue,
    }
}

/// The high byte of a raw axis value.
fn axis_high_byte(value: i16) -> (b: i8)
    ensures
        b == axis_byte(value),
{
    let v = value >> 8u32;
    assert(v == (value as int) / 256) by (bit_vector)
        requires
            v == value >> 8u32,
    ;
    v as i8
}

/// The engine event that the input system raises for a system event. Opening
/// an added controller or joystick stays with the caller.
pub fn evaluate_event(event: &PlatformEvent) -> (e: EngineEvent)
    ensures
        e == spec_evaluate_event(*event),
{
    match event {
        PlatformEvent::Quit | PlatformEvent::KeyDown(Some(Keycode::Escape)) => EngineEvent::ExitToDesktop,
        PlatformEvent::ControllerDeviceAdded { which } => EngineEvent::InputDevice(
            DeviceEvent::GameControllerAdded(*which),
        ),
        PlatformEvent::ControllerDeviceRemoved { which } => EngineEvent::InputDevice(
            DeviceEvent::GameControllerRemoved(*which),
        ),
        PlatformEvent::JoyDeviceAdded { which } => EngineEvent::InputDevice(
            DeviceEvent::JoystickAdded(*which),
        ),
        PlatformEvent::JoyDeviceRemoved { which } => EngineEvent::InputDevice(
            DeviceEvent::JoystickRemoved(*which),
        ),
        _ => EngineEvent::Continue,
    }
}

/// The engine event that the platform context raises for a system event.
/// Opening an added controller stays with the caller.
pub fn evaluate_platform_event(event: &PlatformEvent) -> (e: EngineEvent)
    ensures
        e == spec_evaluate_platform_event(*event),
{
    match event {
        PlatformEvent::Quit | PlatformEvent::KeyDown(Some(Keycode::Escape)) => EngineEvent::ExitToDesktop,
        PlatformEvent::ControllerButtonDown { which, button } => EngineEvent::Input(
            InputEvent::ButtonPressed((*which % 256) as u8, button_to_button(*button)),
        ),
        PlatformEvent::ControllerButtonUp { which, button } => EngineEvent::Input(
            InputEvent::ButtonReleased((*which % 256) as u8, button_to_button(*button)),
        ),
        PlatformEvent::ControllerAxisMotion { which, axis, value } => EngineEvent::Input(
            InputEvent::AxisMotion((*which % 256) as u8, *axis, axis_high_byte(*value)),
        ),
        PlatformEvent::ControllerDeviceAdded { which } => EngineEvent::InputDevice(
            DeviceEvent::GameControllerAdded(*which),
        ),
        PlatformEvent::ControllerDeviceRemoved { which } => EngineEvent::InputDevice(
            DeviceEvent::GameControllerRemoved(*which),
        ),
        _ => EngineEvent::Continue,
    }
}

/// The engine events of the polled events `polled`, in order, `Continue`
/// left out.
pub open spec fn kept_events(polled: Seq<PlatformEvent>) -> Seq<EngineEvent>
    decreases polled.len(),
{
    if polled.len() == 0 {
        Seq::empty()
    } else {
        let e = spec_evaluate_platform_event(polled.last());
        let rest = kept_events(polled.drop_last());
        if e is Continue {
            rest
        } else {
            rest.push(e)
        }
    }
}

/// There are no more kept events than polled ones.
pub proof fn lemma_kept_events_len(polled: Seq<PlatformEvent>)
    ensures
        kept_events(polled).len() <= polled.len(),
    decreases polled.len(),
{
    if polled.len() > 0 {
        lemma_kept_events_len(polled.drop_last());
    }
}

/// Take the next polled event, the `polled`-th so far: its engine event is
/// queued unless it is `Continue`, and polling stops once `MAX_EVENTS` events
/// have been polled, whatever the last of them was.
pub fn pump_step(polled: usize, event: &PlatformEvent, outgoing: &mut Vec<EngineEvent>) -> (r: (usize, bool))
    requires
        polled < usize::MAX,
    ensures
        r.0 == polled + 1,
        r.1 == (polled + 1 >= MAX_EVENTS),
        spec_evaluate_platform_event(*event) is Continue ==> final(outgoing)@ == old(outgoing)@,
        !(spec_evaluate_platform_event(*event) is Continue) ==> final(outgoing)@ == old(
            outgoing,
        )@.push(spec_evaluate_platform_event(*event)),
{
    let count = polled + 1;
    let e = evaluate_platform_event(event);
    if !matches!(e, EngineEvent::Continue) {
        outgoing.push(e);
    }
    (count, count >= MAX_EVENTS)
}

/// One round of polling over the events that the system hands out, in
/// order: the engine events of at most the first `MAX_EVENTS` of them,
/// `Continue` left out. Events after those stay unread.
pub fn pump_events(queue: &[PlatformEvent]) -> (out: Vec<EngineEvent>)
    ensures
        out@ == kept_events(queue@.take(
            if queue@.len() < MAX_EVENTS { queue@.len() as int } else { MAX_EVENTS as int },
        )),
        out@.len() <= MAX_EVENTS,
{
    let mut out: Vec<EngineEvent> = Vec::new();
    let mut polled: usize = 0;
    while polled < queue.len()
        invariant_except_break
            polled < MAX_EVENTS,
        invariant
            polled <= queue@.len(),
            out@ == kept_events(queue@.take(polled as int)),
        ensures
            polled == (if queue@.len() < MAX_EVENTS { queue@.len() } else { MAX_EVENTS as nat }),
            out@ == kept_events(queue@.take(polled as int)),
        decreases queue@.len() - polled,
    {
        proof {
            let next = queue@.take(polled as int + 1);
            assert(queue@.take(polled as int) =~= next.drop_last());
            assert(next.last() == queue@[polled as int]);
        }
        let (n, stop) = pump_step(polled, &queue[polled], &mut out);
        polled = n;
        if stop {
            break;
        }
    }
    proof {
        lemma_kept_events_len(queue@.take(polled as int));
    }
    out
}

/// Each button of the directional pad maps to the engine direction of the
/// same name and no other button does; `A` alone confirms and `B` alone
/// cancels; every other button is unmapped.
pub proof fn lemma_pad_buttons_keep_their_meaning(b: PadButton)
    ensures
        spec_button_to_button(b) == Button::Up <==> b == PadButton::DPadUp,
        spec_button_to_button(b) == Button::Down <==> b == PadButton::DPadDown,
        spec_button_to_button(b) == Button::Left <==> b == PadButton::DPadLeft,
        spec_button_to_button(b) == Button::Right <==> b == PadButton::DPadRight,
        spec_button_to_button(b) == Button::Confirm <==> b == PadButton::A,
        spec_button_to_button(b) == Button::Cancel <==> b == PadButton::B,
        spec_button_to_button(b) is Unmapped || spec_button_to_button(b) is Up
            || spec_button_to_button(b) is Down || spec_button_to_button(b) is Left
            || spec_button_to_button(b) is Right || spec_button_to_button(b) is Confirm
            || spec_button_to_button(b) is Cancel,
{
}

/// Each arrow key maps to the engine direction of the same name and no other
/// key does; space alone confirms and `C` alone cancels.
pub proof fn lemma_keys_keep_their_meaning(k: Keycode)
    ensures
        spec_keycode_to_button(k) == Button::Up <==> k == Keycode::Up,
        spec_keycode_to_button(k) == Button::Down <==> k == Keycode::Down,
        spec_keycode_to_button(k) == Button::Left <==> k == Keycode::Left,
        spec_keycode_to_button(k) == Button::Right <==> k == Keycode::Right,
        spec_keycode_to_button(k) == Button::Confirm <==> k == Keycode::Space,
        spec_keycode_to_button(k) == Button::Cancel <==> k == Keycode::C,
{
}

/// A controller button event of the platform becomes a press or release of
/// that controller's engine button, with the direction of a directional-pad
/// button kept.
pub proof fn lemma_platform_pad_press(which: u32, b: PadButton)
    ensures
        spec_evaluate_platform_event(PlatformEvent::ControllerButtonDown { which, button: b })
            matches EngineEvent::Input(InputEvent::ButtonPressed(id, eb)) && id == which % 256
            && eb == spec_button_to_button(b),
        spec_evaluate_platform_event(PlatformEvent::ControllerButtonUp { which, button: b })
            matches EngineEvent::Input(InputEvent::ButtonReleased(id, eb)) && id == which % 256
            && eb == spec_button_to_button(b),
        b == PadButton::DPadDown ==> spec_evaluate_platform_event(
            PlatformEvent::ControllerButtonDown { which, button: b },
        ) == EngineEvent::Input(InputEvent::ButtonPressed((which % 256) as u8, Button::Down)),
{
}

} // verus!
