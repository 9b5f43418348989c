use vstd::prelude::*;

verus! {

/// Number of analog axes a controller reports.
pub const NUM_AXES: usize = 7;

/// Number of controllers that the game loop tracks.
pub const NUM_CONTROLLERS: usize = 2;

/// Buttons of a game controller, in the order of their bit in the button mask.
#[derive(Debug, Copy, Clone, PartialEq, Eq, Structural)]
pub enum Button {
    Left,
    Up,
    LeftUp,
    RightUp,
    Down,
    LeftDown,
    RightDown,
    Right,
    Confirm,
    Cancel,
    Unmapped,
}

/// The bit that a button occupies in the button mask.
pub open spec fn button_index(button: Button) -> u8 {
    match button {
        Button::Left => 0,
        Button::Up => 1,
        Button::LeftUp => 2,
        Button::RightUp => 3,
        Button::Down => 4,
        Button::LeftDown => 5,
        Button::RightDown => 6,
        Button::Right => 7,
        Button::Confirm => 8,
        Button::Cancel => 9,
        Button::Unmapped => 10,
    }
}

impl Button {
    /// The bit that this button occupies in the button mask.
    pub fn index(&self) -> (idx: u8)
        ensures
            idx == button_index(*self),
            idx < 11,
    {
        match self {
            Button::Left => 0,
            Button::Up => 1,
            Button::LeftUp => 2,
            Button::RightUp => 3,
            Button::Down => 4,
            Button::LeftDown => 5,
            Button::RightDown => 6,
            Button::Right => 7,
            Button::Confirm => 8,
            Button::Cancel => 9,
            Button::Unmapped => 10,
        }
    }
}

/// An input event of the controller with the given id.
#[derive(PartialEq, Eq, Debug, Clone, Copy, Structural)]
pub enum InputEvent {
    ButtonPressed(u8, Button),
    ButtonReleased(u8, Button),
    /// Controller id, axis index, axis value.
    AxisMotion(u8, u8, i8),
}

/// The controller id that an event belongs to.
pub open spec fn event_id(event: InputEvent) -> u8 {
    match event {
        InputEvent::ButtonPressed(id, _) => id,
        InputEvent::ButtonReleased(id, _) => id,
        InputEvent::AxisMotion(id, _, _) => id,
    }
}

impl InputEvent {
    /// The controller id that this event belongs to.
    pub fn id(&self) -> (id: u8)
        ensures
            id == event_id(*self),
    {
        match self {
            InputEvent::ButtonPressed(id, _)
            | InputEvent::ButtonReleased(id, _)
            | InputEvent::AxisMotion(id, _, _) => *id,
        }
    }
}

/// Devices being attached or detached.
#[derive(Debug, PartialEq, Eq, Copy, Clone, Structural)]
pub enum DeviceEvent {
    JoystickAdded(u32),
    JoystickRemoved(u32),
    GameControllerAdded(u32),
    GameControllerRemoved(u32),
}

/// Control flow for the game loop.
#[derive(PartialEq, Eq, Debug, Clone, Copy, Structural)]
pub enum EngineEvent {
    /// Continue execution of the game loop.
    Continue,
    /// Devices being added or removed notify the game loop.
    InputDevice(DeviceEvent),
    /// Input events.
    Input(InputEvent),
    /// The game loop should break and the program exit.
    ExitToDesktop,
}

/// The value of one analog axis.
#[derive(Debug, Copy, Clone, PartialEq, Eq, Structural)]
pub struct Axis {
    value: i8,
}

impl Axis {
    pub closed spec fn spec_value(self) -> i8 {
        self.value
    }

    /// The axis value.
    pub fn value(&self) -> (v: i8)
        ensures
            v == self.spec_value(),
    {
        self.value
    }
}

/// Whether bit `i` of the button mask is set.
pub open spec fn mask_bit(buttons: u16, i: u16) -> bool {
    (buttons >> i) & 1u16 == 1u16
}

/// What a controller state holds: its id, its axis values and its button mask.
#[verifier::ext_equal]
pub struct ControllerView {
    pub id: u8,
    pub axes: Seq<i8>,
    pub buttons: u16,
}

/// The state of one controller: its id, its axes and a mask of pressed buttons.
#[derive(Debug, Copy, Clone)]
pub struct ControllerState {
    id: u8,
    axes: [Axis; 7],
    buttons: u16,
}

impl View for ControllerState {
    type V = ControllerView;

    closed spec fn view(&self) -> ControllerView {
        ControllerView {
            id: self.id,
            axes: Seq::new(7, |i: int| self.axes@[i].value),
            buttons: self.buttons,
        }
    }
}

/// The bytes of axis values.
pub open spec fn axes_bytes(axes: Seq<i8>) -> Seq<u8> {
    axes.map_values(|a: i8| a as u8)
}

/// The ten bytes of a controller state: id, axis values, button mask in
/// little-endian order.
pub open spec fn controller_bytes(s: ControllerView) -> Seq<u8> {
    seq![s.id] + axes_bytes(s.axes) + crate::bytes::u16_le(s.buttons)
}

/// The controller state that ten bytes describe.
pub open spec fn decode_controller(b: Seq<u8>) -> ControllerView {
    ControllerView {
        id: b[0],
        axes: Seq::new(7, |i: int| b[1 + i] as i8),
        buttons: crate::bytes::le_u16(b.subrange(8, 10)),
    }
}

/// Reading the bytes of a state back gives the state.
pub proof fn lemma_controller_bytes_roundtrip(s: ControllerView)
    requires
        s.axes.len() == 7,
    ensures
        controller_bytes(s).len() == 10,
        decode_controller(controller_bytes(s)) == s,
{
    let b = controller_bytes(s);
    assert forall|i: int| 0 <= i < 7 implies (b[1 + i] as i8) == s.axes[i] by {
        let a = s.axes[i];
        assert(b[1 + i] == a as u8);
        assert((a as u8) as i8 == a) by (bit_vector);
    }
    assert(b.subrange(8, 10) =~= crate::bytes::u16_le(s.buttons));
    crate::bytes::lemma_u16_roundtrip(s.buttons);
    assert(decode_controller(b).axes =~= s.axes);
}

/// Every controller state has seven axes.
pub proof fn lemma_seven_axes(s: ControllerState)
    ensures
        s@.axes.len() == NUM_AXES,
{
}

/// Whether `button` is held down in a controller state.
pub open spec fn is_pressed(s: ControllerView, button: Button) -> bool {
    mask_bit(s.buttons, button_index(button) as u16)
}

impl ControllerState {
    /// A controller with the given id, all axes centred and no button held.
    pub fn new(id: u8) -> (s: Self)
        ensures
            s@ == (ControllerView { id, axes: Seq::new(7, |i: int| 0i8), buttons: 0 }),
    {
        let s = Self { id, axes: [Axis { value: 0 };7], buttons: 0b0000000000000000 };
        assert(s@.axes =~= Seq::new(7, |i: int| 0i8));
        s
    }

    /// The controller id.
    pub fn id(&self) -> (id: u8)
        ensures
            id == self@.id,
    {
        self.id
    }

    /// The value of axis `axis`.
    pub fn axis_value(&self, axis: u8) -> (v: i8)
        requires
            axis < 7,
        ensures
            v == self@.axes[axis as int],
    {
        self.axes[axis as usize].value
    }

    /// Fold an input event into the state. Events of other controllers leave it
    /// unchanged; a press sets the button's bit, a release clears it, and an
    /// axis motion records the axis value.
    pub fn update_with_event(&mut self, event: &InputEvent)
        requires
            event_id(*event) == old(self)@.id ==> event_accepted(*event),
        ensures
            final(self)@ == apply_event(old(self)@, *event),
            final(self)@.axes.len() == NUM_AXES,
    {
        if event.id() != self.id {
            return;
        }
        match event {
            InputEvent::ButtonPressed(_, button) => {
                let idx = button.index();
                self.set_button_bit(idx, true);
            },
            InputEvent::ButtonReleased(_, button) => {
                let idx = button.index();
                self.set_button_bit(idx, false);
            },
            InputEvent::AxisMotion(_, axis, value) => {
                let ghost before = self@;
                self.axes[*axis as usize] = Axis { value: *value };
                assert(self@.axes =~= before.axes.update(*axis as int, *value));
            },
        }
    }

    fn set_button_bit(&mut self, button: u8, value: bool)
        requires
            button < 16,
        ensures
            final(self)@.id == old(self)@.id,
            final(self)@.axes == old(self)@.axes,
            final(self)@.buttons == set_bit(old(self)@.buttons, button as u16, value),
    {
        let bit: u16 = 1u16 << (button as u16);
        if value {
            self.buttons = self.buttons | bit;
        } else {
            self.buttons = self.buttons & !bit;
        }
        assert(self@.axes =~= old(self)@.axes);
    }

    /// The ten bytes of the state as it is sent: the id, the seven axis
    /// values, and the button mask in little-endian order.
    pub fn to_bytes(&self) -> (b: Vec<u8>)
        ensures
            b@ == controller_bytes(self@),
    {
        let mut b: Vec<u8> = Vec::new();
        b.push(self.id);
        let mut k: usize = 0;
        while k < NUM_AXES
            invariant
                0 <= k <= NUM_AXES,
                b@ == seq![self.id] + axes_bytes(self@.axes.take(k as int)),
            decreases NUM_AXES - k,
        {
            let ghost before = b@;
            b.push(self.axes[k].value as u8);
            proof {
                assert(self@.axes.take(k + 1).drop_last() =~= self@.axes.take(k as int));
                assert(axes_bytes(self@.axes.take(k + 1)) =~= axes_bytes(self@.axes.take(k as int)).push(
                    self@.axes[k as int] as u8,
                ));
            }
            k = k + 1;
            assert(b@ =~= seq![self.id] + axes_bytes(self@.axes.take(k as int)));
        }
        assert(self@.axes.take(7) =~= self@.axes);
        crate::bytes::push_u16_le(&mut b, self.buttons);
        b
    }

    /// The state that ten bytes sent by `to_bytes` describe.
    pub fn from_bytes(b: &[u8]) -> (s: Self)
        requires
            b@.len() == 10,
        ensures
            s@ == decode_controller(b@),
    {
        let mut axes = [Axis { value: 0 };7];
        let mut k: usize = 0;
        while k < NUM_AXES
            invariant
                0 <= k <= NUM_AXES,
                b@.len() == 10,
                forall|j: int| 0 <= j < k ==> #[trigger] axes@[j].value == b@[1 + j] as i8,
            decreases NUM_AXES - k,
        {
            axes[k] = Axis { value: b[1 + k] as i8 };
            k = k + 1;
        }
        let buttons = crate::bytes::read_u16_le(b, 8);
        let s = ControllerState { id: b[0], axes, buttons };
        assert(s@.axes =~= decode_controller(b@).axes);
        s
    }

    /// Whether `button` is held down.
    pub fn button_state(&self, button: Button) -> (pressed: bool)
        ensures
            pressed == is_pressed(self@, button),
    {
        let idx = button.index() as u16;
        (self.buttons >> idx) & 1u16 == 1u16
    }
}

/// The mask with bit `i` set to `value` and every other bit kept.
pub open spec fn set_bit(buttons: u16, i: u16, value: bool) -> u16 {
    if value {
        buttons | (1u16 << i)
    } else {
        buttons & !(1u16 << i)
    }
}

/// An event that a controller with a matching id can take: axis motions name
/// one of the seven axes.
pub open spec fn event_accepted(event: InputEvent) -> bool {
    match event {
        InputEvent::AxisMotion(_, axis, _) => axis < 7,
        _ => true,
    }
}

/// The state after folding `event` into `s`.
pub open spec fn apply_event(s: ControllerView, event: InputEvent) -> ControllerView {
    if event_id(event) != s.id {
        s
    } else {
        match event {
            InputEvent::ButtonPressed(_, b) => ControllerView {
                buttons: set_bit(s.buttons, button_index(b) as u16, true),
                ..s
            },
            InputEvent::ButtonReleased(_, b) => ControllerView {
                buttons: set_bit(s.buttons, button_index(b) as u16, false),
                ..s
            },
            InputEvent::AxisMotion(_, axis, value) => ControllerView {
                axes: s.axes.update(axis as int, value),
                ..s
            },
        }
    }
}

/// Setting one bit of a button mask sets that bit and keeps every other one.
pub proof fn lemma_set_bit(buttons: u16, i: u16, j: u16, value: bool)
    requires
        i < 16,
        j < 16,
    ensures
        mask_bit(set_bit(buttons, i, value), j) == if i == j { value } else { mask_bit(buttons, j) },
{
    if value {
        assert(((buttons | (1u16 << i)) >> j) & 1u16 == 1u16 <==> (i == j || (buttons >> j) & 1u16
            == 1u16)) by (bit_vector)
            requires
                i < 16,
                j < 16,
        ;
    } else {
        assert(((buttons & !(1u16 << i)) >> j) & 1u16 == 1u16 <==> (i != j && (buttons >> j) & 1u16
            == 1u16)) by (bit_vector)
            requires
                i < 16,
                j < 16,
        ;
    }
}

/// What the game loop does with one engine event to the tracked controllers:
/// a controller added at slot `id` is reset to a fresh controller with that id,
/// one removed is reset to a fresh controller with id zero, and input events go
/// to the first controller.
pub open spec fn engine_step(ctrls: Seq<ControllerView>, event: EngineEvent) -> Seq<ControllerView> {
    match event {
        EngineEvent::InputDevice(DeviceEvent::GameControllerAdded(id)) => ctrls.update(
            id as int,
            fresh_controller(id as u8),
        ),
        EngineEvent::InputDevice(DeviceEvent::GameControllerRemoved(id)) => ctrls.update(
            id as int,
            fresh_controller(0),
        ),
        EngineEvent::Input(ev) => ctrls.update(0, apply_event(ctrls[0], ev)),
        _ => ctrls,
    }
}

/// A controller with the given id, centred axes and no button held.
pub open spec fn fresh_controller(id: u8) -> ControllerView {
    ControllerView { id, axes: Seq::new(7, |i: int| 0i8), buttons: 0 }
}

/// Whether the game loop can take `event` with the controllers in `ctrls`:
/// added or removed game controllers name one of the tracked slots, and input
/// events for the first controller are ones it accepts.
pub open spec fn engine_event_ok(ctrls: Seq<ControllerView>, event: EngineEvent) -> bool {
    match event {
        EngineEvent::InputDevice(DeviceEvent::GameControllerAdded(id)) => id < 2,
        EngineEvent::InputDevice(DeviceEvent::GameControllerRemoved(id)) => id < 2,
        EngineEvent::Input(ev) => event_id(ev) == ctrls[0].id ==> event_accepted(ev),
        _ => true,
    }
}

/// Running the events in order: whether an exit request was met, and the
/// controllers after every event before it.
pub open spec fn run_engine_events(events: Seq<EngineEvent>, ctrls: Seq<ControllerView>) -> (bool, Seq<ControllerView>)
    decreases events.len(),
{
    if events.len() == 0 {
        (false, ctrls)
    } else {
        let (exited, before) = run_engine_events(events.drop_last(), ctrls);
        if exited {
            (true, before)
        } else if events.last() == EngineEvent::ExitToDesktop {
            (true, before)
        } else {
            (false, engine_step(before, events.last()))
        }
    }
}

/// Every event that the loop reaches is one it can take.
pub open spec fn engine_events_ok(events: Seq<EngineEvent>, ctrls: Seq<ControllerView>) -> bool {
    forall|i: int|
        0 <= i < events.len() && !(#[trigger] run_engine_events(events.take(i), ctrls)).0
            ==> engine_event_ok(run_engine_events(events.take(i), ctrls).1, events[i])
}

/// The views of an array of controllers.
pub open spec fn controller_views(ctrls: [ControllerState; 2]) -> Seq<ControllerView> {
    ctrls@.map_values(|c: ControllerState| c@)
}

/// Process a frame's engine events: track controllers being added and removed,
/// feed input events to the first controller, and stop at the first exit
/// request, which is returned.
pub fn handle_input_events(events: &[EngineEvent], controllers: &mut [ControllerState; 2]) -> (exit: Option<EngineEvent>)
    requires
        engine_events_ok(events@, controller_views(*old(controllers))),
    ensures
        exit == (if run_engine_events(events@, controller_views(*old(controllers))).0 {
            Some(EngineEvent::ExitToDesktop)
        } else {
            None
        }),
        controller_views(*final(controllers)) == run_engine_events(
            events@,
            controller_views(*old(controllers)),
        ).1,
{
    let ghost start = controller_views(*controllers);
    let mut i: usize = 0;
    while i < events.len()
        invariant
            0 <= i <= events.len(),
            start == controller_views(*old(controllers)),
            engine_events_ok(events@, start),
            run_engine_events(events@.take(i as int), start) == (false, controller_views(*controllers)),
        decreases events.len() - i,
    {
        let event = events[i];
        assert(events@.take(i + 1).drop_last() =~= events@.take(i as int));
        assert(events@.take(i + 1).last() == event);
        let ghost before = controller_views(*controllers);
        assert(engine_event_ok(before, event));
        match event {
            EngineEvent::InputDevice(DeviceEvent::GameControllerAdded(id)) => {
                controllers[id as usize] = ControllerState::new(id as u8);
                assert(controller_views(*controllers) =~= engine_step(before, event));
            },
            EngineEvent::InputDevice(DeviceEvent::GameControllerRemoved(id)) => {
                controllers[id as usize] = ControllerState::new(0);
                assert(controller_views(*controllers) =~= engine_step(before, event));
            },
            EngineEvent::Input(input_event) => {
                let mut first = controllers[0];
                first.update_with_event(&input_event);
                controllers[0] = first;
                assert(controller_views(*controllers) =~= engine_step(before, event));
            },
            EngineEvent::ExitToDesktop => {
                proof {
                    lemma_run_exited_stays(events@, start, (i + 1) as int);
                    assert(events@.take(events@.len() as int) =~= events@);
                }
                return Some(EngineEvent::ExitToDesktop);
            },
            _ => {},
        }
        i = i + 1;
    }
    assert(events@.take(events@.len() as int) =~= events@);
    None
}

/// Once an exit request has been met, later events change nothing.
pub proof fn lemma_run_exited_stays(events: Seq<EngineEvent>, ctrls: Seq<ControllerView>, k: int)
    requires
        0 <= k <= events.len(),
        run_engine_events(events.take(k), ctrls).0,
    ensures
        run_engine_events(events, ctrls) == run_engine_events(events.take(k), ctrls),
    decreases events.len() - k,
{
    if k < events.len() {
        assert(events.take(k + 1).drop_last() =~= events.take(k));
        lemma_run_exited_stays(events, ctrls, k + 1);
    } else {
        assert(events.take(k) =~= events);
    }
}

/// A press of a controller's button leaves that button held and a release
/// leaves it up; neither changes any other button, the axes or the id.
pub proof fn lemma_press_and_release(s: ControllerView, b: Button, other: Button)
    ensures
        is_pressed(apply_event(s, InputEvent::ButtonPressed(s.id, b)), b),
        !is_pressed(apply_event(s, InputEvent::ButtonReleased(s.id, b)), b),
        other != b ==> is_pressed(apply_event(s, InputEvent::ButtonPressed(s.id, b)), other)
            == is_pressed(s, other),
        other != b ==> is_pressed(apply_event(s, InputEvent::ButtonReleased(s.id, b)), other)
            == is_pressed(s, other),
        apply_event(s, InputEvent::ButtonPressed(s.id, b)).axes == s.axes,
        apply_event(s, InputEvent::ButtonReleased(s.id, b)).axes == s.axes,
{
    let i = button_index(b) as u16;
    let j = button_index(other) as u16;
    lemma_set_bit(s.buttons, i, i, true);
    lemma_set_bit(s.buttons, i, i, false);
    lemma_set_bit(s.buttons, i, j, true);
    lemma_set_bit(s.buttons, i, j, false);
}

/// Events of another controller leave a controller state unchanged.
pub proof fn lemma_other_controller_ignored(s: ControllerView, event: InputEvent)
    requires
        event_id(event) != s.id,
    ensures
        apply_event(s, event) == s,
{
}

/// A fresh controller has no button held.
pub proof fn lemma_new_controller_released(id: u8, b: Button)
    ensures
        !is_pressed(ControllerView { id, axes: Seq::new(7, |i: int| 0i8), buttons: 0 }, b),
{
    let j = button_index(b) as u16;
    assert((0u16 >> j) & 1u16 == 0u16) by (bit_vector);
}

} // verus!
