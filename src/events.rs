//! Device events and what the dispatcher publishes for each of them.
use vstd::prelude::*;

verus! {

/// Which ears currently hold an earbud.
#[derive(Clone, Copy, PartialEq, Eq, Structural, Debug)]
pub struct EarDetection {
    pub left_in_ear: bool,
    pub right_in_ear: bool,
}

impl EarDetection {
    pub fn is_left_in_ear(&self) -> (r: bool)
        ensures
            r == self.left_in_ear,
    {
        self.left_in_ear
    }

    pub fn is_right_in_ear(&self) -> (r: bool)
        ensures
            r == self.right_in_ear,
    {
        self.right_in_ear
    }
}

/// A state change of one device, as a producer reports it.
#[derive(Clone, PartialEq, Eq, Debug)]
pub enum AirPodsEvent {
    DeviceConnected,
    DeviceDisconnected,
    /// Battery snapshot, serialized as JSON.
    BatteryUpdated(String),
    /// Name of the new noise-control mode.
    NoiseControlChanged(String),
    /// Ear presence, with its JSON form.
    EarDetectionChanged(EarDetection, String),
    /// The device's new name.
    DeviceNameChanged(String),
    DeviceError,
}

/// One thing the dispatcher publishes or commands, in order.
#[derive(Clone, PartialEq, Eq, Debug)]
pub enum Action {
    /// `device-connected(address)`
    DeviceConnected(String),
    /// `device-disconnected(address)`
    DeviceDisconnected(String),
    /// `battery-updated(address, battery)`
    BatteryUpdated(String, String),
    /// `noise-control-changed(address, mode)`
    NoiseControlChanged(String, String),
    /// `ear-detection-changed(address, ear_detection)`
    EarDetectionChanged(String, String),
    /// `device-name-changed(address, name)`
    DeviceNameChanged(String, String),
    /// `device-error(address)`
    DeviceError(String),
    /// The `devices` property changed.
    DevicesChanged,
    /// The `connected-count` property changed.
    ConnectedCountChanged,
    /// Resume media playback.
    Play,
    /// Pause media playback.
    Pause,
}

/// An [`Action`] with its text as character sequences.
pub enum ActionView {
    DeviceConnected(Seq<char>),
    DeviceDisconnected(Seq<char>),
    BatteryUpdated(Seq<char>, Seq<char>),
    NoiseControlChanged(Seq<char>, Seq<char>),
    EarDetectionChanged(Seq<char>, Seq<char>),
    DeviceNameChanged(Seq<char>, Seq<char>),
    DeviceError(Seq<char>),
    DevicesChanged,
    ConnectedCountChanged,
    Play,
    Pause,
}

impl View for Action {
    type V = ActionView;

    open spec fn view(&self) -> ActionView {
        match self {
            Action::DeviceConnected(a) => ActionView::DeviceConnected(a@),
            Action::DeviceDisconnected(a) => ActionView::DeviceDisconnected(a@),
            Action::BatteryUpdated(a, b) => ActionView::BatteryUpdated(a@, b@),
            Action::NoiseControlChanged(a, m) => ActionView::NoiseControlChanged(a@, m@),
            Action::EarDetectionChanged(a, e) => ActionView::EarDetectionChanged(a@, e@),
            Action::DeviceNameChanged(a, n) => ActionView::DeviceNameChanged(a@, n@),
            Action::DeviceError(a) => ActionView::DeviceError(a@),
            Action::DevicesChanged => ActionView::DevicesChanged,
            Action::ConnectedCountChanged => ActionView::ConnectedCountChanged,
            Action::Play => ActionView::Play,
            Action::Pause => ActionView::Pause,
        }
    }
}

/// Playback resumes only once both earbuds are in.
pub open spec fn both_in_ear(ear: EarDetection) -> bool {
    ear.left_in_ear && ear.right_in_ear
}

/// What the dispatcher publishes, in order, for `event` on the device at
/// `address`: the event's signal, then the property notifications, then for
/// ear detection the playback command.
pub open spec fn actions_for(address: Seq<char>, event: AirPodsEvent) -> Seq<ActionView> {
    match event {
        AirPodsEvent::DeviceConnected => seq![
            ActionView::DeviceConnected(address),
            ActionView::DevicesChanged,
            ActionView::ConnectedCountChanged,
        ],
        AirPodsEvent::DeviceDisconnected => seq![
            ActionView::DeviceDisconnected(address),
            ActionView::DevicesChanged,
            ActionView::ConnectedCountChanged,
        ],
        AirPodsEvent::BatteryUpdated(b) => seq![
            ActionView::BatteryUpdated(address, b@),
            ActionView::DevicesChanged,
        ],
        AirPodsEvent::NoiseControlChanged(m) => seq![
            ActionView::NoiseControlChanged(address, m@),
            ActionView::DevicesChanged,
        ],
        AirPodsEvent::EarDetectionChanged(ear, e) => seq![
            ActionView::EarDetectionChanged(address, e@),
            ActionView::DevicesChanged,
            if both_in_ear(ear) {
                ActionView::Play
            } else {
                ActionView::Pause
            },
        ],
        AirPodsEvent::DeviceNameChanged(n) => seq![
            ActionView::DeviceNameChanged(address, n@),
            ActionView::DevicesChanged,
        ],
        AirPodsEvent::DeviceError => seq![
            ActionView::DeviceError(address),
            ActionView::DevicesChanged,
        ],
    }
}

/// The views of a list of actions.
pub open spec fn views_of(actions: Seq<Action>) -> Seq<ActionView> {
    actions.map_values(|a: Action| a@)
}

/// Whether ear presence calls for playing (else pausing).
pub fn should_play(ear: &EarDetection) -> (r: bool)
    ensures
        r == both_in_ear(*ear),
{
    ear.is_left_in_ear() && ear.is_right_in_ear()
}

/// The actions that one event on the device at `address` calls for, in the
/// order in which they are to be carried out.
pub fn dispatch(address: &String, event: &AirPodsEvent) -> (r: Vec<Action>)
    ensures
        views_of(r@) == actions_for(address@, *event),
        r@.len() == actions_for(address@, *event).len(),
        forall|i: int| 0 <= i < r@.len() ==> #[trigger] r@[i]@ == actions_for(address@, *event)[i],
{
    let mut out: Vec<Action> = Vec::new();
    match event {
        AirPodsEvent::DeviceConnected => {
            out.push(Action::DeviceConnected(address.clone()));
            out.push(Action::DevicesChanged);
            out.push(Action::ConnectedCountChanged);
        },
        AirPodsEvent::DeviceDisconnected => {
            out.push(Action::DeviceDisconnected(address.clone()));
            out.push(Action::DevicesChanged);
            out.push(Action::ConnectedCountChanged);
        },
        AirPodsEvent::BatteryUpdated(battery) => {
            out.push(Action::BatteryUpdated(address.clone(), battery.clone()));
            out.push(Action::DevicesChanged);
        },
        AirPodsEvent::NoiseControlChanged(mode) => {
            out.push(Action::NoiseControlChanged(address.clone(), mode.clone()));
            out.push(Action::DevicesChanged);
        },
        AirPodsEvent::EarDetectionChanged(ear, json) => {
            out.push(Action::EarDetectionChanged(address.clone(), json.clone()));
            out.push(Action::DevicesChanged);
            if should_play(ear) {
                out.push(Action::Play);
            } else {
                out.push(Action::Pause);
            }
        },
        AirPodsEvent::DeviceNameChanged(name) => {
            out.push(Action::DeviceNameChanged(address.clone(), name.clone()));
            out.push(Action::DevicesChanged);
        },
        AirPodsEvent::DeviceError => {
            out.push(Action::DeviceError(address.clone()));
            out.push(Action::DevicesChanged);
        },
    }
    assert(views_of(out@) =~= actions_for(address@, *event));
    assert(forall|i: int| 0 <= i < out@.len() ==> #[trigger] out@[i]@ == views_of(out@)[i]);
    out
}

} // verus!
