//! The tray: what a click does, what the icon and the strip show, and how patiently the icon is
//! registered.
use crate::audio::{self, Device, DeviceId, Flow};
use crate::config::Config;
use crate::flyout::model;
use crate::flyout::{Outcome, Trigger};
use crate::icons::IconId;
use crate::music::smtc::Command;
use crate::taskbar::{self, Action, StripIcons};
use crate::text;
use vstd::prelude::*;

verus! {

/// The tooltip the icon is registered with. The system keeps the icon's place by it, so it never
/// changes.
pub const INITIAL_TOOLTIP: &'static str = "Audio output";

/// The tooltip shown for a device.
pub open spec fn tooltip_text(device: Seq<char>) -> Seq<char> {
    device + " — "@ + taskbar::TRAY_MARKER@
}

/// The tooltip shown for a device: its name, and the marker by which the strip finds the icon.
pub fn tooltip_for(device: &str) -> (r: String)
    ensures
        r@ == tooltip_text(device@),
{
    let mut out = String::new();
    out.append(device);
    out.append(" — ");
    out.append(taskbar::TRAY_MARKER);
    proof {
        assert(out@ =~= tooltip_text(device@));
    }
    out
}

/// Whatever a device is called, its tooltip can be found by the marker.
pub proof fn law_every_tooltip_holds_the_marker(device: Seq<char>)
    ensures
        text::occurs_in(tooltip_text(device), taskbar::TRAY_MARKER@),
{
    let at = (device + " — "@).len() as int;
    let t = tooltip_text(device);
    assert(t.subrange(at, at + taskbar::TRAY_MARKER@.len()) =~= taskbar::TRAY_MARKER@);
    assert(text::occurs_at(t, taskbar::TRAY_MARKER@, at));
}

// The cycle.

/// What a click on one of the strip's buttons does to its endpoint.
#[derive(Debug, Clone, Copy, PartialEq, Eq, Structural)]
pub enum Step {
    /// There is no device.
    Nothing,
    /// Mute the default, which stays.
    Mute,
    /// Go to a device: make it the default unless it is, then unmute the one that was left, and
    /// unmute this one.
    Go { to: usize, set_default: bool, unmute_left: bool },
}

/// Where a click goes from the device at `at`: to the next one; from the last to mute; from mute to
/// the next one, which after the last is the first; and to the first where it is not known where it
/// stands.
pub open spec fn next_stop(n: int, at: Option<int>, muted: bool) -> Option<int> {
    match at {
        None => Some(0),
        Some(i) => if muted {
            Some(if i + 1 == n {
                0
            } else {
                i + 1
            })
        } else if i + 1 == n {
            None
        } else {
            Some(i + 1)
        },
    }
}

/// Whether `at` is the place of the current default among the devices.
pub open spec fn is_place(devices: Seq<Device>, current: Option<Seq<char>>, at: Option<int>) -> bool {
    match at {
        Some(i) => 0 <= i < devices.len() && current == Some(devices[i].id.0@) && forall|j: int|
            0 <= j < i ==> current != Some((#[trigger] devices[j]).id.0@),
        None => forall|j: int|
            0 <= j < devices.len() ==> current != Some((#[trigger] devices[j]).id.0@),
    }
}

/// The place of the current default among the devices, if it is one of them.
pub open spec fn place_of(devices: Seq<Device>, current: Option<Seq<char>>) -> Option<int> {
    choose|at: Option<int>| is_place(devices, current, at)
}

/// What a click does, the default standing at `at`.
pub open spec fn step_from(
    devices: Seq<Device>,
    current: Option<Seq<char>>,
    at: Option<int>,
    muted: bool,
) -> Step {
    if devices.len() == 0 {
        Step::Nothing
    } else {
        match next_stop(devices.len() as int, at, muted) {
            None => Step::Mute,
            Some(to) => {
                let elsewhere = current != Some(devices[to].id.0@);
                Step::Go {
                    to: to as usize,
                    set_default: elsewhere,
                    unmute_left: muted && current is Some && elsewhere,
                }
            },
        }
    }
}

/// What a left click on one of the strip's buttons does, given the active devices, the default, and
/// whether that is muted. The stops are the devices, each unmuted, and one muted stop between the
/// last device and the wrap.
pub fn cycle(devices: &[Device], current: &Option<DeviceId>, muted: bool) -> (r: Step)
    ensures
        r == step_from(
            devices@,
            audio::id_view(*current),
            place_of(devices@, audio::id_view(*current)),
            muted,
        ),
{
    let at = match current {
        Some(id) => audio::position_of(devices, id),
        None => None,
    };
    let ghost place: Option<int> = match at {
        Some(i) => Some(i as int),
        None => None,
    };
    proof {
        assert(is_place(devices@, audio::id_view(*current), place));
        lemma_place_is_unique(devices@, audio::id_view(*current), place);
    }
    let n: usize = devices.len();
    if n == 0 {
        return Step::Nothing;
    }
    let to: usize = match at {
        None => 0,
        Some(i) => if muted {
            if i + 1 == n {
                0
            } else {
                i + 1
            }
        } else if i + 1 == n {
            return Step::Mute;
        } else {
            i + 1
        },
    };
    let elsewhere = !model::is_id(current, &devices[to].id);
    Step::Go {
        to,
        set_default: elsewhere,
        unmute_left: muted && current.is_some() && elsewhere,
    }
}

/// There is only one place the default can have.
pub proof fn lemma_place_is_unique(devices: Seq<Device>, current: Option<Seq<char>>, at: Option<int>)
    requires
        is_place(devices, current, at),
    ensures
        place_of(devices, current) == at,
{
    let other = place_of(devices, current);
    assert(is_place(devices, current, other));
    if let Some(i) = at {
        if let Some(j) = other {
            if i < j {
                assert(current != Some(devices[i].id.0@));
            }
            if j < i {
                assert(current != Some(devices[j].id.0@));
            }
        } else {
            assert(current != Some(devices[i].id.0@));
        }
    } else if let Some(j) = other {
        assert(current != Some(devices[j].id.0@));
    }
}

/// One direction's endpoints as the cycle sees them: which is the default, and which are muted.
pub struct Endpoints {
    pub default: int,
    pub muted: Seq<bool>,
}

/// What a click makes of the endpoints.
pub open spec fn after_click(s: Endpoints) -> Endpoints {
    match next_stop(s.muted.len() as int, Some(s.default), s.muted[s.default]) {
        None => Endpoints { default: s.default, muted: s.muted.update(s.default, true) },
        Some(to) => Endpoints {
            default: to,
            muted: s.muted.update(s.default, false).update(to, false),
        },
    }
}

/// What a run of clicks makes of the endpoints.
pub open spec fn after_clicks(s: Endpoints, clicks: nat) -> Endpoints
    decreases clicks,
{
    if clicks == 0 {
        s
    } else {
        after_click(after_clicks(s, (clicks - 1) as nat))
    }
}

/// The steps of a click, carried out, are what the cycle says: where no two devices share an id, the
/// default moves as it says, the device that was left is unmuted if it was muted, and so is the one
/// that is gone to.
pub proof fn law_a_step_does_what_the_cycle_says(devices: Seq<Device>, s: Endpoints)
    requires
        devices.len() == s.muted.len(),
        0 <= s.default < devices.len() <= usize::MAX,
        forall|i: int, j: int|
            0 <= i < j < devices.len() ==> (#[trigger] devices[i]).id.0@ != (
            #[trigger] devices[j]).id.0@,
    ensures
        ({
            let muted = s.muted[s.default];
            let next = after_click(s);
            let current = Some(devices[s.default].id.0@);
            match step_from(devices, current, place_of(devices, current), muted) {
                Step::Nothing => false,
                Step::Mute => next.default == s.default && next.muted == s.muted.update(
                    s.default,
                    true,
                ),
                Step::Go { to, set_default, unmute_left } => {
                    let left = if unmute_left {
                        s.muted.update(s.default, false)
                    } else {
                        s.muted
                    };
                    &&& next.default == to
                    &&& set_default <==> to != s.default
                    &&& next.muted == left.update(to as int, false)
                },
            }
        }),
{
    assert(is_place(devices, Some(devices[s.default].id.0@), Some(s.default))) by {
        assert forall|j: int| 0 <= j < s.default implies Some(devices[s.default].id.0@) != Some(
            (#[trigger] devices[j]).id.0@,
        ) by {
            assert(devices[j].id.0@ != devices[s.default].id.0@);
        }
    }
    lemma_place_is_unique(devices, Some(devices[s.default].id.0@), Some(s.default));
    let muted = s.muted[s.default];
    if let Some(to) = next_stop(devices.len() as int, Some(s.default), muted) {
        if to < s.default {
            assert(devices[to].id.0@ != devices[s.default].id.0@);
        } else if s.default < to {
            assert(devices[s.default].id.0@ != devices[to].id.0@);
        }
        let left = if muted && to != s.default {
            s.muted.update(s.default, false)
        } else {
            s.muted
        };
        assert(after_click(s).muted =~= left.update(to, false));
    }
}

/// Where a run of clicks leads that starts on the first device with nothing muted: through the
/// devices in order, each unmuted, then to the last one muted, and back to the first. One round is
/// one click more than there are devices, so with a single device it is mute and unmute.
pub proof fn law_the_cycle_visits_every_device_and_mute(n: nat, clicks: nat)
    requires
        n > 0,
    ensures
        ({
            let start = Endpoints { default: 0, muted: Seq::new(n, |i: int| false) };
            let s = after_clicks(start, clicks);
            let stop = clicks % (n + 1);
            &&& s.muted.len() == n
            &&& stop < n ==> s.default == stop && s.muted == Seq::new(n, |i: int| false)
            &&& stop == n ==> s.default == n - 1 && s.muted == Seq::new(n, |i: int| i == n - 1)
        }),
    decreases clicks,
{
    let start = Endpoints { default: 0, muted: Seq::new(n, |i: int| false) };
    if clicks > 0 {
        let before = (clicks - 1) as nat;
        law_the_cycle_visits_every_device_and_mute(n, before);
        let was = after_clicks(start, before);
        let is = after_click(was);
        let stop = before % (n + 1);
        assert(clicks % (n + 1) == if stop == n {
            0
        } else {
            stop + 1
        }) by (nonlinear_arith)
            requires
                clicks == before + 1,
                stop == before % (n + 1),
                n > 0,
        {
            let m = (n + 1) as int;
            let q = before as int / m;
            assert(before == m * q + stop);
            if stop == n {
                assert(clicks == m * (q + 1));
                assert(clicks as int % m == 0);
            } else {
                assert(clicks == m * q + (stop + 1));
                assert(clicks as int % m == stop + 1);
            }
        }
        if stop == n {
            assert(is.muted =~= Seq::new(n, |i: int| false));
        } else if stop == n - 1 {
            assert(is.muted =~= Seq::new(n, |i: int| i == n - 1));
        } else {
            assert(is.muted =~= Seq::new(n, |i: int| false));
        }
    }
}

/// The cycle never leaves a muted device behind, and lands on a muted one only at the muted stop: if
/// nothing but the default was muted before a click, so it is after, and if the default is muted
/// after, it is the last device and was not muted before.
pub proof fn law_no_muted_device_is_left_behind(s: Endpoints, i: int)
    requires
        0 <= s.default < s.muted.len(),
        forall|j: int| 0 <= j < s.muted.len() && j != s.default ==> !#[trigger] s.muted[j],
        0 <= i < s.muted.len(),
    ensures
        ({
            let next = after_click(s);
            &&& 0 <= next.default < s.muted.len()
            &&& i != next.default ==> !next.muted[i]
            &&& next.muted[next.default] ==> next.default == s.muted.len() - 1 && next.default
                == s.default && !s.muted[s.default]
        }),
{
}

// Clicks.

/// How long after the flyout closed a click still counts as the one that closed it, in milliseconds.
pub const SETTLE_MS: u64 = 350;

/// The clicks that are still the flyout's own.
#[derive(Debug, Clone, Copy, PartialEq, Eq, Structural)]
pub struct ClickGuard {
    /// Clicks before this moment are ignored.
    pub until: u64,
}

/// Whether a click on the tray icon opens the flyout: not the one that closed it, and a left one only
/// without a strip.
pub open spec fn icon_opens(until: u64, click: Trigger, strip_up: bool, now: u64) -> bool {
    until <= now && (click == Trigger::RightClick || !strip_up)
}

impl ClickGuard {
    /// From this moment on every click counts.
    pub fn new(now: u64) -> (r: ClickGuard)
        ensures
            r.until == now,
    {
        ClickGuard { until: now }
    }

    /// The flyout has just closed.
    pub fn settle(&mut self, now: u64)
        ensures
            final(self).until == (if now + SETTLE_MS <= u64::MAX {
                (now + SETTLE_MS) as u64
            } else {
                u64::MAX
            }),
    {
        self.until = now.saturating_add(SETTLE_MS);
    }

    /// Whether a click at this moment counts.
    pub fn accepts(&self, now: u64) -> (r: bool)
        ensures
            r == (self.until <= now),
    {
        now >= self.until
    }

    /// What a gesture on the strip comes to: nothing for a number that stands for none, or for the
    /// click that closed the flyout.
    pub fn strip_gesture(&self, code: usize, now: u64) -> (r: Option<Action>)
        ensures
            match r {
                Some(a) => a.code_view() == code && self.until <= now,
                None => now < self.until || forall|a: Action| #[trigger] a.code_view() != code,
            },
    {
        if now < self.until {
            return None;
        }
        Action::from_code(code)
    }

    /// Whether a click on the tray icon opens the flyout. The right one always does. The left one
    /// does only without a strip: with one, the same click also reaches the strip, which acts on it.
    pub fn opens_panel(&self, click: Trigger, strip_up: bool, now: u64) -> (r: bool)
        ensures
            r == icon_opens(self.until, click, strip_up, now),
    {
        if now < self.until {
            return false;
        }
        match click {
            Trigger::LeftClick => !strip_up,
            Trigger::RightClick => true,
        }
    }
}

/// A message of the tray's loop.
#[derive(Debug, Clone, Copy, PartialEq, Eq, Structural)]
pub enum Message {
    /// An endpoint changed.
    AudioRefresh,
    /// The wheel turned over the taskbar.
    VolumeStep { up: bool },
    /// A gesture on the strip, by its number.
    Gesture { code: usize },
    /// The wheel turned over one of the strip's buttons.
    Scrolled { flow: usize, delta: i32 },
    /// An app took or let go of the microphone.
    MicChanged,
    /// The shell restarted.
    Restarted,
    /// Anything else.
    Other,
}

/// What a message is answered by.
#[derive(Debug, Clone, Copy, PartialEq, Eq, Structural)]
pub enum Work {
    /// Show the current devices anew.
    Refresh,
    /// Step the output's volume.
    Step { up: bool },
    /// Go one stop on in a direction's cycle.
    Cycle(Flow),
    /// Open the flyout.
    OpenPanel,
    /// Ask something of the player.
    Transport(Command),
    /// Turn a direction's volume.
    Turn { flow: Flow, delta: i32 },
    /// Put the strip up in the new shell, and show the current devices anew.
    Reinject,
    /// It was the click that closed the flyout, or none at all.
    Ignore,
    /// Hand it on to its window, and look for clicks on the icon.
    Dispatch,
}

/// What a message is answered by.
pub open spec fn work_for(message: Message, until: u64, now: u64) -> Work {
    match message {
        Message::AudioRefresh => Work::Refresh,
        Message::MicChanged => Work::Refresh,
        Message::VolumeStep { up } => Work::Step { up },
        Message::Scrolled { flow, delta } => Work::Turn {
            flow: taskbar::flow_of_code(flow),
            delta,
        },
        Message::Gesture { code } => if now < until {
            Work::Ignore
        } else if code == 1 {
            Work::Cycle(Flow::Output)
        } else if code == 2 {
            Work::Cycle(Flow::Input)
        } else if code == 3 {
            Work::OpenPanel
        } else if code == 10 {
            Work::Transport(Command::Previous)
        } else if code == 11 {
            Work::Transport(Command::TogglePlayPause)
        } else if code == 12 {
            Work::Transport(Command::Next)
        } else {
            Work::Ignore
        },
        Message::Restarted => Work::Reinject,
        Message::Other => Work::Dispatch,
    }
}

/// Routes a message of the tray's loop. The click that closed the flyout counts for nothing, on the
/// transport buttons as on the strip's own.
pub fn route(message: Message, guard: &ClickGuard, now: u64) -> (r: Work)
    ensures
        r == work_for(message, guard.until, now),
{
    match message {
        Message::AudioRefresh => Work::Refresh,
        Message::MicChanged => Work::Refresh,
        Message::VolumeStep { up } => Work::Step { up },
        Message::Scrolled { flow, delta } => Work::Turn {
            flow: taskbar::flow_from_code(flow),
            delta,
        },
        Message::Gesture { code } => match guard.strip_gesture(code, now) {
            Some(action) => match action.flow() {
                Some(flow) => Work::Cycle(flow),
                None => match action.command() {
                    Some(command) => Work::Transport(command),
                    None => Work::OpenPanel,
                },
            },
            None => {
                proof {
                    assert(Action::CycleOutput.code_view() == 1);
                    assert(Action::CycleInput.code_view() == 2);
                    assert(Action::OpenPanel.code_view() == 3);
                    assert(Action::Previous.code_view() == 10);
                    assert(Action::PlayPause.code_view() == 11);
                    assert(Action::Next.code_view() == 12);
                }
                Work::Ignore
            },
        },
        Message::Restarted => Work::Reinject,
        Message::Other => Work::Dispatch,
    }
}

/// The click that closes the flyout never opens it again, nor steps a device, nor asks anything of the
/// player: for a while after it every gesture on the strip and every click on the icon is ignored.
pub proof fn law_the_closing_click_is_ignored(
    code: usize,
    click: Trigger,
    strip_up: bool,
    closed: u64,
    now: u64,
)
    requires
        closed + SETTLE_MS <= u64::MAX,
        now < closed + SETTLE_MS,
    ensures
        work_for(Message::Gesture { code }, (closed + SETTLE_MS) as u64, now) == Work::Ignore,
        !icon_opens((closed + SETTLE_MS) as u64, click, strip_up, now),
{
}

/// With a strip a left click on the icon opens nothing, because it also reaches the strip, which acts
/// on it; the right one opens the flyout. Without a strip either does.
pub proof fn law_a_left_click_opens_only_without_a_strip(until: u64, click: Trigger, now: u64)
    requires
        until <= now,
    ensures
        icon_opens(until, click, true, now) <==> click == Trigger::RightClick,
        icon_opens(until, click, false, now),
{
}

/// What is to be done once the flyout has closed, in this order.
#[derive(Debug, Clone, Copy, PartialEq, Eq, Structural)]
pub struct FollowUp {
    pub save_config: bool,
    /// Show the current devices anew: an icon or the default output may be another.
    pub refresh: bool,
    pub restart: bool,
    pub restart_explorer: bool,
    /// Take the strip down and end.
    pub quit: bool,
}

/// What is to be done once the flyout has closed.
pub fn follow_up(outcome: &Outcome) -> (r: FollowUp)
    ensures
        r == follow_up_of(*outcome),
{
    FollowUp {
        save_config: outcome.config_changed,
        refresh: outcome.config_changed || outcome.output_changed,
        restart: outcome.restart,
        restart_explorer: outcome.restart_explorer,
        quit: outcome.quit,
    }
}

// What is shown.

/// The current default of one direction, as the icon and the strip need it.
#[derive(Debug)]
pub struct Endpoint {
    pub name: String,
    pub icon: IconId,
    pub muted: bool,
}

impl Endpoint {
    /// What is shown of a default, as far as it could be read: its own name and icon where it is among
    /// the devices, a stand-in where it is not or there is none.
    pub fn read(
        default: &Option<DeviceId>,
        muted: Option<bool>,
        devices: &[Device],
        config: &Config,
    ) -> (r: Endpoint)
        ensures
            shows_default(r, audio::id_view(*default), muted, devices@, *config),
    {
        let id = match default {
            None => {
                proof {
                    lemma_place_is_unique(devices@, audio::id_view(*default), None);
                }
                return Endpoint {
                    name: INITIAL_TOOLTIP.to_string(),
                    icon: IconId::Unknown,
                    muted: false,
                };
            },
            Some(id) => id,
        };
        let muted = match muted {
            Some(m) => m,
            None => false,
        };
        match audio::position_of(devices, id) {
            Some(i) => {
                let d = &devices[i];
                proof {
                    lemma_place_is_unique(devices@, audio::id_view(*default), Some(i as int));
                }
                Endpoint { name: d.friendly_name.clone(), icon: config.icon_of(d), muted }
            },
            None => {
                proof {
                    lemma_place_is_unique(devices@, audio::id_view(*default), None);
                }
                Endpoint { name: INITIAL_TOOLTIP.to_string(), icon: IconId::Unknown, muted }
            },
        }
    }
}

/// Both defaults at once.
#[derive(Debug)]
pub struct Current {
    pub output: Endpoint,
    pub input: Endpoint,
}

impl Current {
    /// What the strip draws of them.
    pub fn strip_icons(&self) -> (r: StripIcons)
        ensures
            r == (StripIcons {
                output: taskbar::strip_glyph_view(self.output.icon),
                input: taskbar::strip_glyph_view(self.input.icon),
                output_muted: self.output.muted,
                input_muted: self.input.muted,
            }),
    {
        StripIcons {
            output: taskbar::strip_glyph(self.output.icon),
            input: taskbar::strip_glyph(self.input.icon),
            output_muted: self.output.muted,
            input_muted: self.input.muted,
        }
    }
}

/// The colour of the tray icon: near-black on a light taskbar, white on a dark one.
pub fn icon_tint(light: bool) -> (r: [u8; 3])
    ensures
        r@ == (if light {
            seq![0x20u8, 0x20u8, 0x20u8]
        } else {
            seq![0xffu8, 0xffu8, 0xffu8]
        }),
{
    let r: [u8; 3] = if light {
        [0x20, 0x20, 0x20]
    } else {
        [0xff, 0xff, 0xff]
    };
    proof {
        assert(r@ =~= (if light {
            seq![0x20u8, 0x20u8, 0x20u8]
        } else {
            seq![0xffu8, 0xffu8, 0xffu8]
        }));
    }
    r
}

// Registering the icon.

/// The first wait before the icon is registered again, in milliseconds.
pub const FIRST_GAP_MS: u64 = 500;

/// The longest such wait.
pub const MAX_GAP_MS: u64 = 5_000;

/// How often a further failure is told.
pub const NAG_EVERY: u32 = 12;

/// How long to wait after the given failed attempt: twice as long each time, up to a limit.
pub open spec fn gap_after(attempt: nat) -> int
    decreases attempt,
{
    if attempt <= 1 {
        FIRST_GAP_MS as int
    } else {
        let doubled = 2 * gap_after((attempt - 1) as nat);
        if doubled > MAX_GAP_MS {
            MAX_GAP_MS as int
        } else {
            doubled
        }
    }
}

/// The attempts to register the icon. There is no last one: without an icon the program has nothing
/// to offer, so waiting for the shell beats giving up.
#[derive(Debug, Clone, Copy, PartialEq, Eq, Structural)]
pub struct Registration {
    /// The attempt under way, counted from one.
    pub attempt: u32,
    /// The wait if it fails.
    pub gap_ms: u64,
}

impl Registration {
    /// The wait is that of the attempt.
    pub open spec fn wf(&self) -> bool {
        self.attempt >= 1 && self.gap_ms == gap_after(self.attempt as nat) && self.gap_ms
            <= MAX_GAP_MS
    }

    /// The first attempt.
    pub fn new() -> (r: Registration)
        ensures
            r.wf(),
            r.attempt == 1,
    {
        Registration { attempt: 1, gap_ms: FIRST_GAP_MS }
    }

    /// An attempt failed: how long to wait, and whether to tell of it. The first failure is told, and
    /// then every twelfth. The count stops where a machine word does.
    pub fn failed(&mut self) -> (r: (u64, bool))
        requires
            old(self).wf(),
        ensures
            final(self).wf(),
            final(self).attempt == (if old(self).attempt < u32::MAX {
                old(self).attempt + 1
            } else {
                old(self).attempt as int
            }),
            r.0 == gap_after(old(self).attempt as nat),
            r.1 == is_told(old(self).attempt as int),
    {
        let gap: u64 = self.gap_ms;
        let nag = self.attempt == 1 || self.attempt % NAG_EVERY == 0;
        if self.attempt < u32::MAX {
            self.attempt = self.attempt + 1;
            let doubled: u64 = gap * 2;
            self.gap_ms = if doubled > MAX_GAP_MS {
                MAX_GAP_MS
            } else {
                doubled
            };
        }
        (gap, nag)
    }
}

/// The waits never shrink and settle at five seconds: from the fifth failure on they are that long.
pub proof fn law_waits_settle(attempt: nat)
    ensures
        FIRST_GAP_MS <= gap_after(attempt) <= MAX_GAP_MS,
        gap_after(attempt) <= gap_after(attempt + 1),
        attempt >= 5 ==> gap_after(attempt) == MAX_GAP_MS,
    decreases attempt,
{
    if attempt > 1 {
        law_waits_settle((attempt - 1) as nat);
        if attempt == 5 {
            reveal_with_fuel(gap_after, 6);
        }
    }
}

// Scrolling.

/// The wheel's turn in a mouse event, in the high half of its data.
pub open spec fn wheel_delta(data: u32) -> int {
    let high = data as int / 65536;
    if high >= 32768 {
        high - 65536
    } else {
        high
    }
}

/// Which way a wheel over the taskbar steps the volume: up, down, or not at all.
pub fn wheel_step(data: u32) -> (r: Option<bool>)
    ensures
        r == wheel_way(data),
{
    let high: u32 = data / 65536;
    if high == 0 {
        None
    } else {
        Some(high < 32768)
    }
}

/// Whether a window class is that of the taskbar or the notification area.
pub open spec fn is_tray_class_name(class: Seq<char>) -> bool {
    class == "Shell_TrayWnd"@ || class == "Shell_SecondaryTrayWnd"@ || class
        == "NotifyIconOverflowWindow"@ || class == "TopLevelWindowForOverflowXamlIsland"@ || class
        == "Xaml_WindowedPopupClass"@
}

/// Whether a window class is that of the taskbar or the notification area, its overflow included.
pub fn is_tray_class(class: &str) -> (r: bool)
    ensures
        r == is_tray_class_name(class@),
{
    text::same_text(class, "Shell_TrayWnd") || text::same_text(class, "Shell_SecondaryTrayWnd")
        || text::same_text(class, "NotifyIconOverflowWindow") || text::same_text(
        class,
        "TopLevelWindowForOverflowXamlIsland",
    ) || text::same_text(class, "Xaml_WindowedPopupClass")
}

/// One notch of the wheel, in the units its turns are told in.
pub const WHEEL_DELTA: i64 = 120;

/// How many percent of the volume one notch is worth.
pub const PERCENT_PER_NOTCH: i64 = 2;

/// The turns over one button that are still to be acted on, added up. A touchpad tells of many small
/// ones, and acting on each would fall behind the finger.
#[derive(Debug, Clone, Copy, PartialEq, Eq, Structural)]
pub struct Scroll {
    pub output: i64,
    pub input: i64,
}

/// What is still to be acted on over one button.
pub open spec fn waiting(s: Scroll, flow: Flow) -> i64 {
    match flow {
        Flow::Output => s.output,
        Flow::Input => s.input,
    }
}

/// The turns with one more over a button.
pub open spec fn turned(s: Scroll, flow: Flow, delta: int) -> Scroll {
    match flow {
        Flow::Output => Scroll { output: (s.output + delta) as i64, ..s },
        Flow::Input => Scroll { input: (s.input + delta) as i64, ..s },
    }
}

/// The turns once those over a button were acted on.
pub open spec fn taken(s: Scroll, flow: Flow) -> Scroll {
    match flow {
        Flow::Output => Scroll { output: 0, ..s },
        Flow::Input => Scroll { input: 0, ..s },
    }
}

/// Turns over a button add up, whatever comes between them over the other; taking them leaves none of that
/// button's and all of the other's.
pub proof fn law_turns_add_up(s: Scroll, flow: Flow, other: Flow, a: i32, b: i32)
    requires
        flow != other,
        -0x4000_0000_0000_0000 <= waiting(s, flow) <= 0x4000_0000_0000_0000,
        -0x4000_0000_0000_0000 <= waiting(s, other) <= 0x4000_0000_0000_0000,
    ensures
        waiting(turned(turned(s, flow, a as int), flow, b as int), flow) == waiting(s, flow) + a + b,
        waiting(turned(s, flow, a as int), other) == waiting(s, other),
        waiting(taken(s, flow), flow) == 0,
        waiting(taken(s, flow), other) == waiting(s, other),
        turned(turned(s, flow, a as int), other, b as int) == turned(
            turned(s, other, b as int),
            flow,
            a as int,
        ),
{
}

impl Scroll {
    /// Nothing turned.
    pub fn new() -> (r: Scroll)
        ensures
            r == (Scroll { output: 0, input: 0 }),
    {
        Scroll { output: 0, input: 0 }
    }

    /// Adds a turn over one button. Sums past what a machine word holds are left out.
    pub fn turn(&mut self, flow: Flow, delta: i32) -> (kept: bool)
        ensures
            kept == (i64::MIN <= waiting(*old(self), flow) + delta <= i64::MAX),
            *final(self) == (if kept {
                turned(*old(self), flow, delta as int)
            } else {
                *old(self)
            }),
    {
        match flow {
            Flow::Output => match self.output.checked_add(delta as i64) {
                Some(sum) => {
                    self.output = sum;
                    true
                },
                None => false,
            },
            Flow::Input => match self.input.checked_add(delta as i64) {
                Some(sum) => {
                    self.input = sum;
                    true
                },
                None => false,
            },
        }
    }

    /// Takes what has been turned over one button.
    pub fn take(&mut self, flow: Flow) -> (r: i64)
        ensures
            r == waiting(*old(self), flow),
            *final(self) == taken(*old(self), flow),
    {
        match flow {
            Flow::Output => {
                let turned: i64 = self.output;
                self.output = 0;
                turned
            },
            Flow::Input => {
                let turned: i64 = self.input;
                self.input = 0;
                turned
            },
        }
    }
}

/// From every device, muted or not, a click goes where it should. A muted default at any place gives way to
/// the next device, the first coming after the last, so that a mute that came from elsewhere is picked up
/// where it was left and no device is passed over. One that is not muted gives way to the next, and the
/// last is muted. The device gone to becomes the default unless it is, and the one left is unmuted if it
/// was muted. A default that is not among the devices gives way to the first of them.
pub proof fn law_a_click_goes_to_the_next_device(
    devices: Seq<Device>,
    current: Option<Seq<char>>,
    muted: bool,
    i: int,
)
    requires
        devices.len() <= usize::MAX,
        forall|a: int, b: int|
            0 <= a < b < devices.len() ==> (#[trigger] devices[a]).id.0@ != (
            #[trigger] devices[b]).id.0@,
    ensures
        ({
            let n = devices.len() as int;
            let step = step_from(devices, current, place_of(devices, current), muted);
            &&& n == 0 ==> step == Step::Nothing
            &&& 0 <= i < n && current == Some(devices[i].id.0@) && muted ==> step == (Step::Go {
                to: ((i + 1) % n) as usize,
                set_default: n > 1,
                unmute_left: n > 1,
            })
            &&& 0 <= i < n - 1 && current == Some(devices[i].id.0@) && !muted ==> step == (Step::Go {
                to: (i + 1) as usize,
                set_default: true,
                unmute_left: false,
            })
            &&& i == n - 1 && 0 <= i && current == Some(devices[i].id.0@) && !muted ==> step
                == Step::Mute
            &&& n > 0 && (forall|j: int|
                0 <= j < n ==> current != Some((#[trigger] devices[j]).id.0@)) ==> step == (Step::Go {
                to: 0,
                set_default: true,
                unmute_left: muted && current is Some,
            })
        }),
{
    let n = devices.len() as int;
    if 0 <= i < n && current == Some(devices[i].id.0@) {
        assert(is_place(devices, current, Some(i))) by {
            assert forall|j: int| 0 <= j < i implies current != Some(
                (#[trigger] devices[j]).id.0@,
            ) by {
                assert(devices[j].id.0@ != devices[i].id.0@);
            }
        }
        lemma_place_is_unique(devices, current, Some(i));
        let to = if i + 1 == n {
            0
        } else {
            i + 1
        };
        assert((i + 1) % n == to) by (nonlinear_arith)
            requires
                0 <= i < n,
                to == (if i + 1 == n {
                    0
                } else {
                    i + 1
                }),
        ;
        if to < i {
            assert(devices[to].id.0@ != devices[i].id.0@);
        } else if i < to {
            assert(devices[i].id.0@ != devices[to].id.0@);
        }
    }
    if forall|j: int| 0 <= j < n ==> current != Some((#[trigger] devices[j]).id.0@) {
        assert(is_place(devices, current, None));
        lemma_place_is_unique(devices, current, None);
    }
}

/// The same seen from the endpoints: after a click on a muted default the next device is the default, the
/// first coming after the last, and neither it nor the one left is muted; after one on a default that is
/// not muted the next is, or the last one is muted. No other device's mute is touched.
pub proof fn law_a_click_moves_on_by_one(s: Endpoints, j: int)
    requires
        0 <= s.default < s.muted.len(),
        0 <= j < s.muted.len(),
    ensures
        ({
            let n = s.muted.len() as int;
            let next = after_click(s);
            let stays = !s.muted[s.default] && s.default == n - 1;
            &&& next.muted.len() == n
            &&& next.default == (if stays {
                s.default
            } else {
                (s.default + 1) % n
            })
            &&& next.muted[next.default] == stays
            &&& !stays ==> !next.muted[s.default]
            &&& j != s.default && j != next.default ==> next.muted[j] == s.muted[j]
        }),
{
    let n = s.muted.len() as int;
    let i = s.default;
    let to = if i + 1 == n {
        0
    } else {
        i + 1
    };
    assert((i + 1) % n == to) by (nonlinear_arith)
        requires
            0 <= i < n,
            to == (if i + 1 == n {
                0
            } else {
                i + 1
            }),
    ;
}

/// The device that a default is taken for is the first with its id.
pub proof fn law_the_default_is_the_first_with_its_id(devices: Seq<Device>, current: Option<Seq<char>>)
    ensures
        match place_of(devices, current) {
            Some(i) => 0 <= i < devices.len() && current == Some(devices[i].id.0@) && forall|j: int|
                0 <= j < i ==> current != Some((#[trigger] devices[j]).id.0@),
            None => forall|j: int|
                0 <= j < devices.len() ==> current != Some((#[trigger] devices[j]).id.0@),
        },
{
    let place = lemma_there_is_a_place(devices, current, 0);
    lemma_place_is_unique(devices, current, place);
}

proof fn lemma_there_is_a_place(devices: Seq<Device>, current: Option<Seq<char>>, from: int) -> (at:
    Option<int>)
    requires
        0 <= from <= devices.len(),
        forall|j: int| 0 <= j < from ==> current != Some((#[trigger] devices[j]).id.0@),
    ensures
        is_place(devices, current, at),
    decreases devices.len() - from,
{
    if from == devices.len() {
        None
    } else if current == Some(devices[from].id.0@) {
        Some(from)
    } else {
        lemma_there_is_a_place(devices, current, from + 1)
    }
}

/// Every message has one answer. The codes of a gesture, once the flyout has settled: one steps the output,
/// two the input, three opens the flyout, ten to twelve ask the player for the track before, to play or
/// pause, and for the next; no other does anything.
pub proof fn law_every_message_has_its_answer(
    code: usize,
    flow: usize,
    delta: i32,
    up: bool,
    until: u64,
    now: u64,
)
    ensures
        work_for(Message::AudioRefresh, until, now) == Work::Refresh,
        work_for(Message::MicChanged, until, now) == Work::Refresh,
        work_for(Message::VolumeStep { up }, until, now) == (Work::Step { up }),
        work_for(Message::Scrolled { flow, delta }, until, now) == (Work::Turn {
            flow: if flow == 1 {
                Flow::Input
            } else {
                Flow::Output
            },
            delta,
        }),
        work_for(Message::Restarted, until, now) == Work::Reinject,
        work_for(Message::Other, until, now) == Work::Dispatch,
        now >= until ==> work_for(Message::Gesture { code }, until, now) == (match code {
            1 => Work::Cycle(Flow::Output),
            2 => Work::Cycle(Flow::Input),
            3 => Work::OpenPanel,
            10 => Work::Transport(Command::Previous),
            11 => Work::Transport(Command::TogglePlayPause),
            12 => Work::Transport(Command::Next),
            _ => Work::Ignore,
        }),
{
}

/// The first wait is half a second, each one after it twice as long, up to five seconds.
pub proof fn law_waits_double(attempt: nat)
    requires
        attempt >= 1,
    ensures
        gap_after(1) == 500,
        gap_after(attempt + 1) == (if 2 * gap_after(attempt) > 5000 {
            5000
        } else {
            2 * gap_after(attempt)
        }),
{
}

/// What the wheel was turned by is the upper half of its data as a signed number; the lower half makes no
/// difference.
pub proof fn law_the_wheel_turns_by_the_upper_half(data: u32)
    ensures
        -32768 <= wheel_delta(data) < 32768,
        (wheel_delta(data) - data as int / 65536) % 65536 == 0,
{
}

/// A tooltip is the device's name, a dash and the marker, in this order and with nothing else.
pub proof fn law_a_tooltip_begins_with_the_device(device: Seq<char>)
    ensures
        tooltip_text(device).take(device.len() as int) == device,
        tooltip_text(device).skip(device.len() as int) == " — Audio Tray"@,
{
    reveal_strlit(" — ");
    reveal_strlit("Audio Tray");
    reveal_strlit(" — Audio Tray");
    assert(tooltip_text(device).take(device.len() as int) =~= device);
    assert(tooltip_text(device).skip(device.len() as int) =~= " — Audio Tray"@);
}

/// Whether an endpoint tells of a default as far as it could be read.
pub open spec fn shows_default(
    r: Endpoint,
    default: Option<Seq<char>>,
    muted: Option<bool>,
    devices: Seq<Device>,
    config: Config,
) -> bool {
    &&& r.muted == (default is Some && muted == Some(true))
    &&& match place_of(devices, default) {
        Some(i) => r.name@ == devices[i].friendly_name@ && r.icon == config.drawn_icon(devices[i]),
        None => r.name@ == INITIAL_TOOLTIP@ && r.icon == IconId::Unknown,
    }
}

/// The tray shows the default by its own name and icon, and as muted exactly where it is known to be; where
/// it is not among the devices, or there is none, it shows a stand-in that is not muted without a default.
pub proof fn law_the_tray_shows_the_default(
    r: Endpoint,
    default: Option<Seq<char>>,
    muted: Option<bool>,
    devices: Seq<Device>,
    config: Config,
    i: int,
)
    requires
        shows_default(r, default, muted, devices, config),
    ensures
        0 <= i < devices.len() && default == Some(devices[i].id.0@) && (forall|j: int|
            0 <= j < i ==> (#[trigger] devices[j]).id.0@ != devices[i].id.0@) ==> r.name@
            == devices[i].friendly_name@ && r.icon == config.drawn_icon(devices[i]) && (r.muted <==> muted
            == Some(true)),
        (forall|j: int| 0 <= j < devices.len() ==> default != Some((#[trigger] devices[j]).id.0@))
            ==> r.name@ == "Audio output"@ && r.icon == IconId::Unknown,
        default is None ==> !r.muted,
{
    if 0 <= i < devices.len() && default == Some(devices[i].id.0@) && (forall|j: int|
        0 <= j < i ==> (#[trigger] devices[j]).id.0@ != devices[i].id.0@) {
        lemma_place_is_unique(devices, default, Some(i));
    }
    if forall|j: int| 0 <= j < devices.len() ==> default != Some((#[trigger] devices[j]).id.0@) {
        lemma_place_is_unique(devices, default, None);
    }
}

/// What is to be done once the flyout has closed.
pub open spec fn follow_up_of(outcome: Outcome) -> FollowUp {
    FollowUp {
        save_config: outcome.config_changed,
        refresh: outcome.config_changed || outcome.output_changed,
        restart: outcome.restart,
        restart_explorer: outcome.restart_explorer,
        quit: outcome.quit,
    }
}

/// The program ends, restarts, or restarts the shell only where the flyout was closed with that; a change of
/// the configuration is saved and shown, a switch of the output shown.
pub proof fn law_nothing_follows_that_was_not_asked_for(outcome: Outcome)
    ensures
        follow_up_of(outcome).quit <==> outcome.quit,
        follow_up_of(outcome).restart <==> outcome.restart,
        follow_up_of(outcome).restart_explorer <==> outcome.restart_explorer,
        follow_up_of(outcome).save_config <==> outcome.config_changed,
        outcome.config_changed || outcome.output_changed <==> follow_up_of(outcome).refresh,
{
}

/// Whether a failed attempt is told of.
pub open spec fn is_told(attempt: int) -> bool {
    attempt == 1 || attempt % NAG_EVERY as int == 0
}

/// The first failure is told of, and of any twelve in a row exactly one.
pub proof fn law_one_failure_in_twelve_is_told(attempt: int, k: int)
    requires
        attempt > 1,
        0 < k < 12,
    ensures
        is_told(1),
        is_told(attempt) ==> !is_told(attempt + k) && is_told(attempt + 12),
        is_told(12),
{
}

/// Which way a wheel over the taskbar steps the volume.
pub open spec fn wheel_way(data: u32) -> Option<bool> {
    if wheel_delta(data) == 0 {
        None
    } else {
        Some(wheel_delta(data) > 0)
    }
}

/// A wheel that is turned away steps the volume up, one that is turned towards the user down, and one that is
/// not turned does not.
pub proof fn law_the_wheel_steps_the_way_it_is_turned(data: u32)
    ensures
        wheel_way(data) == Some(true) <==> 0 < data as int / 65536 < 32768,
        wheel_way(data) == Some(false) <==> data as int / 65536 >= 32768,
        wheel_way(data) is None <==> (data as int) < 65536,
{
}

} // verus!
