//! The pair of controls drawn inside the taskbar: what they show, what a gesture on them means, and
//! when the shell is restarted to get them up.
//!
//! The strip is drawn by a component loaded into the shell. This module decides what it is told and
//! what happens when it cannot be loaded; the plain tray icon carries on in every case.
use crate::audio::Flow;
use crate::icons::IconId;
use crate::music::smtc::Command;
use crate::music::thumbbar;
use crate::text;
use vstd::prelude::*;

verus! {

/// What the strip draws: the icons of the current devices, and which of them is muted.
#[derive(Debug, Clone, Copy, PartialEq, Eq, Structural)]
pub struct StripIcons {
    pub output: char,
    pub input: char,
    pub output_muted: bool,
    pub input_muted: bool,
}

/// For when the devices cannot be told: a speaker and a microphone.
impl Default for StripIcons {
    fn default() -> (r: Self)
        ensures
            r == (StripIcons {
                output: '\u{E767}',
                input: '\u{E720}',
                output_muted: false,
                input_muted: false,
            }),
    {
        StripIcons {
            output: '\u{E767}',
            input: '\u{E720}',
            output_muted: false,
            input_muted: false,
        }
    }
}

/// Stands for the stemmed earbuds, which the icon font lacks. Plane 15 holds no glyph of the font, so
/// it cannot be mistaken for one.
pub const GLYPH_WIRELESS_EARBUDS: char = '\u{F0001}';

/// Stands for the round earbuds.
pub const GLYPH_ROUND_EARBUDS: char = '\u{F0002}';

/// The code point the strip carries for an icon.
pub open spec fn strip_glyph_view(icon: IconId) -> char {
    match icon {
        IconId::WirelessEarbuds => GLYPH_WIRELESS_EARBUDS,
        IconId::RoundEarbuds => GLYPH_ROUND_EARBUDS,
        _ => icon.glyph_view(),
    }
}

/// The code point the strip carries for an icon: its glyph, or a stand-in for one that is drawn by
/// hand.
pub fn strip_glyph(icon: IconId) -> (r: char)
    ensures
        r == strip_glyph_view(icon),
{
    match icon {
        IconId::WirelessEarbuds => GLYPH_WIRELESS_EARBUDS,
        IconId::RoundEarbuds => GLYPH_ROUND_EARBUDS,
        _ => icon.glyph(),
    }
}

/// On the strip both kinds of earbuds look like no other icon, and not like each other, where their
/// font glyph would make them headphones.
pub proof fn law_earbuds_are_not_shown_as_headphones(icon: IconId)
    requires
        icon == IconId::WirelessEarbuds || icon == IconId::RoundEarbuds,
    ensures
        forall|other: IconId| #[trigger] strip_glyph_view(other) == strip_glyph_view(icon) ==> other
            == icon,
{
}

/// The tray icon's tooltip holds this, and that is how the strip finds the icon.
pub const TRAY_MARKER: &'static str = "Audio Tray";

/// How opaque the strip's accent is, in hexadecimal.
pub const PILL_ALPHA: &'static str = "80";

/// A flag as a digit.
pub open spec fn flag(b: bool) -> Seq<char> {
    if b {
        seq!['1']
    } else {
        seq!['0']
    }
}

/// What the strip's component is handed when it is loaded: `key=value` pairs.
pub open spec fn init_text(icons: StripIcons, accent: Seq<u8>, pid: u32) -> Seq<char> {
    "tooltip="@ + TRAY_MARKER@ + ";out="@ + text::hex(icons.output as u32 as nat, 4) + ";in="@
        + text::hex(icons.input as u32 as nat, 4) + ";outmuted="@ + flag(icons.output_muted)
        + ";inmuted="@ + flag(icons.input_muted) + ";accent="@ + text::hex(accent[0] as nat, 2)
        + text::hex(accent[1] as nat, 2) + text::hex(accent[2] as nat, 2) + ";alpha="@ + PILL_ALPHA@
        + ";hidevolume=1;pid="@ + text::decimal(pid as nat)
}

fn push_flag(out: &mut String, b: bool)
    ensures
        final(out)@ == old(out)@ + flag(b),
{
    out.push(
        if b {
            '1'
        } else {
            '0'
        },
    );
    proof {
        assert(out@ =~= old(out)@ + flag(b));
    }
}

/// What the strip's component is handed when it is loaded. The tooltip is what it finds the tray icon
/// by, and the process id is how it notices that this process has gone.
pub fn init_data(icons: StripIcons, accent: [u8; 3], pid: u32) -> (r: String)
    ensures
        r@ == init_text(icons, accent@, pid),
{
    let mut out = String::new();
    out.append("tooltip=");
    out.append(TRAY_MARKER);
    out.append(";out=");
    text::push_hex(&mut out, icons.output as u32, 4);
    out.append(";in=");
    text::push_hex(&mut out, icons.input as u32, 4);
    out.append(";outmuted=");
    push_flag(&mut out, icons.output_muted);
    out.append(";inmuted=");
    push_flag(&mut out, icons.input_muted);
    out.append(";accent=");
    text::push_hex(&mut out, accent[0] as u32, 2);
    text::push_hex(&mut out, accent[1] as u32, 2);
    text::push_hex(&mut out, accent[2] as u32, 2);
    out.append(";alpha=");
    out.append(PILL_ALPHA);
    out.append(";hidevolume=1;pid=");
    text::push_decimal(&mut out, pid as u64);
    proof {
        assert(out@ =~= init_text(icons, accent@, pid));
    }
    out
}

/// One button's state as a number: the code point, and above it whether it is muted.
pub open spec fn packed(glyph: char, muted: bool) -> int {
    glyph as u32 + if muted {
        0x100_0000int
    } else {
        0
    }
}

/// One button's state as the number a message carries.
pub fn pack(glyph: char, muted: bool) -> (r: u32)
    ensures
        r == packed(glyph, muted),
{
    let v: u32 = glyph as u32;
    if muted {
        v + 0x100_0000
    } else {
        v
    }
}

/// A message tells two states apart whenever they differ: the code point and the mute can be read
/// back from it.
pub proof fn law_a_packed_state_reads_back(glyph: char, muted: bool)
    ensures
        packed(glyph, muted) % 0x100_0000 == glyph as u32,
        packed(glyph, muted) / 0x100_0000 == (if muted {
            1int
        } else {
            0
        }),
{
}

/// What the user did on the strip, or on the transport buttons under the player's preview, which share
/// its wire.
#[derive(Debug, Clone, Copy, PartialEq, Eq, Structural)]
pub enum Action {
    CycleOutput,
    CycleInput,
    OpenPanel,
    Previous,
    PlayPause,
    Next,
}

impl Action {
    /// The action's number on the wire.
    pub open spec fn code_view(self) -> usize {
        match self {
            Action::CycleOutput => 1,
            Action::CycleInput => 2,
            Action::OpenPanel => 3,
            Action::Previous => 10,
            Action::PlayPause => 11,
            Action::Next => 12,
        }
    }

    /// The endpoint that the action steps on, if it is such an action.
    pub open spec fn flow_view(self) -> Option<Flow> {
        match self {
            Action::CycleOutput => Some(Flow::Output),
            Action::CycleInput => Some(Flow::Input),
            _ => None,
        }
    }

    /// Reads a number from the wire.
    pub fn from_code(code: usize) -> (r: Option<Self>)
        ensures
            match r {
                Some(a) => a.code_view() == code,
                None => forall|a: Action| #[trigger] a.code_view() != code,
            },
            r is Some <==> 1 <= code <= 3 || 10 <= code <= 12,
    {
        match code {
            1 => Some(Action::CycleOutput),
            2 => Some(Action::CycleInput),
            3 => Some(Action::OpenPanel),
            10 => Some(Action::Previous),
            11 => Some(Action::PlayPause),
            12 => Some(Action::Next),
            _ => None,
        }
    }

    /// The action's number on the wire.
    pub fn code(self) -> (r: usize)
        ensures
            r == self.code_view(),
    {
        match self {
            Action::CycleOutput => 1,
            Action::CycleInput => 2,
            Action::OpenPanel => 3,
            Action::Previous => 10,
            Action::PlayPause => 11,
            Action::Next => 12,
        }
    }

    /// The endpoint that a click steps on, if it is such a click.
    pub fn flow(self) -> (r: Option<Flow>)
        ensures
            r == self.flow_view(),
    {
        match self {
            Action::CycleOutput => Some(Flow::Output),
            Action::CycleInput => Some(Flow::Input),
            _ => None,
        }
    }

    /// What the action asks of the player, if anything: what the transport button with its number does.
    pub fn command(self) -> (r: Option<Command>)
        ensures
            r == thumbbar::command_of_id(self.code_view()),
    {
        thumbbar::command_of(self.code())
    }
}

/// No two actions share a number, so that an action comes off the wire as it was put on.
pub proof fn law_action_codes_are_distinct(a: Action, b: Action)
    requires
        a.code_view() == b.code_view(),
    ensures
        a == b,
{
}

/// Every action does one thing: it steps an endpoint, opens the flyout, or asks something of the player;
/// and each of the three transport buttons asks for what it is named after.
pub proof fn law_an_action_is_a_step_the_panel_or_a_command(a: Action)
    ensures
        thumbbar::command_of_id(a.code_view()) is Some <==> a.flow_view() is None && a
            != Action::OpenPanel,
        thumbbar::command_of_id(Action::Previous.code_view()) == Some(Command::Previous),
        thumbbar::command_of_id(Action::PlayPause.code_view()) == Some(Command::TogglePlayPause),
        thumbbar::command_of_id(Action::Next.code_view()) == Some(Command::Next),
{
}

/// A direction's number on the wire.
pub open spec fn flow_code_view(flow: Flow) -> usize {
    match flow {
        Flow::Output => 0,
        Flow::Input => 1,
    }
}

/// The direction a number on the wire stands for.
pub open spec fn flow_of_code(code: usize) -> Flow {
    if code == 1 {
        Flow::Input
    } else {
        Flow::Output
    }
}

/// A direction's number on the wire.
pub fn flow_code(flow: Flow) -> (r: usize)
    ensures
        r == flow_code_view(flow),
{
    match flow {
        Flow::Output => 0,
        Flow::Input => 1,
    }
}

/// Reads a direction from the wire. Anything else is output, the direction the wheel has always
/// turned.
pub fn flow_from_code(code: usize) -> (r: Flow)
    ensures
        r == flow_of_code(code),
{
    match code {
        1 => Flow::Input,
        _ => Flow::Output,
    }
}

/// A direction comes off the wire as it was put on.
pub proof fn law_a_flow_reads_back(flow: Flow)
    ensures
        flow_of_code(flow_code_view(flow)) == flow,
{
}

/// How long after an injection another into the same shell counts as a duplicate, in milliseconds.
pub const DUPLICATE_WINDOW_MS: u64 = 10_000;

/// How often an injection is tried before its failure counts.
pub const ENABLE_TRIES: u32 = 3;

/// Between two tries of an injection, in milliseconds.
pub const ENABLE_GAP_MS: u64 = 750;

/// What is known of the strip.
#[derive(Debug, Clone, Copy, PartialEq, Eq)]
pub struct Strip {
    /// Whether a strip of ours is up, as far as is known.
    pub up: bool,
    /// The shell that was last injected into, and when, in milliseconds.
    pub last_injected: Option<(u32, u64)>,
    /// Whether the shell was already restarted for the strip's sake.
    pub healed: bool,
    /// What the strip was last told to draw.
    pub applied: Option<StripIcons>,
}

/// What to do about the strip when the program starts.
#[derive(Debug, Clone, Copy, PartialEq, Eq, Structural)]
pub enum Startup {
    /// Load it into the shell.
    Inject,
    /// Restart the shell first; the strip is loaded when it is back.
    Heal,
}

/// Whether the strip is up, and so owns the gestures over the tray icon.
pub fn strip_is_up(strip: &Strip) -> (r: bool)
    ensures
        r == strip.up,
{
    strip.up
}

/// Whether an injection into a shell would be a duplicate.
pub open spec fn is_duplicate(last: Option<(u32, u64)>, pid: u32, now: u64) -> bool {
    match last {
        Some((was, at)) => was == pid && now - at < DUPLICATE_WINDOW_MS,
        None => false,
    }
}

/// Whether the shell may be restarted for the strip's sake.
pub open spec fn grants_heal(strip: Strip) -> bool {
    !strip.healed
}

/// The strip once a restart of the shell was asked for.
pub open spec fn after_heal(strip: Strip) -> Strip {
    Strip { healed: true, ..strip }
}

impl Strip {
    /// Nothing was injected, told or restarted yet.
    pub fn new() -> (r: Strip)
        ensures
            r == (Strip { up: false, last_injected: None, healed: false, applied: None }),
    {
        Strip { up: false, last_injected: None, healed: false, applied: None }
    }

    /// An injection begins: until it has succeeded there is no strip.
    pub fn injecting(&mut self)
        ensures
            *final(self) == (Strip { up: false, ..*old(self) }),
    {
        self.up = false;
    }

    /// An injection succeeded.
    pub fn injected(&mut self, pid: u32, now: u64)
        ensures
            *final(self) == (Strip { up: true, last_injected: Some((pid, now)), ..*old(self) }),
    {
        self.last_injected = Some((pid, now));
        self.up = true;
    }

    /// The strip was taken down, or the shell that drew it is going.
    pub fn gone(&mut self)
        ensures
            *final(self) == (Strip { up: false, ..*old(self) }),
    {
        self.up = false;
    }

    /// Whether this shell was injected into a moment ago.
    pub fn just_injected(&self, pid: u32, now: u64) -> (r: bool)
        ensures
            r == is_duplicate(self.last_injected, pid, now),
    {
        match self.last_injected {
            Some((was, at)) => was == pid && (now < at || now - at < DUPLICATE_WINDOW_MS),
            None => false,
        }
    }

    /// Whether the shell may be restarted for the strip's sake. It may once.
    pub fn heal(&mut self) -> (r: bool)
        ensures
            r == grants_heal(*old(self)),
            *final(self) == after_heal(*old(self)),
    {
        let first = !self.healed;
        self.healed = true;
        first
    }

    /// What to do when the program starts. A component that an earlier run left in the shell would
    /// undo what ours draws, so the shell is restarted to be rid of it, if that was not done yet.
    pub fn at_startup(&mut self, tap_present: bool) -> (r: Startup)
        ensures
            r == starts_with(*old(self), tap_present),
            *final(self) == after_start(*old(self), tap_present),
    {
        if tap_present && self.heal() {
            Startup::Heal
        } else {
            Startup::Inject
        }
    }

    /// Whether to inject once the shell is back. Not where that was just done for the same one: the
    /// program's start and the shell's can fall together.
    pub fn at_restart(&self, shell: Option<u32>, now: u64) -> (r: bool)
        ensures
            r == injects_at_restart(*self, shell, now),
    {
        match shell {
            Some(pid) => !self.just_injected(pid, now),
            None => true,
        }
    }

    /// What to tell the strip: nothing where it already draws exactly that.
    pub fn to_post(&self, icons: StripIcons) -> (r: Option<StripIcons>)
        ensures
            r == to_tell(*self, icons),
    {
        match self.applied {
            Some(shown) => if shown == icons {
                None
            } else {
                Some(icons)
            },
            None => Some(icons),
        }
    }

    /// The strip was told, or could not be: only what it was told is remembered, so that a message
    /// that got lost is sent again.
    pub fn posted(&mut self, icons: StripIcons, told: bool)
        ensures
            *final(self) == after_telling(*old(self), icons, told),
    {
        if told {
            self.applied = Some(icons);
        }
    }

    /// Forgets what the strip draws, because what drew it is gone.
    pub fn invalidate(&mut self)
        ensures
            *final(self) == forgotten(*old(self)),
    {
        self.applied = None;
    }

    /// What the strip is to draw while a click is still being carried out: one button's new icon and
    /// mute. Without an icon the button keeps its own. Nothing where it is not known what the strip
    /// draws now.
    pub fn preview(&self, flow: Flow, icon: Option<IconId>, muted: bool) -> (r: Option<StripIcons>)
        ensures
            r == (match self.applied {
                None => None,
                Some(shown) => Some(amended(shown, flow, icon, muted)),
            }),
    {
        match self.applied {
            None => None,
            Some(shown) => {
                let mut icons = shown;
                match flow {
                    Flow::Output => {
                        if let Some(i) = icon {
                            icons.output = strip_glyph(i);
                        }
                        icons.output_muted = muted;
                    },
                    Flow::Input => {
                        if let Some(i) = icon {
                            icons.input = strip_glyph(i);
                        }
                        icons.input_muted = muted;
                    },
                }
                Some(icons)
            },
        }
    }
}

/// The strip with one button's icon and mute replaced.
pub open spec fn amended(shown: StripIcons, flow: Flow, icon: Option<IconId>, muted: bool) -> StripIcons {
    match flow {
        Flow::Output => StripIcons {
            output: match icon {
                Some(i) => strip_glyph_view(i),
                None => shown.output,
            },
            output_muted: muted,
            ..shown
        },
        Flow::Input => StripIcons {
            input: match icon {
                Some(i) => strip_glyph_view(i),
                None => shown.input,
            },
            input_muted: muted,
            ..shown
        },
    }
}

/// A preview of one button never touches the other.
pub proof fn law_a_preview_keeps_the_other_button(
    shown: StripIcons,
    flow: Flow,
    icon: Option<IconId>,
    muted: bool,
)
    ensures
        flow == Flow::Output ==> amended(shown, flow, icon, muted).input == shown.input && amended(
            shown,
            flow,
            icon,
            muted,
        ).input_muted == shown.input_muted,
        flow == Flow::Input ==> amended(shown, flow, icon, muted).output == shown.output && amended(
            shown,
            flow,
            icon,
            muted,
        ).output_muted == shown.output_muted,
{
}

/// How long to wait before another try of an injection, if there is to be one.
pub fn retry_gap(attempt: u32) -> (r: Option<u64>)
    ensures
        r == gap_before_retry(attempt),
{
    if attempt < ENABLE_TRIES {
        Some(ENABLE_GAP_MS)
    } else {
        None
    }
}

/// How long the shell gets to go, in milliseconds.
pub const SHELL_EXIT_WAIT_MS: u32 = 2_500;

/// Why a restart of the shell failed.
#[derive(Debug, Clone, Copy, PartialEq, Eq, Structural)]
pub enum ShellError {
    /// It could not be terminated.
    Terminate,
    /// It was terminated and would not go.
    WouldNotExit,
    /// A new one could not be launched.
    Launch,
}

/// Where a restart of the shell stands, which is also what is to be done next.
#[derive(Debug, Clone, Copy, PartialEq, Eq, Structural)]
pub enum ShellRestart {
    /// Ask the shell to exit.
    Ask,
    /// Wait for it to go.
    AwaitExit,
    /// Terminate it.
    Terminate,
    /// Wait for it to go, having terminated it.
    AwaitDeath,
    /// It is gone and nothing holds the strip's component: put a waiting update of it in place.
    Vacant { terminated: bool },
    /// Wait for a shell to come back by itself.
    AwaitShell { terminated: bool },
    /// Launch one.
    Launch,
    Done,
    Failed(ShellError),
}

/// What came of it.
#[derive(Debug, Clone, Copy, PartialEq, Eq, Structural)]
pub enum ShellEvent {
    /// The request to exit was, or was not, delivered.
    Asked(bool),
    /// The wait ended with the shell gone, or not.
    Exited(bool),
    /// The shell was, or could not be, terminated.
    Terminated(bool),
    /// The update was put in place, or there was none.
    Placed,
    /// The wait ended with a shell there, or not.
    Returned(bool),
    /// A shell was, or could not be, launched.
    Launched(bool),
}

/// Where a restart goes from each place. What does not belong there changes nothing.
pub open spec fn shell_next(at: ShellRestart, event: ShellEvent) -> ShellRestart {
    match (at, event) {
        (ShellRestart::Ask, ShellEvent::Asked(true)) => ShellRestart::AwaitExit,
        (ShellRestart::Ask, ShellEvent::Asked(false)) => ShellRestart::Terminate,
        (ShellRestart::AwaitExit, ShellEvent::Exited(true)) => ShellRestart::Vacant {
            terminated: false,
        },
        (ShellRestart::AwaitExit, ShellEvent::Exited(false)) => ShellRestart::Terminate,
        (ShellRestart::Terminate, ShellEvent::Terminated(true)) => ShellRestart::AwaitDeath,
        (ShellRestart::Terminate, ShellEvent::Terminated(false)) => ShellRestart::Failed(
            ShellError::Terminate,
        ),
        (ShellRestart::AwaitDeath, ShellEvent::Exited(true)) => ShellRestart::Vacant {
            terminated: true,
        },
        (ShellRestart::AwaitDeath, ShellEvent::Exited(false)) => ShellRestart::Failed(
            ShellError::WouldNotExit,
        ),
        (ShellRestart::Vacant { terminated }, ShellEvent::Placed) => ShellRestart::AwaitShell {
            terminated,
        },
        (ShellRestart::AwaitShell { .. }, ShellEvent::Returned(true)) => ShellRestart::Done,
        (ShellRestart::AwaitShell { .. }, ShellEvent::Returned(false)) => ShellRestart::Launch,
        (ShellRestart::Launch, ShellEvent::Launched(true)) => ShellRestart::Done,
        (ShellRestart::Launch, ShellEvent::Launched(false)) => ShellRestart::Failed(
            ShellError::Launch,
        ),
        _ => at,
    }
}

impl ShellRestart {
    /// Goes on with what came of the last step.
    pub fn next(self, event: ShellEvent) -> (r: ShellRestart)
        ensures
            r == shell_next(self, event),
    {
        match (self, event) {
            (ShellRestart::Ask, ShellEvent::Asked(true)) => ShellRestart::AwaitExit,
            (ShellRestart::Ask, ShellEvent::Asked(false)) => ShellRestart::Terminate,
            (ShellRestart::AwaitExit, ShellEvent::Exited(true)) => ShellRestart::Vacant {
                terminated: false,
            },
            (ShellRestart::AwaitExit, ShellEvent::Exited(false)) => ShellRestart::Terminate,
            (ShellRestart::Terminate, ShellEvent::Terminated(true)) => ShellRestart::AwaitDeath,
            (ShellRestart::Terminate, ShellEvent::Terminated(false)) => ShellRestart::Failed(
                ShellError::Terminate,
            ),
            (ShellRestart::AwaitDeath, ShellEvent::Exited(true)) => ShellRestart::Vacant {
                terminated: true,
            },
            (ShellRestart::AwaitDeath, ShellEvent::Exited(false)) => ShellRestart::Failed(
                ShellError::WouldNotExit,
            ),
            (ShellRestart::Vacant { terminated }, ShellEvent::Placed) => ShellRestart::AwaitShell {
                terminated,
            },
            (ShellRestart::AwaitShell { .. }, ShellEvent::Returned(true)) => ShellRestart::Done,
            (ShellRestart::AwaitShell { .. }, ShellEvent::Returned(false)) => ShellRestart::Launch,
            (ShellRestart::Launch, ShellEvent::Launched(true)) => ShellRestart::Done,
            (ShellRestart::Launch, ShellEvent::Launched(false)) => ShellRestart::Failed(
                ShellError::Launch,
            ),
            _ => self,
        }
    }

    /// How long the wait of this step lasts at the most, in milliseconds. A shell that was terminated
    /// is more likely to come back by itself and gets longer to.
    pub fn wait_ms(self) -> (r: u32)
        ensures
            r == (match self {
                ShellRestart::AwaitExit => SHELL_EXIT_WAIT_MS,
                ShellRestart::AwaitDeath => SHELL_EXIT_WAIT_MS,
                ShellRestart::AwaitShell { terminated } => if terminated {
                    1_500
                } else {
                    500
                },
                _ => 0,
            }),
    {
        match self {
            ShellRestart::AwaitExit => SHELL_EXIT_WAIT_MS,
            ShellRestart::AwaitDeath => SHELL_EXIT_WAIT_MS,
            ShellRestart::AwaitShell { terminated } => if terminated {
                1_500
            } else {
                500
            },
            _ => 0,
        }
    }
}

/// Where a restart stands after a run of events.
pub open spec fn shell_after(at: ShellRestart, events: Seq<ShellEvent>) -> ShellRestart
    decreases events.len(),
{
    if events.len() == 0 {
        at
    } else {
        shell_next(shell_after(at, events.drop_last()), events.last())
    }
}

/// A shell is launched only after a wait for one to come back by itself was in vain, so that no
/// file window is opened beside it; and only after the moment in which the component was free to be
/// replaced.
pub proof fn law_a_shell_is_launched_only_if_none_came_back(events: Seq<ShellEvent>)
    requires
        shell_after(ShellRestart::Ask, events) == ShellRestart::Launch,
    ensures
        events.contains(ShellEvent::Returned(false)),
        events.contains(ShellEvent::Placed),
        events.contains(ShellEvent::Exited(true)),
    decreases events.len(),
{
    let before = shell_after(ShellRestart::Ask, events.drop_last());
    lemma_contains_more(events);
    if before == ShellRestart::Launch {
        law_a_shell_is_launched_only_if_none_came_back(events.drop_last());
    } else {
        assert(events.last() == ShellEvent::Returned(false));
        assert(events[events.len() - 1] == ShellEvent::Returned(false));
        lemma_waiting_came_after_vacancy(events.drop_last());
    }
}

proof fn lemma_contains_more(events: Seq<ShellEvent>)
    requires
        events.len() > 0,
    ensures
        forall|e: ShellEvent| #[trigger] events.drop_last().contains(e) ==> events.contains(e),
        events.contains(events.last()),
{
    assert forall|e: ShellEvent| #[trigger] events.drop_last().contains(e) implies events.contains(
        e,
    ) by {
        let i = choose|i: int| 0 <= i < events.drop_last().len() && events.drop_last()[i] == e;
        assert(events[i] == e);
    }
    assert(events[events.len() - 1] == events.last());
}

proof fn lemma_waiting_came_after_vacancy(events: Seq<ShellEvent>)
    requires
        shell_after(ShellRestart::Ask, events) is AwaitShell,
    ensures
        events.contains(ShellEvent::Placed),
        events.contains(ShellEvent::Exited(true)),
    decreases events.len(),
{
    lemma_contains_more(events);
    let before = shell_after(ShellRestart::Ask, events.drop_last());
    if before is AwaitShell {
        lemma_waiting_came_after_vacancy(events.drop_last());
    } else {
        lemma_vacancy_came_after_exit(events.drop_last());
    }
}

proof fn lemma_vacancy_came_after_exit(events: Seq<ShellEvent>)
    requires
        shell_after(ShellRestart::Ask, events) is Vacant,
    ensures
        events.contains(ShellEvent::Exited(true)),
    decreases events.len(),
{
    lemma_contains_more(events);
    let before = shell_after(ShellRestart::Ask, events.drop_last());
    if before is Vacant {
        lemma_vacancy_came_after_exit(events.drop_last());
    }
}

/// How many of a run of requests to restart the shell for the strip's sake are granted.
pub open spec fn heals(strip: Strip, requests: nat) -> nat
    decreases requests,
{
    if requests == 0 {
        0
    } else {
        (if grants_heal(strip) {
            1nat
        } else {
            0
        }) + heals(after_heal(strip), (requests - 1) as nat)
    }
}

/// However often the strip asks for it, the shell is restarted for its sake at most once: at the first
/// request, if at all.
pub proof fn law_the_shell_is_healed_at_most_once(strip: Strip, requests: nat)
    ensures
        heals(strip, requests) == (if requests > 0 && grants_heal(strip) {
            1nat
        } else {
            0
        }),
    decreases requests,
{
    if requests > 0 {
        law_the_shell_is_healed_at_most_once(after_heal(strip), (requests - 1) as nat);
    }
}

/// The numbers of the actions on the wire are those the strip's component and the transport buttons use.
pub proof fn law_actions_have_their_numbers(code: usize, a: Action)
    requires
        a.code_view() == code,
    ensures
        code == 1 <==> a == Action::CycleOutput,
        code == 2 <==> a == Action::CycleInput,
        code == 3 <==> a == Action::OpenPanel,
        code == 10 <==> a == Action::Previous,
        code == 11 <==> a == Action::PlayPause,
        code == 12 <==> a == Action::Next,
        a.flow_view() == (if code == 1 {
            Some(Flow::Output)
        } else if code == 2 {
            Some(Flow::Input)
        } else {
            None
        }),
{
}

/// Every icon but the two kinds of earbuds is shown on the strip as it is drawn elsewhere.
pub proof fn law_the_strip_shows_the_fonts_glyph(icon: IconId)
    requires
        icon != IconId::WirelessEarbuds,
        icon != IconId::RoundEarbuds,
    ensures
        strip_glyph_view(icon) == icon.glyph_view(),
{
}

/// What the strip's component is handed are pairs in a fixed order, from which the code points, the mutes,
/// the colour and the process can be read back.
pub proof fn law_what_the_component_is_handed_reads_back(icons: StripIcons, accent: Seq<u8>, pid: u32) -> (r:
    (Seq<char>, Seq<char>, Seq<char>, Seq<char>, Seq<char>, Seq<char>))
    requires
        accent.len() == 3,
    ensures
        ({
            let (out, inp, red, green, blue, process) = r;
            &&& init_text(icons, accent, pid) == "tooltip="@ + "Audio Tray"@ + ";out="@ + out + ";in="@ + inp
                + ";outmuted="@ + (if icons.output_muted {
                seq!['1']
            } else {
                seq!['0']
            }) + ";inmuted="@ + (if icons.input_muted {
                seq!['1']
            } else {
                seq!['0']
            }) + ";accent="@ + red + green + blue + ";alpha="@ + "80"@ + ";hidevolume=1;pid="@ + process
            &&& text::hex_value(out) == icons.output as u32
            &&& text::hex_value(inp) == icons.input as u32
            &&& red.len() == 2 && text::hex_value(red) == accent[0]
            &&& green.len() == 2 && text::hex_value(green) == accent[1]
            &&& blue.len() == 2 && text::hex_value(blue) == accent[2]
            &&& text::number(process) == Some(pid as int)
        }),
{
    let h = |v: nat, w: nat| text::hex(v, w);
    text::law_hex_reads_back(icons.output as u32 as nat, 4);
    text::law_hex_reads_back(icons.input as u32 as nat, 4);
    text::law_hex_reads_back(accent[0] as nat, 2);
    text::law_hex_reads_back(accent[1] as nat, 2);
    text::law_hex_reads_back(accent[2] as nat, 2);
    text::lemma_byte_is_two_digits(accent[0]);
    text::lemma_byte_is_two_digits(accent[1]);
    text::lemma_byte_is_two_digits(accent[2]);
    text::law_a_number_reads_back(pid as nat);
    (
        h(icons.output as u32 as nat, 4),
        h(icons.input as u32 as nat, 4),
        h(accent[0] as nat, 2),
        h(accent[1] as nat, 2),
        h(accent[2] as nat, 2),
        text::decimal(pid as nat),
    )
}

/// An injection is a duplicate exactly where the same shell was injected into less than ten seconds ago.
pub proof fn law_a_second_injection_into_a_new_shell_is_none(was: u32, at: u64, pid: u32, now: u64)
    ensures
        is_duplicate(Some((was, at)), pid, now) <==> was == pid && now - at < 10_000,
        !is_duplicate(None, pid, now),
{
}

/// A preview gives its own button the icon it is about, or leaves it where there is none, and the mute.
pub proof fn law_a_preview_shows_what_the_click_does(shown: StripIcons, icon: IconId, muted: bool)
    ensures
        ({
            let o = amended(shown, Flow::Output, Some(icon), muted);
            o.output == strip_glyph_view(icon) && o.output_muted == muted
        }),
        ({
            let i = amended(shown, Flow::Input, Some(icon), muted);
            i.input == strip_glyph_view(icon) && i.input_muted == muted
        }),
        amended(shown, Flow::Output, None, muted) == (StripIcons { output_muted: muted, ..shown }),
        amended(shown, Flow::Input, None, muted) == (StripIcons { input_muted: muted, ..shown }),
{
}

/// The shell is terminated only where it was not asked or did not go; a restart ends well exactly where a
/// shell came back or one was launched, and badly exactly where it could not be terminated, would not go, or
/// none could be launched.
pub proof fn law_a_restart_goes_step_by_step(at: ShellRestart, event: ShellEvent)
    ensures
        ({
            let next = shell_next(at, event);
            &&& next == ShellRestart::Terminate && at != next ==> (at == ShellRestart::Ask && event
                == ShellEvent::Asked(false)) || (at == ShellRestart::AwaitExit && event
                == ShellEvent::Exited(false))
            &&& next == ShellRestart::Done && at != next <==> (at is AwaitShell && event
                == ShellEvent::Returned(true)) || (at == ShellRestart::Launch && event
                == ShellEvent::Launched(true))
            &&& next is Failed && !(at is Failed) <==> (at == ShellRestart::Terminate && event
                == ShellEvent::Terminated(false)) || (at == ShellRestart::AwaitDeath && event
                == ShellEvent::Exited(false)) || (at == ShellRestart::Launch && event
                == ShellEvent::Launched(false))
            &&& next is Launch && !(at is Launch) <==> at is AwaitShell && event
                == ShellEvent::Returned(false)
            &&& next is Vacant && !(at is Vacant) <==> (at is AwaitExit || at is AwaitDeath) && event
                == ShellEvent::Exited(true)
            &&& next is AwaitShell && !(at is AwaitShell) <==> at is Vacant && event == ShellEvent::Placed
            &&& at == ShellRestart::Ask && event == ShellEvent::Asked(true) ==> next
                == ShellRestart::AwaitExit
            &&& at == ShellRestart::Terminate && event == ShellEvent::Terminated(true) ==> next
                == ShellRestart::AwaitDeath
            &&& at is Vacant && next is AwaitShell ==> next->AwaitShell_terminated
                == at->Vacant_terminated
            &&& at == ShellRestart::AwaitExit && next is Vacant ==> !next->Vacant_terminated
            &&& at == ShellRestart::AwaitDeath && next is Vacant ==> next->Vacant_terminated
            &&& at is Done || at is Failed ==> next == at
        }),
{
}

/// What to tell the strip, if anything.
pub open spec fn to_tell(strip: Strip, icons: StripIcons) -> Option<StripIcons> {
    if strip.applied == Some(icons) {
        None
    } else {
        Some(icons)
    }
}

/// The strip after it was told, or could not be.
pub open spec fn after_telling(strip: Strip, icons: StripIcons, told: bool) -> Strip {
    if told {
        Strip { applied: Some(icons), ..strip }
    } else {
        strip
    }
}

/// The strip once it is not known any more what it draws.
pub open spec fn forgotten(strip: Strip) -> Strip {
    Strip { applied: None, ..strip }
}

/// What the strip was told it is not told again; anything else it is told; a message that got lost is sent
/// again; and once what drew it is gone, it is told in any case. None of this touches whether it is up.
pub proof fn law_the_strip_is_told_what_is_new(strip: Strip, icons: StripIcons, other: StripIcons)
    ensures
        to_tell(after_telling(strip, icons, true), icons) is None,
        other != icons ==> to_tell(after_telling(strip, icons, true), other) == Some(other),
        to_tell(after_telling(strip, icons, false), icons) == to_tell(strip, icons),
        to_tell(forgotten(strip), icons) == Some(icons),
        after_telling(strip, icons, true).up == strip.up && forgotten(strip).up == strip.up,
        after_telling(strip, icons, true).healed == strip.healed,
        after_telling(strip, icons, true).last_injected == strip.last_injected,
{
}

/// How long to wait before another try of an injection, if there is to be one.
pub open spec fn gap_before_retry(attempt: u32) -> Option<u64> {
    if attempt < ENABLE_TRIES {
        Some(ENABLE_GAP_MS)
    } else {
        None
    }
}

/// An injection is tried three times, three quarters of a second apart.
pub proof fn law_an_injection_is_tried_three_times(attempt: u32)
    ensures
        gap_before_retry(attempt) == Some(750u64) <==> attempt < 3,
        gap_before_retry(attempt) is None <==> attempt >= 3,
{
}

/// Whether to inject once the shell is back.
pub open spec fn injects_at_restart(strip: Strip, shell: Option<u32>, now: u64) -> bool {
    !(shell is Some && is_duplicate(strip.last_injected, shell->0, now))
}

/// A shell that is back is injected into, unless that was just done for the same one; one that cannot be told
/// is tried in any case.
pub proof fn law_a_new_shell_is_injected_into(strip: Strip, pid: u32, now: u64)
    ensures
        injects_at_restart(strip, None, now),
        strip.last_injected is None ==> injects_at_restart(strip, Some(pid), now),
        strip.last_injected matches Some((was, at)) ==> (injects_at_restart(strip, Some(pid), now) <==> was
            != pid || now >= at + 10_000),
{
}

/// What the program does about the strip when it starts.
pub open spec fn starts_with(strip: Strip, tap_present: bool) -> Startup {
    if tap_present && grants_heal(strip) {
        Startup::Heal
    } else {
        Startup::Inject
    }
}

/// The strip once the program has started.
pub open spec fn after_start(strip: Strip, tap_present: bool) -> Strip {
    if tap_present {
        after_heal(strip)
    } else {
        strip
    }
}

/// The shell is restarted at the start only where a component is left in it, and then only once: a second
/// start, or a failure after it, injects or gives up. Where none is left, the one restart is still to be had.
pub proof fn law_a_left_component_is_cleared_once(strip: Strip, tap_present: bool)
    ensures
        starts_with(strip, false) == Startup::Inject,
        !strip.healed ==> starts_with(strip, true) == Startup::Heal,
        starts_with(after_start(strip, true), tap_present) == Startup::Inject,
        !grants_heal(after_start(strip, true)),
        after_start(strip, false) == strip,
        after_start(strip, true).up == strip.up,
{
}

} // verus!
