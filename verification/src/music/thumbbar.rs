//! The transport buttons under the player's preview: the shell's own thumbnail toolbar, put on a
//! window that is not ours.
use crate::music::smtc::Command;
use crate::text;
use vstd::prelude::*;

verus! {

pub const PREVIOUS: char = '\u{E892}';

pub const PLAY: char = '\u{E768}';

pub const PAUSE: char = '\u{E769}';

pub const NEXT: char = '\u{E893}';

// The buttons' numbers: those of the strip's own wire.
pub const ID_PREVIOUS: u32 = 10;

pub const ID_PLAY_PAUSE: u32 = 11;

pub const ID_NEXT: u32 = 12;

/// How long a tooltip's buffer is, its terminating zero included.
pub const TIP_LEN: usize = 260;

/// One button. Its tooltip is also what the strip's component knows it by.
#[derive(Debug, Clone, Copy)]
pub struct Button {
    pub id: u32,
    pub glyph: char,
    pub tip: &'static str,
    pub enabled: bool,
}

/// Whether three buttons are the transport's: previous, the one that plays or pauses, and next.
pub open spec fn are_transport(b: Seq<Button>, playing: bool, enabled: bool) -> bool {
    &&& b.len() == 3
    &&& b[0].id == ID_PREVIOUS && b[0].glyph == PREVIOUS && b[0].tip@ == "Previous"@
    &&& b[1].id == ID_PLAY_PAUSE
    &&& b[1].glyph == (if playing {
        PAUSE
    } else {
        PLAY
    })
    &&& b[1].tip@ == (if playing {
        "Pause"@
    } else {
        "Play"@
    })
    &&& b[2].id == ID_NEXT && b[2].glyph == NEXT && b[2].tip@ == "Next"@
    &&& b[0].enabled == enabled && b[1].enabled == enabled && b[2].enabled == enabled
}

/// The transport's buttons: the middle one offers what is not being done.
pub fn buttons(playing: bool, enabled: bool) -> (r: Vec<Button>)
    ensures
        are_transport(r@, playing, enabled),
{
    let mut out: Vec<Button> = Vec::new();
    out.push(Button { id: ID_PREVIOUS, glyph: PREVIOUS, tip: "Previous", enabled });
    out.push(
        if playing {
            Button { id: ID_PLAY_PAUSE, glyph: PAUSE, tip: "Pause", enabled }
        } else {
            Button { id: ID_PLAY_PAUSE, glyph: PLAY, tip: "Play", enabled }
        },
    );
    out.push(Button { id: ID_NEXT, glyph: NEXT, tip: "Next", enabled });
    out
}

/// What a click on the button with the given number asks of the player.
pub open spec fn command_of_id(id: usize) -> Option<Command> {
    if id == ID_PREVIOUS {
        Some(Command::Previous)
    } else if id == ID_PLAY_PAUSE {
        Some(Command::TogglePlayPause)
    } else if id == ID_NEXT {
        Some(Command::Next)
    } else {
        None
    }
}

/// What a click on the button with the given number asks of the player.
pub fn command_of(id: usize) -> (r: Option<Command>)
    ensures
        r == command_of_id(id),
{
    match id {
        10 => Some(Command::Previous),
        11 => Some(Command::TogglePlayPause),
        12 => Some(Command::Next),
        _ => None,
    }
}

/// Every button asks something of the player, and no two ask the same.
pub proof fn law_every_button_has_its_command(b: Seq<Button>, playing: bool, enabled: bool, i: int, j: int)
    requires
        are_transport(b, playing, enabled),
        0 <= i < j < 3,
    ensures
        command_of_id(b[i].id as usize) is Some,
        command_of_id(b[j].id as usize) is Some,
        command_of_id(b[i].id as usize) != command_of_id(b[j].id as usize),
{
}

/// A tooltip's buffer: as much of the text as leaves room for a zero, and zeros behind it.
pub open spec fn tip_buffer(s: Seq<char>) -> Seq<u16> {
    Seq::new(
        TIP_LEN as nat,
        |i: int|
            if i < text::utf16(s).len() && i < TIP_LEN - 1 {
                text::utf16(s)[i]
            } else {
                0u16
            },
    )
}

/// A tooltip in its fixed buffer, cut short to leave room for the terminating zero.
pub fn tooltip(s: &str) -> (r: Vec<u16>)
    ensures
        r@ == tip_buffer(s@),
{
    let units = text::encode_utf16(s);
    let mut out: Vec<u16> = Vec::new();
    let mut i: usize = 0;
    while i < TIP_LEN
        invariant
            i <= TIP_LEN,
            units@ == text::utf16(s@),
            out@ == tip_buffer(s@).take(i as int),
        decreases TIP_LEN - i,
    {
        let unit: u16 = if i < units.len() && i < TIP_LEN - 1 {
            units[i]
        } else {
            0
        };
        proof {
            assert(tip_buffer(s@)[i as int] == unit);
            assert(tip_buffer(s@).take(i + 1) =~= tip_buffer(s@).take(i as int).push(unit));
        }
        out.push(unit);
        i = i + 1;
    }
    proof {
        assert(tip_buffer(s@).take(TIP_LEN as int) =~= tip_buffer(s@));
    }
    out
}

/// A tooltip's buffer always ends in a zero, however long its text.
pub proof fn law_a_tooltip_is_terminated(s: Seq<char>)
    ensures
        tip_buffer(s).len() == TIP_LEN,
        tip_buffer(s)[TIP_LEN - 1] == 0,
{
}

/// What is known of the buttons on one window.
#[derive(Debug, Clone, Copy, PartialEq, Eq)]
pub struct ThumbBar {
    /// Buttons can be added to a window once; after that they are updated.
    pub added: bool,
    /// What the middle button last offered.
    pub showing_pause: Option<bool>,
}

/// What the shell is to be asked.
#[derive(Debug, Clone, Copy, PartialEq, Eq, Structural)]
pub enum Install {
    Add,
    Update,
}

/// What the shell is to be asked to bring a window's buttons in line, if anything.
pub open spec fn to_install(bar: ThumbBar, playing: bool) -> Option<Install> {
    if bar.added && bar.showing_pause == Some(playing) {
        None
    } else if bar.added {
        Some(Install::Update)
    } else {
        Some(Install::Add)
    }
}

impl ThumbBar {
    /// No buttons were added.
    pub fn new() -> (r: ThumbBar)
        ensures
            r == (ThumbBar { added: false, showing_pause: None }),
    {
        ThumbBar { added: false, showing_pause: None }
    }

    /// What the shell is to be asked to bring the buttons in line; nothing where they are.
    pub fn apply(&self, playing: bool) -> (r: Option<Install>)
        ensures
            r == to_install(*self, playing),
    {
        if self.added {
            match self.showing_pause {
                Some(shown) => if shown == playing {
                    None
                } else {
                    Some(Install::Update)
                },
                None => Some(Install::Update),
            }
        } else {
            Some(Install::Add)
        }
    }

    /// The shell did as it was asked.
    pub fn applied(&mut self, playing: bool)
        ensures
            *final(self) == (ThumbBar { added: true, showing_pause: Some(playing) }),
    {
        self.added = true;
        self.showing_pause = Some(playing);
    }

    /// The shell has forgotten the buttons: they are to be added again, and there is nothing to grey
    /// out.
    pub fn forget_registration(&mut self)
        ensures
            *final(self) == (ThumbBar { added: false, showing_pause: None }),
    {
        self.added = false;
        self.showing_pause = None;
    }

    /// Whether the buttons are to be greyed out when this is let go. They cannot be taken off a
    /// window, and a button that looks live and does nothing is worse than a grey one.
    pub fn greys_on_drop(&self) -> (r: bool)
        ensures
            r == self.added,
    {
        self.added
    }
}

/// The first time buttons are added, after that they are updated, a state that is on show asks for
/// nothing, and once the shell has forgotten them they are added again.
pub proof fn law_buttons_are_added_once(playing: bool, other: bool)
    ensures
        to_install(ThumbBar { added: false, showing_pause: None }, playing) == Some(Install::Add),
        to_install(ThumbBar { added: true, showing_pause: Some(playing) }, playing) is None,
        playing != other ==> to_install(
            ThumbBar { added: true, showing_pause: Some(playing) },
            other,
        ) == Some(Install::Update),
{
}

/// The buttons, on whichever window the player has now.
#[derive(Debug, Clone, Copy, PartialEq, Eq)]
pub struct Toolbar {
    pub bar: Option<ThumbBar>,
    /// The window they are on. It dies with the player.
    pub window: Option<u64>,
}

/// What is left to be done for the buttons.
#[derive(Debug, Clone, Copy, PartialEq, Eq)]
pub struct ToolbarStep {
    /// The buttons of the window that went away are to be let go, being on record as added or not.
    pub let_go: Option<ThumbBar>,
    /// The window to act on, where the player has one.
    pub window: Option<u64>,
    /// The shell's taskbar list has to be had first.
    pub needs_list: bool,
}

impl Toolbar {
    /// No window is known.
    pub fn new() -> (r: Toolbar)
        ensures
            r == (Toolbar { bar: None, window: None }),
    {
        Toolbar { bar: None, window: None }
    }

    /// Takes stock before the buttons are brought in line: `live` says whether the known window is
    /// still there, `found` is the window the player has now. A window that went away takes its
    /// buttons along.
    pub fn update(&mut self, live: bool, found: Option<u64>) -> (r: ToolbarStep)
        ensures
            is_stock(*old(self), live, found, *final(self), r),
    {
        let alive = self.window.is_some() && live;
        let mut let_go: Option<ThumbBar> = None;
        if !alive {
            let_go = self.bar;
            self.bar = None;
            self.window = found;
        }
        ToolbarStep {
            let_go,
            window: self.window,
            needs_list: self.window.is_some() && self.bar.is_none(),
        }
    }

    /// The taskbar list was had: buttons can be put up.
    pub fn list_ready(&mut self)
        ensures
            final(self).window == old(self).window,
            final(self).bar == (match old(self).bar {
                Some(b) => Some(b),
                None => Some(ThumbBar { added: false, showing_pause: None }),
            }),
    {
        if self.bar.is_none() {
            self.bar = Some(ThumbBar::new());
        }
    }

    /// What the shell is to be asked, where there are buttons to speak of.
    pub fn apply(&self, playing: bool) -> (r: Option<Install>)
        ensures
            r == (match self.bar {
                Some(b) => to_install(b, playing),
                None => None,
            }),
    {
        match self.bar {
            Some(b) => b.apply(playing),
            None => None,
        }
    }

    /// The shell did as it was asked.
    pub fn applied(&mut self, playing: bool)
        ensures
            final(self).window == old(self).window,
            final(self).bar == (match old(self).bar {
                Some(_) => Some(ThumbBar { added: true, showing_pause: Some(playing) }),
                None => None,
            }),
    {
        if self.bar.is_some() {
            self.bar = Some(ThumbBar { added: true, showing_pause: Some(playing) });
        }
    }

    /// The buttons are let go on the way out.
    pub fn clear(&mut self) -> (let_go: Option<ThumbBar>)
        ensures
            let_go == old(self).bar,
            *final(self) == (Toolbar { bar: None, window: old(self).window }),
    {
        let bar = self.bar;
        self.bar = None;
        bar
    }

    /// The shell restarted: it has forgotten the buttons, so nothing is greyed out, and the next
    /// update adds them again.
    pub fn taskbar_restarted(&mut self)
        ensures
            *final(self) == (Toolbar { bar: None, window: old(self).window }),
    {
        self.bar = None;
    }
}

/// The three buttons are the track before, the one that plays or pauses, and the next. The middle one offers
/// what is not being done: to pause while it plays, to play otherwise. Their names are what they are known
/// by.
pub proof fn law_the_middle_button_offers_what_is_not_being_done(
    b: Seq<Button>,
    playing: bool,
    enabled: bool,
    i: int,
)
    requires
        are_transport(b, playing, enabled),
        0 <= i < 3,
    ensures
        b.len() == 3,
        b[0].id == 10 && b[1].id == 11 && b[2].id == 12,
        b[0].tip@ == "Previous"@ && b[2].tip@ == "Next"@,
        b[0].glyph == '\u{E892}' && b[2].glyph == '\u{E893}',
        playing ==> b[1].tip@ == "Pause"@ && b[1].glyph == '\u{E769}',
        !playing ==> b[1].tip@ == "Play"@ && b[1].glyph == '\u{E768}',
        b[i].enabled == enabled,
{
}

/// A button's number stands for what its name says, and no other number for anything.
pub proof fn law_only_the_buttons_numbers_are_commands(id: usize)
    ensures
        command_of_id(id) == Some(Command::Previous) <==> id == 10,
        command_of_id(id) == Some(Command::TogglePlayPause) <==> id == 11,
        command_of_id(id) == Some(Command::Next) <==> id == 12,
{
}

/// A tooltip's buffer holds as much of its text as leaves room for a zero, and nothing else but zeros.
pub proof fn law_a_tooltip_holds_its_text(s: Seq<char>, i: int)
    requires
        0 <= i < 260,
    ensures
        tip_buffer(s).len() == 260,
        i < 259 && i < text::utf16(s).len() ==> tip_buffer(s)[i] == text::utf16(s)[i],
        i >= 259 || i >= text::utf16(s).len() ==> tip_buffer(s)[i] == 0,
{
}

/// Buttons are added where none are, and updated exactly where the middle one offers something else than it
/// should.
pub proof fn law_buttons_follow_what_is_played(bar: ThumbBar, playing: bool)
    ensures
        !bar.added ==> to_install(bar, playing) == Some(Install::Add),
        bar.added && bar.showing_pause != Some(playing) ==> to_install(bar, playing) == Some(
            Install::Update,
        ),
        bar.added && bar.showing_pause == Some(playing) ==> to_install(bar, playing) is None,
{
}

/// Whether that is what taking stock of the buttons comes to.
pub open spec fn is_stock(
    was: Toolbar,
    live: bool,
    found: Option<u64>,
    is: Toolbar,
    r: ToolbarStep,
) -> bool {
    let alive = was.window is Some && live;
    &&& is.bar == (if alive {
        was.bar
    } else {
        None
    })
    &&& is.window == (if alive {
        was.window
    } else {
        found
    })
    &&& r.let_go == (if alive {
        None
    } else {
        was.bar
    })
    &&& r.window == is.window
    &&& r.needs_list == (is.window is Some && is.bar is None)
}

/// Buttons stay with a window that is there. Those of one that went away are let go, and the window that the
/// player has now is taken up without any; so no window is ever taken for one with another's buttons.
pub proof fn law_buttons_stay_with_their_window(
    was: Toolbar,
    live: bool,
    found: Option<u64>,
    is: Toolbar,
    r: ToolbarStep,
)
    requires
        is_stock(was, live, found, is, r),
    ensures
        was.window is Some && live ==> is == was && r.let_go is None,
        was.window is None || !live ==> is.window == found && is.bar is None && r.let_go == was.bar,
        r.window == is.window,
        r.needs_list ==> is.window is Some && is.bar is None,
        is.window is Some && is.bar is None ==> r.needs_list,
{
}

} // verus!
