//! Following one music player: which media session is its, what that is playing, and what the
//! taskbar shows of it.
//!
//! ```text
//! session   which app id, and which window, is the player's
//! smtc      a media session as plain values
//! feed      which session is followed
//! publish   what the strip is handed
//! progress  the position, as the taskbar's progress bar
//! thumbbar  the transport buttons under the preview
//! player    bringing the player forward
//! ```
use crate::music::feed::{State, Ytm};
use crate::music::progress::Progress;
use crate::music::publish::Publisher;
use crate::music::smtc::{Reading, Timeline};
use crate::music::thumbbar::{ThumbBar, Toolbar};
use crate::text;
use crate::update;
use vstd::prelude::*;

pub mod feed;
pub mod player;
pub mod progress;
pub mod publish;
pub mod report;
pub mod session;
pub mod smtc;
pub mod thumbbar;

verus! {

/// Between two polls, in milliseconds.
pub const POLL_MS: u64 = 1_000;

/// Everything the taskbar's half of this needs, held together: a poll moves all of it, or the strip
/// would disagree with itself.
#[derive(Debug)]
pub struct Music {
    pub feed: Ytm,
    pub publisher: Publisher,
    pub progress: Progress,
    pub toolbar: Toolbar,
}

/// What one poll found.
#[derive(Debug)]
pub struct Poll {
    /// What the strip is to show.
    pub state: State,
    /// Where the track is.
    pub timeline: Option<Timeline>,
    /// Whether it plays, which decides the bar's colour and the middle button.
    pub playing: bool,
    /// The player's id, to be remembered while it can be seen.
    pub app_id: Option<String>,
}

/// What became of a command.
#[derive(Debug, Clone, Copy, PartialEq, Eq, Structural)]
pub enum Sent {
    /// The session took it.
    Accepted,
    /// There is no session, or it refused.
    Refused,
    /// It could not be sent.
    Failed,
}

/// What the music thread woke up for.
#[derive(Debug, Clone, Copy, PartialEq, Eq, Structural)]
pub enum Wake {
    /// A command came in.
    Command,
    /// It is to stop.
    ShutDown,
    /// The time for a poll has come.
    Timeout,
    /// Nobody is left to send anything.
    Disconnected,
}

/// What it does then.
#[derive(Debug, Clone, Copy, PartialEq, Eq, Structural)]
pub enum Serve {
    /// Carry the command out, and go on with what [`Music::after_command`] says.
    Command,
    Poll,
    /// Take everything back, and end.
    Stop,
}

/// What follows a command, in this order.
#[derive(Debug)]
pub struct AfterCommand {
    /// Bring the player forward, once. No media key is sent instead: it would go to whichever app owns
    /// them.
    pub raise: bool,
    /// What the player is known by, where a session of it is followed.
    pub app_id: Option<String>,
    /// One poll, so that a button does not look dead for a second.
    pub next: Serve,
}

/// What is to be taken back on the way out.
#[derive(Debug)]
pub struct TakeBack {
    /// The cover's file, beside the state's own.
    pub cover: Option<String>,
    /// The buttons.
    pub bar: Option<ThumbBar>,
}

impl Music {
    /// A feed that follows nothing yet, and nothing shown.
    pub fn new(pinned: Option<String>) -> (r: Music)
        ensures
            r.feed.pin() == update::text_view(pinned),
            r.feed.following() is None,
            r.publisher.written() is None,
            r.publisher.covers_named() == 0,
            r.publisher.cover_path() is None,
            r.publisher.cover_print() is None,
            r.publisher.wf(),
            r.progress.last is None,
            r.toolbar == (Toolbar { bar: None, window: None }),
    {
        Music {
            feed: Ytm::new(pinned),
            publisher: Publisher::new(),
            progress: Progress::new(),
            toolbar: Toolbar::new(),
        }
    }

    /// Takes over what a poll read of the chosen session.
    pub fn poll(&mut self, reading: Option<Reading>) -> (r: Poll)
        ensures
            final(self).publisher == old(self).publisher,
            final(self).progress == old(self).progress,
            final(self).toolbar == old(self).toolbar,
            final(self).feed.pin() == old(self).feed.pin(),
            update::text_view(r.app_id) == final(self).feed.following(),
            r.playing == r.state.plays(),
            match reading {
                None => final(self).feed.following() is None && r.state is Absent && r.timeline
                    is None,
                Some(reading) => {
                    &&& final(self).feed.following() == Some(reading.snapshot.app_id@)
                    &&& r.timeline == reading.timeline
                    &&& if text::is_blank(reading.snapshot.title@) {
                        r.state is Absent
                    } else {
                        r.state == State::Track(reading.snapshot)
                    }
                },
            },
    {
        let (state, timeline) = self.feed.read(reading);
        let app_id = match self.feed.current_app_id() {
            Some(id) => Some(id.to_string()),
            None => None,
        };
        let playing = state.is_playing();
        Poll { state, timeline, playing, app_id }
    }

    /// Says what follows a command, given what became of it: the player is brought forward exactly where
    /// there was no session to take it, and one poll follows in every case.
    pub fn after_command(&self, sent: Sent) -> (r: AfterCommand)
        ensures
            r.raise == is_raised_by(sent),
            update::text_view(r.app_id) == self.feed.following(),
            r.next == Serve::Poll,
    {
        let app_id = match self.feed.current_app_id() {
            Some(id) => Some(id.to_string()),
            None => None,
        };
        AfterCommand { raise: raises_player(sent), app_id, next: Serve::Poll }
    }

    /// The shell restarted, and has forgotten the bar and the buttons.
    pub fn taskbar_restarted(&mut self)
        ensures
            final(self).feed == old(self).feed,
            final(self).publisher == old(self).publisher,
            final(self).progress.last is None,
            final(self).toolbar == (Toolbar { bar: None, window: old(self).toolbar.window }),
    {
        self.progress.taskbar_restarted();
        self.toolbar.taskbar_restarted();
    }

    /// Forgets everything that was put somewhere else, and says what there is to take back.
    pub fn shut_down(&mut self) -> (r: TakeBack)
        ensures
            final(self).feed == old(self).feed,
            final(self).publisher.written() is None,
            final(self).publisher.cover_path() is None,
            final(self).publisher.cover_print() is None,
            final(self).publisher.wf(),
            final(self).progress.last is None,
            final(self).toolbar.bar is None,
            update::text_view(r.cover) == old(self).publisher.cover_path(),
            r.bar == old(self).toolbar.bar,
    {
        let cover = self.publisher.clear();
        self.progress.taskbar_restarted();
        let bar = self.toolbar.clear();
        TakeBack { cover, bar }
    }
}

/// Whether the player is to be brought forward after a command: where there was no session to take
/// it. A media key would go to whichever app owns them.
pub fn raises_player(sent: Sent) -> (r: bool)
    ensures
        r == is_raised_by(sent),
{
    match sent {
        Sent::Refused => true,
        _ => false,
    }
}

/// What the music thread does when it wakes up. Losing its master ends it as well: what it put on
/// other windows is taken back in any case.
pub fn serve(wake: Wake) -> (r: Serve)
    ensures
        r == served(wake),
{
    match wake {
        Wake::Command => Serve::Command,
        Wake::Timeout => Serve::Poll,
        Wake::ShutDown => Serve::Stop,
        Wake::Disconnected => Serve::Stop,
    }
}

/// A field of a session for display.
pub fn show(value: &str) -> (r: String)
    ensures
        r@ == (if text::is_blank(value@) {
            "<empty>"@
        } else {
            value@
        }),
{
    if text::blank(value) {
        "<empty>".to_string()
    } else {
        value.to_string()
    }
}

/// Whether the player is brought forward after a command.
pub open spec fn is_raised_by(sent: Sent) -> bool {
    sent == Sent::Refused
}

/// What the music thread does when it wakes up.
pub open spec fn served(wake: Wake) -> Serve {
    match wake {
        Wake::Command => Serve::Command,
        Wake::Timeout => Serve::Poll,
        Wake::ShutDown => Serve::Stop,
        Wake::Disconnected => Serve::Stop,
    }
}

/// The player is brought forward only where there was no session to take a command; the thread ends exactly
/// where it is told to or nobody is left to tell it, and otherwise goes on.
pub proof fn law_only_a_refused_command_raises_the_player(sent: Sent, wake: Wake)
    ensures
        !is_raised_by(Sent::Accepted),
        !is_raised_by(Sent::Failed),
        is_raised_by(Sent::Refused),
        served(wake) == Serve::Stop <==> wake == Wake::ShutDown || wake == Wake::Disconnected,
        served(wake) == Serve::Command <==> wake == Wake::Command,
        served(wake) == Serve::Poll <==> wake == Wake::Timeout,
{
}

} // verus!
