//! The command line: what a run of the program is asked to do.
use crate::audio::Flow;
use crate::icons::{self, IconId};
use crate::taskbar::Action;
use crate::text;
use vstd::prelude::*;

verus! {

/// Which preview of the flyout.
#[derive(Debug, Clone, Copy, PartialEq, Eq, Structural)]
pub enum Preview {
    Panel,
    /// The first device's icon picker.
    Icons,
    /// The panel as if an update were staged.
    Update,
}

/// Which way to nudge the volume.
#[derive(Debug, Clone, Copy, PartialEq, Eq, Structural)]
pub enum Nudge {
    Up,
    Down,
    /// Only read it.
    Get,
}

/// What a run is asked to do. Operands that are not told apart here are those that follow, in order.
#[derive(Debug, Clone, Copy, PartialEq, Eq, Structural)]
pub enum Mode {
    /// Run the tray.
    Tray,
    Flyout(Preview),
    List,
    /// Switch the default output to the device that the operand names.
    Switch,
    /// Choose an icon for the device that the operand names.
    SetIcon(IconId),
    Volume(Nudge),
    /// Show the scroll readout, at the level in percent that the second operand may give.
    Osd(Flow),
    /// Tell who records, for this many seconds.
    Mic(u64),
    Meter,
    Update,
    TapVersion,
    TaskbarClick(Action),
    /// Turn the wheel over a button, by as many notches as the second operand may give.
    TaskbarScroll(Flow),
    TaskbarRestart,
    TaskbarRevert,
    MusicProbe,
    MusicTimeline,
    /// Set the player's progress bar to the percentage that the operand gives, or take it off.
    MusicProgress { shown: bool },
    MusicWindows,
    /// Put the transport buttons on the player's preview, as if it were playing or paused.
    MusicThumbbar(bool),
}

/// Why a command line is not understood.
#[derive(Debug, Clone, Copy, PartialEq, Eq, Structural)]
pub enum Usage {
    Switch,
    SetIcon,
    UnknownIcon,
    Volume,
    Osd,
    Mic,
    TaskbarClick,
    TaskbarScroll,
    MusicThumbbar,
}

/// For how many seconds it is told who records, unless the command line says.
pub const MIC_SECONDS: u64 = 20;

/// What the given arguments ask for.
pub open spec fn asked(args: Seq<Seq<char>>) -> Result<Mode, Usage> {
    let second = if args.len() > 1 {
        Some(args[1])
    } else {
        None
    };
    if args.len() == 0 {
        Ok(Mode::Tray)
    } else if args[0] == "--flyout"@ {
        Ok(
            Mode::Flyout(
                if second == Some("icons"@) {
                    Preview::Icons
                } else if second == Some("update"@) {
                    Preview::Update
                } else {
                    Preview::Panel
                },
            ),
        )
    } else if args[0] == "--list"@ {
        Ok(Mode::List)
    } else if args[0] == "--set"@ {
        if args.len() > 1 {
            Ok(Mode::Switch)
        } else {
            Err(Usage::Switch)
        }
    } else if args[0] == "--set-icon"@ {
        if args.len() <= 2 {
            Err(Usage::SetIcon)
        } else {
            match icons::named(args[2]) {
                Some(i) => Ok(Mode::SetIcon(i)),
                None => Err(Usage::UnknownIcon),
            }
        }
    } else if args[0] == "--vol"@ {
        if second == Some("up"@) {
            Ok(Mode::Volume(Nudge::Up))
        } else if second == Some("down"@) {
            Ok(Mode::Volume(Nudge::Down))
        } else if second == Some("get"@) || second is None {
            Ok(Mode::Volume(Nudge::Get))
        } else {
            Err(Usage::Volume)
        }
    } else if args[0] == "--osd"@ {
        if second == Some("in"@) {
            Ok(Mode::Osd(Flow::Input))
        } else if second == Some("out"@) || second is None {
            Ok(Mode::Osd(Flow::Output))
        } else {
            Err(Usage::Osd)
        }
    } else if args[0] == "--mic"@ {
        match second {
            None => Ok(Mode::Mic(MIC_SECONDS)),
            Some(operand) => match text::number(operand) {
                Some(n) => if n <= u64::MAX {
                    Ok(Mode::Mic(n as u64))
                } else {
                    Err(Usage::Mic)
                },
                None => Err(Usage::Mic),
            },
        }
    } else if args[0] == "--meter"@ {
        Ok(Mode::Meter)
    } else if args[0] == "--update"@ {
        Ok(Mode::Update)
    } else if args[0] == "--tap-version"@ {
        Ok(Mode::TapVersion)
    } else if args[0] == "--taskbar-click"@ {
        if second == Some("out"@) {
            Ok(Mode::TaskbarClick(Action::CycleOutput))
        } else if second == Some("in"@) {
            Ok(Mode::TaskbarClick(Action::CycleInput))
        } else if second == Some("panel"@) {
            Ok(Mode::TaskbarClick(Action::OpenPanel))
        } else {
            Err(Usage::TaskbarClick)
        }
    } else if args[0] == "--taskbar-scroll"@ {
        if second == Some("out"@) {
            Ok(Mode::TaskbarScroll(Flow::Output))
        } else if second == Some("in"@) {
            Ok(Mode::TaskbarScroll(Flow::Input))
        } else {
            Err(Usage::TaskbarScroll)
        }
    } else if args[0] == "--taskbar-restart"@ {
        Ok(Mode::TaskbarRestart)
    } else if args[0] == "--taskbar-revert"@ {
        Ok(Mode::TaskbarRevert)
    } else if args[0] == "--music-probe"@ {
        Ok(Mode::MusicProbe)
    } else if args[0] == "--music-timeline"@ {
        Ok(Mode::MusicTimeline)
    } else if args[0] == "--music-progress"@ {
        Ok(
            Mode::MusicProgress {
                shown: !(second is None || second == Some("off"@) || second == Some("none"@)),
            },
        )
    } else if args[0] == "--music-windows"@ {
        Ok(Mode::MusicWindows)
    } else if args[0] == "--music-thumbbar"@ {
        if second == Some("playing"@) || second is None {
            Ok(Mode::MusicThumbbar(true))
        } else if second == Some("paused"@) {
            Ok(Mode::MusicThumbbar(false))
        } else {
            Err(Usage::MusicThumbbar)
        }
    } else {
        Ok(Mode::Tray)
    }
}

/// Told nothing, the program runs the tray; and so it does after a word that does so alone, whatever
/// follows it.
pub proof fn law_an_unknown_word_runs_the_tray(word: Seq<char>, more: Seq<Seq<char>>)
    requires
        asked(seq![word]) == Ok::<Mode, Usage>(Mode::Tray),
    ensures
        asked(Seq::empty()) == Ok::<Mode, Usage>(Mode::Tray),
        asked(seq![word] + more) == Ok::<Mode, Usage>(Mode::Tray),
{
    assert((seq![word] + more)[0] == word);
}

/// The texts of the arguments.
pub open spec fn arg_texts(args: Seq<String>) -> Seq<Seq<char>> {
    args.map_values(|a: String| a@)
}

/// Whether there is an argument at `i`, and it is the given one.
fn is_arg(args: &[String], i: usize, word: &str) -> (r: bool)
    ensures
        r == (i < args@.len() && args@[i as int]@ == word@),
{
    i < args.len() && text::same_text(args[i].as_str(), word)
}

/// Reads the command line, without the program's own name. What is not known runs the tray.
pub fn parse(args: &[String]) -> (r: Result<Mode, Usage>)
    ensures
        r == asked(arg_texts(args@)),
{
    proof {
        assert(args@.len() > 0 ==> arg_texts(args@)[0] == args@[0]@);
        assert(args@.len() > 1 ==> arg_texts(args@)[1] == args@[1]@);
        assert(args@.len() > 2 ==> arg_texts(args@)[2] == args@[2]@);
    }
    let bare = args.len() < 2;
    if args.len() == 0 {
        Ok(Mode::Tray)
    } else if is_arg(args, 0, "--flyout") {
        if is_arg(args, 1, "icons") {
            Ok(Mode::Flyout(Preview::Icons))
        } else if is_arg(args, 1, "update") {
            Ok(Mode::Flyout(Preview::Update))
        } else {
            Ok(Mode::Flyout(Preview::Panel))
        }
    } else if is_arg(args, 0, "--list") {
        Ok(Mode::List)
    } else if is_arg(args, 0, "--set") {
        if bare {
            Err(Usage::Switch)
        } else {
            Ok(Mode::Switch)
        }
    } else if is_arg(args, 0, "--set-icon") {
        if args.len() <= 2 {
            Err(Usage::SetIcon)
        } else {
            match IconId::parse(args[2].as_str()) {
                Some(i) => Ok(Mode::SetIcon(i)),
                None => Err(Usage::UnknownIcon),
            }
        }
    } else if is_arg(args, 0, "--vol") {
        if is_arg(args, 1, "up") {
            Ok(Mode::Volume(Nudge::Up))
        } else if is_arg(args, 1, "down") {
            Ok(Mode::Volume(Nudge::Down))
        } else if bare || is_arg(args, 1, "get") {
            Ok(Mode::Volume(Nudge::Get))
        } else {
            Err(Usage::Volume)
        }
    } else if is_arg(args, 0, "--osd") {
        if is_arg(args, 1, "in") {
            Ok(Mode::Osd(Flow::Input))
        } else if bare || is_arg(args, 1, "out") {
            Ok(Mode::Osd(Flow::Output))
        } else {
            Err(Usage::Osd)
        }
    } else if is_arg(args, 0, "--mic") {
        if bare {
            Ok(Mode::Mic(MIC_SECONDS))
        } else {
            match text::parse_number(args[1].as_str()) {
                Some(n) => Ok(Mode::Mic(n)),
                None => Err(Usage::Mic),
            }
        }
    } else if is_arg(args, 0, "--meter") {
        Ok(Mode::Meter)
    } else if is_arg(args, 0, "--update") {
        Ok(Mode::Update)
    } else if is_arg(args, 0, "--tap-version") {
        Ok(Mode::TapVersion)
    } else if is_arg(args, 0, "--taskbar-click") {
        if is_arg(args, 1, "out") {
            Ok(Mode::TaskbarClick(Action::CycleOutput))
        } else if is_arg(args, 1, "in") {
            Ok(Mode::TaskbarClick(Action::CycleInput))
        } else if is_arg(args, 1, "panel") {
            Ok(Mode::TaskbarClick(Action::OpenPanel))
        } else {
            Err(Usage::TaskbarClick)
        }
    } else if is_arg(args, 0, "--taskbar-scroll") {
        if is_arg(args, 1, "out") {
            Ok(Mode::TaskbarScroll(Flow::Output))
        } else if is_arg(args, 1, "in") {
            Ok(Mode::TaskbarScroll(Flow::Input))
        } else {
            Err(Usage::TaskbarScroll)
        }
    } else if is_arg(args, 0, "--taskbar-restart") {
        Ok(Mode::TaskbarRestart)
    } else if is_arg(args, 0, "--taskbar-revert") {
        Ok(Mode::TaskbarRevert)
    } else if is_arg(args, 0, "--music-probe") {
        Ok(Mode::MusicProbe)
    } else if is_arg(args, 0, "--music-timeline") {
        Ok(Mode::MusicTimeline)
    } else if is_arg(args, 0, "--music-progress") {
        Ok(
            Mode::MusicProgress {
                shown: !(bare || is_arg(args, 1, "off") || is_arg(args, 1, "none")),
            },
        )
    } else if is_arg(args, 0, "--music-windows") {
        Ok(Mode::MusicWindows)
    } else if is_arg(args, 0, "--music-thumbbar") {
        if bare || is_arg(args, 1, "playing") {
            Ok(Mode::MusicThumbbar(true))
        } else if is_arg(args, 1, "paused") {
            Ok(Mode::MusicThumbbar(false))
        } else {
            Err(Usage::MusicThumbbar)
        }
    } else {
        Ok(Mode::Tray)
    }
}

/// The icon that a command line chooses is the one whose name it gives, in whatever case, and whatever device
/// it is for; for how long it is told who records is the number it gives; and which endpoint a gesture is
/// about is the one it names.
pub proof fn law_operands_mean_what_they_say(
    query: Seq<char>,
    written: Seq<char>,
    icon: IconId,
    seconds: u64,
    more: Seq<Seq<char>>,
)
    requires
        text::ascii_lower(written) == text::ascii_lower(icon.name_view()),
    ensures
        asked(seq!["--set-icon"@, query, written] + more) == Ok::<Mode, Usage>(Mode::SetIcon(icon)),
        asked(seq!["--set"@, query] + more) == Ok::<Mode, Usage>(Mode::Switch),
        asked(seq!["--mic"@, text::decimal(seconds as nat)] + more) == Ok::<Mode, Usage>(
            Mode::Mic(seconds),
        ),
{
    icons::law_a_name_reads_back(icon, written);
    text::law_a_number_reads_back(seconds as nat);
    lemma_words_differ();
    let a = seq!["--set-icon"@, query, written] + more;
    assert(a[0] == "--set-icon"@ && a[2] == written);
    let b = seq!["--set"@, query] + more;
    assert(b[0] == "--set"@);
    let c = seq!["--mic"@, text::decimal(seconds as nat)] + more;
    assert(c[0] == "--mic"@ && c[1] == text::decimal(seconds as nat));
}

/// Which way the volume is nudged, which endpoint a gesture or the readout is about, and what a preview shows
/// are what the operand names; a word that names none of them is not understood.
pub proof fn law_operands_choose_what_is_done(word: Seq<char>, more: Seq<Seq<char>>)
    ensures
        asked(seq!["--vol"@, word] + more) == (if word == "up"@ {
            Ok::<Mode, Usage>(Mode::Volume(Nudge::Up))
        } else if word == "down"@ {
            Ok(Mode::Volume(Nudge::Down))
        } else if word == "get"@ {
            Ok(Mode::Volume(Nudge::Get))
        } else {
            Err(Usage::Volume)
        }),
        asked(seq!["--osd"@, word] + more) == (if word == "in"@ {
            Ok::<Mode, Usage>(Mode::Osd(Flow::Input))
        } else if word == "out"@ {
            Ok(Mode::Osd(Flow::Output))
        } else {
            Err(Usage::Osd)
        }),
        asked(seq!["--taskbar-click"@, word] + more) == (if word == "out"@ {
            Ok::<Mode, Usage>(Mode::TaskbarClick(Action::CycleOutput))
        } else if word == "in"@ {
            Ok(Mode::TaskbarClick(Action::CycleInput))
        } else if word == "panel"@ {
            Ok(Mode::TaskbarClick(Action::OpenPanel))
        } else {
            Err(Usage::TaskbarClick)
        }),
        asked(seq!["--taskbar-scroll"@, word] + more) == (if word == "out"@ {
            Ok::<Mode, Usage>(Mode::TaskbarScroll(Flow::Output))
        } else if word == "in"@ {
            Ok(Mode::TaskbarScroll(Flow::Input))
        } else {
            Err(Usage::TaskbarScroll)
        }),
        asked(seq!["--music-progress"@, word] + more) == Ok::<Mode, Usage>(
            Mode::MusicProgress { shown: word != "off"@ && word != "none"@ },
        ),
{
    lemma_words_differ();
    lemma_options_differ();
    reveal_strlit("in");
    reveal_strlit("out");
    reveal_strlit("up");
    reveal_strlit("down");
    reveal_strlit("get");
    reveal_strlit("panel");
    assert("in"@.len() != "out"@.len());
    let a = seq!["--vol"@, word] + more;
    assert(a[0] == "--vol"@ && a[1] == word);
    let b = seq!["--osd"@, word] + more;
    assert(b[0] == "--osd"@ && b[1] == word);
    let c = seq!["--taskbar-click"@, word] + more;
    assert(c[0] == "--taskbar-click"@ && c[1] == word);
    let d = seq!["--taskbar-scroll"@, word] + more;
    assert(d[0] == "--taskbar-scroll"@ && d[1] == word);
    let e = seq!["--music-progress"@, word] + more;
    assert(e[0] == "--music-progress"@ && e[1] == word);
}

/// The modes without an operand are asked for by their word alone, whatever follows it.
pub proof fn law_modes_are_asked_for_by_their_word(more: Seq<Seq<char>>)
    ensures
        asked(seq!["--list"@] + more) == Ok::<Mode, Usage>(Mode::List),
        asked(seq!["--meter"@] + more) == Ok::<Mode, Usage>(Mode::Meter),
        asked(seq!["--update"@] + more) == Ok::<Mode, Usage>(Mode::Update),
        asked(seq!["--tap-version"@] + more) == Ok::<Mode, Usage>(Mode::TapVersion),
        asked(seq!["--taskbar-restart"@] + more) == Ok::<Mode, Usage>(Mode::TaskbarRestart),
        asked(seq!["--taskbar-revert"@] + more) == Ok::<Mode, Usage>(Mode::TaskbarRevert),
        asked(seq!["--music-probe"@] + more) == Ok::<Mode, Usage>(Mode::MusicProbe),
        asked(seq!["--music-timeline"@] + more) == Ok::<Mode, Usage>(Mode::MusicTimeline),
        asked(seq!["--music-windows"@] + more) == Ok::<Mode, Usage>(Mode::MusicWindows),
{
    lemma_words_differ();
    lemma_options_differ();
    assert((seq!["--list"@] + more)[0] == "--list"@);
    assert((seq!["--meter"@] + more)[0] == "--meter"@);
    assert((seq!["--update"@] + more)[0] == "--update"@);
    assert((seq!["--tap-version"@] + more)[0] == "--tap-version"@);
    assert((seq!["--taskbar-restart"@] + more)[0] == "--taskbar-restart"@);
    assert((seq!["--taskbar-revert"@] + more)[0] == "--taskbar-revert"@);
    assert((seq!["--music-probe"@] + more)[0] == "--music-probe"@);
    assert((seq!["--music-timeline"@] + more)[0] == "--music-timeline"@);
    assert((seq!["--music-windows"@] + more)[0] == "--music-windows"@);
}

proof fn lemma_options_differ()
    ensures
        "--meter"@.len() == 7,
        "--update"@.len() == 8,
        "--update"@ != "--flyout"@,
        "--tap-version"@.len() == 13,
        "--taskbar-click"@.len() == 15,
        "--taskbar-scroll"@.len() == 16,
        "--taskbar-restart"@.len() == 17,
        "--taskbar-revert"@.len() == 16,
        "--taskbar-revert"@ != "--taskbar-scroll"@,
        "--music-probe"@.len() == 13,
        "--music-probe"@ != "--tap-version"@,
        "--music-timeline"@.len() == 16,
        "--music-timeline"@ != "--taskbar-scroll"@ && "--music-timeline"@ != "--taskbar-revert"@,
        "--music-progress"@.len() == 16,
        "--music-progress"@ != "--taskbar-scroll"@ && "--music-progress"@ != "--taskbar-revert"@
            && "--music-progress"@ != "--music-timeline"@,
        "--music-windows"@.len() == 15,
        "--music-windows"@ != "--taskbar-click"@,
{
    reveal_strlit("--flyout");
    reveal_strlit("--meter");
    reveal_strlit("--update");
    reveal_strlit("--tap-version");
    reveal_strlit("--taskbar-click");
    reveal_strlit("--taskbar-scroll");
    reveal_strlit("--taskbar-restart");
    reveal_strlit("--taskbar-revert");
    reveal_strlit("--music-probe");
    reveal_strlit("--music-timeline");
    reveal_strlit("--music-progress");
    reveal_strlit("--music-windows");
    assert("--update"@[2] == 'u' && "--flyout"@[2] == 'f');
    assert("--music-probe"@[2] == 'm' && "--tap-version"@[2] == 't');
    assert("--music-timeline"@[2] == 'm' && "--taskbar-scroll"@[2] == 't' && "--taskbar-revert"@[2] == 't'
        && "--music-progress"@[2] == 'm');
    assert("--taskbar-revert"@[10] == 'r' && "--taskbar-scroll"@[10] == 's');
    assert("--music-progress"@[8] == 'p' && "--music-timeline"@[8] == 't');
    assert("--music-windows"@[2] == 'm' && "--taskbar-click"@[2] == 't');
}

proof fn lemma_words_differ()
    ensures
        "--set"@.len() == 5,
        "--set-icon"@.len() == 10,
        "--mic"@ != "--set"@ && "--mic"@ != "--vol"@ && "--mic"@ != "--osd"@,
        "--mic"@.len() == 5,
        "--flyout"@.len() == 8,
        "--list"@.len() == 6,
        "--vol"@.len() == 5,
        "--osd"@.len() == 5,
        "--set"@ != "--vol"@ && "--set"@ != "--osd"@ && "--vol"@ != "--osd"@,
{
    reveal_strlit("--set");
    reveal_strlit("--set-icon");
    reveal_strlit("--mic");
    reveal_strlit("--flyout");
    reveal_strlit("--list");
    reveal_strlit("--vol");
    reveal_strlit("--osd");
    assert("--mic"@[2] == 'm' && "--set"@[2] == 's' && "--vol"@[2] == 'v' && "--osd"@[2] == 'o');
}

} // verus!
