//! The player behind the strip: which window is its, how it is brought forward, and how it is
//! started where it has none.
use crate::music::session;
use crate::text;
use crate::update;
use vstd::prelude::*;

verus! {

/// Where the player lives on the web, for a machine that has never seen its app.
pub const PLAYER_URL: &'static str = "https://music.youtube.com";

/// What a title of the player's window holds, in lower case.
pub const PLAYER_TITLE: &'static str = "youtube music";

/// Whether an app id is that of a packaged app, which can be started by it. A browser's is not.
pub open spec fn is_packaged(app_id: Seq<char>) -> bool {
    app_id.contains('!')
}

/// Whether an app id is that of a packaged app.
pub fn packaged(app_id: &str) -> (r: bool)
    ensures
        r == is_packaged(app_id@),
{
    let chars = text::chars_of(app_id);
    let mut i: usize = 0;
    while i < chars.len()
        invariant
            i <= chars@.len(),
            chars@ == app_id@,
            forall|j: int| 0 <= j < i ==> app_id@[j] != '!',
        decreases chars@.len() - i,
    {
        if chars[i] == '!' {
            proof {
                assert(app_id@[i as int] == '!');
            }
            return true;
        }
        i = i + 1;
    }
    false
}

/// Whether an app id is to be remembered, so that the app can be started when it has no session:
/// only a packaged one, and only where it is not the one remembered.
pub fn remember_player(app_id: &str, remembered: &Option<String>) -> (r: bool)
    ensures
        r == is_remembered_anew(app_id@, update::text_view(*remembered)),
{
    if !packaged(app_id) {
        return false;
    }
    match remembered {
        Some(known) => !text::same_text(known.as_str(), app_id),
        None => true,
    }
}

/// The app id a file remembers: its text without the white space around, where that is anything.
pub fn remembered_player(file: &str) -> (r: Option<String>)
    ensures
        update::text_view(r) == id_in_file(file@),
{
    let id = text::trim(file);
    if text::chars_of(id.as_str()).len() == 0 {
        None
    } else {
        Some(id)
    }
}

/// What an attempt to bring the player forward did.
#[derive(Debug, Clone, Copy, PartialEq, Eq, Structural)]
pub enum Activation {
    /// A window was open, and this is how it came forward, or that it did not.
    Raised(Raise),
    /// The app was started, in a process with this id.
    Started(u32),
    /// Its site was opened in the browser.
    OpenedUrl,
}

/// How the player is to be brought forward.
#[derive(Debug)]
pub enum Route {
    /// Raise the window it has.
    Raise,
    /// Start the app with this id.
    Start(String),
    /// Open its site.
    OpenUrl,
}

/// The id to start the player by: that of the session if it is a packaged app's, or else the one
/// remembered.
pub open spec fn identity(app_id: Option<Seq<char>>, remembered: Option<Seq<char>>) -> Option<
    Seq<char>,
> {
    match app_id {
        Some(id) if is_packaged(id) => Some(id),
        _ => remembered,
    }
}

/// Whether that is how the player is brought forward.
pub open spec fn is_route(
    r: Route,
    window: bool,
    app_id: Option<Seq<char>>,
    remembered: Option<Seq<char>>,
) -> bool {
    let id = identity(app_id, remembered);
    match r {
        Route::Raise => window,
        Route::Start(aumid) => !window && id == Some(aumid@),
        Route::OpenUrl => !window && id is None,
    }
}

/// A window that is there is raised, and nothing is started beside it. Without one a packaged app that is
/// playing is started, or the one that was remembered; and the site is opened only where neither is known.
pub proof fn law_a_window_is_raised_and_not_doubled(
    r: Route,
    window: bool,
    app_id: Option<Seq<char>>,
    remembered: Option<Seq<char>>,
)
    requires
        is_route(r, window, app_id, remembered),
    ensures
        window ==> r is Raise,
        !window ==> !(r is Raise),
        !window && (app_id matches Some(id) && id.contains('!')) ==> (r matches Route::Start(by) && by@
            == app_id->Some_0),
        !window && !(app_id matches Some(id) && id.contains('!')) && remembered is Some ==> (
        r matches Route::Start(by) && by@ == remembered->Some_0),
        !window && !(app_id matches Some(id) && id.contains('!')) && remembered is None ==> r is OpenUrl,
{
}

/// How to bring the player forward. Starting it opens another window each time, so a window that is
/// there is raised; and only an app whose id is known can be started.
pub fn activate_player(window: bool, app_id: Option<&str>, remembered: Option<String>) -> (r: Route)
    ensures
        is_route(
            r,
            window,
            match app_id {
                Some(a) => Some(a@),
                None => None,
            },
            update::text_view(remembered),
        ),
{
    if window {
        return Route::Raise;
    }
    if let Some(id) = app_id {
        if packaged(id) {
            return Route::Start(id.to_string());
        }
    }
    match remembered {
        Some(id) => Route::Start(id),
        None => Route::OpenUrl,
    }
}

/// Whether the shell took a request to open something: its answer is a number above 32 then.
pub fn launch_accepted(answer: usize) -> (r: bool)
    ensures
        r == (answer > 32),
{
    answer > 32
}

/// Whether a window with this title, in lower case, is the player's.
pub open spec fn shows_the_player(
    title: Seq<char>,
    app_id: Option<Seq<char>>,
    process: Option<Seq<char>>,
) -> bool {
    text::occurs_in(title, PLAYER_TITLE@) && session::is_player_window(app_id, process)
}

/// Whether a window with this title, in lower case, is the player's.
pub fn titled_window_is_player(lowered: &str, app_id: Option<&str>, process: Option<&str>) -> (r: bool)
    ensures
        r == shows_the_player(
            lowered@,
            match app_id {
                Some(a) => Some(a@),
                None => None,
            },
            match process {
                Some(p) => Some(p@),
                None => None,
            },
        ),
{
    text::contains(lowered, PLAYER_TITLE) && session::window_is_player(app_id, process)
}

/// Whether a visible window is the player's: by its title, which is all that tells the windows of one
/// process apart at first, and then by its own identity.
pub fn is_player_window(title: &str, app_id: Option<&str>, process: Option<&str>) -> (r: bool)
    ensures
        r == shows_the_player(
            text::lowercase(title@),
            match app_id {
                Some(a) => Some(a@),
                None => None,
            },
            match process {
                Some(p) => Some(p@),
                None => None,
            },
        ),
{
    let lowered = text::to_lowercase(title);
    titled_window_is_player(lowered.as_str(), app_id, process)
}

/// A browser's window is never taken for the player's, whatever its title says, be it by the
/// identity it has or by its process where it has none.
pub proof fn law_a_browser_window_is_never_the_player(
    title: Seq<char>,
    app_id: Option<Seq<char>>,
    process: Seq<char>,
)
    requires
        session::is_browser_exe(text::ascii_lower(process)),
        app_id matches Some(id) ==> session::verdict(id) != session::Match::Certain,
    ensures
        !shows_the_player(title, app_id, Some(process)),
{
}

/// A window as the survey of the player's windows tells of it.
#[derive(Debug)]
pub struct WindowInfo {
    pub handle: u64,
    pub pid: u32,
    pub visible: bool,
    pub iconic: bool,
    pub cloaked: u32,
    pub left: i32,
    pub top: i32,
    pub right: i32,
    pub bottom: i32,
    pub ex_style: u32,
    pub class: String,
    pub title: String,
}

/// The word for a flag.
pub open spec fn truth(b: bool) -> Seq<char> {
    if b {
        "true"@
    } else {
        "false"@
    }
}

/// The line that tells of a window.
pub open spec fn window_line(w: WindowInfo) -> Seq<char> {
    "hwnd 0x"@ + text::small_hex(w.handle as nat) + " pid "@ + text::decimal(w.pid as nat) + " vis "@
        + truth(w.visible) + " icon "@ + truth(w.iconic) + " cloak "@ + text::decimal(
        w.cloaked as nat,
    ) + " rect "@ + text::signed_decimal(w.left as int) + ","@ + text::signed_decimal(w.top as int)
        + " "@ + text::signed_decimal(w.right - w.left) + "x"@ + text::signed_decimal(
        w.bottom - w.top,
    ) + " ex 0x"@ + text::small_hex(w.ex_style as nat) + " class "@ + w.class@ + " : "@ + w.title@
}

fn push_truth(out: &mut String, b: bool)
    ensures
        final(out)@ == old(out)@ + truth(b),
{
    if b {
        out.append("true");
    } else {
        out.append("false");
    }
}

/// The line that tells of a window. What matters in it are the windows that are passed over: one that
/// is visible but cloaked looks raised and does not appear.
pub fn describe_window(w: &WindowInfo) -> (r: String)
    ensures
        r@ == window_line(*w),
{
    let mut out = String::new();
    out.append("hwnd 0x");
    text::push_small_hex(&mut out, w.handle);
    out.append(" pid ");
    text::push_decimal(&mut out, w.pid as u64);
    out.append(" vis ");
    push_truth(&mut out, w.visible);
    out.append(" icon ");
    push_truth(&mut out, w.iconic);
    out.append(" cloak ");
    text::push_decimal(&mut out, w.cloaked as u64);
    out.append(" rect ");
    text::push_signed(&mut out, w.left as i64);
    out.append(",");
    text::push_signed(&mut out, w.top as i64);
    out.append(" ");
    text::push_signed(&mut out, w.right as i64 - w.left as i64);
    out.append("x");
    text::push_signed(&mut out, w.bottom as i64 - w.top as i64);
    out.append(" ex 0x");
    text::push_small_hex(&mut out, w.ex_style as u64);
    out.append(" class ");
    out.append(w.class.as_str());
    out.append(" : ");
    out.append(w.title.as_str());
    proof {
        assert(out@ =~= window_line(*w));
    }
    out
}

/// Whether a window with this title, in lower case, is worth a line in the survey.
pub fn titled_window_is_surveyed(lowered: &str) -> (r: bool)
    ensures
        r == text::occurs_in(lowered@, "youtube"@),
{
    text::contains(lowered, "youtube")
}

/// Whether a window with this title is worth a line in the survey, whatever the case.
pub fn is_surveyed(title: &str) -> (r: bool)
    ensures
        r == text::occurs_in(text::lowercase(title@), "youtube"@),
{
    let lowered = text::to_lowercase(title);
    titled_window_is_surveyed(lowered.as_str())
}

/// A path's last part: what stands behind its last backslash, or all of it where there is none.
pub open spec fn last_part(path: Seq<char>) -> Seq<char>
    decreases path.len(),
{
    if path.len() == 0 || path.last() == '\\' {
        Seq::empty()
    } else {
        last_part(path.drop_last()).push(path.last())
    }
}

/// The name of a process, from the path of its program.
pub fn process_name(path: &str) -> (r: String)
    ensures
        r@ == last_part(path@),
{
    let chars = text::chars_of(path);
    let mut out = String::new();
    let mut i: usize = 0;
    while i < chars.len()
        invariant
            i <= chars@.len(),
            chars@ == path@,
            out@ == last_part(path@.take(i as int)),
        decreases chars@.len() - i,
    {
        proof {
            let t = path@.take(i + 1);
            assert(t.drop_last() =~= path@.take(i as int));
            assert(t.last() == path@[i as int]);
        }
        if chars[i] == '\\' {
            out = String::new();
        } else {
            out.push(chars[i]);
        }
        i = i + 1;
        proof {
            assert(out@ =~= last_part(path@.take(i as int)));
        }
    }
    proof {
        assert(path@.take(i as int) =~= path@);
    }
    out
}

/// The directories in front make no difference to a process's name, and a name alone is its own.
pub proof fn law_a_process_is_named_by_its_file(directory: Seq<char>, name: Seq<char>)
    requires
        !name.contains('\\'),
    ensures
        last_part(name) == name,
        last_part(directory.push('\\') + name) == name,
    decreases name.len(),
{
    let path = directory.push('\\') + name;
    if name.len() == 0 {
        assert(name =~= Seq::empty());
        assert(path.last() == '\\');
    } else {
        assert(name[name.len() - 1] == name.last());
        assert(!name.drop_last().contains('\\')) by {
            if name.drop_last().contains('\\') {
                let k = choose|k: int|
                    0 <= k < name.drop_last().len() && name.drop_last()[k] == '\\';
                assert(name[k] == '\\');
            }
        }
        law_a_process_is_named_by_its_file(directory, name.drop_last());
        assert(path.drop_last() =~= directory.push('\\') + name.drop_last());
        assert(path.last() == name.last());
        assert(name.drop_last().push(name.last()) =~= name);
    }
}

/// How a window came forward.
#[derive(Debug, Clone, Copy, PartialEq, Eq, Structural)]
pub enum Raise {
    /// It was in front already.
    AlreadyThere,
    /// Asking was enough.
    Foreground,
    /// Asking was, once the input queue of the window in front was shared.
    Attached,
    /// Switching to it as Alt-Tab does was.
    Switched,
    /// Nothing was: it is still behind.
    Refused,
}

/// The rungs of bringing a window forward. None of them tells the truth about whether it worked, so
/// after each one looks which window is in front.
#[derive(Debug, Clone, Copy, PartialEq, Eq, Structural)]
pub enum Rung {
    /// Restore or show it.
    Show,
    /// Ask for the foreground.
    Ask,
    /// Share the input queue of the window in front, and ask again.
    Attach,
    /// Switch to it.
    Switch,
    Done(Raise),
}

/// Where the ladder goes from a rung: done as soon as the window is in front, and otherwise on to the
/// next one; sharing a queue is passed over where there is none to share.
pub open spec fn next_rung(at: Rung, arrived: bool, can_attach: bool) -> Rung {
    match at {
        Rung::Show => if arrived {
            Rung::Done(Raise::AlreadyThere)
        } else {
            Rung::Ask
        },
        Rung::Ask => if arrived {
            Rung::Done(Raise::Foreground)
        } else if can_attach {
            Rung::Attach
        } else {
            Rung::Switch
        },
        Rung::Attach => if arrived {
            Rung::Done(Raise::Attached)
        } else {
            Rung::Switch
        },
        Rung::Switch => if arrived {
            Rung::Done(Raise::Switched)
        } else {
            Rung::Done(Raise::Refused)
        },
        Rung::Done(how) => Rung::Done(how),
    }
}

impl Rung {
    /// Goes on, given whether the window is in front now and whether there is a queue to share.
    pub fn next(self, arrived: bool, can_attach: bool) -> (r: Rung)
        ensures
            r == next_rung(self, arrived, can_attach),
    {
        match self {
            Rung::Show => if arrived {
                Rung::Done(Raise::AlreadyThere)
            } else {
                Rung::Ask
            },
            Rung::Ask => if arrived {
                Rung::Done(Raise::Foreground)
            } else if can_attach {
                Rung::Attach
            } else {
                Rung::Switch
            },
            Rung::Attach => if arrived {
                Rung::Done(Raise::Attached)
            } else {
                Rung::Switch
            },
            Rung::Switch => if arrived {
                Rung::Done(Raise::Switched)
            } else {
                Rung::Done(Raise::Refused)
            },
            Rung::Done(how) => Rung::Done(how),
        }
    }
}

/// How many rungs are left at the most.
pub open spec fn rungs_left(at: Rung) -> nat {
    match at {
        Rung::Show => 4,
        Rung::Ask => 3,
        Rung::Attach => 2,
        Rung::Switch => 1,
        Rung::Done(_) => 0,
    }
}

/// Each rung is the last or leads to a later one, and a success is reported exactly where the window
/// was seen in front.
pub proof fn law_the_ladder_ends_and_does_not_lie(at: Rung, arrived: bool, can_attach: bool)
    requires
        !(at is Done),
    ensures
        rungs_left(next_rung(at, arrived, can_attach)) < rungs_left(at),
        arrived ==> next_rung(at, arrived, can_attach) is Done && next_rung(
            at,
            arrived,
            can_attach,
        ) != Rung::Done(Raise::Refused),
        !arrived && next_rung(at, arrived, can_attach) is Done ==> next_rung(
            at,
            arrived,
            can_attach,
        ) == Rung::Done(Raise::Refused),
{
}

/// The player is started by its session's id where that is a packaged app's, which has an exclamation mark in
/// it, and otherwise by the one that was remembered.
pub proof fn law_the_player_is_started_by_a_packaged_id(id: Seq<char>, remembered: Option<Seq<char>>)
    ensures
        id.contains('!') ==> identity(Some(id), remembered) == Some(id),
        !id.contains('!') ==> identity(Some(id), remembered) == remembered,
        identity(None, remembered) == remembered,
{
}

/// A window is the player's only where its title, in lower case, holds the player's name; and then its
/// identity decides, or where it has none its process.
pub proof fn law_the_players_window_has_its_name(
    lowered: Seq<char>,
    app_id: Option<Seq<char>>,
    process: Option<Seq<char>>,
)
    ensures
        shows_the_player(lowered, app_id, process) <==> session::is_around(lowered, "youtube music"@)
            && session::is_player_window(app_id, process),
{
    text::law_what_occurs_stands_between(lowered, "youtube music"@);
}

/// Each rung is tried in turn until the window is in front, and the one that brought it there is reported;
/// sharing an input queue is left out where there is none to share.
pub proof fn law_the_rungs_are_tried_in_turn(can_attach: bool)
    ensures
        next_rung(Rung::Show, true, can_attach) == Rung::Done(Raise::AlreadyThere),
        next_rung(Rung::Ask, true, can_attach) == Rung::Done(Raise::Foreground),
        next_rung(Rung::Attach, true, can_attach) == Rung::Done(Raise::Attached),
        next_rung(Rung::Switch, true, can_attach) == Rung::Done(Raise::Switched),
        next_rung(Rung::Show, false, can_attach) == Rung::Ask,
        next_rung(Rung::Ask, false, true) == Rung::Attach,
        next_rung(Rung::Ask, false, false) == Rung::Switch,
        next_rung(Rung::Attach, false, can_attach) == Rung::Switch,
        next_rung(Rung::Switch, false, can_attach) == Rung::Done(Raise::Refused),
{
}

/// Whether an app id is to be remembered in place of the one that is.
pub open spec fn is_remembered_anew(app_id: Seq<char>, remembered: Option<Seq<char>>) -> bool {
    is_packaged(app_id) && remembered != Some(app_id)
}

/// The app id that a file holds.
pub open spec fn id_in_file(file: Seq<char>) -> Option<Seq<char>> {
    if text::trimmed(file).len() == 0 {
        None
    } else {
        Some(text::trimmed(file))
    }
}

/// A packaged app's id is written down once and is read back as it was; a browser's, which has no exclamation
/// mark in it, never is; and a file with nothing but white space in it holds none.
pub proof fn law_a_remembered_id_reads_back(app_id: Seq<char>, remembered: Option<Seq<char>>)
    ensures
        app_id.len() > 0 && !text::is_whitespace(app_id[0]) && !text::is_whitespace(app_id.last())
            ==> id_in_file(app_id) == Some(app_id) && !is_remembered_anew(app_id, id_in_file(app_id)),
        app_id.contains('!') && remembered != Some(app_id) ==> is_remembered_anew(app_id, remembered),
        !app_id.contains('!') ==> !is_remembered_anew(app_id, remembered),
        text::is_blank(app_id) ==> id_in_file(app_id) is None,
{
    text::law_a_blank_text_trims_to_nothing(app_id);
    if app_id.len() > 0 && !text::is_whitespace(app_id[0]) && !text::is_whitespace(app_id.last()) {
        text::law_a_trim_text_stays(app_id);
    }
}

} // verus!
