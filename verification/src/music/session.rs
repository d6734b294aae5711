//! Which media session is YouTube Music, and which window is.
//!
//! A session is known by its app id alone, and what that looks like depends on how the player runs.
//! An installed app carries its origin in the id, which is certain. A plain browser tab reports the
//! browser's bare id, like every other tab, and is never followed on its own: that would show any
//! video as if it were the player. A user who does run the player as a tab pins the id.
use crate::text;
use vstd::prelude::*;

verus! {

/// How sure it is that an app id is the player's.
#[derive(Debug, Clone, Copy, PartialEq, Eq, Structural)]
pub enum Match {
    /// The id names the player, or the user pinned it.
    Certain,
    /// A bare browser id. It may be the player in a tab, or anything else.
    Browser,
    /// Something else.
    No,
}

/// Whether an id, in lower case, names the player.
pub open spec fn names_the_player(id: Seq<char>) -> bool {
    text::occurs_in(id, "music.youtube.com"@) || text::occurs_in(id, "youtube-music"@)
        || text::occurs_in(id, "youtube music"@) || text::occurs_in(id, "ytmdesktop"@)
}

/// Whether an id, in lower case, is a browser's bare one.
pub open spec fn is_browser(id: Seq<char>) -> bool {
    id == "chrome"@ || id == "msedge"@ || id == "firefox"@ || id == "brave"@ || id == "opera"@ || id
        == "vivaldi"@
}

/// What an app id is taken for.
pub open spec fn verdict(app_id: Seq<char>) -> Match {
    let id = text::ascii_lower(app_id);
    if names_the_player(id) {
        Match::Certain
    } else if is_browser(id) {
        Match::Browser
    } else {
        Match::No
    }
}

/// Classifies an app id. An id that only starts with a browser's name is another site in that
/// browser, not the player.
pub fn classify(app_id: &str) -> (r: Match)
    ensures
        r == verdict(app_id@),
{
    let lowered = text::to_ascii_lowercase(app_id);
    let id = lowered.as_str();
    if text::contains(id, "music.youtube.com") || text::contains(id, "youtube-music")
        || text::contains(id, "youtube music") || text::contains(id, "ytmdesktop") {
        return Match::Certain;
    }
    if text::same_text(id, "chrome") || text::same_text(id, "msedge") || text::same_text(
        id,
        "firefox",
    ) || text::same_text(id, "brave") || text::same_text(id, "opera") || text::same_text(
        id,
        "vivaldi",
    ) {
        return Match::Browser;
    }
    Match::No
}

/// What an app id is taken for where one may be pinned.
pub open spec fn verdict_with_override(app_id: Seq<char>, pinned: Option<Seq<char>>) -> Match {
    match pinned {
        Some(p) => if text::ascii_lower(app_id) == text::ascii_lower(p) {
            Match::Certain
        } else {
            Match::No
        },
        None => verdict(app_id),
    }
}

/// Classifies an app id, a pinned one taking precedence over every guess.
pub fn classify_with_override(app_id: &str, pinned: Option<&str>) -> (r: Match)
    ensures
        r == verdict_with_override(
            app_id@,
            match pinned {
                Some(p) => Some(p@),
                None => None,
            },
        ),
{
    match pinned {
        Some(p) => if text::eq_ignore_ascii_case(app_id, p) {
            Match::Certain
        } else {
            Match::No
        },
        None => classify(app_id),
    }
}

/// Whether an executable's name, in lower case, is a browser's.
pub open spec fn is_browser_exe(exe: Seq<char>) -> bool {
    exe == "chrome.exe"@ || exe == "msedge.exe"@ || exe == "firefox.exe"@ || exe == "brave.exe"@
        || exe == "opera.exe"@ || exe == "vivaldi.exe"@
}

/// Whether an executable's name is a browser's.
pub fn is_browser_process(exe: &str) -> (r: bool)
    ensures
        r == is_browser_exe(text::ascii_lower(exe@)),
{
    let lowered = text::to_ascii_lowercase(exe);
    let e = lowered.as_str();
    text::same_text(e, "chrome.exe") || text::same_text(e, "msedge.exe") || text::same_text(
        e,
        "firefox.exe",
    ) || text::same_text(e, "brave.exe") || text::same_text(e, "opera.exe") || text::same_text(
        e,
        "vivaldi.exe",
    )
}

/// An executable is a browser's exactly where its name is a browser's bare id and `.exe`.
pub proof fn law_browser_processes_are_the_browsers(name: Seq<char>)
    ensures
        is_browser_exe(name + ".exe"@) <==> is_browser(name),
{
    reveal_strlit("chrome");
    reveal_strlit("msedge");
    reveal_strlit("firefox");
    reveal_strlit("brave");
    reveal_strlit("opera");
    reveal_strlit("vivaldi");
    reveal_strlit("chrome.exe");
    reveal_strlit("msedge.exe");
    reveal_strlit("firefox.exe");
    reveal_strlit("brave.exe");
    reveal_strlit("opera.exe");
    reveal_strlit("vivaldi.exe");
    reveal_strlit(".exe");
    let exe = name + ".exe"@;
    let n = name.len() as int;
    assert(exe.take(n) =~= name);
    assert("chrome"@ + ".exe"@ =~= "chrome.exe"@);
    assert("msedge"@ + ".exe"@ =~= "msedge.exe"@);
    assert("firefox"@ + ".exe"@ =~= "firefox.exe"@);
    assert("brave"@ + ".exe"@ =~= "brave.exe"@);
    assert("opera"@ + ".exe"@ =~= "opera.exe"@);
    assert("vivaldi"@ + ".exe"@ =~= "vivaldi.exe"@);
    if exe == "chrome.exe"@ {
        assert(name =~= "chrome"@);
    } else if exe == "msedge.exe"@ {
        assert(name =~= "msedge"@);
    } else if exe == "firefox.exe"@ {
        assert(name =~= "firefox"@);
    } else if exe == "brave.exe"@ {
        assert(name =~= "brave"@);
    } else if exe == "opera.exe"@ {
        assert(name =~= "opera"@);
    } else if exe == "vivaldi.exe"@ {
        assert(name =~= "vivaldi"@);
    }
}

/// Whether a window with a matching title is the player's: by its app id where it has one, and
/// otherwise unless its process is a browser.
pub open spec fn is_player_window(app_id: Option<Seq<char>>, process: Option<Seq<char>>) -> bool {
    match app_id {
        Some(id) => verdict(id) == Match::Certain,
        None => match process {
            Some(p) => !is_browser_exe(text::ascii_lower(p)),
            None => true,
        },
    }
}

/// Whether a window is the player's own rather than a browser's that shows the same title. The
/// title cannot tell: an installed app and a tab are windows of the same process. A pinned id has
/// no say, since it names a session, and a browser's window plays everything that browser plays.
pub fn window_is_player(app_id: Option<&str>, process: Option<&str>) -> (r: bool)
    ensures
        r == is_player_window(
            match app_id {
                Some(id) => Some(id@),
                None => None,
            },
            match process {
                Some(p) => Some(p@),
                None => None,
            },
        ),
{
    match app_id {
        Some(id) => match classify(id) {
            Match::Certain => true,
            _ => false,
        },
        None => match process {
            Some(p) => !is_browser_process(p),
            None => true,
        },
    }
}

/// Whether a session may be taken for the player's, by an id it may report.
pub open spec fn may_be_certain<S, F: Fn(&S) -> &str>(app_id: F, s: &S) -> bool {
    exists|id: &str| call_ensures(app_id, (s,), id) && verdict(id@) == Match::Certain
}

/// Whether a session may be taken for another's.
pub open spec fn may_be_other<S, F: Fn(&S) -> &str>(app_id: F, s: &S) -> bool {
    exists|id: &str| call_ensures(app_id, (s,), id) && verdict(id@) != Match::Certain
}

/// Whether a session may not be the player's playing.
pub open spec fn may_be_passed<S, F: Fn(&S) -> &str, P: Fn(&S) -> bool>(
    app_id: F,
    playing: P,
    s: &S,
) -> bool {
    may_be_other(app_id, s) || call_ensures(playing, (s,), false)
}

/// Picks the player's session: the first of its that plays, so that of two the one making sound is
/// followed, or else the first of its, so that a paused track still shows. With none of its on the
/// machine the answer is none, never the nearest thing to it.
pub fn pick<S, F, P>(snapshots: &[S], app_id: F, playing: P) -> (r: Option<usize>)
    where
        F: Fn(&S) -> &str,
        P: Fn(&S) -> bool,

    requires
        forall|i: int|
            0 <= i < snapshots@.len() ==> call_requires(app_id, (&#[trigger] snapshots@[i],)),
        forall|i: int|
            0 <= i < snapshots@.len() ==> call_requires(playing, (&#[trigger] snapshots@[i],)),
    ensures
        match r {
            Some(i) => {
                &&& i < snapshots@.len()
                &&& may_be_certain(app_id, &snapshots@[i as int])
                &&& {
                    ||| call_ensures(playing, (&snapshots@[i as int],), true) && forall|j: int|
                        0 <= j < i ==> may_be_passed(app_id, playing, &#[trigger] snapshots@[j])
                    ||| (forall|j: int|
                        0 <= j < snapshots@.len() ==> may_be_passed(
                            app_id,
                            playing,
                            &#[trigger] snapshots@[j],
                        )) && forall|j: int|
                        0 <= j < i ==> may_be_other(app_id, &#[trigger] snapshots@[j])
                }
            },
            None => forall|j: int|
                0 <= j < snapshots@.len() ==> may_be_other(app_id, &#[trigger] snapshots@[j]),
        },
{
    let mut i: usize = 0;
    while i < snapshots.len()
        invariant
            i <= snapshots@.len(),
            forall|i: int|
                0 <= i < snapshots@.len() ==> call_requires(app_id, (&#[trigger] snapshots@[i],)),
            forall|i: int|
                0 <= i < snapshots@.len() ==> call_requires(playing, (&#[trigger] snapshots@[i],)),
            forall|j: int|
                0 <= j < i ==> may_be_passed(app_id, playing, &#[trigger] snapshots@[j]),
        decreases snapshots@.len() - i,
    {
        let s = &snapshots[i];
        let id = app_id(s);
        if let Match::Certain = classify(id) {
            if playing(s) {
                return Some(i);
            }
        }
        i = i + 1;
    }
    let mut k: usize = 0;
    while k < snapshots.len()
        invariant
            k <= snapshots@.len(),
            forall|i: int|
                0 <= i < snapshots@.len() ==> call_requires(app_id, (&#[trigger] snapshots@[i],)),
            forall|j: int|
                0 <= j < snapshots@.len() ==> may_be_passed(
                    app_id,
                    playing,
                    &#[trigger] snapshots@[j],
                ),
            forall|j: int| 0 <= j < k ==> may_be_other(app_id, &#[trigger] snapshots@[j]),
        decreases snapshots@.len() - k,
    {
        let s = &snapshots[k];
        let id = app_id(s);
        if let Match::Certain = classify(id) {
            return Some(k);
        }
        k = k + 1;
    }
    None
}

/// The place of the session to follow among sessions with these ids and states: the first of the
/// player's that plays, or else the first of the player's.
pub open spec fn followed(ids: Seq<Seq<char>>, playing: Seq<bool>) -> Option<int> {
    match first_playing(ids, playing, 0) {
        Some(i) => Some(i),
        None => first_certain(ids, 0),
    }
}

/// The first of the player's sessions that plays, from `from` on.
pub open spec fn first_playing(ids: Seq<Seq<char>>, playing: Seq<bool>, from: int) -> Option<int>
    decreases ids.len() - from,
{
    if from >= ids.len() {
        None
    } else if verdict(ids[from]) == Match::Certain && playing[from] {
        Some(from)
    } else {
        first_playing(ids, playing, from + 1)
    }
}

/// The first of the player's sessions, from `from` on.
pub open spec fn first_certain(ids: Seq<Seq<char>>, from: int) -> Option<int>
    decreases ids.len() - from,
{
    if from >= ids.len() {
        None
    } else if verdict(ids[from]) == Match::Certain {
        Some(from)
    } else {
        first_certain(ids, from + 1)
    }
}

proof fn lemma_first_playing(ids: Seq<Seq<char>>, playing: Seq<bool>, from: int, i: int)
    requires
        0 <= from <= i <= ids.len(),
        forall|j: int|
            from <= j < i ==> !(verdict(#[trigger] ids[j]) == Match::Certain && playing[j]),
        i < ids.len() ==> verdict(ids[i]) == Match::Certain && playing[i],
    ensures
        first_playing(ids, playing, from) == (if i < ids.len() {
            Some(i)
        } else {
            None
        }),
    decreases i - from,
{
    if from < i {
        assert(!(verdict(ids[from]) == Match::Certain && playing[from]));
        lemma_first_playing(ids, playing, from + 1, i);
    }
}

proof fn lemma_first_certain(ids: Seq<Seq<char>>, from: int, i: int)
    requires
        0 <= from <= i <= ids.len(),
        forall|j: int| from <= j < i ==> verdict(#[trigger] ids[j]) != Match::Certain,
        i < ids.len() ==> verdict(ids[i]) == Match::Certain,
    ensures
        first_certain(ids, from) == (if i < ids.len() {
            Some(i)
        } else {
            None
        }),
    decreases i - from,
{
    if from < i {
        assert(verdict(ids[from]) != Match::Certain);
        lemma_first_certain(ids, from + 1, i);
    }
}

/// Where the ids and states are what `ids` and `plays` say, what [`pick`] may answer is the session
/// to follow, and nothing else.
pub proof fn law_pick_follows_the_rule<S, F: Fn(&S) -> &str, P: Fn(&S) -> bool>(
    snapshots: Seq<S>,
    app_id: F,
    playing: P,
    ids: Seq<Seq<char>>,
    plays: Seq<bool>,
    r: Option<usize>,
)
    requires
        ids.len() == snapshots.len(),
        plays.len() == snapshots.len(),
        forall|i: int, id: &str|
            0 <= i < snapshots.len() && #[trigger] call_ensures(app_id, (&snapshots[i],), id)
                ==> id@ == ids[i],
        forall|i: int, p: bool|
            0 <= i < snapshots.len() && #[trigger] call_ensures(playing, (&snapshots[i],), p) ==> p
                == plays[i],
        match r {
            Some(i) => {
                &&& i < snapshots.len()
                &&& may_be_certain(app_id, &snapshots[i as int])
                &&& {
                    ||| call_ensures(playing, (&snapshots[i as int],), true) && forall|j: int|
                        0 <= j < i ==> may_be_passed(app_id, playing, &#[trigger] snapshots[j])
                    ||| (forall|j: int|
                        0 <= j < snapshots.len() ==> may_be_passed(
                            app_id,
                            playing,
                            &#[trigger] snapshots[j],
                        )) && forall|j: int|
                        0 <= j < i ==> may_be_other(app_id, &#[trigger] snapshots[j])
                }
            },
            None => forall|j: int|
                0 <= j < snapshots.len() ==> may_be_other(app_id, &#[trigger] snapshots[j]),
        },
    ensures
        followed(ids, plays) == (match r {
            Some(i) => Some(i as int),
            None => None,
        }),
{
    let n = snapshots.len() as int;
    assert forall|j: int| 0 <= j < n && may_be_other(app_id, &snapshots[j]) implies verdict(
        #[trigger] ids[j],
    ) != Match::Certain by {
        let id = choose|id: &str|
            call_ensures(app_id, (&snapshots[j],), id) && verdict(id@) != Match::Certain;
        assert(id@ == ids[j]);
    }
    assert forall|j: int| 0 <= j < n && may_be_passed(app_id, playing, &snapshots[j]) implies !(
    verdict(#[trigger] ids[j]) == Match::Certain && plays[j]) by {
        if !may_be_other(app_id, &snapshots[j]) {
            assert(call_ensures(playing, (&snapshots[j],), false));
        }
    }
    match r {
        None => {
            assert forall|j: int| 0 <= j < n implies verdict(#[trigger] ids[j]) != Match::Certain by {
                assert(may_be_other(app_id, &snapshots[j]));
            }
            lemma_first_playing(ids, plays, 0, n);
            lemma_first_certain(ids, 0, n);
        },
        Some(i) => {
            let k = i as int;
            assert(verdict(ids[k]) == Match::Certain) by {
                let id = choose|id: &str|
                    call_ensures(app_id, (&snapshots[k],), id) && verdict(id@) == Match::Certain;
                assert(id@ == ids[k]);
            }
            if call_ensures(playing, (&snapshots[k],), true) && forall|j: int|
                0 <= j < k ==> may_be_passed(app_id, playing, &#[trigger] snapshots[j]) {
                assert forall|j: int| 0 <= j < k implies !(verdict(#[trigger] ids[j])
                    == Match::Certain && plays[j]) by {
                    assert(may_be_passed(app_id, playing, &snapshots[j]));
                }
                assert(plays[k]);
                lemma_first_playing(ids, plays, 0, k);
            } else {
                assert forall|j: int| 0 <= j < n implies !(verdict(#[trigger] ids[j])
                    == Match::Certain && plays[j]) by {
                    assert(may_be_passed(app_id, playing, &snapshots[j]));
                }
                assert forall|j: int| 0 <= j < k implies verdict(#[trigger] ids[j])
                    != Match::Certain by {
                    assert(may_be_other(app_id, &snapshots[j]));
                }
                lemma_first_playing(ids, plays, 0, n);
                lemma_first_certain(ids, 0, k);
            }
        },
    }
}

/// A bare browser's session is never followed: whatever is, its id names the player.
pub proof fn law_only_the_players_sessions_are_followed(ids: Seq<Seq<char>>, playing: Seq<bool>)
    requires
        ids.len() == playing.len(),
    ensures
        match followed(ids, playing) {
            Some(i) => 0 <= i < ids.len() && verdict(ids[i]) == Match::Certain,
            None => forall|j: int| 0 <= j < ids.len() ==> verdict(#[trigger] ids[j]) != Match::Certain,
        },
{
    lemma_first_playing_is_certain(ids, playing, 0);
    lemma_first_certain_is_certain(ids, 0);
}

proof fn lemma_first_playing_is_certain(ids: Seq<Seq<char>>, playing: Seq<bool>, from: int)
    requires
        0 <= from <= ids.len(),
    ensures
        first_playing(ids, playing, from) matches Some(i) ==> from <= i < ids.len() && verdict(ids[i])
            == Match::Certain && playing[i],
        first_playing(ids, playing, from) is None ==> forall|j: int|
            from <= j < ids.len() ==> !(verdict(#[trigger] ids[j]) == Match::Certain && playing[j]),
    decreases ids.len() - from,
{
    if from < ids.len() {
        lemma_first_playing_is_certain(ids, playing, from + 1);
    }
}

proof fn lemma_first_certain_is_certain(ids: Seq<Seq<char>>, from: int)
    requires
        0 <= from <= ids.len(),
    ensures
        match first_certain(ids, from) {
            Some(i) => from <= i < ids.len() && verdict(ids[i]) == Match::Certain,
            None => forall|j: int|
                from <= j < ids.len() ==> verdict(#[trigger] ids[j]) != Match::Certain,
        },
    decreases ids.len() - from,
{
    if from < ids.len() {
        lemma_first_certain_is_certain(ids, from + 1);
    }
}

/// A session of the player that plays is preferred to one that does not.
pub proof fn law_a_playing_session_is_preferred(ids: Seq<Seq<char>>, playing: Seq<bool>, k: int)
    requires
        ids.len() == playing.len(),
        0 <= k < ids.len(),
        verdict(ids[k]) == Match::Certain,
        playing[k],
    ensures
        followed(ids, playing) matches Some(i) && 0 <= i < ids.len() && playing[i],
{
    lemma_first_playing_is_certain(ids, playing, 0);
}

/// The case in which an id is written makes no difference to what it is taken for.
pub proof fn law_case_does_not_matter(a: Seq<char>, b: Seq<char>)
    requires
        text::ascii_lower(a) == text::ascii_lower(b),
    ensures
        verdict(a) == verdict(b),
{
}

/// A pinned id wins and excludes everything else: with one, no id is taken for the player's but that
/// one, whatever the guess would have been.
pub proof fn law_a_pinned_id_excludes_every_other(app_id: Seq<char>, pinned: Seq<char>)
    ensures
        verdict_with_override(app_id, Some(pinned)) == Match::Certain <==> text::ascii_lower(app_id)
            == text::ascii_lower(pinned),
        verdict_with_override(app_id, Some(pinned)) != Match::Browser,
{
}

/// A browser's bare id names no player, so that neither its session is followed nor its window taken
/// for the player's.
pub proof fn law_a_bare_browser_is_not_the_player(app_id: Seq<char>, process: Option<Seq<char>>)
    requires
        is_browser(text::ascii_lower(app_id)),
    ensures
        verdict(app_id) == Match::Browser,
        !is_player_window(Some(app_id), process),
{
    let id = text::ascii_lower(app_id);
    reveal_strlit("chrome");
    reveal_strlit("msedge");
    reveal_strlit("firefox");
    reveal_strlit("brave");
    reveal_strlit("opera");
    reveal_strlit("vivaldi");
    reveal_strlit("music.youtube.com");
    reveal_strlit("youtube-music");
    reveal_strlit("youtube music");
    reveal_strlit("ytmdesktop");
    assert(id.len() < 10);
    assert(!names_the_player(id));
}

/// Whether a text is made of another with something before and behind it.
pub open spec fn is_around(s: Seq<char>, needle: Seq<char>) -> bool {
    exists|a: Seq<char>, b: Seq<char>| s == #[trigger] (a + needle + b)
}

/// An id is taken for the player's exactly where, whatever the case of its letters, it holds one of the
/// player's own four identifiers. It is taken for a browser's exactly where it is one of the six bare
/// browser ids, nothing before or behind; and for nothing otherwise. So an app of another origin in the
/// same browser, with that browser's name in front of its own, is neither.
pub proof fn law_only_the_players_identifiers_are_certain(app_id: Seq<char>)
    ensures
        ({
            let id = text::ascii_lower(app_id);
            let named = is_around(id, "music.youtube.com"@) || is_around(id, "youtube-music"@)
                || is_around(id, "youtube music"@) || is_around(id, "ytmdesktop"@);
            let bare = id == "chrome"@ || id == "msedge"@ || id == "firefox"@ || id == "brave"@ || id
                == "opera"@ || id == "vivaldi"@;
            &&& verdict(app_id) == Match::Certain <==> named
            &&& verdict(app_id) == Match::Browser <==> bare && !named
            &&& verdict(app_id) == Match::No <==> !bare && !named
        }),
{
    let id = text::ascii_lower(app_id);
    text::law_what_occurs_stands_between(id, "music.youtube.com"@);
    text::law_what_occurs_stands_between(id, "youtube-music"@);
    text::law_what_occurs_stands_between(id, "youtube music"@);
    text::law_what_occurs_stands_between(id, "ytmdesktop"@);
}

/// A site that a browser runs as an app of its own is not the player's unless it holds one of the player's
/// identifiers, however the id goes on behind the browser's name.
pub proof fn law_another_origin_is_nothing(browser: Seq<char>, origin: Seq<char>)
    requires
        ({
            let id = text::ascii_lower(browser + seq!['.'] + origin);
            !is_around(id, "music.youtube.com"@) && !is_around(id, "youtube-music"@) && !is_around(
                id,
                "youtube music"@,
            ) && !is_around(id, "ytmdesktop"@)
        }),
    ensures
        verdict(browser + seq!['.'] + origin) == Match::No,
{
    let app_id = browser + seq!['.'] + origin;
    let id = text::ascii_lower(app_id);
    law_only_the_players_identifiers_are_certain(app_id);
    text::law_lowering_changes_only_capitals(app_id, browser.len() as int);
    assert(id[browser.len() as int] == '.');
    reveal_strlit("chrome");
    reveal_strlit("msedge");
    reveal_strlit("firefox");
    reveal_strlit("brave");
    reveal_strlit("opera");
    reveal_strlit("vivaldi");
}

/// What is followed is the first session of the player that plays, or the first of the player at all where
/// none does, or nothing where none is the player's.
pub proof fn law_the_first_session_is_followed(ids: Seq<Seq<char>>, playing: Seq<bool>)
    requires
        ids.len() == playing.len(),
    ensures
        match followed(ids, playing) {
            Some(i) => {
                &&& 0 <= i < ids.len()
                &&& verdict(ids[i]) == Match::Certain
                &&& if playing[i] {
                    forall|j: int|
                        0 <= j < i ==> !(verdict(#[trigger] ids[j]) == Match::Certain && playing[j])
                } else {
                    (forall|j: int|
                        0 <= j < ids.len() ==> !(verdict(#[trigger] ids[j]) == Match::Certain
                            && playing[j])) && (forall|j: int|
                        0 <= j < i ==> verdict(#[trigger] ids[j]) != Match::Certain)
                }
            },
            None => forall|j: int| 0 <= j < ids.len() ==> verdict(#[trigger] ids[j]) != Match::Certain,
        },
{
    lemma_first_playing_is_first(ids, playing, 0);
    lemma_first_certain_is_first(ids, 0);
}

proof fn lemma_first_playing_is_first(ids: Seq<Seq<char>>, playing: Seq<bool>, from: int)
    requires
        ids.len() == playing.len(),
        0 <= from,
    ensures
        match first_playing(ids, playing, from) {
            Some(i) => from <= i < ids.len() && verdict(ids[i]) == Match::Certain && playing[i]
                && forall|j: int|
                from <= j < i ==> !(verdict(#[trigger] ids[j]) == Match::Certain && playing[j]),
            None => forall|j: int|
                from <= j < ids.len() ==> !(verdict(#[trigger] ids[j]) == Match::Certain
                    && playing[j]),
        },
    decreases ids.len() - from,
{
    if from < ids.len() && !(verdict(ids[from]) == Match::Certain && playing[from]) {
        lemma_first_playing_is_first(ids, playing, from + 1);
    }
}

proof fn lemma_first_certain_is_first(ids: Seq<Seq<char>>, from: int)
    requires
        0 <= from,
    ensures
        match first_certain(ids, from) {
            Some(i) => from <= i < ids.len() && verdict(ids[i]) == Match::Certain && forall|j: int|
                from <= j < i ==> verdict(#[trigger] ids[j]) != Match::Certain,
            None => forall|j: int|
                from <= j < ids.len() ==> verdict(#[trigger] ids[j]) != Match::Certain,
        },
    decreases ids.len() - from,
{
    if from < ids.len() && verdict(ids[from]) != Match::Certain {
        lemma_first_certain_is_first(ids, from + 1);
    }
}

/// A window with an identity is the player's exactly where that holds one of the player's identifiers,
/// whatever process it is of; one without is, unless its process is one of the six browsers'.
pub proof fn law_a_window_is_known_by_its_identity(app_id: Option<Seq<char>>, process: Option<Seq<char>>)
    ensures
        match app_id {
            Some(app_id) => {
                let id = text::ascii_lower(app_id);
                is_player_window(Some(app_id), process) <==> is_around(id, "music.youtube.com"@)
                    || is_around(id, "youtube-music"@) || is_around(id, "youtube music"@)
                    || is_around(id, "ytmdesktop"@)
            },
            None => !is_player_window(None, process) <==> (process matches Some(p) && {
                let exe = text::ascii_lower(p);
                exe == "chrome"@ + ".exe"@ || exe == "msedge"@ + ".exe"@ || exe == "firefox"@
                    + ".exe"@ || exe == "brave"@ + ".exe"@ || exe == "opera"@ + ".exe"@ || exe
                    == "vivaldi"@ + ".exe"@
            }),
        },
{
    if let Some(id) = app_id {
        law_only_the_players_identifiers_are_certain(id);
    }
    law_browser_processes_are_the_browsers("chrome"@);
    law_browser_processes_are_the_browsers("msedge"@);
    law_browser_processes_are_the_browsers("firefox"@);
    law_browser_processes_are_the_browsers("brave"@);
    law_browser_processes_are_the_browsers("opera"@);
    law_browser_processes_are_the_browsers("vivaldi"@);
    reveal_strlit("chrome");
    reveal_strlit("msedge");
    reveal_strlit("firefox");
    reveal_strlit("brave");
    reveal_strlit("opera");
    reveal_strlit("vivaldi");
    reveal_strlit(".exe");
    reveal_strlit("chrome.exe");
    reveal_strlit("msedge.exe");
    reveal_strlit("firefox.exe");
    reveal_strlit("brave.exe");
    reveal_strlit("opera.exe");
    reveal_strlit("vivaldi.exe");
    assert("chrome"@ + ".exe"@ =~= "chrome.exe"@);
    assert("msedge"@ + ".exe"@ =~= "msedge.exe"@);
    assert("firefox"@ + ".exe"@ =~= "firefox.exe"@);
    assert("brave"@ + ".exe"@ =~= "brave.exe"@);
    assert("opera"@ + ".exe"@ =~= "opera.exe"@);
    assert("vivaldi"@ + ".exe"@ =~= "vivaldi.exe"@);
}

} // verus!
