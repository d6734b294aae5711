//! The feed: which session is followed, what it plays, and whom a command goes to.
//!
//! The session that was settled on is remembered, so that a command reaches the player on show
//! rather than whatever is current by then.
use crate::music::session;
use crate::music::smtc::{Brief, Command, PlaybackStatus, Reading, Snapshot, Timeline};
use crate::text;
use crate::update;
use vstd::prelude::*;

verus! {

/// What the strip is to show.
#[derive(Debug, Clone, PartialEq, Eq)]
pub enum State {
    /// There is nothing of the player's to draw.
    Absent,
    /// A session with a track in it.
    Track(Snapshot),
}

impl Default for State {
    fn default() -> (r: Self)
        ensures
            r is Absent,
    {
        State::Absent
    }
}

impl State {
    /// The session, where there is one with a track.
    pub fn snapshot(&self) -> (r: Option<&Snapshot>)
        ensures
            match r {
                Some(s) => *self == State::Track(*s),
                None => self is Absent,
            },
    {
        match self {
            State::Track(snapshot) => Some(snapshot),
            State::Absent => None,
        }
    }

    /// Whether it plays.
    pub open spec fn plays(&self) -> bool {
        match self {
            State::Track(s) => s.status == PlaybackStatus::Playing,
            State::Absent => false,
        }
    }

    /// Whether a track is on show and plays.
    pub fn is_playing(&self) -> (r: bool)
        ensures
            r == self.plays(),
    {
        match self {
            State::Track(s) => s.status.is_playing(),
            State::Absent => false,
        }
    }
}

/// What is followed: a pinned session, or the one the rule picks; and the one it last was.
#[derive(Debug)]
pub struct Ytm {
    pinned: Option<String>,
    current_app_id: Option<String>,
}

/// The ids of sessions.
pub open spec fn ids_of(briefs: Seq<Brief>) -> Seq<Seq<char>> {
    briefs.map_values(|b: Brief| b.app_id@)
}

/// Which sessions play.
pub open spec fn playing_of(briefs: Seq<Brief>) -> Seq<bool> {
    briefs.map_values(|b: Brief| b.status == PlaybackStatus::Playing)
}

/// The first session with the given id, whatever its case, from `from` on.
pub open spec fn first_with_id(ids: Seq<Seq<char>>, id: Seq<char>, from: int) -> Option<int>
    decreases ids.len() - from,
{
    if from >= ids.len() {
        None
    } else if text::ascii_lower(ids[from]) == text::ascii_lower(id) {
        Some(from)
    } else {
        first_with_id(ids, id, from + 1)
    }
}

/// The session to read: the pinned one or none, or else the one the rule picks.
pub open spec fn choice(briefs: Seq<Brief>, pinned: Option<Seq<char>>) -> Option<int> {
    match pinned {
        Some(p) => first_with_id(ids_of(briefs), p, 0),
        None => session::followed(ids_of(briefs), playing_of(briefs)),
    }
}

fn id_of(b: &Brief) -> (s: &str)
    ensures
        s@ == b.app_id@,
{
    b.app_id.as_str()
}

fn plays_of(b: &Brief) -> (p: bool)
    ensures
        p == (b.status == PlaybackStatus::Playing),
{
    b.status.is_playing()
}

impl Ytm {
    /// The pinned id, if there is one.
    pub closed spec fn pin(&self) -> Option<Seq<char>> {
        update::text_view(self.pinned)
    }

    /// The id of the session that is followed, if one is.
    pub closed spec fn following(&self) -> Option<Seq<char>> {
        update::text_view(self.current_app_id)
    }

    /// A feed that follows nothing yet.
    pub fn new(pinned: Option<String>) -> (r: Ytm)
        ensures
            r.pin() == update::text_view(pinned),
            r.following() is None,
    {
        Ytm { pinned, current_app_id: None }
    }

    /// Which of the sessions to read in full.
    pub fn choose_session(&self, briefs: &[Brief]) -> (r: Option<usize>)
        ensures
            choice(briefs@, self.pin()) == (match r {
                Some(i) => Some(i as int),
                None => None,
            }),
    {
        match &self.pinned {
            Some(pinned) => {
                let mut i: usize = 0;
                while i < briefs.len()
                    invariant
                        i <= briefs@.len(),
                        self.pinned == Some(*pinned),
                        choice(briefs@, self.pin()) == first_with_id(
                            ids_of(briefs@),
                            pinned@,
                            i as int,
                        ),
                    decreases briefs@.len() - i,
                {
                    proof {
                        assert(ids_of(briefs@)[i as int] == briefs@[i as int].app_id@);
                    }
                    if text::eq_ignore_ascii_case(briefs[i].app_id.as_str(), pinned.as_str()) {
                        return Some(i);
                    }
                    i = i + 1;
                }
                None
            },
            None => {
                let id = id_of;
                let plays = plays_of;
                let r = session::pick(briefs, id, plays);
                proof {
                    session::law_pick_follows_the_rule(
                        briefs@,
                        id,
                        plays,
                        ids_of(briefs@),
                        playing_of(briefs@),
                        r,
                    );
                }
                r
            },
        }
    }

    /// Takes over what was read of the chosen session, and says what to show of it and where it is in
    /// its track. A session without a title is in the middle of a track change: nothing is shown of
    /// it, but it stays followed, so that its buttons stay live.
    pub fn read(&mut self, reading: Option<Reading>) -> (r: (State, Option<Timeline>))
        ensures
            final(self).pin() == old(self).pin(),
            is_shown(reading, r.0, r.1, final(self).following()),
    {
        match reading {
            None => {
                self.current_app_id = None;
                (State::Absent, None)
            },
            Some(reading) => {
                self.current_app_id = Some(reading.snapshot.app_id.clone());
                if reading.snapshot.has_track() {
                    (State::Track(reading.snapshot), reading.timeline)
                } else {
                    (State::Absent, reading.timeline)
                }
            },
        }
    }

    /// Whom a command goes to: the session that was last read, or nobody.
    pub fn send(&self, command: Command) -> (r: Option<(&str, Command)>)
        ensures
            match r {
                Some((id, c)) => self.following() == Some(id@) && c == command,
                None => self.following() is None,
            },
    {
        match &self.current_app_id {
            Some(id) => Some((id.as_str(), command)),
            None => None,
        }
    }

    /// The id of the session that is followed.
    pub fn current_app_id(&self) -> (r: Option<&str>)
        ensures
            self.following() == (match r {
                Some(id) => Some(id@),
                None => None,
            }),
    {
        match &self.current_app_id {
            Some(id) => Some(id.as_str()),
            None => None,
        }
    }
}

/// A pinned id is an exact instruction: whatever session is chosen then has that id, and none is
/// chosen only where none has it.
pub proof fn law_a_pinned_session_or_none(briefs: Seq<Brief>, pinned: Seq<char>)
    ensures
        match choice(briefs, Some(pinned)) {
            Some(i) => 0 <= i < briefs.len() && text::ascii_lower(briefs[i].app_id@)
                == text::ascii_lower(pinned),
            None => forall|j: int|
                0 <= j < briefs.len() ==> text::ascii_lower((#[trigger] briefs[j]).app_id@)
                    != text::ascii_lower(pinned),
        },
{
    lemma_first_with_id(ids_of(briefs), pinned, 0);
    let ids = ids_of(briefs);
    assert forall|j: int| 0 <= j < briefs.len() implies ids[j] == (#[trigger] briefs[j]).app_id@ by {}
}

proof fn lemma_first_with_id(ids: Seq<Seq<char>>, id: Seq<char>, from: int)
    requires
        0 <= from <= ids.len(),
    ensures
        match first_with_id(ids, id, from) {
            Some(i) => from <= i < ids.len() && text::ascii_lower(ids[i]) == text::ascii_lower(id),
            None => forall|j: int|
                from <= j < ids.len() ==> text::ascii_lower(#[trigger] ids[j])
                    != text::ascii_lower(id),
        },
    decreases ids.len() - from,
{
    if from < ids.len() {
        lemma_first_with_id(ids, id, from + 1);
    }
}

/// Without a pinned id nothing is followed but a session whose id names the player.
pub proof fn law_an_unpinned_feed_follows_only_the_player(briefs: Seq<Brief>)
    ensures
        choice(briefs, None) matches Some(i) ==> 0 <= i < briefs.len() && session::verdict(
            briefs[i].app_id@,
        ) == session::Match::Certain,
{
    session::law_only_the_players_sessions_are_followed(ids_of(briefs), playing_of(briefs));
}

/// Without a pinned id the session chosen is one whose id holds one of the player's own identifiers, the
/// first of those that play, or the first of all where none does; nothing is chosen exactly where no id
/// holds one.
pub proof fn law_an_unpinned_choice_holds_an_identifier(briefs: Seq<Brief>)
    ensures
        match choice(briefs, None) {
            Some(i) => {
                &&& 0 <= i < briefs.len()
                &&& names_player(briefs[i])
                &&& briefs[i].status == PlaybackStatus::Playing ==> forall|j: int|
                    0 <= j < i ==> !(names_player(#[trigger] briefs[j]) && briefs[j].status
                        == PlaybackStatus::Playing)
                &&& briefs[i].status != PlaybackStatus::Playing ==> (forall|j: int|
                    0 <= j < briefs.len() ==> !(names_player(#[trigger] briefs[j]) && briefs[j].status
                        == PlaybackStatus::Playing)) && (forall|j: int|
                    0 <= j < i ==> !names_player(#[trigger] briefs[j]))
            },
            None => forall|j: int| 0 <= j < briefs.len() ==> !names_player(#[trigger] briefs[j]),
        },
{
    let (ids, plays) = (ids_of(briefs), playing_of(briefs));
    session::law_the_first_session_is_followed(ids, plays);
    assert forall|j: int| 0 <= j < briefs.len() implies (session::verdict(ids[j])
        == session::Match::Certain <==> names_player(#[trigger] briefs[j])) && plays[j] == (
    briefs[j].status == PlaybackStatus::Playing) by {
        session::law_only_the_players_identifiers_are_certain(briefs[j].app_id@);
    }
}

/// Whether a session's id holds one of the player's own identifiers, whatever the case of its letters.
pub open spec fn names_player(brief: Brief) -> bool {
    let id = text::ascii_lower(brief.app_id@);
    session::is_around(id, "music.youtube.com"@) || session::is_around(id, "youtube-music"@)
        || session::is_around(id, "youtube music"@) || session::is_around(id, "ytmdesktop"@)
}

/// With a pinned id the session chosen is the first that has it, whatever the case of its letters and
/// whether or not it plays.
pub proof fn law_the_first_pinned_session_is_chosen(briefs: Seq<Brief>, pinned: Seq<char>)
    ensures
        match choice(briefs, Some(pinned)) {
            Some(i) => 0 <= i < briefs.len() && text::ascii_lower(briefs[i].app_id@)
                == text::ascii_lower(pinned) && forall|j: int|
                0 <= j < i ==> text::ascii_lower((#[trigger] briefs[j]).app_id@) != text::ascii_lower(
                    pinned,
                ),
            None => forall|j: int|
                0 <= j < briefs.len() ==> text::ascii_lower((#[trigger] briefs[j]).app_id@)
                    != text::ascii_lower(pinned),
        },
{
    lemma_first_with_id_is_first(ids_of(briefs), pinned, 0);
    assert(forall|j: int| 0 <= j < briefs.len() ==> ids_of(briefs)[j] == (#[trigger] briefs[j]).app_id@);
}

proof fn lemma_first_with_id_is_first(ids: Seq<Seq<char>>, id: Seq<char>, from: int)
    requires
        0 <= from,
    ensures
        match first_with_id(ids, id, from) {
            Some(i) => from <= i < ids.len() && text::ascii_lower(ids[i]) == text::ascii_lower(id)
                && forall|j: int|
                from <= j < i ==> text::ascii_lower(#[trigger] ids[j]) != text::ascii_lower(id),
            None => forall|j: int|
                from <= j < ids.len() ==> text::ascii_lower(#[trigger] ids[j]) != text::ascii_lower(id),
        },
    decreases ids.len() - from,
{
    if from < ids.len() && text::ascii_lower(ids[from]) != text::ascii_lower(id) {
        lemma_first_with_id_is_first(ids, id, from + 1);
    }
}

/// Whether that is what is shown and followed of a reading.
pub open spec fn is_shown(
    reading: Option<Reading>,
    state: State,
    timeline: Option<Timeline>,
    following: Option<Seq<char>>,
) -> bool {
    match reading {
        None => following is None && state is Absent && timeline is None,
        Some(reading) => {
            &&& following == Some(reading.snapshot.app_id@)
            &&& timeline == reading.timeline
            &&& if text::is_blank(reading.snapshot.title@) {
                state is Absent
            } else {
                state == State::Track(reading.snapshot)
            }
        },
    }
}

/// A session with a title is shown as it is, and followed. One whose title is nothing but white space shows
/// nothing, but it stays followed, so that its buttons stay live. Without a session there is nothing.
pub proof fn law_a_track_change_keeps_the_session(
    reading: Reading,
    state: State,
    timeline: Option<Timeline>,
    following: Option<Seq<char>>,
    i: int,
)
    requires
        is_shown(Some(reading), state, timeline, following),
    ensures
        following == Some(reading.snapshot.app_id@),
        timeline == reading.timeline,
        0 <= i < reading.snapshot.title@.len() && !text::is_whitespace(reading.snapshot.title@[i])
            ==> state == State::Track(reading.snapshot),
        text::trimmed(reading.snapshot.title@).len() == 0 ==> state is Absent,
        state.plays() ==> reading.snapshot.status == PlaybackStatus::Playing,
{
    text::law_a_blank_text_trims_to_nothing(reading.snapshot.title@);
}

} // verus!
