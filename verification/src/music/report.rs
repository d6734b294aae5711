//! What the diagnostics tell of the sessions on the machine.
use crate::music::feed::State;
use crate::music::session::{self, Match};
use crate::music::show;
use crate::music::smtc::{MediaKind, PlaybackStatus, Snapshot};
use crate::text;
use vstd::prelude::*;

verus! {

/// The word for what an id is taken for.
pub open spec fn match_word(m: Match) -> Seq<char> {
    match m {
        Match::Certain => "Certain"@,
        Match::Browser => "Browser"@,
        Match::No => "No"@,
    }
}

/// The word for what a session is doing.
pub open spec fn playback_word(s: PlaybackStatus) -> Seq<char> {
    match s {
        PlaybackStatus::Unknown => "Unknown"@,
        PlaybackStatus::Stopped => "Stopped"@,
        PlaybackStatus::Paused => "Paused"@,
        PlaybackStatus::Playing => "Playing"@,
    }
}

/// The word for what kind of media a session says it carries.
pub open spec fn kind_word(k: MediaKind) -> Seq<char> {
    match k {
        MediaKind::Unknown => "Unknown"@,
        MediaKind::Music => "Music"@,
        MediaKind::Video => "Video"@,
        MediaKind::Image => "Image"@,
    }
}

/// A field for display: `<empty>` where there is nothing in it.
pub open spec fn shown(value: Seq<char>) -> Seq<char> {
    if text::is_blank(value) {
        "<empty>"@
    } else {
        value
    }
}

/// The lines that tell of one session.
pub open spec fn session_lines(s: Snapshot) -> Seq<Seq<char>> {
    seq![
        "  app id   : "@ + s.app_id@,
        "  verdict  : "@ + match_word(session::verdict(s.app_id@)),
        "  title    : "@ + shown(s.title@),
        "  artist   : "@ + shown(s.artist@),
        "  status   : "@ + playback_word(s.status),
        "  kind     : "@ + kind_word(s.kind),
        match s.cover {
            Some(c) => "  cover    : "@ + text::decimal(c@.len()) + " bytes"@,
            None => "  cover    : <none published>"@,
        },
        Seq::empty(),
    ]
}

/// The lines that tell of the first `n` sessions.
pub open spec fn sessions_lines(sessions: Seq<Snapshot>, n: int) -> Seq<Seq<char>>
    decreases n,
{
    if n <= 0 {
        Seq::empty()
    } else {
        sessions_lines(sessions, n - 1) + session_lines(sessions[n - 1])
    }
}

/// The report on the sessions, and on the one that would be followed.
pub open spec fn report_lines(sessions: Seq<Snapshot>, state: State) -> Seq<Seq<char>> {
    if sessions.len() == 0 {
        seq![
            "no SMTC sessions at all — nothing on this machine is playing media."@,
            "start YouTube Music, play a track, and run this again."@,
        ]
    } else {
        seq![text::decimal(sessions.len()) + " SMTC session(s):"@, Seq::empty()] + sessions_lines(
            sessions,
            sessions.len() as int,
        ) + seq![
            "--- what the strip would follow ---"@,
            match state {
                State::Track(s) => "  "@ + s.title@ + " — "@ + s.artist@,
                State::Absent => "  nothing"@,
            },
        ]
    }
}

/// The texts of lines.
pub open spec fn texts(v: Seq<String>) -> Seq<Seq<char>> {
    v.map_values(|s: String| s@)
}

fn push_line(out: &mut Vec<String>, a: &str, b: &str)
    ensures
        texts(final(out)@) == texts(old(out)@).push(a@ + b@),
{
    let mut line = String::new();
    line.append(a);
    line.append(b);
    proof {
        assert(line@ =~= a@ + b@);
        assert(texts(out@.push(line)) =~= texts(out@).push(a@ + b@));
    }
    out.push(line);
}

fn push_session(out: &mut Vec<String>, s: &Snapshot)
    ensures
        texts(final(out)@) == texts(old(out)@) + session_lines(*s),
{
    let ghost before = texts(out@);
    push_line(out, "  app id   : ", s.app_id.as_str());
    push_line(
        out,
        "  verdict  : ",
        match session::classify(s.app_id.as_str()) {
            Match::Certain => "Certain",
            Match::Browser => "Browser",
            Match::No => "No",
        },
    );
    push_line(out, "  title    : ", show(s.title.as_str()).as_str());
    push_line(out, "  artist   : ", show(s.artist.as_str()).as_str());
    push_line(
        out,
        "  status   : ",
        match s.status {
            PlaybackStatus::Unknown => "Unknown",
            PlaybackStatus::Stopped => "Stopped",
            PlaybackStatus::Paused => "Paused",
            PlaybackStatus::Playing => "Playing",
        },
    );
    push_line(
        out,
        "  kind     : ",
        match s.kind {
            MediaKind::Unknown => "Unknown",
            MediaKind::Music => "Music",
            MediaKind::Video => "Video",
            MediaKind::Image => "Image",
        },
    );
    match &s.cover {
        Some(c) => {
            let mut size = String::new();
            text::push_decimal(&mut size, c.len() as u64);
            size.append(" bytes");
            push_line(out, "  cover    : ", size.as_str());
            proof {
                assert("  cover    : "@ + size@ =~= "  cover    : "@ + text::decimal(c@.len())
                    + " bytes"@);
            }
        },
        None => {
            push_line(out, "  cover    : <none published>", "");
            proof {
                reveal_strlit("");
                assert("  cover    : <none published>"@ + ""@ =~= "  cover    : <none published>"@);
            }
        },
    }
    push_line(out, "", "");
    proof {
        reveal_strlit("");
        assert(""@ + ""@ =~= Seq::empty());
        assert(texts(out@) =~= before + session_lines(*s));
    }
}

/// Tells of every session on the machine, with the verdict on each, and of the one that would be
/// followed: what shows the id to pin where the guess misses.
pub fn report_sessions(sessions: &[Snapshot], state: &State) -> (r: Vec<String>)
    ensures
        texts(r@) == report_lines(sessions@, *state),
{
    let mut out: Vec<String> = Vec::new();
    proof {
        reveal_strlit("");
        assert(texts(out@) =~= Seq::empty());
    }
    if sessions.len() == 0 {
        push_line(
            &mut out,
            "no SMTC sessions at all — nothing on this machine is playing media.",
            "",
        );
        push_line(&mut out, "start YouTube Music, play a track, and run this again.", "");
        proof {
            let a = "no SMTC sessions at all — nothing on this machine is playing media."@;
            let b = "start YouTube Music, play a track, and run this again."@;
            assert(a + ""@ =~= a);
            assert(b + ""@ =~= b);
            assert(texts(out@) =~= seq![a, b]);
        }
        return out;
    }
    let mut count = String::new();
    text::push_decimal(&mut count, sessions.len() as u64);
    push_line(&mut out, count.as_str(), " SMTC session(s):");
    push_line(&mut out, "", "");
    let ghost head = seq![
        text::decimal(sessions@.len()) + " SMTC session(s):"@,
        Seq::<char>::empty(),
    ];
    proof {
        assert(""@ + ""@ =~= Seq::empty());
        assert(count@ =~= text::decimal(sessions@.len()));
        assert(texts(out@) =~= head);
        assert(head + Seq::<Seq<char>>::empty() =~= head);
    }
    let mut i: usize = 0;
    while i < sessions.len()
        invariant
            i <= sessions@.len(),
            texts(out@) == head + sessions_lines(sessions@, i as int),
        decreases sessions@.len() - i,
    {
        let ghost seen = sessions_lines(sessions@, i as int);
        let ghost own = session_lines(sessions@[i as int]);
        push_session(&mut out, &sessions[i]);
        i = i + 1;
        proof {
            assert(head + seen + own =~= head + (seen + own));
        }
    }
    let ghost upto = texts(out@);
    push_line(&mut out, "--- what the strip would follow ---", "");
    match state {
        State::Track(s) => {
            let mut line = String::new();
            line.append(s.title.as_str());
            line.append(" — ");
            line.append(s.artist.as_str());
            push_line(&mut out, "  ", line.as_str());
            proof {
                assert("  "@ + line@ =~= "  "@ + s.title@ + " — "@ + s.artist@);
            }
        },
        State::Absent => {
            push_line(&mut out, "  nothing", "");
            proof {
                assert("  nothing"@ + ""@ =~= "  nothing"@);
            }
        },
    }
    proof {
        let rule = "--- what the strip would follow ---"@;
        assert(rule + ""@ =~= rule);
        assert(texts(out@) =~= report_lines(sessions@, *state));
    }
    out
}

/// Every session on the machine is told of, in order and each by its id, what that is taken for, its title,
/// its artist, what it does and its kind; and last what would be followed.
pub proof fn law_every_session_is_told_of(sessions: Seq<Snapshot>, state: State, i: int)
    requires
        0 <= i < sessions.len(),
    ensures
        ({
            let l = report_lines(sessions, state);
            let s = sessions[i];
            let at = 2 + 8 * i;
            &&& l.len() == 4 + 8 * sessions.len()
            &&& l[at] == "  app id   : "@ + s.app_id@
            &&& l[at + 1] == "  verdict  : "@ + (match session::verdict(s.app_id@) {
                Match::Certain => "Certain"@,
                Match::Browser => "Browser"@,
                Match::No => "No"@,
            })
            &&& !text::is_blank(s.title@) ==> l[at + 2] == "  title    : "@ + s.title@
            &&& text::is_blank(s.title@) ==> l[at + 2] == "  title    : "@ + "<empty>"@
            &&& !text::is_blank(s.artist@) ==> l[at + 3] == "  artist   : "@ + s.artist@
            &&& text::is_blank(s.artist@) ==> l[at + 3] == "  artist   : "@ + "<empty>"@
            &&& l[at + 4] == "  status   : "@ + (match s.status {
                PlaybackStatus::Unknown => "Unknown"@,
                PlaybackStatus::Stopped => "Stopped"@,
                PlaybackStatus::Paused => "Paused"@,
                PlaybackStatus::Playing => "Playing"@,
            })
            &&& l[at + 5] == "  kind     : "@ + (match s.kind {
                MediaKind::Unknown => "Unknown"@,
                MediaKind::Music => "Music"@,
                MediaKind::Video => "Video"@,
                MediaKind::Image => "Image"@,
            })
            &&& state matches State::Track(t) ==> l.last() == "  "@ + t.title@ + " — "@ + t.artist@
            &&& state is Absent ==> l.last() == "  nothing"@
        }),
{
    lemma_session_block(sessions, sessions.len() as int, i);
    let l = report_lines(sessions, state);
    let own = session_lines(sessions[i]);
    let blocks = sessions_lines(sessions, sessions.len() as int);
    assert forall|k: int| 0 <= k < 8 implies l[2 + 8 * i + k] == #[trigger] own[k] by {
        assert(l[2 + 8 * i + k] == blocks[8 * i + k]);
    }
    assert(l[2 + 8 * i] == own[0]);
    assert(l[2 + 8 * i + 1] == own[1]);
    assert(l[2 + 8 * i + 2] == own[2]);
    assert(l[2 + 8 * i + 3] == own[3]);
    assert(l[2 + 8 * i + 4] == own[4]);
    assert(l[2 + 8 * i + 5] == own[5]);
}

proof fn lemma_session_block(sessions: Seq<Snapshot>, n: int, i: int)
    requires
        0 <= i < n <= sessions.len(),
    ensures
        sessions_lines(sessions, n).len() == 8 * n,
        forall|k: int|
            0 <= k < 8 ==> sessions_lines(sessions, n)[8 * i + k] == #[trigger] session_lines(
                sessions[i],
            )[k],
    decreases n,
{
    lemma_session_count(sessions, n - 1);
    if i < n - 1 {
        lemma_session_block(sessions, n - 1, i);
    }
}

proof fn lemma_session_count(sessions: Seq<Snapshot>, n: int)
    requires
        0 <= n <= sessions.len(),
    ensures
        sessions_lines(sessions, n).len() == 8 * n,
    decreases n,
{
    if n > 0 {
        lemma_session_count(sessions, n - 1);
    }
}

} // verus!
