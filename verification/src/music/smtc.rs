//! Media sessions as plain values: who one belongs to, what it plays, and where in the track it is.
use crate::text;
use vstd::prelude::*;

verus! {

/// What a session is doing, as far as a transport control cares.
#[derive(Debug, Clone, Copy, PartialEq, Eq, Structural)]
pub enum PlaybackStatus {
    /// There is a session, but it says nothing of use yet.
    Unknown,
    Stopped,
    Paused,
    Playing,
}

impl Default for PlaybackStatus {
    fn default() -> (r: Self)
        ensures
            r == PlaybackStatus::Unknown,
    {
        PlaybackStatus::Unknown
    }
}

impl PlaybackStatus {
    /// What the system's number for a status stands for. A session that is closed, opened or changing
    /// says nothing of use.
    pub open spec fn of_code(code: i32) -> PlaybackStatus {
        if code == 3 {
            PlaybackStatus::Stopped
        } else if code == 4 {
            PlaybackStatus::Playing
        } else if code == 5 {
            PlaybackStatus::Paused
        } else {
            PlaybackStatus::Unknown
        }
    }

    /// Reads the system's number for a status.
    pub fn from_winrt(code: i32) -> (r: PlaybackStatus)
        ensures
            r == PlaybackStatus::of_code(code),
    {
        match code {
            3 => PlaybackStatus::Stopped,
            4 => PlaybackStatus::Playing,
            5 => PlaybackStatus::Paused,
            _ => PlaybackStatus::Unknown,
        }
    }

    /// Whether it plays.
    pub fn is_playing(self) -> (r: bool)
        ensures
            r == (self == PlaybackStatus::Playing),
    {
        self == PlaybackStatus::Playing
    }
}

/// What kind of media a session says it carries. Not to be used to tell music from video: a browser
/// says music for both.
#[derive(Debug, Clone, Copy, PartialEq, Eq, Structural)]
pub enum MediaKind {
    Unknown,
    Music,
    Video,
    Image,
}

impl Default for MediaKind {
    fn default() -> (r: Self)
        ensures
            r == MediaKind::Unknown,
    {
        MediaKind::Unknown
    }
}

impl MediaKind {
    /// What the system's number for a kind of media stands for.
    pub open spec fn of_code(code: i32) -> MediaKind {
        if code == 1 {
            MediaKind::Music
        } else if code == 2 {
            MediaKind::Video
        } else if code == 3 {
            MediaKind::Image
        } else {
            MediaKind::Unknown
        }
    }

    /// Reads the system's number for a kind of media.
    pub fn from_winrt(code: i32) -> (r: MediaKind)
        ensures
            r == MediaKind::of_code(code),
    {
        match code {
            1 => MediaKind::Music,
            2 => MediaKind::Video,
            3 => MediaKind::Image,
            _ => MediaKind::Unknown,
        }
    }
}

/// Everything worth drawing about one session.
#[derive(Debug, Clone, PartialEq, Eq)]
pub struct Snapshot {
    /// The app's id, which is what sessions are told apart by.
    pub app_id: String,
    pub title: String,
    pub artist: String,
    pub album: String,
    pub status: PlaybackStatus,
    pub kind: MediaKind,
    /// The cover as published, where one is.
    pub cover: Option<Vec<u8>>,
}

/// What a session is, without asking it what it plays: the half that is free to read.
#[derive(Debug, Clone, PartialEq, Eq)]
pub struct Brief {
    pub app_id: String,
    pub status: PlaybackStatus,
    pub kind: MediaKind,
}

impl Default for Snapshot {
    fn default() -> (r: Self)
        ensures
            r.app_id@.len() == 0,
            r.title@.len() == 0,
            r.artist@.len() == 0,
            r.album@.len() == 0,
            r.status == PlaybackStatus::Unknown,
            r.kind == MediaKind::Unknown,
            r.cover is None,
    {
        Snapshot {
            app_id: String::new(),
            title: String::new(),
            artist: String::new(),
            album: String::new(),
            status: PlaybackStatus::Unknown,
            kind: MediaKind::Unknown,
            cover: None,
        }
    }
}

impl Default for Brief {
    fn default() -> (r: Self)
        ensures
            r.app_id@.len() == 0,
            r.status == PlaybackStatus::Unknown,
            r.kind == MediaKind::Unknown,
    {
        Brief {
            app_id: String::new(),
            status: PlaybackStatus::Unknown,
            kind: MediaKind::Unknown,
        }
    }
}

/// What a session plays: the half that costs a call to its app. What it does not tell is empty.
#[derive(Debug, Clone, PartialEq, Eq)]
pub struct Properties {
    pub title: String,
    pub artist: String,
    pub album: String,
    pub cover: Option<Vec<u8>>,
}

/// One poll's answer: the session that was chosen, and where it is in its track.
#[derive(Debug, Clone, PartialEq, Eq)]
pub struct Reading {
    pub snapshot: Snapshot,
    pub timeline: Option<Timeline>,
}

impl Snapshot {
    /// Whether there is a track in it. A session can have an empty title during a track change, and
    /// drawing that would make the strip blink.
    pub fn has_track(&self) -> (r: bool)
        ensures
            r == !text::is_blank(self.title@),
    {
        !text::blank(self.title.as_str())
    }

    /// Puts a snapshot together from what was read of a session; properties that could not be read
    /// leave it without a track.
    pub fn assemble(brief: Brief, properties: Option<Properties>) -> (r: Snapshot)
        ensures
            r.app_id == brief.app_id,
            r.status == brief.status,
            r.kind == brief.kind,
            match properties {
                Some(p) => r.title == p.title && r.artist == p.artist && r.album == p.album
                    && r.cover == p.cover,
                None => r.title@.len() == 0 && r.artist@.len() == 0 && r.album@.len() == 0
                    && r.cover is None,
            },
    {
        match properties {
            Some(p) => Snapshot {
                app_id: brief.app_id,
                title: p.title,
                artist: p.artist,
                album: p.album,
                status: brief.status,
                kind: brief.kind,
                cover: p.cover,
            },
            None => Snapshot {
                app_id: brief.app_id,
                title: String::new(),
                artist: String::new(),
                album: String::new(),
                status: brief.status,
                kind: brief.kind,
                cover: None,
            },
        }
    }
}

/// The largest cover that is read, in bytes. Its size comes from another process.
pub const MAX_COVER: u64 = 8_388_608;

/// Whether a cover of the given size is read: one that is empty or too large counts as none.
pub fn cover_is_readable(size: u64) -> (r: bool)
    ensures
        r == (0 < size <= MAX_COVER),
{
    0 < size && size <= MAX_COVER
}

/// The place of the first session with the given app id.
pub fn find(sessions: &[Brief], app_id: &str) -> (r: Option<usize>)
    ensures
        match r {
            Some(i) => i < sessions@.len() && sessions@[i as int].app_id@ == app_id@ && forall|j: int|
                0 <= j < i ==> (#[trigger] sessions@[j]).app_id@ != app_id@,
            None => forall|j: int|
                0 <= j < sessions@.len() ==> (#[trigger] sessions@[j]).app_id@ != app_id@,
        },
{
    let mut i: usize = 0;
    while i < sessions.len()
        invariant
            i <= sessions@.len(),
            forall|j: int| 0 <= j < i ==> (#[trigger] sessions@[j]).app_id@ != app_id@,
        decreases sessions@.len() - i,
    {
        if text::same_text(sessions[i].app_id.as_str(), app_id) {
            return Some(i);
        }
        i = i + 1;
    }
    None
}

/// Where a track is, as its app reports it, in ticks of 100 nanoseconds. The position is a checkpoint
/// and not a clock: it was true at `last_updated`.
#[derive(Debug, Clone, Copy, PartialEq, Eq, Structural)]
pub struct Timeline {
    pub start: i64,
    pub end: i64,
    pub position: i64,
    pub last_updated: i64,
}

impl Default for Timeline {
    fn default() -> (r: Self)
        ensures
            r == (Timeline { start: 0, end: 0, position: 0, last_updated: 0 }),
    {
        Timeline { start: 0, end: 0, position: 0, last_updated: 0 }
    }
}

/// How far through a track it is: `position` of `span`.
#[derive(Debug, Clone, Copy, PartialEq, Eq, Structural)]
pub struct Fraction {
    pub position: i64,
    pub span: i64,
}

/// Whether a number of ticks can be counted.
pub open spec fn countable(ticks: int) -> bool {
    i64::MIN <= ticks <= i64::MAX
}

impl Timeline {
    /// How far the checkpoint has moved by `now`: while it plays, by the time since it was true.
    pub open spec fn carried(self, now: i64, playing: bool) -> int {
        if playing && self.last_updated > 0 && now > self.last_updated {
            now - self.last_updated
        } else {
            0
        }
    }

    /// The position from the track's start, carried forward to `now` and held to the track.
    pub open spec fn position_at(self, now: i64, playing: bool) -> int {
        let raw = self.position - self.start + self.carried(now, playing);
        let span = self.end - self.start;
        if raw < 0 {
            0
        } else if raw > span {
            span
        } else {
            raw
        }
    }

    /// The track's length, or none where its app publishes no end.
    pub fn duration_ticks(self) -> (r: Option<i64>)
        requires
            countable(self.end - self.start),
        ensures
            r == (if self.end > self.start {
                Some((self.end - self.start) as i64)
            } else {
                None
            }),
    {
        let span: i64 = self.end - self.start;
        if span > 0 {
            Some(span)
        } else {
            None
        }
    }

    /// The published position from the track's start.
    pub fn position_ticks(self) -> (r: i64)
        requires
            countable(self.position - self.start),
        ensures
            r == (if self.position > self.start {
                self.position - self.start
            } else {
                0
            }),
    {
        let position: i64 = self.position - self.start;
        if position > 0 {
            position
        } else {
            0
        }
    }

    /// How far through the track it is now, or none where there is no track to be through. While it
    /// plays the checkpoint is carried forward by the time since; paused, it is the truth.
    pub fn fraction_at(self, now: i64, playing: bool) -> (r: Option<Fraction>)
        requires
            countable(self.end - self.start),
            self.end > self.start ==> countable(self.position - self.start),
            self.end > self.start && playing && self.last_updated > 0 ==> countable(
                now - self.last_updated,
            ) && countable(self.position - self.start + self.carried(now, playing)),
        ensures
            match r {
                None => self.end <= self.start,
                Some(f) => self.end > self.start && f.span == self.end - self.start && f.position
                    == self.position_at(now, playing) && 0 <= f.position <= f.span,
            },
    {
        let span: i64 = self.end - self.start;
        if span <= 0 {
            return None;
        }
        let mut position: i64 = self.position - self.start;
        if playing && self.last_updated > 0 {
            let since: i64 = now - self.last_updated;
            if since > 0 {
                position = position + since;
            }
        }
        let held: i64 = if position < 0 {
            0
        } else if position > span {
            span
        } else {
            position
        };
        Some(Fraction { position: held, span })
    }

    /// Whether there is anything here worth drawing. A session that publishes no timeline reads as
    /// all zeros.
    pub fn is_published(self) -> (r: bool)
        ensures
            r == (self.end > self.start || self.position > 0),
    {
        self.end > self.start || self.position > 0
    }
}

/// A paused position is taken as published, whatever the time; a playing one never runs backwards nor
/// past the end, and after a wait as long as the track it is at the end.
pub proof fn law_a_position_is_carried_forward_only_while_playing(t: Timeline, now: i64, later: i64)
    requires
        t.end > t.start,
        now <= later,
    ensures
        t.position_at(now, false) == t.position_at(later, false),
        0 <= t.position_at(now, true) <= t.position_at(later, true) <= t.end - t.start,
        t.position_at(now, false) <= t.position_at(now, true),
        t.last_updated > 0 && t.position >= t.start && later - t.last_updated >= t.end - t.start
            ==> t.position_at(later, true) == t.end - t.start,
{
}

/// A transport command. One button serves for play and pause.
#[derive(Debug, Clone, Copy, PartialEq, Eq, Structural)]
pub enum Command {
    TogglePlayPause,
    Next,
    Previous,
}

/// The moment 1970 began, in ticks since 1601 began.
pub const UNIX_EPOCH_IN_TICKS: i64 = 116_444_736_000_000_000;

/// A number of nanoseconds since 1970 began as ticks since 1601 began, held to what can be counted.
pub open spec fn ticks_of(unix_nanos: int) -> int {
    let ticks = UNIX_EPOCH_IN_TICKS + unix_nanos / 100;
    if ticks > i64::MAX {
        i64::MAX as int
    } else {
        ticks
    }
}

/// A number of nanoseconds since 1970 began in the units of session timestamps: ticks of 100
/// nanoseconds since 1601 began.
pub fn ticks_from_unix_nanos(unix_nanos: u128) -> (r: i64)
    ensures
        r == ticks_of(unix_nanos as int),
{
    let ticks: u128 = unix_nanos / 100;
    let most: u128 = (i64::MAX - UNIX_EPOCH_IN_TICKS) as u128;
    if ticks > most {
        i64::MAX
    } else {
        UNIX_EPOCH_IN_TICKS + ticks as i64
    }
}

/// A moment of the system's clock.
#[verifier::external_type_specification]
#[verifier::external_body]
pub struct ExSystemTime(std::time::SystemTime);

/// That one moment of the system's clock is before another.
#[verifier::external_type_specification]
#[verifier::external_body]
pub struct ExSystemTimeError(std::time::SystemTimeError);

/// `SystemTime::now`: the current moment, of which nothing can be promised.
pub assume_specification[ std::time::SystemTime::now ]() -> std::time::SystemTime
;

/// `Duration::as_nanos`: a length of time in nanoseconds. The length is not modelled, so nothing is
/// said of the number.
pub assume_specification[ std::time::Duration::as_nanos ](d: &std::time::Duration) -> u128
;

/// `SystemTime::duration_since`, from the start of 1970: how long ago that was, or that it has not
/// come yet. It depends on the clock, so nothing is promised of it.
#[verifier::external_body]
fn since_unix_epoch(t: std::time::SystemTime) -> (r: Result<
    std::time::Duration,
    std::time::SystemTimeError,
>) {
    t.duration_since(std::time::UNIX_EPOCH)
}

/// Now, in the units of session timestamps. It is no moment before 1970.
pub fn now_ticks() -> (r: i64)
    ensures
        r >= UNIX_EPOCH_IN_TICKS,
{
    let nanos: u128 = match since_unix_epoch(std::time::SystemTime::now()) {
        Ok(d) => d.as_nanos(),
        Err(_) => 0,
    };
    ticks_from_unix_nanos(nanos)
}

/// The system's numbers: four plays, five is paused, three stopped, and anything else says nothing; of media,
/// one is music, two video, three a picture.
pub proof fn law_the_systems_numbers(code: i32)
    ensures
        PlaybackStatus::of_code(code) == PlaybackStatus::Playing <==> code == 4,
        PlaybackStatus::of_code(code) == PlaybackStatus::Paused <==> code == 5,
        PlaybackStatus::of_code(code) == PlaybackStatus::Stopped <==> code == 3,
        MediaKind::of_code(code) == MediaKind::Music <==> code == 1,
        MediaKind::of_code(code) == MediaKind::Video <==> code == 2,
        MediaKind::of_code(code) == MediaKind::Image <==> code == 3,
{
}

/// Inside the track the position is what was published, counted from the track's start, and while it plays the
/// time since then on top, tick by tick. Before the start it is nothing and past the end the whole.
pub proof fn law_a_position_is_what_was_published_and_the_time_since(t: Timeline, now: i64)
    requires
        t.end > t.start,
    ensures
        ({
            let since = if t.last_updated > 0 && now > t.last_updated {
                now - t.last_updated
            } else {
                0
            };
            &&& t.start <= t.position <= t.end ==> t.position_at(now, false) == t.position - t.start
            &&& t.start <= t.position + since <= t.end ==> t.position_at(now, true) == t.position + since
                - t.start
            &&& t.position <= t.start ==> t.position_at(now, false) == 0
            &&& t.position >= t.end ==> t.position_at(now, false) == t.end - t.start
            &&& t.position + since <= t.start ==> t.position_at(now, true) == 0
            &&& t.position + since >= t.end ==> t.position_at(now, true) == t.end - t.start
        }),
{
}

/// A tick is a hundred nanoseconds, and the count starts three hundred and sixty-nine years before 1970.
pub proof fn law_ticks_count_hundreds_of_nanoseconds(nanos: int)
    requires
        0 <= nanos <= 100_000_000_000_000_000_000,
    ensures
        ticks_of(0) == 134_774int * 86_400 * 10_000_000,
        ticks_of(nanos + 100) == ticks_of(nanos) + 1,
        100 * (ticks_of(nanos) - ticks_of(0)) <= nanos < 100 * (ticks_of(nanos) - ticks_of(0) + 1),
{
}

} // verus!
