//! Publishing what the strip should show: a small text of `key=value` lines in a file that the
//! strip's component reads again when it changes, and a picture file beside it.
//!
//! The writing itself is done by the program around this library, in steps: [`Publisher::stage_cover`]
//! says what becomes of the cover, [`Publisher::cover_staged`] is told of it, [`Publisher::publish`]
//! says what to write, if anything, and [`Publisher::published`] is told of that. A step that failed
//! is simply not reported, and is tried again at the next poll.
use crate::music::feed::State;
use crate::music::smtc::PlaybackStatus;
use crate::text;
use crate::update;
use vstd::prelude::*;

verus! {

/// The file the state is published in.
pub const STATE_FILE: &'static str = "audio-tray-music.txt";

/// What a cover's content is known by: its length and the sum of its bytes.
pub open spec fn byte_sum(bytes: Seq<u8>) -> int
    decreases bytes.len(),
{
    if bytes.len() == 0 {
        0
    } else {
        byte_sum(bytes.drop_last()) + bytes.last()
    }
}

/// What a cover's content is known by.
pub fn fingerprint(bytes: &[u8]) -> (r: (usize, u64))
    requires
        255 * bytes@.len() <= u64::MAX,
    ensures
        r.0 == bytes@.len(),
        r.1 == byte_sum(bytes@),
{
    let mut sum: u64 = 0;
    let mut i: usize = 0;
    while i < bytes.len()
        invariant
            i <= bytes@.len(),
            255 * bytes@.len() <= u64::MAX,
            sum == byte_sum(bytes@.take(i as int)),
            sum <= 255 * i,
        decreases bytes@.len() - i,
    {
        proof {
            let t = bytes@.take(i + 1);
            assert(t.drop_last() =~= bytes@.take(i as int));
            assert(t.last() == bytes@[i as int]);
        }
        sum = sum + bytes[i] as u64;
        i = i + 1;
    }
    proof {
        assert(bytes@.take(i as int) =~= bytes@);
    }
    (bytes.len(), sum)
}

/// What an optional cover's content is known by.
pub open spec fn print_of(cover: Option<Vec<u8>>) -> Option<(int, int)> {
    match cover {
        Some(c) => Some((c@.len() as int, byte_sum(c@))),
        None => None,
    }
}

/// The cover of what is shown.
pub open spec fn cover_of(state: State) -> Option<Vec<u8>> {
    match state {
        State::Track(s) => s.cover,
        State::Absent => None,
    }
}

/// A text without what would break the lines.
pub open spec fn sanitised(s: Seq<char>) -> Seq<char> {
    text::trimmed(text::replaced(text::replaced(s, '\r', ' '), '\n', ' '))
}

/// Takes out what would break the lines: a line break becomes a space, and the ends are trimmed.
pub fn sanitise(s: &str) -> (r: String)
    ensures
        r@ == sanitised(s@),
{
    let no_returns = text::replace_char(s, '\r', ' ');
    let no_breaks = text::replace_char(no_returns.as_str(), '\n', ' ');
    text::trim(no_breaks.as_str())
}

/// However a text reads, nothing of it can break a line.
pub proof fn law_a_sanitised_text_is_one_line(s: Seq<char>)
    ensures
        !sanitised(s).contains('\n'),
        !sanitised(s).contains('\r'),
{
    let a = text::replaced(s, '\r', ' ');
    let b = text::replaced(a, '\n', ' ');
    text::lemma_replaced_leaves_none(s, '\r', ' ');
    text::lemma_replaced_leaves_none(a, '\n', ' ');
    assert(!b.contains('\r'));
    text::lemma_trimmed_brings_nothing(b, '\n');
    text::lemma_trimmed_brings_nothing(b, '\r');
}

/// The word for a status.
pub open spec fn status_word(status: PlaybackStatus) -> Seq<char> {
    match status {
        PlaybackStatus::Playing => "playing"@,
        PlaybackStatus::Paused => "paused"@,
        _ => "stopped"@,
    }
}

/// What is published of a state, with the cover at the given path.
pub open spec fn body_text(state: State, cover: Option<Seq<char>>) -> Seq<char> {
    let (title, artist, status) = match state {
        State::Track(s) => (
            sanitised(s.title@),
            sanitised(s.artist@),
            status_word(s.status),
        ),
        State::Absent => (Seq::empty(), Seq::empty(), "stopped"@),
    };
    let path = match cover {
        Some(p) => p,
        None => Seq::empty(),
    };
    "title="@ + title + "\nartist="@ + artist + "\nstatus="@ + status + "\ncover="@ + path + "\n"@
}

/// The name of the n-th cover's file. Every cover has a name of its own: what shows it keeps pictures
/// by name, and would go on showing the old one.
pub open spec fn cover_name(n: nat) -> Seq<char> {
    "audio-tray-cover-"@ + text::decimal(n) + ".png"@
}

/// What becomes of the cover.
#[derive(Debug)]
pub enum CoverStep {
    /// The file on disk has this content already.
    Keep,
    /// There is none any more: remove the file that was shown, where there was one.
    Drop { previous: Option<String> },
    /// Write it to a file of this name, and then remove the one that was shown.
    Write { name: String, previous: Option<String> },
}

/// What has been published.
#[derive(Debug)]
pub struct Publisher {
    last: Option<String>,
    cover_generation: u64,
    current_cover: Option<String>,
    current_cover_fingerprint: Option<(usize, u64)>,
}

impl Publisher {
    /// The text that was last written.
    pub closed spec fn written(&self) -> Option<Seq<char>> {
        update::text_view(self.last)
    }

    /// How many covers were named.
    pub closed spec fn covers_named(&self) -> nat {
        self.cover_generation as nat
    }

    /// The path of the cover on disk.
    pub closed spec fn cover_path(&self) -> Option<Seq<char>> {
        update::text_view(self.current_cover)
    }

    /// What the content of the cover on disk is known by.
    pub closed spec fn cover_print(&self) -> Option<(int, int)> {
        match self.current_cover_fingerprint {
            Some((n, sum)) => Some((n as int, sum as int)),
            None => None,
        }
    }

    /// A cover is on disk only where it is known what is in it.
    pub open spec fn wf(&self) -> bool {
        self.cover_print() is None ==> self.cover_path() is None
    }

    /// Nothing was published.
    pub fn new() -> (r: Publisher)
        ensures
            r.written() is None,
            r.covers_named() == 0,
            r.cover_path() is None,
            r.cover_print() is None,
            r.wf(),
    {
        Publisher {
            last: None,
            cover_generation: 0,
            current_cover: None,
            current_cover_fingerprint: None,
        }
    }

    /// Whether another cover can be named: each gets a number of its own.
    pub fn can_name_a_cover(&self) -> (r: bool)
        ensures
            r == (self.covers_named() < u64::MAX),
    {
        self.cover_generation < u64::MAX
    }

    /// Says what becomes of the cover. Covers are told apart by content and not by track, because the
    /// tracks of an album share theirs, and a new file would have the strip built anew.
    pub fn stage_cover(&mut self, state: &State) -> (r: CoverStep)
        requires
            old(self).wf(),
            old(self).covers_named() < u64::MAX,
            cover_of(*state) matches Some(c) ==> 255 * c@.len() <= u64::MAX,
        ensures
            final(self).wf(),
            is_cover_step(*old(self), *state, r, *final(self)),
    {
        let print = print(state);
        let same = match (print, self.current_cover_fingerprint) {
            (None, None) => true,
            (Some((n, sum)), Some((m, other))) => n == m && sum == other,
            _ => false,
        };
        if same {
            return CoverStep::Keep;
        }
        let previous = self.current_cover.take();
        if print.is_some() {
            self.cover_generation = self.cover_generation + 1;
            let mut name = String::new();
            name.append("audio-tray-cover-");
            text::push_decimal(&mut name, self.cover_generation);
            name.append(".png");
            proof {
                assert(name@ =~= cover_name(self.cover_generation as nat));
            }
            CoverStep::Write { name, previous }
        } else {
            CoverStep::Drop { previous }
        }
    }

    /// Takes over that the cover of a state was written at the given path, or that there is none.
    pub fn cover_staged(&mut self, state: &State, path: Option<String>)
        requires
            path is Some ==> cover_of(*state) is Some,
            cover_of(*state) matches Some(c) ==> 255 * c@.len() <= u64::MAX,
        ensures
            final(self).wf(),
            is_cover_record(*old(self), *state, update::text_view(path), *final(self)),
    {
        self.current_cover = path;
        self.current_cover_fingerprint = print(state);
    }

    /// Says what to write for a state: nothing where that is what was last written. A needless write
    /// would have the strip built anew under the pointer.
    pub fn publish(&self, state: &State) -> (r: Option<String>)
        ensures
            is_text_to_write(*self, *state, update::text_view(r)),
    {
        let mut body = String::new();
        body.append("title=");
        if let State::Track(s) = state {
            body.append(sanitise(s.title.as_str()).as_str());
        }
        body.append("\nartist=");
        if let State::Track(s) = state {
            body.append(sanitise(s.artist.as_str()).as_str());
        }
        body.append("\nstatus=");
        body.append(
            match state {
                State::Track(s) => match s.status {
                    PlaybackStatus::Playing => "playing",
                    PlaybackStatus::Paused => "paused",
                    _ => "stopped",
                },
                State::Absent => "stopped",
            },
        );
        body.append("\ncover=");
        if let Some(path) = &self.current_cover {
            body.append(path.as_str());
        }
        body.append("\n");
        proof {
            assert(body@ =~= body_text(*state, self.cover_path()));
        }
        match &self.last {
            Some(last) => if text::same_text(last.as_str(), body.as_str()) {
                None
            } else {
                Some(body)
            },
            None => Some(body),
        }
    }

    /// Takes over that a text was written.
    pub fn published(&mut self, body: String)
        ensures
            old(self).wf() ==> final(self).wf(),
            is_text_record(*old(self), body@, *final(self)),
    {
        self.last = Some(body);
    }

    /// Forgets what was published, because it is being taken back; the cover's file, which is to be
    /// removed, where there is one. No cover's name is used again for that.
    pub fn clear(&mut self) -> (r: Option<String>)
        ensures
            update::text_view(r) == old(self).cover_path(),
            final(self).written() is None,
            final(self).cover_path() is None,
            final(self).cover_print() is None,
            final(self).wf(),
            final(self).covers_named() == old(self).covers_named(),
    {
        let cover = self.current_cover.take();
        self.last = None;
        self.current_cover_fingerprint = None;
        cover
    }
}

/// What becomes of a state's cover: nothing where the file on disk has its content, a file of a name
/// that was never used where it has another, and none where there is no cover any more.
pub open spec fn is_cover_step(was: Publisher, state: State, step: CoverStep, is: Publisher) -> bool {
    &&& is.written() == was.written()
    &&& is.cover_print() == was.cover_print()
    &&& match step {
        CoverStep::Keep => {
            &&& print_of(cover_of(state)) == was.cover_print()
            &&& is.cover_path() == was.cover_path()
            &&& is.covers_named() == was.covers_named()
        },
        CoverStep::Drop { previous } => {
            &&& cover_of(state) is None
            &&& was.cover_print() is Some
            &&& update::text_view(previous) == was.cover_path()
            &&& is.cover_path() is None
            &&& is.covers_named() == was.covers_named()
        },
        CoverStep::Write { name, previous } => {
            &&& cover_of(state) is Some
            &&& print_of(cover_of(state)) != was.cover_print()
            &&& name@ == cover_name(was.covers_named() + 1)
            &&& update::text_view(previous) == was.cover_path()
            &&& is.cover_path() is None
            &&& is.covers_named() == was.covers_named() + 1
        },
    }
}

/// The cover of a state is on record as being at a path, or as being none.
pub open spec fn is_cover_record(
    was: Publisher,
    state: State,
    path: Option<Seq<char>>,
    is: Publisher,
) -> bool {
    &&& is.written() == was.written()
    &&& is.covers_named() == was.covers_named()
    &&& is.cover_path() == path
    &&& is.cover_print() == print_of(cover_of(state))
}

/// What is to be written for a state: its text, or nothing where that is what was last written.
pub open spec fn is_text_to_write(p: Publisher, state: State, body: Option<Seq<char>>) -> bool {
    let wanted = body_text(state, p.cover_path());
    body == (if p.written() == Some(wanted) {
        None
    } else {
        Some(wanted)
    })
}

/// A text is on record as written.
pub open spec fn is_text_record(was: Publisher, body: Seq<char>, is: Publisher) -> bool {
    &&& is.written() == Some(body)
    &&& is.covers_named() == was.covers_named()
    &&& is.cover_path() == was.cover_path()
    &&& is.cover_print() == was.cover_print()
}

/// One round of publishing in which nothing failed: what becomes of the cover, that this is on record,
/// what is to be written, and that this is on record too.
pub ghost struct Round {
    pub was: Publisher,
    pub step: CoverStep,
    /// After the cover's step.
    pub stepped: Publisher,
    /// Where the cover was written, if it was.
    pub path: Option<Seq<char>>,
    /// After the cover was put on record.
    pub staged: Publisher,
    pub body: Option<Seq<char>>,
    pub is: Publisher,
}

impl Round {
    /// Whether the round is one of the given state.
    pub open spec fn of(self, state: State) -> bool {
        &&& is_cover_step(self.was, state, self.step, self.stepped)
        &&& match self.step {
            CoverStep::Keep => self.staged == self.stepped,
            CoverStep::Drop { .. } => is_cover_record(self.stepped, state, None, self.staged),
            CoverStep::Write { .. } => self.path is Some && is_cover_record(
                self.stepped,
                state,
                self.path,
                self.staged,
            ),
        }
        &&& is_text_to_write(self.staged, state, self.body)
        &&& match self.body {
            Some(body) => is_text_record(self.staged, body, self.is),
            None => self.is == self.staged,
        }
    }
}

/// Publishing a state a second time writes nothing, neither a cover nor the text.
pub proof fn law_what_is_published_is_not_written_again(state: State, first: Round, second: Round)
    requires
        first.of(state),
        second.of(state),
        second.was == first.is,
    ensures
        second.step is Keep,
        second.body is None,
        second.is.written() == first.is.written(),
        second.is.cover_path() == first.is.cover_path(),
        first.is.written() == Some(body_text(state, first.is.cover_path())),
{
}

/// Covers are told apart by content. The same content keeps its file, though the track is another. One
/// of another length or sum gets a file of a name that was never used before, and the file that was
/// shown is to be removed; so it is where the next track has no cover.
pub proof fn law_covers_are_told_apart_by_content(
    one: State,
    other: State,
    first: Round,
    second: Round,
)
    requires
        first.of(one),
        second.of(other),
        second.was == first.is,
        cover_of(one) is Some,
    ensures
        first.is.covers_named() >= first.was.covers_named(),
        first.step matches CoverStep::Write { name, .. } ==> name@ == cover_name(
            first.is.covers_named(),
        ) && first.is.cover_path() == first.path,
        cover_of(other) matches Some(c) && c@ == cover_of(one)->Some_0@ ==> second.step is Keep,
        print_of(cover_of(other)) == print_of(cover_of(one)) ==> second.step is Keep
            && second.is.cover_path() == first.is.cover_path(),
        cover_of(other) is Some && print_of(cover_of(other)) != print_of(cover_of(one)) ==> {
            &&& second.step matches CoverStep::Write { name, previous } && update::text_view(previous)
                == first.is.cover_path() && forall|k: nat|
                k <= first.is.covers_named() ==> name@ != #[trigger] cover_name(k)
            &&& second.is.cover_path() == second.path
        },
        cover_of(other) is None ==> {
            &&& second.step matches CoverStep::Drop { previous } && update::text_view(previous)
                == first.is.cover_path()
            &&& second.is.cover_path() is None
        },
{
    assert forall|k: nat| k <= first.is.covers_named() implies cover_name(
        first.is.covers_named() + 1,
    ) != #[trigger] cover_name(k) by {
        if cover_name(first.is.covers_named() + 1) == cover_name(k) {
            law_covers_do_not_share_a_name(first.is.covers_named() + 1, k);
        }
    }
}

/// Where there is no track, what is published names no cover.
pub proof fn law_no_track_names_no_cover(round: Round)
    requires
        round.was.wf(),
        round.of(State::Absent),
    ensures
        round.is.cover_path() is None,
        round.body matches Some(body) ==> body == body_text(State::Absent, None),
{
}

/// What the content of a state's cover is known by.
fn print(state: &State) -> (r: Option<(usize, u64)>)
    requires
        cover_of(*state) matches Some(c) ==> 255 * c@.len() <= u64::MAX,
    ensures
        print_of(cover_of(*state)) == (match r {
            Some((n, sum)) => Some((n as int, sum as int)),
            None => None,
        }),
{
    match state {
        State::Track(s) => match &s.cover {
            Some(c) => Some(fingerprint(c.as_slice())),
            None => None,
        },
        State::Absent => None,
    }
}

/// The lines of a text: what stands between its line breaks.
pub open spec fn lines(s: Seq<char>) -> Seq<Seq<char>>
    decreases s.len(),
{
    if s.len() == 0 {
        seq![Seq::empty()]
    } else {
        let before = lines(s.drop_last());
        if s.last() == '\n' {
            before.push(Seq::empty())
        } else {
            before.drop_last().push(before.last().push(s.last()))
        }
    }
}

proof fn lemma_lines_of_one(s: Seq<char>)
    requires
        !s.contains('\n'),
    ensures
        lines(s) == seq![s],
    decreases s.len(),
{
    if s.len() > 0 {
        assert(s[s.len() - 1] == s.last());
        assert(!s.drop_last().contains('\n')) by {
            if s.drop_last().contains('\n') {
                let k = choose|k: int| 0 <= k < s.drop_last().len() && s.drop_last()[k] == '\n';
                assert(s[k] == '\n');
            }
        }
        lemma_lines_of_one(s.drop_last());
        assert(s.drop_last().push(s.last()) =~= s);
        assert(lines(s) =~= seq![s]);
    } else {
        assert(s =~= Seq::empty());
        assert(lines(s) =~= seq![s]);
    }
}

proof fn lemma_lines_of_more(a: Seq<char>, b: Seq<char>)
    requires
        !b.contains('\n'),
    ensures
        lines(a + seq!['\n'] + b) == lines(a).push(b),
    decreases b.len(),
{
    let s = a + seq!['\n'] + b;
    if b.len() == 0 {
        assert(s.drop_last() =~= a);
        assert(s.last() == '\n');
        assert(b =~= Seq::empty());
    } else {
        assert(b[b.len() - 1] == b.last());
        assert(!b.drop_last().contains('\n')) by {
            if b.drop_last().contains('\n') {
                let k = choose|k: int| 0 <= k < b.drop_last().len() && b.drop_last()[k] == '\n';
                assert(b[k] == '\n');
            }
        }
        lemma_lines_of_more(a, b.drop_last());
        assert(s.drop_last() =~= a + seq!['\n'] + b.drop_last());
        assert(s.last() == b.last());
        let before = lines(a).push(b.drop_last());
        assert(before.drop_last() =~= lines(a));
        assert(b.drop_last().push(b.last()) =~= b);
    }
}

/// What is published reads back: its lines are the title, the artist, the status and the cover, in
/// this order and each behind its key, whatever the track is called.
pub proof fn law_what_is_published_reads_back(state: State, cover: Option<Seq<char>>)
    requires
        cover matches Some(p) ==> !p.contains('\n'),
    ensures
        ({
            let (title, artist, status) = match state {
                State::Track(s) => (
                    sanitised(s.title@),
                    sanitised(s.artist@),
                    status_word(s.status),
                ),
                State::Absent => (Seq::empty(), Seq::empty(), "stopped"@),
            };
            let path = match cover {
                Some(p) => p,
                None => Seq::empty(),
            };
            lines(body_text(state, cover)) == seq![
                "title="@ + title,
                "artist="@ + artist,
                "status="@ + status,
                "cover="@ + path,
                Seq::empty(),
            ]
        }),
{
    let (title, artist, status) = match state {
        State::Track(s) => (sanitised(s.title@), sanitised(s.artist@), status_word(s.status)),
        State::Absent => (Seq::empty(), Seq::empty(), "stopped"@),
    };
    let path = match cover {
        Some(p) => p,
        None => Seq::<char>::empty(),
    };
    if let State::Track(s) = state {
        law_a_sanitised_text_is_one_line(s.title@);
        law_a_sanitised_text_is_one_line(s.artist@);
    }
    reveal_strlit("title=");
    reveal_strlit("artist=");
    reveal_strlit("status=");
    reveal_strlit("cover=");
    reveal_strlit("\nartist=");
    reveal_strlit("\nstatus=");
    reveal_strlit("\ncover=");
    reveal_strlit("\n");
    reveal_strlit("playing");
    reveal_strlit("paused");
    reveal_strlit("stopped");
    assert("\nartist="@ =~= seq!['\n'] + "artist="@);
    assert("\nstatus="@ =~= seq!['\n'] + "status="@);
    assert("\ncover="@ =~= seq!['\n'] + "cover="@);
    assert("\n"@ =~= seq!['\n']);
    let (l1, l2, l3, l4) = (
        "title="@ + title,
        "artist="@ + artist,
        "status="@ + status,
        "cover="@ + path,
    );
    lemma_line_stays_one("title="@, title);
    lemma_line_stays_one("artist="@, artist);
    lemma_line_stays_one("status="@, status);
    lemma_line_stays_one("cover="@, path);
    let nl = seq!['\n'];
    let empty = Seq::<char>::empty();
    lemma_lines_of_one(l1);
    lemma_lines_of_more(l1, l2);
    lemma_lines_of_more(l1 + nl + l2, l3);
    lemma_lines_of_more(l1 + nl + l2 + nl + l3, l4);
    lemma_lines_of_more(l1 + nl + l2 + nl + l3 + nl + l4, empty);
    assert(body_text(state, cover) =~= l1 + nl + l2 + nl + l3 + nl + l4 + nl + empty);
    assert(lines(body_text(state, cover)) =~= seq![l1, l2, l3, l4, empty]);
}

proof fn lemma_line_stays_one(key: Seq<char>, value: Seq<char>)
    requires
        !key.contains('\n'),
        !value.contains('\n'),
    ensures
        !(key + value).contains('\n'),
{
    let s = key + value;
    if s.contains('\n') {
        let k = choose|k: int| 0 <= k < s.len() && s[k] == '\n';
        if k < key.len() {
            assert(key[k] == '\n');
        } else {
            assert(value[k - key.len()] == '\n');
        }
    }
}

/// No two covers share a name.
pub proof fn law_covers_do_not_share_a_name(a: nat, b: nat)
    requires
        cover_name(a) == cover_name(b),
    ensures
        a == b,
{
    let p = "audio-tray-cover-"@.len() as int;
    let q = ".png"@.len() as int;
    let (x, y) = (cover_name(a), cover_name(b));
    assert(x.subrange(p, x.len() - q) =~= text::decimal(a));
    assert(y.subrange(p, y.len() - q) =~= text::decimal(b));
    text::lemma_decimal_is_injective(a, b);
}

/// Nothing of a text is changed but its line breaks and the white space at its ends: what is left stands in
/// the text as it is, a space in place of each line break, all before and behind it is white space, and
/// neither of its ends is.
pub proof fn law_a_text_keeps_its_characters(s: Seq<char>) -> (k: int)
    ensures
        ({
            let t = sanitised(s);
            &&& 0 <= k <= k + t.len() <= s.len()
            &&& forall|i: int|
                0 <= i < t.len() ==> #[trigger] t[i] == (if s[k + i] == '\n' || s[k + i] == '\r' {
                    ' '
                } else {
                    s[k + i]
                })
            &&& forall|i: int|
                (0 <= i < k || k + t.len() <= i < s.len()) ==> text::is_whitespace(#[trigger] s[i])
            &&& t.len() > 0 ==> !text::is_whitespace(s[k]) && !text::is_whitespace(s[k + t.len() - 1])
        }),
{
    let plain = text::replaced(text::replaced(s, '\r', ' '), '\n', ' ');
    let k = text::law_trimming_takes_only_white_ends(plain);
    let t = sanitised(s);
    assert forall|i: int| 0 <= i < s.len() implies text::is_whitespace(plain[i])
        == text::is_whitespace(#[trigger] s[i]) by {
        assert(text::is_whitespace(' ') && text::is_whitespace('\n') && text::is_whitespace('\r'));
    }
    assert forall|i: int| 0 <= i < t.len() implies #[trigger] t[i] == (if s[k + i] == '\n' || s[k + i]
        == '\r' {
        ' '
    } else {
        s[k + i]
    }) by {
        assert(t[i] == plain[k + i]);
    }
    assert forall|i: int| (0 <= i < k || k + t.len() <= i < s.len()) implies text::is_whitespace(
        #[trigger] s[i],
    ) by {
        assert(text::is_whitespace(plain[i]));
    }
    if t.len() > 0 {
        assert(t[0] == plain[k]);
        assert(t.last() == plain[k + t.len() - 1]);
        assert(text::is_whitespace(plain[k]) == text::is_whitespace(s[k]));
        assert(text::is_whitespace(plain[k + t.len() - 1]) == text::is_whitespace(s[k + t.len() - 1]));
    }
    k
}

/// A text without a line break, and without white space at its ends, is published as it is.
pub proof fn law_a_clean_text_stays(s: Seq<char>)
    requires
        !s.contains('\n'),
        !s.contains('\r'),
        s.len() > 0 ==> !text::is_whitespace(s[0]) && !text::is_whitespace(s.last()),
    ensures
        sanitised(s) == s,
{
    let k = law_a_text_keeps_its_characters(s);
    let t = sanitised(s);
    if s.len() > 0 {
        assert(k == 0);
        assert(k + t.len() == s.len()) by {
            if k + t.len() < s.len() {
                assert(text::is_whitespace(s[s.len() - 1]));
            }
        }
        assert forall|i: int| 0 <= i < s.len() implies t[i] == s[i] by {
            assert(s.contains(s[i]));
        }
    }
    assert(t =~= s);
}

/// What is published of a track whose title and artist are clean texts holds them as they are, with the
/// word for what it does: whether it plays, is paused, or neither.
pub proof fn law_a_track_is_published_as_it_is(s: crate::music::smtc::Snapshot, path: Seq<char>)
    requires
        !s.title@.contains('\n') && !s.title@.contains('\r'),
        !s.artist@.contains('\n') && !s.artist@.contains('\r'),
        s.title@.len() > 0 ==> !text::is_whitespace(s.title@[0]) && !text::is_whitespace(
            s.title@.last(),
        ),
        s.artist@.len() > 0 ==> !text::is_whitespace(s.artist@[0]) && !text::is_whitespace(
            s.artist@.last(),
        ),
        !path.contains('\n'),
    ensures
        ({
            let l = lines(body_text(State::Track(s), Some(path)));
            &&& l.len() == 5
            &&& l[0] == "title="@ + s.title@
            &&& l[1] == "artist="@ + s.artist@
            &&& s.status == PlaybackStatus::Playing ==> l[2] == "status="@ + "playing"@
            &&& s.status == PlaybackStatus::Paused ==> l[2] == "status="@ + "paused"@
            &&& s.status == PlaybackStatus::Stopped || s.status == PlaybackStatus::Unknown ==> l[2]
                == "status="@ + "stopped"@
            &&& l[3] == "cover="@ + path
            &&& l[4].len() == 0
        }),
{
    law_a_clean_text_stays(s.title@);
    law_a_clean_text_stays(s.artist@);
    law_what_is_published_reads_back(State::Track(s), Some(path));
}

/// Two texts' lines are those of the one and then those of the other, where a line break is between them.
pub proof fn law_lines_are_what_is_between_breaks(a: Seq<char>, b: Seq<char>)
    requires
        !b.contains('\n'),
    ensures
        lines(b) == seq![b],
        lines(a.push('\n') + b) == lines(a).push(b),
{
    lemma_lines_of_one(b);
    lemma_lines_of_more(a, b);
    assert(a.push('\n') + b =~= a + seq!['\n'] + b);
}

/// A cover is known by its length and by the sum of its bytes: a byte more adds one to the length and
/// itself to the sum.
pub proof fn law_a_cover_is_known_by_length_and_sum(bytes: Vec<u8>, a: Seq<u8>, b: u8)
    ensures
        print_of(Some(bytes)) == Some((bytes@.len() as int, byte_sum(bytes@))),
        print_of(None) is None,
        byte_sum(Seq::empty()) == 0,
        byte_sum(a.push(b)) == byte_sum(a) + b,
{
    assert(a.push(b).drop_last() =~= a);
}

/// A cover's file is named for its number.
pub proof fn law_a_cover_is_named_for_its_number(n: nat)
    ensures
        exists|digits: Seq<char>|
            cover_name(n) == "audio-tray-cover-"@ + digits + ".png"@ && #[trigger] text::number(digits)
                == Some(n as int),
{
    text::law_a_number_reads_back(n);
    assert(cover_name(n) == "audio-tray-cover-"@ + text::decimal(n) + ".png"@);
}

} // verus!
