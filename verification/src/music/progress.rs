//! The track's position as the taskbar's own progress bar: when it is set anew.
use crate::music::smtc::Fraction;
use vstd::prelude::*;

verus! {

/// How finely the bar is stepped.
pub const STEPS: u64 = 200;

/// The denominator of the bar's value.
pub const TOTAL: u64 = 1000;

/// The step of the bar that a part of the track comes to: the nearest one, the higher of two that are
/// equally near.
pub open spec fn nearest_step(position: int, span: int) -> int {
    (400 * position + span) / (2 * span)
}

/// The step of the bar that a part of the track comes to.
pub fn step_of(f: Fraction) -> (r: u64)
    requires
        0 <= f.position <= f.span,
        0 < f.span,
    ensures
        r == nearest_step(f.position as int, f.span as int),
        r <= STEPS,
{
    let position: u128 = f.position as u128;
    let span: u128 = f.span as u128;
    proof {
        let (p, s) = (f.position as int, f.span as int);
        assert((400 * p + s) / (2 * s) <= 200) by (nonlinear_arith)
            requires
                0 <= p <= s,
                0 < s,
        {
            assert(400 * p + s <= 401 * s);
            assert(401 * s < 201 * (2 * s));
        }
        assert((400 * p + s) / (2 * s) >= 0) by (nonlinear_arith)
            requires
                0 <= p,
                0 < s,
        ;
    }
    ((400 * position + span) / (2 * span)) as u64
}

/// The bar starts empty, ends full, never runs back as the track goes on, and is never further from
/// the track than half a step.
pub proof fn law_the_bar_follows_the_track(position: int, later: int, span: int)
    requires
        0 <= position <= later <= span,
        0 < span,
    ensures
        nearest_step(0, span) == 0,
        nearest_step(span, span) == STEPS,
        nearest_step(position, span) <= nearest_step(later, span),
        -span <= 2 * (STEPS * position - nearest_step(position, span) * span) <= span,
{
    let n = 400 * position + span;
    let d = 2 * span;
    assert(span / d == 0) by (nonlinear_arith)
        requires
            0 < span,
            d == 2 * span,
    ;
    assert((401 * span) / d == 200) by (nonlinear_arith)
        requires
            0 < span,
            d == 2 * span,
    {
        assert(401 * span == 200 * d + span);
    }
    assert(n / d <= (400 * later + span) / d) by (nonlinear_arith)
        requires
            n == 400 * position + span,
            position <= later,
            0 < d,
    ;
    assert(n == d * (n / d) + n % d && 0 <= n % d < d) by (nonlinear_arith)
        requires
            0 < d,
    ;
    assert(nearest_step(position, span) * span * 2 == d * (n / d)) by (nonlinear_arith)
        requires
            d == 2 * span,
            nearest_step(position, span) == n / d,
    ;
}

/// What the bar was last set to: a step and whether it plays, or cleared.
#[derive(Debug, Clone, Copy, PartialEq, Eq)]
pub struct Progress {
    /// The last value that was handed on.
    pub last: Option<(u64, bool)>,
}

/// A value to hand on: a step, or the bar cleared.
#[derive(Debug, Clone, Copy, PartialEq, Eq)]
pub struct Posting {
    pub step: Option<u64>,
    pub playing: bool,
    /// Whether it is worth a line in the log: playing turned to paused or back, or the bar came or
    /// went.
    pub announce: bool,
}

/// The value that stands for a step.
pub open spec fn value_of(step: Option<u64>, playing: bool) -> Option<(u64, bool)> {
    match step {
        Some(s) => Some((s, playing)),
        None => None,
    }
}

/// Whether a value says that it plays.
pub open spec fn state_of(value: Option<(u64, bool)>) -> Option<bool> {
    match value {
        Some((_, p)) => Some(p),
        None => None,
    }
}

/// Whether a step is handed on after the given value.
pub open spec fn is_news(last: Option<(u64, bool)>, step: Option<u64>, playing: bool) -> bool {
    last != value_of(step, playing)
}

impl Progress {
    /// Nothing was handed on.
    pub fn new() -> (r: Progress)
        ensures
            r.last is None,
    {
        Progress { last: None }
    }

    /// Brings the bar in line with the given step of the track, or clears it. Nothing is handed on
    /// where that is what was last handed on.
    pub fn update(&mut self, step: Option<u64>, playing: bool) -> (r: Option<Posting>)
        ensures
            final(self).last == value_of(step, playing),
            match r {
                None => !is_news(old(self).last, step, playing),
                Some(p) => {
                    &&& is_news(old(self).last, step, playing)
                    &&& p.step == step
                    &&& p.playing == playing
                    &&& p.announce == is_announced(old(self).last, playing)
                },
            },
    {
        let same = match (self.last, step) {
            (None, None) => true,
            (Some((was, state)), Some(s)) => was == s && state == playing,
            _ => false,
        };
        if same {
            return None;
        }
        let announce = match self.last {
            Some((_, was)) => was != playing,
            None => true,
        };
        self.last = match step {
            Some(s) => Some((s, playing)),
            None => None,
        };
        Some(Posting { step, playing, announce })
    }

    /// The shell restarted and has forgotten the bar, so the next value is handed on again.
    pub fn taskbar_restarted(&mut self)
        ensures
            final(self).last is None,
    {
        self.last = None;
    }
}

/// What was handed on is not handed on again, and once the shell has forgotten it, it is: the bar
/// comes back with the next poll.
pub proof fn law_a_value_is_handed_on_once(step: u64, playing: bool)
    ensures
        !is_news(value_of(Some(step), playing), Some(step), playing),
        is_news(None, Some(step), playing),
{
}

/// What the taskbar is told of the bar.
#[derive(Debug, Clone, Copy, PartialEq, Eq, Structural)]
pub enum Bar {
    Cleared,
    Running,
    Paused,
}

/// The state the bar is set to: the shell colours it by that.
pub fn bar_state(shown: bool, playing: bool) -> (r: Bar)
    ensures
        r == bar_of(shown, playing),
{
    if !shown {
        Bar::Cleared
    } else if playing {
        Bar::Running
    } else {
        Bar::Paused
    }
}

/// A value is handed on exactly where it is another than the last: another step, playing turned to paused or
/// back, or the bar come or gone.
pub proof fn law_only_news_is_handed_on(was: u64, played: bool, step: u64, playing: bool)
    ensures
        is_news(Some((was, played)), Some(step), playing) <==> was != step || played != playing,
        is_news(Some((was, played)), None, playing),
        !is_news(None, None, playing),
        value_of(Some(step), playing) == Some((step, playing)),
        value_of(None, playing) is None,
{
}

/// The state the bar is set to.
pub open spec fn bar_of(shown: bool, playing: bool) -> Bar {
    if !shown {
        Bar::Cleared
    } else if playing {
        Bar::Running
    } else {
        Bar::Paused
    }
}

/// A bar that is not shown is cleared whatever plays; one that is runs exactly while it plays.
pub proof fn law_the_bar_runs_while_it_plays(shown: bool, playing: bool)
    ensures
        bar_of(shown, playing) == Bar::Cleared <==> !shown,
        bar_of(shown, playing) == Bar::Running <==> shown && playing,
        bar_of(shown, playing) == Bar::Paused <==> shown && !playing,
{
}

/// Whether a value that is handed on is worth a line in the log.
pub open spec fn is_announced(last: Option<(u64, bool)>, playing: bool) -> bool {
    state_of(last) != Some(playing)
}

/// A step further is not worth a line in the log; playing turned to paused or back is, and so is a bar that
/// comes.
pub proof fn law_steps_are_not_announced(was: u64, played: bool, playing: bool)
    ensures
        is_announced(Some((was, played)), playing) <==> played != playing,
        is_announced(None, playing),
{
}

} // verus!
