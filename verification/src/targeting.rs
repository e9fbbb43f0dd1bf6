//! Small decisions of target selection: how long a lost target stays
//! preferred, and whether the aim hotkey lets the aim run this frame.
use std::time::{Duration, Instant};
use vstd::prelude::*;

use crate::settings::KeyMode;

verus! {

/// A monotonic clock reading, carried through unchanged.
#[verifier::external_type_specification]
#[verifier::external_body]
pub struct ExInstant(Instant);

/// The time from `earlier` to `now`, zero when `earlier` is later.
pub uninterp spec fn saturating_gap(now: Instant, earlier: Instant) -> Duration;

/// The whole length of a duration in nanoseconds.
pub uninterp spec fn total_nanos(duration: Duration) -> nat;

/// `Instant::saturating_duration_since`: the time elapsed from `earlier`
/// to `now`, or zero where `earlier` is later. Claimed: the result depends
/// on the two readings alone, and a reading's gap to itself is zero (no
/// time elapses from a reading to the same reading). Nothing is claimed of
/// the length of other gaps.
#[verifier::external_body]
pub(crate) fn saturating_duration_since(now: &Instant, earlier: &Instant) -> (gap: Duration)
    ensures
        gap == saturating_gap(*now, *earlier),
        *now == *earlier ==> total_nanos(gap) == 0,
{
    now.saturating_duration_since(*earlier)
}

/// `Duration::as_nanos`: the total number of nanoseconds in the duration,
/// which always fits in a `u128`.
#[verifier::external_body]
pub(crate) fn as_nanos(duration: &Duration) -> (nanos: u128)
    ensures
        nanos as nat == total_nanos(*duration),
{
    duration.as_nanos()
}

/// Whether a target last seen at `last_seen` is still inside the grace
/// window at `now`.
pub open spec fn within_grace(last_seen: Option<Instant>, now: Instant, grace_window: Duration) -> bool {
    match last_seen {
        Some(seen_at) => total_nanos(saturating_gap(now, seen_at)) <= total_nanos(grace_window),
        None => false,
    }
}

/// True when a target was seen and no more than `grace_window` has passed
/// since then (a reading later than `now` counts as no time passed).
pub fn sticky_within_grace(last_seen: Option<Instant>, now: Instant, grace_window: Duration) -> (within: bool)
    ensures
        within == within_grace(last_seen, now, grace_window),
        within <==> (last_seen matches Some(seen_at) && total_nanos(saturating_gap(now, seen_at))
            <= total_nanos(grace_window)),
{
    match last_seen {
        Some(seen_at) => {
            let gap = saturating_duration_since(&now, &seen_at);
            as_nanos(&gap) <= as_nanos(&grace_window)
        },
        None => false,
    }
}

/// A sighting is inside the window exactly when the time elapsed since it
/// is at most the window's length: a sighting older than the window is
/// outside it, and one no older is inside.
pub proof fn law_grace_window_exact(seen_at: Instant, now: Instant, grace_window: Duration)
    ensures
        within_grace(Some(seen_at), now, grace_window) <==> total_nanos(saturating_gap(now, seen_at))
            <= total_nanos(grace_window),
        total_nanos(saturating_gap(now, seen_at)) > total_nanos(grace_window) ==> !within_grace(
            Some(seen_at),
            now,
            grace_window,
        ),
{
}

/// A target inside a grace window stays inside any window at least as long.
pub proof fn law_grace_window_monotone(
    last_seen: Option<Instant>,
    now: Instant,
    shorter: Duration,
    longer: Duration,
)
    requires
        within_grace(last_seen, now, shorter),
        total_nanos(shorter) <= total_nanos(longer),
    ensures
        within_grace(last_seen, now, longer),
{
}

/// Without a sighting there is no grace, whatever the window.
pub proof fn law_no_sighting_no_grace(now: Instant, grace_window: Duration)
    ensures
        !within_grace(None, now, grace_window),
{
}

/// Aim state kept between frames: whether toggle mode has switched it on.
#[derive(Debug, Clone, Copy, PartialEq, Eq, Structural)]
pub struct Aimbot {
    pub active: bool,
}

/// Whether the hotkey lets the aim run, and the toggle state afterwards.
/// In hold mode the key must be down; in toggle mode a fresh press flips
/// the state and the aim runs while it is on.
pub open spec fn hotkey_step(mode: KeyMode, active: bool, pressed: bool, just_pressed: bool) -> (bool, bool) {
    match mode {
        KeyMode::Hold => (pressed, active),
        KeyMode::Toggle => {
            let next = if just_pressed { !active } else { active };
            (next, next)
        },
    }
}

/// In toggle mode the aim runs exactly while it is toggled on, whether the
/// key is held or not; a fresh press flips it, no press leaves it.
pub proof fn law_toggle_runs_while_on(active: bool, pressed: bool, just_pressed: bool)
    ensures
        hotkey_step(KeyMode::Toggle, active, pressed, just_pressed).0 == hotkey_step(
            KeyMode::Toggle,
            active,
            pressed,
            just_pressed,
        ).1,
        hotkey_step(KeyMode::Toggle, active, pressed, false) == (active, active),
        hotkey_step(KeyMode::Toggle, active, pressed, true).1 == !active,
{
}

/// In toggle mode, two fresh presses in a row leave the aim as it was.
pub proof fn law_toggle_twice_restores(active: bool, pressed_first: bool, pressed_second: bool)
    ensures
        hotkey_step(
            KeyMode::Toggle,
            hotkey_step(KeyMode::Toggle, active, pressed_first, true).1,
            pressed_second,
            true,
        ).1 == active,
{
}

/// In hold mode the aim runs exactly while the key is down, and the toggle
/// state is not touched.
pub proof fn law_hold_follows_key(active: bool, pressed: bool, just_pressed: bool)
    ensures
        hotkey_step(KeyMode::Hold, active, pressed, just_pressed) == (pressed, active),
{
}

impl Aimbot {
    /// Aim starts switched off.
    pub fn new() -> (aim: Self)
        ensures
            !aim.active,
    {
        Aimbot { active: false }
    }

    /// Applies this frame's key reading; returns whether the aim may run.
    pub fn hotkey_allows(&mut self, mode: KeyMode, pressed: bool, just_pressed: bool) -> (allowed: bool)
        ensures
            (allowed, final(self).active) == hotkey_step(mode, old(self).active, pressed, just_pressed),
            mode == KeyMode::Hold ==> allowed == pressed && final(self).active == old(self).active,
            mode == KeyMode::Toggle ==> allowed == final(self).active,
            mode == KeyMode::Toggle ==> final(self).active == (old(self).active != just_pressed),
    {
        match mode {
            KeyMode::Hold => pressed,
            KeyMode::Toggle => {
                if just_pressed {
                    self.active = !self.active;
                }
                self.active
            },
        }
    }
}

} // verus!
