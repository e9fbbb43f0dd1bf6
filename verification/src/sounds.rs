//! Which players were heard lately: the overlay marks a player for a while
//! after a sound of theirs, then forgets it.
use std::collections::HashMap;
use std::time::{Duration, Instant};
use vstd::prelude::*;

use crate::settings::SoundType;
use vstd::std_specs::iter::IteratorSpec;

use crate::targeting::{as_nanos, saturating_duration_since, saturating_gap, total_nanos};

verus! {

broadcast use vstd::std_specs::hash::group_hash_axioms;

/// What the overlay reads of one player in a frame: who it is and the
/// sound it made, if any.
#[derive(Debug, Clone, Copy, PartialEq, Eq, Structural)]
pub struct PlayerSound {
    pub steam_id: u64,
    pub sound: Option<SoundType>,
}

/// The last sound heard from each player, with the clock reading at which
/// it was heard.
pub struct SoundLog {
    player_sounds: HashMap<u64, (Instant, SoundType)>,
}

impl View for SoundLog {
    type V = Map<u64, (Instant, SoundType)>;

    closed spec fn view(&self) -> Map<u64, (Instant, SoundType)> {
        self.player_sounds@
    }
}

/// A sound heard at `heard_at` is still shown at `now`: less than
/// `keep_for` has passed since.
pub open spec fn still_audible(heard_at: Instant, now: Instant, keep_for: Duration) -> bool {
    total_nanos(saturating_gap(now, heard_at)) < total_nanos(keep_for)
}

/// The log after the sounds of `players` are recorded at `now`, in order:
/// a later sound of the same player replaces an earlier one.
pub open spec fn recorded(
    log: Map<u64, (Instant, SoundType)>,
    players: Seq<PlayerSound>,
    now: Instant,
) -> Map<u64, (Instant, SoundType)>
    decreases players.len(),
{
    if players.len() == 0 {
        log
    } else {
        let earlier = recorded(log, players.drop_last(), now);
        match players.last().sound {
            Some(sound) => earlier.insert(players.last().steam_id, (now, sound)),
            None => earlier,
        }
    }
}

/// Sighting `i` is the last one of its player in the frame that carries a
/// sound.
pub open spec fn last_heard_sighting(players: Seq<PlayerSound>, i: int) -> bool {
    &&& 0 <= i < players.len()
    &&& players[i].sound is Some
    &&& forall|j: int| i < j < players.len() && players[j].steam_id == players[i].steam_id
        ==> players[j].sound is None
}

/// Every player heard in the frame is in `log` with its last sound of the
/// frame, heard at `now`.
pub open spec fn shows_frame_sounds(log: Map<u64, (Instant, SoundType)>, players: Seq<PlayerSound>, now: Instant) -> bool {
    forall|i: int|
        #[trigger] last_heard_sighting(players, i) ==> log.contains_key(players[i].steam_id)
            && log[players[i].steam_id] == (now, players[i].sound->0)
}

/// The entries of `log` still audible at `now`.
pub open spec fn audible(log: Map<u64, (Instant, SoundType)>, now: Instant, keep_for: Duration) -> Map<
    u64,
    (Instant, SoundType),
> {
    Map::new(
        |id: u64| log.contains_key(id) && still_audible(log[id].0, now, keep_for),
        |id: u64| log[id],
    )
}

/// The sound recorded for a player is that of its last sighting with a
/// sound in the frame, heard at the frame's reading.
pub proof fn law_latest_sound_recorded(
    log: Map<u64, (Instant, SoundType)>,
    players: Seq<PlayerSound>,
    now: Instant,
    i: int,
)
    requires
        0 <= i < players.len(),
        players[i].sound is Some,
        forall|j: int| i < j < players.len() && players[j].steam_id == players[i].steam_id
            ==> players[j].sound is None,
    ensures
        recorded(log, players, now).contains_key(players[i].steam_id),
        recorded(log, players, now)[players[i].steam_id] == (now, players[i].sound->0),
    decreases players.len(),
{
    let rest = players.drop_last();
    if i < players.len() - 1 {
        assert(rest[i] == players[i]);
        assert forall|j: int| i < j < rest.len() && rest[j].steam_id == rest[i].steam_id
            implies rest[j].sound is None by {
            assert(rest[j] == players[j]);
        }
        law_latest_sound_recorded(log, rest, now, i);
    }
}

/// A player without a sound in the frame keeps the entry it had.
pub proof fn law_unheard_player_keeps_entry(
    log: Map<u64, (Instant, SoundType)>,
    players: Seq<PlayerSound>,
    now: Instant,
    id: u64,
)
    requires
        forall|i: int| 0 <= i < players.len() && #[trigger] players[i].steam_id == id
            ==> players[i].sound is None,
    ensures
        recorded(log, players, now).contains_key(id) == log.contains_key(id),
        log.contains_key(id) ==> recorded(log, players, now)[id] == log[id],
    decreases players.len(),
{
    if players.len() > 0 {
        let rest = players.drop_last();
        assert forall|i: int| 0 <= i < rest.len() && #[trigger] rest[i].steam_id == id
            implies rest[i].sound is None by {
            assert(rest[i] == players[i]);
        }
        law_unheard_player_keeps_entry(log, rest, now, id);
    }
}

/// A frame in which nobody made a sound records nothing.
pub proof fn law_silent_frame_records_nothing(
    log: Map<u64, (Instant, SoundType)>,
    players: Seq<PlayerSound>,
    now: Instant,
)
    requires
        forall|i: int| 0 <= i < players.len() ==> #[trigger] players[i].sound is None,
    ensures
        recorded(log, players, now) == log,
    decreases players.len(),
{
    if players.len() > 0 {
        let rest = players.drop_last();
        assert forall|i: int| 0 <= i < rest.len() implies #[trigger] rest[i].sound is None by {
            assert(rest[i] == players[i]);
        }
        law_silent_frame_records_nothing(log, rest, now);
    }
}

/// Forgetting keeps a subset of the log, entries unchanged, and forgetting
/// again at the same reading changes nothing more.
pub proof fn law_forgetting_only_removes(
    log: Map<u64, (Instant, SoundType)>,
    now: Instant,
    keep_for: Duration,
)
    ensures
        forall|id: u64| #[trigger] audible(log, now, keep_for).contains_key(id) ==> log.contains_key(id)
            && audible(log, now, keep_for)[id] == log[id],
        audible(audible(log, now, keep_for), now, keep_for) == audible(log, now, keep_for),
{
    assert(audible(audible(log, now, keep_for), now, keep_for) =~= audible(log, now, keep_for));
}

/// After an update, a player's latest sound of the frame is shown whenever
/// a sound heard at the very reading of the update counts as audible.
pub proof fn law_fresh_sound_is_shown(
    log: Map<u64, (Instant, SoundType)>,
    players: Seq<PlayerSound>,
    now: Instant,
    keep_for: Duration,
    i: int,
)
    requires
        last_heard_sighting(players, i),
        still_audible(now, now, keep_for),
    ensures
        audible(recorded(log, players, now), now, keep_for).contains_key(players[i].steam_id),
        audible(recorded(log, players, now), now, keep_for)[players[i].steam_id] == (
            now,
            players[i].sound->0,
        ),
{
    law_latest_sound_recorded(log, players, now, i);
}

/// `Instant::now`: a reading of the monotonic clock. Nothing is claimed of
/// the reading.
#[verifier::external_body]
fn instant_now() -> (now: Instant) {
    Instant::now()
}

impl SoundLog {
    /// A log in which nobody has been heard.
    pub fn new() -> (log: Self)
        ensures
            log@ == Map::<u64, (Instant, SoundType)>::empty(),
    {
        SoundLog { player_sounds: HashMap::new() }
    }

    /// The last sound heard from the player, with its clock reading.
    pub fn heard(&self, steam_id: u64) -> (found: Option<(Instant, SoundType)>)
        ensures
            match found {
                Some(entry) => self@.contains_key(steam_id) && self@[steam_id] == entry,
                None => !self@.contains_key(steam_id),
            },
    {
        match self.player_sounds.get(&steam_id) {
            Some(entry) => Some(*entry),
            None => None,
        }
    }

    /// Records that the player made `sound` at `at`.
    fn record(&mut self, steam_id: u64, at: Instant, sound: SoundType)
        ensures
            final(self)@ == old(self)@.insert(steam_id, (at, sound)),
    {
        self.player_sounds.insert(steam_id, (at, sound));
    }

    /// Forgets every sound that is no longer audible at `now`.
    fn forget_inaudible(&mut self, now: Instant, keep_for: Duration)
        ensures
            final(self)@ == audible(old(self)@, now, keep_for),
            total_nanos(keep_for) > 0 ==> forall|id: u64|
                #[trigger] old(self)@.contains_key(id) && old(self)@[id].0 == now
                    ==> final(self)@.contains_key(id),
    {
        let ghost start = self.player_sounds@;
        let limit = as_nanos(&keep_for);
        let mut stale: Vec<u64> = Vec::new();
        for pair in it: self.player_sounds.iter()
            invariant
                self.player_sounds@ == start,
                limit as nat == total_nanos(keep_for),
                it.seq() == vstd::std_specs::hash::spec_hash_map_iter(&self.player_sounds).remaining(),
                forall|j: int|
                    0 <= j < stale.len() ==> #[trigger] start.contains_key(stale@[j])
                        && !still_audible(start[stale@[j]].0, now, keep_for),
                limit > 0 ==> forall|j: int| 0 <= j < stale.len() ==> start[#[trigger] stale@[j]].0 != now,
                forall|i: int|
                    0 <= i < it.index() && !still_audible((*it.seq()[i].1).0, now, keep_for)
                        ==> exists|j: int| 0 <= j < stale.len() && #[trigger] stale@[j] == *it.seq()[i].0,
        {
            assert(pair == it.seq()[it.index() as int]);
            let ghost seen = it.index();
            let ghost before = stale@;
            let (steam_id, entry) = pair;
            assert(start.contains_key(*it.seq()[seen].0));
            assert(start[*steam_id] == *entry);
            let gap = saturating_duration_since(&now, &entry.0);
            if as_nanos(&gap) >= limit {
                assert(limit > 0 ==> entry.0 != now);
                stale.push(*steam_id);
                assert(forall|j: int| 0 <= j < before.len() ==> stale@[j] == before[j]);
            }
            proof {
                assert forall|i: int|
                    0 <= i <= seen && !still_audible((*it.seq()[i].1).0, now, keep_for) implies exists|
                        j: int,
                    | 0 <= j < stale.len() && #[trigger] stale@[j] == *it.seq()[i].0 by {
                    if i < seen {
                        let j = choose|j: int| 0 <= j < before.len() && before[j] == *it.seq()[i].0;
                        assert(stale@[j] == before[j]);
                    } else {
                        assert(stale@[stale.len() - 1] == *steam_id);
                    }
                }
            }
        }
        let mut k: usize = 0;
        while k < stale.len()
            invariant
                k <= stale.len(),
                forall|j: int|
                    0 <= j < stale.len() ==> #[trigger] start.contains_key(stale@[j])
                        && !still_audible(start[stale@[j]].0, now, keep_for),
                forall|id: u64|
                    start.contains_key(id) && !still_audible(start[id].0, now, keep_for)
                        ==> exists|j: int| 0 <= j < stale.len() && #[trigger] stale@[j] == id,
                limit > 0 ==> forall|j: int| 0 <= j < stale.len() ==> start[#[trigger] stale@[j]].0 != now,
                forall|id: u64|
                    #[trigger] self.player_sounds@.contains_key(id) <==> start.contains_key(id)
                        && forall|j: int| 0 <= j < k ==> #[trigger] stale@[j] != id,
                forall|id: u64|
                    #[trigger] self.player_sounds@.contains_key(id) ==> self.player_sounds@[id]
                        == start[id],
            decreases stale.len() - k,
        {
            self.player_sounds.remove(&stale[k]);
            k = k + 1;
        }
        assert(self.player_sounds@ =~= audible(start, now, keep_for));
    }

    /// Records this frame's sounds, heard at `now`, then forgets what is no
    /// longer audible at `now`.
    pub fn update_player_sounds_at(
        &mut self,
        players: &[PlayerSound],
        now: Instant,
        keep_for: Duration,
    )
        ensures
                final(self)@ == audible(recorded(old(self)@, players@, now), now, keep_for),
            total_nanos(keep_for) > 0 ==> shows_frame_sounds(final(self)@, players@, now),
    {
        let ghost start = self@;
        let mut i: usize = 0;
        while i < players.len()
            invariant
                i <= players.len(),
                self@ == recorded(start, players@.subrange(0, i as int), now),
            decreases players.len() - i,
        {
            assert(players@.subrange(0, i + 1).drop_last() =~= players@.subrange(0, i as int));
            match players[i].sound {
                Some(sound) => self.record(players[i].steam_id, now, sound),
                None => {},
            }
            i = i + 1;
        }
        assert(players@.subrange(0, i as int) =~= players@);
        let ghost heard = self@;
        self.forget_inaudible(now, keep_for);
        proof {
            if total_nanos(keep_for) > 0 {
                assert forall|k: int| #[trigger] last_heard_sighting(players@, k) implies self@.contains_key(
                    players@[k].steam_id,
                ) && self@[players@[k].steam_id] == (now, players@[k].sound->0) by {
                    law_latest_sound_recorded(start, players@, now, k);
                    assert(heard.contains_key(players@[k].steam_id));
                }
            }
        }
    }

    /// Records this frame's sounds at the current clock reading, then
    /// forgets what is no longer audible at that reading.
    pub fn update_player_sounds(&mut self, players: &[PlayerSound], keep_for: Duration)
        ensures
            exists|now: Instant|
                #![trigger recorded(old(self)@, players@, now)]
                {
                    &&& final(self)@ == audible(recorded(old(self)@, players@, now), now, keep_for)
                    &&& total_nanos(keep_for) > 0 ==> shows_frame_sounds(final(self)@, players@, now)
                },
    {
        let ghost start = self@;
        let now = instant_now();
        self.update_player_sounds_at(players, now, keep_for);
        assert({
            &&& self@ == audible(recorded(start, players@, now), now, keep_for)
            &&& total_nanos(keep_for) > 0 ==> shows_frame_sounds(self@, players@, now)
        });
    }
}

} // verus!
